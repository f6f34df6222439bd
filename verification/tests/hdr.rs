use prism::hdr::{load_rgbe, rgbe_to_float, HdrError};

fn floats(bits: (u32, u32, u32)) -> (f32, f32, f32) {
    (f32::from_bits(bits.0), f32::from_bits(bits.1), f32::from_bits(bits.2))
}

#[test]
fn rgbe_zero_exponent_is_black() {
    let (r, g, b) = floats(rgbe_to_float(255, 255, 255, 0));
    assert_eq!((r, g, b), (0.0, 0.0, 0.0));
}

#[test]
fn rgbe_known_value() {
    let (r, _, _) = floats(rgbe_to_float(128, 0, 0, 128));
    assert!((r - 0.5).abs() < 1e-4);
    assert_eq!(r, 0.5);
}

#[test]
fn rgbe_agrees_with_arithmetic() {
    for e in 1..=255u32 {
        for m in 0..=255u32 {
            let want = (m as f64) * 2f64.powi(e as i32 - 136);
            let got = f32::from_bits(rgbe_to_float(m as u8, 0, 0, e as u8).0);
            assert_eq!(got as f64, want, "mantissa {} exponent {}", m, e);
        }
    }
}

#[test]
fn decode_rle_scanline() {
    let header = b"#?RADIANCE\nFORMAT=32-bit_rle_rgbe\n\n-Y 1 +X 4\n";
    let scanline = [
        0x02u8, 0x02, 0x00, 0x04, 0x84, 0x0a, 0x84, 0x14, 0x84, 0x1e, 0x84, 0x80,
    ];
    let mut data = header.to_vec();
    data.extend_from_slice(&scanline);

    let image = load_rgbe(&data).expect("decode rle");
    let rgba: Vec<f32> = image.rgba.iter().map(|b| f32::from_bits(*b)).collect();
    assert_eq!((image.width, image.height), (4, 1));
    assert_eq!(rgba.len(), 16);
    assert!((rgba[0] - 10.0 / 256.0).abs() < 1e-5);
    assert!((rgba[1] - 20.0 / 256.0).abs() < 1e-5);
    assert!((rgba[2] - 30.0 / 256.0).abs() < 1e-5);
    assert_eq!(rgba[3], 1.0);
}

#[test]
fn decode_rle_literal_run() {
    let header = b"#?RADIANCE\nFORMAT=32-bit_rle_rgbe\n\n-Y 1 +X 4\n";
    let scanline = [
        0x02u8, 0x02, 0x00, 0x04, 0x04, 0x0a, 0x14, 0x1e, 0x28, 0x04, 0x01, 0x02, 0x03, 0x04, 0x04,
        0x05, 0x06, 0x07, 0x08, 0x04, 0x80, 0x80, 0x80, 0x80,
    ];
    let mut data = header.to_vec();
    data.extend_from_slice(&scanline);

    let image = load_rgbe(&data).expect("decode rle literal");
    let rgba: Vec<f32> = image.rgba.iter().map(|b| f32::from_bits(*b)).collect();
    assert_eq!((image.width, image.height), (4, 1));
    assert!((rgba[0] - 10.0 / 256.0).abs() < 1e-5);
    assert!((rgba[1] - 1.0 / 256.0).abs() < 1e-5);
    assert!((rgba[2] - 5.0 / 256.0).abs() < 1e-5);
    assert_eq!(rgba[3], 1.0);
}

#[test]
fn short_file_is_truncated() {
    let data = b"#?RADIANCE\nFORMAT=32-bit_rle_rgbe\n\n-Y 1 +X 4\n\x02\x02\x00\x04\x84".to_vec();
    assert!(matches!(load_rgbe(&data), Err(HdrError::Truncated)));
}

fn refused(bytes: &[u8]) -> HdrError {
    match load_rgbe(bytes) {
        Ok(_) => panic!("the image is refused"),
        Err(e) => e,
    }
}

#[test]
fn broken_headers_are_refused() {
    assert_eq!(refused(b""), HdrError::UnterminatedHeader);
    assert_eq!(refused(b"#?RADIANCE\n\n-Y 1 +X 4"), HdrError::UnterminatedHeader);
    assert_eq!(refused(b"-Y\n"), HdrError::BadHeight);
    assert_eq!(refused(b"-Y x +X 4\n"), HdrError::BadHeight);
    assert_eq!(refused(b"-Y 1 +X -4\n"), HdrError::BadWidth);
    assert_eq!(refused(b"-Y 1\n"), HdrError::NoResolution);
    assert_eq!(refused(b"-Y 0 +X 4\n"), HdrError::NoResolution);
    assert_eq!(refused(b"-Y 65536 +X 65536\n"), HdrError::TooLarge);
}

#[test]
fn scanline_of_another_width_is_refused() {
    let e = refused(b"-Y 1 +X 4\n\x02\x02\x00\x05");
    assert_eq!(e, HdrError::WidthMismatch { marker: 5, width: 4 });
}

#[test]
fn plain_pixels_are_read() {
    let image = load_rgbe(b"-Y 2\t+X  1\n\x80\x40\x00\x81\x00\x00\x80\x80").expect("plain");
    let rgba: Vec<f32> = image.rgba.iter().map(|b| f32::from_bits(*b)).collect();
    assert_eq!(rgba, vec![1.0, 0.5, 0.0, 1.0, 0.0, 0.0, 0.5, 1.0]);
}

#[test]
fn run_stops_at_the_end_of_the_scanline() {
    let mut data = b"-Y 1 +X 2\n\x02\x02\x00\x02".to_vec();
    data.extend_from_slice(&[0xff, 1, 0xff, 2, 0xff, 3, 0xff, 136]);
    let image = load_rgbe(&data).expect("long runs");
    let rgba: Vec<f32> = image.rgba.iter().map(|b| f32::from_bits(*b)).collect();
    assert_eq!(rgba, vec![1.0, 2.0, 3.0, 1.0, 1.0, 2.0, 3.0, 1.0]);
}

#[test]
fn flat_and_encoded_scanlines_decode_alike() {
    let header = b"-Y 2 +X 4\n";
    let rows = [
        [9u8, 1, 5, 128, 9, 2, 5, 128, 9, 3, 5, 128, 8, 4, 6, 130],
        [1u8, 1, 1, 129, 1, 1, 1, 129, 2, 2, 2, 129, 2, 2, 2, 129],
    ];
    let mut flat = header.to_vec();
    let mut encoded = header.to_vec();
    for (y, row) in rows.iter().enumerate() {
        flat.extend_from_slice(row);
        encoded.extend_from_slice(&[2, 2, 0, 4]);
        for c in 0..4 {
            let plane: Vec<u8> = (0..4).map(|x| row[4 * x + c]).collect();
            if y == 0 {
                // A literal and single values as runs.
                encoded.extend_from_slice(&[2, plane[0], plane[1], 129, plane[2], 129, plane[3]]);
            } else {
                // A run and two short literals.
                encoded.extend_from_slice(&[130, plane[0], 1, plane[2], 1, plane[3]]);
            }
        }
    }
    let a = load_rgbe(&flat).expect("flat");
    let b = load_rgbe(&encoded).expect("encoded");
    assert_eq!((a.width, a.height), (4, 2));
    assert_eq!((a.width, a.height, a.rgba), (b.width, b.height, b.rgba));
}
