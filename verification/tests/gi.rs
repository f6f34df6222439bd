use prism::float_order::{is_at_most, is_at_most_zero, is_less};
use prism::gi::{
    base_cell, corners, count_unused, grid_dim, regroup, screen_probes, ProbeGrid,
    ProbeVolumeInfo, SH_COEFF_COUNT, TOO_BRIGHT_BITS, UNUSED_BITS,
};

#[test]
fn order_is_that_of_the_numbers() {
    let values = [
        0.0f32, -0.0, 1.0, -1.0, 1.5e6, f32::MIN_POSITIVE, -f32::MIN_POSITIVE, 1e-45, f32::MAX,
        f32::MIN, f32::INFINITY, f32::NEG_INFINITY, f32::NAN, -f32::NAN,
    ];
    for a in values {
        assert_eq!(is_at_most_zero(a.to_bits()), a <= 0.0);
        for b in values {
            assert_eq!(is_less(a.to_bits(), b.to_bits()), a < b);
            assert_eq!(is_at_most(a.to_bits(), b.to_bits()), a <= b);
        }
    }
}

#[test]
fn cells_stay_inside() {
    assert_eq!(base_cell(-3, 5), 0);
    assert_eq!(base_cell(2, 5), 2);
    assert_eq!(base_cell(4, 5), 3);
    assert_eq!(base_cell(7, 1), 0);
    assert_eq!(base_cell(7, 2), 0);
}

#[test]
fn corners_count_in_binary() {
    let c = corners([4, 5, 6]);
    for idx in 0..8 {
        assert_eq!(c[idx][0], 4 + (idx & 1) as i32);
        assert_eq!(c[idx][1], 5 + ((idx >> 1) & 1) as i32);
        assert_eq!(c[idx][2], 6 + ((idx >> 2) & 1) as i32);
    }
}

#[test]
fn dimensions_are_bounded() {
    assert_eq!((grid_dim(0), grid_dim(2), grid_dim(17), grid_dim(33)), (2, 2, 17, 32));
}

#[test]
fn texels_become_probes() {
    let g = ProbeGrid { dx: 2, dy: 3, dz: 2 };
    let count = 12;
    let mut pixels = vec![0u32; count * SH_COEFF_COUNT * 4];
    for c in 0..SH_COEFF_COUNT {
        for z in 0..2 {
            for y in 0..3 {
                for x in 0..2 {
                    let texel = ((c * 2 + z) * 3 + y) * 2 + x;
                    for a in 0..4 {
                        pixels[texel * 4 + a] = (c * 10000 + z * 1000 + y * 100 + x * 10 + a) as u32;
                    }
                }
            }
        }
    }
    let v = regroup(&pixels, g);
    assert_eq!((v.coeffs.len(), v.hit_ratios.len()), (108, 12));
    let probe = 1 + 2 * 2 + 6;
    assert_eq!(v.coeffs[probe * SH_COEFF_COUNT + 7], [71210, 71211, 71212]);
    assert_eq!(v.hit_ratios[probe], 1213);
    assert!(regroup(&Vec::<u32>::new(), ProbeGrid { dx: 0, dy: 3, dz: 1 }).coeffs.is_empty());
}

#[test]
fn degenerate_probes_are_taken_out() {
    assert_eq!(UNUSED_BITS, (-1.0f32).to_bits());
    assert_eq!(TOO_BRIGHT_BITS, 1.5e6f32.to_bits());
    let mut coeffs = vec![[0.5f32.to_bits(); 3]; 4 * SH_COEFF_COUNT];
    let mut hits = vec![0.5f32.to_bits(); 4];
    coeffs[SH_COEFF_COUNT][2] = (-1.5f32).to_bits();
    coeffs[2 * SH_COEFF_COUNT + 8][1] = 1.6e6f32.to_bits();
    coeffs[3 * SH_COEFF_COUNT + 1][0] = (-1.5f32).to_bits();
    assert_eq!(screen_probes(&mut coeffs, &mut hits), 2);
    assert_eq!(hits[0], 0.5f32.to_bits());
    assert_eq!(hits[1], UNUSED_BITS);
    assert_eq!(hits[2], UNUSED_BITS);
    assert_eq!(hits[3], 0.5f32.to_bits());
    assert!(coeffs[SH_COEFF_COUNT..3 * SH_COEFF_COUNT].iter().all(|c| *c == [0, 0, 0]));
    assert_eq!(coeffs[3 * SH_COEFF_COUNT + 1][0], (-1.5f32).to_bits());
    assert_eq!(count_unused(&hits), 2);
    assert_eq!(screen_probes(&mut coeffs, &mut hits), 0);
}

#[test]
fn volume_info_is_padded() {
    let info = ProbeVolumeInfo::new([1, 2, 3], [4, 5, 6], [7, 8, 9]);
    assert_eq!(info.origin, [1, 2, 3, 0]);
    assert_eq!(info.spacing, [4, 5, 6, 0]);
    assert_eq!(info.dims, [7, 8, 9, 0]);
}

#[test]
fn probe_volume_info_size_is_48() {
    let info = ProbeVolumeInfo::new([1, 2, 3], [4, 5, 6], [7, 8, 9]);
    assert_eq!(info.words().len() * 4, 48);
}

#[test]
fn probe_volume_info_offsets() {
    let w = ProbeVolumeInfo::new([1, 2, 3], [4, 5, 6], [7, 8, 9]).words();
    let offset_of = |word: u32| 4 * w.iter().position(|x| *x == word).unwrap();
    assert_eq!(offset_of(1), 0);
    assert_eq!(offset_of(4), 16);
    assert_eq!(offset_of(7), 32);
}
