//! Laws of the Radiance images: the size that a header writes down is the size that is
//! read, and however a scanline is written, flat or cut into runs and literals, it decodes
//! to the same pixels.

use vstd::arithmetic::power2::{lemma2_to64, lemma_pow2_adds, pow2};
use vstd::prelude::*;

use crate::hdr::{
    all_digits, channel, channel_units, channels, decoded, digits_value, header, is_blank,
    is_encoded, line_feed, next_number, next_word, number_determines_pattern, parsed_number,
    resolution, resolution_line, scanline, scanlines, skip_blanks, stands_for, units, word_end,
    HdrError, ONE_BITS,
};

verus! {

/// A piece of a run-length encoded channel.
pub ghost enum Packet {
    /// One value, repeated.
    Run { length: nat, value: u8 },
    /// Values as they are.
    Literal { values: Seq<u8> },
}

impl Packet {
    /// The piece can be written: it is not empty, and its count fits into a byte.
    pub open spec fn wf(self) -> bool {
        match self {
            Packet::Run { length, .. } => 1 <= length <= 127,
            Packet::Literal { values } => 1 <= values.len() <= 128,
        }
    }

    /// How the piece is written.
    pub open spec fn bytes(self) -> Seq<u8> {
        match self {
            Packet::Run { length, value } => seq![(128 + length) as u8, value],
            Packet::Literal { values } => seq![values.len() as u8] + values,
        }
    }

    /// The values that the piece stands for.
    pub open spec fn values(self) -> Seq<u8> {
        match self {
            Packet::Run { length, value } => Seq::new(length, |i: int| value),
            Packet::Literal { values } => values,
        }
    }
}

/// How a channel is written.
pub open spec fn packet_bytes(packets: Seq<Packet>) -> Seq<u8>
    decreases packets.len(),
{
    if packets.len() == 0 {
        Seq::empty()
    } else {
        packets[0].bytes() + packet_bytes(packets.skip(1))
    }
}

/// The values of a channel.
pub open spec fn packet_values(packets: Seq<Packet>) -> Seq<u8>
    decreases packets.len(),
{
    if packets.len() == 0 {
        Seq::empty()
    } else {
        packets[0].values() + packet_values(packets.skip(1))
    }
}

/// The pieces can be written.
pub open spec fn packets_wf(packets: Seq<Packet>) -> bool {
    forall|i: int| 0 <= i < packets.len() ==> (#[trigger] packets[i]).wf()
}

/// `part` is written in `bytes` from `pos` on.
pub open spec fn written_at(bytes: Seq<u8>, pos: int, part: Seq<u8>) -> bool {
    &&& 0 <= pos
    &&& pos + part.len() <= bytes.len()
    &&& forall|i: int| pos <= i < pos + part.len() ==> #[trigger] bytes[i] == part[i - pos]
}

proof fn lemma_written_parts(bytes: Seq<u8>, pos: int, a: Seq<u8>, b: Seq<u8>)
    requires
        written_at(bytes, pos, a + b),
    ensures
        written_at(bytes, pos, a),
        written_at(bytes, pos + a.len(), b),
{
    assert forall|i: int| pos <= i < pos + a.len() implies #[trigger] bytes[i] == a[i - pos] by {
        assert((a + b)[i - pos] == a[i - pos]);
    }
    assert forall|i: int| pos + a.len() <= i < pos + a.len() + b.len() implies
        #[trigger] bytes[i] == b[i - (pos + a.len())] by {
        assert((a + b)[i - pos] == b[i - pos - a.len()]);
    }
}

/// A channel decodes to its values, however it is cut into runs and literals.
pub proof fn any_split_of_a_channel_decodes(bytes: Seq<u8>, pos: int, packets: Seq<Packet>)
    requires
        packets_wf(packets),
        written_at(bytes, pos, packet_bytes(packets)),
    ensures
        channel(bytes, pos, packet_values(packets).len()) == Some(
            (packet_values(packets), pos + packet_bytes(packets).len()),
        ),
    decreases packets.len(),
{
    if packets.len() > 0 {
        let first = packets[0];
        let rest = packets.skip(1);
        assert(first.wf());
        assert forall|i: int| 0 <= i < rest.len() implies (#[trigger] rest[i]).wf() by {
            assert(rest[i] == packets[i + 1]);
        }
        lemma_written_parts(bytes, pos, first.bytes(), packet_bytes(rest));
        any_split_of_a_channel_decodes(bytes, pos + first.bytes().len(), rest);
        assert(bytes[pos] == first.bytes()[0]);
        match first {
            Packet::Run { length, value } => {
                assert(bytes[pos + 1] == first.bytes()[1]);
                assert(Seq::new(length, |i: int| bytes[pos + 1]) =~= first.values());
            },
            Packet::Literal { values } => {
                assert(bytes.subrange(pos + 1, pos + 1 + values.len()) =~= values) by {
                    assert forall|i: int| 0 <= i < values.len() implies #[trigger] bytes.subrange(
                        pos + 1,
                        pos + 1 + values.len(),
                    )[i] == values[i] by {
                        assert(bytes[pos + 1 + i] == first.bytes()[1 + i]);
                    }
                }
            },
        }
    }
}

/// A scanline as it can be written.
pub ghost enum Line {
    /// Four bytes for each pixel.
    Flat { pixels: Seq<u8> },
    /// The marker and the width, then four channels in pieces.
    Encoded { planes: Seq<Seq<Packet>> },
}

/// The values of all channels, pixel by pixel.
pub open spec fn interleaved(planes: Seq<Seq<Packet>>, width: u32) -> Seq<u8> {
    Seq::new((4 * width) as nat, |i: int| packet_values(planes[i % 4])[i / 4])
}

impl Line {
    /// The scanline can be written for an image of `width`: a flat one does not begin
    /// like an encoded one, and the channels of an encoded one are as long as the line.
    pub open spec fn wf(self, width: u32) -> bool {
        match self {
            Line::Flat { pixels } => {
                &&& pixels.len() == 4 * width
                &&& !(pixels.len() >= 2 && pixels[0] == 2 && pixels[1] == 2)
            },
            Line::Encoded { planes } => {
                &&& width <= 0xffff
                &&& planes.len() == 4
                &&& forall|c: int|
                    0 <= c < 4 ==> packets_wf(#[trigger] planes[c]) && packet_values(
                        planes[c],
                    ).len() == width
            },
        }
    }

    /// How the scanline is written.
    pub open spec fn bytes(self, width: u32) -> Seq<u8> {
        match self {
            Line::Flat { pixels } => pixels,
            Line::Encoded { planes } => seq![2u8, 2u8, (width / 256) as u8, (width % 256) as u8]
                + plane_bytes(planes, 4),
        }
    }

    /// The pixels of the scanline, four bytes each.
    pub open spec fn pixels(self, width: u32) -> Seq<u8> {
        match self {
            Line::Flat { pixels } => pixels,
            Line::Encoded { planes } => interleaved(planes, width),
        }
    }
}

/// How the first `n` channels are written.
pub open spec fn plane_bytes(planes: Seq<Seq<Packet>>, n: nat) -> Seq<u8>
    decreases n,
{
    if n == 0 {
        Seq::empty()
    } else {
        plane_bytes(planes, (n - 1) as nat) + packet_bytes(planes[n - 1])
    }
}

/// The values of the first `n` channels.
pub open spec fn plane_values(planes: Seq<Seq<Packet>>, n: nat) -> Seq<Seq<u8>> {
    Seq::new(n, |c: int| packet_values(planes[c]))
}

proof fn lemma_channels(bytes: Seq<u8>, pos: int, planes: Seq<Seq<Packet>>, width: nat, n: nat)
    requires
        n <= planes.len(),
        forall|c: int|
            0 <= c < n ==> packets_wf(#[trigger] planes[c]) && packet_values(planes[c]).len()
                == width,
        written_at(bytes, pos, plane_bytes(planes, n)),
    ensures
        channels(bytes, pos, width, n) == Some(
            (plane_values(planes, n), pos + plane_bytes(planes, n).len()),
        ),
    decreases n,
{
    if n == 0 {
        assert(plane_values(planes, 0) =~= Seq::empty());
    } else {
        let m = (n - 1) as nat;
        lemma_written_parts(bytes, pos, plane_bytes(planes, m), packet_bytes(planes[n - 1]));
        lemma_channels(bytes, pos, planes, width, m);
        any_split_of_a_channel_decodes(
            bytes,
            pos + plane_bytes(planes, m).len(),
            planes[n - 1],
        );
        assert(plane_values(planes, n) =~= plane_values(planes, m).push(
            packet_values(planes[n - 1]),
        ));
    }
}

/// A scanline decodes to its pixels, whether it is written flat or in pieces, and ends
/// where it was written to.
pub proof fn any_scanline_decodes(bytes: Seq<u8>, pos: int, width: u32, line: Line)
    requires
        width > 0,
        line.wf(width),
        written_at(bytes, pos, line.bytes(width)),
    ensures
        scanline(bytes, pos, width) == Ok::<(Seq<u8>, int), HdrError>(
            (line.pixels(width), pos + line.bytes(width).len()),
        ),
{
    match line {
        Line::Flat { pixels } => {
            assert(bytes[pos] == pixels[0] && bytes[pos + 1] == pixels[1]);
            assert(!is_encoded(bytes, pos));
            assert(bytes.subrange(pos, pos + 4 * width) =~= pixels);
        },
        Line::Encoded { planes } => {
            let head = seq![2u8, 2u8, (width / 256) as u8, (width % 256) as u8];
            lemma_written_parts(bytes, pos, head, plane_bytes(planes, 4));
            assert(bytes[pos] == head[0] && bytes[pos + 1] == head[1]);
            assert(bytes[pos + 2] == head[2] && bytes[pos + 3] == head[3]);
            assert(is_encoded(bytes, pos));
            lemma_channels(bytes, pos + 4, planes, width as nat, 4);
            let values = plane_values(planes, 4);
            assert(Seq::new((4 * width) as nat, |i: int| values[i % 4][i / 4]) =~= interleaved(
                planes,
                width,
            ));
        },
    }
}

/// How the first `n` scanlines are written.
pub open spec fn body_bytes(lines: Seq<Line>, width: u32, n: nat) -> Seq<u8>
    decreases n,
{
    if n == 0 {
        Seq::empty()
    } else {
        body_bytes(lines, width, (n - 1) as nat) + lines[n - 1].bytes(width)
    }
}

/// The pixels of the first `n` scanlines.
pub open spec fn body_pixels(lines: Seq<Line>, width: u32, n: nat) -> Seq<u8>
    decreases n,
{
    if n == 0 {
        Seq::empty()
    } else {
        body_pixels(lines, width, (n - 1) as nat) + lines[n - 1].pixels(width)
    }
}

proof fn lemma_body(bytes: Seq<u8>, pos: int, width: u32, lines: Seq<Line>, n: nat)
    requires
        width > 0,
        n <= lines.len(),
        forall|i: int| 0 <= i < lines.len() ==> (#[trigger] lines[i]).wf(width),
        written_at(bytes, pos, body_bytes(lines, width, n)),
    ensures
        scanlines(bytes, pos, width, n) == Ok::<(Seq<u8>, int), HdrError>(
            (body_pixels(lines, width, n), pos + body_bytes(lines, width, n).len()),
        ),
    decreases n,
{
    if n > 0 {
        let m = (n - 1) as nat;
        let above = body_bytes(lines, width, m);
        lemma_written_parts(bytes, pos, above, lines[n - 1].bytes(width));
        lemma_body(bytes, pos, width, lines, m);
        any_scanline_decodes(bytes, pos + above.len(), width, lines[n - 1]);
    }
}

/// `bytes` is an image of `width` by `height` pixels whose scanlines are `lines`.
pub open spec fn is_image(bytes: Seq<u8>, width: u32, height: u32, lines: Seq<Line>) -> bool {
    &&& width > 0 && height > 0
    &&& width * height * 4 <= u32::MAX
    &&& lines.len() == height
    &&& forall|i: int| 0 <= i < lines.len() ==> (#[trigger] lines[i]).wf(width)
    &&& header(bytes) matches Ok((h, w, pos)) && h == height && w == width && written_at(
        bytes,
        pos,
        body_bytes(lines, width, height as nat),
    )
}

/// An image decodes to the pixels of its scanlines, each of them flat or in pieces.
pub proof fn image_decodes(bytes: Seq<u8>, width: u32, height: u32, lines: Seq<Line>)
    requires
        is_image(bytes, width, height, lines),
    ensures
        decoded(bytes) == Ok::<(Seq<u8>, u32, u32), HdrError>(
            (body_pixels(lines, width, height as nat), width, height),
        ),
{
    if let Ok((h, w, pos)) = header(bytes) {
        lemma_body(bytes, pos, width, lines, height as nat);
    }
}

proof fn lemma_same_pixels(a: Seq<Line>, b: Seq<Line>, width: u32, n: nat)
    requires
        n <= a.len(),
        n <= b.len(),
        forall|i: int| 0 <= i < n ==> (#[trigger] a[i]).pixels(width) == b[i].pixels(width),
    ensures
        body_pixels(a, width, n) == body_pixels(b, width, n),
    decreases n,
{
    if n > 0 {
        lemma_same_pixels(a, b, width, (n - 1) as nat);
        assert(a[n - 1].pixels(width) == b[n - 1].pixels(width));
    }
}

/// Flat and run-length encoded scanlines decode alike: two images of one size whose
/// scanlines stand for the same pixels decode to the same size and the same numbers,
/// however each scanline is written.
pub proof fn flat_and_encoded_images_decode_alike(
    a: Seq<u8>,
    b: Seq<u8>,
    width: u32,
    height: u32,
    lines_a: Seq<Line>,
    lines_b: Seq<Line>,
    rgba_a: Seq<u32>,
    rgba_b: Seq<u32>,
)
    requires
        is_image(a, width, height, lines_a),
        is_image(b, width, height, lines_b),
        forall|i: int|
            0 <= i < height ==> (#[trigger] lines_a[i]).pixels(width) == lines_b[i].pixels(width),
        decoded(a) matches Ok((pixels, _, _)) ==> stands_for(rgba_a, pixels),
        decoded(b) matches Ok((pixels, _, _)) ==> stands_for(rgba_b, pixels),
    ensures
        decoded(a) is Ok,
        decoded(a) == decoded(b),
        rgba_a == rgba_b,
{
    image_decodes(a, width, height, lines_a);
    image_decodes(b, width, height, lines_b);
    lemma_same_pixels(lines_a, lines_b, width, height as nat);
    pixels_determine_the_numbers(
        body_pixels(lines_a, width, height as nat),
        rgba_a,
        rgba_b,
    );
}

/// The pixels of an image determine its numbers, bit by bit.
pub proof fn pixels_determine_the_numbers(pixels: Seq<u8>, a: Seq<u32>, b: Seq<u32>)
    requires
        stands_for(a, pixels),
        stands_for(b, pixels),
    ensures
        a == b,
{
    assert forall|k: int| 0 <= k < a.len() implies #[trigger] a[k] == b[k] by {
        if k % 4 == 3 {
            assert(a[k] == ONE_BITS && b[k] == ONE_BITS);
        } else {
            assert(units(a[k]) == units(b[k]));
            number_determines_pattern(a[k], b[k]);
        }
    }
    assert(a =~= b);
}

// ---------------------------------------------------------------------------
// Header
// ---------------------------------------------------------------------------

/// A number in decimal notation, the most significant digit first.
pub open spec fn decimal(n: nat) -> Seq<u8>
    decreases n,
{
    if n < 10 {
        seq![(0x30 + n) as u8]
    } else {
        decimal(n / 10).push((0x30 + n % 10) as u8)
    }
}

proof fn lemma_decimal(n: nat)
    ensures
        decimal(n).len() > 0,
        all_digits(decimal(n)),
        digits_value(decimal(n)) == n,
    decreases n,
{
    if n < 10 {
        let d = decimal(n);
        assert(d.drop_last() =~= Seq::empty());
        assert(digits_value(d.drop_last()) == 0);
    } else {
        lemma_decimal(n / 10);
        let d = decimal(n);
        assert(d.drop_last() =~= decimal(n / 10));
        assert(all_digits(d)) by {
            assert forall|i: int| 0 <= i < d.len() implies 0x30 <= #[trigger] d[i] <= 0x39 by {
                if i < d.len() - 1 {
                    assert(d[i] == decimal(n / 10)[i]);
                }
            }
        }
    }
}

/// Reading a written number gives the number back.
pub proof fn written_number_is_read_back(n: u32)
    ensures
        parsed_number(decimal(n as nat)) == Some(n),
{
    lemma_decimal(n as nat);
    assert(0x30 <= decimal(n as nat)[0] <= 0x39);
}

/// Blanks, and at least one of them.
pub open spec fn is_gap(s: Seq<u8>) -> bool {
    s.len() > 0 && forall|i: int| 0 <= i < s.len() ==> #[trigger] s[i] == 0x20 || s[i] == 0x09
}

proof fn lemma_skip(line: Seq<u8>, pos: int, a: int)
    requires
        0 <= pos <= a <= line.len(),
        forall|i: int| pos <= i < a ==> is_blank(#[trigger] line[i]),
        a < line.len() ==> !is_blank(line[a]),
    ensures
        skip_blanks(line, pos) == a,
    decreases a - pos,
{
    if pos < a {
        assert(is_blank(line[pos]));
        lemma_skip(line, pos + 1, a);
    }
}

proof fn lemma_end(line: Seq<u8>, pos: int, b: int)
    requires
        0 <= pos <= b <= line.len(),
        forall|i: int| pos <= i < b ==> !is_blank(#[trigger] line[i]),
        b < line.len() ==> is_blank(line[b]),
    ensures
        word_end(line, pos) == b,
    decreases b - pos,
{
    if pos < b {
        assert(!is_blank(line[pos]));
        lemma_end(line, pos + 1, b);
    }
}

proof fn lemma_word(line: Seq<u8>, pos: int, a: int, b: int)
    requires
        0 <= pos <= a < b <= line.len(),
        forall|i: int| pos <= i < a ==> is_blank(#[trigger] line[i]),
        forall|i: int| a <= i < b ==> !is_blank(#[trigger] line[i]),
        b < line.len() ==> is_blank(line[b]),
    ensures
        next_word(line, pos) == Some((a, b)),
{
    assert(!is_blank(line[a]));
    lemma_skip(line, pos, a);
    lemma_end(line, a, b);
}

/// The line of a header that gives the size of an image, with gaps between its words.
pub open spec fn size_line(
    height: u32,
    width: u32,
    first: Seq<u8>,
    second: Seq<u8>,
    third: Seq<u8>,
) -> Seq<u8> {
    seq![0x2du8, 0x59u8] + first + decimal(height as nat) + second + seq![0x2bu8, 0x58u8] + third
        + decimal(width as nat)
}

proof fn lemma_size_line(
    height: u32,
    width: u32,
    first: Seq<u8>,
    second: Seq<u8>,
    third: Seq<u8>,
)
    requires
        is_gap(first),
        is_gap(second),
        is_gap(third),
    ensures
        resolution(size_line(height, width, first, second, third), 0, 0, 0) == Ok::<
            (u32, u32),
            HdrError,
        >((height, width)),
        forall|i: int|
            0 <= i < size_line(height, width, first, second, third).len() ==> #[trigger] size_line(
                height,
                width,
                first,
                second,
                third,
            )[i] != 10,
{
    let line = size_line(height, width, first, second, third);
    let dh = decimal(height as nat);
    let dw = decimal(width as nat);
    lemma_decimal(height as nat);
    lemma_decimal(width as nat);
    let y = seq![0x2du8, 0x59u8];
    let x = seq![0x2bu8, 0x58u8];
    let p1 = 2 + first.len() as int;
    let p2 = p1 + dh.len();
    let p3 = p2 + second.len();
    let p4 = p3 + 2;
    let p5 = p4 + third.len();
    assert(line.len() == p5 + dw.len());
    assert forall|i: int| 2 <= i < p1 implies is_blank(#[trigger] line[i]) by {
        assert(line[i] == first[i - 2]);
    }
    assert forall|i: int| p1 <= i < p2 implies 0x30 <= #[trigger] line[i] <= 0x39 by {
        assert(line[i] == dh[i - p1]);
    }
    assert forall|i: int| p2 <= i < p3 implies is_blank(#[trigger] line[i]) by {
        assert(line[i] == second[i - p2]);
    }
    assert(line[p3] == x[0] && line[p3 + 1] == x[1]);
    assert forall|i: int| p4 <= i < p5 implies is_blank(#[trigger] line[i]) by {
        assert(line[i] == third[i - p4]);
    }
    assert forall|i: int| p5 <= i < line.len() implies 0x30 <= #[trigger] line[i] <= 0x39 by {
        assert(line[i] == dw[i - p5]);
    }
    assert(line[0] == y[0] && line[1] == y[1]);
    assert(is_blank(line[2]) && is_blank(line[p2]) && is_blank(line[p4]));
    lemma_word(line, 0, 0, 2);
    lemma_word(line, 2, p1, p2);
    lemma_word(line, p2, p3, p4);
    lemma_word(line, p4, p5, line.len() as int);
    assert(line.subrange(0, 2) =~= y);
    assert(line.subrange(p1, p2) =~= dh);
    assert(line.subrange(p3, p4) =~= x);
    assert(line.subrange(p5, line.len() as int) =~= dw);
    written_number_is_read_back(height);
    written_number_is_read_back(width);
    assert(next_number(line, 2) == Some((height, p2)));
    assert(next_number(line, p4) == Some((width, line.len() as int)));
    lemma_skip(line, line.len() as int, line.len() as int);
    assert(next_word(line, line.len() as int) is None);
    assert(x != y) by {
        assert(x[0] != y[0]);
    }
    assert(resolution(line, line.len() as int, height, width) == Ok::<(u32, u32), HdrError>(
        (height, width),
    ));
    assert(resolution(line, p2, height, 0) == resolution(line, line.len() as int, height, width));
    assert(resolution(line, 0, 0, 0) == resolution(line, p2, height, 0));
}

/// The lines of a header before the one that gives the size: none holds a line feed, and
/// none begins like that one.
pub open spec fn is_preamble(lines: Seq<Seq<u8>>) -> bool {
    forall|k: int|
        0 <= k < lines.len() ==> {
            &&& !(#[trigger] lines[k]).contains(10)
            &&& lines[k].len() < 2 || lines[k][0] != 0x2d || lines[k][1] != 0x59
        }
}

/// How lines are written.
pub open spec fn line_bytes(lines: Seq<Seq<u8>>) -> Seq<u8>
    decreases lines.len(),
{
    if lines.len() == 0 {
        Seq::empty()
    } else {
        lines[0].push(10) + line_bytes(lines.skip(1))
    }
}

proof fn lemma_line_feed(bytes: Seq<u8>, pos: int, end: int)
    requires
        0 <= pos <= end < bytes.len(),
        forall|i: int| pos <= i < end ==> #[trigger] bytes[i] != 10,
        bytes[end] == 10,
    ensures
        line_feed(bytes, pos) == Some(end),
    decreases end - pos,
{
    if pos < end {
        assert(bytes[pos] != 10);
        lemma_line_feed(bytes, pos + 1, end);
    }
}

proof fn lemma_preamble(bytes: Seq<u8>, pos: int, lines: Seq<Seq<u8>>)
    requires
        is_preamble(lines),
        written_at(bytes, pos, line_bytes(lines)),
    ensures
        resolution_line(bytes, pos) == resolution_line(bytes, pos + line_bytes(lines).len()),
    decreases lines.len(),
{
    if lines.len() > 0 {
        let line = lines[0];
        let rest = lines.skip(1);
        assert(is_preamble(rest)) by {
            assert forall|k: int| 0 <= k < rest.len() implies {
                &&& !(#[trigger] rest[k]).contains(10)
                &&& rest[k].len() < 2 || rest[k][0] != 0x2d || rest[k][1] != 0x59
            } by {
                assert(rest[k] == lines[k + 1]);
            }
        }
        assert(!line.contains(10));
        lemma_written_parts(bytes, pos, line.push(10), line_bytes(rest));
        let end = pos + line.len();
        assert forall|i: int| pos <= i < end implies #[trigger] bytes[i] != 10 by {
            assert(bytes[i] == line.push(10)[i - pos]);
            assert(line.contains(line[i - pos]));
        }
        assert(bytes[end] == line.push(10)[end - pos]);
        lemma_line_feed(bytes, pos, end);
        assert(bytes.subrange(pos, end) =~= line) by {
            assert forall|i: int| 0 <= i < line.len() implies #[trigger] bytes.subrange(pos, end)[i]
                == line[i] by {
                assert(bytes[pos + i] == line.push(10)[i]);
            }
        }
        lemma_preamble(bytes, end + 1, rest);
    }
}

/// The size that a header writes down is the size that is read: behind any lines that do
/// not begin like it, the size line gives height and width as they are written, the most
/// significant digit first, and the pixels begin behind it.
pub proof fn written_size_is_read_back(
    lines: Seq<Seq<u8>>,
    height: u32,
    width: u32,
    first: Seq<u8>,
    second: Seq<u8>,
    third: Seq<u8>,
    data: Seq<u8>,
)
    requires
        is_preamble(lines),
        is_gap(first),
        is_gap(second),
        is_gap(third),
    ensures
        ({
            let head = line_bytes(lines) + size_line(height, width, first, second, third).push(10);
            header(head + data) == Ok::<(u32, u32, int), HdrError>(
                (height, width, head.len() as int),
            )
        }),
{
    let line = size_line(height, width, first, second, third);
    let before = line_bytes(lines);
    let bytes = before + line.push(10) + data;
    let a = before.len() as int;
    let b = a + line.len();
    lemma_size_line(height, width, first, second, third);
    assert forall|i: int| 0 <= i < before.len() implies #[trigger] bytes[i] == before[i] by {}
    lemma_preamble(bytes, 0, lines);
    assert forall|i: int| a <= i < b implies #[trigger] bytes[i] != 10 by {
        assert(bytes[i] == line[i - a]);
    }
    assert(bytes[b] == line.push(10)[b - a]);
    lemma_line_feed(bytes, a, b);
    assert(bytes.subrange(a, b) =~= line);
    assert(line[0] == 0x2d && line[1] == 0x59);
}

// ---------------------------------------------------------------------------
// Numbers
// ---------------------------------------------------------------------------

/// A channel is its mantissa times 2 to the power of the exponent less 136, in terms of
/// the number one; a zero exponent makes it black.
pub proof fn channel_is_scaled_by_its_exponent(m: u8, e: u8)
    ensures
        e == 0 ==> channel_units(m, e) == 0,
        e > 0 ==> channel_units(m, e) * pow2(136) == m * pow2(e as nat) * units(ONE_BITS),
{
    if e > 0 {
        lemma_pow2_adds(e as nat, 13);
        lemma_pow2_adds(13, 136);
        lemma_pow2_adds(126, 23);
        lemma2_to64();
        assert(pow2(23) == 0x80_0000);
        assert(units(ONE_BITS) == 0x80_0000 * pow2(126));
        let (p, a, b, c) = (
            pow2(e as nat) as int,
            pow2(13) as int,
            pow2(136) as int,
            pow2(149) as int,
        );
        assert(m * (p * a) * b == m * p * c) by (nonlinear_arith)
            requires
                a * b == c,
        ;
    }
}

/// Every pixel has its own color, under its own exponent, and is opaque.
pub proof fn pixel_has_its_own_color(rgba: Seq<u32>, rgbe: Seq<u8>, i: int, c: int)
    requires
        stands_for(rgba, rgbe),
        0 <= i,
        4 * i + 4 <= rgbe.len(),
        0 <= c < 3,
        rgbe[4 * i + 3] > 0,
    ensures
        units(rgba[4 * i + c]) * pow2(136) == rgbe[4 * i + c] * pow2(rgbe[4 * i + 3] as nat)
            * units(ONE_BITS),
        rgba[4 * i + 3] == ONE_BITS,
{
    let k = 4 * i + c;
    assert(k % 4 == c);
    assert((4 * i + 3) % 4 == 3);
    assert(units(rgba[k]) == channel_units(rgbe[k], rgbe[k - k % 4 + 3]));
    assert(rgba[4 * i + 3] == ONE_BITS);
    channel_is_scaled_by_its_exponent(rgbe[k], rgbe[4 * i + 3]);
}

/// A digit behind a number makes it ten times as large and adds itself, as long as it
/// fits; and a single digit is the number that it stands for.
pub proof fn digit_behind_a_number_counts(word: Seq<u8>, d: u8)
    requires
        parsed_number(word) is Some,
        d < 10,
    ensures
        parsed_number(word.push((0x30 + d) as u8)) == (if parsed_number(word)->Some_0 * 10 + d
            <= u32::MAX {
            Some((parsed_number(word)->Some_0 * 10 + d) as u32)
        } else {
            None
        }),
        parsed_number(seq![(0x30 + d) as u8]) == Some(d as u32),
{
    let more = word.push((0x30 + d) as u8);
    if word[0] == 0x2b {
        assert(more.skip(1) =~= word.skip(1).push((0x30 + d) as u8));
        assert(more.skip(1).drop_last() =~= word.skip(1));
    } else {
        assert(more.drop_last() =~= word);
    }
    let one = seq![(0x30 + d) as u8];
    assert(one.drop_last() =~= Seq::empty());
    reveal_with_fuel(digits_value, 2);
}

/// Only numbers are read: there is a digit, and but for a plus sign at the front there is
/// nothing else. The plus sign changes nothing.
pub proof fn only_numbers_are_read(word: Seq<u8>, i: int)
    ensures
        parsed_number(word) is Some ==> word.len() > 0 && 0x30 <= word.last() <= 0x39,
        parsed_number(word) is Some && 0 <= i < word.len() && word[i] != 0x2b ==> 0x30 <= word[i]
            <= 0x39,
        parsed_number(word) is Some && 0 <= i < word.len() && word[i] == 0x2b ==> i == 0,
        word.len() > 0 && word[0] != 0x2b ==> parsed_number(seq![0x2bu8] + word) == parsed_number(
            word,
        ),
{
    assert((seq![0x2bu8] + word).skip(1) =~= word);
    if parsed_number(word) is Some {
        if word[0] == 0x2b {
            let digits = word.skip(1);
            assert(digits.last() == word.last());
            assert(digits[digits.len() - 1] == digits.last());
            if 0 < i < word.len() {
                assert(digits[i - 1] == word[i]);
            }
        } else {
            assert(word[word.len() - 1] == word.last());
        }
    }
}

proof fn lemma_no_line_feed(bytes: Seq<u8>, pos: int)
    requires
        forall|i: int| 0 <= i < bytes.len() ==> bytes[i] != 10,
    ensures
        line_feed(bytes, pos) is None,
    decreases bytes.len() - pos,
{
    if 0 <= pos < bytes.len() {
        lemma_no_line_feed(bytes, pos + 1);
    }
}

/// A file in which no line ends has no header, and that is the error that it is refused
/// with.
pub proof fn file_without_lines_is_refused(bytes: Seq<u8>)
    requires
        forall|i: int| 0 <= i < bytes.len() ==> bytes[i] != 10,
    ensures
        header(bytes) == Err::<(u32, u32, int), HdrError>(HdrError::UnterminatedHeader),
        decoded(bytes) == Err::<(Seq<u8>, u32, u32), HdrError>(HdrError::UnterminatedHeader),
{
    lemma_no_line_feed(bytes, 0);
}

} // verus!
