//! Radiance RGBE images: header, run-length encoded scanlines, and the floating-point
//! numbers that the pixels stand for, as bit patterns.

use vstd::arithmetic::power2::{lemma_pow2_adds, lemma_pow2_pos, lemma_pow2_unfold, pow2};
use vstd::prelude::*;

verus! {

/// Why an image cannot be decoded.
#[derive(Clone, Copy, Debug, PartialEq, Eq, Structural)]
pub enum HdrError {
    /// The header ends before its resolution line.
    UnterminatedHeader,
    /// `-Y` is not followed by a number.
    BadHeight,
    /// `+X` is not followed by a number.
    BadWidth,
    /// The resolution is missing or zero.
    NoResolution,
    /// The image has more values than can be counted in 32 bits.
    TooLarge,
    /// A scanline is encoded for another width.
    WidthMismatch { marker: u32, width: u32 },
    /// The data ends before the image does.
    Truncated,
}

/// A decoded image: four single-precision bit patterns for each pixel, row by row.
pub struct HdrImage {
    pub rgba: Vec<u32>,
    pub width: u32,
    pub height: u32,
}

// ---------------------------------------------------------------------------
// Numbers
// ---------------------------------------------------------------------------

/// Bit pattern of the number one.
pub const ONE_BITS: u32 = 0x3f80_0000;

/// The finite, non-negative number of a single-precision bit pattern, in units of the
/// smallest positive one, which is 2 to the power of -149.
pub open spec fn units(bits: u32) -> int {
    let exponent = bits as int / 0x80_0000;
    let fraction = bits as int % 0x80_0000;
    if exponent == 0 {
        fraction
    } else {
        (0x80_0000 + fraction) * pow2((exponent - 1) as nat)
    }
}

/// One channel of a pixel: mantissa `m` times 2 to the power of `e - 136`, or zero for
/// a zero exponent.
pub open spec fn channel_units(m: u8, e: u8) -> int {
    if e == 0 {
        0
    } else {
        m * pow2((e + 13) as nat)
    }
}

/// The bit pattern of one channel of a pixel. The number is exact.
pub fn channel_bits(m: u8, e: u8) -> (r: u32)
    ensures
        units(r) == channel_units(m, e),
        r < 0x7f80_0000,
{
    if e == 0 || m == 0 {
        proof {
            if e != 0 {
                assert(0 * pow2((e + 13) as nat) == 0) by (nonlinear_arith);
            }
        }
        return 0;
    }
    let mut top: u32 = m as u32;
    let mut shift: u32 = 0;
    proof {
        vstd::arithmetic::power2::lemma2_to64();
    }
    while top < 0x80_0000
        invariant
            1 <= m,
            1 <= top < 0x100_0000,
            top == m * pow2(shift as nat),
            shift <= 23,
        decreases 0x100_0000 - top,
    {
        proof {
            lemma_pow2_unfold((shift + 1) as nat);
            lemma_pow2_pos(shift as nat);
            let p = pow2(shift as nat) as int;
            assert(m * (2 * p) == 2 * (m * p)) by (nonlinear_arith);
            assert(p <= m * p) by (nonlinear_arith)
                requires
                    1 <= m,
                    p >= 0,
            ;
            assert(shift < 23) by {
                vstd::arithmetic::power2::lemma2_to64();
                if shift == 23 {
                    assert(pow2(23) == 0x80_0000);
                }
            }
        }
        top = top * 2;
        shift = shift + 1;
    }
    let biased: u32 = e as u32 + 14;
    if biased > shift {
        let exponent: u32 = biased - shift;
        let fraction: u32 = top - 0x80_0000;
        proof {
            lemma_top_exponent(m, top, shift);
            let p = pow2(shift as nat) as int;
            let q = pow2((exponent - 1) as nat) as int;
            lemma_pow2_adds(shift as nat, (exponent - 1) as nat);
            assert(shift + (exponent - 1) == e + 13);
            assert((m * p) * q == m * (p * q)) by (nonlinear_arith);
            let bits = exponent * 0x80_0000 + fraction;
            assert(bits / 0x80_0000 == exponent);
            assert(bits % 0x80_0000 == fraction);
        }
        exponent * 0x80_0000 + fraction
    } else {
        let mut small: u32 = m as u32;
        let mut k: u32 = 0;
        let doublings: u32 = e as u32 + 13;
        proof {
            vstd::arithmetic::power2::lemma2_to64();
        }
        while k < doublings
            invariant
                k <= doublings,
                doublings == e + 13,
                1 <= m,
                doublings + 1 <= shift,
                shift <= 23,
                top == m * pow2(shift as nat),
                top < 0x100_0000,
                small == m * pow2(k as nat),
                small < 0x80_0000,
            decreases doublings - k,
        {
            proof {
                lemma_pow2_unfold((k + 1) as nat);
                let p = pow2(k as nat) as int;
                assert(m * (2 * p) == 2 * (m * p)) by (nonlinear_arith);
                lemma_small_bound(m, (k + 1) as nat, shift, top);
            }
            small = small * 2;
            k = k + 1;
        }
        small
    }
}

/// A mantissa that takes `shift` doublings to reach 24 bits has an exponent above that
/// of the smallest byte.
proof fn lemma_top_exponent(m: u8, top: u32, shift: u32)
    requires
        1 <= m,
        top == m * pow2(shift as nat),
        0x80_0000 <= top,
    ensures
        shift >= 16,
{
    vstd::arithmetic::power2::lemma2_to64();
    if shift < 16 {
        if shift < 15 {
            vstd::arithmetic::power2::lemma_pow2_strictly_increases(shift as nat, 15);
        }
        let p = pow2(shift as nat) as int;
        assert(p <= 0x8000);
        assert(m * p <= 255 * 0x8000) by (nonlinear_arith)
            requires
                m <= 255,
                0 <= p <= 0x8000,
        ;
    }
}

proof fn lemma_small_bound(m: u8, k: nat, shift: u32, top: u32)
    requires
        k + 1 <= shift,
        top == m * pow2(shift as nat),
        top < 0x100_0000,
    ensures
        m * pow2(k) < 0x80_0000,
{
    lemma_pow2_adds(k, (shift - k) as nat);
    lemma_pow2_pos(k);
    lemma_pow2_unfold((shift - k) as nat);
    lemma_pow2_pos((shift - k - 1) as nat);
    let a = pow2(k) as int;
    let b = pow2((shift - k) as nat) as int;
    assert(b >= 2);
    assert(2 * (m * a) <= m * (a * b)) by (nonlinear_arith)
        requires
            b >= 2,
            a >= 0,
            m >= 0,
    ;
}

/// A finite, non-negative number has one bit pattern.
pub proof fn number_determines_pattern(a: u32, b: u32)
    requires
        a < 0x7f80_0000,
        b < 0x7f80_0000,
        units(a) == units(b),
    ensures
        a == b,
{
    let ea = a as int / 0x80_0000;
    let eb = b as int / 0x80_0000;
    if ea < eb {
        lemma_units_ordered(a, b);
    } else if eb < ea {
        lemma_units_ordered(b, a);
    } else if ea > 0 {
        let p = pow2((ea - 1) as nat) as int;
        lemma_pow2_pos((ea - 1) as nat);
        let fa = 0x80_0000 + a as int % 0x80_0000;
        let fb = 0x80_0000 + b as int % 0x80_0000;
        assert(fa == fb) by (nonlinear_arith)
            requires
                fa * p == fb * p,
                p > 0,
        ;
    }
}

/// A larger exponent makes a larger number.
proof fn lemma_units_ordered(a: u32, b: u32)
    requires
        a as int / 0x80_0000 < b as int / 0x80_0000,
    ensures
        units(a) < units(b),
{
    let ea = a as int / 0x80_0000;
    let eb = b as int / 0x80_0000;
    let fa = a as int % 0x80_0000;
    let fb = b as int % 0x80_0000;
    let q = pow2((eb - 1) as nat) as int;
    lemma_pow2_pos((eb - 1) as nat);
    assert(0x80_0000 * q <= (0x80_0000 + fb) * q) by (nonlinear_arith)
        requires
            fb >= 0,
            q > 0,
    ;
    if ea == 0 {
        assert(0x80_0000 <= 0x80_0000 * q) by (nonlinear_arith)
            requires
                q >= 1,
        ;
    } else {
        let p = pow2((ea - 1) as nat) as int;
        lemma_pow2_pos((ea - 1) as nat);
        lemma_pow2_unfold(ea as nat);
        if ea < eb - 1 {
            vstd::arithmetic::power2::lemma_pow2_strictly_increases(ea as nat, (eb - 1) as nat);
        }
        assert(2 * p <= q);
        assert((0x80_0000 + fa) * p < 0x80_0000 * q) by (nonlinear_arith)
            requires
                fa < 0x80_0000,
                p > 0,
                2 * p <= q,
        ;
    }
}

/// The bit patterns of one RGBE pixel's color.
pub fn rgbe_to_float(r: u8, g: u8, b: u8, e: u8) -> (c: (u32, u32, u32))
    ensures
        units(c.0) == channel_units(r, e),
        units(c.1) == channel_units(g, e),
        units(c.2) == channel_units(b, e),
        c.0 < 0x7f80_0000,
        c.1 < 0x7f80_0000,
        c.2 < 0x7f80_0000,
{
    (channel_bits(r, e), channel_bits(g, e), channel_bits(b, e))
}

/// The bit patterns stand for the pixels: value `4 * i + c` is channel `c` of pixel `i`,
/// and the fourth value of each pixel is one.
pub open spec fn stands_for(rgba: Seq<u32>, rgbe: Seq<u8>) -> bool {
    &&& rgba.len() == rgbe.len()
    &&& forall|k: int|
        0 <= k < rgba.len() ==> if k % 4 == 3 {
            #[trigger] rgba[k] == ONE_BITS
        } else {
            units(rgba[k]) == channel_units(rgbe[k], rgbe[k - k % 4 + 3]) && rgba[k] < 0x7f80_0000
        }
}

// ---------------------------------------------------------------------------
// Header
// ---------------------------------------------------------------------------

/// The first line feed at or after `pos`.
pub open spec fn line_feed(bytes: Seq<u8>, pos: int) -> Option<int>
    decreases bytes.len() - pos,
{
    if pos < 0 || pos >= bytes.len() {
        None
    } else if bytes[pos] == 10 {
        Some(pos)
    } else {
        line_feed(bytes, pos + 1)
    }
}

/// The line is the resolution line: it begins with `-Y`.
pub open spec fn is_resolution(line: Seq<u8>) -> bool {
    line.len() >= 2 && line[0] == 0x2d && line[1] == 0x59
}

/// Where the resolution line begins and ends, looking from the line that begins at `pos`.
pub open spec fn resolution_line(bytes: Seq<u8>, pos: int) -> Option<(int, int)>
    decreases bytes.len() - pos,
{
    match line_feed(bytes, pos) {
        None => None,
        Some(end) => if end < pos || end >= bytes.len() {
            None
        } else if is_resolution(bytes.subrange(pos, end)) {
            Some((pos, end))
        } else {
            resolution_line(bytes, end + 1)
        },
    }
}

/// A blank or a tab.
pub open spec fn is_blank(b: u8) -> bool {
    b == 0x20 || b == 0x09
}

/// The first position at or after `pos` that is not blank; the end where there is none.
pub open spec fn skip_blanks(line: Seq<u8>, pos: int) -> int
    decreases line.len() - pos,
{
    if pos < line.len() && is_blank(line[pos]) {
        skip_blanks(line, pos + 1)
    } else {
        pos
    }
}

/// The first blank position at or after `pos`; the end where there is none.
pub open spec fn word_end(line: Seq<u8>, pos: int) -> int
    decreases line.len() - pos,
{
    if pos < line.len() && !is_blank(line[pos]) {
        word_end(line, pos + 1)
    } else {
        pos
    }
}

/// The next word at or after `pos`.
pub open spec fn next_word(line: Seq<u8>, pos: int) -> Option<(int, int)> {
    let start = skip_blanks(line, pos);
    if start < line.len() {
        Some((start, word_end(line, start)))
    } else {
        None
    }
}

/// All bytes are decimal digits.
pub open spec fn all_digits(s: Seq<u8>) -> bool {
    forall|i: int| 0 <= i < s.len() ==> 0x30 <= #[trigger] s[i] <= 0x39
}

/// The number that a string of digits writes down.
pub open spec fn digits_value(s: Seq<u8>) -> nat
    decreases s.len(),
{
    if s.len() == 0 {
        0
    } else {
        digits_value(s.drop_last()) * 10 + (s.last() - 0x30) as nat
    }
}

/// A number as it may stand in the header: digits, with or without a plus sign before
/// them, of at most 32 bits.
pub open spec fn parsed_number(word: Seq<u8>) -> Option<u32> {
    let digits = if word.len() > 0 && word[0] == 0x2b {
        word.skip(1)
    } else {
        word
    };
    if digits.len() > 0 && all_digits(digits) && digits_value(digits) <= u32::MAX {
        Some(digits_value(digits) as u32)
    } else {
        None
    }
}

/// The number that the next word at or after `pos` writes down, and where the word ends.
pub open spec fn next_number(line: Seq<u8>, pos: int) -> Option<(u32, int)> {
    match next_word(line, pos) {
        Some((a, b)) => match parsed_number(line.subrange(a, b)) {
            Some(n) => Some((n, b)),
            None => None,
        },
        None => None,
    }
}

/// Height and width from the words of the resolution line at or after `pos`, where
/// nothing stands for a number given so far.
pub open spec fn resolution(line: Seq<u8>, pos: int, height: u32, width: u32) -> Result<
    (u32, u32),
    HdrError,
>
    decreases line.len() - pos,
    when 0 <= pos
{
    match next_word(line, pos) {
        None => Ok((height, width)),
        Some((a, b)) => {
            proof {
                word_lies_ahead(line, pos);
            }
            let word = line.subrange(a, b);
            if word == seq![0x2du8, 0x59] {
                match next_number(line, b) {
                    Some((n, end)) => {
                        proof {
                            word_lies_ahead(line, b);
                        }
                        resolution(line, end, n, width)
                    },
                    None => Err(HdrError::BadHeight),
                }
            } else if word == seq![0x2bu8, 0x58] {
                match next_number(line, b) {
                    Some((n, end)) => {
                        proof {
                            word_lies_ahead(line, b);
                        }
                        resolution(line, end, height, n)
                    },
                    None => Err(HdrError::BadWidth),
                }
            } else {
                resolution(line, b, height, width)
            }
        },
    }
}

proof fn lemma_skip_bounds(line: Seq<u8>, pos: int)
    requires
        0 <= pos,
    ensures
        pos <= skip_blanks(line, pos),
        skip_blanks(line, pos) <= line.len() || skip_blanks(line, pos) == pos,
        skip_blanks(line, pos) < line.len() ==> !is_blank(line[skip_blanks(line, pos)]),
    decreases line.len() - pos,
{
    if pos < line.len() && is_blank(line[pos]) {
        lemma_skip_bounds(line, pos + 1);
    }
}

proof fn lemma_end_bounds(line: Seq<u8>, pos: int)
    requires
        0 <= pos <= line.len(),
    ensures
        pos <= word_end(line, pos) <= line.len(),
    decreases line.len() - pos,
{
    if pos < line.len() && !is_blank(line[pos]) {
        lemma_end_bounds(line, pos + 1);
    }
}

/// A word lies behind the position it was looked for from, and is not empty.
pub proof fn word_lies_ahead(line: Seq<u8>, pos: int)
    requires
        0 <= pos,
    ensures
        next_word(line, pos) matches Some((a, b)) ==> pos <= a < b <= line.len(),
{
    lemma_skip_bounds(line, pos);
    let start = skip_blanks(line, pos);
    if start < line.len() {
        lemma_end_bounds(line, start + 1);
    }
}

/// Finds the next word.
fn find_word(line: &Vec<u8>, pos: usize) -> (r: Option<(usize, usize)>)
    requires
        pos <= line.len(),
    ensures
        match r {
            Some((a, b)) => {
                &&& next_word(line@, pos as int) == Some((a as int, b as int))
                &&& pos <= a < b <= line.len()
            },
            None => next_word(line@, pos as int) is None,
        },
{
    let mut start: usize = pos;
    while start < line.len() && (line[start] == 0x20 || line[start] == 0x09)
        invariant
            pos <= start <= line.len(),
            skip_blanks(line@, pos as int) == skip_blanks(line@, start as int),
        decreases line.len() - start,
    {
        start = start + 1;
    }
    if start >= line.len() {
        return None;
    }
    let mut end: usize = start;
    while end < line.len() && line[end] != 0x20 && line[end] != 0x09
        invariant
            start <= end <= line.len(),
            word_end(line@, start as int) == word_end(line@, end as int),
        decreases line.len() - end,
    {
        end = end + 1;
    }
    proof {
        word_lies_ahead(line@, pos as int);
    }
    Some((start, end))
}

proof fn lemma_digits_grow(s: Seq<u8>, n: int)
    requires
        0 <= n < s.len(),
        all_digits(s),
    ensures
        digits_value(s.take(n + 1)) == digits_value(s.take(n)) * 10 + (s[n] - 0x30),
{
    assert(s.take(n + 1).drop_last() =~= s.take(n));
}

proof fn lemma_digits_prefix(s: Seq<u8>, n: int)
    requires
        0 <= n <= s.len(),
        all_digits(s),
    ensures
        digits_value(s.take(n)) <= digits_value(s),
    decreases s.len() - n,
{
    if n < s.len() {
        lemma_digits_prefix(s, n + 1);
        lemma_digits_grow(s, n);
    } else {
        assert(s.take(n) =~= s);
    }
}

/// Parses a number of the header.
fn parse_number(line: &Vec<u8>, a: usize, b: usize) -> (r: Option<u32>)
    requires
        a < b <= line.len(),
    ensures
        r == parsed_number(line@.subrange(a as int, b as int)),
{
    let ghost word = line@.subrange(a as int, b as int);
    let first: usize = if line[a] == 0x2b {
        a + 1
    } else {
        a
    };
    let ghost digits = if word[0] == 0x2b {
        word.skip(1)
    } else {
        word
    };
    assert(digits =~= line@.subrange(first as int, b as int));
    if first >= b {
        return None;
    }
    let mut value: u64 = 0;
    let mut i: usize = first;
    assert(digits.take(0) =~= Seq::empty());
    while i < b
        invariant
            first <= i <= b <= line.len(),
            digits == line@.subrange(first as int, b as int),
            digits.len() > 0,
            word.len() > 0,
            digits == (if word[0] == 0x2b {
                word.skip(1)
            } else {
                word
            }),
            word == line@.subrange(a as int, b as int),
            forall|k: int| 0 <= k < i - first ==> 0x30 <= #[trigger] digits[k] <= 0x39,
            value == digits_value(digits.take(i - first)),
            value <= u32::MAX,
        decreases b - i,
    {
        let c: u8 = line[i];
        let ghost n = i - first;
        assert(digits[n] == c);
        if c < 0x30 || c > 0x39 {
            return None;
        }
        value = value * 10 + (c - 0x30) as u64;
        proof {
            assert(digits.take(n + 1).drop_last() =~= digits.take(n));
            assert(value == digits_value(digits.take(n + 1)));
        }
        if value > u32::MAX as u64 {
            proof {
                if all_digits(digits) {
                    lemma_digits_prefix(digits, n + 1);
                }
            }
            return None;
        }
        i = i + 1;
    }
    assert(digits.take(i - first) =~= digits);
    Some(value as u32)
}

/// Reads height and width from the resolution line.
fn read_resolution(line: &Vec<u8>) -> (r: Result<(u32, u32), HdrError>)
    ensures
        r == resolution(line@, 0, 0, 0),
{
    let mut pos: usize = 0;
    let mut height: u32 = 0;
    let mut width: u32 = 0;
    loop
        invariant
            pos <= line.len(),
            resolution(line@, 0, 0, 0) == resolution(line@, pos as int, height, width),
        decreases line.len() - pos,
    {
        let (a, b): (usize, usize) = match find_word(line, pos) {
            Some(w) => w,
            None => return Ok((height, width)),
        };
        let ghost word = line@.subrange(a as int, b as int);
        let is_height: bool = b - a == 2 && line[a] == 0x2d && line[a + 1] == 0x59;
        let is_width: bool = b - a == 2 && line[a] == 0x2b && line[a + 1] == 0x58;
        proof {
            let h = seq![0x2du8, 0x59];
            let w = seq![0x2bu8, 0x58];
            if is_height {
                assert(word =~= h);
            }
            if is_width {
                assert(word =~= w);
            }
            if word == h {
                assert(word.len() == 2 && word[0] == 0x2d && word[1] == 0x59);
                assert(line@[a as int] == word[0] && line@[a + 1] == word[1]);
            }
            if word == w {
                assert(word.len() == 2 && word[0] == 0x2b && word[1] == 0x58);
                assert(line@[a as int] == word[0] && line@[a + 1] == word[1]);
            }
            assert(is_height == (word == h));
            assert(is_width == (word == w));
        }
        if is_height || is_width {
            let next: Option<(usize, usize)> = find_word(line, b);
            let mut number: Option<u32> = None;
            let mut end: usize = b;
            if let Some((c, d)) = next {
                number = parse_number(line, c, d);
                end = d;
            }
            match number {
                Some(n) => {
                    if is_height {
                        height = n;
                    } else {
                        width = n;
                    }
                    pos = end;
                },
                None => {
                    if is_height {
                        return Err(HdrError::BadHeight);
                    }
                    return Err(HdrError::BadWidth);
                },
            }
        } else {
            pos = b;
        }
    }
}

/// Finds the resolution line and reads it; returns height, width and where the pixels
/// begin.
pub open spec fn header(bytes: Seq<u8>) -> Result<(u32, u32, int), HdrError> {
    match resolution_line(bytes, 0) {
        None => Err(HdrError::UnterminatedHeader),
        Some((a, b)) => match resolution(bytes.subrange(a, b), 0, 0, 0) {
            Ok((height, width)) => Ok((height, width, b + 1)),
            Err(e) => Err(e),
        },
    }
}

/// Reads the header.
fn read_header(bytes: &[u8]) -> (r: Result<(u32, u32, usize), HdrError>)
    ensures
        match r {
            Ok((height, width, pos)) => {
                &&& header(bytes@) == Ok::<(u32, u32, int), HdrError>((height, width, pos as int))
                &&& pos <= bytes.len()
            },
            Err(e) => header(bytes@) == Err::<(u32, u32, int), HdrError>(e),
        },
{
    let mut pos: usize = 0;
    loop
        invariant
            pos <= bytes.len(),
            resolution_line(bytes@, 0) == resolution_line(bytes@, pos as int),
        decreases bytes.len() - pos,
    {
        let mut end: usize = pos;
        let mut line: Vec<u8> = Vec::new();
        while end < bytes.len() && bytes[end] != 10
            invariant
                pos <= end <= bytes.len(),
                line@ == bytes@.subrange(pos as int, end as int),
                line_feed(bytes@, pos as int) == line_feed(bytes@, end as int),
            decreases bytes.len() - end,
        {
            line.push(bytes[end]);
            end = end + 1;
            assert(line@ =~= bytes@.subrange(pos as int, end as int));
        }
        if end >= bytes.len() {
            return Err(HdrError::UnterminatedHeader);
        }
        if line.len() >= 2 && line[0] == 0x2d && line[1] == 0x59 {
            return match read_resolution(&line) {
                Ok((height, width)) => Ok((height, width, end + 1)),
                Err(e) => Err(e),
            };
        }
        pos = end + 1;
    }
}

// ---------------------------------------------------------------------------
// Scanlines
// ---------------------------------------------------------------------------

/// One channel of a run-length encoded scanline: `rest` values from `pos` on, and where
/// they end. A count above 128 repeats the byte behind it count - 128 times; any other
/// count says how many bytes follow as they are. What exceeds the scanline is cut off.
pub open spec fn channel(bytes: Seq<u8>, pos: int, rest: nat) -> Option<(Seq<u8>, int)>
    decreases bytes.len() - pos,
{
    if rest == 0 {
        Some((Seq::empty(), pos))
    } else if pos < 0 || pos >= bytes.len() {
        None
    } else {
        let count = bytes[pos] as nat;
        if count > 128 {
            let run = if count - 128 < rest {
                (count - 128) as nat
            } else {
                rest
            };
            if pos + 1 >= bytes.len() {
                None
            } else {
                match channel(bytes, pos + 2, (rest - run) as nat) {
                    Some((more, end)) => Some(
                        (Seq::new(run, |i: int| bytes[pos + 1]) + more, end),
                    ),
                    None => None,
                }
            }
        } else {
            let take = if count < rest {
                count
            } else {
                rest
            };
            if pos + 1 + take > bytes.len() {
                None
            } else {
                match channel(bytes, pos + 1 + take, (rest - take) as nat) {
                    Some((more, end)) => Some(
                        (bytes.subrange(pos + 1, pos + 1 + take) + more, end),
                    ),
                    None => None,
                }
            }
        }
    }
}

/// The first `n` channels of a run-length encoded scanline, and where they end.
pub open spec fn channels(bytes: Seq<u8>, pos: int, width: nat, n: nat) -> Option<
    (Seq<Seq<u8>>, int),
>
    decreases n,
{
    if n == 0 {
        Some((Seq::empty(), pos))
    } else {
        match channels(bytes, pos, width, (n - 1) as nat) {
            None => None,
            Some((planes, mid)) => match channel(bytes, mid, width) {
                None => None,
                Some((plane, end)) => Some((planes.push(plane), end)),
            },
        }
    }
}

/// The scanline at `pos` is run-length encoded: it begins with the marker 2, 2.
pub open spec fn is_encoded(bytes: Seq<u8>, pos: int) -> bool {
    pos + 2 <= bytes.len() && bytes[pos] == 2 && bytes[pos + 1] == 2
}

/// One scanline, four bytes for each pixel, and where it ends.
pub open spec fn scanline(bytes: Seq<u8>, pos: int, width: u32) -> Result<
    (Seq<u8>, int),
    HdrError,
> {
    if is_encoded(bytes, pos) {
        if pos + 4 > bytes.len() {
            Err(HdrError::Truncated)
        } else {
            let marker = bytes[pos + 2] as u32 * 256 + bytes[pos + 3] as u32;
            if marker != width {
                Err(HdrError::WidthMismatch { marker: marker as u32, width })
            } else {
                match channels(bytes, pos + 4, width as nat, 4) {
                    Some((planes, end)) => Ok(
                        (Seq::new((4 * width) as nat, |i: int| planes[i % 4][i / 4]), end),
                    ),
                    None => Err(HdrError::Truncated),
                }
            }
        }
    } else if pos + 4 * width > bytes.len() {
        Err(HdrError::Truncated)
    } else {
        Ok((bytes.subrange(pos, pos + 4 * width), pos + 4 * width))
    }
}

/// The first `n` scanlines, one behind the other, and where they end.
pub open spec fn scanlines(bytes: Seq<u8>, pos: int, width: u32, n: nat) -> Result<
    (Seq<u8>, int),
    HdrError,
>
    decreases n,
{
    if n == 0 {
        Ok((Seq::empty(), pos))
    } else {
        match scanlines(bytes, pos, width, (n - 1) as nat) {
            Err(e) => Err(e),
            Ok((above, mid)) => match scanline(bytes, mid, width) {
                Err(e) => Err(e),
                Ok((line, end)) => Ok((above + line, end)),
            },
        }
    }
}

/// The pixels of an image, four bytes each, with its width and height.
pub open spec fn decoded(bytes: Seq<u8>) -> Result<(Seq<u8>, u32, u32), HdrError> {
    match header(bytes) {
        Err(e) => Err(e),
        Ok((height, width, pos)) => if width == 0 || height == 0 {
            Err(HdrError::NoResolution)
        } else if width * height * 4 > u32::MAX {
            Err(HdrError::TooLarge)
        } else {
            match scanlines(bytes, pos, width, height as nat) {
                Ok((pixels, _)) => Ok((pixels, width, height)),
                Err(e) => Err(e),
            }
        },
    }
}

/// A decoded channel has one value for each pixel of the scanline, and ends within the
/// data.
pub proof fn channel_fills_the_scanline(bytes: Seq<u8>, pos: int, rest: nat)
    requires
        0 <= pos <= bytes.len(),
    ensures
        channel(bytes, pos, rest) matches Some((values, end)) ==> values.len() == rest && pos <= end
            <= bytes.len(),
    decreases bytes.len() - pos,
{
    if rest > 0 && pos < bytes.len() {
        let count = bytes[pos] as nat;
        if count > 128 {
            let run = if count - 128 < rest {
                (count - 128) as nat
            } else {
                rest
            };
            if pos + 1 < bytes.len() {
                channel_fills_the_scanline(bytes, pos + 2, (rest - run) as nat);
            }
        } else {
            let take = if count < rest {
                count
            } else {
                rest
            };
            if pos + 1 + take <= bytes.len() {
                channel_fills_the_scanline(bytes, pos + 1 + take, (rest - take) as nat);
            }
        }
    }
}

/// Decodes one channel into its place in the scanline.
fn decode_channel(bytes: &[u8], pos: usize, width: u32, ch: usize, row: &mut Vec<u8>) -> (r:
    Option<usize>)
    requires
        pos <= bytes.len(),
        ch < 4,
        old(row).len() == 4 * width,
        4 * width <= usize::MAX,
    ensures
        final(row).len() == 4 * width,
        match r {
            Some(end) => {
                &&& channel(bytes@, pos as int, width as nat) matches Some((values, e)) && e == end
                    && forall|k: int|
                    0 <= k < 4 * width ==> #[trigger] final(row)@[k] == (if k % 4 == ch {
                        values[k / 4]
                    } else {
                        old(row)@[k]
                    })
                &&& end <= bytes.len()
            },
            None => channel(bytes@, pos as int, width as nat) is None,
        },
{
    let ghost whole = channel(bytes@, pos as int, width as nat);
    let ghost mut done: Seq<u8> = Seq::empty();
    let w: usize = width as usize;
    let mut p: usize = pos;
    let mut x: usize = 0;
    while x < w
        invariant
            x <= w,
            w == width,
            4 * width <= usize::MAX,
            p <= bytes.len(),
            ch < 4,
            row.len() == 4 * w,
            old(row).len() == 4 * w,
            whole == channel(bytes@, pos as int, width as nat),
            done.len() == x,
            whole == (match channel(bytes@, p as int, (w - x) as nat) {
                Some((more, end)) => Some((done + more, end)),
                None => None,
            }),
            forall|k: int|
                0 <= k < 4 * w ==> #[trigger] row@[k] == (if k % 4 == ch && k / 4 < x {
                    done[k / 4]
                } else {
                    old(row)@[k]
                }),
        decreases bytes.len() - p,
    {
        if p >= bytes.len() {
            return None;
        }
        let count: usize = bytes[p] as usize;
        let rest: usize = w - x;
        let repeated: bool = count > 128;
        let wanted: usize = if repeated {
            count - 128
        } else {
            count
        };
        let len: usize = if wanted < rest {
            wanted
        } else {
            rest
        };
        let stored: usize = if repeated {
            1
        } else {
            len
        };
        if bytes.len() - p - 1 < stored {
            return None;
        }
        let ghost piece = if repeated {
            Seq::new(len as nat, |i: int| bytes@[p + 1])
        } else {
            bytes@.subrange(p + 1, p + 1 + len)
        };
        proof {
            let tail = channel(bytes@, p + 1 + stored, (rest - len) as nat);
            if tail is Some {
                let more = tail->Some_0.0;
                assert(done + (piece + more) =~= (done + piece) + more);
            }
        }
        let mut k: usize = 0;
        while k < len
            invariant
                k <= len,
                len <= rest,
                rest == w - x,
                w == width,
                4 * width <= usize::MAX,
                p + 1 + stored <= bytes.len(),
                stored == (if repeated {
                    1
                } else {
                    len
                }),
                ch < 4,
                row.len() == 4 * w,
                old(row).len() == 4 * w,
                done.len() == x,
                piece.len() == len,
                piece == (if repeated {
                    Seq::new(len as nat, |i: int| bytes@[p + 1])
                } else {
                    bytes@.subrange(p + 1, p + 1 + len)
                }),
                forall|j: int|
                    0 <= j < 4 * w ==> #[trigger] row@[j] == (if j % 4 == ch && j / 4 < x + k {
                        (done + piece)[j / 4]
                    } else {
                        old(row)@[j]
                    }),
            decreases len - k,
        {
            let value: u8 = if repeated {
                bytes[p + 1]
            } else {
                bytes[p + 1 + k]
            };
            let ghost before = row@;
            let place: usize = (x + k) * 4 + ch;
            assert(value == (done + piece)[x + k]);
            row.set(place, value);
            proof {
                assert forall|j: int| 0 <= j < 4 * w implies #[trigger] row@[j] == (if j % 4 == ch
                    && j / 4 < x + k + 1 {
                    (done + piece)[j / 4]
                } else {
                    old(row)@[j]
                }) by {
                    if j != place {
                        assert(row@[j] == before[j]);
                        if j % 4 == ch {
                            assert(j / 4 != x + k);
                        }
                    }
                }
            }
            k = k + 1;
        }
        proof {
            done = done + piece;
        }
        x = x + len;
        p = p + 1 + stored;
    }
    proof {
        if channel(bytes@, p as int, 0) is Some {
            assert(done + Seq::<u8>::empty() =~= done);
        }
    }
    Some(p)
}

/// Decodes one scanline and where it ends.
fn decode_scanline(bytes: &[u8], pos: usize, width: u32) -> (r: Result<
    (Vec<u8>, usize),
    HdrError,
>)
    requires
        pos <= bytes.len(),
        4 * width <= usize::MAX,
    ensures
        match r {
            Ok((row, end)) => {
                &&& scanline(bytes@, pos as int, width) == Ok::<(Seq<u8>, int), HdrError>(
                    (row@, end as int),
                )
                &&& row.len() == 4 * width
                &&& end <= bytes.len()
            },
            Err(e) => scanline(bytes@, pos as int, width) == Err::<(Seq<u8>, int), HdrError>(e),
        },
{
    let size: usize = 4 * (width as usize);
    let available: usize = bytes.len() - pos;
    if available >= 2 && bytes[pos] == 2 && bytes[pos + 1] == 2 {
        if available < 4 {
            return Err(HdrError::Truncated);
        }
        let marker: u32 = bytes[pos + 2] as u32 * 256 + bytes[pos + 3] as u32;
        if marker != width {
            return Err(HdrError::WidthMismatch { marker, width });
        }
        let mut row: Vec<u8> = Vec::new();
        let mut i: usize = 0;
        while i < size
            invariant
                i <= size,
                row.len() == i,
            decreases size - i,
        {
            row.push(0);
            i = i + 1;
        }
        let mut p: usize = pos + 4;
        let mut ch: usize = 0;
        let ghost mut planes: Seq<Seq<u8>> = Seq::empty();
        while ch < 4
            invariant
                ch <= 4,
                size == 4 * width,
                4 * width <= usize::MAX,
                p <= bytes.len(),
                pos + 4 <= bytes.len(),
                is_encoded(bytes@, pos as int),
                width == bytes@[pos + 2] as u32 * 256 + bytes@[pos + 3] as u32,
                row.len() == size,
                planes.len() == ch,
                channels(bytes@, pos + 4, width as nat, ch as nat) == Some((planes, p as int)),
                forall|k: int|
                    0 <= k < size && k % 4 < ch ==> #[trigger] row@[k] == planes[k % 4][k / 4],
            decreases 4 - ch,
        {
            match decode_channel(bytes, p, width, ch, &mut row) {
                None => {
                    proof {
                        lemma_channels_stop(bytes@, pos + 4, width as nat, (ch + 1) as nat, 4);
                    }
                    return Err(HdrError::Truncated);
                },
                Some(end) => {
                    proof {
                        let plane = channel(bytes@, p as int, width as nat)->Some_0.0;
                        planes = planes.push(plane);
                    }
                    p = end;
                },
            }
            ch = ch + 1;
        }
        assert(row@ =~= Seq::new((4 * width) as nat, |i: int| planes[i % 4][i / 4]));
        Ok((row, p))
    } else {
        if available < size {
            return Err(HdrError::Truncated);
        }
        let mut row: Vec<u8> = Vec::new();
        let mut i: usize = 0;
        while i < size
            invariant
                i <= size,
                pos + size <= bytes.len(),
                row@ == bytes@.subrange(pos as int, pos + i),
            decreases size - i,
        {
            row.push(bytes[pos + i]);
            i = i + 1;
            assert(row@ =~= bytes@.subrange(pos as int, pos + i));
        }
        Ok((row, pos + size))
    }
}

proof fn lemma_channels_stop(bytes: Seq<u8>, pos: int, width: nat, n: nat, total: nat)
    requires
        n <= total,
        channels(bytes, pos, width, n) is None,
    ensures
        channels(bytes, pos, width, total) is None,
    decreases total - n,
{
    if n < total {
        lemma_channels_stop(bytes, pos, width, n + 1, total);
    }
}

proof fn lemma_scanlines_stop(bytes: Seq<u8>, pos: int, width: u32, n: nat, total: nat)
    requires
        n <= total,
        scanlines(bytes, pos, width, n) is Err,
    ensures
        scanlines(bytes, pos, width, total) == scanlines(bytes, pos, width, n),
    decreases total - n,
{
    if n < total {
        lemma_scanlines_stop(bytes, pos, width, n + 1, total);
    }
}

/// Decodes a Radiance image. Each pixel becomes four single-precision numbers, given as
/// bit patterns: red, green, blue and one.
pub fn load_rgbe(bytes: &[u8]) -> (r: Result<HdrImage, HdrError>)
    ensures
        match r {
            Ok(image) => decoded(bytes@) matches Ok((pixels, width, height)) && {
                &&& image.width == width
                &&& image.height == height
                &&& pixels.len() == width * height * 4
                &&& stands_for(image.rgba@, pixels)
            },
            Err(e) => decoded(bytes@) == Err::<(Seq<u8>, u32, u32), HdrError>(e),
        },
{
    let (height, width, start): (u32, u32, usize) = match read_header(bytes) {
        Ok(h) => h,
        Err(e) => return Err(e),
    };
    if width == 0 || height == 0 {
        return Err(HdrError::NoResolution);
    }
    assert(width * height <= u64::MAX) by (nonlinear_arith)
        requires
            width <= 0xffff_ffff,
            height <= 0xffff_ffff,
    ;
    let pixel_count: u64 = (width as u64) * (height as u64);
    if pixel_count > 0x3fff_ffff {
        proof {
            assert(width * height * 4 > u32::MAX);
        }
        return Err(HdrError::TooLarge);
    }
    assert(4 * width <= u32::MAX) by (nonlinear_arith)
        requires
            width * height <= 0x3fff_ffff,
            height >= 1,
    ;
    let mut rgba: Vec<u32> = Vec::new();
    let ghost mut pixels: Seq<u8> = Seq::empty();
    let mut pos: usize = start;
    let mut y: u32 = 0;
    while y < height
        invariant
            y <= height,
            4 * width <= u32::MAX,
            pos <= bytes.len(),
            start <= bytes.len(),
            scanlines(bytes@, start as int, width, y as nat) == Ok::<(Seq<u8>, int), HdrError>(
                (pixels, pos as int),
            ),
            decoded(bytes@) == (match scanlines(bytes@, start as int, width, height as nat) {
                Ok((all, _)) => Ok((all, width, height)),
                Err(e) => Err(e),
            }),
            pixels.len() == 4 * (width * y),
            stands_for(rgba@, pixels),
        decreases height - y,
    {
        match decode_scanline(bytes, pos, width) {
            Err(e) => {
                proof {
                    lemma_scanlines_stop(
                        bytes@,
                        start as int,
                        width,
                        (y + 1) as nat,
                        height as nat,
                    );
                }
                return Err(e);
            },
            Ok((row, end)) => {
                convert_row(&row, width, &mut rgba, Ghost(pixels));
                proof {
                    pixels = pixels + row@;
                    assert(width * y + width == width * (y + 1)) by (nonlinear_arith);
                }
                pos = end;
            },
        }
        y = y + 1;
    }
    Ok(HdrImage { rgba, width, height })
}

/// Appends the numbers of one scanline.
fn convert_row(row: &Vec<u8>, width: u32, rgba: &mut Vec<u32>, Ghost(pixels): Ghost<Seq<u8>>)
    requires
        row.len() == 4 * width,
        4 * width <= usize::MAX,
        pixels.len() % 4 == 0,
        stands_for(old(rgba)@, pixels),
    ensures
        stands_for(final(rgba)@, pixels + row@),
{
    let mut x: usize = 0;
    assert(pixels + row@.take(0) =~= pixels);
    while x < width as usize
        invariant
            x <= width,
            row.len() == 4 * width,
            4 * width <= usize::MAX,
            pixels.len() % 4 == 0,
            stands_for(rgba@, pixels + row@.take(4 * x)),
        decreases width - x,
    {
        let base: usize = x * 4;
        let c: (u32, u32, u32) = rgbe_to_float(
            row[base],
            row[base + 1],
            row[base + 2],
            row[base + 3],
        );
        let ghost before = rgba@;
        let ghost seen = pixels + row@.take(4 * x);
        rgba.push(c.0);
        rgba.push(c.1);
        rgba.push(c.2);
        rgba.push(ONE_BITS);
        proof {
            let next = pixels + row@.take(4 * (x + 1));
            let n = seen.len() as int;
            assert(n == pixels.len() + 4 * x);
            assert(n % 4 == 0);
            assert forall|k: int| 0 <= k < rgba@.len() implies if k % 4 == 3 {
                #[trigger] rgba@[k] == ONE_BITS
            } else {
                units(rgba@[k]) == channel_units(next[k], next[k - k % 4 + 3]) && rgba@[k]
                    < 0x7f80_0000
            } by {
                if k < n {
                    assert(rgba@[k] == before[k]);
                    assert(k - k % 4 + 3 < n);
                    assert(next[k] == seen[k]);
                    assert(next[k - k % 4 + 3] == seen[k - k % 4 + 3]);
                } else {
                    assert(k % 4 == k - n);
                    assert(k - k % 4 + 3 == n + 3);
                    assert(next[n + 3] == row@[base + 3]);
                    assert(next[k] == row@[base + (k - n)]);
                }
            }
        }
        x = x + 1;
    }
    assert(row@.take(4 * x) =~= row@);
}

} // verus!
