//! The order of single-precision numbers, by their bit patterns.

use vstd::prelude::*;

verus! {

/// The pattern stands for no number.
pub open spec fn is_nan(bits: u32) -> bool {
    bits as int % 0x8000_0000 > 0x7f80_0000
}

/// Where a number stands among all numbers. The two zeros stand in the same place.
pub open spec fn rank(bits: u32) -> int {
    if bits < 0x8000_0000 {
        bits as int
    } else {
        0x8000_0000 - bits
    }
}

/// `a` is a smaller number than `b`.
pub open spec fn less(a: u32, b: u32) -> bool {
    !is_nan(a) && !is_nan(b) && rank(a) < rank(b)
}

fn magnitude(bits: u32) -> (r: u32)
    ensures
        r == bits as int % 0x8000_0000,
{
    bits % 0x8000_0000
}

/// Whether `a` is a smaller number than `b`. It is false where either is no number.
pub fn is_less(a: u32, b: u32) -> (r: bool)
    ensures
        r == less(a, b),
{
    let x: u32 = magnitude(a);
    let y: u32 = magnitude(b);
    if x > 0x7f80_0000 || y > 0x7f80_0000 {
        return false;
    }
    if a < 0x8000_0000 {
        b < 0x8000_0000 && x < y
    } else if b < 0x8000_0000 {
        x > 0 || y > 0
    } else {
        x > y
    }
}

/// `a` is a number that is not larger than the number `b`.
pub open spec fn at_most(a: u32, b: u32) -> bool {
    !is_nan(a) && !is_nan(b) && rank(a) <= rank(b)
}

/// Whether `a` is not larger than `b`. It is false where either is no number.
pub fn is_at_most(a: u32, b: u32) -> (r: bool)
    ensures
        r == at_most(a, b),
{
    magnitude(a) <= 0x7f80_0000 && magnitude(b) <= 0x7f80_0000 && !is_less(b, a)
}

/// The number is zero, of either sign, or negative.
pub open spec fn at_most_zero(bits: u32) -> bool {
    !is_nan(bits) && rank(bits) <= 0
}

/// Whether a number is zero or negative. It is false of a pattern that is no number.
pub fn is_at_most_zero(bits: u32) -> (r: bool)
    ensures
        r == at_most_zero(bits),
{
    let x: u32 = magnitude(bits);
    x <= 0x7f80_0000 && (bits >= 0x8000_0000 || x == 0)
}

/// The order is strict: no number is smaller than itself, and smaller goes on through.
pub proof fn order_is_strict(a: u32, b: u32, c: u32)
    ensures
        !less(a, a),
        less(a, b) && less(b, c) ==> less(a, c),
        less(a, b) ==> !less(b, a),
{
}

/// The order is that of the numbers: positive numbers are ordered as their patterns,
/// changing both signs turns the order round, a negative number is below zero and a
/// positive one above it, the two zeros are the same number, and what is no number is
/// neither below nor above anything.
pub proof fn order_is_that_of_the_numbers(a: u32, b: u32)
    requires
        a < 0x8000_0000,
        b < 0x8000_0000,
    ensures
        ({
            let minus_a = (a + 0x8000_0000) as u32;
            let minus_b = (b + 0x8000_0000) as u32;
            let numbers = a <= 0x7f80_0000 && b <= 0x7f80_0000;
            &&& less(a, b) <==> numbers && a < b
            &&& less(minus_a, minus_b) <==> numbers && b < a
            &&& less(minus_a, b) <==> numbers && (a > 0 || b > 0)
            &&& !less(a, minus_b)
            &&& at_most(a, b) <==> numbers && a <= b
            &&& at_most(minus_a, minus_b) <==> numbers && b <= a
            &&& at_most(minus_a, b) <==> numbers
            &&& at_most(a, minus_b) <==> numbers && a == 0 && b == 0
        }),
{
}

/// Being zero or negative is being at most zero, of either sign.
pub proof fn zero_of_either_sign_is_the_limit(a: u32)
    ensures
        at_most_zero(a) <==> at_most(a, 0),
        at_most_zero(a) <==> at_most(a, 0x8000_0000),
{
}

} // verus!
