//! Building and searching text.

use vstd::prelude::*;
use vstd::string::*;

verus! {

/// The character of a decimal digit.
pub open spec fn digit_char(d: int) -> char {
    if d == 0 {
        '0'
    } else if d == 1 {
        '1'
    } else if d == 2 {
        '2'
    } else if d == 3 {
        '3'
    } else if d == 4 {
        '4'
    } else if d == 5 {
        '5'
    } else if d == 6 {
        '6'
    } else if d == 7 {
        '7'
    } else if d == 8 {
        '8'
    } else {
        '9'
    }
}

/// A number in decimal, without leading zeros.
pub open spec fn decimal_text(n: nat) -> Seq<char>
    decreases n,
{
    if n < 10 {
        seq![digit_char(n as int)]
    } else {
        decimal_text(n / 10).push(digit_char((n % 10) as int))
    }
}

/// `true` or `false`.
pub open spec fn bool_text(b: bool) -> Seq<char> {
    if b {
        "true"@
    } else {
        "false"@
    }
}

fn digit_str(d: u64) -> (r: &'static str)
    requires
        d < 10,
    ensures
        r@ == seq![digit_char(d as int)],
{
    proof {
        reveal_strlit("0");
        reveal_strlit("1");
        reveal_strlit("2");
        reveal_strlit("3");
        reveal_strlit("4");
        reveal_strlit("5");
        reveal_strlit("6");
        reveal_strlit("7");
        reveal_strlit("8");
        reveal_strlit("9");
    }
    let r: &'static str = if d == 0 {
        "0"
    } else if d == 1 {
        "1"
    } else if d == 2 {
        "2"
    } else if d == 3 {
        "3"
    } else if d == 4 {
        "4"
    } else if d == 5 {
        "5"
    } else if d == 6 {
        "6"
    } else if d == 7 {
        "7"
    } else if d == 8 {
        "8"
    } else {
        "9"
    };
    assert(r@ =~= seq![digit_char(d as int)]);
    r
}

/// A number in decimal.
pub fn decimal(n: u64) -> (r: String)
    ensures
        r@ == decimal_text(n as nat),
    decreases n,
{
    if n < 10 {
        digit_str(n).to_owned()
    } else {
        let mut text: String = decimal(n / 10);
        text.append(digit_str(n % 10));
        assert(text@ =~= decimal_text(n as nat));
        text
    }
}

/// `true` or `false`.
pub fn bool_str(b: bool) -> (r: &'static str)
    ensures
        r@ == bool_text(b),
{
    if b {
        "true"
    } else {
        "false"
    }
}

/// The characters of a text.
pub fn chars_of(s: &str) -> (r: Vec<char>)
    ensures
        r@ == s@,
{
    let n: usize = s.unicode_len();
    let mut list: Vec<char> = Vec::new();
    let mut i: usize = 0;
    while i < n
        invariant
            i <= n,
            n == s@.len(),
            list@ == s@.take(i as int),
        decreases n - i,
    {
        list.push(s.get_char(i));
        i = i + 1;
        assert(list@ =~= s@.take(i as int));
    }
    assert(list@ =~= s@);
    list
}

/// `needle` stands in `s` from place `at`.
pub open spec fn stands_at(s: Seq<char>, needle: Seq<char>, at: int) -> bool {
    0 <= at && at + needle.len() <= s.len() && s.subrange(at, at + needle.len()) == needle
}

/// `needle` stands somewhere in `s`.
pub open spec fn holds_text(s: Seq<char>, needle: Seq<char>) -> bool {
    exists|at: int| stands_at(s, needle, at)
}

fn matches_at(s: &Vec<char>, needle: &Vec<char>, at: usize) -> (r: bool)
    requires
        at + needle.len() <= s.len(),
    ensures
        r == stands_at(s@, needle@, at as int),
{
    let mut k: usize = 0;
    while k < needle.len()
        invariant
            k <= needle.len(),
            at + needle.len() <= s.len(),
            forall|j: int| 0 <= j < k ==> s@[at + j] == needle@[j],
        decreases needle.len() - k,
    {
        if s[at + k] != needle[k] {
            assert(s@.subrange(at as int, at + needle@.len())[k as int] != needle@[k as int]);
            return false;
        }
        k = k + 1;
    }
    assert(s@.subrange(at as int, at + needle@.len()) =~= needle@);
    true
}

/// Whether `needle` stands somewhere in `text`.
pub fn contains_text(text: &str, needle: &str) -> (r: bool)
    ensures
        r == holds_text(text@, needle@),
{
    let s: Vec<char> = chars_of(text);
    let n: Vec<char> = chars_of(needle);
    if n.len() > s.len() {
        return false;
    }
    let last: usize = s.len() - n.len();
    let mut at: usize = 0;
    while at <= last
        invariant
            n.len() <= s.len(),
            last == s.len() - n.len(),
            at <= last + 1,
            s@ == text@,
            n@ == needle@,
            forall|k: int| 0 <= k < at ==> !#[trigger] stands_at(s@, n@, k),
        decreases last + 1 - at,
    {
        if matches_at(&s, &n, at) {
            return true;
        }
        if at == last {
            assert forall|k: int| !#[trigger] stands_at(s@, n@, k) by {}
            return false;
        }
        at = at + 1;
    }
    false
}

// ---------------------------------------------------------------------------
// Numbers
// ---------------------------------------------------------------------------

/// A decimal digit.
pub open spec fn is_digit(c: char) -> bool {
    '0' <= c && c <= '9'
}

/// All characters are decimal digits.
pub open spec fn all_digits(s: Seq<char>) -> bool {
    forall|i: int| 0 <= i < s.len() ==> is_digit(#[trigger] s[i])
}

/// The number that a string of digits writes down.
pub open spec fn digits_value(s: Seq<char>) -> nat
    decreases s.len(),
{
    if s.len() == 0 {
        0
    } else {
        digits_value(s.drop_last()) * 10 + (s.last() as int - '0' as int) as nat
    }
}

/// A number of at most 32 bits: digits, with or without a plus sign before them.
pub open spec fn number_of(s: Seq<char>) -> Option<u32> {
    let digits = if s.len() > 0 && s[0] == '+' {
        s.skip(1)
    } else {
        s
    };
    if digits.len() > 0 && all_digits(digits) && digits_value(digits) <= u32::MAX {
        Some(digits_value(digits) as u32)
    } else {
        None
    }
}

proof fn lemma_digits_prefix(s: Seq<char>, n: int)
    requires
        0 <= n <= s.len(),
        all_digits(s),
    ensures
        digits_value(s.take(n)) <= digits_value(s),
    decreases s.len() - n,
{
    if n < s.len() {
        lemma_digits_prefix(s, n + 1);
        assert(s.take(n + 1).drop_last() =~= s.take(n));
    } else {
        assert(s.take(n) =~= s);
    }
}

/// Reads a number of at most 32 bits.
pub fn parse_u32(text: &str) -> (r: Option<u32>)
    ensures
        r == number_of(text@),
{
    let s: Vec<char> = chars_of(text);
    let first: usize = if s.len() > 0 && s[0] == '+' {
        1
    } else {
        0
    };
    let ghost digits = s@.skip(first as int);
    assert(first == 0 ==> digits =~= s@);
    if first >= s.len() {
        return None;
    }
    let mut value: u64 = 0;
    let mut i: usize = first;
    assert(digits.take(0) =~= Seq::empty());
    while i < s.len()
        invariant
            first <= i <= s.len(),
            first < s.len(),
            first <= 1,
            s@ == text@,
            first == (if s@.len() > 0 && s@[0] == '+' {
                1int
            } else {
                0
            }),
            digits == s@.skip(first as int),
            first == 0 ==> digits == s@,
            forall|k: int| 0 <= k < i - first ==> is_digit(#[trigger] digits[k]),
            value == digits_value(digits.take(i - first)),
            value <= u32::MAX,
        decreases s.len() - i,
    {
        let c: char = s[i];
        let ghost n = i - first;
        assert(digits[n] == c);
        if c < '0' || c > '9' {
            return None;
        }
        value = value * 10 + (c as u64 - '0' as u64);
        proof {
            assert(digits.take(n + 1).drop_last() =~= digits.take(n));
            assert(value == digits_value(digits.take(n + 1)));
        }
        if value > u32::MAX as u64 {
            proof {
                if all_digits(digits) {
                    lemma_digits_prefix(digits, n + 1);
                }
            }
            return None;
        }
        i = i + 1;
    }
    assert(digits.take(i - first) =~= digits);
    Some(value as u32)
}

/// Whether two texts are the same.
pub fn same_text(a: &str, b: &str) -> (r: bool)
    ensures
        r == (a@ == b@),
{
    let x: Vec<char> = chars_of(a);
    let y: Vec<char> = chars_of(b);
    if x.len() != y.len() {
        return false;
    }
    let mut i: usize = 0;
    while i < x.len()
        invariant
            i <= x.len(),
            x.len() == y.len(),
            x@ == a@,
            y@ == b@,
            forall|k: int| 0 <= k < i ==> x@[k] == y@[k],
        decreases x.len() - i,
    {
        if x[i] != y[i] {
            return false;
        }
        i = i + 1;
    }
    assert(x@ =~= y@);
    true
}

proof fn lemma_decimal_text(n: nat)
    ensures
        decimal_text(n).len() > 0,
        all_digits(decimal_text(n)),
        digits_value(decimal_text(n)) == n,
    decreases n,
{
    if n < 10 {
        let d = decimal_text(n);
        assert(d.drop_last() =~= Seq::empty());
        assert(digits_value(d.drop_last()) == 0);
        assert(d.last() as int - '0' as int == n);
    } else {
        lemma_decimal_text(n / 10);
        let d = decimal_text(n);
        assert(d.drop_last() =~= decimal_text(n / 10));
        assert(d.last() as int - '0' as int == n % 10);
        assert forall|i: int| 0 <= i < d.len() implies is_digit(#[trigger] d[i]) by {
            if i < d.len() - 1 {
                assert(d[i] == decimal_text(n / 10)[i]);
            }
        }
    }
}

/// A number that is written in decimal is read back as it was.
pub proof fn written_number_is_read_back(n: u32)
    ensures
        number_of(decimal_text(n as nat)) == Some(n),
{
    lemma_decimal_text(n as nat);
    assert(is_digit(decimal_text(n as nat)[0]));
}

/// A text is found in every text that it is a part of, and in no other.
pub proof fn part_is_found(before: Seq<char>, part: Seq<char>, behind: Seq<char>, s: Seq<char>)
    ensures
        holds_text(before + part + behind, part),
        holds_text(s, part) ==> exists|a: Seq<char>, b: Seq<char>| s == #[trigger] (a + part + b),
{
    let all = before + part + behind;
    assert(all.subrange(before.len() as int, (before + part).len() as int) =~= part);
    assert(stands_at(all, part, before.len() as int));
    if holds_text(s, part) {
        let at = choose|at: int| stands_at(s, part, at);
        let a = s.take(at);
        let b = s.skip(at + part.len());
        assert(s =~= a + part + b);
    }
}

/// The two truth values are told apart.
pub proof fn truth_values_read_differently()
    ensures
        bool_text(true).len() == 4,
        bool_text(false).len() == 5,
{
    reveal_strlit("true");
    reveal_strlit("false");
}

/// A digit behind a number makes it ten times as large and adds itself, as long as it
/// fits; and a single digit is the number that it stands for.
pub proof fn digit_behind_a_number_counts(s: Seq<char>, d: int)
    requires
        number_of(s) is Some,
        0 <= d < 10,
    ensures
        number_of(s.push(digit_char(d))) == (if number_of(s)->Some_0 * 10 + d <= u32::MAX {
            Some((number_of(s)->Some_0 * 10 + d) as u32)
        } else {
            None
        }),
        number_of(seq![digit_char(d)]) == Some(d as u32),
{
    let more = s.push(digit_char(d));
    if s[0] == '+' {
        assert(more.skip(1) =~= s.skip(1).push(digit_char(d)));
        assert(more.skip(1).drop_last() =~= s.skip(1));
    } else {
        assert(more.drop_last() =~= s);
    }
    let one = seq![digit_char(d)];
    assert(one.drop_last() =~= Seq::empty());
    reveal_with_fuel(digits_value, 2);
}

/// Only numbers are read: there is a digit, and but for a plus sign at the front there is
/// nothing else. The plus sign changes nothing.
pub proof fn only_numbers_are_read(s: Seq<char>, i: int)
    ensures
        number_of(s) is Some ==> s.len() > 0 && '0' <= s.last() <= '9',
        number_of(s) is Some && 0 <= i < s.len() && s[i] != '+' ==> '0' <= s[i] <= '9',
        number_of(s) is Some && 0 <= i < s.len() && s[i] == '+' ==> i == 0,
        s.len() > 0 && s[0] != '+' ==> number_of(seq!['+'] + s) == number_of(s),
{
    assert((seq!['+'] + s).skip(1) =~= s);
    if number_of(s) is Some {
        if s[0] == '+' {
            let digits = s.skip(1);
            assert(digits.last() == s.last());
            assert(digits[digits.len() - 1] == digits.last());
            if 0 < i < s.len() {
                assert(digits[i - 1] == s[i]);
            }
        } else {
            assert(s[s.len() - 1] == s.last());
        }
    }
}

} // verus!
