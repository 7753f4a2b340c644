use crate::text::characters;
use vstd::prelude::*;

verus! {

/// Whether `c` is one of the ten decimal digits.
pub open spec fn is_digit(c: char) -> bool {
    '0' <= c && c <= '9'
}

/// The number that a decimal digit stands for.
pub open spec fn digit_value(c: char) -> nat {
    (c as u32 - '0' as u32) as nat
}

/// Whether `s` holds decimal digits and nothing else.
pub open spec fn all_digits(s: Seq<char>) -> bool {
    forall|i: int| 0 <= i < s.len() ==> is_digit(#[trigger] s[i])
}

/// The number that a run of decimal digits stands for, the last digit counting least.
pub open spec fn decimal(s: Seq<char>) -> nat
    decreases s.len(),
{
    if s.len() == 0 {
        0
    } else {
        decimal(s.drop_last()) * 10 + digit_value(s.last())
    }
}

/// The number that `s` stands for if it is one digit or more, and digits only.
pub open spec fn magnitude(s: Seq<char>) -> Option<nat> {
    if s.len() > 0 && all_digits(s) {
        Some(decimal(s))
    } else {
        None
    }
}

/// The integer that a token stands for: digits, with `+` allowed in front, and `-` too
/// where `signed` says so. Neither spaces nor a sign alone make a number.
pub open spec fn integer(s: Seq<char>, signed: bool) -> Option<int> {
    if s.len() > 0 && s[0] == '+' {
        match magnitude(s.skip(1)) {
            Some(m) => Some(m as int),
            None => None,
        }
    } else if signed && s.len() > 0 && s[0] == '-' {
        match magnitude(s.skip(1)) {
            Some(m) => Some(-(m as int)),
            None => None,
        }
    } else {
        match magnitude(s) {
            Some(m) => Some(m as int),
            None => None,
        }
    }
}

/// The `usize` that a token stands for: an integer without `-` that the type can hold.
pub open spec fn usize_value(s: Seq<char>) -> Option<usize> {
    match integer(s, false) {
        Some(v) if v <= usize::MAX => Some(v as usize),
        _ => None,
    }
}

/// The `i32` that a token stands for: an integer that the type can hold.
pub open spec fn i32_value(s: Seq<char>) -> Option<i32> {
    match integer(s, true) {
        Some(v) if i32::MIN <= v <= i32::MAX => Some(v as i32),
        _ => None,
    }
}

/// A run of digits stands for at least as much as any run it starts with.
pub proof fn lemma_decimal_grows(s: Seq<char>, k: int)
    requires
        0 <= k <= s.len(),
    ensures
        decimal(s.take(k)) <= decimal(s),
    decreases s.len(),
{
    if k == s.len() {
        assert(s.take(k) =~= s);
    } else {
        lemma_decimal_grows(s.drop_last(), k);
        assert(s.drop_last().take(k) =~= s.take(k));
    }
}

/// Reads the digits that `chars` holds from `start` on, as a number up to `max`.
fn read_magnitude(chars: &Vec<char>, start: usize, max: u64) -> (number: Option<u64>)
    requires
        start <= chars.len(),
    ensures
        number == (match magnitude(chars@.skip(start as int)) {
            Some(m) if m <= max => Some(m as u64),
            _ => None::<u64>,
        }),
{
    let ghost digits = chars@.skip(start as int);
    if start == chars.len() {
        return None;
    }
    let mut number: u64 = 0;
    let mut i: usize = start;
    while i < chars.len()
        invariant
            start <= i <= chars.len(),
            digits == chars@.skip(start as int),
            all_digits(digits.take(i - start)),
            number == decimal(digits.take(i - start)),
            number <= max,
        decreases chars.len() - i,
    {
        let c = chars[i];
        assert(digits[i - start] == c);
        if c < '0' || c > '9' {
            return None;
        }
        let digit: u64 = (c as u32 - '0' as u32) as u64;
        proof {
            let longer = digits.take(i - start + 1);
            assert(longer.drop_last() =~= digits.take(i - start));
            assert(longer.last() == c);
            assert(decimal(longer) == number * 10 + digit);
            lemma_decimal_grows(digits, i - start + 1);
        }
        if digit > max || number > (max - digit) / 10 {
            return None;
        }
        number = number * 10 + digit;
        i += 1;
    }
    assert(digits.take(i - start) =~= digits);
    Some(number)
}

/// Reads a token as a `usize`.
pub fn read_usize(s: &str) -> (number: Option<usize>)
    ensures
        number == usize_value(s@),
{
    let chars = characters(s);
    let start: usize = if chars.len() > 0 && chars[0] == '+' {
        1
    } else {
        0
    };
    assert(chars@.skip(0) =~= chars@);
    match read_magnitude(&chars, start, usize::MAX as u64) {
        Some(m) => Some(m as usize),
        None => None,
    }
}

/// Reads a token as an `i32`.
pub fn read_i32(s: &str) -> (number: Option<i32>)
    ensures
        number == i32_value(s@),
{
    let chars = characters(s);
    let negative = chars.len() > 0 && chars[0] == '-';
    let start: usize = if chars.len() > 0 && (chars[0] == '+' || chars[0] == '-') {
        1
    } else {
        0
    };
    let max: u64 = if negative {
        2147483648
    } else {
        2147483647
    };
    assert(chars@.skip(0) =~= chars@);
    match read_magnitude(&chars, start, max) {
        Some(m) => if negative {
            Some((-(m as i64)) as i32)
        } else {
            Some(m as i32)
        },
        None => None,
    }
}

} // verus!
