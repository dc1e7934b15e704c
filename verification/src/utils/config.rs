//! Settings, read from texts.

use crate::text::{chars_of, decimal};
use vstd::prelude::*;

verus! {

/// Whether `c` is a decimal digit.
pub open spec fn is_digit(c: char) -> bool {
    '0' <= c && c <= '9'
}

/// The number that the digits `s` stand for.
pub open spec fn digits_value(s: Seq<char>) -> nat
    decreases s.len(),
{
    if s.len() == 0 {
        0
    } else {
        digits_value(s.drop_last()) * 10 + (s.last() as nat - 48) as nat
    }
}

/// The digits of a number: what follows an optional plus sign.
pub open spec fn digits_of(s: Seq<char>) -> Seq<char> {
    if s.len() > 0 && s[0] == '+' {
        s.drop_first()
    } else {
        s
    }
}

/// The number of at most `max` that `s` is the decimal notation of, if it is one.
pub open spec fn number_of(s: Seq<char>, max: nat) -> Option<nat> {
    let digits = digits_of(s);
    if digits.len() > 0 && (forall|i: int| 0 <= i < digits.len() ==> is_digit(#[trigger] digits[i]))
        && digits_value(digits) <= max {
        Some(digits_value(digits))
    } else {
        None
    }
}

proof fn lemma_digits_grow(s: Seq<char>, n: int)
    requires
        0 <= n <= s.len(),
        forall|i: int| 0 <= i < s.len() ==> is_digit(#[trigger] s[i]),
    ensures
        digits_value(s.take(n)) <= digits_value(s),
    decreases s.len() - n,
{
    if n < s.len() {
        lemma_digits_grow(s, n + 1);
        assert(s.take(n + 1).drop_last() =~= s.take(n));
    } else {
        assert(s.take(n) =~= s);
    }
}

/// A number in decimal notation is read back as that number.
pub proof fn decimal_is_read(n: nat, max: nat)
    requires
        n <= max,
    ensures
        number_of(decimal(n), max) == Some(n),
{
    lemma_decimal(n);
    assert(is_digit(decimal(n)[0]));
}

proof fn lemma_decimal(n: nat)
    ensures
        decimal(n).len() > 0,
        forall|i: int| 0 <= i < decimal(n).len() ==> is_digit(#[trigger] decimal(n)[i]),
        digits_value(decimal(n)) == n,
    decreases n,
{
    if n < 10 {
        assert(decimal(n).drop_last() =~= Seq::empty());
        assert(digits_value(decimal(n).drop_last()) == 0);
    } else {
        lemma_decimal(n / 10);
        assert(decimal(n).drop_last() =~= decimal(n / 10));
    }
}

/// The number of at most `max` that `s` is the decimal notation of, if it is one.
fn parse_number(s: &str, max: u64) -> (r: Option<u64>)
    ensures
        match number_of(s@, max as nat) {
            Some(n) => r == Some(n as u64),
            None => r is None,
        },
{
    let v = chars_of(s);
    let start: usize = if v.len() > 0 && v[0] == '+' {
        1
    } else {
        0
    };
    let ghost digits = digits_of(s@);
    assert(digits =~= v@.skip(start as int));
    if start == v.len() {
        return None;
    }
    let mut n: u64 = 0;
    let mut i: usize = start;
    assert(digits.take(0) =~= Seq::<char>::empty());
    while i < v.len()
        invariant
            start <= i <= v.len(),
            v@ == s@,
            digits == digits_of(s@),
            digits == v@.skip(start as int),
            digits.len() == v.len() - start,
            digits.len() > 0,
            n <= max,
            n as nat == digits_value(digits.take(i - start)),
            forall|k: int| 0 <= k < i - start ==> is_digit(#[trigger] digits[k]),
        decreases v.len() - i,
    {
        let c = v[i];
        assert(digits[i - start] == c);
        if !('0' <= c && c <= '9') {
            return None;
        }
        let d: u64 = (c as u32 - 48) as u64;
        let wide: u128 = n as u128 * 10 + d as u128;
        assert(digits.take(i - start + 1).drop_last() =~= digits.take(i - start));
        assert(wide as nat == digits_value(digits.take(i - start + 1)));
        if wide > max as u128 {
            proof {
                if number_of(s@, max as nat) is Some {
                    lemma_digits_grow(digits, i - start + 1);
                }
            }
            return None;
        }
        n = wide as u64;
        i = i + 1;
    }
    assert(digits.take(i - start) =~= digits);
    Some(n)
}

/// The setting that was read as `read`, or `default` where there is none.
pub fn config_string(read: Option<String>, default: &str) -> (r: String)
    ensures
        r@ == match read {
            Some(val) => val@,
            None => default@,
        },
{
    match read {
        Some(val) => val,
        None => default.to_owned(),
    }
}

/// The number of at most `max` that was read as `read`, or `default` where none was, or where it
/// is not such a number.
pub open spec fn configured(read: Option<String>, max: nat, default: nat) -> nat {
    match read {
        Some(val) => match number_of(val@, max) {
            Some(n) => n,
            None => default,
        },
        None => default,
    }
}

/// The number that was read as `read`, or `default` where there is none.
pub fn config_from_str(read: Option<String>, default: u64) -> (r: u64)
    ensures
        r as nat == configured(read, u64::MAX as nat, default as nat),
{
    match read {
        Some(val) => match parse_number(val.as_str(), u64::MAX) {
            Some(n) => n,
            None => default,
        },
        None => default,
    }
}

/// The size that was read as `read`, or `default` where there is none.
pub fn config_size_from_str(read: Option<String>, default: usize) -> (r: usize)
    ensures
        r as nat == configured(read, usize::MAX as nat, default as nat),
{
    match read {
        Some(val) => match parse_number(val.as_str(), usize::MAX as u64) {
            Some(n) => n as usize,
            None => default,
        },
        None => default,
    }
}

} // verus!
