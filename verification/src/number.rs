//! Numbers written in decimal.

use vstd::prelude::*;

use crate::text::{chars_of, decimal};

verus! {

/// `c` is a decimal digit.
pub open spec fn is_digit(c: char) -> bool {
    0x30 <= c as u32 <= 0x39
}

/// The value of a decimal digit.
pub open spec fn digit_value(c: char) -> nat {
    (c as u32 - 0x30) as nat
}

/// There is at least one character, and all are decimal digits.
pub open spec fn digits(s: Seq<char>) -> bool {
    s.len() > 0 && forall|i: int| 0 <= i < s.len() ==> is_digit(#[trigger] s[i])
}

/// The number that a row of decimal digits stands for.
pub open spec fn number(s: Seq<char>) -> nat
    decreases s.len(),
{
    if s.len() == 0 {
        0
    } else {
        number(s.drop_last()) * 10 + digit_value(s.last())
    }
}

/// The number that a text stands for: decimal digits, after a plus sign or none.
pub open spec fn unsigned(s: Seq<char>) -> Option<nat> {
    let d = if s.len() > 0 && s[0] == '+' {
        s.skip(1)
    } else {
        s
    };
    if digits(d) {
        Some(number(d))
    } else {
        None
    }
}

/// The number that a text stands for: decimal digits, and nothing else.
pub open spec fn plain(s: Seq<char>) -> Option<nat> {
    if digits(s) {
        Some(number(s))
    } else {
        None
    }
}

proof fn lemma_number_grows(s: Seq<char>, i: int)
    requires
        0 <= i <= s.len(),
    ensures
        number(s.take(i)) <= number(s),
    decreases s.len() - i,
{
    if i == s.len() {
        assert(s.take(i) =~= s);
    } else {
        lemma_number_grows(s, i + 1);
        assert(s.take(i + 1).drop_last() =~= s.take(i));
    }
}

/// The number that the characters of `v` from `from` to `to` stand for, if they are
/// decimal digits and the number is not too large.
pub fn parse_digits(v: &Vec<char>, from: usize, to: usize) -> (r: Option<u128>)
    requires
        from <= to <= v.len(),
    ensures
        match r {
            Some(n) => digits(v@.subrange(from as int, to as int)) && number(
                v@.subrange(from as int, to as int),
            ) == n,
            None => digits(v@.subrange(from as int, to as int)) ==> number(
                v@.subrange(from as int, to as int),
            ) > u128::MAX,
        },
{
    if from == to {
        return None;
    }
    let ghost s = v@.subrange(from as int, to as int);
    let mut i: usize = from;
    let mut n: u128 = 0;
    assert(s.take(0) =~= Seq::empty());
    while i < to
        invariant
            from <= i <= to <= v.len(),
            s == v@.subrange(from as int, to as int),
            n == number(s.take(i - from)),
            forall|j: int| 0 <= j < i - from ==> is_digit(#[trigger] s[j]),
        decreases to - i,
    {
        let c: u32 = v[i] as u32;
        assert(s[i - from] == v@[i as int]);
        if c < 0x30 || c > 0x39 {
            assert(!is_digit(s[i - from]));
            return None;
        }
        let d: u128 = (c - 0x30) as u128;
        assert(s.take(i + 1 - from).drop_last() =~= s.take(i - from));
        assert(s.take(i + 1 - from).last() == s[i - from]);
        if n > (u128::MAX - d) / 10 {
            proof {
                lemma_number_grows(s, i + 1 - from);
            }
            return None;
        }
        n = n * 10 + d;
        i += 1;
    }
    assert(s.take(s.len() as int) =~= s);
    Some(n)
}

/// The number that the characters of `v` from `from` to `to` stand for, if it is at
/// most `max`.
pub fn parse_unsigned_in(v: &Vec<char>, from: usize, to: usize, max: u128) -> (r: Option<u128>)
    requires
        from <= to <= v.len(),
    ensures
        match (unsigned(v@.subrange(from as int, to as int)), r) {
            (Some(n), Some(m)) => n == m && n <= max,
            (Some(n), None) => n > max,
            (None, m) => m is None,
        },
{
    let ghost s = v@.subrange(from as int, to as int);
    let start: usize = if from < to && v[from] == '+' {
        assert(s.skip(1) =~= v@.subrange(from + 1, to as int));
        from + 1
    } else {
        from
    };
    match parse_digits(v, start, to) {
        Some(n) => if n <= max {
            Some(n)
        } else {
            None
        },
        None => None,
    }
}

/// The number that a text stands for, if it is at most `max`.
pub fn parse_unsigned(s: &str, max: u128) -> (r: Option<u128>)
    ensures
        match (unsigned(s@), r) {
            (Some(n), Some(m)) => n == m && n <= max,
            (Some(n), None) => n > max,
            (None, m) => m is None,
        },
{
    let v = chars_of(s);
    assert(v@.subrange(0, v@.len() as int) =~= s@);
    parse_unsigned_in(&v, 0, v.len(), max)
}

/// A number that is written in decimal is read as the same number.
pub proof fn law_decimal_reads_back(n: nat)
    ensures
        digits(decimal(n)),
        number(decimal(n)) == n,
        unsigned(decimal(n)) == Some(n),
    decreases n,
{
    let d = n % 10;
    let c = (d + 0x30) as char;
    assert(is_digit(c) && digit_value(c) == d && c != '+');
    if n < 10 {
        assert(decimal(n) =~= seq![c]);
        assert(number(decimal(n).drop_last()) == 0);
        assert(decimal(n).last() == c);
        assert(number(decimal(n)) == d);
    } else {
        law_decimal_reads_back(n / 10);
        assert(decimal(n).drop_last() =~= decimal(n / 10));
        assert(decimal(n).last() == c);
        assert(decimal(n)[0] == decimal(n / 10)[0]);
        assert forall|i: int| 0 <= i < decimal(n).len() implies is_digit(
            #[trigger] decimal(n)[i],
        ) by {
            if i < decimal(n / 10).len() {
                assert(decimal(n)[i] == decimal(n / 10)[i]);
            }
        }
    }
    assert(is_digit(decimal(n)[0]));
    assert(decimal(n)[0] != '+');
}

} // verus!
