//! Decimal numbers in text.

use vstd::prelude::*;
use crate::text;

verus! {

/// The digit for `d`.
pub open spec fn spec_digit(d: nat) -> char {
    (48 + d) as char
}

/// `n` in decimal, without leading zeros.
pub open spec fn spec_decimal(n: nat) -> Seq<char>
    decreases n,
{
    if n < 10 {
        seq![spec_digit(n)]
    } else {
        spec_decimal(n / 10).push(spec_digit(n % 10))
    }
}

/// `n` in decimal.
pub fn decimal(n: u64) -> (r: String)
    ensures
        r@ == spec_decimal(n as nat),
    decreases n,
{
    let last: u8 = (n % 10) as u8;
    let digit = (48 + last) as char;
    if n < 10 {
        let mut r = String::new();
        r.push(digit);
        assert(r@ =~= seq![spec_digit(n as nat)]);
        r
    } else {
        let mut r = decimal(n / 10);
        r.push(digit);
        r
    }
}

/// `n` in decimal.
pub fn decimal_usize(n: usize) -> (r: String)
    ensures
        r@ == spec_decimal(n as nat),
{
    decimal(n as u64)
}

/// The value of a run of digits.
pub open spec fn spec_digits_value(s: Seq<char>) -> Option<nat>
    decreases s.len(),
{
    if s.len() == 0 {
        Some(0)
    } else if !text::is_digit(s.last()) {
        None
    } else {
        match spec_digits_value(s.drop_last()) {
            Some(v) => Some(v * 10 + ((s.last() as int) - 48) as nat),
            None => None,
        }
    }
}

/// The unsigned integer that `s` writes: an optional `+`, then digits, with a
/// value of at most `max`.
pub open spec fn spec_parse_unsigned(s: Seq<char>, max: nat) -> Option<nat> {
    let digits = if s.len() > 0 && s[0] == '+' {
        s.skip(1)
    } else {
        s
    };
    if digits.len() == 0 {
        None
    } else {
        match spec_digits_value(digits) {
            Some(v) => if v <= max {
                Some(v)
            } else {
                None
            },
            None => None,
        }
    }
}

proof fn lemma_digits_prefix(s: Seq<char>, k: int)
    requires
        0 <= k <= s.len(),
    ensures
        spec_digits_value(s) is Some ==> {
            &&& spec_digits_value(s.take(k)) is Some
            &&& spec_digits_value(s.take(k))->Some_0 <= spec_digits_value(s)->Some_0
        },
    decreases s.len(),
{
    if k == s.len() {
        assert(s.take(k) =~= s);
    } else {
        lemma_digits_prefix(s.drop_last(), k);
        assert(s.drop_last().take(k) =~= s.take(k));
    }
}

/// Parses an unsigned integer as `str::parse` does for a type with maximum `max`.
pub fn parse_unsigned(s: &str, max: u64) -> (r: Option<u64>)
    ensures
        match r {
            Some(v) => spec_parse_unsigned(s@, max as nat) == Some(v as nat),
            None => spec_parse_unsigned(s@, max as nat) is None,
        },
{
    let cs = text::chars_of(s);
    let mut i: usize = 0;
    if cs.len() > 0 && cs[0] == '+' {
        i = 1;
    }
    if i == cs.len() {
        return None;
    }
    let ghost digits = s@.skip(i as int);
    assert(i == 0 ==> digits =~= s@);
    let ghost first = i;
    let mut v: u64 = 0;
    assert(digits.take(0) =~= seq![]);
    while i < cs.len()
        invariant
            cs@ == s@,
            first <= i <= cs.len(),
            digits == s@.skip(first as int),
            digits.len() > 0,
            digits == (if s@.len() > 0 && s@[0] == '+' {
                s@.skip(1)
            } else {
                s@
            }),
            v <= max,
            spec_digits_value(digits.take(i - first)) == Some(v as nat),
        decreases cs.len() - i,
    {
        let c = cs[i];
        let ghost upto = digits.take(i - first + 1);
        assert(upto.drop_last() =~= digits.take(i - first));
        assert(upto.last() == c);
        if !('0' <= c && c <= '9') {
            proof {
                lemma_digits_prefix(digits, i - first + 1);
            }
            return None;
        }
        let d: u64 = ((c as u8) - 48) as u64;
        if d > max || v > (max - d) / 10 {
            proof {
                lemma_digits_prefix(digits, i - first + 1);
            }
            return None;
        }
        v = v * 10 + d;
        i = i + 1;
    }
    assert(digits.take(digits.len() as int) =~= digits);
    Some(v)
}

// ---------------------------------------------------------------------------
// Laws
// ---------------------------------------------------------------------------

/// A number is read back from its decimal digits, which start with no zero but
/// its own.
pub proof fn law_decimal_is_read_back(n: nat)
    ensures
        spec_decimal(n).len() > 0,
        spec_digits_value(spec_decimal(n)) == Some(n),
        n >= 10 ==> spec_decimal(n)[0] != '0',
        forall|i: int| 0 <= i < spec_decimal(n).len() ==> text::is_digit(#[trigger] spec_decimal(n)[i]),
    decreases n,
{
    reveal_with_fuel(spec_digits_value, 3);
    let s = spec_decimal(n);
    if n < 10 {
        assert(s.drop_last() =~= seq![]);
        assert(s.last() as int == 48 + n);
    } else {
        law_decimal_is_read_back(n / 10);
        let front = spec_decimal(n / 10);
        let d = n % 10;
        assert(s.drop_last() =~= front);
        assert(s.last() as int == 48 + d);
        assert(s[0] == front[0]);
        if n / 10 < 10 {
            assert(front =~= seq![spec_digit(n / 10)]);
            assert(front[0] as int == 48 + n / 10);
        }
    }
}

/// A written number is parsed exactly where it is within the limit, with or
/// without a plus sign; a text with any other character in it is not a number.
pub proof fn law_written_number_is_parsed(n: nat, max: nat)
    ensures
        spec_parse_unsigned(spec_decimal(n), max) == if n <= max {
            Some(n)
        } else {
            None
        },
        spec_parse_unsigned(seq!['+'] + spec_decimal(n), max) == spec_parse_unsigned(
            spec_decimal(n),
            max,
        ),
        spec_parse_unsigned(seq![], max) is None,
        spec_parse_unsigned(seq!['+'], max) is None,
{
    law_decimal_is_read_back(n);
    let s = spec_decimal(n);
    assert(text::is_digit(s[0]));
    let plus = seq!['+'] + s;
    assert(plus[0] == '+');
    assert(plus.skip(1) =~= s);
    assert(seq!['+'].skip(1) =~= Seq::<char>::empty());
}

/// Only digits make a number, behind an optional plus sign.
pub proof fn law_other_characters_make_no_number(s: Seq<char>, max: nat, i: int)
    requires
        0 <= i < s.len(),
        !text::is_digit(s[i]),
        i > 0 || s[0] != '+',
    ensures
        spec_parse_unsigned(s, max) is None,
{
    if s[0] == '+' {
        assert(s.skip(1)[i - 1] == s[i]);
        lemma_no_value(s.skip(1), i - 1);
    } else {
        lemma_no_value(s, i);
    }
}

proof fn lemma_no_value(s: Seq<char>, i: int)
    requires
        0 <= i < s.len(),
        !text::is_digit(s[i]),
    ensures
        spec_digits_value(s) is None,
    decreases s.len(),
{
    if i < s.len() - 1 {
        assert(s.drop_last()[i] == s[i]);
        lemma_no_value(s.drop_last(), i);
    }
}

} // verus!
