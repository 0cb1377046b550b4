//! Decimal numerals: how a number is written into a reply, and how the
//! sequence number of a `FETCH` is read.

use vstd::prelude::*;
use vstd::slice::slice_subrange;

verus! {

/// The largest sequence number that is accepted: the largest signed 32-bit integer.
pub const MAX_SEQUENCE_NUMBER: u32 = 0x7fff_ffff;

/// The digit `0`; the other digits follow it in order.
pub const ZERO: u8 = 0x30;

/// The sign `+`.
pub const PLUS: u8 = 0x2b;

/// The sign `-`.
pub const MINUS: u8 = 0x2d;

/// Whether `b` is one of the digits `0` to `9`.
pub open spec fn is_digit(b: u8) -> bool {
    ZERO <= b <= ZERO + 9
}

/// The canonical numeral of `n`: its decimal digits, with no sign and no leading zero.
pub open spec fn decimal(n: nat) -> Seq<u8>
    decreases n,
{
    if n < 10 {
        seq![(ZERO + n) as u8]
    } else {
        decimal(n / 10).push((ZERO + n % 10) as u8)
    }
}

/// The number that a string of digits stands for.
pub open spec fn digits_value(digits: Seq<u8>) -> nat
    decreases digits.len(),
{
    if digits.len() == 0 {
        0
    } else {
        digits_value(digits.drop_last()) * 10 + (digits.last() - ZERO) as nat
    }
}

/// Whether `s` holds digits only.
pub open spec fn all_digits(s: Seq<u8>) -> bool {
    forall|i: int| 0 <= i < s.len() ==> is_digit(#[trigger] s[i])
}

/// Whether `s` begins with a sign.
pub open spec fn has_sign(s: Seq<u8>) -> bool {
    s.len() > 0 && (s[0] == PLUS || s[0] == MINUS)
}

/// The integer that `s` stands for, where `s` is a numeral: an optional sign,
/// `+` or `-`, and then one digit or more. Nothing else is a numeral.
pub open spec fn numeral_value(s: Seq<u8>) -> Option<int> {
    let digits = if has_sign(s) {
        s.drop_first()
    } else {
        s
    };
    if digits.len() > 0 && all_digits(digits) {
        if has_sign(s) && s[0] == MINUS {
            Some(-(digits_value(digits) as int))
        } else {
            Some(digits_value(digits) as int)
        }
    } else {
        None
    }
}

/// The sequence number that `token` names: the value of a numeral that is
/// neither negative nor larger than `MAX_SEQUENCE_NUMBER`.
pub open spec fn sequence_number(token: Seq<u8>) -> Option<u32> {
    match numeral_value(token) {
        Some(v) => if 0 <= v <= MAX_SEQUENCE_NUMBER {
            Some(v as u32)
        } else {
            None
        },
        None => None,
    }
}

/// A string of digits is worth at least as much as each of its prefixes.
pub proof fn lemma_digits_value_grows(digits: Seq<u8>, k: int)
    requires
        0 <= k <= digits.len(),
    ensures
        digits_value(digits.subrange(0, k)) <= digits_value(digits),
    decreases digits.len(),
{
    if k < digits.len() {
        lemma_digits_value_grows(digits.drop_last(), k);
        assert(digits.drop_last().subrange(0, k) == digits.subrange(0, k));
    } else {
        assert(digits.subrange(0, k) == digits);
    }
}

/// The numeral of `n` is made of digits, at least one, and stands for `n`.
pub proof fn lemma_decimal_reads_back(n: nat)
    ensures
        decimal(n).len() > 0,
        all_digits(decimal(n)),
        digits_value(decimal(n)) == n,
        numeral_value(decimal(n)) == Some(n as int),
    decreases n,
{
    reveal_with_fuel(digits_value, 2);
    if n < 10 {
        assert(decimal(n).drop_last().len() == 0);
    } else {
        lemma_decimal_reads_back(n / 10);
        assert(decimal(n).drop_last() == decimal(n / 10));
    }
}

/// Appends the numeral of `n` to `out`.
pub fn push_decimal(out: &mut Vec<u8>, n: u64)
    ensures
        final(out)@ == old(out)@ + decimal(n as nat),
    decreases n,
{
    if n >= 10 {
        push_decimal(out, n / 10);
    }
    out.push(ZERO + (n % 10) as u8);
}

/// The numeral of `n`.
pub fn format_decimal(n: u64) -> (out: Vec<u8>)
    ensures
        out@ == decimal(n as nat),
{
    let mut out: Vec<u8> = Vec::new();
    push_decimal(&mut out, n);
    out
}

/// Reads a sequence number: a numeral whose value is neither negative nor
/// larger than `MAX_SEQUENCE_NUMBER`, however many zeros it begins with.
/// Anything else gives `None`.
pub fn parse_sequence_number(token: &[u8]) -> (id: Option<u32>)
    ensures
        id == sequence_number(token@),
{
    let signed = token.len() > 0 && (token[0] == PLUS || token[0] == MINUS);
    let negative = signed && token[0] == MINUS;
    let digits = if signed {
        slice_subrange(token, 1, token.len())
    } else {
        token
    };
    if digits.len() == 0 {
        return None;
    }
    let mut value: u32 = 0;
    let mut i: usize = 0;
    while i < digits.len()
        invariant
            i <= digits.len(),
            digits@.len() > 0,
            digits@ == if has_sign(token@) {
                token@.drop_first()
            } else {
                token@
            },
            all_digits(digits@.subrange(0, i as int)),
            value == digits_value(digits@.subrange(0, i as int)),
            value <= MAX_SEQUENCE_NUMBER,
        decreases digits.len() - i,
    {
        let b = digits[i];
        if b < ZERO || b > ZERO + 9 {
            assert(!is_digit(digits@[i as int]));
            return None;
        }
        let d: u32 = (b - ZERO) as u32;
        proof {
            let next = digits@.subrange(0, i + 1);
            assert(next.drop_last() == digits@.subrange(0, i as int));
            assert(next.last() == b);
            lemma_digits_value_grows(digits@, i + 1);
        }
        if value > (MAX_SEQUENCE_NUMBER - d) / 10 {
            // Whatever follows, the value is out of range or this is no numeral.
            assert(digits_value(digits@.subrange(0, i + 1)) > MAX_SEQUENCE_NUMBER);
            return None;
        }
        value = value * 10 + d;
        i += 1;
    }
    assert(digits@.subrange(0, i as int) == digits@);
    if negative && value != 0 {
        None
    } else {
        Some(value)
    }
}

} // verus!
