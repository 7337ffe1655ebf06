//! Decimal numbers as the wire writes them: digits only, most significant
//! first.

use crate::text::push_char;
use vstd::prelude::*;
use vstd::string::*;

verus! {

/// Whether `c` is one of `0` to `9`.
pub open spec fn is_digit(c: char) -> bool {
    '0' <= c <= '9'
}

/// The value of a digit.
pub open spec fn digit_value(c: char) -> nat {
    (c as u32 - '0' as u32) as nat
}

/// The digit of a value below ten.
pub open spec fn digit_char(value: nat) -> char {
    ('0' as u32 + value) as u8 as char
}

/// Whether `text` is a decimal number: one digit or more, and nothing else.
pub open spec fn is_decimal(text: Seq<char>) -> bool {
    &&& text.len() > 0
    &&& forall|i: int| 0 <= i < text.len() ==> is_digit(#[trigger] text[i])
}

/// The number that the digits of `text` write.
pub open spec fn decimal_value(text: Seq<char>) -> nat
    decreases text.len(),
{
    if text.len() == 0 {
        0
    } else {
        decimal_value(text.drop_last()) * 10 + digit_value(text.last())
    }
}

/// The digits of `value`, without leading zeros (`0` itself is one digit).
pub open spec fn decimal_digits(value: nat) -> Seq<char>
    decreases value,
{
    if value < 10 {
        seq![digit_char(value)]
    } else {
        decimal_digits(value / 10).push(digit_char(value % 10))
    }
}

/// A number never shrinks when digits are appended to it.
proof fn lemma_prefix_value(text: Seq<char>, k: int)
    requires
        0 <= k <= text.len(),
    ensures
        decimal_value(text.take(k)) <= decimal_value(text),
    decreases text.len() - k,
{
    if k == text.len() {
        assert(text.take(k) =~= text);
    } else {
        lemma_prefix_value(text, k + 1);
        assert(text.take(k + 1).drop_last() =~= text.take(k));
    }
}

/// Writing a number and reading the digits back gives the number.
pub proof fn lemma_digits_round_trip(value: nat)
    ensures
        is_decimal(decimal_digits(value)),
        decimal_value(decimal_digits(value)) == value,
    decreases value,
{
    if value < 10 {
        let digits = decimal_digits(value);
        assert(digits.drop_last() =~= Seq::<char>::empty());
        assert(decimal_value(digits.drop_last()) == 0);
    } else {
        lemma_digits_round_trip(value / 10);
        let digits = decimal_digits(value);
        assert(digits.drop_last() =~= decimal_digits(value / 10));
        assert(digits.last() == digit_char(value % 10));
    }
}

/// Reads a decimal number. Anything but digits, no digit at all, or a number
/// beyond `u64` gives `None`.
pub fn parse_u64(text: &str) -> (out: Option<u64>)
    ensures
        out is Some == (is_decimal(text@) && decimal_value(text@) <= u64::MAX),
        out matches Some(value) ==> value == decimal_value(text@),
{
    let len = text.unicode_len();
    if len == 0 {
        return None;
    }
    let mut value: u64 = 0;
    let mut i: usize = 0;
    while i < len
        invariant
            len == text@.len(),
            i <= len,
            value == decimal_value(text@.take(i as int)),
            forall|j: int| 0 <= j < i ==> is_digit(#[trigger] text@[j]),
        decreases len - i,
    {
        let c = text.get_char(i);
        if c < '0' || c > '9' {
            return None;
        }
        let digit = (c as u32 - '0' as u32) as u64;
        proof {
            let next = text@.take(i + 1);
            assert(next.drop_last() =~= text@.take(i as int));
            assert(next.last() == c);
            lemma_prefix_value(text@, i + 1);
        }
        if value > (u64::MAX - digit) / 10 {
            return None;
        }
        value = value * 10 + digit;
        i += 1;
    }
    proof {
        assert(text@.take(i as int) =~= text@);
    }
    Some(value)
}

/// Appends the digits of `value` to `out`.
pub fn push_u64(out: &mut String, value: u64)
    ensures
        final(out)@ == old(out)@ + decimal_digits(value as nat),
    decreases value,
{
    if value >= 10 {
        push_u64(out, value / 10);
    }
    let digit = (value % 10) as u8;
    let c = (0x30 + digit) as char;
    proof {
        assert(c == digit_char((value % 10) as nat));
    }
    push_char(out, c);
    proof {
        if value < 10 {
            assert(out@ =~= old(out)@ + decimal_digits(value as nat));
        } else {
            assert(out@ =~= old(out)@ + decimal_digits(value as nat));
        }
    }
}

/// Writes `value` in decimal.
pub fn format_u64(value: u64) -> (out: String)
    ensures
        out@ == decimal_digits(value as nat),
{
    let mut out = String::new();
    push_u64(&mut out, value);
    proof {
        assert(Seq::<char>::empty() + decimal_digits(value as nat) =~= decimal_digits(value as nat));
    }
    out
}

} // verus!
