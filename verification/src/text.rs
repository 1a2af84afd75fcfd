//! Characters and decimal numbers, as the notations of the engine use them.

use vstd::prelude::*;

verus! {

/// `String::push` appends one character to the string.
pub assume_specification[ String::push ](s: &mut String, c: char)
    ensures
        final(s)@ == old(s)@.push(c),
;

/// The character of a decimal digit.
pub open spec fn digit_char(d: int) -> char {
    ((48 + d) as u8) as char
}

/// The value of a decimal digit character, if it is one.
pub open spec fn digit_value(c: char) -> Option<int> {
    if 48 <= c as u32 <= 57 {
        Some(c as u32 - 48)
    } else {
        None
    }
}

/// Decimal notation of a natural number, without leading zeros.
pub open spec fn decimal(n: nat) -> Seq<char>
    decreases n,
{
    if n < 10 {
        seq![digit_char(n as int)]
    } else {
        decimal(n / 10).push(digit_char((n % 10) as int))
    }
}

/// Value of a run of decimal digits, read as a natural number; `None` when
/// some character is not a digit. The empty run has value 0.
pub open spec fn digits_value(s: Seq<char>) -> Option<nat>
    decreases s.len(),
{
    if s.len() == 0 {
        Some(0nat)
    } else {
        match (digits_value(s.drop_last()), digit_value(s.last())) {
            (Some(v), Some(d)) => Some((v * 10 + d) as nat),
            _ => None,
        }
    }
}

/// What a field of decimal text denotes as a 16-bit counter: an optional `+`
/// followed by at least one digit, of a value that fits.
pub open spec fn parse_u16(s: Seq<char>) -> Option<u16> {
    let body = if s.len() > 0 && s[0] == '+' {
        s.subrange(1, s.len() as int)
    } else {
        s
    };
    if body.len() == 0 {
        None
    } else {
        match digits_value(body) {
            Some(v) => if v <= 0xffff {
                Some(v as u16)
            } else {
                None
            },
            None => None,
        }
    }
}

pub fn digit_to_char(d: u8) -> (c: char)
    requires
        d < 10,
    ensures
        c == digit_char(d as int),
{
    (48u8 + d) as char
}

/// Appends the decimal notation of `n`.
pub fn push_decimal(out: &mut String, n: u16)
    ensures
        final(out)@ == old(out)@ + decimal(n as nat),
    decreases n,
{
    if n >= 10 {
        push_decimal(out, n / 10);
    }
    let ghost before = out@;
    out.push(digit_to_char((n % 10) as u8));
    proof {
        let d = digit_char((n % 10) as int);
        if n >= 10 {
            assert(old(out)@ + decimal((n / 10) as nat).push(d) == before.push(d));
        } else {
            assert(old(out)@ + seq![d] == before.push(d));
        }
    }
}

} // verus!
