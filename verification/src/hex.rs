//! Hexadecimal digits and the numbers they stand for.

use vstd::prelude::*;

verus! {

/// Whether `c` is one of `0`–`9`, `a`–`f` or `A`–`F`.
pub open spec fn is_hex_digit(c: char) -> bool {
    ||| '0' <= c <= '9'
    ||| 'a' <= c <= 'f'
    ||| 'A' <= c <= 'F'
}

/// The number, from 0 to 15, that a hexadecimal digit stands for.
/// Letter case makes no difference.
pub open spec fn hex_digit_value(c: char) -> nat
    recommends
        is_hex_digit(c),
{
    if '0' <= c <= '9' {
        (c as nat - '0' as nat) as nat
    } else if 'a' <= c <= 'f' {
        (c as nat - 'a' as nat + 10) as nat
    } else {
        (c as nat - 'A' as nat + 10) as nat
    }
}

/// Reads one hexadecimal digit: its value, or `None` for any other character.
pub fn hex_digit(c: char) -> (value: Option<u8>)
    ensures
        value is Some <==> is_hex_digit(c),
        value matches Some(v) ==> v == hex_digit_value(c) && v < 16,
{
    if '0' <= c && c <= '9' {
        Some((c as u8) - 48u8)
    } else if 'a' <= c && c <= 'f' {
        Some((c as u8) - 87u8)
    } else if 'A' <= c && c <= 'F' {
        Some((c as u8) - 55u8)
    } else {
        None
    }
}

/// A letter digit is worth the same in either case.
pub proof fn lemma_hex_letter_case(lower: char, upper: char)
    requires
        'a' <= lower <= 'f',
        upper as int == lower as int - 32,
    ensures
        'A' <= upper <= 'F',
        is_hex_digit(lower) && is_hex_digit(upper),
        hex_digit_value(lower) == hex_digit_value(upper),
{
}

} // verus!
