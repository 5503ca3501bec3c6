//! The character classes that images are made of, and the value of a hexadecimal digit.

use vstd::prelude::*;

verus! {

/// The radix of a code.
pub const HEX: u32 = 16;

/// `c` is one of `0` to `9`.
pub open spec fn is_digit(c: char) -> bool {
    '0' <= c && c <= '9'
}

/// `c` is an ASCII letter.
pub open spec fn is_alphabetic(c: char) -> bool {
    ('a' <= c && c <= 'z') || ('A' <= c && c <= 'Z')
}

/// `c` is an ASCII letter or digit.
pub open spec fn is_alphanumeric(c: char) -> bool {
    is_digit(c) || is_alphabetic(c)
}

/// `c` is a hexadecimal digit, in either case.
pub open spec fn is_hex_digit(c: char) -> bool {
    is_digit(c) || ('a' <= c && c <= 'f') || ('A' <= c && c <= 'F')
}

/// The number that the hexadecimal digit `c` stands for; 0 for any other character.
pub open spec fn hex_digit_value(c: char) -> nat {
    if is_digit(c) {
        (c as int - '0' as int) as nat
    } else if 'a' <= c && c <= 'f' {
        (c as int - 'a' as int + 10) as nat
    } else if 'A' <= c && c <= 'F' {
        (c as int - 'A' as int + 10) as nat
    } else {
        0
    }
}

/// The lower-case hexadecimal digit that stands for `n`, for `n` below 16.
pub open spec fn lower_hex_digit(n: nat) -> char {
    if n < 10 {
        ('0' as int + n) as char
    } else {
        ('a' as int + n - 10) as char
    }
}

/// The byte that a character stands for when it is read as a literal: its code point, reduced
/// to eight bits. For an ASCII character this is the code point itself.
pub open spec fn literal_byte(c: char) -> u8 {
    (c as u32 % 256) as u8
}

/// The lower-case digit for a value below 16 is a hexadecimal digit with that value.
pub proof fn lemma_lower_hex_digit(n: nat)
    requires
        n < 16,
    ensures
        is_hex_digit(lower_hex_digit(n)),
        hex_digit_value(lower_hex_digit(n)) == n,
{
}

/// Read as a literal, the character made from a byte is that byte.
pub proof fn lemma_literal_byte(b: u8)
    ensures
        literal_byte(b as char) == b,
{
}

/// Whether `c` is an ASCII letter.
pub fn char_is_alphabetic(c: char) -> (r: bool)
    ensures
        r == is_alphabetic(c),
{
    ('a' <= c && c <= 'z') || ('A' <= c && c <= 'Z')
}

/// Whether `c` is a hexadecimal digit, in either case.
pub fn char_is_hex_digit(c: char) -> (r: bool)
    ensures
        r == is_hex_digit(c),
{
    ('0' <= c && c <= '9') || ('a' <= c && c <= 'f') || ('A' <= c && c <= 'F')
}

/// Whether `b` is the code point of an ASCII letter or digit.
pub fn byte_is_alphanumeric(b: u8) -> (r: bool)
    ensures
        r == is_alphanumeric(b as char),
{
    (0x30 <= b && b <= 0x39) || (0x41 <= b && b <= 0x5a) || (0x61 <= b && b <= 0x7a)
}

/// The value of `c` as a hexadecimal digit, or `None` where it is none.
pub fn char_hex_value(c: char) -> (v: Option<u8>)
    ensures
        v is Some <==> is_hex_digit(c),
        v matches Some(d) ==> d == hex_digit_value(c) && d < HEX,
{
    let point: u32 = c as u32;
    if '0' <= c && c <= '9' {
        Some((point - 0x30) as u8)
    } else if 'a' <= c && c <= 'f' {
        Some((point - 0x61 + 10) as u8)
    } else if 'A' <= c && c <= 'F' {
        Some((point - 0x41 + 10) as u8)
    } else {
        None
    }
}

/// The lower-case hexadecimal digit for a value below 16.
pub fn lower_hex_char(n: u8) -> (c: char)
    requires
        n < HEX,
    ensures
        c == lower_hex_digit(n as nat),
        is_hex_digit(c),
        hex_digit_value(c) == n,
        !('A' <= c && c <= 'F'),
{
    if n < 10 {
        (0x30 + n) as char
    } else {
        (0x61 + (n - 10)) as char
    }
}

/// The byte that `c` stands for as a literal.
pub fn char_literal_byte(c: char) -> (b: u8)
    ensures
        b == literal_byte(c),
{
    (c as u32 % 256) as u8
}

} // verus!
