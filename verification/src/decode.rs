//! From an image back to the magic value.

use crate::ascii::{
    char_hex_value, char_is_alphabetic, char_is_hex_digit, char_literal_byte, hex_digit_value,
    is_alphabetic, is_hex_digit, literal_byte,
};
use crate::error::{outcome, Failure, ReverseMagicError};
use crate::value::{from_be_bytes, magic_from_bytes};
use vstd::prelude::*;

verus! {

/// Every character of `s` is a hexadecimal digit.
pub open spec fn all_hex_digits(s: Seq<char>) -> bool {
    forall|i: int| 0 <= i < s.len() ==> is_hex_digit(#[trigger] s[i])
}

/// Every character of `s` is an ASCII letter.
pub open spec fn all_alphabetic(s: Seq<char>) -> bool {
    forall|i: int| 0 <= i < s.len() ==> is_alphabetic(#[trigger] s[i])
}

/// `code` can be read as a code and `word` as literal letters.
pub open spec fn code_word(code: Seq<char>, word: Seq<char>) -> bool {
    all_hex_digits(code) && all_alphabetic(word)
}

fn is_hex_code(code: &str) -> (r: bool)
    ensures
        r == all_hex_digits(code@),
{
    broadcast use vstd::string::group_string_axioms;

    let mut ok: bool = true;
    for c in it: code.chars()
        invariant
            it.seq() == code@,
            ok == (forall|i: int| 0 <= i < it.index() ==> is_hex_digit(#[trigger] code@[i])),
    {
        ok = ok && char_is_hex_digit(c);
    }
    ok
}

fn is_word(word: &str) -> (r: bool)
    ensures
        r == all_alphabetic(word@),
{
    broadcast use vstd::string::group_string_axioms;

    let mut ok: bool = true;
    for c in it: word.chars()
        invariant
            it.seq() == word@,
            ok == (forall|i: int| 0 <= i < it.index() ==> is_alphabetic(#[trigger] word@[i])),
    {
        ok = ok && char_is_alphabetic(c);
    }
    ok
}

/// Whether `code` is made of hexadecimal digits only and `word` of ASCII letters only.
pub fn is_code_word(code: &str, word: &str) -> (r: bool)
    ensures
        r == code_word(code@, word@),
{
    is_hex_code(code) && is_word(word)
}

/// The number that `code` denotes when its characters are read as hexadecimal digits, the
/// first one weighing most.
pub open spec fn hex_value(code: Seq<char>) -> nat
    decreases code.len(),
{
    if code.len() == 0 {
        0
    } else {
        hex_value(code.drop_last()) * 16 + hex_digit_value(code.last())
    }
}

/// `code` stands for a byte: one hexadecimal digit or more, and nothing else, with a value that
/// fits in eight bits.
pub open spec fn is_byte_code(code: Seq<char>) -> bool {
    code.len() > 0 && all_hex_digits(code) && hex_value(code) <= u8::MAX
}

/// The byte that `code` stands for, or the failure that names `code`.
pub open spec fn code_byte(code: Seq<char>) -> Result<u8, Failure> {
    if is_byte_code(code) {
        Ok(hex_value(code) as u8)
    } else {
        Err(Failure::BadCode(code))
    }
}

/// Reading more digits never gives a smaller number.
pub proof fn lemma_hex_value_prefix(code: Seq<char>, n: int)
    requires
        0 <= n <= code.len(),
    ensures
        hex_value(code.take(n)) <= hex_value(code),
    decreases code.len(),
{
    if n < code.len() {
        lemma_hex_value_prefix(code.drop_last(), n);
        assert(code.drop_last().take(n) =~= code.take(n));
    } else {
        assert(code.take(n) =~= code);
    }
}

/// Two hexadecimal digits always stand for a byte: sixteen times the first plus the second.
pub proof fn lemma_hex_pair(code: Seq<char>)
    requires
        code.len() == 2,
        all_hex_digits(code),
    ensures
        is_byte_code(code),
        hex_value(code) == 16 * hex_digit_value(code[0]) + hex_digit_value(code[1]),
{
    let head = code.drop_last();
    assert(hex_value(head.drop_last()) == 0);
    assert(hex_value(head) == hex_digit_value(code[0]));
}

/// Reads `code` as a byte in base 16.
///
/// Succeeds exactly when `code` is one hexadecimal digit or more, of either case and with
/// nothing else beside them, whose value is at most 255. Otherwise the error carries `code`.
pub fn code_to_u8(code: &str) -> (r: Result<u8, ReverseMagicError>)
    ensures
        outcome(r) == code_byte(code@),
{
    broadcast use vstd::string::group_string_axioms;

    let mut value: u8 = 0;
    let mut empty: bool = true;
    for c in it: code.chars()
        invariant
            it.seq() == code@,
            empty == (it.index() == 0),
            all_hex_digits(code@.take(it.index() as int)),
            value == hex_value(code@.take(it.index() as int)),
    {
        assert(code@.take(it.index() + 1).drop_last() =~= code@.take(it.index() as int));
        match char_hex_value(c) {
            None => {
                return Err(ReverseMagicError::BadCode(code.to_owned()));
            },
            Some(digit) => {
                if value >= 16 {
                    // One more digit would take the value past a byte.
                    proof {
                        lemma_hex_value_prefix(code@, it.index() + 1);
                    }
                    return Err(ReverseMagicError::BadCode(code.to_owned()));
                }
                value = value * 16 + digit;
            },
        }
        empty = false;
    }
    assert(code@.take(code@.len() as int) =~= code@);
    if empty {
        Err(ReverseMagicError::BadCode(code.to_owned()))
    } else {
        Ok(value)
    }
}

/// The `i`-th code of an image that is made of codes only: its characters `2 * i` and
/// `2 * i + 1`.
pub open spec fn token(image: Seq<char>, i: int) -> Seq<char> {
    image.subrange(2 * i, 2 * i + 2)
}

/// The preimage of an image of four characters: each character is a literal byte.
pub open spec fn preimage_of_literals(image: Seq<char>) -> u32
    recommends
        image.len() == 4,
{
    from_be_bytes(
        seq![
            literal_byte(image[0]),
            literal_byte(image[1]),
            literal_byte(image[2]),
            literal_byte(image[3]),
        ],
    )
}

/// The preimage of an image of eight characters: each pair of characters is a code. The first
/// pair that stands for no byte is the failure.
pub open spec fn preimage_of_codes(image: Seq<char>) -> Result<u32, Failure>
    recommends
        image.len() == 8,
{
    match (
        code_byte(token(image, 0)),
        code_byte(token(image, 1)),
        code_byte(token(image, 2)),
        code_byte(token(image, 3)),
    ) {
        (Ok(b0), Ok(b1), Ok(b2), Ok(b3)) => Ok(from_be_bytes(seq![b0, b1, b2, b3])),
        (Err(e), _, _, _) => Err(e),
        (_, Err(e), _, _) => Err(e),
        (_, _, Err(e), _) => Err(e),
        (_, _, _, Err(e)) => Err(e),
    }
}

/// An image of five characters is a code followed by three letters.
pub open spec fn is_left_code(image: Seq<char>) -> bool
    recommends
        image.len() == 5,
{
    code_word(image.subrange(0, 2), image.subrange(2, 5))
}

/// An image of five characters is three letters followed by a code.
pub open spec fn is_right_code(image: Seq<char>) -> bool
    recommends
        image.len() == 5,
{
    code_word(image.subrange(3, 5), image.subrange(0, 3))
}

/// The preimage of an image of five characters. A code followed by three letters is tried
/// first, three letters followed by a code second; no other image of five characters has one.
pub open spec fn preimage_of_five(image: Seq<char>) -> Result<u32, Failure>
    recommends
        image.len() == 5,
{
    if is_left_code(image) {
        Ok(
            from_be_bytes(
                seq![
                    hex_value(image.subrange(0, 2)) as u8,
                    literal_byte(image[2]),
                    literal_byte(image[3]),
                    literal_byte(image[4]),
                ],
            ),
        )
    } else if is_right_code(image) {
        Ok(
            from_be_bytes(
                seq![
                    literal_byte(image[0]),
                    literal_byte(image[1]),
                    literal_byte(image[2]),
                    hex_value(image.subrange(3, 5)) as u8,
                ],
            ),
        )
    } else {
        Err(Failure::Unimplemented(5))
    }
}

/// The magic value that an image stands for, or why it stands for none. The number of
/// characters decides how the image is read.
pub open spec fn preimage(image: Seq<char>) -> Result<u32, Failure> {
    let len = image.len();
    if len <= 3 {
        Err(Failure::TooShort(len))
    } else if len == 4 {
        Ok(preimage_of_literals(image))
    } else if len == 5 {
        preimage_of_five(image)
    } else if len <= 7 {
        Err(Failure::Unimplemented(len))
    } else if len == 8 {
        preimage_of_codes(image)
    } else {
        Err(Failure::TooLong(len))
    }
}

/// Recovers the magic value from its image.
///
/// The image is read by its number of characters: four are four literal bytes, eight are four
/// codes, five are a code and three letters in either order. Fewer than four and more than
/// eight are refused as such; so is a code that stands for no byte, and an image of five to
/// seven characters that no rule covers.
pub fn reverse_magic(image: &str) -> (r: Result<u32, ReverseMagicError>)
    ensures
        outcome(r) == preimage(image@),
{
    let len: usize = image.unicode_len();
    if len <= 3 {
        Err(ReverseMagicError::TooShort(len as u8))
    } else if len == 4 {
        let mut bytes: [u8; 4] = [0u8; 4];
        let mut ix: usize = 0;
        while ix < 4
            invariant
                image@.len() == 4,
                ix <= 4,
                forall|j: int| 0 <= j < ix ==> #[trigger] bytes[j] == literal_byte(image@[j]),
            decreases 4 - ix,
        {
            bytes[ix] = char_literal_byte(image.get_char(ix));
            ix += 1;
        }
        assert(bytes@ =~= seq![
            literal_byte(image@[0]),
            literal_byte(image@[1]),
            literal_byte(image@[2]),
            literal_byte(image@[3]),
        ]);
        Ok(magic_from_bytes(bytes))
    } else if len <= 7 {
        if len == 5 {
            let lcode = image.substring_char(0, 2);
            let after = image.substring_char(2, 5);
            let before = image.substring_char(0, 3);
            let rcode = image.substring_char(3, 5);
            if is_code_word(lcode, after) {
                let mut bytes: [u8; 4] = [0u8; 4];
                proof {
                    lemma_hex_pair(lcode@);
                }
                match code_to_u8(lcode) {
                    Ok(byte) => {
                        bytes[0] = byte;
                    },
                    Err(e) => {
                        return Err(e);
                    },
                }
                let mut ix: usize = 0;
                while ix < 3
                    invariant
                        after@ == image@.subrange(2, 5),
                        image@.len() == 5,
                        ix <= 3,
                        bytes[0] == hex_value(image@.subrange(0, 2)),
                        forall|j: int| 1 <= j <= ix ==> #[trigger] bytes[j] == literal_byte(image@[j + 1]),
                    decreases 3 - ix,
                {
                    bytes[ix + 1] = char_literal_byte(after.get_char(ix));
                    ix += 1;
                }
                assert(bytes@ =~= seq![
                    hex_value(image@.subrange(0, 2)) as u8,
                    literal_byte(image@[2]),
                    literal_byte(image@[3]),
                    literal_byte(image@[4]),
                ]);
                Ok(magic_from_bytes(bytes))
            } else if is_code_word(rcode, before) {
                let mut bytes: [u8; 4] = [0u8; 4];
                let mut ix: usize = 0;
                while ix < 3
                    invariant
                        before@ == image@.subrange(0, 3),
                        image@.len() == 5,
                        ix <= 3,
                        forall|j: int| 0 <= j < ix ==> #[trigger] bytes[j] == literal_byte(image@[j]),
                    decreases 3 - ix,
                {
                    bytes[ix] = char_literal_byte(before.get_char(ix));
                    ix += 1;
                }
                proof {
                    lemma_hex_pair(rcode@);
                }
                match code_to_u8(rcode) {
                    Ok(byte) => {
                        bytes[3] = byte;
                    },
                    Err(e) => {
                        return Err(e);
                    },
                }
                assert(bytes@ =~= seq![
                    literal_byte(image@[0]),
                    literal_byte(image@[1]),
                    literal_byte(image@[2]),
                    hex_value(image@.subrange(3, 5)) as u8,
                ]);
                Ok(magic_from_bytes(bytes))
            } else {
                Err(ReverseMagicError::Unimplemented(len))
            }
        } else {
            Err(ReverseMagicError::Unimplemented(len))
        }
    } else if len == 8 {
        let mut bytes: [u8; 4] = [0u8; 4];
        let mut ix: usize = 0;
        while ix < 4
            invariant
                image@.len() == 8,
                ix <= 4,
                forall|j: int|
                    #![trigger bytes[j]]
                    #![trigger token(image@, j)]
                    0 <= j < ix ==> code_byte(token(image@, j)) == Ok::<u8, Failure>(bytes[j]),
            decreases 4 - ix,
        {
            let code = image.substring_char(ix * 2, (ix + 1) * 2);
            match code_to_u8(code) {
                Ok(byte) => {
                    bytes[ix] = byte;
                },
                Err(e) => {
                    assert(forall|j: int|
                        0 <= j < ix ==> code_byte(#[trigger] token(image@, j)) is Ok);
                    return Err(e);
                },
            }
            ix += 1;
        }
        Ok(magic_from_bytes(bytes))
    } else {
        Err(ReverseMagicError::TooLong(len))
    }
}

} // verus!
