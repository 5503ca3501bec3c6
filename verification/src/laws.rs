//! What holds of encoding and decoding together.

use crate::ascii::{is_alphanumeric, lemma_literal_byte, lemma_lower_hex_digit, lower_hex_digit};
use crate::decode::{code_byte, hex_value, lemma_hex_pair, preimage, token};
use crate::encode::{image_of, rendering};
use crate::error::Failure;
use crate::value::{be_bytes, from_be_bytes, lemma_join_split};
use vstd::prelude::*;

verus! {

/// Splitting the value joined from four bytes gives the four bytes back.
pub proof fn lemma_split_join(bytes: Seq<u8>)
    requires
        bytes.len() == 4,
    ensures
        be_bytes(from_be_bytes(bytes)) == bytes,
{
    let b0: int = bytes[0] as int;
    let b1: int = bytes[1] as int;
    let b2: int = bytes[2] as int;
    let b3: int = bytes[3] as int;
    let magic: int = b0 * 0x100_0000 + b1 * 0x1_0000 + b2 * 0x100 + b3;
    assert(from_be_bytes(bytes) == magic);
    assert(magic / 0x100_0000 == b0);
    assert(magic / 0x1_0000 == b0 * 0x100 + b1);
    assert(magic / 0x100 == b0 * 0x1_0000 + b1 * 0x100 + b2);
    assert(be_bytes(from_be_bytes(bytes)) =~= bytes);
}

/// A byte is written as one character exactly when it is an ASCII letter or digit, and as two
/// otherwise.
pub proof fn lemma_rendering_len(b: u8)
    ensures
        is_alphanumeric(b as char) ==> rendering(b).len() == 1,
        !is_alphanumeric(b as char) ==> rendering(b).len() == 2,
{
}

/// The image of any magic value has 4 to 8 characters.
pub proof fn lemma_image_len(magic: u32)
    ensures
        4 <= image_of(magic).len() <= 8,
{
}

/// Every character of an image is an ASCII letter or digit.
pub proof fn lemma_image_is_alphanumeric(magic: u32, i: int)
    requires
        0 <= i < image_of(magic).len(),
    ensures
        is_alphanumeric(image_of(magic)[i]),
{
    let bytes = be_bytes(magic);
    lemma_rendering_is_alphanumeric(bytes[0]);
    lemma_rendering_is_alphanumeric(bytes[1]);
    lemma_rendering_is_alphanumeric(bytes[2]);
    lemma_rendering_is_alphanumeric(bytes[3]);
}

/// However a byte is written, it is written in ASCII letters and digits.
pub proof fn lemma_rendering_is_alphanumeric(b: u8)
    ensures
        forall|i: int| 0 <= i < rendering(b).len() ==> is_alphanumeric(#[trigger] rendering(b)[i]),
{
}

/// The two digits that a byte is written as, read as a code, stand for that byte.
pub proof fn lemma_code_of_byte(b: u8)
    ensures
        code_byte(seq![lower_hex_digit((b / 16) as nat), lower_hex_digit((b % 16) as nat)])
            == Ok::<u8, Failure>(b),
{
    let code = seq![lower_hex_digit((b / 16) as nat), lower_hex_digit((b % 16) as nat)];
    lemma_lower_hex_digit((b / 16) as nat);
    lemma_lower_hex_digit((b % 16) as nat);
    lemma_hex_pair(code);
}

/// Decoding the image of a magic value gives the value back, whenever the image has 4
/// characters (every byte written as itself) or 8 (every byte written as a code).
pub proof fn lemma_round_trip(magic: u32)
    requires
        image_of(magic).len() == 4 || image_of(magic).len() == 8,
    ensures
        preimage(image_of(magic)) == Ok::<u32, Failure>(magic),
{
    let bytes = be_bytes(magic);
    let image = image_of(magic);
    lemma_join_split(magic);
    lemma_rendering_len(bytes[0]);
    lemma_rendering_len(bytes[1]);
    lemma_rendering_len(bytes[2]);
    lemma_rendering_len(bytes[3]);
    if image.len() == 4 {
        assert(image =~= seq![
            bytes[0] as char,
            bytes[1] as char,
            bytes[2] as char,
            bytes[3] as char,
        ]);
        lemma_literal_byte(bytes[0]);
        lemma_literal_byte(bytes[1]);
        lemma_literal_byte(bytes[2]);
        lemma_literal_byte(bytes[3]);
    } else {
        assert(token(image, 0) =~= rendering(bytes[0]));
        assert(token(image, 1) =~= rendering(bytes[1]));
        assert(token(image, 2) =~= rendering(bytes[2]));
        assert(token(image, 3) =~= rendering(bytes[3]));
        lemma_code_of_byte(bytes[0]);
        lemma_code_of_byte(bytes[1]);
        lemma_code_of_byte(bytes[2]);
        lemma_code_of_byte(bytes[3]);
    }
}

} // verus!
