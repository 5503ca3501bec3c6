//! From a magic value to its image.

use crate::ascii::{byte_is_alphanumeric, is_alphanumeric, lower_hex_char, lower_hex_digit};
use crate::value::{be_bytes, magic_to_bytes};
use vstd::prelude::*;

verus! {

/// How one byte is written: an ASCII letter or digit as itself, any other byte as its two
/// lower-case hexadecimal digits.
pub open spec fn rendering(b: u8) -> Seq<char> {
    if is_alphanumeric(b as char) {
        seq![b as char]
    } else {
        seq![lower_hex_digit((b / 16) as nat), lower_hex_digit((b % 16) as nat)]
    }
}

/// The image of a magic value: its four bytes, most significant first, each written by
/// `rendering`.
pub open spec fn image_of(magic: u32) -> Seq<char> {
    let bytes = be_bytes(magic);
    rendering(bytes[0]) + rendering(bytes[1]) + rendering(bytes[2]) + rendering(bytes[3])
}

/// Appends the rendering of `b` to `image`.
fn show(image: &mut String, b: u8)
    ensures
        final(image)@ == old(image)@ + rendering(b),
{
    if byte_is_alphanumeric(b) {
        image.push(b as char);
    } else {
        image.push(lower_hex_char(b / 16));
        image.push(lower_hex_char(b % 16));
    }
}

/// Writes a magic value as text: every byte that is an ASCII letter or digit as that
/// character, every other byte as two lower-case hexadecimal digits, most significant byte
/// first.
pub fn format_magic(magic: u32) -> (image: String)
    ensures
        image@ == image_of(magic),
        4 <= image@.len() <= 8,
{
    let bytes: [u8; 4] = magic_to_bytes(magic);
    let mut image: String = String::new();
    show(&mut image, bytes[0]);
    show(&mut image, bytes[1]);
    show(&mut image, bytes[2]);
    show(&mut image, bytes[3]);
    image
}

} // verus!
