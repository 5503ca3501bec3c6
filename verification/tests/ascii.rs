use magic_image::ascii::{
    byte_is_alphanumeric, char_hex_value, char_is_alphabetic, char_is_hex_digit,
    char_literal_byte, lower_hex_char, HEX,
};

#[test]
fn character_classes_agree_with_ascii() {
    let mut point: u32 = 0;
    while point < 0x400 {
        if let Some(c) = char::from_u32(point) {
            assert_eq!(char_is_alphabetic(c), c.is_ascii_alphabetic());
            assert_eq!(char_is_hex_digit(c), c.is_ascii_hexdigit());
            assert_eq!(
                char_hex_value(c),
                c.to_digit(HEX).filter(|_| c.is_ascii()).map(|d| d as u8)
            );
            assert_eq!(char_literal_byte(c), (point % 256) as u8);
        }
        point += 1;
    }
    let mut b: u32 = 0;
    while b < 256 {
        assert_eq!(byte_is_alphanumeric(b as u8), (b as u8).is_ascii_alphanumeric());
        b += 1;
    }
}

#[test]
fn lower_hex_digits() {
    let digits: Vec<char> = "0123456789abcdef".chars().collect();
    let mut n: u8 = 0;
    while n < 16 {
        assert_eq!(lower_hex_char(n), digits[n as usize]);
        assert_eq!(char_hex_value(lower_hex_char(n)), Some(n));
        n += 1;
    }
}
