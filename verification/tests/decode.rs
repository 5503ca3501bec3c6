use magic_image::{code_to_u8, format_magic, is_code_word, reverse_magic, ReverseMagicError};

#[test]
fn decode_four_literals() {
    assert_eq!(reverse_magic("ABCD"), Ok(0x41424344));
}

#[test]
fn decode_four_codes() {
    assert_eq!(reverse_magic("00010203"), Ok(0x00010203));
}

#[test]
fn decode_too_short() {
    assert_eq!(reverse_magic("41"), Err(ReverseMagicError::TooShort(2)));
    assert_eq!(reverse_magic(""), Err(ReverseMagicError::TooShort(0)));
    assert_eq!(reverse_magic("a"), Err(ReverseMagicError::TooShort(1)));
    assert_eq!(reverse_magic("abc"), Err(ReverseMagicError::TooShort(3)));
}

#[test]
fn decode_too_long() {
    assert_eq!(reverse_magic("123456789"), Err(ReverseMagicError::TooLong(9)));
    assert_eq!(
        reverse_magic("0123456789abcdef"),
        Err(ReverseMagicError::TooLong(16))
    );
}

#[test]
fn decode_bad_first_code() {
    assert_eq!(
        reverse_magic("gg000000"),
        Err(ReverseMagicError::BadCode(String::from("gg")))
    );
}

#[test]
fn decode_names_the_first_bad_code() {
    assert_eq!(
        reverse_magic("00xx00yy"),
        Err(ReverseMagicError::BadCode(String::from("xx")))
    );
    assert_eq!(
        reverse_magic("000000g0"),
        Err(ReverseMagicError::BadCode(String::from("g0")))
    );
    assert_eq!(
        reverse_magic("0000 100"),
        Err(ReverseMagicError::BadCode(String::from(" 1")))
    );
}

#[test]
fn decode_codes_in_either_case() {
    assert_eq!(reverse_magic("ffFFaAbB"), Ok(0xffffaabb));
    assert_eq!(reverse_magic("DEADBEEF"), Ok(0xdeadbeef));
    assert_eq!(reverse_magic("ffffffff"), Ok(u32::MAX));
    assert_eq!(reverse_magic("00000000"), Ok(0));
}

#[test]
fn decode_refuses_a_sign_in_a_code() {
    assert_eq!(
        reverse_magic("+f000000"),
        Err(ReverseMagicError::BadCode(String::from("+f")))
    );
    assert_eq!(
        reverse_magic("00-1ffff"),
        Err(ReverseMagicError::BadCode(String::from("-1")))
    );
}

#[test]
fn decode_left_code() {
    assert_eq!(reverse_magic("41abc"), Ok(0x41616263));
    assert_eq!(reverse_magic("00abc"), Ok(0x00616263));
    assert_eq!(reverse_magic("FFxyz"), Ok(0xff78797a));
}

#[test]
fn decode_right_code() {
    assert_eq!(reverse_magic("abc41"), Ok(0x61626341));
    assert_eq!(reverse_magic("xyz00"), Ok(0x78797a00));
    assert_eq!(reverse_magic("XYZ9f"), Ok(0x58595a9f));
}

#[test]
fn decode_left_code_is_tried_first() {
    // Both readings hold of "abcde": "ab" + "cde" and "abc" + "de".
    assert_eq!(reverse_magic("abcde"), Ok(0xab636465));
}

#[test]
fn decode_five_characters_without_a_rule() {
    assert_eq!(
        reverse_magic("ab1c2"),
        Err(ReverseMagicError::Unimplemented(5))
    );
    assert_eq!(
        reverse_magic("a00bc"),
        Err(ReverseMagicError::Unimplemented(5))
    );
    assert_eq!(
        reverse_magic("12345"),
        Err(ReverseMagicError::Unimplemented(5))
    );
}

#[test]
fn decode_six_and_seven_characters() {
    assert_eq!(
        reverse_magic("A00ffZ"),
        Err(ReverseMagicError::Unimplemented(6))
    );
    assert_eq!(
        reverse_magic("abcdef0"),
        Err(ReverseMagicError::Unimplemented(7))
    );
}

#[test]
fn decode_four_characters_are_not_checked() {
    assert_eq!(reverse_magic("    "), Ok(0x20202020));
    assert_eq!(reverse_magic("a-b+"), Ok(0x612d622b));
    assert_eq!(reverse_magic("\u{0}\u{1}\u{2}\u{3}"), Ok(0x00010203));
}

#[test]
fn decode_counts_characters() {
    // Four characters, of which one is not ASCII: its code point is cut to eight bits.
    assert_eq!(reverse_magic("\u{e9}BCD"), Ok(0xe9424344));
    assert_eq!(reverse_magic("\u{141}BCD"), Ok(0x41424344));
    // Three characters, though more than three bytes.
    assert_eq!(
        reverse_magic("\u{e9}\u{e9}\u{e9}"),
        Err(ReverseMagicError::TooShort(3))
    );
    // Eight characters with a code that is not ASCII.
    assert_eq!(
        reverse_magic("00\u{e9}1ffff"),
        Err(ReverseMagicError::BadCode(String::from("\u{e9}1")))
    );
    // Five characters that are no letters.
    assert_eq!(
        reverse_magic("41\u{e9}bc"),
        Err(ReverseMagicError::Unimplemented(5))
    );
    assert_eq!(
        reverse_magic("\u{e9}\u{e9}\u{e9}\u{e9}\u{e9}\u{e9}\u{e9}\u{e9}\u{e9}"),
        Err(ReverseMagicError::TooLong(9))
    );
}

#[test]
fn round_trip_of_four_and_eight_characters() {
    let mut magic: u32 = 0;
    let mut count: u32 = 0;
    let mut eights: u32 = 0;
    while count < 20000 {
        let image: String = format_magic(magic);
        let len: usize = image.chars().count();
        if len == 4 || len == 8 {
            assert_eq!(reverse_magic(&image), Ok(magic));
            eights += 1;
        }
        magic = magic.wrapping_mul(1664525).wrapping_add(1013904223);
        count += 1;
    }
    assert!(eights > 0);
}

#[test]
fn round_trip_of_every_literal_byte() {
    let literals: Vec<u8> = (0u8..=255).filter(|b| b.is_ascii_alphanumeric()).collect();
    assert_eq!(literals.len(), 62);
    for a in literals.iter() {
        for b in literals.iter() {
            let magic: u32 = u32::from_be_bytes([*a, *b, *b, *a]);
            let image: String = format_magic(magic);
            assert_eq!(image.chars().count(), 4);
            assert_eq!(reverse_magic(&image), Ok(magic));
        }
    }
}

#[test]
fn round_trip_of_every_escaped_byte() {
    let escaped: Vec<u8> = (0u8..=255).filter(|b| !b.is_ascii_alphanumeric()).collect();
    assert_eq!(escaped.len(), 194);
    for a in escaped.iter() {
        for b in escaped.iter() {
            let magic: u32 = u32::from_be_bytes([*a, *b, *a, *b]);
            let image: String = format_magic(magic);
            assert_eq!(image.chars().count(), 8);
            assert_eq!(reverse_magic(&image), Ok(magic));
        }
    }
}

#[test]
fn five_characters_need_not_round_trip() {
    // 'a' 'b' 'c' 0xdd and 0xab 'c' 'd' 'd' have the same image.
    assert_eq!(format_magic(0x616263dd), "abcdd");
    assert_eq!(format_magic(0xab636464), "abcdd");
    assert_eq!(reverse_magic("abcdd"), Ok(0xab636464));
}

#[test]
fn code_word_gating() {
    assert!(is_code_word("41", "abc"));
    assert!(is_code_word("aF", "XyZ"));
    assert!(is_code_word("", ""));
    assert!(is_code_word("0123456789abcdefABCDEF", "abcxyzABCXYZ"));
    assert!(!is_code_word("4g", "abc"));
    assert!(!is_code_word("41", "ab1"));
    assert!(!is_code_word("41", "ab "));
    assert!(!is_code_word("+1", "abc"));
    assert!(!is_code_word("41", "ab\u{e9}"));
    assert!(!is_code_word("4\u{663}", "abc"));
}

#[test]
fn code_to_byte() {
    assert_eq!(code_to_u8("00"), Ok(0));
    assert_eq!(code_to_u8("41"), Ok(0x41));
    assert_eq!(code_to_u8("ff"), Ok(255));
    assert_eq!(code_to_u8("FF"), Ok(255));
    assert_eq!(code_to_u8("aB"), Ok(0xab));
    assert_eq!(code_to_u8("0a"), Ok(10));
    assert_eq!(code_to_u8("a0"), Ok(160));
}

#[test]
fn code_to_byte_of_other_lengths() {
    assert_eq!(code_to_u8("f"), Ok(15));
    assert_eq!(code_to_u8("0ff"), Ok(255));
    assert_eq!(code_to_u8("0000000000000000000001"), Ok(1));
    assert_eq!(
        code_to_u8(""),
        Err(ReverseMagicError::BadCode(String::new()))
    );
    assert_eq!(
        code_to_u8("100"),
        Err(ReverseMagicError::BadCode(String::from("100")))
    );
    assert_eq!(
        code_to_u8("fff"),
        Err(ReverseMagicError::BadCode(String::from("fff")))
    );
}

#[test]
fn code_to_byte_bad_codes() {
    assert_eq!(
        code_to_u8("gg"),
        Err(ReverseMagicError::BadCode(String::from("gg")))
    );
    assert_eq!(
        code_to_u8("0x"),
        Err(ReverseMagicError::BadCode(String::from("0x")))
    );
    assert_eq!(
        code_to_u8("+f"),
        Err(ReverseMagicError::BadCode(String::from("+f")))
    );
    assert_eq!(
        code_to_u8(" 1"),
        Err(ReverseMagicError::BadCode(String::from(" 1")))
    );
    assert_eq!(
        code_to_u8("1_"),
        Err(ReverseMagicError::BadCode(String::from("1_")))
    );
    assert_eq!(
        code_to_u8("\u{e9}\u{e9}"),
        Err(ReverseMagicError::BadCode(String::from("\u{e9}\u{e9}")))
    );
}

#[test]
fn code_to_byte_of_every_pair_of_digits() {
    let mut value: u32 = 0;
    while value < 256 {
        let lower: String = format!("{:02x}", value);
        let upper: String = format!("{:02X}", value);
        assert_eq!(code_to_u8(&lower), Ok(value as u8));
        assert_eq!(code_to_u8(&upper), Ok(value as u8));
        value += 1;
    }
}
