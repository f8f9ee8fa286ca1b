use ppaaeedb::operators::parse_radix;
use ppaaeedb::text::{
    chars_of, is_binary_digit, is_decimal_digit, is_hex_digit, is_letter, is_whitespace,
    is_word_part, is_word_start, push_decimal, push_text, reads, text_of,
};

#[test]
fn character_classes_agree_with_the_standard_library() {
    for code in 0..=0x10_ffffu32 {
        if let Some(c) = char::from_u32(code) {
            assert_eq!(is_whitespace(c), c.is_whitespace(), "white space {:#x}", code);
            assert_eq!(is_decimal_digit(c), c.is_ascii_digit(), "digit {:#x}", code);
            assert_eq!(is_hex_digit(c), c.is_ascii_hexdigit(), "hex digit {:#x}", code);
            assert_eq!(is_binary_digit(c), c == '0' || c == '1', "binary digit {:#x}", code);
            assert_eq!(is_letter(c), c.is_ascii_alphabetic(), "letter {:#x}", code);
            assert_eq!(is_word_start(c), c.is_ascii_alphabetic() || c == '_', "start {:#x}", code);
            assert_eq!(is_word_part(c), c.is_ascii_alphanumeric() || c == '_', "part {:#x}", code);
        }
    }
}

#[test]
fn texts_are_taken_apart_and_put_together() {
    let chars = chars_of("a√b c");
    assert_eq!(chars, vec!['a', '√', 'b', ' ', 'c']);
    assert_eq!(text_of(&chars, 1, 3), "√b");
    assert_eq!(text_of(&chars, 0, 5), "a√b c");
    assert_eq!(text_of(&chars, 2, 2), "");
    assert_eq!(chars_of(""), Vec::<char>::new());
    let mut out = String::from("x");
    push_text(&mut out, " = ");
    push_decimal(&mut out, 0);
    push_text(&mut out, ", ");
    push_decimal(&mut out, 9);
    push_text(&mut out, ", ");
    push_decimal(&mut out, 10);
    push_text(&mut out, ", ");
    push_decimal(&mut out, u64::MAX);
    assert_eq!(out, "x = 0, 9, 10, 18446744073709551615");
    assert!(reads("while", "while"));
    assert!(!reads("while", "whil"));
    assert!(!reads("", "x"));
    assert!(reads("", ""));
}

#[test]
fn decimal_numerals_agree_with_the_standard_library() {
    let mut state: u64 = 0x9e37_79b9_7f4a_7c15;
    for i in 0..2000u64 {
        state = state.wrapping_mul(6364136223846793005).wrapping_add(1442695040888963407);
        let n = if i < 200 { i } else { state >> (i % 64) };
        let mut out = String::new();
        push_decimal(&mut out, n);
        assert_eq!(out, n.to_string());
    }
}

#[test]
fn numerals_in_a_radix_agree_with_the_standard_library() {
    let samples = [
        "", "0", "1", "+", "+0", "+7f", "-1", "ff", "FF", "fF", "g", "12g", "ffffffff",
        "100000000", "0ffffffff", "00000000000000000001", "11111111111111111111111111111111",
        "111111111111111111111111111111111", "102", "z", " 1", "1 ", "++1", "+-1", "4294967295",
        "4294967296", "99999999999999999999", "abcdef", "ABCDEF", "1_0", "١",
    ];
    for text in samples {
        for radix in [2u32, 8, 10, 16, 36] {
            let chars: Vec<char> = text.chars().collect();
            assert_eq!(
                parse_radix(&chars, 0, radix),
                u32::from_str_radix(text, radix).ok(),
                "{:?} in radix {}",
                text,
                radix
            );
        }
    }
    let chars: Vec<char> = "0x1f".chars().collect();
    assert_eq!(parse_radix(&chars, 2, 16), Some(31));
    assert_eq!(parse_radix(&chars, 4, 16), None);
}
