use gmail_attachments::text::{chars_of, is_control, is_white_space, push_chars, push_decimal, text_of};
use gmail_attachments::validate::is_dangerous_unicode;

#[test]
fn control_codes_are_those_of_the_standard_library() {
    for code in 0..=0x10ffffu32 {
        if let Some(c) = char::from_u32(code) {
            assert_eq!(is_control(c), c.is_control(), "{code:x}");
        }
    }
}

#[test]
fn white_space_is_that_of_the_standard_library() {
    for code in 0..=0x10ffffu32 {
        if let Some(c) = char::from_u32(code) {
            assert_eq!(is_white_space(c), c.is_whitespace(), "{code:x}");
        }
    }
}

#[test]
fn dangerous_unicode_has_clear_bounds() {
    for c in [
        '\u{200b}', '\u{200d}', '\u{2028}', '\u{2029}', '\u{202a}', '\u{202e}', '\u{2066}',
        '\u{2069}', '\u{feff}',
    ] {
        assert!(is_dangerous_unicode(c), "{:x}", c as u32);
    }
    for c in [
        'a', ' ', '\n', '\u{200a}', '\u{200e}', '\u{2027}', '\u{202f}', '\u{2065}', '\u{206a}',
        '\u{fefe}', '\u{ff00}',
    ] {
        assert!(!is_dangerous_unicode(c), "{:x}", c as u32);
    }
}

#[test]
fn decimal_notation_is_that_of_the_standard_library() {
    for n in [0, 1, 9, 10, 99, 100, 1234567890, usize::MAX] {
        let mut text = String::from("n=");
        push_decimal(&mut text, n);
        assert_eq!(text, format!("n={n}"));
    }
}

#[test]
fn characters_and_text_convert_both_ways() {
    let text = "caf\u{e9} \u{1f4ce}";
    let chars = chars_of(text);
    assert_eq!(chars, text.chars().collect::<Vec<char>>());
    assert_eq!(text_of(&chars), text);
    let mut tail = String::from(">");
    push_chars(&mut tail, &chars, 3, 6);
    assert_eq!(tail, ">\u{e9} \u{1f4ce}");
}
