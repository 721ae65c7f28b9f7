use text_adventure::chars::{chars_of, is_name_char, is_space_char, same_text, slice_of};

#[test]
fn spaces_are_the_white_space_characters() {
    for code in 0..=0x10ffff_u32 {
        if let Some(c) = char::from_u32(code) {
            assert_eq!(is_space_char(c), c.is_whitespace(), "U+{code:04X}");
        }
    }
}

#[test]
fn name_characters_are_ascii_letters_and_digits() {
    for code in 0..=0x10ffff_u32 {
        if let Some(c) = char::from_u32(code) {
            assert_eq!(is_name_char(c), c.is_ascii_alphanumeric(), "U+{code:04X}");
        }
    }
}

#[test]
fn characters_come_in_their_order() {
    assert_eq!(chars_of(""), Vec::<char>::new());
    assert_eq!(chars_of("a\u{e9}\u{1f600}b"), vec!['a', '\u{e9}', '\u{1f600}', 'b']);
}

#[test]
fn slices_are_cut_by_characters() {
    assert_eq!(slice_of("a\u{e9}\u{1f600}b", 1, 3), "\u{e9}\u{1f600}");
    assert_eq!(slice_of("abc", 0, 3), "abc");
    assert_eq!(slice_of("abc", 2, 2), "");
    assert_eq!(slice_of("", 0, 0), "");
}

#[test]
fn texts_are_compared_by_their_characters() {
    assert!(same_text("set", "set"));
    assert!(same_text("", ""));
    assert!(!same_text("set", "Set"));
    assert!(!same_text("set", "sets"));
    assert!(!same_text("set", ""));
}
