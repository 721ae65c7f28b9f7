use text_adventure::wrap::wrap_line;

#[test]
fn short_text_is_left_alone() {
    assert_eq!(wrap_line("adfa".to_string(), 10), "adfa");
    assert_eq!(wrap_line(String::new(), 1), "");
}

#[test]
fn text_of_the_width_is_left_alone() {
    assert_eq!(wrap_line("hello".to_string(), 5), "hello");
    assert_eq!(wrap_line("a b c".to_string(), 5), "a b c");
}

#[test]
fn line_breaks_behind_its_last_space() {
    assert_eq!(wrap_line("aaa bbb ccc".to_string(), 6), "aaa \nbbb \nccc");
    assert_eq!(wrap_line("the quick brown fox".to_string(), 10), "the quick \nbrown fox");
}

#[test]
fn line_without_space_breaks_at_the_width() {
    assert_eq!(wrap_line("abcdefgh".to_string(), 3), "abc\ndef\ngh");
    assert_eq!(wrap_line("abcdef".to_string(), 3), "abc\ndef");
    assert_eq!(wrap_line("abc".to_string(), 1), "a\nb\nc");
}

#[test]
fn space_at_the_start_of_a_line_makes_a_line_of_its_own() {
    assert_eq!(wrap_line("hello world".to_string(), 5), "hello\n \nworld");
}

#[test]
fn spaces_only() {
    assert_eq!(wrap_line("     ".to_string(), 2), "  \n  \n ");
}

#[test]
fn long_message_is_wrapped() {
    let text = "asdfacvzcxv THIS SIF A F AEFLASDKF AV ERY LONG STRIN GYAYAFYASDFASYF";
    assert_eq!(
        wrap_line(text.to_string(), 20),
        "asdfacvzcxv THIS \nSIF A F AEFLASDKF \nAV ERY LONG STRIN \nGYAYAFYASDFASYF"
    );
}

#[test]
fn no_line_is_longer_than_the_width() {
    let text = "one two  three four five six seven eight nine ten eleven twelve";
    for width in 1..30 {
        let wrapped = wrap_line(text.to_string(), width);
        for line in wrapped.split('\n') {
            assert!(line.chars().count() <= width);
        }
        assert_eq!(wrapped.replace('\n', ""), text);
    }
}

#[test]
fn width_counts_characters() {
    assert_eq!(wrap_line("\u{e9}\u{e9}\u{e9}".to_string(), 4), "\u{e9}\u{e9}\u{e9}");
    assert_eq!(
        wrap_line("\u{e9}\u{e9} \u{e9}\u{e9}".to_string(), 4),
        "\u{e9}\u{e9} \n\u{e9}\u{e9}"
    );
}
