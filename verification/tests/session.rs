use text_adventure::session::{App, Input, Message, MessageType};

fn typed(text: &str) -> App {
    let mut app = App::new();
    app.input_width = 80;
    for c in text.chars() {
        assert_eq!(app.handle_terminal_events(Input::Char(c)), None);
    }
    app
}

#[test]
fn new_screen_is_empty() {
    let app = App::new();
    assert!(!app.exit);
    assert!(app.message_history.is_empty());
    assert_eq!(app.message_scroll, 0);
    assert_eq!(app.input_str, "");
    assert_eq!(app.input_char_index, 0);
    assert_eq!(app.input_width, 0);
}

#[test]
fn messages_are_posted_at_the_end() {
    let mut app = App::new();
    let first = Message { text: "adfa".to_string(), msg_type: MessageType::Game };
    let second = Message { text: "hello".to_string(), msg_type: MessageType::User };
    app.post_message(first.clone());
    app.post_message(second.clone());
    assert_eq!(app.message_history, vec![first, second]);
}

#[test]
fn typing_moves_the_cursor() {
    let app = typed("open door");
    assert_eq!(app.input_str, "open door");
    assert_eq!(app.input_char_index, 9);
}

#[test]
fn characters_go_in_at_the_cursor() {
    let mut app = typed("oen");
    app.handle_terminal_events(Input::Left);
    app.handle_terminal_events(Input::Left);
    app.handle_terminal_events(Input::Char('p'));
    assert_eq!(app.input_str, "open");
    assert_eq!(app.input_char_index, 2);
}

#[test]
fn wide_characters_count_as_one() {
    let mut app = typed("caf\u{e9}s");
    assert_eq!(app.input_char_index, 5);
    app.handle_terminal_events(Input::Left);
    app.handle_terminal_events(Input::Backspace);
    assert_eq!(app.input_str, "cafs");
    assert_eq!(app.input_char_index, 3);
    app.handle_terminal_events(Input::Char('\u{1f600}'));
    assert_eq!(app.input_str, "caf\u{1f600}s");
    assert_eq!(app.input_char_index, 4);
}

#[test]
fn cursor_stays_within_the_line() {
    let mut app = typed("ab");
    app.handle_terminal_events(Input::Right);
    assert_eq!(app.input_char_index, 2);
    app.handle_terminal_events(Input::Left);
    app.handle_terminal_events(Input::Left);
    app.handle_terminal_events(Input::Left);
    assert_eq!(app.input_char_index, 0);
    app.handle_terminal_events(Input::Right);
    assert_eq!(app.input_char_index, 1);
}

#[test]
fn backspace_deletes_before_the_cursor() {
    let mut app = typed("abc");
    app.handle_terminal_events(Input::Left);
    app.handle_terminal_events(Input::Backspace);
    assert_eq!(app.input_str, "ac");
    assert_eq!(app.input_char_index, 1);
    app.handle_terminal_events(Input::Backspace);
    assert_eq!(app.input_str, "c");
    assert_eq!(app.input_char_index, 0);
    app.handle_terminal_events(Input::Backspace);
    assert_eq!(app.input_str, "c");
    assert_eq!(app.input_char_index, 0);
}

#[test]
fn cursor_behind_the_line_is_taken_as_its_end() {
    let mut app = typed("ab");
    app.input_char_index = 7;
    app.enter_char('c');
    assert_eq!(app.input_str, "abc");
    assert_eq!(app.input_char_index, 3);
    app.input_char_index = 7;
    app.delete_char();
    assert_eq!(app.input_str, "abc");
    assert_eq!(app.input_char_index, 3);
    app.input_char_index = 4;
    app.delete_char();
    assert_eq!(app.input_str, "abc");
    assert_eq!(app.input_char_index, 3);
    assert_eq!(app.clamp_cursor(2), 2);
    assert_eq!(app.clamp_cursor(3), 3);
    assert_eq!(app.clamp_cursor(usize::MAX), 3);
}

#[test]
fn full_line_takes_no_more_characters() {
    let mut app = App::new();
    app.input_width = 2;
    for c in "abcdef".chars() {
        app.handle_terminal_events(Input::Char(c));
    }
    assert_eq!(app.input_str, "abc");
    let mut wide = App::new();
    wide.input_width = 2;
    for c in "\u{e9}\u{e9}\u{e9}".chars() {
        wide.handle_terminal_events(Input::Char(c));
    }
    assert_eq!(wide.input_str, "\u{e9}\u{e9}");
}

#[test]
fn enter_sends_the_line_as_the_user() {
    let mut app = typed("read letter");
    let sent = app.handle_terminal_events(Input::Enter);
    let message = Message { text: "read letter".to_string(), msg_type: MessageType::User };
    assert_eq!(sent, Some(message.clone()));
    assert_eq!(app.message_history, vec![message]);
    assert_eq!(app.input_str, "");
    assert_eq!(app.input_char_index, 0);
}

#[test]
fn enter_on_an_empty_line_sends_nothing() {
    let mut app = App::new();
    assert_eq!(app.handle_terminal_events(Input::Enter), None);
    assert!(app.message_history.is_empty());
}

#[test]
fn delete_sends_the_line_as_the_game() {
    let mut app = typed("x");
    let sent = app.handle_terminal_events(Input::Delete);
    let message = Message { text: "x".to_string(), msg_type: MessageType::Game };
    assert_eq!(sent, Some(message.clone()));
    assert_eq!(app.message_history, vec![message]);
    let empty = Message { text: String::new(), msg_type: MessageType::Game };
    assert_eq!(app.handle_terminal_events(Input::Delete), Some(empty.clone()));
    assert_eq!(app.message_history.len(), 2);
    assert_eq!(app.message_history[1], empty);
}

#[test]
fn escape_marks_the_end() {
    let mut app = typed("abc");
    assert_eq!(app.handle_terminal_events(Input::Esc), None);
    assert!(app.exit);
    assert_eq!(app.input_str, "abc");
}

#[test]
fn scrolling_stops_at_zero() {
    let mut app = App::new();
    app.handle_terminal_events(Input::Down);
    assert_eq!(app.message_scroll, 0);
    app.handle_terminal_events(Input::Up);
    app.handle_terminal_events(Input::ScrollUp);
    assert_eq!(app.message_scroll, 2);
    app.handle_terminal_events(Input::ScrollDown);
    assert_eq!(app.message_scroll, 1);
    app.handle_terminal_events(Input::Down);
    app.handle_terminal_events(Input::Down);
    assert_eq!(app.message_scroll, 0);
    app.message_scroll = usize::MAX;
    app.handle_terminal_events(Input::Up);
    assert_eq!(app.message_scroll, usize::MAX);
}

#[test]
fn other_events_change_nothing() {
    let mut app = typed("abc");
    assert_eq!(app.handle_terminal_events(Input::Other), None);
    assert_eq!(app.input_str, "abc");
    assert_eq!(app.input_char_index, 3);
    assert!(!app.exit);
    assert_eq!(app.message_scroll, 0);
    assert!(app.message_history.is_empty());
}

#[test]
fn byte_index_counts_the_bytes_before_the_cursor() {
    let mut app = typed("a\u{e9}\u{1f600}b");
    assert_eq!(app.byte_index(), 8);
    app.input_char_index = 0;
    assert_eq!(app.byte_index(), 0);
    app.input_char_index = 1;
    assert_eq!(app.byte_index(), 1);
    app.input_char_index = 2;
    assert_eq!(app.byte_index(), 3);
    app.input_char_index = 3;
    assert_eq!(app.byte_index(), 7);
    app.input_char_index = 9;
    assert_eq!(app.byte_index(), 8);
}
