//! The state of the screen that a game is played on: the messages shown so
//! far, how far they are scrolled, and the line that the player is typing.
//! Each event of the terminal maps this state to the next one.

use vstd::prelude::*;
use vstd::string::StringExecFns;
use vstd::utf8::encode_utf8;

verus! {

/// Who sent a message.
#[derive(Debug, Clone, Copy, PartialEq, Eq, Structural)]
pub enum MessageType {
    User,
    Game,
}

/// A message of the history.
#[derive(Debug, Clone, PartialEq, Eq)]
pub struct Message {
    pub text: String,
    pub msg_type: MessageType,
}

/// The value of a [`Message`].
pub struct MessageView {
    pub text: Seq<char>,
    pub msg_type: MessageType,
}

impl View for Message {
    type V = MessageView;

    open spec fn view(&self) -> MessageView {
        MessageView { text: self.text@, msg_type: self.msg_type }
    }
}

/// What the terminal can report: a key that was pressed, or a turn of the
/// mouse wheel.
#[derive(Debug, Clone, Copy, PartialEq, Eq, Structural)]
pub enum Input {
    Esc,
    Up,
    Down,
    Char(char),
    Left,
    Right,
    Backspace,
    Enter,
    Delete,
    ScrollUp,
    ScrollDown,
    /// Any other event.
    Other,
}

/// The state of the screen.
pub struct App {
    /// Whether the program is to end.
    pub exit: bool,
    /// The messages shown so far, the oldest first.
    pub message_history: Vec<Message>,
    /// How many messages the history is scrolled by.
    pub message_scroll: usize,
    /// The line that is being typed.
    pub input_str: String,
    /// The place of the cursor in that line, counted in characters.
    pub input_char_index: usize,
    /// The width of the input box.
    pub input_width: usize,
}

/// The value of an [`App`].
pub struct AppView {
    pub exit: bool,
    pub messages: Seq<MessageView>,
    pub scroll: usize,
    pub input: Seq<char>,
    pub cursor: usize,
    pub width: usize,
}

impl View for App {
    type V = AppView;

    open spec fn view(&self) -> AppView {
        AppView {
            exit: self.exit,
            messages: self.message_history@.map_values(|m: Message| m@),
            scroll: self.message_scroll,
            input: self.input_str@,
            cursor: self.input_char_index,
            width: self.input_width,
        }
    }
}

/// `a` plus one, or `a` where it is the largest number.
pub open spec fn up(a: usize) -> usize {
    if a == usize::MAX {
        a
    } else {
        (a + 1) as usize
    }
}

/// `a` minus one, or `a` where it is zero.
pub open spec fn down(a: usize) -> usize {
    if a == 0 {
        a
    } else {
        (a - 1) as usize
    }
}

/// `position`, or the length of `line` where `position` lies behind it.
pub open spec fn clamped(line: Seq<char>, position: usize) -> usize {
    if position <= line.len() {
        position
    } else {
        line.len() as usize
    }
}

impl AppView {
    /// The state of a screen that was just opened.
    pub open spec fn fresh() -> AppView {
        AppView {
            exit: false,
            messages: Seq::empty(),
            scroll: 0,
            input: Seq::empty(),
            cursor: 0,
            width: 0,
        }
    }

    /// This state with the given line and cursor in place of its own.
    pub open spec fn with_line(self, input: Seq<char>, cursor: usize) -> AppView {
        AppView { input, cursor, ..self }
    }

    /// The state after `message` was put at the end of the history.
    pub open spec fn posted(self, message: MessageView) -> AppView {
        AppView { messages: self.messages.push(message), ..self }
    }

    /// The state after the cursor went one character to the left.
    pub open spec fn cursor_left(self) -> AppView {
        self.with_line(self.input, clamped(self.input, down(self.cursor)))
    }

    /// The state after the cursor went one character to the right.
    pub open spec fn cursor_right(self) -> AppView {
        self.with_line(self.input, clamped(self.input, up(self.cursor)))
    }

    /// The state after `c` was typed: it stands at the cursor, or at the end
    /// of the line where the cursor lies behind it, and the cursor has gone
    /// one to the right.
    pub open spec fn typed(self, c: char) -> AppView {
        let at = clamped(self.input, self.cursor) as int;
        let line = self.input.take(at).push(c) + self.input.skip(at);
        self.with_line(line, clamped(line, up(self.cursor)))
    }

    /// The state after the character before the cursor was deleted: the
    /// cursor has gone one to the left. Nothing changes where the cursor
    /// stands at the start of the line.
    pub open spec fn erased(self) -> AppView {
        if self.cursor == 0 {
            self
        } else {
            let before = clamped(self.input, (self.cursor - 1) as usize) as int;
            let after = clamped(self.input, self.cursor) as int;
            let line = self.input.take(before) + self.input.skip(after);
            self.with_line(line, clamped(line, down(self.cursor)))
        }
    }

    /// How many bytes of UTF-8 the part of the line before the cursor takes:
    /// the place of the cursor in the bytes of the line.
    pub open spec fn cursor_byte(self) -> nat {
        encode_utf8(self.input.take(clamped(self.input, self.cursor) as int)).len()
    }

    /// The message that the line makes when it is sent as `sender`.
    pub open spec fn outgoing(self, sender: MessageType) -> MessageView {
        MessageView { text: self.input, msg_type: sender }
    }

    /// The state after the line was sent as `sender`: it stands at the end
    /// of the history, and the line is empty.
    pub open spec fn submitted(self, sender: MessageType) -> AppView {
        self.posted(self.outgoing(sender)).with_line(Seq::empty(), 0)
    }

    /// Whether the line, counted in bytes of UTF-8, is longer than the input
    /// box is wide.
    pub open spec fn line_is_full(self) -> bool {
        encode_utf8(self.input).len() > self.width
    }

    /// The message that `event` sends, if it sends one.
    pub open spec fn sent(self, event: Input) -> Option<MessageView> {
        match event {
            Input::Enter => if self.input.len() == 0 {
                None
            } else {
                Some(self.outgoing(MessageType::User))
            },
            Input::Delete => Some(self.outgoing(MessageType::Game)),
            _ => None,
        }
    }

    /// The state after `event`.
    pub open spec fn after(self, event: Input) -> AppView {
        match event {
            Input::Esc => AppView { exit: true, ..self },
            Input::Up | Input::ScrollUp => AppView { scroll: up(self.scroll), ..self },
            Input::Down | Input::ScrollDown => AppView { scroll: down(self.scroll), ..self },
            Input::Char(c) => if self.line_is_full() {
                self
            } else {
                self.typed(c)
            },
            Input::Left => self.cursor_left(),
            Input::Right => self.cursor_right(),
            Input::Backspace => self.erased(),
            Input::Enter => if self.input.len() == 0 {
                self
            } else {
                self.submitted(MessageType::User)
            },
            Input::Delete => self.submitted(MessageType::Game),
            Input::Other => self,
        }
    }
}

/// `String::push` of std: the character is put at the end of the string.
pub assume_specification[ String::push ](s: &mut String, ch: char)
    ensures
        final(s)@ == old(s)@.push(ch),
;

impl App {
    /// The state of a screen that was just opened.
    pub fn new() -> (app: App)
        ensures
            app@ == AppView::fresh(),
    {
        let app = App {
            exit: false,
            message_history: Vec::new(),
            message_scroll: 0,
            input_str: String::new(),
            input_char_index: 0,
            input_width: 0,
        };
        assert(app@.messages =~= Seq::empty());
        app
    }

    /// Puts `message` at the end of the history.
    pub fn post_message(&mut self, message: Message)
        ensures
            final(self)@ == old(self)@.posted(message@),
    {
        proof {
            assert(self.message_history@.push(message).map_values(|m: Message| m@)
                =~= self.message_history@.map_values(|m: Message| m@).push(message@));
        }
        self.message_history.push(message);
    }

    /// Sends the line as `sender`: puts it at the end of the history, empties
    /// the line, and hands out the message for the one who is to answer it.
    pub fn submit_input(&mut self, sender: MessageType) -> (message: Message)
        ensures
            final(self)@ == old(self)@.submitted(sender),
            message@ == old(self)@.outgoing(sender),
    {
        let message = Message { text: self.input_str.clone(), msg_type: sender };
        let mut text = String::new();
        std::mem::swap(&mut self.input_str, &mut text);
        self.post_message(Message { text, msg_type: sender });
        self.reset_cursor();
        message
    }

    /// Marks the program to end.
    pub fn exit(&mut self)
        ensures
            final(self)@ == (AppView { exit: true, ..old(self)@ }),
    {
        self.exit = true;
    }

    /// Scrolls the history down by one message, as far as it is scrolled.
    pub fn messages_scroll_down(&mut self)
        ensures
            final(self)@ == (AppView { scroll: down(old(self)@.scroll), ..old(self)@ }),
    {
        if self.message_scroll > 0 {
            self.message_scroll = self.message_scroll - 1;
        }
    }

    /// Scrolls the history up by one message.
    pub fn messages_scroll_up(&mut self)
        ensures
            final(self)@ == (AppView { scroll: up(old(self)@.scroll), ..old(self)@ }),
    {
        if self.message_scroll < usize::MAX {
            self.message_scroll = self.message_scroll + 1;
        }
    }

    /// Moves the cursor one character to the left.
    pub fn move_cursor_left(&mut self)
        ensures
            final(self)@ == old(self)@.cursor_left(),
    {
        let cursor_moved_left = if self.input_char_index == 0 {
            0
        } else {
            self.input_char_index - 1
        };
        self.input_char_index = self.clamp_cursor(cursor_moved_left);
    }

    /// Moves the cursor one character to the right.
    pub fn move_cursor_right(&mut self)
        ensures
            final(self)@ == old(self)@.cursor_right(),
    {
        let cursor_moved_right = if self.input_char_index == usize::MAX {
            usize::MAX
        } else {
            self.input_char_index + 1
        };
        self.input_char_index = self.clamp_cursor(cursor_moved_right);
    }

    /// Puts `new_char` into the line at the cursor and moves the cursor
    /// behind it.
    pub fn enter_char(&mut self, new_char: char)
        ensures
            final(self)@ == old(self)@.typed(new_char),
    {
        let length = self.input_str.as_str().unicode_len();
        let at = self.clamp_cursor(self.input_char_index);
        let mut line = self.input_str.as_str().substring_char(0, at).to_owned();
        line.push(new_char);
        line.append(self.input_str.as_str().substring_char(at, length));
        proof {
            let input = old(self)@.input;
            assert(input.subrange(0, at as int) == input.take(at as int));
            assert(input.subrange(at as int, length as int) == input.skip(at as int));
        }
        self.input_str = line;
        self.move_cursor_right();
    }

    /// The place of the cursor in the bytes of the line: a character may take
    /// several bytes.
    pub fn byte_index(&self) -> (index: usize)
        ensures
            index == self@.cursor_byte(),
    {
        let at = self.clamp_cursor(self.input_char_index);
        proof {
            assert(self@.input.subrange(0, at as int) == self@.input.take(at as int));
        }
        self.input_str.as_str().substring_char(0, at).as_bytes().len()
    }

    /// Deletes the character before the cursor and moves the cursor onto its
    /// place.
    pub fn delete_char(&mut self)
        ensures
            final(self)@ == old(self)@.erased(),
    {
        let is_not_cursor_leftmost = self.input_char_index != 0;
        if is_not_cursor_leftmost {
            let length = self.input_str.as_str().unicode_len();
            let current_index = self.clamp_cursor(self.input_char_index);
            let from_left_to_current_index = self.clamp_cursor(self.input_char_index - 1);
            let mut line = self.input_str.as_str().substring_char(
                0,
                from_left_to_current_index,
            ).to_owned();
            line.append(self.input_str.as_str().substring_char(current_index, length));
            proof {
                let input = old(self)@.input;
                assert(input.subrange(0, from_left_to_current_index as int) == input.take(
                    from_left_to_current_index as int,
                ));
                assert(input.subrange(current_index as int, length as int) == input.skip(
                    current_index as int,
                ));
            }
            self.input_str = line;
            self.move_cursor_left();
        }
    }

    /// `new_cursor_pos`, or the end of the line where it lies behind it.
    pub fn clamp_cursor(&self, new_cursor_pos: usize) -> (position: usize)
        ensures
            position == clamped(self@.input, new_cursor_pos),
    {
        let length = self.input_str.as_str().unicode_len();
        if new_cursor_pos <= length {
            new_cursor_pos
        } else {
            length
        }
    }

    /// Puts the cursor at the start of the line.
    pub fn reset_cursor(&mut self)
        ensures
            final(self)@ == old(self)@.with_line(old(self)@.input, 0),
    {
        self.input_char_index = 0;
    }

    /// Takes one event of the terminal: changes the state as the event
    /// demands, and hands out the message that was sent, if one was.
    pub fn handle_terminal_events(&mut self, event: Input) -> (sent: Option<Message>)
        ensures
            final(self)@ == old(self)@.after(event),
            match sent {
                Some(message) => old(self)@.sent(event) == Some(message@),
                None => old(self)@.sent(event) is None,
            },
    {
        match event {
            Input::Esc => {
                self.exit();
                None
            },
            Input::Up | Input::ScrollUp => {
                self.messages_scroll_up();
                None
            },
            Input::Down | Input::ScrollDown => {
                self.messages_scroll_down();
                None
            },
            Input::Char(c) => {
                if self.input_str.as_str().as_bytes().len() <= self.input_width {
                    self.enter_char(c);
                }
                None
            },
            Input::Left => {
                self.move_cursor_left();
                None
            },
            Input::Right => {
                self.move_cursor_right();
                None
            },
            Input::Backspace => {
                self.delete_char();
                None
            },
            Input::Enter => {
                if self.input_str.as_str().is_empty() {
                    None
                } else {
                    Some(self.submit_input(MessageType::User))
                }
            },
            Input::Delete => Some(self.submit_input(MessageType::Game)),
            Input::Other => None,
        }
    }
}

} // verus!
