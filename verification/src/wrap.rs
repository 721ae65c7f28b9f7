//! Wrapping of a text to a width, for display.

use vstd::prelude::*;
use vstd::string::StringExecFns;
use crate::chars::chars_of;

verus! {

/// One past the place of the last space among the first `upto` characters of
/// `s`, or 0 where none of them is a space.
pub open spec fn space_end(s: Seq<char>, upto: int) -> int
    decreases upto,
{
    if upto <= 0 || upto > s.len() {
        0
    } else if s[upto - 1] == ' ' {
        upto
    } else {
        space_end(s, upto - 1)
    }
}

/// Where the first line of `s` ends when no line may be longer than `width`:
/// behind the last space among the first `width` characters, or after `width`
/// characters where none of them is a space.
pub open spec fn first_break(s: Seq<char>, width: int) -> int {
    if space_end(s, width) == 0 {
        width
    } else {
        space_end(s, width)
    }
}

/// `s` with a line feed put in wherever a line would grow longer than
/// `width`. A line that is broken at a space keeps the space at its end.
pub open spec fn wrapped(s: Seq<char>, width: int) -> Seq<char>
    decreases s.len(),
    via wrapped_ends
{
    if s.len() <= width || width <= 0 {
        s
    } else {
        let cut = first_break(s, width);
        s.take(cut) + seq!['\n'] + wrapped(s.skip(cut), width)
    }
}

#[via_fn]
proof fn wrapped_ends(s: Seq<char>, width: int) {
    if !(s.len() <= width || width <= 0) {
        first_break_bounds(s, width);
    }
}

/// The last space among the first `upto` characters ends within them.
proof fn space_end_bounds(s: Seq<char>, upto: int)
    ensures
        0 <= space_end(s, upto),
        space_end(s, upto) <= upto || space_end(s, upto) == 0,
    decreases upto,
{
    if 0 < upto <= s.len() && s[upto - 1] != ' ' {
        space_end_bounds(s, upto - 1);
    }
}

/// The first line of a text that is longer than the width is not empty and
/// not longer than the width.
pub proof fn first_break_bounds(s: Seq<char>, width: int)
    requires
        0 < width < s.len(),
    ensures
        0 < first_break(s, width) <= width,
{
    space_end_bounds(s, width);
}

/// Finds where the first line of the characters from `from` on ends.
fn find_break(chars: &Vec<char>, from: usize, width: usize) -> (cut: usize)
    requires
        0 < width,
        from <= chars.len(),
        chars.len() - from > width,
    ensures
        cut == first_break(chars@.skip(from as int), width as int),
        0 < cut <= width,
{
    let ghost rest = chars@.skip(from as int);
    let mut upto: usize = width;
    while upto > 0
        invariant
            upto <= width,
            from + width < chars.len(),
            rest == chars@.skip(from as int),
            space_end(rest, width as int) == space_end(rest, upto as int),
        decreases upto,
    {
        if chars[from + upto - 1] == ' ' {
            return upto;
        }
        upto -= 1;
    }
    width
}

/// Wraps `text` to lines of at most `width` characters, not counting the line
/// feed: each line is broken behind its last space, or after `width`
/// characters where it holds no space.
pub fn wrap_line(text: String, width: usize) -> (result: String)
    requires
        width > 0,
    ensures
        result@ == wrapped(text@, width as int),
{
    let chars = chars_of(text.as_str());
    if chars.len() <= width {
        return text;
    }
    let mut result = String::new();
    let mut at: usize = 0;
    proof {
        assert(text@.skip(0) == text@);
        assert(result@ + wrapped(text@, width as int) == wrapped(text@, width as int));
    }
    while chars.len() - at > width
        invariant
            width > 0,
            chars@ == text@,
            at <= chars.len(),
            result@ + wrapped(text@.skip(at as int), width as int) == wrapped(
                text@,
                width as int,
            ),
        decreases chars.len() - at,
    {
        let cut = find_break(&chars, at, width);
        proof {
            reveal_strlit("\n");
            let rest = text@.skip(at as int);
            assert("\n"@ == seq!['\n']);
            assert(rest.take(cut as int) == text@.subrange(at as int, at + cut));
            assert(rest.skip(cut as int) == text@.skip(at + cut));
            assert(wrapped(rest, width as int) == rest.take(cut as int) + seq!['\n'] + wrapped(
                rest.skip(cut as int),
                width as int,
            ));
            assert(result@ + (rest.take(cut as int) + seq!['\n'] + wrapped(
                rest.skip(cut as int),
                width as int,
            )) == result@ + rest.take(cut as int) + seq!['\n'] + wrapped(
                rest.skip(cut as int),
                width as int,
            ));
        }
        result.append(text.as_str().substring_char(at, at + cut));
        result.append("\n");
        at += cut;
    }
    proof {
        let rest = text@.skip(at as int);
        assert(rest == text@.subrange(at as int, text@.len() as int));
    }
    result.append(text.as_str().substring_char(at, chars.len()));
    result
}

} // verus!
