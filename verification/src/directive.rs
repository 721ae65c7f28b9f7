//! The directive lines: `set PROPERTY true`, `set PROPERTY false` and
//! `goto LOCATION`, the words of a line parted by white space.

use vstd::prelude::*;
use vstd::string::StringExecFns;
use crate::chars::{chars_of, is_space_char, same_text, slice_of, space_char};
use crate::error::ParseError;
use crate::world::{Directive, DirectiveView, LocationId, PropertyId};

verus! {

/// The first place at or behind `from` where `s` holds no space, or its end.
pub open spec fn word_start(s: Seq<char>, from: int) -> int
    decreases s.len() - from,
{
    if 0 <= from < s.len() && space_char(s[from]) {
        word_start(s, from + 1)
    } else {
        from
    }
}

/// The first place at or behind `from` where `s` holds a space, or its end.
pub open spec fn word_end(s: Seq<char>, from: int) -> int
    decreases s.len() - from,
{
    if 0 <= from < s.len() && !space_char(s[from]) {
        word_end(s, from + 1)
    } else {
        from
    }
}

/// The words of `s` that start at or behind `from`: its longest runs of
/// characters that are no spaces, in their order.
pub open spec fn words_from(s: Seq<char>, from: int) -> Seq<Seq<char>>
    decreases s.len() - from,
{
    let start = word_start(s, from);
    let end = word_end(s, start);
    if from <= start < end <= s.len() {
        seq![s.subrange(start, end)] + words_from(s, end)
    } else {
        Seq::empty()
    }
}

/// The words of `s`.
pub open spec fn words(s: Seq<char>) -> Seq<Seq<char>> {
    words_from(s, 0)
}

/// The directive that a line of these words is, or why it is none. Words
/// behind those that the directive needs are passed over.
pub open spec fn directive_of_words(words: Seq<Seq<char>>) -> Result<DirectiveView, ParseError> {
    if words.len() == 0 {
        Err(ParseError::UnknownDirective)
    } else if words[0] == "set"@ {
        if words.len() < 2 {
            Err(ParseError::MissingProperty)
        } else if words.len() < 3 {
            Err(ParseError::MissingValue)
        } else if words[2] == "true"@ {
            Ok(DirectiveView::SetProperty(words[1], true))
        } else if words[2] == "false"@ {
            Ok(DirectiveView::SetProperty(words[1], false))
        } else {
            Err(ParseError::InvalidValue)
        }
    } else if words[0] == "goto"@ {
        if words.len() < 2 {
            Err(ParseError::MissingLocation)
        } else {
            Ok(DirectiveView::GoTo(words[1]))
        }
    } else {
        Err(ParseError::UnknownDirective)
    }
}

/// The directive that the line `s` is, or why it is none.
pub open spec fn directive_of(s: Seq<char>) -> Result<DirectiveView, ParseError> {
    directive_of_words(words(s))
}

/// The texts that a list of strings holds.
pub open spec fn texts(words: Seq<String>) -> Seq<Seq<char>> {
    words.map_values(|w: String| w@)
}

/// Parts `line` into its words.
pub fn split_words(line: &str) -> (result: Vec<String>)
    ensures
        texts(result@) == words(line@),
{
    let chars = chars_of(line);
    let mut result: Vec<String> = Vec::new();
    let mut at: usize = 0;
    loop
        invariant
            chars@ == line@,
            at <= chars.len(),
            words(line@) == texts(result@) + words_from(line@, at as int),
        decreases chars.len() - at,
    {
        let mut start: usize = at;
        while start < chars.len() && is_space_char(chars[start])
            invariant
                at <= start <= chars.len(),
                word_start(chars@, at as int) == word_start(chars@, start as int),
            decreases chars.len() - start,
        {
            start += 1;
        }
        let mut end: usize = start;
        while end < chars.len() && !is_space_char(chars[end])
            invariant
                start <= end <= chars.len(),
                word_end(chars@, start as int) == word_end(chars@, end as int),
            decreases chars.len() - end,
        {
            end += 1;
        }
        if end == start {
            proof {
                assert(words_from(line@, at as int) == Seq::<Seq<char>>::empty());
                assert(texts(result@) + Seq::<Seq<char>>::empty() == texts(result@));
            }
            return result;
        }
        let word = slice_of(line, start, end);
        proof {
            let before = texts(result@);
            let after = texts(result@.push(word));
            assert(after == before.push(word@));
            assert(words_from(line@, at as int) == seq![word@] + words_from(line@, end as int));
            assert(before + (seq![word@] + words_from(line@, end as int)) == before.push(word@)
                + words_from(line@, end as int));
        }
        result.push(word);
        at = end;
    }
}

/// Parses one directive line. The first word selects the directive; words
/// behind those that it needs are passed over.
pub fn parse_directive(line: &str) -> (result: Result<Directive, ParseError>)
    ensures
        match result {
            Ok(directive) => directive_of(line@) == Ok::<DirectiveView, ParseError>(directive@),
            Err(error) => directive_of(line@) == Err::<DirectiveView, ParseError>(error),
        },
{
    let found = split_words(line);
    let ghost all = texts(found@);
    assert(forall|i: int| 0 <= i < found.len() ==> all[i] == found@[i]@);
    if found.len() == 0 {
        return Err(ParseError::UnknownDirective);
    }
    if same_text(found[0].as_str(), "set") {
        if found.len() < 2 {
            return Err(ParseError::MissingProperty);
        }
        if found.len() < 3 {
            return Err(ParseError::MissingValue);
        }
        let value = if same_text(found[2].as_str(), "true") {
            true
        } else if same_text(found[2].as_str(), "false") {
            false
        } else {
            return Err(ParseError::InvalidValue);
        };
        Ok(Directive::SetProperty(PropertyId(found[1].clone()), value))
    } else if same_text(found[0].as_str(), "goto") {
        if found.len() < 2 {
            return Err(ParseError::MissingLocation);
        }
        Ok(Directive::GoTo(LocationId(found[1].clone())))
    } else {
        Err(ParseError::UnknownDirective)
    }
}

/// The line that says `directive`.
pub open spec fn line_of(directive: DirectiveView) -> Seq<char> {
    match directive {
        DirectiveView::SetProperty(id, value) => "set "@ + id + " "@ + if value {
            "true"@
        } else {
            "false"@
        },
        DirectiveView::GoTo(id) => "goto "@ + id,
    }
}

/// Whether `s` can stand as one word of a line: it is not empty and holds no
/// space.
pub open spec fn is_word(s: Seq<char>) -> bool {
    s.len() > 0 && forall|i: int| 0 <= i < s.len() ==> !space_char(#[trigger] s[i])
}

/// The name that `directive` holds.
pub open spec fn name_of(directive: DirectiveView) -> Seq<char> {
    match directive {
        DirectiveView::SetProperty(id, _) => id,
        DirectiveView::GoTo(id) => id,
    }
}

impl Directive {
    /// Writes this directive as a line.
    pub fn to_line(&self) -> (line: String)
        ensures
            line@ == line_of(self@),
    {
        match self {
            Directive::SetProperty(PropertyId(id), value) => {
                let mut line = String::from_str("set ");
                line.append(id.as_str());
                line.append(" ");
                if *value {
                    line.append("true");
                } else {
                    line.append("false");
                }
                line
            },
            Directive::GoTo(LocationId(id)) => {
                let mut line = String::from_str("goto ");
                line.append(id.as_str());
                line
            },
        }
    }
}

/// Spaces from `from` up to `start`, and none at `start`: a word starts at
/// `start`.
proof fn word_start_at(s: Seq<char>, from: int, start: int)
    requires
        0 <= from <= start <= s.len(),
        forall|i: int| from <= i < start ==> space_char(#[trigger] s[i]),
        start == s.len() || !space_char(s[start]),
    ensures
        word_start(s, from) == start,
    decreases start - from,
{
    if from < start {
        word_start_at(s, from + 1, start);
    }
}

/// No spaces from `start` up to `end`, and one at `end`: the word ends at
/// `end`.
proof fn word_end_at(s: Seq<char>, start: int, end: int)
    requires
        0 <= start <= end <= s.len(),
        forall|i: int| start <= i < end ==> !space_char(#[trigger] s[i]),
        end == s.len() || space_char(s[end]),
    ensures
        word_end(s, start) == end,
    decreases end - start,
{
    if start < end {
        word_end_at(s, start + 1, end);
    }
}

/// A run of characters that are no spaces, between spaces or the ends of the
/// text, is the next word.
proof fn next_word(s: Seq<char>, from: int, start: int, end: int)
    requires
        0 <= from <= start < end <= s.len(),
        forall|i: int| from <= i < start ==> space_char(#[trigger] s[i]),
        forall|i: int| start <= i < end ==> !space_char(#[trigger] s[i]),
        end == s.len() || space_char(s[end]),
    ensures
        words_from(s, from) == seq![s.subrange(start, end)] + words_from(s, end),
{
    word_start_at(s, from, start);
    word_end_at(s, start, end);
}

/// The words of two words with a space between them are these two.
proof fn words_of_two(first: Seq<char>, second: Seq<char>)
    requires
        is_word(first),
        is_word(second),
    ensures
        words(first + seq![' '] + second) == seq![first, second],
{
    let s = first + seq![' '] + second;
    let a = first.len() as int;
    let b = second.len() as int;
    assert(s.len() == a + 1 + b);
    assert forall|i: int| 0 <= i < a implies !space_char(#[trigger] s[i]) by {
        assert(s[i] == first[i]);
    }
    assert forall|i: int| a + 1 <= i < a + 1 + b implies !space_char(#[trigger] s[i]) by {
        assert(s[i] == second[i - a - 1]);
    }
    assert(s[a] == ' ');
    next_word(s, 0, 0, a);
    next_word(s, a, a + 1, a + 1 + b);
    assert(words_from(s, a + 1 + b) == Seq::<Seq<char>>::empty());
    assert(s.subrange(0, a) == first);
    assert(s.subrange(a + 1, a + 1 + b) == second);
    assert(seq![first] + (seq![second] + Seq::<Seq<char>>::empty()) == seq![first, second]);
}

/// The words of three words with a space between each two are these three.
proof fn words_of_three(first: Seq<char>, second: Seq<char>, third: Seq<char>)
    requires
        is_word(first),
        is_word(second),
        is_word(third),
    ensures
        words(first + seq![' '] + second + seq![' '] + third) == seq![first, second, third],
{
    let s = first + seq![' '] + second + seq![' '] + third;
    let a = first.len() as int;
    let b = second.len() as int;
    let c = third.len() as int;
    assert(s.len() == a + b + c + 2);
    assert forall|i: int| 0 <= i < a implies !space_char(#[trigger] s[i]) by {
        assert(s[i] == first[i]);
    }
    assert forall|i: int| a + 1 <= i < a + 1 + b implies !space_char(#[trigger] s[i]) by {
        assert(s[i] == second[i - a - 1]);
    }
    assert forall|i: int| a + b + 2 <= i < a + b + c + 2 implies !space_char(
        #[trigger] s[i],
    ) by {
        assert(s[i] == third[i - a - b - 2]);
    }
    assert(s[a] == ' ');
    assert(s[a + 1 + b] == ' ');
    next_word(s, 0, 0, a);
    next_word(s, a, a + 1, a + 1 + b);
    next_word(s, a + 1 + b, a + b + 2, a + b + c + 2);
    assert(words_from(s, a + b + c + 2) == Seq::<Seq<char>>::empty());
    assert(s.subrange(0, a) == first);
    assert(s.subrange(a + 1, a + 1 + b) == second);
    assert(s.subrange(a + b + 2, a + b + c + 2) == third);
    assert(seq![first] + (seq![second] + (seq![third] + Seq::<Seq<char>>::empty())) == seq![
        first,
        second,
        third,
    ]);
}

/// The words that the directive lines are written with.
proof fn keywords()
    ensures
        is_word("set"@),
        is_word("goto"@),
        is_word("true"@),
        is_word("false"@),
        "set "@ == "set"@ + seq![' '],
        "goto "@ == "goto"@ + seq![' '],
        " "@ == seq![' '],
        "set"@ != "goto"@,
        "true"@ != "false"@,
{
    reveal_strlit("set ");
    reveal_strlit("set");
    reveal_strlit("goto ");
    reveal_strlit("goto");
    reveal_strlit(" ");
    reveal_strlit("true");
    reveal_strlit("false");
    assert("set "@ =~= "set"@ + seq![' ']);
    assert("goto "@ =~= "goto"@ + seq![' ']);
    assert(" "@ =~= seq![' ']);
    assert("set"@.len() != "goto"@.len());
    assert("true"@.len() != "false"@.len());
}

/// A directive whose name is one word is read back from its line.
pub proof fn line_round_trip(directive: DirectiveView)
    requires
        is_word(name_of(directive)),
    ensures
        directive_of(line_of(directive)) == Ok::<DirectiveView, ParseError>(directive),
{
    keywords();
    match directive {
        DirectiveView::SetProperty(id, value) => {
            let last = if value {
                "true"@
            } else {
                "false"@
            };
            words_of_three("set"@, id, last);
            assert(line_of(directive) == "set"@ + seq![' '] + id + seq![' '] + last);
        },
        DirectiveView::GoTo(id) => {
            words_of_two("goto"@, id);
            assert(line_of(directive) == "goto"@ + seq![' '] + id);
        },
    }
}

} // verus!
