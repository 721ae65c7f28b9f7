//! The condition language: its grammar and its parser.
//!
//! ```text
//! condition := "!" condition
//!            | name ( " & " operand )*
//!            | name ( " | " operand )*
//! operand   := "!" condition | name
//! name      := one or more ASCII letters or digits
//! ```
//!
//! A chain of one connective groups from the left: `a & b & c` is
//! `And(And(a, b), c)`. The two connectives have one precedence and do not mix
//! in one chain: `a & b | c` is no condition. A `!` negates all that follows
//! it, so it opens the last operand of its chain, and the condition behind it
//! may use the other connective: `a & !b | c` is `And(a, Not(Or(b, c)))`.
//! Each connective stands between exactly one space on either side, and a `!`
//! stands directly before what it negates.

use vstd::prelude::*;
use crate::chars::{chars_of, is_name_char, name_char, slice_of};
use crate::error::ParseError;
use crate::grammar::{in_grammar, parsed_is_written, text_of, written_is_parsed};
use crate::world::{Condition, ConditionView, PropertyId};

verus! {

/// The two connectives of the language.
#[derive(Debug, Clone, Copy, PartialEq, Eq, Structural)]
pub enum Connective {
    And,
    Or,
}

impl Connective {
    /// The condition that joins `left` and `right` by this connective.
    pub open spec fn join(self, left: ConditionView, right: ConditionView) -> ConditionView {
        match self {
            Connective::And => ConditionView::And(Box::new(left), Box::new(right)),
            Connective::Or => ConditionView::Or(Box::new(left), Box::new(right)),
        }
    }

    /// The character that stands for this connective.
    pub open spec fn sign(self) -> char {
        match self {
            Connective::And => '&',
            Connective::Or => '|',
        }
    }

    /// Joins two conditions by this connective.
    pub fn apply(self, left: Condition, right: Condition) -> (joined: Condition)
        ensures
            joined@ == self.join(left@, right@),
    {
        match self {
            Connective::And => Condition::And(Box::new(left), Box::new(right)),
            Connective::Or => Condition::Or(Box::new(left), Box::new(right)),
        }
    }
}

/// The end of the longest run of name characters of `s` that starts at `from`.
pub open spec fn name_end(s: Seq<char>, from: int) -> int
    decreases s.len() - from,
{
    if 0 <= from < s.len() && name_char(s[from]) {
        name_end(s, from + 1)
    } else {
        from
    }
}

/// The connective that stands at `at` in `s` between two spaces, if one does.
pub open spec fn connective_at(s: Seq<char>, at: int) -> Option<Connective> {
    if 0 <= at && at + 3 <= s.len() && s[at] == ' ' && s[at + 2] == ' ' {
        if s[at + 1] == '&' {
            Some(Connective::And)
        } else if s[at + 1] == '|' {
            Some(Connective::Or)
        } else {
            None
        }
    } else {
        None
    }
}

/// The condition that `s` holds from `from` to its end, if that part of `s`
/// is a condition.
pub open spec fn condition_from(s: Seq<char>, from: int) -> Option<ConditionView>
    decreases s.len() - from, 0nat,
{
    if from < 0 || from >= s.len() {
        None
    } else if s[from] == '!' {
        match condition_from(s, from + 1) {
            Some(inner) => Some(ConditionView::Not(Box::new(inner))),
            None => None,
        }
    } else {
        let end = name_end(s, from);
        if from < end <= s.len() {
            chain_from(s, ConditionView::IsPropertyTrue(s.subrange(from, end)), end, None)
        } else {
            None
        }
    }
}

/// The condition that a chain gives whose operands up to `at` make `left`, and
/// whose connective, if it has shown one, is `seen`; `None` where what follows
/// `at` in `s` does not go on with that chain.
pub open spec fn chain_from(
    s: Seq<char>,
    left: ConditionView,
    at: int,
    seen: Option<Connective>,
) -> Option<ConditionView>
    decreases s.len() - at, 1nat,
{
    if at < 0 || at >= s.len() {
        Some(left)
    } else {
        match connective_at(s, at) {
            None => None,
            Some(connective) => {
                if seen is Some && seen != Some(connective) {
                    None
                } else if at + 3 < s.len() && s[at + 3] == '!' {
                    match condition_from(s, at + 4) {
                        Some(inner) => Some(
                            connective.join(left, ConditionView::Not(Box::new(inner))),
                        ),
                        None => None,
                    }
                } else {
                    let end = name_end(s, at + 3);
                    if at + 3 < end <= s.len() {
                        chain_from(
                            s,
                            connective.join(
                                left,
                                ConditionView::IsPropertyTrue(s.subrange(at + 3, end)),
                            ),
                            end,
                            Some(connective),
                        )
                    } else {
                        None
                    }
                }
            },
        }
    }
}

/// The condition that `s` is, if it is one.
pub open spec fn condition_of(s: Seq<char>) -> Option<ConditionView> {
    condition_from(s, 0)
}

/// Finds the end of the run of name characters that starts at `from`.
fn scan_name(chars: &Vec<char>, from: usize) -> (end: usize)
    requires
        from <= chars.len(),
    ensures
        end == name_end(chars@, from as int),
        from <= end <= chars.len(),
{
    let mut end: usize = from;
    while end < chars.len() && is_name_char(chars[end])
        invariant
            from <= end <= chars.len(),
            name_end(chars@, from as int) == name_end(chars@, end as int),
        decreases chars.len() - end,
    {
        end += 1;
    }
    end
}

/// Reads the connective that stands at `at`.
fn read_connective(chars: &Vec<char>, at: usize) -> (found: Option<Connective>)
    requires
        at <= chars.len(),
    ensures
        found == connective_at(chars@, at as int),
{
    if chars.len() - at < 3 {
        return None;
    }
    if chars[at] != ' ' || chars[at + 2] != ' ' {
        return None;
    }
    if chars[at + 1] == '&' {
        Some(Connective::And)
    } else if chars[at + 1] == '|' {
        Some(Connective::Or)
    } else {
        None
    }
}

/// Parses the part of the text that starts at `from` as a condition.
fn parse_from(text: &str, chars: &Vec<char>, from: usize) -> (result: Result<
    Condition,
    ParseError,
>)
    requires
        chars@ == text@,
        from <= chars.len(),
    ensures
        match result {
            Ok(condition) => condition_from(chars@, from as int) == Some(condition@),
            Err(error) => condition_from(chars@, from as int) is None && error
                == ParseError::InvalidCondition,
        },
    decreases chars.len() - from,
{
    if from >= chars.len() {
        return Err(ParseError::InvalidCondition);
    }
    if chars[from] == '!' {
        return match parse_from(text, chars, from + 1) {
            Ok(inner) => Ok(Condition::Not(Box::new(inner))),
            Err(error) => Err(error),
        };
    }
    let first_end = scan_name(chars, from);
    if first_end == from {
        return Err(ParseError::InvalidCondition);
    }
    let mut left = Condition::IsPropertyTrue(PropertyId(slice_of(text, from, first_end)));
    let mut at: usize = first_end;
    let mut seen: Option<Connective> = None;
    while at < chars.len()
        invariant
            chars@ == text@,
            from < at <= chars.len(),
            condition_from(chars@, from as int) == chain_from(chars@, left@, at as int, seen),
        decreases chars.len() - at,
    {
        let connective = match read_connective(chars, at) {
            Some(connective) => connective,
            None => {
                return Err(ParseError::InvalidCondition);
            },
        };
        match seen {
            Some(earlier) => {
                if earlier != connective {
                    return Err(ParseError::InvalidCondition);
                }
            },
            None => {},
        }
        let start: usize = at + 3;
        if start < chars.len() && chars[start] == '!' {
            return match parse_from(text, chars, start + 1) {
                Ok(inner) => Ok(connective.apply(left, Condition::Not(Box::new(inner)))),
                Err(error) => Err(error),
            };
        }
        let end = scan_name(chars, start);
        if end == start {
            return Err(ParseError::InvalidCondition);
        }
        let operand = Condition::IsPropertyTrue(PropertyId(slice_of(text, start, end)));
        left = connective.apply(left, operand);
        at = end;
        seen = Some(connective);
    }
    Ok(left)
}

/// Parses `input` as a condition. All of `input` must be the condition: the
/// result is the one condition of the grammar that is written as `input`, and
/// an error where there is none.
pub fn parse_condition(input: &str) -> (result: Result<Condition, ParseError>)
    ensures
        match result {
            Ok(condition) => condition_of(input@) == Some(condition@) && in_grammar(condition@)
                && text_of(condition@) == input@,
            Err(error) => condition_of(input@) is None && error == ParseError::InvalidCondition
                && forall|condition: ConditionView|
                in_grammar(condition) ==> text_of(condition) != input@,
        },
{
    let chars = chars_of(input);
    let result = parse_from(input, &chars, 0);
    proof {
        if condition_of(input@) is Some {
            parsed_is_written(input@);
        } else {
            assert forall|condition: ConditionView| in_grammar(condition) implies text_of(
                condition,
            ) != input@ by {
                written_is_parsed(condition);
            }
        }
    }
    result
}

} // verus!
