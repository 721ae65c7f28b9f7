//! What the condition parser accepts, said without the parser: the conditions
//! of the grammar, the text that each is written as, and the proofs that
//! parsing and writing undo each other.

use vstd::prelude::*;
use crate::chars::name_char;
use crate::condition::{chain_from, condition_from, condition_of, connective_at, name_end, Connective};
use crate::world::ConditionView;

verus! {

/// Whether `s` is a name: one or more ASCII letters or digits.
pub open spec fn is_name(s: Seq<char>) -> bool {
    s.len() > 0 && forall|i: int| 0 <= i < s.len() ==> name_char(#[trigger] s[i])
}

/// The text of a connective between its two spaces.
pub open spec fn connective_text(connective: Connective) -> Seq<char> {
    seq![' ', connective.sign(), ' ']
}

/// The text that `condition` is written as.
pub open spec fn text_of(condition: ConditionView) -> Seq<char>
    decreases condition,
{
    match condition {
        ConditionView::IsPropertyTrue(id) => id,
        ConditionView::Not(a) => seq!['!'] + text_of(*a),
        ConditionView::And(a, b) => text_of(*a) + connective_text(Connective::And) + text_of(*b),
        ConditionView::Or(a, b) => text_of(*a) + connective_text(Connective::Or) + text_of(*b),
    }
}

/// Whether `condition` is a name, or names joined from the left by
/// `connective` alone.
pub open spec fn is_chain(condition: ConditionView, connective: Connective) -> bool
    decreases condition,
{
    match condition {
        ConditionView::IsPropertyTrue(id) => is_name(id),
        ConditionView::Not(_) => false,
        ConditionView::And(a, b) => connective == Connective::And && is_chain(*a, connective)
            && *b is IsPropertyTrue && is_name(b->IsPropertyTrue_0),
        ConditionView::Or(a, b) => connective == Connective::Or && is_chain(*a, connective)
            && *b is IsPropertyTrue && is_name(b->IsPropertyTrue_0),
    }
}

/// Whether `condition` is one that the grammar can write: its names are
/// names, what stands left of a connective is a chain of that connective, and
/// what stands right of it is a name or a negation.
pub open spec fn in_grammar(condition: ConditionView) -> bool
    decreases condition,
{
    match condition {
        ConditionView::IsPropertyTrue(id) => is_name(id),
        ConditionView::Not(a) => in_grammar(*a),
        ConditionView::And(a, b) => is_chain(*a, Connective::And) && match *b {
            ConditionView::IsPropertyTrue(id) => is_name(id),
            ConditionView::Not(c) => in_grammar(*c),
            _ => false,
        },
        ConditionView::Or(a, b) => is_chain(*a, Connective::Or) && match *b {
            ConditionView::IsPropertyTrue(id) => is_name(id),
            ConditionView::Not(c) => in_grammar(*c),
            _ => false,
        },
    }
}

/// The connective that a chain has shown: none where it is a single name.
pub open spec fn shown(condition: ConditionView) -> Option<Connective> {
    match condition {
        ConditionView::And(_, _) => Some(Connective::And),
        ConditionView::Or(_, _) => Some(Connective::Or),
        _ => None,
    }
}

/// A chain is a condition of the grammar.
proof fn chain_in_grammar(condition: ConditionView, connective: Connective)
    requires
        is_chain(condition, connective),
    ensures
        in_grammar(condition),
{
}

/// The run of name characters from `from` holds name characters only and
/// ends at the end of the text or before another character.
proof fn name_run(s: Seq<char>, from: int)
    requires
        0 <= from <= s.len(),
    ensures
        from <= name_end(s, from) <= s.len(),
        forall|i: int| from <= i < name_end(s, from) ==> name_char(#[trigger] s[i]),
        name_end(s, from) == s.len() || !name_char(s[name_end(s, from)]),
    decreases s.len() - from,
{
    if from < s.len() && name_char(s[from]) {
        name_run(s, from + 1);
    }
}

/// Name characters from `from` up to `end`, and none at `end`: the run ends
/// at `end`.
proof fn name_end_at(s: Seq<char>, from: int, end: int)
    requires
        0 <= from <= end <= s.len(),
        forall|i: int| from <= i < end ==> name_char(#[trigger] s[i]),
        end == s.len() || !name_char(s[end]),
    ensures
        name_end(s, from) == end,
    decreases end - from,
{
    if from < end {
        name_end_at(s, from + 1, end);
    }
}

/// How a joined condition is written, whether it is a chain, and which
/// connective it shows.
proof fn joined(connective: Connective, left: ConditionView, right: ConditionView)
    ensures
        text_of(connective.join(left, right)) == text_of(left) + connective_text(connective)
            + text_of(right),
        shown(connective.join(left, right)) == Some(connective),
        is_chain(connective.join(left, right), connective) == (is_chain(left, connective)
            && right is IsPropertyTrue && is_name(right->IsPropertyTrue_0)),
        in_grammar(connective.join(left, right)) == (is_chain(left, connective) && match right {
            ConditionView::IsPropertyTrue(id) => is_name(id),
            ConditionView::Not(c) => in_grammar(*c),
            _ => false,
        }),
{
}

/// What the parser makes of the text from `from` on is a condition of the
/// grammar, and that text is how it is written.
proof fn from_is_written(s: Seq<char>, from: int)
    requires
        0 <= from <= s.len(),
        condition_from(s, from) is Some,
    ensures
        in_grammar(condition_from(s, from)->0),
        text_of(condition_from(s, from)->0) == s.skip(from),
    decreases s.len() - from, 0nat,
{
    if s[from] == '!' {
        from_is_written(s, from + 1);
        assert(seq!['!'] + s.skip(from + 1) == s.skip(from));
    } else {
        let end = name_end(s, from);
        name_run(s, from);
        let first = ConditionView::IsPropertyTrue(s.subrange(from, end));
        chain_is_written(s, from, first, end, None);
    }
}

/// The same for a chain that was read up to `at`.
proof fn chain_is_written(
    s: Seq<char>,
    from: int,
    left: ConditionView,
    at: int,
    seen: Option<Connective>,
)
    requires
        0 <= from < at <= s.len(),
        text_of(left) == s.subrange(from, at),
        seen is None ==> left is IsPropertyTrue && is_name(left->IsPropertyTrue_0),
        seen is Some ==> is_chain(left, seen->0),
        chain_from(s, left, at, seen) is Some,
    ensures
        in_grammar(chain_from(s, left, at, seen)->0),
        text_of(chain_from(s, left, at, seen)->0) == s.skip(from),
    decreases s.len() - at, 1nat,
{
    if at >= s.len() {
        assert(s.subrange(from, at) == s.skip(from));
        if seen is Some {
            chain_in_grammar(left, seen->0);
        }
    } else {
        let connective = connective_at(s, at)->0;
        assert(s.subrange(at, at + 3) == connective_text(connective));
        assert(is_chain(left, connective));
        if at + 3 < s.len() && s[at + 3] == '!' {
            from_is_written(s, at + 4);
            let inner = condition_from(s, at + 4)->0;
            let right = ConditionView::Not(Box::new(inner));
            joined(connective, left, right);
            assert(text_of(right) == seq!['!'] + s.skip(at + 4));
            assert(seq!['!'] + s.skip(at + 4) == s.skip(at + 3));
            assert(s.subrange(from, at) + s.subrange(at, at + 3) + s.skip(at + 3) == s.skip(
                from,
            ));
        } else {
            let end = name_end(s, at + 3);
            name_run(s, at + 3);
            let name = s.subrange(at + 3, end);
            let right = ConditionView::IsPropertyTrue(name);
            joined(connective, left, right);
            assert(s.subrange(from, at) + s.subrange(at, at + 3) + s.subrange(at + 3, end)
                == s.subrange(from, end));
            chain_is_written(s, from, connective.join(left, right), end, Some(connective));
        }
    }
}

/// Where `s` holds, from `from` on, the text of `left`, a connective and
/// `rest`, each part stands at its place in `s`.
proof fn parts_of_joined(
    s: Seq<char>,
    from: int,
    to: int,
    left: Seq<char>,
    connective: Connective,
    rest: Seq<char>,
)
    requires
        0 <= from <= to <= s.len(),
        s.subrange(from, to) == left + connective_text(connective) + rest,
    ensures
        to == from + left.len() + 3 + rest.len(),
        s.subrange(from, from + left.len()) == left,
        connective_at(s, from + left.len()) == Some(connective),
        s.subrange(from + left.len() + 3, to) == rest,
{
    let whole = left + connective_text(connective) + rest;
    let at = from + left.len();
    assert(whole.len() == to - from);
    assert forall|i: int| 0 <= i < whole.len() implies s[from + i] == whole[i] by {
        assert(s.subrange(from, to)[i] == whole[i]);
    }
    assert(s.subrange(from, at) =~= left) by {
        assert forall|i: int| 0 <= i < left.len() implies s.subrange(from, at)[i] == left[i] by {
            assert(whole[i] == left[i]);
        }
    }
    assert(s[at] == whole[at - from]);
    assert(s[at + 1] == whole[at - from + 1]);
    assert(s[at + 2] == whole[at - from + 2]);
    assert(s.subrange(at + 3, to) =~= rest) by {
        assert forall|i: int| 0 <= i < rest.len() implies s.subrange(at + 3, to)[i]
            == rest[i] by {
            assert(whole[at + 3 + i - from] == rest[i]);
        }
    }
}

/// The parser reads a name that stands at `from` up to its end, as far as
/// the name is followed by the end of the text or by a character that is no
/// name character.
proof fn name_is_read(s: Seq<char>, from: int, name: Seq<char>)
    requires
        is_name(name),
        0 <= from,
        from + name.len() <= s.len(),
        s.subrange(from, from + name.len()) == name,
        from + name.len() == s.len() || !name_char(s[from + name.len()]),
    ensures
        name_end(s, from) == from + name.len(),
        s[from] != '!',
{
    let end = from + name.len();
    assert forall|i: int| from <= i < end implies name_char(#[trigger] s[i]) by {
        assert(s.subrange(from, end)[i - from] == name[i - from]);
    }
    name_end_at(s, from, end);
}

/// The parser reads a chain that stands at `from` up to its end, as far as
/// the chain is followed by the end of the text or by a character that is no
/// name character.
proof fn chain_is_read(s: Seq<char>, from: int, chain: ConditionView, connective: Connective)
    requires
        is_chain(chain, connective),
        0 <= from,
        from + text_of(chain).len() <= s.len(),
        s.subrange(from, from + text_of(chain).len()) == text_of(chain),
        from + text_of(chain).len() == s.len() || !name_char(s[from + text_of(chain).len()]),
    ensures
        condition_from(s, from) == chain_from(
            s,
            chain,
            from + text_of(chain).len(),
            shown(chain),
        ),
    decreases chain,
{
    let to = from + text_of(chain).len();
    match chain {
        ConditionView::IsPropertyTrue(id) => {
            name_is_read(s, from, id);
        },
        ConditionView::Not(_) => {},
        _ => {
            let (left, right) = match chain {
                ConditionView::And(a, b) => (*a, *b),
                ConditionView::Or(a, b) => (*a, *b),
                _ => arbitrary(),
            };
            let name = right->IsPropertyTrue_0;
            assert(chain == connective.join(left, right));
            assert(text_of(right) == name);
            joined(connective, left, right);
            parts_of_joined(s, from, to, text_of(left), connective, name);
            let at = from + text_of(left).len();
            chain_is_read(s, from, left, connective);
            name_is_read(s, at + 3, name);
            assert(shown(left) is None || shown(left) == Some(connective));
        },
    }
}

/// The parser reads a condition of the grammar that stands from `from` to
/// the end of the text.
proof fn written_is_read(s: Seq<char>, from: int, condition: ConditionView)
    requires
        in_grammar(condition),
        0 <= from <= s.len(),
        s.skip(from) == text_of(condition),
    ensures
        condition_from(s, from) == Some(condition),
    decreases condition,
{
    let to = s.len() as int;
    assert(s.subrange(from, to) == s.skip(from));
    match condition {
        ConditionView::IsPropertyTrue(id) => {
            chain_is_read(s, from, condition, Connective::And);
        },
        ConditionView::Not(a) => {
            assert(text_of(condition).len() == 1 + text_of(*a).len());
            assert(s[from] == s.skip(from)[0]);
            assert(s.skip(from + 1) == text_of(*a)) by {
                assert(s.skip(from + 1) == s.skip(from).skip(1));
                assert((seq!['!'] + text_of(*a)).skip(1) == text_of(*a));
            }
            written_is_read(s, from + 1, *a);
        },
        _ => {
            let (connective, left, right) = match condition {
                ConditionView::And(a, b) => (Connective::And, *a, *b),
                ConditionView::Or(a, b) => (Connective::Or, *a, *b),
                _ => arbitrary(),
            };
            assert(condition == connective.join(left, right));
            joined(connective, left, right);
            parts_of_joined(s, from, to, text_of(left), connective, text_of(right));
            let at = from + text_of(left).len();
            chain_is_read(s, from, left, connective);
            assert(shown(left) is None || shown(left) == Some(connective));
            match right {
                ConditionView::IsPropertyTrue(name) => {
                    assert(text_of(right) == name);
                    name_is_read(s, at + 3, name);
                    assert(chain_from(s, condition, to, Some(connective)) == Some(condition));
                    assert(chain_from(s, left, at, shown(left)) == chain_from(
                        s,
                        condition,
                        to,
                        Some(connective),
                    ));
                },
                ConditionView::Not(inner) => {
                    assert(text_of(right).len() == 1 + text_of(*inner).len());
                    assert(s[at + 3] == s.subrange(at + 3, to)[0]);
                    assert(s.skip(at + 4) == text_of(*inner)) by {
                        assert(s.skip(at + 4) == s.subrange(at + 3, to).skip(1));
                        assert((seq!['!'] + text_of(*inner)).skip(1) == text_of(*inner));
                    }
                    written_is_read(s, at + 4, *inner);
                },
                _ => {},
            }
        },
    }
}

/// What the parser accepts is a condition of the grammar, and the text that
/// was parsed is the text that this condition is written as.
pub proof fn parsed_is_written(s: Seq<char>)
    requires
        condition_of(s) is Some,
    ensures
        in_grammar(condition_of(s)->0),
        text_of(condition_of(s)->0) == s,
{
    from_is_written(s, 0);
    assert(s.skip(0) == s);
}

/// The parser accepts the text of every condition of the grammar, and gives
/// that condition back.
pub proof fn written_is_parsed(condition: ConditionView)
    requires
        in_grammar(condition),
    ensures
        condition_of(text_of(condition)) == Some(condition),
{
    let s = text_of(condition);
    assert(s.skip(0) == s);
    written_is_read(s, 0, condition);
}

/// Two conditions of the grammar that are written alike are one condition.
pub proof fn written_once(first: ConditionView, second: ConditionView)
    requires
        in_grammar(first),
        in_grammar(second),
        text_of(first) == text_of(second),
    ensures
        first == second,
{
    written_is_parsed(first);
    written_is_parsed(second);
}

} // verus!
