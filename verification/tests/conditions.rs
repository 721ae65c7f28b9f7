use text_adventure::condition::parse_condition;
use text_adventure::error::ParseError;
use text_adventure::world::{Condition, PropertyId};

fn prop(name: &str) -> Condition {
    Condition::IsPropertyTrue(PropertyId(name.to_string()))
}

fn not(inner: Condition) -> Condition {
    Condition::Not(Box::new(inner))
}

fn and(left: Condition, right: Condition) -> Condition {
    Condition::And(Box::new(left), Box::new(right))
}

fn or(left: Condition, right: Condition) -> Condition {
    Condition::Or(Box::new(left), Box::new(right))
}

#[test]
fn bare_name_is_a_property() {
    assert_eq!(parse_condition("hasKey"), Ok(prop("hasKey")));
    assert_eq!(parse_condition("door2"), Ok(prop("door2")));
    assert_eq!(parse_condition("7"), Ok(prop("7")));
}

#[test]
fn negation_parses() {
    assert_eq!(parse_condition("!hasKey"), Ok(not(prop("hasKey"))));
}

#[test]
fn double_negation_parses_as_two_nots() {
    assert_eq!(parse_condition("!!prop"), Ok(not(not(prop("prop")))));
}

#[test]
fn empty_condition_is_refused() {
    assert_eq!(parse_condition(""), Err(ParseError::InvalidCondition));
}

#[test]
fn lone_negation_is_refused() {
    assert_eq!(parse_condition("!"), Err(ParseError::InvalidCondition));
    assert_eq!(parse_condition("a & !"), Err(ParseError::InvalidCondition));
}

#[test]
fn conjunction_parses() {
    assert_eq!(parse_condition("a & b"), Ok(and(prop("a"), prop("b"))));
}

#[test]
fn disjunction_parses() {
    assert_eq!(parse_condition("a | b"), Ok(or(prop("a"), prop("b"))));
}

#[test]
fn chains_group_from_the_left() {
    assert_eq!(
        parse_condition("a & b & c"),
        Ok(and(and(prop("a"), prop("b")), prop("c")))
    );
    assert_eq!(
        parse_condition("a | b | c | d"),
        Ok(or(or(or(prop("a"), prop("b")), prop("c")), prop("d")))
    );
}

#[test]
fn mixed_connectives_are_refused() {
    assert_eq!(parse_condition("a & b | c"), Err(ParseError::InvalidCondition));
    assert_eq!(parse_condition("a | b & c"), Err(ParseError::InvalidCondition));
}

#[test]
fn negation_takes_all_that_follows() {
    assert_eq!(parse_condition("!a & b"), Ok(not(and(prop("a"), prop("b")))));
    assert_eq!(
        parse_condition("a & !b | c"),
        Ok(and(prop("a"), not(or(prop("b"), prop("c")))))
    );
    assert_eq!(
        parse_condition("a | b | !!c"),
        Ok(or(or(prop("a"), prop("b")), not(not(prop("c")))))
    );
}

#[test]
fn trailing_characters_are_refused() {
    assert_eq!(parse_condition("hasKey "), Err(ParseError::InvalidCondition));
    assert_eq!(parse_condition("hasKey)"), Err(ParseError::InvalidCondition));
    assert_eq!(parse_condition("a & b "), Err(ParseError::InvalidCondition));
    assert_eq!(parse_condition("a &"), Err(ParseError::InvalidCondition));
    assert_eq!(parse_condition("a & "), Err(ParseError::InvalidCondition));
}

#[test]
fn spacing_is_exact() {
    assert_eq!(parse_condition("a&b"), Err(ParseError::InvalidCondition));
    assert_eq!(parse_condition("a  & b"), Err(ParseError::InvalidCondition));
    assert_eq!(parse_condition("a &  b"), Err(ParseError::InvalidCondition));
    assert_eq!(parse_condition(" a"), Err(ParseError::InvalidCondition));
    assert_eq!(parse_condition("! a"), Err(ParseError::InvalidCondition));
    assert_eq!(parse_condition("a\t&\tb"), Err(ParseError::InvalidCondition));
}

#[test]
fn names_are_ascii_letters_and_digits() {
    assert_eq!(parse_condition("has_key"), Err(ParseError::InvalidCondition));
    assert_eq!(parse_condition("has-key"), Err(ParseError::InvalidCondition));
    assert_eq!(parse_condition("cl\u{e9}"), Err(ParseError::InvalidCondition));
    assert_eq!(parse_condition("a & \u{e9}"), Err(ParseError::InvalidCondition));
    assert_eq!(parse_condition("azAZ09"), Ok(prop("azAZ09")));
}

#[test]
fn names_behind_wide_characters_are_cut_by_characters() {
    assert_eq!(parse_condition("\u{e9} & b"), Err(ParseError::InvalidCondition));
    assert_eq!(parse_condition("a & b\u{1f600}"), Err(ParseError::InvalidCondition));
}

#[test]
fn long_chain_with_negation_at_its_end() {
    assert_eq!(
        parse_condition("a1 & b2 & !c3 | d4 | !!e5"),
        Ok(and(
            and(prop("a1"), prop("b2")),
            not(or(or(prop("c3"), prop("d4")), not(not(prop("e5")))))
        ))
    );
}

#[test]
fn connective_needs_an_operand_on_its_left() {
    assert_eq!(parse_condition(" & b"), Err(ParseError::InvalidCondition));
    assert_eq!(parse_condition("& b"), Err(ParseError::InvalidCondition));
    assert_eq!(parse_condition("! & b"), Err(ParseError::InvalidCondition));
    assert_eq!(parse_condition("a & & b"), Err(ParseError::InvalidCondition));
}
