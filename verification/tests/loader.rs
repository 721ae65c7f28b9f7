use text_adventure::error::{LoadError, ParseError};
use text_adventure::loader::{location_from_node, parse_action, parse_location};
use text_adventure::world::{Action, Condition, Directive, Location, LocationId, PropertyId};
use text_adventure::yaml::{load_documents, Node};

fn text(s: &str) -> Node {
    Node::Text(s.to_string())
}

fn prop(name: &str) -> Condition {
    Condition::IsPropertyTrue(PropertyId(name.to_string()))
}

fn unlock_door() -> Action {
    Action {
        title: "unlock door".to_string(),
        condition: prop("hasKey"),
        directives: vec![
            Directive::SetProperty(PropertyId("isDoorOpen".to_string()), true),
            Directive::GoTo(LocationId("nextRoom".to_string())),
        ],
    }
}

fn action_node(title: Node, condition: Node, lines: Node) -> Node {
    Node::Mapping(vec![(title, Node::Mapping(vec![(condition, lines)]))])
}

#[test]
fn test_parse_location() {
    let s = "
description: Lorem ipsum dolor sit amet.

actions:
- unlock door:
    hasKey:
    - set isDoorOpen true
    - goto nextRoom
";
    let locations = vec![parse_location(s, "cell")];
    println!("{:#?}", locations);
    assert_eq!(
        locations,
        vec![Ok(Location {
            title: "cell".to_string(),
            actions: vec![unlock_door()],
            description: "Lorem ipsum dolor sit amet.".to_string(),
        })]
    );
}

#[test]
fn documents_are_read_as_nodes() {
    let documents = load_documents("a: [x, 2, 1.5, true, ~]\nb: {c: d}\n").unwrap();
    assert_eq!(
        documents,
        vec![Node::Mapping(vec![
            (
                text("a"),
                Node::List(vec![
                    text("x"),
                    Node::Integer(2),
                    Node::Real("1.5".to_string()),
                    Node::Boolean(true),
                    Node::Null,
                ])
            ),
            (text("b"), Node::Mapping(vec![(text("c"), text("d"))])),
        ])]
    );
}

#[test]
fn mapping_pairs_keep_their_order() {
    let documents = load_documents("z: 1\na: 2\nm: 3\n").unwrap();
    assert_eq!(
        documents,
        vec![Node::Mapping(vec![
            (text("z"), Node::Integer(1)),
            (text("a"), Node::Integer(2)),
            (text("m"), Node::Integer(3)),
        ])]
    );
}

#[test]
fn several_documents_are_all_read() {
    let documents = load_documents("--- one\n--- two\n").unwrap();
    assert_eq!(documents, vec![text("one"), text("two")]);
}

#[test]
fn broken_yaml_is_refused() {
    assert_eq!(load_documents("a: [1, 2"), None);
    assert_eq!(parse_location("a: [1, 2", "x"), Err(LoadError::InvalidYaml));
}

#[test]
fn empty_text_has_no_document() {
    assert_eq!(load_documents(""), Some(vec![]));
    assert_eq!(parse_location("", "x"), Err(LoadError::NoDocument));
}

#[test]
fn location_without_actions_has_none() {
    assert_eq!(
        parse_location("description: A bare room.\n", "room"),
        Ok(Location {
            title: "room".to_string(),
            actions: vec![],
            description: "A bare room.".to_string(),
        })
    );
}

#[test]
fn location_must_be_a_mapping() {
    assert_eq!(parse_location("- a\n- b\n", "x"), Err(LoadError::LocationNotMapping));
    assert_eq!(parse_location("just text", "x"), Err(LoadError::LocationNotMapping));
}

#[test]
fn description_is_required() {
    assert_eq!(parse_location("actions: []\n", "x"), Err(LoadError::MissingDescription));
}

#[test]
fn description_must_be_a_string() {
    assert_eq!(parse_location("description: 12\n", "x"), Err(LoadError::DescriptionNotText));
    assert_eq!(parse_location("description: [a]\n", "x"), Err(LoadError::DescriptionNotText));
}

#[test]
fn actions_must_be_a_sequence() {
    assert_eq!(
        parse_location("description: d\nactions: nope\n", "x"),
        Err(LoadError::ActionsNotList)
    );
    assert_eq!(
        parse_location("description: d\nactions:\n  a: b\n", "x"),
        Err(LoadError::ActionsNotList)
    );
}

#[test]
fn action_with_two_titles_is_refused() {
    let source = "
description: d
actions:
- unlock door:
    hasKey:
    - goto nextRoom
  open window:
    hasKey:
    - goto garden
";
    assert_eq!(parse_location(source, "x"), Err(LoadError::ActionNotSinglePair));
}

#[test]
fn action_with_no_title_is_refused() {
    assert_eq!(
        parse_location("description: d\nactions:\n- {}\n", "x"),
        Err(LoadError::ActionNotSinglePair)
    );
    assert_eq!(parse_action(&Node::Mapping(vec![])), Err(LoadError::ActionNotSinglePair));
}

#[test]
fn action_must_be_a_mapping() {
    assert_eq!(
        parse_location("description: d\nactions:\n- look\n", "x"),
        Err(LoadError::ActionNotMapping)
    );
}

#[test]
fn details_must_be_a_mapping() {
    assert_eq!(
        parse_location("description: d\nactions:\n- look: now\n", "x"),
        Err(LoadError::DetailsNotMapping)
    );
}

#[test]
fn details_with_two_conditions_are_refused() {
    let source = "
description: d
actions:
- unlock door:
    hasKey:
    - goto nextRoom
    hasCrowbar:
    - goto nextRoom
";
    assert_eq!(parse_location(source, "x"), Err(LoadError::DetailsNotSinglePair));
    assert_eq!(
        parse_location("description: d\nactions:\n- look: {}\n", "x"),
        Err(LoadError::DetailsNotSinglePair)
    );
}

#[test]
fn condition_must_be_a_string() {
    assert_eq!(
        parse_location("description: d\nactions:\n- look:\n    1:\n    - goto a\n", "x"),
        Err(LoadError::ConditionNotText)
    );
}

#[test]
fn directives_must_be_a_sequence() {
    assert_eq!(
        parse_location("description: d\nactions:\n- look:\n    hasKey: goto a\n", "x"),
        Err(LoadError::DirectivesNotList)
    );
}

#[test]
fn directive_must_be_a_string() {
    assert_eq!(
        parse_location("description: d\nactions:\n- look:\n    hasKey:\n    - 3\n", "x"),
        Err(LoadError::DirectiveNotText)
    );
}

#[test]
fn malformed_directive_is_a_load_error() {
    assert_eq!(
        parse_location(
            "description: d\nactions:\n- look:\n    hasKey:\n    - goto a\n    - jump here\n",
            "x"
        ),
        Err(LoadError::InvalidDirective("jump here".to_string(), ParseError::UnknownDirective))
    );
    assert_eq!(
        parse_location("description: d\nactions:\n- look:\n    hasKey:\n    - set a on\n", "x"),
        Err(LoadError::InvalidDirective("set a on".to_string(), ParseError::InvalidValue))
    );
}

#[test]
fn title_must_be_a_string() {
    assert_eq!(
        parse_location("description: d\nactions:\n- 5:\n    hasKey:\n    - goto a\n", "x"),
        Err(LoadError::TitleNotText)
    );
}

#[test]
fn malformed_condition_is_a_load_error() {
    assert_eq!(
        parse_location("description: d\nactions:\n- look:\n    has key:\n    - goto a\n", "x"),
        Err(LoadError::InvalidCondition("has key".to_string()))
    );
}

#[test]
fn first_error_in_document_order_is_reported() {
    let source = "
description: d
actions:
- first:
    ok:
    - goto a
- second:
    not ok:
    - goto a
- third:
    ok:
    - fly away
";
    assert_eq!(
        parse_location(source, "x"),
        Err(LoadError::InvalidCondition("not ok".to_string()))
    );
}

#[test]
fn checks_of_an_action_come_in_their_order() {
    let bad_line = Node::List(vec![text("fly away")]);
    assert_eq!(
        parse_action(&action_node(Node::Null, Node::Null, Node::Null)),
        Err(LoadError::ConditionNotText)
    );
    assert_eq!(
        parse_action(&action_node(Node::Null, text("a b"), Node::Null)),
        Err(LoadError::DirectivesNotList)
    );
    assert_eq!(
        parse_action(&action_node(Node::Null, text("a b"), bad_line)),
        Err(LoadError::InvalidDirective("fly away".to_string(), ParseError::UnknownDirective))
    );
    assert_eq!(
        parse_action(&action_node(Node::Null, text("a b"), Node::List(vec![]))),
        Err(LoadError::TitleNotText)
    );
    assert_eq!(
        parse_action(&action_node(text("t"), text("a b"), Node::List(vec![]))),
        Err(LoadError::InvalidCondition("a b".to_string()))
    );
    assert_eq!(
        parse_action(&action_node(text("t"), text("a"), Node::List(vec![]))),
        Ok(Action { title: "t".to_string(), condition: prop("a"), directives: vec![] })
    );
}

#[test]
fn first_of_repeated_keys_is_taken() {
    let node = Node::Mapping(vec![
        (text("other"), text("x")),
        (Node::Integer(1), text("y")),
        (text("description"), text("first")),
        (text("description"), text("second")),
    ]);
    assert_eq!(
        location_from_node(&node, "x"),
        Ok(Location {
            title: "x".to_string(),
            actions: vec![],
            description: "first".to_string(),
        })
    );
}

#[test]
fn only_the_first_document_is_a_location() {
    assert_eq!(
        parse_location("---\ndescription: one\n---\n- not a mapping\n", "x"),
        Ok(Location { title: "x".to_string(), actions: vec![], description: "one".to_string() })
    );
}

#[test]
fn documents_decide_the_outcome() {
    use_documents(None, Err(LoadError::InvalidYaml));
    use_documents(Some(vec![]), Err(LoadError::NoDocument));
    use_documents(Some(vec![Node::Null]), Err(LoadError::LocationNotMapping));
    use_documents(
        Some(vec![
            Node::Mapping(vec![(text("description"), text("d"))]),
            Node::Null,
        ]),
        Ok(Location { title: "x".to_string(), actions: vec![], description: "d".to_string() }),
    );
}

fn use_documents(documents: Option<Vec<Node>>, expected: Result<Location, LoadError>) {
    assert_eq!(text_adventure::loader::location_from_documents(&documents, "x"), expected);
}
