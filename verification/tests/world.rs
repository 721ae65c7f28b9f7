use text_adventure::error::{LoadError, ParseError, WorldError};
use text_adventure::loader::{find_location, load_locations, SourceFile};
use text_adventure::world::{Action, Condition, Directive, Location, LocationId, PropertyId};

fn file(title: &str, text: &str) -> SourceFile {
    SourceFile { title: title.to_string(), text: text.to_string() }
}

#[test]
fn empty_world_has_no_locations() {
    assert_eq!(load_locations(&vec![]), Ok(vec![]));
}

#[test]
fn locations_come_in_the_order_of_the_files() {
    let files = vec![
        file("hall", "description: A hall.\nactions:\n- go down:\n    '!locked':\n    - goto cellar\n"),
        file("cellar", "description: A cellar.\n"),
    ];
    assert_eq!(
        load_locations(&files),
        Ok(vec![
            Location {
                title: "hall".to_string(),
                actions: vec![Action {
                    title: "go down".to_string(),
                    condition: Condition::Not(Box::new(Condition::IsPropertyTrue(PropertyId(
                        "locked".to_string()
                    )))),
                    directives: vec![Directive::GoTo(LocationId("cellar".to_string()))],
                }],
                description: "A hall.".to_string(),
            },
            Location {
                title: "cellar".to_string(),
                actions: vec![],
                description: "A cellar.".to_string(),
            },
        ])
    );
}

#[test]
fn first_refused_file_ends_the_loading() {
    let files = vec![
        file("hall", "description: A hall.\n"),
        file("attic", "actions: []\n"),
        file("cellar", "description: [\n"),
    ];
    assert_eq!(
        load_locations(&files),
        Err(WorldError { file: 1, error: LoadError::MissingDescription })
    );
}

#[test]
fn refused_directive_names_file_and_line() {
    let files = vec![
        file("hall", "description: A hall.\n"),
        file("cellar", "description: A cellar.\nactions:\n- leave:\n    hasKey:\n    - jump here\n"),
    ];
    assert_eq!(
        load_locations(&files),
        Err(WorldError {
            file: 1,
            error: LoadError::InvalidDirective(
                "jump here".to_string(),
                ParseError::UnknownDirective
            ),
        })
    );
}

#[test]
fn repeated_title_is_refused() {
    let files = vec![
        file("hall", "description: A hall.\n"),
        file("cellar", "description: A cellar.\n"),
        file("hall", "description: Another hall.\n"),
    ];
    assert_eq!(
        load_locations(&files),
        Err(WorldError { file: 2, error: LoadError::DuplicateLocation })
    );
}

#[test]
fn repeated_title_is_refused_before_its_text_is_read() {
    let files = vec![file("hall", "description: A hall.\n"), file("hall", "description: [\n")];
    assert_eq!(
        load_locations(&files),
        Err(WorldError { file: 1, error: LoadError::DuplicateLocation })
    );
}

#[test]
fn location_is_found_by_its_title() {
    let files = vec![
        file("hall", "description: A hall.\n"),
        file("cellar", "description: A cellar.\n"),
    ];
    let locations = load_locations(&files).unwrap();
    assert_eq!(find_location(&locations, "hall"), Some(0));
    assert_eq!(find_location(&locations, "cellar"), Some(1));
    assert_eq!(find_location(&locations, "attic"), None);
    assert_eq!(find_location(&vec![], "hall"), None);
}
