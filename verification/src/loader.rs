//! The loader: from the YAML document of a location to a
//! [`Location`](crate::world::Location).
//!
//! A location document is a mapping with the key `description`, a string, and
//! optionally the key `actions`, a sequence. Each action is a mapping of one
//! pair, from the action's title to its details; the details are a mapping of
//! one pair, from the text of the condition to the sequence of directive
//! lines.

use vstd::prelude::*;
use crate::chars::same_text;
use crate::condition::{condition_of, parse_condition};
use crate::directive::{directive_of, parse_directive};
use crate::error::{LoadError, WorldError};
use crate::world::{Action, ActionView, Directive, DirectiveView, Location, LocationView};
use crate::yaml::{load_documents, yaml_documents, Node};

verus! {

/// The directive that `node` is, or why it is none.
pub open spec fn directive_of_node(node: Node) -> Result<DirectiveView, LoadError> {
    match node {
        Node::Text(line) => match directive_of(line@) {
            Ok(directive) => Ok(directive),
            Err(reason) => Err(LoadError::InvalidDirective(line, reason)),
        },
        _ => Err(LoadError::DirectiveNotText),
    }
}

/// The directives that `nodes` are, or the error of the first node that is no
/// directive.
pub open spec fn directives_of(nodes: Seq<Node>) -> Result<Seq<DirectiveView>, LoadError>
    decreases nodes.len(),
{
    if nodes.len() == 0 {
        Ok(Seq::empty())
    } else {
        match directives_of(nodes.drop_last()) {
            Err(error) => Err(error),
            Ok(directives) => match directive_of_node(nodes.last()) {
                Err(error) => Err(error),
                Ok(directive) => Ok(directives.push(directive)),
            },
        }
    }
}

/// The pair that `node` holds if it is a mapping of exactly one pair; else
/// `not_mapping` where it is no mapping and `not_single` where it holds no
/// pair or several.
pub open spec fn single_pair(node: Node, not_mapping: LoadError, not_single: LoadError) -> Result<
    (Node, Node),
    LoadError,
> {
    match node {
        Node::Mapping(pairs) => if pairs@.len() == 1 {
            Ok(pairs@[0])
        } else {
            Err(not_single)
        },
        _ => Err(not_mapping),
    }
}

/// The action with the title `title`, the condition `condition` and the
/// directives `lines`, or what is wrong with the first of them that is
/// wrong: the condition's shape, the directives, the title, the condition's
/// text, in this order.
pub open spec fn rule_of(title: Node, condition: Node, lines: Node) -> Result<
    ActionView,
    LoadError,
> {
    match condition {
        Node::Text(text) => match lines {
            Node::List(items) => match directives_of(items@) {
                Err(error) => Err(error),
                Ok(directives) => match title {
                    Node::Text(name) => match condition_of(text@) {
                        Some(parsed) => Ok(
                            ActionView { title: name@, condition: parsed, directives },
                        ),
                        None => Err(LoadError::InvalidCondition(text)),
                    },
                    _ => Err(LoadError::TitleNotText),
                },
            },
            _ => Err(LoadError::DirectivesNotList),
        },
        _ => Err(LoadError::ConditionNotText),
    }
}

/// The action that `node` is, or why it is none.
pub open spec fn action_of(node: Node) -> Result<ActionView, LoadError> {
    match single_pair(node, LoadError::ActionNotMapping, LoadError::ActionNotSinglePair) {
        Err(error) => Err(error),
        Ok((title, details)) => match single_pair(
            details,
            LoadError::DetailsNotMapping,
            LoadError::DetailsNotSinglePair,
        ) {
            Err(error) => Err(error),
            Ok((condition, lines)) => rule_of(title, condition, lines),
        },
    }
}

/// The actions that `nodes` are, or the error of the first node that is no
/// action.
pub open spec fn actions_of(nodes: Seq<Node>) -> Result<Seq<ActionView>, LoadError>
    decreases nodes.len(),
{
    if nodes.len() == 0 {
        Ok(Seq::empty())
    } else {
        match actions_of(nodes.drop_last()) {
            Err(error) => Err(error),
            Ok(actions) => match action_of(nodes.last()) {
                Err(error) => Err(error),
                Ok(action) => Ok(actions.push(action)),
            },
        }
    }
}

/// Whether `node` is the string `key`.
pub open spec fn is_key(node: Node, key: Seq<char>) -> bool {
    match node {
        Node::Text(text) => text@ == key,
        _ => false,
    }
}

/// The value of the first pair at or behind `from` whose key is the string
/// `key`.
pub open spec fn value_from(pairs: Seq<(Node, Node)>, key: Seq<char>, from: int) -> Option<Node>
    decreases pairs.len() - from,
{
    if from < 0 || from >= pairs.len() {
        None
    } else if is_key(pairs[from].0, key) {
        Some(pairs[from].1)
    } else {
        value_from(pairs, key, from + 1)
    }
}

/// The value that `pairs` gives to the string `key`.
pub open spec fn value_of(pairs: Seq<(Node, Node)>, key: Seq<char>) -> Option<Node> {
    value_from(pairs, key, 0)
}

/// The location with the title `title` that the document `node` describes, or
/// why it describes none.
pub open spec fn location_of(node: Node, title: Seq<char>) -> Result<LocationView, LoadError> {
    match node {
        Node::Mapping(pairs) => match value_of(pairs@, "description"@) {
            None => Err(LoadError::MissingDescription),
            Some(Node::Text(description)) => match value_of(pairs@, "actions"@) {
                None => Ok(
                    LocationView { title, actions: Seq::empty(), description: description@ },
                ),
                Some(Node::List(items)) => match actions_of(items@) {
                    Err(error) => Err(error),
                    Ok(actions) => Ok(LocationView { title, actions, description: description@ }),
                },
                Some(_) => Err(LoadError::ActionsNotList),
            },
            Some(_) => Err(LoadError::DescriptionNotText),
        },
        _ => Err(LoadError::LocationNotMapping),
    }
}

/// The location with the title `title` that the first of `documents`
/// describes, or why there is none; `documents` is `None` where the text was
/// no YAML.
pub open spec fn location_of_documents(documents: Option<Seq<Node>>, title: Seq<char>) -> Result<
    LocationView,
    LoadError,
> {
    match documents {
        None => Err(LoadError::InvalidYaml),
        Some(nodes) => if nodes.len() == 0 {
            Err(LoadError::NoDocument)
        } else {
            location_of(nodes[0], title)
        },
    }
}

/// Whether `result` is `expected`, a success by its value.
pub open spec fn agrees<T: View>(result: Result<T, LoadError>, expected: Result<T::V, LoadError>) -> bool {
    match result {
        Ok(value) => expected == Ok::<T::V, LoadError>(value@),
        Err(error) => expected == Err::<T::V, LoadError>(error),
    }
}

/// The directive that `node` is.
fn parse_directive_node(node: &Node) -> (result: Result<Directive, LoadError>)
    ensures
        agrees(result, directive_of_node(*node)),
{
    match node {
        Node::Text(line) => match parse_directive(line.as_str()) {
            Ok(directive) => Ok(directive),
            Err(reason) => Err(LoadError::InvalidDirective(line.clone(), reason)),
        },
        _ => Err(LoadError::DirectiveNotText),
    }
}

/// The directives that `nodes` are.
fn parse_directives(nodes: &Vec<Node>) -> (result: Result<Vec<Directive>, LoadError>)
    ensures
        match result {
            Ok(directives) => directives_of(nodes@) == Ok::<Seq<DirectiveView>, LoadError>(
                directives@.map_values(|d: Directive| d@),
            ),
            Err(error) => directives_of(nodes@) == Err::<Seq<DirectiveView>, LoadError>(error),
        },
{
    let mut directives: Vec<Directive> = Vec::new();
    let mut i: usize = 0;
    proof {
        assert(directives@.map_values(|d: Directive| d@) == Seq::<DirectiveView>::empty());
    }
    while i < nodes.len()
        invariant
            i <= nodes.len(),
            directives_of(nodes@.take(i as int)) == Ok::<Seq<DirectiveView>, LoadError>(
                directives@.map_values(|d: Directive| d@),
            ),
        decreases nodes.len() - i,
    {
        proof {
            assert(nodes@.take(i + 1).drop_last() == nodes@.take(i as int));
        }
        match parse_directive_node(&nodes[i]) {
            Ok(directive) => {
                proof {
                    assert(directives@.push(directive).map_values(|d: Directive| d@)
                        == directives@.map_values(|d: Directive| d@).push(directive@));
                }
                directives.push(directive);
            },
            Err(error) => {
                proof {
                    first_directive_error(nodes@, i + 1);
                }
                return Err(error);
            },
        }
        i += 1;
    }
    proof {
        assert(nodes@.take(i as int) == nodes@);
    }
    Ok(directives)
}

/// An error among the first `n` nodes is the error of the whole list.
proof fn first_directive_error(nodes: Seq<Node>, n: int)
    requires
        0 <= n <= nodes.len(),
        directives_of(nodes.take(n)) is Err,
    ensures
        directives_of(nodes) == directives_of(nodes.take(n)),
    decreases nodes.len() - n,
{
    if n < nodes.len() {
        assert(nodes.take(n + 1).drop_last() == nodes.take(n));
        first_directive_error(nodes, n + 1);
    } else {
        assert(nodes.take(n) == nodes);
    }
}

/// An error among the first `n` nodes is the error of the whole list.
proof fn first_action_error(nodes: Seq<Node>, n: int)
    requires
        0 <= n <= nodes.len(),
        actions_of(nodes.take(n)) is Err,
    ensures
        actions_of(nodes) == actions_of(nodes.take(n)),
    decreases nodes.len() - n,
{
    if n < nodes.len() {
        assert(nodes.take(n + 1).drop_last() == nodes.take(n));
        first_action_error(nodes, n + 1);
    } else {
        assert(nodes.take(n) == nodes);
    }
}

/// The action that the document node `node` describes.
pub fn parse_action(node: &Node) -> (result: Result<Action, LoadError>)
    ensures
        agrees(result, action_of(*node)),
{
    let (title, details) = match node {
        Node::Mapping(pairs) => {
            if pairs.len() != 1 {
                return Err(LoadError::ActionNotSinglePair);
            }
            (&pairs[0].0, &pairs[0].1)
        },
        _ => {
            return Err(LoadError::ActionNotMapping);
        },
    };
    let (condition, lines) = match details {
        Node::Mapping(pairs) => {
            if pairs.len() != 1 {
                return Err(LoadError::DetailsNotSinglePair);
            }
            (&pairs[0].0, &pairs[0].1)
        },
        _ => {
            return Err(LoadError::DetailsNotMapping);
        },
    };
    let text = match condition {
        Node::Text(text) => text,
        _ => {
            return Err(LoadError::ConditionNotText);
        },
    };
    let directives = match lines {
        Node::List(items) => match parse_directives(items) {
            Ok(directives) => directives,
            Err(error) => {
                return Err(error);
            },
        },
        _ => {
            return Err(LoadError::DirectivesNotList);
        },
    };
    let name = match title {
        Node::Text(name) => name,
        _ => {
            return Err(LoadError::TitleNotText);
        },
    };
    match parse_condition(text.as_str()) {
        Ok(parsed) => Ok(Action { title: name.clone(), condition: parsed, directives }),
        Err(_) => Err(LoadError::InvalidCondition(text.clone())),
    }
}

/// The actions that `nodes` describe.
fn parse_actions(nodes: &Vec<Node>) -> (result: Result<Vec<Action>, LoadError>)
    ensures
        match result {
            Ok(actions) => actions_of(nodes@) == Ok::<Seq<ActionView>, LoadError>(
                actions@.map_values(|a: Action| a@),
            ),
            Err(error) => actions_of(nodes@) == Err::<Seq<ActionView>, LoadError>(error),
        },
{
    let mut actions: Vec<Action> = Vec::new();
    let mut i: usize = 0;
    proof {
        assert(actions@.map_values(|a: Action| a@) == Seq::<ActionView>::empty());
    }
    while i < nodes.len()
        invariant
            i <= nodes.len(),
            actions_of(nodes@.take(i as int)) == Ok::<Seq<ActionView>, LoadError>(
                actions@.map_values(|a: Action| a@),
            ),
        decreases nodes.len() - i,
    {
        proof {
            assert(nodes@.take(i + 1).drop_last() == nodes@.take(i as int));
        }
        match parse_action(&nodes[i]) {
            Ok(action) => {
                proof {
                    assert(actions@.push(action).map_values(|a: Action| a@)
                        == actions@.map_values(|a: Action| a@).push(action@));
                }
                actions.push(action);
            },
            Err(error) => {
                proof {
                    first_action_error(nodes@, i + 1);
                }
                return Err(error);
            },
        }
        i += 1;
    }
    proof {
        assert(nodes@.take(i as int) == nodes@);
    }
    Ok(actions)
}

/// Looks up the value that `pairs` gives to the string `key`.
fn find_value<'a>(pairs: &'a Vec<(Node, Node)>, key: &str) -> (result: Option<&'a Node>)
    ensures
        match result {
            Some(node) => value_of(pairs@, key@) == Some(*node),
            None => value_of(pairs@, key@) is None,
        },
{
    let mut i: usize = 0;
    while i < pairs.len()
        invariant
            i <= pairs.len(),
            value_of(pairs@, key@) == value_from(pairs@, key@, i as int),
        decreases pairs.len() - i,
    {
        match &pairs[i].0 {
            Node::Text(text) => {
                if same_text(text.as_str(), key) {
                    return Some(&pairs[i].1);
                }
            },
            _ => {},
        }
        i += 1;
    }
    None
}

/// The location with the title `title` that the document `node` describes.
pub fn location_from_node(node: &Node, title: &str) -> (result: Result<Location, LoadError>)
    ensures
        agrees(result, location_of(*node, title@)),
{
    let pairs = match node {
        Node::Mapping(pairs) => pairs,
        _ => {
            return Err(LoadError::LocationNotMapping);
        },
    };
    let description = match find_value(pairs, "description") {
        None => {
            return Err(LoadError::MissingDescription);
        },
        Some(Node::Text(description)) => description,
        Some(_) => {
            return Err(LoadError::DescriptionNotText);
        },
    };
    let actions = match find_value(pairs, "actions") {
        None => Vec::new(),
        Some(Node::List(items)) => match parse_actions(items) {
            Ok(actions) => actions,
            Err(error) => {
                return Err(error);
            },
        },
        Some(_) => {
            return Err(LoadError::ActionsNotList);
        },
    };
    proof {
        if value_of(pairs@, "actions"@) is None {
            assert(actions@.map_values(|a: Action| a@) == Seq::<ActionView>::empty());
        }
    }
    Ok(Location { title: title.to_owned(), actions, description: description.clone() })
}

/// The location with the title `title` that the first of `documents`
/// describes; `documents` is `None` where the text was no YAML.
pub fn location_from_documents(documents: &Option<Vec<Node>>, title: &str) -> (result: Result<
    Location,
    LoadError,
>)
    ensures
        agrees(
            result,
            location_of_documents(
                match documents {
                    Some(nodes) => Some(nodes@),
                    None => None,
                },
                title@,
            ),
        ),
{
    match documents {
        None => Err(LoadError::InvalidYaml),
        Some(nodes) => {
            if nodes.len() == 0 {
                Err(LoadError::NoDocument)
            } else {
                location_from_node(&nodes[0], title)
            }
        },
    }
}

/// Reads the YAML text `source` as the document of the location `title`.
pub fn parse_location(source: &str, title: &str) -> (result: Result<Location, LoadError>)
    ensures
        agrees(result, location_of_documents(yaml_documents(source@), title@)),
{
    let documents = load_documents(source);
    location_from_documents(&documents, title)
}

/// One file of a world: the title of its location, which is the base name
/// of the file, and the YAML text that it holds.
#[derive(Debug, Clone, PartialEq, Eq)]
pub struct SourceFile {
    pub title: String,
    pub text: String,
}

/// Whether one of `locations` has the title `title`.
pub open spec fn has_title(locations: Seq<LocationView>, title: Seq<char>) -> bool {
    exists|i: int| 0 <= i < locations.len() && (#[trigger] locations[i]).title == title
}

/// Whether no two of `locations` have one title.
pub open spec fn distinct_titles(locations: Seq<LocationView>) -> bool {
    forall|i: int, j: int|
        0 <= i < j < locations.len() ==> (#[trigger] locations[i]).title != (
        #[trigger] locations[j]).title
}

/// The locations that `files` describe, in the order of the files, or the
/// first file that is refused and why: its title is that of an earlier file,
/// or its text describes no location.
pub open spec fn world_of(files: Seq<SourceFile>) -> Result<Seq<LocationView>, WorldError>
    decreases files.len(),
{
    if files.len() == 0 {
        Ok(Seq::empty())
    } else {
        let file = files.last();
        let place = (files.len() - 1) as usize;
        match world_of(files.drop_last()) {
            Err(error) => Err(error),
            Ok(locations) => if has_title(locations, file.title@) {
                Err(WorldError { file: place, error: LoadError::DuplicateLocation })
            } else {
                match location_of_documents(yaml_documents(file.text@), file.title@) {
                    Err(error) => Err(WorldError { file: place, error }),
                    Ok(location) => Ok(locations.push(location)),
                }
            },
        }
    }
}

/// A file that is refused among the first `n` is the one that the whole list
/// is refused for.
proof fn first_world_error(files: Seq<SourceFile>, n: int)
    requires
        0 <= n <= files.len(),
        world_of(files.take(n)) is Err,
    ensures
        world_of(files) == world_of(files.take(n)),
    decreases files.len() - n,
{
    if n < files.len() {
        assert(files.take(n + 1).drop_last() == files.take(n));
        first_world_error(files, n + 1);
    } else {
        assert(files.take(n) == files);
    }
}

/// The locations of a world that was accepted have titles of their own.
pub proof fn world_has_distinct_titles(files: Seq<SourceFile>)
    requires
        world_of(files) is Ok,
    ensures
        distinct_titles(world_of(files)->Ok_0),
        world_of(files)->Ok_0.len() == files.len(),
        forall|i: int|
            0 <= i < files.len() ==> (#[trigger] world_of(files)->Ok_0[i]).title == files[i].title@,
    decreases files.len(),
{
    if files.len() > 0 {
        world_has_distinct_titles(files.drop_last());
        let earlier = world_of(files.drop_last())->Ok_0;
        let file = files.last();
        let location = location_of_documents(yaml_documents(file.text@), file.title@)->Ok_0;
        location_has_title(yaml_documents(file.text@), file.title@);
        assert(world_of(files)->Ok_0 == earlier.push(location));
        assert forall|i: int, j: int| 0 <= i < j < files.len() implies (
        #[trigger] earlier.push(location)[i]).title != (#[trigger] earlier.push(
            location,
        )[j]).title by {
            if j == files.len() - 1 {
                assert(earlier[i].title != file.title@);
            }
        }
        assert forall|i: int| 0 <= i < files.len() implies (#[trigger] earlier.push(
            location,
        )[i]).title == files[i].title@ by {
            if i < files.len() - 1 {
                assert(files.drop_last()[i] == files[i]);
            }
        }
    }
}

/// A location has the title that it was loaded under.
pub proof fn location_has_title(documents: Option<Seq<Node>>, title: Seq<char>)
    requires
        location_of_documents(documents, title) is Ok,
    ensures
        location_of_documents(documents, title)->Ok_0.title == title,
{
}

/// The place in `locations` of the first one with the title `title`.
pub fn find_location(locations: &Vec<Location>, title: &str) -> (result: Option<usize>)
    ensures
        match result {
            Some(place) => place < locations.len() && locations[place as int].title@ == title@
                && forall|j: int| 0 <= j < place ==> (#[trigger] locations[j]).title@ != title@,
            None => forall|j: int|
                0 <= j < locations.len() ==> (#[trigger] locations[j]).title@ != title@,
        },
        result is Some == has_title(locations@.map_values(|l: Location| l@), title@),
{
    let ghost views = locations@.map_values(|l: Location| l@);
    let mut i: usize = 0;
    while i < locations.len()
        invariant
            i <= locations.len(),
            views == locations@.map_values(|l: Location| l@),
            forall|j: int| 0 <= j < i ==> (#[trigger] locations[j]).title@ != title@,
        decreases locations.len() - i,
    {
        if same_text(locations[i].title.as_str(), title) {
            assert(views[i as int].title == title@);
            return Some(i);
        }
        i += 1;
    }
    assert forall|j: int| 0 <= j < views.len() implies (#[trigger] views[j]).title != title@ by {
        assert(views[j].title == locations[j].title@);
    }
    None
}

/// Loads the world that `files` describe: one location for each file, in the
/// order of the files. The first file that is refused ends the loading.
pub fn load_locations(files: &Vec<SourceFile>) -> (result: Result<Vec<Location>, WorldError>)
    ensures
        match result {
            Ok(locations) => world_of(files@) == Ok::<Seq<LocationView>, WorldError>(
                locations@.map_values(|l: Location| l@),
            ),
            Err(error) => world_of(files@) == Err::<Seq<LocationView>, WorldError>(error),
        },
{
    let mut locations: Vec<Location> = Vec::new();
    let mut i: usize = 0;
    proof {
        assert(locations@.map_values(|l: Location| l@) == Seq::<LocationView>::empty());
    }
    while i < files.len()
        invariant
            i <= files.len(),
            world_of(files@.take(i as int)) == Ok::<Seq<LocationView>, WorldError>(
                locations@.map_values(|l: Location| l@),
            ),
        decreases files.len() - i,
    {
        proof {
            assert(files@.take(i + 1).drop_last() == files@.take(i as int));
        }
        let file = &files[i];
        if find_location(&locations, file.title.as_str()).is_some() {
            proof {
                first_world_error(files@, i + 1);
            }
            return Err(WorldError { file: i, error: LoadError::DuplicateLocation });
        }
        match parse_location(file.text.as_str(), file.title.as_str()) {
            Ok(location) => {
                proof {
                    assert(locations@.push(location).map_values(|l: Location| l@)
                        == locations@.map_values(|l: Location| l@).push(location@));
                }
                locations.push(location);
            },
            Err(error) => {
                proof {
                    first_world_error(files@, i + 1);
                }
                return Err(WorldError { file: i, error });
            },
        }
        i += 1;
    }
    proof {
        assert(files@.take(i as int) == files@);
    }
    Ok(locations)
}

} // verus!
