//! The errors of parsing and loading.

use vstd::prelude::*;

verus! {

/// Why a text of the rule language was refused.
#[derive(Debug, Clone, Copy, PartialEq, Eq, Structural)]
pub enum ParseError {
    /// The text is no condition of the grammar.
    InvalidCondition,
    /// The line is empty, or its first word is neither `set` nor `goto`.
    UnknownDirective,
    /// A `set` line names no property.
    MissingProperty,
    /// A `set` line gives no value.
    MissingValue,
    /// The value of a `set` line is neither `true` nor `false`.
    InvalidValue,
    /// A `goto` line names no location.
    MissingLocation,
}

/// Why a location document was refused.
#[derive(Debug, Clone, PartialEq, Eq)]
pub enum LoadError {
    /// The text is no YAML.
    InvalidYaml,
    /// The text holds no YAML document.
    NoDocument,
    /// The document is no mapping.
    LocationNotMapping,
    /// The document has no key `description`.
    MissingDescription,
    /// The description is no string.
    DescriptionNotText,
    /// The value of `actions` is no sequence.
    ActionsNotList,
    /// An action is no mapping.
    ActionNotMapping,
    /// An action does not hold exactly one pair of title and details.
    ActionNotSinglePair,
    /// The details of an action are no mapping.
    DetailsNotMapping,
    /// The details of an action do not hold exactly one pair of condition
    /// and directives.
    DetailsNotSinglePair,
    /// The condition of an action is no string.
    ConditionNotText,
    /// The directives of an action are no sequence.
    DirectivesNotList,
    /// A directive is no string.
    DirectiveNotText,
    /// A directive line was refused: the line, and why.
    InvalidDirective(String, ParseError),
    /// The title of an action is no string.
    TitleNotText,
    /// A condition was refused: its text.
    InvalidCondition(String),
    /// An earlier file of the world has the same title.
    DuplicateLocation,
}

/// Why a world was refused: the place of the offending file in the list of
/// files, and what is wrong with it.
#[derive(Debug, Clone, PartialEq, Eq)]
pub struct WorldError {
    pub file: usize,
    pub error: LoadError,
}

} // verus!
