//! The data of a world: identifiers, conditions, directives, actions and
//! locations, each with the mathematical value that contracts speak of.

use vstd::prelude::*;

verus! {

/// Numeric identifier of an item.
#[derive(Debug, Clone, PartialEq, Eq)]
pub struct ItemId(pub u32);

/// Name of a boolean world flag.
#[derive(Debug, Clone, PartialEq, Eq)]
pub struct PropertyId(pub String);

/// Value of a world flag.
pub type PropertyValue = bool;

/// Name of a location.
#[derive(Debug, Clone, PartialEq, Eq)]
pub struct LocationId(pub String);

impl View for ItemId {
    type V = nat;

    open spec fn view(&self) -> nat {
        self.0 as nat
    }
}

impl View for PropertyId {
    type V = Seq<char>;

    open spec fn view(&self) -> Seq<char> {
        self.0@
    }
}

impl View for LocationId {
    type V = Seq<char>;

    open spec fn view(&self) -> Seq<char> {
        self.0@
    }
}

/// A boolean expression over named properties.
#[derive(Debug, PartialEq, Eq)]
pub enum Condition {
    And(Box<Condition>, Box<Condition>),
    Or(Box<Condition>, Box<Condition>),
    Not(Box<Condition>),
    IsPropertyTrue(PropertyId),
}

/// The value of a [`Condition`]: the same tree over property names.
pub enum ConditionView {
    And(Box<ConditionView>, Box<ConditionView>),
    Or(Box<ConditionView>, Box<ConditionView>),
    Not(Box<ConditionView>),
    IsPropertyTrue(Seq<char>),
}

impl Condition {
    /// The tree of property names that this condition stands for.
    pub open spec fn tree(self) -> ConditionView
        decreases self,
    {
        match self {
            Condition::And(a, b) => ConditionView::And(Box::new(a.tree()), Box::new(b.tree())),
            Condition::Or(a, b) => ConditionView::Or(Box::new(a.tree()), Box::new(b.tree())),
            Condition::Not(a) => ConditionView::Not(Box::new(a.tree())),
            Condition::IsPropertyTrue(id) => ConditionView::IsPropertyTrue(id@),
        }
    }
}

impl View for Condition {
    type V = ConditionView;

    open spec fn view(&self) -> ConditionView {
        self.tree()
    }
}

/// An effect on the game state.
#[derive(Debug, Clone, PartialEq, Eq)]
pub enum Directive {
    SetProperty(PropertyId, PropertyValue),
    GoTo(LocationId),
}

/// The value of a [`Directive`].
pub enum DirectiveView {
    SetProperty(Seq<char>, bool),
    GoTo(Seq<char>),
}

impl View for Directive {
    type V = DirectiveView;

    open spec fn view(&self) -> DirectiveView {
        match self {
            Directive::SetProperty(id, value) => DirectiveView::SetProperty(id@, *value),
            Directive::GoTo(id) => DirectiveView::GoTo(id@),
        }
    }
}

/// One action that a player may choose: its effects apply when its condition
/// holds.
#[derive(Debug, PartialEq, Eq)]
pub struct Action {
    pub title: String,
    pub condition: Condition,
    pub directives: Vec<Directive>,
}

/// The value of an [`Action`].
pub struct ActionView {
    pub title: Seq<char>,
    pub condition: ConditionView,
    pub directives: Seq<DirectiveView>,
}

impl View for Action {
    type V = ActionView;

    open spec fn view(&self) -> ActionView {
        ActionView {
            title: self.title@,
            condition: self.condition@,
            directives: self.directives@.map_values(|d: Directive| d@),
        }
    }
}

/// One place of the world, with the actions offered there.
#[derive(Debug, PartialEq, Eq)]
pub struct Location {
    pub title: String,
    pub actions: Vec<Action>,
    pub description: String,
}

/// The value of a [`Location`].
pub struct LocationView {
    pub title: Seq<char>,
    pub actions: Seq<ActionView>,
    pub description: Seq<char>,
}

impl View for Location {
    type V = LocationView;

    open spec fn view(&self) -> LocationView {
        LocationView {
            title: self.title@,
            actions: self.actions@.map_values(|a: Action| a@),
            description: self.description@,
        }
    }
}

} // verus!
