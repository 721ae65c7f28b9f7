//! The live state of a game, and the evaluation of conditions and effects
//! against it.

use vstd::prelude::*;
use vstd::hash_map::StringHashMap;
use crate::world::{
    Action, ActionView, Condition, ConditionView, Directive, DirectiveView, LocationId, PropertyId,
};

verus! {

/// The mutable state of a running game.
pub struct Game {
    pub location: LocationId,
    pub properties: StringHashMap<bool>,
}

/// The value of a [`Game`]: where the player is and what each property that
/// was set holds.
pub struct GameView {
    pub location: Seq<char>,
    pub properties: Map<Seq<char>, bool>,
}

impl View for Game {
    type V = GameView;

    open spec fn view(&self) -> GameView {
        GameView { location: self.location@, properties: self.properties@ }
    }
}

/// The answer to a triggered action whose condition does not hold.
#[derive(Debug, Clone, Copy, PartialEq, Eq)]
pub struct ActionUnavailable;

impl GameView {
    /// The state of a game that starts at `location`: no property is set.
    pub open spec fn start(location: Seq<char>) -> GameView {
        GameView { location, properties: Map::empty() }
    }

    /// Whether `condition` holds in this state. A property that was never set
    /// counts as false.
    pub open spec fn satisfies(self, condition: ConditionView) -> bool
        decreases condition,
    {
        match condition {
            ConditionView::IsPropertyTrue(id) => self.properties.contains_key(id)
                && self.properties[id],
            ConditionView::Not(a) => !self.satisfies(*a),
            ConditionView::And(a, b) => self.satisfies(*a) && self.satisfies(*b),
            ConditionView::Or(a, b) => self.satisfies(*a) || self.satisfies(*b),
        }
    }

    /// The places in `actions` of those whose condition holds in this state,
    /// in their order.
    pub open spec fn available(self, actions: Seq<ActionView>) -> Seq<usize>
        decreases actions.len(),
    {
        if actions.len() == 0 {
            Seq::empty()
        } else if self.satisfies(actions.last().condition) {
            self.available(actions.drop_last()).push((actions.len() - 1) as usize)
        } else {
            self.available(actions.drop_last())
        }
    }

    /// The state after `directive` took effect.
    pub open spec fn after(self, directive: DirectiveView) -> GameView {
        match directive {
            DirectiveView::SetProperty(id, value) => GameView {
                location: self.location,
                properties: self.properties.insert(id, value),
            },
            DirectiveView::GoTo(location) => GameView { location, properties: self.properties },
        }
    }

    /// The state after each of `directives` took effect, the first one first.
    pub open spec fn after_all(self, directives: Seq<DirectiveView>) -> GameView
        decreases directives.len(),
    {
        if directives.len() == 0 {
            self
        } else {
            self.after_all(directives.drop_last()).after(directives.last())
        }
    }
}

impl Game {
    /// A game that starts at `location` with no property set.
    pub fn new(location: LocationId) -> (game: Game)
        ensures
            game@ == GameView::start(location@),
    {
        Game { location, properties: StringHashMap::new() }
    }

    /// Whether `cond` holds in this state.
    pub fn check(&self, cond: &Condition) -> (result: bool)
        ensures
            result == self@.satisfies(cond@),
        decreases cond,
    {
        match cond {
            Condition::IsPropertyTrue(PropertyId(property_id)) => {
                match self.properties.get(property_id.as_str()) {
                    Some(value) => *value,
                    None => false,
                }
            },
            Condition::Not(b) => !self.check(b),
            Condition::Or(b1, b2) => self.check(b1) || self.check(b2),
            Condition::And(b1, b2) => self.check(b1) && self.check(b2),
        }
    }

    /// Whether `cond` holds in this state; takes the condition by value.
    pub fn evaluate(&self, cond: Condition) -> (result: bool)
        ensures
            result == self@.satisfies(cond@),
    {
        self.check(&cond)
    }

    /// Lets `directive` take effect on this state.
    pub fn update(&mut self, directive: Directive)
        ensures
            final(self)@ == old(self)@.after(directive@),
    {
        match directive {
            Directive::GoTo(new_location) => {
                self.location = new_location;
            },
            Directive::SetProperty(PropertyId(property_id), value) => {
                self.properties.insert(property_id, value);
            },
        }
    }

    /// Lets `directive` take effect on this state and leaves the directive to
    /// its owner.
    pub fn apply(&mut self, directive: &Directive)
        ensures
            final(self)@ == old(self)@.after(directive@),
    {
        match directive {
            Directive::GoTo(new_location) => {
                self.location = LocationId(new_location.0.clone());
            },
            Directive::SetProperty(PropertyId(property_id), value) => {
                self.properties.insert(property_id.clone(), *value);
            },
        }
    }

    /// The places in `actions` of those whose condition holds in this state,
    /// in their order.
    pub fn available_actions(&self, actions: &Vec<Action>) -> (places: Vec<usize>)
        ensures
            places@ == self@.available(actions@.map_values(|a: Action| a@)),
    {
        let ghost views = actions@.map_values(|a: Action| a@);
        let mut places: Vec<usize> = Vec::new();
        let mut i: usize = 0;
        while i < actions.len()
            invariant
                i <= actions.len(),
                views == actions@.map_values(|a: Action| a@),
                places@ == self@.available(views.take(i as int)),
            decreases actions.len() - i,
        {
            proof {
                assert(views.take(i + 1).drop_last() == views.take(i as int));
            }
            if self.check(&actions[i].condition) {
                places.push(i);
            }
            i += 1;
        }
        proof {
            assert(views.take(i as int) == views);
        }
        places
    }

    /// Triggers `action`: where its condition holds, its directives take
    /// effect in their order; where it does not, the state stays as it was.
    pub fn trigger_action(&mut self, action: &Action) -> (result: Result<(), ActionUnavailable>)
        ensures
            old(self)@.satisfies(action@.condition) ==> result is Ok && final(self)@ == old(
                self,
            )@.after_all(action@.directives),
            !old(self)@.satisfies(action@.condition) ==> result is Err && *final(self) == *old(
                self,
            ),
    {
        if !self.check(&action.condition) {
            return Err(ActionUnavailable);
        }
        let ghost directives = action@.directives;
        let mut i: usize = 0;
        while i < action.directives.len()
            invariant
                i <= action.directives.len(),
                directives == action@.directives,
                self@ == old(self)@.after_all(directives.take(i as int)),
            decreases action.directives.len() - i,
        {
            self.apply(&action.directives[i]);
            proof {
                assert(directives.take(i + 1).drop_last() == directives.take(i as int));
            }
            i += 1;
        }
        proof {
            assert(directives.take(i as int) == directives);
        }
        Ok(())
    }
}

/// An action is listed as available where its condition holds, and only
/// there.
pub proof fn available_where_satisfied(game: GameView, actions: Seq<ActionView>, place: usize)
    requires
        actions.len() <= usize::MAX,
    ensures
        game.available(actions).contains(place) <==> place < actions.len() && game.satisfies(
            actions[place as int].condition,
        ),
    decreases actions.len(),
{
    if actions.len() > 0 {
        let earlier = actions.drop_last();
        let last = (actions.len() - 1) as usize;
        available_where_satisfied(game, earlier, place);
        if place < last {
            assert(earlier[place as int] == actions[place as int]);
        }
        if game.satisfies(actions.last().condition) {
            let listed = game.available(earlier);
            assert(listed.push(last)[listed.len() as int] == last);
            assert forall|i: int| 0 <= i < listed.len() implies listed.push(last)[i]
                == listed[i] by {}
            if listed.push(last).contains(place) && place != last {
                let i = choose|i: int| 0 <= i < listed.push(last).len() && listed.push(last)[i]
                    == place;
                assert(listed[i] == place);
            }
            if listed.contains(place) {
                let i = choose|i: int| 0 <= i < listed.len() && listed[i] == place;
                assert(listed.push(last)[i] == place);
            }
        }
    }
}

/// A property that is not set is false.
pub proof fn unset_property_is_false(game: GameView, property: Seq<char>)
    requires
        !game.properties.contains_key(property),
    ensures
        !game.satisfies(ConditionView::IsPropertyTrue(property)),
{
}

/// Directives that do not set a property leave it unset.
pub proof fn unset_property_stays_unset(
    game: GameView,
    directives: Seq<DirectiveView>,
    property: Seq<char>,
)
    requires
        !game.properties.contains_key(property),
        forall|i: int, value: bool|
            0 <= i < directives.len() ==> directives[i] != DirectiveView::SetProperty(
                property,
                value,
            ),
    ensures
        !game.after_all(directives).properties.contains_key(property),
        !game.after_all(directives).satisfies(ConditionView::IsPropertyTrue(property)),
    decreases directives.len(),
{
    if directives.len() > 0 {
        unset_property_stays_unset(game, directives.drop_last(), property);
        let last = directives.last();
        match last {
            DirectiveView::SetProperty(id, value) => {
                assert(directives[directives.len() - 1] != DirectiveView::SetProperty(
                    property,
                    value,
                ));
            },
            DirectiveView::GoTo(_) => {},
        }
    }
}

/// Negating a condition twice gives the condition's own value.
pub proof fn double_negation(game: GameView, condition: ConditionView)
    ensures
        game.satisfies(ConditionView::Not(Box::new(ConditionView::Not(Box::new(condition)))))
            == game.satisfies(condition),
{
    let inner = ConditionView::Not(Box::new(condition));
    assert(game.satisfies(ConditionView::Not(Box::new(inner))) == !game.satisfies(inner));
    assert(game.satisfies(inner) == !game.satisfies(condition));
}

/// A conjunction holds where both parts hold.
pub proof fn conjunction(game: GameView, left: ConditionView, right: ConditionView)
    ensures
        game.satisfies(ConditionView::And(Box::new(left), Box::new(right))) == (game.satisfies(
            left,
        ) && game.satisfies(right)),
{
}

/// A disjunction holds where one part holds.
pub proof fn disjunction(game: GameView, left: ConditionView, right: ConditionView)
    ensures
        game.satisfies(ConditionView::Or(Box::new(left), Box::new(right))) == (game.satisfies(
            left,
        ) || game.satisfies(right)),
{
}

/// Setting a property twice to one value is setting it once.
pub proof fn set_property_idempotent(game: GameView, property: Seq<char>, value: bool)
    ensures
        game.after(DirectiveView::SetProperty(property, value)).after(
            DirectiveView::SetProperty(property, value),
        ) == game.after(DirectiveView::SetProperty(property, value)),
{
    let once = game.after(DirectiveView::SetProperty(property, value));
    let twice = once.after(DirectiveView::SetProperty(property, value));
    assert(twice.properties =~= once.properties);
}

/// After a property was set, a condition on it has the value it was set to.
pub proof fn set_property_is_read(game: GameView, property: Seq<char>, value: bool)
    ensures
        game.after(DirectiveView::SetProperty(property, value)).satisfies(
            ConditionView::IsPropertyTrue(property),
        ) == value,
{
}

/// Going to a location puts the player there, wherever they were.
pub proof fn goto_sets_location(game: GameView, location: Seq<char>)
    ensures
        game.after(DirectiveView::GoTo(location)).location == location,
        game.after(DirectiveView::GoTo(location)).properties == game.properties,
{
}

} // verus!
