//! Components and rules of the battle itself.

use vstd::prelude::*;

pub mod auto_attack;
pub mod blocking;
pub mod damage;
pub mod path;
pub mod skill;
pub mod targeting;

verus! {

/// Whether an entity is hostile or friendly, and so what it may target.
#[derive(Clone, Copy, Debug, PartialEq, Eq, Structural, Hash)]
pub enum Hostility {
    /// Targets hostile, friendly and other neutral entities.
    Neutral,
    /// Targets friendly units.
    Hostile,
    /// Targets hostile units.
    Friendly,
}

impl Hostility {
    /// The rule of enmity: a neutral entity is at odds with everyone, and the
    /// two factions with each other.
    pub open spec fn hostile_to(self, other: Hostility) -> bool {
        self == Hostility::Neutral || other == Hostility::Neutral || self != other
    }

    /// Checks if this entity should be hostile to another.
    pub fn is_hostile_to(&self, other: &Hostility) -> (hostile: bool)
        ensures
            hostile == self.hostile_to(*other),
    {
        match (self, other) {
            (Hostility::Neutral, _) => true,
            (_, Hostility::Neutral) => true,
            (Hostility::Hostile, Hostility::Friendly) => true,
            (Hostility::Friendly, Hostility::Hostile) => true,
            _ => false,
        }
    }
}

impl Default for Hostility {
    fn default() -> (hostility: Hostility)
        ensures
            hostility == Hostility::Neutral,
    {
        Hostility::Neutral
    }
}

/// The hostility of an entity that may have none of its own: neutral then.
pub open spec fn hostility_or_default(hostility: Option<Hostility>) -> Hostility {
    match hostility {
        Some(hostility) => hostility,
        None => Hostility::Neutral,
    }
}

impl From<Option<Hostility>> for Hostility {
    fn from(e: Option<Hostility>) -> (hostility: Hostility) {
        match e {
            Some(hostility) => hostility,
            None => Hostility::Neutral,
        }
    }
}

impl vstd::std_specs::convert::FromSpecImpl<Option<Hostility>> for Hostility {
    open spec fn obeys_from_spec() -> bool {
        true
    }

    open spec fn from_spec(e: Option<Hostility>) -> Hostility {
        hostility_or_default(e)
    }
}

/// A circle on the ground around an entity.
///
/// Decides collisions and whether the entity is in a range.
#[derive(Clone, Copy, Debug, PartialEq, Eq, Structural)]
pub struct BoundingCircle {
    /// In millionths of a tile.
    pub radius: u32,
}

impl BoundingCircle {
    pub fn new(radius: u32) -> (circle: BoundingCircle)
        ensures
            circle.radius == radius,
    {
        BoundingCircle { radius }
    }
}

/// Enmity is mutual: whenever one entity is hostile to another, the other is
/// hostile to it.
pub proof fn lemma_hostility_symmetric(a: Hostility, b: Hostility)
    ensures
        a.hostile_to(b) == b.hostile_to(a),
{
}

} // verus!
