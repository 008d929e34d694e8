//! Battle simulation core of a tower-defense game.
//!
//! The library holds the rules of battle and nothing of the engine that runs
//! them. A rule is a function from plain values to plain values: whoever
//! drives the simulation collects what a rule needs, calls it, and keeps what
//! comes of it. Every rule is deterministic, and none fails but the search
//! for a path, which says so.
//!
//! One tick of the simulation applies the rules in this order:
//!
//! 1. [`stats::propagate_stat`] computes the stats from bases and modifiers.
//! 2. [`tile_map::nav::compute_navigation`] plans paths, and
//!    [`tile_map::nav::navigation_steering`] moves entities along them.
//! 3. [`battle::targeting::priority::sort_targets`] rebuilds the threat index.
//! 4. [`battle::blocking::start_blocking`] engages blockers.
//! 5. For each actor, [`battle::targeting::clear_targets`],
//!    [`battle::targeting::priority_blocked_targets`],
//!    [`battle::targeting::priority_blocker_target`] and
//!    [`battle::targeting::search_targets`] find its targets.
//! 6. [`battle::auto_attack::tick_attack_cycle_timers`] lets the attack cycles
//!    run and [`battle::auto_attack::do_melee_auto_attack`] sends the damage of
//!    the hits.
//! 7. [`battle::damage::accumulate_damage`] takes the damage off the health of
//!    those hit, and [`battle::damage::send_death_event`] notices the dead.
//! 8. [`battle::blocking::disengage_dead_blockers`] lets go of what the dead
//!    held, and [`battle::damage::despawn_on_death`] counts down to their
//!    removal.
//!
//! Every quantity that is a real number in the game's rules is held here as a
//! fixed-point integer; see [`fixed`] for the scales in use.

use vstd::prelude::*;

pub mod battle;
pub mod fixed;
pub mod stats;
pub mod status;
pub mod tile_map;
pub mod timer;

verus! {

/// Identifies an entity of the simulation.
///
/// The wrapped bits order entities: targeting breaks ties between equally
/// hated entities by comparing them.
#[derive(Clone, Copy, Debug, PartialEq, Eq, Structural, Hash)]
pub struct Entity(pub u64);

/// The state of the game as a whole.
#[derive(Clone, Copy, Debug, PartialEq, Eq, Structural, Hash)]
pub enum AppState {
    Splash,
    StageLoading,
    InGame,
}

/// Says that `entity` is a child of `parent`.
#[derive(Clone, Copy, Debug, PartialEq, Eq, Structural, Hash)]
pub struct ChildOf {
    pub entity: Entity,
    pub parent: Entity,
}

/// The parent of `entity`: that of the first row about it, if there is one.
pub open spec fn parent_of(parents: Seq<ChildOf>, entity: Entity) -> Option<Entity>
    decreases parents.len(),
{
    if parents.len() == 0 {
        None
    } else if parents[0].entity == entity {
        Some(parents[0].parent)
    } else {
        parent_of(parents.drop_first(), entity)
    }
}

/// The first of `entity`, its parent, the parent of its parent and so on, no
/// more than `steps` steps up, that is among `holders`.
pub open spec fn nearest_holder(
    parents: Seq<ChildOf>,
    holders: Seq<Entity>,
    entity: Entity,
    steps: nat,
) -> Option<Entity>
    decreases steps,
{
    if holders.contains(entity) {
        Some(entity)
    } else if steps == 0 {
        None
    } else {
        match parent_of(parents, entity) {
            Some(parent) => nearest_holder(parents, holders, parent, (steps - 1) as nat),
            None => None,
        }
    }
}

fn find_parent_of(parents: &Vec<ChildOf>, entity: Entity) -> (parent: Option<Entity>)
    ensures
        parent == parent_of(parents@, entity),
{
    let mut i: usize = 0;
    assert(parents@.skip(0) == parents@);
    while i < parents.len()
        invariant
            i <= parents.len(),
            parent_of(parents@, entity) == parent_of(parents@.skip(i as int), entity),
        decreases parents.len() - i,
    {
        assert(parents@.skip(i as int)[0] == parents@[i as int]);
        if parents[i].entity == entity {
            return Some(parents[i].parent);
        }
        assert(parents@.skip(i as int).drop_first() == parents@.skip(i as int + 1));
        i += 1;
    }
    assert(parents@.skip(i as int).len() == 0);
    None
}

fn is_among(holders: &Vec<Entity>, entity: Entity) -> (among: bool)
    ensures
        among == holders@.contains(entity),
{
    let mut i: usize = 0;
    while i < holders.len()
        invariant
            i <= holders.len(),
            forall|j: int| 0 <= j < i ==> holders@[j] != entity,
        decreases holders.len() - i,
    {
        if holders[i] == entity {
            return true;
        }
        i += 1;
    }
    false
}

/// Finds the nearest entity that has what is looked for: `entity` itself, or
/// else the nearest one above it.
///
/// `parents` tells which entity is above which, and `holders` lists the
/// entities that have what is looked for. The search goes up no more steps
/// than `parents` has rows, which is as far as any line of parents goes.
pub fn find_parent(entity: Entity, parents: &Vec<ChildOf>, holders: &Vec<Entity>) -> (found: Option<
    Entity,
>)
    ensures
        found == nearest_holder(parents@, holders@, entity, parents@.len()),
{
    let mut current = entity;
    let mut left: usize = parents.len();
    loop
        invariant
            left <= parents.len(),
            nearest_holder(parents@, holders@, entity, parents@.len()) == nearest_holder(
                parents@,
                holders@,
                current,
                left as nat,
            ),
        decreases left,
    {
        if is_among(holders, current) {
            return Some(current);
        }
        if left == 0 {
            return None;
        }
        match find_parent_of(parents, current) {
            Some(parent) => {
                current = parent;
                left -= 1;
            },
            None => {
                return None;
            },
        }
    }
}

} // verus!
