//! Targeting: which entities an actor may attack.
//!
//! For an entity to be targetable it needs a bounding circle, which decides
//! whether it is in range, and a [`Hatred`], which ranks it among the others.

use vstd::prelude::*;

pub mod priority;

use crate::battle::blocking::{Blockable, Blocker};
use crate::battle::{hostility_or_default, Hostility};
use crate::Entity;
use priority::{entities_of, TargetingTree};

verus! {

/// Targeting information.
#[derive(Clone, Copy, Debug, PartialEq, Eq, Structural)]
pub struct Targeting {
    /// The maximum amount of targets this entity can have.
    pub max_targets: usize,
}

impl Default for Targeting {
    fn default() -> (targeting: Targeting)
        ensures
            targeting.max_targets == 1,
    {
        Targeting { max_targets: 1 }
    }
}

/// The targets of an entity, the most important first.
#[derive(Debug)]
pub struct Targets(Vec<Entity>);

impl View for Targets {
    type V = Seq<Entity>;

    closed spec fn view(&self) -> Seq<Entity> {
        self.0@
    }
}

impl Default for Targets {
    fn default() -> (targets: Targets)
        ensures
            targets@ == Seq::<Entity>::empty(),
    {
        Targets(Vec::new())
    }
}

impl Targets {
    /// The number of targets.
    pub fn len(&self) -> (len: usize)
        ensures
            len == self@.len(),
    {
        self.0.len()
    }

    /// Whether there is no target.
    pub fn is_empty(&self) -> (empty: bool)
        ensures
            empty == (self@.len() == 0),
    {
        self.0.len() == 0
    }

    /// The targets as a slice, the primary target at index 0.
    pub fn as_slice(&self) -> (targets: &[Entity])
        ensures
            targets@ == self@,
    {
        self.0.as_slice()
    }
}

/// Excludes an entity from targeting while it is not visible.
#[derive(Clone, Copy, Debug, PartialEq, Eq, Structural)]
pub struct Stealth {
    pub visible: bool,
}

impl Default for Stealth {
    fn default() -> (stealth: Stealth)
        ensures
            stealth.visible,
    {
        Stealth { visible: true }
    }
}

/// An entity that still exists, with its hostility if it has one.
#[derive(Clone, Copy, Debug, PartialEq, Eq, Structural)]
pub struct Presence {
    pub entity: Entity,
    pub hostility: Option<Hostility>,
    /// Whether the entity is marked dead.
    pub dead: bool,
}

/// An entity that can be targeted, as one actor sees it.
#[derive(Clone, Copy, Debug, PartialEq, Eq, Structural)]
pub struct Candidate {
    pub entity: Entity,
    pub hostility: Option<Hostility>,
    pub stealth: Option<Stealth>,
    /// Whether the bounding circle of the entity meets the range of the
    /// actor.
    pub in_range: bool,
}

/// Forgets the targets of the last tick.
pub fn clear_targets(targets: &mut Targets)
    ensures
        final(targets)@ == Seq::<Entity>::empty(),
{
    targets.0.clear();
}

/// The first row of `others` that is about `entity`, if there is one.
pub open spec fn first_presence(others: Seq<Presence>, entity: Entity) -> Option<Presence>
    decreases others.len(),
{
    if others.len() == 0 {
        None
    } else if others[0].entity == entity {
        Some(others[0])
    } else {
        first_presence(others.drop_first(), entity)
    }
}

/// The first row of `candidates` that is about `entity`, if there is one.
pub open spec fn first_candidate(candidates: Seq<Candidate>, entity: Entity) -> Option<Candidate>
    decreases candidates.len(),
{
    if candidates.len() == 0 {
        None
    } else if candidates[0].entity == entity {
        Some(candidates[0])
    } else {
        first_candidate(candidates.drop_first(), entity)
    }
}

/// The hostility of `entity` according to `others`: `None` where the entity
/// is not among them or is dead, its own or the default where it is alive.
pub open spec fn hostility_of(others: Seq<Presence>, entity: Entity) -> Option<Hostility> {
    match first_presence(others, entity) {
        Some(other) => if other.dead {
            None
        } else {
            Some(hostility_or_default(other.hostility))
        },
        None => None,
    }
}

/// Whether an actor of the given hostility may attack `entity`: the entity
/// still exists, is alive, and the two are hostile to each other.
pub open spec fn is_opponent(hostility: Hostility, others: Seq<Presence>, entity: Entity) -> bool {
    match first_presence(others, entity) {
        Some(other) => !other.dead && hostility.hostile_to(hostility_or_default(other.hostility)),
        None => false,
    }
}

/// The test that [`priority_blocked_targets`] and [`priority_blocker_target`]
/// put an entity to.
pub open spec fn opposing(hostility: Hostility, others: Seq<Presence>) -> spec_fn(Entity) -> bool {
    |entity: Entity| is_opponent(hostility, others, entity)
}

/// `targets` with as many of `more` added, from the front, as `max_targets`
/// leaves room for.
pub open spec fn filled(targets: Seq<Entity>, more: Seq<Entity>, max_targets: int) -> Seq<Entity> {
    if targets.len() >= max_targets {
        targets
    } else if more.len() <= max_targets - targets.len() {
        targets + more
    } else {
        targets + more.take(max_targets - targets.len())
    }
}

/// Filling keeps the targets that were there and in their places, and never
/// takes their number beyond `max_targets` unless it was beyond it before.
pub proof fn lemma_filled_bounded(targets: Seq<Entity>, more: Seq<Entity>, max_targets: int)
    ensures
        filled(targets, more, max_targets).len() >= targets.len(),
        filled(targets, more, max_targets).take(targets.len() as int) == targets,
        filled(targets, more, max_targets).len() <= max_targets || filled(
            targets,
            more,
            max_targets,
        ) == targets,
{
    assert(filled(targets, more, max_targets).take(targets.len() as int) =~= targets);
}

fn find_hostility(others: &Vec<Presence>, entity: Entity) -> (found: Option<Hostility>)
    ensures
        found == hostility_of(others@, entity),
{
    let mut i: usize = 0;
    assert(others@.skip(0) == others@);
    while i < others.len()
        invariant
            i <= others.len(),
            first_presence(others@, entity) == first_presence(others@.skip(i as int), entity),
        decreases others.len() - i,
    {
        let other = others[i];
        assert(others@.skip(i as int)[0] == other);
        if other.entity == entity {
            return if other.dead {
                None
            } else {
                Some(Hostility::from(other.hostility))
            };
        }
        assert(others@.skip(i as int).drop_first() == others@.skip(i as int + 1));
        i += 1;
    }
    assert(others@.skip(i as int).len() == 0);
    None
}

/// Puts the entities that the actor blocks first among its targets.
///
/// Of the entities in the blocker's list, in the list's order, those that
/// still exist, are alive and are hostile to the actor are added while the
/// actor has fewer than `max_targets` targets. The list itself is left as it
/// is.
pub fn priority_blocked_targets(
    targeting: &Targeting,
    found_targets: &mut Targets,
    blocker: &Blocker,
    hostility: Option<Hostility>,
    others: &Vec<Presence>,
)
    ensures
        final(found_targets)@ == filled(
            old(found_targets)@,
            blocker@.blocking.filter(opposing(hostility_or_default(hostility), others@)),
            targeting.max_targets as int,
        ),
        old(found_targets)@.len() <= targeting.max_targets ==> final(found_targets)@.len()
            <= targeting.max_targets,
{
    proof {
        lemma_filled_bounded(
            found_targets@,
            blocker@.blocking.filter(opposing(hostility_or_default(hostility), others@)),
            targeting.max_targets as int,
        );
    }
    let hostility = Hostility::from(hostility);
    let ghost before = found_targets@;
    let ghost opposes = opposing(hostility, others@);
    let ghost blocking = blocker.blocking@;
    let mut i: usize = 0;
    proof {
        assert(blocking.take(0).filter(opposes) == Seq::<Entity>::empty());
        assert(before + Seq::<Entity>::empty() == before);
    }
    while i < blocker.blocking.len() && found_targets.0.len() < targeting.max_targets
        invariant
            i <= blocker.blocking.len(),
            blocking == blocker.blocking@,
            opposes == opposing(hostility, others@),
            found_targets@ == before + blocking.take(i as int).filter(opposes),
            before.len() < targeting.max_targets ==> found_targets@.len() <= targeting.max_targets,
            before.len() >= targeting.max_targets ==> i == 0,
        decreases blocker.blocking.len() - i,
    {
        let entity = blocker.blocking[i];
        let faces = match find_hostility(others, entity) {
            Some(other) => hostility.is_hostile_to(&other),
            None => false,
        };
        assert(faces == opposes(entity));
        proof {
            assert(blocking.take(i as int + 1).drop_last() == blocking.take(i as int));
            assert(blocking.take(i as int + 1).last() == entity);
            reveal(Seq::filter);
        }
        if faces {
            found_targets.0.push(entity);
        }
        i += 1;
    }
    proof {
        let all = blocking.filter(opposes);
        let seen = blocking.take(i as int).filter(opposes);
        lemma_filter_prefix(blocking, opposes, i as int);
        if i == blocking.len() {
            assert(blocking.take(i as int) == blocking);
        }
        if before.len() >= targeting.max_targets {
            assert(i == 0);
            assert(seen.len() == 0);
        } else if i < blocking.len() {
            assert(seen.len() == targeting.max_targets - before.len());
            assert(all.take(seen.len() as int) == seen);
        } else {
            assert(all.take(all.len() as int) == all);
        }
    }
}

/// Filtering a prefix of a sequence gives a prefix of the filtered sequence.
pub proof fn lemma_filter_prefix<T>(s: Seq<T>, keep: spec_fn(T) -> bool, n: int)
    requires
        0 <= n <= s.len(),
    ensures
        s.take(n).filter(keep).len() <= s.filter(keep).len(),
        s.filter(keep).take(s.take(n).filter(keep).len() as int) == s.take(n).filter(keep),
{
    assert(s == s.take(n) + s.skip(n));
    Seq::filter_distributes_over_add(s.take(n), s.skip(n), keep);
    let head = s.take(n).filter(keep);
    let tail = s.skip(n).filter(keep);
    assert((head + tail).take(head.len() as int) == head);
}

/// Lets a blocked actor target the entity that blocks it, so that an actor
/// without any range can fight back.
///
/// The blocker is added if the actor has fewer than `max_targets` targets,
/// the blocker still exists, is alive, and the two are hostile to each other.
pub fn priority_blocker_target(
    targeting: &Targeting,
    found_targets: &mut Targets,
    blockable: &Blockable,
    hostility: Option<Hostility>,
    others: &Vec<Presence>,
)
    ensures
        final(found_targets)@ == match blockable.blocked_by {
            Some(blocked_by) if old(found_targets)@.len() < targeting.max_targets && is_opponent(
                hostility_or_default(hostility),
                others@,
                blocked_by,
            ) => old(found_targets)@.push(blocked_by),
            _ => old(found_targets)@,
        },
        old(found_targets)@.len() <= targeting.max_targets ==> final(found_targets)@.len()
            <= targeting.max_targets,
{
    if found_targets.0.len() >= targeting.max_targets {
        return ;
    }
    let hostility = Hostility::from(hostility);
    if let Some(blocked_by) = blockable.blocked_by {
        if let Some(other) = find_hostility(others, blocked_by) {
            if hostility.is_hostile_to(&other) {
                found_targets.0.push(blocked_by);
            }
        }
    }
}

/// Whether an actor of the given hostility may pick `candidate`: it is
/// visible, hostile to the actor and in range.
pub open spec fn eligible(hostility: Hostility, candidate: Candidate) -> bool {
    &&& match candidate.stealth {
        Some(stealth) => stealth.visible,
        None => true,
    }
    &&& hostility.hostile_to(hostility_or_default(candidate.hostility))
    &&& candidate.in_range
}

/// Whether `entity` is among `candidates` and its first row there is
/// eligible.
pub open spec fn is_eligible(hostility: Hostility, candidates: Seq<Candidate>, entity: Entity) -> bool {
    match first_candidate(candidates, entity) {
        Some(candidate) => eligible(hostility, candidate),
        None => false,
    }
}

/// The entities that a search finds, before any limit: those of the threat
/// index, in its order, that are eligible.
pub open spec fn search_results(
    hostility: Hostility,
    index: Seq<Entity>,
    candidates: Seq<Candidate>,
) -> Seq<Entity> {
    index.filter(suiting(hostility, candidates))
}

/// The test that [`search_targets`] puts an entity of the threat index to.
pub open spec fn suiting(hostility: Hostility, candidates: Seq<Candidate>) -> spec_fn(Entity) -> bool {
    |entity: Entity| is_eligible(hostility, candidates, entity)
}

fn find_candidate(candidates: &Vec<Candidate>, entity: Entity) -> (found: Option<Candidate>)
    ensures
        found == first_candidate(candidates@, entity),
{
    let mut i: usize = 0;
    assert(candidates@.skip(0) == candidates@);
    while i < candidates.len()
        invariant
            i <= candidates.len(),
            first_candidate(candidates@, entity) == first_candidate(candidates@.skip(i as int), entity),
        decreases candidates.len() - i,
    {
        let candidate = candidates[i];
        assert(candidates@.skip(i as int)[0] == candidate);
        if candidate.entity == entity {
            return Some(candidate);
        }
        assert(candidates@.skip(i as int).drop_first() == candidates@.skip(i as int + 1));
        i += 1;
    }
    assert(candidates@.skip(i as int).len() == 0);
    None
}

/// Fills the targets of an actor from the threat index.
///
/// The entities of the index are taken in its order. One is added if it is
/// among `candidates` and is visible, hostile to the actor and in range, while
/// the actor has fewer than `max_targets` targets.
pub fn search_targets(
    targeting: &Targeting,
    found_targets: &mut Targets,
    hostility: Option<Hostility>,
    targets_tree: &TargetingTree,
    candidates: &Vec<Candidate>,
)
    ensures
        final(found_targets)@ == filled(
            old(found_targets)@,
            search_results(hostility_or_default(hostility), entities_of(targets_tree@), candidates@),
            targeting.max_targets as int,
        ),
        old(found_targets)@.len() <= targeting.max_targets ==> final(found_targets)@.len()
            <= targeting.max_targets,
{
    proof {
        lemma_filled_bounded(
            found_targets@,
            search_results(hostility_or_default(hostility), entities_of(targets_tree@), candidates@),
            targeting.max_targets as int,
        );
    }
    let hostility = Hostility::from(hostility);
    let index = targets_tree.iter();
    let ghost before = found_targets@;
    let ghost suits = suiting(hostility, candidates@);
    let mut i: usize = 0;
    proof {
        assert(index@.take(0).filter(suits) == Seq::<Entity>::empty());
        assert(before + Seq::<Entity>::empty() == before);
    }
    while i < index.len() && found_targets.0.len() < targeting.max_targets
        invariant
            i <= index.len(),
            suits == suiting(hostility, candidates@),
            found_targets@ == before + index@.take(i as int).filter(suits),
            before.len() < targeting.max_targets ==> found_targets@.len() <= targeting.max_targets,
            before.len() >= targeting.max_targets ==> i == 0,
        decreases index.len() - i,
    {
        let entity = index[i];
        let fits = match find_candidate(candidates, entity) {
            Some(candidate) => {
                let visible = match candidate.stealth {
                    Some(stealth) => stealth.visible,
                    None => true,
                };
                visible && hostility.is_hostile_to(&Hostility::from(candidate.hostility))
                    && candidate.in_range
            },
            None => false,
        };
        assert(fits == suits(entity));
        proof {
            assert(index@.take(i as int + 1).drop_last() == index@.take(i as int));
            assert(index@.take(i as int + 1).last() == entity);
            reveal(Seq::filter);
        }
        if fits {
            found_targets.0.push(entity);
        }
        i += 1;
    }
    proof {
        let all = index@.filter(suits);
        let seen = index@.take(i as int).filter(suits);
        lemma_filter_prefix(index@, suits, i as int);
        if i == index.len() {
            assert(index@.take(i as int) == index@);
        }
        if before.len() >= targeting.max_targets {
            assert(i == 0);
            assert(seen.len() == 0);
        } else if i < index.len() {
            assert(seen.len() == targeting.max_targets - before.len());
            assert(all.take(seen.len() as int) == seen);
        } else {
            assert(all.take(all.len() as int) == all);
        }
    }
}

/// Searching is a function of what it is given: the same targets so far, the
/// same hostility, the same threat index and the same candidates lead to the
/// same targets.
pub proof fn lemma_search_targets_deterministic(
    max_targets: int,
    before: Seq<Entity>,
    hostility: Option<Hostility>,
    index: Seq<Entity>,
    candidates: Seq<Candidate>,
    first: Seq<Entity>,
    second: Seq<Entity>,
)
    requires
        first == filled(
            before,
            search_results(hostility_or_default(hostility), index, candidates),
            max_targets,
        ),
        second == filled(
            before,
            search_results(hostility_or_default(hostility), index, candidates),
            max_targets,
        ),
    ensures
        first == second,
{
}

} // verus!
