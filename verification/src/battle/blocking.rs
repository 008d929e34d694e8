//! Blocking: which entity holds which other entity in melee.

use vstd::prelude::*;

use crate::battle::auto_attack::{AttackCycle, AttackCycleView};
use crate::battle::damage::DeathEvent;
use crate::battle::BoundingCircle;
use crate::fixed::{distance_squared, within, Vec3};
use crate::tile_map::nav::Nav;
use crate::Entity;

verus! {

/// An entity that can block other entities.
///
/// How many it can block is its block stat.
#[derive(Debug)]
pub struct Blocker {
    pub can_block: bool,
    pub blocking: Vec<Entity>,
}

/// What a [`Blocker`] holds, as plain values.
pub struct BlockerView {
    pub can_block: bool,
    pub blocking: Seq<Entity>,
}

impl View for Blocker {
    type V = BlockerView;

    open spec fn view(&self) -> BlockerView {
        BlockerView { can_block: self.can_block, blocking: self.blocking@ }
    }
}

impl Default for Blocker {
    fn default() -> (blocker: Blocker)
        ensures
            blocker@ == (BlockerView { can_block: true, blocking: Seq::empty() }),
    {
        Blocker { can_block: true, blocking: Vec::new() }
    }
}

/// An entity that can be blocked by another entity.
#[derive(Clone, Copy, Debug, PartialEq, Eq, Structural)]
pub struct Blockable {
    pub blocked_by: Option<Entity>,
}

impl Default for Blockable {
    fn default() -> (blockable: Blockable)
        ensures
            blockable.blocked_by.is_none(),
    {
        Blockable { blocked_by: None }
    }
}

impl Blockable {
    pub fn is_blocked(&self) -> (blocked: bool)
        ensures
            blocked == self.blocked_by.is_some(),
    {
        self.blocked_by.is_some()
    }
}

/// A blockable entity as the blocking rules see it.
#[derive(Clone, Copy, Debug, PartialEq, Eq, Structural)]
pub struct BlockableBody {
    pub entity: Entity,
    /// Where the entity is in the world.
    pub translation: Vec3,
    pub bounding_circle: BoundingCircle,
    pub blockable: Blockable,
}

/// An entity that blocks as the blocking rules see it.
#[derive(Debug)]
pub struct BlockerBody {
    pub entity: Entity,
    /// Where the entity is in the world.
    pub translation: Vec3,
    pub bounding_circle: BoundingCircle,
    pub blocker: Blocker,
    /// The block stat: how many entities the blocker can hold at once.
    pub block: i32,
}

/// What a [`BlockerBody`] holds, as plain values.
pub struct BlockerBodyView {
    pub entity: Entity,
    pub translation: Vec3,
    pub bounding_circle: BoundingCircle,
    pub blocker: BlockerView,
    pub block: i32,
}

impl View for BlockerBody {
    type V = BlockerBodyView;

    open spec fn view(&self) -> BlockerBodyView {
        BlockerBodyView {
            entity: self.entity,
            translation: self.translation,
            bounding_circle: self.bounding_circle,
            blocker: self.blocker@,
            block: self.block,
        }
    }
}

/// The blockers of a table, as plain values.
pub open spec fn blockers_of(table: Seq<BlockerBody>) -> Seq<BlockerBodyView> {
    table.map_values(|body: BlockerBody| body@)
}

/// Whether the bounding circles of the two entities overlap on the ground.
pub open spec fn touching(blocker: BlockerBodyView, body: BlockableBody) -> bool {
    let reach = blocker.bounding_circle.radius + body.bounding_circle.radius;
    distance_squared(blocker.translation.ground(), body.translation.ground()) <= reach * reach
}

/// Whether `blocker` would take `body` on: it still blocks, it touches the
/// entity, and it holds fewer entities than its block stat allows.
pub open spec fn accepts(blocker: BlockerBodyView, body: BlockableBody) -> bool {
    blocker.blocker.can_block && touching(blocker, body) && blocker.blocker.blocking.len()
        < blocker.block
}

/// The first blocker at or after `from` that accepts `body`; the number of
/// blockers if there is none.
pub open spec fn first_accepting(blockers: Seq<BlockerBodyView>, body: BlockableBody, from: int) -> int
    decreases blockers.len() - from,
{
    if from < 0 || from >= blockers.len() {
        blockers.len() as int
    } else if accepts(blockers[from], body) {
        from
    } else {
        first_accepting(blockers, body, from + 1)
    }
}

/// `blocker` after it has taken `entity` on.
pub open spec fn holding(blocker: BlockerBodyView, entity: Entity) -> BlockerBodyView {
    BlockerBodyView {
        blocker: BlockerView {
            can_block: blocker.blocker.can_block,
            blocking: blocker.blocker.blocking.push(entity),
        },
        ..blocker
    }
}

/// The engagements after the first `n` blockable entities have looked for a
/// blocker, one after the other: an entity that is not blocked yet is taken on
/// by the first blocker that accepts it.
pub open spec fn engaged(
    bodies: Seq<BlockableBody>,
    blockers: Seq<BlockerBodyView>,
    n: int,
) -> (Seq<BlockableBody>, Seq<BlockerBodyView>)
    decreases n,
{
    if n <= 0 || n > bodies.len() {
        (bodies, blockers)
    } else {
        let (bodies, blockers) = engaged(bodies, blockers, n - 1);
        let body = bodies[n - 1];
        let at = first_accepting(blockers, body, 0);
        if body.blockable.blocked_by.is_none() && at < blockers.len() {
            (
                bodies.update(
                    n - 1,
                    BlockableBody {
                        blockable: Blockable { blocked_by: Some(blockers[at].entity) },
                        ..body
                    },
                ),
                blockers.update(at, holding(blockers[at], body.entity)),
            )
        } else {
            (bodies, blockers)
        }
    }
}

/// Whether no blocker of the table holds more entities than its block stat
/// allows.
pub open spec fn within_capacity(blockers: Seq<BlockerBodyView>) -> bool {
    forall|k: int| 0 <= k < blockers.len() ==> (#[trigger] blockers[k]).blocker.blocking.len()
        <= blockers[k].block
}

/// Engaging changes neither the number of entities on either side nor what
/// a blocker is; a blocker gains an entity only while it holds fewer than its
/// block stat allows.
pub proof fn lemma_engaged_capacity(bodies: Seq<BlockableBody>, blockers: Seq<BlockerBodyView>, n: int)
    ensures
        engaged(bodies, blockers, n).0.len() == bodies.len(),
        engaged(bodies, blockers, n).1.len() == blockers.len(),
        forall|k: int|
            0 <= k < blockers.len() ==> {
                let after = #[trigger] engaged(bodies, blockers, n).1[k];
                &&& after.entity == blockers[k].entity
                &&& after.block == blockers[k].block
                &&& after.blocker.can_block == blockers[k].blocker.can_block
                &&& after.blocker.blocking.len() >= blockers[k].blocker.blocking.len()
                &&& (after.blocker.blocking.len() <= blockers[k].block
                    || after.blocker.blocking.len() == blockers[k].blocker.blocking.len())
            },
        within_capacity(blockers) ==> within_capacity(engaged(bodies, blockers, n).1),
    decreases n,
{
    if n <= 0 || n > bodies.len() {
    } else {
        lemma_engaged_capacity(bodies, blockers, n - 1);
        let (bodies1, blockers1) = engaged(bodies, blockers, n - 1);
        let body = bodies1[n - 1];
        lemma_first_accepting(blockers1, body, 0);
        let at = first_accepting(blockers1, body, 0);
        assert forall|k: int| 0 <= k < blockers.len() implies {
            let after = #[trigger] engaged(bodies, blockers, n).1[k];
            &&& after.entity == blockers[k].entity
            &&& after.block == blockers[k].block
            &&& after.blocker.can_block == blockers[k].blocker.can_block
            &&& after.blocker.blocking.len() >= blockers[k].blocker.blocking.len()
            &&& (after.blocker.blocking.len() <= blockers[k].block
                || after.blocker.blocking.len() == blockers[k].blocker.blocking.len())
        } by {
            let before = engaged(bodies, blockers, n - 1).1[k];
            assert(before.entity == blockers[k].entity);
        }
    }
}

/// What [`first_accepting`] finds: the blocker it names accepts the entity,
/// and none between `from` and it does.
pub proof fn lemma_first_accepting(blockers: Seq<BlockerBodyView>, body: BlockableBody, from: int)
    requires
        0 <= from,
    ensures
        from <= first_accepting(blockers, body, from) || first_accepting(blockers, body, from)
            == blockers.len(),
        first_accepting(blockers, body, from) <= blockers.len(),
        first_accepting(blockers, body, from) < blockers.len() ==> accepts(
            blockers[first_accepting(blockers, body, from)],
            body,
        ),
        forall|k: int|
            from <= k < first_accepting(blockers, body, from) ==> !accepts(
                #[trigger] blockers[k],
                body,
            ),
    decreases blockers.len() - from,
{
    if from < blockers.len() && !accepts(blockers[from], body) {
        lemma_first_accepting(blockers, body, from + 1);
    }
}

/// Lets every blockable entity that is not blocked yet look for a blocker.
///
/// The entities look in the order of `blockables`, each among the blockers in
/// the order of `blockers`; the first blocker that still blocks, touches the
/// entity and has room takes it on.
pub fn start_blocking(blockables: &mut Vec<BlockableBody>, blockers: &mut Vec<BlockerBody>)
    ensures
        (final(blockables)@, blockers_of(final(blockers)@)) == engaged(
            old(blockables)@,
            blockers_of(old(blockers)@),
            old(blockables)@.len() as int,
        ),
        final(blockables)@.len() == old(blockables)@.len(),
        final(blockers)@.len() == old(blockers)@.len(),
        within_capacity(blockers_of(old(blockers)@)) ==> within_capacity(
            blockers_of(final(blockers)@),
        ),
{
    let ghost bodies0 = blockables@;
    let ghost blockers0 = blockers_of(blockers@);
    let mut i: usize = 0;
    while i < blockables.len()
        invariant
            i <= blockables.len(),
            blockables@.len() == bodies0.len(),
            blockers@.len() == blockers0.len(),
            (blockables@, blockers_of(blockers@)) == engaged(bodies0, blockers0, i as int),
        decreases blockables.len() - i,
    {
        let body = blockables[i];
        let ghost now = blockers_of(blockers@);
        let ghost bodies_now = blockables@;
        proof {
            lemma_first_accepting(now, body, 0);
        }
        if !body.blockable.is_blocked() {
            let mut j: usize = 0;
            let mut found = false;
            while j < blockers.len()
                invariant_except_break
                    j <= blockers.len(),
                    blockers_of(blockers@) == now,
                    !found,
                    first_accepting(now, body, 0) == first_accepting(now, body, j as int),
                    blockables@ == bodies_now,
                invariant
                    blockers@.len() == now.len(),
                    blockables@.len() == bodies_now.len(),
                    i < blockables.len(),
                    body == bodies_now[i as int],
                ensures
                    blockers@.len() == now.len(),
                    blockables@.len() == bodies_now.len(),
                    found ==> {
                        let at = first_accepting(now, body, 0);
                        &&& at < now.len()
                        &&& blockers_of(blockers@) == now.update(at, holding(now[at], body.entity))
                        &&& blockables@ == bodies_now.update(
                            i as int,
                            BlockableBody {
                                blockable: Blockable { blocked_by: Some(now[at].entity) },
                                ..body
                            },
                        )
                    },
                    !found ==> {
                        &&& first_accepting(now, body, 0) == now.len()
                        &&& blockers_of(blockers@) == now
                        &&& blockables@ == bodies_now
                    },
                decreases blockers.len() - j,
            {
                assert(now[j as int] == blockers@[j as int]@);
                let reach: u64 = blockers[j].bounding_circle.radius as u64
                    + body.bounding_circle.radius as u64;
                let takes = blockers[j].blocker.can_block && within(
                    blockers[j].translation.to_ground(),
                    body.translation.to_ground(),
                    reach,
                ) && blockers[j].blocker.blocking.len() < i32_as_len(blockers[j].block);
                assert(takes == accepts(now[j as int], body));
                if takes {
                    let blocker_entity = blockers[j].entity;
                    let ghost held = blockers@;
                    blockers[j].blocker.blocking.push(body.entity);
                    blockables.set(
                        i,
                        BlockableBody { blockable: Blockable { blocked_by: Some(blocker_entity) }, ..body },
                    );
                    found = true;
                    proof {
                        assert(blockers@.len() == now.len());
                        assert(blockers_of(blockers@) =~= now.update(
                            j as int,
                            holding(now[j as int], body.entity),
                        )) by {
                            assert forall|k: int| 0 <= k < now.len() implies blockers_of(
                                blockers@,
                            )[k] == now.update(j as int, holding(now[j as int], body.entity))[k] by {
                                if k < j {
                                    assert(blockers@[k] == held[k]);
                                    assert(now[k] == held[k]@);
                                } else if k > j {
                                    assert(blockers@[k] == held[k]);
                                    assert(now[k] == held[k]@);
                                } else {
                                    assert(now[k] == held[k]@);
                                }
                            }
                        }
                    }
                    break ;
                }
                j += 1;
            }
        }
        i += 1;
    }
    proof {
        lemma_engaged_capacity(bodies0, blockers0, bodies0.len() as int);
    }
}

/// Gives an entity whose engagement has changed a fresh swing: whether it was
/// just blocked or just let go, its attack cycle starts over.
pub fn reset_attack_cycles(attack_cycle: &mut AttackCycle)
    ensures
        final(attack_cycle)@ == (AttackCycleView {
            timer: AttackCycleView::timer_at(old(attack_cycle)@.interval(), 0),
            ..old(attack_cycle)@
        }),
{
    attack_cycle.reset();
}

/// Stops the navigation of an entity while it is blocked.
pub fn disable_nav_for_blocking(blockable: &Blockable, nav: &mut Nav)
    ensures
        *final(nav) == (Nav { active: blockable.blocked_by.is_none(), ..*old(nav) }),
{
    nav.active = !blockable.is_blocked();
}

/// Whether `deaths` tells of the death of `entity`.
pub open spec fn died(deaths: Seq<DeathEvent>, entity: Entity) -> bool {
    deaths.contains(DeathEvent(entity))
}

/// Whether one of the first `upto` blockers has died while it held `entity`.
pub open spec fn let_go(
    deaths: Seq<DeathEvent>,
    blockers: Seq<BlockerBodyView>,
    entity: Entity,
    upto: int,
) -> bool {
    exists|k: int|
        0 <= k < upto && k < blockers.len() && died(deaths, (#[trigger] blockers[k]).entity)
            && blockers[k].blocker.blocking.contains(entity)
}

/// A blocker that has died: it holds no one and blocks no more.
pub open spec fn disengaged(blocker: BlockerBodyView) -> BlockerBodyView {
    BlockerBodyView {
        blocker: BlockerView { can_block: false, blocking: Seq::empty() },
        ..blocker
    }
}

fn has_died(deaths: &Vec<DeathEvent>, entity: Entity) -> (dead: bool)
    ensures
        dead == died(deaths@, entity),
{
    let mut i: usize = 0;
    while i < deaths.len()
        invariant
            i <= deaths.len(),
            forall|j: int| 0 <= j < i ==> deaths@[j] != DeathEvent(entity),
        decreases deaths.len() - i,
    {
        if deaths[i].0 == entity {
            assert(deaths@[i as int] == DeathEvent(entity));
            return true;
        }
        i += 1;
    }
    false
}

fn holds(blocking: &Vec<Entity>, entity: Entity) -> (held: bool)
    ensures
        held == blocking@.contains(entity),
{
    let mut i: usize = 0;
    while i < blocking.len()
        invariant
            i <= blocking.len(),
            forall|j: int| 0 <= j < i ==> blocking@[j] != entity,
        decreases blocking.len() - i,
    {
        if blocking[i] == entity {
            return true;
        }
        i += 1;
    }
    false
}

/// Lets go of everyone that a dead blocker held.
///
/// Every blocker whose death is among `deaths` loses its list and blocks no
/// more, even if it should come back to life. Every entity on the list of
/// such a blocker is no longer blocked.
pub fn disengage_dead_blockers(
    deaths: &Vec<DeathEvent>,
    blockers: &mut Vec<BlockerBody>,
    blockables: &mut Vec<BlockableBody>,
)
    ensures
        final(blockers)@.len() == old(blockers)@.len(),
        final(blockables)@.len() == old(blockables)@.len(),
        forall|k: int|
            0 <= k < old(blockers)@.len() ==> (#[trigger] final(blockers)@[k])@ == if died(
                deaths@,
                old(blockers)@[k].entity,
            ) {
                disengaged(old(blockers)@[k]@)
            } else {
                old(blockers)@[k]@
            },
        forall|i: int|
            0 <= i < old(blockables)@.len() ==> #[trigger] final(blockables)@[i] == if let_go(
                deaths@,
                blockers_of(old(blockers)@),
                old(blockables)@[i].entity,
                old(blockers)@.len() as int,
            ) {
                BlockableBody { blockable: Blockable { blocked_by: None }, ..old(blockables)@[i] }
            } else {
                old(blockables)@[i]
            },
{
    let ghost blockers0 = blockers_of(blockers@);
    let ghost bodies0 = blockables@;
    let mut k: usize = 0;
    while k < blockers.len()
        invariant
            k <= blockers.len(),
            blockers@.len() == blockers0.len(),
            blockables@.len() == bodies0.len(),
            forall|j: int|
                0 <= j < blockers0.len() ==> (#[trigger] blockers@[j])@ == if j < k && died(
                    deaths@,
                    blockers0[j].entity,
                ) {
                    disengaged(blockers0[j])
                } else {
                    blockers0[j]
                },
            forall|i: int|
                0 <= i < bodies0.len() ==> #[trigger] blockables@[i] == if let_go(
                    deaths@,
                    blockers0,
                    bodies0[i].entity,
                    k as int,
                ) {
                    BlockableBody { blockable: Blockable { blocked_by: None }, ..bodies0[i] }
                } else {
                    bodies0[i]
                },
        decreases blockers.len() - k,
    {
        assert(blockers@[k as int]@ == blockers0[k as int]);
        if has_died(deaths, blockers[k].entity) {
            // clear blockable status
            let ghost bodies_now = blockables@;
            let mut i: usize = 0;
            while i < blockables.len()
                invariant
                    i <= blockables.len(),
                    k < blockers.len(),
                    blockers@[k as int]@ == blockers0[k as int],
                    blockables@.len() == bodies0.len(),
                    bodies_now.len() == bodies0.len(),
                    forall|j: int|
                        0 <= j < bodies0.len() ==> #[trigger] blockables@[j] == if j < i
                            && blockers0[k as int].blocker.blocking.contains(bodies0[j].entity) {
                            BlockableBody {
                                blockable: Blockable { blocked_by: None },
                                ..bodies0[j]
                            }
                        } else {
                            bodies_now[j]
                        },
                    forall|j: int|
                        0 <= j < bodies0.len() ==> (#[trigger] bodies_now[j]) == bodies0[j]
                            || bodies_now[j] == (BlockableBody {
                            blockable: Blockable { blocked_by: None },
                            ..bodies0[j]
                        }),
                    blockers0.len() == blockers@.len(),
                decreases blockables.len() - i,
            {
                let body = blockables[i];
                assert(body == bodies_now[i as int]);
                if holds(&blockers[k].blocker.blocking, body.entity) {
                    blockables.set(
                        i,
                        BlockableBody { blockable: Blockable { blocked_by: None }, ..body },
                    );
                }
                i += 1;
            }
            // clear blocker status
            blockers[k].blocker.blocking.clear();
            blockers[k].blocker.can_block = false;
            proof {
                assert forall|i: int| 0 <= i < bodies0.len() implies #[trigger] blockables@[i]
                    == if let_go(deaths@, blockers0, bodies0[i].entity, k as int + 1) {
                    BlockableBody { blockable: Blockable { blocked_by: None }, ..bodies0[i] }
                } else {
                    bodies0[i]
                } by {
                    let entity = bodies0[i].entity;
                    if blockers0[k as int].blocker.blocking.contains(entity) {
                        assert(let_go(deaths@, blockers0, entity, k as int + 1));
                    } else if let_go(deaths@, blockers0, entity, k as int + 1) {
                        assert(let_go(deaths@, blockers0, entity, k as int));
                    }
                    if let_go(deaths@, blockers0, entity, k as int) {
                        assert(let_go(deaths@, blockers0, entity, k as int + 1));
                    }
                }
            }
        } else {
            proof {
                assert forall|i: int| 0 <= i < bodies0.len() implies let_go(
                    deaths@,
                    blockers0,
                    bodies0[i].entity,
                    k as int + 1,
                ) == let_go(deaths@, blockers0, bodies0[i].entity, k as int) by {
                    let entity = bodies0[i].entity;
                    if let_go(deaths@, blockers0, entity, k as int) {
                        assert(let_go(deaths@, blockers0, entity, k as int + 1));
                    }
                }
            }
        }
        k += 1;
    }
}

/// A block stat as the number of entities it allows.
fn i32_as_len(block: i32) -> (len: usize)
    ensures
        len == if block < 0 {
            0
        } else {
            block as int
        },
{
    if block < 0 {
        0
    } else {
        block as usize
    }
}

} // verus!
