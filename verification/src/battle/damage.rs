//! Health, damage and death.
//!
//! Attackers never change the health of their targets themselves. They send
//! [`DamageReceivedEvent`]s, and [`accumulate_damage`] turns each of them into
//! a loss of health, according to the kind of damage and the stats of the
//! entity that is hit.

use vstd::prelude::*;

use crate::fixed::{clamp_i64, mul_div, trunc_div, ONE};
use crate::stats::stat::MaxHp;
use crate::stats::Stat;
use crate::timer::{Timer, TimerMode, TimerView};
use crate::Entity;

verus! {

/// Damage type.
///
/// Determines how final damage will be calculated.
#[derive(Clone, Copy, Debug, PartialEq, Eq, Structural, Hash)]
pub enum DamageType {
    Physical,
    Arts,
    True,
}

impl Default for DamageType {
    fn default() -> (damage_type: DamageType)
        ensures
            damage_type == DamageType::Physical,
    {
        DamageType::Physical
    }
}

/// What a [`Health`] holds, as plain values: the health points as a
/// fixed-point number, and the maximum in whole points.
pub struct HealthView {
    pub hp: int,
    pub max_hp: int,
}

impl HealthView {
    /// The most health points that the entity can have, as a fixed-point
    /// number.
    pub open spec fn cap(self) -> int {
        self.max_hp * ONE
    }

    /// The health after its points were set to `hp`: no fewer than none and
    /// no more than the maximum.
    pub open spec fn set(self, hp: int) -> HealthView {
        HealthView {
            hp: if hp < 0 {
                0
            } else if hp <= self.cap() {
                hp
            } else {
                self.cap()
            },
            max_hp: self.max_hp,
        }
    }

    /// The health after `amount` points were lost: what is left, and nothing
    /// where more was lost than there was.
    pub open spec fn lose(self, amount: int) -> HealthView {
        self.set(self.hp - amount)
    }

    /// The health after the maximum changed to `max_hp`: the points keep
    /// their proportion to the maximum. A health without a maximum has no
    /// proportion to keep and keeps its points.
    pub open spec fn rescaled(self, max_hp: int) -> HealthView {
        if max_hp == self.max_hp {
            self
        } else if self.max_hp == 0 {
            HealthView { hp: self.hp, max_hp }
        } else {
            HealthView { hp: clamp_i64(trunc_div(self.hp * max_hp, self.max_hp)), max_hp }
        }
    }

    /// The share of the maximum that is left, as a fixed-point number; zero
    /// where there is no maximum.
    pub open spec fn percentage(self) -> int {
        if self.max_hp == 0 {
            0
        } else {
            clamp_i64(trunc_div(self.hp, self.max_hp))
        }
    }
}

/// The actual HP of an entity.
///
/// This is never below zero nor above the maximum HP of the entity. When it
/// hits zero, the entity dies: see [`send_death_event`].
#[derive(Clone, Copy, Debug)]
pub struct Health {
    hp: i64,
    max_hp: i32,  // used to track maxhp changes
}

impl View for Health {
    type V = HealthView;

    closed spec fn view(&self) -> HealthView {
        HealthView { hp: self.hp as int, max_hp: self.max_hp as int }
    }
}

impl Default for Health {
    fn default() -> (health: Health)
        ensures
            health@ == (HealthView { hp: 1500 * ONE, max_hp: 1500 }),
    {
        Health::new(1500)
    }
}

impl Health {
    #[verifier::type_invariant]
    spec fn capped(self) -> bool {
        0 <= self.max_hp && 0 <= self.hp <= self.max_hp * ONE
    }

    /// Creates a new `Health` at full HP based on max hp, which is positive.
    pub fn new(max_hp: i32) -> (health: Health)
        requires
            max_hp > 0,
        ensures
            health@ == (HealthView { hp: max_hp * ONE, max_hp: max_hp as int }),
    {
        Health { hp: max_hp as i64 * ONE, max_hp }
    }

    /// Gets the health points of an entity, as a fixed-point number.
    pub fn get(&self) -> (hp: i64)
        ensures
            hp == self@.hp,
            0 <= hp <= self@.cap(),
    {
        proof {
            use_type_invariant(self);
        }
        self.hp
    }

    /// The maximum that the health goes by, in whole points.
    pub fn max_hp(&self) -> (max_hp: i32)
        ensures
            max_hp == self@.max_hp,
            max_hp >= 0,
    {
        proof {
            use_type_invariant(self);
        }
        self.max_hp
    }

    /// Sets the health points of an entity. Points above the maximum are cut
    /// off, and so are points below zero.
    pub fn set(&mut self, hp: i64)
        ensures
            final(self)@ == old(self)@.set(hp as int),
            0 <= final(self)@.hp <= final(self)@.cap(),
    {
        proof {
            use_type_invariant(&*self);
        }
        let cap: i64 = self.max_hp as i64 * ONE;
        self.hp = if hp < 0 {
            0
        } else if hp <= cap {
            hp
        } else {
            cap
        };
    }

    /// Gets the health points of an entity as a share of the maximum, a
    /// fixed-point number.
    pub fn percentage(&self) -> (share: i64)
        ensures
            share == self@.percentage(),
    {
        if self.max_hp == 0 {
            0
        } else {
            proof {
                use_type_invariant(self);
            }
            mul_div(self.hp, 1, self.max_hp as i64)
        }
    }

    /// Takes the damage of one event off the health, which stops at zero.
    pub fn take_damage(&mut self, damage_type: DamageType, damage: u64, def: i32, res: i32)
        ensures
            final(self)@ == old(self)@.lose(
                reduced_damage(damage_type, damage as int, def as int, res as int),
            ),
            0 <= final(self)@.hp <= old(self)@.hp,
            final(self)@.hp <= final(self)@.cap(),
    {
        proof {
            use_type_invariant(&*self);
        }
        let floor: i128 = (damage / 20) as i128;
        let reduced: i128 = match damage_type {
            // simply apply the damage
            DamageType::True => damage as i128,
            DamageType::Physical => {
                assert(def * ONE == def * 1_000_000);
                let flat: i128 = damage as i128 - def as i128 * ONE as i128;
                if flat >= floor {
                    flat
                } else {
                    floor
                }
            },
            DamageType::Arts => {
                assert(-0x8000_0000_0000_0000_0000_0000 <= damage * res
                    <= 0x8000_0000_0000_0000_0000_0000) by (nonlinear_arith)
                    requires
                        0 <= damage <= 0x1_0000_0000_0000_0000,
                        -0x8000_0000 <= res <= 0x8000_0000,
                ;
                let scaled: i128 = damage as i128 * res as i128;
                if scaled >= floor {
                    scaled
                } else {
                    floor
                }
            },
        };
        let left: i128 = self.hp as i128 - reduced;
        self.hp = if left < 0 {
            0
        } else {
            left as i64
        };
    }

    /// Follows a change of the maximum HP.
    fn rescale(&mut self, max_hp: i32)
        requires
            max_hp >= 0,
        ensures
            final(self)@ == old(self)@.rescaled(max_hp as int),
    {
        proof {
            use_type_invariant(&*self);
        }
        if max_hp != self.max_hp {
            let hp: i64 = if self.max_hp == 0 {
                self.hp
            } else {
                let scaled = mul_div(self.hp, max_hp as i64, self.max_hp as i64);
                proof {
                    lemma_rescaled_capped(self@, max_hp as int);
                }
                scaled
            };
            *self = Health { hp, max_hp };
        }
    }
}

/// The damage that gets through.
///
/// True damage is taken whole. Physical damage is reduced by the DEF of the
/// entity, Arts damage is multiplied by its RES; of either at least a
/// twentieth gets through.
pub open spec fn reduced_damage(damage_type: DamageType, damage: int, def: int, res: int) -> int {
    let floor = damage / 20;
    match damage_type {
        DamageType::True => damage,
        DamageType::Physical => if damage - def * ONE >= floor {
            damage - def * ONE
        } else {
            floor
        },
        DamageType::Arts => if damage * res >= floor {
            damage * res
        } else {
            floor
        },
    }
}

/// Health clamp: whatever the points of a health are set to, it has no fewer
/// than none and no more than its maximum afterwards. Points above the
/// maximum are cut off to it, points below zero to zero, and points in
/// between are kept.
pub proof fn lemma_health_clamp(health: HealthView, hp: int)
    requires
        health.max_hp >= 0,
    ensures
        0 <= health.set(hp).hp <= health.set(hp).cap(),
        health.set(hp).max_hp == health.max_hp,
        hp > health.cap() ==> health.set(hp).hp == health.cap(),
        hp < 0 ==> health.set(hp).hp == 0,
        0 <= hp <= health.cap() ==> health.set(hp).hp == hp,
{
    assert(health.max_hp * ONE >= 0) by (nonlinear_arith)
        requires
            health.max_hp >= 0,
    ;
}

/// Damage never heals and never takes a health below zero.
pub proof fn lemma_damage_clamp(health: HealthView, amount: int)
    requires
        health.max_hp >= 0,
        0 <= health.hp <= health.cap(),
        0 <= amount,
    ensures
        0 <= health.lose(amount).hp <= health.hp,
        health.lose(amount).hp == if amount >= health.hp {
            0
        } else {
            health.hp - amount
        },
{
}

/// Damage received event.
///
/// Each event is one instance of damage; no two are merged on their way to
/// the entity.
#[derive(Clone, Copy, Debug, PartialEq, Eq, Structural)]
pub struct DamageReceivedEvent {
    pub entity: Entity,
    pub damage_type: DamageType,
    /// The raw damage, as a fixed-point number.
    pub damage: u64,
}

impl DamageReceivedEvent {
    /// Creates a new `DamageReceivedEvent`.
    pub fn new(entity: Entity) -> (event: DamageReceivedEvent)
        ensures
            event == (DamageReceivedEvent { entity, damage_type: DamageType::Physical, damage: 0 }),
    {
        DamageReceivedEvent { entity, damage_type: DamageType::Physical, damage: 0 }
    }

    /// Constructs a `DamageReceivedEvent` with a [`DamageType`].
    pub fn with_type(self, damage_type: DamageType) -> (event: DamageReceivedEvent)
        ensures
            event == (DamageReceivedEvent { damage_type, ..self }),
    {
        DamageReceivedEvent { damage_type, ..self }
    }

    /// Constructs a `DamageReceivedEvent` with a damage amount.
    pub fn with_damage(self, damage: u64) -> (event: DamageReceivedEvent)
        ensures
            event == (DamageReceivedEvent { damage, ..self }),
    {
        DamageReceivedEvent { damage, ..self }
    }
}

/// An entity that can take damage: its health, and the stats that stand
/// between it and the damage.
#[derive(Clone, Copy, Debug)]
pub struct Vitals {
    pub entity: Entity,
    pub health: Health,
    /// The computed DEF of the entity, zero if it has none.
    pub def: i32,
    /// The computed RES of the entity, zero if it has none.
    pub res: i32,
}

/// Whether no row before the `i`-th is about the same entity.
pub open spec fn is_first_row(rows: Seq<Vitals>, i: int) -> bool {
    forall|j: int| 0 <= j < i ==> (#[trigger] rows[j]).entity != rows[i].entity
}

/// The health of a row after `events`, one after the other. An event hits
/// the first row that is about its entity.
pub open spec fn health_after(row: Vitals, first: bool, events: Seq<DamageReceivedEvent>) -> HealthView
    decreases events.len(),
{
    if events.len() == 0 {
        row.health@
    } else {
        let before = health_after(row, first, events.drop_last());
        let event = events.last();
        if first && event.entity == row.entity {
            before.lose(
                reduced_damage(event.damage_type, event.damage as int, row.def as int, row.res as int),
            )
        } else {
            before
        }
    }
}

/// Whatever events come, the health of a row stays between zero and what it
/// was: damage never heals, and never takes a health below zero.
pub proof fn lemma_health_after_bounded(row: Vitals, first: bool, events: Seq<DamageReceivedEvent>)
    requires
        row.health@.max_hp >= 0,
        0 <= row.health@.hp <= row.health@.cap(),
    ensures
        0 <= health_after(row, first, events).hp <= row.health@.hp,
        health_after(row, first, events).max_hp == row.health@.max_hp,
    decreases events.len(),
{
    if events.len() > 0 {
        lemma_health_after_bounded(row, first, events.drop_last());
    }
}

/// Accumulates damage received as [`DamageReceivedEvent`]s.
///
/// The events are dealt with in their order, each on its own. An event for
/// an entity that is not in the table is dropped. No health gains by it, and
/// none falls below zero.
pub fn accumulate_damage(events: &Vec<DamageReceivedEvent>, table: &mut Vec<Vitals>)
    ensures
        final(table)@.len() == old(table)@.len(),
        forall|i: int|
            0 <= i < old(table)@.len() ==> {
                let before = old(table)@[i];
                let after = #[trigger] final(table)@[i];
                &&& after.entity == before.entity
                &&& after.def == before.def
                &&& after.res == before.res
                &&& after.health@ == health_after(before, is_first_row(old(table)@, i), events@)
                &&& after.health@.hp <= before.health@.hp
                &&& before.health@.hp >= 0 ==> after.health@.hp >= 0
            },
{
    let ghost rows = table@;
    let mut k: usize = 0;
    while k < events.len()
        invariant
            k <= events.len(),
            table@.len() == rows.len(),
            forall|i: int|
                0 <= i < rows.len() ==> {
                    let before = rows[i];
                    let after = #[trigger] table@[i];
                    &&& after.entity == before.entity
                    &&& after.def == before.def
                    &&& after.res == before.res
                    &&& after.health@ == health_after(
                        before,
                        is_first_row(rows, i),
                        events@.take(k as int),
                    )
                    &&& after.health@.hp <= before.health@.hp
                    &&& before.health@.hp >= 0 ==> after.health@.hp >= 0
                },
        decreases events.len() - k,
    {
        let event = events[k];
        let ghost seen = events@.take(k as int);
        let ghost now = events@.take(k as int + 1);
        proof {
            assert(now.drop_last() == seen);
            assert(now.last() == event);
        }
        let mut at: usize = 0;
        while at < table.len() && !(table[at].entity == event.entity)
            invariant
                at <= table.len(),
                table@.len() == rows.len(),
                forall|j: int| 0 <= j < at ==> (#[trigger] table@[j]).entity != event.entity,
            decreases table.len() - at,
        {
            at += 1;
        }
        let ghost held = table@;
        if at < table.len() {
            let def = table[at].def;
            let res = table[at].res;
            table[at].health.take_damage(event.damage_type, event.damage, def, res);
        }
        proof {
            assert forall|i: int| 0 <= i < rows.len() implies {
                let before = rows[i];
                let after = #[trigger] table@[i];
                &&& after.entity == before.entity
                &&& after.def == before.def
                &&& after.res == before.res
                &&& after.health@ == health_after(before, is_first_row(rows, i), now)
                &&& after.health@.hp <= before.health@.hp
                &&& before.health@.hp >= 0 ==> after.health@.hp >= 0
            } by {
                assert(held[i].entity == rows[i].entity);
                if rows[i].entity == event.entity {
                    if i < at {
                        assert(held[i].entity != event.entity);
                    } else if i == at {
                        assert(is_first_row(rows, i)) by {
                            assert forall|j: int| 0 <= j < i implies (#[trigger] rows[j]).entity
                                != rows[i].entity by {
                                assert(held[j].entity != event.entity);
                            }
                        }
                    } else {
                        assert(at < rows.len());
                        assert(rows[at as int].entity == held[at as int].entity);
                        assert(!is_first_row(rows, i));
                    }
                }
            }
        }
        k += 1;
    }
    assert(events@.take(k as int) == events@);
}

/// Marks entities that despawn a while after they have died.
///
/// Typically used for enemies only, as operators would lose what persists on
/// them if they despawned on death.
#[derive(Clone, Copy, Debug)]
pub struct DespawnOnDeath {
    timer: Timer,
}

impl View for DespawnOnDeath {
    type V = TimerView;

    closed spec fn view(&self) -> TimerView {
        self.timer@
    }
}

impl DespawnOnDeath {
    /// Creates a new `DespawnOnDeath` that waits for `duration` nanoseconds.
    pub fn new(duration: u64) -> (despawn: DespawnOnDeath)
        ensures
            despawn@ == (TimerView {
                elapsed: 0,
                duration: duration as int,
                mode: TimerMode::Once,
                finished: false,
                times_finished_this_tick: 0,
            }),
    {
        DespawnOnDeath { timer: Timer::new(duration, TimerMode::Once) }
    }
}

/// A marker for dead entities.
///
/// An entity whose health is at zero is marked by
/// [`send_death_event`]. The mark is never taken off again, not even if the
/// entity is given health afterwards.
#[derive(Clone, Copy, Debug, PartialEq, Eq, Structural)]
pub struct Dead;

/// An event that fires when the HP of an entity reaches zero.
#[derive(Clone, Copy, Debug, PartialEq, Eq, Structural)]
pub struct DeathEvent(pub Entity);

/// Lets the time pass for a dead entity that despawns on death, and says
/// whether it is to be despawned now: when its time of grace runs out.
pub fn despawn_on_death(grace: &mut DespawnOnDeath, delta: u64) -> (despawn: bool)
    ensures
        final(grace)@ == old(grace)@.ticked(delta as int),
        despawn == (final(grace)@.times_finished_this_tick > 0),
{
    grace.timer.tick(delta);
    grace.timer.just_finished()
}

/// Notices the death of an entity.
///
/// An entity that is not marked dead and whose health is at zero is
/// marked, and its death is the event returned. A marked entity is left as it
/// is, whatever its health.
pub fn send_death_event(entity: Entity, health: &Health, dead: &mut Option<Dead>) -> (event: Option<
    DeathEvent,
>)
    ensures
        final(dead).is_some() == (old(dead).is_some() || health@.hp <= 0),
        event == if old(dead).is_none() && health@.hp <= 0 {
            Some(DeathEvent(entity))
        } else {
            None
        },
{
    if dead.is_none() && health.get() <= 0 {
        *dead = Some(Dead);
        Some(DeathEvent(entity))
    } else {
        None
    }
}

/// Follows a change of the maximum HP of an entity: the health of the entity
/// keeps its proportion to the maximum.
pub fn detect_maxhp_changes(health: &mut Health, max_hp: &MaxHp)
    ensures
        final(health)@ == old(health)@.rescaled(max_hp.value()),
{
    health.rescale(max_hp.get());
}

/// Something that can happen to the health of an entity, or to the mark of
/// its death.
pub enum LifeEvent {
    /// The health points are set, as by [`Health::set`].
    SetHp { hp: int },
    /// Damage is taken, as by [`accumulate_damage`].
    Damage { damage_type: DamageType, damage: int, def: int, res: int },
    /// The maximum changes, as by [`detect_maxhp_changes`].
    MaxHp { max_hp: int },
    /// Death is looked for, as by [`send_death_event`].
    DeathCheck,
}

/// The health of an entity together with the mark of its death.
pub struct Life {
    pub health: HealthView,
    pub dead: bool,
}

impl Life {
    /// The life after one event.
    pub open spec fn after(self, event: LifeEvent) -> Life {
        match event {
            LifeEvent::SetHp { hp } => Life { health: self.health.set(hp), dead: self.dead },
            LifeEvent::Damage { damage_type, damage, def, res } => Life {
                health: self.health.lose(reduced_damage(damage_type, damage, def, res)),
                dead: self.dead,
            },
            LifeEvent::MaxHp { max_hp } => Life {
                health: self.health.rescaled(max_hp),
                dead: self.dead,
            },
            LifeEvent::DeathCheck => Life {
                health: self.health,
                dead: self.dead || self.health.hp <= 0,
            },
        }
    }

    /// The life after a sequence of events.
    pub open spec fn after_all(self, events: Seq<LifeEvent>) -> Life
        decreases events.len(),
    {
        if events.len() == 0 {
            self
        } else {
            self.after_all(events.drop_last()).after(events.last())
        }
    }
}

/// Death is one-way: whatever happens to the health of an entity that is
/// marked dead, the mark stays.
pub proof fn lemma_death_is_permanent(life: Life, events: Seq<LifeEvent>)
    requires
        life.dead,
    ensures
        life.after_all(events).dead,
    decreases events.len(),
{
    if events.len() > 0 {
        lemma_death_is_permanent(life, events.drop_last());
    }
}

/// Whatever happens to a health that is between zero and its maximum, and
/// however the maximum changes without becoming negative, the health stays
/// between zero and its maximum.
pub proof fn lemma_health_stays_capped(life: Life, events: Seq<LifeEvent>)
    requires
        life.health.max_hp >= 0,
        0 <= life.health.hp <= life.health.cap(),
        forall|i: int|
            0 <= i < events.len() ==> match #[trigger] events[i] {
                LifeEvent::MaxHp { max_hp } => max_hp >= 0,
                _ => true,
            },
    ensures
        life.after_all(events).health.max_hp >= 0,
        0 <= life.after_all(events).health.hp <= life.after_all(events).health.cap(),
    decreases events.len(),
{
    if events.len() > 0 {
        let earlier = events.drop_last();
        assert forall|i: int| 0 <= i < earlier.len() implies match #[trigger] earlier[i] {
            LifeEvent::MaxHp { max_hp } => max_hp >= 0,
            _ => true,
        } by {
            assert(earlier[i] == events[i]);
        }
        lemma_health_stays_capped(life, earlier);
        let before = life.after_all(earlier).health;
        match events.last() {
            LifeEvent::MaxHp { max_hp } => {
                assert(events[events.len() - 1] == events.last());
                lemma_rescaled_capped(before, max_hp);
            },
            LifeEvent::SetHp { hp } => {
                lemma_health_clamp(before, hp);
            },
            LifeEvent::Damage { damage_type, damage, def, res } => {
                lemma_health_clamp(before, before.hp - reduced_damage(damage_type, damage, def, res));
            },
            LifeEvent::DeathCheck => {},
        }
    }
}

/// A health between zero and its maximum is between zero and its new maximum
/// after a change.
pub proof fn lemma_rescaled_capped(health: HealthView, max_hp: int)
    requires
        health.max_hp >= 0,
        max_hp >= 0,
        0 <= health.hp <= health.cap(),
    ensures
        0 <= health.rescaled(max_hp).hp <= health.rescaled(max_hp).cap(),
{
    let hp = health.hp;
    let old_max = health.max_hp;
    assert(max_hp * ONE >= 0) by (nonlinear_arith)
        requires
            max_hp >= 0,
    ;
    if max_hp != old_max && old_max != 0 {
        assert(0 <= hp * max_hp <= old_max * ONE * max_hp) by (nonlinear_arith)
            requires
                0 <= hp <= old_max * ONE,
                max_hp >= 0,
        ;
        assert(old_max * ONE * max_hp == old_max * (max_hp * ONE)) by (nonlinear_arith);
        vstd::arithmetic::div_mod::lemma_div_pos_is_pos(hp * max_hp, old_max);
        vstd::arithmetic::div_mod::lemma_div_is_ordered(
            hp * max_hp,
            old_max * (max_hp * ONE),
            old_max,
        );
        vstd::arithmetic::div_mod::lemma_div_multiples_vanish(max_hp * ONE, old_max);
    }
}

} // verus!
