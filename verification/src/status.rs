//! Basic status effects.
//!
//! A status effect sits on an entity of its own, below the entity that it
//! acts on.

use vstd::prelude::*;

use crate::battle::damage::{DamageReceivedEvent, DamageType};
use crate::fixed::NANOS_PER_SEC;
use crate::stats::stat::{Aspd, Atk};
use crate::stats::{Modifier, ModifierI32};
use crate::timer::{Timer, TimerMode, TimerView};
use crate::{find_parent, nearest_holder, ChildOf, Entity};

verus! {

/// What an [`HpDecay`] holds, as plain values.
pub struct HpDecayView {
    /// The damage of one interval, as a fixed-point number.
    pub hp: int,
    pub timer: TimerView,
}

/// HP Decay per interval.
///
/// Applies to the entity or the nearest entity above it that has health.
#[derive(Clone, Copy, Debug)]
pub struct HpDecay {
    hp: u64,
    timer: Timer,
}

impl View for HpDecay {
    type V = HpDecayView;

    closed spec fn view(&self) -> HpDecayView {
        HpDecayView { hp: self.hp as int, timer: self.timer@ }
    }
}

/// A timer that repeats with the given interval and has just been started.
pub open spec fn repeating(interval: int) -> TimerView {
    TimerView {
        elapsed: 0,
        duration: interval,
        mode: TimerMode::Repeating,
        finished: false,
        times_finished_this_tick: 0,
    }
}

impl HpDecay {
    /// Creates a new `HpDecay` that takes `hp` off the health of the entity
    /// above it every second.
    pub fn new(hp: u64) -> (decay: HpDecay)
        ensures
            decay@ == (HpDecayView { hp: hp as int, timer: repeating(NANOS_PER_SEC as int) }),
    {
        HpDecay { hp, timer: Timer::new(NANOS_PER_SEC, TimerMode::Repeating) }
    }

    /// Changes the interval of the `HpDecay`, in nanoseconds.
    pub fn with_interval(self, interval: u64) -> (decay: HpDecay)
        ensures
            decay@ == (HpDecayView { hp: self@.hp, timer: repeating(interval as int) }),
    {
        HpDecay { timer: Timer::new(interval, TimerMode::Repeating), ..self }
    }
}

/// The activated originium buff: more ATK and attack speed, at the price of
/// health that decays.
#[derive(Debug)]
pub struct ActivatedOriginiumStatus {
    pub atk_buff: ModifierI32<Atk>,
    pub aspd_buff: ModifierI32<Aspd>,
    pub hp_decay: HpDecay,
}

impl Default for ActivatedOriginiumStatus {
    fn default() -> (status: ActivatedOriginiumStatus)
        ensures
            status.atk_buff.addend() == 600,
            status.atk_buff.factor() == 0,
            status.aspd_buff.addend() == 50,
            status.aspd_buff.factor() == 0,
            status.hp_decay@ == (HpDecayView {
                hp: 150_000_000,
                timer: repeating(NANOS_PER_SEC as int),
            }),
    {
        ActivatedOriginiumStatus {
            atk_buff: ModifierI32::<Atk>::identity().add(600),
            aspd_buff: ModifierI32::<Aspd>::identity().add(50),
            hp_decay: HpDecay::new(150_000_000),
        }
    }
}

/// The damage of `ticks` intervals of decay.
pub open spec fn decay_damage(hp: int, ticks: int) -> u64 {
    if hp * ticks > u64::MAX {
        u64::MAX
    } else {
        (hp * ticks) as u64
    }
}

/// Lets `delta` nanoseconds pass on a decay that sits on `entity`.
///
/// For each interval that has run out, the nearest entity that has health,
/// `entity` itself or one above it, takes the damage of the decay as true
/// damage, all in one event. `parents` tells which entity is above which, and
/// `with_health` which entities have health.
pub fn tick_hp_decay(
    entity: Entity,
    hp_decay: &mut HpDecay,
    delta: u64,
    parents: &Vec<ChildOf>,
    with_health: &Vec<Entity>,
) -> (event: Option<DamageReceivedEvent>)
    ensures
        final(hp_decay)@ == (HpDecayView {
            timer: old(hp_decay)@.timer.ticked(delta as int),
            ..old(hp_decay)@
        }),
        event == if final(hp_decay)@.timer.times_finished_this_tick > 0 {
            match nearest_holder(parents@, with_health@, entity, parents@.len()) {
                Some(target) => Some(
                    DamageReceivedEvent {
                        entity: target,
                        damage_type: DamageType::True,
                        damage: decay_damage(
                            old(hp_decay)@.hp,
                            final(hp_decay)@.timer.times_finished_this_tick,
                        ),
                    },
                ),
                None => None,
            }
        } else {
            None
        },
{
    hp_decay.timer.tick(delta);
    let ticks = hp_decay.timer.times_finished_this_tick();

    if ticks > 0 {
        // find parent
        match find_parent(entity, parents, with_health) {
            Some(target) => {
                // tick hp
                assert(hp_decay.hp * ticks <= u64::MAX * u32::MAX) by (nonlinear_arith)
                    requires
                        0 <= hp_decay.hp <= u64::MAX,
                        0 <= ticks <= u32::MAX,
                ;
                let total: u128 = hp_decay.hp as u128 * ticks as u128;
                let damage: u64 = if total > u64::MAX as u128 {
                    u64::MAX
                } else {
                    total as u64
                };
                Some(
                    DamageReceivedEvent::new(target).with_type(DamageType::True).with_damage(damage),
                )
            },
            None => None,
        }
    } else {
        None
    }
}

} // verus!
