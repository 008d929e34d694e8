//! Attack patterns.

use vstd::prelude::*;

use crate::battle::damage::{DamageReceivedEvent, DamageType};
use crate::battle::targeting::Targets;
use crate::fixed::ONE;
use crate::stats::stat::{Aspd, Atk, AtkInterval};
use crate::stats::Stat;
use crate::timer::{lemma_ticks_add_up, Timer, TimerMode, TimerView};
use crate::Entity;

verus! {

/// An autoattack scheme that does damage as soon as the frontswing concludes.
#[derive(Clone, Copy, Debug, PartialEq, Eq, Structural)]
pub struct Melee {
    pub damage_type: DamageType,
    /// Whether the attack cycle was in its frontswing when last looked at.
    pub in_frontswing: bool,
}

impl Default for Melee {
    fn default() -> (melee: Melee)
        ensures
            melee == (Melee { damage_type: DamageType::Physical, in_frontswing: false }),
    {
        Melee { damage_type: DamageType::Physical, in_frontswing: false }
    }
}

/// What an [`AttackCycle`] holds, as plain values. Times are in nanoseconds.
pub struct AttackCycleView {
    pub timer: TimerView,
    pub standby: bool,
    pub scaled_frontswing: int,
    pub scaled_backswing: int,
    pub frontswing: int,
    pub backswing: int,
    /// The time elapsed on the cycle before the last tick.
    pub last_elapsed: int,
}

impl AttackCycleView {
    /// The interval of the cycle.
    pub open spec fn interval(self) -> int {
        self.timer.duration
    }

    /// What holds of every cycle: the swings as scaled are no longer than
    /// they were given and fit into the interval together, and no more time
    /// has elapsed than an interval takes.
    pub open spec fn contained(self) -> bool {
        &&& self.timer.mode == TimerMode::Repeating
        &&& 0 <= self.timer.elapsed <= self.timer.duration
        &&& 0 <= self.scaled_frontswing <= self.frontswing
        &&& 0 <= self.scaled_backswing <= self.backswing
        &&& self.scaled_frontswing + self.scaled_backswing <= self.timer.duration
    }

    /// The cycle with its swings fitted to its interval.
    ///
    /// Swings that take less than the interval together are as they were
    /// given. Longer ones are both shortened in the proportion of the
    /// interval to their sum.
    pub open spec fn fitted(self) -> AttackCycleView {
        let total = self.frontswing + self.backswing;
        if total == 0 {
            self
        } else if total < self.interval() {
            AttackCycleView {
                scaled_frontswing: self.frontswing,
                scaled_backswing: self.backswing,
                ..self
            }
        } else {
            AttackCycleView {
                scaled_frontswing: self.interval() * self.frontswing / total,
                scaled_backswing: self.interval() * self.backswing / total,
                ..self
            }
        }
    }

    /// A timer for a cycle of the given interval on which `elapsed` has
    /// elapsed.
    pub open spec fn timer_at(interval: int, elapsed: int) -> TimerView {
        TimerView {
            elapsed,
            duration: interval,
            mode: TimerMode::Repeating,
            finished: false,
            times_finished_this_tick: 0,
        }
    }

    /// The cycle after its interval was set.
    ///
    /// The time elapsed keeps its proportion to the interval, and the swings
    /// are fitted to the new interval. A cycle that had no interval at all
    /// is taken to its end and keeps its swings.
    pub open spec fn with_interval(self, interval: int) -> AttackCycleView {
        if self.interval() == interval {
            self
        } else if self.interval() == 0 {
            AttackCycleView { timer: Self::timer_at(interval, interval), ..self }
        } else {
            (AttackCycleView {
                timer: Self::timer_at(interval, self.timer.elapsed * interval / self.interval()),
                ..self
            }).fitted()
        }
    }

    /// Whether the cycle is in its frontswing.
    pub open spec fn in_frontswing(self) -> bool {
        self.timer.elapsed < self.scaled_frontswing
    }

    /// Whether the cycle is in its backswing.
    pub open spec fn in_backswing(self) -> bool {
        self.scaled_frontswing <= self.timer.elapsed < self.scaled_frontswing
            + self.scaled_backswing
    }

    /// The cycle after `delta` nanoseconds have passed.
    ///
    /// A cycle on standby with nothing elapsed is frozen. Any other cycle
    /// runs on; on standby it falls back to nothing elapsed if this completes
    /// it or leaves it short of the end of its frontswing.
    pub open spec fn ticked(self, delta: int) -> AttackCycleView {
        if self.standby && self.timer.elapsed == 0 {
            AttackCycleView { timer: self.timer.ticked(0), last_elapsed: 0, ..self }
        } else {
            let timer = self.timer.ticked(delta);
            if self.standby && (timer.times_finished_this_tick > 0 || timer.elapsed
                < self.scaled_frontswing) {
                AttackCycleView {
                    timer: TimerView { elapsed: 0, ..timer },
                    last_elapsed: self.timer.elapsed,
                    ..self
                }
            } else {
                AttackCycleView { timer, last_elapsed: self.timer.elapsed, ..self }
            }
        }
    }

    /// The hits that the last tick is credited with: one for each cycle that
    /// it completed beyond the first, and one more if it took the time
    /// elapsed from before the end of the frontswing to it or past it. A
    /// cycle without an interval has no swing to complete and is credited
    /// with none.
    pub open spec fn attacks_this_tick(self) -> int {
        let completed = if self.timer.times_finished_this_tick > 1 {
            self.timer.times_finished_this_tick - 1
        } else {
            0
        };
        let crossed: int = if self.last_elapsed < self.scaled_frontswing
            <= self.timer.elapsed {
            1
        } else {
            0
        };
        if self.interval() == 0 {
            0
        } else {
            completed + crossed
        }
    }
}

/// Fitted swings are contained in the interval.
pub proof fn lemma_fitted_contained(cycle: AttackCycleView)
    requires
        cycle.timer.mode == TimerMode::Repeating,
        0 <= cycle.timer.elapsed <= cycle.timer.duration,
        0 <= cycle.frontswing,
        0 <= cycle.backswing,
        0 <= cycle.scaled_frontswing <= cycle.frontswing,
        0 <= cycle.scaled_backswing <= cycle.backswing,
    ensures
        cycle.fitted().contained(),
{
    let total = cycle.frontswing + cycle.backswing;
    let i = cycle.interval();
    if total > 0 && total >= i {
        let f = cycle.frontswing;
        let b = cycle.backswing;
        lemma_share(i, f, total);
        lemma_share(i, b, total);
        let qf = i * f / total;
        let qb = i * b / total;
        vstd::arithmetic::div_mod::lemma_fundamental_div_mod(i * f, total);
        vstd::arithmetic::div_mod::lemma_fundamental_div_mod(i * b, total);
        vstd::arithmetic::div_mod::lemma_mod_bound(i * f, total);
        vstd::arithmetic::div_mod::lemma_mod_bound(i * b, total);
        assert(qf + qb <= i) by (nonlinear_arith)
            requires
                total > 0,
                total == f + b,
                i * f >= total * qf,
                i * b >= total * qb,
        ;
    }
}

/// A share `whole * part / total` of a whole is not negative, and no more
/// than the part where the whole is no more than the total.
proof fn lemma_share(whole: int, part: int, total: int)
    requires
        0 <= whole,
        0 <= part <= total,
        0 < total,
    ensures
        0 <= whole * part / total <= whole,
        whole <= total ==> whole * part / total <= part,
{
    assert(0 <= whole * part <= whole * total) by (nonlinear_arith)
        requires
            0 <= whole,
            0 <= part <= total,
    ;
    assert(whole * total == total * whole) by (nonlinear_arith);
    vstd::arithmetic::div_mod::lemma_div_pos_is_pos(whole * part, total);
    vstd::arithmetic::div_mod::lemma_div_is_ordered(whole * part, total * whole, total);
    vstd::arithmetic::div_mod::lemma_div_multiples_vanish(whole, total);
    if whole <= total {
        assert(whole * part <= total * part) by (nonlinear_arith)
            requires
                0 <= whole <= total,
                0 <= part,
        ;
        vstd::arithmetic::div_mod::lemma_div_is_ordered(whole * part, total * part, total);
        vstd::arithmetic::div_mod::lemma_div_multiples_vanish(part, total);
    }
}

/// Phase containment: however the interval of a cycle is set, its swings as
/// scaled fit into the interval together.
pub proof fn lemma_set_interval_contained(cycle: AttackCycleView, interval: int)
    requires
        cycle.contained(),
        0 <= interval,
    ensures
        cycle.with_interval(interval).contained(),
        cycle.with_interval(interval).scaled_frontswing + cycle.with_interval(
            interval,
        ).scaled_backswing <= interval,
        cycle.with_interval(interval).interval() == interval,
{
    if cycle.interval() != interval && cycle.interval() != 0 {
        lemma_share(interval, cycle.timer.elapsed, cycle.interval());
        assert(cycle.timer.elapsed * interval == interval * cycle.timer.elapsed)
            by (nonlinear_arith);
        lemma_fitted_contained(
            AttackCycleView {
                timer: AttackCycleView::timer_at(
                    interval,
                    cycle.timer.elapsed * interval / cycle.interval(),
                ),
                ..cycle
            },
        );
    }
}

/// A ticked cycle is contained as it was before.
pub proof fn lemma_ticked_contained(cycle: AttackCycleView, delta: int)
    requires
        cycle.contained(),
        0 <= delta,
    ensures
        cycle.ticked(delta).contained(),
{
    let d = cycle.timer.duration;
    if d > 0 {
        vstd::arithmetic::div_mod::lemma_mod_bound(cycle.timer.elapsed + delta, d);
    }
}

/// A cycle that runs freely does not care how the time is cut into ticks:
/// after two ticks it stands where it stands after one tick of their sum, and
/// it has been completed as often in all.
pub proof fn lemma_cycle_ticks_add_up(cycle: AttackCycleView, first: int, second: int)
    requires
        cycle.contained(),
        !cycle.standby,
        cycle.interval() > 0,
        cycle.timer.elapsed < cycle.interval(),
        0 <= first,
        0 <= second,
        (cycle.timer.elapsed + first + second) / cycle.interval() <= u32::MAX,
    ensures
        cycle.ticked(first).ticked(second).timer.elapsed == cycle.ticked(
            first + second,
        ).timer.elapsed,
        cycle.ticked(first).timer.times_finished_this_tick + cycle.ticked(first).ticked(
            second,
        ).timer.times_finished_this_tick == cycle.ticked(
            first + second,
        ).timer.times_finished_this_tick,
{
    lemma_ticks_add_up(cycle.timer, first, second);
}

/// Within one cycle, hit crediting does not care how the time is cut into
/// ticks: while a cycle that runs freely is not completed, two ticks are
/// credited with as many hits in all as one tick of their sum.
pub proof fn lemma_hits_add_up_within_a_cycle(cycle: AttackCycleView, first: int, second: int)
    requires
        cycle.contained(),
        !cycle.standby,
        0 <= first,
        0 <= second,
        cycle.timer.elapsed + first + second < cycle.interval(),
    ensures
        cycle.ticked(first).attacks_this_tick() + cycle.ticked(first).ticked(
            second,
        ).attacks_this_tick() == cycle.ticked(first + second).attacks_this_tick(),
        cycle.ticked(first).ticked(second).timer == cycle.ticked(first + second).timer,
{
}

/// Basic attack cycling.
///
/// The cycle repeats with the attack interval of the entity. It begins with
/// the frontswing, at whose end a melee attack connects, goes on with the
/// backswing and waits for the rest of the interval.
///
/// ```text
///       |                       interval                     |
/// ...---|---frontswing---|---backswing---|-------------------|---...
/// ```
#[derive(Clone, Copy, Debug)]
pub struct AttackCycle {
    timer: Timer,
    standby: bool,
    scaled_frontswing: u64,
    scaled_backswing: u64,
    frontswing: u64,
    backswing: u64,
    last_elapsed: u64,
}

impl View for AttackCycle {
    type V = AttackCycleView;

    closed spec fn view(&self) -> AttackCycleView {
        AttackCycleView {
            timer: self.timer@,
            standby: self.standby,
            scaled_frontswing: self.scaled_frontswing as int,
            scaled_backswing: self.scaled_backswing as int,
            frontswing: self.frontswing as int,
            backswing: self.backswing as int,
            last_elapsed: self.last_elapsed as int,
        }
    }
}

impl AttackCycle {
    #[verifier::type_invariant]
    spec fn well_formed(self) -> bool {
        self@.contained()
    }

    /// Creates a new `AttackCycle` whose interval is the longest there is.
    ///
    /// This takes animation details (`frontswing`, `backswing`), in
    /// nanoseconds, so the attacks line up with the animations. Together they
    /// are no longer than the longest interval.
    pub fn new(frontswing: u64, backswing: u64) -> (cycle: AttackCycle)
        requires
            frontswing + backswing <= u64::MAX,
        ensures
            cycle@ == (AttackCycleView {
                timer: AttackCycleView::timer_at(u64::MAX as int, 0),
                standby: false,
                scaled_frontswing: frontswing as int,
                scaled_backswing: backswing as int,
                frontswing: frontswing as int,
                backswing: backswing as int,
                last_elapsed: 0,
            }),
            cycle@.contained(),
    {
        AttackCycle {
            timer: Timer::new(u64::MAX, TimerMode::Repeating),
            standby: false,
            scaled_frontswing: frontswing,
            scaled_backswing: backswing,
            frontswing,
            backswing,
            last_elapsed: 0,
        }
    }

    /// Resets the attack cycle: nothing has elapsed on it.
    pub fn reset(&mut self)
        ensures
            final(self)@ == (AttackCycleView {
                timer: AttackCycleView::timer_at(old(self)@.interval(), 0),
                ..old(self)@
            }),
            final(self)@.contained(),
    {
        proof {
            use_type_invariant(&*self);
        }
        let mut timer = self.timer;
        timer.reset();
        self.timer = timer;
    }

    /// Gets the interval of the attack cycle.
    pub fn interval(&self) -> (interval: u64)
        ensures
            interval == self@.interval(),
    {
        self.timer.duration()
    }

    /// Sets the interval of the attack cycle, scaling the time elapsed on the
    /// cycle.
    pub fn set_interval(&mut self, interval: u64)
        ensures
            final(self)@ == old(self)@.with_interval(interval as int),
            final(self)@.contained(),
            final(self)@.scaled_frontswing + final(self)@.scaled_backswing <= interval,
    {
        proof {
            use_type_invariant(&*self);
            lemma_set_interval_contained(self@, interval as int);
        }
        if self.timer.duration() == interval {
            return ;
        }
        if self.timer.duration() == 0 {
            // create new timer
            let mut timer = Timer::new(interval, TimerMode::Repeating);
            timer.set_elapsed(interval);
            self.timer = timer;
            return ;
        }
        // set the time elapsed by ratio

        let ghost before = self@;
        proof {
            lemma_share(interval as int, self@.timer.elapsed, self@.interval());
            assert(self@.timer.elapsed * interval == interval * self@.timer.elapsed)
                by (nonlinear_arith);
            assert(self@.timer.elapsed * interval <= u64::MAX * u64::MAX) by (nonlinear_arith)
                requires
                    0 <= self@.timer.elapsed <= u64::MAX,
                    0 <= interval <= u64::MAX,
            ;
        }
        let elapsed: u128 = self.timer.elapsed() as u128 * interval as u128
            / self.timer.duration() as u128;
        let mut timer = Timer::new(interval, TimerMode::Repeating);
        timer.set_elapsed(elapsed as u64);

        // scale frontswing and backswing if necessary
        let total: u128 = self.frontswing as u128 + self.backswing as u128;
        let ghost moved = AttackCycleView {
            timer: AttackCycleView::timer_at(interval as int, elapsed as int),
            ..before
        };
        proof {
            lemma_fitted_contained(moved);
        }
        if total == 0 {
            self.timer = timer;
        } else if total < interval as u128 {
            // no scaling is needed
            *self = AttackCycle {
                timer,
                scaled_frontswing: self.frontswing,
                scaled_backswing: self.backswing,
                ..*self
            };
        } else {
            // scaling is needed
            proof {
                lemma_share(interval as int, self.frontswing as int, total as int);
                lemma_share(interval as int, self.backswing as int, total as int);
                assert(interval * self.frontswing <= u64::MAX * u64::MAX) by (nonlinear_arith)
                    requires
                        0 <= self.frontswing <= u64::MAX,
                        0 <= interval <= u64::MAX,
                ;
                assert(interval * self.backswing <= u64::MAX * u64::MAX) by (nonlinear_arith)
                    requires
                        0 <= self.backswing <= u64::MAX,
                        0 <= interval <= u64::MAX,
                ;
            }
            let scaled_frontswing: u128 = interval as u128 * self.frontswing as u128 / total;
            let scaled_backswing: u128 = interval as u128 * self.backswing as u128 / total;
            *self = AttackCycle {
                timer,
                scaled_frontswing: scaled_frontswing as u64,
                scaled_backswing: scaled_backswing as u64,
                ..*self
            };
        }
    }

    /// Sets the standby status of the `AttackCycle`.
    ///
    /// If the `AttackCycle` is on standby, after the current cycle has
    /// finished, the elapsed time will stay at zero until the `AttackCycle`
    /// leaves standby. This is what happens while the entity finds no valid
    /// targets.
    pub fn set_standby(&mut self, standby: bool)
        ensures
            final(self)@ == (AttackCycleView { standby, ..old(self)@ }),
    {
        proof {
            use_type_invariant(&*self);
        }
        self.standby = standby;
    }

    /// Whether the cycle is on standby.
    pub fn standby(&self) -> (standby: bool)
        ensures
            standby == self@.standby,
    {
        self.standby
    }

    /// Gets the frontswing period, which may have been scaled by short attack
    /// intervals.
    pub fn frontswing(&self) -> (frontswing: u64)
        ensures
            frontswing == self@.scaled_frontswing,
            frontswing + self@.scaled_backswing <= self@.interval(),
    {
        proof {
            use_type_invariant(self);
        }
        self.scaled_frontswing
    }

    /// Gets the backswing period, which may have been scaled by short attack
    /// intervals.
    pub fn backswing(&self) -> (backswing: u64)
        ensures
            backswing == self@.scaled_backswing,
            self@.scaled_frontswing + backswing <= self@.interval(),
    {
        proof {
            use_type_invariant(self);
        }
        self.scaled_backswing
    }

    /// Checks if the attack cycle is currently in the frontswing.
    pub fn in_frontswing(&self) -> (in_frontswing: bool)
        ensures
            in_frontswing == self@.in_frontswing(),
    {
        self.timer.elapsed() < self.scaled_frontswing
    }

    /// Checks if the attack cycle is currently in the backswing.
    pub fn in_backswing(&self) -> (in_backswing: bool)
        ensures
            in_backswing == self@.in_backswing(),
    {
        let elapsed = self.timer.elapsed();
        let swings: u128 = self.scaled_frontswing as u128 + self.scaled_backswing as u128;
        (elapsed as u128) < swings && elapsed >= self.scaled_frontswing
    }

    /// The amount elapsed in the current attack cycle.
    pub fn elapsed(&self) -> (elapsed: u64)
        ensures
            elapsed == self@.timer.elapsed,
            elapsed <= self@.interval(),
    {
        proof {
            use_type_invariant(self);
        }
        self.timer.elapsed()
    }

    /// Ticks the `AttackCycle`.
    pub fn tick(&mut self, delta: u64)
        ensures
            final(self)@ == old(self)@.ticked(delta as int),
            final(self)@.contained(),
    {
        proof {
            use_type_invariant(&*self);
            lemma_ticked_contained(self@, delta as int);
        }
        let last_elapsed = self.timer.elapsed();
        let mut timer = self.timer;
        if self.standby && last_elapsed == 0 {
            // do not run on while on standby
            timer.tick(0);
            *self = AttackCycle { timer, last_elapsed: 0, ..*self };
            return ;
        }
        // tick timer

        timer.tick(delta);
        if self.standby && (  // timer finished
        timer.just_finished()  // or timer hasn't passed past the frontswing
         || timer.elapsed() < self.scaled_frontswing) {
            // clamp timer
            timer.set_elapsed(0);
        }
        *self = AttackCycle { timer, last_elapsed, ..*self };
    }

    /// The number of hits that the last tick is credited with.
    pub fn attacks_this_tick(&self) -> (attacks: u32)
        ensures
            attacks == self@.attacks_this_tick(),
    {
        let times = self.timer.times_finished_this_tick();
        let completed: u32 = if times > 1 {
            times - 1
        } else {
            0
        };
        if self.timer.duration() == 0 {
            0
        } else if self.last_elapsed < self.scaled_frontswing && self.scaled_frontswing
            <= self.timer.elapsed() {
            completed + 1
        } else {
            completed
        }
    }
}

/// The damage events of one hit: one for each target, in the order of the
/// targets.
pub open spec fn volley(targets: Seq<Entity>, damage_type: DamageType, damage: u64) -> Seq<
    DamageReceivedEvent,
> {
    targets.map_values(|target: Entity| DamageReceivedEvent { entity: target, damage_type, damage })
}

/// The damage events of `hits` hits, one hit after the other.
pub open spec fn volleys(
    hits: int,
    targets: Seq<Entity>,
    damage_type: DamageType,
    damage: u64,
) -> Seq<DamageReceivedEvent>
    decreases hits,
{
    if hits <= 0 {
        Seq::empty()
    } else {
        volleys(hits - 1, targets, damage_type, damage) + volley(targets, damage_type, damage)
    }
}

/// The damage of an attack that deals the whole of an ATK stat, as a
/// fixed-point number.
pub open spec fn attack_damage(atk: int) -> u64 {
    (atk * ONE) as u64
}

/// Deals the damage of the hits that the last tick of the attack cycle is
/// credited with.
///
/// Each hit deals the computed ATK of the entity to each of its targets, as
/// damage of the type of the attack. An entity without ATK deals none, and
/// its attack is left as it is.
pub fn do_melee_auto_attack(
    attack_cycle: &AttackCycle,
    targets: &Targets,
    melee: &mut Melee,
    atk: Option<&Atk>,
) -> (events: Vec<DamageReceivedEvent>)
    ensures
        attack_cycle@.attacks_this_tick() > 0 && atk.is_none() ==> {
            &&& events@.len() == 0
            &&& *final(melee) == *old(melee)
        },
        attack_cycle@.attacks_this_tick() > 0 && atk.is_some() ==> events@ == volleys(
            attack_cycle@.attacks_this_tick(),
            targets@,
            old(melee).damage_type,
            attack_damage(atk.unwrap().value()),
        ),
        attack_cycle@.attacks_this_tick() == 0 ==> events@.len() == 0,
        !(attack_cycle@.attacks_this_tick() > 0 && atk.is_none()) ==> *final(melee) == (Melee {
            in_frontswing: attack_cycle@.in_frontswing(),
            ..*old(melee)
        }),
{
    let mut events: Vec<DamageReceivedEvent> = Vec::new();
    let hits = attack_cycle.attacks_this_tick();
    // check if we can do an attack
    if hits > 0 {
        let atk = match atk {
            Some(atk) => atk.get(),
            None => {
                return events;
            },
        };
        let damage: u64 = atk as u64 * 1_000_000;
        let damage_type = melee.damage_type;
        let list = targets.as_slice();
        let mut hit: u32 = 0;
        while hit < hits
            invariant
                hit <= hits,
                list@ == targets@,
                events@ == volleys(hit as int, targets@, damage_type, damage),
            decreases hits - hit,
        {
            let ghost before = events@;
            let mut i: usize = 0;
            while i < list.len()
                invariant
                    i <= list.len(),
                    list@ == targets@,
                    events@ == before + volley(targets@.take(i as int), damage_type, damage),
                decreases list.len() - i,
            {
                events.push(DamageReceivedEvent::new(list[i]).with_type(damage_type).with_damage(damage));
                i += 1;
                assert(events@ =~= before + volley(targets@.take(i as int), damage_type, damage));
            }
            assert(targets@.take(i as int) == targets@);
            hit += 1;
        }
    }
    melee.in_frontswing = attack_cycle.in_frontswing();
    events
}

/// Puts an attack cycle on standby while the entity has no target.
///
/// `target_counts` holds the number of targets of the entity itself and of
/// each entity below it that has targets of its own.
pub fn standby_with_no_targets(attack_cycle: &mut AttackCycle, target_counts: &Vec<usize>)
    ensures
        final(attack_cycle)@ == (AttackCycleView {
            standby: forall|i: int| 0 <= i < target_counts@.len() ==> target_counts@[i] == 0,
            ..old(attack_cycle)@
        }),
{
    let mut has_targets = false;
    let mut i: usize = 0;
    while i < target_counts.len() && !has_targets
        invariant
            i <= target_counts.len(),
            has_targets == exists|j: int| 0 <= j < i && target_counts@[j] > 0,
        decreases target_counts.len() - i,
    {
        has_targets = target_counts[i] > 0;
        i += 1;
    }
    attack_cycle.set_standby(!has_targets);
}

/// The attack interval in nanoseconds that comes of an attack interval stat,
/// in seconds as a fixed-point number, and an attack speed stat.
///
/// Every 100 ASPD is 1.0x attack speed. An entity with no attack speed gets
/// the longest interval there is and never attacks.
pub open spec fn attack_interval(atk_interval: int, aspd: int) -> int {
    if aspd > 0 {
        if atk_interval * 100_000 / aspd > u64::MAX {
            u64::MAX as int
        } else {
            atk_interval * 100_000 / aspd
        }
    } else {
        u64::MAX as int
    }
}

/// Computes the attack interval of an entity from its stats.
pub fn attack_interval_of(atk_interval: &AtkInterval, aspd: &Aspd) -> (interval: u64)
    ensures
        interval == attack_interval(atk_interval.value(), aspd.value()),
{
    let speed = aspd.get();
    if speed > 0 {
        let nanos: u128 = atk_interval.get() as u128 * 100_000 / speed as u128;
        if nanos > u64::MAX as u128 {
            u64::MAX
        } else {
            nanos as u64
        }
    } else {
        u64::MAX
    }
}

/// Sets the interval of an attack cycle by the stats of the entity and lets
/// `delta` nanoseconds pass on it.
pub fn tick_attack_cycle_timers(
    attack_cycle: &mut AttackCycle,
    atk_interval: &AtkInterval,
    aspd: &Aspd,
    delta: u64,
)
    ensures
        final(attack_cycle)@ == old(attack_cycle)@.with_interval(
            attack_interval(atk_interval.value(), aspd.value()),
        ).ticked(delta as int),
        final(attack_cycle)@.contained(),
{
    // find attack interval
    let interval = attack_interval_of(atk_interval, aspd);

    // set interval
    attack_cycle.set_interval(interval);

    attack_cycle.tick(delta);
}

} // verus!
