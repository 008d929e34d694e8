//! Skills: the energy they run on, and how they are set off.
//!
//! A skill gathers skill points (SP). With enough of them and enough targets
//! it goes off, pays for it in SP, and gathers no more until its lockout is
//! over.

use vstd::prelude::*;

use crate::battle::targeting::Targets;
use crate::fixed::{clamp_i64, hold_i64, mul_div, trunc_div, ONE};
use crate::timer::{Timer, TimerMode, TimerView};
use crate::Entity;

verus! {

/// How long a skill without a duration of its own stays in SP lockout once
/// it has gone off: three quarters of a second.
pub const BURST_SP_LOCKOUT_DURATION: u64 = 750_000_000;

/// A number of charges, which is never zero.
#[derive(Clone, Copy, Debug)]
pub struct Charges(u32);

impl Charges {
    #[verifier::type_invariant]
    spec fn not_zero(self) -> bool {
        self.0 >= 1
    }

    /// The number of charges.
    pub closed spec fn count(self) -> int {
        self.0 as int
    }

    /// A number of charges, unless it is zero.
    pub fn new(charges: u32) -> (made: Option<Charges>)
        ensures
            match made {
                Some(made) => charges != 0 && made.count() == charges,
                None => charges == 0,
            },
    {
        if charges == 0 {
            None
        } else {
            Some(Charges(charges))
        }
    }

    /// The number of charges.
    pub fn get(&self) -> (charges: u32)
        ensures
            charges == self.count(),
            charges >= 1,
    {
        proof {
            use_type_invariant(self);
        }
        self.0
    }
}

/// Behavior when sp is added to a skill.
#[derive(Clone, Copy, Debug)]
pub enum OverflowBehavior {
    /// SP caps at max SP.
    Capped,
    /// SP caps at a multiple of max SP.
    Charge(Charges),
}

impl Default for OverflowBehavior {
    fn default() -> (overflow: OverflowBehavior)
        ensures
            overflow is Capped,
    {
        OverflowBehavior::Capped
    }
}

impl OverflowBehavior {
    /// How many times max SP the skill can hold.
    pub open spec fn charges(self) -> int {
        match self {
            OverflowBehavior::Capped => 1,
            OverflowBehavior::Charge(charges) => charges.count(),
        }
    }
}

/// What a [`Skill`] holds, as plain values. SP are fixed-point numbers.
pub struct SkillView {
    pub sp: int,
    pub max_sp: int,
    pub sp_lockout: bool,
    pub overflow: OverflowBehavior,
}

impl SkillView {
    /// The most SP that the skill can hold.
    pub open spec fn cap(self) -> int {
        clamp_i64(self.max_sp * self.overflow.charges())
    }

    /// `sp` held between zero and the cap of the skill.
    pub open spec fn held(self, sp: int) -> int {
        if sp < 0 {
            0
        } else if sp > self.cap() {
            self.cap()
        } else {
            sp
        }
    }

    /// The skill after its SP were changed to `sp`: nothing happens in SP
    /// lockout, and the SP stay between zero and the cap.
    pub open spec fn mutated(self, sp: int) -> SkillView {
        if self.sp_lockout {
            self
        } else {
            SkillView { sp: self.held(sp), ..self }
        }
    }

    /// The SP as a share of max SP, a fixed-point number. With charges it can
    /// be more than 1.0.
    pub open spec fn percentage(self) -> int {
        clamp_i64(trunc_div(self.sp * ONE, self.max_sp))
    }

    /// Whether the skill has the SP to go off.
    pub open spec fn charged(self) -> bool {
        self.sp >= self.max_sp
    }

    /// Whether the skill can go off: it is not in SP lockout and has the SP.
    /// A skill goes off from idle only, never while an earlier activation
    /// still locks it.
    pub open spec fn ready(self) -> bool {
        !self.sp_lockout && self.charged()
    }
}

/// The base component for any skill.
#[derive(Clone, Copy, Debug)]
pub struct Skill {
    sp: i64,
    max_sp: i64,
    sp_lockout: bool,
    overflow: OverflowBehavior,
}

impl View for Skill {
    type V = SkillView;

    closed spec fn view(&self) -> SkillView {
        SkillView {
            sp: self.sp as int,
            max_sp: self.max_sp as int,
            sp_lockout: self.sp_lockout,
            overflow: self.overflow,
        }
    }
}

impl Default for Skill {
    fn default() -> (skill: Skill)
        ensures
            skill@ == (SkillView {
                sp: 0,
                max_sp: ONE as int,
                sp_lockout: false,
                overflow: OverflowBehavior::Capped,
            }),
    {
        Skill { sp: 0, max_sp: ONE, sp_lockout: false, overflow: OverflowBehavior::Capped }
    }
}

impl Skill {
    #[verifier::type_invariant]
    spec fn bounded(self) -> bool {
        &&& self.max_sp > 0
        &&& 0 <= self.sp <= self@.cap()
    }

    /// Creates a new `Skill`, with SP at 0. Max SP is more than zero.
    pub fn new(max_sp: i64, overflow: OverflowBehavior) -> (skill: Skill)
        requires
            max_sp > 0,
        ensures
            skill@ == (SkillView { sp: 0, max_sp: max_sp as int, sp_lockout: false, overflow }),
    {
        proof {
            match overflow {
                OverflowBehavior::Capped => {},
                OverflowBehavior::Charge(charges) => {
                    use_type_invariant(&charges);
                    assert(max_sp * charges.count() >= 0) by (nonlinear_arith)
                        requires
                            max_sp > 0,
                            charges.count() >= 1,
                    ;
                },
            }
        }
        Skill { sp: 0, max_sp, sp_lockout: false, overflow }
    }

    /// The skill points (SP) of the skill.
    pub fn sp(&self) -> (sp: i64)
        ensures
            sp == self@.sp,
            0 <= sp <= self@.cap(),
    {
        proof {
            use_type_invariant(self);
        }
        self.sp
    }

    /// The maximum skill points (max SP) of the skill.
    pub fn max_sp(&self) -> (max_sp: i64)
        ensures
            max_sp == self@.max_sp,
            max_sp > 0,
    {
        proof {
            use_type_invariant(self);
        }
        self.max_sp
    }

    /// The most SP that the skill can hold.
    pub fn cap(&self) -> (cap: i64)
        ensures
            cap == self@.cap(),
    {
        match self.overflow {
            OverflowBehavior::Capped => {
                assert(self.max_sp * 1 == self.max_sp);
                self.max_sp
            },
            OverflowBehavior::Charge(charges) => {
                proof {
                    assert(-0x8000_0000_0000_0000_0000_0000 <= self.max_sp * charges.count()
                        <= 0x8000_0000_0000_0000_0000_0000) by (nonlinear_arith)
                        requires
                            -0x8000_0000_0000_0000 <= self.max_sp <= 0x8000_0000_0000_0000,
                            0 <= charges.count() <= 0x1_0000_0000,
                    ;
                }
                hold_i64(self.max_sp as i128 * charges.get() as i128)
            },
        }
    }

    fn put(&mut self, sp: i64)
        ensures
            final(self)@ == old(self)@.mutated(sp as int),
    {
        proof {
            use_type_invariant(&*self);
        }
        if !self.sp_lockout {
            let cap = self.cap();
            self.sp = if sp < 0 {
                0
            } else if sp > cap {
                cap
            } else {
                sp
            };
        }
    }

    /// Modifies the SP while respecting max SP: `f` is given the SP and
    /// returns what they are to be.
    ///
    /// This function does nothing while the `Skill` is in SP lockout.
    pub fn mutate<F>(&mut self, f: F) where F: FnOnce(i64) -> i64
        requires
            !old(self)@.sp_lockout ==> f.requires((old(self)@.sp as i64,)),
        ensures
            old(self)@.sp_lockout ==> final(self)@ == old(self)@,
            !old(self)@.sp_lockout ==> exists|sp: i64|
                f.ensures((old(self)@.sp as i64,), sp) && final(self)@ == old(self)@.mutated(
                    sp as int,
                ),
    {
        if !self.sp_lockout {
            let sp = f(self.sp);
            self.put(sp);
        }
    }

    /// Percentage of SP to max SP, as a fixed-point number.
    ///
    /// **This number can be greater than 1.0!** If the `Skill` has charges,
    /// the percentage will represent how many charges have been filled.
    pub fn percentage(&self) -> (share: i64)
        ensures
            share == self@.percentage(),
            share >= ONE <==> self@.charged(),
    {
        proof {
            use_type_invariant(self);
            lemma_charged(self@);
        }
        mul_div(self.sp, ONE, self.max_sp)
    }

    /// Whether the skill is in SP lockout (cannot gain or lose SP).
    pub fn sp_lockout(&self) -> (sp_lockout: bool)
        ensures
            sp_lockout == self@.sp_lockout,
    {
        self.sp_lockout
    }

    /// Sets the SP lockout status.
    pub fn set_sp_lockout(&mut self, sp_lockout: bool)
        ensures
            final(self)@ == (SkillView { sp_lockout, ..old(self)@ }),
    {
        proof {
            use_type_invariant(&*self);
        }
        self.sp_lockout = sp_lockout;
    }

    /// Gives the skill initial sp.
    pub fn with_initial_sp(self, initial_sp: i64) -> (skill: Skill)
        ensures
            skill@ == self@.mutated(initial_sp as int),
    {
        let mut skill = self;
        skill.put(initial_sp);
        skill
    }
}

/// A skill is at 1.0 or more of its max SP exactly when it has max SP or
/// more.
pub proof fn lemma_charged(skill: SkillView)
    requires
        skill.max_sp > 0,
        0 <= skill.sp <= i64::MAX,
    ensures
        skill.percentage() >= ONE <==> skill.charged(),
{
    let m = skill.max_sp;
    let s = skill.sp;
    assert(s * ONE >= 0) by (nonlinear_arith)
        requires
            s >= 0,
    ;
    assert(m * ONE == ONE * m) by (nonlinear_arith);
    if s >= m {
        assert(s * ONE >= ONE * m) by (nonlinear_arith)
            requires
                s >= m,
        ;
        vstd::arithmetic::div_mod::lemma_div_is_ordered(ONE * m, s * ONE, m);
        vstd::arithmetic::div_mod::lemma_div_multiples_vanish(ONE as int, m);
        assert(m * ONE / m == ONE);
    } else {
        assert(s * ONE < ONE * m) by (nonlinear_arith)
            requires
                s < m,
        ;
        vstd::arithmetic::div_mod::lemma_div_by_multiple_is_strongly_ordered(
            s * ONE,
            ONE * m,
            ONE as int,
            m,
        );
        vstd::arithmetic::div_mod::lemma_div_multiples_vanish(ONE as int, m);
    }
}

/// Automatic skill activation.
///
/// Activates the associated skill as soon as a minimum amount of targets are
/// available.
#[derive(Clone, Copy, Debug, PartialEq, Eq, Structural)]
pub struct AutoSkillActivation {
    /// The minimum amount of targets needed to activate the skill.
    pub min_targets: usize,
}

impl Default for AutoSkillActivation {
    fn default() -> (activation: AutoSkillActivation)
        ensures
            activation.min_targets == 0,
    {
        AutoSkillActivation { min_targets: 0 }
    }
}

impl AutoSkillActivation {
    /// Shorthand for auto skill activation that want one target.
    pub fn one() -> (activation: AutoSkillActivation)
        ensures
            activation.min_targets == 1,
    {
        AutoSkillActivation { min_targets: 1 }
    }
}

/// A timer that denotes how long a skill remains in SP lockout.
///
/// It starts when the skill goes off. When it runs out, the lockout is
/// released and a [`SkillDeactivationEvent`] is sent.
#[derive(Clone, Copy, Debug)]
pub struct SkillLockoutTimer(Timer);

impl View for SkillLockoutTimer {
    type V = TimerView;

    closed spec fn view(&self) -> TimerView {
        self.0@
    }
}

/// A timer that starts a lockout of the given duration.
pub open spec fn lockout_of(duration: int) -> TimerView {
    TimerView {
        elapsed: 0,
        duration,
        mode: TimerMode::Once,
        finished: false,
        times_finished_this_tick: 0,
    }
}

impl Default for SkillLockoutTimer {
    fn default() -> (timer: SkillLockoutTimer)
        ensures
            timer@ == lockout_of(0),
    {
        SkillLockoutTimer(Timer::new(0, TimerMode::Once))
    }
}

impl SkillLockoutTimer {
    /// Sets a new skill lockout for `duration` nanoseconds.
    pub fn set(&mut self, duration: u64)
        ensures
            final(self)@ == lockout_of(duration as int),
    {
        self.0 = Timer::new(duration, TimerMode::Once);
    }
}

/// The duration of a skill, in nanoseconds.
///
/// Omit this for burst-based skills.
#[derive(Clone, Copy, Debug, PartialEq, Eq, Structural)]
pub struct SkillDuration(pub u64);

/// The event that is sent when a skill should trigger its effects.
///
/// The only argument is the skill entity itself.
#[derive(Clone, Copy, Debug, PartialEq, Eq, Structural)]
pub struct SkillActivationEvent(pub Entity);

/// The event that is sent when a skill should finish its effects.
///
/// The only argument is the skill entity itself.
#[derive(Clone, Copy, Debug, PartialEq, Eq, Structural)]
pub struct SkillDeactivationEvent(pub Entity);

/// Marks skills that gain SP with time: one SP every second.
#[derive(Clone, Copy, Debug, PartialEq, Eq, Structural)]
pub struct IncreaseWithTime;

/// A bundle for basic skills.
#[derive(Clone, Copy, Debug)]
pub struct SkillBundle {
    pub skill: Skill,
    pub skill_lockout_timer: SkillLockoutTimer,
}

/// Ends a skill whose lockout ran out with the last tick.
pub fn deactivate_skills(entity: Entity, lockout_timer: &SkillLockoutTimer) -> (event: Option<
    SkillDeactivationEvent,
>)
    ensures
        event == if lockout_timer@.times_finished_this_tick > 0 {
            Some(SkillDeactivationEvent(entity))
        } else {
            None
        },
{
    if lockout_timer.0.just_finished() {
        Some(SkillDeactivationEvent(entity))
    } else {
        None
    }
}

/// Sets off a skill that is not in SP lockout and has max SP or more,
/// provided its entity has the targets that it asks for. An entity that keeps
/// no targets has none. In SP lockout nothing sets the skill off.
pub fn activate_auto_skills(
    entity: Entity,
    skill: &Skill,
    auto_skill: &AutoSkillActivation,
    targets: Option<&Targets>,
) -> (event: Option<SkillActivationEvent>)
    ensures
        event == if skill@.ready() && auto_skill.min_targets <= (match targets {
            Some(targets) => targets@.len(),
            None => 0,
        }) {
            Some(SkillActivationEvent(entity))
        } else {
            None
        },
        skill@.sp_lockout ==> event.is_none(),
{
    let targets = match targets {
        Some(targets) => targets.len(),
        None => 0,
    };
    if !skill.sp_lockout() && skill.percentage() >= ONE && auto_skill.min_targets <= targets {
        // trigger skill by sending event
        Some(SkillActivationEvent(entity))
    } else {
        None
    }
}

/// Makes a skill that went off pay for it: one max SP.
pub fn take_used_sp(skill: &mut Skill)
    ensures
        final(skill)@ == old(skill)@.mutated(old(skill)@.sp - old(skill)@.max_sp),
{
    let used_sp = skill.max_sp();
    let sp = skill.sp();
    skill.put(sp - used_sp);
}

/// Starts the lockout of a skill that went off: for the duration of the
/// skill, or for [`BURST_SP_LOCKOUT_DURATION`] if it has none.
pub fn start_lockout_timer(lockout_timer: &mut SkillLockoutTimer, duration: Option<&SkillDuration>)
    ensures
        final(lockout_timer)@ == lockout_of(
            match duration {
                Some(duration) => duration.0 as int,
                None => BURST_SP_LOCKOUT_DURATION as int,
            },
        ),
{
    // get duration
    let duration = match duration {
        Some(duration) => duration.0,
        None => BURST_SP_LOCKOUT_DURATION,
    };

    // start new lockout timer
    lockout_timer.set(duration);
}

/// Lets `delta` nanoseconds pass on the lockout of a skill. The skill is in
/// SP lockout until the timer has run out.
pub fn update_lockout_timer(skill: &mut Skill, lockout_timer: &mut SkillLockoutTimer, delta: u64)
    ensures
        final(lockout_timer)@ == old(lockout_timer)@.ticked(delta as int),
        final(skill)@ == (SkillView {
            sp_lockout: !final(lockout_timer)@.finished,
            ..old(skill)@
        }),
{
    lockout_timer.0.tick(delta);

    // update lockout status
    skill.set_sp_lockout(!lockout_timer.0.finished());
}

/// Gives a skill the SP of `delta` nanoseconds: a millionth of an SP for
/// every whole microsecond.
pub fn increase_sp_with_time(skill: &mut Skill, delta: u64)
    ensures
        final(skill)@ == old(skill)@.mutated(clamp_i64(old(skill)@.sp + delta / 1000)),
{
    let sp = skill.sp();
    let gain: u64 = delta / 1000;
    skill.put(hold_i64(sp as i128 + gain as i128));
}

} // verus!
