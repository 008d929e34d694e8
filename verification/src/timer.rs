//! Timers that are driven by the time that passes between two ticks.

use vstd::prelude::*;

verus! {

/// What a timer does when it has run out.
#[derive(Clone, Copy, Debug, PartialEq, Eq, Structural, Hash)]
pub enum TimerMode {
    /// The timer runs out once and stays so until it is reset.
    Once,
    /// The timer starts over whenever it runs out.
    Repeating,
}

/// What a [`Timer`] holds, as plain values. Times are in nanoseconds.
pub struct TimerView {
    pub elapsed: int,
    pub duration: int,
    pub mode: TimerMode,
    pub finished: bool,
    pub times_finished_this_tick: int,
}

impl TimerView {
    /// The timer after `delta` nanoseconds have passed.
    ///
    /// A timer that repeats has run out once for each whole duration in the
    /// time elapsed, and keeps the rest. One that does not repeat runs out
    /// once, stops at its duration, and is deaf to ticks from then on. A
    /// timer that repeats with no duration at all runs out as often as can be
    /// counted.
    pub open spec fn ticked(self, delta: int) -> TimerView {
        let total = self.elapsed + delta;
        if self.mode == TimerMode::Once && self.finished {
            TimerView { times_finished_this_tick: 0, ..self }
        } else if total < self.duration {
            TimerView { elapsed: total, finished: false, times_finished_this_tick: 0, ..self }
        } else if self.mode == TimerMode::Once {
            TimerView {
                elapsed: self.duration,
                finished: true,
                times_finished_this_tick: 1,
                ..self
            }
        } else if self.duration == 0 {
            TimerView {
                elapsed: 0,
                finished: true,
                times_finished_this_tick: u32::MAX as int,
                ..self
            }
        } else {
            TimerView {
                elapsed: total % self.duration,
                finished: true,
                times_finished_this_tick: if total / self.duration > u32::MAX {
                    u32::MAX as int
                } else {
                    total / self.duration
                },
                ..self
            }
        }
    }
}

/// Tracks time elapsed against a duration.
#[derive(Clone, Copy, Debug)]
pub struct Timer {
    elapsed: u64,
    duration: u64,
    mode: TimerMode,
    finished: bool,
    times_finished_this_tick: u32,
}

impl View for Timer {
    type V = TimerView;

    closed spec fn view(&self) -> TimerView {
        TimerView {
            elapsed: self.elapsed as int,
            duration: self.duration as int,
            mode: self.mode,
            finished: self.finished,
            times_finished_this_tick: self.times_finished_this_tick as int,
        }
    }
}

impl Timer {
    /// Creates a new timer with a given duration in nanoseconds.
    pub fn new(duration: u64, mode: TimerMode) -> (timer: Timer)
        ensures
            timer@ == (TimerView {
                elapsed: 0,
                duration: duration as int,
                mode,
                finished: false,
                times_finished_this_tick: 0,
            }),
    {
        Timer { elapsed: 0, duration, mode, finished: false, times_finished_this_tick: 0 }
    }

    /// Whether the timer ran out with the last tick, or before it and does
    /// not repeat.
    pub fn finished(&self) -> (finished: bool)
        ensures
            finished == self@.finished,
    {
        self.finished
    }

    /// Whether the timer ran out with the last tick.
    pub fn just_finished(&self) -> (just_finished: bool)
        ensures
            just_finished == (self@.times_finished_this_tick > 0),
    {
        self.times_finished_this_tick > 0
    }

    /// How often the timer ran out with the last tick.
    pub fn times_finished_this_tick(&self) -> (times: u32)
        ensures
            times == self@.times_finished_this_tick,
    {
        self.times_finished_this_tick
    }

    /// The time elapsed on the timer, in nanoseconds.
    pub fn elapsed(&self) -> (elapsed: u64)
        ensures
            elapsed == self@.elapsed,
    {
        self.elapsed
    }

    /// Sets the time elapsed on the timer and nothing else.
    pub fn set_elapsed(&mut self, time: u64)
        ensures
            final(self)@ == (TimerView { elapsed: time as int, ..old(self)@ }),
    {
        self.elapsed = time;
    }

    /// The duration of the timer, in nanoseconds.
    pub fn duration(&self) -> (duration: u64)
        ensures
            duration == self@.duration,
    {
        self.duration
    }

    /// The mode of the timer.
    pub fn mode(&self) -> (mode: TimerMode)
        ensures
            mode == self@.mode,
    {
        self.mode
    }

    /// Starts the timer over: nothing has elapsed and it has not run out.
    pub fn reset(&mut self)
        ensures
            final(self)@ == (TimerView {
                elapsed: 0,
                finished: false,
                times_finished_this_tick: 0,
                ..old(self)@
            }),
    {
        self.elapsed = 0;
        self.finished = false;
        self.times_finished_this_tick = 0;
    }

    /// Advances the timer by `delta` nanoseconds.
    pub fn tick(&mut self, delta: u64)
        ensures
            final(self)@ == old(self)@.ticked(delta as int),
    {
        if self.mode == TimerMode::Once && self.finished {
            self.times_finished_this_tick = 0;
            return ;
        }
        let total: u128 = self.elapsed as u128 + delta as u128;
        if total < self.duration as u128 {
            self.elapsed = total as u64;
            self.finished = false;
            self.times_finished_this_tick = 0;
        } else if self.mode == TimerMode::Once {
            self.elapsed = self.duration;
            self.finished = true;
            self.times_finished_this_tick = 1;
        } else if self.duration == 0 {
            self.elapsed = 0;
            self.finished = true;
            self.times_finished_this_tick = u32::MAX;
        } else {
            let times: u128 = total / self.duration as u128;
            let rest: u128 = total % self.duration as u128;
            self.elapsed = rest as u64;
            self.finished = true;
            self.times_finished_this_tick = if times > u32::MAX as u128 {
                u32::MAX
            } else {
                times as u32
            };
        }
    }
}

/// A repeating timer does not care how the time is cut into ticks: after two
/// ticks it shows the same time elapsed as after one tick of their sum, and
/// it has run out as often in all.
pub proof fn lemma_ticks_add_up(timer: TimerView, first: int, second: int)
    requires
        timer.mode == TimerMode::Repeating,
        timer.duration > 0,
        0 <= timer.elapsed < timer.duration,
        0 <= first,
        0 <= second,
        (timer.elapsed + first + second) / timer.duration <= u32::MAX,
    ensures
        timer.ticked(first).ticked(second).elapsed == timer.ticked(first + second).elapsed,
        timer.ticked(first).times_finished_this_tick + timer.ticked(first).ticked(
            second,
        ).times_finished_this_tick == timer.ticked(first + second).times_finished_this_tick,
{
    let d = timer.duration;
    let t1 = timer.elapsed + first;
    let t = timer.elapsed + first + second;
    let q1 = t1 / d;
    let r1 = t1 % d;
    let t2 = r1 + second;
    let q2 = t2 / d;
    let r2 = t2 % d;
    vstd::arithmetic::div_mod::lemma_fundamental_div_mod(t1, d);
    vstd::arithmetic::div_mod::lemma_fundamental_div_mod(t2, d);
    vstd::arithmetic::div_mod::lemma_mod_bound(t1, d);
    vstd::arithmetic::div_mod::lemma_mod_bound(t2, d);
    vstd::arithmetic::div_mod::lemma_div_pos_is_pos(t1, d);
    vstd::arithmetic::div_mod::lemma_div_pos_is_pos(t2, d);
    // the whole time is the whole cycles of both ticks and what the second
    // tick leaves
    assert(t == d * (q1 + q2) + r2) by (nonlinear_arith)
        requires
            t == d * q1 + t2,
            t2 == d * q2 + r2,
    ;
    vstd::arithmetic::div_mod::lemma_fundamental_div_mod_converse(t, d, q1 + q2, r2);
    if t1 < d {
        vstd::arithmetic::div_mod::lemma_basic_div(t1, d);
    }
    if t2 < d {
        vstd::arithmetic::div_mod::lemma_basic_div(t2, d);
    }
    if t < d {
        vstd::arithmetic::div_mod::lemma_basic_div(t, d);
    }
}

} // verus!
