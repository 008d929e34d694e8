use spcc::timer::{Timer, TimerMode};

#[test]
fn new_timer_has_not_run() {
    let timer = Timer::new(1_000, TimerMode::Once);
    assert_eq!(timer.elapsed(), 0);
    assert_eq!(timer.duration(), 1_000);
    assert_eq!(timer.mode(), TimerMode::Once);
    assert!(!timer.finished());
    assert!(!timer.just_finished());
    assert_eq!(timer.times_finished_this_tick(), 0);
}

#[test]
fn once_timer_runs_out_once() {
    let mut timer = Timer::new(1_000, TimerMode::Once);
    timer.tick(400);
    assert_eq!(timer.elapsed(), 400);
    assert!(!timer.finished());
    timer.tick(700);
    assert_eq!(timer.elapsed(), 1_000);
    assert!(timer.finished());
    assert!(timer.just_finished());
    assert_eq!(timer.times_finished_this_tick(), 1);
    timer.tick(5_000);
    assert_eq!(timer.elapsed(), 1_000);
    assert!(timer.finished());
    assert!(!timer.just_finished());
}

#[test]
fn repeating_timer_keeps_the_rest() {
    let mut timer = Timer::new(1_000, TimerMode::Repeating);
    timer.tick(2_500);
    assert_eq!(timer.times_finished_this_tick(), 2);
    assert_eq!(timer.elapsed(), 500);
    assert!(timer.finished());
    timer.tick(100);
    assert_eq!(timer.times_finished_this_tick(), 0);
    assert_eq!(timer.elapsed(), 600);
    assert!(!timer.finished());
    timer.tick(400);
    assert_eq!(timer.times_finished_this_tick(), 1);
    assert_eq!(timer.elapsed(), 0);
}

#[test]
fn repeating_timer_counts_no_further_than_it_can() {
    let mut timer = Timer::new(1, TimerMode::Repeating);
    timer.tick(u64::MAX);
    assert_eq!(timer.times_finished_this_tick(), u32::MAX);
    assert_eq!(timer.elapsed(), 0);
    let mut timer = Timer::new(0, TimerMode::Repeating);
    timer.tick(5);
    assert_eq!(timer.times_finished_this_tick(), u32::MAX);
    assert_eq!(timer.elapsed(), 0);
}

#[test]
fn timer_without_duration_runs_out_at_once() {
    let mut timer = Timer::new(0, TimerMode::Once);
    timer.tick(0);
    assert!(timer.finished());
    assert!(timer.just_finished());
}

#[test]
fn tick_does_not_overflow() {
    let mut timer = Timer::new(u64::MAX, TimerMode::Repeating);
    timer.set_elapsed(u64::MAX - 1);
    timer.tick(u64::MAX);
    assert_eq!(timer.times_finished_this_tick(), 1);
    assert_eq!(timer.elapsed(), u64::MAX - 1);
}

#[test]
fn set_elapsed_and_reset() {
    let mut timer = Timer::new(1_000, TimerMode::Repeating);
    timer.tick(1_200);
    timer.set_elapsed(900);
    assert_eq!(timer.elapsed(), 900);
    assert!(timer.just_finished());
    timer.reset();
    assert_eq!(timer.elapsed(), 0);
    assert!(!timer.finished());
    assert!(!timer.just_finished());
    assert_eq!(timer.duration(), 1_000);
}

#[test]
fn ticks_add_up_on_a_repeating_timer() {
    for (first, second) in [(300, 400), (1_000, 1_000), (999, 1), (0, 2_500), (1_700, 2_600)] {
        let mut split = Timer::new(1_000, TimerMode::Repeating);
        split.set_elapsed(250);
        let mut whole = split;
        split.tick(first);
        let mut times = split.times_finished_this_tick();
        split.tick(second);
        times += split.times_finished_this_tick();
        whole.tick(first + second);
        assert_eq!(split.elapsed(), whole.elapsed());
        assert_eq!(times, whole.times_finished_this_tick());
    }
}
