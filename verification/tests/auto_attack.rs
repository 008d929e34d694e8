use spcc::battle::auto_attack::{
    attack_interval_of, do_melee_auto_attack, standby_with_no_targets, tick_attack_cycle_timers,
    AttackCycle, Melee,
};
use spcc::battle::damage::{accumulate_damage, DamageReceivedEvent, DamageType, Health, Vitals};
use spcc::battle::targeting::priority::{sort_targets, Hatred, SortedEntity, TargetingTree};
use spcc::battle::targeting::{search_targets, Candidate, Targeting, Targets};
use spcc::battle::Hostility;
use spcc::fixed::ONE;
use spcc::stats::stat::{Aspd, Atk, AtkInterval};
use spcc::Entity;

const MS: u64 = 1_000_000;

fn targets_of(entities: &[u64]) -> Targets {
    let mut entries = Vec::new();
    let mut candidates = Vec::new();
    for (i, entity) in entities.iter().enumerate() {
        entries.push(SortedEntity { entity: Entity(*entity), hatred: Hatred(-(i as i32)) });
        candidates.push(Candidate {
            entity: Entity(*entity),
            hostility: Some(Hostility::Hostile),
            stealth: None,
            in_range: true,
        });
    }
    let mut tree = TargetingTree::default();
    sort_targets(&entries, &mut tree);
    let mut targets = Targets::default();
    search_targets(
        &Targeting { max_targets: entities.len() },
        &mut targets,
        Some(Hostility::Friendly),
        &tree,
        &candidates,
    );
    targets
}

fn cycle(interval: u64) -> AttackCycle {
    let mut cycle = AttackCycle::new(200 * MS, 150 * MS);
    cycle.set_interval(interval);
    cycle
}

#[test]
fn new_cycle_has_the_longest_interval() {
    let cycle = AttackCycle::new(200 * MS, 150 * MS);
    assert_eq!(cycle.interval(), u64::MAX);
    assert_eq!(cycle.frontswing(), 200 * MS);
    assert_eq!(cycle.backswing(), 150 * MS);
    assert_eq!(cycle.elapsed(), 0);
    assert!(!cycle.standby());
    assert!(cycle.in_frontswing());
    assert!(!cycle.in_backswing());
    assert_eq!(cycle.attacks_this_tick(), 0);
}

#[test]
fn swings_that_fit_are_not_scaled() {
    let cycle = cycle(500 * MS);
    assert_eq!(cycle.interval(), 500 * MS);
    assert_eq!(cycle.frontswing(), 200 * MS);
    assert_eq!(cycle.backswing(), 150 * MS);
}

#[test]
fn swings_are_scaled_into_a_short_interval() {
    let cycle = cycle(175 * MS);
    assert_eq!(cycle.frontswing(), 100 * MS);
    assert_eq!(cycle.backswing(), 75 * MS);
    let cycle = self::cycle(350 * MS);
    assert_eq!(cycle.frontswing(), 200 * MS);
    assert_eq!(cycle.backswing(), 150 * MS);
}

#[test]
fn scaled_swings_fit_whatever_the_interval() {
    for (front, back) in [(1, 1), (200 * MS, 150 * MS), (7, 1_000_000_007), (u64::MAX / 2, u64::MAX / 2)] {
        for interval in [0, 1, 2, 3, 349 * MS, 350 * MS, 351 * MS, u64::MAX - 1, u64::MAX] {
            let mut cycle = AttackCycle::new(front, back);
            cycle.set_interval(interval);
            assert!(cycle.frontswing() as u128 + cycle.backswing() as u128 <= interval as u128);
            assert!(cycle.frontswing() <= front);
            assert!(cycle.backswing() <= back);
        }
    }
}

#[test]
fn swings_grow_back_with_the_interval() {
    let mut cycle = cycle(175 * MS);
    cycle.set_interval(1_000 * MS);
    assert_eq!(cycle.frontswing(), 200 * MS);
    assert_eq!(cycle.backswing(), 150 * MS);
}

#[test]
fn set_interval_keeps_the_phase() {
    let mut cycle = cycle(500 * MS);
    cycle.tick(100 * MS);
    assert_eq!(cycle.elapsed(), 100 * MS);
    cycle.set_interval(250 * MS);
    assert_eq!(cycle.elapsed(), 50 * MS);
    cycle.set_interval(250 * MS);
    assert_eq!(cycle.elapsed(), 50 * MS);
    cycle.set_interval(1_000 * MS);
    assert_eq!(cycle.elapsed(), 200 * MS);
}

#[test]
fn interval_of_zero_and_back() {
    let mut cycle = cycle(500 * MS);
    cycle.tick(100 * MS);
    cycle.set_interval(0);
    assert_eq!(cycle.interval(), 0);
    assert_eq!(cycle.elapsed(), 0);
    assert_eq!(cycle.frontswing(), 0);
    assert_eq!(cycle.backswing(), 0);
    // a cycle without an interval is taken to its end and keeps its swings
    cycle.set_interval(500 * MS);
    assert_eq!(cycle.elapsed(), 500 * MS);
    assert_eq!(cycle.frontswing(), 0);
    assert_eq!(cycle.backswing(), 0);
}

#[test]
fn a_cycle_without_an_interval_never_hits() {
    let mut cycle = cycle(0);
    for delta in [0, 1, 500 * MS, u64::MAX] {
        cycle.tick(delta);
        assert_eq!(cycle.elapsed(), 0);
        assert_eq!(cycle.attacks_this_tick(), 0);
        assert!(!cycle.in_frontswing());
        assert!(!cycle.in_backswing());
    }
    tick_attack_cycle_timers(&mut cycle, &AtkInterval::new(0), &Aspd::new(100), 500 * MS);
    assert_eq!(cycle.interval(), 0);
    assert_eq!(cycle.attacks_this_tick(), 0);
}

#[test]
fn phases_follow_the_time_elapsed() {
    let mut cycle = cycle(500 * MS);
    cycle.tick(199 * MS);
    assert!(cycle.in_frontswing());
    assert!(!cycle.in_backswing());
    cycle.tick(MS);
    assert!(!cycle.in_frontswing());
    assert!(cycle.in_backswing());
    cycle.tick(149 * MS);
    assert!(cycle.in_backswing());
    cycle.tick(MS);
    assert!(!cycle.in_frontswing());
    assert!(!cycle.in_backswing());
    cycle.tick(150 * MS);
    assert_eq!(cycle.elapsed(), 0);
    assert!(cycle.in_frontswing());
}

#[test]
fn a_hit_is_credited_when_the_frontswing_ends() {
    let mut cycle = cycle(500 * MS);
    cycle.tick(100 * MS);
    assert_eq!(cycle.attacks_this_tick(), 0);
    cycle.tick(100 * MS);
    assert_eq!(cycle.elapsed(), 200 * MS);
    assert_eq!(cycle.attacks_this_tick(), 1);
    cycle.tick(100 * MS);
    assert_eq!(cycle.attacks_this_tick(), 0);
    cycle.tick(250 * MS);
    assert_eq!(cycle.elapsed(), 50 * MS);
    assert_eq!(cycle.attacks_this_tick(), 0);
    cycle.tick(200 * MS);
    assert_eq!(cycle.attacks_this_tick(), 1);
}

#[test]
fn completions_beyond_the_first_are_credited() {
    let mut cycle = cycle(500 * MS);
    cycle.tick(50 * MS);
    cycle.tick(1_600 * MS);
    // three completions, and the time elapsed goes from 50 ms to 150 ms
    assert_eq!(cycle.elapsed(), 150 * MS);
    assert_eq!(cycle.attacks_this_tick(), 2);
    cycle.tick(1_100 * MS);
    // two completions, from 150 ms to 250 ms across the end of the frontswing
    assert_eq!(cycle.elapsed(), 250 * MS);
    assert_eq!(cycle.attacks_this_tick(), 2);
}

#[test]
fn one_large_tick_against_two_small_ones() {
    let mut whole = cycle(500 * MS);
    let mut split = whole;
    whole.tick(1_000 * MS);
    split.tick(500 * MS);
    let first = split.attacks_this_tick();
    split.tick(500 * MS);
    let second = split.attacks_this_tick();
    assert_eq!(whole.elapsed(), split.elapsed());
    assert_eq!(whole.attacks_this_tick(), 1);
    assert_eq!(first, 0);
    assert_eq!(second, 0);
}

#[test]
fn a_cycle_on_standby_with_nothing_elapsed_is_frozen() {
    let mut cycle = cycle(500 * MS);
    cycle.set_standby(true);
    assert!(cycle.standby());
    cycle.tick(300 * MS);
    assert_eq!(cycle.elapsed(), 0);
    assert_eq!(cycle.attacks_this_tick(), 0);
    cycle.set_standby(false);
    cycle.tick(300 * MS);
    assert_eq!(cycle.elapsed(), 300 * MS);
    assert_eq!(cycle.attacks_this_tick(), 1);
}

#[test]
fn a_cycle_on_standby_falls_back_before_the_end_of_the_frontswing() {
    let mut cycle = cycle(500 * MS);
    cycle.tick(50 * MS);
    cycle.set_standby(true);
    cycle.tick(100 * MS);
    assert_eq!(cycle.elapsed(), 0);
    assert_eq!(cycle.attacks_this_tick(), 0);
}

#[test]
fn a_cycle_on_standby_finishes_the_swing_it_is_in() {
    let mut cycle = cycle(500 * MS);
    cycle.tick(150 * MS);
    cycle.set_standby(true);
    cycle.tick(100 * MS);
    assert_eq!(cycle.elapsed(), 250 * MS);
    assert_eq!(cycle.attacks_this_tick(), 1);
    cycle.tick(100 * MS);
    assert_eq!(cycle.elapsed(), 350 * MS);
    cycle.tick(200 * MS);
    assert_eq!(cycle.elapsed(), 0);
    assert_eq!(cycle.attacks_this_tick(), 0);
    cycle.tick(200 * MS);
    assert_eq!(cycle.elapsed(), 0);
}

#[test]
fn reset_starts_the_cycle_over() {
    let mut cycle = cycle(500 * MS);
    cycle.tick(300 * MS);
    cycle.reset();
    assert_eq!(cycle.elapsed(), 0);
    assert_eq!(cycle.interval(), 500 * MS);
    assert_eq!(cycle.frontswing(), 200 * MS);
    assert_eq!(cycle.attacks_this_tick(), 0);
}

#[test]
fn attack_interval_follows_the_stats() {
    assert_eq!(attack_interval_of(&AtkInterval::new(500_000), &Aspd::new(100)), 500 * MS);
    assert_eq!(attack_interval_of(&AtkInterval::new(500_000), &Aspd::new(200)), 250 * MS);
    assert_eq!(attack_interval_of(&AtkInterval::new(1_500_000), &Aspd::new(150)), 1_000 * MS);
    assert_eq!(attack_interval_of(&AtkInterval::new(1_500_000), &Aspd::new(0)), u64::MAX);
    assert_eq!(attack_interval_of(&AtkInterval::new(i64::MAX), &Aspd::new(1)), u64::MAX);
    assert_eq!(attack_interval_of(&AtkInterval::new(1), &Aspd::new(i32::MAX)), 0);
}

#[test]
fn timers_are_ticked_with_the_interval_of_the_stats() {
    let mut cycle = AttackCycle::new(200 * MS, 150 * MS);
    tick_attack_cycle_timers(&mut cycle, &AtkInterval::new(500_000), &Aspd::new(100), 100 * MS);
    assert_eq!(cycle.interval(), 500 * MS);
    assert_eq!(cycle.elapsed(), 100 * MS);
    tick_attack_cycle_timers(&mut cycle, &AtkInterval::new(500_000), &Aspd::new(200), 100 * MS);
    assert_eq!(cycle.interval(), 250 * MS);
    assert_eq!(cycle.elapsed(), 150 * MS);
    assert_eq!(cycle.frontswing(), 142_857_142);
    assert_eq!(cycle.backswing(), 107_142_857);
    assert_eq!(cycle.attacks_this_tick(), 1);
}

#[test]
fn an_entity_without_attack_speed_never_attacks() {
    let mut cycle = AttackCycle::new(200 * MS, 150 * MS);
    tick_attack_cycle_timers(&mut cycle, &AtkInterval::new(500_000), &Aspd::new(0), 100 * MS);
    assert_eq!(cycle.interval(), u64::MAX);
    tick_attack_cycle_timers(&mut cycle, &AtkInterval::new(500_000), &Aspd::new(0), 10_000 * MS);
    assert_eq!(cycle.interval(), u64::MAX);
    assert!(cycle.elapsed() < u64::MAX);
}

#[test]
fn standby_follows_the_targets() {
    let mut cycle = cycle(500 * MS);
    standby_with_no_targets(&mut cycle, &vec![]);
    assert!(cycle.standby());
    standby_with_no_targets(&mut cycle, &vec![0, 0]);
    assert!(cycle.standby());
    standby_with_no_targets(&mut cycle, &vec![0, 2, 0]);
    assert!(!cycle.standby());
    standby_with_no_targets(&mut cycle, &vec![1]);
    assert!(!cycle.standby());
}

#[test]
fn a_hit_sends_one_event_for_each_target() {
    let mut cycle = cycle(500 * MS);
    cycle.tick(200 * MS);
    let mut melee = Melee { damage_type: DamageType::Arts, in_frontswing: true };
    let events = do_melee_auto_attack(&cycle, &targets_of(&[5, 6]), &mut melee, Some(&Atk::new(420)));
    let expected = |entity: u64| {
        DamageReceivedEvent::new(Entity(entity)).with_type(DamageType::Arts).with_damage(420_000_000)
    };
    assert_eq!(events, vec![expected(5), expected(6)]);
    assert!(!melee.in_frontswing);
}

#[test]
fn no_hit_sends_no_event() {
    let mut cycle = cycle(500 * MS);
    cycle.tick(100 * MS);
    let mut melee = Melee::default();
    let events = do_melee_auto_attack(&cycle, &targets_of(&[5]), &mut melee, Some(&Atk::new(420)));
    assert!(events.is_empty());
    assert!(melee.in_frontswing);
}

#[test]
fn several_hits_send_their_events_hit_by_hit() {
    let mut cycle = cycle(500 * MS);
    cycle.tick(1_700 * MS);
    assert_eq!(cycle.attacks_this_tick(), 3);
    let mut melee = Melee::default();
    let events = do_melee_auto_attack(&cycle, &targets_of(&[5, 6]), &mut melee, Some(&Atk::new(1)));
    let entities: Vec<u64> = events.iter().map(|event| event.entity.0).collect();
    assert_eq!(entities, vec![5, 6, 5, 6, 5, 6]);
}

#[test]
fn an_entity_without_atk_deals_nothing() {
    let mut cycle = cycle(500 * MS);
    cycle.tick(200 * MS);
    let mut melee = Melee { damage_type: DamageType::Physical, in_frontswing: true };
    let events = do_melee_auto_attack(&cycle, &targets_of(&[5]), &mut melee, None);
    assert!(events.is_empty());
    assert!(melee.in_frontswing);
}

#[test]
fn operator_against_enemy() {
    // the enemy, ATK 420, hits the operator, DEF 280, with each frontswing
    let enemy = Entity(1);
    let operator = Entity(2);
    let mut table = vec![
        Vitals { entity: enemy, health: Health::new(4000), def: 80, res: 0 },
        Vitals { entity: operator, health: Health::new(2200), def: 280, res: 0 },
    ];
    let mut enemy_cycle = AttackCycle::new(200 * MS, 150 * MS);
    let mut operator_cycle = AttackCycle::new(200 * MS, 150 * MS);
    let mut enemy_melee = Melee::default();
    let mut operator_melee = Melee::default();
    let enemy_targets = targets_of(&[2]);
    let operator_targets = targets_of(&[1]);
    let mut hits = 0;
    for _ in 0..30 {
        tick_attack_cycle_timers(&mut enemy_cycle, &AtkInterval::default(), &Aspd::default(), 100 * MS);
        tick_attack_cycle_timers(&mut operator_cycle, &AtkInterval::new(500_000), &Aspd::default(), 100 * MS);
        let mut events =
            do_melee_auto_attack(&enemy_cycle, &enemy_targets, &mut enemy_melee, Some(&Atk::new(420)));
        hits += events.len();
        events.extend(do_melee_auto_attack(
            &operator_cycle,
            &operator_targets,
            &mut operator_melee,
            Some(&Atk::default()),
        ));
        let before = table[1].health.get();
        let enemy_hit = events.iter().any(|event| event.entity == operator);
        accumulate_damage(&events, &mut table);
        if enemy_hit {
            assert_eq!(before - table[1].health.get(), 140 * ONE);
        } else {
            assert_eq!(before, table[1].health.get());
        }
    }
    // 3 seconds: the enemy has hit at 0.2 s and 1.7 s, the operator six times
    assert_eq!(hits, 2);
    assert_eq!(table[1].health.get(), (2200 - 2 * 140) * ONE);
    assert_eq!(table[0].health.get(), (4000 - 6 * 520) * ONE);
}
