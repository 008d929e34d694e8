use spcc::battle::auto_attack::AttackCycle;
use spcc::battle::blocking::{
    disable_nav_for_blocking, disengage_dead_blockers, reset_attack_cycles, start_blocking, Blockable,
    BlockableBody, Blocker, BlockerBody,
};
use spcc::battle::damage::DeathEvent;
use spcc::battle::BoundingCircle;
use spcc::fixed::Vec3;
use spcc::tile_map::nav::Nav;
use spcc::Entity;

const TILE: i64 = 1_000_000;

fn enemy(entity: u64, x: i64, z: i64) -> BlockableBody {
    BlockableBody {
        entity: Entity(entity),
        translation: Vec3::new(x, 0, z),
        bounding_circle: BoundingCircle::new(150_000),
        blockable: Blockable::default(),
    }
}

fn operator(entity: u64, x: i64, z: i64, block: i32) -> BlockerBody {
    BlockerBody {
        entity: Entity(entity),
        translation: Vec3::new(x, 250_000, z),
        bounding_circle: BoundingCircle::new(500_000),
        blocker: Blocker::default(),
        block,
    }
}

#[test]
fn blocker_and_blockable_start_free() {
    let blocker = Blocker::default();
    assert!(blocker.can_block);
    assert!(blocker.blocking.is_empty());
    assert!(!Blockable::default().is_blocked());
    assert!(Blockable { blocked_by: Some(Entity(1)) }.is_blocked());
}

#[test]
fn an_enemy_in_touch_is_blocked() {
    let mut enemies = vec![enemy(1, 3 * TILE + 600_000, 0)];
    let mut operators = vec![operator(10, 3 * TILE, 0, 2)];
    start_blocking(&mut enemies, &mut operators);
    assert_eq!(enemies[0].blockable.blocked_by, Some(Entity(10)));
    assert_eq!(operators[0].blocker.blocking, vec![Entity(1)]);
}

#[test]
fn circles_that_just_touch_are_in_touch() {
    let mut enemies = vec![enemy(1, 650_000, 0), enemy(2, 650_001, 0), enemy(3, 390_000, 520_000)];
    let mut operators = vec![operator(10, 0, 0, 3)];
    start_blocking(&mut enemies, &mut operators);
    assert_eq!(enemies[0].blockable.blocked_by, Some(Entity(10)));
    assert_eq!(enemies[1].blockable.blocked_by, None);
    assert_eq!(enemies[2].blockable.blocked_by, Some(Entity(10)));
    assert_eq!(operators[0].blocker.blocking, vec![Entity(1), Entity(3)]);
}

#[test]
fn height_does_not_count() {
    let mut enemies = vec![enemy(1, 0, 0)];
    let mut operators = vec![operator(10, 0, 0, 1)];
    operators[0].translation.y = 50 * TILE;
    start_blocking(&mut enemies, &mut operators);
    assert_eq!(enemies[0].blockable.blocked_by, Some(Entity(10)));
}

#[test]
fn a_full_blocker_takes_no_third_enemy() {
    let mut enemies = vec![enemy(1, 100_000, 0), enemy(2, 0, 100_000), enemy(3, -100_000, 0)];
    let mut operators = vec![operator(10, 0, 0, 2)];
    start_blocking(&mut enemies, &mut operators);
    assert_eq!(enemies[0].blockable.blocked_by, Some(Entity(10)));
    assert_eq!(enemies[1].blockable.blocked_by, Some(Entity(10)));
    assert_eq!(enemies[2].blockable.blocked_by, None);
    assert_eq!(operators[0].blocker.blocking, vec![Entity(1), Entity(2)]);

    // it stays so tick after tick
    start_blocking(&mut enemies, &mut operators);
    assert_eq!(enemies[2].blockable.blocked_by, None);
    assert_eq!(operators[0].blocker.blocking.len(), 2);

    // the blocker dies: everyone is let go, and the dead take no one on
    disengage_dead_blockers(&vec![DeathEvent(Entity(10))], &mut operators, &mut enemies);
    assert!(enemies.iter().all(|enemy| enemy.blockable.blocked_by.is_none()));
    assert!(operators[0].blocker.blocking.is_empty());
    assert!(!operators[0].blocker.can_block);
    start_blocking(&mut enemies, &mut operators);
    assert!(enemies.iter().all(|enemy| enemy.blockable.blocked_by.is_none()));
}

#[test]
fn a_released_place_is_taken_by_the_next_enemy() {
    let mut enemies = vec![enemy(1, 100_000, 0), enemy(2, 0, 100_000), enemy(3, -100_000, 0)];
    let mut operators = vec![operator(10, 0, 0, 2)];
    start_blocking(&mut enemies, &mut operators);
    operators[0].blocker.blocking.remove(0);
    enemies[0].blockable.blocked_by = None;
    enemies[0].translation.x = 50 * TILE;
    start_blocking(&mut enemies, &mut operators);
    assert_eq!(enemies[0].blockable.blocked_by, None);
    assert_eq!(enemies[2].blockable.blocked_by, Some(Entity(10)));
    assert_eq!(operators[0].blocker.blocking, vec![Entity(2), Entity(3)]);
}

#[test]
fn the_first_blocker_with_room_wins() {
    let mut enemies = vec![enemy(1, 0, 0), enemy(2, 0, 0), enemy(3, 0, 0)];
    let mut operators =
        vec![operator(10, 0, 0, 0), operator(11, 0, 0, 1), operator(12, 0, 0, 5), operator(13, 0, 0, 5)];
    operators[3].blocker.can_block = false;
    start_blocking(&mut enemies, &mut operators);
    assert_eq!(enemies[0].blockable.blocked_by, Some(Entity(11)));
    assert_eq!(enemies[1].blockable.blocked_by, Some(Entity(12)));
    assert_eq!(enemies[2].blockable.blocked_by, Some(Entity(12)));
    assert!(operators[0].blocker.blocking.is_empty());
    assert_eq!(operators[1].blocker.blocking, vec![Entity(1)]);
    assert_eq!(operators[2].blocker.blocking, vec![Entity(2), Entity(3)]);
    assert!(operators[3].blocker.blocking.is_empty());
}

#[test]
fn a_blocked_enemy_looks_for_no_other_blocker() {
    let mut enemies = vec![enemy(1, 0, 0)];
    enemies[0].blockable.blocked_by = Some(Entity(77));
    let mut operators = vec![operator(10, 0, 0, 2)];
    start_blocking(&mut enemies, &mut operators);
    assert_eq!(enemies[0].blockable.blocked_by, Some(Entity(77)));
    assert!(operators[0].blocker.blocking.is_empty());
}

#[test]
fn no_blocker_goes_beyond_its_block_stat() {
    for block in [-1, 0, 1, 2, 3, 7] {
        let mut enemies: Vec<BlockableBody> = (0..5).map(|i| enemy(i, 0, 0)).collect();
        let mut operators = vec![operator(10, 0, 0, block), operator(11, 0, 0, block)];
        for _ in 0..3 {
            start_blocking(&mut enemies, &mut operators);
            for operator in operators.iter() {
                assert!(operator.blocker.blocking.len() as i64 <= block.max(0) as i64);
            }
        }
    }
}

#[test]
fn only_the_dead_let_go() {
    let mut enemies = vec![enemy(1, 0, 0), enemy(2, 10 * TILE, 0), enemy(3, 0, 0)];
    let mut operators = vec![operator(10, 0, 0, 1), operator(11, 10 * TILE, 0, 1)];
    start_blocking(&mut enemies, &mut operators);
    assert_eq!(enemies[0].blockable.blocked_by, Some(Entity(10)));
    assert_eq!(enemies[1].blockable.blocked_by, Some(Entity(11)));
    assert_eq!(enemies[2].blockable.blocked_by, None);
    let deaths = vec![DeathEvent(Entity(1)), DeathEvent(Entity(11)), DeathEvent(Entity(99))];
    disengage_dead_blockers(&deaths, &mut operators, &mut enemies);
    assert_eq!(enemies[0].blockable.blocked_by, Some(Entity(10)));
    assert_eq!(enemies[1].blockable.blocked_by, None);
    assert_eq!(operators[0].blocker.blocking, vec![Entity(1)]);
    assert!(operators[0].blocker.can_block);
    assert!(operators[1].blocker.blocking.is_empty());
    assert!(!operators[1].blocker.can_block);
    assert_eq!(enemies[1].translation, Vec3::new(10 * TILE, 0, 0));
}

#[test]
fn no_deaths_change_nothing() {
    let mut enemies = vec![enemy(1, 0, 0)];
    let mut operators = vec![operator(10, 0, 0, 1)];
    start_blocking(&mut enemies, &mut operators);
    disengage_dead_blockers(&vec![], &mut operators, &mut enemies);
    assert_eq!(enemies[0].blockable.blocked_by, Some(Entity(10)));
    assert_eq!(operators[0].blocker.blocking, vec![Entity(1)]);
}

#[test]
fn blocking_stops_navigation() {
    let mut nav = Nav::new(Vec3::new(1, 2, 3));
    disable_nav_for_blocking(&Blockable { blocked_by: Some(Entity(1)) }, &mut nav);
    assert!(!nav.active);
    assert_eq!(nav.target(), Vec3::new(1, 2, 3));
    disable_nav_for_blocking(&Blockable { blocked_by: None }, &mut nav);
    assert!(nav.active);
}

#[test]
fn a_change_of_engagement_resets_the_attack_cycle() {
    let mut cycle = AttackCycle::new(200, 150);
    cycle.set_interval(1_000);
    cycle.tick(400);
    reset_attack_cycles(&mut cycle);
    assert_eq!(cycle.elapsed(), 0);
    assert_eq!(cycle.interval(), 1_000);
}
