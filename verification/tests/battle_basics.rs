use spcc::battle::{BoundingCircle, Hostility};
use spcc::fixed::{floor_units, isqrt, mul_div, mul_fixed, within, Vec2, Vec3, ONE};
use spcc::{find_parent, ChildOf, Entity};

#[test]
fn neutral_is_hostile_to_everyone() {
    assert!(Hostility::Neutral.is_hostile_to(&Hostility::Neutral));
    assert!(Hostility::Neutral.is_hostile_to(&Hostility::Friendly));
    assert!(Hostility::Neutral.is_hostile_to(&Hostility::Hostile));
    assert!(Hostility::Hostile.is_hostile_to(&Hostility::Neutral));
    assert!(Hostility::Friendly.is_hostile_to(&Hostility::Neutral));
}

#[test]
fn factions_are_hostile_to_each_other_only() {
    assert!(Hostility::Hostile.is_hostile_to(&Hostility::Friendly));
    assert!(Hostility::Friendly.is_hostile_to(&Hostility::Hostile));
    assert!(!Hostility::Hostile.is_hostile_to(&Hostility::Hostile));
    assert!(!Hostility::Friendly.is_hostile_to(&Hostility::Friendly));
}

#[test]
fn hostility_is_symmetric_for_all_pairs() {
    let all = [Hostility::Neutral, Hostility::Hostile, Hostility::Friendly];
    for a in all {
        for b in all {
            assert_eq!(a.is_hostile_to(&b), b.is_hostile_to(&a));
        }
    }
}

#[test]
fn missing_hostility_is_neutral() {
    assert_eq!(Hostility::from(None), Hostility::Neutral);
    assert_eq!(Hostility::from(Some(Hostility::Friendly)), Hostility::Friendly);
    assert_eq!(Hostility::default(), Hostility::Neutral);
}

#[test]
fn bounding_circle_keeps_its_radius() {
    assert_eq!(BoundingCircle::new(150_000).radius, 150_000);
}

#[test]
fn within_compares_the_distance_exactly() {
    let origin = Vec2::new(0, 0);
    // 3-4-5 triangle, in millionths
    assert!(within(origin, Vec2::new(3_000_000, 4_000_000), 5_000_000));
    assert!(!within(origin, Vec2::new(3_000_000, 4_000_000), 4_999_999));
    assert!(within(origin, origin, 0));
    assert!(!within(Vec2::new(i64::MIN, 0), Vec2::new(i64::MAX, 0), u64::MAX - 1));
    assert!(within(Vec2::new(i64::MIN, 0), Vec2::new(i64::MAX, 0), u64::MAX));
}

#[test]
fn fixed_point_products_round_towards_zero() {
    assert_eq!(mul_fixed(600, 1_500_000), 900);
    assert_eq!(mul_fixed(3, 500_000), 1);
    assert_eq!(mul_fixed(-3, 500_000), -1);
    assert_eq!(mul_fixed(i64::MAX, 2 * ONE), i64::MAX);
    assert_eq!(mul_fixed(i64::MIN, 2 * ONE), i64::MIN);
    assert_eq!(mul_div(7, 3, 2), 10);
    assert_eq!(mul_div(-7, 3, 2), -10);
}

#[test]
fn floor_units_rounds_down() {
    assert_eq!(floor_units(2_500_000), 2);
    assert_eq!(floor_units(-2_500_000), -3);
    assert_eq!(floor_units(-3_000_000), -3);
    assert_eq!(floor_units(0), 0);
    assert_eq!(floor_units(i64::MIN), -9_223_372_036_855);
}

#[test]
fn isqrt_rounds_down() {
    assert_eq!(isqrt(0), 0);
    assert_eq!(isqrt(1), 1);
    assert_eq!(isqrt(24), 4);
    assert_eq!(isqrt(25), 5);
    assert_eq!(isqrt(u128::MAX), u64::MAX);
}

#[test]
fn vectors_add_and_subtract_by_axis() {
    let a = Vec3::new(1, 2, 3);
    let b = Vec3::new(10, 20, 30);
    assert_eq!(a.add(&b), Vec3::new(11, 22, 33));
    assert_eq!(a.sub(&b), Vec3::new(-9, -18, -27));
    assert_eq!(Vec3::new(i64::MAX, 0, i64::MIN).add(&Vec3::new(1, 0, -1)), Vec3::new(i64::MAX, 0, i64::MIN));
    assert_eq!(a.to_ground(), Vec2::new(1, 3));
}

#[test]
fn find_parent_returns_the_entity_itself_first() {
    let parents = vec![ChildOf { entity: Entity(2), parent: Entity(1) }];
    let holders = vec![Entity(1), Entity(2)];
    assert_eq!(find_parent(Entity(2), &parents, &holders), Some(Entity(2)));
}

#[test]
fn find_parent_walks_up_to_the_nearest_holder() {
    let parents = vec![
        ChildOf { entity: Entity(4), parent: Entity(3) },
        ChildOf { entity: Entity(3), parent: Entity(2) },
        ChildOf { entity: Entity(2), parent: Entity(1) },
    ];
    assert_eq!(find_parent(Entity(4), &parents, &vec![Entity(1), Entity(2)]), Some(Entity(2)));
    assert_eq!(find_parent(Entity(4), &parents, &vec![Entity(1)]), Some(Entity(1)));
    assert_eq!(find_parent(Entity(4), &parents, &vec![Entity(9)]), None);
    assert_eq!(find_parent(Entity(7), &parents, &vec![Entity(1)]), None);
}

#[test]
fn find_parent_ends_on_a_circle_of_parents() {
    let parents = vec![
        ChildOf { entity: Entity(1), parent: Entity(2) },
        ChildOf { entity: Entity(2), parent: Entity(1) },
    ];
    assert_eq!(find_parent(Entity(1), &parents, &vec![Entity(5)]), None);
}
