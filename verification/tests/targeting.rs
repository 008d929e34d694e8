use spcc::battle::blocking::{Blockable, Blocker};
use spcc::battle::targeting::priority::{sort_targets, Hatred, SortedEntity, TargetingTree};
use spcc::battle::targeting::{
    clear_targets, priority_blocked_targets, priority_blocker_target, search_targets, Candidate,
    Presence, Stealth, Targeting, Targets,
};
use spcc::battle::Hostility;
use spcc::Entity;

fn entry(entity: u64, hatred: i32) -> SortedEntity {
    SortedEntity { entity: Entity(entity), hatred: Hatred(hatred) }
}

fn tree_of(entries: &[SortedEntity]) -> TargetingTree {
    let mut tree = TargetingTree::default();
    sort_targets(&entries.to_vec(), &mut tree);
    tree
}

fn hostile(entity: u64) -> Candidate {
    Candidate {
        entity: Entity(entity),
        hostility: Some(Hostility::Hostile),
        stealth: None,
        in_range: true,
    }
}

fn ids(targets: &Targets) -> Vec<u64> {
    targets.as_slice().iter().map(|entity| entity.0).collect()
}

#[test]
fn defaults_of_targeting() {
    assert_eq!(Targeting::default().max_targets, 1);
    assert!(Stealth::default().visible);
    assert!(Targets::default().is_empty());
    assert_eq!(Hatred::default(), Hatred(0));
    assert_eq!(TargetingTree::default().len(), 0);
}

#[test]
fn the_index_is_sorted_by_hatred_then_entity() {
    let tree = tree_of(&[entry(1, -6000), entry(2, 5), entry(3, -1000), entry(4, 5), entry(5, i32::MIN)]);
    assert_eq!(tree.iter(), vec![Entity(4), Entity(2), Entity(3), Entity(1), Entity(5)]);
    assert_eq!(tree.len(), 5);
}

#[test]
fn the_index_does_not_depend_on_the_order_of_its_making() {
    let a = tree_of(&[entry(1, 3), entry(2, 3), entry(3, 7), entry(4, -2)]);
    let b = tree_of(&[entry(4, -2), entry(3, 7), entry(2, 3), entry(1, 3)]);
    assert_eq!(a.iter(), b.iter());
    assert_eq!(a.iter(), vec![Entity(3), Entity(2), Entity(1), Entity(4)]);
}

#[test]
fn the_index_holds_an_entry_once() {
    let tree = tree_of(&[entry(1, 3), entry(1, 3), entry(1, 4)]);
    assert_eq!(tree.iter(), vec![Entity(1), Entity(1)]);
}

#[test]
fn the_index_is_rebuilt_from_scratch() {
    let mut tree = tree_of(&[entry(1, 3), entry(2, 3)]);
    sort_targets(&vec![entry(7, 0)], &mut tree);
    assert_eq!(tree.iter(), vec![Entity(7)]);
    sort_targets(&vec![], &mut tree);
    assert_eq!(tree.len(), 0);
}

#[test]
fn entries_can_be_inserted_one_by_one() {
    let mut tree = TargetingTree::default();
    tree.insert(entry(1, 0));
    tree.insert(entry(2, 10));
    tree.insert(entry(3, 5));
    tree.insert(entry(2, 10));
    assert_eq!(tree.iter(), vec![Entity(2), Entity(3), Entity(1)]);
    tree.clear();
    assert_eq!(tree.len(), 0);
}

#[test]
fn search_takes_the_most_hated_first() {
    let tree = tree_of(&[entry(1, -6000), entry(2, -1000), entry(3, -3000)]);
    let candidates = vec![hostile(1), hostile(2), hostile(3)];
    let mut targets = Targets::default();
    search_targets(&Targeting { max_targets: 2 }, &mut targets, Some(Hostility::Friendly), &tree, &candidates);
    assert_eq!(ids(&targets), vec![2, 3]);
    assert_eq!(targets.len(), 2);
}

#[test]
fn search_skips_what_is_not_eligible() {
    let tree = tree_of(&[entry(1, 9), entry(2, 8), entry(3, 7), entry(4, 6), entry(5, 5), entry(6, 4)]);
    let candidates = vec![
        Candidate { stealth: Some(Stealth { visible: false }), ..hostile(1) },
        Candidate { hostility: Some(Hostility::Friendly), ..hostile(2) },
        Candidate { in_range: false, ..hostile(3) },
        Candidate { stealth: Some(Stealth { visible: true }), ..hostile(4) },
        // entity 5 is not among the candidates
        Candidate { hostility: None, ..hostile(6) },
    ];
    let mut targets = Targets::default();
    search_targets(&Targeting { max_targets: 9 }, &mut targets, Some(Hostility::Friendly), &tree, &candidates);
    assert_eq!(ids(&targets), vec![4, 6]);
}

#[test]
fn a_neutral_actor_targets_its_own_kind_too() {
    let tree = tree_of(&[entry(1, 3), entry(2, 2), entry(3, 1)]);
    let candidates = vec![
        Candidate { hostility: Some(Hostility::Friendly), ..hostile(1) },
        Candidate { hostility: Some(Hostility::Neutral), ..hostile(2) },
        hostile(3),
    ];
    let mut targets = Targets::default();
    search_targets(&Targeting { max_targets: 9 }, &mut targets, None, &tree, &candidates);
    assert_eq!(ids(&targets), vec![1, 2, 3]);
}

#[test]
fn search_with_no_room_finds_nothing() {
    let tree = tree_of(&[entry(1, 3)]);
    let mut targets = Targets::default();
    search_targets(&Targeting { max_targets: 0 }, &mut targets, Some(Hostility::Friendly), &tree, &vec![hostile(1)]);
    assert!(targets.is_empty());
}

#[test]
fn search_is_repeatable() {
    let tree = tree_of(&[entry(1, 3), entry(2, 3), entry(3, 3), entry(4, 1)]);
    let candidates = vec![hostile(4), hostile(3), hostile(2), hostile(1)];
    let mut first = Targets::default();
    let mut second = Targets::default();
    search_targets(&Targeting { max_targets: 3 }, &mut first, Some(Hostility::Friendly), &tree, &candidates);
    search_targets(&Targeting { max_targets: 3 }, &mut second, Some(Hostility::Friendly), &tree, &candidates);
    assert_eq!(ids(&first), ids(&second));
    assert_eq!(ids(&first), vec![3, 2, 1]);
}

#[test]
fn the_first_row_of_an_entity_counts() {
    let tree = tree_of(&[entry(1, 3)]);
    let candidates = vec![Candidate { in_range: false, ..hostile(1) }, hostile(1)];
    let mut targets = Targets::default();
    search_targets(&Targeting::default(), &mut targets, Some(Hostility::Friendly), &tree, &candidates);
    assert!(targets.is_empty());
}

#[test]
fn blocked_entities_come_first() {
    let others = vec![
        Presence { entity: Entity(1), hostility: Some(Hostility::Hostile), dead: false },
        Presence { entity: Entity(2), hostility: Some(Hostility::Friendly), dead: false },
        Presence { entity: Entity(3), hostility: None, dead: false },
        Presence { entity: Entity(5), hostility: Some(Hostility::Hostile), dead: false },
    ];
    let blocker = Blocker {
        can_block: true,
        blocking: vec![Entity(2), Entity(4), Entity(5), Entity(3), Entity(1)],
    };
    let mut targets = Targets::default();
    priority_blocked_targets(
        &Targeting { max_targets: 2 },
        &mut targets,
        &blocker,
        Some(Hostility::Friendly),
        &others,
    );
    // 2 is a friend, 4 is gone
    assert_eq!(ids(&targets), vec![5, 3]);

    // the search fills what room is left
    let tree = tree_of(&[entry(1, 9), entry(8, 1)]);
    let mut targets = Targets::default();
    let targeting = Targeting { max_targets: 5 };
    priority_blocked_targets(&targeting, &mut targets, &blocker, Some(Hostility::Friendly), &others);
    assert_eq!(ids(&targets), vec![5, 3, 1]);
    search_targets(&targeting, &mut targets, Some(Hostility::Friendly), &tree, &vec![hostile(8), hostile(1)]);
    assert_eq!(ids(&targets), vec![5, 3, 1, 1, 8]);
}

#[test]
fn the_dead_are_left_out_of_the_blocked_targets() {
    let others = vec![
        Presence { entity: Entity(1), hostility: Some(Hostility::Hostile), dead: true },
        Presence { entity: Entity(2), hostility: Some(Hostility::Hostile), dead: false },
        Presence { entity: Entity(3), hostility: None, dead: true },
        Presence { entity: Entity(4), hostility: Some(Hostility::Hostile), dead: false },
    ];
    let blocker = Blocker { can_block: true, blocking: vec![Entity(1), Entity(2), Entity(3), Entity(4)] };
    let mut targets = Targets::default();
    priority_blocked_targets(
        &Targeting { max_targets: 3 },
        &mut targets,
        &blocker,
        Some(Hostility::Friendly),
        &others,
    );
    assert_eq!(ids(&targets), vec![2, 4]);
    assert_eq!(blocker.blocking, vec![Entity(1), Entity(2), Entity(3), Entity(4)]);

    // nor does a blocked actor turn on a dead blocker
    let mut targets = Targets::default();
    priority_blocker_target(
        &Targeting::default(),
        &mut targets,
        &Blockable { blocked_by: Some(Entity(1)) },
        Some(Hostility::Friendly),
        &others,
    );
    assert!(targets.is_empty());
}

#[test]
fn full_targets_take_no_blocked_entity() {
    let others = vec![Presence { entity: Entity(1), hostility: Some(Hostility::Hostile), dead: false }];
    let blocker = Blocker { can_block: true, blocking: vec![Entity(1)] };
    let mut targets = Targets::default();
    priority_blocked_targets(&Targeting { max_targets: 0 }, &mut targets, &blocker, None, &others);
    assert!(targets.is_empty());
}

#[test]
fn a_blocked_actor_targets_its_blocker() {
    let others = vec![
        Presence { entity: Entity(10), hostility: Some(Hostility::Friendly), dead: false },
        Presence { entity: Entity(11), hostility: Some(Hostility::Hostile), dead: false },
    ];
    let targeting = Targeting::default();
    let mut targets = Targets::default();
    priority_blocker_target(
        &targeting,
        &mut targets,
        &Blockable { blocked_by: Some(Entity(10)) },
        Some(Hostility::Hostile),
        &others,
    );
    assert_eq!(ids(&targets), vec![10]);

    // no room is left for a second one
    priority_blocker_target(
        &targeting,
        &mut targets,
        &Blockable { blocked_by: Some(Entity(10)) },
        Some(Hostility::Hostile),
        &others,
    );
    assert_eq!(ids(&targets), vec![10]);

    for blockable in [
        Blockable { blocked_by: None },
        Blockable { blocked_by: Some(Entity(11)) },
        Blockable { blocked_by: Some(Entity(12)) },
    ] {
        let mut targets = Targets::default();
        priority_blocker_target(&targeting, &mut targets, &blockable, Some(Hostility::Hostile), &others);
        assert!(targets.is_empty());
    }
}

#[test]
fn targets_are_cleared() {
    let tree = tree_of(&[entry(1, 3)]);
    let mut targets = Targets::default();
    search_targets(&Targeting::default(), &mut targets, Some(Hostility::Friendly), &tree, &vec![hostile(1)]);
    assert_eq!(targets.len(), 1);
    clear_targets(&mut targets);
    assert!(targets.is_empty());
}
