use spcc::fixed::Vec3;
use spcc::stats::stat::MoveSpeed;
use spcc::tile_map::nav::{
    compute_navigation, navigation_steering, CalculatedPath, Nav, NavigationFinishEvent, Pathfinder,
};
use spcc::tile_map::{
    cache_tiles, position_gridlocked_entities, CachedTile, ChangedTile, Coordinates, Grid, Tile,
    TileKind, HIGH_GROUND_HEIGHT,
};
use spcc::Entity;

const TILE: i64 = 1_000_000;
const MS: u64 = 1_000_000;

/// Builds a grid from rows of text: `.` is ground, `#` is high ground and a
/// blank is no tile at all. The first row is `y == 0`.
fn grid_of(rows: &[&str]) -> Grid {
    let mut changes = Vec::new();
    let mut entity = 100;
    for (y, row) in rows.iter().enumerate() {
        for (x, tile) in row.chars().enumerate() {
            let kind = match tile {
                '.' => TileKind::Ground,
                '#' => TileKind::HighGround,
                _ => continue,
            };
            entity += 1;
            changes.push(ChangedTile {
                entity: Entity(entity),
                coordinates: Coordinates::new(x as i32, y as i32),
                tile: Tile::new(kind, false),
            });
        }
    }
    let mut grid = Grid::default();
    cache_tiles(&changes, &mut grid);
    grid
}

fn at(x: i32, y: i32) -> Coordinates {
    Coordinates::new(x, y)
}

fn assert_is_path(grid: &Grid, path: &[Coordinates], start: Coordinates, end: Coordinates) {
    assert_eq!(path.first(), Some(&start));
    assert_eq!(path.last(), Some(&end));
    for pair in path.windows(2) {
        let dx = (pair[0].x as i64 - pair[1].x as i64).abs();
        let dy = (pair[0].y as i64 - pair[1].y as i64).abs();
        assert_eq!(dx + dy, 1);
    }
    for tile in &path[1..] {
        assert!(!grid.get(tile).unwrap().is_solid());
    }
    for (i, tile) in path.iter().enumerate() {
        assert!(!path[..i].contains(tile));
    }
}

#[test]
fn tiles_keep_what_they_are_given() {
    let tile = Tile::new(TileKind::Ground, true);
    assert_eq!(tile.kind(), TileKind::Ground);
    assert!(tile.deployable());
    assert_eq!(Tile::default().kind(), TileKind::HighGround);
    assert!(!Tile::default().deployable());
    assert_eq!(TileKind::default(), TileKind::HighGround);
    assert!(CachedTile { entity: Entity(1), tile: Tile::default() }.is_solid());
    assert!(!CachedTile { entity: Entity(1), tile }.is_solid());
}

#[test]
fn the_grid_finds_its_tiles() {
    let grid = grid_of(&[".#", " ."]);
    assert_eq!(grid.get(&at(0, 0)).unwrap().tile.kind(), TileKind::Ground);
    assert_eq!(grid.get(&at(1, 0)).unwrap().tile.kind(), TileKind::HighGround);
    assert!(grid.get(&at(0, 1)).is_none());
    assert!(grid.get(&at(-1, 0)).is_none());
    assert!(grid.get(&at(0, -1)).is_none());
    assert!(Grid::default().get(&at(0, 0)).is_none());
}

#[test]
fn a_later_tile_replaces_an_earlier_one() {
    let mut grid = Grid::default();
    let ground = ChangedTile { entity: Entity(1), coordinates: at(2, 3), tile: Tile::new(TileKind::Ground, true) };
    let high = ChangedTile { entity: Entity(2), coordinates: at(2, 3), tile: Tile::new(TileKind::HighGround, false) };
    cache_tiles(&vec![ground, high], &mut grid);
    assert_eq!(grid.get(&at(2, 3)), Some(&CachedTile { entity: Entity(2), tile: high.tile }));
    cache_tiles(&vec![ground], &mut grid);
    assert_eq!(grid.get(&at(2, 3)).unwrap().entity, Entity(1));
}

#[test]
fn tiles_at_the_far_corners_are_told_apart() {
    let mut grid = Grid::default();
    let corners = [at(i32::MIN, i32::MIN), at(i32::MIN, i32::MAX), at(i32::MAX, i32::MIN), at(i32::MAX, i32::MAX), at(0, -1), at(-1, 0)];
    for (i, corner) in corners.iter().enumerate() {
        grid.insert(*corner, CachedTile { entity: Entity(i as u64), tile: Tile::default() });
    }
    for (i, corner) in corners.iter().enumerate() {
        assert_eq!(grid.get(corner).unwrap().entity, Entity(i as u64));
    }
}

#[test]
fn coordinates_add_up() {
    assert_eq!(at(1, -2) + at(10, 20), at(11, 18));
    assert_eq!(Coordinates::default(), at(0, 0));
}

#[test]
fn coordinates_to_local_and_back() {
    assert_eq!(at(6, 3).local(HIGH_GROUND_HEIGHT), Vec3::new(-6 * TILE, 250_000, 3 * TILE));
    assert_eq!(at(-2, -1).local(0), Vec3::new(2 * TILE, 0, -TILE));
    // the tile is read from the x and y axes
    assert_eq!(Coordinates::from_local(Vec3::new(-6 * TILE, 3 * TILE, 0)), at(6, 3));
    assert_eq!(Coordinates::from_local(Vec3::new(-5_500_000, 3_999_999, 9 * TILE)), at(6, 3));
    assert_eq!(Coordinates::from_local(Vec3::new(2_500_000, -1, 0)), at(-2, -1));
    assert_eq!(Coordinates::from_local(Vec3::new(i64::MIN, i64::MAX, 0)), at(i32::MAX, i32::MAX));
    assert_eq!(Coordinates::from_local(Vec3::new(i64::MAX, i64::MIN, 0)), at(-i32::MAX, i32::MIN));
}

#[test]
fn gridlocked_entities_stand_on_their_tile() {
    let grid = grid_of(&[".#"]);
    assert_eq!(position_gridlocked_entities(&at(0, 0), &grid), Vec3::new(0, 0, 0));
    assert_eq!(position_gridlocked_entities(&at(1, 0), &grid), Vec3::new(-TILE, HIGH_GROUND_HEIGHT, 0));
    assert_eq!(position_gridlocked_entities(&at(5, 2), &grid), Vec3::new(-5 * TILE, 0, 2 * TILE));
}

#[test]
fn path_along_a_corridor() {
    let grid = grid_of(&["....."]);
    let path = Pathfinder::new(&grid).find_path(at(0, 0), at(4, 0)).unwrap();
    assert_eq!(path, vec![at(0, 0), at(1, 0), at(2, 0), at(3, 0), at(4, 0)]);
}

#[test]
fn path_to_where_one_stands() {
    let grid = grid_of(&["."]);
    assert_eq!(Pathfinder::new(&grid).find_path(at(0, 0), at(0, 0)).unwrap(), vec![at(0, 0)]);
    // even off the grid, and on high ground
    assert_eq!(Pathfinder::new(&grid).find_path(at(7, 7), at(7, 7)).unwrap(), vec![at(7, 7)]);
}

#[test]
fn path_around_a_wall() {
    let grid = grid_of(&[
        "..#..",
        "..#..",
        "..#..",
        ".....",
    ]);
    let path = Pathfinder::new(&grid).find_path(at(0, 0), at(4, 0)).unwrap();
    assert_is_path(&grid, &path, at(0, 0), at(4, 0));
    assert!(path.contains(&at(2, 3)));
}

#[test]
fn path_out_of_a_dead_end() {
    let grid = grid_of(&[
        ".......",
        ".#####.",
        ".#...#.",
        ".#.#.#.",
        "...#...",
    ]);
    let path = Pathfinder::new(&grid).find_path(at(2, 2), at(4, 3)).unwrap();
    assert_is_path(&grid, &path, at(2, 2), at(4, 3));
    let path = Pathfinder::new(&grid).find_path(at(2, 4), at(6, 4)).unwrap();
    assert_is_path(&grid, &path, at(2, 4), at(6, 4));
}

#[test]
fn path_from_high_ground_is_taken_as_it_is() {
    let grid = grid_of(&["#.."]);
    let path = Pathfinder::new(&grid).find_path(at(0, 0), at(2, 0)).unwrap();
    assert_eq!(path, vec![at(0, 0), at(1, 0), at(2, 0)]);
}

#[test]
fn no_path_to_a_solid_tile() {
    let grid = grid_of(&["...#"]);
    assert!(Pathfinder::new(&grid).find_path(at(0, 0), at(3, 0)).is_err());
}

#[test]
fn no_path_across_a_gap_or_a_wall() {
    let grid = grid_of(&[".. .."]);
    assert!(Pathfinder::new(&grid).find_path(at(0, 0), at(4, 0)).is_err());
    let grid = grid_of(&["..#..", "..#.."]);
    assert!(Pathfinder::new(&grid).find_path(at(0, 0), at(4, 1)).is_err());
    assert!(Pathfinder::new(&grid).find_path(at(0, 0), at(9, 9)).is_err());
    assert!(Pathfinder::new(&Grid::default()).find_path(at(0, 0), at(1, 0)).is_err());
}

#[test]
fn no_diagonal_steps() {
    let grid = grid_of(&[".#", "#."]);
    assert!(Pathfinder::new(&grid).find_path(at(0, 0), at(1, 1)).is_err());
}

#[test]
fn path_at_the_edge_of_the_coordinates() {
    let mut grid = Grid::default();
    for x in [i32::MAX - 1, i32::MAX] {
        grid.insert(at(x, i32::MIN), CachedTile { entity: Entity(1), tile: Tile::new(TileKind::Ground, false) });
    }
    let path = Pathfinder::new(&grid).find_path(at(i32::MAX - 1, i32::MIN), at(i32::MAX, i32::MIN)).unwrap();
    assert_eq!(path, vec![at(i32::MAX - 1, i32::MIN), at(i32::MAX, i32::MIN)]);
    assert!(Pathfinder::new(&grid).find_path(at(i32::MAX, i32::MIN), at(i32::MIN, i32::MAX)).is_err());
}

#[test]
fn a_path_is_no_longer_than_the_grid_allows() {
    let rows = [
        ".......",
        ".#####.",
        ".#...#.",
        ".#.#.#.",
        "...#...",
    ];
    let grid = grid_of(&rows);
    let tiles = rows.iter().map(|row| row.len()).sum::<usize>();
    for (start, end) in [(at(2, 2), at(4, 3)), (at(0, 0), at(6, 4)), (at(4, 4), at(2, 4)), (at(9, 9), at(0, 0))] {
        if let Ok(path) = Pathfinder::new(&grid).find_path(start, end) {
            assert_is_path(&grid, &path, start, end);
            assert!(path.len() <= tiles + 1);
        }
    }
    // a start off the grid adds one tile to what the grid has
    let grid = grid_of(&["..."]);
    let path = Pathfinder::new(&grid).find_path(at(-1, 0), at(2, 0)).unwrap();
    assert_eq!(path, vec![at(-1, 0), at(0, 0), at(1, 0), at(2, 0)]);
}

#[test]
fn the_search_prefers_the_tile_nearest_to_the_goal() {
    // of the two ways round the pillar the search takes the one that begins
    // with the step it looks at first
    let grid = grid_of(&[
        "...",
        ".#.",
        "...",
    ]);
    let path = Pathfinder::new(&grid).find_path(at(0, 0), at(2, 2)).unwrap();
    assert_is_path(&grid, &path, at(0, 0), at(2, 2));
    assert_eq!(path.len(), 5);
    let again = Pathfinder::new(&grid).find_path(at(0, 0), at(2, 2)).unwrap();
    assert_eq!(path, again);
    assert_eq!(path, vec![at(0, 0), at(1, 0), at(2, 0), at(2, 1), at(2, 2)]);
}

#[test]
fn path_search_is_repeatable() {
    let grid = grid_of(&[
        ".....",
        ".#.#.",
        ".....",
    ]);
    let first = Pathfinder::new(&grid).find_path(at(0, 0), at(4, 2)).unwrap();
    let second = Pathfinder::new(&grid).find_path(at(0, 0), at(4, 2)).unwrap();
    assert_eq!(first, second);
    assert_is_path(&grid, &first, at(0, 0), at(4, 2));
}

#[test]
fn nav_keeps_its_target() {
    let mut nav = Nav::new(Vec3::new(1, 2, 3));
    assert_eq!(nav.target(), Vec3::new(1, 2, 3));
    assert!(nav.active);
    nav.set_target(Vec3::new(4, 5, 6));
    assert_eq!(nav.target(), Vec3::new(4, 5, 6));
    assert_eq!(Nav::default().target(), Vec3::new(0, 0, 0));
}

#[test]
fn navigation_lays_out_the_waypoints() {
    let grid = grid_of(&["..."]);
    let mut path = CalculatedPath::default();
    assert!(path.is_finished());
    // the grid lies at (10, 0, 20); tile (2, 0) is at local (-2, 0, 0)
    let origin = Vec3::new(10 * TILE, 0, 20 * TILE);
    let target = Vec3::new(8_300_000, 0, 20_400_000);
    let nav = Nav::new(target);
    compute_navigation(Vec3::new(10 * TILE, 0, 20 * TILE), &nav, true, &mut path, &grid, origin);
    assert_eq!(path.path(), &[at(0, 0), at(1, 0), at(2, 0)]);
    assert_eq!(path.next_waypoint(), Some(origin));

    let mut translation = origin;
    let speed = MoveSpeed::new(TILE);
    let mut visited = Vec::new();
    for _ in 0..10 {
        if let Some(event) = navigation_steering(Entity(1), &nav, &mut translation, &mut path, &speed, 1_000 * MS) {
            assert_eq!(event, NavigationFinishEvent(Entity(1)));
            assert!(path.is_finished());
        }
        visited.push(translation);
    }
    assert_eq!(
        &visited[..4],
        &[origin, Vec3::new(9 * TILE, 0, 20 * TILE), Vec3::new(8 * TILE, 0, 20 * TILE), target]
    );
    assert_eq!(translation, target);
}

#[test]
fn a_failed_search_keeps_the_path() {
    let grid = grid_of(&["...#"]);
    let origin = Vec3::new(0, 0, 0);
    let mut path = CalculatedPath::default();
    compute_navigation(origin, &Nav::new(Vec3::new(-2 * TILE, 0, 0)), true, &mut path, &grid, origin);
    assert_eq!(path.path(), &[at(0, 0), at(1, 0), at(2, 0)]);

    // the entity has gone half of its way
    let nav = Nav::new(Vec3::new(-2 * TILE, 0, 0));
    let mut translation = origin;
    let speed = MoveSpeed::new(TILE);
    navigation_steering(Entity(1), &nav, &mut translation, &mut path, &speed, 1_000 * MS);
    navigation_steering(Entity(1), &nav, &mut translation, &mut path, &speed, 1_000 * MS);
    assert_eq!(path.next_waypoint(), Some(Vec3::new(-2 * TILE, 0, 0)));

    // the new target is on a solid tile: the last good path stays, and so do
    // the waypoints that are left of it
    let blocked = Nav::new(Vec3::new(-3 * TILE, 0, 0));
    assert!(Pathfinder::new(&grid).find_path(at(1, 0), at(3, 0)).is_err());
    compute_navigation(translation, &blocked, true, &mut path, &grid, origin);
    assert_eq!(path.path(), &[at(0, 0), at(1, 0), at(2, 0)]);
    assert_eq!(path.next_waypoint(), Some(Vec3::new(-2 * TILE, 0, 0)));
    navigation_steering(Entity(1), &blocked, &mut translation, &mut path, &speed, 1_000 * MS);
    assert_eq!(path.next_waypoint(), Some(Vec3::new(-2 * TILE, 0, 0)));
    let event = navigation_steering(Entity(1), &blocked, &mut translation, &mut path, &speed, 1_000 * MS);
    assert_eq!(event, Some(NavigationFinishEvent(Entity(1))));
    assert!(path.is_finished());
}

#[test]
fn navigation_is_not_planned_twice() {
    let grid = grid_of(&["..."]);
    let origin = Vec3::new(0, 0, 0);
    let mut path = CalculatedPath::default();
    let nav = Nav::new(Vec3::new(-2 * TILE, 0, 0));
    compute_navigation(origin, &nav, false, &mut path, &grid, origin);
    assert_eq!(path.path().len(), 3);
    let mut translation = origin;
    let speed = MoveSpeed::new(TILE);
    navigation_steering(Entity(1), &nav, &mut translation, &mut path, &speed, 1_000 * MS);
    navigation_steering(Entity(1), &nav, &mut translation, &mut path, &speed, 1_000 * MS);
    assert_eq!(path.next_waypoint(), Some(Vec3::new(-2 * TILE, 0, 0)));
    // unchanged navigation with a path: nothing is laid out anew
    compute_navigation(translation, &nav, false, &mut path, &grid, origin);
    assert_eq!(path.next_waypoint(), Some(Vec3::new(-2 * TILE, 0, 0)));
    // changed navigation: it is
    compute_navigation(translation, &nav, true, &mut path, &grid, origin);
    assert_eq!(path.next_waypoint(), Some(Vec3::new(-TILE, 0, 0)));
}

/// A path that leads an entity at `start` straight to `target`, which lies
/// less than a tile further along `x` and `y`. The grid lies where the entity
/// stands, so that both are on one tile, and the waypoint of the tile is
/// reached already.
fn heading_to(start: Vec3, target: Vec3) -> CalculatedPath {
    let mut path = CalculatedPath::default();
    let nav = Nav::new(target);
    compute_navigation(start, &nav, true, &mut path, &Grid::default(), start);
    assert_eq!(path.path(), &[at(0, 0)]);
    assert_eq!(path.next_waypoint(), Some(start));
    let mut translation = start;
    assert_eq!(navigation_steering(Entity(1), &nav, &mut translation, &mut path, &MoveSpeed::new(0), 0), None);
    assert_eq!(translation, start);
    assert_eq!(path.next_waypoint(), Some(target));
    path
}

#[test]
fn navigation_without_a_path_lays_out_nothing() {
    let grid = Grid::default();
    let origin = Vec3::new(0, 0, 0);
    let mut path = CalculatedPath::default();
    let nav = Nav::new(Vec3::new(-5 * TILE, 0, 0));
    compute_navigation(origin, &nav, true, &mut path, &grid, origin);
    assert!(path.path().is_empty());
    assert_eq!(path.next_waypoint(), None);
    assert!(path.is_finished());
    let mut translation = origin;
    let speed = MoveSpeed::new(TILE);
    assert_eq!(navigation_steering(Entity(1), &nav, &mut translation, &mut path, &speed, 1_000 * MS), None);
    assert_eq!(translation, origin);
}

#[test]
fn navigation_on_one_tile_leads_over_it_to_the_target() {
    let origin = Vec3::new(0, 0, 0);
    let mut path = CalculatedPath::default();
    let nav = Nav::new(Vec3::new(-2_400_000, 0, 700_000));
    compute_navigation(Vec3::new(-2_900_000, 0, 0), &nav, true, &mut path, &Grid::default(), origin);
    assert_eq!(path.path(), &[at(3, 0)]);
    assert_eq!(path.next_waypoint(), Some(Vec3::new(-3 * TILE, 0, 0)));
}

#[test]
fn steering_moves_by_speed_and_time() {
    let origin = Vec3::new(0, 0, 0);
    let target = Vec3::new(600_000, 0, 800_000);
    let nav = Nav::new(target);
    let mut path = heading_to(origin, target);
    let mut translation = origin;
    // a tenth of a tile a second for a second: a tenth of the way
    let speed = MoveSpeed::new(100_000);
    assert_eq!(navigation_steering(Entity(1), &nav, &mut translation, &mut path, &speed, 1_000 * MS), None);
    assert_eq!(translation, Vec3::new(60_000, 0, 80_000));
    // a frame at 60 frames a second
    assert_eq!(navigation_steering(Entity(1), &nav, &mut translation, &mut path, &speed, 16_666_667), None);
    assert_eq!(translation, Vec3::new(60_999, 0, 81_332));
    // as far as it takes: the entity is put on the waypoint
    let event = navigation_steering(Entity(1), &nav, &mut translation, &mut path, &speed, 9_400 * MS);
    assert_eq!(event, Some(NavigationFinishEvent(Entity(1))));
    assert_eq!(translation, target);
    assert_eq!(navigation_steering(Entity(1), &nav, &mut translation, &mut path, &speed, 9_400 * MS), None);
    assert_eq!(translation, target);
}

#[test]
fn steering_towards_smaller_coordinates() {
    let start = Vec3::new(5 * TILE, TILE, 7 * TILE);
    let target = Vec3::new(5 * TILE + 300_000, TILE + 400_000, 7 * TILE - 1_200_000);
    let nav = Nav::new(target);
    let mut path = heading_to(start, target);
    let mut translation = start;
    let speed = MoveSpeed::new(TILE);
    navigation_steering(Entity(1), &nav, &mut translation, &mut path, &speed, 130 * MS);
    assert_eq!(translation, Vec3::new(5 * TILE + 30_000, TILE + 40_000, 7 * TILE - 120_000));
}

#[test]
fn steering_stands_still_without_speed_or_time() {
    let origin = Vec3::new(0, 0, 0);
    let target = Vec3::new(600_000, 0, 0);
    let nav = Nav::new(target);
    let mut path = heading_to(origin, target);
    let mut translation = origin;
    navigation_steering(Entity(1), &nav, &mut translation, &mut path, &MoveSpeed::new(0), 1_000 * MS);
    assert_eq!(translation, origin);
    navigation_steering(Entity(1), &nav, &mut translation, &mut path, &MoveSpeed::new(TILE), 0);
    assert_eq!(translation, origin);
    assert!(!path.is_finished());
}

#[test]
fn a_blocked_entity_does_not_move() {
    let origin = Vec3::new(0, 0, 0);
    let target = Vec3::new(600_000, 0, 0);
    let mut nav = Nav::new(target);
    let mut path = heading_to(origin, target);
    nav.active = false;
    let mut translation = origin;
    let speed = MoveSpeed::new(TILE);
    assert_eq!(navigation_steering(Entity(1), &nav, &mut translation, &mut path, &speed, 9_000 * MS), None);
    assert_eq!(translation, origin);
    assert!(!path.is_finished());
}

#[test]
fn steering_across_the_whole_world() {
    let start = Vec3::new(i64::MIN, i64::MIN, i64::MIN);
    let target = Vec3::new(i64::MIN + 999_999, i64::MIN, i64::MAX);
    let nav = Nav::new(target);
    let mut path = heading_to(start, target);
    let mut translation = start;
    let speed = MoveSpeed::new(i64::MAX);
    assert_eq!(navigation_steering(Entity(1), &nav, &mut translation, &mut path, &speed, u64::MAX), None);
    assert_eq!(translation.y, i64::MIN);
    assert_eq!(translation.z, -1);
    assert!(translation.x >= i64::MIN && translation.x <= i64::MIN + 999_999);
}
