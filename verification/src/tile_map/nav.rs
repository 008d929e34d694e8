//! Navigation on the grid.

use vstd::prelude::*;

use crate::fixed::{clamp_i64, floor_sqrt, gap, isqrt, Vec3, NANOS_PER_SEC, ONE};
use crate::stats::stat::MoveSpeed;
use crate::stats::Stat;
use crate::tile_map::{CachedTile, Coordinates, Grid};
use crate::Entity;
use std::collections::HashMap;
use std::collections::VecDeque;

verus! {

broadcast use vstd::std_specs::hash::group_hash_axioms;

/// An entity that is trying to navigate through an environment.
#[derive(Clone, Copy, Debug, PartialEq, Eq, Structural)]
pub struct Nav {
    /// Where the entity is to go, in the world.
    pub target: Vec3,
    /// Whether the entity is free to move. A blocked entity is not.
    pub active: bool,
}

impl Default for Nav {
    fn default() -> (nav: Nav)
        ensures
            nav == (Nav { target: Vec3 { x: 0, y: 0, z: 0 }, active: true }),
    {
        Nav { target: Vec3 { x: 0, y: 0, z: 0 }, active: true }
    }
}

impl Nav {
    /// Creates a new `Nav`.
    pub fn new(target: Vec3) -> (nav: Nav)
        ensures
            nav == (Nav { target, active: true }),
    {
        Nav { target, active: true }
    }

    /// The target of the nav.
    pub fn target(&self) -> (target: Vec3)
        ensures
            target == self.target,
    {
        self.target
    }

    /// Sets the target of the nav.
    pub fn set_target(&mut self, target: Vec3)
        ensures
            *final(self) == (Nav { target, ..*old(self) }),
    {
        self.target = target;
    }
}

/// No valid path was found.
#[derive(Debug)]
pub struct NoPathError;

/// Whether the two tiles share an edge.
pub open spec fn adjacent(a: Coordinates, b: Coordinates) -> bool {
    ||| a.x == b.x && (a.y - b.y == 1 || b.y - a.y == 1)
    ||| a.y == b.y && (a.x - b.x == 1 || b.x - a.x == 1)
}

/// Whether the grid knows a tile at `at` that can be walked on.
pub open spec fn walkable(grid: Map<Coordinates, CachedTile>, at: Coordinates) -> bool {
    grid.contains_key(at) && !grid[at].solid()
}

/// Whether `path` leads from `start` to `end` over the grid: each tile shares
/// an edge with the next, and every tile after the first can be walked on.
/// The first tile is taken as it is.
pub open spec fn is_path(
    grid: Map<Coordinates, CachedTile>,
    path: Seq<Coordinates>,
    start: Coordinates,
    end: Coordinates,
) -> bool {
    &&& path.len() >= 1
    &&& path[0] == start
    &&& path[path.len() - 1] == end
    &&& forall|i: int| 0 <= i < path.len() - 1 ==> #[trigger] adjacent(path[i], path[i + 1])
    &&& forall|i: int| 1 <= i < path.len() ==> walkable(grid, #[trigger] path[i])
}

/// Whether some path leads from `start` to `end` over the grid.
pub open spec fn reachable(
    grid: Map<Coordinates, CachedTile>,
    start: Coordinates,
    end: Coordinates,
) -> bool {
    exists|path: Seq<Coordinates>| is_path(grid, path, start, end)
}

/// The square of the distance between two tiles.
pub open spec fn tile_distance_squared(a: Coordinates, b: Coordinates) -> int {
    (a.x - b.x) * (a.x - b.x) + (a.y - b.y) * (a.y - b.y)
}

fn distance_squared(a: Coordinates, b: Coordinates) -> (d: u128)
    ensures
        d == tile_distance_squared(a, b),
{
    let dx: u64 = gap(a.x as i64, b.x as i64);
    let dy: u64 = gap(a.y as i64, b.y as i64);
    proof {
        assert(dx * dx == (a.x - b.x) * (a.x - b.x)) by (nonlinear_arith)
            requires
                dx == a.x - b.x || dx == b.x - a.x,
        ;
        assert(dy * dy == (a.y - b.y) * (a.y - b.y)) by (nonlinear_arith)
            requires
                dy == a.y - b.y || dy == b.y - a.y,
        ;
        assert(dx * dx <= 0x1_0000_0000 * 0x1_0000_0000) by (nonlinear_arith)
            requires
                dx <= 0x1_0000_0000,
        ;
        assert(dy * dy <= 0x1_0000_0000 * 0x1_0000_0000) by (nonlinear_arith)
            requires
                dy <= 0x1_0000_0000,
        ;
    }
    dx as u128 * dx as u128 + dy as u128 * dy as u128
}

/// The tile one step from `at` in the `k`-th of the four directions, where
/// its coordinates exist.
pub open spec fn step(at: Coordinates, k: int) -> Option<Coordinates> {
    if k == 0 && at.x < i32::MAX {
        Some(Coordinates { x: (at.x + 1) as i32, y: at.y })
    } else if k == 1 && at.y < i32::MAX {
        Some(Coordinates { x: at.x, y: (at.y + 1) as i32 })
    } else if k == 2 && at.x > i32::MIN {
        Some(Coordinates { x: (at.x - 1) as i32, y: at.y })
    } else if k == 3 && at.y > i32::MIN {
        Some(Coordinates { x: at.x, y: (at.y - 1) as i32 })
    } else {
        None
    }
}

fn neighbor(at: Coordinates, k: u8) -> (next: Option<Coordinates>)
    ensures
        next == step(at, k as int),
{
    if k == 0 && at.x < i32::MAX {
        Some(Coordinates { x: at.x + 1, y: at.y })
    } else if k == 1 && at.y < i32::MAX {
        Some(Coordinates { x: at.x, y: at.y + 1 })
    } else if k == 2 && at.x > i32::MIN {
        Some(Coordinates { x: at.x - 1, y: at.y })
    } else if k == 3 && at.y > i32::MIN {
        Some(Coordinates { x: at.x, y: at.y - 1 })
    } else {
        None
    }
}

/// The tiles that share an edge with a tile are those one step from it.
pub proof fn lemma_adjacent_is_step(a: Coordinates, b: Coordinates)
    ensures
        adjacent(a, b) <==> exists|k: int| 0 <= k < 4 && #[trigger] step(a, k) == Some(b),
{
    if adjacent(a, b) {
        if a.y == b.y && b.x - a.x == 1 {
            assert(step(a, 0) == Some(b));
        } else if a.x == b.x && b.y - a.y == 1 {
            assert(step(a, 1) == Some(b));
        } else if a.y == b.y && a.x - b.x == 1 {
            assert(step(a, 2) == Some(b));
        } else {
            assert(step(a, 3) == Some(b));
        }
    }
}

/// A tile of the open list: one that the search has come to and has not
/// looked at yet.
pub struct GridNode {
    pub pos: Coordinates,
    /// The square of the distance from the tile to the goal.
    pub distance_squared: u128,
}

/// The place in the open list of the tile to look at next, among the first
/// `n`: that of the tile nearest to the goal, and of the one that has waited
/// longest among equally near ones.
pub open spec fn nearest_of(open: Seq<GridNode>, n: int) -> int
    decreases n,
{
    if n <= 1 {
        0
    } else {
        let at = nearest_of(open, n - 1);
        if open[n - 1].distance_squared < open[at].distance_squared {
            n - 1
        } else {
            at
        }
    }
}

/// The open list and the notes of a search after it has looked at the `k`-th
/// neighbour of `current`.
///
/// A neighbour that can be walked on, is not the start and has no note yet
/// joins the open list, and `current` is noted as the tile that it was reached
/// from.
pub open spec fn with_neighbour(
    grid: Map<Coordinates, CachedTile>,
    start: Coordinates,
    end: Coordinates,
    open: Seq<GridNode>,
    memory: Map<u64, Coordinates>,
    current: Coordinates,
    k: int,
) -> (Seq<GridNode>, Map<u64, Coordinates>) {
    match step(current, k) {
        Some(next) => if next != start && !memory.contains_key(next.key()) && walkable(grid, next) {
            (
                open.push(
                    GridNode {
                        pos: next,
                        distance_squared: tile_distance_squared(next, end) as u128,
                    },
                ),
                memory.insert(next.key(), current),
            )
        } else {
            (open, memory)
        },
        None => (open, memory),
    }
}

/// The open list and the notes of a search after it has looked at the first
/// `k` neighbours of `current`, one after the other.
pub open spec fn with_neighbours(
    grid: Map<Coordinates, CachedTile>,
    start: Coordinates,
    end: Coordinates,
    open: Seq<GridNode>,
    memory: Map<u64, Coordinates>,
    current: Coordinates,
    k: int,
) -> (Seq<GridNode>, Map<u64, Coordinates>)
    decreases k,
{
    if k <= 0 {
        (open, memory)
    } else {
        let (open, memory) = with_neighbours(grid, start, end, open, memory, current, k - 1);
        with_neighbour(grid, start, end, open, memory, current, k - 1)
    }
}

/// The notes of a search at the moment it takes the goal from its open list,
/// if it does so within `rounds` rounds.
///
/// In each round the search takes the nearest tile from the open list. If that
/// is the goal, it is done. Else it looks at the four neighbours of the tile.
/// With nothing left in the open list the search has failed.
pub open spec fn searched(
    grid: Map<Coordinates, CachedTile>,
    start: Coordinates,
    end: Coordinates,
    open: Seq<GridNode>,
    memory: Map<u64, Coordinates>,
    rounds: nat,
) -> Option<Map<u64, Coordinates>>
    decreases rounds,
{
    if open.len() == 0 || rounds == 0 {
        None
    } else {
        let at = nearest_of(open, open.len() as int);
        let current = open[at];
        if current.pos == end {
            Some(memory)
        } else {
            let (open, memory) = with_neighbours(
                grid,
                start,
                end,
                open.remove(at),
                memory,
                current.pos,
                4,
            );
            searched(grid, start, end, open, memory, (rounds - 1) as nat)
        }
    }
}

/// The way back from `end` along the notes of a search, no more than `n`
/// steps of it: each tile is followed by the one that it was reached from.
pub open spec fn walked_back(memory: Map<u64, Coordinates>, end: Coordinates, n: nat) -> Seq<
    Coordinates,
>
    decreases n,
{
    if n == 0 {
        seq![end]
    } else {
        let back = walked_back(memory, end, (n - 1) as nat);
        if memory.contains_key(back.last().key()) {
            back.push(memory[back.last().key()])
        } else {
            back
        }
    }
}

/// The path that a search over the grid finds from `start` to `end`, if it
/// finds one.
///
/// The search begins with `start` alone in its open list and has as many
/// rounds as the grid has tiles, and one more; that is as many as it can need.
/// The path is the way back from `end` along its notes, turned round.
pub open spec fn found_path(
    grid: Map<Coordinates, CachedTile>,
    start: Coordinates,
    end: Coordinates,
) -> Option<Seq<Coordinates>> {
    let first = GridNode { pos: start, distance_squared: tile_distance_squared(start, end) as u128 };
    match searched(grid, start, end, seq![first], Map::empty(), grid.dom().len() + 1) {
        Some(memory) => Some(walked_back(memory, end, grid.dom().len()).reverse()),
        None => None,
    }
}

/// Whether the search has come to `at`: it is where the search began or has a
/// tile noted from which it was reached.
spec fn visited(memory: Map<u64, Coordinates>, start: Coordinates, at: Coordinates) -> bool {
    at == start || memory.contains_key(at.key())
}

/// What the search notes of each tile it has come to: a tile it was reached
/// from, one step closer to the start.
spec fn traced(
    grid: Map<Coordinates, CachedTile>,
    memory: Map<u64, Coordinates>,
    start: Coordinates,
    depth: spec_fn(Coordinates) -> nat,
) -> bool {
    forall|at: Coordinates| #[trigger]
        memory.contains_key(at.key()) ==> {
            &&& at != start
            &&& walkable(grid, at)
            &&& visited(memory, start, memory[at.key()])
            &&& adjacent(memory[at.key()], at)
            &&& depth(at) == depth(memory[at.key()]) + 1
        }
}

/// The state of a search: every tile that it has come to is waiting in the
/// open list, has been expanded, or is the tile in hand; an expanded tile is
/// not the goal, and the search has come to each of its walkable neighbours.
spec fn searching(
    grid: Map<Coordinates, CachedTile>,
    memory: Map<u64, Coordinates>,
    start: Coordinates,
    end: Coordinates,
    open: Seq<GridNode>,
    expanded: Set<Coordinates>,
    in_hand: Option<Coordinates>,
) -> bool {
    &&& forall|i: int| 0 <= i < open.len() ==> visited(memory, start, (#[trigger] open[i]).pos)
    &&& forall|at: Coordinates| #[trigger]
        visited(memory, start, at) ==> {
            ||| expanded.contains(at)
            ||| in_hand == Some(at)
            ||| exists|i: int| 0 <= i < open.len() && (#[trigger] open[i]).pos == at
        }
    &&& forall|at: Coordinates| #[trigger]
        expanded.contains(at) ==> at != end && visited(memory, start, at)
    &&& forall|at: Coordinates, next: Coordinates|
        expanded.contains(at) && #[trigger] adjacent(at, next) && walkable(grid, next) ==> visited(
            memory,
            start,
            next,
        )
}

/// Whether the search has dealt with the `k`-th neighbour of `at`: if it
/// exists and can be walked on, the search has come to it.
spec fn tried(
    grid: Map<Coordinates, CachedTile>,
    memory: Map<u64, Coordinates>,
    start: Coordinates,
    at: Coordinates,
    k: int,
) -> bool {
    match step(at, k) {
        Some(next) => walkable(grid, next) ==> visited(memory, start, next),
        None => true,
    }
}

/// A path from the start never leaves the tiles that a finished search has
/// expanded.
proof fn lemma_path_is_expanded(
    grid: Map<Coordinates, CachedTile>,
    memory: Map<u64, Coordinates>,
    start: Coordinates,
    end: Coordinates,
    expanded: Set<Coordinates>,
    path: Seq<Coordinates>,
    i: int,
)
    requires
        searching(grid, memory, start, end, Seq::empty(), expanded, None),
        is_path(grid, path, start, end),
        0 <= i < path.len(),
    ensures
        expanded.contains(path[i]),
    decreases i,
{
    if i == 0 {
        assert(visited(memory, start, path[0]));
    } else {
        lemma_path_is_expanded(grid, memory, start, end, expanded, path, i - 1);
        let k = i - 1;
        assert(adjacent(path[k], path[k + 1]));
        assert(walkable(grid, path[i]));
        assert(visited(memory, start, path[i]));
    }
}

fn nearest(open: &Vec<GridNode>) -> (at: usize)
    requires
        open.len() > 0,
    ensures
        at < open.len(),
        at == nearest_of(open@, open.len() as int),
        forall|i: int| 0 <= i < open.len() ==> open[at as int].distance_squared <= (
        #[trigger] open[i]).distance_squared,
{
    let mut at: usize = 0;
    let mut i: usize = 1;
    while i < open.len()
        invariant
            at < i <= open.len(),
            at == nearest_of(open@, i as int),
            forall|j: int| 0 <= j < i ==> open[at as int].distance_squared <= (
            #[trigger] open[j]).distance_squared,
        decreases open.len() - i,
    {
        if open[i].distance_squared < open[at].distance_squared {
            at = i;
        }
        i += 1;
    }
    at
}

/// Whether the `i`-th tile of `back` has the tile after it noted as the one
/// it was reached from.
spec fn link_at(memory: Map<u64, Coordinates>, back: Seq<Coordinates>, i: int) -> bool {
    memory.contains_key(back[i].key()) && memory[back[i].key()] == back[i + 1]
}

/// Whether each tile of `back` but the last has the tile after it noted as
/// the one it was reached from.
spec fn linked(memory: Map<u64, Coordinates>, back: Seq<Coordinates>) -> bool {
    forall|i: int| 0 <= i < back.len() - 1 ==> #[trigger] link_at(memory, back, i)
}

proof fn lemma_linked_push(memory: Map<u64, Coordinates>, back: Seq<Coordinates>, from: Coordinates)
    requires
        back.len() >= 1,
        linked(memory, back),
        memory.contains_key(back.last().key()),
        memory[back.last().key()] == from,
    ensures
        linked(memory, back.push(from)),
{
    let longer = back.push(from);
    assert forall|i: int| 0 <= i < longer.len() - 1 implies #[trigger] link_at(memory, longer, i) by {
        assert(longer[i] == back[i]);
        if i + 1 < back.len() {
            assert(link_at(memory, back, i));
            assert(longer[i + 1] == back[i + 1]);
        }
    }
}

/// Once the way back has come to a tile without a note, more steps add
/// nothing to it.
proof fn lemma_walked_back_stays(memory: Map<u64, Coordinates>, end: Coordinates, s: nat, n: nat)
    requires
        s <= n,
        !memory.contains_key(walked_back(memory, end, s).last().key()),
    ensures
        walked_back(memory, end, n) == walked_back(memory, end, s),
    decreases n,
{
    if n > s {
        lemma_walked_back_stays(memory, end, s, (n - 1) as nat);
    }
}

/// There are no more different tiles with a key among `keys` than there are
/// keys.
proof fn lemma_distinct_tiles_bounded(tiles: Seq<Coordinates>, keys: Set<u64>)
    requires
        tiles.no_duplicates(),
        keys.finite(),
        forall|i: int| 0 <= i < tiles.len() ==> keys.contains((#[trigger] tiles[i]).key()),
    ensures
        tiles.len() <= keys.len(),
{
    let filed = tiles.map_values(|tile: Coordinates| tile.key());
    assert forall|i: int, j: int| 0 <= i < filed.len() && 0 <= j < filed.len() && i != j implies filed[i]
        != filed[j] by {
        Coordinates::lemma_key_injective(tiles[i], tiles[j]);
    }
    filed.unique_seq_to_set();
    assert(filed.to_set().subset_of(keys)) by {
        assert forall|key: u64| filed.to_set().contains(key) implies keys.contains(key) by {
            let i = choose|i: int| 0 <= i < filed.len() && filed[i] == key;
            assert(keys.contains(tiles[i].key()));
        }
    }
    vstd::set_lib::lemma_len_subset(filed.to_set(), keys);
}

/// Walks back from `end` along the tiles noted by a search and returns the
/// way in the order in which it is walked.
#[verifier::spinoff_prover]
#[verifier::rlimit(50)]
fn retrace(
    memory: &HashMap<u64, Coordinates>,
    start: Coordinates,
    end: Coordinates,
    Ghost(grid): Ghost<Map<Coordinates, CachedTile>>,
    Ghost(depth): Ghost<spec_fn(Coordinates) -> nat>,
    Ghost(tiles): Ghost<nat>,
) -> (path: Vec<Coordinates>)
    requires
        traced(grid, memory@, start, depth),
        visited(memory@, start, end),
        memory@.len() <= tiles,
    ensures
        is_path(grid, path@, start, end),
        path@.no_duplicates(),
        path@.len() <= tiles + 1,
        path@ == walked_back(memory@, end, tiles).reverse(),
{
    let mut back: Vec<Coordinates> = Vec::new();
    back.push(end);
    assert(back@ =~= walked_back(memory@, end, 0));
    loop
        invariant_except_break
            back.len() >= 1,
        invariant
            back.len() >= 1,
            back[0] == end,
            traced(grid, memory@, start, depth),
            visited(memory@, start, back[back.len() - 1]),
            linked(memory@, back@),
            back@ == walked_back(memory@, end, (back.len() - 1) as nat),
            forall|i: int| 0 <= i < back.len() ==> depth(#[trigger] back[i]) + i == depth(end),
        ensures
            back[back.len() - 1] == start,
            !memory@.contains_key(back[back.len() - 1].key()),
        decreases depth(back[back.len() - 1]),
    {
        let last = back[back.len() - 1];
        let key = last.to_key();
        let found = memory.get(&key);
        if found.is_none() {
            break ;
        }
        let from = *found.unwrap();
        let ghost walked = back@;
        proof {
            assert(memory@.contains_key(last.key()));
            assert(memory@[last.key()] == from);
            assert(visited(memory@, start, from));
            assert(depth(last) == depth(from) + 1);
            lemma_linked_push(memory@, back@, from);
        }
        back.push(from);
        proof {
            assert(back@ == walked.push(from));
            assert(walked.last() == last);
            assert forall|i: int| 0 <= i < back.len() implies depth(#[trigger] back[i]) + i
                == depth(end) by {
                if i < walked.len() {
                    assert(back[i] == walked[i]);
                }
            }
        }
    }
    let mut path: Vec<Coordinates> = Vec::new();
    let mut i: usize = back.len();
    while i > 0
        invariant
            i <= back.len(),
            path.len() == back.len() - i,
            forall|j: int| 0 <= j < path.len() ==> #[trigger] path[j] == back[back.len() - 1 - j],
        decreases i,
    {
        i -= 1;
        path.push(back[i]);
    }
    proof {
        assert(path@ =~= back@.reverse());
        lemma_way_back_distinct(back@, depth, end);
        lemma_way_back_bounded(memory@, end, back@, tiles);
        lemma_way_back_is_path(grid, memory@, start, end, depth, back@);
    }
    path
}

/// No tile occurs twice on a way back on which each tile is one step closer
/// to the start than the tile before it.
proof fn lemma_way_back_distinct(
    back: Seq<Coordinates>,
    depth: spec_fn(Coordinates) -> nat,
    end: Coordinates,
)
    requires
        forall|i: int| 0 <= i < back.len() ==> depth(#[trigger] back[i]) + i == depth(end),
    ensures
        back.no_duplicates(),
        back.reverse().no_duplicates(),
{
    assert forall|i: int, j: int| 0 <= i < back.len() && 0 <= j < back.len() && i != j implies back[i]
        != back[j] by {
        assert(depth(back[i]) + i == depth(end));
        assert(depth(back[j]) + j == depth(end));
    }
    let path = back.reverse();
    let n = back.len() as int;
    assert forall|i: int, j: int| 0 <= i < path.len() && 0 <= j < path.len() && i != j implies path[i]
        != path[j] by {
        assert(path[i] == back[n - 1 - i]);
        assert(path[j] == back[n - 1 - j]);
    }
}

/// A way back without a tile twice is no longer than the notes allow, and
/// more steps than it has taken add nothing to it.
proof fn lemma_way_back_bounded(
    memory: Map<u64, Coordinates>,
    end: Coordinates,
    back: Seq<Coordinates>,
    tiles: nat,
)
    requires
        back.len() >= 1,
        back.no_duplicates(),
        linked(memory, back),
        !memory.contains_key(back.last().key()),
        back == walked_back(memory, end, (back.len() - 1) as nat),
        memory.dom().finite(),
        memory.len() <= tiles,
    ensures
        back.len() <= tiles + 1,
        back == walked_back(memory, end, tiles),
{
    let n = back.len() as int;
    // every tile of the way back but the last has a note of its own
    let noted = back.take(n - 1);
    assert forall|i: int| 0 <= i < noted.len() implies memory.dom().contains(
        (#[trigger] noted[i]).key(),
    ) by {
        assert(link_at(memory, back, i));
        assert(noted[i] == back[i]);
    }
    assert forall|i: int, j: int| 0 <= i < noted.len() && 0 <= j < noted.len() && i != j implies noted[i]
        != noted[j] by {
        assert(noted[i] == back[i]);
        assert(noted[j] == back[j]);
    }
    lemma_distinct_tiles_bounded(noted, memory.dom());
    lemma_walked_back_stays(memory, end, (n - 1) as nat, tiles);
}

/// A way back from the goal that ends at the start is, turned round, a path
/// from the start to the goal.
proof fn lemma_way_back_is_path(
    grid: Map<Coordinates, CachedTile>,
    memory: Map<u64, Coordinates>,
    start: Coordinates,
    end: Coordinates,
    depth: spec_fn(Coordinates) -> nat,
    back: Seq<Coordinates>,
)
    requires
        back.len() >= 1,
        back[0] == end,
        back.last() == start,
        traced(grid, memory, start, depth),
        linked(memory, back),
    ensures
        is_path(grid, back.reverse(), start, end),
{
    let path = back.reverse();
    let n = back.len() as int;
    assert forall|j: int| 0 <= j < path.len() - 1 implies #[trigger] adjacent(
        path[j],
        path[j + 1],
    ) by {
        let at = n - 2 - j;
        assert(link_at(memory, back, at));
        assert(path[j + 1] == back[at]);
        assert(path[j] == back[at + 1]);
        assert(memory.contains_key(back[at].key()));
    }
    assert forall|j: int| 1 <= j < path.len() implies walkable(grid, #[trigger] path[j]) by {
        let at = n - 1 - j;
        assert(link_at(memory, back, at));
        assert(path[j] == back[at]);
        assert(memory.contains_key(back[at].key()));
    }
}

/// A pathfinder for a [`Grid`].
pub struct Pathfinder<'a> {
    grid: &'a Grid,
}

impl<'a> View for Pathfinder<'a> {
    type V = Map<Coordinates, CachedTile>;

    /// The grid that the pathfinder searches.
    closed spec fn view(&self) -> Map<Coordinates, CachedTile> {
        self.grid@
    }
}

impl<'a> Pathfinder<'a> {
    /// Creates a new `Pathfinder`.
    pub fn new(grid: &'a Grid) -> (pathfinder: Pathfinder<'a>)
        ensures
            pathfinder@ == grid@,
    {
        Pathfinder { grid }
    }

    /// Finds a path between two tiles over tiles that can be walked on.
    ///
    /// The search goes from tile to tile across shared edges and prefers the
    /// tile nearest to `end` in a straight line. The starting tile is taken
    /// to be valid. The path begins with `start` and ends with `end`, and no
    /// tile occurs twice in it. It is the path that [`found_path`] names, so
    /// the same grid and the same two tiles give the same path every time. The
    /// search fails if and only if no path leads from `start` to `end`.
    #[verifier::spinoff_prover]
    #[verifier::rlimit(50)]
    pub fn find_path(&self, start: Coordinates, end: Coordinates) -> (result: Result<
        Vec<Coordinates>,
        NoPathError,
    >)
        ensures
            match result {
                Ok(path) => {
                    &&& found_path(self@, start, end) == Some(path@)
                    &&& is_path(self@, path@, start, end)
                    &&& path@.no_duplicates()
                    &&& path@.len() <= self@.dom().len() + 1
                },
                Err(_) => {
                    &&& found_path(self@, start, end).is_none()
                    &&& !reachable(self@, start, end)
                },
            },
    {
        let ghost grid = self.grid@;
        let tiles = self.grid.count();
        proof {
            self.grid.lemma_tiles();
        }
        let mut open: Vec<GridNode> = Vec::new();
        let mut memory: HashMap<u64, Coordinates> = HashMap::new();
        let ghost mut expanded: Set<Coordinates> = Set::empty();
        let ghost mut depth: spec_fn(Coordinates) -> nat = |at: Coordinates| 0nat;

        // initialize with starting node
        open.push(GridNode { pos: start, distance_squared: distance_squared(start, end) });
        let ghost answer = searched(grid, start, end, open@, memory@, (tiles + 1) as nat);
        proof {
            assert(open@[0].pos == start);
            vstd::set_lib::lemma_len_subset(memory@.dom(), self.grid.keys());
            assert(open@ =~= seq![
                GridNode {
                    pos: start,
                    distance_squared: tile_distance_squared(start, end) as u128,
                },
            ]);
            assert(memory@ =~= Map::<u64, Coordinates>::empty());
        }

        while open.len() > 0
            invariant
                grid == self.grid@,
                tiles == self.grid.keys().len(),
                tiles == grid.dom().len(),
                self.grid.keys().finite(),
                memory@.dom().subset_of(self.grid.keys()),
                memory@.len() <= tiles,
                traced(grid, memory@, start, depth),
                searching(grid, memory@, start, end, open@, expanded, None),
                found_path(grid, start, end) == match answer {
                    Some(memory) => Some(walked_back(memory, end, tiles as nat).reverse()),
                    None => None,
                },
                answer == searched(
                    grid,
                    start,
                    end,
                    open@,
                    memory@,
                    (tiles - memory@.len() + open.len()) as nat,
                ),
            decreases 2 * (tiles - memory@.len()) + open.len(),
        {
            let ghost budget = 2 * (tiles - memory@.len()) + open.len();
            let ghost rounds = tiles - memory@.len() + open.len();
            let ghost waiting = open@;
            let ghost noted_before = memory@;
            let at = nearest(&open);
            let current = open.remove(at);
            let ghost rest = open@;
            proof {
                assert(current == waiting[at as int]);
                assert(visited(memory@, start, current.pos));
                assert forall|tile: Coordinates| #[trigger]
                    visited(memory@, start, tile) implies {
                    ||| expanded.contains(tile)
                    ||| Some(current.pos) == Some(tile)
                    ||| exists|i: int| 0 <= i < open@.len() && (#[trigger] open@[i]).pos == tile
                } by {
                    if !expanded.contains(tile) && current.pos != tile {
                        let i = choose|i: int| 0 <= i < waiting.len() && (#[trigger] waiting[i]).pos
                            == tile;
                        if i < at {
                            assert(open@[i].pos == tile);
                        } else {
                            assert(open@[i - 1].pos == tile);
                        }
                    }
                }
                assert forall|i: int| 0 <= i < open@.len() implies visited(
                    memory@,
                    start,
                    (#[trigger] open@[i]).pos,
                ) by {
                    if i < at {
                        assert(open@[i] == waiting[i]);
                    } else {
                        assert(open@[i] == waiting[i + 1]);
                    }
                }
            }

            if current.pos == end {
                // end found: walk back to the start
                return Ok(
                    retrace(&memory, start, end, Ghost(grid), Ghost(depth), Ghost(tiles as nat)),
                );
            }
            // get neighbors

            let mut k: u8 = 0;
            while k < 4
                invariant
                    k <= 4,
                    grid == self.grid@,
                    tiles == self.grid.keys().len(),
                    self.grid.keys().finite(),
                    memory@.dom().subset_of(self.grid.keys()),
                    memory@.len() <= tiles,
                    traced(grid, memory@, start, depth),
                    searching(grid, memory@, start, end, open@, expanded, Some(current.pos)),
                    visited(memory@, start, current.pos),
                    current.pos != end,
                    forall|j: int|
                        0 <= j < k ==> #[trigger] tried(grid, memory@, start, current.pos, j),
                    2 * (tiles - memory@.len()) + open.len() < budget,
                    tiles - memory@.len() + open.len() == rounds - 1,
                    (open@, memory@) == with_neighbours(
                        grid,
                        start,
                        end,
                        rest,
                        noted_before,
                        current.pos,
                        k as int,
                    ),
                decreases 4 - k,
            {
                let ghost noted = memory@;
                let ghost waiting = open@;
                let ghost depth_before = depth;
                assert(with_neighbours(grid, start, end, rest, noted_before, current.pos, k + 1)
                    == with_neighbour(grid, start, end, waiting, noted, current.pos, k as int));
                match neighbor(current.pos, k) {
                    Some(next) => {
                        let key = next.to_key();
                        // do not visit the start tile, nor a tile twice
                        if !(next == start) && !memory.contains_key(&key) {
                            // check if neighbor is valid
                            let solid = match self.grid.get(&next) {
                                Some(tile) => tile.is_solid(),
                                None => true,
                            };
                            if !solid {
                                // add neighbor to open list
                                open.push(
                                    GridNode {
                                        pos: next,
                                        distance_squared: distance_squared(next, end),
                                    },
                                );
                                // also note where it was reached from
                                memory.insert(key, current.pos);
                                proof {
                                    self.grid.lemma_keys(next);
                                    depth =
                                    |tile: Coordinates|
                                        if tile == next {
                                            (depth_before(current.pos) + 1) as nat
                                        } else {
                                            depth_before(tile)
                                        };
                                    assert(memory@.dom() =~= noted.dom().insert(key));
                                    vstd::set_lib::lemma_len_subset(
                                        memory@.dom(),
                                        self.grid.keys(),
                                    );
                                    assert forall|tile: Coordinates| #[trigger]
                                        memory@.contains_key(tile.key()) implies {
                                        &&& tile != start
                                        &&& walkable(grid, tile)
                                        &&& visited(memory@, start, memory@[tile.key()])
                                        &&& adjacent(memory@[tile.key()], tile)
                                        &&& depth(tile) == depth(memory@[tile.key()]) + 1
                                    } by {
                                        Coordinates::lemma_key_injective(tile, next);
                                        if tile == next {
                                            lemma_adjacent_is_step(current.pos, next);
                                        } else {
                                            assert(noted.contains_key(tile.key()));
                                            assert(visited(noted, start, noted[tile.key()]));
                                        }
                                    }
                                    assert forall|tile: Coordinates| #[trigger]
                                        visited(memory@, start, tile) implies {
                                        ||| expanded.contains(tile)
                                        ||| Some(current.pos) == Some(tile)
                                        ||| exists|i: int|
                                            0 <= i < open@.len() && (#[trigger] open@[i]).pos
                                                == tile
                                    } by {
                                        Coordinates::lemma_key_injective(tile, next);
                                        if tile == next {
                                            assert(open@[open@.len() - 1].pos == tile);
                                        } else {
                                            assert(visited(noted, start, tile));
                                            if !expanded.contains(tile) && current.pos != tile {
                                                let i = choose|i: int|
                                                    0 <= i < waiting.len() && (
                                                    #[trigger] waiting[i]).pos == tile;
                                                assert(open@[i].pos == tile);
                                            }
                                        }
                                    }
                                    assert forall|i: int| 0 <= i < open@.len() implies visited(
                                        memory@,
                                        start,
                                        (#[trigger] open@[i]).pos,
                                    ) by {
                                        if i < waiting.len() {
                                            assert(open@[i] == waiting[i]);
                                            assert(visited(noted, start, waiting[i].pos));
                                        }
                                    }
                                    assert forall|tile: Coordinates| #[trigger]
                                        expanded.contains(tile) implies tile != end && visited(
                                        memory@,
                                        start,
                                        tile,
                                    ) by {
                                        assert(visited(noted, start, tile));
                                    }
                                    assert forall|tile: Coordinates, other: Coordinates|
                                        expanded.contains(tile) && #[trigger] adjacent(tile, other)
                                            && walkable(grid, other) implies visited(
                                        memory@,
                                        start,
                                        other,
                                    ) by {
                                        assert(visited(noted, start, other));
                                    }
                                    assert forall|j: int| 0 <= j < k implies #[trigger] tried(
                                        grid,
                                        memory@,
                                        start,
                                        current.pos,
                                        j,
                                    ) by {
                                        assert(tried(grid, noted, start, current.pos, j));
                                    }
                                }
                            }
                        }
                    },
                    None => {},
                }
                assert((open@, memory@) == with_neighbour(
                    grid,
                    start,
                    end,
                    waiting,
                    noted,
                    current.pos,
                    k as int,
                ));
                k += 1;
            }
            proof {
                let before = expanded;
                expanded = expanded.insert(current.pos);
                assert forall|tile: Coordinates, other: Coordinates|
                    expanded.contains(tile) && #[trigger] adjacent(tile, other) && walkable(
                        grid,
                        other,
                    ) implies visited(memory@, start, other) by {
                    if tile == current.pos {
                        lemma_adjacent_is_step(tile, other);
                        let j = choose|j: int| 0 <= j < 4 && #[trigger] step(tile, j) == Some(other);
                        assert(tried(grid, memory@, start, current.pos, j));
                    } else {
                        assert(before.contains(tile));
                    }
                }
                assert forall|tile: Coordinates| #[trigger]
                    visited(memory@, start, tile) implies {
                    ||| expanded.contains(tile)
                    ||| None::<Coordinates> == Some(tile)
                    ||| exists|i: int| 0 <= i < open@.len() && (#[trigger] open@[i]).pos == tile
                } by {
                    if tile != current.pos && !before.contains(tile) {
                        let i = choose|i: int| 0 <= i < open@.len() && (#[trigger] open@[i]).pos
                            == tile;
                    }
                }
            }
        }
        proof {
            assert(open@ =~= Seq::<GridNode>::empty());
            if reachable(grid, start, end) {
                let path = choose|path: Seq<Coordinates>| is_path(grid, path, start, end);
                lemma_path_is_expanded(grid, memory@, start, end, expanded, path, path.len() - 1);
            }
        }
        Err(NoPathError)
    }
}

/// An event that fires when an entity has finished its pathing.
#[derive(Clone, Copy, Debug, PartialEq, Eq, Structural)]
pub struct NavigationFinishEvent(pub Entity);

/// What a [`CalculatedPath`] holds, as plain values.
pub struct CalculatedPathView {
    /// The tiles of the path, from the first to the last.
    pub path: Seq<Coordinates>,
    /// The places in the world that are still to be reached, the next one
    /// first.
    pub waypoints: Seq<Vec3>,
}

/// A calculated navigation path for an entity marked [`Nav`].
#[derive(Debug)]
pub struct CalculatedPath {
    path: Vec<Coordinates>,
    waypoints: VecDeque<Vec3>,
}

impl View for CalculatedPath {
    type V = CalculatedPathView;

    closed spec fn view(&self) -> CalculatedPathView {
        CalculatedPathView { path: self.path@, waypoints: self.waypoints@ }
    }
}

impl Default for CalculatedPath {
    fn default() -> (path: CalculatedPath)
        ensures
            path@ == (CalculatedPathView { path: Seq::empty(), waypoints: Seq::empty() }),
    {
        CalculatedPath { path: Vec::new(), waypoints: VecDeque::new() }
    }
}

impl CalculatedPath {
    /// The tiles of the path, from the first to the last.
    pub fn path(&self) -> (path: &[Coordinates])
        ensures
            path@ == self@.path,
    {
        self.path.as_slice()
    }

    /// Whether every waypoint has been reached.
    pub fn is_finished(&self) -> (finished: bool)
        ensures
            finished == (self@.waypoints.len() == 0),
    {
        self.waypoints.len() == 0
    }

    /// The waypoint to go to next, if any is left.
    pub fn next_waypoint(&self) -> (next: Option<Vec3>)
        ensures
            next == if self@.waypoints.len() > 0 {
                Some(self@.waypoints[0])
            } else {
                None
            },
    {
        if self.waypoints.len() > 0 {
            Some(self.waypoints[0])
        } else {
            None
        }
    }

    fn pop_waypoint(&mut self)
        ensures
            final(self)@.path == old(self)@.path,
            final(self)@.waypoints == if old(self)@.waypoints.len() > 0 {
                old(self)@.waypoints.drop_first()
            } else {
                old(self)@.waypoints
            },
    {
        let popped = self.waypoints.pop_front();
        assert(old(self)@.waypoints.len() > 0 ==> self.waypoints@ =~= old(
            self,
        )@.waypoints.drop_first());
    }
}

/// A bundle for navigating entities.
#[derive(Debug)]
pub struct NavBundle {
    pub nav: Nav,
    pub calculated_path: CalculatedPath,
}

/// The place in the world of a tile on the ground of a grid that lies at
/// `origin`.
pub open spec fn waypoint_of(tile: Coordinates, origin: Vec3) -> Vec3 {
    (Vec3 { x: (-tile.x * ONE) as i64, y: 0, z: (tile.y * ONE) as i64 }).plus(origin)
}

/// The waypoints of a path over a grid that lies at `origin`: the places of
/// its tiles, and the target itself at the end.
pub open spec fn waypoints_of(path: Seq<Coordinates>, origin: Vec3, target: Vec3) -> Seq<Vec3> {
    path.map_values(|tile: Coordinates| waypoint_of(tile, origin)).push(target)
}

/// Plans the way of an entity to the target of its navigation.
///
/// Nothing is done for an entity that has a path while its navigation has
/// not changed. Else a path is sought over the grid, which lies at
/// `grid_translation` in the world, from the tile that the entity is on to
/// the tile of the target. If one is found, which is the case if and only if
/// one exists, the entity gets that path and the waypoints are laid out anew
/// along it. If there is none, the entity keeps the path and the waypoints
/// that it had.
pub fn compute_navigation(
    translation: Vec3,
    nav: &Nav,
    nav_changed: bool,
    calculated_path: &mut CalculatedPath,
    grid: &Grid,
    grid_translation: Vec3,
)
    ensures
        ({
            let start = Coordinates::spec_from_local(translation.minus(grid_translation));
            let target = Coordinates::spec_from_local(nav.target.minus(grid_translation));
            if old(calculated_path)@.path.len() != 0 && !nav_changed {
                final(calculated_path)@ == old(calculated_path)@
            } else {
                &&& found_path(grid@, start, target).is_some() <==> reachable(grid@, start, target)
                &&& match found_path(grid@, start, target) {
                    Some(path) => {
                        &&& final(calculated_path)@ == (CalculatedPathView {
                            path,
                            waypoints: waypoints_of(path, grid_translation, nav.target),
                        })
                        &&& is_path(grid@, path, start, target)
                        &&& path.no_duplicates()
                    },
                    None => final(calculated_path)@ == old(calculated_path)@,
                }
            }
        }),
{
    if calculated_path.path.len() != 0 && !nav_changed {
        return ;
    }
    let pathfinder = Pathfinder::new(grid);

    // convert world coordinates to local, and locate the tiles
    let start = Coordinates::from_local(translation.sub(&grid_translation));
    let target = Coordinates::from_local(nav.target.sub(&grid_translation));

    // pathfind
    match pathfinder.find_path(start, target) {
        Ok(path) => {
            calculated_path.path = path;
        },
        Err(_) => {
            // the last good path stays
            return ;
        },
    }

    let mut waypoints: VecDeque<Vec3> = VecDeque::new();
    let mut i: usize = 0;
    while i < calculated_path.path.len()
        invariant
            i <= calculated_path.path.len(),
            waypoints@ == calculated_path.path@.take(i as int).map_values(
                |tile: Coordinates| waypoint_of(tile, grid_translation),
            ),
        decreases calculated_path.path.len() - i,
    {
        let tile = calculated_path.path[i];
        waypoints.push_back(tile.local(0).add(&grid_translation));
        i += 1;
        assert(waypoints@ =~= calculated_path.path@.take(i as int).map_values(
            |tile: Coordinates| waypoint_of(tile, grid_translation),
        ));
    }
    assert(calculated_path.path@.take(i as int) == calculated_path.path@);
    waypoints.push_back(nav.target);
    calculated_path.waypoints = waypoints;
}

/// How far an entity of the given speed, in tiles a second, gets in `delta`
/// nanoseconds.
pub open spec fn travel(speed: int, delta: int) -> int {
    clamp_i64(speed * delta / NANOS_PER_SEC as int)
}

/// One axis of a step: `gap * reach / distance`, towards the goal.
pub open spec fn step_on_axis(from: i64, to: i64, reach: int, distance: int) -> int {
    if to >= from {
        from + (to - from) * reach / distance
    } else {
        from - (from - to) * reach / distance
    }
}

/// The place that an entity at `from` comes to when it moves by `reach`
/// straight towards `to`, which is further away than that.
///
/// The distance is rounded down to a whole millionth of a tile, and a
/// distance beyond what can be counted is taken for the longest that can.
pub open spec fn stepped(from: Vec3, to: Vec3, reach: int) -> Vec3 {
    let squared = if to.distance_squared(from) > u128::MAX {
        u128::MAX as int
    } else {
        to.distance_squared(from)
    };
    let distance = floor_sqrt(squared);
    Vec3 {
        x: step_on_axis(from.x, to.x, reach, distance) as i64,
        y: step_on_axis(from.y, to.y, reach, distance) as i64,
        z: step_on_axis(from.z, to.z, reach, distance) as i64,
    }
}

fn square_of_gap(a: i64, b: i64) -> (square: u128)
    ensures
        square == (a - b) * (a - b),
{
    let d: u64 = gap(a, b);
    assert(d * d == (a - b) * (a - b)) by (nonlinear_arith)
        requires
            d == a - b || d == b - a,
    ;
    assert(d * d <= 0xffff_ffff_ffff_ffff * 0xffff_ffff_ffff_ffff) by (nonlinear_arith)
        requires
            0 <= d <= 0xffff_ffff_ffff_ffff,
    ;
    d as u128 * d as u128
}

fn move_on_axis(from: i64, to: i64, reach: u64, distance: u64) -> (at: i64)
    requires
        0 < distance,
        reach <= distance,
    ensures
        at == step_on_axis(from, to, reach as int, distance as int),
{
    let d: u64 = gap(from, to);
    assert(0 <= d * reach <= d * distance) by (nonlinear_arith)
        requires
            0 <= reach <= distance,
            0 <= d,
    ;
    assert(d * distance <= 0xffff_ffff_ffff_ffff * 0xffff_ffff_ffff_ffff) by (nonlinear_arith)
        requires
            0 <= d <= 0xffff_ffff_ffff_ffff,
            0 <= distance <= 0xffff_ffff_ffff_ffff,
    ;
    let step: u128 = d as u128 * reach as u128 / distance as u128;
    proof {
        assert(distance * d == d * distance) by (nonlinear_arith);
        vstd::arithmetic::div_mod::lemma_div_is_ordered(
            d as int * reach as int,
            distance as int * d as int,
            distance as int,
        );
        vstd::arithmetic::div_mod::lemma_div_multiples_vanish(d as int, distance as int);
    }
    if to >= from {
        (from as i128 + step as i128) as i64
    } else {
        (from as i128 - step as i128) as i64
    }
}

/// Moves an entity along its path.
///
/// An entity whose navigation is not active, or that has no waypoint left,
/// stays where it is. Else it moves towards its next waypoint as far as its
/// speed takes it in `delta` nanoseconds. If that is as far as the waypoint
/// or further, the entity is put on the waypoint and the waypoint is done
/// with; the event tells that it was the last one.
pub fn navigation_steering(
    id: Entity,
    nav: &Nav,
    translation: &mut Vec3,
    path: &mut CalculatedPath,
    move_speed: &MoveSpeed,
    delta: u64,
) -> (finished: Option<NavigationFinishEvent>)
    ensures
        ({
            let reach = travel(move_speed.value(), delta as int);
            let waypoints = old(path)@.waypoints;
            if !nav.active || waypoints.len() == 0 {
                &&& *final(translation) == *old(translation)
                &&& final(path)@ == old(path)@
                &&& finished.is_none()
            } else if waypoints[0].distance_squared(*old(translation)) <= reach * reach {
                &&& *final(translation) == waypoints[0]
                &&& final(path)@ == (CalculatedPathView {
                    waypoints: waypoints.drop_first(),
                    ..old(path)@
                })
                &&& finished == if waypoints.len() == 1 {
                    Some(NavigationFinishEvent(id))
                } else {
                    None
                }
            } else {
                &&& *final(translation) == stepped(*old(translation), waypoints[0], reach)
                &&& final(path)@ == old(path)@
                &&& finished.is_none()
            }
        }),
{
    if !nav.active {
        return None;
    }
    let next = match path.next_waypoint() {
        Some(next) => next,
        None => {
            // we are at the end
            return None;
        },
    };

    // find movement delta for this frame
    let speed = move_speed.get();
    assert(0 <= speed * delta <= 0x8000_0000_0000_0000 * 0x1_0000_0000_0000_0000)
        by (nonlinear_arith)
        requires
            0 <= speed <= 0x8000_0000_0000_0000,
            0 <= delta <= 0x1_0000_0000_0000_0000,
    ;
    let covered: u128 = speed as u128 * delta as u128 / NANOS_PER_SEC as u128;
    let reach: u64 = if covered > i64::MAX as u128 {
        i64::MAX as u64
    } else {
        covered as u64
    };
    assert(reach == travel(move_speed.value(), delta as int));
    assert(reach * reach <= 0x7fff_ffff_ffff_ffff * 0x7fff_ffff_ffff_ffff) by (nonlinear_arith)
        requires
            0 <= reach <= 0x7fff_ffff_ffff_ffff,
    ;

    // the distance to the next waypoint, squared
    let from = *translation;
    let dx: u128 = square_of_gap(next.x, from.x);
    let dy: u128 = square_of_gap(next.y, from.y);
    let dz: u128 = square_of_gap(next.z, from.z);
    let squared: u128 = match dx.checked_add(dy) {
        Some(sum) => match sum.checked_add(dz) {
            Some(sum) => sum,
            None => u128::MAX,
        },
        None => u128::MAX,
    };
    assert(squared == if next.distance_squared(from) > u128::MAX {
        u128::MAX as int
    } else {
        next.distance_squared(from)
    });

    if squared <= reach as u128 * reach as u128 {
        // snap to waypoint and pop
        *translation = next;
        path.pop_waypoint();

        // send a finish event if this was the last waypoint
        if path.is_finished() {
            Some(NavigationFinishEvent(id))
        } else {
            None
        }
    } else {
        // advance towards waypoint
        let distance = isqrt(squared);
        proof {
            assert(reach <= distance && 0 < distance) by (nonlinear_arith)
                requires
                    reach * reach < squared,
                    squared < (distance + 1) * (distance + 1),
                    0 <= reach,
                    0 <= distance,
            ;
        }
        *translation = Vec3 {
            x: move_on_axis(from.x, next.x, reach, distance),
            y: move_on_axis(from.y, next.y, reach, distance),
            z: move_on_axis(from.z, next.z, reach, distance),
        };
        None
    }
}

} // verus!
