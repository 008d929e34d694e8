//! The tile map: the grid that operators are locked to and enemies walk on.

use vstd::prelude::*;

pub mod nav;
pub mod range;

use crate::fixed::{clamp_i32, floor_units, hold_i32, Vec3, ONE};
use crate::Entity;
use std::collections::HashMap;

verus! {

broadcast use vstd::std_specs::hash::group_hash_axioms;

/// The height of high ground tiles: a quarter of a tile.
pub const HIGH_GROUND_HEIGHT: i64 = 250_000;

/// The coordinates of a tile.
#[derive(Clone, Copy, Debug, PartialEq, Eq, Structural, Hash)]
pub struct Coordinates {
    pub x: i32,
    pub y: i32,
}

impl Default for Coordinates {
    fn default() -> (coordinates: Coordinates)
        ensures
            coordinates == (Coordinates { x: 0, y: 0 }),
    {
        Coordinates { x: 0, y: 0 }
    }
}

impl Coordinates {
    pub fn new(x: i32, y: i32) -> (coordinates: Coordinates)
        ensures
            coordinates == (Coordinates { x, y }),
    {
        Coordinates { x, y }
    }

    /// Where a tile placed at these coordinates stands in the space of its
    /// grid, at the given height.
    pub fn local(&self, height: i64) -> (local: Vec3)
        ensures
            local == (Vec3 { x: (-self.x * ONE) as i64, y: height, z: (self.y * ONE) as i64 }),
    {
        Vec3 { x: -(self.x as i64) * ONE, y: height, z: self.y as i64 * ONE }
    }

    /// The tile that a position in the space of the grid belongs to.
    ///
    /// Each of the two axes read, `x` and `y`, is rounded down to a whole tile
    /// and held to the range of `i32`; `x` then changes its sign.
    pub open spec fn spec_from_local(local: Vec3) -> Coordinates {
        Coordinates {
            x: clamp_i32(-clamp_i32(local.x as int / ONE as int)) as i32,
            y: clamp_i32(local.y as int / ONE as int) as i32,
        }
    }

    /// Approximates the tile coordinates of a position in the space of the
    /// grid.
    pub fn from_local(local: Vec3) -> (coordinates: Coordinates)
        ensures
            coordinates == Self::spec_from_local(local),
    {
        let x = hold_i32(floor_units(local.x));
        let y = hold_i32(floor_units(local.y));
        Coordinates { x: hold_i32(-(x as i64)), y }
    }

    /// The sum of the two coordinates, axis by axis.
    pub open spec fn plus(self, other: Coordinates) -> Coordinates {
        Coordinates { x: (self.x + other.x) as i32, y: (self.y + other.y) as i32 }
    }

    /// The key under which a grid files these coordinates.
    pub closed spec fn key(self) -> u64 {
        ((self.x + 0x8000_0000) * 0x1_0000_0000 + (self.y + 0x8000_0000)) as u64
    }

    pub(crate) fn to_key(&self) -> (key: u64)
        ensures
            key == self.key(),
    {
        ((self.x as i64 + 0x8000_0000) as u64) * 0x1_0000_0000 + ((self.y as i64
            + 0x8000_0000) as u64)
    }

    /// Different coordinates have different keys.
    pub proof fn lemma_key_injective(a: Coordinates, b: Coordinates)
        ensures
            a.key() == b.key() <==> a == b,
    {
    }

    /// The coordinates that a grid files under `key`.
    pub(crate) closed spec fn of_key(key: u64) -> Coordinates {
        Coordinates {
            x: (key / 0x1_0000_0000 - 0x8000_0000) as i32,
            y: (key % 0x1_0000_0000 - 0x8000_0000) as i32,
        }
    }

    /// Every key is the key of the coordinates filed under it, and of no
    /// others.
    pub(crate) proof fn lemma_of_key(key: u64, at: Coordinates)
        ensures
            Self::of_key(key).key() == key,
            Self::of_key(at.key()) == at,
    {
    }
}

impl std::ops::Add for Coordinates {
    type Output = Coordinates;

    fn add(self, other: Coordinates) -> (sum: Coordinates) {
        Coordinates { x: self.x + other.x, y: self.y + other.y }
    }
}

impl vstd::std_specs::ops::AddSpecImpl for Coordinates {
    open spec fn obeys_add_spec() -> bool {
        true
    }

    /// Neither axis may leave the range of `i32`.
    open spec fn add_req(self, other: Coordinates) -> bool {
        &&& i32::MIN <= self.x + other.x <= i32::MAX
        &&& i32::MIN <= self.y + other.y <= i32::MAX
    }

    open spec fn add_spec(self, other: Coordinates) -> Coordinates {
        self.plus(other)
    }
}

/// The kind of tile.
///
/// Determines what kind of operators can be deployed, and whether enemies can
/// cross.
#[derive(Clone, Copy, Debug, PartialEq, Eq, Structural, Hash)]
pub enum TileKind {
    Ground,
    HighGround,
}

impl Default for TileKind {
    fn default() -> (kind: TileKind)
        ensures
            kind == TileKind::HighGround,
    {
        TileKind::HighGround
    }
}

/// What is known about a tile.
#[derive(Clone, Copy, Debug, PartialEq, Eq, Structural, Hash)]
pub struct Tile {
    kind: TileKind,
    deployable: bool,
}

impl Default for Tile {
    fn default() -> (tile: Tile)
        ensures
            tile.spec_kind() == TileKind::HighGround,
            !tile.spec_deployable(),
    {
        Tile { kind: TileKind::HighGround, deployable: false }
    }
}

impl Tile {
    pub closed spec fn spec_kind(&self) -> TileKind {
        self.kind
    }

    pub closed spec fn spec_deployable(&self) -> bool {
        self.deployable
    }

    /// Creates a new tile.
    pub fn new(kind: TileKind, deployable: bool) -> (tile: Tile)
        ensures
            tile.spec_kind() == kind,
            tile.spec_deployable() == deployable,
    {
        Tile { kind, deployable }
    }

    /// The kind of tile.
    #[verifier::when_used_as_spec(spec_kind)]
    pub fn kind(&self) -> (kind: TileKind)
        ensures
            kind == self.spec_kind(),
    {
        self.kind
    }

    /// Whether the tile is deployable or not.
    #[verifier::when_used_as_spec(spec_deployable)]
    pub fn deployable(&self) -> (deployable: bool)
        ensures
            deployable == self.spec_deployable(),
    {
        self.deployable
    }
}

/// A tile as a grid remembers it.
#[derive(Clone, Copy, Debug, PartialEq, Eq, Structural, Hash)]
pub struct CachedTile {
    pub entity: Entity,
    pub tile: Tile,
}

impl CachedTile {
    /// Whether nothing can walk across the tile: high ground is solid.
    pub open spec fn solid(&self) -> bool {
        self.tile.kind() == TileKind::HighGround
    }

    #[verifier::when_used_as_spec(solid)]
    pub fn is_solid(&self) -> (solid: bool)
        ensures
            solid == self.solid(),
    {
        match self.tile.kind() {
            TileKind::HighGround => true,
            TileKind::Ground => false,
        }
    }
}

/// The grid: the tiles that are known, by their coordinates.
pub struct Grid {
    lookup: HashMap<u64, CachedTile>,
}

impl View for Grid {
    type V = Map<Coordinates, CachedTile>;

    closed spec fn view(&self) -> Map<Coordinates, CachedTile> {
        Map::new(
            |at: Coordinates| self.lookup@.contains_key(at.key()),
            |at: Coordinates| self.lookup@[at.key()],
        )
    }
}

impl Default for Grid {
    fn default() -> (grid: Grid)
        ensures
            grid@ == Map::<Coordinates, CachedTile>::empty(),
    {
        let grid = Grid { lookup: HashMap::new() };
        assert(grid@ =~= Map::<Coordinates, CachedTile>::empty());
        grid
    }
}

impl Grid {
    /// Gets a tile from the cache.
    pub fn get(&self, idx: &Coordinates) -> (tile: Option<&CachedTile>)
        ensures
            match tile {
                Some(tile) => self@.contains_key(*idx) && *tile == self@[*idx],
                None => !self@.contains_key(*idx),
            },
    {
        let key = idx.to_key();
        self.lookup.get(&key)
    }

    /// Files a tile under its coordinates, in place of the one that was there.
    pub fn insert(&mut self, at: Coordinates, tile: CachedTile)
        ensures
            final(self)@ == old(self)@.insert(at, tile),
    {
        let key = at.to_key();
        self.lookup.insert(key, tile);
        assert(self@ =~= old(self)@.insert(at, tile)) by {
            assert forall|c: Coordinates| #[trigger] self@.contains_key(c) == old(self)@.insert(
                at,
                tile,
            ).contains_key(c) by {
                Coordinates::lemma_key_injective(c, at);
            }
            assert forall|c: Coordinates| self@.contains_key(c) implies #[trigger] self@[c]
                == old(self)@.insert(at, tile)[c] by {
                Coordinates::lemma_key_injective(c, at);
            }
        }
    }

    /// The number of tiles.
    pub(crate) fn count(&self) -> (count: usize)
        ensures
            count == self.keys().len(),
            self.keys().finite(),
    {
        self.lookup.len()
    }

    /// The keys of the tiles that are known.
    pub(crate) closed spec fn keys(&self) -> Set<u64> {
        self.lookup@.dom()
    }

    pub(crate) proof fn lemma_keys(&self, at: Coordinates)
        ensures
            self@.contains_key(at) <==> self.keys().contains(at.key()),
    {
    }

    /// A grid knows a finite number of tiles: as many as it has keys.
    pub(crate) proof fn lemma_tiles(&self)
        requires
            self.keys().finite(),
        ensures
            self@.dom().finite(),
            self@.dom().len() == self.keys().len(),
    {
        let keys = self.keys();
        let filed = |key: u64| Coordinates::of_key(key);
        assert(vstd::relations::injective_on(filed, keys)) by {
            assert forall|a: u64, b: u64|
                keys.contains(a) && keys.contains(b) && #[trigger] filed(a) == #[trigger] filed(
                    b,
                ) implies a == b by {
                Coordinates::lemma_of_key(a, Coordinates::of_key(a));
                Coordinates::lemma_of_key(b, Coordinates::of_key(b));
            }
        }
        assert(keys.map(filed) =~= self@.dom()) by {
            assert forall|at: Coordinates| keys.map(filed).contains(at) <==> self@.dom().contains(
                at,
            ) by {
                if self@.dom().contains(at) {
                    Coordinates::lemma_of_key(at.key(), at);
                    assert(keys.contains(at.key()) && at == filed(at.key()));
                }
                if keys.map(filed).contains(at) {
                    let key = choose|key: u64| keys.contains(key) && at == filed(key);
                    Coordinates::lemma_of_key(key, at);
                }
            }
        }
        vstd::set_lib::lemma_map_size(keys, self@.dom(), filed);
    }
}

/// A tile that was added or changed, to be filed in the grid.
#[derive(Clone, Copy, Debug, PartialEq, Eq, Structural, Hash)]
pub struct ChangedTile {
    pub entity: Entity,
    pub coordinates: Coordinates,
    pub tile: Tile,
}

/// The grid after the first `n` of `changes` have been filed, one after the
/// other.
pub open spec fn cached(grid: Map<Coordinates, CachedTile>, changes: Seq<ChangedTile>, n: int) -> Map<
    Coordinates,
    CachedTile,
>
    decreases n,
{
    if n <= 0 || n > changes.len() {
        grid
    } else {
        cached(grid, changes, n - 1).insert(
            changes[n - 1].coordinates,
            CachedTile { entity: changes[n - 1].entity, tile: changes[n - 1].tile },
        )
    }
}

/// Files every tile that was added or changed in the grid, in the order
/// given: of two tiles at the same coordinates the later one stays.
pub fn cache_tiles(changes: &Vec<ChangedTile>, grid: &mut Grid)
    ensures
        final(grid)@ == cached(old(grid)@, changes@, changes@.len() as int),
{
    let mut i: usize = 0;
    while i < changes.len()
        invariant
            i <= changes.len(),
            grid@ == cached(old(grid)@, changes@, i as int),
        decreases changes.len() - i,
    {
        let change = changes[i];
        grid.insert(change.coordinates, CachedTile { entity: change.entity, tile: change.tile });
        i += 1;
    }
}

/// The height at which an entity locked to the grid stands: that of its tile,
/// and the ground where the grid knows no tile there.
pub open spec fn height_at(grid: Map<Coordinates, CachedTile>, at: Coordinates) -> i64 {
    if grid.contains_key(at) && grid[at].tile.kind() == TileKind::HighGround {
        HIGH_GROUND_HEIGHT
    } else {
        0
    }
}

/// Where an entity that is locked to the grid at `coordinates` belongs, in
/// the space of the grid.
pub fn position_gridlocked_entities(coordinates: &Coordinates, grid: &Grid) -> (translation: Vec3)
    ensures
        translation == (Vec3 {
            x: (-coordinates.x * ONE) as i64,
            y: height_at(grid@, *coordinates),
            z: (coordinates.y * ONE) as i64,
        }),
{
    let height = match grid.get(coordinates) {
        Some(tile) => match tile.tile.kind() {
            TileKind::Ground => 0,
            TileKind::HighGround => HIGH_GROUND_HEIGHT,
        },
        None => 0,
    };
    coordinates.local(height)
}

} // verus!
