//! Ranges made of tiles.

use vstd::prelude::*;

use crate::tile_map::Coordinates;

verus! {

/// A direction for a range.
#[derive(Clone, Copy, Debug, PartialEq, Eq, Structural, Hash)]
pub enum Direction {
    Right,
    Up,
    Left,
    Down,
}

impl Default for Direction {
    fn default() -> (direction: Direction)
        ensures
            direction == Direction::Right,
    {
        Direction::Right
    }
}

impl Direction {
    /// The number of quarter turns from [`Direction::Right`] to this
    /// direction.
    pub open spec fn turns(self) -> int {
        match self {
            Direction::Right => 0,
            Direction::Up => 1,
            Direction::Left => 2,
            Direction::Down => 3,
        }
    }

    /// The direction that is `turns` quarter turns from
    /// [`Direction::Right`], for a number of turns that is not negative.
    pub open spec fn of_turns(turns: int) -> Direction {
        if turns % 4 == 0 {
            Direction::Right
        } else if turns % 4 == 1 {
            Direction::Up
        } else if turns % 4 == 2 {
            Direction::Left
        } else {
            Direction::Down
        }
    }

    /// The sine of the angle of the direction.
    pub open spec fn spec_sin(self) -> int {
        match self {
            Direction::Right => 0,
            Direction::Up => 1,
            Direction::Left => 0,
            Direction::Down => -1,
        }
    }

    /// The cosine of the angle of the direction.
    pub open spec fn spec_cos(self) -> int {
        match self {
            Direction::Right => 1,
            Direction::Up => 0,
            Direction::Left => -1,
            Direction::Down => 0,
        }
    }

    /// How many 90-degree turns one direction is from another that is no
    /// more turns from [`Direction::Right`] than it is.
    pub fn difference(self, other: Direction) -> (turned: Direction)
        requires
            self.turns() >= other.turns(),
        ensures
            turned == Direction::of_turns(self.turns() - other.turns()),
    {
        Direction::from_turn_count(self.turn_count() - other.turn_count())
    }

    pub fn sin(self) -> (sin: i32)
        ensures
            sin == self.spec_sin(),
    {
        match self {
            Direction::Right => 0,
            Direction::Up => 1,
            Direction::Left => 0,
            Direction::Down => -1,
        }
    }

    pub fn cos(self) -> (cos: i32)
        ensures
            cos == self.spec_cos(),
    {
        match self {
            Direction::Right => 1,
            Direction::Up => 0,
            Direction::Left => -1,
            Direction::Down => 0,
        }
    }

    fn turn_count(self) -> (turns: i32)
        ensures
            turns == self.turns(),
    {
        match self {
            Direction::Right => 0,
            Direction::Up => 1,
            Direction::Left => 2,
            Direction::Down => 3,
        }
    }

    fn from_turn_count(i: i32) -> (direction: Direction)
        requires
            i >= 0,
        ensures
            direction == Direction::of_turns(i as int),
    {
        let turns: i32 = i % 4;
        if turns == 0 {
            Direction::Right
        } else if turns == 1 {
            Direction::Up
        } else if turns == 2 {
            Direction::Left
        } else {
            Direction::Down
        }
    }
}

/// What a [`Range`] holds, as plain values.
pub struct RangeView {
    pub tiles: Seq<Coordinates>,
    pub direction: Direction,
}

/// A tile of a range after the range was turned by `turn`.
///
/// The new `x` comes of the old `x` and `y`; the new `y` comes of the new `x`
/// and the old `y`.
pub open spec fn turned_tile(tile: Coordinates, turn: Direction) -> Coordinates {
    let x = tile.x * turn.spec_cos() - tile.y * turn.spec_sin();
    Coordinates { x: x as i32, y: (x * turn.spec_sin() + tile.y * turn.spec_cos()) as i32 }
}

/// Whether a tile can be turned by `turn` without leaving the coordinates
/// that there are.
pub open spec fn can_turn(tile: Coordinates, turn: Direction) -> bool {
    let x = tile.x * turn.spec_cos() - tile.y * turn.spec_sin();
    &&& i32::MIN <= tile.x * turn.spec_cos() <= i32::MAX
    &&& i32::MIN <= tile.y * turn.spec_sin() <= i32::MAX
    &&& i32::MIN <= x <= i32::MAX
    &&& i32::MIN <= x * turn.spec_sin() <= i32::MAX
    &&& i32::MIN <= tile.y * turn.spec_cos() <= i32::MAX
    &&& i32::MIN <= x * turn.spec_sin() + tile.y * turn.spec_cos() <= i32::MAX
}

/// A range: the tiles that it covers, as seen from the entity that has it.
#[derive(Debug)]
pub struct Range {
    tiles: Vec<Coordinates>,
    direction: Direction,
}

impl View for Range {
    type V = RangeView;

    closed spec fn view(&self) -> RangeView {
        RangeView { tiles: self.tiles@, direction: self.direction }
    }
}

impl Default for Range {
    fn default() -> (range: Range)
        ensures
            range@ == (RangeView { tiles: Seq::empty(), direction: Direction::Right }),
    {
        Range { tiles: Vec::new(), direction: Direction::Right }
    }
}

impl Range {
    /// Creates a new `Range`.
    ///
    /// The default [`Direction`] is [`Direction::Right`].
    pub fn new(tiles: Vec<Coordinates>) -> (range: Range)
        ensures
            range@ == (RangeView { tiles: tiles@, direction: Direction::Right }),
    {
        Range { tiles, direction: Direction::Right }
    }

    /// The tiles of the `Range`.
    pub fn tiles(&self) -> (tiles: &[Coordinates])
        ensures
            tiles@ == self@.tiles,
    {
        self.tiles.as_slice()
    }

    /// The direction the `Range` is facing.
    pub fn direction(&self) -> (direction: Direction)
        ensures
            direction == self@.direction,
    {
        self.direction
    }

    /// Turns the `Range` to face in a [`Direction`] that is no more turns
    /// from [`Direction::Right`] than the one it faces, and by which every
    /// tile can be turned.
    pub fn face_to(&mut self, direction: Direction)
        requires
            old(self)@.direction.turns() >= direction.turns(),
            forall|i: int|
                0 <= i < old(self)@.tiles.len() ==> can_turn(
                    #[trigger] old(self)@.tiles[i],
                    Direction::of_turns(old(self)@.direction.turns() - direction.turns()),
                ),
        ensures
            final(self)@.direction == direction,
            final(self)@.tiles.len() == old(self)@.tiles.len(),
            forall|i: int|
                0 <= i < old(self)@.tiles.len() ==> #[trigger] final(self)@.tiles[i] == turned_tile(
                    old(self)@.tiles[i],
                    Direction::of_turns(old(self)@.direction.turns() - direction.turns()),
                ),
    {
        let diff = self.direction.difference(direction);
        let ghost before = self.tiles@;
        assert(diff == Direction::of_turns(old(self)@.direction.turns() - direction.turns()));
        assert forall|j: int| 0 <= j < before.len() implies can_turn(#[trigger] before[j], diff) by {
            assert(can_turn(old(self)@.tiles[j], diff));
        }
        let mut i: usize = 0;
        while i < self.tiles.len()
            invariant
                i <= self.tiles.len(),
                self.tiles@.len() == before.len(),
                self.direction == old(self).direction,
                forall|j: int| 0 <= j < i ==> #[trigger] self.tiles@[j] == turned_tile(before[j], diff),
                forall|j: int| i <= j < before.len() ==> #[trigger] self.tiles@[j] == before[j],
                forall|j: int| 0 <= j < before.len() ==> can_turn(#[trigger] before[j], diff),
            decreases self.tiles.len() - i,
        {
            let tile = self.tiles[i];
            assert(can_turn(before[i as int], diff));
            let x: i32 = tile.x * diff.cos() - tile.y * diff.sin();
            let y: i32 = x * diff.sin() + tile.y * diff.cos();
            self.tiles.set(i, Coordinates { x, y });
            i += 1;
        }
        self.direction = direction;
    }
}

} // verus!
