//! Pathing for enemies.
//!
//! Nothing here finds a path: that is done by the navigation of the tile map.
//! A [`Follower`] only steps from checkpoint to checkpoint and tells the
//! navigation where to go next.

use vstd::prelude::*;

use crate::fixed::{Vec2, Vec3};
use crate::tile_map::nav::Nav;
use crate::Entity;

verus! {

/// Fires when a [`Follower`] passes a checkpoint.
#[derive(Clone, Copy, Debug, PartialEq, Eq, Structural)]
pub struct CheckpointPassedEvent(pub Entity);

/// A checkpoint is a single destination in a [`Follower`]'s path.
#[derive(Clone, Copy, Debug, PartialEq, Eq, Structural)]
pub struct Checkpoint {
    /// The position to reach, on the ground.
    pub pos: Vec2,
}

impl Checkpoint {
    /// Shorthand for initializing a zero-wait checkpoint.
    pub fn at(pos: Vec2) -> (checkpoint: Checkpoint)
        ensures
            checkpoint.pos == pos,
    {
        Checkpoint { pos }
    }

    /// The place of the checkpoint in the world: on the ground.
    pub open spec fn place(self) -> Vec3 {
        Vec3 { x: self.pos.x, y: 0, z: self.pos.y }
    }
}

/// What a [`Follower`] holds, as plain values.
pub struct FollowerView {
    pub checkpoints: Seq<Checkpoint>,
    pub current_idx: int,
}

impl FollowerView {
    /// The checkpoint that the follower is on its way to, if any is left.
    pub open spec fn next(self) -> Option<Checkpoint> {
        if 0 <= self.current_idx < self.checkpoints.len() {
            Some(self.checkpoints[self.current_idx])
        } else {
            None
        }
    }

    /// The follower after it has gone on to the checkpoint after the next.
    /// A follower with no checkpoint left stays as it is.
    pub open spec fn advanced(self) -> FollowerView {
        if self.current_idx < self.checkpoints.len() {
            FollowerView { current_idx: self.current_idx + 1, ..self }
        } else {
            self
        }
    }
}

/// A `Follower` paths itself between two or more checkpoints on the map.
#[derive(Debug)]
pub struct Follower {
    checkpoints: Vec<Checkpoint>,
    current_idx: usize,
}

impl View for Follower {
    type V = FollowerView;

    closed spec fn view(&self) -> FollowerView {
        FollowerView { checkpoints: self.checkpoints@, current_idx: self.current_idx as int }
    }
}

impl Default for Follower {
    fn default() -> (follower: Follower)
        ensures
            follower@ == (FollowerView { checkpoints: Seq::empty(), current_idx: 0 }),
    {
        Follower { checkpoints: Vec::new(), current_idx: 0 }
    }
}

impl Follower {
    /// Creates a new `Follower` with a set of checkpoints.
    pub fn new(checkpoints: Vec<Checkpoint>) -> (follower: Follower)
        ensures
            follower@ == (FollowerView { checkpoints: checkpoints@, current_idx: 0 }),
    {
        Follower { checkpoints, current_idx: 0 }
    }

    /// Shorthand to create a `Follower` that spawns at a single checkpoint and
    /// does not move.
    pub fn start_at(checkpoint: Checkpoint) -> (follower: Follower)
        ensures
            follower@ == (FollowerView { checkpoints: seq![checkpoint], current_idx: 0 }),
    {
        let mut checkpoints: Vec<Checkpoint> = Vec::new();
        checkpoints.push(checkpoint);
        assert(checkpoints@ =~= seq![checkpoint]);
        Follower { checkpoints, current_idx: 0 }
    }

    /// Checks if the follower's pathing is complete.
    pub fn is_finished(&self) -> (finished: bool)
        ensures
            finished == self@.next().is_none(),
    {
        self.next().is_none()
    }

    /// Fetches a specific checkpoint.
    pub fn get(&self, idx: usize) -> (checkpoint: Option<&Checkpoint>)
        ensures
            match checkpoint {
                Some(checkpoint) => idx < self@.checkpoints.len() && *checkpoint
                    == self@.checkpoints[idx as int],
                None => idx >= self@.checkpoints.len(),
            },
    {
        if idx < self.checkpoints.len() {
            Some(&self.checkpoints[idx])
        } else {
            None
        }
    }

    /// Peeks the current checkpoint. Returns `None` if there are no
    /// checkpoints left.
    pub fn next(&self) -> (checkpoint: Option<&Checkpoint>)
        ensures
            match checkpoint {
                Some(checkpoint) => self@.next() == Some(*checkpoint),
                None => self@.next().is_none(),
            },
    {
        self.get(self.current_idx)
    }

    /// Advances to the next checkpoint, returning the next checkpoint.
    ///
    /// Mostly used internally, but this can be manually called to skip
    /// checkpoints.
    pub fn advance(&mut self) -> (checkpoint: Option<Checkpoint>)
        ensures
            final(self)@ == old(self)@.advanced(),
            checkpoint == final(self)@.next(),
    {
        if self.current_idx < self.checkpoints.len() {
            self.current_idx += 1;
        }
        match self.get(self.current_idx) {
            Some(checkpoint) => Some(*checkpoint),
            None => None,
        }
    }
}

/// Sends a newly spawned follower on its way to its first checkpoint, if it
/// has one.
pub fn start_followers(follower: &Follower, nav: &mut Nav)
    ensures
        *final(nav) == match follower@.next() {
            Some(next) => Nav { target: next.place(), ..*old(nav) },
            None => *old(nav),
        },
{
    // set next checkpoint
    if let Some(next) = follower.next() {
        let target = Vec3::new(next.pos.x, 0, next.pos.y);
        nav.set_target(target);
    }
}

/// Sends a follower that has reached its checkpoint on to the one after it,
/// if there is one.
pub fn update_followers_navigation(follower: &mut Follower, nav: &mut Nav)
    ensures
        final(follower)@ == old(follower)@.advanced(),
        *final(nav) == match final(follower)@.next() {
            Some(next) => Nav { target: next.place(), ..*old(nav) },
            None => *old(nav),
        },
{
    // set next checkpoint
    if let Some(next) = follower.advance() {
        let target = Vec3::new(next.pos.x, 0, next.pos.y);
        nav.set_target(target);
    }
}

} // verus!
