//! The direction buffer: one pending change of direction per step, with
//! reversals refused.

use crate::cell::Direction;
use vstd::prelude::*;

verus! {

/// The keys that the player holds down during one update.
#[derive(Clone, Copy, Debug, PartialEq, Eq, Structural)]
pub struct Keys {
    pub left: bool,
    pub right: bool,
    pub up: bool,
    pub down: bool,
    /// The restart key.
    pub space: bool,
}

/// Whether a change to `d` may be buffered while `committed` is in effect:
/// always at the start, and later only across the current axis.
pub open spec fn accepts(committed: Option<Direction>, d: Direction) -> bool {
    match committed {
        None => true,
        Some(c) => c.is_vertical() != d.is_vertical(),
    }
}

/// The direction that `keys` ask for: the first, in the order left, right,
/// up, down, that is held without its opposite and that `committed` accepts.
pub open spec fn key_choice(committed: Option<Direction>, keys: Keys) -> Option<Direction> {
    if keys.left && !keys.right && accepts(committed, Direction::Left) {
        Some(Direction::Left)
    } else if keys.right && !keys.left && accepts(committed, Direction::Right) {
        Some(Direction::Right)
    } else if keys.up && !keys.down && accepts(committed, Direction::Up) {
        Some(Direction::Up)
    } else if keys.down && !keys.up && accepts(committed, Direction::Down) {
        Some(Direction::Down)
    } else {
        None
    }
}

/// The direction in effect and the one buffered for the next step.
#[derive(Clone, Copy, Debug, PartialEq, Eq, Structural)]
pub struct DirectionController {
    pub direction: Option<Direction>,
    pub buffered_direction: Option<Direction>,
}

impl DirectionController {
    /// No direction yet: the snake waits for the first input.
    pub fn new() -> (s: Self)
        ensures
            s.direction is None,
            s.buffered_direction is None,
    {
        DirectionController { direction: None, buffered_direction: None }
    }

    fn accepts(&self, d: Direction) -> (r: bool)
        ensures
            r == accepts(self.direction, d),
    {
        match self.direction {
            None => true,
            Some(c) => c.is_vertical() != d.is_vertical(),
        }
    }

    /// Buffers `d` where the direction in effect accepts it; a reversal, or a
    /// repeat of the current axis, leaves the buffer as it was.
    pub fn submit(&mut self, d: Direction) -> (accepted: bool)
        ensures
            accepted == accepts(old(self).direction, d),
            final(self).buffered_direction == (if accepted {
                Some(d)
            } else {
                old(self).buffered_direction
            }),
            final(self).direction == old(self).direction,
            old(self).direction == Some(d.opposite()) ==> final(self).buffered_direction == old(
                self,
            ).buffered_direction,
    {
        if self.accepts(d) {
            self.buffered_direction = Some(d);
            true
        } else {
            false
        }
    }

    /// Buffers the direction that `keys` ask for, if any.
    pub fn submit_keys(&mut self, keys: Keys)
        ensures
            final(self).buffered_direction == (match key_choice(old(self).direction, keys) {
                Some(d) => Some(d),
                None => old(self).buffered_direction,
            }),
            final(self).direction == old(self).direction,
    {
        if keys.left && !keys.right && self.accepts(Direction::Left) {
            self.buffered_direction = Some(Direction::Left);
        } else if keys.right && !keys.left && self.accepts(Direction::Right) {
            self.buffered_direction = Some(Direction::Right);
        } else if keys.up && !keys.down && self.accepts(Direction::Up) {
            self.buffered_direction = Some(Direction::Up);
        } else if keys.down && !keys.up && self.accepts(Direction::Down) {
            self.buffered_direction = Some(Direction::Down);
        }
    }

    /// Puts the buffered direction into effect and returns it.
    pub fn commit(&mut self) -> (d: Option<Direction>)
        ensures
            d == old(self).buffered_direction,
            final(self).direction == old(self).buffered_direction,
            final(self).buffered_direction == old(self).buffered_direction,
    {
        self.direction = self.buffered_direction;
        self.direction
    }
}

/// A reversal is never buffered: with `d` in effect, asking for the opposite
/// direction leaves the buffer unchanged.
pub proof fn lemma_reversal_refused(d: Direction)
    ensures
        !accepts(Some(d), d.opposite()),
{
}

} // verus!
