//! Player identity and orientation.

use vstd::prelude::*;

verus! {

/// Identifies one player across a match.
#[derive(Clone, Copy, Debug, Default, PartialEq, Eq, Structural)]
pub struct PlayerId(pub u8);

/// Which way a character faces on the stage.
#[derive(Clone, Copy, Debug, PartialEq, Eq, Hash, Structural)]
pub enum Facing {
    Left,
    Right,
}

impl Facing {
    pub fn is_left(&self) -> (r: bool)
        ensures
            r == (*self is Left),
    {
        matches!(*self, Facing::Left)
    }

    pub fn is_right(&self) -> (r: bool)
        ensures
            r == (*self is Right),
    {
        matches!(*self, Facing::Right)
    }

    /// Flips the direction in place.
    pub fn invert(&mut self)
        ensures
            *final(self) == old(self).spec_inverted(),
    {
        *self = self.inverted()
    }

    /// The opposite direction.
    pub open spec fn spec_inverted(self) -> Facing {
        match self {
            Facing::Left => Facing::Right,
            Facing::Right => Facing::Left,
        }
    }

    pub fn inverted(&self) -> (r: Self)
        ensures
            r == self.spec_inverted(),
    {
        match self {
            Facing::Left => Facing::Right,
            Facing::Right => Facing::Left,
        }
    }
}

} // verus!
