//! Frame-counted timers: countdowns measured in game ticks.

use vstd::prelude::*;

verus! {

/// A simple countdown over game ticks: ticks down once per frame and
/// stops at zero.
#[derive(Clone, Copy, Debug, PartialEq, Eq, Structural)]
pub struct FrameTimer(pub u16);

impl FrameTimer {
    pub fn new(frames: u16) -> (r: Self)
        ensures
            r.0 == frames,
    {
        FrameTimer(frames)
    }

    /// Counts one frame down; a finished timer stays at zero.
    pub fn tick(&mut self)
        ensures
            final(self).0 == (if old(self).0 == 0 {
                0u16
            } else {
                (old(self).0 - 1) as u16
            }),
    {
        if !self.is_done() {
            self.0 = self.0 - 1;
        }
    }

    /// Restarts the countdown at `frames`.
    pub fn reset(&mut self, frames: u16)
        ensures
            final(self).0 == frames,
    {
        self.0 = frames;
    }

    /// Whether the countdown has reached zero.
    pub fn is_done(&self) -> (r: bool)
        ensures
            r == (self.0 == 0),
    {
        self.0 == 0
    }
}

} // verus!
