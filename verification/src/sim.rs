//! A small deterministic host simulation: four players moving on a
//! wrapping line. It implements the full session contract — save, load,
//! advance — and exists so the orchestration layer can be driven end to
//! end against a host whose determinism is itself verified.

use vstd::prelude::*;

use crate::input::PlayerInputFrame;
use crate::input_queue::GameInput;
use crate::SessionCallbacks;

verus! {

/// A complete, independently owned copy of the simulation state: each
/// player's position on a line that wraps at 2^32, plus a tick counter.
#[derive(Clone, Copy, Debug, PartialEq, Eq, Structural)]
pub struct SimSnapshot {
    pub p0: u32,
    pub p1: u32,
    pub p2: u32,
    pub p3: u32,
    pub ticks: u32,
}

/// One player's position after one frame: moved by the horizontal
/// movement axis, wrapping at 2^32.
pub open spec fn spec_shift(p: u32, input: PlayerInputFrame) -> u32 {
    (((p + input.movement.x.0) % 0x1_0000_0000) as u32)
}

/// The whole state after one frame under a combined input.
pub open spec fn spec_step(m: SimSnapshot, g: GameInput) -> SimSnapshot {
    SimSnapshot {
        p0: spec_shift(m.p0, g.inputs@[0]),
        p1: spec_shift(m.p1, g.inputs@[1]),
        p2: spec_shift(m.p2, g.inputs@[2]),
        p3: spec_shift(m.p3, g.inputs@[3]),
        ticks: (((m.ticks + 1) % 0x1_0000_0000) as u32),
    }
}

/// The checksum the simulation reports for a state.
pub open spec fn spec_checksum(m: SimSnapshot) -> u32 {
    (((m.p0 + 2 * m.p1 + 3 * m.p2 + 5 * m.p3 + 7 * m.ticks) % 0x1_0000_0000) as u32)
}

/// The live simulation.
pub struct BasicSimulation {
    state: SimSnapshot,
}

impl BasicSimulation {
    /// All players at the origin, tick zero.
    pub fn new() -> (r: BasicSimulation)
        ensures
            r.sim() == (SimSnapshot { p0: 0, p1: 0, p2: 0, p3: 0, ticks: 0 }),
    {
        BasicSimulation { state: SimSnapshot { p0: 0, p1: 0, p2: 0, p3: 0, ticks: 0 } }
    }

    /// The current state, read back as a plain value.
    pub fn current(&self) -> (r: SimSnapshot)
        ensures
            r == self.sim(),
    {
        self.state
    }
}

/// One position update: wrapping addition of a signed axis value.
fn shift(p: u32, input: &PlayerInputFrame) -> (r: u32)
    ensures
        r == spec_shift(p, *input),
{
    let moved: i64 = (p as i64) + (input.movement.x.0 as i64);
    let wrapped: i64 = if moved < 0 {
        moved + 0x1_0000_0000
    } else if moved >= 0x1_0000_0000 {
        moved - 0x1_0000_0000
    } else {
        moved
    };
    proof {
        assert(wrapped == (p + input.movement.x.0) % 0x1_0000_0000) by {
            let v = p + input.movement.x.0 as int;
            if v < 0 {
                assert(v % 0x1_0000_0000 == v + 0x1_0000_0000) by {
                    assert(-0x1_0000_0000 < v < 0);
                };
            } else if v >= 0x1_0000_0000 {
                assert(v % 0x1_0000_0000 == v - 0x1_0000_0000) by {
                    assert(0x1_0000_0000 <= v < 0x2_0000_0000);
                };
            } else {
                assert(v % 0x1_0000_0000 == v);
            }
        };
    }
    wrapped as u32
}

impl SessionCallbacks for BasicSimulation {
    type State = SimSnapshot;

    type Model = SimSnapshot;

    closed spec fn sim(&self) -> SimSnapshot {
        self.state
    }

    closed spec fn snapshot_model(state: &SimSnapshot) -> SimSnapshot {
        *state
    }

    closed spec fn checksum_of(m: SimSnapshot) -> u32 {
        spec_checksum(m)
    }

    closed spec fn step(m: SimSnapshot, input: GameInput) -> SimSnapshot {
        spec_step(m, input)
    }

    fn save_state(&mut self) -> (r: (SimSnapshot, u32)) {
        let s = self.state;
        let sum: u64 = (s.p0 as u64) + 2 * (s.p1 as u64) + 3 * (s.p2 as u64) + 5 * (s.p3 as u64)
            + 7 * (s.ticks as u64);
        let checksum: u64 = sum % 0x1_0000_0000;
        (s, checksum as u32)
    }

    fn load_state(&mut self, state: &SimSnapshot) {
        self.state = *state;
    }

    fn advance_frame(&mut self, input: &GameInput) {
        let ticks: u32 = if self.state.ticks == 0xffff_ffff {
            0
        } else {
            self.state.ticks + 1
        };
        proof {
            assert(ticks == (self.state.ticks + 1) % 0x1_0000_0000) by {
                if self.state.ticks == 0xffff_ffffu32 {
                    assert(0x1_0000_0000int % 0x1_0000_0000 == 0);
                }
            };
        }
        self.state = SimSnapshot {
            p0: shift(self.state.p0, &input.inputs[0]),
            p1: shift(self.state.p1, &input.inputs[1]),
            p2: shift(self.state.p2, &input.inputs[2]),
            p3: shift(self.state.p3, &input.inputs[3]),
            ticks,
        };
    }
}

} // verus!
