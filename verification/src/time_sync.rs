//! Frame-advantage balancing: both peers record how far ahead each one
//! believes itself to be, and the peer that is ahead is told how many
//! frames to sleep so the other can catch up.

use vstd::prelude::*;

use crate::input_queue::GameInput;
use crate::Frame;

verus! {

/// How many per-frame advantage samples each window keeps.
pub const FRAME_WINDOW_SIZE: usize = 40;

/// How many recent inputs the idle heuristic looks at.
pub const MIN_UNIQUE_FRAMES: usize = 10;

/// Recommendations smaller than this are not worth acting on.
pub const MIN_FRAME_ADVANTAGE: Frame = 3;

/// No recommendation ever exceeds this many frames.
pub const MAX_FRAME_ADVANTAGE: Frame = 9;

/// Sum of a window of frame-advantage samples.
pub open spec fn sum_seq(s: Seq<i32>) -> int
    decreases s.len(),
{
    if s.len() == 0 {
        0
    } else {
        sum_seq(s.drop_last()) + s.last()
    }
}

/// Whether two combined inputs carry the same data.
pub open spec fn game_input_eq(a: GameInput, b: GameInput) -> bool {
    a.frame == b.frame && a.inputs@ == b.inputs@
}

/// The two advantage windows plus a short input history for the idle
/// heuristic. Samples are stored cyclically by frame number.
pub struct TimeSync {
    local: Vec<Frame>,
    remote: Vec<Frame>,
    last_inputs: Vec<GameInput>,
    iteration: u32,
}

impl TimeSync {
    /// The window of locally measured frame advantages.
    pub closed spec fn local_window(self) -> Seq<Frame> {
        self.local@
    }

    /// The window of frame advantages the remote peer reported.
    pub closed spec fn remote_window(self) -> Seq<Frame> {
        self.remote@
    }

    /// The recent-input history the idle heuristic reads.
    pub closed spec fn input_history(self) -> Seq<GameInput> {
        self.last_inputs@
    }

    pub closed spec fn iterations(self) -> u32 {
        self.iteration
    }

    /// Both windows and the input history have their fixed sizes.
    pub open spec fn wf(self) -> bool {
        &&& self.local_window().len() == FRAME_WINDOW_SIZE
        &&& self.remote_window().len() == FRAME_WINDOW_SIZE
        &&& self.input_history().len() == MIN_UNIQUE_FRAMES
    }

    /// Whether every input of the recent history equals the oldest slot:
    /// only then is a pause recommendation safe for the player.
    pub open spec fn inputs_idle(self) -> bool {
        forall|i: int|
            0 <= i < self.input_history().len() ==> game_input_eq(
                #[trigger] self.input_history()[i],
                self.input_history()[0],
            )
    }

    /// The recommendation `recommend_frame_wait_duration` returns: zero
    /// when this peer is not ahead, when the split difference rounds below
    /// `MIN_FRAME_ADVANTAGE`, or when idle input is required but absent;
    /// otherwise half the average advantage difference, rounded to the
    /// nearest frame and capped at `MAX_FRAME_ADVANTAGE`.
    pub open spec fn spec_recommendation(self, require_idle_input: bool) -> Frame {
        let diff = sum_seq(self.remote_window()) - sum_seq(self.local_window());
        if diff <= 0 {
            0
        } else {
            let sleep = (diff + 40) / 80;
            if sleep < MIN_FRAME_ADVANTAGE {
                0
            } else if require_idle_input && !self.inputs_idle() {
                0
            } else if sleep < MAX_FRAME_ADVANTAGE {
                sleep as Frame
            } else {
                MAX_FRAME_ADVANTAGE
            }
        }
    }

    pub fn new() -> (t: TimeSync)
        ensures
            t.wf(),
            t.local_window() == Seq::<Frame>::new(FRAME_WINDOW_SIZE as nat, |i: int| 0i32),
            t.remote_window() == Seq::<Frame>::new(FRAME_WINDOW_SIZE as nat, |i: int| 0i32),
            t.iterations() == 0,
    {
        let mut local: Vec<Frame> = Vec::new();
        let mut remote: Vec<Frame> = Vec::new();
        let mut last_inputs: Vec<GameInput> = Vec::new();
        let mut i: usize = 0;
        while i < FRAME_WINDOW_SIZE
            invariant
                0 <= i <= FRAME_WINDOW_SIZE,
                local@.len() == i,
                remote@.len() == i,
                forall|k: int| 0 <= k < i ==> local@[k] == 0i32 && remote@[k] == 0i32,
            decreases FRAME_WINDOW_SIZE - i,
        {
            local.push(0);
            remote.push(0);
            i = i + 1;
        }
        let mut j: usize = 0;
        while j < MIN_UNIQUE_FRAMES
            invariant
                0 <= j <= MIN_UNIQUE_FRAMES,
                last_inputs@.len() == j,
            decreases MIN_UNIQUE_FRAMES - j,
        {
            last_inputs.push(GameInput::neutral(0));
            j = j + 1;
        }
        let t = TimeSync { local, remote, last_inputs, iteration: 0 };
        proof {
            assert(t.local_window() =~= Seq::<Frame>::new(FRAME_WINDOW_SIZE as nat, |i: int| 0i32));
            assert(t.remote_window() =~= Seq::<Frame>::new(FRAME_WINDOW_SIZE as nat, |i: int| 0i32));
        }
        t
    }

    /// Records the input and both advantage values for the input's frame,
    /// overwriting the window slots that frame maps to cyclically.
    pub fn advance_frame(&mut self, input: GameInput, advantage: Frame, radvantage: Frame)
        requires
            old(self).wf(),
            input.frame >= 0,
        ensures
            final(self).wf(),
            final(self).input_history() == old(self).input_history().update(
                input.frame as int % (MIN_UNIQUE_FRAMES as int),
                input,
            ),
            final(self).local_window() == old(self).local_window().update(
                input.frame as int % (FRAME_WINDOW_SIZE as int),
                advantage,
            ),
            final(self).remote_window() == old(self).remote_window().update(
                input.frame as int % (FRAME_WINDOW_SIZE as int),
                radvantage,
            ),
            final(self).iterations() == old(self).iterations(),
    {
        let frame = input.frame as usize;
        let hist_slot = frame % MIN_UNIQUE_FRAMES;
        let window_slot = frame % FRAME_WINDOW_SIZE;
        self.last_inputs[hist_slot] = input;
        self.local[window_slot] = advantage;
        self.remote[window_slot] = radvantage;
    }

    /// Averages both advantage windows and recommends how many frames this
    /// peer should sleep, per `spec_recommendation`. Only the iteration
    /// counter changes.
    pub fn recommend_frame_wait_duration(&mut self, require_idle_input: bool) -> (r: Frame)
        requires
            old(self).wf(),
            old(self).iterations() < u32::MAX,
        ensures
            final(self).wf(),
            r == old(self).spec_recommendation(require_idle_input),
            final(self).local_window() == old(self).local_window(),
            final(self).remote_window() == old(self).remote_window(),
            final(self).input_history() == old(self).input_history(),
            final(self).iterations() == old(self).iterations() + 1,
    {
        let local_sum: i64 = sum_window(&self.local);
        let remote_sum: i64 = sum_window(&self.remote);
        self.iteration = self.iteration + 1;

        // The peer that is behind (or level) never sleeps.
        if local_sum >= remote_sum {
            return 0;
        }
        let diff: i64 = remote_sum - local_sum;

        // Half the averaged difference, rounded to the nearest whole frame.
        let sleep: u64 = ((diff + 40) as u64) / 80;
        proof {
            assert((diff + 40) as u64 == diff + 40);
            assert(sleep == (diff + 40) / 80);
        }
        if sleep < 3 {
            return 0;
        }
        if require_idle_input {
            let mut idx: usize = 1;
            while idx < MIN_UNIQUE_FRAMES
                invariant
                    self.wf(),
                    1 <= idx <= MIN_UNIQUE_FRAMES,
                    require_idle_input,
                    self.local_window() == old(self).local_window(),
                    self.remote_window() == old(self).remote_window(),
                    self.input_history() == old(self).input_history(),
                    self.iterations() == old(self).iterations() + 1,
                    diff == sum_seq(self.remote_window()) - sum_seq(self.local_window()),
                    diff > 0,
                    sleep == (diff + 40) / 80,
                    sleep >= 3,
                    forall|k: int|
                        0 <= k < idx ==> game_input_eq(
                            #[trigger] self.input_history()[k],
                            self.input_history()[0],
                        ),
                decreases MIN_UNIQUE_FRAMES - idx,
            {
                if !(self.last_inputs[idx] == self.last_inputs[0]) {
                    return 0;
                }
                idx = idx + 1;
            }
            proof {
                assert(self.inputs_idle());
            }
        }
        if sleep < 9 {
            sleep as Frame
        } else {
            9
        }
    }
}

/// Sums a full advantage window into a 64-bit accumulator (40 samples of
/// 32-bit values cannot overflow it).
fn sum_window(window: &Vec<Frame>) -> (r: i64)
    requires
        window@.len() == FRAME_WINDOW_SIZE,
    ensures
        r == sum_seq(window@),
        -(FRAME_WINDOW_SIZE as int) * 0x8000_0000 <= r <= (FRAME_WINDOW_SIZE as int) * 0x7fff_ffff,
{
    let n = window.len();
    let mut acc: i64 = 0;
    let mut i: usize = 0;
    while i < n
        invariant
            n == window@.len() == FRAME_WINDOW_SIZE,
            0 <= i <= n,
            acc == sum_seq(window@.subrange(0, i as int)),
            -(i as int) * 0x8000_0000 <= acc <= (i as int) * 0x7fff_ffff,
        decreases n - i,
    {
        proof {
            assert(window@.subrange(0, i + 1).drop_last() == window@.subrange(0, i as int));
            assert(window@.subrange(0, i + 1).last() == window@[i as int]);
        }
        acc = acc + (window[i] as i64);
        i = i + 1;
    }
    proof {
        assert(window@.subrange(0, n as int) == window@);
    }
    acc
}


/// When both peers' averaged frame advantages agree, neither is told to
/// sleep, whatever the input history holds and whether or not idle input
/// is required.
pub proof fn lemma_recommendation_symmetry(t: TimeSync, require_idle_input: bool)
    requires
        sum_seq(t.local_window()) == sum_seq(t.remote_window()),
    ensures
        t.spec_recommendation(require_idle_input) == 0,
{
}

/// When the averaged advantage difference exceeds twice
/// `MAX_FRAME_ADVANTAGE`, the recommendation is clamped to exactly
/// `MAX_FRAME_ADVANTAGE`. Stated for the histories the idle heuristic
/// accepts: with `require_idle_input` set and a non-idle history the
/// heuristic forces the recommendation to zero instead.
pub proof fn lemma_recommendation_clamped(t: TimeSync, require_idle_input: bool)
    requires
        sum_seq(t.remote_window()) - sum_seq(t.local_window()) > 2 * MAX_FRAME_ADVANTAGE * (
        FRAME_WINDOW_SIZE as int),
        !require_idle_input || t.inputs_idle(),
    ensures
        t.spec_recommendation(require_idle_input) == MAX_FRAME_ADVANTAGE,
{
    let diff = sum_seq(t.remote_window()) - sum_seq(t.local_window());
    assert(diff + 40 >= 761);
    vstd::arithmetic::div_mod::lemma_div_is_ordered(761, diff + 40, 80);
    assert(761int / 80 == 9);
}

} // verus!
