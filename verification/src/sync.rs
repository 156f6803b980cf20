//! The per-match orchestrator: one local simulation, one input queue per
//! player, and a ring of saved snapshots. Drives save/load/resimulate
//! cycles and computes the authoritative combined input for each frame.

use vstd::prelude::*;

use crate::input::PlayerInputFrame;
use crate::input_queue::{GameInput, InputQueue};
use crate::ConnectionStatus;
use crate::Frame;
use crate::RollbackError;
use crate::SessionCallbacks;
use crate::MAX_PLAYERS_PER_MATCH;
use crate::NULL_FRAME;

verus! {

/// Largest supported prediction window; bounds the snapshot ring size.
pub const MAX_PREDICTION_WINDOW: Frame = 1024;

/// A bitmask of disconnected player slots, reported by the strict input
/// fetch when some player's input had to be synthesized.
#[derive(Clone, Copy, Debug, PartialEq, Eq, Structural)]
pub struct DisconnectedError(pub u64);

impl DisconnectedError {
    /// Whether the bit for `player` is set.
    pub fn is_disconnected(&self, player: u64) -> (r: bool)
        requires
            player < 64,
        ensures
            r == (self.0 & (1u64 << player) != 0),
    {
        self.0 & (1u64 << player) != 0
    }
}

/// One slot of the snapshot ring: the frame it captured, the host
/// snapshot, and the host's checksum of it.
pub struct SavedFrame<State> {
    pub frame: Frame,
    pub data: Option<State>,
    pub checksum: u32,
}

/// The snapshot ring: a fixed number of slots written cyclically through
/// a head pointer.
pub struct SavedState<State> {
    pub head: usize,
    pub frames: Vec<SavedFrame<State>>,
}

/// Replaying `inputs` one deterministic step at a time from `m`.
pub open spec fn replay<C: SessionCallbacks>(m: C::Model, inputs: Seq<GameInput>) -> C::Model
    decreases inputs.len(),
{
    if inputs.len() == 0 {
        m
    } else {
        replay::<C>(C::step(m, inputs[0]), inputs.drop_first())
    }
}

/// Whether a ring slot captures exactly frame `f` of model `m`.
pub open spec fn slot_captures<C: SessionCallbacks>(
    e: SavedFrame<<C as SessionCallbacks>::State>,
    f: Frame,
    m: C::Model,
) -> bool {
    &&& e.frame == f
    &&& match e.data {
        Some(ref s) => C::snapshot_model(s) == m,
        None => false,
    }
    &&& e.checksum == C::checksum_of(m)
}

/// Whether, under `statuses`, player `p`'s input for `f` must be
/// synthesized: the player is disconnected and its input is not known
/// good up to `f`.
pub open spec fn status_disconnected_at(statuses: Seq<ConnectionStatus>, p: int, f: int) -> bool {
    statuses[p].disconnected && statuses[p].last_frame < f
}

/// `g` is the combined input that `statuses` and `queues` answer for
/// `f`: each connected player's queue response, neutral for disconnected
/// players and unused slots.
pub open spec fn combined_matches(
    statuses: Seq<ConnectionStatus>,
    queues: Seq<InputQueue>,
    nplayers: int,
    f: int,
    g: GameInput,
) -> bool {
    &&& g.frame == f
    &&& g.inputs@.len() == 4
    &&& forall|p: int|
        0 <= p < nplayers ==> g.inputs@[p] == (if status_disconnected_at(statuses, p, f) {
            PlayerInputFrame::neutral()
        } else {
            (#[trigger] queues[p]).response_at(f)
        })
    &&& forall|p: int| nplayers <= p < 4 ==> g.inputs@[p] == PlayerInputFrame::neutral()
}

/// The combined input that `statuses` and `queues` answer for `f`.
pub open spec fn combined_of(
    statuses: Seq<ConnectionStatus>,
    queues: Seq<InputQueue>,
    nplayers: int,
    f: int,
) -> GameInput {
    choose|g: GameInput| combined_matches(statuses, queues, nplayers, f, g)
}

/// Under `statuses`, every connected player among `queues` has a
/// confirmed entry for `f`.
pub open spec fn all_confirmed(
    statuses: Seq<ConnectionStatus>,
    queues: Seq<InputQueue>,
    nplayers: int,
    f: int,
) -> bool {
    forall|p: int|
        0 <= p < nplayers ==> status_disconnected_at(statuses, p, f) || ((
        #[trigger] queues[p]).has_frame(f) && !queues[p].predicted_at(f))
}

/// Two combined inputs for the same frame are the same value.
pub proof fn lemma_combined_of_unique(
    statuses: Seq<ConnectionStatus>,
    queues: Seq<InputQueue>,
    nplayers: int,
    f: int,
    g: GameInput,
)
    requires
        combined_matches(statuses, queues, nplayers, f, g),
    ensures
        combined_of(statuses, queues, nplayers, f) == g,
{
    broadcast use vstd::array::axiom_array_ext_equal;

    let g2 = combined_of(statuses, queues, nplayers, f);
    assert(combined_matches(statuses, queues, nplayers, f, g2));
    assert forall|p: int| 0 <= p < 4 implies g.inputs@[p] == g2.inputs@[p] by {
        if p < nplayers {
            let qp = queues[p];
            assert(g.inputs@[p] == (if status_disconnected_at(statuses, p, f) {
                PlayerInputFrame::neutral()
            } else {
                qp.response_at(f)
            }));
            assert(g2.inputs@[p] == (if status_disconnected_at(statuses, p, f) {
                PlayerInputFrame::neutral()
            } else {
                qp.response_at(f)
            }));
        }
    };
    assert(g.inputs =~= g2.inputs);
}

/// Whether some slot of `saved` holds a snapshot of frame `f`.
pub open spec fn slot_present<State>(saved: Seq<SavedFrame<State>>, f: int) -> bool {
    exists|i: int|
        0 <= i < saved.len() && (#[trigger] saved[i]).frame == f && saved[i].data is Some
}

/// The index of the slot of `saved` holding a snapshot of frame `f`.
pub open spec fn slot_index<State>(saved: Seq<SavedFrame<State>>, f: int) -> int {
    choose|i: int|
        0 <= i < saved.len() && (#[trigger] saved[i]).frame == f && saved[i].data is Some
}

/// The orchestrator for one match.
pub struct RollbackSync<C: SessionCallbacks> {
    callbacks: C,
    saved_state: SavedState<<C as SessionCallbacks>::State>,
    local_connect_status: Vec<ConnectionStatus>,
    input_queues: Vec<InputQueue>,
    max_prediction_frames: Frame,
    num_players: usize,
    rolling_back: bool,
    last_confirmed_frame: Frame,
    frame_count: Frame,
}

impl<C: SessionCallbacks> RollbackSync<C> {
    /// The current simulation state, as a mathematical value.
    pub closed spec fn sim(self) -> C::Model {
        self.callbacks.sim()
    }

    /// The host driven by this orchestrator.
    pub closed spec fn host(self) -> C {
        self.callbacks
    }

    pub closed spec fn frame(self) -> Frame {
        self.frame_count
    }

    pub closed spec fn last_confirmed(self) -> Frame {
        self.last_confirmed_frame
    }

    pub closed spec fn max_prediction(self) -> Frame {
        self.max_prediction_frames
    }

    pub closed spec fn players(self) -> int {
        self.num_players as int
    }

    pub closed spec fn queues(self) -> Seq<InputQueue> {
        self.input_queues@
    }

    pub closed spec fn statuses(self) -> Seq<ConnectionStatus> {
        self.local_connect_status@
    }

    pub closed spec fn is_rolling_back(self) -> bool {
        self.rolling_back
    }

    pub closed spec fn saved(self) -> Seq<SavedFrame<<C as SessionCallbacks>::State>> {
        self.saved_state.frames@
    }

    pub closed spec fn head(self) -> int {
        self.saved_state.head as int
    }

    /// Structural well-formedness: one queue and one connection status per
    /// player, well-formed queues, a ring sized to the prediction window
    /// plus two, and frame counters in range.
    pub open spec fn wf(self) -> bool {
        &&& 1 <= self.players() <= MAX_PLAYERS_PER_MATCH
        &&& self.queues().len() == self.players()
        &&& self.statuses().len() == self.players()
        &&& forall|i: int| 0 <= i < self.players() ==> (#[trigger] self.queues()[i]).wf()
        &&& 1 <= self.max_prediction() <= MAX_PREDICTION_WINDOW
        &&& self.saved().len() == self.max_prediction() + 2
        &&& 0 <= self.head() < self.saved().len()
        &&& self.frame() >= 0
        &&& self.last_confirmed() >= NULL_FRAME
    }

    /// No ring slot is ahead of the current frame, and no two slots hold
    /// the same frame. Holds whenever the host is between ticks; a load
    /// into the past suspends it until resimulation has caught back up.
    pub open spec fn ring_aligned(self) -> bool {
        &&& forall|i: int| 0 <= i < self.saved().len() ==> (#[trigger] self.saved()[i]).frame <= self.frame()
        &&& forall|i: int, j: int|
            0 <= i < j < self.saved().len() && (#[trigger] self.saved()[i]).frame >= 0 && (
            #[trigger] self.saved()[j]).frame >= 0 ==> self.saved()[i].frame != self.saved()[j].frame
    }

    /// Whether `player`'s input for `f` must be synthesized: the player is
    /// disconnected and its input is not known good up to `f`.
    pub open spec fn is_disconnected_at(self, player: int, f: int) -> bool {
        status_disconnected_at(self.statuses(), player, f)
    }

    /// Whether some ring slot holds a snapshot of frame `f`.
    pub open spec fn has_slot_for(self, f: int) -> bool {
        slot_present(self.saved(), f)
    }

    pub open spec fn slot_of(self, f: int) -> int {
        slot_index(self.saved(), f)
    }

    pub fn new(callbacks: C, num_players: usize, max_prediction_frames: Frame) -> (s: RollbackSync<
        C,
    >)
        requires
            1 <= num_players <= MAX_PLAYERS_PER_MATCH,
            1 <= max_prediction_frames <= MAX_PREDICTION_WINDOW,
        ensures
            s.wf(),
            s.sim() == callbacks.sim(),
            s.frame() == 0,
            s.last_confirmed() == NULL_FRAME,
            !s.is_rolling_back(),
            s.players() == num_players,
            s.max_prediction() == max_prediction_frames,
            forall|i: int|
                0 <= i < s.players() ==> (#[trigger] s.queues()[i])@.len() == 0 && s.queues()[i].delay()
                    == 0 && s.queues()[i].first_incorrect() == NULL_FRAME && s.queues()[i].last_added()
                    == NULL_FRAME,
            forall|i: int|
                0 <= i < s.players() ==> (#[trigger] s.statuses()[i]).disconnected == false && s.statuses()[i].last_frame
                    == NULL_FRAME,
            s.ring_aligned(),
            s.slots_distinct(),
            s.head() == 0,
            forall|i: int|
                0 <= i < s.saved().len() ==> (#[trigger] s.saved()[i]).frame == NULL_FRAME && s.saved()[i].data
                    is None,
            s.host() == callbacks,
    {
        let mut input_queues: Vec<InputQueue> = Vec::new();
        let mut local_connect_status: Vec<ConnectionStatus> = Vec::new();
        let mut i: usize = 0;
        while i < num_players
            invariant
                0 <= i <= num_players,
                input_queues@.len() == i,
                local_connect_status@.len() == i,
                forall|k: int|
                    0 <= k < i ==> (#[trigger] input_queues@[k]).wf() && input_queues@[k]@.len()
                        == 0 && input_queues@[k].delay() == 0 && input_queues@[k].first_incorrect()
                        == NULL_FRAME && input_queues@[k].last_added() == NULL_FRAME,
                forall|k: int|
                    0 <= k < i ==> (#[trigger] local_connect_status@[k]).disconnected == false
                        && local_connect_status@[k].last_frame == NULL_FRAME,
            decreases num_players - i,
        {
            input_queues.push(InputQueue::new());
            local_connect_status.push(ConnectionStatus::default());
            i = i + 1;
        }
        let ring_len: usize = (max_prediction_frames + 2) as usize;
        let mut frames: Vec<SavedFrame<<C as SessionCallbacks>::State>> = Vec::new();
        let mut j: usize = 0;
        while j < ring_len
            invariant
                0 <= j <= ring_len,
                frames@.len() == j,
                forall|k: int|
                    0 <= k < j ==> (#[trigger] frames@[k]).frame == NULL_FRAME && frames@[k].data
                        is None,
            decreases ring_len - j,
        {
            frames.push(SavedFrame { frame: NULL_FRAME, data: None, checksum: 0 });
            j = j + 1;
        }
        RollbackSync {
            callbacks,
            saved_state: SavedState { head: 0, frames },
            local_connect_status,
            input_queues,
            max_prediction_frames,
            num_players,
            rolling_back: false,
            last_confirmed_frame: NULL_FRAME,
            frame_count: 0,
        }
    }

    pub fn frame_count(&self) -> (r: Frame)
        ensures
            r == self.frame(),
    {
        self.frame_count
    }

    pub fn in_rollback(&self) -> (r: bool)
        ensures
            r == self.is_rolling_back(),
    {
        self.rolling_back
    }

    pub fn player_count(&self) -> (r: usize)
        ensures
            r == self.players(),
    {
        self.num_players
    }

    /// Configures the input delay of one player's queue.
    pub fn set_frame_delay(&mut self, queue: usize, delay: Frame)
        requires
            old(self).wf(),
            queue < old(self).players(),
            delay >= 0,
        ensures
            final(self).wf(),
            final(self).queues()[queue as int].delay() == delay,
            final(self).queues()[queue as int]@ == old(self).queues()[queue as int]@,
            final(self).queues()[queue as int].last_added() == old(self).queues()[
                queue as int
            ].last_added(),
            final(self).queues()[queue as int].first_incorrect() == old(self).queues()[
                queue as int
            ].first_incorrect(),
            forall|i: int|
                0 <= i < old(self).players() && i != queue ==> final(self).queues()[i] == old(self).queues()[i],
            final(self).statuses() == old(self).statuses(),
            final(self).sim() == old(self).sim(),
            final(self).host() == old(self).host(),
            final(self).frame() == old(self).frame(),
            final(self).last_confirmed() == old(self).last_confirmed(),
            final(self).max_prediction() == old(self).max_prediction(),
            final(self).players() == old(self).players(),
            final(self).is_rolling_back() == old(self).is_rolling_back(),
            final(self).saved() == old(self).saved(),
            final(self).head() == old(self).head(),
    {
        self.input_queues[queue].set_frame_delay(delay);
    }

    /// Records that every peer has confirmed `frame`, and drops queue
    /// entries that can never be replayed again (everything strictly
    /// before `frame - 1`).
    pub fn set_last_confirmed_frame(&mut self, frame: Frame)
        requires
            old(self).wf(),
            frame >= NULL_FRAME,
        ensures
            final(self).wf(),
            final(self).last_confirmed() == frame,
            final(self).frame() == old(self).frame(),
            final(self).sim() == old(self).sim(),
            final(self).host() == old(self).host(),
            final(self).statuses() == old(self).statuses(),
            final(self).max_prediction() == old(self).max_prediction(),
            final(self).players() == old(self).players(),
            final(self).is_rolling_back() == old(self).is_rolling_back(),
            final(self).saved() == old(self).saved(),
            final(self).head() == old(self).head(),
            frame <= 0 ==> final(self).queues() == old(self).queues(),
            frame > 0 ==> forall|q: int|
                0 <= q < old(self).players() ==> {
                    let pre = old(self).queues()[q];
                    let post = #[trigger] final(self).queues()[q];
                    &&& post.delay() == pre.delay()
                    &&& post.last_added() == pre.last_added()
                    &&& post.first_incorrect() == pre.first_incorrect()
                    &&& forall|g: int| post.has_frame(g) == (pre.has_frame(g) && g >= frame - 1)
                    &&& forall|g: int|
                        g >= frame - 1 && pre.has_frame(g) ==> post.input_at(g) == pre.input_at(g)
                            && post.predicted_at(g) == pre.predicted_at(g)
                },
    {
        self.last_confirmed_frame = frame;
        if frame > 0 {
            let n = self.num_players;
            let mut q: usize = 0;
            while q < n
                invariant
                    old(self).wf(),
                    n == self.players(),
                    0 <= q <= n,
                    self.wf(),
                    self.last_confirmed() == frame,
                    self.frame() == old(self).frame(),
                    self.sim() == old(self).sim(),
                    self.host() == old(self).host(),
                    self.statuses() == old(self).statuses(),
                    self.max_prediction() == old(self).max_prediction(),
                    self.players() == old(self).players(),
                    self.is_rolling_back() == old(self).is_rolling_back(),
                    self.saved() == old(self).saved(),
                    self.head() == old(self).head(),
                    forall|i: int| q <= i < n ==> self.queues()[i] == old(self).queues()[i],
                    forall|i: int|
                        0 <= i < q ==> {
                            let pre = old(self).queues()[i];
                            let post = #[trigger] self.queues()[i];
                            &&& post.delay() == pre.delay()
                            &&& post.last_added() == pre.last_added()
                            &&& post.first_incorrect() == pre.first_incorrect()
                            &&& forall|g: int|
                                post.has_frame(g) == (pre.has_frame(g) && g >= frame - 1)
                            &&& forall|g: int|
                                g >= frame - 1 && pre.has_frame(g) ==> post.input_at(g)
                                    == pre.input_at(g) && post.predicted_at(g) == pre.predicted_at(
                                    g,
                                )
                        },
                decreases n - q,
            {
                self.input_queues[q].discard_confirmed_frames(frame - 1);
                q = q + 1;
            }
        }
    }

    /// No two ring slots claim the same frame.
    pub open spec fn slots_distinct(self) -> bool {
        forall|i: int, j: int|
            0 <= i < j < self.saved().len() && (#[trigger] self.saved()[i]).frame >= 0 && (
            #[trigger] self.saved()[j]).frame >= 0 ==> self.saved()[i].frame != self.saved()[j].frame
    }

    /// Snapshots the live state into the ring slot under the head pointer
    /// and advances the head cyclically. Any other slot that still holds a
    /// snapshot of the same frame is invalidated, so the ring keeps at
    /// most one snapshot per frame.
    pub fn save_current_frame(&mut self)
        requires
            old(self).wf(),
        ensures
            final(self).wf(),
            old(self).slots_distinct() ==> final(self).slots_distinct(),
            final(self).sim() == old(self).sim(),
            final(self).frame() == old(self).frame(),
            final(self).last_confirmed() == old(self).last_confirmed(),
            final(self).max_prediction() == old(self).max_prediction(),
            final(self).players() == old(self).players(),
            final(self).is_rolling_back() == old(self).is_rolling_back(),
            final(self).queues() == old(self).queues(),
            final(self).statuses() == old(self).statuses(),
            slot_captures::<C>(
                final(self).saved()[old(self).head()],
                old(self).frame(),
                old(self).sim(),
            ),
            forall|i: int|
                0 <= i < old(self).saved().len() && i != old(self).head() ==> (if (#[trigger] old(self).saved()[i]).frame == old(self).frame() {
                    final(self).saved()[i].frame == NULL_FRAME && final(self).saved()[i].data
                        is None
                } else {
                    final(self).saved()[i] == old(self).saved()[i]
                }),
            final(self).saved().len() == old(self).saved().len(),
            final(self).head() == (old(self).head() + 1) % (old(self).saved().len() as int),
    {
        let (data, checksum) = self.callbacks.save_state();
        let head = self.saved_state.head;
        let entry = SavedFrame { frame: self.frame_count, data: Some(data), checksum };
        self.saved_state.frames[head] = entry;
        self.saved_state.head = (head + 1) % self.saved_state.frames.len();
        let ghost mid = *self;
        let n = self.saved_state.frames.len();
        let mut i: usize = 0;
        while i < n
            invariant
                old(self).wf(),
                n == self.saved().len(),
                n == old(self).saved().len(),
                0 <= i <= n,
                head == old(self).head(),
                0 <= head < n,
                self.sim() == old(self).sim(),
                self.host() == mid.host(),
                self.frame() == old(self).frame(),
                self.last_confirmed() == old(self).last_confirmed(),
                self.max_prediction() == old(self).max_prediction(),
                self.players() == old(self).players(),
                self.is_rolling_back() == old(self).is_rolling_back(),
                self.queues() == old(self).queues(),
                self.statuses() == old(self).statuses(),
                self.head() == (old(self).head() + 1) % (old(self).saved().len() as int),
                slot_captures::<C>(self.saved()[head as int], old(self).frame(), old(self).sim()),
                forall|k: int|
                    0 <= k < n && k != head ==> (if k < i && (#[trigger] old(self).saved()[
                        k
                    ]).frame == old(self).frame() {
                        self.saved()[k].frame == NULL_FRAME && self.saved()[k].data is None
                    } else {
                        self.saved()[k] == old(self).saved()[k]
                    }),
            decreases n - i,
        {
            if i != head && self.saved_state.frames[i].frame == self.frame_count {
                self.saved_state.frames[i] = SavedFrame { frame: NULL_FRAME, data: None, checksum: 0 };
            }
            i = i + 1;
        }
        proof {
            if old(self).slots_distinct() {
                assert forall|a: int, b: int|
                    0 <= a < b < self.saved().len() && (#[trigger] self.saved()[a]).frame >= 0 && (
                    #[trigger] self.saved()[b]).frame >= 0 implies self.saved()[a].frame
                    != self.saved()[b].frame by {
                    if a == head {
                        assert(self.saved()[a].frame == old(self).frame());
                        assert(self.saved()[b] == old(self).saved()[b]);
                        assert(old(self).saved()[b].frame != old(self).frame());
                    } else if b == head {
                        assert(self.saved()[b].frame == old(self).frame());
                        assert(self.saved()[a] == old(self).saved()[a]);
                        assert(old(self).saved()[a].frame != old(self).frame());
                    } else {
                        assert(self.saved()[a] == old(self).saved()[a]);
                        assert(self.saved()[b] == old(self).saved()[b]);
                    }
                };
            }
        }
    }

    /// Rewinds the ring head to the slot holding `frame`, restores that
    /// snapshot into the host, and resets the frame counter to it. Loading
    /// the current frame is a no-op.
    pub fn load_frame(&mut self, frame: Frame)
        requires
            old(self).wf(),
            old(self).slots_distinct(),
            frame >= 0,
            frame == old(self).frame() || old(self).has_slot_for(frame as int),
        ensures
            final(self).wf(),
            final(self).slots_distinct(),
            final(self).frame() == frame,
            final(self).last_confirmed() == old(self).last_confirmed(),
            final(self).max_prediction() == old(self).max_prediction(),
            final(self).players() == old(self).players(),
            final(self).is_rolling_back() == old(self).is_rolling_back(),
            final(self).queues() == old(self).queues(),
            final(self).statuses() == old(self).statuses(),
            final(self).saved() == old(self).saved(),
            frame == old(self).frame() ==> final(self).sim() == old(self).sim() && final(self).head() == old(self).head(),
            frame != old(self).frame() ==> {
                let slot = old(self).slot_of(frame as int);
                &&& final(self).sim() == C::snapshot_model(&old(self).saved()[slot].data.unwrap())
                &&& final(self).head() == (slot + 1) % (old(self).saved().len() as int)
            },
    {
        if frame == self.frame_count {
            return ;
        }
        let n = self.saved_state.frames.len();
        let mut i: usize = 0;
        while i < n && !(self.saved_state.frames[i].frame == frame
            && self.saved_state.frames[i].data.is_some())
            invariant
                self == old(self),
                n == self.saved().len(),
                0 <= i <= n,
                forall|k: int|
                    0 <= k < i ==> !((#[trigger] self.saved()[k]).frame == frame && self.saved()[k].data
                        is Some),
            decreases n - i,
        {
            i = i + 1;
        }
        proof {
            assert(old(self).has_slot_for(frame as int));
            let w = old(self).slot_of(frame as int);
            assert(0 <= w < n && old(self).saved()[w].frame == frame && old(self).saved()[w].data
                is Some);
            assert(i < n);
            assert(old(self).slot_of(frame as int) == i as int);
        }
        match &self.saved_state.frames[i].data {
            Some(state) => {
                self.callbacks.load_state(state);
            },
            None => {
            },
        }
        self.frame_count = frame;
        self.saved_state.head = (i + 1) % n;
    }

    /// The ring index of the slot holding a snapshot of `frame`, if any.
    fn find_saved_frame_index(&self, frame: Frame) -> (r: Option<usize>)
        requires
            self.wf(),
        ensures
            r is Some <==> self.has_slot_for(frame as int),
            r is Some ==> r.unwrap() < self.saved().len() && self.saved()[
                r.unwrap() as int
            ].frame == frame && self.saved()[r.unwrap() as int].data is Some,
            frame >= 0 && self.slots_distinct() && r is Some ==> r.unwrap() == self.slot_of(
                frame as int,
            ),
    {
        let n = self.saved_state.frames.len();
        let mut i: usize = 0;
        while i < n && !(self.saved_state.frames[i].frame == frame
            && self.saved_state.frames[i].data.is_some())
            invariant
                self.wf(),
                n == self.saved().len(),
                0 <= i <= n,
                forall|k: int|
                    0 <= k < i ==> !((#[trigger] self.saved()[k]).frame == frame && self.saved()[k].data
                        is Some),
            decreases n - i,
        {
            i = i + 1;
        }
        if i < n {
            proof {
                assert(self.saved()[i as int].frame == frame && self.saved()[i as int].data
                    is Some);
                assert(self.has_slot_for(frame as int));
                if frame >= 0 && self.slots_distinct() {
                    let w = self.slot_of(frame as int);
                    assert(self.saved()[w].frame == frame);
                    assert(w == i as int);
                }
            }
            Some(i)
        } else {
            proof {
                assert(!self.has_slot_for(frame as int));
            }
            None
        }
    }

    /// The checksum stored in ring slot `index`.
    fn get_last_saved_frame_checksum_at(&self, index: usize) -> (r: u32)
        requires
            index < self.saved().len(),
        ensures
            r == self.saved()[index as int].checksum,
    {
        self.saved_state.frames[index].checksum
    }

    /// The slot most recently written: the one just behind the head.
    pub fn get_last_saved_frame(&self) -> (r: &SavedFrame<<C as SessionCallbacks>::State>)
        requires
            self.wf(),
        ensures
            *r == self.saved()[if self.head() == 0 {
                self.saved().len() - 1
            } else {
                self.head() - 1
            }],
    {
        let idx: usize = if self.saved_state.head == 0 {
            self.saved_state.frames.len() - 1
        } else {
            self.saved_state.head - 1
        };
        &self.saved_state.frames[idx]
    }

    /// Ends the current tick: advances the frame counter and snapshots the
    /// new frame into the ring.
    pub fn increment_frame(&mut self)
        requires
            old(self).wf(),
            old(self).slots_distinct(),
            old(self).ring_aligned(),
            old(self).frame() < i32::MAX,
        ensures
            final(self).wf(),
            final(self).slots_distinct(),
            final(self).ring_aligned(),
            final(self).sim() == old(self).sim(),
            final(self).frame() == old(self).frame() + 1,
            final(self).last_confirmed() == old(self).last_confirmed(),
            final(self).max_prediction() == old(self).max_prediction(),
            final(self).players() == old(self).players(),
            final(self).is_rolling_back() == old(self).is_rolling_back(),
            final(self).queues() == old(self).queues(),
            final(self).statuses() == old(self).statuses(),
            slot_captures::<C>(
                final(self).saved()[old(self).head()],
                (old(self).frame() + 1) as i32,
                old(self).sim(),
            ),
            forall|i: int|
                0 <= i < old(self).saved().len() && i != old(self).head() ==> final(self).saved()[i]
                    == (#[trigger] old(self).saved()[i]),
            final(self).head() == (old(self).head() + 1) % (old(self).saved().len() as int),
    {
        self.frame_count = self.frame_count + 1;
        let ghost mid = *self;
        self.save_current_frame();
        proof {
            assert forall|i: int|
                0 <= i < self.saved().len() implies (#[trigger] self.saved()[i]).frame
                <= self.frame() by {
                if i == old(self).head() {
                    assert(slot_captures::<C>(
                        self.saved()[i],
                        (old(self).frame() + 1) as i32,
                        old(self).sim(),
                    ));
                } else {
                    assert(self.saved()[i] == old(self).saved()[i]);
                }
            };
        }
    }

    /// Everything but the input queues is unchanged between `pre` and
    /// `post`.
    pub open spec fn same_except_queues(pre: RollbackSync<C>, post: RollbackSync<C>) -> bool {
        &&& post.sim() == pre.sim()
        &&& post.host() == pre.host()
        &&& post.frame() == pre.frame()
        &&& post.last_confirmed() == pre.last_confirmed()
        &&& post.max_prediction() == pre.max_prediction()
        &&& post.players() == pre.players()
        &&& post.is_rolling_back() == pre.is_rolling_back()
        &&& post.saved() == pre.saved()
        &&& post.head() == pre.head()
        &&& post.statuses() == pre.statuses()
    }

    /// The disconnect bitmask for `frame`: bit `p` set exactly when player
    /// `p`'s input had to be synthesized.
    pub open spec fn disconnect_mask(self, f: int) -> int {
        (if 0 < self.players() && self.is_disconnected_at(0, f) {
            1int
        } else {
            0int
        }) + (if 1 < self.players() && self.is_disconnected_at(1, f) {
            2int
        } else {
            0int
        }) + (if 2 < self.players() && self.is_disconnected_at(2, f) {
            4int
        } else {
            0int
        }) + (if 3 < self.players() && self.is_disconnected_at(3, f) {
            8int
        } else {
            0int
        })
    }

    /// One player's contribution to the combined input for `frame`:
    /// neutral for a synthesized (disconnected) player, else that queue's
    /// answer, recording a prediction when one is made.
    fn fetch_input_for(&mut self, p: usize, frame: Frame) -> (r: (PlayerInputFrame, bool))
        requires
            old(self).wf(),
            p < old(self).players(),
            frame >= 0,
        ensures
            final(self).wf(),
            Self::same_except_queues(*old(self), *final(self)),
            final(self).queues().len() == old(self).queues().len(),
            forall|i: int|
                0 <= i < old(self).players() && i != p ==> final(self).queues()[i] == old(self).queues()[i],
            r.1 == old(self).is_disconnected_at(p as int, frame as int),
            r.1 ==> final(self).queues() == old(self).queues() && r.0
                == PlayerInputFrame::neutral(),
            !r.1 ==> InputQueue::after_get(
                old(self).queues()[p as int],
                frame as int,
                final(self).queues()[p as int],
            ) && r.0 == old(self).queues()[p as int].response_at(frame as int),
    {
        let st = self.local_connect_status[p];
        if st.disconnected && st.last_frame < frame {
            (PlayerInputFrame::default(), true)
        } else {
            let v = self.input_queues[p].get_input(frame);
            (v, false)
        }
    }

    /// Builds the authoritative combined input for `frame`: every
    /// connected player's stored or predicted input, the neutral input for
    /// every disconnected player, plus the disconnect bitmask. A non-zero
    /// mask is informational, not fatal.
    pub fn synchronize_inputs(&mut self, frame: Frame) -> (r: (GameInput, u32))
        requires
            old(self).wf(),
            frame >= 0,
        ensures
            final(self).wf(),
            Self::same_except_queues(*old(self), *final(self)),
            r.0.frame == frame,
            forall|p: int|
                0 <= p < old(self).players() ==> r.0.inputs@[p] == (if old(self).is_disconnected_at(
                    p,
                    frame as int,
                ) {
                    PlayerInputFrame::neutral()
                } else {
                    (#[trigger] old(self).queues()[p]).response_at(frame as int)
                }),
            r.0.inputs@.len() == 4,
            forall|p: int|
                old(self).players() <= p < 4 ==> r.0.inputs@[p] == PlayerInputFrame::neutral(),
            r.1 == old(self).disconnect_mask(frame as int),
            forall|p: int|
                0 <= p < old(self).players() ==> (if old(self).is_disconnected_at(
                    p,
                    frame as int,
                ) {
                    final(self).queues()[p] == old(self).queues()[p]
                } else {
                    InputQueue::after_get(
                        (#[trigger] old(self).queues()[p]),
                        frame as int,
                        final(self).queues()[p],
                    )
                }),
            old(self).is_combined_input(frame as int, r.0),
    {
        let n = self.num_players;
        let (v0, d0) = self.fetch_input_for(0, frame);
        let (v1, d1) = if n > 1 {
            self.fetch_input_for(1, frame)
        } else {
            (PlayerInputFrame::default(), false)
        };
        let (v2, d2) = if n > 2 {
            self.fetch_input_for(2, frame)
        } else {
            (PlayerInputFrame::default(), false)
        };
        let (v3, d3) = if n > 3 {
            self.fetch_input_for(3, frame)
        } else {
            (PlayerInputFrame::default(), false)
        };
        let output = GameInput { frame, inputs: [v0, v1, v2, v3] };
        let mut mask: u32 = 0;
        if d0 {
            mask = mask + 1;
        }
        if d1 {
            mask = mask + 2;
        }
        if d2 {
            mask = mask + 4;
        }
        if d3 {
            mask = mask + 8;
        }
        proof {
            assert(output.inputs@[0] == v0 && output.inputs@[1] == v1 && output.inputs@[2] == v2
                && output.inputs@[3] == v3);
            assert forall|p: int|
                0 <= p < old(self).players() implies output.inputs@[p] == (if old(self).is_disconnected_at(p, frame as int) {
                PlayerInputFrame::neutral()
            } else {
                (#[trigger] old(self).queues()[p]).response_at(frame as int)
            }) by {
                let qp = old(self).queues()[p];
                if p == 0 {
                    assert(output.inputs@[0] == v0);
                } else if p == 1 {
                    assert(output.inputs@[1] == v1);
                } else if p == 2 {
                    assert(output.inputs@[2] == v2);
                } else {
                    assert(output.inputs@[3] == v3);
                }
            };
            assert forall|p: int|
                old(self).players() <= p < 4 implies output.inputs@[p]
                    == PlayerInputFrame::neutral() by {
                if p == 1 {
                    assert(output.inputs@[1] == v1);
                } else if p == 2 {
                    assert(output.inputs@[2] == v2);
                } else if p == 3 {
                    assert(output.inputs@[3] == v3);
                }
            };
            assert(old(self).is_combined_input(frame as int, output));
        }
        (output, mask)
    }

    /// One player's confirmed input for `frame`; requires the caller to
    /// have established that the player is either synthesized or has a
    /// confirmed entry.
    fn confirmed_input_for(&self, p: usize, frame: Frame) -> (r: (PlayerInputFrame, bool))
        requires
            self.wf(),
            p < self.players(),
            frame >= 0,
            self.is_disconnected_at(p as int, frame as int) || (self.queues()[p as int].has_frame(
                frame as int,
            ) && !self.queues()[p as int].predicted_at(frame as int)),
        ensures
            r.1 == self.is_disconnected_at(p as int, frame as int),
            r.1 ==> r.0 == PlayerInputFrame::neutral(),
            !r.1 ==> r.0 == self.queues()[p as int].input_at(frame as int),
    {
        let st = self.local_connect_status[p];
        if st.disconnected && st.last_frame < frame {
            (PlayerInputFrame::default(), true)
        } else {
            match self.input_queues[p].get_confirmed_input(frame) {
                Some(v) => (v, false),
                None => {
                    proof {
                        assert(false);
                    }
                    (PlayerInputFrame::default(), false)
                },
            }
        }
    }

    /// The strict variant of input synchronization: every connected player
    /// must already have a confirmed entry for `frame`. Fails with the
    /// disconnect bitmask when any player's input had to be synthesized.
    pub fn get_confirmed_inputs(&self, frame: Frame) -> (r: Result<GameInput, DisconnectedError>)
        requires
            self.wf(),
            frame >= 0,
            forall|p: int|
                0 <= p < self.players() ==> self.is_disconnected_at(p, frame as int) || ((
                #[trigger] self.queues()[p]).has_frame(frame as int) && !self.queues()[p].predicted_at(
                    frame as int,
                )),
        ensures
            r is Err <==> exists|p: int|
                0 <= p < self.players() && self.is_disconnected_at(p, frame as int),
            r is Err ==> r.unwrap_err().0 == self.disconnect_mask(frame as int),
            r is Ok ==> r.unwrap().frame == frame && forall|p: int|
                0 <= p < self.players() ==> r.unwrap().inputs@[p] == (if self.is_disconnected_at(
                    p,
                    frame as int,
                ) {
                    PlayerInputFrame::neutral()
                } else {
                    (#[trigger] self.queues()[p]).input_at(frame as int)
                }),
    {
        let n = self.num_players;
        let (v0, d0) = self.confirmed_input_for(0, frame);
        let (v1, d1) = if n > 1 {
            self.confirmed_input_for(1, frame)
        } else {
            (PlayerInputFrame::default(), false)
        };
        let (v2, d2) = if n > 2 {
            self.confirmed_input_for(2, frame)
        } else {
            (PlayerInputFrame::default(), false)
        };
        let (v3, d3) = if n > 3 {
            self.confirmed_input_for(3, frame)
        } else {
            (PlayerInputFrame::default(), false)
        };
        let output = GameInput { frame, inputs: [v0, v1, v2, v3] };
        proof {
            assert(output.inputs@[0] == v0 && output.inputs@[1] == v1 && output.inputs@[2] == v2
                && output.inputs@[3] == v3);
        }
        let mut flags: u64 = 0;
        if d0 {
            flags = flags + 1;
        }
        if d1 {
            flags = flags + 2;
        }
        if d2 {
            flags = flags + 4;
        }
        if d3 {
            flags = flags + 8;
        }
        if flags != 0 {
            Err(DisconnectedError(flags))
        } else {
            Ok(output)
        }
    }

    /// Whether the prediction barrier refuses new local input: the match
    /// has outrun the last frame every peer confirmed by the whole
    /// prediction window.
    pub open spec fn at_prediction_barrier(self) -> bool {
        self.frame() >= self.max_prediction() && self.frame() - self.last_confirmed()
            >= self.max_prediction()
    }

    /// Accepts locally generated input for the current frame, stores it in
    /// `queue` (shifted by that queue's frame delay) and returns the
    /// effective frame to transmit. Refused at the prediction barrier, so
    /// speculative execution can never outrun the snapshot ring. On the
    /// very first frame the current state is snapshotted first, so the
    /// ring always holds the state the earliest resimulation would need.
    pub fn add_local_input(&mut self, queue: usize, input: PlayerInputFrame) -> (r: Result<
        Frame,
        RollbackError,
    >)
        requires
            old(self).wf(),
            queue < old(self).players(),
            old(self).frame() + old(self).queues()[queue as int].delay() <= i32::MAX,
        ensures
            final(self).wf(),
            final(self).sim() == old(self).sim(),
            final(self).frame() == old(self).frame(),
            final(self).last_confirmed() == old(self).last_confirmed(),
            final(self).max_prediction() == old(self).max_prediction(),
            final(self).players() == old(self).players(),
            final(self).is_rolling_back() == old(self).is_rolling_back(),
            final(self).statuses() == old(self).statuses(),
            old(self).slots_distinct() ==> final(self).slots_distinct(),
            old(self).ring_aligned() ==> final(self).ring_aligned(),
            old(self).at_prediction_barrier() || old(self).frame() != 0 ==> final(self).saved()
                == old(self).saved() && final(self).head() == old(self).head() && final(self).host()
                == old(self).host(),
            !old(self).at_prediction_barrier() && old(self).frame() == 0 ==> slot_captures::<C>(
                final(self).saved()[old(self).head()],
                0,
                old(self).sim(),
            ) && final(self).head() == (old(self).head() + 1) % (old(self).saved().len() as int)
                && final(self).saved().len() == old(self).saved().len() && (forall|i: int|
                0 <= i < old(self).saved().len() && i != old(self).head() ==> (if (#[trigger] old(self).saved()[i]).frame == 0 {
                    final(self).saved()[i].frame == NULL_FRAME && final(self).saved()[i].data
                        is None
                } else {
                    final(self).saved()[i] == old(self).saved()[i]
                })),
            forall|i: int|
                0 <= i < old(self).players() && i != queue ==> final(self).queues()[i] == old(self).queues()[i],
            old(self).at_prediction_barrier() ==> r == Result::<Frame, RollbackError>::Err(
                RollbackError::ReachedPredictionBarrier,
            ) && final(self).queues() == old(self).queues(),
            !old(self).at_prediction_barrier() ==> {
                let q = old(self).queues()[queue as int];
                let eff = old(self).frame() + q.delay();
                if old(self).frame() <= q.last_added() || (q@.len() > 0 && eff <= q@.last().frame) {
                    &&& r == Result::<Frame, RollbackError>::Err(RollbackError::OutOfOrder)
                    &&& final(self).queues()[queue as int]@ == q@
                    &&& final(self).queues()[queue as int].delay() == q.delay()
                    &&& final(self).queues()[queue as int].last_added() == q.last_added()
                    &&& final(self).queues()[queue as int].first_incorrect() == q.first_incorrect()
                } else {
                    &&& r == Result::<Frame, RollbackError>::Ok(eff as i32)
                    &&& final(self).queues()[queue as int]@ == q@.push(
                        crate::input_queue::QueueEntry {
                            frame: eff as i32,
                            input,
                            predicted: false,
                        },
                    )
                    &&& final(self).queues()[queue as int].last_added() == old(self).frame()
                    &&& final(self).queues()[queue as int].delay() == q.delay()
                    &&& final(self).queues()[queue as int].first_incorrect() == q.first_incorrect()
                }
            },
    {
        let frames_behind: i64 = (self.frame_count as i64) - (self.last_confirmed_frame as i64);
        if self.frame_count >= self.max_prediction_frames && frames_behind
            >= self.max_prediction_frames as i64 {
            return Err(RollbackError::ReachedPredictionBarrier);
        }
        if self.frame_count == 0 {
            self.save_current_frame();
            proof {
                if old(self).ring_aligned() {
                    assert forall|i: int|
                        0 <= i < self.saved().len() implies (#[trigger] self.saved()[i]).frame
                        <= self.frame() by {
                        if i == old(self).head() {
                            assert(slot_captures::<C>(self.saved()[i], 0, old(self).sim()));
                        } else if old(self).saved()[i].frame == 0 {
                            assert(self.saved()[i].frame == NULL_FRAME);
                        } else {
                            assert(self.saved()[i] == old(self).saved()[i]);
                        }
                    };
                }
            }
        }
        match self.input_queues[queue].add_input(self.frame_count, input) {
            Ok(effective) => Ok(effective),
            Err(_) => Err(RollbackError::OutOfOrder),
        }
    }

    /// Records input reported by a remote player; never rejects, so
    /// out-of-order network arrival is buffered rather than dropped.
    pub fn add_remote_input(&mut self, queue: usize, frame: Frame, input: PlayerInputFrame)
        requires
            old(self).wf(),
            queue < old(self).players(),
        ensures
            final(self).wf(),
            Self::same_except_queues(*old(self), *final(self)),
            forall|i: int|
                0 <= i < old(self).players() && i != queue ==> final(self).queues()[i] == old(self).queues()[i],
            InputQueue::after_remote_add(
                old(self).queues()[queue as int],
                frame,
                input,
                final(self).queues()[queue as int],
            ),
    {
        self.input_queues[queue].add_remote_input(frame, input);
    }

    /// The connection status of one player slot.
    pub fn connection_status(&self, queue: usize) -> (r: ConnectionStatus)
        requires
            self.wf(),
            queue < self.players(),
        ensures
            r == self.statuses()[queue as int],
    {
        self.local_connect_status[queue]
    }

    /// Overwrites the connection status of one player slot; the protocol
    /// layer calls this when it detects or orders a disconnect.
    pub fn set_connection_status(&mut self, queue: usize, status: ConnectionStatus)
        requires
            old(self).wf(),
            queue < old(self).players(),
        ensures
            final(self).wf(),
            final(self).statuses() == old(self).statuses().update(queue as int, status),
            final(self).queues() == old(self).queues(),
            final(self).sim() == old(self).sim(),
            final(self).host() == old(self).host(),
            final(self).frame() == old(self).frame(),
            final(self).last_confirmed() == old(self).last_confirmed(),
            final(self).max_prediction() == old(self).max_prediction(),
            final(self).players() == old(self).players(),
            final(self).is_rolling_back() == old(self).is_rolling_back(),
            final(self).saved() == old(self).saved(),
            final(self).head() == old(self).head(),
    {
        self.local_connect_status[queue] = status;
    }

    /// Every connected player has a confirmed entry for `f`.
    pub open spec fn all_confirmed_at(self, f: int) -> bool {
        all_confirmed(self.statuses(), self.queues(), self.players(), f)
    }

    /// `g` is the combined input this state answers for `f`.
    pub open spec fn is_combined_input(self, f: int, g: GameInput) -> bool {
        combined_matches(self.statuses(), self.queues(), self.players(), f, g)
    }

    /// The combined input this state answers for `f`.
    pub open spec fn combined_input_at(self, f: int) -> GameInput {
        combined_of(self.statuses(), self.queues(), self.players(), f)
    }

    /// Two combined inputs for the same frame are the same value.
    pub proof fn lemma_combined_input_unique(self, f: int, g: GameInput)
        requires
            self.is_combined_input(f, g),
        ensures
            self.combined_input_at(f) == g,
    {
        lemma_combined_of_unique(self.statuses(), self.queues(), self.players(), f, g);
    }

    /// Confirmed entries of `pre` survive into `post` with their values.
    pub open spec fn confirmed_kept(pre: InputQueue, post: InputQueue) -> bool {
        forall|g: int|
            pre.has_frame(g) && !(#[trigger] pre.predicted_at(g)) ==> post.has_frame(g)
                && !post.predicted_at(g) && post.input_at(g) == pre.input_at(g)
    }

    /// Clears the misprediction signal and forgets predictions at or after
    /// `frame` in every queue; called right before resimulation starts.
    fn reset_prediction(&mut self, frame: Frame)
        requires
            old(self).wf(),
        ensures
            final(self).wf(),
            final(self).slots_distinct() == old(self).slots_distinct(),
            Self::same_except_queues(*old(self), *final(self)),
            forall|p: int|
                0 <= p < old(self).players() ==> {
                    let pre = old(self).queues()[p];
                    let post = #[trigger] final(self).queues()[p];
                    &&& post.delay() == pre.delay()
                    &&& post.last_added() == pre.last_added()
                    &&& post.first_incorrect() == NULL_FRAME
                    &&& forall|g: int|
                        post.has_frame(g) == (pre.has_frame(g) && !(pre.predicted_at(g) && g
                            >= frame))
                    &&& forall|g: int|
                        pre.has_frame(g) && !(pre.predicted_at(g) && g >= frame)
                            ==> post.input_at(g) == pre.input_at(g) && post.predicted_at(g)
                            == pre.predicted_at(g)
                },
    {
        let n = self.num_players;
        let mut q: usize = 0;
        while q < n
            invariant
                old(self).wf(),
                n == self.players(),
                0 <= q <= n,
                self.wf(),
                Self::same_except_queues(*old(self), *self),
                forall|i: int| q <= i < n ==> self.queues()[i] == old(self).queues()[i],
                forall|p: int|
                    0 <= p < q ==> {
                        let pre = old(self).queues()[p];
                        let post = #[trigger] self.queues()[p];
                        &&& post.delay() == pre.delay()
                        &&& post.last_added() == pre.last_added()
                        &&& post.first_incorrect() == NULL_FRAME
                        &&& forall|g: int|
                            post.has_frame(g) == (pre.has_frame(g) && !(pre.predicted_at(g) && g
                                >= frame))
                        &&& forall|g: int|
                            pre.has_frame(g) && !(pre.predicted_at(g) && g >= frame)
                                ==> post.input_at(g) == pre.input_at(g) && post.predicted_at(g)
                                == pre.predicted_at(g)
                    },
            decreases n - q,
        {
            self.input_queues[q].reset_prediction(frame);
            q = q + 1;
        }
    }

    /// Rolls the match back to `seek_to` and resimulates forward to the
    /// frame it started at, re-deriving each frame's combined input on the
    /// way; the `rolling_back` flag is set for the whole cycle so the host
    /// can suppress visible side effects. Afterwards every queue's
    /// misprediction signal is clear and every confirmed input survives.
    /// When each replayed frame was fully confirmed, the state landed on
    /// is exactly the replay of those confirmed inputs from the loaded
    /// snapshot: the run that would have happened with no misprediction.
    #[verifier::rlimit(100)]
    #[verifier::loop_isolation(false)]
    pub fn adjust_simulation(&mut self, seek_to: Frame)
        requires
            old(self).wf(),
            old(self).slots_distinct(),
            0 <= seek_to <= old(self).frame(),
            seek_to < old(self).frame() ==> old(self).has_slot_for(seek_to as int),
        ensures
            final(self).wf(),
            final(self).slots_distinct(),
            final(self).frame() == old(self).frame(),
            !final(self).is_rolling_back(),
            final(self).statuses() == old(self).statuses(),
            final(self).saved() == old(self).saved(),
            final(self).last_confirmed() == old(self).last_confirmed(),
            final(self).max_prediction() == old(self).max_prediction(),
            final(self).players() == old(self).players(),
            forall|p: int|
                0 <= p < old(self).players() ==> {
                    let pre = old(self).queues()[p];
                    let post = #[trigger] final(self).queues()[p];
                    &&& post.first_incorrect() == NULL_FRAME
                    &&& post.delay() == pre.delay()
                    &&& post.last_added() == pre.last_added()
                    &&& Self::confirmed_kept(pre, post)
                },
            seek_to == old(self).frame() ==> final(self).sim() == old(self).sim() && final(self).head() == old(self).head(),
            seek_to < old(self).frame() ==> {
                let slot = old(self).slot_of(seek_to as int);
                let m0 = C::snapshot_model(&old(self).saved()[slot].data.unwrap());
                &&& final(self).head() == (slot + 1) % (old(self).saved().len() as int)
                &&& (forall|f: int|
                    seek_to <= f < old(self).frame() ==> old(self).all_confirmed_at(f)) ==> final(self).sim() == replay::<C>(
                    m0,
                    Seq::new(
                        (old(self).frame() - seek_to) as nat,
                        |k: int| old(self).combined_input_at(seek_to + k),
                    ),
                )
            },
    {
        let original_frame = self.frame_count;
        let count: i32 = self.frame_count - seek_to;
        self.rolling_back = true;
        self.load_frame(seek_to);
        self.reset_prediction(seek_to);
        let ghost mid = *self;
        let ghost m0 = self.sim();
        let ghost premise: bool = forall|f: int|
            seek_to <= f < original_frame ==> old(self).all_confirmed_at(f);
        proof {
            if premise {
                assert forall|p: int, f: int|
                    0 <= p < mid.players() && seek_to <= f < original_frame && !old(self).is_disconnected_at(p, f) implies #[trigger] mid.queues()[p].has_frame(f)
                    && !mid.queues()[p].predicted_at(f) && mid.queues()[p].input_at(f) == old(self).queues()[p].input_at(f) by {
                    assert(old(self).all_confirmed_at(f));
                    assert(old(self).queues()[p].has_frame(f) && !old(self).queues()[
                        p
                    ].predicted_at(f));
                };
            }
        }
        let mut k: i32 = 0;
        while k < count
            invariant
                self.wf(),
                old(self).wf(),
                self.slots_distinct(),
                count == original_frame - seek_to,
                0 <= k <= count,
                0 <= seek_to,
                self.frame() == seek_to + k,
                original_frame <= i32::MAX,
                self.statuses() == mid.statuses(),
                self.saved() == mid.saved(),
                self.head() == mid.head(),
                self.last_confirmed() == mid.last_confirmed(),
                self.max_prediction() == mid.max_prediction(),
                self.players() == mid.players(),
                mid.players() == old(self).players(),
                mid.statuses() == old(self).statuses(),
                self.is_rolling_back(),
                mid.wf(),
                premise == (forall|f: int|
                    seek_to <= f < original_frame ==> old(self).all_confirmed_at(f)),
                m0 == mid.sim(),
                premise ==> (forall|p: int, f: int|
                    0 <= p < mid.players() && seek_to <= f < original_frame && !old(self).is_disconnected_at(p, f) ==> #[trigger] mid.queues()[p].has_frame(f)
                        && !mid.queues()[p].predicted_at(f) && mid.queues()[p].input_at(f) == old(self).queues()[p].input_at(f) && old(self).queues()[p].has_frame(f) && !old(self).queues()[p].predicted_at(f)),
                forall|p: int|
                    0 <= p < mid.players() ==> {
                        let pre = mid.queues()[p];
                        let post = #[trigger] self.queues()[p];
                        &&& post.first_incorrect() == pre.first_incorrect()
                        &&& post.delay() == pre.delay()
                        &&& post.last_added() == pre.last_added()
                        &&& Self::confirmed_kept(pre, post)
                    },
                premise ==> (forall|p: int|
                    0 <= p < mid.players() ==> (#[trigger] self.queues()[p])@ == mid.queues()[p]@),
                premise ==> self.sim() == replay::<C>(
                    m0,
                    Seq::new(k as nat, |j: int| old(self).combined_input_at(seek_to + j)),
                ),
            decreases count - k,
        {
            let frame_now = self.frame_count;
            let ghost pre_loop = *self;
            let (input, _mask) = self.synchronize_inputs(frame_now);
            proof {
                if premise {
                    assert forall|p: int| 0 <= p < mid.players() implies (#[trigger] self.queues()[
                        p
                    ])@ == mid.queues()[p]@ by {
                        assert(pre_loop.queues()[p]@ == mid.queues()[p]@);
                        if pre_loop.is_disconnected_at(p, frame_now as int) {
                            assert(self.queues()[p] == pre_loop.queues()[p]);
                        } else {
                            InputQueue::lemma_view_congruent(
                                mid.queues()[p],
                                pre_loop.queues()[p],
                                frame_now as int,
                            );
                            assert(mid.queues()[p].has_frame(frame_now as int));
                            assert(pre_loop.queues()[p].has_frame(frame_now as int));
                            assert(InputQueue::after_get(
                                pre_loop.queues()[p],
                                frame_now as int,
                                self.queues()[p],
                            ));
                            assert(self.queues()[p]@ == pre_loop.queues()[p]@);
                        }
                    };
                    assert forall|p: int|
                        0 <= p < old(self).players() && old(self).is_disconnected_at(
                            p,
                            frame_now as int,
                        ) implies input.inputs@[p] == PlayerInputFrame::neutral() by {
                        let qp = pre_loop.queues()[p];
                        assert(pre_loop.is_disconnected_at(p, frame_now as int));
                        assert(input.inputs@[p] == (if pre_loop.is_disconnected_at(
                            p,
                            frame_now as int,
                        ) {
                            PlayerInputFrame::neutral()
                        } else {
                            qp.response_at(frame_now as int)
                        }));
                    };
                    assert forall|p: int|
                        0 <= p < old(self).players() && !old(self).is_disconnected_at(
                            p,
                            frame_now as int,
                        ) implies input.inputs@[p] == (#[trigger] old(self).queues()[
                        p
                    ]).response_at(frame_now as int) by {
                        assert(pre_loop.queues()[p]@ == mid.queues()[p]@);
                        assert(!pre_loop.is_disconnected_at(p, frame_now as int));
                        InputQueue::lemma_view_congruent(
                            mid.queues()[p],
                            pre_loop.queues()[p],
                            frame_now as int,
                        );
                        assert(mid.queues()[p].has_frame(frame_now as int) && !mid.queues()[
                            p
                        ].predicted_at(frame_now as int));
                        assert(input.inputs@[p] == pre_loop.queues()[p].response_at(
                            frame_now as int,
                        ));
                        assert(pre_loop.queues()[p].response_at(frame_now as int) == mid.queues()[
                            p
                        ].response_at(frame_now as int));
                        assert(mid.queues()[p].response_at(frame_now as int) == mid.queues()[
                            p
                        ].input_at(frame_now as int));
                        assert(mid.queues()[p].input_at(frame_now as int) == old(self).queues()[
                            p
                        ].input_at(frame_now as int));
                        assert(old(self).queues()[p].has_frame(frame_now as int));
                        assert(old(self).queues()[p].response_at(frame_now as int) == old(self).queues()[p].input_at(frame_now as int));
                    };
                    assert forall|p: int|
                        old(self).players() <= p < 4 implies input.inputs@[p]
                            == PlayerInputFrame::neutral() by {
                        assert(pre_loop.players() <= p < 4);
                    };
                    assert(input.frame == frame_now);
                    assert(input.inputs@.len() == 4);
                    assert(old(self).is_combined_input(frame_now as int, input));
                    old(self).lemma_combined_input_unique(frame_now as int, input);
                }
            }
            self.callbacks.advance_frame(&input);
            self.frame_count = self.frame_count + 1;
            proof {
                if premise {
                    let prefix = Seq::new(
                        k as nat,
                        |j: int| old(self).combined_input_at(seek_to + j),
                    );
                    lemma_replay_push::<C>(m0, prefix, input);
                    assert(Seq::new(
                        (k + 1) as nat,
                        |j: int| old(self).combined_input_at(seek_to + j),
                    ) =~= prefix.push(input));
                }
                assert forall|p: int| 0 <= p < mid.players() implies {
                    let pre = mid.queues()[p];
                    let post = #[trigger] self.queues()[p];
                    &&& post.first_incorrect() == pre.first_incorrect()
                    &&& post.delay() == pre.delay()
                    &&& post.last_added() == pre.last_added()
                    &&& Self::confirmed_kept(pre, post)
                } by {
                    let pre = mid.queues()[p];
                    let cur = pre_loop.queues()[p];
                    let post = self.queues()[p];
                    if pre_loop.is_disconnected_at(p, frame_now as int) {
                        assert(post == cur);
                    } else {
                        assert(InputQueue::after_get(cur, frame_now as int, post));
                        assert forall|g: int|
                            pre.has_frame(g) && !(#[trigger] pre.predicted_at(g)) implies post.has_frame(
                            g,
                        ) && !post.predicted_at(g) && post.input_at(g) == pre.input_at(g) by {
                            assert(cur.has_frame(g) && !cur.predicted_at(g) && cur.input_at(g)
                                == pre.input_at(g));
                            if cur.has_frame(frame_now as int) || !cur.has_frame_at_or_before(
                                frame_now as int,
                            ) {
                                assert(post@ == cur@);
                                InputQueue::lemma_view_congruent(cur, post, g);
                            } else {
                                if g != frame_now {
                                    assert(post.has_frame(g) && post.input_at(g) == cur.input_at(g)
                                        && post.predicted_at(g) == cur.predicted_at(g));
                                }
                            }
                        };
                    }
                };
            }
            k = k + 1;
        }
        self.rolling_back = false;
    }

    /// Advances the host one frame under the combined input the caller
    /// fetched for this tick; the orchestrator's own bookkeeping is
    /// untouched (the tick ends separately, with `increment_frame`).
    pub fn advance_frame(&mut self, input: &GameInput)
        ensures
            final(self).sim() == C::step(old(self).sim(), *input),
            final(self).frame() == old(self).frame(),
            final(self).last_confirmed() == old(self).last_confirmed(),
            final(self).max_prediction() == old(self).max_prediction(),
            final(self).players() == old(self).players(),
            final(self).is_rolling_back() == old(self).is_rolling_back(),
            final(self).queues() == old(self).queues(),
            final(self).statuses() == old(self).statuses(),
            final(self).saved() == old(self).saved(),
            final(self).head() == old(self).head(),
            final(self).wf() == old(self).wf(),
            final(self).slots_distinct() == old(self).slots_distinct(),
    {
        self.callbacks.advance_frame(input);
    }

    /// The host driven by this orchestrator, for reading its state.
    pub fn callbacks(&self) -> (r: &C)
        ensures
            *r == self.host(),
    {
        &self.callbacks
    }

    /// Looks for the earliest mispredicted frame and, when one exists,
    /// rolls back to it and resimulates to the present.
    pub fn check_simulation(&mut self)
        requires
            old(self).wf(),
            old(self).slots_distinct(),
            old(self).min_incorrect() >= 0 ==> 0 <= old(self).min_incorrect() <= old(self).frame()
                && (old(self).min_incorrect() < old(self).frame() ==> old(self).has_slot_for(
                old(self).min_incorrect() as int,
            )),
        ensures
            final(self).wf(),
            final(self).slots_distinct(),
            final(self).frame() == old(self).frame(),
            final(self).statuses() == old(self).statuses(),
            final(self).saved() == old(self).saved(),
            final(self).last_confirmed() == old(self).last_confirmed(),
            final(self).max_prediction() == old(self).max_prediction(),
            final(self).players() == old(self).players(),
            old(self).min_incorrect() >= 0 ==> !final(self).is_rolling_back(),
            old(self).min_incorrect() < 0 ==> *final(self) == *old(self),
            old(self).min_incorrect() >= 0 ==> forall|p: int|
                0 <= p < old(self).players() ==> (#[trigger] final(self).queues()[
                    p
                ]).first_incorrect() == NULL_FRAME,
            old(self).min_incorrect() >= 0 && old(self).min_incorrect() == old(self).frame()
                ==> final(self).sim() == old(self).sim() && final(self).head() == old(self).head(),
            old(self).min_incorrect() >= 0 && old(self).min_incorrect() < old(self).frame() ==> {
                let seek = old(self).min_incorrect();
                let slot = old(self).slot_of(seek as int);
                let m0 = C::snapshot_model(&old(self).saved()[slot].data.unwrap());
                &&& final(self).head() == (slot + 1) % (old(self).saved().len() as int)
                &&& (forall|f: int|
                    seek <= f < old(self).frame() ==> old(self).all_confirmed_at(f)) ==> final(self).sim() == replay::<C>(
                    m0,
                    Seq::new(
                        (old(self).frame() - seek) as nat,
                        |k: int| old(self).combined_input_at(seek + k),
                    ),
                )
            },
    {
        match self.check_simulation_consistency() {
            Some(seek_to) => {
                self.adjust_simulation(seek_to);
            },
            None => {
            },
        }
    }

    /// The earliest frame some queue mispredicted, if any: the minimum of
    /// the queues' `first_incorrect` signals, ignoring queues without one.
    pub open spec fn min_incorrect(self) -> Frame {
        self.min_incorrect_upto(self.players())
    }

    /// The minimum misprediction signal among queues `0..n`.
    pub open spec fn min_incorrect_upto(self, n: int) -> Frame
        decreases n,
    {
        if n <= 0 {
            NULL_FRAME
        } else {
            let rest = self.min_incorrect_upto(n - 1);
            let fi = self.queues()[n - 1].first_incorrect();
            if fi < 0 {
                rest
            } else if rest < 0 || fi < rest {
                fi
            } else {
                rest
            }
        }
    }

    /// Scans every queue for the earliest mispredicted frame.
    pub fn check_simulation_consistency(&self) -> (r: Option<Frame>)
        requires
            self.wf(),
        ensures
            r is Some <==> self.min_incorrect() >= 0,
            r is Some ==> r.unwrap() == self.min_incorrect(),
    {
        let n = self.num_players;
        let mut q: usize = 0;
        let mut found: Frame = NULL_FRAME;
        while q < n
            invariant
                n == self.players(),
                0 <= q <= n,
                self.wf(),
                found == self.min_incorrect_upto(q as int),
            decreases n - q,
        {
            let fi = self.input_queues[q].first_incorrect_frame();
            if fi >= 0 && (found < 0 || fi < found) {
                found = fi;
            }
            q = q + 1;
        }
        if found >= 0 {
            Some(found)
        } else {
            None
        }
    }
}


/// Replaying one more input steps the replayed model once more.
pub proof fn lemma_replay_push<C: SessionCallbacks>(m: C::Model, s: Seq<GameInput>, g: GameInput)
    ensures
        replay::<C>(m, s.push(g)) == C::step(replay::<C>(m, s), g),
    decreases s.len(),
{
    if s.len() == 0 {
        assert(s.push(g)[0] == g);
        assert(s.push(g).drop_first() =~= Seq::<GameInput>::empty());
        assert(replay::<C>(m, s.push(g)) == replay::<C>(
            C::step(m, g),
            s.push(g).drop_first(),
        ));
        assert(replay::<C>(C::step(m, g), s.push(g).drop_first()) == C::step(m, g));
        assert(replay::<C>(m, s) == m);
    } else {
        assert(s.push(g)[0] == s[0]);
        assert(s.push(g).drop_first() =~= s.drop_first().push(g));
        assert(replay::<C>(m, s.push(g)) == replay::<C>(
            C::step(m, s[0]),
            s.drop_first().push(g),
        ));
        lemma_replay_push::<C>(C::step(m, s[0]), s.drop_first(), g);
        assert(replay::<C>(m, s) == replay::<C>(C::step(m, s[0]), s.drop_first()));
    }
}


/// Reloading a ring snapshot and saving again reproduces its checksum: a
/// saved frame is a complete, independent copy of the state it captured,
/// so nothing is lost between saving it and restoring it.
pub fn snapshot_checksum_round_trip<C: SessionCallbacks>(
    s: &mut RollbackSync<C>,
    frame: Frame,
) -> (r: (u32, u32))
    requires
        old(s).wf(),
        old(s).slots_distinct(),
        0 <= frame,
        frame != old(s).frame(),
        old(s).has_slot_for(frame as int),
        old(s).saved()[old(s).slot_of(frame as int)].checksum == C::checksum_of(
            C::snapshot_model(&old(s).saved()[old(s).slot_of(frame as int)].data.unwrap()),
        ),
    ensures
        r.0 == old(s).saved()[old(s).slot_of(frame as int)].checksum,
        r.0 == r.1,
{
    let stored = match s.find_saved_frame_index(frame) {
        Some(i) => s.get_last_saved_frame_checksum_at(i),
        None => {
            proof {
                assert(false);
            }
            0
        },
    };
    s.load_frame(frame);
    let ghost mid = *s;
    s.save_current_frame();
    proof {
        let len = old(s).saved().len() as int;
        assert(0 <= mid.head() < len);
        assert(s.head() == (mid.head() + 1) % len);
        if mid.head() + 1 < len {
            vstd::arithmetic::div_mod::lemma_small_mod((mid.head() + 1) as nat, len as nat);
            assert((mid.head() + 1) % len == mid.head() + 1);
        } else {
            assert(mid.head() + 1 == len);
            vstd::arithmetic::div_mod::lemma_mod_self_0(len);
            assert(len % len == 0);
        }
        assert((if s.head() == 0 {
            len - 1
        } else {
            s.head() - 1
        }) == mid.head());
        assert(slot_captures::<C>(s.saved()[mid.head()], mid.frame(), mid.sim()));
    }
    let resaved = s.get_last_saved_frame();
    (stored, resaved.checksum)
}

/// The prediction barrier releases once confirmation catches up: at the
/// barrier the next local input is refused with
/// `ReachedPredictionBarrier`, and after the last confirmed frame
/// advances to within the prediction window the same call succeeds.
pub fn barrier_clears_after_confirmation<C: SessionCallbacks>(
    s: &mut RollbackSync<C>,
    queue: usize,
    input: PlayerInputFrame,
    confirmed: Frame,
) -> (r: (Result<Frame, RollbackError>, Result<Frame, RollbackError>))
    requires
        old(s).wf(),
        queue < old(s).players(),
        old(s).at_prediction_barrier(),
        old(s).frame() + old(s).queues()[queue as int].delay() <= i32::MAX,
        0 <= confirmed,
        old(s).frame() - confirmed < old(s).max_prediction(),
        old(s).frame() > old(s).queues()[queue as int].last_added(),
        old(s).queues()[queue as int]@.len() == 0 || old(s).queues()[queue as int]@.last().frame
            < old(s).frame() + old(s).queues()[queue as int].delay(),
    ensures
        r.0 == Result::<Frame, RollbackError>::Err(RollbackError::ReachedPredictionBarrier),
        r.1 == Result::<Frame, RollbackError>::Ok(
            (old(s).frame() + old(s).queues()[queue as int].delay()) as i32,
        ),
{
    let first = s.add_local_input(queue, input);
    s.set_last_confirmed_frame(confirmed);
    let ghost mid = *s;
    proof {
        assert(!mid.at_prediction_barrier());
        let pre_q = old(s).queues()[queue as int];
        let mid_q = mid.queues()[queue as int];
        assert(mid_q.last_added() == pre_q.last_added());
        if mid_q@.len() > 0 {
            let last = mid_q@[mid_q@.len() - 1];
            assert(mid_q.has_frame(last.frame as int)) by {
                assert(mid_q@[mid_q@.len() - 1].frame == last.frame);
            };
            if confirmed > 0 {
                assert(pre_q.has_frame(last.frame as int));
                let i = pre_q.idx_of(last.frame as int);
                assert(pre_q@[i].frame == last.frame);
                assert(pre_q@.len() > 0);
                assert(pre_q@[i].frame <= pre_q@[pre_q@.len() - 1].frame);
            } else {
                assert(mid_q@ == pre_q@);
            }
            assert(last.frame < mid.frame() + mid_q.delay());
        }
    }
    let second = s.add_local_input(queue, input);
    (first, second)
}

} // verus!
