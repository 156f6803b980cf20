//! Per-player input timeline: confirmed and predicted inputs in frame
//! order, frame-delay shifting, and detection of the earliest frame whose
//! prediction turned out wrong.

use vstd::prelude::*;

use crate::input::PlayerInputFrame;
use crate::Frame;
use crate::NULL_FRAME;

verus! {

/// The combined input of every player slot for one frame.
#[derive(Clone, Copy, Debug)]
pub struct GameInput {
    pub frame: Frame,
    pub inputs: [PlayerInputFrame; 4],
}

impl PartialEq for GameInput {
    fn eq(&self, other: &GameInput) -> (r: bool) {
        let r = self.frame == other.frame && self.inputs[0] == other.inputs[0] && self.inputs[1]
            == other.inputs[1] && self.inputs[2] == other.inputs[2] && self.inputs[3]
            == other.inputs[3];
        proof {
            if r {
                assert(self.inputs@ =~= other.inputs@);
            }
        }
        r
    }
}

impl Eq for GameInput {

}

impl vstd::std_specs::cmp::PartialEqSpecImpl for GameInput {
    open spec fn obeys_eq_spec() -> bool {
        true
    }

    open spec fn eq_spec(&self, other: &GameInput) -> bool {
        self.frame == other.frame && self.inputs@ == other.inputs@
    }
}

impl GameInput {
    /// A neutral input for every slot, stamped with `frame`.
    pub fn neutral(frame: Frame) -> (r: GameInput)
        ensures
            r.frame == frame,
            forall|i: int| 0 <= i < 4 ==> r.inputs[i] == PlayerInputFrame::neutral(),
    {
        GameInput {
            frame,
            inputs: [
                PlayerInputFrame::default(),
                PlayerInputFrame::default(),
                PlayerInputFrame::default(),
                PlayerInputFrame::default(),
            ],
        }
    }
}

/// One stored frame of one player's input, and whether it is still a
/// prediction or has been confirmed by that player.
#[derive(Clone, Copy, Debug, PartialEq, Eq, Structural)]
pub struct QueueEntry {
    pub frame: Frame,
    pub input: PlayerInputFrame,
    pub predicted: bool,
}

/// Rejection returned by `InputQueue::add_input` when a frame does not
/// advance past everything already stored.
#[derive(Clone, Copy, Debug, PartialEq, Eq, Structural)]
pub enum QueueError {
    OutOfOrder,
}

/// One player's input timeline. Entries are kept in strictly increasing
/// frame order; a confirmed entry is never mutated afterwards.
pub struct InputQueue {
    entries: Vec<QueueEntry>,
    frame_delay: Frame,
    last_added_frame: Frame,
    first_incorrect_frame: Frame,
}

impl View for InputQueue {
    type V = Seq<QueueEntry>;

    closed spec fn view(&self) -> Seq<QueueEntry> {
        self.entries@
    }
}

impl InputQueue {
    /// The configured local input delay, in frames.
    pub closed spec fn delay(self) -> Frame {
        self.frame_delay
    }

    /// The last frame handed to `add_input`, `NULL_FRAME` before the first.
    pub closed spec fn last_added(self) -> Frame {
        self.last_added_frame
    }

    /// The earliest frame whose predicted input differed from the input
    /// later confirmed, `NULL_FRAME` while no misprediction is known.
    pub closed spec fn first_incorrect(self) -> Frame {
        self.first_incorrect_frame
    }

    /// Entries are sorted strictly by frame, all frames are non-negative,
    /// and the bookkeeping frames are either `NULL_FRAME` or non-negative.
    pub open spec fn wf(self) -> bool {
        &&& forall|i: int, j: int|
            0 <= i < j < self@.len() ==> (#[trigger] self@[i]).frame < (#[trigger] self@[j]).frame
        &&& forall|i: int| 0 <= i < self@.len() ==> (#[trigger] self@[i]).frame >= 0
        &&& self.delay() >= 0
        &&& self.last_added() >= NULL_FRAME
        &&& self.first_incorrect() >= NULL_FRAME
    }

    /// Whether some entry is stored for `f`.
    pub open spec fn has_frame(self, f: int) -> bool {
        exists|i: int| 0 <= i < self@.len() && (#[trigger] self@[i]).frame == f
    }

    /// Index of the entry stored for `f`.
    pub open spec fn idx_of(self, f: int) -> int {
        choose|i: int| 0 <= i < self@.len() && (#[trigger] self@[i]).frame == f
    }

    /// The input stored for `f`.
    pub open spec fn input_at(self, f: int) -> PlayerInputFrame {
        self@[self.idx_of(f)].input
    }

    /// Whether the entry stored for `f` is still a prediction.
    pub open spec fn predicted_at(self, f: int) -> bool {
        self@[self.idx_of(f)].predicted
    }

    /// Whether some entry is stored at or before `f`.
    pub open spec fn has_frame_at_or_before(self, f: int) -> bool {
        exists|i: int| 0 <= i < self@.len() && (#[trigger] self@[i]).frame <= f
    }

    /// `p` is the latest stored frame strictly before `f`.
    pub open spec fn is_prev_frame(self, f: int, p: int) -> bool {
        &&& self.has_frame(p)
        &&& p < f
        &&& forall|g: int| p < g < f ==> !self.has_frame(g)
    }

    /// The latest stored frame strictly before `f`.
    pub open spec fn prev_frame(self, f: int) -> int {
        choose|p: int| self.is_prev_frame(f, p)
    }

    /// The value `get_input` answers for `f`: the entry stored for `f` if
    /// any, else the value of the latest earlier entry, else neutral.
    pub open spec fn response_at(self, f: int) -> PlayerInputFrame {
        if self.has_frame(f) {
            self.input_at(f)
        } else if self.has_frame_at_or_before(f) {
            self.input_at(self.prev_frame(f))
        } else {
            PlayerInputFrame::neutral()
        }
    }

    /// How `get_input` for `f` leaves the queue: untouched when `f` is
    /// stored or nothing earlier exists; otherwise the response is
    /// recorded as a prediction for `f` and everything else is kept.
    pub open spec fn after_get(pre: InputQueue, f: int, post: InputQueue) -> bool {
        &&& post.delay() == pre.delay()
        &&& post.last_added() == pre.last_added()
        &&& post.first_incorrect() == pre.first_incorrect()
        &&& if pre.has_frame(f) || !pre.has_frame_at_or_before(f) {
            post@ == pre@
        } else {
            &&& post.has_frame(f)
            &&& post.predicted_at(f)
            &&& post.input_at(f) == pre.response_at(f)
            &&& post@.len() == pre@.len() + 1
            &&& forall|g: int| g != f ==> post.has_frame(g) == pre.has_frame(g)
            &&& forall|g: int|
                g != f && pre.has_frame(g) ==> post.input_at(g) == pre.input_at(g)
                    && post.predicted_at(g) == pre.predicted_at(g)
        }
    }

    /// How `add_remote_input` for `f` leaves the queue: an already
    /// confirmed frame is untouched, a predicted one is overwritten and a
    /// misprediction recorded when the values differ, an unknown frame is
    /// inserted confirmed.
    pub open spec fn after_remote_add(
        pre: InputQueue,
        frame: Frame,
        input: PlayerInputFrame,
        post: InputQueue,
    ) -> bool {
        &&& post.delay() == pre.delay()
        &&& post.last_added() == pre.last_added()
        &&& if frame < 0 || (pre.has_frame(frame as int) && !pre.predicted_at(frame as int)) {
            post@ == pre@ && post.first_incorrect() == pre.first_incorrect()
        } else if pre.has_frame(frame as int) {
            &&& post@ == pre@.update(
                pre.idx_of(frame as int),
                QueueEntry { frame, input, predicted: false },
            )
            &&& post.first_incorrect() == (if pre.input_at(frame as int) == input {
                pre.first_incorrect()
            } else if pre.first_incorrect() == NULL_FRAME || frame < pre.first_incorrect() {
                frame
            } else {
                pre.first_incorrect()
            })
        } else {
            &&& post.first_incorrect() == pre.first_incorrect()
            &&& post.has_frame(frame as int)
            &&& !post.predicted_at(frame as int)
            &&& post.input_at(frame as int) == input
            &&& post@.len() == pre@.len() + 1
            &&& forall|g: int| g != frame ==> post.has_frame(g) == pre.has_frame(g)
            &&& forall|g: int|
                g != frame && pre.has_frame(g) ==> post.input_at(g) == pre.input_at(g)
                    && post.predicted_at(g) == pre.predicted_at(g)
        }
    }

    /// Queues with the same stored entries answer the same lookups; the
    /// non-entry bookkeeping fields play no part in them.
    pub proof fn lemma_view_congruent(q1: InputQueue, q2: InputQueue, f: int)
        requires
            q1@ == q2@,
            forall|i: int, j: int|
                0 <= i < j < q1@.len() ==> (#[trigger] q1@[i]).frame < (#[trigger] q1@[j]).frame,
        ensures
            q1.has_frame(f) == q2.has_frame(f),
            q1.has_frame_at_or_before(f) == q2.has_frame_at_or_before(f),
            q1.has_frame(f) ==> q1.idx_of(f) == q2.idx_of(f) && q1.input_at(f) == q2.input_at(f)
                && q1.predicted_at(f) == q2.predicted_at(f),
            q1.response_at(f) == q2.response_at(f),
    {
        assert(q1.has_frame(f) == q2.has_frame(f)) by {
            if q1.has_frame(f) {
                let i = q1.idx_of(f);
                assert(q2@[i].frame == f);
            }
            if q2.has_frame(f) {
                let i = q2.idx_of(f);
                assert(q1@[i].frame == f);
            }
        };
        assert(q1.has_frame_at_or_before(f) == q2.has_frame_at_or_before(f)) by {
            if q1.has_frame_at_or_before(f) {
                let i = choose|i: int| 0 <= i < q1@.len() && (#[trigger] q1@[i]).frame <= f;
                assert(q2@[i].frame <= f);
            }
            if q2.has_frame_at_or_before(f) {
                let i = choose|i: int| 0 <= i < q2@.len() && (#[trigger] q2@[i]).frame <= f;
                assert(q1@[i].frame <= f);
            }
        };
        if q1.has_frame(f) {
            let i1 = q1.idx_of(f);
            let i2 = q2.idx_of(f);
            assert(q1@[i1].frame == f && q2@[i2].frame == f);
            assert(q1@[i2].frame == f);
            assert(i1 == i2);
        }
        if !q1.has_frame(f) && q1.has_frame_at_or_before(f) {
            let p1 = q1.prev_frame(f);
            assert(q1.is_prev_frame(f, p1)) by {
                let i = choose|i: int| 0 <= i < q1@.len() && (#[trigger] q1@[i]).frame <= f;
                q1.lemma_prev_exists(f, i);
            };
            assert(q2.is_prev_frame(f, p1)) by {
                let i = q1.idx_of(p1);
                assert(q1@[i].frame == p1);
                assert(q2@[i].frame == p1);
                assert(q2.has_frame(p1));
                assert forall|g: int| p1 < g < f implies !q2.has_frame(g) by {
                    if q2.has_frame(g) {
                        let j = q2.idx_of(g);
                        assert(q1@[j].frame == g);
                        assert(q1.has_frame(g));
                    }
                };
            };
            q2.lemma_prev_frame_unique(f, p1);
            let j1 = q1.idx_of(p1);
            let j2 = q2.idx_of(p1);
            assert(q1@[j2].frame == p1);
            assert(j1 == j2);
        }
    }

    /// Entries at or before `f`, none exactly at `f`: some entry is the
    /// latest one strictly before `f`. The witness is found by walking up
    /// from any entry at or before `f`.
    pub proof fn lemma_prev_exists(self, f: int, i: int)
        requires
            forall|a: int, b: int|
                0 <= a < b < self@.len() ==> (#[trigger] self@[a]).frame < (
                #[trigger] self@[b]).frame,
            !self.has_frame(f),
            0 <= i < self@.len(),
            self@[i].frame <= f,
        ensures
            exists|p: int| self.is_prev_frame(f, p),
        decreases self@.len() - i,
    {
        if i + 1 < self@.len() && self@[i + 1].frame <= f {
            self.lemma_prev_exists(f, i + 1);
        } else {
            let p = self@[i].frame as int;
            assert(self.has_frame(p));
            assert(p != f);
            assert forall|g: int| p < g < f implies !self.has_frame(g) by {
                if self.has_frame(g) {
                    let j = self.idx_of(g);
                    assert(self@[j].frame == g);
                    if j <= i {
                        assert(j < i ==> self@[j].frame < self@[i].frame);
                    } else {
                        assert(self@[i + 1].frame <= self@[j].frame);
                    }
                }
            };
            assert(self.is_prev_frame(f, p));
        }
    }

    /// Two latest-stored-frames-before-`f` are the same frame.
    pub proof fn lemma_prev_frame_unique(self, f: int, p: int)
        requires
            self.is_prev_frame(f, p),
        ensures
            self.prev_frame(f) == p,
    {
        let p2 = self.prev_frame(f);
        assert(self.is_prev_frame(f, p2));
        if p2 < p {
            assert(self.has_frame(p));
        } else if p < p2 {
            assert(self.has_frame(p2));
        }
    }

    pub fn new() -> (q: InputQueue)
        ensures
            q.wf(),
            q@.len() == 0,
            q.delay() == 0,
            q.last_added() == NULL_FRAME,
            q.first_incorrect() == NULL_FRAME,
    {
        InputQueue {
            entries: Vec::new(),
            frame_delay: 0,
            last_added_frame: NULL_FRAME,
            first_incorrect_frame: NULL_FRAME,
        }
    }

    /// Configures the local input delay applied by `add_input`.
    pub fn set_frame_delay(&mut self, delay: Frame)
        requires
            delay >= 0,
        ensures
            final(self).delay() == delay,
            final(self)@ == old(self)@,
            final(self).last_added() == old(self).last_added(),
            final(self).first_incorrect() == old(self).first_incorrect(),
    {
        self.frame_delay = delay;
    }

    /// The misprediction signal consumed by the rollback orchestrator.
    pub fn first_incorrect_frame(&self) -> (r: Frame)
        ensures
            r == self.first_incorrect(),
    {
        self.first_incorrect_frame
    }

    pub fn frame_delay(&self) -> (r: Frame)
        ensures
            r == self.delay(),
    {
        self.frame_delay
    }

    /// Appends locally generated input for `frame`. The entry is stored at
    /// the effective frame `frame + delay`, confirmed from the start, and
    /// that effective frame is returned for transmission. Rejected as
    /// `OutOfOrder` when `frame` does not advance past the last added frame
    /// or the effective frame does not advance past every stored entry.
    pub fn add_input(&mut self, frame: Frame, input: PlayerInputFrame) -> (r: Result<
        Frame,
        QueueError,
    >)
        requires
            old(self).wf(),
            frame >= 0,
            frame + old(self).delay() <= i32::MAX,
        ensures
            final(self).wf(),
            final(self).delay() == old(self).delay(),
            final(self).first_incorrect() == old(self).first_incorrect(),
            r is Err <==> (frame <= old(self).last_added() || (old(self)@.len() > 0 && frame
                + old(self).delay() <= old(self)@.last().frame)),
            r is Err ==> final(self)@ == old(self)@ && final(self).last_added() == old(self).last_added(),
            r is Ok ==> r.unwrap() == frame + old(self).delay() && final(self)@ == old(self)@.push(
                QueueEntry { frame: (frame + old(self).delay()) as i32, input, predicted: false },
            ) && final(self).last_added() == frame,
    {
        if frame <= self.last_added_frame {
            return Err(QueueError::OutOfOrder);
        }
        let effective: Frame = frame + self.frame_delay;
        if self.entries.len() > 0 && effective <= self.entries[self.entries.len() - 1].frame {
            return Err(QueueError::OutOfOrder);
        }
        self.entries.push(QueueEntry { frame: effective, input, predicted: false });
        self.last_added_frame = frame;
        Ok(effective)
    }

    /// Records input reported by the remote player for `frame`. Never
    /// rejects: a frame already confirmed is left untouched, a predicted
    /// entry is overwritten with the confirmed value (recording the earliest
    /// mispredicted frame when the values differ), and an unknown frame is
    /// inserted in order, so out-of-order arrival is buffered, not dropped.
    /// A negative frame is malformed and ignored.
    pub fn add_remote_input(&mut self, frame: Frame, input: PlayerInputFrame)
        requires
            old(self).wf(),
        ensures
            final(self).wf(),
            InputQueue::after_remote_add(*old(self), frame, input, *final(self)),
    {
        if frame < 0 {
            return ;
        }
        let n = self.entries.len();
        let mut pos: usize = 0;
        // find the first index whose frame is >= `frame`
        while pos < n && self.entries[pos].frame < frame
            invariant
                self.wf(),
                n == self@.len(),
                0 <= pos <= n,
                forall|i: int| 0 <= i < pos ==> (#[trigger] self@[i]).frame < frame,
            decreases n - pos,
        {
            pos = pos + 1;
        }
        if pos < n && self.entries[pos].frame == frame {
            let ghost idx = self.idx_of(frame as int);
            proof {
                assert(self@[pos as int].frame == frame);
                assert(0 <= idx < self@.len() && self@[idx].frame == frame);
                assert(idx == pos as int);
            }
            if self.entries[pos].predicted {
                let differs = !(self.entries[pos].input == input);
                if differs {
                    if self.first_incorrect_frame == NULL_FRAME
                        || frame < self.first_incorrect_frame {
                        self.first_incorrect_frame = frame;
                    }
                }
                self.entries[pos] = QueueEntry { frame, input, predicted: false };
                proof {
                    assert(forall|i: int, j: int|
                        0 <= i < j < self@.len() ==> (#[trigger] self@[i]).frame < (
                        #[trigger] self@[j]).frame);
                }
            }
        } else {
            // no entry for `frame` yet: insert it in order, confirmed
            proof {
                assert(forall|i: int|
                    pos <= i < self@.len() ==> (#[trigger] self@[i]).frame > frame) by {
                    assert(forall|i: int|
                        pos < i < self@.len() ==> (#[trigger] self@[i]).frame > self@[
                            pos as int
                        ].frame);
                };
                assert(!old(self).has_frame(frame as int));
            }
            self.entries.insert(pos, QueueEntry { frame, input, predicted: false });
            proof {
                let fin = self@;
                let pre = old(self)@;
                assert(forall|i: int, j: int|
                    0 <= i < j < fin.len() ==> (#[trigger] fin[i]).frame < (#[trigger] fin[j]).frame);
                assert(fin[pos as int].frame == frame && !fin[pos as int].predicted);
                assert(self.has_frame(frame as int));
                let idx = self.idx_of(frame as int);
                assert(0 <= idx < fin.len() && fin[idx].frame == frame);
                assert(idx == pos as int);
                assert forall|g: int| g != frame implies self.has_frame(g) == old(self).has_frame(
                    g,
                ) by {
                    if old(self).has_frame(g) {
                        let i = old(self).idx_of(g);
                        assert(pre[i].frame == g);
                        if i < pos {
                            assert(fin[i] == pre[i]);
                        } else {
                            assert(fin[i + 1] == pre[i]);
                        }
                        assert(self.has_frame(g));
                    }
                    if self.has_frame(g) {
                        let i = self.idx_of(g);
                        assert(fin[i].frame == g);
                        if i < pos {
                            assert(pre[i] == fin[i]);
                        } else {
                            assert(i != pos);
                            assert(pre[i - 1] == fin[i]);
                        }
                        assert(old(self).has_frame(g));
                    }
                };
                assert forall|g: int| g != frame && old(self).has_frame(g) implies self.input_at(g)
                    == old(self).input_at(g) && self.predicted_at(g) == old(self).predicted_at(
                    g,
                ) by {
                    let i = self.idx_of(g);
                    let i0 = old(self).idx_of(g);
                    assert(self.has_frame(g));
                    assert(fin[i].frame == g);
                    assert(pre[i0].frame == g);
                    if i < pos {
                        assert(fin[i] == pre[i]);
                        assert(i == i0) by {
                            if i0 < pos {
                                assert(fin[i0] == pre[i0]);
                            } else {
                                assert(fin[i0 + 1] == pre[i0]);
                            }
                        };
                    } else {
                        assert(i != pos);
                        assert(fin[i] == pre[i - 1]);
                        assert(i - 1 == i0) by {
                            if i0 < pos {
                                assert(fin[i0] == pre[i0]);
                            } else {
                                assert(fin[i0 + 1] == pre[i0]);
                            }
                        };
                    }
                };
            }
        }
    }

    /// Answers "what is this player's input at `frame`". A stored entry is
    /// returned as it is. Otherwise the most recent earlier entry's value is
    /// returned and recorded as a prediction for `frame`, so a later
    /// confirmation can detect a misprediction. With nothing stored at or
    /// before `frame` there is nothing to predict from: the neutral input is
    /// returned and nothing is recorded.
    pub fn get_input(&mut self, frame: Frame) -> (r: PlayerInputFrame)
        requires
            old(self).wf(),
            frame >= 0,
        ensures
            final(self).wf(),
            InputQueue::after_get(*old(self), frame as int, *final(self)),
            r == old(self).response_at(frame as int),
    {
        let n = self.entries.len();
        let mut pos: usize = 0;
        while pos < n && self.entries[pos].frame < frame
            invariant
                self.wf(),
                n == self@.len(),
                0 <= pos <= n,
                forall|i: int| 0 <= i < pos ==> (#[trigger] self@[i]).frame < frame,
            decreases n - pos,
        {
            pos = pos + 1;
        }
        if pos < n && self.entries[pos].frame == frame {
            let ghost idx = self.idx_of(frame as int);
            proof {
                assert(self@[pos as int].frame == frame);
                assert(0 <= idx < self@.len() && self@[idx].frame == frame);
                assert(idx == pos as int);
                assert(old(self).has_frame(frame as int));
                assert(old(self).response_at(frame as int) == old(self).input_at(frame as int));
            }
            return self.entries[pos].input;
        }
        proof {
            assert(forall|i: int|
                pos <= i < self@.len() ==> (#[trigger] self@[i]).frame > frame) by {
                assert(forall|i: int|
                    pos < i < self@.len() ==> (#[trigger] self@[i]).frame > self@[pos as int].frame);
            };
            assert(!old(self).has_frame(frame as int));
        }
        if pos == 0 {
            proof {
                assert(!old(self).has_frame_at_or_before(frame as int));
            }
            return PlayerInputFrame::default();
        }
        let prediction = self.entries[pos - 1].input;
        let ghost pre = self@;
        let ghost p = pre[pos - 1].frame as int;
        proof {
            assert(old(self).has_frame(p));
            assert(old(self).has_frame_at_or_before(frame as int));
            assert forall|g: int| p < g < frame implies !old(self).has_frame(g) by {
                if old(self).has_frame(g) {
                    let i = old(self).idx_of(g);
                    assert(pre[i].frame == g);
                    assert(i < pos ==> pre[i].frame < frame);
                    assert(i >= pos ==> pre[i].frame > frame);
                    assert(i < pos - 1 ==> pre[i].frame < pre[pos - 1].frame);
                }
            };
            assert(old(self).input_at(p) == pre[old(self).idx_of(p)].input);
            assert(pre[old(self).idx_of(p)].frame == p && pre[pos - 1].frame == p);
            assert(old(self).idx_of(p) == pos - 1);
            assert(old(self).is_prev_frame(frame as int, p));
            old(self).lemma_prev_frame_unique(frame as int, p);
            assert(old(self).response_at(frame as int) == old(self).input_at(p));
        }
        self.entries.insert(pos, QueueEntry { frame, input: prediction, predicted: true });
        proof {
            let fin = self@;
            assert(forall|i: int, j: int|
                0 <= i < j < fin.len() ==> (#[trigger] fin[i]).frame < (#[trigger] fin[j]).frame);
            assert(fin[pos as int].frame == frame && fin[pos as int].predicted);
            assert(self.has_frame(frame as int));
            let idx = self.idx_of(frame as int);
            assert(0 <= idx < fin.len() && fin[idx].frame == frame);
            assert(idx == pos as int);
            assert forall|g: int| g != frame implies self.has_frame(g) == old(self).has_frame(
                g,
            ) by {
                if old(self).has_frame(g) {
                    let i = old(self).idx_of(g);
                    assert(pre[i].frame == g);
                    if i < pos {
                        assert(fin[i] == pre[i]);
                    } else {
                        assert(fin[i + 1] == pre[i]);
                    }
                    assert(self.has_frame(g));
                }
                if self.has_frame(g) {
                    let i = self.idx_of(g);
                    assert(fin[i].frame == g);
                    if i < pos {
                        assert(pre[i] == fin[i]);
                    } else {
                        assert(i != pos);
                        assert(pre[i - 1] == fin[i]);
                    }
                    assert(old(self).has_frame(g));
                }
            };
            assert forall|g: int| g != frame && old(self).has_frame(g) implies self.input_at(g)
                == old(self).input_at(g) && self.predicted_at(g) == old(self).predicted_at(g) by {
                let i = self.idx_of(g);
                let i0 = old(self).idx_of(g);
                assert(self.has_frame(g));
                assert(fin[i].frame == g);
                assert(pre[i0].frame == g);
                if i < pos {
                    assert(fin[i] == pre[i]);
                    assert(i == i0) by {
                        if i0 < pos {
                            assert(fin[i0] == pre[i0]);
                        } else {
                            assert(fin[i0 + 1] == pre[i0]);
                        }
                    };
                } else {
                    assert(i != pos);
                    assert(fin[i] == pre[i - 1]);
                    assert(i - 1 == i0) by {
                        if i0 < pos {
                            assert(fin[i0] == pre[i0]);
                        } else {
                            assert(fin[i0 + 1] == pre[i0]);
                        }
                    };
                }
            };
        }
        prediction
    }

    /// The confirmed input stored for `frame`, or `None` while that frame is
    /// unknown or still a prediction.
    pub fn get_confirmed_input(&self, frame: Frame) -> (r: Option<PlayerInputFrame>)
        requires
            self.wf(),
        ensures
            r is Some <==> self.has_frame(frame as int) && !self.predicted_at(frame as int),
            r is Some ==> r.unwrap() == self.input_at(frame as int),
    {
        let n = self.entries.len();
        let mut pos: usize = 0;
        while pos < n && self.entries[pos].frame != frame
            invariant
                self.wf(),
                n == self@.len(),
                0 <= pos <= n,
                forall|i: int| 0 <= i < pos ==> (#[trigger] self@[i]).frame != frame,
            decreases n - pos,
        {
            pos = pos + 1;
        }
        if pos < n {
            let ghost idx = self.idx_of(frame as int);
            proof {
                assert(self@[pos as int].frame == frame);
                assert(0 <= idx < self@.len() && self@[idx].frame == frame);
                assert(idx == pos as int);
            }
            if self.entries[pos].predicted {
                return None;
            }
            return Some(self.entries[pos].input);
        }
        proof {
            assert(!self.has_frame(frame as int));
        }
        None
    }

    /// Drops every entry strictly before `before_frame`; used once a frame
    /// is acknowledged by all peers and will never be replayed.
    pub fn discard_confirmed_frames(&mut self, before_frame: Frame)
        requires
            old(self).wf(),
        ensures
            final(self).wf(),
            final(self).delay() == old(self).delay(),
            final(self).last_added() == old(self).last_added(),
            final(self).first_incorrect() == old(self).first_incorrect(),
            forall|g: int|
                final(self).has_frame(g) == (old(self).has_frame(g) && g >= before_frame),
            forall|g: int|
                g >= before_frame && old(self).has_frame(g) ==> final(self).input_at(g) == old(self).input_at(g) && final(self).predicted_at(g) == old(self).predicted_at(g),
    {
        let ghost pre = self@;
        let mut kept: Vec<QueueEntry> = Vec::new();
        let n = self.entries.len();
        let mut i: usize = 0;
        while i < n
            invariant
                self.wf(),
                self@ == pre,
                n == pre.len(),
                0 <= i <= n,
                kept@ == pre.subrange(0, i as int).filter(|e: QueueEntry| e.frame >= before_frame),
            decreases n - i,
        {
            let ghost prefix = pre.subrange(0, i as int);
            let e = self.entries[i];
            if e.frame >= before_frame {
                kept.push(e);
            }
            proof {
                reveal(Seq::filter);
                assert(pre.subrange(0, i + 1).drop_last() == prefix);
                assert(pre.subrange(0, i + 1).last() == pre[i as int]);
            }
            i = i + 1;
        }
        proof {
            assert(pre.subrange(0, n as int) == pre);
        }
        self.entries = kept;
        proof {
            let fin = self@;
            let pred = |e: QueueEntry| e.frame >= before_frame;
            lemma_filter_sorted(pre, pred);
            assert forall|g: int| #[trigger]
                self.has_frame(g) implies (old(self).has_frame(g) && g >= before_frame) by {
                let i = self.idx_of(g);
                assert(fin[i].frame == g);
                assert(pre.contains(fin[i]) && pred(fin[i]));
                let k = choose|k: int| 0 <= k < pre.len() && pre[k] == fin[i];
                assert(pre[k].frame == g);
            };
            assert forall|g: int|
                old(self).has_frame(g) && g >= before_frame implies self.has_frame(g)
                && self.input_at(g) == old(self).input_at(g) && self.predicted_at(g)
                == old(self).predicted_at(g) by {
                let i0 = old(self).idx_of(g);
                assert(pre[i0].frame == g && pred(pre[i0]));
                Seq::lemma_filter_contains(pre, pred, i0);
                let i = choose|i: int| 0 <= i < fin.len() && fin[i] == pre[i0];
                assert(fin[i].frame == g);
                assert(self.has_frame(g));
                let idx = self.idx_of(g);
                assert(fin[idx].frame == g);
                assert(idx == i) by {
                    assert(forall|a: int, b: int|
                        0 <= a < b < fin.len() ==> (#[trigger] fin[a]).frame < (
                        #[trigger] fin[b]).frame);
                };
            };
        }
    }

    /// Forgets every prediction at or after `frame` and clears the
    /// misprediction signal; called right before resimulation starts.
    pub fn reset_prediction(&mut self, frame: Frame)
        requires
            old(self).wf(),
        ensures
            final(self).wf(),
            final(self).delay() == old(self).delay(),
            final(self).last_added() == old(self).last_added(),
            final(self).first_incorrect() == NULL_FRAME,
            forall|g: int|
                final(self).has_frame(g) == (old(self).has_frame(g) && !(old(self).predicted_at(g)
                    && g >= frame)),
            forall|g: int|
                old(self).has_frame(g) && !(old(self).predicted_at(g) && g >= frame) ==> final(self).input_at(g) == old(self).input_at(g) && final(self).predicted_at(g) == old(self).predicted_at(g),
    {
        let ghost pre = self@;
        let mut kept: Vec<QueueEntry> = Vec::new();
        let n = self.entries.len();
        let mut i: usize = 0;
        while i < n
            invariant
                self.wf(),
                self@ == pre,
                n == pre.len(),
                0 <= i <= n,
                kept@ == pre.subrange(0, i as int).filter(
                    |e: QueueEntry| !(e.predicted && e.frame >= frame),
                ),
            decreases n - i,
        {
            let ghost prefix = pre.subrange(0, i as int);
            let e = self.entries[i];
            if !(e.predicted && e.frame >= frame) {
                kept.push(e);
            }
            proof {
                reveal(Seq::filter);
                assert(pre.subrange(0, i + 1).drop_last() == prefix);
                assert(pre.subrange(0, i + 1).last() == pre[i as int]);
            }
            i = i + 1;
        }
        proof {
            assert(pre.subrange(0, n as int) == pre);
        }
        self.entries = kept;
        self.first_incorrect_frame = NULL_FRAME;
        proof {
            let fin = self@;
            let pred = |e: QueueEntry| !(e.predicted && e.frame >= frame);
            lemma_filter_sorted(pre, pred);
            assert forall|g: int| #[trigger]
                self.has_frame(g) implies (old(self).has_frame(g) && !(old(self).predicted_at(g)
                && g >= frame)) by {
                let i = self.idx_of(g);
                assert(fin[i].frame == g);
                assert(pre.contains(fin[i]) && pred(fin[i]));
                let i0 = choose|k: int| 0 <= k < pre.len() && pre[k] == fin[i];
                assert(pre[i0].frame == g);
                assert(old(self).idx_of(g) == i0);
            };
            assert forall|g: int|
                old(self).has_frame(g) && !(old(self).predicted_at(g) && g
                    >= frame) implies self.has_frame(g) && self.input_at(g) == old(self).input_at(g) && self.predicted_at(g) == old(self).predicted_at(g) by {
                let i0 = old(self).idx_of(g);
                assert(pre[i0].frame == g && pred(pre[i0]));
                Seq::lemma_filter_contains(pre, pred, i0);
                let i = choose|i: int| 0 <= i < fin.len() && fin[i] == pre[i0];
                assert(fin[i].frame == g);
                assert(self.has_frame(g));
                let idx = self.idx_of(g);
                assert(fin[idx].frame == g);
                assert(idx == i) by {
                    assert(forall|a: int, b: int|
                        0 <= a < b < fin.len() ==> (#[trigger] fin[a]).frame < (
                        #[trigger] fin[b]).frame);
                };
            };
        }
    }
}


/// Filtering a sequence of entries that is strictly increasing by frame
/// keeps it strictly increasing, and the filtered entries are exactly the
/// original entries that satisfy the predicate.
pub proof fn lemma_filter_sorted(s: Seq<QueueEntry>, pred: spec_fn(QueueEntry) -> bool)
    requires
        forall|i: int, j: int|
            0 <= i < j < s.len() ==> (#[trigger] s[i]).frame < (#[trigger] s[j]).frame,
    ensures
        forall|i: int, j: int|
            0 <= i < j < s.filter(pred).len() ==> (#[trigger] s.filter(pred)[i]).frame < (
            #[trigger] s.filter(pred)[j]).frame,
        forall|i: int| 0 <= i < s.filter(pred).len() ==> s.contains(#[trigger] s.filter(pred)[i]),
        forall|i: int| 0 <= i < s.filter(pred).len() ==> pred(#[trigger] s.filter(pred)[i]),
        forall|k: int| 0 <= k < s.len() && pred(#[trigger] s[k]) ==> s.filter(pred).contains(s[k]),
    decreases s.len(),
{
    reveal(Seq::filter);
    let f = s.filter(pred);
    if s.len() > 0 {
        let d = s.drop_last();
        lemma_filter_sorted(d, pred);
        let df = d.filter(pred);
        assert forall|i: int| 0 <= i < f.len() implies s.contains(#[trigger] f[i]) && pred(
            f[i],
        ) by {
            if pred(s.last()) && i == f.len() - 1 {
                assert(s[s.len() - 1] == f[i]);
            } else {
                assert(f[i] == df[i]);
                assert(d.contains(df[i]) && pred(df[i]));
                let k = choose|k: int| 0 <= k < d.len() && d[k] == df[i];
                assert(d[k] == s[k]);
                assert(s[k] == f[i]);
            }
        };
        assert forall|i: int, j: int|
            0 <= i < j < f.len() implies (#[trigger] f[i]).frame < (#[trigger] f[j]).frame by {
            if pred(s.last()) && j == f.len() - 1 {
                assert(f[i] == df[i]);
                assert(d.contains(df[i]));
                let k2 = choose|k2: int| 0 <= k2 < d.len() && d[k2] == df[i];
                assert(f[j] == s.last());
                assert(d[k2] == s[k2]);
                assert(s[k2].frame < s[s.len() - 1].frame);
            } else {
                assert(f[i] == df[i] && f[j] == df[j]);
            }
        };
        assert forall|k: int|
            0 <= k < s.len() && pred(#[trigger] s[k]) implies f.contains(s[k]) by {
            if k == s.len() - 1 {
                assert(f[f.len() - 1] == s[k]);
            } else {
                assert(df.contains(d[k]));
                let i = choose|i: int| 0 <= i < df.len() && df[i] == d[k];
                assert(f[i] == s[k]);
            }
        };
    }
}


/// Frame delay shifts local input: configuring a delay of `delay` frames
/// and then adding input `value` for frame `f` makes exactly that value
/// readable at frame `f + delay`, while every frame already stored before
/// it keeps the value it had.
pub fn frame_delay_shifts_input(
    q: &mut InputQueue,
    delay: Frame,
    f: Frame,
    value: PlayerInputFrame,
) -> (r: PlayerInputFrame)
    requires
        old(q).wf(),
        delay >= 0,
        f >= 0,
        f + delay <= i32::MAX,
        f > old(q).last_added(),
        old(q)@.len() == 0 || old(q)@.last().frame < f + delay,
    ensures
        r == value,
        final(q).has_frame(f + delay),
        final(q).input_at(f + delay) == value,
        forall|g: int|
            g < f + delay && old(q).has_frame(g) ==> final(q).has_frame(g) && final(q).input_at(g)
                == old(q).input_at(g),
{
    q.set_frame_delay(delay);
    let res = q.add_input(f, value);
    let ghost mid = *q;
    proof {
        assert(res is Ok);
        let fin = mid@;
        let eff = f + delay;
        assert(fin.last().frame == eff && fin.last().input == value);
        assert(mid.has_frame(eff));
        let idx = mid.idx_of(eff);
        assert(fin[idx].frame == eff);
        assert(idx == fin.len() - 1);
        assert(mid.input_at(eff) == value);
        assert forall|g: int|
            g < eff && old(q).has_frame(g) implies mid.has_frame(g) && mid.input_at(g) == old(
            q,
        ).input_at(g) by {
            let i = old(q).idx_of(g);
            assert(old(q)@[i].frame == g);
            assert(fin[i] == old(q)@[i]);
            assert(mid.has_frame(g));
            let i2 = mid.idx_of(g);
            assert(fin[i2].frame == g);
            assert(i2 == i);
        };
    }
    let out = q.get_input(f + delay);
    proof {
        assert(q@ == mid@);
        assert forall|g: int|
            g < f + delay && old(q).has_frame(g) implies q.has_frame(g) && q.input_at(g) == old(
            q,
        ).input_at(g) by {
            InputQueue::lemma_view_congruent(mid, *q, g);
        };
        InputQueue::lemma_view_congruent(mid, *q, f + delay);
    }
    out
}

/// Prediction is corrected by confirmation: if the queue predicted some
/// value for frame `f` and the remote player then reports a different
/// true value `y`, the misprediction signal points at `f` or an earlier
/// frame, and reading frame `f` afterwards returns `y`.
pub fn correction_overrides_prediction(q: &mut InputQueue, f: Frame, y: PlayerInputFrame) -> (r:
    PlayerInputFrame)
    requires
        old(q).wf(),
        f >= 0,
        old(q).has_frame(f as int),
        old(q).predicted_at(f as int),
        old(q).input_at(f as int) != y,
    ensures
        r == y,
        final(q).first_incorrect() != NULL_FRAME,
        0 <= final(q).first_incorrect() <= f,
{
    q.add_remote_input(f, y);
    let ghost mid = *q;
    proof {
        let idx = old(q).idx_of(f as int);
        assert(mid@ == old(q)@.update(idx, QueueEntry { frame: f, input: y, predicted: false }));
        assert(mid@[idx].frame == f && mid@[idx].input == y);
        assert(mid.has_frame(f as int));
        let i2 = mid.idx_of(f as int);
        assert(mid@[i2].frame == f);
        assert(i2 == idx);
        assert(mid.input_at(f as int) == y);
    }
    let out = q.get_input(f);
    proof {
        InputQueue::lemma_view_congruent(mid, *q, f as int);
    }
    out
}

} // verus!
