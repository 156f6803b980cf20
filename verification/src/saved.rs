//! Match-level snapshot history: a bounded ring of saved match states,
//! large enough for about two seconds of frames, kept so a match can roll
//! back within that window. The ring itself comes from the `ringbuffer`
//! crate and is specified at its interface.

use vstd::prelude::*;

use ringbuffer::RingBuffer;

verus! {

/// Approximately two seconds of frames at 60 Hz.
pub const MAX_ROLLBACK_FRAMES: usize = 120;

/// What was saved of one player.
#[derive(Clone, Copy, Debug, PartialEq, Eq, Structural)]
pub struct SavedPlayerState {
}

/// One saved match state: the remaining match time, if the match is
/// timed, and one entry per occupied player slot.
#[derive(Clone, Copy, Debug)]
pub struct SavedState {
    pub time_remaining: Option<u32>,
    pub players: [Option<SavedPlayerState>; 4],
}

#[verifier::external_type_specification]
#[verifier::external_body]
#[verifier::reject_recursive_types(T)]
pub struct ExConstGenericRingBuffer<T, const CAP: usize>(
    ringbuffer::ConstGenericRingBuffer<T, CAP>,
);

/// The saved states a ring holds, oldest first.
pub uninterp spec fn ring_contents(
    ring: ringbuffer::ConstGenericRingBuffer<SavedState, MAX_ROLLBACK_FRAMES>,
) -> Seq<SavedState>;

/// Relies on ConstGenericRingBuffer::new: a fresh ring buffer holds
/// nothing (its read and write pointers coincide).
#[verifier::external_body]
fn ring_new() -> (r: ringbuffer::ConstGenericRingBuffer<SavedState, MAX_ROLLBACK_FRAMES>)
    ensures
        ring_contents(r).len() == 0,
{
    ringbuffer::ConstGenericRingBuffer::new()
}

/// Relies on RingBuffer::is_empty for ConstGenericRingBuffer: true
/// exactly when no element is stored.
#[verifier::external_body]
fn ring_is_empty(ring: &ringbuffer::ConstGenericRingBuffer<SavedState, MAX_ROLLBACK_FRAMES>) -> (r:
    bool)
    ensures
        r == (ring_contents(*ring).len() == 0),
{
    ring.is_empty()
}

/// Relies on RingBuffer::len for ConstGenericRingBuffer: the number of
/// stored elements, at most the ring's capacity.
#[verifier::external_body]
fn ring_len(ring: &ringbuffer::ConstGenericRingBuffer<SavedState, MAX_ROLLBACK_FRAMES>) -> (r:
    usize)
    ensures
        r == ring_contents(*ring).len(),
        r <= MAX_ROLLBACK_FRAMES,
{
    ring.len()
}

/// Relies on RingBuffer::enqueue for ConstGenericRingBuffer: appends the
/// value, dropping the oldest element first when the ring is full.
#[verifier::external_body]
fn ring_push(
    ring: &mut ringbuffer::ConstGenericRingBuffer<SavedState, MAX_ROLLBACK_FRAMES>,
    value: SavedState,
)
    ensures
        ring_contents(*final(ring)) == (if ring_contents(*old(ring)).len() < MAX_ROLLBACK_FRAMES {
            ring_contents(*old(ring)).push(value)
        } else {
            ring_contents(*old(ring)).drop_first().push(value)
        }),
{
    let _ = ring.enqueue(value);
}

/// Relies on RingBuffer::get for ConstGenericRingBuffer: yields nothing
/// on an empty ring; otherwise the index counts from the oldest element
/// and wraps modulo the number of stored elements.
#[verifier::external_body]
fn ring_get(
    ring: &ringbuffer::ConstGenericRingBuffer<SavedState, MAX_ROLLBACK_FRAMES>,
    index: usize,
) -> (r: Option<&SavedState>)
    ensures
        r is Some <==> ring_contents(*ring).len() > 0,
        r is Some ==> *r.unwrap() == ring_contents(*ring)[index as int % (ring_contents(
            *ring,
        ).len() as int)],
{
    ring.get(index)
}

/// The bounded history of saved match states, plus how many of them the
/// peers have acknowledged and will never need again.
pub struct SavedStates {
    last_acked_state: usize,
    states: ringbuffer::ConstGenericRingBuffer<SavedState, MAX_ROLLBACK_FRAMES>,
}

impl SavedStates {
    /// The stored states, oldest first.
    pub closed spec fn states_seq(self) -> Seq<SavedState> {
        ring_contents(self.states)
    }

    pub closed spec fn acked(self) -> usize {
        self.last_acked_state
    }

    pub fn new() -> (r: SavedStates)
        ensures
            r.states_seq().len() == 0,
            r.acked() == 0,
    {
        SavedStates { last_acked_state: 0, states: ring_new() }
    }

    /// Whether no state has been saved yet.
    pub fn is_empty(&self) -> (r: bool)
        ensures
            r == (self.states_seq().len() == 0),
    {
        ring_is_empty(&self.states)
    }

    /// How many states are retained.
    pub fn len(&self) -> (r: usize)
        ensures
            r == self.states_seq().len(),
            r <= MAX_ROLLBACK_FRAMES,
    {
        ring_len(&self.states)
    }

    /// Retains one more saved state; once the window is full the oldest
    /// one is given up for it.
    pub fn record(&mut self, state: SavedState)
        ensures
            final(self).states_seq() == (if old(self).states_seq().len() < MAX_ROLLBACK_FRAMES {
                old(self).states_seq().push(state)
            } else {
                old(self).states_seq().drop_first().push(state)
            }),
            final(self).acked() == old(self).acked(),
    {
        ring_push(&mut self.states, state);
    }

    /// The state saved `index` frames after the oldest retained one; the
    /// index wraps around the retained window, and only an empty history
    /// yields nothing.
    pub fn get(&self, index: usize) -> (r: Option<&SavedState>)
        ensures
            r is Some <==> self.states_seq().len() > 0,
            r is Some ==> *r.unwrap() == self.states_seq()[index as int % (
            self.states_seq().len() as int)],
    {
        ring_get(&self.states, index)
    }
}

} // verus!
