//! Rollback network-synchronization core for a deterministic, frame-locked
//! simulation: input queues with prediction and misprediction detection,
//! frame-advantage balancing, a per-peer connection state machine, and the
//! save/load/resimulate orchestration that keeps peers consistent.

use vstd::prelude::*;

pub mod backend;
pub mod character;
pub mod input;
pub mod input_queue;
pub mod player;
pub mod protocol;
pub mod saved;
pub mod sim;
pub mod sync;
pub mod time;
pub mod time_sync;

verus! {

/// A simulation tick counter. Frames only increase within one peer's
/// timeline, but different peers' counters may differ at any instant.
pub type Frame = i32;

/// Marks "no frame" / uninitialized frame slots.
pub const NULL_FRAME: Frame = -1;

/// Whether a frame value denotes "no frame".
pub open spec fn spec_is_null(frame: Frame) -> bool {
    frame < 0
}

pub fn is_null(frame: Frame) -> (r: bool)
    ensures
        r == spec_is_null(frame),
{
    frame < 0
}

/// The most players one match supports.
pub const MAX_PLAYERS_PER_MATCH: usize = 4;

/// Identifies a player slot inside a session.
#[derive(Clone, Copy, Debug, PartialEq, Eq, Structural)]
pub struct RollbackPlayerHandle(pub usize);

/// Everything that can go wrong inside the synchronization core.
#[derive(Clone, Copy, Debug, PartialEq, Eq, Structural)]
pub enum RollbackError {
    /// The active backend variant does not support the call.
    UnsupportedOperation,
    /// A mutating call arrived while a resimulation was executing.
    InRollback,
    /// The connection handshake has not completed yet.
    NotSynchronized,
    /// Local input ran too far ahead of the last confirmed frame.
    ReachedPredictionBarrier,
    /// An input frame did not advance past what is already stored.
    OutOfOrder,
    /// The caller passed a handle the session does not recognize.
    InvalidPlayer(RollbackPlayerHandle),
    /// The addressed player is already disconnected.
    PlayerDisconnected(RollbackPlayerHandle),
}

pub type RollbackResult<T> = Result<T, RollbackError>;

/// Link statistics reported for one remote peer.
#[derive(Clone, Copy, Debug, PartialEq, Eq, Structural)]
pub struct NetworkStats {
    pub ping: u32,
    pub send_queue_len: usize,
    pub recv_queue_len: usize,
    pub kbps_sent: u32,
    pub local_frames_behind: Frame,
    pub remote_frames_behind: Frame,
}

impl Default for NetworkStats {
    fn default() -> (r: Self)
        ensures
            r == (NetworkStats {
                ping: 0,
                send_queue_len: 0,
                recv_queue_len: 0,
                kbps_sent: 0,
                local_frames_behind: 0,
                remote_frames_behind: 0,
            }),
    {
        NetworkStats {
            ping: 0,
            send_queue_len: 0,
            recv_queue_len: 0,
            kbps_sent: 0,
            local_frames_behind: 0,
            remote_frames_behind: 0,
        }
    }
}

/// Per remote player: whether it is disconnected, and the last frame at
/// which its input is known good. Updated by the protocol layer, read by
/// the rollback orchestrator to decide when to synthesize neutral input.
#[derive(Clone, Copy, Debug, PartialEq, Eq, Structural)]
pub struct ConnectionStatus {
    pub disconnected: bool,
    pub last_frame: Frame,
}

impl Default for ConnectionStatus {
    fn default() -> (r: Self)
        ensures
            r.disconnected == false,
            r.last_frame == NULL_FRAME,
    {
        ConnectionStatus { disconnected: false, last_frame: NULL_FRAME }
    }
}

/// The host simulation contract the rollback orchestrator drives. The
/// host exposes a complete, independent snapshot of its state, restores
/// such a snapshot, and advances one deterministic frame. `Model` is the
/// mathematical value of the simulation state; determinism is captured by
/// `advance_frame` landing exactly on `step` of the prior model.
pub trait SessionCallbacks: Sized {
    /// An opaque, independently owned snapshot of the simulation.
    type State;

    /// The mathematical value of the simulation state.
    type Model;

    /// The current simulation state, as a mathematical value.
    spec fn sim(&self) -> Self::Model;

    /// The state a snapshot captures.
    spec fn snapshot_model(state: &Self::State) -> Self::Model;

    /// The checksum the host computes over a state.
    spec fn checksum_of(m: Self::Model) -> u32;

    /// One deterministic simulation step under a combined input.
    spec fn step(m: Self::Model, input: input_queue::GameInput) -> Self::Model;

    /// Takes a complete snapshot of the live state, with its checksum,
    /// without disturbing the simulation.
    fn save_state(&mut self) -> (r: (Self::State, u32))
        ensures
            final(self).sim() == old(self).sim(),
            Self::snapshot_model(&r.0) == old(self).sim(),
            r.1 == Self::checksum_of(old(self).sim()),
    ;

    /// Fully overwrites the live state with the snapshot: afterwards the
    /// simulation behaves as if it had never diverged.
    fn load_state(&mut self, state: &Self::State)
        ensures
            final(self).sim() == Self::snapshot_model(state),
    ;

    /// Advances the simulation one frame under `input`, deterministically:
    /// the outcome is a function of the prior state and the input alone.
    fn advance_frame(&mut self, input: &input_queue::GameInput)
        ensures
            final(self).sim() == Self::step(old(self).sim(), *input),
    ;
}

/// Saving, restoring that snapshot, and saving again reports the same
/// checksum twice: a snapshot is a complete copy of the state it was
/// taken from.
pub fn checksum_round_trip<C: SessionCallbacks>(host: &mut C) -> (r: (u32, u32))
    ensures
        r.0 == r.1,
{
    let (snapshot, first) = host.save_state();
    host.load_state(&snapshot);
    let (_second_snapshot, second) = host.save_state();
    (first, second)
}

} // verus!
