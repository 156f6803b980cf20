//! The session façade a host game loop drives once per tick: binds
//! players (local, remote, spectator) to the rollback orchestrator and
//! the per-peer protocol, and dispatches between backend variants.

use vstd::prelude::*;

use crate::input::PlayerInputFrame;
use crate::input_queue::GameInput;
use crate::protocol::spec_encode_inputs;
use crate::protocol::MessageData;
use crate::protocol::Peer;
use crate::sync::RollbackSync;
use crate::ConnectionStatus;
use crate::Frame;
use crate::NetworkStats;
use crate::RollbackError;
use crate::RollbackPlayerHandle;
use crate::RollbackResult;
use crate::SessionCallbacks;
use crate::MAX_PLAYERS_PER_MATCH;

verus! {

/// One participant of a session: the local player, or a remote player or
/// spectator reached through a peer connection.
pub enum RollbackPlayer {
    Local,
    Spectator(Peer),
    Remote(Peer),
}

/// How `Peer::send_input` leaves a peer: a running connection's outgoing
/// queue grows by the encoded input, any other connection is untouched.
pub open spec fn peer_forwarded(pre: Peer, post: Peer, g: GameInput) -> bool {
    &&& post.state_spec() == pre.state_spec()
    &&& if pre.state_spec() is Running {
        &&& post.outgoing().len() == pre.outgoing().len() + 1
        &&& post.outgoing().skip(1) == pre.outgoing()
        &&& (post.outgoing()[0].data matches MessageData::Input { start_frame, ref bits, .. }
            && start_frame == g.frame && bits@ == spec_encode_inputs(g))
    } else {
        post.outgoing() == pre.outgoing()
    }
}

/// How forwarding an input leaves a participant: the local player is
/// untouched; a remote player's or spectator's peer forwards it.
pub open spec fn forwarded(pre: RollbackPlayer, post: RollbackPlayer, g: GameInput) -> bool {
    match pre {
        RollbackPlayer::Local => post == pre,
        RollbackPlayer::Remote(peer) => post is Remote && peer_forwarded(peer, post->Remote_0, g),
        RollbackPlayer::Spectator(peer) => post is Spectator && peer_forwarded(
            peer,
            post->Spectator_0,
            g,
        ),
    }
}

/// How setting the disconnect timeout leaves a participant.
pub open spec fn timeout_applied(pre: RollbackPlayer, post: RollbackPlayer, t: u32) -> bool {
    match pre {
        RollbackPlayer::Local => post == pre,
        RollbackPlayer::Remote(peer) => post is Remote && post->Remote_0.timeout_spec() == t
            && post->Remote_0.state_spec() == peer.state_spec() && post->Remote_0.outgoing()
            == peer.outgoing() && post->Remote_0.incoming() == peer.incoming(),
        RollbackPlayer::Spectator(peer) => post is Spectator && post->Spectator_0.timeout_spec()
            == t && post->Spectator_0.state_spec() == peer.state_spec()
            && post->Spectator_0.outgoing() == peer.outgoing() && post->Spectator_0.incoming()
            == peer.incoming(),
    }
}

/// How setting the disconnect warning start leaves a participant.
pub open spec fn notify_start_applied(pre: RollbackPlayer, post: RollbackPlayer, t: u32) -> bool {
    match pre {
        RollbackPlayer::Local => post == pre,
        RollbackPlayer::Remote(peer) => post is Remote && post->Remote_0.notify_start_spec() == t
            && post->Remote_0.state_spec() == peer.state_spec() && post->Remote_0.outgoing()
            == peer.outgoing() && post->Remote_0.incoming() == peer.incoming(),
        RollbackPlayer::Spectator(peer) => post is Spectator && post->Spectator_0.notify_start_spec()
            == t && post->Spectator_0.state_spec() == peer.state_spec()
            && post->Spectator_0.outgoing() == peer.outgoing() && post->Spectator_0.incoming()
            == peer.incoming(),
    }
}

/// The frame a disconnecting player is cut off at: its last known-good
/// frame when that lies within the match so far, else the current frame.
pub open spec fn spec_clamped_frame(last_frame: i32, current: i32) -> i32 {
    if 0 <= last_frame <= current {
        last_frame
    } else {
        current
    }
}

/// The statistics `Peer::get_network_stats` fixes for a peer.
pub open spec fn stats_match(peer: Peer, st: NetworkStats) -> bool {
    &&& st.ping == peer.rtt()
    &&& st.send_queue_len == peer.outgoing().len()
    &&& st.recv_queue_len == peer.incoming().len()
    &&& st.local_frames_behind == peer.local_advantage()
    &&& st.remote_frames_behind == peer.remote_advantage()
}

impl RollbackPlayer {
    pub open spec fn spec_is_local(self) -> bool {
        self is Local
    }

    /// The peer connection, for remote players and spectators.
    pub fn peer(&self) -> (r: Option<&Peer>)
        ensures
            r is Some <==> !self.spec_is_local(),
            (*self) is Remote ==> *r.unwrap() == (*self)->Remote_0,
            (*self) is Spectator ==> *r.unwrap() == (*self)->Spectator_0,
    {
        match self {
            RollbackPlayer::Local => None,
            RollbackPlayer::Remote(peer) => Some(peer),
            RollbackPlayer::Spectator(peer) => Some(peer),
        }
    }

    pub fn is_local(&self) -> (r: bool)
        ensures
            r == self.spec_is_local(),
    {
        matches!(self, RollbackPlayer::Local)
    }

    /// Whether this participant holds the match up: local players always
    /// count as synchronized, remote ones once their handshake ran.
    pub fn is_synchronized(&self) -> (r: bool)
        ensures
            (*self) is Local ==> r,
            (*self) is Remote ==> r == ((*self)->Remote_0.state_spec() is Running),
            (*self) is Spectator ==> r == ((*self)->Spectator_0.state_spec() is Running),
    {
        match self {
            RollbackPlayer::Local => true,
            RollbackPlayer::Remote(peer) => peer.state().is_synchronized(),
            RollbackPlayer::Spectator(peer) => peer.state().is_synchronized(),
        }
    }

    /// Forwards local input to the peer for transmission; nothing to do
    /// for the local player itself.
    pub fn send_input(&mut self, input: &GameInput)
        requires
            input.frame >= 0,
        ensures
            final(self).spec_is_local() == old(self).spec_is_local(),
            forwarded(*old(self), *final(self), *input),
    {
        match self {
            RollbackPlayer::Local => {},
            RollbackPlayer::Remote(peer) => peer.send_input(input),
            RollbackPlayer::Spectator(peer) => peer.send_input(input),
        }
    }

    /// Tears the peer connection down; terminal for its lifecycle.
    pub fn disconnect(&mut self)
        ensures
            final(self).spec_is_local() == old(self).spec_is_local(),
            (*final(self)) is Remote ==> (*final(self))->Remote_0.state_spec() is Disconnected,
            (*final(self)) is Spectator ==> (*final(self))->Spectator_0.state_spec() is Disconnected,
    {
        match self {
            RollbackPlayer::Local => {},
            RollbackPlayer::Remote(peer) => peer.disconnect(),
            RollbackPlayer::Spectator(peer) => peer.disconnect(),
        }
    }

    pub fn set_disconnect_timeout(&mut self, timeout: u32)
        ensures
            final(self).spec_is_local() == old(self).spec_is_local(),
            timeout_applied(*old(self), *final(self), timeout),
    {
        match self {
            RollbackPlayer::Local => {},
            RollbackPlayer::Remote(peer) => peer.set_disconnect_timeout(timeout),
            RollbackPlayer::Spectator(peer) => peer.set_disconnect_timeout(timeout),
        }
    }

    pub fn set_disconnect_notify_start(&mut self, timeout: u32)
        ensures
            final(self).spec_is_local() == old(self).spec_is_local(),
            notify_start_applied(*old(self), *final(self), timeout),
    {
        match self {
            RollbackPlayer::Local => {},
            RollbackPlayer::Remote(peer) => peer.set_disconnect_notify_start(timeout),
            RollbackPlayer::Spectator(peer) => peer.set_disconnect_notify_start(timeout),
        }
    }

    /// Link statistics, for participants that have a link.
    pub fn get_network_stats(&self) -> (r: Option<NetworkStats>)
        ensures
            r is Some <==> !self.spec_is_local(),
            (*self) is Remote ==> stats_match((*self)->Remote_0, r.unwrap()),
            (*self) is Spectator ==> stats_match((*self)->Spectator_0, r.unwrap()),
    {
        match self {
            RollbackPlayer::Local => None,
            RollbackPlayer::Remote(peer) => Some(peer.get_network_stats()),
            RollbackPlayer::Spectator(peer) => Some(peer.get_network_stats()),
        }
    }
}

/// The peer-to-peer session: the orchestrator plus one participant entry
/// per player slot.
pub struct P2PBackend<C: SessionCallbacks> {
    sync: RollbackSync<C>,
    players: Vec<RollbackPlayer>,
    synchronizing: bool,
    next_recommended_sleep: u32,
    disconnect_timeout: u32,
    disconnect_notify_start: u32,
}

impl<C: SessionCallbacks> P2PBackend<C> {
    pub closed spec fn sync_spec(self) -> RollbackSync<C> {
        self.sync
    }

    pub closed spec fn players_spec(self) -> Seq<RollbackPlayer> {
        self.players@
    }

    pub closed spec fn is_synchronizing(self) -> bool {
        self.synchronizing
    }

    pub closed spec fn disconnect_timeout_spec(self) -> u32 {
        self.disconnect_timeout
    }

    pub closed spec fn disconnect_notify_start_spec(self) -> u32 {
        self.disconnect_notify_start
    }

    /// Every participant holds the match up no longer: each is local, has
    /// completed its handshake, or is already disconnected.
    pub open spec fn all_participants_ready(self) -> bool {
        forall|i: int|
            0 <= i < self.players_spec().len() ==> ((#[trigger] self.players_spec()[i]) is Local
                || (self.players_spec()[i] is Remote && self.players_spec()[i]->Remote_0.state_spec()
                is Running) || (self.players_spec()[i] is Spectator && self.players_spec()[
                i
            ]->Spectator_0.state_spec() is Running) || self.sync_spec().statuses()[i].disconnected)
    }

    /// The orchestrator is well formed and there is at most one
    /// participant entry per player slot.
    pub open spec fn wf(self) -> bool {
        &&& self.sync_spec().wf()
        &&& self.sync_spec().slots_distinct()
        &&& self.players_spec().len() <= self.sync_spec().players()
    }

    /// A new session for `player_count` players driving `callbacks`,
    /// initially synchronizing (players still have to be added and their
    /// handshakes completed). Both disconnect timeouts start at zero —
    /// disabled until the host configures them through the setters.
    pub fn new(callbacks: C, player_count: usize, max_prediction_frames: Frame) -> (r: P2PBackend<
        C,
    >)
        requires
            1 <= player_count <= MAX_PLAYERS_PER_MATCH,
            1 <= max_prediction_frames <= crate::sync::MAX_PREDICTION_WINDOW,
        ensures
            r.wf(),
            r.is_synchronizing(),
            r.players_spec().len() == 0,
            r.sync_spec().players() == player_count,
            r.sync_spec().frame() == 0,
            r.sync_spec().sim() == callbacks.sim(),
            r.sync_spec().last_confirmed() == crate::NULL_FRAME,
            !r.sync_spec().is_rolling_back(),
            r.disconnect_timeout_spec() == 0,
            r.disconnect_notify_start_spec() == 0,
            forall|i: int|
                0 <= i < r.sync_spec().players() ==> (#[trigger] r.sync_spec().statuses()[
                    i
                ]).disconnected == false && r.sync_spec().statuses()[i].last_frame
                    == crate::NULL_FRAME,
            r.sync_spec().ring_aligned(),
    {
        P2PBackend {
            sync: RollbackSync::new(callbacks, player_count, max_prediction_frames),
            players: Vec::new(),
            synchronizing: true,
            next_recommended_sleep: 0,
            disconnect_timeout: 0,
            disconnect_notify_start: 0,
        }
    }

    pub fn player_count(&self) -> (r: usize)
        requires
            self.wf(),
        ensures
            r == self.sync_spec().players(),
    {
        self.sync.player_count()
    }

    /// Registers the next participant and hands back its handle.
    pub fn add_player(&mut self, player: RollbackPlayer) -> (r: RollbackResult<
        RollbackPlayerHandle,
    >)
        requires
            old(self).wf(),
        ensures
            final(self).wf(),
            final(self).sync_spec() == old(self).sync_spec(),
            old(self).players_spec().len() < old(self).sync_spec().players() ==> r
                == RollbackResult::<RollbackPlayerHandle>::Ok(
                RollbackPlayerHandle(old(self).players_spec().len() as usize),
            ) && final(self).players_spec() == old(self).players_spec().push(player),
            old(self).players_spec().len() >= old(self).sync_spec().players() ==> r
                == RollbackResult::<RollbackPlayerHandle>::Err(RollbackError::UnsupportedOperation)
                && final(self).players_spec() == old(self).players_spec(),
    {
        if self.players.len() >= self.sync.player_count() {
            return Err(RollbackError::UnsupportedOperation);
        }
        let handle = RollbackPlayerHandle(self.players.len());
        self.players.push(player);
        Ok(handle)
    }

    fn player_handle_to_queue(&self, player: RollbackPlayerHandle) -> (r: RollbackResult<usize>)
        requires
            self.wf(),
        ensures
            r is Ok <==> player.0 < self.players_spec().len(),
            r is Ok ==> r.unwrap() == player.0,
            r is Err ==> r.unwrap_err() == RollbackError::InvalidPlayer(player),
    {
        if player.0 >= self.players.len() {
            return Err(RollbackError::InvalidPlayer(player));
        }
        Ok(player.0)
    }

    /// Accepts this tick's local input and broadcasts it to every remote
    /// participant. Refused while resimulating, while the handshake is
    /// incomplete, and at the prediction barrier.
    pub fn add_local_input(&mut self, player: RollbackPlayerHandle, input: PlayerInputFrame) -> (r:
        RollbackResult<()>)
        requires
            old(self).wf(),
            player.0 < old(self).players_spec().len() ==> old(self).sync_spec().frame() + old(self).sync_spec().queues()[player.0 as int].delay() <= i32::MAX,
        ensures
            final(self).wf(),
            old(self).sync_spec().is_rolling_back() ==> r == RollbackResult::<()>::Err(
                RollbackError::InRollback,
            ) && *final(self) == *old(self),
            !old(self).sync_spec().is_rolling_back() && old(self).is_synchronizing() ==> r
                == RollbackResult::<()>::Err(RollbackError::NotSynchronized) && *final(self)
                == *old(self),
            !old(self).sync_spec().is_rolling_back() && !old(self).is_synchronizing() && player.0
                >= old(self).players_spec().len() ==> r == RollbackResult::<()>::Err(
                RollbackError::InvalidPlayer(player),
            ) && *final(self) == *old(self),
            !old(self).sync_spec().is_rolling_back() && !old(self).is_synchronizing() && player.0
                < old(self).players_spec().len() && old(self).sync_spec().at_prediction_barrier()
                ==> r == RollbackResult::<()>::Err(RollbackError::ReachedPredictionBarrier),
            final(self).sync_spec().frame() == old(self).sync_spec().frame(),
            final(self).sync_spec().sim() == old(self).sync_spec().sim(),
            final(self).is_synchronizing() == old(self).is_synchronizing(),
            r is Ok <==> (!old(self).sync_spec().is_rolling_back() && !old(self).is_synchronizing()
                && player.0 < old(self).players_spec().len() && !old(self).sync_spec().at_prediction_barrier()
                && !(old(self).sync_spec().frame() <= old(self).sync_spec().queues()[
                player.0 as int
            ].last_added() || (old(self).sync_spec().queues()[player.0 as int]@.len() > 0 && old(self).sync_spec().frame() + old(self).sync_spec().queues()[player.0 as int].delay()
                <= old(self).sync_spec().queues()[player.0 as int]@.last().frame))),
            r is Ok ==> {
                let q = old(self).sync_spec().queues()[player.0 as int];
                let eff = old(self).sync_spec().frame() + q.delay();
                &&& final(self).sync_spec().queues()[player.0 as int]@ == q@.push(
                    crate::input_queue::QueueEntry { frame: eff as i32, input, predicted: false },
                )
                &&& final(self).sync_spec().queues()[player.0 as int].last_added() == old(self).sync_spec().frame()
                &&& (forall|i: int|
                    0 <= i < old(self).sync_spec().players() && i != player.0 ==> final(self).sync_spec().queues()[i] == old(self).sync_spec().queues()[i])
                &&& final(self).sync_spec().statuses()[player.0 as int].last_frame == (if eff > old(self).sync_spec().statuses()[player.0 as int].last_frame {
                    eff as i32
                } else {
                    old(self).sync_spec().statuses()[player.0 as int].last_frame
                })
                &&& final(self).players_spec().len() == old(self).players_spec().len()
                &&& exists|g: GameInput|
                    g.frame == eff && g.inputs@.len() == 4 && (forall|k: int|
                        0 <= k < 4 ==> g.inputs@[k] == input) && (forall|i: int|
                        0 <= i < old(self).players_spec().len() ==> forwarded(
                            #[trigger] old(self).players_spec()[i],
                            final(self).players_spec()[i],
                            g,
                        ))
            },
    {
        if self.sync.in_rollback() {
            return Err(RollbackError::InRollback);
        }
        if self.synchronizing {
            return Err(RollbackError::NotSynchronized);
        }
        let queue = match self.player_handle_to_queue(player) {
            Ok(q) => q,
            Err(e) => {
                return Err(e);
            },
        };
        let frame = match self.sync.add_local_input(queue, input) {
            Ok(f) => f,
            Err(e) => {
                return Err(e);
            },
        };
        let status = self.sync.connection_status(queue);
        if frame > status.last_frame {
            self.sync.set_connection_status(
                queue,
                ConnectionStatus { disconnected: status.disconnected, last_frame: frame },
            );
        }
        let ghost mid = *self;
        if frame >= 0 {
            let broadcast = GameInput { frame, inputs: [input, input, input, input] };
            proof {
                assert(broadcast.inputs@[0] == input && broadcast.inputs@[1] == input
                    && broadcast.inputs@[2] == input && broadcast.inputs@[3] == input);
            }
            let n = self.players.len();
            let mut i: usize = 0;
            while i < n
                invariant
                    n == self.players_spec().len(),
                    n == mid.players_spec().len(),
                    0 <= i <= n,
                    broadcast.frame >= 0,
                    self.wf(),
                    self.sync_spec() == mid.sync_spec(),
                    self.is_synchronizing() == mid.is_synchronizing(),
                    forall|q: int| i <= q < n ==> self.players_spec()[q] == mid.players_spec()[q],
                    forall|q: int|
                        0 <= q < i ==> forwarded(
                            #[trigger] mid.players_spec()[q],
                            self.players_spec()[q],
                            broadcast,
                        ),
                decreases n - i,
            {
                self.players[i].send_input(&broadcast);
                i = i + 1;
            }
        }
        Ok(())
    }

    /// The combined input for the current frame plus the disconnect
    /// bitmask; refused until every participant's handshake completed.
    pub fn sync_input(&mut self) -> (r: RollbackResult<(GameInput, u32)>)
        requires
            old(self).wf(),
        ensures
            final(self).wf(),
            old(self).is_synchronizing() ==> r == RollbackResult::<(GameInput, u32)>::Err(
                RollbackError::NotSynchronized,
            ) && *final(self) == *old(self),
            !old(self).is_synchronizing() ==> r is Ok && {
                let (g, mask) = r.unwrap();
                &&& g.frame == old(self).sync_spec().frame()
                &&& mask == old(self).sync_spec().disconnect_mask(
                    old(self).sync_spec().frame() as int,
                )
                &&& old(self).sync_spec().is_combined_input(
                    old(self).sync_spec().frame() as int,
                    g,
                )
            },
            final(self).sync_spec().frame() == old(self).sync_spec().frame(),
            final(self).sync_spec().sim() == old(self).sync_spec().sim(),
    {
        if self.synchronizing {
            return Err(RollbackError::NotSynchronized);
        }
        let frame = self.sync.frame_count();
        let (input, mask) = self.sync.synchronize_inputs(frame);
        Ok((input, mask))
    }

    /// Records input reported by a remote player for `frame`: stores it
    /// in that player's queue (never rejecting out-of-order arrival) and
    /// advances the last frame that player's input is known good for.
    pub fn add_remote_input(&mut self, player: RollbackPlayerHandle, frame: Frame, input:
        PlayerInputFrame) -> (r: RollbackResult<()>)
        requires
            old(self).wf(),
        ensures
            final(self).wf(),
            r is Ok <==> player.0 < old(self).players_spec().len(),
            r is Err ==> *final(self) == *old(self) && r.unwrap_err()
                == RollbackError::InvalidPlayer(player),
            r is Ok ==> crate::input_queue::InputQueue::after_remote_add(
                old(self).sync_spec().queues()[player.0 as int],
                frame,
                input,
                final(self).sync_spec().queues()[player.0 as int],
            ),
            r is Ok ==> final(self).sync_spec().statuses()[player.0 as int].last_frame == (if frame
                > old(self).sync_spec().statuses()[player.0 as int].last_frame {
                frame
            } else {
                old(self).sync_spec().statuses()[player.0 as int].last_frame
            }),
            final(self).sync_spec().frame() == old(self).sync_spec().frame(),
            final(self).sync_spec().sim() == old(self).sync_spec().sim(),
    {
        let queue = match self.player_handle_to_queue(player) {
            Ok(q) => q,
            Err(e) => {
                return Err(e);
            },
        };
        self.sync.add_remote_input(queue, frame, input);
        let status = self.sync.connection_status(queue);
        if frame > status.last_frame {
            self.sync.set_connection_status(
                queue,
                ConnectionStatus { disconnected: status.disconnected, last_frame: frame },
            );
        }
        Ok(())
    }

    /// The earliest frame every player's input is known good for, or
    /// `NULL_FRAME` when some player has not reported any.
    pub open spec fn min_known_good_upto(self, n: int) -> Frame
        decreases n,
    {
        if n <= 0 {
            i32::MAX
        } else {
            let rest = self.min_known_good_upto(n - 1);
            let lf = self.sync_spec().statuses()[n - 1].last_frame;
            if lf < rest {
                lf
            } else {
                rest
            }
        }
    }

    /// Housekeeping run once per tick: advances the confirmed-frame
    /// watermark to the earliest frame every player's input is known good
    /// for, and lifts the initial synchronization gate once every remote
    /// participant has completed its handshake or is disconnected.
    pub fn do_poll(&mut self, _timeout: u32) -> (r: RollbackResult<()>)
        requires
            old(self).wf(),
        ensures
            final(self).wf(),
            r is Ok,
            final(self).players_spec().len() == old(self).players_spec().len(),
            final(self).sync_spec().frame() == old(self).sync_spec().frame(),
            final(self).sync_spec().sim() == old(self).sync_spec().sim(),
            final(self).sync_spec().statuses() == old(self).sync_spec().statuses(),
            old(self).min_known_good_upto(old(self).sync_spec().players()) >= 0 && old(self).min_known_good_upto(old(self).sync_spec().players()) < i32::MAX ==> final(self).sync_spec().last_confirmed() == old(self).min_known_good_upto(
                old(self).sync_spec().players(),
            ),
            final(self).is_synchronizing() == (old(self).is_synchronizing() && !old(self).all_participants_ready()),
    {
        let n = self.sync.player_count();
        let mut min_frame: Frame = i32::MAX;
        let mut q: usize = 0;
        while q < n
            invariant
                old(self).wf(),
                self == old(self),
                n == self.sync_spec().players(),
                0 <= q <= n,
                min_frame == self.min_known_good_upto(q as int),
            decreases n - q,
        {
            let status = self.sync.connection_status(q);
            if status.last_frame < min_frame {
                min_frame = status.last_frame;
            }
            q = q + 1;
        }
        if min_frame >= 0 && min_frame < i32::MAX {
            self.sync.set_last_confirmed_frame(min_frame);
        }
        self.check_initial_sync();
        Ok(())
    }

    /// Advances the host one frame under the combined input this tick's
    /// `sync_input` produced.
    pub fn advance_frame(&mut self, input: &GameInput)
        requires
            old(self).wf(),
        ensures
            final(self).wf(),
            final(self).sync_spec().sim() == C::step(old(self).sync_spec().sim(), *input),
            final(self).sync_spec().frame() == old(self).sync_spec().frame(),
            final(self).players_spec() == old(self).players_spec(),
            final(self).is_synchronizing() == old(self).is_synchronizing(),
    {
        self.sync.advance_frame(input);
    }

    /// The host this session drives, for reading its state.
    pub fn callbacks(&self) -> (r: &C)
        ensures
            *r == self.sync_spec().host(),
    {
        self.sync.callbacks()
    }

    /// Ends the tick: saves the advanced frame into the snapshot ring.
    pub fn increment_frame(&mut self) -> (r: RollbackResult<()>)
        requires
            old(self).wf(),
            old(self).sync_spec().ring_aligned(),
            old(self).sync_spec().frame() < i32::MAX,
        ensures
            final(self).wf(),
            r is Ok,
            final(self).sync_spec().frame() == old(self).sync_spec().frame() + 1,
            final(self).sync_spec().sim() == old(self).sync_spec().sim(),
            final(self).sync_spec().ring_aligned(),
    {
        self.sync.increment_frame();
        Ok(())
    }

    /// Disconnects a participant; a handle already disconnected is a
    /// caller error. A remote player is cut off at its last known-good
    /// frame (the current frame when none within the match is known),
    /// rolling the match back to it if the present has already run past
    /// it; disconnecting the local player instead cuts off every other
    /// participant at the current frame, ending the match for everyone
    /// else.
    #[verifier::rlimit(100)]
    pub fn disconnect_player(&mut self, player: RollbackPlayerHandle) -> (r: RollbackResult<()>)
        requires
            old(self).wf(),
            forall|q: int|
                0 <= q < old(self).sync_spec().players() ==> {
                    let lf = (#[trigger] old(self).sync_spec().statuses()[q]).last_frame;
                    0 <= lf < old(self).sync_spec().frame() ==> old(self).sync_spec().has_slot_for(
                        lf as int,
                    )
                },
            old(self).sync_spec().has_slot_for(old(self).sync_spec().frame() as int) || old(self).sync_spec().frame() == 0,
        ensures
            final(self).wf(),
            r is Err <==> (player.0 >= old(self).players_spec().len() || old(self).sync_spec().statuses()[player.0 as int].disconnected),
            player.0 >= old(self).players_spec().len() ==> r == RollbackResult::<()>::Err(
                RollbackError::InvalidPlayer(player),
            ),
            player.0 < old(self).players_spec().len() && old(self).sync_spec().statuses()[
                player.0 as int
            ].disconnected ==> r == RollbackResult::<()>::Err(
                RollbackError::PlayerDisconnected(player),
            ) && *final(self) == *old(self),
            final(self).sync_spec().frame() == old(self).sync_spec().frame(),
            r is Ok && !old(self).players_spec()[player.0 as int].spec_is_local() ==> final(self).sync_spec().statuses() == old(self).sync_spec().statuses().update(
                player.0 as int,
                ConnectionStatus {
                    disconnected: true,
                    last_frame: spec_clamped_frame(
                        old(self).sync_spec().statuses()[player.0 as int].last_frame,
                        old(self).sync_spec().frame(),
                    ),
                },
            ),
            r is Ok && !old(self).players_spec()[player.0 as int].spec_is_local()
                && spec_clamped_frame(
                old(self).sync_spec().statuses()[player.0 as int].last_frame,
                old(self).sync_spec().frame(),
            ) < old(self).sync_spec().frame() ==> final(self).sync_spec().head() == (
            crate::sync::slot_index(
                old(self).sync_spec().saved(),
                spec_clamped_frame(
                    old(self).sync_spec().statuses()[player.0 as int].last_frame,
                    old(self).sync_spec().frame(),
                ) as int,
            ) + 1) % (old(self).sync_spec().saved().len() as int),
            r is Ok && !old(self).players_spec()[player.0 as int].spec_is_local()
                && spec_clamped_frame(
                old(self).sync_spec().statuses()[player.0 as int].last_frame,
                old(self).sync_spec().frame(),
            ) < old(self).sync_spec().frame() ==> forall|p: int|
                0 <= p < old(self).sync_spec().players() ==> (#[trigger] final(self).sync_spec().queues()[p]).first_incorrect() == crate::NULL_FRAME,
            r is Ok && !old(self).players_spec()[player.0 as int].spec_is_local()
                && spec_clamped_frame(
                old(self).sync_spec().statuses()[player.0 as int].last_frame,
                old(self).sync_spec().frame(),
            ) < old(self).sync_spec().frame() ==> {
                let syncto = spec_clamped_frame(
                    old(self).sync_spec().statuses()[player.0 as int].last_frame,
                    old(self).sync_spec().frame(),
                );
                let st_seq = old(self).sync_spec().statuses().update(
                    player.0 as int,
                    ConnectionStatus { disconnected: true, last_frame: syncto },
                );
                let m0 = C::snapshot_model(
                    &old(self).sync_spec().saved()[crate::sync::slot_index(
                        old(self).sync_spec().saved(),
                        syncto as int,
                    )].data.unwrap(),
                );
                (forall|f: int|
                    syncto <= f < old(self).sync_spec().frame() ==> crate::sync::all_confirmed(
                        st_seq,
                        old(self).sync_spec().queues(),
                        old(self).sync_spec().players(),
                        f,
                    )) ==> final(self).sync_spec().sim() == crate::sync::replay::<C>(
                    m0,
                    Seq::new(
                        (old(self).sync_spec().frame() - syncto) as nat,
                        |k: int| crate::sync::combined_of(
                            st_seq,
                            old(self).sync_spec().queues(),
                            old(self).sync_spec().players(),
                            syncto + k,
                        ),
                    ),
                )
            },
            r is Ok && old(self).players_spec()[player.0 as int].spec_is_local() ==> forall|q: int|
                0 <= q < old(self).players_spec().len() && q != player.0 && !(#[trigger] old(self).players_spec()[q]).spec_is_local() ==> final(self).sync_spec().statuses()[q]
                    == (ConnectionStatus {
                    disconnected: true,
                    last_frame: old(self).sync_spec().frame(),
                }),
    {
        let queue = match self.player_handle_to_queue(player) {
            Ok(q) => q,
            Err(e) => {
                return Err(e);
            },
        };
        let status = self.sync.connection_status(queue);
        if status.disconnected {
            return Err(RollbackError::PlayerDisconnected(player));
        }
        let current_frame = self.sync.frame_count();
        if self.players[queue].is_local() {
            // a local disconnect ends the match for everyone else
            let n = self.players.len();
            let mut i: usize = 0;
            while i < n
                invariant
                    n == self.players_spec().len(),
                    0 <= i <= n,
                    player.0 < n,
                    player.0 == queue,
                    self.wf(),
                    current_frame == self.sync_spec().frame(),
                    current_frame == old(self).sync_spec().frame(),
                    current_frame >= 0,
                    self.sync_spec().has_slot_for(current_frame as int) || current_frame == 0,
                    self.players_spec()[player.0 as int].spec_is_local(),
                    old(self).wf(),
                    player.0 < old(self).players_spec().len(),
                    !old(self).sync_spec().statuses()[player.0 as int].disconnected,
                    n == old(self).players_spec().len(),
                    self.sync_spec().players() == old(self).sync_spec().players(),
                    forall|q: int|
                        0 <= q < n ==> (#[trigger] self.players_spec()[q]).spec_is_local() == old(self).players_spec()[q].spec_is_local(),
                    forall|q: int|
                        0 <= q < i && !(#[trigger] old(self).players_spec()[q]).spec_is_local()
                            ==> self.sync_spec().statuses()[q] == (ConnectionStatus {
                            disconnected: true,
                            last_frame: current_frame,
                        }),
                    forall|q: int|
                        i <= q < n ==> (#[trigger] self.sync_spec().statuses()[q]) == old(self).sync_spec().statuses()[q],
                decreases n - i,
            {
                if !self.players[i].is_local() {
                    self.disconnect_player_queue(i, current_frame);
                }
                i = i + 1;
            }
        } else {
            let last_frame = if status.last_frame >= 0 && status.last_frame <= current_frame {
                status.last_frame
            } else {
                current_frame
            };
            self.disconnect_player_queue(queue, last_frame);
        }
        Ok(())
    }

    /// Cuts one queue off at `syncto`: marks it disconnected there and, if
    /// the present already ran past that frame, rolls the match back to it
    /// so replay proceeds without further input from that player.
    fn disconnect_player_queue(&mut self, queue: usize, syncto: Frame)
        requires
            old(self).wf(),
            queue < old(self).players_spec().len(),
            0 <= syncto,
            syncto < old(self).sync_spec().frame() ==> old(self).sync_spec().has_slot_for(
                syncto as int,
            ),
            syncto <= old(self).sync_spec().frame(),
        ensures
            final(self).wf(),
            final(self).players_spec().len() == old(self).players_spec().len(),
            final(self).sync_spec().frame() == old(self).sync_spec().frame(),
            final(self).sync_spec().statuses() == old(self).sync_spec().statuses().update(
                queue as int,
                ConnectionStatus { disconnected: true, last_frame: syncto },
            ),
            final(self).sync_spec().saved() == old(self).sync_spec().saved(),
            final(self).is_synchronizing() ==> old(self).is_synchronizing(),
            forall|i: int|
                0 <= i < old(self).players_spec().len() && i != queue ==> final(self).players_spec()[i] == old(self).players_spec()[i],
            final(self).players_spec()[queue as int].spec_is_local() == old(self).players_spec()[
                queue as int
            ].spec_is_local(),
            syncto < old(self).sync_spec().frame() ==> forall|p: int|
                0 <= p < old(self).sync_spec().players() ==> (#[trigger] final(self).sync_spec().queues()[p]).first_incorrect() == crate::NULL_FRAME,
            syncto == old(self).sync_spec().frame() ==> final(self).sync_spec().sim() == old(self).sync_spec().sim(),
            syncto < old(self).sync_spec().frame() ==> {
                let st = old(self).sync_spec().statuses().update(
                    queue as int,
                    ConnectionStatus { disconnected: true, last_frame: syncto },
                );
                let slot = crate::sync::slot_index(old(self).sync_spec().saved(), syncto as int);
                let m0 = C::snapshot_model(
                    &old(self).sync_spec().saved()[slot].data.unwrap(),
                );
                &&& final(self).sync_spec().head() == (slot + 1) % (old(self).sync_spec().saved().len() as int)
                &&& (forall|f: int|
                    syncto <= f < old(self).sync_spec().frame() ==> crate::sync::all_confirmed(
                        st,
                        old(self).sync_spec().queues(),
                        old(self).sync_spec().players(),
                        f,
                    )) ==> final(self).sync_spec().sim() == crate::sync::replay::<C>(
                    m0,
                    Seq::new(
                        (old(self).sync_spec().frame() - syncto) as nat,
                        |k: int| crate::sync::combined_of(
                            st,
                            old(self).sync_spec().queues(),
                            old(self).sync_spec().players(),
                            syncto + k,
                        ),
                    ),
                )
            },
    {
        self.players[queue].disconnect();
        self.sync.set_connection_status(
            queue,
            ConnectionStatus { disconnected: true, last_frame: syncto },
        );
        let ghost s1 = self.sync_spec();
        if syncto < self.sync.frame_count() {
            self.sync.adjust_simulation(syncto);
            proof {
                let st = old(self).sync_spec().statuses().update(
                    queue as int,
                    ConnectionStatus { disconnected: true, last_frame: syncto },
                );
                assert(s1.statuses() == st);
                assert(s1.queues() == old(self).sync_spec().queues());
                assert(s1.saved() == old(self).sync_spec().saved());
                assert(s1.players() == old(self).sync_spec().players());
                let count = (old(self).sync_spec().frame() - syncto) as nat;
                assert(Seq::new(count, |k: int| s1.combined_input_at(syncto + k)) =~= Seq::new(
                    count,
                    |k: int| crate::sync::combined_of(
                        st,
                        old(self).sync_spec().queues(),
                        old(self).sync_spec().players(),
                        syncto + k,
                    ),
                ));
            }
        }
        self.check_initial_sync();
    }

    /// Once every remote participant is either synchronized or already
    /// disconnected, the session stops refusing input.
    fn check_initial_sync(&mut self)
        requires
            old(self).wf(),
        ensures
            final(self).wf(),
            final(self).sync_spec() == old(self).sync_spec(),
            final(self).players_spec() == old(self).players_spec(),
            final(self).is_synchronizing() == (old(self).is_synchronizing() && !old(self).all_participants_ready()),
    {
        if self.synchronizing {
            let n = self.players.len();
            let mut i: usize = 0;
            let mut all_ready = true;
            while i < n
                invariant
                    n == self.players_spec().len(),
                    0 <= i <= n,
                    self.wf(),
                    self == old(self),
                    all_ready == (forall|q: int|
                        0 <= q < i ==> ((#[trigger] self.players_spec()[q]) is Local || (
                        self.players_spec()[q] is Remote && self.players_spec()[
                            q
                        ]->Remote_0.state_spec() is Running) || (self.players_spec()[q] is Spectator
                            && self.players_spec()[q]->Spectator_0.state_spec() is Running)
                            || self.sync_spec().statuses()[q].disconnected)),
                decreases n - i,
            {
                let ready = if self.players[i].is_local() {
                    true
                } else if self.players[i].is_synchronized() {
                    true
                } else {
                    proof {
                        assert(i < self.sync_spec().players());
                    }
                    let st = self.sync.connection_status(i);
                    st.disconnected
                };
                if !ready {
                    all_ready = false;
                }
                i = i + 1;
            }
            if all_ready {
                self.synchronizing = false;
            }
        }
    }

    pub fn get_network_stats(&self, player: RollbackPlayerHandle) -> (r: RollbackResult<
        NetworkStats,
    >)
        requires
            self.wf(),
        ensures
            r is Ok <==> player.0 < self.players_spec().len(),
            r is Err ==> r.unwrap_err() == RollbackError::InvalidPlayer(player),
            r is Ok && self.players_spec()[player.0 as int] is Local ==> r.unwrap()
                == (NetworkStats {
                ping: 0,
                send_queue_len: 0,
                recv_queue_len: 0,
                kbps_sent: 0,
                local_frames_behind: 0,
                remote_frames_behind: 0,
            }),
            r is Ok && self.players_spec()[player.0 as int] is Remote ==> stats_match(
                self.players_spec()[player.0 as int]->Remote_0,
                r.unwrap(),
            ),
            r is Ok && self.players_spec()[player.0 as int] is Spectator ==> stats_match(
                self.players_spec()[player.0 as int]->Spectator_0,
                r.unwrap(),
            ),
    {
        let queue = match self.player_handle_to_queue(player) {
            Ok(q) => q,
            Err(e) => {
                return Err(e);
            },
        };
        match self.players[queue].get_network_stats() {
            Some(stats) => Ok(stats),
            None => Ok(NetworkStats::default()),
        }
    }

    /// Configures one player's local input delay.
    pub fn set_frame_delay(&mut self, player: RollbackPlayerHandle, delay: Frame) -> (r:
        RollbackResult<()>)
        requires
            old(self).wf(),
            delay >= 0,
        ensures
            final(self).wf(),
            r is Ok <==> player.0 < old(self).players_spec().len(),
            r is Ok ==> final(self).sync_spec().queues()[player.0 as int].delay() == delay,
            r is Err ==> *final(self) == *old(self) && r.unwrap_err()
                == RollbackError::InvalidPlayer(player),
    {
        let queue = match self.player_handle_to_queue(player) {
            Ok(q) => q,
            Err(e) => {
                return Err(e);
            },
        };
        self.sync.set_frame_delay(queue, delay);
        Ok(())
    }

    pub fn set_disconnect_timeout(&mut self, timeout: u32) -> (r: RollbackResult<()>)
        requires
            old(self).wf(),
        ensures
            final(self).wf(),
            r is Ok,
            final(self).disconnect_timeout_spec() == timeout,
            final(self).players_spec().len() == old(self).players_spec().len(),
            forall|q: int|
                0 <= q < old(self).players_spec().len() ==> timeout_applied(
                    #[trigger] old(self).players_spec()[q],
                    final(self).players_spec()[q],
                    timeout,
                ),
            final(self).sync_spec() == old(self).sync_spec(),
            final(self).is_synchronizing() == old(self).is_synchronizing(),
    {
        self.disconnect_timeout = timeout;
        let ghost mid = *self;
        let n = self.players.len();
        let mut i: usize = 0;
        while i < n
            invariant
                n == self.players_spec().len(),
                n == mid.players_spec().len(),
                0 <= i <= n,
                self.wf(),
                self.sync_spec() == mid.sync_spec(),
                self.is_synchronizing() == mid.is_synchronizing(),
                self.disconnect_timeout_spec() == timeout,
                forall|q: int| i <= q < n ==> self.players_spec()[q] == mid.players_spec()[q],
                forall|q: int|
                    0 <= q < i ==> timeout_applied(
                        #[trigger] mid.players_spec()[q],
                        self.players_spec()[q],
                        timeout,
                    ),
            decreases n - i,
        {
            if !self.players[i].is_local() {
                self.players[i].set_disconnect_timeout(timeout);
            }
            i = i + 1;
        }
        Ok(())
    }

    pub fn set_disconnect_notify_start(&mut self, timeout: u32) -> (r: RollbackResult<()>)
        requires
            old(self).wf(),
        ensures
            final(self).wf(),
            r is Ok,
            final(self).disconnect_notify_start_spec() == timeout,
            final(self).players_spec().len() == old(self).players_spec().len(),
            forall|q: int|
                0 <= q < old(self).players_spec().len() ==> notify_start_applied(
                    #[trigger] old(self).players_spec()[q],
                    final(self).players_spec()[q],
                    timeout,
                ),
            final(self).sync_spec() == old(self).sync_spec(),
            final(self).is_synchronizing() == old(self).is_synchronizing(),
    {
        self.disconnect_notify_start = timeout;
        let ghost mid = *self;
        let n = self.players.len();
        let mut i: usize = 0;
        while i < n
            invariant
                n == self.players_spec().len(),
                n == mid.players_spec().len(),
                0 <= i <= n,
                self.wf(),
                self.sync_spec() == mid.sync_spec(),
                self.is_synchronizing() == mid.is_synchronizing(),
                self.disconnect_notify_start_spec() == timeout,
                forall|q: int| i <= q < n ==> self.players_spec()[q] == mid.players_spec()[q],
                forall|q: int|
                    0 <= q < i ==> notify_start_applied(
                        #[trigger] mid.players_spec()[q],
                        self.players_spec()[q],
                        timeout,
                    ),
            decreases n - i,
        {
            if !self.players[i].is_local() {
                self.players[i].set_disconnect_notify_start(timeout);
            }
            i = i + 1;
        }
        Ok(())
    }
}

/// A session backend without peers: drives the host purely locally, for
/// checking that a simulation stays deterministic.
pub struct SyncTestBackend {
}

/// The backend variants a session can run as; calls a variant does not
/// support are refused with `UnsupportedOperation`.
pub enum Backend<C: SessionCallbacks> {
    P2P(P2PBackend<C>),
    SyncTest(SyncTestBackend),
}

impl<C: SessionCallbacks> Backend<C> {
    pub open spec fn p2p_wf(self) -> bool {
        self is P2P ==> self->P2P_0.wf()
    }

    pub fn add_player(&mut self, player: RollbackPlayer) -> (r: RollbackResult<
        RollbackPlayerHandle,
    >)
        requires
            old(self).p2p_wf(),
        ensures
            final(self).p2p_wf(),
            ((*final(self)) is P2P) == ((*old(self)) is P2P),
            !((*old(self)) is P2P) ==> r == RollbackResult::<RollbackPlayerHandle>::Err(
                RollbackError::UnsupportedOperation,
            ) && *final(self) == *old(self),
            (*old(self)) is P2P ==> {
                let p0 = (*old(self))->P2P_0;
                let p1 = (*final(self))->P2P_0;
                &&& p1.sync_spec() == p0.sync_spec()
                &&& (p0.players_spec().len() < p0.sync_spec().players() ==> r == RollbackResult::<
                    RollbackPlayerHandle,
                >::Ok(RollbackPlayerHandle(p0.players_spec().len() as usize)) && p1.players_spec()
                    == p0.players_spec().push(player))
                &&& (p0.players_spec().len() >= p0.sync_spec().players() ==> r == RollbackResult::<
                    RollbackPlayerHandle,
                >::Err(RollbackError::UnsupportedOperation) && p1.players_spec()
                    == p0.players_spec())
            },
    {
        match self {
            Backend::P2P(p2p) => p2p.add_player(player),
            _ => Err(RollbackError::UnsupportedOperation),
        }
    }

    pub fn add_local_input(&mut self, player: RollbackPlayerHandle, input: PlayerInputFrame) -> (r:
        RollbackResult<()>)
        requires
            old(self).p2p_wf(),
            (*old(self)) is P2P && player.0 < (*old(self))->P2P_0.players_spec().len() ==> (*old(self))->P2P_0.sync_spec().frame() + (*old(self))->P2P_0.sync_spec().queues()[
                player.0 as int
            ].delay() <= i32::MAX,
        ensures
            final(self).p2p_wf(),
            ((*final(self)) is P2P) == ((*old(self)) is P2P),
            !((*old(self)) is P2P) ==> r == RollbackResult::<()>::Err(
                RollbackError::UnsupportedOperation,
            ) && *final(self) == *old(self),
            (*old(self)) is P2P ==> {
                let p0 = (*old(self))->P2P_0;
                let p1 = (*final(self))->P2P_0;
                &&& (p0.sync_spec().is_rolling_back() ==> r == RollbackResult::<()>::Err(
                    RollbackError::InRollback,
                ) && p1 == p0)
                &&& (!p0.sync_spec().is_rolling_back() && p0.is_synchronizing() ==> r
                    == RollbackResult::<()>::Err(RollbackError::NotSynchronized) && p1 == p0)
                &&& (!p0.sync_spec().is_rolling_back() && !p0.is_synchronizing() && player.0
                    >= p0.players_spec().len() ==> r == RollbackResult::<()>::Err(
                    RollbackError::InvalidPlayer(player),
                ) && p1 == p0)
                &&& (!p0.sync_spec().is_rolling_back() && !p0.is_synchronizing() && player.0
                    < p0.players_spec().len() && p0.sync_spec().at_prediction_barrier() ==> r
                    == RollbackResult::<()>::Err(RollbackError::ReachedPredictionBarrier))
                &&& p1.sync_spec().frame() == p0.sync_spec().frame()
                &&& p1.sync_spec().sim() == p0.sync_spec().sim()
                &&& p1.is_synchronizing() == p0.is_synchronizing()
                &&& (r is Ok ==> {
                    let q = p0.sync_spec().queues()[player.0 as int];
                    let eff = p0.sync_spec().frame() + q.delay();
                    &&& p1.sync_spec().queues()[player.0 as int]@ == q@.push(
                        crate::input_queue::QueueEntry {
                            frame: eff as i32,
                            input,
                            predicted: false,
                        },
                    )
                    &&& exists|g: GameInput|
                        g.frame == eff && g.inputs@.len() == 4 && (forall|k: int|
                            0 <= k < 4 ==> g.inputs@[k] == input) && (forall|i: int|
                            0 <= i < p0.players_spec().len() ==> forwarded(
                                #[trigger] p0.players_spec()[i],
                                p1.players_spec()[i],
                                g,
                            ))
                })
            },
    {
        match self {
            Backend::P2P(p2p) => p2p.add_local_input(player, input),
            _ => Err(RollbackError::UnsupportedOperation),
        }
    }

    pub fn sync_input(&mut self) -> (r: RollbackResult<(GameInput, u32)>)
        requires
            old(self).p2p_wf(),
        ensures
            final(self).p2p_wf(),
            ((*final(self)) is P2P) == ((*old(self)) is P2P),
            !((*old(self)) is P2P) ==> r == RollbackResult::<(GameInput, u32)>::Err(
                RollbackError::UnsupportedOperation,
            ) && *final(self) == *old(self),
            (*old(self)) is P2P ==> {
                let p0 = (*old(self))->P2P_0;
                let p1 = (*final(self))->P2P_0;
                &&& (p0.is_synchronizing() ==> r == RollbackResult::<(GameInput, u32)>::Err(
                    RollbackError::NotSynchronized,
                ) && p1 == p0)
                &&& (!p0.is_synchronizing() ==> r is Ok && {
                    let (g, mask) = r.unwrap();
                    &&& g.frame == p0.sync_spec().frame()
                    &&& mask == p0.sync_spec().disconnect_mask(p0.sync_spec().frame() as int)
                    &&& p0.sync_spec().is_combined_input(p0.sync_spec().frame() as int, g)
                })
                &&& p1.sync_spec().frame() == p0.sync_spec().frame()
                &&& p1.sync_spec().sim() == p0.sync_spec().sim()
            },
    {
        match self {
            Backend::P2P(p2p) => p2p.sync_input(),
            _ => Err(RollbackError::UnsupportedOperation),
        }
    }

    pub fn increment_frame(&mut self) -> (r: RollbackResult<()>)
        requires
            old(self).p2p_wf(),
            (*old(self)) is P2P ==> (*old(self))->P2P_0.sync_spec().ring_aligned() && (*old(self))->P2P_0.sync_spec().frame() < i32::MAX,
        ensures
            final(self).p2p_wf(),
            ((*final(self)) is P2P) == ((*old(self)) is P2P),
            r is Ok,
            !((*old(self)) is P2P) ==> *final(self) == *old(self),
            (*old(self)) is P2P ==> {
                let p0 = (*old(self))->P2P_0;
                let p1 = (*final(self))->P2P_0;
                &&& p1.sync_spec().frame() == p0.sync_spec().frame() + 1
                &&& p1.sync_spec().sim() == p0.sync_spec().sim()
                &&& p1.sync_spec().ring_aligned()
            },
    {
        match self {
            Backend::P2P(p2p) => p2p.increment_frame(),
            _ => Ok(()),
        }
    }

    pub fn disconnect_player(&mut self, player: RollbackPlayerHandle) -> (r: RollbackResult<()>)
        requires
            old(self).p2p_wf(),
            (*old(self)) is P2P ==> (forall|q: int|
                0 <= q < (*old(self))->P2P_0.sync_spec().players() ==> {
                    let lf = (#[trigger] (*old(self))->P2P_0.sync_spec().statuses()[q]).last_frame;
                    0 <= lf < (*old(self))->P2P_0.sync_spec().frame() ==> (*old(self))->P2P_0.sync_spec().has_slot_for(lf as int)
                }) && ((*old(self))->P2P_0.sync_spec().has_slot_for(
                (*old(self))->P2P_0.sync_spec().frame() as int,
            ) || (*old(self))->P2P_0.sync_spec().frame() == 0),
        ensures
            final(self).p2p_wf(),
            ((*final(self)) is P2P) == ((*old(self)) is P2P),
            !((*old(self)) is P2P) ==> r == RollbackResult::<()>::Err(
                RollbackError::UnsupportedOperation,
            ) && *final(self) == *old(self),
            (*old(self)) is P2P ==> {
                let p0 = (*old(self))->P2P_0;
                let p1 = (*final(self))->P2P_0;
                &&& (r is Err <==> (player.0 >= p0.players_spec().len() || p0.sync_spec().statuses()[player.0 as int].disconnected))
                &&& (player.0 >= p0.players_spec().len() ==> r == RollbackResult::<()>::Err(
                    RollbackError::InvalidPlayer(player),
                ))
                &&& (player.0 < p0.players_spec().len() && p0.sync_spec().statuses()[
                    player.0 as int
                ].disconnected ==> r == RollbackResult::<()>::Err(
                    RollbackError::PlayerDisconnected(player),
                ) && p1 == p0)
                &&& p1.sync_spec().frame() == p0.sync_spec().frame()
                &&& (r is Ok && !p0.players_spec()[player.0 as int].spec_is_local()
                    ==> p1.sync_spec().statuses() == p0.sync_spec().statuses().update(
                    player.0 as int,
                    ConnectionStatus {
                        disconnected: true,
                        last_frame: spec_clamped_frame(
                            p0.sync_spec().statuses()[player.0 as int].last_frame,
                            p0.sync_spec().frame(),
                        ),
                    },
                ))
                &&& (r is Ok && p0.players_spec()[player.0 as int].spec_is_local() ==> forall|
                    q: int,
                |
                    0 <= q < p0.players_spec().len() && q != player.0 && !(
                    #[trigger] p0.players_spec()[q]).spec_is_local() ==> p1.sync_spec().statuses()[
                        q
                    ] == (ConnectionStatus {
                        disconnected: true,
                        last_frame: p0.sync_spec().frame(),
                    }))
            },
    {
        match self {
            Backend::P2P(p2p) => p2p.disconnect_player(player),
            _ => Err(RollbackError::UnsupportedOperation),
        }
    }

    pub fn get_network_stats(&self, player: RollbackPlayerHandle) -> (r: RollbackResult<
        NetworkStats,
    >)
        requires
            self.p2p_wf(),
        ensures
            !((*self) is P2P) ==> r == RollbackResult::<NetworkStats>::Err(
                RollbackError::UnsupportedOperation,
            ),
            (*self) is P2P ==> {
                let p0 = (*self)->P2P_0;
                &&& (r is Ok <==> player.0 < p0.players_spec().len())
                &&& (r is Err ==> r.unwrap_err() == RollbackError::InvalidPlayer(player))
                &&& (r is Ok && p0.players_spec()[player.0 as int] is Remote ==> stats_match(
                    p0.players_spec()[player.0 as int]->Remote_0,
                    r.unwrap(),
                ))
                &&& (r is Ok && p0.players_spec()[player.0 as int] is Spectator ==> stats_match(
                    p0.players_spec()[player.0 as int]->Spectator_0,
                    r.unwrap(),
                ))
            },
    {
        match self {
            Backend::P2P(p2p) => p2p.get_network_stats(player),
            _ => Err(RollbackError::UnsupportedOperation),
        }
    }

    pub fn set_frame_delay(&mut self, player: RollbackPlayerHandle, delay: Frame) -> (r:
        RollbackResult<()>)
        requires
            old(self).p2p_wf(),
            delay >= 0,
        ensures
            final(self).p2p_wf(),
            ((*final(self)) is P2P) == ((*old(self)) is P2P),
            !((*old(self)) is P2P) ==> r == RollbackResult::<()>::Err(
                RollbackError::UnsupportedOperation,
            ) && *final(self) == *old(self),
            (*old(self)) is P2P ==> {
                let p0 = (*old(self))->P2P_0;
                let p1 = (*final(self))->P2P_0;
                &&& (r is Ok <==> player.0 < p0.players_spec().len())
                &&& (r is Ok ==> p1.sync_spec().queues()[player.0 as int].delay() == delay)
                &&& (r is Err ==> p1 == p0 && r.unwrap_err() == RollbackError::InvalidPlayer(
                    player,
                ))
            },
    {
        match self {
            Backend::P2P(p2p) => p2p.set_frame_delay(player, delay),
            _ => Err(RollbackError::UnsupportedOperation),
        }
    }

    pub fn set_disconnect_timeout(&mut self, timeout: u32) -> (r: RollbackResult<()>)
        requires
            old(self).p2p_wf(),
        ensures
            final(self).p2p_wf(),
            ((*final(self)) is P2P) == ((*old(self)) is P2P),
            !((*old(self)) is P2P) ==> r == RollbackResult::<()>::Err(
                RollbackError::UnsupportedOperation,
            ) && *final(self) == *old(self),
            (*old(self)) is P2P ==> r is Ok && {
                let p0 = (*old(self))->P2P_0;
                let p1 = (*final(self))->P2P_0;
                &&& p1.disconnect_timeout_spec() == timeout
                &&& p1.players_spec().len() == p0.players_spec().len()
                &&& (forall|q: int|
                    0 <= q < p0.players_spec().len() ==> timeout_applied(
                        #[trigger] p0.players_spec()[q],
                        p1.players_spec()[q],
                        timeout,
                    ))
            },
    {
        match self {
            Backend::P2P(p2p) => p2p.set_disconnect_timeout(timeout),
            _ => Err(RollbackError::UnsupportedOperation),
        }
    }

    pub fn set_disconnect_notify_start(&mut self, timeout: u32) -> (r: RollbackResult<()>)
        requires
            old(self).p2p_wf(),
        ensures
            final(self).p2p_wf(),
            ((*final(self)) is P2P) == ((*old(self)) is P2P),
            !((*old(self)) is P2P) ==> r == RollbackResult::<()>::Err(
                RollbackError::UnsupportedOperation,
            ) && *final(self) == *old(self),
            (*old(self)) is P2P ==> r is Ok && {
                let p0 = (*old(self))->P2P_0;
                let p1 = (*final(self))->P2P_0;
                &&& p1.disconnect_notify_start_spec() == timeout
                &&& p1.players_spec().len() == p0.players_spec().len()
                &&& (forall|q: int|
                    0 <= q < p0.players_spec().len() ==> notify_start_applied(
                        #[trigger] p0.players_spec()[q],
                        p1.players_spec()[q],
                        timeout,
                    ))
            },
    {
        match self {
            Backend::P2P(p2p) => p2p.set_disconnect_notify_start(timeout),
            _ => Err(RollbackError::UnsupportedOperation),
        }
    }
}

} // verus!
