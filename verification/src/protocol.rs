//! Per-remote-endpoint connection lifecycle and wire message vocabulary:
//! the synchronization handshake, input packets with their byte encoding,
//! quality reports and acknowledgements, and timeout-driven disconnection.

use std::collections::VecDeque;
use vstd::prelude::*;

use crate::input::Axis1D;
use crate::input::Axis2D;
use crate::input::Buttons;
use crate::input::PlayerInputFrame;
use crate::input_queue::GameInput;
use crate::ConnectionStatus;
use crate::Frame;
use crate::NetworkStats;

verus! {

/// Round trips the handshake completes before a peer counts as
/// synchronized.
pub const NUM_SYNC_ROUNDTRIPS: u32 = 5;

/// Where a remote connection stands in its lifecycle. `Disconnected` is
/// terminal: the peer must be recreated to reconnect.
#[derive(Clone, Copy, Debug, PartialEq, Eq, Structural)]
pub enum PeerState {
    Syncing { roundtrips_remaining: u32, random: u32 },
    Synchronized,
    Running {
        last_quality_report_time: u32,
        last_network_stats_interval: u32,
        last_input_packet_recv_time: u32,
    },
    Disconnected,
}

impl PeerState {
    /// Whether the connection has completed its handshake and is live.
    pub fn is_synchronized(&self) -> (r: bool)
        ensures
            r == (*self is Running),
    {
        matches!(*self, PeerState::Running { .. })
    }
}

impl Default for PeerState {
    fn default() -> (r: Self)
        ensures
            r == (PeerState::Syncing { roundtrips_remaining: 0u32, random: 0u32 }),
    {
        PeerState::Syncing { roundtrips_remaining: 0, random: 0 }
    }
}

/// One framed message on the wire.
#[derive(Clone, Debug)]
pub struct Message {
    pub magic: u16,
    pub sequence_number: u16,
    pub data: MessageData,
}

/// Everything a peer can say to another.
#[derive(Clone, Debug)]
pub enum MessageData {
    KeepAlive,
    SyncRequest { random_request: u32, remote_magic: u16, remote_endpoint: u8 },
    SyncReply { random_reply: u32 },
    Input {
        peer_connect_status: [ConnectionStatus; 8],
        start_frame: u32,
        ack_frame: u32,
        bits: Vec<u8>,
    },
    QualityReport { frame_advantage: i8, ping: u32 },
    QualityReply { pong: u32 },
    InputAck { ack_frame: u32 },
}

/// Connection events surfaced to the session layer.
#[derive(Clone, Debug)]
pub enum Event {
    Connected,
    Synchronizing { total: i32, count: i32 },
    Synchronized,
    Input { input: GameInput },
    Disconnected,
    NetworkInterrupted { disconnect_timeout: i32 },
    NetworkResumed,
}

/// An ordered queue of framed messages awaiting processing.
#[derive(Clone, Debug)]
pub struct MessageQueue(pub VecDeque<Message>);

impl MessageQueue {
    pub fn new() -> (r: MessageQueue)
        ensures
            r.0@.len() == 0,
    {
        MessageQueue(VecDeque::new())
    }

    /// Enqueues a message at the front.
    pub fn send(&mut self, msg: Message)
        ensures
            final(self).0@ == old(self).0@.insert(0, msg),
    {
        self.0.push_front(msg);
    }

    /// Dequeues the oldest message, from the back.
    pub fn recieve(&mut self) -> (r: Option<Message>)
        ensures
            old(self).0@.len() == 0 ==> r is None && final(self).0@ == old(self).0@,
            old(self).0@.len() > 0 ==> r is Some && r.unwrap() == old(self).0@.last() && final(self).0@ == old(self).0@.drop_last(),
    {
        let r = self.0.pop_back();
        proof {
            if old(self).0@.len() > 0 {
                assert(self.0@ =~= old(self).0@.drop_last());
            }
        }
        r
    }

    pub fn len(&self) -> (r: usize)
        ensures
            r == self.0@.len(),
    {
        self.0.len()
    }
}

/// The byte an axis value is sent as: offset binary, so -128 maps to 0
/// and 127 maps to 255.
pub open spec fn spec_encode_axis(v: i8) -> u8 {
    ((v + 128) as u8)
}

/// The five bytes one player's input is sent as.
pub open spec fn spec_encode_player(p: PlayerInputFrame) -> Seq<u8> {
    seq![
        spec_encode_axis(p.movement.x.0),
        spec_encode_axis(p.movement.y.0),
        spec_encode_axis(p.smash.x.0),
        spec_encode_axis(p.smash.y.0),
        p.buttons.bits,
    ]
}

/// The byte encoding of all four players' inputs for one frame.
pub open spec fn spec_encode_inputs(g: GameInput) -> Seq<u8> {
    spec_encode_player(g.inputs@[0]) + spec_encode_player(g.inputs@[1]) + spec_encode_player(
        g.inputs@[2],
    ) + spec_encode_player(g.inputs@[3])
}

/// Appends the five-byte encoding of one player's input.
fn encode_player_input(p: &PlayerInputFrame, out: &mut Vec<u8>)
    ensures
        final(out)@ == old(out)@ + spec_encode_player(*p),
{
    out.push(((p.movement.x.0 as i16) + 128) as u8);
    out.push(((p.movement.y.0 as i16) + 128) as u8);
    out.push(((p.smash.x.0 as i16) + 128) as u8);
    out.push(((p.smash.y.0 as i16) + 128) as u8);
    out.push(p.buttons.bits);
    proof {
        assert(out@ =~= old(out)@ + spec_encode_player(*p));
    }
}

/// Encodes all four players' inputs into the `bits` field of an input
/// message.
pub fn encode_game_input(g: &GameInput) -> (r: Vec<u8>)
    ensures
        r@ == spec_encode_inputs(*g),
        r@.len() == 20,
{
    let mut out: Vec<u8> = Vec::new();
    encode_player_input(&g.inputs[0], &mut out);
    encode_player_input(&g.inputs[1], &mut out);
    encode_player_input(&g.inputs[2], &mut out);
    encode_player_input(&g.inputs[3], &mut out);
    proof {
        assert(out@ =~= spec_encode_inputs(*g));
    }
    out
}

/// Decodes five bytes back into one player's input.
fn decode_player_input(bits: &Vec<u8>, offset: usize) -> (r: PlayerInputFrame)
    requires
        offset + 5 <= bits@.len(),
        bits@.len() == 20,
    ensures
        spec_encode_player(r) == bits@.subrange(offset as int, offset + 5),
{
    let r = PlayerInputFrame {
        movement: Axis2D {
            x: Axis1D(((bits[offset] as i16) - 128) as i8),
            y: Axis1D(((bits[offset + 1] as i16) - 128) as i8),
        },
        smash: Axis2D {
            x: Axis1D(((bits[offset + 2] as i16) - 128) as i8),
            y: Axis1D(((bits[offset + 3] as i16) - 128) as i8),
        },
        buttons: Buttons { bits: bits[offset + 4] },
    };
    proof {
        assert(spec_encode_player(r) =~= bits@.subrange(offset as int, offset + 5));
    }
    r
}

/// Decodes an input message's 20 payload bytes into the combined input
/// for `frame`. Returns `None` for a malformed (wrongly sized) payload:
/// such a message is dropped, never fatal.
pub fn decode_game_input(frame: Frame, bits: &Vec<u8>) -> (r: Option<GameInput>)
    ensures
        r is Some <==> bits@.len() == 20,
        r is Some ==> r.unwrap().frame == frame && spec_encode_inputs(r.unwrap()) == bits@,
{
    if bits.len() != 20 {
        return None;
    }
    let g = GameInput {
        frame,
        inputs: [
            decode_player_input(bits, 0),
            decode_player_input(bits, 5),
            decode_player_input(bits, 10),
            decode_player_input(bits, 15),
        ],
    };
    proof {
        assert(spec_encode_inputs(g) =~= bits@);
    }
    Some(g)
}

/// Encoding inputs and decoding them again restores every player's input
/// exactly.
pub fn input_encoding_round_trip(g: &GameInput) -> (r: GameInput)
    ensures
        r.frame == g.frame,
        forall|p: int| 0 <= p < 4 ==> r.inputs@[p] == g.inputs@[p],
{
    let bits = encode_game_input(g);
    let decoded = decode_game_input(g.frame, &bits);
    match decoded {
        Some(out) => {
            proof {
                assert(spec_encode_inputs(out) == spec_encode_inputs(*g));
                assert forall|p: int| 0 <= p < 4 implies out.inputs@[p] == g.inputs@[p] by {
                    lemma_player_encoding_injective(out, *g, p);
                };
            }
            out
        },
        None => {
            proof {
                assert(false);
            }
            GameInput::neutral(0)
        },
    }
}

/// Two combined inputs with the same byte encoding hold the same input
/// for every player.
proof fn lemma_player_encoding_injective(a: GameInput, b: GameInput, p: int)
    requires
        0 <= p < 4,
        spec_encode_inputs(a) == spec_encode_inputs(b),
        a.inputs@.len() == 4,
        b.inputs@.len() == 4,
    ensures
        a.inputs@[p] == b.inputs@[p],
{
    let ea = spec_encode_inputs(a);
    let eb = spec_encode_inputs(b);
    let pa = a.inputs@[p];
    let pb = b.inputs@[p];
    assert forall|j: int| 0 <= j < 5 implies spec_encode_player(pa)[j] == spec_encode_player(
        pb,
    )[j] by {
        assert(ea[p * 5 + j] == spec_encode_player(pa)[j]);
        assert(eb[p * 5 + j] == spec_encode_player(pb)[j]);
    };
    assert(spec_encode_axis(pa.movement.x.0) == spec_encode_axis(pb.movement.x.0));
    assert(pa.movement.x.0 == pb.movement.x.0);
    assert(pa.movement.y.0 == pb.movement.y.0);
    assert(pa.smash.x.0 == pb.smash.x.0);
    assert(pa.smash.y.0 == pb.smash.y.0);
    assert(pa.buttons.bits == pb.buttons.bits);
    assert(pa.movement == pb.movement && pa.smash == pb.smash && pa.buttons == pb.buttons);
}


/// One remote endpoint: its connection lifecycle, its message queues, and
/// the link statistics reported for it. Wall-clock instants come in as
/// plain millisecond values supplied by the caller.
pub struct Peer {
    incoming_messages: MessageQueue,
    outgoing_messages: MessageQueue,
    state: PeerState,
    magic: u16,
    next_sequence: u16,
    disconnect_timeout: u32,
    disconnect_notify_start: u32,
    round_trip_time: u32,
    kbps_sent: u32,
    local_frame_advantage: Frame,
    remote_frame_advantage: Frame,
}

impl Peer {
    pub closed spec fn state_spec(self) -> PeerState {
        self.state
    }

    pub closed spec fn outgoing(self) -> Seq<Message> {
        self.outgoing_messages.0@
    }

    pub closed spec fn incoming(self) -> Seq<Message> {
        self.incoming_messages.0@
    }

    pub closed spec fn rtt(self) -> u32 {
        self.round_trip_time
    }

    pub closed spec fn local_advantage(self) -> Frame {
        self.local_frame_advantage
    }

    pub closed spec fn remote_advantage(self) -> Frame {
        self.remote_frame_advantage
    }

    pub closed spec fn timeout_spec(self) -> u32 {
        self.disconnect_timeout
    }

    pub closed spec fn notify_start_spec(self) -> u32 {
        self.disconnect_notify_start
    }

    /// A fresh peer, about to start its handshake with `random` as its
    /// sync token. The token is whatever source of randomness the caller
    /// has; the protocol only ever compares it for equality.
    pub fn new(magic: u16, random: u32) -> (r: Peer)
        ensures
            r.state_spec() == (PeerState::Syncing {
                roundtrips_remaining: NUM_SYNC_ROUNDTRIPS,
                random,
            }),
            r.outgoing().len() == 0,
            r.incoming().len() == 0,
    {
        Peer {
            incoming_messages: MessageQueue::new(),
            outgoing_messages: MessageQueue::new(),
            state: PeerState::Syncing { roundtrips_remaining: NUM_SYNC_ROUNDTRIPS, random },
            magic,
            next_sequence: 0,
            disconnect_timeout: 0,
            disconnect_notify_start: 0,
            round_trip_time: 0,
            kbps_sent: 0,
            local_frame_advantage: 0,
            remote_frame_advantage: 0,
        }
    }

    pub fn state(&self) -> (r: &PeerState)
        ensures
            *r == self.state_spec(),
    {
        &self.state
    }

    fn push_outgoing(&mut self, data: MessageData)
        ensures
            final(self).outgoing().len() == old(self).outgoing().len() + 1,
            final(self).outgoing()[0].data == data,
            final(self).outgoing().skip(1) == old(self).outgoing(),
            final(self).state_spec() == old(self).state_spec(),
            final(self).incoming() == old(self).incoming(),
            final(self).rtt() == old(self).rtt(),
            final(self).local_advantage() == old(self).local_advantage(),
            final(self).remote_advantage() == old(self).remote_advantage(),
            final(self).timeout_spec() == old(self).timeout_spec(),
            final(self).notify_start_spec() == old(self).notify_start_spec(),
    {
        let sequence_number = self.next_sequence;
        self.next_sequence = if self.next_sequence == 0xffff {
            0
        } else {
            self.next_sequence + 1
        };
        let magic = self.magic;
        self.outgoing_messages.send(Message { magic, sequence_number, data });
        proof {
            assert(self.outgoing().skip(1) =~= old(self).outgoing());
        }
    }

    /// Starts (or restarts) the handshake by asking the remote side to
    /// echo this peer's sync token.
    pub fn synchronize(&mut self)
        requires
            old(self).state_spec() is Syncing,
        ensures
            final(self).state_spec() == old(self).state_spec(),
            final(self).outgoing().len() == old(self).outgoing().len() + 1,
            final(self).outgoing()[0].data == (MessageData::SyncRequest {
                random_request: old(self).state_spec()->Syncing_random,
                remote_magic: 0u16,
                remote_endpoint: 0u8,
            }),
    {
        let random: u32 = match &self.state {
            PeerState::Syncing { random, .. } => *random,
            _ => 0,
        };
        self.push_outgoing(
            MessageData::SyncRequest { random_request: random, remote_magic: 0, remote_endpoint: 0 },
        );
    }

    /// Enqueues input for transmission once the connection is running;
    /// before that the input is dropped, as the remote side could not
    /// place it anyway.
    pub fn send_input(&mut self, input: &GameInput)
        requires
            input.frame >= 0,
        ensures
            final(self).state_spec() == old(self).state_spec(),
            !(old(self).state_spec() is Running) ==> final(self).outgoing() == old(self).outgoing(),
            old(self).state_spec() is Running ==> {
                &&& final(self).outgoing().len() == old(self).outgoing().len() + 1
                &&& final(self).outgoing().skip(1) == old(self).outgoing()
                &&& (final(self).outgoing()[0].data matches MessageData::Input {
                    start_frame,
                    ref bits,
                    ..
                } && start_frame == input.frame && bits@ == spec_encode_inputs(*input))
            },
    {
        if !self.state.is_synchronized() {
            return ;
        }
        let bits = encode_game_input(input);
        let status: [ConnectionStatus; 8] = [
            ConnectionStatus::default(),
            ConnectionStatus::default(),
            ConnectionStatus::default(),
            ConnectionStatus::default(),
            ConnectionStatus::default(),
            ConnectionStatus::default(),
            ConnectionStatus::default(),
            ConnectionStatus::default(),
        ];
        self.push_outgoing(
            MessageData::Input {
                peer_connect_status: status,
                start_frame: input.frame as u32,
                ack_frame: 0,
                bits,
            },
        );
    }

    /// Acknowledges everything received up to `ack_frame`.
    pub fn send_input_ack(&mut self, ack_frame: u32)
        ensures
            final(self).state_spec() == old(self).state_spec(),
            final(self).outgoing().len() == old(self).outgoing().len() + 1,
            final(self).outgoing()[0].data == (MessageData::InputAck { ack_frame }),
    {
        self.push_outgoing(MessageData::InputAck { ack_frame });
    }

    /// Hands a message received from the transport to the peer.
    pub fn enqueue_incoming(&mut self, msg: Message)
        ensures
            final(self).incoming() == old(self).incoming().insert(0, msg),
            final(self).state_spec() == old(self).state_spec(),
            final(self).outgoing() == old(self).outgoing(),
    {
        self.incoming_messages.send(msg);
    }

    /// The next message to put on the wire, oldest first.
    pub fn dequeue_outgoing(&mut self) -> (r: Option<Message>)
        ensures
            final(self).state_spec() == old(self).state_spec(),
            final(self).incoming() == old(self).incoming(),
            old(self).outgoing().len() == 0 ==> r is None && final(self).outgoing() == old(
                self,
            ).outgoing(),
            old(self).outgoing().len() > 0 ==> r is Some && r.unwrap() == old(
                self,
            ).outgoing().last() && final(self).outgoing() == old(self).outgoing().drop_last(),
    {
        self.outgoing_messages.recieve()
    }

    /// Runs the connection state machine on one received message at time
    /// `now` (milliseconds). Malformed or out-of-protocol messages are
    /// dropped without effect; timeout is the only path to
    /// `Disconnected`, so no message produces that state here.
    pub fn handle_message(&mut self, msg: &Message, now: u32) -> (r: Option<Event>)
        ensures
            final(self).timeout_spec() == old(self).timeout_spec(),
            final(self).incoming() == old(self).incoming(),
            old(self).state_spec() is Disconnected ==> *final(self) == *old(self) && r is None,
            !(old(self).state_spec() is Disconnected) ==> match msg.data {
                MessageData::KeepAlive => *final(self) == *old(self) && r is None,
                MessageData::InputAck { .. } => *final(self) == *old(self) && r is None,
                MessageData::SyncRequest { random_request, .. } => {
                    &&& final(self).state_spec() == old(self).state_spec()
                    &&& final(self).outgoing().len() == old(self).outgoing().len() + 1
                    &&& final(self).outgoing()[0].data == (MessageData::SyncReply {
                        random_reply: random_request,
                    })
                    &&& r is None
                },
                MessageData::SyncReply { random_reply } => match old(self).state_spec() {
                    PeerState::Syncing { roundtrips_remaining, random } => {
                        if random_reply != random {
                            *final(self) == *old(self) && r is None
                        } else if roundtrips_remaining <= 1 {
                            &&& final(self).state_spec() == (PeerState::Running {
                                last_quality_report_time: now,
                                last_network_stats_interval: now,
                                last_input_packet_recv_time: now,
                            })
                            &&& final(self).outgoing() == old(self).outgoing()
                            &&& (r matches Some(Event::Synchronized))
                        } else {
                            &&& final(self).state_spec() == (PeerState::Syncing {
                                roundtrips_remaining: (roundtrips_remaining - 1) as u32,
                                random,
                            })
                            &&& final(self).outgoing().len() == old(self).outgoing().len() + 1
                            &&& (r matches Some(Event::Synchronizing { total, count } )
                                && total == NUM_SYNC_ROUNDTRIPS && count == (
                            if roundtrips_remaining >= NUM_SYNC_ROUNDTRIPS {
                                1int
                            } else {
                                NUM_SYNC_ROUNDTRIPS - roundtrips_remaining + 1
                            }))
                        }
                    },
                    _ => *final(self) == *old(self) && r is None,
                },
                MessageData::Input { start_frame, ref bits, .. } => {
                    if old(self).state_spec() is Running && bits@.len() == 20 && start_frame
                        <= i32::MAX {
                        &&& (r matches Some(Event::Input { input }) && input.frame == start_frame
                            && spec_encode_inputs(input) == bits@)
                        &&& (final(self).state_spec() matches PeerState::Running {
                            last_input_packet_recv_time,
                            ..
                        } && last_input_packet_recv_time == now)
                        &&& final(self).outgoing() == old(self).outgoing()
                    } else {
                        *final(self) == *old(self) && r is None
                    }
                },
                MessageData::QualityReport { frame_advantage, ping } => {
                    &&& final(self).remote_advantage() == frame_advantage as i32
                    &&& final(self).state_spec() == old(self).state_spec()
                    &&& final(self).outgoing().len() == old(self).outgoing().len() + 1
                    &&& final(self).outgoing()[0].data == (MessageData::QualityReply { pong: ping })
                    &&& r is None
                },
                MessageData::QualityReply { pong } => {
                    &&& final(self).rtt() == (if now >= pong {
                        (now - pong) as u32
                    } else {
                        0u32
                    })
                    &&& final(self).state_spec() == old(self).state_spec()
                    &&& final(self).outgoing() == old(self).outgoing()
                    &&& r is None
                },
            },
    {
        if matches!(self.state, PeerState::Disconnected) {
            return None;
        }
        match &msg.data {
            MessageData::KeepAlive => None,
            MessageData::InputAck { .. } => None,
            MessageData::SyncRequest { random_request, .. } => {
                let reply = *random_request;
                self.push_outgoing(MessageData::SyncReply { random_reply: reply });
                None
            },
            MessageData::SyncReply { random_reply } => {
                match self.state {
                    PeerState::Syncing { roundtrips_remaining, random } => {
                        if *random_reply != random {
                            None
                        } else if roundtrips_remaining <= 1 {
                            self.state = PeerState::Running {
                                last_quality_report_time: now,
                                last_network_stats_interval: now,
                                last_input_packet_recv_time: now,
                            };
                            Some(Event::Synchronized)
                        } else {
                            self.state = PeerState::Syncing {
                                roundtrips_remaining: roundtrips_remaining - 1,
                                random,
                            };
                            self.push_outgoing(
                                MessageData::SyncRequest {
                                    random_request: random,
                                    remote_magic: 0,
                                    remote_endpoint: 0,
                                },
                            );
                            let count: u32 = if roundtrips_remaining >= NUM_SYNC_ROUNDTRIPS {
                                1
                            } else {
                                NUM_SYNC_ROUNDTRIPS - roundtrips_remaining + 1
                            };
                            Some(
                                Event::Synchronizing {
                                    total: NUM_SYNC_ROUNDTRIPS as i32,
                                    count: count as i32,
                                },
                            )
                        }
                    },
                    _ => None,
                }
            },
            MessageData::Input { start_frame, bits, .. } => {
                match self.state {
                    PeerState::Running {
                        last_quality_report_time,
                        last_network_stats_interval,
                        ..
                    } => {
                        if *start_frame <= i32::MAX as u32 {
                            match decode_game_input(*start_frame as i32, bits) {
                                Some(input) => {
                                    self.state = PeerState::Running {
                                        last_quality_report_time,
                                        last_network_stats_interval,
                                        last_input_packet_recv_time: now,
                                    };
                                    Some(Event::Input { input })
                                },
                                None => None,
                            }
                        } else {
                            None
                        }
                    },
                    _ => None,
                }
            },
            MessageData::QualityReport { frame_advantage, ping } => {
                self.remote_frame_advantage = *frame_advantage as i32;
                let pong = *ping;
                self.push_outgoing(MessageData::QualityReply { pong });
                None
            },
            MessageData::QualityReply { pong } => {
                self.round_trip_time = if now >= *pong {
                    now - *pong
                } else {
                    0
                };
                None
            },
        }
    }

    /// The connection is running, a timeout is configured, and no input
    /// packet has arrived within it.
    pub open spec fn spec_timed_out(self, now: u32) -> bool {
        match self.state_spec() {
            PeerState::Running { last_input_packet_recv_time, .. } => self.timeout_spec() > 0 && now
                >= last_input_packet_recv_time + self.timeout_spec(),
            _ => false,
        }
    }

    /// Watches the clock: a running connection that has not received an
    /// input packet within the disconnect timeout becomes `Disconnected`,
    /// the only way that terminal state is ever entered.
    pub fn update(&mut self, now: u32) -> (r: Option<Event>)
        ensures
            final(self).outgoing() == old(self).outgoing(),
            final(self).incoming() == old(self).incoming(),
            old(self).spec_timed_out(now) ==> (final(self).state_spec() is Disconnected && (
            r matches Some(Event::Disconnected))),
            !old(self).spec_timed_out(now) ==> (*final(self) == *old(self) && r is None),
    {
        match self.state {
            PeerState::Running { last_input_packet_recv_time, .. } => {
                if self.disconnect_timeout > 0 && last_input_packet_recv_time
                    <= u32::MAX - self.disconnect_timeout && now >= last_input_packet_recv_time
                    + self.disconnect_timeout {
                    self.state = PeerState::Disconnected;
                    Some(Event::Disconnected)
                } else {
                    if self.disconnect_timeout > 0 && last_input_packet_recv_time
                        > u32::MAX - self.disconnect_timeout {
                        proof {
                            assert(!(now >= last_input_packet_recv_time + self.disconnect_timeout));
                        }
                    }
                    None
                }
            },
            _ => None,
        }
    }

    /// Marks the peer disconnected on explicit request; terminal.
    pub fn disconnect(&mut self)
        ensures
            final(self).state_spec() is Disconnected,
            final(self).outgoing() == old(self).outgoing(),
            final(self).incoming() == old(self).incoming(),
    {
        self.state = PeerState::Disconnected;
    }

    pub fn set_disconnect_timeout(&mut self, timeout: u32)
        ensures
            final(self).timeout_spec() == timeout,
            final(self).state_spec() == old(self).state_spec(),
            final(self).outgoing() == old(self).outgoing(),
            final(self).incoming() == old(self).incoming(),
    {
        self.disconnect_timeout = timeout;
    }

    pub fn set_disconnect_notify_start(&mut self, timeout: u32)
        ensures
            final(self).notify_start_spec() == timeout,
            final(self).state_spec() == old(self).state_spec(),
            final(self).outgoing() == old(self).outgoing(),
            final(self).incoming() == old(self).incoming(),
    {
        self.disconnect_notify_start = timeout;
    }

    /// The link statistics the session reports for this peer.
    pub fn get_network_stats(&self) -> (r: NetworkStats)
        ensures
            r.ping == self.rtt(),
            r.send_queue_len == self.outgoing().len(),
            r.recv_queue_len == self.incoming().len(),
            r.local_frames_behind == self.local_advantage(),
            r.remote_frames_behind == self.remote_advantage(),
    {
        NetworkStats {
            ping: self.round_trip_time,
            send_queue_len: self.outgoing_messages.len(),
            recv_queue_len: self.incoming_messages.len(),
            kbps_sent: self.kbps_sent,
            local_frames_behind: self.local_frame_advantage,
            remote_frames_behind: self.remote_frame_advantage,
        }
    }
}

} // verus!
