use rollback_core::input::{Axis1D, Axis2D, Buttons, PlayerInputFrame};
use rollback_core::input_queue::GameInput;
use rollback_core::protocol::{
    decode_game_input, encode_game_input, input_encoding_round_trip, Event, Message, MessageData,
    MessageQueue, Peer, PeerState, NUM_SYNC_ROUNDTRIPS,
};

fn sample_input() -> GameInput {
    GameInput {
        frame: 12,
        inputs: [
            PlayerInputFrame {
                movement: Axis2D { x: Axis1D(-128), y: Axis1D(127) },
                smash: Axis2D { x: Axis1D(3), y: Axis1D(-4) },
                buttons: Buttons { bits: 0b10101 },
            },
            PlayerInputFrame::default(),
            PlayerInputFrame {
                movement: Axis2D { x: Axis1D(1), y: Axis1D(2) },
                smash: Axis2D { x: Axis1D(0), y: Axis1D(0) },
                buttons: Buttons { bits: 0b00010 },
            },
            PlayerInputFrame::default(),
        ],
    }
}

#[test]
fn input_bytes_round_trip() {
    let g = sample_input();
    let restored = input_encoding_round_trip(&g);
    assert_eq!(restored.frame, g.frame);
    assert_eq!(restored.inputs, g.inputs);
}

#[test]
fn encoding_is_twenty_bytes_offset_binary() {
    let g = sample_input();
    let bits = encode_game_input(&g);
    assert_eq!(bits.len(), 20);
    // offset binary: -128 -> 0, 127 -> 255, 0 -> 128
    assert_eq!(bits[0], 0);
    assert_eq!(bits[1], 255);
    assert_eq!(bits[4], 0b10101);
    assert_eq!(bits[5], 128);
}

#[test]
fn malformed_input_payloads_are_dropped() {
    assert!(decode_game_input(3, &vec![0u8; 19]).is_none());
    assert!(decode_game_input(3, &vec![0u8; 21]).is_none());
    assert!(decode_game_input(3, &vec![128u8; 20]).is_some());
}

#[test]
fn message_queue_is_first_in_first_out() {
    let mut q = MessageQueue::new();
    assert!(q.recieve().is_none());
    q.send(Message { magic: 1, sequence_number: 0, data: MessageData::KeepAlive });
    q.send(Message { magic: 2, sequence_number: 1, data: MessageData::KeepAlive });
    assert_eq!(q.len(), 2);
    assert_eq!(q.recieve().unwrap().magic, 1);
    assert_eq!(q.recieve().unwrap().magic, 2);
    assert!(q.recieve().is_none());
}

#[test]
fn handshake_completes_after_the_round_trips() {
    let mut peer = Peer::new(5, 1234);
    peer.synchronize();
    let first_out = peer.dequeue_outgoing().unwrap();
    match first_out.data {
        MessageData::SyncRequest { random_request, .. } => assert_eq!(random_request, 1234),
        _ => panic!("expected a sync request"),
    }
    for round in 0..NUM_SYNC_ROUNDTRIPS {
        assert!(!peer.state().is_synchronized(), "round {}", round);
        let reply = Message {
            magic: 9,
            sequence_number: 0,
            data: MessageData::SyncReply { random_reply: 1234 },
        };
        peer.handle_message(&reply, 50);
    }
    assert!(peer.state().is_synchronized());
}

#[test]
fn wrong_sync_token_is_ignored() {
    let mut peer = Peer::new(5, 1234);
    let reply = Message {
        magic: 9,
        sequence_number: 0,
        data: MessageData::SyncReply { random_reply: 999 },
    };
    for _ in 0..10 {
        assert!(peer.handle_message(&reply, 50).is_none());
    }
    assert!(!peer.state().is_synchronized());
}

#[test]
fn sync_request_is_echoed_back() {
    let mut peer = Peer::new(5, 1234);
    let request = Message {
        magic: 9,
        sequence_number: 0,
        data: MessageData::SyncRequest { random_request: 777, remote_magic: 9, remote_endpoint: 0 },
    };
    peer.handle_message(&request, 10);
    let out = peer.dequeue_outgoing().unwrap();
    match out.data {
        MessageData::SyncReply { random_reply } => assert_eq!(random_reply, 777),
        _ => panic!("expected a sync reply"),
    }
}

fn running_peer() -> Peer {
    let mut peer = Peer::new(5, 42);
    for _ in 0..NUM_SYNC_ROUNDTRIPS {
        let reply = Message {
            magic: 9,
            sequence_number: 0,
            data: MessageData::SyncReply { random_reply: 42 },
        };
        peer.handle_message(&reply, 0);
    }
    // drain the handshake's own outgoing traffic
    while peer.dequeue_outgoing().is_some() {}
    peer
}

#[test]
fn received_input_is_decoded_and_surfaced() {
    let mut peer = running_peer();
    let g = sample_input();
    let bits = encode_game_input(&g);
    let msg = Message {
        magic: 9,
        sequence_number: 1,
        data: MessageData::Input {
            peer_connect_status: Default::default(),
            start_frame: 12,
            ack_frame: 0,
            bits,
        },
    };
    match peer.handle_message(&msg, 30) {
        Some(Event::Input { input }) => {
            assert_eq!(input.frame, 12);
            assert_eq!(input.inputs, g.inputs);
        },
        _ => panic!("expected a decoded input event"),
    }
}

#[test]
fn quality_report_is_answered_and_reply_measures_ping() {
    let mut peer = running_peer();
    let report = Message {
        magic: 9,
        sequence_number: 2,
        data: MessageData::QualityReport { frame_advantage: 3, ping: 1000 },
    };
    assert!(peer.handle_message(&report, 1004).is_none());
    let out = peer.dequeue_outgoing().unwrap();
    match out.data {
        MessageData::QualityReply { pong } => assert_eq!(pong, 1000),
        _ => panic!("expected a quality reply"),
    }
    let reply = Message {
        magic: 9,
        sequence_number: 3,
        data: MessageData::QualityReply { pong: 1000 },
    };
    peer.handle_message(&reply, 1025);
    assert_eq!(peer.get_network_stats().ping, 25);
}

#[test]
fn silence_past_the_timeout_disconnects() {
    let mut peer = running_peer();
    peer.set_disconnect_timeout(500);
    // the handshake completed at time 0; the link stays up within the window
    assert!(peer.update(499).is_none());
    assert!(peer.state().is_synchronized());
    match peer.update(500) {
        Some(Event::Disconnected) => {},
        _ => panic!("expected a disconnect event"),
    }
    assert!(matches!(*peer.state(), PeerState::Disconnected));
    // disconnection is terminal: further messages fall on deaf ears
    let reply = Message {
        magic: 9,
        sequence_number: 0,
        data: MessageData::SyncReply { random_reply: 42 },
    };
    assert!(peer.handle_message(&reply, 600).is_none());
    assert!(matches!(*peer.state(), PeerState::Disconnected));
}

#[test]
fn outgoing_input_carries_the_encoded_frame() {
    let mut peer = running_peer();
    let g = sample_input();
    peer.send_input(&g);
    let out = peer.dequeue_outgoing().unwrap();
    match out.data {
        MessageData::Input { start_frame, bits, .. } => {
            assert_eq!(start_frame, 12);
            assert_eq!(bits, encode_game_input(&g));
        },
        _ => panic!("expected an input message"),
    }
}

#[test]
fn input_before_synchronization_is_not_sent() {
    let mut peer = Peer::new(5, 42);
    peer.send_input(&sample_input());
    assert!(peer.dequeue_outgoing().is_none());
}
