use rollback_core::backend::{P2PBackend, RollbackPlayer};
use rollback_core::checksum_round_trip;
use rollback_core::input::{Axis1D, Axis2D, Buttons, PlayerInputFrame};
use rollback_core::input_queue::GameInput;
use rollback_core::protocol::{Message, MessageData, Peer};
use rollback_core::sim::BasicSimulation;
use rollback_core::sync::{snapshot_checksum_round_trip, RollbackSync};
use rollback_core::RollbackError;
use rollback_core::RollbackPlayerHandle;
use rollback_core::ConnectionStatus;
use rollback_core::SessionCallbacks;

fn input_with_x(x: i8) -> PlayerInputFrame {
    PlayerInputFrame {
        movement: Axis2D { x: Axis1D(x), y: Axis1D(0) },
        smash: Axis2D { x: Axis1D(0), y: Axis1D(0) },
        buttons: Buttons { bits: 0 },
    }
}

#[test]
fn saved_state_checksum_round_trips() {
    let mut sim = BasicSimulation::new();
    let g = GameInput { frame: 0, inputs: [input_with_x(3), input_with_x(1), input_with_x(0), input_with_x(0)] };
    sim.advance_frame(&g);
    sim.advance_frame(&g);
    let (c1, c2) = checksum_round_trip(&mut sim);
    assert_eq!(c1, c2);
}

#[test]
fn save_load_restores_the_exact_state() {
    let mut sim = BasicSimulation::new();
    let g = GameInput { frame: 0, inputs: [input_with_x(5), input_with_x(-2), input_with_x(0), input_with_x(0)] };
    sim.advance_frame(&g);
    let (snapshot, checksum) = sim.save_state();
    let before = sim.current();
    sim.advance_frame(&g);
    assert_ne!(sim.current(), before);
    sim.load_state(&snapshot);
    assert_eq!(sim.current(), before);
    let (_, checksum_again) = sim.save_state();
    assert_eq!(checksum, checksum_again);
}

#[test]
fn rollback_resimulation_reaches_the_same_state() {
    // run one orchestrated match forward with fully confirmed inputs,
    // then roll back to an earlier frame and resimulate: the state and
    // checksum come out identical (determinism)
    let li = input_with_x(2);
    let ri = input_with_x(-3);
    let mut sync: RollbackSync<BasicSimulation> =
        RollbackSync::new(BasicSimulation::new(), 2, 8);
    for f in 0..6i32 {
        assert_eq!(sync.add_local_input(0, li), Ok(f));
        sync.add_remote_input(1, f, ri);
        let (g, mask) = sync.synchronize_inputs(f);
        assert_eq!(mask, 0);
        sync.advance_frame(&g);
        sync.increment_frame();
    }
    let forward_state = sync.callbacks().current();

    // an independent simulation fed the same inputs lands on the same state
    let mut reference = BasicSimulation::new();
    for f in 0..6i32 {
        let g = GameInput {
            frame: f,
            inputs: [li, ri, PlayerInputFrame::default(), PlayerInputFrame::default()],
        };
        reference.advance_frame(&g);
    }
    assert_eq!(forward_state, reference.current());

    // roll back to frame 3 and replay: bit-for-bit the same outcome
    sync.adjust_simulation(3);
    assert_eq!(sync.frame_count(), 6);
    assert!(!sync.in_rollback());
    assert_eq!(sync.callbacks().current(), forward_state);
}

#[test]
fn prediction_barrier_stops_runaway_local_input() {
    // two local queues, prediction window 8, no confirmation after
    // frame 2: local input succeeds up to frame 9 and hits the barrier
    // exactly when frame_count - 2 == 8
    let li = input_with_x(1);
    let mut sync: RollbackSync<BasicSimulation> =
        RollbackSync::new(BasicSimulation::new(), 2, 8);
    for f in 0..=10i32 {
        let first = sync.add_local_input(0, li);
        let second = sync.add_local_input(1, li);
        if f <= 2 {
            sync.set_last_confirmed_frame(f);
        }
        if f < 10 {
            assert_eq!(first, Ok(f), "frame {} should be accepted", f);
            assert_eq!(second, Ok(f));
        } else {
            assert_eq!(first, Err(RollbackError::ReachedPredictionBarrier));
            assert_eq!(second, Err(RollbackError::ReachedPredictionBarrier));
        }
        let (g, _mask) = sync.synchronize_inputs(f);
        sync.advance_frame(&g);
        sync.increment_frame();
    }
}

#[test]
fn barrier_releases_once_confirmation_advances() {
    let li = input_with_x(1);
    let mut sync: RollbackSync<BasicSimulation> =
        RollbackSync::new(BasicSimulation::new(), 1, 8);
    for f in 0..8i32 {
        assert_eq!(sync.add_local_input(0, li), Ok(f));
        let (g, _m) = sync.synchronize_inputs(f);
        sync.advance_frame(&g);
        sync.increment_frame();
    }
    // frame_count is 8 and nothing was ever confirmed: the barrier is up
    assert_eq!(
        sync.add_local_input(0, li),
        Err(RollbackError::ReachedPredictionBarrier)
    );
    // confirmation catches up and the same call succeeds
    sync.set_last_confirmed_frame(7);
    assert_eq!(sync.add_local_input(0, li), Ok(8));
}

fn synchronized_remote_peer() -> Peer {
    let mut peer = Peer::new(11, 77);
    for _ in 0..5 {
        let reply = Message {
            magic: 1,
            sequence_number: 0,
            data: MessageData::SyncReply { random_reply: 77 },
        };
        peer.handle_message(&reply, 100);
    }
    assert!(peer.state().is_synchronized());
    peer
}

#[test]
fn mid_match_disconnect_rolls_back_and_synthesizes_neutral_input() {
    // a remote player goes silent after confirming frame 50 while the
    // match runs on to frame 60 under prediction; disconnecting it rolls
    // the match back to frame 50 and replays with neutral input for it
    let li = input_with_x(2);
    let ri = input_with_x(-5);
    let mut backend: P2PBackend<BasicSimulation> =
        P2PBackend::new(BasicSimulation::new(), 2, 16);
    let local = backend.add_player(RollbackPlayer::Local).unwrap();
    let remote = backend.add_player(RollbackPlayer::Remote(synchronized_remote_peer())).unwrap();
    assert_eq!(local, RollbackPlayerHandle(0));
    assert_eq!(remote, RollbackPlayerHandle(1));
    backend.do_poll(0).unwrap();

    for f in 0..60i32 {
        backend.add_local_input(local, li).unwrap();
        if f <= 50 {
            backend.add_remote_input(remote, f, ri).unwrap();
        }
        backend.do_poll(0).unwrap();
        let (g, mask) = backend.sync_input().unwrap();
        assert_eq!(mask, 0, "nobody is disconnected yet at frame {}", f);
        backend.advance_frame(&g);
        backend.increment_frame().unwrap();
    }

    let before_disconnect = backend.callbacks().current();
    backend.disconnect_player(remote).unwrap();
    // disconnecting it again is a caller error
    assert_eq!(
        backend.disconnect_player(remote),
        Err(RollbackError::PlayerDisconnected(remote))
    );

    // frames past 50 were resimulated with the neutral input instead of
    // the predicted one, so the state changed
    let after_disconnect = backend.callbacks().current();
    assert_ne!(before_disconnect, after_disconnect);
    assert_eq!(
        backend.sync_input().map(|(_, mask)| mask),
        Ok(2),
        "the disconnect bit for player 1 is set"
    );
    let (g, _mask) = backend.sync_input().unwrap();
    assert_eq!(g.inputs[1], PlayerInputFrame::default());
    assert_eq!(g.inputs[0], li);

    // the state matches a run where player 1 fell silent after frame 50
    let mut reference = BasicSimulation::new();
    for f in 0..60i32 {
        let r = if f <= 50 { ri } else { PlayerInputFrame::default() };
        let g = GameInput {
            frame: f,
            inputs: [li, r, PlayerInputFrame::default(), PlayerInputFrame::default()],
        };
        reference.advance_frame(&g);
    }
    assert_eq!(after_disconnect, reference.current());
}

#[test]
fn misprediction_triggers_rollback_to_the_wrong_frame() {
    let li = input_with_x(1);
    let a = input_with_x(10);
    let b = input_with_x(-10);
    let mut sync: RollbackSync<BasicSimulation> =
        RollbackSync::new(BasicSimulation::new(), 2, 8);

    // frame 0: both players confirmed
    sync.add_local_input(0, li).unwrap();
    sync.add_remote_input(1, 0, a);
    let (g, _) = sync.synchronize_inputs(0);
    sync.advance_frame(&g);
    sync.increment_frame();

    // frame 1: the remote input is missing, so it is predicted as `a`
    sync.add_local_input(0, li).unwrap();
    let (g, _) = sync.synchronize_inputs(1);
    sync.advance_frame(&g);
    sync.increment_frame();
    assert_eq!(sync.check_simulation_consistency(), None);

    // the true input arrives and differs: the misprediction is found
    sync.add_remote_input(1, 1, b);
    assert_eq!(sync.check_simulation_consistency(), Some(1));
    sync.check_simulation();
    assert_eq!(sync.check_simulation_consistency(), None);
    assert_eq!(sync.frame_count(), 2);

    // the resimulated state is the one the true inputs produce
    let mut reference = BasicSimulation::new();
    for (f, r) in [(0, a), (1, b)] {
        let g = GameInput {
            frame: f,
            inputs: [li, r, PlayerInputFrame::default(), PlayerInputFrame::default()],
        };
        reference.advance_frame(&g);
    }
    assert_eq!(sync.callbacks().current(), reference.current());
}

#[test]
fn strict_input_fetch_reports_disconnected_players() {
    let li = input_with_x(1);
    let ri = input_with_x(2);
    let mut sync: RollbackSync<BasicSimulation> =
        RollbackSync::new(BasicSimulation::new(), 2, 8);
    sync.add_local_input(0, li).unwrap();
    sync.add_remote_input(1, 0, ri);
    let confirmed = sync.get_confirmed_inputs(0).unwrap();
    assert_eq!(confirmed.inputs[0], li);
    assert_eq!(confirmed.inputs[1], ri);

    sync.set_connection_status(
        1,
        ConnectionStatus { disconnected: true, last_frame: -1 },
    );
    let err = sync.get_confirmed_inputs(0).unwrap_err();
    assert_eq!(err.0, 0b10);
    assert!(err.is_disconnected(1));
    assert!(!err.is_disconnected(0));
}

#[test]
fn ring_snapshot_checksum_round_trips() {
    // run a few confirmed frames, then reload the frame-2 snapshot and
    // save again: the ring reproduces the stored checksum exactly
    let li = input_with_x(3);
    let mut sync: RollbackSync<BasicSimulation> =
        RollbackSync::new(BasicSimulation::new(), 1, 8);
    for f in 0..5i32 {
        assert_eq!(sync.add_local_input(0, li), Ok(f));
        let (g, _m) = sync.synchronize_inputs(f);
        sync.advance_frame(&g);
        sync.increment_frame();
    }
    let (stored, resaved) = snapshot_checksum_round_trip(&mut sync, 2);
    assert_eq!(stored, resaved);
}

#[test]
fn local_disconnect_cuts_off_everyone_else() {
    let li = input_with_x(1);
    let ri = input_with_x(4);
    let mut backend: P2PBackend<BasicSimulation> =
        P2PBackend::new(BasicSimulation::new(), 2, 8);
    let local = backend.add_player(RollbackPlayer::Local).unwrap();
    let remote = backend.add_player(RollbackPlayer::Remote(synchronized_remote_peer())).unwrap();
    backend.do_poll(0).unwrap();
    for f in 0..4i32 {
        backend.add_local_input(local, li).unwrap();
        backend.add_remote_input(remote, f, ri).unwrap();
        backend.do_poll(0).unwrap();
        let (g, _mask) = backend.sync_input().unwrap();
        backend.advance_frame(&g);
        backend.increment_frame().unwrap();
    }
    // disconnecting the local player ends the match for everyone else:
    // the remote player is cut off at the current frame
    backend.disconnect_player(local).unwrap();
    let (_, mask) = backend.sync_input().unwrap();
    assert_eq!(mask, 0, "cut off at the current frame, nothing synthesized yet");
    backend.increment_frame().unwrap();
    let (g, mask) = backend.sync_input().unwrap();
    assert_eq!(mask, 2, "past the cut-off frame the remote slot is synthesized");
    assert_eq!(g.inputs[1], PlayerInputFrame::default());
}
