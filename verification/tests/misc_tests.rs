use rollback_core::character::{
    validate, HitboxPriority, PlayerState, State, StateMachine, StateMachineValidationError,
    StateTransition,
};
use rollback_core::input::{
    Axis1D, Axis2D, ButtonAxis1D, ButtonAxis2D, ButtonMapping, Buttons, PlayerInput,
    PlayerInputFrame,
};
use rollback_core::is_null;
use rollback_core::player::Facing;
use rollback_core::saved::{SavedState, SavedStates, MAX_ROLLBACK_FRAMES};
use rollback_core::time::FrameTimer;
use rollback_core::NULL_FRAME;

#[test]
fn null_frame_is_null() {
    assert!(is_null(NULL_FRAME));
    assert!(is_null(-5));
    assert!(!is_null(0));
    assert!(!is_null(7));
}

#[test]
fn button_flags_set_and_clear_independently() {
    let mut b = Buttons::default();
    b.set_attack(true);
    b.set_jump(true);
    assert!(b.attack());
    assert!(!b.special());
    assert!(b.jump());
    assert!(!b.shield());
    assert!(!b.grab());
    b.set_attack(false);
    assert!(!b.attack());
    assert!(b.jump());
    b.set_special(true);
    b.set_shield(true);
    b.set_grab(true);
    assert_eq!(b.bits, 2 | 4 | 8 | 16);
}

#[test]
fn set_value_applies_whole_masks() {
    let mut b = Buttons::default();
    b.set_value(Buttons { bits: 0b10101 }, true);
    assert_eq!(b.bits, 0b10101);
    b.set_value(Buttons { bits: 0b00101 }, false);
    assert_eq!(b.bits, 0b10000);
}

#[test]
fn axis_addition_caps_high_and_wraps_low() {
    assert_eq!(Axis1D(100).add(Axis1D(100)).0, 127);
    assert_eq!(Axis1D(20).add(Axis1D(30)).0, 50);
    // sums below the byte range wrap as two's complement
    assert_eq!(Axis1D(-100).add(Axis1D(-100)).0, 56);
}

#[test]
fn axis_subtraction_caps_at_negative_full() {
    assert_eq!(Axis1D(0).sub(Axis1D(1)).0, -1);
    assert_eq!(Axis1D(50).sub(Axis1D(10)).0, 40);
    // the difference is capped from below at -128
    assert_eq!(Axis1D(-127).sub(Axis1D(127)).0, -128);
    // differences above 127 wrap as two's complement
    assert_eq!(Axis1D(127).sub(Axis1D(-127)).0, -2);
}

#[test]
fn player_input_tracks_edges() {
    let held = PlayerInputFrame {
        movement: Axis2D { x: Axis1D(0), y: Axis1D(0) },
        smash: Axis2D { x: Axis1D(0), y: Axis1D(0) },
        buttons: Buttons { bits: 0b00011 },
    };
    let released = PlayerInputFrame {
        movement: Axis2D { x: Axis1D(0), y: Axis1D(0) },
        smash: Axis2D { x: Axis1D(0), y: Axis1D(0) },
        buttons: Buttons { bits: 0b00110 },
    };
    let mut p = PlayerInput { previous: held, current: held };
    p.tick();
    assert_eq!(p.previous, held);
    // previous 0b011, current 0b110: bit 2 was newly pressed, bit 0 released
    let mut p = PlayerInput { previous: held, current: released };
    assert_eq!(p.was_pressed().bits, 0b00100);
    assert_eq!(p.was_released().bits, 0b00001);
    p.tick();
    assert_eq!(p.previous, released);
    assert_eq!(p.current, released);
}

#[test]
fn input_diffs_read_their_own_axes() {
    let before = PlayerInputFrame {
        movement: Axis2D { x: Axis1D(10), y: Axis1D(0) },
        smash: Axis2D { x: Axis1D(-20), y: Axis1D(5) },
        buttons: Buttons { bits: 0 },
    };
    let after = PlayerInputFrame {
        movement: Axis2D { x: Axis1D(30), y: Axis1D(0) },
        smash: Axis2D { x: Axis1D(40), y: Axis1D(5) },
        buttons: Buttons { bits: 0 },
    };
    let p = PlayerInput { previous: before, current: after };
    assert_eq!(p.move_diff(), Axis2D { x: Axis1D(20), y: Axis1D(0) });
    assert_eq!(p.smash_diff(), Axis2D { x: Axis1D(60), y: Axis1D(0) });
}

#[test]
fn button_axes_sample_from_pressed_keys() {
    let axis = ButtonAxis1D { pos: 10, neg: 11 };
    assert_eq!(axis.sample(&vec![10]), Axis1D(127));
    assert_eq!(axis.sample(&vec![11]), Axis1D(-128));
    assert_eq!(axis.sample(&vec![10, 11]), Axis1D(0));
    assert_eq!(axis.sample(&vec![]), Axis1D(0));
    let pad = ButtonAxis2D {
        horizontal: ButtonAxis1D { pos: 1, neg: 2 },
        vertical: ButtonAxis1D { pos: 3, neg: 4 },
    };
    let sampled = pad.sample(&vec![1, 4]);
    assert_eq!(sampled, Axis2D { x: Axis1D(127), y: Axis1D(-128) });
}

#[test]
fn button_mapping_evaluates_bound_keys() {
    let mapping = ButtonMapping(vec![
        (Buttons { bits: 1 }, vec![20, 21]),
        (Buttons { bits: 4 }, vec![30]),
    ]);
    assert!(mapping.evaluate(Buttons { bits: 1 }, &vec![21]));
    assert!(!mapping.evaluate(Buttons { bits: 1 }, &vec![30]));
    assert!(!mapping.evaluate(Buttons { bits: 2 }, &vec![21]));
    let all = mapping.evaluate_all(&vec![21, 30]);
    assert!(all.attack());
    assert!(all.jump());
    assert!(!all.special());
}

#[test]
fn frame_timer_counts_down_and_stops() {
    let mut t = FrameTimer::new(2);
    assert!(!t.is_done());
    t.tick();
    assert!(!t.is_done());
    t.tick();
    assert!(t.is_done());
    t.tick();
    assert!(t.is_done());
    t.reset(1);
    assert!(!t.is_done());
}

#[test]
fn facing_inverts() {
    let mut f = Facing::Left;
    assert!(f.is_left());
    assert!(!f.is_right());
    f.invert();
    assert!(f.is_right());
    assert!(!f.is_left());
    assert_eq!(f, Facing::Right);
    assert_eq!(f.inverted(), Facing::Left);
}

#[test]
fn player_state_ticks_frames() {
    let mut p = PlayerState { state_id: 3, frame: 0 };
    p.tick();
    p.tick();
    assert_eq!(p.frame, 2);
    assert_eq!(p.state_id, 3);
}

#[test]
fn hitbox_priority_ranks_transcendent_highest() {
    assert!(HitboxPriority::Transcendent.outranks(&HitboxPriority::Normal(u16::MAX)));
    assert!(!HitboxPriority::Transcendent.outranks(&HitboxPriority::Transcendent));
    assert!(HitboxPriority::Normal(5).outranks(&HitboxPriority::Normal(4)));
    assert!(!HitboxPriority::Normal(4).outranks(&HitboxPriority::Normal(4)));
    assert!(!HitboxPriority::Normal(9).outranks(&HitboxPriority::Transcendent));
}

#[test]
fn saved_states_ring_retains_a_bounded_window() {
    let mut states = SavedStates::new();
    assert!(states.is_empty());
    let s = SavedState { time_remaining: Some(99), players: [None, None, None, None] };
    states.record(s);
    assert!(!states.is_empty());
    assert_eq!(states.len(), 1);
    assert_eq!(states.get(0).unwrap().time_remaining, Some(99));
    // the lookup index wraps around the retained window
    assert_eq!(states.get(1).unwrap().time_remaining, Some(99));
    for i in 0..(MAX_ROLLBACK_FRAMES * 2) {
        states.record(SavedState { time_remaining: Some(i as u32), players: [None, None, None, None] });
    }
    // the ring keeps the window bounded and keeps the newest entries
    assert_eq!(states.len(), MAX_ROLLBACK_FRAMES);
    let newest = states.get(MAX_ROLLBACK_FRAMES - 1).unwrap();
    assert_eq!(newest.time_remaining, Some((MAX_ROLLBACK_FRAMES * 2 - 1) as u32));
}

#[test]
fn state_machine_stores_and_finds_states() {
    let mut machine = StateMachine::new();
    let idle = machine.add_state(State { name: String::from("idle"), transitions: vec![] });
    let walk = machine.add_state(State { name: String::from("walk"), transitions: vec![] });
    assert_eq!(idle, 0);
    assert_eq!(walk, 1);
    assert!(machine.contains_state(idle));
    assert!(machine.contains_state(walk));
    assert!(!machine.contains_state(7));
    assert_eq!(machine.get_state(walk).unwrap().name, "walk");
    assert!(machine.get_state(9).is_none());

    assert!(machine.create_transition(idle, walk));
    assert!(machine.create_transition(walk, idle));
    assert!(!machine.create_transition(idle, 9));
    assert!(!machine.create_transition(9, idle));
    assert_eq!(machine.get_state(idle).unwrap().transitions.len(), 1);
    assert_eq!(machine.get_state(idle).unwrap().transitions[0].target_state, walk);
    assert!(validate(machine.clone()).is_ok());

    // removing a state also removes every transition that led to it
    machine.remove_state(walk);
    assert!(!machine.contains_state(walk));
    assert!(machine.contains_state(idle));
    assert!(machine.get_state(idle).unwrap().transitions.is_empty());
    assert!(validate(machine).is_ok());
}

#[test]
fn validation_reports_dangling_transitions() {
    let mut machine = StateMachine::new();
    let only = machine.add_state(State {
        name: String::from("only"),
        transitions: vec![StateTransition { name: None, target_state: 42, transition: vec![] }],
    });
    match validate(machine) {
        Err(StateMachineValidationError::InvalidTransitionTarget { from, to }) => {
            assert_eq!(from, only);
            assert_eq!(to, 42);
        },
        _ => panic!("expected a dangling transition to be reported"),
    }
}
