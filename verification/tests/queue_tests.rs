use rollback_core::input::{Axis1D, Axis2D, Buttons, PlayerInputFrame};
use rollback_core::input_queue::{
    correction_overrides_prediction, frame_delay_shifts_input, InputQueue, QueueError,
};
use rollback_core::NULL_FRAME;

fn input_with_x(x: i8) -> PlayerInputFrame {
    PlayerInputFrame {
        movement: Axis2D { x: Axis1D(x), y: Axis1D(0) },
        smash: Axis2D { x: Axis1D(0), y: Axis1D(0) },
        buttons: Buttons { bits: 0 },
    }
}

#[test]
fn empty_queue_answers_neutral_without_predicting() {
    let mut q = InputQueue::new();
    let r = q.get_input(0);
    assert_eq!(r, PlayerInputFrame::default());
    assert_eq!(q.first_incorrect_frame(), NULL_FRAME);
    // nothing was recorded, so a later confirmation cannot mismatch
    q.add_remote_input(0, input_with_x(3));
    assert_eq!(q.first_incorrect_frame(), NULL_FRAME);
}

#[test]
fn frame_delay_shifts_where_input_lands() {
    let mut q = InputQueue::new();
    q.set_frame_delay(2);
    let r = q.add_input(5, input_with_x(9));
    assert_eq!(r, Ok(7));
    assert_eq!(q.get_input(7), input_with_x(9));
    assert_eq!(q.get_confirmed_input(7), Some(input_with_x(9)));
    // frames before the stored one are unaffected by the new entry
    assert_eq!(q.get_confirmed_input(5), None);
}

#[test]
fn frame_delay_law_on_concrete_values() {
    let mut q = InputQueue::new();
    let got = frame_delay_shifts_input(&mut q, 3, 4, input_with_x(-7));
    assert_eq!(got, input_with_x(-7));
}

#[test]
fn add_input_rejects_non_advancing_frames() {
    let mut q = InputQueue::new();
    assert_eq!(q.add_input(5, input_with_x(1)), Ok(5));
    assert_eq!(q.add_input(5, input_with_x(2)), Err(QueueError::OutOfOrder));
    assert_eq!(q.add_input(4, input_with_x(2)), Err(QueueError::OutOfOrder));
    assert_eq!(q.add_input(6, input_with_x(2)), Ok(6));
}

#[test]
fn prediction_is_recorded_and_correction_detected() {
    let mut q = InputQueue::new();
    q.add_remote_input(0, input_with_x(1));
    // frame 1 is unknown: the queue predicts the last known input
    let predicted = q.get_input(1);
    assert_eq!(predicted, input_with_x(1));
    assert_eq!(q.first_incorrect_frame(), NULL_FRAME);
    // the true value turns out different
    q.add_remote_input(1, input_with_x(2));
    assert_eq!(q.first_incorrect_frame(), 1);
    assert_eq!(q.get_input(1), input_with_x(2));
}

#[test]
fn correct_prediction_raises_no_signal() {
    let mut q = InputQueue::new();
    q.add_remote_input(0, input_with_x(4));
    let predicted = q.get_input(1);
    q.add_remote_input(1, predicted);
    assert_eq!(q.first_incorrect_frame(), NULL_FRAME);
    assert_eq!(q.get_confirmed_input(1), Some(input_with_x(4)));
}

#[test]
fn correction_law_on_concrete_values() {
    let mut q = InputQueue::new();
    q.add_remote_input(2, input_with_x(1));
    let _ = q.get_input(3);
    let got = correction_overrides_prediction(&mut q, 3, input_with_x(5));
    assert_eq!(got, input_with_x(5));
    assert!(q.first_incorrect_frame() >= 0 && q.first_incorrect_frame() <= 3);
}

#[test]
fn out_of_order_remote_input_is_buffered_not_dropped() {
    let mut q = InputQueue::new();
    q.add_remote_input(5, input_with_x(5));
    q.add_remote_input(3, input_with_x(3));
    assert_eq!(q.get_confirmed_input(3), Some(input_with_x(3)));
    assert_eq!(q.get_confirmed_input(5), Some(input_with_x(5)));
}

#[test]
fn discard_confirmed_frames_drops_strictly_before() {
    let mut q = InputQueue::new();
    for f in 0..6 {
        q.add_remote_input(f, input_with_x(f as i8));
    }
    q.discard_confirmed_frames(3);
    assert_eq!(q.get_confirmed_input(2), None);
    assert_eq!(q.get_confirmed_input(3), Some(input_with_x(3)));
    assert_eq!(q.get_confirmed_input(5), Some(input_with_x(5)));
}

#[test]
fn reset_prediction_forgets_predictions_and_signal() {
    let mut q = InputQueue::new();
    q.add_remote_input(0, input_with_x(1));
    let _ = q.get_input(1);
    let _ = q.get_input(2);
    q.add_remote_input(1, input_with_x(9));
    assert_eq!(q.first_incorrect_frame(), 1);
    q.reset_prediction(1);
    assert_eq!(q.first_incorrect_frame(), NULL_FRAME);
    // the confirmed entries survive, the predictions are gone
    assert_eq!(q.get_confirmed_input(0), Some(input_with_x(1)));
    assert_eq!(q.get_confirmed_input(1), Some(input_with_x(9)));
    assert_eq!(q.get_confirmed_input(2), None);
}
