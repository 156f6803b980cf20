use rollback_core::input_queue::GameInput;
use rollback_core::time_sync::{TimeSync, FRAME_WINDOW_SIZE, MAX_FRAME_ADVANTAGE};

fn fill(t: &mut TimeSync, local: i32, remote: i32) {
    for f in 0..FRAME_WINDOW_SIZE as i32 {
        t.advance_frame(GameInput::neutral(f), local, remote);
    }
}

#[test]
fn equal_averages_recommend_no_wait() {
    let mut t = TimeSync::new();
    fill(&mut t, 6, 6);
    assert_eq!(t.recommend_frame_wait_duration(false), 0);
    assert_eq!(t.recommend_frame_wait_duration(true), 0);
}

#[test]
fn behind_peer_never_waits() {
    let mut t = TimeSync::new();
    fill(&mut t, 10, 2);
    assert_eq!(t.recommend_frame_wait_duration(false), 0);
}

#[test]
fn small_differences_are_ignored() {
    // average difference 2 splits to a single frame, below the threshold
    let mut t = TimeSync::new();
    fill(&mut t, 0, 2);
    assert_eq!(t.recommend_frame_wait_duration(false), 0);
}

#[test]
fn split_difference_is_rounded_to_frames() {
    // local average 0, remote average 8: sleep = 8 / 2 = 4 frames
    let mut t = TimeSync::new();
    fill(&mut t, 0, 8);
    assert_eq!(t.recommend_frame_wait_duration(false), 4);
}

#[test]
fn large_differences_clamp_to_the_maximum() {
    // average difference 30 far exceeds twice the cap of 9
    let mut t = TimeSync::new();
    fill(&mut t, 0, 30);
    assert_eq!(t.recommend_frame_wait_duration(false), MAX_FRAME_ADVANTAGE);
}

#[test]
fn sweeping_input_defers_the_recommendation() {
    // the history holds inputs from ten different frames, so the idle
    // heuristic refuses to recommend a pause even for a huge difference
    let mut t = TimeSync::new();
    fill(&mut t, 0, 30);
    assert_eq!(t.recommend_frame_wait_duration(true), 0);
    // without the idle requirement the clamped recommendation stands
    assert_eq!(t.recommend_frame_wait_duration(false), MAX_FRAME_ADVANTAGE);
}

#[test]
fn repeated_single_frame_keeps_history_idle() {
    // writing only frame 0 leaves the rest of the history at its initial
    // value, which frame 0's neutral input equals: the history stays
    // idle, and only window slot 0 carries the advantage sample, so the
    // averaged difference stays below the threshold
    let mut t = TimeSync::new();
    t.advance_frame(GameInput::neutral(0), 0, 30);
    assert_eq!(t.recommend_frame_wait_duration(true), 0);
}
