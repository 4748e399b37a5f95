use rviewer::playback::{clamp, on_timer, step_back, step_forward, Beat};

#[test]
fn timer_advances_while_frames_are_left() {
    assert_eq!(on_timer(0, 3, false), (1, Beat::Advance));
    assert_eq!(on_timer(1, 3, true), (2, Beat::Advance));
}

#[test]
fn timer_waits_at_the_end_of_an_unfinished_scene() {
    assert_eq!(on_timer(2, 3, false), (2, Beat::Wait));
    assert_eq!(on_timer(0, 0, false), (0, Beat::Wait));
    assert_eq!(on_timer(7, 3, false), (7, Beat::Wait));
}

#[test]
fn timer_stops_at_the_end_of_a_finished_scene() {
    assert_eq!(on_timer(2, 3, true), (2, Beat::Stop));
    assert_eq!(on_timer(0, 1, true), (0, Beat::Stop));
    assert_eq!(on_timer(usize::MAX, usize::MAX, true), (usize::MAX, Beat::Stop));
}

#[test]
fn steps_stay_within_the_frames() {
    assert_eq!(step_forward(0, 3), 1);
    assert_eq!(step_forward(2, 3), 2);
    assert_eq!(step_forward(0, 0), 0);
    assert_eq!(step_forward(usize::MAX, 3), usize::MAX);
    assert_eq!(step_back(2), 1);
    assert_eq!(step_back(0), 0);
}

#[test]
fn clamp_shows_the_last_frame_at_most() {
    assert_eq!(clamp(0, 0), None);
    assert_eq!(clamp(1, 3), Some(1));
    assert_eq!(clamp(3, 3), Some(2));
    assert_eq!(clamp(usize::MAX, 1), Some(0));
}
