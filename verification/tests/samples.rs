use padmap::samples::SampleBuffer;
use padmap::types::{key_state_of_flags, ControllerButton, KeyState, MouseButton};

const MS: u64 = 1_000_000;

#[test]
fn sums_are_exact() {
    let mut b = SampleBuffer::new();
    b.push(3, 4, 10 * MS);
    b.push(5, -6, 11 * MS);
    assert_eq!(b.prune_and_sum(11 * MS, 5 * MS), (8, -2));
    assert_eq!(b.len(), 2);
}

#[test]
fn sample_older_than_window_is_excluded() {
    let mut b = SampleBuffer::new();
    b.push(10, 20, 0);
    b.push(5, 5, 4 * MS);
    assert_eq!(b.prune_and_sum(6 * MS, 5 * MS), (5, 5));
    assert_eq!(b.len(), 1);
}

#[test]
fn all_samples_age_out_without_new_input() {
    let mut b = SampleBuffer::new();
    b.push(10, 0, 1 * MS);
    assert_eq!(b.prune_and_sum(2 * MS, 5 * MS), (10, 0));
    assert_eq!(b.prune_and_sum(7 * MS, 5 * MS), (0, 0));
    assert_eq!(b.len(), 0);
}

#[test]
fn only_five_most_recent_samples_are_summed() {
    let mut b = SampleBuffer::new();
    for i in 0..7u64 {
        b.push(1, 2, 10 * MS + i);
    }
    assert_eq!(b.prune_and_sum(10 * MS + 7, 5 * MS), (5, 10));
    assert_eq!(b.len(), 5);
}

#[test]
fn buffer_is_capped() {
    let mut b = SampleBuffer::new();
    for i in 0..120u64 {
        b.push(1, 1, i);
    }
    assert_eq!(b.len(), 100);
}

#[test]
fn timestamps_never_go_backwards() {
    let mut b = SampleBuffer::new();
    b.push(1, 0, 10 * MS);
    b.push(2, 0, 5 * MS);
    assert_eq!(b.prune_and_sum(11 * MS, 5 * MS), (3, 0));
}

#[test]
fn key_flag_decode() {
    assert_eq!(key_state_of_flags(0), KeyState::Down);
    assert_eq!(key_state_of_flags(1), KeyState::Up);
    assert_eq!(key_state_of_flags(3), KeyState::Up);
    assert_eq!(key_state_of_flags(2), KeyState::Down);
}

#[test]
fn button_masks_match_the_report_word() {
    assert_eq!(ControllerButton::DpadUp.mask(), 0x0001);
    assert_eq!(ControllerButton::Guide.mask(), 0x0400);
    assert_eq!(ControllerButton::A.mask(), 0x1000);
    assert_eq!(ControllerButton::Y.mask(), 0x8000);
    assert_eq!(ControllerButton::LeftTrigger.mask(), 0);
}

#[test]
fn button_index_roundtrip() {
    let buttons = [
        MouseButton::Left,
        MouseButton::Right,
        MouseButton::Middle,
        MouseButton::Button4,
        MouseButton::Button5,
    ];
    for b in buttons {
        assert_eq!(MouseButton::from_index(b.index()), Some(b));
    }
    assert_eq!(MouseButton::from_index(5), None);
}
