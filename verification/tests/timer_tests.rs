use tomato_timer::timer::{State, Timer};

#[test]
fn new_paused_reports_paused() {
    let t = Timer::new(10_000, true);
    assert!(t.is_paused());
    assert_eq!(t.get_state(), State::Paused);
    let (elapsed, remaining, target) = t.get_progress_data();
    assert_eq!(elapsed, 0);
    assert_eq!(remaining, 10_000);
    assert_eq!(target, 10_000);
}

#[test]
fn fresh_running_timer_with_long_target_is_running() {
    let t = Timer::new(3_600_000, false);
    assert!(!t.is_paused());
    assert_eq!(t.get_state(), State::Running);
}

#[test]
fn forward_short_of_target_is_running_with_exact_progress() {
    // Forwarding a fresh timer by target - d keeps it running at exactly
    // that much elapsed.
    let mut t = Timer::new_at(10_000, false, 500);
    t.forward_timer(9_000);
    assert_eq!(t.get_state_at(500), State::Running);
    let (elapsed, remaining, target) = t.get_progress_data_at(500);
    assert_eq!(elapsed, 9_000);
    assert_eq!(remaining, 1_000);
    assert_eq!(target, 10_000);
}

#[test]
fn forward_past_target_finishes_with_excess() {
    let mut t = Timer::new_at(10_000, false, 500);
    t.forward_timer(12_000);
    assert_eq!(t.get_state_at(500), State::Finished(2_000));
}

#[test]
fn forward_exactly_to_target_finishes_with_zero_excess() {
    let mut t = Timer::new_at(10_000, false, 500);
    t.forward_timer(10_000);
    assert_eq!(t.get_state_at(500), State::Finished(0));
}

#[test]
fn pause_then_start_preserves_elapsed() {
    let mut t = Timer::new_at(100_000, false, 1_000);
    t.pause_at(4_000);
    let (elapsed_at_pause, _, _) = t.get_progress_data_at(4_000);
    assert_eq!(elapsed_at_pause, 3_000);
    t.start_at(50_000);
    let (elapsed_after_start, _, _) = t.get_progress_data_at(50_000);
    assert_eq!(elapsed_after_start, elapsed_at_pause);
}

#[test]
fn rewind_more_than_elapsed_clamps_to_zero() {
    let mut t = Timer::new_at(10_000, true, 0);
    t.forward_timer(5_000);
    t.rewind_timer_at(10_000, 0);
    let (elapsed, _, _) = t.get_progress_data_at(0);
    assert_eq!(elapsed, 0);
}

#[test]
fn rewind_partial_subtracts_exactly() {
    let mut t = Timer::new_at(10_000, true, 0);
    t.forward_timer(5_000);
    t.rewind_timer_at(2_000, 0);
    let (elapsed, _, _) = t.get_progress_data_at(0);
    assert_eq!(elapsed, 3_000);
}

#[test]
fn rewind_while_running_folds_in_flight_segment() {
    let mut t = Timer::new_at(10_000, false, 1_000);
    // 4 seconds have passed when the rewind of zero arrives: the segment is
    // folded into the baseline and nothing is subtracted.
    t.rewind_timer_at(0, 5_000);
    let (elapsed, _, _) = t.get_progress_data_at(5_000);
    assert_eq!(elapsed, 4_000);
    assert!(!t.is_paused());
}

#[test]
fn reset_rearms_from_zero() {
    let mut t = Timer::new_at(10_000, false, 0);
    t.forward_timer(7_000);
    t.reset_at(true, 100);
    assert!(t.is_paused());
    let (elapsed, remaining, target) = t.get_progress_data_at(100);
    assert_eq!(elapsed, 0);
    assert_eq!(remaining, 10_000);
    assert_eq!(target, 10_000);
}

#[test]
fn backward_clock_sample_counts_as_zero_elapsed() {
    let t = Timer::new_at(10_000, false, 5_000);
    // A clock sample before the segment start must not underflow.
    let (elapsed, remaining, _) = t.get_progress_data_at(1_000);
    assert_eq!(elapsed, 0);
    assert_eq!(remaining, 10_000);
    assert_eq!(t.get_state_at(1_000), State::Running);
}

#[test]
fn paused_timer_past_target_reports_finished() {
    let mut t = Timer::new_at(1_000, true, 0);
    t.forward_timer(1_500);
    assert_eq!(t.get_state(), State::Finished(500));
}

#[test]
fn new_with_acc_duration_seeds_elapsed() {
    let t = Timer::new_with_acc_duration(10_000, true, 2_500);
    let (elapsed, remaining, _) = t.get_progress_data();
    assert_eq!(elapsed, 2_500);
    assert_eq!(remaining, 7_500);
}
