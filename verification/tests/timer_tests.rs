use robozzle::problem::ProblemState;
use robozzle::timer::{GameTimer, LevelTimer};

#[test]
fn game_timer_counts_down_and_finishes_once() {
    let mut t = GameTimer::new(1);
    assert_eq!(t.remaining_ms(), 60_000);
    assert_eq!(t.remaining_minutes(), 1);
    assert_eq!(t.remaining_seconds(), 0);
    t.tick(59_000);
    assert_eq!(t.remaining_ms(), 1_000);
    assert_eq!(t.remaining_minutes(), 0);
    assert_eq!(t.remaining_seconds(), 1);
    assert!(!t.is_finished());
    assert!(!t.just_finished());
    t.tick(2_000);
    assert!(t.is_finished());
    assert!(t.just_finished());
    assert_eq!(t.remaining_ms(), 0);
    // only the crossing tick reports just_finished
    t.tick(1);
    assert!(t.is_finished());
    assert!(!t.just_finished());
}

#[test]
fn level_timer_accumulates_and_resets() {
    let mut t = LevelTimer::new();
    t.tick(1_500);
    t.tick(500);
    assert_eq!(t.get_elapsed_ms(), 2_000);
    t.reset();
    assert_eq!(t.get_elapsed_ms(), 0);
}

#[test]
fn problem_state_keeps_history_across_star_resets() {
    let mut st = ProblemState::new(2);
    assert_eq!(st.functions.len(), 2);
    st.stars_collected = 2;
    st.check_completion(2);
    assert!(st.is_completed);
    st.set_completion_time(4_200);
    st.record_completion_time();
    assert!(st.completion_time_recorded);
    st.reset_stars();
    assert_eq!(st.stars_collected, 0);
    assert!(st.is_completed);
    assert_eq!(st.completion_time, Some(4_200));
    // on a completed level the one-shot guard stays closed across resets
    assert!(st.completion_time_recorded);
}

#[test]
fn completion_needs_the_exact_star_count() {
    let mut st = ProblemState::new(1);
    st.stars_collected = 1;
    st.check_completion(2);
    assert!(!st.is_completed);
    st.stars_collected = 2;
    st.check_completion(2);
    assert!(st.is_completed);
}

#[test]
fn completion_time_keeps_the_minimum() {
    let mut st = ProblemState::new(1);
    st.set_completion_time(9_000);
    st.set_completion_time(12_000);
    assert_eq!(st.completion_time, Some(9_000));
    st.set_completion_time(7_500);
    assert_eq!(st.completion_time, Some(7_500));
}

#[test]
fn start_timer_reopens_the_one_shot_guard() {
    let mut st = ProblemState::new(1);
    st.completion_time_recorded = true;
    st.start_timer(1_000);
    assert_eq!(st.start_time, 1_000);
    assert!(!st.completion_time_recorded);
}
