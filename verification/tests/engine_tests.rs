use robozzle::engine::{ExecutionEngine, ExecutionSpeed, RunError};

#[test]
fn speeds_have_exact_periods_and_cycle() {
    assert_eq!(ExecutionSpeed::Normal.get_duration_ms(), 500);
    assert_eq!(ExecutionSpeed::Fast.get_duration_ms(), 250);
    assert_eq!(ExecutionSpeed::VeryFast.get_duration_ms(), 20);
    assert_eq!(ExecutionSpeed::Normal.next(), ExecutionSpeed::Fast);
    assert_eq!(ExecutionSpeed::Fast.next(), ExecutionSpeed::VeryFast);
    assert_eq!(ExecutionSpeed::VeryFast.next(), ExecutionSpeed::Normal);
    assert_eq!(ExecutionSpeed::Normal.label(), "x1");
    assert_eq!(ExecutionSpeed::Fast.label(), "x2");
    assert_eq!(ExecutionSpeed::VeryFast.label(), "x5");
}

#[test]
fn start_sets_counters_and_clears_error() {
    let mut e = ExecutionEngine::new();
    e.set_error(RunError::OutOfBounds);
    assert_eq!(e.get_error(), Some(&RunError::OutOfBounds));
    assert!(e.is_stopped());
    e.start_execution();
    assert!(e.get_error().is_none());
    assert!(e.is_executing());
    assert_eq!(e.get_current_function(), 0);
    assert_eq!(e.get_current_instruction(), 0);
}

#[test]
fn stop_keeps_the_fault_message_until_cleared() {
    let mut e = ExecutionEngine::new();
    e.start_execution();
    e.set_error(RunError::InvalidFunction(3));
    assert!(e.is_stopped());
    assert_eq!(e.get_error(), Some(&RunError::InvalidFunction(3)));
    e.stop();
    assert_eq!(e.get_error(), Some(&RunError::InvalidFunction(3)));
    e.clear_error();
    assert!(e.get_error().is_none());
}

#[test]
fn timer_fires_on_the_period_and_keeps_the_remainder() {
    let mut e = ExecutionEngine::new();
    e.start_execution();
    assert!(!e.tick(499));
    assert!(e.tick(1));
    assert!(!e.tick(499));
    assert!(e.tick(501));
    // the phase left after a firing is the accumulated time modulo the
    // period: 499 + 501 leaves none
    assert_eq!(e.timer_acc_ms, 0);
}

#[test]
fn paused_time_does_not_accumulate() {
    let mut e = ExecutionEngine::new();
    e.start_execution();
    assert!(!e.tick(400));
    e.pause();
    assert!(!e.tick(10_000));
    e.resume();
    // resuming never causes an immediate spurious firing
    assert!(!e.tick(0));
    assert!(e.tick(100));
}

#[test]
fn single_step_fires_once_and_repauses() {
    let mut e = ExecutionEngine::new();
    e.start_execution();
    e.set_single_step(true);
    assert!(e.tick(0));
    assert!(e.is_paused());
    assert!(!e.tick(10_000));
    e.resume();
    assert!(!e.tick(0));
}

#[test]
fn force_single_step_loads_a_full_period() {
    let mut e = ExecutionEngine::new();
    e.start_execution();
    e.force_single_step();
    assert!(e.tick(0));
}

#[test]
fn change_speed_resets_the_phase() {
    let mut e = ExecutionEngine::new();
    e.start_execution();
    e.tick(400);
    e.change_speed();
    assert_eq!(e.get_speed(), ExecutionSpeed::Fast);
    assert_eq!(e.timer_acc_ms, 0);
    assert!(!e.tick(249));
    assert!(e.tick(1));
}

#[test]
fn call_and_return_resume_after_the_call() {
    let mut e = ExecutionEngine::new();
    e.start_execution();
    e.advance_instruction();
    e.advance_instruction();
    // the call at (0, 2) jumps to function 1
    e.call_function(1);
    assert_eq!(e.get_current_function(), 1);
    assert_eq!(e.get_current_instruction(), 0);
    // returning resumes at the instruction after the call, not at the call
    assert!(e.return_from_function());
    assert_eq!(e.get_current_function(), 0);
    assert_eq!(e.get_current_instruction(), 3);
    // with no caller left the program naturally finishes
    assert!(!e.return_from_function());
    assert!(e.is_stopped());
    assert!(e.get_error().is_none());
}
