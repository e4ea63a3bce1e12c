use robozzle::edit::EditSelection;
use robozzle::instruction::{Direction, Instruction};
use robozzle::level::LevelData;
use robozzle::manager::{report_filename, LevelManager, LevelType};
use robozzle::player::PlayerInfo;

fn level(src: &[u8], id: usize) -> LevelData {
    LevelData::parse(src, id).unwrap()
}

fn two_level_manager() -> LevelManager {
    let mut m = LevelManager::new();
    m.set_tutorial_levels(vec![
        level(b"SIZE 1 1\nGRID:\n.\n", 0),
        level(b"SIZE 1 1\nGRID:\n.\n", 1),
    ]);
    m
}

#[test]
fn fresh_states_are_installed_per_level() {
    let m = two_level_manager();
    let st = m.get_problem_state(0).unwrap();
    assert_eq!(st.functions.len(), 1);
    assert!(st.functions[0].is_empty());
    assert_eq!(st.stars_collected, 0);
    assert!(!st.is_completed);
    assert!(st.completion_time.is_none());
    assert!(m.get_problem_state(1).is_some());
    assert!(m.get_problem_state(2).is_none());
}

#[test]
fn tutorial_advance_is_gated_on_completion() {
    let mut m = two_level_manager();
    assert!(!m.can_proceed_to_next());
    assert_eq!(m.try_next_level(), None);
    // completing the current level unlocks the next
    m.update_progress(0, 0, 0);
    assert!(m.can_proceed_to_next());
    assert_eq!(m.try_next_level(), Some(1));
    // and there is no level after the last
    m.update_progress(1, 0, 0);
    assert_eq!(m.try_next_level(), None);
}

#[test]
fn switching_the_collection_rewinds_the_index() {
    let mut m = two_level_manager();
    m.switch_to_level(1);
    assert_eq!(m.get_current_level().unwrap().id, 1);
    m.switch_level_type(LevelType::Normal);
    assert_eq!(m.get_current_level_type(), LevelType::Normal);
    assert_eq!(m.get_levels_count(), 0);
    assert!(m.get_current_level().is_none());
}

#[test]
fn completion_aggregates_fold_over_the_whole_collection() {
    let mut m = two_level_manager();
    assert!(!m.are_all_tutorials_completed());
    m.update_progress(0, 1, 1);
    assert!(!m.are_all_tutorials_completed());
    m.update_progress(1, 1, 1);
    assert!(m.are_all_tutorials_completed());
    // an empty scored collection is vacuously all completed
    assert!(m.are_all_levels_completed());
    // outside the tutorial collection the tutorial aggregate is vacuous
    m.switch_level_type(LevelType::Normal);
    assert!(m.are_all_tutorials_completed());
}

#[test]
fn completion_is_monotonic_across_resets_and_checks() {
    let mut m = two_level_manager();
    m.update_progress(0, 1, 1);
    assert!(m.get_problem_state(0).unwrap().is_completed);
    // a replay resets the stars but never the completion flag
    m.reset_level_stars(0);
    let st = m.get_problem_state(0).unwrap();
    assert_eq!(st.stars_collected, 0);
    assert!(st.is_completed);
    m.set_stars_and_check(0, 0, 1);
    assert!(m.get_problem_state(0).unwrap().is_completed);
}

#[test]
fn completion_time_only_ever_improves() {
    let mut m = two_level_manager();
    m.update_progress(0, 1, 1);
    m.record_completion(0, 12_300);
    assert_eq!(m.get_problem_state(0).unwrap().completion_time, Some(12_300));
    // the guard is closed: another recording without a fresh solve is ignored
    m.record_completion(0, 5_000);
    assert_eq!(m.get_problem_state(0).unwrap().completion_time, Some(12_300));
    // a fresh attempt reopens the guard only through the timer start
    m.start_level_timer(0, 0);
    m.record_completion(0, 9_900);
    assert_eq!(m.get_problem_state(0).unwrap().completion_time, Some(9_900));
    // a slower solve does not replace the best
    m.start_level_timer(0, 0);
    m.record_completion(0, 11_000);
    assert_eq!(m.get_problem_state(0).unwrap().completion_time, Some(9_900));
}

#[test]
fn report_lists_each_scored_level_exactly() {
    let mut m = LevelManager::new();
    m.switch_level_type(LevelType::Normal);
    m.set_normal_levels(vec![
        level(b"LEVEL First\nSIZE 1 1\nGRID:\n.*\n", 0),
        level(b"LEVEL Second\nSIZE 1 1\nGRID:\n.*\n", 1),
    ]);
    m.update_progress(0, 1, 1);
    m.record_completion(0, 12_345);
    m.set_stars_and_check(1, 0, 1);
    let player = PlayerInfo::new("Ada".to_string(), "Lovelace".to_string());
    let report = m.generate_final_report(&player);
    assert_eq!(
        report,
        "Lovelace Ada\n\n\
         Problem 1 : First (1/1) - Passed - Time: 12.3s\n\
         Problem 2 : Second (0/1) - Failed\n",
    );
}

#[test]
fn report_filename_replaces_spaces_with_underscores() {
    let player = PlayerInfo::new("Jean Paul".to_string(), "de la Tour".to_string());
    assert_eq!(report_filename(&player), "results_de_la_Tour_Jean_Paul.txt");
}

#[test]
fn edit_slot_places_into_the_current_level_and_clear_empties_it() {
    let mut m = two_level_manager();
    // put something into the current level's first function
    let mut sel = EditSelection {
        selected_instruction: Some(Instruction::Forward),
        selected_condition: None,
        keep_selection: false,
    };
    assert!(m.edit_slot(0, 2, &mut sel));
    let f = &m.get_problem_state(0).unwrap().functions[0];
    assert_eq!(
        f,
        &vec![Instruction::Noop, Instruction::Noop, Instruction::Forward],
    );
    assert!(sel.selected_instruction.is_none());
    // a function index out of range edits nothing
    let mut sel2 = EditSelection {
        selected_instruction: Some(Instruction::TurnLeft),
        selected_condition: None,
        keep_selection: false,
    };
    assert!(!m.edit_slot(5, 0, &mut sel2));
    m.clear_all_instructions();
    assert!(m.get_problem_state(0).unwrap().functions[0].is_empty());
}

#[test]
fn reset_level_state_restores_robot_and_stars_unless_completed() {
    let mut m = two_level_manager();
    let l = level(b"SIZE 2 1\nROBOT 0 0 E\nGRID:\n. R*\n", 0);
    let mut grid = l.make_grid(false);
    let mut robot = l.make_robot();
    robot.x = 1;
    robot.turn_right();
    grid.collect_star_at(1, 0);
    m.reset_level_state(&mut robot, &mut grid);
    assert_eq!((robot.x, robot.y), (0, 0));
    assert_eq!(robot.direction, Direction::East);
    assert_eq!(grid.count_collected_stars(), 0);
    assert_eq!(m.get_problem_state(0).unwrap().stars_collected, 0);
    // on a completed level the stars keep displaying as collected
    m.update_progress(0, 1, 1);
    grid.collect_star_at(1, 0);
    m.reset_level_state(&mut robot, &mut grid);
    assert_eq!(grid.count_collected_stars(), 1);
}
