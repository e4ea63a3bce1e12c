use robozzle::engine::{ExecutionEngine, RunError};
use robozzle::grid::Grid;
use robozzle::instruction::{Direction, Instruction};
use robozzle::interp::{execution_step, execution_system};
use robozzle::manager::{LevelManager, LevelType};
use robozzle::robot::Robot;
use robozzle::tile::{Tile, TileColor};

fn running_engine() -> ExecutionEngine {
    let mut e = ExecutionEngine::new();
    e.start_execution();
    e
}

fn tile(x: i32, y: i32, color: TileColor, star: bool) -> Option<Tile> {
    Some(Tile::new(x, y, color, star))
}

/// A 3-by-1 strip: gray, red with a star, gray.
fn strip() -> Grid {
    Grid {
        width: 3,
        height: 1,
        tiles: vec![
            tile(0, 0, TileColor::Gray, false),
            tile(1, 0, TileColor::Red, true),
            tile(2, 0, TileColor::Gray, false),
        ],
    }
}

#[test]
fn two_forwards_collect_the_star_and_complete_the_level() {
    let mut grid = strip();
    let mut robot = Robot::new(0, 0, Direction::East);
    let mut engine = running_engine();
    let functions = vec![vec![Instruction::Forward, Instruction::Forward]];

    let mut manager = LevelManager::new();
    manager.switch_level_type(LevelType::Normal);
    let level = robozzle::level::LevelData::parse(
        b"SIZE 3 1\nROBOT 0 0 EAST\nGRID:\n. R* .\n",
        0,
    )
    .unwrap();
    let total = level.total_stars;
    assert_eq!(total, 1);
    manager.set_normal_levels(vec![level]);

    // first tick at normal speed
    assert!(engine.tick(500));
    let ev = execution_step(&mut engine, &mut robot, &mut grid, &functions);
    assert_eq!(ev, Some((1, 0)));
    let stars = grid.count_collected_stars();
    manager.update_progress(0, stars, total);

    // second tick
    assert!(engine.tick(500));
    let ev = execution_step(&mut engine, &mut robot, &mut grid, &functions);
    assert_eq!(ev, None);

    assert_eq!((robot.x, robot.y), (2, 0));
    let stars = grid.count_collected_stars();
    assert_eq!(stars, 1);
    manager.update_progress(0, stars, total);
    assert!(manager.get_problem_state(0).unwrap().is_completed);
    assert_eq!(manager.get_problem_state(0).unwrap().stars_collected, 1);
}

#[test]
fn re_entering_a_collected_star_does_not_double_count() {
    let mut grid = strip();
    let mut robot = Robot::new(0, 0, Direction::East);
    let mut engine = running_engine();
    // forward onto the star, back off it, and onto it again
    let functions = vec![vec![
        Instruction::Forward,
        Instruction::TurnLeft,
        Instruction::TurnLeft,
        Instruction::Forward,
        Instruction::TurnLeft,
        Instruction::TurnLeft,
        Instruction::Forward,
    ]];
    let mut events = 0;
    for _ in 0..7 {
        if execution_step(&mut engine, &mut robot, &mut grid, &functions).is_some() {
            events += 1;
        }
    }
    assert_eq!(events, 1);
    assert_eq!(grid.count_collected_stars(), 1);
    assert_eq!((robot.x, robot.y), (1, 0));
}

#[test]
fn call_runs_the_callee_and_returns_past_the_call() {
    let mut grid = strip();
    let mut robot = Robot::new(0, 0, Direction::North);
    let mut engine = running_engine();
    let functions = vec![
        vec![Instruction::CallFunction(1)],
        vec![Instruction::TurnLeft],
    ];
    // tick 1: the call jumps into function 1
    execution_step(&mut engine, &mut robot, &mut grid, &functions);
    assert_eq!(engine.get_current_function(), 1);
    // tick 2: the callee's turn executes
    execution_step(&mut engine, &mut robot, &mut grid, &functions);
    assert_eq!(robot.direction, Direction::West);
    // running off the callee's end returns control past the call, and the
    // exhausted caller with an empty stack naturally stops the program
    execution_step(&mut engine, &mut robot, &mut grid, &functions);
    assert!(engine.is_stopped());
    assert!(engine.get_error().is_none());
    assert_eq!(robot.direction, Direction::West);
}

#[test]
fn forward_off_the_grid_faults_and_resets_the_robot() {
    let mut grid = strip();
    let mut robot = Robot::new(2, 0, Direction::East);
    let mut engine = running_engine();
    let functions = vec![vec![Instruction::Forward]];
    let ev = execution_step(&mut engine, &mut robot, &mut grid, &functions);
    assert_eq!(ev, None);
    assert!(engine.is_stopped());
    assert_eq!(engine.get_error(), Some(&RunError::OutOfBounds));
    // the automatic reset leaves the robot at its session-start pose
    assert_eq!((robot.x, robot.y), (2, 0));
    assert_eq!(robot.direction, Direction::East);
}

#[test]
fn forward_into_a_hole_faults_too() {
    let mut grid = Grid {
        width: 2,
        height: 1,
        tiles: vec![tile(0, 0, TileColor::Gray, false), None],
    };
    let mut robot = Robot::new(0, 0, Direction::East);
    let mut engine = running_engine();
    let functions = vec![vec![Instruction::Forward]];
    execution_step(&mut engine, &mut robot, &mut grid, &functions);
    assert_eq!(engine.get_error(), Some(&RunError::OutOfBounds));
    assert_eq!((robot.x, robot.y), (0, 0));
}

#[test]
fn calling_a_missing_function_faults() {
    let mut grid = strip();
    let mut robot = Robot::new(0, 0, Direction::East);
    let mut engine = running_engine();
    let functions = vec![vec![Instruction::CallFunction(7)]];
    execution_step(&mut engine, &mut robot, &mut grid, &functions);
    assert!(engine.is_stopped());
    assert_eq!(engine.get_error(), Some(&RunError::InvalidFunction(7)));
}

#[test]
fn nested_conditional_on_partial_match_skips_without_faulting() {
    // the robot stands on a red tile that is not blue, before a hole: a
    // faulting forward hides inside the conditionals but must not run
    let mut grid = Grid {
        width: 2,
        height: 1,
        tiles: vec![tile(0, 0, TileColor::Red, false), None],
    };
    let mut robot = Robot::new(0, 0, Direction::East);
    let mut engine = running_engine();
    let functions = vec![vec![Instruction::ConditionalRed(Box::new(
        Instruction::ConditionalBlue(Box::new(Instruction::Forward)),
    ))]];
    let ev = execution_step(&mut engine, &mut robot, &mut grid, &functions);
    assert_eq!(ev, None);
    assert!(engine.get_error().is_none());
    assert_eq!((robot.x, robot.y), (0, 0));
    // the single tick got past the conditional
    assert_eq!(engine.get_current_instruction(), 1);
    assert!(!engine.is_stopped());
}

#[test]
fn conditional_match_executes_the_inner_instruction() {
    let mut grid = strip();
    let mut robot = Robot::new(1, 0, Direction::East);
    robot.start_x = 1;
    let mut engine = running_engine();
    let functions = vec![vec![Instruction::ConditionalRed(Box::new(Instruction::TurnLeft))]];
    execution_step(&mut engine, &mut robot, &mut grid, &functions);
    assert_eq!(robot.direction, Direction::North);
    assert_eq!(engine.get_current_instruction(), 1);
}

#[test]
fn conditional_fault_propagates_through_the_nesting() {
    // a matching conditional whose inner forward runs off the grid still
    // aborts the run and resets the robot
    let mut grid = Grid {
        width: 1,
        height: 1,
        tiles: vec![tile(0, 0, TileColor::Green, false)],
    };
    let mut robot = Robot::new(0, 0, Direction::North);
    let mut engine = running_engine();
    let functions = vec![vec![Instruction::ConditionalGreen(Box::new(Instruction::Forward))]];
    execution_step(&mut engine, &mut robot, &mut grid, &functions);
    assert_eq!(engine.get_error(), Some(&RunError::OutOfBounds));
    assert_eq!((robot.x, robot.y), (0, 0));
}

#[test]
fn unsatisfied_conditionals_are_skipped_for_free_within_one_tick() {
    let mut grid = strip();
    let mut robot = Robot::new(0, 0, Direction::East);
    let mut engine = running_engine();
    let functions = vec![vec![
        Instruction::ConditionalBlue(Box::new(Instruction::Forward)),
        Instruction::ConditionalGreen(Box::new(Instruction::Forward)),
        Instruction::TurnRight,
    ]];
    // one tick skips both mismatched conditionals and executes the turn
    execution_step(&mut engine, &mut robot, &mut grid, &functions);
    assert_eq!(robot.direction, Direction::South);
    assert_eq!(engine.get_current_instruction(), 3);
    assert_eq!((robot.x, robot.y), (0, 0));
}

#[test]
fn noop_only_advances() {
    let mut grid = strip();
    let mut robot = Robot::new(0, 0, Direction::East);
    let mut engine = running_engine();
    let functions = vec![vec![Instruction::Noop, Instruction::TurnLeft]];
    execution_step(&mut engine, &mut robot, &mut grid, &functions);
    assert_eq!((robot.x, robot.y), (0, 0));
    assert_eq!(robot.direction, Direction::East);
    assert_eq!(engine.get_current_instruction(), 1);
}

#[test]
fn off_grid_robot_skips_conditionals() {
    // the robot stands on a hole: every conditional is a skip
    let mut grid = Grid { width: 1, height: 1, tiles: vec![None] };
    let mut robot = Robot::new(0, 0, Direction::East);
    let mut engine = running_engine();
    let functions = vec![vec![
        Instruction::ConditionalRed(Box::new(Instruction::TurnLeft)),
        Instruction::TurnRight,
    ]];
    execution_step(&mut engine, &mut robot, &mut grid, &functions);
    assert_eq!(robot.direction, Direction::South);
}

#[test]
fn corrupt_function_counter_stops_defensively() {
    let mut grid = strip();
    let mut robot = Robot::new(0, 0, Direction::East);
    let mut engine = running_engine();
    let functions: Vec<Vec<Instruction>> = vec![];
    execution_step(&mut engine, &mut robot, &mut grid, &functions);
    assert!(engine.is_stopped());
    assert!(engine.get_error().is_none());
}

#[test]
fn frames_below_the_period_execute_nothing() {
    let mut grid = strip();
    let mut robot = Robot::new(0, 0, Direction::East);
    let mut engine = running_engine();
    let functions = vec![vec![Instruction::Forward]];
    assert_eq!(execution_system(300, &mut engine, &mut robot, &mut grid, &functions), None);
    assert_eq!((robot.x, robot.y), (0, 0));
    // the accumulated phase crosses the normal period on this frame, and
    // the move lands on the starred tile
    let ev = execution_system(300, &mut engine, &mut robot, &mut grid, &functions);
    assert_eq!(ev, Some((1, 0)));
    assert_eq!((robot.x, robot.y), (1, 0));
}
