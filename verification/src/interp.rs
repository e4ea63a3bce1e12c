//! The interpreter: what one tick of the execution engine does to the
//! robot, the board and the engine's own control state.
//!
//! One tick executes exactly one non-skipped instruction, or stops, or
//! faults. Conditional instructions whose colour does not match the robot's
//! tile are skipped for free within the same tick, and running off the end
//! of a function pops the call stack within the same tick, so a tick never
//! ends on a skip. The whole cycle is mirrored by a specification-level
//! machine, `spec_step`, and the executable step is proved to agree with it
//! exactly.

use vstd::prelude::*;
use crate::engine::{ExecutionEngine, RunError};
use crate::grid::Grid;
use crate::grid::spec_tile_at_dims;
use crate::instruction::{Direction, Instruction};
use crate::robot::Robot;
use crate::tile::{Tile, TileColor};

verus! {

/// The mathematical state of the machine: robot pose and start pose, board,
/// program counter, call stack, and the engine's control flags.
#[verifier::ext_equal]
pub ghost struct StateV {
    pub x: int,
    pub y: int,
    pub dir: Direction,
    pub sx: int,
    pub sy: int,
    pub sdir: Direction,
    pub width: int,
    pub height: int,
    pub tiles: Seq<Option<Tile>>,
    pub cf: int,
    pub ci: int,
    pub stack: Seq<(int, int)>,
    pub executing: bool,
    pub paused: bool,
    pub error: Option<RunError>,
}

/// What executing one (possibly conditional) instruction yields: the next
/// state, the coordinates of a star collected by it, and the fault it hit.
/// On a fault the state is returned unchanged; the step cycle then applies
/// the fault handling.
#[verifier::ext_equal]
pub ghost struct ExecOut {
    pub st: StateV,
    pub event: Option<(int, int)>,
    pub fault: Option<RunError>,
}

/// What one full tick yields.
#[verifier::ext_equal]
pub ghost struct StepOut {
    pub st: StateV,
    pub event: Option<(int, int)>,
    pub fault: Option<RunError>,
}

/// The machine state the concrete engine, robot and grid denote.
pub open spec fn state_of(engine: ExecutionEngine, robot: Robot, grid: Grid) -> StateV {
    StateV {
        x: robot.x as int,
        y: robot.y as int,
        dir: robot.direction,
        sx: robot.start_x as int,
        sy: robot.start_y as int,
        sdir: robot.start_direction,
        width: grid.width as int,
        height: grid.height as int,
        tiles: grid.tiles@,
        cf: engine.current_function as int,
        ci: engine.current_instruction as int,
        stack: engine.call_stack@.map_values(|p: (usize, usize)| (p.0 as int, p.1 as int)),
        executing: engine.is_executing,
        paused: engine.is_paused,
        error: engine.error_message,
    }
}

/// The player's functions as a sequence of instruction sequences.
pub open spec fn fns_view(functions: Vec<Vec<Instruction>>) -> Seq<Seq<Instruction>> {
    functions@.map_values(|f: Vec<Instruction>| f@)
}

/// The colour under the robot, if it stands on a tile.
pub open spec fn spec_tile_color(st: StateV) -> Option<TileColor> {
    match spec_tile_at_dims(st.tiles, st.width, st.height, st.x, st.y) {
        Some(t) => Some(t.color),
        None => None,
    }
}

/// The state with the program counter moved past the current instruction.
pub open spec fn spec_advance(st: StateV) -> StateV {
    StateV { ci: st.ci + 1, ..st }
}

/// The state after the engine stops: control cleared, the retained error
/// untouched.
pub open spec fn spec_stop(st: StateV) -> StateV {
    StateV { executing: false, paused: false, cf: 0, ci: 0, stack: Seq::empty(), ..st }
}

/// The state after a fault: stopped with the fault recorded, and the robot
/// back at its session-start pose.
pub open spec fn spec_fault(st: StateV, e: RunError) -> StateV {
    StateV { error: Some(e), x: st.sx, y: st.sy, dir: st.sdir, ..spec_stop(st) }
}

/// What executing one instruction does. Forward moves along the heading and
/// faults on a missing destination tile; a call pushes the return address
/// and jumps; a conditional recurses into its nested instruction when the
/// colour matches and otherwise merely advances; turning and the no-op
/// advance.
pub open spec fn spec_execute(instr: Instruction, st: StateV, nfuncs: int) -> ExecOut
    decreases instr,
{
    match instr {
        Instruction::Forward => {
            let nx = st.x + st.dir.spec_offset().0;
            let ny = st.y + st.dir.spec_offset().1;
            match spec_tile_at_dims(st.tiles, st.width, st.height, nx, ny) {
                None => ExecOut { st, event: None, fault: Some(RunError::OutOfBounds) },
                Some(t) => {
                    let idx = ny * st.width + nx;
                    if t.has_star && !t.star_collected {
                        ExecOut {
                            st: StateV {
                                x: nx,
                                y: ny,
                                ci: st.ci + 1,
                                tiles: st.tiles.update(
                                    idx,
                                    Some(Tile { star_collected: true, ..t }),
                                ),
                                ..st
                            },
                            event: Some((nx, ny)),
                            fault: None,
                        }
                    } else {
                        ExecOut {
                            st: StateV { x: nx, y: ny, ci: st.ci + 1, ..st },
                            event: None,
                            fault: None,
                        }
                    }
                },
            }
        },
        Instruction::TurnLeft => ExecOut {
            st: StateV { dir: st.dir.spec_turn_left(), ci: st.ci + 1, ..st },
            event: None,
            fault: None,
        },
        Instruction::TurnRight => ExecOut {
            st: StateV { dir: st.dir.spec_turn_right(), ci: st.ci + 1, ..st },
            event: None,
            fault: None,
        },
        Instruction::CallFunction(i) => {
            if (i as int) < nfuncs {
                ExecOut {
                    st: StateV {
                        cf: i as int,
                        ci: 0,
                        stack: st.stack.push((st.cf, st.ci)),
                        ..st
                    },
                    event: None,
                    fault: None,
                }
            } else {
                ExecOut { st, event: None, fault: Some(RunError::InvalidFunction(i)) }
            }
        },
        Instruction::ConditionalRed(inner) => {
            if spec_tile_color(st) == Some(TileColor::Red) {
                spec_execute(*inner, st, nfuncs)
            } else {
                ExecOut { st: spec_advance(st), event: None, fault: None }
            }
        },
        Instruction::ConditionalGreen(inner) => {
            if spec_tile_color(st) == Some(TileColor::Green) {
                spec_execute(*inner, st, nfuncs)
            } else {
                ExecOut { st: spec_advance(st), event: None, fault: None }
            }
        },
        Instruction::ConditionalBlue(inner) => {
            if spec_tile_color(st) == Some(TileColor::Blue) {
                spec_execute(*inner, st, nfuncs)
            } else {
                ExecOut { st: spec_advance(st), event: None, fault: None }
            }
        },
        Instruction::Noop => ExecOut { st: spec_advance(st), event: None, fault: None },
    }
}

/// Whether the tick cycle skips this instruction outright: a conditional
/// whose colour the robot's tile does not show (or the robot stands on no
/// tile). Skipping consumes no tick.
pub open spec fn spec_should_skip(instr: Instruction, st: StateV) -> bool {
    match instr {
        Instruction::ConditionalRed(_) => spec_tile_color(st) != Some(TileColor::Red),
        Instruction::ConditionalGreen(_) => spec_tile_color(st) != Some(TileColor::Green),
        Instruction::ConditionalBlue(_) => spec_tile_color(st) != Some(TileColor::Blue),
        _ => false,
    }
}

/// The state after popping the call stack: the caller resumes at the
/// instruction immediately after the call.
pub open spec fn spec_pop(st: StateV) -> StateV {
    StateV {
        cf: st.stack.last().0,
        ci: st.stack.last().1 + 1,
        stack: st.stack.drop_last(),
        ..st
    }
}

/// How many instruction slots remain in the current function; the measure
/// that bounds the skip-chase within one tick.
pub open spec fn spec_remaining(fns: Seq<Seq<Instruction>>, st: StateV) -> int {
    if 0 <= st.cf < fns.len() && 0 <= st.ci <= fns[st.cf].len() {
        fns[st.cf].len() - st.ci
    } else {
        0
    }
}

/// One full tick of the interpreter against the function table `fns`:
/// a corrupt program counter stops the machine; running off the end of a
/// function returns to the caller, or stops when no caller is left;
/// unsatisfied conditionals are skipped for free; then exactly one
/// instruction executes, and a fault stops the machine, records the fault
/// and puts the robot back at its start pose.
pub open spec fn spec_step(fns: Seq<Seq<Instruction>>, st: StateV) -> StepOut
    decreases st.stack.len(), spec_remaining(fns, st),
{
    if !(0 <= st.cf < fns.len()) {
        StepOut { st: spec_stop(st), event: None, fault: None }
    } else if !(0 <= st.ci < fns[st.cf].len()) {
        if st.stack.len() == 0 {
            StepOut { st: spec_stop(st), event: None, fault: None }
        } else {
            spec_step(fns, spec_pop(st))
        }
    } else if spec_should_skip(fns[st.cf][st.ci], st) {
        spec_step(fns, spec_advance(st))
    } else {
        let out = spec_execute(fns[st.cf][st.ci], st, fns.len() as int);
        match out.fault {
            None => StepOut { st: out.st, event: out.event, fault: None },
            Some(e) => StepOut { st: spec_fault(st, e), event: None, fault: Some(e) },
        }
    }
}

/// Executes one (possibly conditional) instruction against the grid and
/// robot, exactly as the specification-level machine says. On `Ok` the
/// returned coordinates name the tile whose star this instruction
/// collected, if any; on `Err` nothing has been changed, and the caller
/// applies the fault handling.
pub fn execute_instruction(
    instr: &Instruction,
    robot: &mut Robot,
    grid: &mut Grid,
    engine: &mut ExecutionEngine,
    num_functions: usize,
) -> (r: Result<Option<(i32, i32)>, RunError>)
    requires
        old(engine).current_instruction < usize::MAX,
    ensures
        ({
            let out = spec_execute(
                *instr,
                state_of(*old(engine), *old(robot), *old(grid)),
                num_functions as int,
            );
            let post = state_of(*final(engine), *final(robot), *final(grid));
            match r {
                Ok(ev) => out.fault is None && post == out.st && (match ev {
                    Some(p) => out.event == Some((p.0 as int, p.1 as int)),
                    None => out.event is None,
                }),
                Err(e) => out.fault == Some(e) && post == state_of(
                    *old(engine),
                    *old(robot),
                    *old(grid),
                ),
            }
        }),
        final(engine).timer_acc_ms == old(engine).timer_acc_ms,
        final(engine).execution_speed == old(engine).execution_speed,
        final(engine).single_step == old(engine).single_step,
        old(engine).wf_stack() ==> final(engine).wf_stack(),
    decreases *instr,
{
    match instr {
        Instruction::Forward => {
            let (dx, dy) = robot.direction.get_offset();
            let nx64: i64 = robot.x as i64 + dx as i64;
            let ny64: i64 = robot.y as i64 + dy as i64;
            if nx64 < 0 || ny64 < 0 || nx64 >= 0x8000_0000i64 || ny64 >= 0x8000_0000i64 {
                return Err(RunError::OutOfBounds);
            }
            let nx: i32 = nx64 as i32;
            let ny: i32 = ny64 as i32;
            if !grid.is_valid_position(nx, ny) {
                return Err(RunError::OutOfBounds);
            }
            robot.x = nx;
            robot.y = ny;
            let collected = grid.collect_star_at(nx, ny);
            engine.advance_instruction();
            proof {
                let pre = state_of(*old(engine), *old(robot), *old(grid));
                let out = spec_execute(*instr, pre, num_functions as int);
                assert(state_of(*engine, *robot, *grid) =~= out.st);
            }
            if collected {
                Ok(Some((nx, ny)))
            } else {
                Ok(None)
            }
        },
        Instruction::TurnLeft => {
            robot.turn_left();
            engine.advance_instruction();
            proof {
                let pre = state_of(*old(engine), *old(robot), *old(grid));
                let out = spec_execute(*instr, pre, num_functions as int);
                assert(state_of(*engine, *robot, *grid) =~= out.st);
            }
            Ok(None)
        },
        Instruction::TurnRight => {
            robot.turn_right();
            engine.advance_instruction();
            proof {
                let pre = state_of(*old(engine), *old(robot), *old(grid));
                let out = spec_execute(*instr, pre, num_functions as int);
                assert(state_of(*engine, *robot, *grid) =~= out.st);
            }
            Ok(None)
        },
        Instruction::CallFunction(function_id) => {
            if *function_id < num_functions {
                engine.call_function(*function_id);
                proof {
                    let pre = state_of(*old(engine), *old(robot), *old(grid));
                    let out = spec_execute(*instr, pre, num_functions as int);
                    assert(engine.call_stack@.map_values(
                        |p: (usize, usize)| (p.0 as int, p.1 as int),
                    ) =~= pre.stack.push(
                        (old(engine).current_function as int, old(engine).current_instruction as int),
                    ));
                    assert(state_of(*engine, *robot, *grid) =~= out.st);
                }
                Ok(None)
            } else {
                Err(RunError::InvalidFunction(*function_id))
            }
        },
        Instruction::ConditionalRed(inner) => {
            let matches = match grid.get_tile_at(robot.x, robot.y) {
                Some(t) => t.color == TileColor::Red,
                None => false,
            };
            if matches {
                execute_instruction(&**inner, robot, grid, engine, num_functions)
            } else {
                engine.advance_instruction();
                proof {
                    let pre = state_of(*old(engine), *old(robot), *old(grid));
                    assert(state_of(*engine, *robot, *grid) =~= spec_advance(pre));
                }
                Ok(None)
            }
        },
        Instruction::ConditionalGreen(inner) => {
            let matches = match grid.get_tile_at(robot.x, robot.y) {
                Some(t) => t.color == TileColor::Green,
                None => false,
            };
            if matches {
                execute_instruction(&**inner, robot, grid, engine, num_functions)
            } else {
                engine.advance_instruction();
                proof {
                    let pre = state_of(*old(engine), *old(robot), *old(grid));
                    assert(state_of(*engine, *robot, *grid) =~= spec_advance(pre));
                }
                Ok(None)
            }
        },
        Instruction::ConditionalBlue(inner) => {
            let matches = match grid.get_tile_at(robot.x, robot.y) {
                Some(t) => t.color == TileColor::Blue,
                None => false,
            };
            if matches {
                execute_instruction(&**inner, robot, grid, engine, num_functions)
            } else {
                engine.advance_instruction();
                proof {
                    let pre = state_of(*old(engine), *old(robot), *old(grid));
                    assert(state_of(*engine, *robot, *grid) =~= spec_advance(pre));
                }
                Ok(None)
            }
        },
        Instruction::Noop => {
            engine.advance_instruction();
            proof {
                let pre = state_of(*old(engine), *old(robot), *old(grid));
                assert(state_of(*engine, *robot, *grid) =~= spec_advance(pre));
            }
            Ok(None)
        },
    }
}

/// One full tick: skips unsatisfied conditionals and pops exhausted frames
/// for free, executes exactly one instruction, and applies the stop and
/// fault handling — all exactly as `spec_step` says. Returns the
/// coordinates of the star this tick collected, if any.
pub fn execution_step(
    engine: &mut ExecutionEngine,
    robot: &mut Robot,
    grid: &mut Grid,
    functions: &Vec<Vec<Instruction>>,
) -> (ev: Option<(i32, i32)>)
    requires
        old(engine).wf_stack(),
    ensures
        ({
            let out = spec_step(
                fns_view(*functions),
                state_of(*old(engine), *old(robot), *old(grid)),
            );
            let post = state_of(*final(engine), *final(robot), *final(grid));
            post == out.st && (match ev {
                Some(p) => out.event == Some((p.0 as int, p.1 as int)),
                None => out.event is None,
            })
        }),
        final(engine).timer_acc_ms == old(engine).timer_acc_ms,
        final(engine).execution_speed == old(engine).execution_speed,
        final(engine).single_step == old(engine).single_step,
        final(engine).wf_stack(),
{
    let ghost fns = fns_view(*functions);
    let ghost st0 = state_of(*old(engine), *old(robot), *old(grid));
    loop
        invariant
            engine.wf_stack(),
            engine.timer_acc_ms == old(engine).timer_acc_ms,
            engine.execution_speed == old(engine).execution_speed,
            engine.single_step == old(engine).single_step,
            fns == fns_view(*functions),
            st0 == state_of(*old(engine), *old(robot), *old(grid)),
            spec_step(fns, state_of(*engine, *robot, *grid)) == spec_step(fns, st0),
        decreases
            engine.call_stack@.len(),
            spec_remaining(fns, state_of(*engine, *robot, *grid)),
    {
        let ghost cur = state_of(*engine, *robot, *grid);
        let cf = engine.get_current_function();
        if cf >= functions.len() {
            engine.stop();
            proof {
                assert(state_of(*engine, *robot, *grid) =~= spec_stop(cur));
            }
            return None;
        }
        let ci = engine.get_current_instruction();
        let function = &functions[cf];
        if ci >= function.len() {
            if engine.return_from_function() {
                proof {
                    assert(cur.stack.len() > 0);
                    assert(engine.call_stack@.map_values(
                        |p: (usize, usize)| (p.0 as int, p.1 as int),
                    ) =~= cur.stack.drop_last());
                    assert(state_of(*engine, *robot, *grid) =~= spec_pop(cur));
                }
            } else {
                proof {
                    assert(cur.stack.len() == 0);
                    assert(state_of(*engine, *robot, *grid) =~= spec_stop(cur));
                }
                return None;
            }
        } else {
            let instr = &function[ci];
            let should_skip = match instr {
                Instruction::ConditionalRed(_) => {
                    match grid.get_tile_at(robot.x, robot.y) {
                        Some(t) => t.color != TileColor::Red,
                        None => true,
                    }
                },
                Instruction::ConditionalGreen(_) => {
                    match grid.get_tile_at(robot.x, robot.y) {
                        Some(t) => t.color != TileColor::Green,
                        None => true,
                    }
                },
                Instruction::ConditionalBlue(_) => {
                    match grid.get_tile_at(robot.x, robot.y) {
                        Some(t) => t.color != TileColor::Blue,
                        None => true,
                    }
                },
                _ => false,
            };
            proof {
                assert(fns[cur.cf][cur.ci] == *instr);
                assert(should_skip == spec_should_skip(*instr, cur));
            }
            if should_skip {
                engine.advance_instruction();
                proof {
                    assert(state_of(*engine, *robot, *grid) =~= spec_advance(cur));
                }
            } else {
                match execute_instruction(instr, robot, grid, engine, functions.len()) {
                    Ok(event) => {
                        return event;
                    },
                    Err(e) => {
                        engine.set_error(e);
                        robot.reset_to_start();
                        proof {
                            assert(state_of(*engine, *robot, *grid) =~= spec_fault(cur, e));
                        }
                        return None;
                    },
                }
            }
        }
    }
}


/// A forward move aimed at an absent or out-of-bounds cell always faults:
/// the tick records the out-of-bounds fault, stops the run, and the
/// automatic reset leaves the robot at its session-start pose, the board
/// untouched.
pub proof fn lemma_forward_fault(fns: Seq<Seq<Instruction>>, st: StateV)
    requires
        0 <= st.cf < fns.len(),
        0 <= st.ci < fns[st.cf].len(),
        fns[st.cf][st.ci] == Instruction::Forward,
        spec_tile_at_dims(
            st.tiles,
            st.width,
            st.height,
            st.x + st.dir.spec_offset().0,
            st.y + st.dir.spec_offset().1,
        ) is None,
    ensures
        ({
            let out = spec_step(fns, st);
            &&& out.fault == Some(RunError::OutOfBounds)
            &&& out.event is None
            &&& out.st.x == st.sx
            &&& out.st.y == st.sy
            &&& out.st.dir == st.sdir
            &&& out.st.error == Some(RunError::OutOfBounds)
            &&& !out.st.executing
            &&& out.st.tiles == st.tiles
        }),
{
}

/// A star can transition to collected exactly once per session: stepping
/// onto a tile whose star is already collected emits no event and leaves
/// the board's collected count where it was, while stepping onto an
/// uncollected star raises it by exactly one — so re-entering a tile can
/// never double-count.
pub proof fn lemma_star_collected_once(fns: Seq<Seq<Instruction>>, st: StateV)
    requires
        0 <= st.cf < fns.len(),
        0 <= st.ci < fns[st.cf].len(),
        fns[st.cf][st.ci] == Instruction::Forward,
        spec_tile_at_dims(
            st.tiles,
            st.width,
            st.height,
            st.x + st.dir.spec_offset().0,
            st.y + st.dir.spec_offset().1,
        ) is Some,
    ensures
        ({
            let nx = st.x + st.dir.spec_offset().0;
            let ny = st.y + st.dir.spec_offset().1;
            let dest = spec_tile_at_dims(st.tiles, st.width, st.height, nx, ny)->Some_0;
            let out = spec_step(fns, st);
            &&& out.fault is None
            &&& if dest.has_star && !dest.star_collected {
                out.event == Some((nx, ny)) && Grid::spec_collected_stars(out.st.tiles)
                    == Grid::spec_collected_stars(st.tiles) + 1
            } else {
                out.event is None && out.st.tiles == st.tiles
                    && Grid::spec_collected_stars(out.st.tiles) == Grid::spec_collected_stars(
                    st.tiles,
                )
            }
        }),
{
    let nx = st.x + st.dir.spec_offset().0;
    let ny = st.y + st.dir.spec_offset().1;
    let dest = spec_tile_at_dims(st.tiles, st.width, st.height, nx, ny)->Some_0;
    if dest.has_star && !dest.star_collected {
        let idx = ny * st.width + nx;
        crate::grid::lemma_collect_counts_once(st.tiles, idx);
    }
}


/// One frame of the interpreter: advances the interval timer by the frame's
/// elapsed milliseconds and, when it fires, runs one full tick against the
/// player's functions. Returns the coordinates of the star this frame
/// collected, if any.
pub fn execution_system(
    delta_ms: u64,
    engine: &mut ExecutionEngine,
    robot: &mut Robot,
    grid: &mut Grid,
    functions: &Vec<Vec<Instruction>>,
) -> (ev: Option<(i32, i32)>)
    requires
        old(engine).wf_stack(),
    ensures
        !old(engine).spec_tick_fires(delta_ms) ==> ev is None && *final(engine) == old(
            engine,
        ).spec_after_tick(delta_ms) && *final(robot) == *old(robot) && *final(grid) == *old(grid),
        old(engine).spec_tick_fires(delta_ms) ==> ({
            let ticked = old(engine).spec_after_tick(delta_ms);
            let out = spec_step(fns_view(*functions), state_of(ticked, *old(robot), *old(grid)));
            &&& state_of(*final(engine), *final(robot), *final(grid)) == out.st
            &&& match ev {
                Some(p) => out.event == Some((p.0 as int, p.1 as int)),
                None => out.event is None,
            }
            &&& final(engine).timer_acc_ms == ticked.timer_acc_ms
            &&& final(engine).execution_speed == ticked.execution_speed
            &&& final(engine).single_step == ticked.single_step
        }),
        final(engine).wf_stack(),
{
    if engine.tick(delta_ms) {
        execution_step(engine, robot, grid, functions)
    } else {
        None
    }
}


/// Running off the end of a called function returns control to the caller
/// at the instruction immediately after the call — not at the call itself —
/// within the same tick; and a program that runs off its last frame stops
/// naturally, without a fault.
pub proof fn lemma_return_resumes_after_the_call(fns: Seq<Seq<Instruction>>, st: StateV)
    requires
        0 <= st.cf < fns.len(),
        !(0 <= st.ci < fns[st.cf].len()),
    ensures
        st.stack.len() > 0 ==> {
            &&& spec_pop(st).cf == st.stack.last().0
            &&& spec_pop(st).ci == st.stack.last().1 + 1
            &&& spec_step(fns, st) == spec_step(fns, spec_pop(st))
        },
        st.stack.len() == 0 ==> spec_step(fns, st) == (StepOut {
            st: spec_stop(st),
            event: None,
            fault: None,
        }),
{
}

} // verus!
