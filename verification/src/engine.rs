//! The execution engine's bookkeeping: program counters, the call stack,
//! the running/paused/stopped tri-state, the speed setting with its tick
//! period, the single-step flag and the retained fault message.
//!
//! The repeating interval timer is an explicit accumulator of elapsed
//! milliseconds compared against the period of the current speed; a
//! single-step request forces one immediate firing. Time that passes while
//! paused is not accumulated, so resuming never causes a spurious firing.

use vstd::prelude::*;

verus! {

/// A runtime fault; it aborts the current run and is kept until cleared.
#[derive(Clone, Copy, Debug, PartialEq, Eq, Structural)]
pub enum RunError {
    /// A forward move aimed at a hole or out of the rectangle.
    OutOfBounds,
    /// A call named a function index outside the function table.
    InvalidFunction(usize),
}

/// The three-level speed setting, cycling Normal, Fast, VeryFast.
#[derive(Clone, Copy, Debug, PartialEq, Eq, Structural)]
pub enum ExecutionSpeed {
    Normal,
    Fast,
    VeryFast,
}

impl ExecutionSpeed {
    /// The tick period of this speed, in milliseconds.
    pub open spec fn spec_duration_ms(self) -> u64 {
        match self {
            ExecutionSpeed::Normal => 500,
            ExecutionSpeed::Fast => 250,
            ExecutionSpeed::VeryFast => 20,
        }
    }

    pub fn get_duration_ms(&self) -> (r: u64)
        ensures
            r == self.spec_duration_ms(),
            r > 0,
    {
        match self {
            ExecutionSpeed::Normal => 500,
            ExecutionSpeed::Fast => 250,
            ExecutionSpeed::VeryFast => 20,
        }
    }

    /// The next setting in the cycle.
    pub open spec fn spec_next(self) -> ExecutionSpeed {
        match self {
            ExecutionSpeed::Normal => ExecutionSpeed::Fast,
            ExecutionSpeed::Fast => ExecutionSpeed::VeryFast,
            ExecutionSpeed::VeryFast => ExecutionSpeed::Normal,
        }
    }

    pub fn next(&self) -> (r: ExecutionSpeed)
        ensures
            r == self.spec_next(),
    {
        match self {
            ExecutionSpeed::Normal => ExecutionSpeed::Fast,
            ExecutionSpeed::Fast => ExecutionSpeed::VeryFast,
            ExecutionSpeed::VeryFast => ExecutionSpeed::Normal,
        }
    }

    /// The short label shown for this speed.
    pub fn label(&self) -> (r: &'static str)
        ensures
            self is Normal ==> r@ == "x1"@,
            self is Fast ==> r@ == "x2"@,
            self is VeryFast ==> r@ == "x5"@,
    {
        match self {
            ExecutionSpeed::Normal => "x1",
            ExecutionSpeed::Fast => "x2",
            ExecutionSpeed::VeryFast => "x5",
        }
    }
}

/// The interpreter's control state. One level of player program runs at a
/// time; the (function, instruction) pair is the program counter and the
/// call stack holds the return addresses of pending calls.
pub struct ExecutionEngine {
    /// Milliseconds accumulated towards the next tick while running.
    pub timer_acc_ms: u64,
    pub current_function: usize,
    pub current_instruction: usize,
    /// Saved (caller function, caller instruction) pairs; the saved
    /// instruction still points at the call itself, so returning resumes
    /// one past it.
    pub call_stack: Vec<(usize, usize)>,
    pub is_executing: bool,
    pub is_paused: bool,
    pub execution_speed: ExecutionSpeed,
    pub error_message: Option<RunError>,
    pub single_step: bool,
}

impl ExecutionEngine {
    /// All saved return addresses leave room to advance past the call.
    pub open spec fn wf_stack(self) -> bool {
        forall|i: int|
            0 <= i < self.call_stack@.len() ==> (#[trigger] self.call_stack@[i]).1 < usize::MAX
    }

    pub fn new() -> (r: ExecutionEngine)
        ensures
            r.timer_acc_ms == 0,
            r.current_function == 0,
            r.current_instruction == 0,
            r.call_stack@.len() == 0,
            !r.is_executing,
            !r.is_paused,
            r.execution_speed == ExecutionSpeed::Normal,
            r.error_message is None,
            !r.single_step,
            r.wf_stack(),
    {
        ExecutionEngine {
            timer_acc_ms: 0,
            current_function: 0,
            current_instruction: 0,
            call_stack: Vec::new(),
            is_executing: false,
            is_paused: false,
            execution_speed: ExecutionSpeed::Normal,
            error_message: None,
            single_step: false,
        }
    }

    /// Starts a run: program counters at (0, 0), stack and error cleared,
    /// timer phase reset, state Running.
    pub fn start_execution(&mut self)
        ensures
            final(self).is_executing,
            !final(self).is_paused,
            final(self).current_function == 0,
            final(self).current_instruction == 0,
            final(self).call_stack@.len() == 0,
            final(self).error_message is None,
            final(self).timer_acc_ms == 0,
            final(self).execution_speed == old(self).execution_speed,
            final(self).single_step == old(self).single_step,
            final(self).wf_stack(),
    {
        self.is_executing = true;
        self.is_paused = false;
        self.current_function = 0;
        self.current_instruction = 0;
        self.call_stack.clear();
        self.error_message = None;
        self.timer_acc_ms = 0;
    }

    pub fn pause(&mut self)
        ensures
            *final(self) == (ExecutionEngine { is_paused: true, ..*old(self) }),
    {
        self.is_paused = true;
    }

    pub fn resume(&mut self)
        ensures
            *final(self) == (ExecutionEngine { is_paused: false, ..*old(self) }),
    {
        self.is_paused = false;
    }

    /// Clears all execution state and returns to Stopped. A fault message
    /// recorded by `set_error` stays until a new run or `clear_error`.
    pub fn stop(&mut self)
        ensures
            !final(self).is_executing,
            !final(self).is_paused,
            final(self).current_function == 0,
            final(self).current_instruction == 0,
            final(self).call_stack@.len() == 0,
            final(self).error_message == old(self).error_message,
            final(self).timer_acc_ms == old(self).timer_acc_ms,
            final(self).execution_speed == old(self).execution_speed,
            final(self).single_step == old(self).single_step,
            final(self).wf_stack(),
    {
        self.is_executing = false;
        self.is_paused = false;
        self.current_function = 0;
        self.current_instruction = 0;
        self.call_stack.clear();
    }

    /// Records a fault and stops: the message is retained, everything else
    /// is cleared as by `stop`.
    pub fn set_error(&mut self, error: RunError)
        ensures
            !final(self).is_executing,
            !final(self).is_paused,
            final(self).current_function == 0,
            final(self).current_instruction == 0,
            final(self).call_stack@.len() == 0,
            final(self).error_message == Some(error),
            final(self).timer_acc_ms == old(self).timer_acc_ms,
            final(self).execution_speed == old(self).execution_speed,
            final(self).single_step == old(self).single_step,
            final(self).wf_stack(),
    {
        self.error_message = Some(error);
        self.stop();
    }

    pub fn get_error(&self) -> (r: Option<&RunError>)
        ensures
            match r {
                Some(e) => self.error_message == Some(*e),
                None => self.error_message is None,
            },
    {
        self.error_message.as_ref()
    }

    pub fn clear_error(&mut self)
        ensures
            *final(self) == (ExecutionEngine { error_message: None, ..*old(self) }),
    {
        self.error_message = None;
    }

    /// Cycles the speed setting and restarts the timer phase at the new
    /// period.
    pub fn change_speed(&mut self)
        ensures
            *final(self) == (ExecutionEngine {
                execution_speed: old(self).execution_speed.spec_next(),
                timer_acc_ms: 0,
                ..*old(self)
            }),
    {
        self.execution_speed = self.execution_speed.next();
        self.timer_acc_ms = 0;
    }

    pub fn get_speed(&self) -> (r: ExecutionSpeed)
        ensures
            r == self.execution_speed,
    {
        self.execution_speed
    }

    /// Whether the engine is actively running (not paused, not stopped).
    pub fn is_executing(&self) -> (r: bool)
        ensures
            r == (self.is_executing && !self.is_paused),
    {
        self.is_executing && !self.is_paused
    }

    pub fn is_paused(&self) -> (r: bool)
        ensures
            r == self.is_paused,
    {
        self.is_paused
    }

    pub fn is_stopped(&self) -> (r: bool)
        ensures
            r == !self.is_executing,
    {
        !self.is_executing
    }

    /// The accumulated phase after `delta_ms` more milliseconds; it
    /// saturates rather than wrapping.
    pub open spec fn spec_acc(self, delta_ms: u64) -> int {
        if self.timer_acc_ms + delta_ms > u64::MAX {
            u64::MAX as int
        } else {
            self.timer_acc_ms + delta_ms
        }
    }

    /// Whether advancing the timer by `delta_ms` fires an instruction
    /// attempt: only while actively running, either on a pending
    /// single-step request or when the accumulated phase reaches the
    /// period of the current speed.
    pub open spec fn spec_tick_fires(self, delta_ms: u64) -> bool {
        self.is_executing && !self.is_paused && (self.single_step || self.spec_acc(delta_ms)
            >= self.execution_speed.spec_duration_ms())
    }

    /// The engine after advancing the timer, before any instruction runs:
    /// stopped or paused it is untouched, a consumed single-step request
    /// re-pauses, and a firing keeps the phase remainder.
    pub open spec fn spec_after_tick(self, delta_ms: u64) -> ExecutionEngine {
        if !(self.is_executing && !self.is_paused) {
            self
        } else if self.single_step {
            ExecutionEngine { single_step: false, is_paused: true, ..self }
        } else {
            let acc = self.spec_acc(delta_ms);
            let period = self.execution_speed.spec_duration_ms() as int;
            if acc >= period {
                ExecutionEngine { timer_acc_ms: (acc % period) as u64, ..self }
            } else {
                ExecutionEngine { timer_acc_ms: acc as u64, ..self }
            }
        }
    }

    /// Advances the interval timer by `delta_ms` elapsed milliseconds and
    /// says whether one instruction should be attempted now.
    ///
    /// Only while actively running does time accumulate, so time spent
    /// paused does not count and resuming cannot cause a spurious firing.
    /// A pending single-step request fires immediately, consuming the
    /// request and re-pausing.
    pub fn tick(&mut self, delta_ms: u64) -> (fire: bool)
        ensures
            fire == old(self).spec_tick_fires(delta_ms),
            *final(self) == old(self).spec_after_tick(delta_ms),
    {
        if self.is_executing && !self.is_paused {
            if self.single_step {
                self.single_step = false;
                self.is_paused = true;
                true
            } else {
                let acc = if delta_ms > u64::MAX - self.timer_acc_ms {
                    u64::MAX
                } else {
                    self.timer_acc_ms + delta_ms
                };
                let period = self.execution_speed.get_duration_ms();
                if acc >= period {
                    self.timer_acc_ms = acc % period;
                    true
                } else {
                    self.timer_acc_ms = acc;
                    false
                }
            }
        } else {
            false
        }
    }

    pub fn get_current_function(&self) -> (r: usize)
        ensures
            r == self.current_function,
    {
        self.current_function
    }

    pub fn get_current_instruction(&self) -> (r: usize)
        ensures
            r == self.current_instruction,
    {
        self.current_instruction
    }

    /// Moves the program counter past the current instruction.
    pub fn advance_instruction(&mut self)
        requires
            old(self).current_instruction < usize::MAX,
        ensures
            *final(self) == (ExecutionEngine {
                current_instruction: (old(self).current_instruction + 1) as usize,
                ..*old(self)
            }),
    {
        self.current_instruction = self.current_instruction + 1;
    }

    /// Jumps into the named function, saving the current program counter as
    /// the return address. The counter of the caller's frame is not
    /// advanced: returning already resumes one past the saved instruction.
    pub fn call_function(&mut self, function_id: usize)
        ensures
            *final(self) == (ExecutionEngine {
                current_function: function_id,
                current_instruction: 0,
                call_stack: final(self).call_stack,
                ..*old(self)
            }),
            final(self).call_stack@ == old(self).call_stack@.push(
                (old(self).current_function, old(self).current_instruction),
            ),
            old(self).wf_stack() && old(self).current_instruction < usize::MAX
                ==> final(self).wf_stack(),
    {
        self.call_stack.push((self.current_function, self.current_instruction));
        self.current_function = function_id;
        self.current_instruction = 0;
    }

    /// Pops the call stack: control returns to the caller at the
    /// instruction immediately after the call. With an empty stack the
    /// program has naturally finished, and the engine stops.
    pub fn return_from_function(&mut self) -> (returned: bool)
        requires
            old(self).wf_stack(),
        ensures
            old(self).call_stack@.len() > 0 ==> returned && *final(self) == (ExecutionEngine {
                current_function: old(self).call_stack@.last().0,
                current_instruction: (old(self).call_stack@.last().1 + 1) as usize,
                call_stack: final(self).call_stack,
                ..*old(self)
            }) && final(self).call_stack@ == old(self).call_stack@.drop_last(),
            old(self).call_stack@.len() == 0 ==> !returned && !final(self).is_executing
                && !final(self).is_paused && final(self).current_function == 0
                && final(self).current_instruction == 0 && final(self).call_stack@.len() == 0
                && final(self).error_message == old(self).error_message
                && final(self).timer_acc_ms == old(self).timer_acc_ms
                && final(self).execution_speed == old(self).execution_speed
                && final(self).single_step == old(self).single_step,
            final(self).wf_stack(),
    {
        match self.call_stack.pop() {
            Some((prev_function, prev_instruction)) => {
                proof {
                    assert(old(self).call_stack@.last() == (prev_function, prev_instruction));
                }
                self.current_function = prev_function;
                self.current_instruction = prev_instruction + 1;
                true
            },
            None => {
                self.stop();
                false
            },
        }
    }

    pub fn set_single_step(&mut self, value: bool)
        ensures
            *final(self) == (ExecutionEngine { single_step: value, ..*old(self) }),
    {
        self.single_step = value;
    }

    /// Forces the interval timer to its period, so the next tick fires at
    /// once and executes a single instruction.
    pub fn force_single_step(&mut self)
        ensures
            *final(self) == (ExecutionEngine {
                timer_acc_ms: old(self).execution_speed.spec_duration_ms(),
                ..*old(self)
            }),
    {
        self.timer_acc_ms = self.execution_speed.get_duration_ms();
    }
}

} // verus!
