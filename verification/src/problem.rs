//! Per-level progress: the player's functions, the stars collected this
//! session, the completion flag, and the best completion time.
//!
//! `is_completed` is monotonic: once true it never reverts, even when the
//! stars are reset for a replay. The completion time only ever improves:
//! it holds the minimum over repeated solves, in milliseconds.

use vstd::prelude::*;
use crate::instruction::Instruction;

verus! {

/// A level's player-authored functions plus its progress record.
#[derive(Debug)]
pub struct ProblemState {
    /// One slot sequence per declared function capacity.
    pub functions: Vec<Vec<Instruction>>,
    pub stars_collected: usize,
    pub is_completed: bool,
    /// Best (minimum) completion time over repeated solves, in milliseconds.
    pub completion_time: Option<u64>,
    /// When the current attempt started, in milliseconds.
    pub start_time: u64,
    /// One-shot guard against capturing the time twice for one solve.
    pub completion_time_recorded: bool,
}

impl ProblemState {
    /// The state after resetting the stars for a fresh attempt: the
    /// completion history is kept; the one-shot time guard reopens only on
    /// a level not yet completed.
    pub open spec fn spec_reset_stars(self) -> ProblemState {
        ProblemState {
            stars_collected: 0,
            completion_time_recorded: if self.is_completed {
                self.completion_time_recorded
            } else {
                false
            },
            ..self
        }
    }

    /// The state after testing completion against the level's star count.
    pub open spec fn spec_check_completion(self, total_stars: int) -> ProblemState {
        ProblemState {
            is_completed: self.is_completed || self.stars_collected == total_stars,
            ..self
        }
    }

    /// The state after starting the attempt timer.
    pub open spec fn spec_start_timer(self, current_time: u64) -> ProblemState {
        ProblemState { start_time: current_time, completion_time_recorded: false, ..self }
    }

    /// The state after closing the one-shot time guard of a completed level.
    pub open spec fn spec_record_completion_time(self) -> ProblemState {
        ProblemState {
            completion_time_recorded: self.completion_time_recorded || self.is_completed,
            ..self
        }
    }

    /// The state after offering a new completion time: kept only when it
    /// beats the recorded best.
    pub open spec fn spec_set_completion_time(self, elapsed: u64) -> ProblemState {
        ProblemState {
            completion_time: match self.completion_time {
                None => Some(elapsed),
                Some(best) => if elapsed < best {
                    Some(elapsed)
                } else {
                    Some(best)
                },
            },
            ..self
        }
    }

    /// A fresh state: one empty function per declared capacity, nothing
    /// collected, nothing completed, no time on record.
    pub fn new(num_functions: usize) -> (r: ProblemState)
        ensures
            r.functions@.len() == num_functions,
            forall|i: int| 0 <= i < num_functions ==> (#[trigger] r.functions@[i])@.len() == 0,
            r.stars_collected == 0,
            !r.is_completed,
            r.completion_time is None,
            r.start_time == 0,
            !r.completion_time_recorded,
    {
        let mut functions: Vec<Vec<Instruction>> = Vec::new();
        let mut i: usize = 0;
        while i < num_functions
            invariant
                i <= num_functions,
                functions@.len() == i,
                forall|j: int| 0 <= j < i ==> (#[trigger] functions@[j])@.len() == 0,
            decreases num_functions - i,
        {
            functions.push(Vec::new());
            i = i + 1;
        }
        ProblemState {
            functions,
            stars_collected: 0,
            is_completed: false,
            completion_time: None,
            start_time: 0,
            completion_time_recorded: false,
        }
    }

    pub fn reset_stars(&mut self)
        ensures
            *final(self) == old(self).spec_reset_stars(),
    {
        self.stars_collected = 0;
        if !self.is_completed {
            self.completion_time_recorded = false;
        }
    }

    pub fn check_completion(&mut self, total_stars: usize)
        ensures
            *final(self) == old(self).spec_check_completion(total_stars as int),
    {
        if self.stars_collected == total_stars && !self.is_completed {
            self.is_completed = true;
        }
    }

    pub fn start_timer(&mut self, current_time: u64)
        ensures
            *final(self) == old(self).spec_start_timer(current_time),
    {
        self.start_time = current_time;
        self.completion_time_recorded = false;
    }

    pub fn record_completion_time(&mut self)
        ensures
            *final(self) == old(self).spec_record_completion_time(),
    {
        if !self.completion_time_recorded && self.is_completed {
            self.completion_time_recorded = true;
        }
    }

    pub fn set_completion_time(&mut self, elapsed: u64)
        ensures
            *final(self) == old(self).spec_set_completion_time(elapsed),
    {
        let replace = match self.completion_time {
            None => true,
            Some(best) => elapsed < best,
        };
        if replace {
            self.completion_time = Some(elapsed);
        }
    }
}

/// Collecting every star completes the level, and completion never reverts:
/// whatever later happens to the state — stars reset for a replay, another
/// completion check, timer bookkeeping, a new time — `is_completed` stays
/// true; and the recorded best time only ever decreases.
pub proof fn lemma_completion_monotone(st: ProblemState, total_stars: int, t: u64, elapsed: u64)
    ensures
        st.stars_collected == total_stars ==> st.spec_check_completion(total_stars).is_completed,
        st.is_completed ==> st.spec_check_completion(total_stars).is_completed,
        st.is_completed ==> st.spec_reset_stars().is_completed,
        st.is_completed ==> st.spec_start_timer(t).is_completed,
        st.is_completed ==> st.spec_record_completion_time().is_completed,
        st.is_completed ==> st.spec_set_completion_time(elapsed).is_completed,
        st.completion_time matches Some(best) ==> st.spec_set_completion_time(
            elapsed,
        ).completion_time matches Some(now) && now <= best,
{
}

} // verus!
