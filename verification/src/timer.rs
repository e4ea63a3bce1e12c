//! Session timers, counted in whole milliseconds: the overall countdown of
//! a scored session, and the per-level stopwatch that feeds completion
//! times.

use vstd::prelude::*;

verus! {

/// How many milliseconds one minute holds.
pub const MS_PER_MINUTE: u64 = 60000;

/// The one-shot countdown over a scored session. Once the duration has
/// elapsed it is finished for good.
pub struct GameTimer {
    pub duration_ms: u64,
    pub elapsed_ms: u64,
    pub is_finished: bool,
    /// True only right after the tick that crossed the duration.
    pub just_finished: bool,
}

impl GameTimer {
    pub fn new(duration_minutes: u64) -> (r: GameTimer)
        requires
            duration_minutes * MS_PER_MINUTE <= u64::MAX,
        ensures
            r.duration_ms == duration_minutes * MS_PER_MINUTE,
            r.elapsed_ms == 0,
            !r.is_finished,
            !r.just_finished,
    {
        GameTimer {
            duration_ms: duration_minutes * MS_PER_MINUTE,
            elapsed_ms: 0,
            is_finished: false,
            just_finished: false,
        }
    }

    /// Advances the countdown; elapsed time saturates at the duration.
    /// `just_finished` reports exactly the tick that crossed it.
    pub fn tick(&mut self, delta_ms: u64)
        ensures
            old(self).is_finished ==> *final(self) == (GameTimer {
                just_finished: false,
                ..*old(self)
            }),
            !old(self).is_finished ==> {
                let acc = if old(self).elapsed_ms + delta_ms > old(self).duration_ms as int {
                    old(self).duration_ms as int
                } else {
                    old(self).elapsed_ms + delta_ms
                };
                *final(self) == (GameTimer {
                    elapsed_ms: acc as u64,
                    is_finished: acc == old(self).duration_ms,
                    just_finished: acc == old(self).duration_ms,
                    ..*old(self)
                })
            },
    {
        if self.is_finished {
            self.just_finished = false;
        } else {
            let acc = if self.elapsed_ms >= self.duration_ms || delta_ms > self.duration_ms
                - self.elapsed_ms {
                self.duration_ms
            } else {
                self.elapsed_ms + delta_ms
            };
            self.elapsed_ms = acc;
            if acc == self.duration_ms {
                self.is_finished = true;
                self.just_finished = true;
            } else {
                self.just_finished = false;
            }
        }
    }

    pub fn just_finished(&self) -> (r: bool)
        ensures
            r == self.just_finished,
    {
        self.just_finished
    }

    /// Milliseconds left before the countdown expires.
    pub open spec fn spec_remaining_ms(self) -> int {
        if self.is_finished {
            0
        } else {
            self.duration_ms - self.elapsed_ms
        }
    }

    pub fn remaining_ms(&self) -> (r: u64)
        requires
            self.elapsed_ms <= self.duration_ms,
        ensures
            r == self.spec_remaining_ms(),
    {
        if self.is_finished {
            0
        } else {
            self.duration_ms - self.elapsed_ms
        }
    }

    /// Whole minutes left on the countdown.
    pub fn remaining_minutes(&self) -> (r: u64)
        requires
            self.elapsed_ms <= self.duration_ms,
        ensures
            r == self.spec_remaining_ms() / (MS_PER_MINUTE as int),
    {
        self.remaining_ms() / MS_PER_MINUTE
    }

    /// Seconds left within the current minute.
    pub fn remaining_seconds(&self) -> (r: u64)
        requires
            self.elapsed_ms <= self.duration_ms,
        ensures
            r == (self.spec_remaining_ms() / 1000) % 60,
    {
        (self.remaining_ms() / 1000) % 60
    }

    pub fn is_finished(&self) -> (r: bool)
        ensures
            r == self.is_finished,
    {
        self.is_finished
    }
}

/// The per-level stopwatch; its elapsed time feeds completion records.
pub struct LevelTimer {
    pub elapsed_ms: u64,
}

impl LevelTimer {
    pub fn new() -> (r: LevelTimer)
        ensures
            r.elapsed_ms == 0,
    {
        LevelTimer { elapsed_ms: 0 }
    }

    pub fn reset(&mut self)
        ensures
            final(self).elapsed_ms == 0,
    {
        self.elapsed_ms = 0;
    }

    /// Advances the stopwatch; it saturates rather than wrapping.
    pub fn tick(&mut self, delta_ms: u64)
        ensures
            final(self).elapsed_ms as int == if old(self).elapsed_ms + delta_ms > u64::MAX as int {
                u64::MAX as int
            } else {
                old(self).elapsed_ms + delta_ms
            },
    {
        if delta_ms > u64::MAX - self.elapsed_ms {
            self.elapsed_ms = u64::MAX;
        } else {
            self.elapsed_ms = self.elapsed_ms + delta_ms;
        }
    }

    pub fn get_elapsed_ms(&self) -> (r: u64)
        ensures
            r == self.elapsed_ms,
    {
        self.elapsed_ms
    }
}

} // verus!
