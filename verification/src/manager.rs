//! The progress tracker over two level collections: the tutorial set and
//! the scored set, each with its own per-level `ProblemState` map and a
//! current-level index. Advancing past a tutorial level is gated on its
//! completion; completion aggregates fold over a whole collection.

use std::collections::HashMap;
use vstd::prelude::*;
use vstd::string::StringSliceAdditionalSpecFns;
use crate::edit::{
    handle_slot_click,
    spec_slot_click_function,
    spec_slot_click_selection,
    EditSelection,
};
use crate::grid::Grid;
use crate::level::LevelData;
use crate::robot::Robot;
use crate::player::PlayerInfo;
use crate::problem::ProblemState;
use crate::text::{bytes_to_string, decoded_text, spec_dec, u64_to_string};

verus! {

broadcast use vstd::std_specs::hash::group_hash_axioms;

/// Which of the two level collections is active.
#[derive(Clone, Copy, Debug, PartialEq, Eq, Structural)]
pub enum LevelType {
    Tutorial,
    Normal,
}

/// A per-level state as it comes out of `ProblemState::new`.
pub open spec fn is_fresh_state(st: ProblemState, n: int) -> bool {
    &&& st.functions@.len() == n
    &&& forall|i: int| 0 <= i < n ==> (#[trigger] st.functions@[i])@.len() == 0
    &&& st.stars_collected == 0
    &&& !st.is_completed
    &&& st.completion_time is None
    &&& st.start_time == 0
    &&& !st.completion_time_recorded
}

/// The two level collections and their progress maps.
pub struct LevelManager {
    pub current_level_id: usize,
    pub current_level_type: LevelType,
    pub tutorial_levels: Vec<LevelData>,
    pub normal_levels: Vec<LevelData>,
    pub tutorial_states: HashMap<usize, ProblemState>,
    pub normal_states: HashMap<usize, ProblemState>,
}

impl LevelManager {
    /// The levels of the active collection.
    pub open spec fn spec_levels(self) -> Seq<LevelData> {
        match self.current_level_type {
            LevelType::Tutorial => self.tutorial_levels@,
            LevelType::Normal => self.normal_levels@,
        }
    }

    /// The progress map of the active collection.
    pub open spec fn spec_states(self) -> Map<usize, ProblemState> {
        match self.current_level_type {
            LevelType::Tutorial => self.tutorial_states@,
            LevelType::Normal => self.normal_states@,
        }
    }

    /// The active level, when the current index names one.
    pub open spec fn spec_current_level(self) -> Option<LevelData> {
        if self.current_level_id < self.spec_levels().len() {
            Some(self.spec_levels()[self.current_level_id as int])
        } else {
            None
        }
    }

    /// Whether every level of the given collection has a completed state;
    /// vacuously true of an empty collection.
    pub open spec fn spec_all_completed(
        levels: Seq<LevelData>,
        states: Map<usize, ProblemState>,
    ) -> bool {
        forall|i: int|
            0 <= i < levels.len() ==> states.contains_key(#[trigger] levels[i].id)
                && states[levels[i].id].is_completed
    }

    pub fn new() -> (r: LevelManager)
        ensures
            r.current_level_id == 0,
            r.current_level_type == LevelType::Tutorial,
            r.tutorial_levels@.len() == 0,
            r.normal_levels@.len() == 0,
            r.tutorial_states@ == Map::<usize, ProblemState>::empty(),
            r.normal_states@ == Map::<usize, ProblemState>::empty(),
    {
        LevelManager {
            current_level_id: 0,
            current_level_type: LevelType::Tutorial,
            tutorial_levels: Vec::new(),
            normal_levels: Vec::new(),
            tutorial_states: HashMap::new(),
            normal_states: HashMap::new(),
        }
    }

    /// One fresh state per level, inserted into the given map keyed by
    /// level id; later duplicates overwrite earlier ones.
    fn make_states(levels: &Vec<LevelData>, states: &mut HashMap<usize, ProblemState>)
        ensures
            forall|k: usize|
                final(states)@.contains_key(k) <==> (old(states)@.contains_key(k) || exists|i: int|
                    0 <= i < levels@.len() && (#[trigger] levels@[i]).id == k),
            forall|k: usize|
                old(states)@.contains_key(k) && (forall|i: int|
                    0 <= i < levels@.len() ==> (#[trigger] levels@[i]).id != k) ==> final(states)@[k] == old(states)@[k],
            forall|i: int|
                0 <= i < levels@.len() && (forall|j: int|
                    i < j < levels@.len() ==> (#[trigger] levels@[j]).id != levels@[i].id)
                    ==> is_fresh_state(
                    final(states)@[(#[trigger] levels@[i]).id],
                    levels@[i].function_limits@.len() as int,
                ),
    {
        let mut i: usize = 0;
        while i < levels.len()
            invariant
                i <= levels@.len(),
                forall|k: usize|
                    states@.contains_key(k) <==> (old(states)@.contains_key(k) || exists|t: int|
                        0 <= t < i && (#[trigger] levels@[t]).id == k),
                forall|k: usize|
                    old(states)@.contains_key(k) && (forall|t: int|
                        0 <= t < i ==> (#[trigger] levels@[t]).id != k) ==> states@[k] == old(states)@[k],
                forall|t: int|
                    0 <= t < i && (forall|j: int|
                        t < j < i ==> (#[trigger] levels@[j]).id != levels@[t].id)
                        ==> is_fresh_state(
                        states@[(#[trigger] levels@[t]).id],
                        levels@[t].function_limits@.len() as int,
                    ),
            decreases levels@.len() - i,
        {
            let st = ProblemState::new(levels[i].function_limits.len());
            states.insert(levels[i].id, st);
            i = i + 1;
        }
    }

    /// Installs the tutorial collection, giving each level a fresh state.
    pub fn set_tutorial_levels(&mut self, levels: Vec<LevelData>)
        ensures
            final(self).tutorial_levels == levels,
            final(self).normal_levels == old(self).normal_levels,
            final(self).normal_states@ == old(self).normal_states@,
            final(self).current_level_id == old(self).current_level_id,
            final(self).current_level_type == old(self).current_level_type,
            forall|k: usize|
                final(self).tutorial_states@.contains_key(k) <==> (old(self).tutorial_states@.contains_key(k) || exists|i: int|
                    0 <= i < levels@.len() && (#[trigger] levels@[i]).id == k),
            forall|k: usize|
                old(self).tutorial_states@.contains_key(k) && (forall|i: int|
                    0 <= i < levels@.len() ==> (#[trigger] levels@[i]).id != k) ==> final(self).tutorial_states@[k] == old(self).tutorial_states@[k],
            forall|i: int|
                0 <= i < levels@.len() && (forall|j: int|
                    i < j < levels@.len() ==> (#[trigger] levels@[j]).id != levels@[i].id)
                    ==> is_fresh_state(
                    final(self).tutorial_states@[(#[trigger] levels@[i]).id],
                    levels@[i].function_limits@.len() as int,
                ),
    {
        Self::make_states(&levels, &mut self.tutorial_states);
        self.tutorial_levels = levels;
    }

    /// Installs the scored collection, giving each level a fresh state.
    pub fn set_normal_levels(&mut self, levels: Vec<LevelData>)
        ensures
            final(self).normal_levels == levels,
            final(self).tutorial_levels == old(self).tutorial_levels,
            final(self).tutorial_states@ == old(self).tutorial_states@,
            final(self).current_level_id == old(self).current_level_id,
            final(self).current_level_type == old(self).current_level_type,
            forall|k: usize|
                final(self).normal_states@.contains_key(k) <==> (old(self).normal_states@.contains_key(k) || exists|i: int|
                    0 <= i < levels@.len() && (#[trigger] levels@[i]).id == k),
            forall|k: usize|
                old(self).normal_states@.contains_key(k) && (forall|i: int|
                    0 <= i < levels@.len() ==> (#[trigger] levels@[i]).id != k) ==> final(self).normal_states@[k] == old(self).normal_states@[k],
            forall|i: int|
                0 <= i < levels@.len() && (forall|j: int|
                    i < j < levels@.len() ==> (#[trigger] levels@[j]).id != levels@[i].id)
                    ==> is_fresh_state(
                    final(self).normal_states@[(#[trigger] levels@[i]).id],
                    levels@[i].function_limits@.len() as int,
                ),
    {
        Self::make_states(&levels, &mut self.normal_states);
        self.normal_levels = levels;
    }

    /// The active level's descriptor.
    pub fn get_current_level(&self) -> (r: Option<&LevelData>)
        ensures
            match r {
                Some(l) => self.spec_current_level() == Some(*l),
                None => self.spec_current_level() is None,
            },
    {
        let levels = match self.current_level_type {
            LevelType::Tutorial => &self.tutorial_levels,
            LevelType::Normal => &self.normal_levels,
        };
        if self.current_level_id < levels.len() {
            Some(&levels[self.current_level_id])
        } else {
            None
        }
    }

    pub fn switch_to_level(&mut self, level_id: usize)
        ensures
            *final(self) == (LevelManager { current_level_id: level_id, ..*old(self) }),
    {
        self.current_level_id = level_id;
    }

    /// Switching collections also rewinds the current index to the first
    /// level.
    pub fn switch_level_type(&mut self, level_type: LevelType)
        ensures
            *final(self) == (LevelManager {
                current_level_type: level_type,
                current_level_id: 0,
                ..*old(self)
            }),
    {
        self.current_level_type = level_type;
        self.current_level_id = 0;
    }

    /// The progress state of the given level in the active collection.
    pub fn get_problem_state(&self, level_id: usize) -> (r: Option<&ProblemState>)
        ensures
            match r {
                Some(st) => self.spec_states().contains_key(level_id)
                    && self.spec_states()[level_id] == *st,
                None => !self.spec_states().contains_key(level_id),
            },
    {
        match self.current_level_type {
            LevelType::Tutorial => self.tutorial_states.get(&level_id),
            LevelType::Normal => self.normal_states.get(&level_id),
        }
    }

    pub fn get_levels(&self) -> (r: &Vec<LevelData>)
        ensures
            r@ == self.spec_levels(),
    {
        match self.current_level_type {
            LevelType::Tutorial => &self.tutorial_levels,
            LevelType::Normal => &self.normal_levels,
        }
    }

    pub fn get_levels_count(&self) -> (r: usize)
        ensures
            r == self.spec_levels().len(),
    {
        match self.current_level_type {
            LevelType::Tutorial => self.tutorial_levels.len(),
            LevelType::Normal => self.normal_levels.len(),
        }
    }

    pub fn get_current_level_type(&self) -> (r: LevelType)
        ensures
            r == self.current_level_type,
    {
        self.current_level_type
    }

    /// Whether advancing past the current level is allowed: its state
    /// exists and is completed.
    pub open spec fn spec_can_proceed(self) -> bool {
        match self.spec_current_level() {
            Some(l) => self.spec_states().contains_key(l.id) && self.spec_states()[
                l.id
            ].is_completed,
            None => false,
        }
    }

    pub fn can_proceed_to_next(&self) -> (r: bool)
        ensures
            r == self.spec_can_proceed(),
    {
        let level_id = match self.get_current_level() {
            Some(level) => level.id,
            None => {
                return false;
            },
        };
        match self.get_problem_state(level_id) {
            Some(st) => st.is_completed,
            None => false,
        }
    }

    /// Advances to the next level if one exists; in the tutorial
    /// collection only once the current level is completed.
    pub fn try_next_level(&mut self) -> (r: Option<usize>)
        ensures
            old(self).current_level_type == LevelType::Tutorial && !old(self).spec_can_proceed()
                ==> r is None && *final(self) == *old(self),
            !(old(self).current_level_type == LevelType::Tutorial && !old(self).spec_can_proceed()) ==> {
                if old(self).current_level_id + 1 < old(self).spec_levels().len() {
                    r == Some((old(self).current_level_id + 1) as usize) && *final(self)
                        == (LevelManager {
                        current_level_id: (old(self).current_level_id + 1) as usize,
                        ..*old(self)
                    })
                } else {
                    r is None && *final(self) == *old(self)
                }
            },
    {
        if self.current_level_type == LevelType::Tutorial && !self.can_proceed_to_next() {
            return None;
        }
        let count = self.get_levels_count();
        if self.current_level_id == usize::MAX {
            proof {
                assert(old(self).current_level_id + 1 > count);
            }
            return None;
        }
        let next_id = self.current_level_id + 1;
        if next_id < count {
            self.current_level_id = next_id;
            Some(next_id)
        } else {
            None
        }
    }

    /// Whether every tutorial level is completed; vacuously true outside
    /// the tutorial collection and on an empty collection.
    pub fn are_all_tutorials_completed(&self) -> (r: bool)
        ensures
            r == (self.current_level_type != LevelType::Tutorial || LevelManager::spec_all_completed(
                self.tutorial_levels@,
                self.tutorial_states@,
            )),
    {
        if self.current_level_type != LevelType::Tutorial {
            return true;
        }
        Self::all_completed(&self.tutorial_levels, &self.tutorial_states)
    }

    /// Whether every scored level is completed.
    pub fn are_all_levels_completed(&self) -> (r: bool)
        ensures
            r == LevelManager::spec_all_completed(self.normal_levels@, self.normal_states@),
    {
        Self::all_completed(&self.normal_levels, &self.normal_states)
    }

    /// Everything but the active collection's state map is unchanged, and
    /// that map gained exactly the given state under the given key.
    pub open spec fn spec_states_updated(
        old_m: LevelManager,
        new_m: LevelManager,
        level_id: usize,
        st: ProblemState,
    ) -> bool {
        &&& new_m.current_level_id == old_m.current_level_id
        &&& new_m.current_level_type == old_m.current_level_type
        &&& new_m.tutorial_levels == old_m.tutorial_levels
        &&& new_m.normal_levels == old_m.normal_levels
        &&& new_m.spec_states() == old_m.spec_states().insert(level_id, st)
        &&& match old_m.current_level_type {
            LevelType::Tutorial => new_m.normal_states@ == old_m.normal_states@,
            LevelType::Normal => new_m.tutorial_states@ == old_m.tutorial_states@,
        }
    }

    /// Nothing observable changed: all plain fields equal and both state
    /// maps denote the same mappings.
    pub open spec fn spec_same(old_m: LevelManager, new_m: LevelManager) -> bool {
        &&& new_m.current_level_id == old_m.current_level_id
        &&& new_m.current_level_type == old_m.current_level_type
        &&& new_m.tutorial_levels == old_m.tutorial_levels
        &&& new_m.normal_levels == old_m.normal_levels
        &&& new_m.tutorial_states@ == old_m.tutorial_states@
        &&& new_m.normal_states@ == old_m.normal_states@
    }

    /// Takes the given level's state out of the active map, if present.
    fn take_state(&mut self, level_id: usize) -> (r: Option<ProblemState>)
        ensures
            final(self).current_level_id == old(self).current_level_id,
            final(self).current_level_type == old(self).current_level_type,
            final(self).tutorial_levels == old(self).tutorial_levels,
            final(self).normal_levels == old(self).normal_levels,
            match old(self).current_level_type {
                LevelType::Tutorial => final(self).normal_states@ == old(self).normal_states@,
                LevelType::Normal => final(self).tutorial_states@ == old(self).tutorial_states@,
            },
            match r {
                Some(st) => old(self).spec_states().contains_key(level_id) && st == old(self).spec_states()[level_id] && final(self).spec_states() == old(self).spec_states().remove(level_id),
                None => !old(self).spec_states().contains_key(level_id) && final(self).spec_states() == old(self).spec_states(),
            },
    {
        let r = match self.current_level_type {
            LevelType::Tutorial => self.tutorial_states.remove(&level_id),
            LevelType::Normal => self.normal_states.remove(&level_id),
        };
        proof {
            if r is None {
                assert(old(self).spec_states().remove(level_id) =~= old(self).spec_states());
            }
        }
        r
    }

    /// Puts a level state into the active map.
    fn put_state(&mut self, level_id: usize, st: ProblemState)
        ensures
            LevelManager::spec_states_updated(*old(self), *final(self), level_id, st),
    {
        match self.current_level_type {
            LevelType::Tutorial => {
                self.tutorial_states.insert(level_id, st);
            },
            LevelType::Normal => {
                self.normal_states.insert(level_id, st);
            },
        }
    }

    /// Counts the given level's collected stars and marks it completed once
    /// they reach the level's total; says whether they do, so the caller
    /// can stop the run. A level whose state is missing is left untouched.
    pub fn update_progress(&mut self, level_id: usize, stars_collected: usize, total_stars: usize)
        -> (all_collected: bool)
        ensures
            !old(self).spec_states().contains_key(level_id) ==> LevelManager::spec_same(
                *old(self),
                *final(self),
            ) && !all_collected,
            old(self).spec_states().contains_key(level_id) ==> {
                let st = old(self).spec_states()[level_id];
                &&& all_collected == (stars_collected >= total_stars)
                &&& LevelManager::spec_states_updated(
                    *old(self),
                    *final(self),
                    level_id,
                    ProblemState {
                        stars_collected,
                        is_completed: st.is_completed || stars_collected >= total_stars,
                        ..st
                    },
                )
            },
    {
        match self.take_state(level_id) {
            Some(mut st) => {
                st.stars_collected = stars_collected;
                let all_collected = stars_collected >= total_stars;
                if all_collected {
                    st.is_completed = true;
                }
                self.put_state(level_id, st);
                proof {
                    assert(self.spec_states() =~= old(self).spec_states().insert(level_id, st));
                }
                all_collected
            },
            None => false,
        }
    }

    /// Re-checks completion against the level's total after a run: sets the
    /// collected count, completes the level exactly when the count equals
    /// the total, and closes the one-shot time guard of a completed level.
    pub fn set_stars_and_check(&mut self, level_id: usize, stars_collected: usize, total_stars: usize)
        ensures
            !old(self).spec_states().contains_key(level_id) ==> LevelManager::spec_same(
                *old(self),
                *final(self),
            ),
            old(self).spec_states().contains_key(level_id) ==> {
                let st = old(self).spec_states()[level_id];
                LevelManager::spec_states_updated(
                    *old(self),
                    *final(self),
                    level_id,
                    (ProblemState {
                        stars_collected,
                        ..st
                    }).spec_check_completion(total_stars as int).spec_record_completion_time(),
                )
            },
    {
        match self.take_state(level_id) {
            Some(mut st) => {
                st.stars_collected = stars_collected;
                st.check_completion(total_stars);
                st.record_completion_time();
                self.put_state(level_id, st);
                proof {
                    assert(self.spec_states() =~= old(self).spec_states().insert(level_id, st));
                }
            },
            None => {},
        }
    }

    /// Records a completion time for a completed level whose time guard is
    /// still open: keeps the better (smaller) of it and the recorded best,
    /// and closes the guard.
    pub fn record_completion(&mut self, level_id: usize, elapsed_ms: u64)
        ensures
            !old(self).spec_states().contains_key(level_id) ==> LevelManager::spec_same(
                *old(self),
                *final(self),
            ),
            old(self).spec_states().contains_key(level_id) ==> {
                let st = old(self).spec_states()[level_id];
                LevelManager::spec_states_updated(
                    *old(self),
                    *final(self),
                    level_id,
                    if st.is_completed && !st.completion_time_recorded {
                        ProblemState {
                            completion_time_recorded: true,
                            ..st.spec_set_completion_time(elapsed_ms)
                        }
                    } else {
                        st
                    },
                )
            },
    {
        match self.take_state(level_id) {
            Some(mut st) => {
                if st.is_completed && !st.completion_time_recorded {
                    st.set_completion_time(elapsed_ms);
                    st.completion_time_recorded = true;
                }
                self.put_state(level_id, st);
                proof {
                    assert(self.spec_states() =~= old(self).spec_states().insert(level_id, st));
                }
            },
            None => {},
        }
    }

    /// Starts the attempt timer of the given level.
    pub fn start_level_timer(&mut self, level_id: usize, current_time: u64)
        ensures
            !old(self).spec_states().contains_key(level_id) ==> LevelManager::spec_same(
                *old(self),
                *final(self),
            ),
            old(self).spec_states().contains_key(level_id) ==> LevelManager::spec_states_updated(
                *old(self),
                *final(self),
                level_id,
                old(self).spec_states()[level_id].spec_start_timer(current_time),
            ),
    {
        match self.take_state(level_id) {
            Some(mut st) => {
                st.start_timer(current_time);
                self.put_state(level_id, st);
                proof {
                    assert(self.spec_states() =~= old(self).spec_states().insert(level_id, st));
                }
            },
            None => {},
        }
    }

    /// Resets the given level's star count for a fresh attempt; its
    /// completion history stays.
    pub fn reset_level_stars(&mut self, level_id: usize)
        ensures
            !old(self).spec_states().contains_key(level_id) ==> LevelManager::spec_same(
                *old(self),
                *final(self),
            ),
            old(self).spec_states().contains_key(level_id) ==> LevelManager::spec_states_updated(
                *old(self),
                *final(self),
                level_id,
                old(self).spec_states()[level_id].spec_reset_stars(),
            ),
    {
        match self.take_state(level_id) {
            Some(mut st) => {
                st.reset_stars();
                self.put_state(level_id, st);
                proof {
                    assert(self.spec_states() =~= old(self).spec_states().insert(level_id, st));
                }
            },
            None => {},
        }
    }

    /// Applies one palette click to a slot of the current level's program:
    /// places, re-colours or empties the slot as the selection says.
    /// Nothing happens — and the selection is kept — when no level is
    /// current, its state is missing, or the function index is out of
    /// range.
    pub fn edit_slot(
        &mut self,
        function_index: usize,
        slot_index: usize,
        sel: &mut EditSelection,
    ) -> (edited: bool)
        requires
            slot_index < usize::MAX,
        ensures
            ({
                let cur = old(self).spec_current_level();
                if cur is Some && old(self).spec_states().contains_key(cur->Some_0.id)
                    && function_index < old(self).spec_states()[cur->Some_0.id].functions@.len() {
                    let st = old(self).spec_states()[cur->Some_0.id];
                    let st2 = final(self).spec_states()[cur->Some_0.id];
                    &&& edited
                    &&& LevelManager::spec_states_updated(*old(self), *final(self), cur->Some_0.id, st2)
                    &&& st2 == (ProblemState { functions: st2.functions, ..st })
                    &&& st2.functions@.len() == st.functions@.len()
                    &&& forall|t: int|
                        0 <= t < st.functions@.len() && t != function_index
                            ==> st2.functions@[t] == st.functions@[t]
                    &&& st2.functions@[function_index as int]@ == spec_slot_click_function(
                        *old(sel),
                        st.functions@[function_index as int]@,
                        slot_index as int,
                    )
                    &&& *final(sel) == spec_slot_click_selection(*old(sel))
                } else {
                    !edited && LevelManager::spec_same(*old(self), *final(self)) && *final(sel)
                        == *old(sel)
                }
            }),
    {
        let level_id = match self.get_current_level() {
            Some(level) => level.id,
            None => {
                return false;
            },
        };
        match self.take_state(level_id) {
            Some(mut st) => {
                if function_index >= st.functions.len() {
                    self.put_state(level_id, st);
                    proof {
                        assert(self.spec_states() =~= old(self).spec_states());
                    }
                    return false;
                }
                let ghost functions0 = st.functions@;
                let mut function = st.functions.remove(function_index);
                handle_slot_click(sel, &mut function, slot_index);
                st.functions.insert(function_index, function);
                proof {
                    assert(st.functions@ =~= functions0.update(
                        function_index as int,
                        st.functions@[function_index as int],
                    ));
                }
                self.put_state(level_id, st);
                proof {
                    assert(self.spec_states() =~= old(self).spec_states().insert(level_id, st));
                }
                true
            },
            None => false,
        }
    }

    /// Empties every function of the current level's program.
    pub fn clear_all_instructions(&mut self)
        ensures
            ({
                let cur = old(self).spec_current_level();
                if cur is Some && old(self).spec_states().contains_key(cur->Some_0.id) {
                    let st = old(self).spec_states()[cur->Some_0.id];
                    let st2 = final(self).spec_states()[cur->Some_0.id];
                    &&& LevelManager::spec_states_updated(*old(self), *final(self), cur->Some_0.id, st2)
                    &&& st2.functions@.len() == st.functions@.len()
                    &&& forall|i: int|
                        0 <= i < st2.functions@.len() ==> (#[trigger] st2.functions@[i])@.len()
                            == 0
                    &&& st2 == (ProblemState { functions: st2.functions, ..st })
                } else {
                    LevelManager::spec_same(*old(self), *final(self))
                }
            }),
    {
        let level_id = match self.get_current_level() {
            Some(level) => level.id,
            None => {
                return ;
            },
        };
        match self.take_state(level_id) {
            Some(mut st) => {
                let n = st.functions.len();
                let mut fresh: Vec<Vec<crate::instruction::Instruction>> = Vec::new();
                let mut i: usize = 0;
                while i < n
                    invariant
                        i <= n,
                        fresh@.len() == i,
                        forall|j: int| 0 <= j < i ==> (#[trigger] fresh@[j])@.len() == 0,
                    decreases n - i,
                {
                    fresh.push(Vec::new());
                    i = i + 1;
                }
                st.functions = fresh;
                self.put_state(level_id, st);
                proof {
                    assert(self.spec_states() =~= old(self).spec_states().insert(level_id, st));
                }
            },
            None => {},
        }
    }

    /// Resets the session for a fresh attempt at the current level: the
    /// robot returns to its start pose, and — unless the level is already
    /// completed, whose stars keep displaying as collected — the board's
    /// stars are put back and the level's collected count is cleared.
    pub fn reset_level_state(&mut self, robot: &mut Robot, grid: &mut Grid)
        ensures
            *final(robot) == old(robot).spec_reset(),
            ({
                let cur = old(self).spec_current_level();
                let completed = cur matches Some(l) && old(self).spec_states().contains_key(l.id)
                    && old(self).spec_states()[l.id].is_completed;
                if cur is Some && !completed {
                    &&& final(grid).width == old(grid).width
                    &&& final(grid).height == old(grid).height
                    &&& final(grid).tiles@ == old(grid).tiles@.map_values(
                        |o: Option<crate::tile::Tile>|
                            match o {
                                Some(t) => Some(crate::tile::Tile { star_collected: false, ..t }),
                                None => None,
                            },
                    )
                    &&& if old(self).spec_states().contains_key(cur->Some_0.id) {
                        LevelManager::spec_states_updated(
                            *old(self),
                            *final(self),
                            cur->Some_0.id,
                            old(self).spec_states()[cur->Some_0.id].spec_reset_stars(),
                        )
                    } else {
                        LevelManager::spec_same(*old(self), *final(self))
                    }
                } else {
                    *final(self) == *old(self) && *final(grid) == *old(grid)
                }
            }),
    {
        robot.reset_to_start();
        let level_id = match self.get_current_level() {
            Some(level) => level.id,
            None => {
                return ;
            },
        };
        let is_completed = match self.get_problem_state(level_id) {
            Some(st) => st.is_completed,
            None => false,
        };
        if !is_completed {
            grid.clear_collected_stars();
            self.reset_level_stars(level_id);
        }
    }

    fn all_completed(levels: &Vec<LevelData>, states: &HashMap<usize, ProblemState>) -> (r: bool)
        ensures
            r == LevelManager::spec_all_completed(levels@, states@),
    {
        let mut i: usize = 0;
        while i < levels.len()
            invariant
                i <= levels@.len(),
                forall|t: int|
                    0 <= t < i ==> states@.contains_key(#[trigger] levels@[t].id)
                        && states@[levels@[t].id].is_completed,
            decreases levels@.len() - i,
        {
            let done = match states.get(&levels[i].id) {
                Some(st) => st.is_completed,
                None => false,
            };
            if !done {
                return false;
            }
            i = i + 1;
        }
        true
    }
}


/// The pass-fail word of a report line.
pub open spec fn spec_status(completed: bool) -> Seq<char> {
    if completed {
        "Passed"@
    } else {
        "Failed"@
    }
}

/// The best-time suffix of a report line: seconds with one decimal, or
/// nothing when no time is on record.
pub open spec fn spec_time_suffix(t: Option<u64>) -> Seq<char> {
    match t {
        Some(ms) => " - Time: "@ + spec_dec((ms / 1000) as nat) + "."@ + spec_dec(
            (((ms as int) % 1000) / 100) as nat,
        ) + "s"@,
        None => Seq::empty(),
    }
}

/// One scored level's report line: its position, name, star ratio,
/// pass-fail word and best time.
pub open spec fn spec_report_line(index: int, level: LevelData, st: ProblemState) -> Seq<char> {
    "Problem "@ + spec_dec((index + 1) as nat) + " : "@ + level.name@ + " ("@ + spec_dec(
        st.stars_collected as nat,
    ) + "/"@ + spec_dec(level.total_stars as nat) + ") - "@ + spec_status(st.is_completed)
        + spec_time_suffix(st.completion_time) + "\n"@
}

/// The report lines of the scored levels from index `i` on; a level whose
/// state is missing contributes no line.
pub open spec fn spec_report_lines(
    levels: Seq<LevelData>,
    states: Map<usize, ProblemState>,
    i: int,
) -> Seq<char>
    decreases levels.len() - i,
{
    if i < 0 || i >= levels.len() {
        Seq::empty()
    } else {
        (if states.contains_key(levels[i].id) {
            spec_report_line(i, levels[i], states[levels[i].id])
        } else {
            Seq::empty()
        }) + spec_report_lines(levels, states, i + 1)
    }
}

/// The whole report: the player's name, a blank line, then one line per
/// scored level.
pub open spec fn spec_report(
    last: Seq<char>,
    first: Seq<char>,
    levels: Seq<LevelData>,
    states: Map<usize, ProblemState>,
) -> Seq<char> {
    last + " "@ + first + "\n\n"@ + spec_report_lines(levels, states, 0)
}

/// Spaces become underscores, so a name can stand in a file name.
pub open spec fn spec_underscored(v: Seq<u8>) -> Seq<u8> {
    v.map_values(|b: u8| if b == 32 { 95u8 } else { b })
}

/// The file the report is saved under, named from the player.
pub open spec fn spec_report_filename(last: Seq<char>, first: Seq<char>) -> Seq<char> {
    "results_"@ + decoded_text(spec_underscored(vstd::utf8::encode_utf8(last))) + "_"@
        + decoded_text(spec_underscored(vstd::utf8::encode_utf8(first))) + ".txt"@
}

fn underscored(s: &str) -> (r: String)
    ensures
        r@ == decoded_text(spec_underscored(s.spec_bytes())),
{
    let bytes = s.as_bytes();
    let mut out: Vec<u8> = Vec::new();
    let mut i: usize = 0;
    while i < bytes.len()
        invariant
            i <= bytes@.len(),
            out@ =~= spec_underscored(bytes@.take(i as int)),
        decreases bytes@.len() - i,
    {
        if bytes[i] == 32 {
            out.push(95);
        } else {
            out.push(bytes[i]);
        }
        proof {
            assert(bytes@.take(i + 1) =~= bytes@.take(i as int).push(bytes@[i as int]));
            assert(out@ =~= spec_underscored(bytes@.take(i + 1)));
        }
        i = i + 1;
    }
    proof {
        assert(bytes@.take(bytes@.len() as int) =~= bytes@);
    }
    bytes_to_string(out.as_slice())
}

/// The name of the file the report is saved under, derived from the
/// player's names with spaces replaced by underscores.
pub fn report_filename(player: &PlayerInfo) -> (r: String)
    ensures
        r@ == spec_report_filename(player.last_name@, player.first_name@),
{
    let mut name = "results_".to_owned();
    name.append(underscored(player.last_name.as_str()).as_str());
    name.append("_");
    name.append(underscored(player.first_name.as_str()).as_str());
    name.append(".txt");
    name
}

impl LevelManager {
    /// Writes the final score report: the player's name, then one line per
    /// scored level with its star ratio, pass-fail status and best time.
    #[verifier::loop_isolation(false)]
    #[verifier::rlimit(60)]
    pub fn generate_final_report(&self, player: &PlayerInfo) -> (r: String)
        ensures
            r@ == spec_report(
                player.last_name@,
                player.first_name@,
                self.normal_levels@,
                self.normal_states@,
            ),
    {
        let mut report = String::new();
        report.append(player.last_name.as_str());
        report.append(" ");
        report.append(player.first_name.as_str());
        report.append("\n\n");
        let ghost header = report@;
        let mut i: usize = 0;
        proof {
            assert(header + spec_report_lines(self.normal_levels@, self.normal_states@, 0)
                =~= spec_report(
                player.last_name@,
                player.first_name@,
                self.normal_levels@,
                self.normal_states@,
            ));
        }
        while i < self.normal_levels.len()
            invariant
                i <= self.normal_levels@.len(),
                report@ + spec_report_lines(self.normal_levels@, self.normal_states@, i as int)
                    == spec_report(
                    player.last_name@,
                    player.first_name@,
                    self.normal_levels@,
                    self.normal_states@,
                ),
            decreases self.normal_levels@.len() - i,
        {
            let level = &self.normal_levels[i];
            let ghost pre = report@;
            match self.normal_states.get(&level.id) {
                Some(st) => {
                    report.append("Problem ");
                    report.append(u64_to_string((i as u64) + 1).as_str());
                    report.append(" : ");
                    report.append(level.name.as_str());
                    report.append(" (");
                    report.append(u64_to_string(st.stars_collected as u64).as_str());
                    report.append("/");
                    report.append(u64_to_string(level.total_stars as u64).as_str());
                    report.append(") - ");
                    if st.is_completed {
                        report.append("Passed");
                    } else {
                        report.append("Failed");
                    }
                    match st.completion_time {
                        Some(ms) => {
                            report.append(" - Time: ");
                            report.append(u64_to_string(ms / 1000).as_str());
                            report.append(".");
                            report.append(u64_to_string((ms % 1000) / 100).as_str());
                            report.append("s");
                        },
                        None => {},
                    }
                    report.append("\n");
                    proof {
                        assert(report@ =~= pre + spec_report_line(
                            i as int,
                            self.normal_levels@[i as int],
                            self.normal_states@[level.id],
                        ));
                        assert(pre + (spec_report_line(
                            i as int,
                            self.normal_levels@[i as int],
                            self.normal_states@[level.id],
                        ) + spec_report_lines(
                            self.normal_levels@,
                            self.normal_states@,
                            i + 1,
                        )) =~= report@ + spec_report_lines(
                            self.normal_levels@,
                            self.normal_states@,
                            i + 1,
                        ));
                    }
                },
                None => {
                    proof {
                        assert(pre + (Seq::<char>::empty() + spec_report_lines(
                            self.normal_levels@,
                            self.normal_states@,
                            i + 1,
                        )) =~= report@ + spec_report_lines(
                            self.normal_levels@,
                            self.normal_states@,
                            i + 1,
                        ));
                    }
                },
            }
            i = i + 1;
        }
        proof {
            assert(spec_report_lines(self.normal_levels@, self.normal_states@, i as int) =~= Seq::<
                char,
            >::empty());
            assert(report@ + Seq::<char>::empty() =~= report@);
        }
        report
    }
}

} // verus!
