//! The robot: a position and heading, plus the remembered pose it takes
//! again when a run is reset.

use vstd::prelude::*;
use crate::instruction::Direction;

verus! {

/// The agent on the grid. The start pose is captured at level entry and is
/// what `reset_to_start` restores.
#[derive(Clone, Copy, Debug, PartialEq, Eq, Structural)]
pub struct Robot {
    pub x: i32,
    pub y: i32,
    pub direction: Direction,
    pub start_x: i32,
    pub start_y: i32,
    pub start_direction: Direction,
}

impl Robot {
    /// A robot standing at its start pose.
    pub fn new(x: i32, y: i32, direction: Direction) -> (r: Robot)
        ensures
            r == (Robot {
                x,
                y,
                direction,
                start_x: x,
                start_y: y,
                start_direction: direction,
            }),
    {
        Robot { x, y, direction, start_x: x, start_y: y, start_direction: direction }
    }

    /// The robot's pose after a reset: current pose restored from the start
    /// pose exactly, start pose untouched.
    pub open spec fn spec_reset(self) -> Robot {
        Robot { x: self.start_x, y: self.start_y, direction: self.start_direction, ..self }
    }

    pub fn reset_to_start(&mut self)
        ensures
            *final(self) == old(self).spec_reset(),
    {
        self.x = self.start_x;
        self.y = self.start_y;
        self.direction = self.start_direction;
    }

    /// Moves one cell along the current heading. Callers keep the robot on
    /// the board, so the coordinates stay representable.
    pub fn move_forward(&mut self)
        requires
            i32::MIN <= old(self).x + old(self).direction.spec_offset().0 <= i32::MAX,
            i32::MIN <= old(self).y + old(self).direction.spec_offset().1 <= i32::MAX,
        ensures
            final(self).x as int == old(self).x + old(self).direction.spec_offset().0,
            final(self).y as int == old(self).y + old(self).direction.spec_offset().1,
            *final(self) == (Robot {
                x: final(self).x,
                y: final(self).y,
                ..*old(self)
            }),
    {
        let (dx, dy) = self.direction.get_offset();
        self.x = self.x + dx;
        self.y = self.y + dy;
    }

    pub fn turn_left(&mut self)
        ensures
            *final(self) == (Robot { direction: old(self).direction.spec_turn_left(), ..*old(self) }),
    {
        self.direction = self.direction.turn_left();
    }

    pub fn turn_right(&mut self)
        ensures
            *final(self) == (Robot {
                direction: old(self).direction.spec_turn_right(),
                ..*old(self)
            }),
    {
        self.direction = self.direction.turn_right();
    }
}

} // verus!
