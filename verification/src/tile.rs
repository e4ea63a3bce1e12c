//! Tiles: a grid cell's colour, its star, and whether the star was collected.

use vstd::prelude::*;

verus! {

/// The colour of a tile; conditional instructions test it.
#[derive(Clone, Copy, Debug, PartialEq, Eq, Structural)]
pub enum TileColor {
    Gray,
    Red,
    Green,
    Blue,
}

impl TileColor {
    /// The colour a grid-body cell token denotes, by its first character:
    /// `R`, `G` and `B` name colours, anything else is gray.
    pub open spec fn spec_from_char(c: char) -> TileColor {
        if c == 'R' {
            TileColor::Red
        } else if c == 'G' {
            TileColor::Green
        } else if c == 'B' {
            TileColor::Blue
        } else {
            TileColor::Gray
        }
    }

    pub fn from_char(c: char) -> (r: TileColor)
        ensures
            r == TileColor::spec_from_char(c),
    {
        match c {
            'R' => TileColor::Red,
            'G' => TileColor::Green,
            'B' => TileColor::Blue,
            _ => TileColor::Gray,
        }
    }
}

/// One cell of the board: a position, a colour, and an optional star.
/// `has_star` is fixed at level load; `star_collected` may only become
/// true on a tile whose `has_star` is true.
#[derive(Clone, Copy, Debug, PartialEq, Eq, Structural)]
pub struct Tile {
    pub x: i32,
    pub y: i32,
    pub color: TileColor,
    pub has_star: bool,
    pub star_collected: bool,
}

impl Tile {
    /// A freshly loaded tile: its star, if any, is not yet collected.
    pub fn new(x: i32, y: i32, color: TileColor, has_star: bool) -> (t: Tile)
        ensures
            t == (Tile { x, y, color, has_star, star_collected: false }),
    {
        Tile { x, y, color, has_star, star_collected: false }
    }

    /// The tile invariant: a collected star presupposes a star.
    pub open spec fn wf(self) -> bool {
        self.star_collected ==> self.has_star
    }
}

} // verus!
