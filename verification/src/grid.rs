//! The board: a rectangle of optional tiles in row-major order.
//!
//! Absent entries are holes. Presence is the sole test for walkability, and
//! any index outside the allocated tile sequence counts as absent rather
//! than faulting.

use vstd::prelude::*;
use crate::tile::Tile;

verus! {

pub struct Grid {
    pub width: i32,
    pub height: i32,
    pub tiles: Vec<Option<Tile>>,
}

/// Whether (x, y) lies inside a width-by-height rectangle, tile or no tile.
pub open spec fn spec_in_bounds_dims(width: int, height: int, x: int, y: int) -> bool {
    0 <= x < width && 0 <= y < height
}

/// The row-major index of a position.
pub open spec fn spec_index_dims(width: int, x: int, y: int) -> int {
    y * width + x
}

/// The tile at (x, y) of a board: absent when out of bounds, when the index
/// lies outside the allocated sequence, or when the cell is a hole.
pub open spec fn spec_tile_at_dims(
    tiles: Seq<Option<Tile>>,
    width: int,
    height: int,
    x: int,
    y: int,
) -> Option<Tile> {
    if spec_in_bounds_dims(width, height, x, y) && spec_index_dims(width, x, y) < tiles.len() {
        tiles[spec_index_dims(width, x, y)]
    } else {
        None
    }
}

impl Grid {
    /// Whether (x, y) lies inside the grid rectangle, tile or no tile.
    pub open spec fn spec_in_bounds(self, x: int, y: int) -> bool {
        spec_in_bounds_dims(self.width as int, self.height as int, x, y)
    }

    /// The row-major index of an in-bounds position.
    pub open spec fn spec_index_of(self, x: int, y: int) -> int {
        spec_index_dims(self.width as int, x, y)
    }

    /// The tile at (x, y): absent when out of bounds, when the index lies
    /// outside the allocated sequence, or when the cell is a hole.
    pub open spec fn spec_tile_at(self, x: int, y: int) -> Option<Tile> {
        spec_tile_at_dims(self.tiles@, self.width as int, self.height as int, x, y)
    }

    /// The legality test for robot movement: in bounds and a tile present.
    pub open spec fn spec_valid_position(self, x: int, y: int) -> bool {
        self.spec_tile_at(x, y) is Some
    }

    pub fn is_in_bounds(&self, x: i32, y: i32) -> (r: bool)
        ensures
            r == self.spec_in_bounds(x as int, y as int),
    {
        x >= 0 && y >= 0 && x < self.width && y < self.height
    }

    /// The row-major index of an in-bounds position, when it lies inside the
    /// allocated tile sequence.
    fn index_of_checked(&self, x: i32, y: i32) -> (r: Option<usize>)
        ensures
            match r {
                Some(i) => self.spec_in_bounds(x as int, y as int) && i as int
                    == self.spec_index_of(x as int, y as int) && i < self.tiles@.len(),
                None => !self.spec_in_bounds(x as int, y as int) || self.spec_index_of(
                    x as int,
                    y as int,
                ) >= self.tiles@.len(),
            },
    {
        if !(x >= 0 && y >= 0 && x < self.width && y < self.height) {
            return None;
        }
        proof {
            assert((y as u64) * (self.width as u64) <= 0x7fff_ffffu64 * 0x7fff_ffffu64)
                by (nonlinear_arith)
                requires
                    0 <= (y as u64) <= 0x7fff_ffffu64,
                    0 <= (self.width as u64) <= 0x7fff_ffffu64,
            ;
        }
        let idx: u64 = (y as u64) * (self.width as u64) + (x as u64);
        if idx < self.tiles.len() as u64 {
            Some(idx as usize)
        } else {
            None
        }
    }

    pub fn get_tile_at(&self, x: i32, y: i32) -> (r: Option<&Tile>)
        ensures
            match r {
                Some(t) => self.spec_tile_at(x as int, y as int) == Some(*t),
                None => self.spec_tile_at(x as int, y as int) is None,
            },
    {
        match self.index_of_checked(x, y) {
            Some(idx) => self.tiles[idx].as_ref(),
            None => None,
        }
    }

    pub fn is_valid_position(&self, x: i32, y: i32) -> (r: bool)
        ensures
            r == self.spec_valid_position(x as int, y as int),
    {
        match self.index_of_checked(x, y) {
            Some(idx) => self.tiles[idx].is_some(),
            None => false,
        }
    }

    /// Replaces the cell at (x, y); positions outside the rectangle or the
    /// allocated sequence are left untouched.
    pub fn set_tile_at(&mut self, x: i32, y: i32, tile: Option<Tile>)
        ensures
            final(self).width == old(self).width,
            final(self).height == old(self).height,
            final(self).tiles@ == if old(self).spec_in_bounds(x as int, y as int) && old(
                self,
            ).spec_index_of(x as int, y as int) < old(self).tiles@.len() {
                old(self).tiles@.update(old(self).spec_index_of(x as int, y as int), tile)
            } else {
                old(self).tiles@
            },
    {
        match self.index_of_checked(x, y) {
            Some(idx) => {
                self.tiles.set(idx, tile);
            },
            None => {
                proof {
                    assert(self.tiles@ =~= old(self).tiles@);
                }
            },
        }
    }

    /// The tile sequence after marking the star at row-major index `idx`
    /// collected.
    pub open spec fn spec_collect_at(self, idx: int) -> Seq<Option<Tile>> {
        self.tiles@.update(idx, Some(Tile { star_collected: true, ..self.tiles@[idx]->Some_0 }))
    }

    /// Whether the tile at (x, y) bears a star that is not yet collected.
    pub open spec fn spec_has_uncollected_star(self, x: int, y: int) -> bool {
        match self.spec_tile_at(x, y) {
            Some(t) => t.has_star && !t.star_collected,
            None => false,
        }
    }

    /// Marks the star at (x, y) collected if the tile there bears one not
    /// yet collected, and reports whether it did. A star can so transition
    /// at most once: a second call on the same tile returns false and
    /// changes nothing.
    pub fn collect_star_at(&mut self, x: i32, y: i32) -> (collected: bool)
        ensures
            final(self).width == old(self).width,
            final(self).height == old(self).height,
            collected == old(self).spec_has_uncollected_star(x as int, y as int),
            final(self).tiles@ == if collected {
                old(self).spec_collect_at(old(self).spec_index_of(x as int, y as int))
            } else {
                old(self).tiles@
            },
    {
        match self.index_of_checked(x, y) {
            Some(idx) => {
                let collect = match &self.tiles[idx] {
                    Some(t) => t.has_star && !t.star_collected,
                    None => false,
                };
                if collect {
                    let old_tile = self.tiles[idx].unwrap();
                    self.tiles.set(idx, Some(Tile { star_collected: true, ..old_tile }));
                    true
                } else {
                    false
                }
            },
            None => false,
        }
    }

    /// How many present tiles bear a collected star, over the prefix of the
    /// first `n` cells.
    pub open spec fn spec_collected_prefix(tiles: Seq<Option<Tile>>, n: int) -> int
        decreases n,
    {
        if n <= 0 {
            0
        } else {
            Grid::spec_collected_prefix(tiles, n - 1) + match tiles[n - 1] {
                Some(t) => if t.has_star && t.star_collected {
                    1int
                } else {
                    0int
                },
                None => 0int,
            }
        }
    }

    /// How many stars on the board are collected.
    pub open spec fn spec_collected_stars(tiles: Seq<Option<Tile>>) -> int {
        Grid::spec_collected_prefix(tiles, tiles.len() as int)
    }

    /// Counts the collected stars on the board.
    pub fn count_collected_stars(&self) -> (r: usize)
        ensures
            r as int == Grid::spec_collected_stars(self.tiles@),
    {
        let mut count: usize = 0;
        let mut i: usize = 0;
        while i < self.tiles.len()
            invariant
                i <= self.tiles@.len(),
                count as int == Grid::spec_collected_prefix(self.tiles@, i as int),
                count <= i,
            decreases self.tiles@.len() - i,
        {
            let hit = match &self.tiles[i] {
                Some(t) => t.has_star && t.star_collected,
                None => false,
            };
            if hit {
                count = count + 1;
            }
            i = i + 1;
        }
        count
    }

    /// Puts every star back in place for a fresh attempt.
    pub fn clear_collected_stars(&mut self)
        ensures
            final(self).width == old(self).width,
            final(self).height == old(self).height,
            final(self).tiles@ == old(self).tiles@.map_values(
                |o: Option<Tile>|
                    match o {
                        Some(t) => Some(Tile { star_collected: false, ..t }),
                        None => None,
                    },
            ),
    {
        let ghost goal = old(self).tiles@.map_values(
            |o: Option<Tile>|
                match o {
                    Some(t) => Some(Tile { star_collected: false, ..t }),
                    None => None,
                },
        );
        let mut i: usize = 0;
        while i < self.tiles.len()
            invariant
                i <= self.tiles@.len(),
                self.tiles@.len() == old(self).tiles@.len(),
                self.width == old(self).width,
                self.height == old(self).height,
                goal == old(self).tiles@.map_values(
                    |o: Option<Tile>|
                        match o {
                            Some(t) => Some(Tile { star_collected: false, ..t }),
                            None => None,
                        },
                ),
                forall|t: int| 0 <= t < i ==> self.tiles@[t] == goal[t],
                forall|t: int| i <= t < self.tiles@.len() ==> self.tiles@[t] == old(self).tiles@[t],
            decreases self.tiles@.len() - i,
        {
            let cell = match &self.tiles[i] {
                Some(t) => Some(Tile { star_collected: false, ..*t }),
                None => None,
            };
            self.tiles.set(i, cell);
            i = i + 1;
        }
        proof {
            assert(self.tiles@ =~= goal);
        }
    }

    /// How many present tiles bear a star at all, over the prefix of the
    /// first `n` cells.
    pub open spec fn spec_star_prefix(tiles: Seq<Option<Tile>>, n: int) -> int
        decreases n,
    {
        if n <= 0 {
            0
        } else {
            Grid::spec_star_prefix(tiles, n - 1) + match tiles[n - 1] {
                Some(t) => if t.has_star {
                    1int
                } else {
                    0int
                },
                None => 0int,
            }
        }
    }

    /// How many stars the board bears in all.
    pub open spec fn spec_total_stars(tiles: Seq<Option<Tile>>) -> int {
        Grid::spec_star_prefix(tiles, tiles.len() as int)
    }
}

/// Counts the stars a tile sequence bears in all.
pub fn count_stars(tiles: &Vec<Option<Tile>>) -> (r: usize)
    ensures
        r as int == Grid::spec_total_stars(tiles@),
{
    let mut count: usize = 0;
    let mut i: usize = 0;
    while i < tiles.len()
        invariant
            i <= tiles@.len(),
            count as int == Grid::spec_star_prefix(tiles@, i as int),
            count <= i,
        decreases tiles@.len() - i,
    {
        let hit = match &tiles[i] {
            Some(t) => t.has_star,
            None => false,
        };
        if hit {
            count = count + 1;
        }
        i = i + 1;
    }
    count
}

/// A position is valid exactly when it is in bounds and a tile is present
/// there.
pub proof fn lemma_valid_position_iff(g: Grid, x: int, y: int)
    ensures
        g.spec_valid_position(x, y) <==> g.spec_in_bounds(x, y) && g.spec_tile_at(x, y) is Some,
{
    if g.spec_tile_at(x, y) is Some {
        assert(g.spec_in_bounds(x, y));
    }
}

/// Marking one star collected never lowers the collected count, and raises
/// it by exactly one; so re-entering a tile whose star is already collected
/// (where `collect_star_at` changes nothing) cannot count it twice.
pub proof fn lemma_collect_counts_once(tiles: Seq<Option<Tile>>, idx: int)
    requires
        0 <= idx < tiles.len(),
        tiles[idx] is Some,
        tiles[idx]->Some_0.has_star,
        !tiles[idx]->Some_0.star_collected,
    ensures
        Grid::spec_collected_stars(
            tiles.update(idx, Some(Tile { star_collected: true, ..tiles[idx]->Some_0 })),
        ) == Grid::spec_collected_stars(tiles) + 1,
{
    lemma_collect_prefix(
        tiles,
        tiles.update(idx, Some(Tile { star_collected: true, ..tiles[idx]->Some_0 })),
        idx,
        tiles.len() as int,
    );
}

proof fn lemma_collect_prefix(before: Seq<Option<Tile>>, after: Seq<Option<Tile>>, idx: int, n: int)
    requires
        0 <= idx < before.len(),
        before[idx] is Some,
        before[idx]->Some_0.has_star,
        !before[idx]->Some_0.star_collected,
        after =~= before.update(
            idx,
            Some(Tile { star_collected: true, ..before[idx]->Some_0 }),
        ),
        n <= before.len(),
    ensures
        Grid::spec_collected_prefix(after, n) == Grid::spec_collected_prefix(before, n) + if idx
            < n {
            1int
        } else {
            0int
        },
    decreases n,
{
    if n > 0 {
        lemma_collect_prefix(before, after, idx, n - 1);
    }
}

} // verus!
