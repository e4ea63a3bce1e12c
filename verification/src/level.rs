//! The level descriptor and its line-oriented text format.
//!
//! A level file holds directives — `LEVEL <name>`, `SIZE <w> <h>`,
//! `ROBOT <x> <y> <DIR>`, `FUNCTIONS <n1> <n2> ...` — followed by `GRID:`
//! and one line per grid row, each split on whitespace into one cell token
//! per column. The hole marker `X` makes an absent cell, missing tokens pad
//! with holes, the first character of any other token names the colour and
//! a `*` anywhere in it marks a star. Parsing is tolerant of unknown lines
//! but rejects unreadable numeric fields with an error naming the field.
//! The whole grammar is written out as a specification-level parser, and
//! the executable parser is proved to agree with it exactly.

use vstd::prelude::*;
use vstd::slice::{slice_subrange, slice_to_vec};
use crate::grid::Grid;
use crate::instruction::{ascii_upper, Direction};
use crate::text::{
    bytes_to_string,
    decoded_text,
    is_ws,
    parse_i32,
    parse_usize,
    spec_dec,
    spec_is_ws,
    spec_lines,
    spec_parse_int,
    spec_parse_plus_uint,
    spec_tokens,
    split_lines,
    tokenize,
    u64_to_string,
};
use crate::tile::{Tile, TileColor};

verus! {

/// Why a level file was rejected: the numeric or direction field that
/// could not be read.
#[derive(Clone, Copy, Debug, PartialEq, Eq, Structural)]
pub enum ParseError {
    BadWidth,
    BadHeight,
    BadRobotX,
    BadRobotY,
    BadDirection,
    BadFunctionLimit,
}

impl ParseError {
    /// A short description of the offending field.
    pub fn message(&self) -> (r: &'static str)
        ensures
            *self is BadWidth ==> r@ == "could not read the grid width"@,
            *self is BadHeight ==> r@ == "could not read the grid height"@,
            *self is BadRobotX ==> r@ == "could not read the robot x position"@,
            *self is BadRobotY ==> r@ == "could not read the robot y position"@,
            *self is BadDirection ==> r@ == "unrecognized robot direction"@,
            *self is BadFunctionLimit ==> r@ == "could not read a function capacity"@,
    {
        match self {
            ParseError::BadWidth => "could not read the grid width",
            ParseError::BadHeight => "could not read the grid height",
            ParseError::BadRobotX => "could not read the robot x position",
            ParseError::BadRobotY => "could not read the robot y position",
            ParseError::BadDirection => "unrecognized robot direction",
            ParseError::BadFunctionLimit => "could not read a function capacity",
        }
    }
}

/// A parsed level: immutable once parsed; the per-session grid, robot and
/// progress state are derived copies.
#[derive(Debug)]
pub struct LevelData {
    pub id: usize,
    pub name: String,
    pub width: i32,
    pub height: i32,
    pub tiles: Vec<Option<Tile>>,
    pub robot_start_pos: (i32, i32),
    pub robot_start_dir: Direction,
    /// Derived: how many tiles bear a star.
    pub total_stars: usize,
    /// One declared capacity per player function.
    pub function_limits: Vec<usize>,
}

/// The mathematical content of a parsed level.
#[verifier::ext_equal]
pub ghost struct LevelV {
    pub name: Seq<char>,
    pub width: int,
    pub height: int,
    pub tiles: Seq<Option<Tile>>,
    pub rx: int,
    pub ry: int,
    pub rdir: Direction,
    pub total_stars: int,
    pub limits: Seq<int>,
}

impl LevelData {
    /// The mathematical content this descriptor denotes.
    pub open spec fn view_v(self) -> LevelV {
        LevelV {
            name: self.name@,
            width: self.width as int,
            height: self.height as int,
            tiles: self.tiles@,
            rx: self.robot_start_pos.0 as int,
            ry: self.robot_start_pos.1 as int,
            rdir: self.robot_start_dir,
            total_stars: self.total_stars as int,
            limits: self.function_limits@.map_values(|u: usize| u as int),
        }
    }
}

/// The directive bytes. Each directive is recognised by its leading word
/// on the trimmed line.
pub open spec fn level_prefix() -> Seq<u8> {
    seq!['L' as u8, 'E' as u8, 'V' as u8, 'E' as u8, 'L' as u8, ' ' as u8]
}

pub open spec fn size_prefix() -> Seq<u8> {
    seq!['S' as u8, 'I' as u8, 'Z' as u8, 'E' as u8, ' ' as u8]
}

pub open spec fn robot_prefix() -> Seq<u8> {
    seq!['R' as u8, 'O' as u8, 'B' as u8, 'O' as u8, 'T' as u8, ' ' as u8]
}

pub open spec fn functions_prefix() -> Seq<u8> {
    seq![
        'F' as u8,
        'U' as u8,
        'N' as u8,
        'C' as u8,
        'T' as u8,
        'I' as u8,
        'O' as u8,
        'N' as u8,
        'S' as u8,
        ' ' as u8,
    ]
}

pub open spec fn grid_marker() -> Seq<u8> {
    seq!['G' as u8, 'R' as u8, 'I' as u8, 'D' as u8, ':' as u8]
}

pub open spec fn spec_starts_with(l: Seq<u8>, p: Seq<u8>) -> bool {
    l.len() >= p.len() && l.take(p.len() as int) == p
}

/// ASCII trimming from the end.
pub open spec fn spec_trim_end(l: Seq<u8>) -> Seq<u8>
    decreases l.len(),
{
    if l.len() > 0 && spec_is_ws(l.last()) {
        spec_trim_end(l.drop_last())
    } else {
        l
    }
}

/// ASCII trimming from the start.
pub open spec fn spec_trim_start(l: Seq<u8>) -> Seq<u8> {
    l.skip(crate::text::scan_len(l, |b: u8| !spec_is_ws(b)))
}

/// ASCII trimming of both ends.
pub open spec fn spec_trim(l: Seq<u8>) -> Seq<u8> {
    spec_trim_end(spec_trim_start(l))
}

/// What the directive phase accumulates, with the defaults it starts from:
/// no name, a zero-by-zero grid, the robot at the origin facing north, and
/// a single function of capacity five.
#[verifier::ext_equal]
pub ghost struct DirStateV {
    /// The raw bytes after `LEVEL `, if the directive occurred.
    pub name: Option<Seq<u8>>,
    pub width: int,
    pub height: int,
    pub rx: int,
    pub ry: int,
    pub rdir: Direction,
    pub limits: Seq<int>,
}

/// Where the directive phase ends: its accumulated state and the index of
/// the first grid-body line.
#[verifier::ext_equal]
pub ghost struct DirOut {
    pub st: DirStateV,
    pub next: int,
}

/// The defaults the directive phase starts from.
pub open spec fn spec_dir_init() -> DirStateV {
    DirStateV {
        name: None,
        width: 0,
        height: 0,
        rx: 0,
        ry: 0,
        rdir: Direction::North,
        limits: seq![5int],
    }
}

/// A numeric field as the format reads it into an `i32`.
pub open spec fn spec_field_i32(s: Seq<u8>) -> Option<int> {
    match spec_parse_int(s) {
        Some(v) => if i32::MIN <= v <= i32::MAX {
            Some(v)
        } else {
            None
        },
        None => None,
    }
}

/// A capacity field as the format reads it into a `usize`.
pub open spec fn spec_field_usize(s: Seq<u8>) -> Option<int> {
    match spec_parse_plus_uint(s) {
        Some(v) => if 0 <= v <= usize::MAX {
            Some(v)
        } else {
            None
        },
        None => None,
    }
}

/// The capacities of a `FUNCTIONS` line, or the first unreadable one.
pub open spec fn spec_parse_limits(parts: Seq<Seq<u8>>, j: int) -> Option<Seq<int>>
    decreases parts.len() - j,
{
    if j >= parts.len() || j < 0 {
        Some(Seq::empty())
    } else {
        match spec_field_usize(parts[j]) {
            None => None,
            Some(v) => match spec_parse_limits(parts, j + 1) {
                None => None,
                Some(rest) => Some(seq![v] + rest),
            },
        }
    }
}

/// The directive phase from line `i` on: later directives overwrite
/// earlier ones, unknown lines are ignored, `GRID:` ends the phase, and an
/// unreadable numeric field rejects the file.
pub open spec fn spec_directives(lines: Seq<Seq<u8>>, i: int, st: DirStateV) -> Result<
    DirOut,
    ParseError,
>
    decreases lines.len() - i,
{
    if !(0 <= i < lines.len()) {
        Ok(DirOut { st, next: lines.len() as int })
    } else {
        let l = spec_trim(lines[i]);
        if spec_starts_with(l, level_prefix()) {
            spec_directives(lines, i + 1, DirStateV { name: Some(l.skip(6)), ..st })
        } else if spec_starts_with(l, size_prefix()) {
            let parts = spec_tokens(l.skip(5));
            if parts.len() == 2 {
                match spec_field_i32(parts[0]) {
                    None => Err(ParseError::BadWidth),
                    Some(w) => match spec_field_i32(parts[1]) {
                        None => Err(ParseError::BadHeight),
                        Some(h) => spec_directives(
                            lines,
                            i + 1,
                            DirStateV { width: w, height: h, ..st },
                        ),
                    },
                }
            } else {
                spec_directives(lines, i + 1, st)
            }
        } else if spec_starts_with(l, robot_prefix()) {
            let parts = spec_tokens(l.skip(6));
            if parts.len() == 3 {
                match spec_field_i32(parts[0]) {
                    None => Err(ParseError::BadRobotX),
                    Some(x) => match spec_field_i32(parts[1]) {
                        None => Err(ParseError::BadRobotY),
                        Some(y) => match Direction::spec_from_bytes(ascii_upper(parts[2])) {
                            None => Err(ParseError::BadDirection),
                            Some(d) => spec_directives(
                                lines,
                                i + 1,
                                DirStateV { rx: x, ry: y, rdir: d, ..st },
                            ),
                        },
                    },
                }
            } else {
                spec_directives(lines, i + 1, st)
            }
        } else if spec_starts_with(l, functions_prefix()) {
            match spec_parse_limits(spec_tokens(l.skip(10)), 0) {
                None => Err(ParseError::BadFunctionLimit),
                Some(limits) => spec_directives(lines, i + 1, DirStateV { limits, ..st }),
            }
        } else if l == grid_marker() {
            Ok(DirOut { st, next: i + 1 })
        } else {
            spec_directives(lines, i + 1, st)
        }
    }
}

/// The tile one cell token denotes at (x, y): the hole marker `X` makes an
/// absent cell; otherwise the first character names the colour (gray when
/// unrecognised or missing) and a `*` anywhere marks a star.
pub open spec fn spec_cell_tile(tok: Seq<u8>, x: int, y: int) -> Option<Tile> {
    if tok == seq!['X' as u8] {
        None
    } else {
        Some(
            Tile {
                x: x as i32,
                y: y as i32,
                color: if tok.len() == 0 {
                    TileColor::Gray
                } else {
                    TileColor::spec_from_char(tok[0] as char)
                },
                has_star: tok.contains('*' as u8),
                star_collected: false,
            },
        )
    }
}

/// One grid row from column `x` on; columns past the line's tokens pad
/// with holes.
pub open spec fn spec_row_tiles(toks: Seq<Seq<u8>>, width: int, x: int, y: int) -> Seq<
    Option<Tile>,
>
    decreases width - x,
{
    if x >= width {
        Seq::empty()
    } else {
        seq![
            if x < toks.len() {
                spec_cell_tile(toks[x], x, y)
            } else {
                None
            },
        ] + spec_row_tiles(toks, width, x + 1, y)
    }
}

/// The grid body from row `y` on: one line per row, stopping early when
/// the file runs out of lines.
pub open spec fn spec_grid_tiles(
    lines: Seq<Seq<u8>>,
    gstart: int,
    width: int,
    height: int,
    y: int,
) -> Seq<Option<Tile>>
    decreases height - y,
{
    if y >= height || gstart + y >= lines.len() {
        Seq::empty()
    } else {
        spec_row_tiles(spec_tokens(lines[gstart + y]), width, 0, y) + spec_grid_tiles(
            lines,
            gstart,
            width,
            height,
            y + 1,
        )
    }
}

/// The display name a level without a `LEVEL` directive gets.
pub open spec fn spec_default_name(id: int) -> Seq<char> {
    "Problem "@ + spec_dec((id + 1) as nat)
}

/// What parsing a level file yields: the whole format, as one function of
/// the content bytes.
pub open spec fn spec_parse_level(content: Seq<u8>, id: int) -> Result<LevelV, ParseError> {
    let lines = spec_lines(content);
    match spec_directives(lines, 0, spec_dir_init()) {
        Err(e) => Err(e),
        Ok(d) => {
            let tiles = spec_grid_tiles(lines, d.next, d.st.width, d.st.height, 0);
            Ok(
                LevelV {
                    name: match d.st.name {
                        Some(b) => decoded_text(b),
                        None => spec_default_name(id),
                    },
                    width: d.st.width,
                    height: d.st.height,
                    tiles,
                    rx: d.st.rx,
                    ry: d.st.ry,
                    rdir: d.st.rdir,
                    total_stars: Grid::spec_total_stars(tiles),
                    limits: d.st.limits,
                },
            )
        },
    }
}

/// Trims ASCII whitespace from both ends.
fn trim(l: &[u8]) -> (r: Vec<u8>)
    ensures
        r@ == spec_trim(l@),
{
    let mut a: usize = 0;
    while a < l.len() && is_ws(l[a])
        invariant
            a <= l@.len(),
            forall|t: int| 0 <= t < a ==> spec_is_ws(l@[t]),
        decreases l@.len() - a,
    {
        a = a + 1;
    }
    proof {
        crate::text::lemma_scan_len(l@, |b: u8| !spec_is_ws(b), a as int);
    }
    let mut b: usize = l.len();
    while b > a && is_ws(l[b - 1])
        invariant
            a <= b <= l@.len(),
            forall|t: int| b <= t < l@.len() ==> spec_is_ws(l@[t]),
        decreases b,
    {
        b = b - 1;
    }
    let r = slice_to_vec(slice_subrange(l, a, b));
    proof {
        lemma_trim_end_take(l@.skip(a as int), b - a);
        assert(l@.skip(a as int).take(b - a) =~= l@.subrange(a as int, b as int));
    }
    r
}

/// Whether the line begins with the six bytes `LEVEL `.
fn has_level_prefix(l: &[u8]) -> (r: bool)
    ensures
        r == spec_starts_with(l@, level_prefix()),
{
    let r = l.len() >= 6 && l[0] == 'L' as u8 && l[1] == 'E' as u8 && l[2] == 'V' as u8 && l[3]
        == 'E' as u8 && l[4] == 'L' as u8 && l[5] == ' ' as u8;
    proof {
        if r {
            assert(l@.take(6) =~= level_prefix());
        } else if l@.len() >= 6 && l@.take(6) == level_prefix() {
            assert(forall|t: int| 0 <= t < 6 ==> l@[t] == #[trigger] l@.take(6)[t]);
        }
    }
    r
}

/// Whether the line begins with the five bytes `SIZE `.
fn has_size_prefix(l: &[u8]) -> (r: bool)
    ensures
        r == spec_starts_with(l@, size_prefix()),
{
    let r = l.len() >= 5 && l[0] == 'S' as u8 && l[1] == 'I' as u8 && l[2] == 'Z' as u8 && l[3]
        == 'E' as u8 && l[4] == ' ' as u8;
    proof {
        if r {
            assert(l@.take(5) =~= size_prefix());
        } else if l@.len() >= 5 && l@.take(5) == size_prefix() {
            assert(forall|t: int| 0 <= t < 5 ==> l@[t] == #[trigger] l@.take(5)[t]);
        }
    }
    r
}

/// Whether the line begins with the six bytes `ROBOT `.
fn has_robot_prefix(l: &[u8]) -> (r: bool)
    ensures
        r == spec_starts_with(l@, robot_prefix()),
{
    let r = l.len() >= 6 && l[0] == 'R' as u8 && l[1] == 'O' as u8 && l[2] == 'B' as u8 && l[3]
        == 'O' as u8 && l[4] == 'T' as u8 && l[5] == ' ' as u8;
    proof {
        if r {
            assert(l@.take(6) =~= robot_prefix());
        } else if l@.len() >= 6 && l@.take(6) == robot_prefix() {
            assert(forall|t: int| 0 <= t < 6 ==> l@[t] == #[trigger] l@.take(6)[t]);
        }
    }
    r
}

/// Whether the line begins with the ten bytes `FUNCTIONS `.
fn has_functions_prefix(l: &[u8]) -> (r: bool)
    ensures
        r == spec_starts_with(l@, functions_prefix()),
{
    let r = l.len() >= 10 && l[0] == 'F' as u8 && l[1] == 'U' as u8 && l[2] == 'N' as u8 && l[3]
        == 'C' as u8 && l[4] == 'T' as u8 && l[5] == 'I' as u8 && l[6] == 'O' as u8 && l[7]
        == 'N' as u8 && l[8] == 'S' as u8 && l[9] == ' ' as u8;
    proof {
        if r {
            assert(l@.take(10) =~= functions_prefix());
        } else if l@.len() >= 10 && l@.take(10) == functions_prefix() {
            assert(forall|t: int| 0 <= t < 10 ==> l@[t] == #[trigger] l@.take(10)[t]);
        }
    }
    r
}

/// Whether the line is exactly `GRID:`.
fn is_grid_marker(l: &[u8]) -> (r: bool)
    ensures
        r == (l@ == grid_marker()),
{
    let r = l.len() == 5 && l[0] == 'G' as u8 && l[1] == 'R' as u8 && l[2] == 'I' as u8 && l[3]
        == 'D' as u8 && l[4] == ':' as u8;
    proof {
        if r {
            assert(l@ =~= grid_marker());
        } else if l@ == grid_marker() {
            assert(l@.len() == 5);
        }
    }
    r
}

/// The rest of the line after a prefix, as an owned byte vector.
fn rest_after(l: &Vec<u8>, from: usize) -> (r: Vec<u8>)
    requires
        from <= l@.len(),
    ensures
        r@ == l@.skip(from as int),
{
    let r = slice_to_vec(slice_subrange(l.as_slice(), from, l.len()));
    proof {
        assert(l@.subrange(from as int, l@.len() as int) =~= l@.skip(from as int));
    }
    r
}

/// The tile one cell token makes at (x, y).
fn make_cell(tok: &Vec<u8>, x: i32, y: i32) -> (r: Option<Tile>)
    ensures
        r == spec_cell_tile(tok@, x as int, y as int),
{
    if tok.len() == 1 && tok[0] == 'X' as u8 {
        proof {
            assert(tok@ =~= seq!['X' as u8]);
        }
        return None;
    }
    proof {
        if tok@ == seq!['X' as u8] {
            assert(tok@.len() == 1 && tok@[0] == 'X' as u8);
        }
    }
    let mut has_star = false;
    let mut i: usize = 0;
    while i < tok.len()
        invariant
            i <= tok@.len(),
            has_star == exists|t: int| 0 <= t < i && tok@[t] == '*' as u8,
        decreases tok@.len() - i,
    {
        if tok[i] == '*' as u8 {
            has_star = true;
        }
        i = i + 1;
    }
    proof {
        assert(has_star == tok@.contains('*' as u8));
    }
    let color = if tok.len() == 0 {
        TileColor::Gray
    } else {
        TileColor::from_char(tok[0] as char)
    };
    Some(Tile::new(x, y, color, has_star))
}

/// The directive state the accumulating variables denote.
spec fn dir_state_of(
    name: Option<Vec<u8>>,
    width: i32,
    height: i32,
    rx: i32,
    ry: i32,
    rdir: Direction,
    limits: Vec<usize>,
) -> DirStateV {
    DirStateV {
        name: match name {
            Some(v) => Some(v@),
            None => None,
        },
        width: width as int,
        height: height as int,
        rx: rx as int,
        ry: ry as int,
        rdir,
        limits: limits@.map_values(|u: usize| u as int),
    }
}

impl LevelData {
    /// Parses a level file's bytes into a descriptor with the given id,
    /// exactly as the specification-level parser reads the format. The id
    /// only names the level (and its default display name).
    #[verifier::loop_isolation(false)]
    pub fn parse(content: &[u8], id: usize) -> (r: Result<LevelData, ParseError>)
        requires
            id < usize::MAX,
        ensures
            match r {
                Ok(ld) => spec_parse_level(content@, id as int) == Ok::<LevelV, ParseError>(ld.view_v()) && ld.id == id,
                Err(e) => spec_parse_level(content@, id as int) == Err::<LevelV, ParseError>(e),
            },
    {
        let lines = split_lines(content);
        let ghost lv = lines.deep_view();
        let mut name_bytes: Option<Vec<u8>> = None;
        let mut width: i32 = 0;
        let mut height: i32 = 0;
        let mut rx: i32 = 0;
        let mut ry: i32 = 0;
        let mut rdir: Direction = Direction::North;
        let mut limits: Vec<usize> = Vec::new();
        limits.push(5);
        let mut i: usize = 0;
        let mut gstart: usize = lines.len();
        proof {
            assert(limits@.map_values(|u: usize| u as int) =~= seq![5int]);
            assert(dir_state_of(name_bytes, width, height, rx, ry, rdir, limits)
                =~= spec_dir_init());
        }
        loop
            invariant
                i <= lines@.len(),
                lv == lines.deep_view(),
                lv.len() == lines@.len(),
                gstart == lines@.len(),
                spec_directives(lv, 0, spec_dir_init()) == spec_directives(
                    lv,
                    i as int,
                    dir_state_of(name_bytes, width, height, rx, ry, rdir, limits),
                ),
            decreases lines@.len() - i,
        {
            let ghost cur = dir_state_of(name_bytes, width, height, rx, ry, rdir, limits);
            if i >= lines.len() {
                proof {
                    assert(spec_directives(lv, i as int, cur) == Ok::<DirOut, ParseError>(
                        DirOut { st: cur, next: lv.len() as int },
                    ));
                }
                break ;
            }
            proof {
                assert(lv[i as int] == lines@[i as int]@);
            }
            let t = trim(lines[i].as_slice());
            if has_level_prefix(t.as_slice()) {
                let rest = rest_after(&t, 6);
                name_bytes = Some(rest);
                proof {
                    assert(dir_state_of(name_bytes, width, height, rx, ry, rdir, limits)
                        =~= (DirStateV { name: Some(spec_trim(lv[i as int]).skip(6)), ..cur }));
                }
            } else if has_size_prefix(t.as_slice()) {
                let rest = rest_after(&t, 5);
                let parts = tokenize(rest.as_slice());
                if parts.len() == 2 {
                    proof {
                        assert(parts.deep_view()[0] == parts@[0]@);
                        assert(parts.deep_view()[1] == parts@[1]@);
                    }
                    let w = match parse_i32(parts[0].as_slice()) {
                        Some(w) => w,
                        None => {
                            return Err(ParseError::BadWidth);
                        },
                    };
                    let h = match parse_i32(parts[1].as_slice()) {
                        Some(h) => h,
                        None => {
                            return Err(ParseError::BadHeight);
                        },
                    };
                    width = w;
                    height = h;
                    proof {
                        assert(dir_state_of(name_bytes, width, height, rx, ry, rdir, limits)
                            =~= (DirStateV { width: w as int, height: h as int, ..cur }));
                    }
                }
            } else if has_robot_prefix(t.as_slice()) {
                let rest = rest_after(&t, 6);
                let parts = tokenize(rest.as_slice());
                if parts.len() == 3 {
                    proof {
                        assert(parts.deep_view()[0] == parts@[0]@);
                        assert(parts.deep_view()[1] == parts@[1]@);
                        assert(parts.deep_view()[2] == parts@[2]@);
                    }
                    let x = match parse_i32(parts[0].as_slice()) {
                        Some(x) => x,
                        None => {
                            return Err(ParseError::BadRobotX);
                        },
                    };
                    let y = match parse_i32(parts[1].as_slice()) {
                        Some(y) => y,
                        None => {
                            return Err(ParseError::BadRobotY);
                        },
                    };
                    let d = match Direction::from_bytes(parts[2].as_slice()) {
                        Some(d) => d,
                        None => {
                            return Err(ParseError::BadDirection);
                        },
                    };
                    rx = x;
                    ry = y;
                    rdir = d;
                    proof {
                        assert(dir_state_of(name_bytes, width, height, rx, ry, rdir, limits)
                            =~= (DirStateV { rx: x as int, ry: y as int, rdir: d, ..cur }));
                    }
                }
            } else if has_functions_prefix(t.as_slice()) {
                let rest = rest_after(&t, 10);
                let parts = tokenize(rest.as_slice());
                let ghost pv = parts.deep_view();
                let mut nl: Vec<usize> = Vec::new();
                let mut j: usize = 0;
                proof {
                    assert(nl@.map_values(|u: usize| u as int) =~= Seq::<int>::empty());
                    if spec_parse_limits(pv, 0) is Some {
                        assert(Seq::<int>::empty() + spec_parse_limits(pv, 0)->Some_0
                            =~= spec_parse_limits(pv, 0)->Some_0);
                    }
                }
                while j < parts.len()
                    invariant
                        j <= parts@.len(),
                        pv == parts.deep_view(),
                        pv.len() == parts@.len(),
                        match spec_parse_limits(pv, j as int) {
                            Some(rest_l) => spec_parse_limits(pv, 0) == Some(
                                nl@.map_values(|u: usize| u as int) + rest_l,
                            ),
                            None => spec_parse_limits(pv, 0) is None,
                        },
                    decreases parts@.len() - j,
                {
                    proof {
                        assert(pv[j as int] == parts@[j as int]@);
                    }
                    match parse_usize(parts[j].as_slice()) {
                        Some(v) => {
                            let ghost pre = nl@.map_values(|u: usize| u as int);
                            nl.push(v);
                            proof {
                                assert(nl@.map_values(|u: usize| u as int) =~= pre.push(v as int));
                                if spec_parse_limits(pv, j + 1) is Some {
                                    assert(pre + (seq![v as int] + spec_parse_limits(
                                        pv,
                                        j + 1,
                                    ).unwrap()) =~= pre.push(v as int) + spec_parse_limits(
                                        pv,
                                        j + 1,
                                    ).unwrap());
                                }
                            }
                        },
                        None => {
                            return Err(ParseError::BadFunctionLimit);
                        },
                    }
                    j = j + 1;
                }
                proof {
                    assert(spec_parse_limits(pv, j as int) == Some(Seq::<int>::empty()));
                    assert(nl@.map_values(|u: usize| u as int) + Seq::<int>::empty()
                        =~= nl@.map_values(|u: usize| u as int));
                }
                limits = nl;
                proof {
                    assert(dir_state_of(name_bytes, width, height, rx, ry, rdir, limits)
                        =~= (DirStateV {
                        limits: spec_parse_limits(spec_tokens(spec_trim(lv[i as int]).skip(10)), 0).unwrap(),
                        ..cur
                    }));
                }
            } else if is_grid_marker(t.as_slice()) {
                proof {
                    assert(spec_directives(lv, i as int, cur) == Ok::<DirOut, ParseError>(
                        DirOut { st: cur, next: i + 1 },
                    ));
                }
                gstart = i + 1;
                break ;
            }
            i = i + 1;
        }
        let ghost dst = dir_state_of(name_bytes, width, height, rx, ry, rdir, limits);
        proof {
            assert(spec_directives(lv, 0, spec_dir_init()) == Ok::<DirOut, ParseError>(
                DirOut { st: dst, next: gstart as int },
            ));
        }
        // The grid body: `height` rows of `width` cells, stopping early if
        // the file runs out of lines.
        let mut tiles: Vec<Option<Tile>> = Vec::new();
        let mut y: i32 = 0;
        proof {
            assert(tiles@ + spec_grid_tiles(lv, gstart as int, width as int, height as int, 0)
                =~= spec_grid_tiles(lv, gstart as int, width as int, height as int, 0));
        }
        while y < height
            invariant
                0 <= y,
                lv == lines.deep_view(),
                lv.len() == lines@.len(),
                gstart <= lines@.len(),
                tiles@ + spec_grid_tiles(lv, gstart as int, width as int, height as int, y as int)
                    == spec_grid_tiles(lv, gstart as int, width as int, height as int, 0),
            decreases height - y,
        {
            if (y as usize) >= lines.len() - gstart {
                proof {
                    assert(spec_grid_tiles(
                        lv,
                        gstart as int,
                        width as int,
                        height as int,
                        y as int,
                    ) =~= Seq::<Option<Tile>>::empty());
                    assert(tiles@ + Seq::<Option<Tile>>::empty() =~= tiles@);
                }
                break ;
            }
            let li = gstart + (y as usize);
            proof {
                assert(lv[li as int] == lines@[li as int]@);
            }
            let toks = tokenize(lines[li].as_slice());
            let ghost tv = toks.deep_view();
            let mut x: i32 = 0;
            proof {
                assert(spec_grid_tiles(lv, gstart as int, width as int, height as int, y as int)
                    == spec_row_tiles(tv, width as int, 0, y as int) + spec_grid_tiles(
                    lv,
                    gstart as int,
                    width as int,
                    height as int,
                    y + 1,
                ));
            }
            while x < width
                invariant
                    0 <= x,
                    tv == toks.deep_view(),
                    tv.len() == toks@.len(),
                    tiles@ + spec_row_tiles(tv, width as int, x as int, y as int)
                        + spec_grid_tiles(lv, gstart as int, width as int, height as int, y + 1)
                        == spec_grid_tiles(lv, gstart as int, width as int, height as int, 0),
                decreases width - x,
            {
                let cell: Option<Tile> = if (x as usize) < toks.len() {
                    proof {
                        assert(tv[x as int] == toks@[x as int]@);
                    }
                    make_cell(&toks[x as usize], x, y)
                } else {
                    None
                };
                let ghost pre = tiles@;
                tiles.push(cell);
                proof {
                    assert(pre + (seq![cell] + spec_row_tiles(tv, width as int, x + 1, y as int))
                        =~= tiles@ + spec_row_tiles(tv, width as int, x + 1, y as int));
                }
                x = x + 1;
            }
            proof {
                assert(spec_row_tiles(tv, width as int, x as int, y as int) =~= Seq::<
                    Option<Tile>,
                >::empty());
                assert(tiles@ + (Seq::<Option<Tile>>::empty() + spec_grid_tiles(
                    lv,
                    gstart as int,
                    width as int,
                    height as int,
                    y + 1,
                )) =~= tiles@ + spec_grid_tiles(
                    lv,
                    gstart as int,
                    width as int,
                    height as int,
                    y + 1,
                ));
            }
            y = y + 1;
        }
        proof {
            if y >= height {
                assert(spec_grid_tiles(lv, gstart as int, width as int, height as int, y as int)
                    =~= Seq::<Option<Tile>>::empty());
                assert(tiles@ + Seq::<Option<Tile>>::empty() =~= tiles@);
            }
        }
        let total_stars = crate::grid::count_stars(&tiles);
        let name: String = match name_bytes {
            Some(v) => bytes_to_string(v.as_slice()),
            None => {
                let mut s = "Problem ".to_owned();
                let num = u64_to_string((id as u64) + 1);
                s.append(num.as_str());
                s
            },
        };
        let ld = LevelData {
            id,
            name,
            width,
            height,
            tiles,
            robot_start_pos: (rx, ry),
            robot_start_dir: rdir,
            total_stars,
            function_limits: limits,
        };
        proof {
            assert(spec_parse_level(content@, id as int) == Ok::<LevelV, ParseError>(ld.view_v()));
        }
        Ok(ld)
    }
}

impl LevelData {
    /// The per-session board this level starts with. On a level already
    /// marked completed the stars display as collected; otherwise they are
    /// all in place.
    pub fn make_grid(&self, completed: bool) -> (g: Grid)
        ensures
            g.width == self.width,
            g.height == self.height,
            g.tiles@ == self.tiles@.map_values(
                |o: Option<Tile>|
                    match o {
                        Some(t) => Some(Tile { star_collected: completed && t.has_star, ..t }),
                        None => None,
                    },
            ),
    {
        let ghost goal = self.tiles@.map_values(
            |o: Option<Tile>|
                match o {
                    Some(t) => Some(Tile { star_collected: completed && t.has_star, ..t }),
                    None => None,
                },
        );
        let mut tiles: Vec<Option<Tile>> = Vec::new();
        let mut i: usize = 0;
        while i < self.tiles.len()
            invariant
                i <= self.tiles@.len(),
                tiles@.len() == i,
                goal == self.tiles@.map_values(
                    |o: Option<Tile>|
                        match o {
                            Some(t) => Some(
                                Tile { star_collected: completed && t.has_star, ..t },
                            ),
                            None => None,
                        },
                ),
                forall|t: int| 0 <= t < i ==> tiles@[t] == goal[t],
            decreases self.tiles@.len() - i,
        {
            let cell = match &self.tiles[i] {
                Some(t) => Some(Tile { star_collected: completed && t.has_star, ..*t }),
                None => None,
            };
            tiles.push(cell);
            i = i + 1;
        }
        proof {
            assert(tiles@ =~= goal);
        }
        Grid { width: self.width, height: self.height, tiles }
    }

    /// The per-session robot this level starts with, standing at its start
    /// pose.
    pub fn make_robot(&self) -> (r: crate::robot::Robot)
        ensures
            r == (crate::robot::Robot {
                x: self.robot_start_pos.0,
                y: self.robot_start_pos.1,
                direction: self.robot_start_dir,
                start_x: self.robot_start_pos.0,
                start_y: self.robot_start_pos.1,
                start_direction: self.robot_start_dir,
            }),
    {
        crate::robot::Robot::new(
            self.robot_start_pos.0,
            self.robot_start_pos.1,
            self.robot_start_dir,
        )
    }
}

proof fn lemma_trim_end_take(l: Seq<u8>, b: int)
    requires
        0 <= b <= l.len(),
        forall|t: int| b <= t < l.len() ==> spec_is_ws(l[t]),
        b == 0 || !spec_is_ws(l[b - 1]),
    ensures
        spec_trim_end(l) == l.take(b),
    decreases l.len(),
{
    if l.len() > 0 && spec_is_ws(l.last()) {
        lemma_trim_end_take(l.drop_last(), b);
        assert(l.drop_last().take(b) =~= l.take(b));
    } else {
        assert(l.take(l.len() as int) =~= l);
    }
}

} // verus!
