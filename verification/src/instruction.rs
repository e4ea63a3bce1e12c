//! The instruction language and the robot's heading.
//!
//! An instruction is a closed recursive variant: besides movement, turning,
//! function calls and a no-op, three conditional variants each carry one
//! nested instruction that runs only when the robot's tile has the matching
//! colour. The type permits nesting of any depth and the interpreter handles
//! it, even though the editing surface wraps at most one level.

use vstd::prelude::*;
use vstd::string::StringSliceAdditionalSpecFns;
use crate::tile::TileColor;

verus! {

/// A heading on the grid, cyclic under left and right turns.
#[derive(Clone, Copy, Debug, PartialEq, Eq, Structural)]
pub enum Direction {
    North,
    East,
    South,
    West,
}

impl Direction {
    pub open spec fn spec_turn_left(self) -> Direction {
        match self {
            Direction::North => Direction::West,
            Direction::West => Direction::South,
            Direction::South => Direction::East,
            Direction::East => Direction::North,
        }
    }

    pub open spec fn spec_turn_right(self) -> Direction {
        match self {
            Direction::North => Direction::East,
            Direction::East => Direction::South,
            Direction::South => Direction::West,
            Direction::West => Direction::North,
        }
    }

    /// The one-cell offset a forward move adds to the robot's position;
    /// y grows towards the south row of the grid.
    pub open spec fn spec_offset(self) -> (int, int) {
        match self {
            Direction::North => (0, -1),
            Direction::East => (1, 0),
            Direction::South => (0, 1),
            Direction::West => (-1, 0),
        }
    }

    pub fn turn_left(self) -> (r: Direction)
        ensures
            r == self.spec_turn_left(),
    {
        match self {
            Direction::North => Direction::West,
            Direction::West => Direction::South,
            Direction::South => Direction::East,
            Direction::East => Direction::North,
        }
    }

    pub fn turn_right(self) -> (r: Direction)
        ensures
            r == self.spec_turn_right(),
    {
        match self {
            Direction::North => Direction::East,
            Direction::East => Direction::South,
            Direction::South => Direction::West,
            Direction::West => Direction::North,
        }
    }

    pub fn get_offset(self) -> (r: (i32, i32))
        ensures
            (r.0 as int, r.1 as int) == self.spec_offset(),
    {
        match self {
            Direction::North => (0, -1),
            Direction::East => (1, 0),
            Direction::South => (0, 1),
            Direction::West => (-1, 0),
        }
    }

    /// What a direction token of a level file denotes: the full name or the
    /// single-letter abbreviation, in any mix of upper and lower case.
    pub open spec fn spec_from_bytes(s: Seq<u8>) -> Option<Direction> {
        if s =~= seq!['N' as u8, 'O' as u8, 'R' as u8, 'T' as u8, 'H' as u8] || s =~= seq![
            'N' as u8,
        ] {
            Some(Direction::North)
        } else if s =~= seq!['E' as u8, 'A' as u8, 'S' as u8, 'T' as u8] || s =~= seq![
            'E' as u8,
        ] {
            Some(Direction::East)
        } else if s =~= seq!['S' as u8, 'O' as u8, 'U' as u8, 'T' as u8, 'H' as u8] || s =~= seq![
            'S' as u8,
        ] {
            Some(Direction::South)
        } else if s =~= seq!['W' as u8, 'E' as u8, 'S' as u8, 'T' as u8] || s =~= seq![
            'W' as u8,
        ] {
            Some(Direction::West)
        } else {
            None
        }
    }

    /// Parses a direction token given as bytes, case-insensitively.
    pub fn from_bytes(s: &[u8]) -> (r: Option<Direction>)
        ensures
            r == Direction::spec_from_bytes(ascii_upper(s@)),
    {
        let up = to_ascii_upper(s);
        let n = up.len();
        if n == 5 && up[0] == 'N' as u8 && up[1] == 'O' as u8 && up[2] == 'R' as u8 && up[3]
            == 'T' as u8 && up[4] == 'H' as u8 {
            Some(Direction::North)
        } else if n == 1 && up[0] == 'N' as u8 {
            Some(Direction::North)
        } else if n == 4 && up[0] == 'E' as u8 && up[1] == 'A' as u8 && up[2] == 'S' as u8 && up[3]
            == 'T' as u8 {
            Some(Direction::East)
        } else if n == 1 && up[0] == 'E' as u8 {
            Some(Direction::East)
        } else if n == 5 && up[0] == 'S' as u8 && up[1] == 'O' as u8 && up[2] == 'U' as u8 && up[3]
            == 'T' as u8 && up[4] == 'H' as u8 {
            Some(Direction::South)
        } else if n == 1 && up[0] == 'S' as u8 {
            Some(Direction::South)
        } else if n == 4 && up[0] == 'W' as u8 && up[1] == 'E' as u8 && up[2] == 'S' as u8 && up[3]
            == 'T' as u8 {
            Some(Direction::West)
        } else if n == 1 && up[0] == 'W' as u8 {
            Some(Direction::West)
        } else {
            None
        }
    }

    /// Parses a direction token given as text, case-insensitively.
    pub fn from_str(s: &str) -> (r: Option<Direction>)
        ensures
            r == Direction::spec_from_bytes(ascii_upper(s.spec_bytes())),
    {
        Direction::from_bytes(s.as_bytes())
    }
}

/// Four left turns, or a left turn then a right turn (and the other way
/// round), restore the original heading.
pub proof fn lemma_turns_round_trip(d: Direction)
    ensures
        d.spec_turn_left().spec_turn_right() == d,
        d.spec_turn_right().spec_turn_left() == d,
        d.spec_turn_left().spec_turn_left().spec_turn_left().spec_turn_left() == d,
        d.spec_turn_right().spec_turn_right().spec_turn_right().spec_turn_right() == d,
{
}

/// The ASCII upper-casing of one byte.
pub open spec fn upper_byte(b: u8) -> u8 {
    if 'a' as u8 <= b <= 'z' as u8 {
        (b - 32) as u8
    } else {
        b
    }
}

/// The ASCII upper-casing of a byte sequence.
pub open spec fn ascii_upper(s: Seq<u8>) -> Seq<u8> {
    s.map_values(|b: u8| upper_byte(b))
}

fn to_ascii_upper(s: &[u8]) -> (r: Vec<u8>)
    ensures
        r@ =~= ascii_upper(s@),
{
    let mut out: Vec<u8> = Vec::new();
    let mut i: usize = 0;
    while i < s.len()
        invariant
            i <= s@.len(),
            out@ =~= ascii_upper(s@.take(i as int)),
        decreases s@.len() - i,
    {
        let b = s[i];
        if ('a' as u8) <= b && b <= ('z' as u8) {
            out.push(b - 32);
        } else {
            out.push(b);
        }
        proof {
            assert(s@.take(i + 1 as int) =~= s@.take(i as int).push(s@[i as int]));
            assert(out@ =~= ascii_upper(s@.take(i + 1 as int)));
        }
        i = i + 1;
    }
    proof {
        assert(s@.take(s@.len() as int) =~= s@);
    }
    out
}

/// One step of a player program. `CallFunction` names a function by index,
/// checked at execution time; each conditional carries the instruction it
/// gates on the robot's tile colour.
#[derive(Debug)]
pub enum Instruction {
    Forward,
    TurnLeft,
    TurnRight,
    CallFunction(usize),
    ConditionalRed(Box<Instruction>),
    ConditionalGreen(Box<Instruction>),
    ConditionalBlue(Box<Instruction>),
    Noop,
}

impl Clone for Instruction {
    fn clone(&self) -> (r: Instruction)
        ensures
            r == *self,
        decreases *self,
    {
        match self {
            Instruction::Forward => Instruction::Forward,
            Instruction::TurnLeft => Instruction::TurnLeft,
            Instruction::TurnRight => Instruction::TurnRight,
            Instruction::CallFunction(i) => Instruction::CallFunction(*i),
            Instruction::ConditionalRed(inner) => Instruction::ConditionalRed(
                Box::new((**inner).clone()),
            ),
            Instruction::ConditionalGreen(inner) => Instruction::ConditionalGreen(
                Box::new((**inner).clone()),
            ),
            Instruction::ConditionalBlue(inner) => Instruction::ConditionalBlue(
                Box::new((**inner).clone()),
            ),
            Instruction::Noop => Instruction::Noop,
        }
    }
}

impl PartialEq for Instruction {
    fn eq(&self, other: &Instruction) -> (r: bool)
        ensures
            r == (*self == *other),
        decreases *self,
    {
        match (self, other) {
            (Instruction::Forward, Instruction::Forward) => true,
            (Instruction::TurnLeft, Instruction::TurnLeft) => true,
            (Instruction::TurnRight, Instruction::TurnRight) => true,
            (Instruction::CallFunction(a), Instruction::CallFunction(b)) => a == b,
            (Instruction::ConditionalRed(a), Instruction::ConditionalRed(b)) => (**a).eq(&**b),
            (Instruction::ConditionalGreen(a), Instruction::ConditionalGreen(b)) => (**a).eq(&**b),
            (Instruction::ConditionalBlue(a), Instruction::ConditionalBlue(b)) => (**a).eq(&**b),
            (Instruction::Noop, Instruction::Noop) => true,
            _ => false,
        }
    }
}

impl vstd::std_specs::cmp::PartialEqSpecImpl for Instruction {
    open spec fn obeys_eq_spec() -> bool {
        true
    }

    open spec fn eq_spec(&self, other: &Instruction) -> bool {
        *self == *other
    }
}

impl Eq for Instruction {}

/// The colour a conditional instruction tests, if it is one.
pub open spec fn spec_instruction_color(instr: Instruction) -> Option<TileColor> {
    match instr {
        Instruction::ConditionalRed(_) => Some(TileColor::Red),
        Instruction::ConditionalGreen(_) => Some(TileColor::Green),
        Instruction::ConditionalBlue(_) => Some(TileColor::Blue),
        _ => None,
    }
}

pub fn get_instruction_color(instr: &Instruction) -> (r: Option<TileColor>)
    ensures
        r == spec_instruction_color(*instr),
{
    match instr {
        Instruction::ConditionalRed(_) => Some(TileColor::Red),
        Instruction::ConditionalGreen(_) => Some(TileColor::Green),
        Instruction::ConditionalBlue(_) => Some(TileColor::Blue),
        _ => None,
    }
}

/// What stripping one conditional layer leaves: the nested instruction of a
/// conditional, anything else unchanged.
pub open spec fn spec_unwrap_conditional(instr: Instruction) -> Instruction {
    match instr {
        Instruction::ConditionalRed(inner) => *inner,
        Instruction::ConditionalGreen(inner) => *inner,
        Instruction::ConditionalBlue(inner) => *inner,
        other => other,
    }
}

pub fn unwrap_conditional(instr: &Instruction) -> (r: Instruction)
    ensures
        r == spec_unwrap_conditional(*instr),
{
    match instr {
        Instruction::ConditionalRed(inner) => (**inner).clone(),
        Instruction::ConditionalGreen(inner) => (**inner).clone(),
        Instruction::ConditionalBlue(inner) => (**inner).clone(),
        other => other.clone(),
    }
}

/// What wrapping an instruction in a colour condition yields; gray attaches
/// no condition.
pub open spec fn spec_wrap_with_condition(instr: Instruction, condition: TileColor) -> Instruction {
    match condition {
        TileColor::Red => Instruction::ConditionalRed(Box::new(instr)),
        TileColor::Green => Instruction::ConditionalGreen(Box::new(instr)),
        TileColor::Blue => Instruction::ConditionalBlue(Box::new(instr)),
        TileColor::Gray => instr,
    }
}

pub fn wrap_with_condition(instr: Instruction, condition: TileColor) -> (r: Instruction)
    ensures
        r == spec_wrap_with_condition(instr, condition),
{
    match condition {
        TileColor::Red => Instruction::ConditionalRed(Box::new(instr)),
        TileColor::Green => Instruction::ConditionalGreen(Box::new(instr)),
        TileColor::Blue => Instruction::ConditionalBlue(Box::new(instr)),
        TileColor::Gray => instr,
    }
}

/// Whether two instructions are built from the same variant, whatever they
/// carry inside.
pub open spec fn spec_same_variant(a: Instruction, b: Instruction) -> bool {
    match (a, b) {
        (Instruction::Forward, Instruction::Forward) => true,
        (Instruction::TurnLeft, Instruction::TurnLeft) => true,
        (Instruction::TurnRight, Instruction::TurnRight) => true,
        (Instruction::CallFunction(_), Instruction::CallFunction(_)) => true,
        (Instruction::ConditionalRed(_), Instruction::ConditionalRed(_)) => true,
        (Instruction::ConditionalGreen(_), Instruction::ConditionalGreen(_)) => true,
        (Instruction::ConditionalBlue(_), Instruction::ConditionalBlue(_)) => true,
        (Instruction::Noop, Instruction::Noop) => true,
        _ => false,
    }
}

pub fn same_variant(a: &Instruction, b: &Instruction) -> (r: bool)
    ensures
        r == spec_same_variant(*a, *b),
{
    match (a, b) {
        (Instruction::Forward, Instruction::Forward) => true,
        (Instruction::TurnLeft, Instruction::TurnLeft) => true,
        (Instruction::TurnRight, Instruction::TurnRight) => true,
        (Instruction::CallFunction(_), Instruction::CallFunction(_)) => true,
        (Instruction::ConditionalRed(_), Instruction::ConditionalRed(_)) => true,
        (Instruction::ConditionalGreen(_), Instruction::ConditionalGreen(_)) => true,
        (Instruction::ConditionalBlue(_), Instruction::ConditionalBlue(_)) => true,
        (Instruction::Noop, Instruction::Noop) => true,
        _ => false,
    }
}

/// Grows a function with no-ops until the given slot exists.
pub fn ensure_function_size(function: &mut Vec<Instruction>, slot_index: usize)
    requires
        slot_index < usize::MAX,
    ensures
        final(function)@.len() == if old(function)@.len() > slot_index as nat {
            old(function)@.len() as int
        } else {
            slot_index + 1
        },
        forall|j: int| 0 <= j < old(function)@.len() ==> final(function)@[j] == old(function)@[j],
        forall|j: int|
            old(function)@.len() <= j < final(function)@.len() ==> final(function)@[j]
                == Instruction::Noop,
{
    while function.len() <= slot_index
        invariant
            slot_index < usize::MAX,
            function@.len() >= old(function)@.len(),
            function@.len() <= slot_index + 1 || function@.len() == old(function)@.len(),
            forall|j: int| 0 <= j < old(function)@.len() ==> function@[j] == old(function)@[j],
            forall|j: int|
                old(function)@.len() <= j < function@.len() ==> function@[j] == Instruction::Noop,
        decreases slot_index + 1 - function@.len(),
    {
        function.push(Instruction::Noop);
    }
}


/// Whether every function index mentioned in an instruction leaves room for
/// the one-based numbering its description shows.
pub open spec fn spec_call_indices_small(instr: Instruction) -> bool
    decreases instr,
{
    match instr {
        Instruction::CallFunction(i) => i < usize::MAX,
        Instruction::ConditionalRed(inner) => spec_call_indices_small(*inner),
        Instruction::ConditionalGreen(inner) => spec_call_indices_small(*inner),
        Instruction::ConditionalBlue(inner) => spec_call_indices_small(*inner),
        _ => true,
    }
}

/// The words an instruction is described with; functions are numbered from
/// one.
pub open spec fn spec_instruction_text(instr: Instruction) -> Seq<char>
    decreases instr,
{
    match instr {
        Instruction::Forward => "Forward"@,
        Instruction::TurnLeft => "Turn left"@,
        Instruction::TurnRight => "Turn right"@,
        Instruction::CallFunction(i) => "Call F"@ + crate::text::spec_dec((i + 1) as nat),
        Instruction::ConditionalRed(inner) => "If red: "@ + spec_instruction_text(*inner),
        Instruction::ConditionalGreen(inner) => "If green: "@ + spec_instruction_text(*inner),
        Instruction::ConditionalBlue(inner) => "If blue: "@ + spec_instruction_text(*inner),
        Instruction::Noop => "Empty"@,
    }
}

/// Describes an instruction in words.
pub fn instruction_to_string(instr: &Instruction) -> (r: String)
    requires
        spec_call_indices_small(*instr),
    ensures
        r@ == spec_instruction_text(*instr),
    decreases *instr,
{
    match instr {
        Instruction::Forward => "Forward".to_owned(),
        Instruction::TurnLeft => "Turn left".to_owned(),
        Instruction::TurnRight => "Turn right".to_owned(),
        Instruction::CallFunction(i) => {
            let mut s = "Call F".to_owned();
            s.append(crate::text::u64_to_string((*i as u64) + 1).as_str());
            s
        },
        Instruction::ConditionalRed(inner) => {
            let mut s = "If red: ".to_owned();
            s.append(instruction_to_string(&**inner).as_str());
            s
        },
        Instruction::ConditionalGreen(inner) => {
            let mut s = "If green: ".to_owned();
            s.append(instruction_to_string(&**inner).as_str());
            s
        },
        Instruction::ConditionalBlue(inner) => {
            let mut s = "If blue: ".to_owned();
            s.append(instruction_to_string(&**inner).as_str());
            s
        },
        Instruction::Noop => "Empty".to_owned(),
    }
}

} // verus!
