//! The editing surface's effect on a player function: placing an
//! instruction in a slot, attaching or detaching a colour condition, or
//! clearing a slot, driven by what is currently selected on the palette.

use vstd::prelude::*;
use crate::instruction::{
    ensure_function_size,
    get_instruction_color,
    spec_instruction_color,
    spec_unwrap_conditional,
    spec_wrap_with_condition,
    unwrap_conditional,
    wrap_with_condition,
    Instruction,
};
use crate::tile::TileColor;

verus! {

/// What the palette has selected: an instruction, a colour condition,
/// both, or neither; and whether a click keeps the selection.
pub struct EditSelection {
    pub selected_instruction: Option<Instruction>,
    pub selected_condition: Option<TileColor>,
    pub keep_selection: bool,
}

/// The function grown with no-ops until the slot exists.
pub open spec fn spec_padded(f: Seq<Instruction>, slot: int) -> Seq<Instruction> {
    if f.len() > slot {
        f
    } else {
        f + Seq::new((slot + 1 - f.len()) as nat, |i: int| Instruction::Noop)
    }
}

/// What a click on a slot leaves in the function. An instruction alone
/// fills the slot, keeping any colour already on it; a condition alone
/// re-colours what the slot holds (gray strips the colour); both together
/// place the conditioned instruction; and with nothing selected the click
/// empties an existing slot.
pub open spec fn spec_slot_click_function(
    sel: EditSelection,
    f: Seq<Instruction>,
    slot: int,
) -> Seq<Instruction> {
    match (sel.selected_instruction, sel.selected_condition) {
        (Some(instr), None) => {
            let p = spec_padded(f, slot);
            p.update(
                slot,
                match spec_instruction_color(p[slot]) {
                    Some(c) => spec_wrap_with_condition(instr, c),
                    None => instr,
                },
            )
        },
        (None, Some(cond)) => {
            let p = spec_padded(f, slot);
            if cond == TileColor::Gray {
                p.update(slot, spec_unwrap_conditional(p[slot]))
            } else {
                p.update(slot, spec_wrap_with_condition(spec_unwrap_conditional(p[slot]), cond))
            }
        },
        (Some(instr), Some(cond)) => {
            let p = spec_padded(f, slot);
            if cond == TileColor::Gray {
                p.update(slot, instr)
            } else {
                p.update(slot, spec_wrap_with_condition(instr, cond))
            }
        },
        (None, None) => {
            if slot < f.len() {
                f.update(slot, Instruction::Noop)
            } else {
                f
            }
        },
    }
}

/// What a click leaves selected: the used selections are consumed unless
/// the palette holds them.
pub open spec fn spec_slot_click_selection(sel: EditSelection) -> EditSelection {
    if sel.keep_selection {
        sel
    } else {
        match (sel.selected_instruction, sel.selected_condition) {
            (Some(_), None) => EditSelection { selected_instruction: None, ..sel },
            (None, Some(_)) => EditSelection { selected_condition: None, ..sel },
            (Some(_), Some(_)) => EditSelection {
                selected_instruction: None,
                selected_condition: None,
                ..sel
            },
            (None, None) => sel,
        }
    }
}

/// Applies one palette click to the given slot of a player function.
pub fn handle_slot_click(
    sel: &mut EditSelection,
    function: &mut Vec<Instruction>,
    slot_index: usize,
)
    requires
        slot_index < usize::MAX,
    ensures
        final(function)@ == spec_slot_click_function(*old(sel), old(function)@, slot_index as int),
        *final(sel) == spec_slot_click_selection(*old(sel)),
{
    let has_instruction = sel.selected_instruction.is_some();
    let has_condition = sel.selected_condition.is_some();
    if has_instruction || has_condition {
        ensure_function_size(function, slot_index);
        proof {
            assert(function@ =~= spec_padded(old(function)@, slot_index as int));
        }
    }
    match (&sel.selected_instruction, &sel.selected_condition) {
        (Some(instr), None) => {
            let placed = match get_instruction_color(&function[slot_index]) {
                Some(c) => wrap_with_condition(instr.clone(), c),
                None => instr.clone(),
            };
            function.set(slot_index, placed);
            if !sel.keep_selection {
                sel.selected_instruction = None;
            }
        },
        (None, Some(cond)) => {
            let cond = *cond;
            let base = unwrap_conditional(&function[slot_index]);
            if cond == TileColor::Gray {
                function.set(slot_index, base);
            } else {
                function.set(slot_index, wrap_with_condition(base, cond));
            }
            if !sel.keep_selection {
                sel.selected_condition = None;
            }
        },
        (Some(instr), Some(cond)) => {
            let cond = *cond;
            if cond == TileColor::Gray {
                function.set(slot_index, instr.clone());
            } else {
                function.set(slot_index, wrap_with_condition(instr.clone(), cond));
            }
            if !sel.keep_selection {
                sel.selected_instruction = None;
                sel.selected_condition = None;
            }
        },
        (None, None) => {
            if slot_index < function.len() {
                function.set(slot_index, Instruction::Noop);
            }
        },
    }
}

} // verus!
