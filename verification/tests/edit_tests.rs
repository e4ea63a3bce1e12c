use robozzle::edit::{handle_slot_click, EditSelection};
use robozzle::instruction::{
    ensure_function_size,
    get_instruction_color,
    instruction_to_string,
    same_variant,
    unwrap_conditional,
    wrap_with_condition,
    Instruction,
};
use robozzle::player::parse_full_name;
use robozzle::tile::TileColor;

#[test]
fn wrapping_and_unwrapping_conditions() {
    let fwd = Instruction::Forward;
    let red = wrap_with_condition(fwd.clone(), TileColor::Red);
    assert_eq!(red, Instruction::ConditionalRed(Box::new(Instruction::Forward)));
    assert_eq!(get_instruction_color(&red), Some(TileColor::Red));
    assert_eq!(unwrap_conditional(&red), Instruction::Forward);
    // gray attaches no condition
    assert_eq!(wrap_with_condition(fwd.clone(), TileColor::Gray), Instruction::Forward);
    assert_eq!(get_instruction_color(&fwd), None);
    assert_eq!(unwrap_conditional(&fwd), Instruction::Forward);
}

#[test]
fn same_variant_ignores_payloads() {
    assert!(same_variant(&Instruction::CallFunction(0), &Instruction::CallFunction(9)));
    assert!(same_variant(
        &Instruction::ConditionalRed(Box::new(Instruction::Forward)),
        &Instruction::ConditionalRed(Box::new(Instruction::Noop)),
    ));
    assert!(!same_variant(&Instruction::Forward, &Instruction::Noop));
    assert!(!same_variant(
        &Instruction::ConditionalRed(Box::new(Instruction::Forward)),
        &Instruction::ConditionalBlue(Box::new(Instruction::Forward)),
    ));
}

#[test]
fn ensure_function_size_pads_with_noops() {
    let mut f = vec![Instruction::Forward];
    ensure_function_size(&mut f, 3);
    assert_eq!(
        f,
        vec![Instruction::Forward, Instruction::Noop, Instruction::Noop, Instruction::Noop],
    );
    // a slot that already exists grows nothing
    ensure_function_size(&mut f, 1);
    assert_eq!(f.len(), 4);
}

#[test]
fn placing_an_instruction_keeps_an_existing_colour() {
    let mut f = vec![Instruction::ConditionalBlue(Box::new(Instruction::Noop))];
    let mut sel = EditSelection {
        selected_instruction: Some(Instruction::Forward),
        selected_condition: None,
        keep_selection: false,
    };
    handle_slot_click(&mut sel, &mut f, 0);
    assert_eq!(f[0], Instruction::ConditionalBlue(Box::new(Instruction::Forward)));
    // the selection was consumed
    assert!(sel.selected_instruction.is_none());
}

#[test]
fn placing_a_condition_recolours_the_slot() {
    let mut f = vec![Instruction::ConditionalBlue(Box::new(Instruction::Forward))];
    let mut sel = EditSelection {
        selected_instruction: None,
        selected_condition: Some(TileColor::Red),
        keep_selection: true,
    };
    handle_slot_click(&mut sel, &mut f, 0);
    assert_eq!(f[0], Instruction::ConditionalRed(Box::new(Instruction::Forward)));
    // keep_selection leaves the palette as it was
    assert_eq!(sel.selected_condition, Some(TileColor::Red));
    // gray strips the colour
    let mut strip = EditSelection {
        selected_instruction: None,
        selected_condition: Some(TileColor::Gray),
        keep_selection: false,
    };
    handle_slot_click(&mut strip, &mut f, 0);
    assert_eq!(f[0], Instruction::Forward);
}

#[test]
fn placing_both_overrides_the_slot() {
    let mut f: Vec<Instruction> = Vec::new();
    let mut sel = EditSelection {
        selected_instruction: Some(Instruction::TurnLeft),
        selected_condition: Some(TileColor::Green),
        keep_selection: false,
    };
    handle_slot_click(&mut sel, &mut f, 1);
    assert_eq!(f[0], Instruction::Noop);
    assert_eq!(f[1], Instruction::ConditionalGreen(Box::new(Instruction::TurnLeft)));
    assert!(sel.selected_instruction.is_none() && sel.selected_condition.is_none());
}

#[test]
fn clicking_with_nothing_selected_empties_an_existing_slot() {
    let mut f = vec![Instruction::Forward, Instruction::TurnLeft];
    let mut sel = EditSelection {
        selected_instruction: None,
        selected_condition: None,
        keep_selection: false,
    };
    handle_slot_click(&mut sel, &mut f, 1);
    assert_eq!(f, vec![Instruction::Forward, Instruction::Noop]);
    // a slot past the end is not created
    handle_slot_click(&mut sel, &mut f, 7);
    assert_eq!(f.len(), 2);
}

#[test]
fn instructions_describe_themselves() {
    assert_eq!(instruction_to_string(&Instruction::Forward), "Forward");
    assert_eq!(instruction_to_string(&Instruction::CallFunction(1)), "Call F2");
    assert_eq!(
        instruction_to_string(&Instruction::ConditionalRed(Box::new(Instruction::TurnLeft))),
        "If red: Turn left",
    );
    assert_eq!(instruction_to_string(&Instruction::Noop), "Empty");
}

#[test]
fn full_names_split_into_last_and_first() {
    assert_eq!(
        parse_full_name("Lovelace Ada"),
        Some(("Lovelace".to_string(), "Ada".to_string())),
    );
    assert_eq!(
        parse_full_name("  de la Tour   Jean Paul "),
        Some(("de".to_string(), "la Tour Jean Paul".to_string())),
    );
    assert_eq!(parse_full_name("Ada"), None);
    assert_eq!(parse_full_name("   "), None);
    assert_eq!(parse_full_name(""), None);
}
