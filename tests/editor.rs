use botgame::edit::{parse_instruction_name, InstructionsEditor};
use botgame::instruction::Instruction;

fn edit_name(ed: &mut InstructionsEditor, cell: usize, text: &str) {
    ed.user_names[cell] = text.to_string();
    ed.check_and_update_cell(true, cell);
}

fn edit_value(ed: &mut InstructionsEditor, cell: usize, text: &str) {
    ed.user_values[cell] = text.to_string();
    ed.check_and_update_cell(false, cell);
}

#[test]
fn new_editor_is_all_halt() {
    let ed = InstructionsEditor::new();
    assert_eq!(ed.instructions, [0u8; 32]);
    assert_eq!(ed.user_names.len(), 32);
    assert!(ed.user_names.iter().all(|n| n == "halt"));
    assert!(ed.user_values.iter().all(|v| v == "0"));
    assert!(ed.active_cell.is_none());
    assert!(ed.error.is_none());
}

#[test]
fn instruction_names_are_stored() {
    let mut ed = InstructionsEditor::new();
    edit_name(&mut ed, 0, "  walk ");
    assert_eq!(ed.instructions[0], Instruction::Walk.repr());
    assert_eq!(ed.user_names[0], "walk");
    assert_eq!(ed.user_values[0], "1");
    edit_name(&mut ed, 1, "turn   left");
    assert_eq!(ed.instructions[1], Instruction::TurnLeft.repr());
    assert_eq!(ed.user_names[1], "turn left");
    edit_name(&mut ed, 2, "if not robot");
    assert_eq!(ed.instructions[2], Instruction::IfNotRobot.repr());
    assert_eq!(ed.user_values[2], "14");
    edit_name(&mut ed, 3, "if edge");
    assert_eq!(ed.instructions[3], Instruction::IfEdge.repr());
    assert!(ed.error.is_none());
}

#[test]
fn bad_instruction_names_explain_themselves() {
    let mut ed = InstructionsEditor::new();
    edit_name(&mut ed, 0, " turn up ");
    assert_eq!(
        ed.error.as_deref(),
        Some("invalid `turn` command, expected one of `turn around`, `turn right`, or `turn left`. found `turn up`")
    );
    assert_eq!(ed.user_names[0], "turn up");
    assert_eq!(ed.instructions[0], 0);
    edit_name(&mut ed, 0, "if");
    assert_eq!(
        ed.error.as_deref(),
        Some("missing branch condition, expected one of `box`, `wall`, `edge`, or `robot`")
    );
    edit_name(&mut ed, 0, "if not door");
    assert_eq!(
        ed.error.as_deref(),
        Some("invalid branch condition, expected one of `box`, `wall`, `edge`, or `robot`, found `door`")
    );
    edit_name(&mut ed, 0, "walk fast");
    assert_eq!(
        ed.error.as_deref(),
        Some("unexpected word `fast`, `walk` is already a complete instruction")
    );
    edit_name(&mut ed, 0, "jump");
    assert_eq!(
        ed.error.as_deref(),
        Some("invalid start of command, expected one of `halt`, `walk`, `turn`, `wait`, `goto`, or `if`. For more info about the available instructions, refer to the manual.")
    );
    edit_name(&mut ed, 0, "wait");
    assert!(ed.error.is_none());
    assert_eq!(ed.instructions[0], Instruction::Wait.repr());
}

#[test]
fn empty_text_shows_the_stored_byte_again() {
    let mut ed = InstructionsEditor::new();
    edit_name(&mut ed, 4, "goto");
    edit_name(&mut ed, 4, "   ");
    assert_eq!(ed.user_names[4], "goto");
    edit_value(&mut ed, 4, "");
    assert_eq!(ed.user_values[4], "6");
    assert!(ed.error.is_none());
}

#[test]
fn values_are_stored() {
    let mut ed = InstructionsEditor::new();
    edit_value(&mut ed, 5, " 07 ");
    assert_eq!(ed.instructions[5], 7);
    assert_eq!(ed.user_values[5], "7");
    assert_eq!(ed.user_names[5], "if box");
    edit_value(&mut ed, 6, "+31");
    assert_eq!(ed.instructions[6], 31);
    assert_eq!(ed.user_names[6], "");
    assert!(ed.error.is_none());
}

#[test]
fn bad_values_explain_themselves() {
    let mut ed = InstructionsEditor::new();
    edit_value(&mut ed, 0, "40");
    assert_eq!(
        ed.error.as_deref(),
        Some("the value `40` cannot be stored as it is larger than 31")
    );
    assert_eq!(ed.instructions[0], 0);
    edit_value(&mut ed, 0, "4x");
    assert_eq!(ed.error.as_deref(), Some("invalid digit found in string"));
    edit_value(&mut ed, 0, "-3");
    assert_eq!(ed.error.as_deref(), Some("invalid digit found in string"));
    edit_value(&mut ed, 0, "300");
    assert_eq!(ed.error.as_deref(), Some("number too large to fit in target type"));
    assert_eq!(ed.user_values[0], "300");
    assert_eq!(ed.instructions[0], 0);
}

#[test]
fn leaving_a_cell_checks_it() {
    let mut ed = InstructionsEditor::new();
    assert_eq!(ed.on_selection_quit(Some((true, 2))), None);
    assert_eq!(ed.active_cell, Some((true, 2)));
    {
        let cell = ed.active_cell_data().unwrap();
        cell.clear();
        cell.push_str("turn around");
    }
    assert_eq!(ed.on_selection_quit(Some((false, 3))), Some((true, 2)));
    assert_eq!(ed.instructions[2], Instruction::TurnAround.repr());
    assert_eq!(ed.active_cell, Some((false, 3)));
    ed.active_cell_data().unwrap().push_str("9");
    assert_eq!(ed.user_values[3], "09");
    assert_eq!(ed.on_selection_quit(None), Some((false, 3)));
    assert_eq!(ed.instructions[3], 9);
    assert!(ed.active_cell_data().is_none());
}

#[test]
fn name_parser_reads_words() {
    let words: Vec<char> = "if  not\twall".chars().collect();
    assert_eq!(parse_instruction_name(&words), Ok(Instruction::IfNotWall));
}
