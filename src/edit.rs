use vstd::prelude::*;

use crate::bot::program_wf;
use crate::instruction::{decode, instruction_name, opcode, Instruction};
use crate::text::{
    decimal, decimal_string, parse_u8, parse_u8_chars, push_chars, push_text, split_words, trim,
    trim_chars, word_is, words,
};

verus! {

/// The program being written by the player: for each of the 32 cells the
/// text typed as an instruction name and as a value, and the byte stored.
#[derive(Debug)]
pub struct InstructionsEditor {
    pub user_names: Vec<String>,
    pub user_values: Vec<String>,
    pub instructions: [u8; 32],
    /// The cell being edited, if any: whether its name (rather than its
    /// value) is edited, and its index.
    pub active_cell: Option<(bool, usize)>,
    pub error: Option<String>,
}

/// The mathematical value of an `InstructionsEditor`.
#[verifier::ext_equal]
pub struct EditorModel {
    pub names: Seq<Seq<char>>,
    pub values: Seq<Seq<char>>,
    pub instructions: Seq<u8>,
    pub active: Option<(bool, usize)>,
    pub error: Option<Seq<char>>,
}

impl View for InstructionsEditor {
    type V = EditorModel;

    open spec fn view(&self) -> EditorModel {
        EditorModel {
            names: self.user_names@.map_values(|s: String| s@),
            values: self.user_values@.map_values(|s: String| s@),
            instructions: self.instructions@,
            active: self.active_cell,
            error: match self.error {
                Some(e) => Some(e@),
                None => None,
            },
        }
    }
}

impl EditorModel {
    /// One name and one value per cell, a well-formed program, and an
    /// active cell inside it.
    pub open spec fn wf(&self) -> bool {
        &&& self.names.len() == 32
        &&& self.values.len() == 32
        &&& program_wf(self.instructions)
        &&& self.active matches Some((_, i)) ==> i < 32
    }
}

/// How the byte `b` is shown as an instruction name: empty for a byte
/// that is no opcode.
pub open spec fn byte_name(b: u8) -> Seq<char> {
    match decode(b) {
        Some(i) => instruction_name(i),
        None => Seq::empty(),
    }
}

pub open spec fn bad_start_message() -> Seq<char> {
    "invalid start of command, expected one of `halt`, `walk`, `turn`, `wait`, `goto`, or `if`. For more info about the available instructions, refer to the manual."@
}

pub open spec fn bad_turn_message(full: Seq<char>) -> Seq<char> {
    "invalid `turn` command, expected one of `turn around`, `turn right`, or `turn left`. found `"@
        + full + "`"@
}

pub open spec fn missing_condition_message() -> Seq<char> {
    "missing branch condition, expected one of `box`, `wall`, `edge`, or `robot`"@
}

pub open spec fn bad_condition_message(found: Seq<char>) -> Seq<char> {
    "invalid branch condition, expected one of `box`, `wall`, `edge`, or `robot`, found `"@
        + found + "`"@
}

pub open spec fn extra_word_message(word: Seq<char>, name: Seq<char>) -> Seq<char> {
    "unexpected word `"@ + word + "`, `"@ + name + "` is already a complete instruction"@
}

pub open spec fn value_too_large_message(v: u8) -> Seq<char> {
    "the value `"@ + decimal(v) + "` cannot be stored as it is larger than 31"@
}

/// The conditional jump named by `cond`, negated or not.
pub open spec fn condition_instruction(cond: Seq<char>, negate: bool) -> Option<Instruction> {
    if cond == "box"@ {
        Some(if negate { Instruction::IfNotBox } else { Instruction::IfBox })
    } else if cond == "wall"@ {
        Some(if negate { Instruction::IfNotWall } else { Instruction::IfWall })
    } else if cond == "edge"@ {
        Some(if negate { Instruction::IfNotEdge } else { Instruction::IfEdge })
    } else if cond == "robot"@ {
        Some(if negate { Instruction::IfNotRobot } else { Instruction::IfRobot })
    } else {
        None
    }
}

/// The instruction that the first words of `ws` name, with how many words
/// it takes; `full` is the whole text, quoted by one of the errors.
pub open spec fn parse_head(ws: Seq<Seq<char>>, full: Seq<char>) -> Result<
    (Instruction, int),
    Seq<char>,
> {
    if ws.len() == 0 {
        Err(bad_start_message())
    } else if ws[0] == "halt"@ {
        Ok((Instruction::Halt, 1))
    } else if ws[0] == "walk"@ {
        Ok((Instruction::Walk, 1))
    } else if ws[0] == "wait"@ {
        Ok((Instruction::Wait, 1))
    } else if ws[0] == "goto"@ {
        Ok((Instruction::Goto, 1))
    } else if ws[0] == "turn"@ {
        if ws.len() > 1 && ws[1] == "around"@ {
            Ok((Instruction::TurnAround, 2))
        } else if ws.len() > 1 && ws[1] == "left"@ {
            Ok((Instruction::TurnLeft, 2))
        } else if ws.len() > 1 && ws[1] == "right"@ {
            Ok((Instruction::TurnRight, 2))
        } else {
            Err(bad_turn_message(full))
        }
    } else if ws[0] == "if"@ {
        let negate = ws.len() > 1 && ws[1] == "not"@;
        let k: int = if negate { 2 } else { 1 };
        if ws.len() <= k {
            Err(missing_condition_message())
        } else {
            match condition_instruction(ws[k], negate) {
                Some(i) => Ok((i, k + 1)),
                None => Err(bad_condition_message(ws[k])),
            }
        }
    } else {
        Err(bad_start_message())
    }
}

/// The instruction named by the text `t`, or the message that explains
/// why it names none.
pub open spec fn parse_name(t: Seq<char>) -> Result<Instruction, Seq<char>> {
    let ws = words(t);
    match parse_head(ws, t) {
        Err(m) => Err(m),
        Ok((i, k)) => if ws.len() > k {
            Err(extra_word_message(ws[k], instruction_name(i)))
        } else {
            Ok(i)
        },
    }
}

/// The byte that the text `t` gives as a value, or the message that
/// explains why it gives none.
pub open spec fn parse_value(t: Seq<char>) -> Result<u8, Seq<char>> {
    match parse_u8(t) {
        Ok(v) => if v < 32 {
            Ok(v)
        } else {
            Err(value_too_large_message(v))
        },
        Err(m) => Err(m),
    }
}

/// Cell `c` shown again from the byte it stores.
pub open spec fn refreshed(m: EditorModel, c: int) -> EditorModel {
    EditorModel {
        names: m.names.update(c, byte_name(m.instructions[c])),
        values: m.values.update(c, decimal(m.instructions[c])),
        ..m
    }
}

/// The editor after the player leaves cell `cell`, whose name (if
/// `was_name`) or value was typed: the text is trimmed; an empty text
/// shows the stored byte again; a text that parses stores its byte and the
/// cell is shown again from it; otherwise the trimmed text stays and the
/// error explains it.
pub open spec fn updated_cell(m: EditorModel, was_name: bool, cell: int) -> EditorModel {
    let cleared = EditorModel { error: None, ..m };
    if was_name {
        let t = trim(m.names[cell]);
        if t.len() == 0 {
            EditorModel { names: m.names.update(cell, byte_name(m.instructions[cell])), ..cleared }
        } else {
            match parse_name(t) {
                Err(msg) => EditorModel { names: m.names.update(cell, t), error: Some(msg), ..m },
                Ok(i) => refreshed(
                    EditorModel { instructions: m.instructions.update(cell, opcode(i)), ..cleared },
                    cell,
                ),
            }
        }
    } else {
        let t = trim(m.values[cell]);
        if t.len() == 0 {
            EditorModel { values: m.values.update(cell, decimal(m.instructions[cell])), ..cleared }
        } else {
            match parse_value(t) {
                Err(msg) => EditorModel { values: m.values.update(cell, t), error: Some(msg), ..m },
                Ok(v) => refreshed(
                    EditorModel { instructions: m.instructions.update(cell, v), ..cleared },
                    cell,
                ),
            }
        }
    }
}

/// How the byte `b` is shown as an instruction name.
fn byte_name_string(b: u8) -> (r: String)
    ensures
        r@ == byte_name(b),
{
    match Instruction::from_repr(b) {
        Some(i) => i.name(),
        None => String::new(),
    }
}

/// The conditional jump named by the word `cond`, negated or not.
fn condition_from_word(cond: &Vec<char>, negate: bool) -> (r: Option<Instruction>)
    ensures
        r == condition_instruction(cond@, negate),
{
    if word_is(cond, "box") {
        Some(if negate { Instruction::IfNotBox } else { Instruction::IfBox })
    } else if word_is(cond, "wall") {
        Some(if negate { Instruction::IfNotWall } else { Instruction::IfWall })
    } else if word_is(cond, "edge") {
        Some(if negate { Instruction::IfNotEdge } else { Instruction::IfEdge })
    } else if word_is(cond, "robot") {
        Some(if negate { Instruction::IfNotRobot } else { Instruction::IfRobot })
    } else {
        None
    }
}

fn quoted_message(before: &str, found: &Vec<char>, after: &str) -> (r: String)
    ensures
        r@ == before@ + found@ + after@,
{
    let mut m = before.to_owned();
    push_chars(&mut m, found);
    push_text(&mut m, after);
    m
}

/// The instruction that the first words of `ws` name, with how many words
/// it takes.
fn parse_head_words(ws: &Vec<Vec<char>>, full: &Vec<char>) -> (r: Result<(Instruction, usize), String>)
    ensures
        r matches Ok((i, k)) ==> parse_head(ws@.map_values(|w: Vec<char>| w@), full@) == Ok::<
            (Instruction, int),
            Seq<char>,
        >((i, k as int)),
        r matches Err(m) ==> parse_head(ws@.map_values(|w: Vec<char>| w@), full@) == Err::<
            (Instruction, int),
            Seq<char>,
        >(m@),
{
    let ghost wv = ws@.map_values(|w: Vec<char>| w@);
    if ws.len() == 0 {
        return Err(
            "invalid start of command, expected one of `halt`, `walk`, `turn`, `wait`, `goto`, or `if`. For more info about the available instructions, refer to the manual.".to_owned(),
        );
    }
    assert(wv[0] == ws@[0]@);
    let w0 = &ws[0];
    if word_is(w0, "halt") {
        Ok((Instruction::Halt, 1))
    } else if word_is(w0, "walk") {
        Ok((Instruction::Walk, 1))
    } else if word_is(w0, "wait") {
        Ok((Instruction::Wait, 1))
    } else if word_is(w0, "goto") {
        Ok((Instruction::Goto, 1))
    } else if word_is(w0, "turn") {
        if ws.len() > 1 {
            assert(wv[1] == ws@[1]@);
        }
        if ws.len() > 1 && word_is(&ws[1], "around") {
            Ok((Instruction::TurnAround, 2))
        } else if ws.len() > 1 && word_is(&ws[1], "left") {
            Ok((Instruction::TurnLeft, 2))
        } else if ws.len() > 1 && word_is(&ws[1], "right") {
            Ok((Instruction::TurnRight, 2))
        } else {
            Err(
                quoted_message(
                    "invalid `turn` command, expected one of `turn around`, `turn right`, or `turn left`. found `",
                    full,
                    "`",
                ),
            )
        }
    } else if word_is(w0, "if") {
        if ws.len() > 1 {
            assert(wv[1] == ws@[1]@);
        }
        let negate = ws.len() > 1 && word_is(&ws[1], "not");
        let k: usize = if negate { 2 } else { 1 };
        if ws.len() <= k {
            return Err(
                "missing branch condition, expected one of `box`, `wall`, `edge`, or `robot`".to_owned(),
            );
        }
        assert(wv[k as int] == ws@[k as int]@);
        match condition_from_word(&ws[k], negate) {
            Some(i) => Ok((i, k + 1)),
            None => Err(
                quoted_message(
                    "invalid branch condition, expected one of `box`, `wall`, `edge`, or `robot`, found `",
                    &ws[k],
                    "`",
                ),
            ),
        }
    } else {
        Err(
            "invalid start of command, expected one of `halt`, `walk`, `turn`, `wait`, `goto`, or `if`. For more info about the available instructions, refer to the manual.".to_owned(),
        )
    }
}

/// The instruction named by the text `t`, or why it names none.
pub fn parse_instruction_name(t: &Vec<char>) -> (r: Result<Instruction, String>)
    ensures
        r matches Ok(i) ==> parse_name(t@) == Ok::<Instruction, Seq<char>>(i),
        r matches Err(m) ==> parse_name(t@) == Err::<Instruction, Seq<char>>(m@),
{
    let ws = split_words(t);
    let ghost wv = ws@.map_values(|w: Vec<char>| w@);
    match parse_head_words(&ws, t) {
        Err(m) => Err(m),
        Ok((instr, k)) => {
            if ws.len() > k {
                assert(wv[k as int] == ws@[k as int]@);
                let mut m = "unexpected word `".to_owned();
                push_chars(&mut m, &ws[k]);
                push_text(&mut m, "`, `");
                let name = instr.name();
                push_text(&mut m, name.as_str());
                push_text(&mut m, "` is already a complete instruction");
                assert(m@ =~= extra_word_message(wv[k as int], instruction_name(instr)));
                Err(m)
            } else {
                Ok(instr)
            }
        },
    }
}

/// The byte that the text `t` gives as a value, or why it gives none.
pub fn parse_value_chars(t: &Vec<char>) -> (r: Result<u8, String>)
    ensures
        r matches Ok(v) ==> parse_value(t@) == Ok::<u8, Seq<char>>(v),
        r matches Err(m) ==> parse_value(t@) == Err::<u8, Seq<char>>(m@),
{
    match parse_u8_chars(t) {
        Ok(v) => if v < 32 {
            Ok(v)
        } else {
            let mut m = "the value `".to_owned();
            let d = decimal_string(v);
            push_text(&mut m, d.as_str());
            push_text(&mut m, "` cannot be stored as it is larger than 31");
            assert(m@ =~= value_too_large_message(v));
            Err(m)
        },
        Err(m) => Err(m),
    }
}

impl InstructionsEditor {
    /// An editor whose program is all `halt`, with no cell selected.
    pub fn new() -> (r: InstructionsEditor)
        ensures
            r@.wf(),
            r@.instructions == Seq::new(32, |_i: int| 0u8),
            r@.names == Seq::new(32, |_i: int| "halt"@),
            r@.values == Seq::new(32, |_i: int| "0"@),
            r@.active is None,
            r@.error is None,
    {
        let instructions = [Instruction::Halt.repr(); 32];
        let mut user_names: Vec<String> = Vec::new();
        let mut user_values: Vec<String> = Vec::new();
        let mut i: usize = 0;
        while i < 32
            invariant
                i <= 32,
                user_names@.map_values(|s: String| s@) =~= Seq::new(i as nat, |_i: int| "halt"@),
                user_values@.map_values(|s: String| s@) =~= Seq::new(i as nat, |_i: int| "0"@),
            decreases 32 - i,
        {
            let ghost names0 = user_names@.map_values(|s: String| s@);
            let ghost values0 = user_values@.map_values(|s: String| s@);
            let name = Instruction::Halt.name();
            let value = decimal_string(Instruction::Halt.repr());
            proof {
                reveal_strlit("0");
                assert(value@ =~= "0"@);
            }
            user_names.push(name);
            user_values.push(value);
            assert(user_names@.map_values(|s: String| s@) =~= names0.push(name@));
            assert(user_values@.map_values(|s: String| s@) =~= values0.push(value@));
            i += 1;
        }
        let r = InstructionsEditor {
            user_names,
            user_values,
            instructions,
            active_cell: None,
            error: None,
        };
        assert(r.instructions@ =~= Seq::new(32, |_i: int| 0u8));
        r
    }

    /// The text of the cell being edited, to be typed into.
    pub fn active_cell_data(&mut self) -> (r: Option<&mut String>)
        requires
            old(self)@.wf(),
        ensures
            r is None <==> old(self).active_cell is None,
            old(self).active_cell matches Some((b, i)) ==> r matches Some(s) && (b ==> *s
                == old(self).user_names@[i as int] && final(self).user_names@ == old(
                self,
            ).user_names@.update(i as int, *final(s)) && final(self).user_values@ == old(
                self,
            ).user_values@) && (!b ==> *s == old(self).user_values@[i as int]
                && final(self).user_values@ == old(self).user_values@.update(i as int, *final(s))
                && final(self).user_names@ == old(self).user_names@),
            old(self).active_cell is None ==> final(self).user_names@ == old(self).user_names@
                && final(self).user_values@ == old(self).user_values@,
            final(self).instructions == old(self).instructions,
            final(self).active_cell == old(self).active_cell,
            final(self).error == old(self).error,
    {
        match self.active_cell {
            Some((b, i)) => if b {
                Some(&mut self.user_names[i])
            } else {
                Some(&mut self.user_values[i])
            },
            None => None,
        }
    }

    /// Normalises the text typed into cell `cell` (its name if `was_name`,
    /// else its value) and stores what it gives, or sets `error`.
    pub fn check_and_update_cell(&mut self, was_name: bool, cell: usize)
        requires
            old(self)@.wf(),
            cell < 32,
        ensures
            final(self)@ == updated_cell(old(self)@, was_name, cell as int),
            final(self)@.wf(),
    {
        let ghost m = self@;
        let c = cell;
        self.error = None;
        if was_name {
            let t = trim_chars(self.user_names[c].as_str());
            let mut ts = String::new();
            push_chars(&mut ts, &t);
            assert(ts@ =~= t@);
            self.user_names.set(c, ts);
            if t.len() == 0 {
                self.user_names.set(c, byte_name_string(self.instructions[c]));
                assert(self@ =~= updated_cell(m, was_name, cell as int));
                return;
            }
            match parse_instruction_name(&t) {
                Ok(instr) => {
                    proof {
                        crate::instruction::lemma_decode_opcode(instr);
                    }
                    self.instructions[c] = instr.repr();
                },
                Err(msg) => {
                    self.error = Some(msg);
                    assert(self@ =~= updated_cell(m, was_name, cell as int));
                    return;
                },
            }
        } else {
            let t = trim_chars(self.user_values[c].as_str());
            let mut ts = String::new();
            push_chars(&mut ts, &t);
            assert(ts@ =~= t@);
            self.user_values.set(c, ts);
            if t.len() == 0 {
                self.user_values.set(c, decimal_string(self.instructions[c]));
                assert(self@ =~= updated_cell(m, was_name, cell as int));
                return;
            }
            match parse_value_chars(&t) {
                Ok(v) => {
                    self.instructions[c] = v;
                },
                Err(msg) => {
                    self.error = Some(msg);
                    assert(self@ =~= updated_cell(m, was_name, cell as int));
                    return;
                },
            }
        }
        self.user_names.set(c, byte_name_string(self.instructions[c]));
        self.user_values.set(c, decimal_string(self.instructions[c]));
        assert(self@ =~= updated_cell(m, was_name, cell as int));
    }

    /// Moves the selection to `new_cell`. The cell that was selected, if
    /// any, is checked and updated, and returned.
    pub fn on_selection_quit(&mut self, new_cell: Option<(bool, usize)>) -> (r: Option<
        (bool, usize),
    >)
        requires
            old(self)@.wf(),
            new_cell matches Some((_, i)) ==> i < 32,
        ensures
            r == old(self).active_cell,
            r is None ==> final(self)@ == (EditorModel { active: new_cell, ..old(self)@ }),
            r matches Some((was_name, cell)) ==> final(self)@ == updated_cell(
                EditorModel { active: new_cell, ..old(self)@ },
                was_name,
                cell as int,
            ),
            final(self)@.wf(),
    {
        let old_cell = self.active_cell;
        self.active_cell = new_cell;
        let (was_name, cell) = match old_cell {
            Some(x) => x,
            None => {
                return None;
            },
        };
        self.check_and_update_cell(was_name, cell);
        old_cell
    }
}

} // verus!
