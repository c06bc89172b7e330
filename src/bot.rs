use vstd::prelude::*;

use crate::direction::{left_of, opposite_of, right_of, Direction};
use crate::instruction::{decode, jumps_when_true, lemma_decode_opcode, opcode, Instruction};
use crate::map::{pos_after, EntityKind, GridPos, Place, TileMap};

verus! {

/// The number of bytes in a robot program.
pub const PROGRAM_LEN: usize = 32;

/// What a robot carries from one run to the next: its program and where it
/// starts.
#[derive(Debug, Clone)]
pub struct BotData {
    pub instructions: [u8; 32],
    pub start_position: GridPos,
    pub start_dir: Direction,
}

/// Every byte of a program is an opcode or an operand, and both are below
/// the program length.
pub open spec fn program_wf(p: Seq<u8>) -> bool {
    &&& p.len() == 32
    &&& forall|i: int| 0 <= i < 32 ==> #[trigger] p[i] < 32
}

impl BotData {
    /// A robot with an all-`halt` program.
    pub fn new(pos: GridPos, dir: Direction) -> (r: BotData)
        ensures
            r.instructions@ == Seq::new(32, |_i: int| 0u8),
            r.start_position == pos,
            r.start_dir == dir,
            r.wf(),
    {
        let r = BotData { instructions: [0u8; 32], start_position: pos, start_dir: dir };
        assert(r.instructions@ =~= Seq::new(32, |_i: int| 0u8));
        r
    }

    pub open spec fn wf(&self) -> bool {
        program_wf(self.instructions@)
    }
}

/// One cell of a program as it is written down: a literal operand or an
/// instruction.
#[derive(Debug, Clone, Copy, PartialEq, Eq, Structural)]
pub enum Memory {
    Data(u8),
    Instruction(Instruction),
}

/// The byte that stores `m`.
pub open spec fn memory_byte(m: Memory) -> u8 {
    match m {
        Memory::Data(v) => v,
        Memory::Instruction(i) => opcode(i),
    }
}

/// A robot program.
#[derive(Debug, Clone)]
pub struct Bot {
    pub instructions: [u8; 32],
}

impl Bot {
    /// The program whose first cells are `cells`, in order, and whose
    /// remaining cells are `halt`.
    pub fn from_iter(cells: Vec<Memory>) -> (r: Bot)
        requires
            cells@.len() <= 32,
            forall|i: int| 0 <= i < cells@.len() ==> (#[trigger] cells@[i] matches Memory::Data(v) ==> v < 32),
        ensures
            r.instructions@ == Seq::new(
                32,
                |i: int| if i < cells@.len() { memory_byte(cells@[i]) } else { opcode(Instruction::Halt) },
            ),
            program_wf(r.instructions@),
    {
        let mut instructions = [Instruction::Halt.repr(); 32];
        let mut i: usize = 0;
        while i < cells.len()
            invariant
                i <= cells@.len(),
                cells@.len() <= 32,
                forall|j: int| 0 <= j < i ==> instructions@[j] == memory_byte(#[trigger] cells@[j]),
                forall|j: int| i <= j < 32 ==> #[trigger] instructions@[j] == 0,
            decreases cells@.len() - i,
        {
            let b = match cells[i] {
                Memory::Data(val) => val,
                Memory::Instruction(instr) => instr.repr(),
            };
            instructions[i] = b;
            i += 1;
        }
        let r = Bot { instructions };
        assert(r.instructions@ =~= Seq::new(
            32,
            |i: int| if i < cells@.len() { memory_byte(cells@[i]) } else { opcode(Instruction::Halt) },
        ));
        assert forall|i: int| 0 <= i < 32 implies #[trigger] r.instructions@[i] < 32 by {
            if i < cells@.len() {
                match cells@[i] {
                    Memory::Data(v) => {},
                    Memory::Instruction(instr) => lemma_decode_opcode(instr),
                }
            }
        }
        r
    }
}

/// One pending action of a robot, queued by the interpreter and carried
/// out by the movement resolver.
#[derive(Debug, Clone, Copy, PartialEq, Eq, Structural)]
pub enum Step {
    Wait,
    Walk,
    UpdateDir(Direction),
}

/// The execution state of a running robot. `steps` is a stack: the last
/// step pushed is the first one carried out.
#[derive(Debug)]
pub struct BotState {
    pub halted: bool,
    /// Where the instruction last interpreted started.
    pub prev_instruction: u8,
    /// The program counter.
    pub current_instruction: u8,
    pub steps: Vec<Step>,
    pub dir: Direction,
}

/// The mathematical value of a `BotState`.
#[verifier::ext_equal]
pub struct BotStateModel {
    pub halted: bool,
    pub prev: u8,
    pub pc: u8,
    pub steps: Seq<Step>,
    pub dir: Direction,
}

impl View for BotState {
    type V = BotStateModel;

    open spec fn view(&self) -> BotStateModel {
        BotStateModel {
            halted: self.halted,
            prev: self.prev_instruction,
            pc: self.current_instruction,
            steps: self.steps@,
            dir: self.dir,
        }
    }
}

impl BotStateModel {
    /// The program counter and the last instruction's start are program
    /// addresses.
    pub open spec fn wf(&self) -> bool {
        self.pc < 32 && self.prev < 32
    }
}

/// The program address after `pc`, wrapping from the last to the first.
pub open spec fn next_pc(pc: u8) -> u8 {
    if pc == 31 {
        0
    } else {
        (pc + 1) as u8
    }
}

/// Whether the condition tested by the conditional jump `i` holds, for a
/// robot standing on `here`, facing the tile `ahead`, on which stands
/// `facing` (if anything).
pub open spec fn condition_holds(
    i: Instruction,
    here: Place,
    ahead: Place,
    facing: Option<EntityKind>,
) -> bool {
    match i {
        Instruction::IfWall | Instruction::IfNotWall => ahead == Place::Wall || (here
            == Place::LowerFloor && ahead == Place::UpperFloor),
        Instruction::IfEdge | Instruction::IfNotEdge => (here == Place::UpperFloor && ahead
            == Place::LowerFloor) || ahead == Place::Void,
        Instruction::IfBox | Instruction::IfNotBox => facing == Some(EntityKind::Box),
        _ => facing == Some(EntityKind::Robot),
    }
}

/// The state after one tick of the interpreter: nothing changes for a
/// halted robot or one with steps still pending; otherwise the instruction
/// at the program counter is decoded and carried out. A byte that is no
/// opcode halts the robot.
pub open spec fn interpret(
    program: Seq<u8>,
    pos: GridPos,
    s: BotStateModel,
    map: TileMap,
    facing: Option<EntityKind>,
) -> BotStateModel {
    if s.halted || s.steps.len() != 0 {
        s
    } else {
        let pc1 = next_pc(s.pc);
        let arg = program[pc1 as int];
        let pc2 = next_pc(pc1);
        let base = BotStateModel { prev: s.pc, pc: pc1, ..s };
        match decode(program[s.pc as int]) {
            None => BotStateModel { halted: true, ..base },
            Some(Instruction::Halt) => BotStateModel { halted: true, ..base },
            Some(Instruction::Walk) => BotStateModel {
                pc: pc2,
                steps: Seq::new(arg as nat, |_i: int| Step::Walk),
                ..base
            },
            Some(Instruction::TurnAround) => BotStateModel {
                steps: seq![Step::UpdateDir(opposite_of(s.dir))],
                ..base
            },
            Some(Instruction::TurnLeft) => BotStateModel {
                steps: seq![Step::UpdateDir(left_of(s.dir))],
                ..base
            },
            Some(Instruction::TurnRight) => BotStateModel {
                steps: seq![Step::UpdateDir(right_of(s.dir))],
                ..base
            },
            Some(Instruction::Wait) => BotStateModel { steps: seq![Step::Wait], ..base },
            Some(Instruction::Goto) => BotStateModel { pc: arg, ..base },
            Some(i) => {
                let holds = condition_holds(
                    i,
                    map.tile_at(pos),
                    map.tile_at(pos_after(pos, s.dir)),
                    facing,
                );
                BotStateModel { pc: if jumps_when_true(i) == holds { arg } else { pc2 }, ..base }
            },
        }
    }
}

/// Interpreting a `goto` jumps to its operand: the program counter becomes
/// exactly the byte after the opcode, and no step is queued.
pub proof fn lemma_goto_jumps(
    program: Seq<u8>,
    pos: GridPos,
    s: BotStateModel,
    map: TileMap,
    facing: Option<EntityKind>,
)
    requires
        program_wf(program),
        s.wf(),
        !s.halted,
        s.steps.len() == 0,
        program[s.pc as int] == opcode(Instruction::Goto),
    ensures
        ({
            let r = interpret(program, pos, s, map, facing);
            &&& r.pc == program[next_pc(s.pc) as int]
            &&& r.steps.len() == 0
            &&& !r.halted
            &&& r.dir == s.dir
        }),
{
    lemma_decode_opcode(Instruction::Goto);
}

impl BotState {
    /// The state of a robot about to run its program from the start.
    pub fn new(dir: Direction) -> (r: BotState)
        ensures
            r@ == (BotStateModel { halted: false, prev: 0, pc: 0, steps: Seq::empty(), dir }),
    {
        BotState {
            halted: false,
            prev_instruction: 0,
            current_instruction: 0,
            steps: Vec::new(),
            dir,
        }
    }

    fn advance_instruction(&mut self)
        requires
            old(self)@.wf(),
        ensures
            final(self)@ == (BotStateModel { pc: next_pc(old(self).current_instruction), ..old(self)@ }),
    {
        if self.current_instruction == 31 {
            self.current_instruction = 0;
        } else {
            self.current_instruction += 1;
        }
    }

    fn read_instruction(&mut self, data: &BotData) -> (r: Option<Instruction>)
        requires
            old(self)@.wf(),
            data.wf(),
        ensures
            r == decode(data.instructions@[old(self).current_instruction as int]),
            final(self)@ == (BotStateModel { pc: next_pc(old(self).current_instruction), ..old(self)@ }),
    {
        let instr = Instruction::from_repr(data.instructions[self.current_instruction as usize]);
        self.advance_instruction();
        instr
    }

    fn read_value(&mut self, data: &BotData) -> (r: u8)
        requires
            old(self)@.wf(),
            data.wf(),
        ensures
            r == data.instructions@[old(self).current_instruction as int],
            r < 32,
            final(self)@ == (BotStateModel { pc: next_pc(old(self).current_instruction), ..old(self)@ }),
    {
        let value = data.instructions[self.current_instruction as usize];
        self.advance_instruction();
        value
    }
}

/// Runs one tick of `bot`'s program for a robot standing at `pos`, where
/// `entity_on_tile_facing` is what stands on the tile it faces.
pub fn run_bot_interpreter(
    bot: &BotData,
    pos: GridPos,
    state: &mut BotState,
    map: &TileMap,
    entity_on_tile_facing: Option<EntityKind>,
)
    requires
        bot.wf(),
        old(state)@.wf(),
        map.wf(),
    ensures
        final(state)@ == interpret(bot.instructions@, pos, old(state)@, *map, entity_on_tile_facing),
        final(state)@.wf(),
{
    if state.halted || state.steps.len() != 0 {
        return;
    }
    let facing_grid_pos = pos.step(state.dir);
    state.prev_instruction = state.current_instruction;
    let instr = match state.read_instruction(bot) {
        Some(instr) => instr,
        None => {
            state.halted = true;
            return;
        },
    };
    match instr {
        Instruction::Halt => {
            state.halted = true;
        },
        Instruction::Walk => {
            let arg = state.read_value(bot);
            let ghost steps0 = state.steps@;
            let mut k: u8 = 0;
            while k < arg
                invariant
                    k <= arg,
                    arg < 32,
                    steps0.len() == 0,
                    state.steps@ =~= Seq::new(k as nat, |_i: int| Step::Walk),
                    state.halted == old(state).halted,
                    state.dir == old(state).dir,
                    state.current_instruction == next_pc(next_pc(old(state).current_instruction)),
                    state.prev_instruction == old(state).current_instruction,
                decreases arg - k,
            {
                state.steps.push(Step::Walk);
                k += 1;
            }
        },
        Instruction::TurnAround => {
            let new_dir = state.dir.turn_around();
            state.steps.push(Step::UpdateDir(new_dir));
            assert(state.steps@ =~= seq![Step::UpdateDir(new_dir)]);
        },
        Instruction::TurnLeft => {
            let new_dir = state.dir.turn_left();
            state.steps.push(Step::UpdateDir(new_dir));
            assert(state.steps@ =~= seq![Step::UpdateDir(new_dir)]);
        },
        Instruction::TurnRight => {
            let new_dir = state.dir.turn_right();
            state.steps.push(Step::UpdateDir(new_dir));
            assert(state.steps@ =~= seq![Step::UpdateDir(new_dir)]);
        },
        Instruction::Wait => {
            state.steps.push(Step::Wait);
            assert(state.steps@ =~= seq![Step::Wait]);
        },
        Instruction::Goto => {
            let arg = state.read_value(bot);
            state.current_instruction = arg;
        },
        Instruction::IfWall | Instruction::IfNotWall => {
            let ahead = map.tile(facing_grid_pos);
            let here = map.tile(pos);
            let cond = matches!(ahead, Place::Wall) || (matches!(here, Place::LowerFloor)
                && matches!(ahead, Place::UpperFloor));
            let jump = instr.is_positive() == cond;
            let target = state.read_value(bot);
            if jump {
                state.current_instruction = target;
            }
        },
        Instruction::IfEdge | Instruction::IfNotEdge => {
            let ahead = map.tile(facing_grid_pos);
            let here = map.tile(pos);
            let cond = (matches!(here, Place::UpperFloor) && matches!(ahead, Place::LowerFloor))
                || matches!(ahead, Place::Void);
            let jump = instr.is_positive() == cond;
            let target = state.read_value(bot);
            if jump {
                state.current_instruction = target;
            }
        },
        Instruction::IfBox | Instruction::IfNotBox => {
            let cond = matches!(entity_on_tile_facing, Some(EntityKind::Box));
            let jump = instr.is_positive() == cond;
            let target = state.read_value(bot);
            if jump {
                state.current_instruction = target;
            }
        },
        Instruction::IfRobot | Instruction::IfNotRobot => {
            let cond = matches!(entity_on_tile_facing, Some(EntityKind::Robot));
            let jump = instr.is_positive() == cond;
            let target = state.read_value(bot);
            if jump {
                state.current_instruction = target;
            }
        },
    }
}

} // verus!
