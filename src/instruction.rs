use vstd::prelude::*;

verus! {

/// The robot instruction set. Each instruction is stored in a program as
/// one byte, its opcode, which is its position in this list.
#[derive(Debug, Clone, Copy, PartialEq, Eq, Structural)]
pub enum Instruction {
    Halt,
    Walk,
    TurnAround,
    TurnLeft,
    TurnRight,
    Wait,
    Goto,
    IfBox,
    IfWall,
    IfEdge,
    IfRobot,
    IfNotBox,
    IfNotWall,
    IfNotEdge,
    IfNotRobot,
}

/// The byte that encodes `i` in a program.
pub open spec fn opcode(i: Instruction) -> u8 {
    match i {
        Instruction::Halt => 0,
        Instruction::Walk => 1,
        Instruction::TurnAround => 2,
        Instruction::TurnLeft => 3,
        Instruction::TurnRight => 4,
        Instruction::Wait => 5,
        Instruction::Goto => 6,
        Instruction::IfBox => 7,
        Instruction::IfWall => 8,
        Instruction::IfEdge => 9,
        Instruction::IfRobot => 10,
        Instruction::IfNotBox => 11,
        Instruction::IfNotWall => 12,
        Instruction::IfNotEdge => 13,
        Instruction::IfNotRobot => 14,
    }
}

/// The instruction whose opcode is `b`, if there is one.
pub open spec fn decode(b: u8) -> Option<Instruction> {
    if exists|i: Instruction| opcode(i) == b {
        Some(choose|i: Instruction| opcode(i) == b)
    } else {
        None
    }
}

/// Whether `i` reads an operand byte after its opcode.
pub open spec fn has_operand(i: Instruction) -> bool {
    !(i == Instruction::Halt || i == Instruction::Wait || i == Instruction::TurnAround
        || i == Instruction::TurnLeft || i == Instruction::TurnRight)
}

/// Whether `i` is a conditional jump.
pub open spec fn is_conditional(i: Instruction) -> bool {
    has_operand(i) && i != Instruction::Walk && i != Instruction::Goto
}

/// Whether the conditional jump `i` jumps when its condition holds (rather
/// than when it fails).
pub open spec fn jumps_when_true(i: Instruction) -> bool {
    i == Instruction::IfBox || i == Instruction::IfWall || i == Instruction::IfEdge
        || i == Instruction::IfRobot
}

/// How `i` is written in the program editor.
pub open spec fn instruction_name(i: Instruction) -> Seq<char> {
    match i {
        Instruction::Halt => "halt"@,
        Instruction::Walk => "walk"@,
        Instruction::TurnAround => "turn around"@,
        Instruction::TurnLeft => "turn left"@,
        Instruction::TurnRight => "turn right"@,
        Instruction::Wait => "wait"@,
        Instruction::Goto => "goto"@,
        Instruction::IfBox => "if box"@,
        Instruction::IfWall => "if wall"@,
        Instruction::IfEdge => "if edge"@,
        Instruction::IfRobot => "if robot"@,
        Instruction::IfNotBox => "if not box"@,
        Instruction::IfNotWall => "if not wall"@,
        Instruction::IfNotEdge => "if not edge"@,
        Instruction::IfNotRobot => "if not robot"@,
    }
}

/// Decoding an opcode gives back the instruction, and no two instructions
/// share an opcode.
pub proof fn lemma_decode_opcode(i: Instruction)
    ensures
        decode(opcode(i)) == Some(i),
        opcode(i) < 15,
        forall|j: Instruction| opcode(j) == opcode(i) ==> j == i,
{
    assert(opcode(i) == opcode(i));
}

impl Instruction {
    /// The opcode of this instruction.
    pub fn repr(self) -> (r: u8)
        ensures
            r == opcode(self),
    {
        match self {
            Instruction::Halt => 0,
            Instruction::Walk => 1,
            Instruction::TurnAround => 2,
            Instruction::TurnLeft => 3,
            Instruction::TurnRight => 4,
            Instruction::Wait => 5,
            Instruction::Goto => 6,
            Instruction::IfBox => 7,
            Instruction::IfWall => 8,
            Instruction::IfEdge => 9,
            Instruction::IfRobot => 10,
            Instruction::IfNotBox => 11,
            Instruction::IfNotWall => 12,
            Instruction::IfNotEdge => 13,
            Instruction::IfNotRobot => 14,
        }
    }

    /// The instruction with opcode `b`, or `None` for a byte that is no
    /// opcode.
    pub fn from_repr(b: u8) -> (r: Option<Instruction>)
        ensures
            r == decode(b),
            r.is_none() <==> b >= 15,
    {
        let r = match b {
            0 => Some(Instruction::Halt),
            1 => Some(Instruction::Walk),
            2 => Some(Instruction::TurnAround),
            3 => Some(Instruction::TurnLeft),
            4 => Some(Instruction::TurnRight),
            5 => Some(Instruction::Wait),
            6 => Some(Instruction::Goto),
            7 => Some(Instruction::IfBox),
            8 => Some(Instruction::IfWall),
            9 => Some(Instruction::IfEdge),
            10 => Some(Instruction::IfRobot),
            11 => Some(Instruction::IfNotBox),
            12 => Some(Instruction::IfNotWall),
            13 => Some(Instruction::IfNotEdge),
            14 => Some(Instruction::IfNotRobot),
            _ => None,
        };
        proof {
            match r {
                Some(i) => lemma_decode_opcode(i),
                None => {
                    assert forall|i: Instruction| opcode(i) != b by {
                        lemma_decode_opcode(i);
                    }
                },
            }
        }
        r
    }

    /// Whether the instruction is followed by an operand byte.
    pub fn is_wide(self) -> (r: bool)
        ensures
            r == has_operand(self),
    {
        match self {
            Instruction::Halt
            | Instruction::Wait
            | Instruction::TurnAround
            | Instruction::TurnLeft
            | Instruction::TurnRight => false,
            Instruction::Walk
            | Instruction::Goto
            | Instruction::IfBox
            | Instruction::IfWall
            | Instruction::IfEdge
            | Instruction::IfRobot
            | Instruction::IfNotBox
            | Instruction::IfNotWall
            | Instruction::IfNotEdge
            | Instruction::IfNotRobot => true,
        }
    }

    /// For a conditional jump: whether it jumps when its condition holds.
    pub fn is_positive(self) -> (r: bool)
        requires
            is_conditional(self),
        ensures
            r == jumps_when_true(self),
    {
        match self {
            Instruction::IfBox
            | Instruction::IfWall
            | Instruction::IfEdge
            | Instruction::IfRobot => true,
            _ => false,
        }
    }

    /// How the instruction is written in the program editor.
    pub fn name(self) -> (r: String)
        ensures
            r@ == instruction_name(self),
    {
        let s: &str = match self {
            Instruction::Halt => "halt",
            Instruction::Walk => "walk",
            Instruction::TurnAround => "turn around",
            Instruction::TurnLeft => "turn left",
            Instruction::TurnRight => "turn right",
            Instruction::Wait => "wait",
            Instruction::Goto => "goto",
            Instruction::IfBox => "if box",
            Instruction::IfWall => "if wall",
            Instruction::IfEdge => "if edge",
            Instruction::IfRobot => "if robot",
            Instruction::IfNotBox => "if not box",
            Instruction::IfNotWall => "if not wall",
            Instruction::IfNotEdge => "if not edge",
            Instruction::IfNotRobot => "if not robot",
        };
        s.to_owned()
    }
}

} // verus!
