use botgame::direction::{is_dirs_opposite, Direction};
use botgame::instruction::Instruction;

#[test]
fn opcodes_round_trip() {
    for b in 0u8..15 {
        let i = Instruction::from_repr(b).unwrap();
        assert_eq!(i.repr(), b);
    }
    assert_eq!(Instruction::from_repr(15), None);
    assert_eq!(Instruction::from_repr(255), None);
    assert_eq!(Instruction::Goto.repr(), 6);
    assert_eq!(Instruction::IfNotRobot.repr(), 14);
}

#[test]
fn operand_and_polarity() {
    assert!(!Instruction::Halt.is_wide());
    assert!(!Instruction::Wait.is_wide());
    assert!(Instruction::Walk.is_wide());
    assert!(Instruction::IfNotEdge.is_wide());
    assert!(Instruction::IfRobot.is_positive());
    assert!(!Instruction::IfNotWall.is_positive());
}

#[test]
fn instruction_names() {
    assert_eq!(Instruction::TurnAround.name(), "turn around");
    assert_eq!(Instruction::IfNotRobot.name(), "if not robot");
    assert_eq!(Instruction::Wait.name(), "wait");
}

#[test]
fn four_left_turns_return_to_the_start() {
    for d in [Direction::Up, Direction::Down, Direction::Left, Direction::Right] {
        assert_eq!(d.turn_left().turn_left().turn_left().turn_left(), d);
    }
    assert_eq!(Direction::Right.turn_left(), Direction::Up);
    assert_eq!(Direction::Right.turn_right(), Direction::Down);
    assert_eq!(Direction::Up.turn_around(), Direction::Down);
}

#[test]
fn opposite_directions() {
    assert!(is_dirs_opposite(Direction::Left, Direction::Right));
    assert!(!is_dirs_opposite(Direction::Left, Direction::Up));
    assert!(!is_dirs_opposite(Direction::Down, Direction::Down));
}
