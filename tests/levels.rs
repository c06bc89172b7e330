use botgame::bot::{Bot, Memory};
use botgame::direction::Direction;
use botgame::instruction::Instruction;
use botgame::level::{spawn_map_entities, Level, LevelSerde};
use botgame::map::{EntityKind, GridPos, Place};

#[test]
fn program_from_cells_is_padded_with_halt() {
    let bot = Bot::from_iter(vec![
        Memory::Instruction(Instruction::Walk),
        Memory::Data(5),
        Memory::Instruction(Instruction::IfNotEdge),
        Memory::Data(31),
    ]);
    assert_eq!(&bot.instructions[..4], &[1, 5, 13, 31]);
    assert!(bot.instructions[4..].iter().all(|&b| b == Instruction::Halt.repr()));
}

#[test]
fn level_from_its_stored_form() {
    let stored = LevelSerde {
        map: "first".to_string(),
        boxes: vec![(1, 0)],
        bots: vec![(0, 0, Direction::Right), (2, 1, Direction::Up)],
    };
    let level = Level::from_level_serde(stored, "..o\n---").unwrap();
    assert_eq!(level.map.width, 3);
    assert_eq!(level.map.tile(GridPos(2, 0)), Place::Exit);
    assert_eq!(level.boxes, vec![GridPos(1, 0)]);
    assert_eq!(level.bots, vec![(GridPos(0, 0), Direction::Right), (GridPos(2, 1), Direction::Up)]);
}

#[test]
fn level_with_a_bad_map_is_refused() {
    let stored = LevelSerde { map: "broken".to_string(), boxes: vec![], bots: vec![] };
    assert!(Level::from_level_serde(stored, "..?").is_none());
}

#[test]
fn spawning_places_robots_before_boxes() {
    let stored = LevelSerde {
        map: "m".to_string(),
        boxes: vec![(1, 0), (2, 0)],
        bots: vec![(0, 0, Direction::Down)],
    };
    let level = Level::from_level_serde(stored, "...").unwrap();
    let world = spawn_map_entities(&level);
    assert_eq!(world.entities.len(), 3);
    assert_eq!(world.entities[0].kind, EntityKind::Robot);
    assert_eq!(world.entities[0].bot.as_ref().unwrap().state.dir, Direction::Down);
    assert_eq!(world.entities[0].bot.as_ref().unwrap().data.instructions, [0u8; 32]);
    assert_eq!(world.entities[2].kind, EntityKind::Box);
    assert_eq!(world.entities[2].pos, GridPos(2, 0));
    assert!(world.entities[2].bot.is_none());
}
