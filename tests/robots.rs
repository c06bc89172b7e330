use botgame::bot::{run_bot_interpreter, BotData, BotState, Step};
use botgame::direction::Direction;
use botgame::draw::{DrawUpdates, Step as Event};
use botgame::instruction::Instruction;
use botgame::level::{init_state, reset_bot_and_box_state, set_instructions, spawn_map_entities, Level};
use botgame::map::{EntityKind, GridPos, TileMap};
use botgame::status::failure_detector;
use botgame::tick::progress_world;
use botgame::world::{apply_bot_actions, entity_on_tile, World};

fn program(bytes: &[u8]) -> [u8; 32] {
    let mut p = [0u8; 32];
    p[..bytes.len()].copy_from_slice(bytes);
    p
}

fn op(i: Instruction) -> u8 {
    i.repr()
}

fn world_of(map: &str, bots: Vec<(GridPos, Direction)>, boxes: Vec<GridPos>) -> (World, TileMap) {
    let level = Level { map: TileMap::from_str(map).unwrap(), boxes, bots };
    let world = spawn_map_entities(&level);
    (world, level.map)
}

fn state_of(world: &World, id: usize) -> &BotState {
    &world.entities[id].bot.as_ref().unwrap().state
}

fn tick(world: &mut World, map: &TileMap) -> Vec<Vec<(usize, Event)>> {
    let mut updates = DrawUpdates::empty();
    progress_world(world, map, &mut updates);
    updates.data.into_iter().collect()
}

fn bot_with(bytes: &[u8]) -> BotData {
    let mut d = BotData::new(GridPos(0, 0), Direction::Right);
    d.instructions = program(bytes);
    d
}

#[test]
fn walk_queues_its_operand_of_steps() {
    let map = TileMap::from_str("......").unwrap();
    let bot = bot_with(&[op(Instruction::Walk), 3]);
    let mut st = BotState::new(Direction::Right);
    run_bot_interpreter(&bot, GridPos(0, 0), &mut st, &map, None);
    assert_eq!(st.steps, vec![Step::Walk, Step::Walk, Step::Walk]);
    assert_eq!(st.current_instruction, 2);
    assert_eq!(st.prev_instruction, 0);
    // pending steps: nothing more is interpreted
    run_bot_interpreter(&bot, GridPos(0, 0), &mut st, &map, None);
    assert_eq!(st.steps.len(), 3);
    assert_eq!(st.current_instruction, 2);
}

#[test]
fn goto_sets_the_program_counter() {
    let map = TileMap::from_str("...").unwrap();
    let bot = bot_with(&[op(Instruction::Goto), 17]);
    let mut st = BotState::new(Direction::Up);
    run_bot_interpreter(&bot, GridPos(1, 0), &mut st, &map, None);
    assert_eq!(st.current_instruction, 17);
    assert!(st.steps.is_empty());
    assert!(!st.halted);
}

#[test]
fn program_counter_wraps_after_the_last_cell() {
    let map = TileMap::from_str("...").unwrap();
    let mut bytes = [op(Instruction::Wait); 32];
    bytes[31] = op(Instruction::Walk);
    bytes[0] = 2;
    let mut bot = BotData::new(GridPos(0, 0), Direction::Right);
    bot.instructions = bytes;
    let mut st = BotState::new(Direction::Right);
    st.current_instruction = 31;
    run_bot_interpreter(&bot, GridPos(0, 0), &mut st, &map, None);
    assert_eq!(st.current_instruction, 1);
    assert_eq!(st.steps.len(), 2);
}

#[test]
fn walk_zero_queues_nothing() {
    let map = TileMap::from_str("...").unwrap();
    let bot = bot_with(&[op(Instruction::Walk), 0, op(Instruction::TurnLeft)]);
    let mut st = BotState::new(Direction::Right);
    run_bot_interpreter(&bot, GridPos(0, 0), &mut st, &map, None);
    assert!(st.steps.is_empty());
    assert_eq!(st.current_instruction, 2);
    run_bot_interpreter(&bot, GridPos(0, 0), &mut st, &map, None);
    assert_eq!(st.steps, vec![Step::UpdateDir(Direction::Up)]);
    assert_eq!(st.prev_instruction, 2);
}

#[test]
fn turns_queue_the_new_facing() {
    let map = TileMap::from_str("...").unwrap();
    let bot = bot_with(&[op(Instruction::TurnAround), op(Instruction::TurnRight), op(Instruction::Wait)]);
    let mut st = BotState::new(Direction::Left);
    run_bot_interpreter(&bot, GridPos(0, 0), &mut st, &map, None);
    assert_eq!(st.steps, vec![Step::UpdateDir(Direction::Right)]);
    st.steps.clear();
    run_bot_interpreter(&bot, GridPos(0, 0), &mut st, &map, None);
    assert_eq!(st.steps, vec![Step::UpdateDir(Direction::Up)]);
    st.steps.clear();
    run_bot_interpreter(&bot, GridPos(0, 0), &mut st, &map, None);
    assert_eq!(st.steps, vec![Step::Wait]);
}

#[test]
fn halt_and_unknown_opcode_halt_the_robot() {
    let map = TileMap::from_str("...").unwrap();
    let bot = bot_with(&[op(Instruction::Halt)]);
    let mut st = BotState::new(Direction::Left);
    run_bot_interpreter(&bot, GridPos(0, 0), &mut st, &map, None);
    assert!(st.halted);
    assert_eq!(st.current_instruction, 1);
    run_bot_interpreter(&bot, GridPos(0, 0), &mut st, &map, None);
    assert_eq!(st.current_instruction, 1);

    let bot = bot_with(&[20]);
    let mut st = BotState::new(Direction::Left);
    run_bot_interpreter(&bot, GridPos(0, 0), &mut st, &map, None);
    assert!(st.halted);
}

#[test]
fn if_wall_sees_walls_and_upper_floor_from_below() {
    let map = TileMap::from_str(".#\n.-").unwrap();
    let bot = bot_with(&[op(Instruction::IfWall), 9]);
    let mut st = BotState::new(Direction::Right);
    run_bot_interpreter(&bot, GridPos(0, 0), &mut st, &map, None);
    assert_eq!(st.current_instruction, 9);
    let mut st = BotState::new(Direction::Right);
    run_bot_interpreter(&bot, GridPos(0, 1), &mut st, &map, None);
    assert_eq!(st.current_instruction, 9);
    let mut st = BotState::new(Direction::Up);
    run_bot_interpreter(&bot, GridPos(0, 1), &mut st, &map, None);
    assert_eq!(st.current_instruction, 2);

    let bot = bot_with(&[op(Instruction::IfNotWall), 9]);
    let mut st = BotState::new(Direction::Up);
    run_bot_interpreter(&bot, GridPos(0, 1), &mut st, &map, None);
    assert_eq!(st.current_instruction, 9);
}

#[test]
fn if_edge_sees_void_and_lower_floor_from_above() {
    let map = TileMap::from_str("-.").unwrap();
    let bot = bot_with(&[op(Instruction::IfEdge), 7]);
    let mut st = BotState::new(Direction::Right);
    run_bot_interpreter(&bot, GridPos(0, 0), &mut st, &map, None);
    assert_eq!(st.current_instruction, 7);
    let mut st = BotState::new(Direction::Up);
    run_bot_interpreter(&bot, GridPos(1, 0), &mut st, &map, None);
    assert_eq!(st.current_instruction, 7);
    let mut st = BotState::new(Direction::Left);
    run_bot_interpreter(&bot, GridPos(1, 0), &mut st, &map, None);
    assert_eq!(st.current_instruction, 2);
}

#[test]
fn if_box_and_if_robot_look_at_the_facing_entity() {
    let map = TileMap::from_str("...").unwrap();
    let bot = bot_with(&[op(Instruction::IfBox), 5]);
    let mut st = BotState::new(Direction::Right);
    run_bot_interpreter(&bot, GridPos(0, 0), &mut st, &map, Some(EntityKind::Box));
    assert_eq!(st.current_instruction, 5);
    let mut st = BotState::new(Direction::Right);
    run_bot_interpreter(&bot, GridPos(0, 0), &mut st, &map, Some(EntityKind::Robot));
    assert_eq!(st.current_instruction, 2);

    let bot = bot_with(&[op(Instruction::IfNotRobot), 5]);
    let mut st = BotState::new(Direction::Right);
    run_bot_interpreter(&bot, GridPos(0, 0), &mut st, &map, None);
    assert_eq!(st.current_instruction, 5);
    let bot = bot_with(&[op(Instruction::IfRobot), 5]);
    let mut st = BotState::new(Direction::Right);
    run_bot_interpreter(&bot, GridPos(0, 0), &mut st, &map, Some(EntityKind::Robot));
    assert_eq!(st.current_instruction, 5);
}

#[test]
fn chain_push_moves_robot_then_box() {
    let (mut world, map) = world_of("...", vec![(GridPos(0, 0), Direction::Right)], vec![GridPos(1, 0)]);
    world.entities[0].bot.as_mut().unwrap().state.steps.push(Step::Walk);
    let events = apply_bot_actions(&mut world, 0, &map);
    assert_eq!(
        events,
        vec![(0, Event::Move(GridPos(0, 0), GridPos(1, 0))), (1, Event::Move(GridPos(1, 0), GridPos(2, 0)))]
    );
    assert_eq!(world.entities[0].pos, GridPos(1, 0));
    assert_eq!(world.entities[1].pos, GridPos(2, 0));
}

#[test]
fn chain_push_into_wall_moves_nothing() {
    let (mut world, map) = world_of("..#", vec![(GridPos(0, 0), Direction::Right)], vec![GridPos(1, 0)]);
    world.entities[0].bot.as_mut().unwrap().state.steps.push(Step::Walk);
    let events = apply_bot_actions(&mut world, 0, &map);
    assert_eq!(events, vec![(0, Event::MoveFail)]);
    assert_eq!(world.entities[0].pos, GridPos(0, 0));
    assert_eq!(world.entities[1].pos, GridPos(1, 0));
    assert!(state_of(&world, 0).steps.is_empty());
}

#[test]
fn long_chain_push() {
    let (mut world, map) = world_of(
        ".....",
        vec![(GridPos(0, 0), Direction::Right)],
        vec![GridPos(1, 0), GridPos(2, 0), GridPos(3, 0)],
    );
    world.entities[0].bot.as_mut().unwrap().state.steps.push(Step::Walk);
    let events = apply_bot_actions(&mut world, 0, &map);
    assert_eq!(events.len(), 4);
    assert_eq!(world.entities[3].pos, GridPos(4, 0));
    // the last box is pushed off the map, into the void
    world.entities[0].bot.as_mut().unwrap().state.steps.push(Step::Walk);
    let events = apply_bot_actions(&mut world, 0, &map);
    assert_eq!(events.len(), 4);
    assert_eq!(world.entities[3].pos, GridPos(5, 0));
    assert!(world.entities[3].voided_or_exited);
    assert!(!world.entities[2].voided_or_exited);
}

#[test]
fn pushed_box_falls_into_the_void_and_stops_blocking() {
    let (mut world, map) = world_of("..  ", vec![(GridPos(0, 0), Direction::Right)], vec![GridPos(1, 0)]);
    world.entities[0].bot.as_mut().unwrap().state.steps.push(Step::Walk);
    let events = apply_bot_actions(&mut world, 0, &map);
    assert_eq!(
        events,
        vec![(0, Event::Move(GridPos(0, 0), GridPos(1, 0))), (1, Event::Move(GridPos(1, 0), GridPos(2, 0)))]
    );
    assert!(world.entities[1].voided_or_exited);
    assert!(!world.entities[0].voided_or_exited);
    assert_eq!(entity_on_tile(GridPos(2, 0), &world), None);
    assert_eq!(entity_on_tile(GridPos(1, 0), &world), Some(EntityKind::Robot));
}

#[test]
fn pushed_robot_falls_into_the_void_and_halts() {
    let (mut world, map) = world_of(
        ".. ",
        vec![(GridPos(0, 0), Direction::Right), (GridPos(1, 0), Direction::Up)],
        vec![],
    );
    world.entities[1].bot.as_mut().unwrap().state.steps.push(Step::Wait);
    world.entities[0].bot.as_mut().unwrap().state.steps.push(Step::Walk);
    apply_bot_actions(&mut world, 0, &map);
    assert_eq!(world.entities[1].pos, GridPos(2, 0));
    assert!(world.entities[1].voided_or_exited);
    assert!(state_of(&world, 1).halted);
    assert!(state_of(&world, 1).steps.is_empty());
}

#[test]
fn wait_and_turn_steps_report_their_events() {
    let (mut world, map) = world_of("..", vec![(GridPos(0, 0), Direction::Right)], vec![]);
    world.entities[0].bot.as_mut().unwrap().state.steps.push(Step::Wait);
    world.entities[0].bot.as_mut().unwrap().state.steps.push(Step::UpdateDir(Direction::Down));
    assert_eq!(
        apply_bot_actions(&mut world, 0, &map),
        vec![(0, Event::UpdateDir(Direction::Right, Direction::Down))]
    );
    assert_eq!(state_of(&world, 0).dir, Direction::Down);
    assert_eq!(apply_bot_actions(&mut world, 0, &map), vec![(0, Event::Idle)]);
    assert_eq!(apply_bot_actions(&mut world, 0, &map), vec![]);
}

fn walk_once(map: &str, start: GridPos, dir: Direction) -> bool {
    let (mut world, map) = world_of(map, vec![(start, dir)], vec![]);
    world.entities[0].bot.as_mut().unwrap().state.steps.push(Step::Walk);
    let events = apply_bot_actions(&mut world, 0, &map);
    events != vec![(0, Event::MoveFail)]
}

#[test]
fn ramps_are_crossed_along_their_direction() {
    // upper floor, ramp, lower floor laid out along the ramp's direction
    let layouts = [
        ("->.", GridPos(0, 0), GridPos(1, 0), GridPos(2, 0), Direction::Right),
        (".<-", GridPos(2, 0), GridPos(1, 0), GridPos(0, 0), Direction::Left),
        ("-\nv\n.", GridPos(0, 0), GridPos(0, 1), GridPos(0, 2), Direction::Down),
        (".\n^\n-", GridPos(0, 2), GridPos(0, 1), GridPos(0, 0), Direction::Up),
    ];
    for (text, upper, ramp, lower, down) in layouts {
        let up = down.turn_around();
        // downhill: upper floor onto the ramp, ramp onto the lower floor
        assert!(walk_once(text, upper, down));
        assert!(walk_once(text, ramp, down));
        // uphill: lower floor onto the ramp, ramp onto the upper floor
        assert!(walk_once(text, lower, up));
        assert!(walk_once(text, ramp, up));
    }
    // entering a ramp against its direction
    assert!(!walk_once("-<", GridPos(0, 0), Direction::Right));
    assert!(!walk_once(".>", GridPos(0, 0), Direction::Right));
    // entering a ramp from the side
    assert!(!walk_once("-.\n.v", GridPos(0, 1), Direction::Right));
    // floors
    assert!(!walk_once(".-", GridPos(0, 0), Direction::Right));
    assert!(walk_once("-.", GridPos(0, 0), Direction::Right));
    assert!(!walk_once(".#", GridPos(0, 0), Direction::Right));
    // two ramps meeting uphill ends
    assert!(walk_once("v\n^", GridPos(0, 0), Direction::Down));
    assert!(!walk_once("^\nv", GridPos(0, 0), Direction::Down));
}

#[test]
fn walk_five_turn_left_goto_zero() {
    let (mut world, map) = world_of("......", vec![(GridPos(0, 0), Direction::Right)], vec![]);
    set_instructions(
        &mut world,
        program(&[op(Instruction::Walk), 5, op(Instruction::TurnLeft), op(Instruction::Goto), 0]),
    );
    for x in 1..=5 {
        let events = tick(&mut world, &map);
        assert_eq!(events, vec![vec![(0, Event::Move(GridPos(x - 1, 0), GridPos(x, 0)))]]);
    }
    assert_eq!(world.entities[0].pos, GridPos(5, 0));
    let events = tick(&mut world, &map);
    assert_eq!(events, vec![vec![(0, Event::UpdateDir(Direction::Right, Direction::Up))]]);
    let events = tick(&mut world, &map);
    assert_eq!(events, vec![vec![]]);
    assert_eq!(state_of(&world, 0).current_instruction, 0);
    assert_eq!(state_of(&world, 0).dir, Direction::Up);
    // walking on along y leaves the one-row map
    let events = tick(&mut world, &map);
    assert_eq!(events, vec![vec![(0, Event::Move(GridPos(5, 0), GridPos(5, usize::MAX)))]]);
    assert!(state_of(&world, 0).halted);
    for _ in 0..40 {
        tick(&mut world, &map);
    }
    assert_eq!(world.entities[0].pos, GridPos(5, usize::MAX));
    let failure = failure_detector(&world, &map).unwrap();
    assert_eq!(
        failure.0,
        "stage failed: the robot fell into the void and will not make further progress"
    );
}

#[test]
fn loop_on_a_closed_track_runs_forever() {
    let (mut world, map) = world_of("......\n......", vec![(GridPos(0, 0), Direction::Right)], vec![]);
    set_instructions(
        &mut world,
        program(&[op(Instruction::Walk), 5, op(Instruction::TurnAround), op(Instruction::Goto), 0]),
    );
    for _ in 0..100 {
        tick(&mut world, &map);
        assert!(state_of(&world, 0).current_instruction < 32);
        assert!(!state_of(&world, 0).halted);
    }
    assert!(failure_detector(&world, &map).is_none());
}

#[test]
fn no_tick_while_events_wait_for_playback() {
    let (mut world, map) = world_of("...", vec![(GridPos(0, 0), Direction::Right)], vec![]);
    set_instructions(&mut world, program(&[op(Instruction::Walk), 1]));
    let mut updates = DrawUpdates::empty();
    progress_world(&mut world, &map, &mut updates);
    assert_eq!(updates.data.len(), 1);
    assert_eq!(world.entities[0].pos, GridPos(1, 0));
    progress_world(&mut world, &map, &mut updates);
    assert_eq!(updates.data.len(), 1);
    assert_eq!(world.entities[0].pos, GridPos(1, 0));
}

#[test]
fn robots_take_turns_in_order_of_id() {
    let (mut world, map) = world_of(
        "....",
        vec![(GridPos(0, 0), Direction::Right), (GridPos(2, 0), Direction::Left)],
        vec![],
    );
    set_instructions(&mut world, program(&[op(Instruction::Walk), 1, op(Instruction::Halt)]));
    let events = tick(&mut world, &map);
    assert_eq!(
        events,
        vec![
            vec![(0, Event::Move(GridPos(0, 0), GridPos(1, 0)))],
            vec![(1, Event::Move(GridPos(2, 0), GridPos(1, 0))), (0, Event::Move(GridPos(1, 0), GridPos(0, 0)))],
        ]
    );
}

#[test]
fn reset_brings_entities_back() {
    let (mut world, map) = world_of("..  ", vec![(GridPos(0, 0), Direction::Right)], vec![GridPos(1, 0)]);
    set_instructions(&mut world, program(&[op(Instruction::Walk), 1]));
    tick(&mut world, &map);
    assert!(world.entities[1].voided_or_exited);
    reset_bot_and_box_state(&mut world);
    init_state(&mut world);
    assert_eq!(world.entities[0].pos, GridPos(0, 0));
    assert_eq!(world.entities[1].pos, GridPos(1, 0));
    assert!(!world.entities[1].voided_or_exited);
    assert_eq!(state_of(&world, 0).current_instruction, 0);
    assert_eq!(world.entities[0].bot.as_ref().unwrap().data.instructions[0], op(Instruction::Walk));
}
