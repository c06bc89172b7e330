use vstd::prelude::*;

use crate::bot::{program_wf, BotData, BotState, BotStateModel};
use crate::direction::Direction;
use crate::map::{map_text_ok, EntityKind, GridPos, TileMap};
use crate::world::{world_wf, Entity, EntityModel, Robot, World};

verus! {

/// A level: its map, where its boxes start, and where and facing which way
/// its robots start.
#[derive(Debug)]
pub struct Level {
    pub map: TileMap,
    pub boxes: Vec<GridPos>,
    pub bots: Vec<(GridPos, Direction)>,
}

/// A level as stored in the level list: the name of its map file, and the
/// robots and boxes as coordinates.
#[derive(Debug)]
pub struct LevelSerde {
    pub map: String,
    pub boxes: Vec<(usize, usize)>,
    pub bots: Vec<(usize, usize, Direction)>,
}

impl Level {
    /// The level that `level_serde` describes, whose map has the text
    /// `map_text`; `None` when that text describes no map.
    pub fn from_level_serde(level_serde: LevelSerde, map_text: &str) -> (r: Option<Level>)
        ensures
            r is Some <==> map_text_ok(map_text@),
            r matches Some(l) ==> {
                &&& l.map.describes(map_text@)
                &&& l.boxes@.len() == level_serde.boxes@.len()
                &&& forall|i: int|
                    0 <= i < l.boxes@.len() ==> #[trigger] l.boxes@[i] == GridPos(
                        level_serde.boxes@[i].0,
                        level_serde.boxes@[i].1,
                    )
                &&& l.bots@.len() == level_serde.bots@.len()
                &&& forall|i: int|
                    0 <= i < l.bots@.len() ==> #[trigger] l.bots@[i] == (
                        GridPos(level_serde.bots@[i].0, level_serde.bots@[i].1),
                        level_serde.bots@[i].2,
                    )
            },
    {
        let map = match TileMap::from_str(map_text) {
            Some(m) => m,
            None => {
                return None;
            },
        };
        let mut boxes: Vec<GridPos> = Vec::new();
        let mut i: usize = 0;
        while i < level_serde.boxes.len()
            invariant
                i <= level_serde.boxes@.len(),
                boxes@.len() == i,
                forall|j: int|
                    0 <= j < i ==> #[trigger] boxes@[j] == GridPos(
                        level_serde.boxes@[j].0,
                        level_serde.boxes@[j].1,
                    ),
            decreases level_serde.boxes@.len() - i,
        {
            let (x, y) = level_serde.boxes[i];
            boxes.push(GridPos(x, y));
            i += 1;
        }
        let mut bots: Vec<(GridPos, Direction)> = Vec::new();
        let mut k: usize = 0;
        while k < level_serde.bots.len()
            invariant
                k <= level_serde.bots@.len(),
                bots@.len() == k,
                forall|j: int|
                    0 <= j < k ==> #[trigger] bots@[j] == (
                        GridPos(level_serde.bots@[j].0, level_serde.bots@[j].1),
                        level_serde.bots@[j].2,
                    ),
            decreases level_serde.bots@.len() - k,
        {
            let (x, y, dir) = level_serde.bots[k];
            bots.push((GridPos(x, y), dir));
            k += 1;
        }
        Some(Level { map, boxes, bots })
    }
}

/// All levels of the game, with which of them have been beaten.
#[derive(Debug)]
pub struct LevelList {
    pub levels: Vec<Level>,
    pub beaten: Vec<bool>,
}

/// The index of the level being played.
#[derive(Debug, Clone, Copy, PartialEq, Eq, Structural)]
pub struct CurrentLevel(pub usize);

/// Whether `e` is a robot as a level places it at `pos` facing `dir`: with
/// an all-`halt` program and a fresh state.
pub open spec fn is_spawned_robot(e: EntityModel, pos: GridPos, dir: Direction) -> bool {
    &&& e.kind == EntityKind::Robot
    &&& e.pos == pos
    &&& e.start_position == pos
    &&& !e.voided
    &&& e.bot matches Some((d, s)) && d.instructions@ == Seq::new(32, |_i: int| 0u8)
        && d.start_position == pos && d.start_dir == dir && s == fresh_state(dir)
}

/// A box as placed by a level.
pub open spec fn spawned_box(pos: GridPos) -> EntityModel {
    EntityModel { kind: EntityKind::Box, pos, start_position: pos, voided: false, bot: None }
}

/// The state of a robot about to run its program from the start.
pub open spec fn fresh_state(dir: Direction) -> BotStateModel {
    BotStateModel { halted: false, prev: 0, pc: 0, steps: Seq::empty(), dir }
}

/// The entities of `level`: its robots first, in order, then its boxes.
pub fn spawn_map_entities(level: &Level) -> (r: World)
    ensures
        r.wf(),
        r@.len() == level.bots@.len() + level.boxes@.len(),
        forall|i: int|
            0 <= i < level.bots@.len() ==> is_spawned_robot(
                #[trigger] r@[i],
                level.bots@[i].0,
                level.bots@[i].1,
            ),
        forall|i: int|
            0 <= i < level.boxes@.len() ==> #[trigger] r@[level.bots@.len() + i] == spawned_box(
                level.boxes@[i],
            ),
{
    let mut entities: Vec<Entity> = Vec::new();
    let mut i: usize = 0;
    while i < level.bots.len()
        invariant
            i <= level.bots@.len(),
            entities@.len() == i,
            forall|j: int|
                0 <= j < i ==> is_spawned_robot(
                    (#[trigger] entities@[j])@,
                    level.bots@[j].0,
                    level.bots@[j].1,
                ),
        decreases level.bots@.len() - i,
    {
        let (pos, dir) = level.bots[i];
        let data = BotData::new(pos, dir);
        entities.push(
            Entity {
                kind: EntityKind::Robot,
                pos,
                start_position: pos,
                voided_or_exited: false,
                bot: Some(Robot { data, state: BotState::new(dir) }),
            },
        );
        i += 1;
    }
    let mut k: usize = 0;
    while k < level.boxes.len()
        invariant
            k <= level.boxes@.len(),
            entities@.len() == level.bots@.len() + k,
            forall|j: int|
                0 <= j < level.bots@.len() ==> is_spawned_robot(
                    (#[trigger] entities@[j])@,
                    level.bots@[j].0,
                    level.bots@[j].1,
                ),
            forall|j: int|
                0 <= j < k ==> (#[trigger] entities@[level.bots@.len() + j])@ == spawned_box(
                    level.boxes@[j],
                ),
        decreases level.boxes@.len() - k,
    {
        let pos = level.boxes[k];
        entities.push(
            Entity {
                kind: EntityKind::Box,
                pos,
                start_position: pos,
                voided_or_exited: false,
                bot: None,
            },
        );
        k += 1;
    }
    let r = World { entities };
    assert forall|i: int| 0 <= i < r@.len() implies (#[trigger] r@[i]).wf() by {
        if i >= level.bots@.len() {
            let j = i - level.bots@.len();
            assert((r.entities@[level.bots@.len() + j])@ == spawned_box(level.boxes@[j]));
        } else {
            assert(is_spawned_robot(r@[i], level.bots@[i].0, level.bots@[i].1));
        }
    }
    r
}

/// Every entity back at its start, taking part in the level again; the
/// robots' programs and states are kept.
pub fn reset_bot_and_box_state(world: &mut World)
    requires
        old(world).wf(),
    ensures
        final(world).wf(),
        final(world)@.len() == old(world)@.len(),
        forall|i: int|
            0 <= i < old(world)@.len() ==> #[trigger] final(world)@[i] == (EntityModel {
                pos: old(world)@[i].start_position,
                voided: false,
                ..old(world)@[i]
            }),
{
    let ghost ents0 = world@;
    let mut i: usize = 0;
    while i < world.entities.len()
        invariant
            i <= ents0.len(),
            world@.len() == ents0.len(),
            forall|j: int|
                0 <= j < i ==> #[trigger] world@[j] == (EntityModel {
                    pos: ents0[j].start_position,
                    voided: false,
                    ..ents0[j]
                }),
            forall|j: int| i <= j < ents0.len() ==> #[trigger] world@[j] == ents0[j],
            world_wf(ents0),
        decreases ents0.len() - i,
    {
        let ghost before = world@;
        assert(before[i as int] == ents0[i as int]);
        let e = &mut world.entities[i];
        e.pos = e.start_position;
        e.voided_or_exited = false;
        assert(world@ =~= before.update(i as int, world.entities@[i as int]@));
        assert(world@[i as int] == (EntityModel {
            pos: ents0[i as int].start_position,
            voided: false,
            ..ents0[i as int]
        }));
        i += 1;
    }
    assert forall|j: int| 0 <= j < world@.len() implies (#[trigger] world@[j]).wf() by {
        assert(ents0[j].wf());
    }
}

/// Every robot with a fresh state, facing the way it starts.
pub fn init_state(world: &mut World)
    requires
        old(world).wf(),
    ensures
        final(world).wf(),
        final(world)@.len() == old(world)@.len(),
        forall|i: int|
            0 <= i < old(world)@.len() ==> #[trigger] final(world)@[i] == match old(world)@[i].bot {
                Some((d, _s)) => EntityModel {
                    bot: Some((d, fresh_state(d.start_dir))),
                    ..old(world)@[i]
                },
                None => old(world)@[i],
            },
{
    let ghost ents0 = world@;
    let mut i: usize = 0;
    while i < world.entities.len()
        invariant
            i <= ents0.len(),
            world@.len() == ents0.len(),
            forall|j: int|
                0 <= j < i ==> #[trigger] world@[j] == match ents0[j].bot {
                    Some((d, _s)) => EntityModel {
                        bot: Some((d, fresh_state(d.start_dir))),
                        ..ents0[j]
                    },
                    None => ents0[j],
                },
            forall|j: int| i <= j < ents0.len() ==> #[trigger] world@[j] == ents0[j],
            world_wf(ents0),
        decreases ents0.len() - i,
    {
        let ghost before = world@;
        assert(before[i as int] == ents0[i as int]);
        let e = &mut world.entities[i];
        if let Some(r) = &mut e.bot {
            r.state = BotState::new(r.data.start_dir);
        }
        assert(world@ =~= before.update(i as int, world.entities@[i as int]@));
        i += 1;
    }
    assert forall|j: int| 0 <= j < world@.len() implies (#[trigger] world@[j]).wf() by {
        assert(ents0[j].wf());
    }
}

/// Every robot given `instructions` as its program.
pub fn set_instructions(world: &mut World, instructions: [u8; 32])
    requires
        old(world).wf(),
        program_wf(instructions@),
    ensures
        final(world).wf(),
        final(world)@.len() == old(world)@.len(),
        forall|i: int|
            0 <= i < old(world)@.len() ==> #[trigger] final(world)@[i] == match old(world)@[i].bot {
                Some((d, s)) => EntityModel {
                    bot: Some((BotData { instructions, ..d }, s)),
                    ..old(world)@[i]
                },
                None => old(world)@[i],
            },
{
    let ghost ents0 = world@;
    let mut i: usize = 0;
    while i < world.entities.len()
        invariant
            i <= ents0.len(),
            world@.len() == ents0.len(),
            program_wf(instructions@),
            forall|j: int|
                0 <= j < i ==> #[trigger] world@[j] == match ents0[j].bot {
                    Some((d, s)) => EntityModel {
                        bot: Some((BotData { instructions, ..d }, s)),
                        ..ents0[j]
                    },
                    None => ents0[j],
                },
            forall|j: int| i <= j < ents0.len() ==> #[trigger] world@[j] == ents0[j],
            world_wf(ents0),
        decreases ents0.len() - i,
    {
        let ghost before = world@;
        assert(before[i as int] == ents0[i as int]);
        let e = &mut world.entities[i];
        if let Some(r) = &mut e.bot {
            r.data.instructions = instructions;
        }
        assert(world@ =~= before.update(i as int, world.entities@[i as int]@));
        i += 1;
    }
    assert forall|j: int| 0 <= j < world@.len() implies (#[trigger] world@[j]).wf() by {
        assert(ents0[j].wf());
    }
}

} // verus!
