use vstd::prelude::*;

use crate::level::{CurrentLevel, LevelList};
use crate::map::{EntityKind, Place, TileMap};
use crate::world::{EntityModel, World};

verus! {

/// Why a run of a level failed, as shown to the player.
#[derive(Debug)]
pub struct ExecutionFailure(pub String);

/// Whether some robot stands on a tile of kind `p`.
pub open spec fn robot_on(ents: Seq<EntityModel>, map: TileMap, p: Place) -> bool {
    exists|i: int|
        0 <= i < ents.len() && (#[trigger] ents[i]).kind == EntityKind::Robot && map.tile_at(ents[i].pos)
            == p
}

/// Whether some box stands on a tile of kind `p`.
pub open spec fn box_on(ents: Seq<EntityModel>, map: TileMap, p: Place) -> bool {
    exists|i: int|
        0 <= i < ents.len() && (#[trigger] ents[i]).kind == EntityKind::Box && map.tile_at(ents[i].pos)
            == p
}

/// Whether some box has not reached an exit.
pub open spec fn box_not_placed(ents: Seq<EntityModel>, map: TileMap) -> bool {
    exists|i: int|
        0 <= i < ents.len() && (#[trigger] ents[i]).kind == EntityKind::Box && map.tile_at(ents[i].pos)
            != Place::Exit
}

/// Whether some robot has halted anywhere but on an exit.
pub open spec fn robot_stuck(ents: Seq<EntityModel>, map: TileMap) -> bool {
    exists|i: int|
        0 <= i < ents.len() && (#[trigger] ents[i]).kind == EntityKind::Robot && ents[i].state().halted
            && map.tile_at(ents[i].pos) != Place::Exit
}

/// Whether every robot and box stands on an exit.
pub open spec fn all_on_exit(ents: Seq<EntityModel>, map: TileMap) -> bool {
    forall|i: int| 0 <= i < ents.len() ==> map.tile_at((#[trigger] ents[i]).pos) == Place::Exit
}

pub open spec fn fell_message() -> Seq<char> {
    "stage failed: the robot fell into the void and will not make further progress"@
}

pub open spec fn early_exit_message() -> Seq<char> {
    "stage failed: the robot entered the exit without first inserting all boxes"@
}

pub open spec fn halted_message() -> Seq<char> {
    "stage failed: the robot halted and will not make further progress"@
}

pub open spec fn box_lost_message() -> Seq<char> {
    "stage failed: a box fell into the void, which prevents a successful finish"@
}

/// The failure a level is in, if any: the first that holds of a robot in
/// the void, a robot on an exit while a box is not, a robot halted short of
/// an exit, and a box in the void.
pub open spec fn failure_of(ents: Seq<EntityModel>, map: TileMap) -> Option<Seq<char>> {
    if robot_on(ents, map, Place::Void) {
        Some(fell_message())
    } else if robot_on(ents, map, Place::Exit) && box_not_placed(ents, map) {
        Some(early_exit_message())
    } else if robot_stuck(ents, map) {
        Some(halted_message())
    } else if box_on(ents, map, Place::Void) {
        Some(box_lost_message())
    } else {
        None
    }
}

/// Classifies the world after a tick: the failure it is in, if any.
pub fn failure_detector(world: &World, map: &TileMap) -> (r: Option<ExecutionFailure>)
    requires
        world.wf(),
        map.wf(),
    ensures
        r matches Some(f) ==> failure_of(world@, *map) == Some(f.0@),
        r is None ==> failure_of(world@, *map) is None,
{
    let ghost ents = world@;
    let mut robot_void = false;
    let mut robot_exit = false;
    let mut box_unplaced = false;
    let mut stuck = false;
    let mut box_void = false;
    let mut i: usize = 0;
    while i < world.entities.len()
        invariant
            i <= ents.len(),
            ents == world@,
            world.wf(),
            map.wf(),
            robot_void == exists|j: int|
                0 <= j < i && (#[trigger] ents[j]).kind == EntityKind::Robot && map.tile_at(ents[j].pos)
                    == Place::Void,
            robot_exit == exists|j: int|
                0 <= j < i && (#[trigger] ents[j]).kind == EntityKind::Robot && map.tile_at(ents[j].pos)
                    == Place::Exit,
            box_unplaced == exists|j: int|
                0 <= j < i && (#[trigger] ents[j]).kind == EntityKind::Box && map.tile_at(ents[j].pos)
                    != Place::Exit,
            stuck == exists|j: int|
                0 <= j < i && (#[trigger] ents[j]).kind == EntityKind::Robot
                    && ents[j].state().halted && map.tile_at(ents[j].pos) != Place::Exit,
            box_void == exists|j: int|
                0 <= j < i && (#[trigger] ents[j]).kind == EntityKind::Box && map.tile_at(ents[j].pos)
                    == Place::Void,
        decreases ents.len() - i,
    {
        let e = &world.entities[i];
        let tile = map.tile(e.pos);
        let on_void = matches!(tile, Place::Void);
        let on_exit = matches!(tile, Place::Exit);
        assert(ents[i as int].wf());
        match &e.bot {
            Some(r) => {
                robot_void = robot_void || on_void;
                robot_exit = robot_exit || on_exit;
                stuck = stuck || (r.state.halted && !on_exit);
            },
            None => {
                box_unplaced = box_unplaced || !on_exit;
                box_void = box_void || on_void;
            },
        }
        i += 1;
    }
    if robot_void {
        Some(ExecutionFailure(
            "stage failed: the robot fell into the void and will not make further progress".to_owned(),
        ))
    } else if robot_exit && box_unplaced {
        Some(ExecutionFailure(
            "stage failed: the robot entered the exit without first inserting all boxes".to_owned(),
        ))
    } else if stuck {
        Some(ExecutionFailure(
            "stage failed: the robot halted and will not make further progress".to_owned(),
        ))
    } else if box_void {
        Some(ExecutionFailure(
            "stage failed: a box fell into the void, which prevents a successful finish".to_owned(),
        ))
    } else {
        None
    }
}

/// Whether the level is won, every robot and box standing on an exit; if
/// so, the current level is recorded as beaten.
pub fn level_complete_checker(
    world: &World,
    map: &TileMap,
    level_list: &mut LevelList,
    current_level: CurrentLevel,
) -> (r: bool)
    requires
        map.wf(),
        current_level.0 < old(level_list).beaten@.len(),
    ensures
        r == all_on_exit(world@, *map),
        final(level_list).levels@ == old(level_list).levels@,
        r ==> final(level_list).beaten@ == old(level_list).beaten@.update(current_level.0 as int, true),
        !r ==> final(level_list).beaten@ == old(level_list).beaten@,
{
    let ghost ents = world@;
    let mut i: usize = 0;
    while i < world.entities.len()
        invariant
            i <= ents.len(),
            ents == world@,
            map.wf(),
            forall|j: int| 0 <= j < i ==> map.tile_at((#[trigger] ents[j]).pos) == Place::Exit,
        decreases ents.len() - i,
    {
        if !matches!(map.tile(world.entities[i].pos), Place::Exit) {
            assert(map.tile_at(ents[i as int].pos) != Place::Exit);
            return false;
        }
        i += 1;
    }
    level_list.beaten.set(current_level.0, true);
    true
}

/// A won level is in no failure: with every entity on an exit, no robot or
/// box is in the void, every box is placed, and a halted robot is halted on
/// an exit.
pub proof fn lemma_won_is_not_failed(ents: Seq<EntityModel>, map: TileMap)
    requires
        all_on_exit(ents, map),
    ensures
        failure_of(ents, map) is None,
{
    assert(!robot_on(ents, map, Place::Void));
    assert(!box_not_placed(ents, map));
    assert(!robot_stuck(ents, map));
    assert(!box_on(ents, map, Place::Void));
}

/// The checks are made in a fixed order and only the first failure found
/// is reported: with no robot in the void or on an exit too early, a robot
/// halted short of an exit is what is reported, whatever else holds (a box
/// in the void included).
pub proof fn lemma_halted_reported_first(ents: Seq<EntityModel>, map: TileMap, i: int)
    requires
        0 <= i < ents.len(),
        ents[i].kind == EntityKind::Robot,
        ents[i].state().halted,
        map.tile_at(ents[i].pos) != Place::Exit,
        !robot_on(ents, map, Place::Void),
        !(robot_on(ents, map, Place::Exit) && box_not_placed(ents, map)),
    ensures
        failure_of(ents, map) == Some(halted_message()),
{
    assert(robot_stuck(ents, map));
}

} // verus!
