use vstd::prelude::*;

use crate::bot::{BotData, BotState, BotStateModel, Step};
use crate::direction::{opposite_of, Direction};
use crate::draw::Step as DrawStep;
use crate::map::{dir_to_adjacent_tile, pos_after, EntityKind, GridPos, Place, TileMap};

verus! {

/// A robot's program together with its execution state.
#[derive(Debug)]
pub struct Robot {
    pub data: BotData,
    pub state: BotState,
}

/// One robot or box of a running level. Its id is its index in the world.
#[derive(Debug)]
pub struct Entity {
    pub kind: EntityKind,
    pub pos: GridPos,
    pub start_position: GridPos,
    /// Set once the entity has fallen into the void or reached an exit;
    /// from then on it blocks nothing.
    pub voided_or_exited: bool,
    pub bot: Option<Robot>,
}

/// The mathematical value of an `Entity`.
pub struct EntityModel {
    pub kind: EntityKind,
    pub pos: GridPos,
    pub start_position: GridPos,
    pub voided: bool,
    pub bot: Option<(BotData, BotStateModel)>,
}

impl View for Entity {
    type V = EntityModel;

    open spec fn view(&self) -> EntityModel {
        EntityModel {
            kind: self.kind,
            pos: self.pos,
            start_position: self.start_position,
            voided: self.voided_or_exited,
            bot: match self.bot {
                Some(r) => Some((r.data, r.state@)),
                None => None,
            },
        }
    }
}

impl EntityModel {
    /// Robots, and only robots, carry a well-formed program and state.
    pub open spec fn wf(&self) -> bool {
        match self.bot {
            Some((d, s)) => self.kind == EntityKind::Robot && d.wf() && s.wf(),
            None => self.kind == EntityKind::Box,
        }
    }

    /// The execution state of a robot.
    pub open spec fn state(&self) -> BotStateModel {
        self.bot.unwrap().1
    }
}

/// All robots and boxes of a running level, indexed by id.
#[derive(Debug)]
pub struct World {
    pub entities: Vec<Entity>,
}

impl View for World {
    type V = Seq<EntityModel>;

    open spec fn view(&self) -> Seq<EntityModel> {
        self.entities@.map_values(|e: Entity| e@)
    }
}

pub open spec fn world_wf(ents: Seq<EntityModel>) -> bool {
    forall|i: int| 0 <= i < ents.len() ==> (#[trigger] ents[i]).wf()
}

impl World {
    pub open spec fn wf(&self) -> bool {
        world_wf(self@)
    }
}

/// Whether `e` stands in the way at `p`.
pub open spec fn blocks(e: EntityModel, p: GridPos) -> bool {
    !e.voided && e.pos == p
}

/// The first entity from index `i` on that stands in the way at `p`.
pub open spec fn occupant_from(ents: Seq<EntityModel>, p: GridPos, i: int) -> Option<int>
    decreases ents.len() - i,
{
    if i < 0 || i >= ents.len() {
        None
    } else if blocks(ents[i], p) {
        Some(i)
    } else {
        occupant_from(ents, p, i + 1)
    }
}

/// The entity with the lowest id that stands in the way at `p`.
pub open spec fn occupant(ents: Seq<EntityModel>, p: GridPos) -> Option<int> {
    occupant_from(ents, p, 0)
}

/// The kind of what stands in the way at `p`, if anything.
pub open spec fn kind_on(ents: Seq<EntityModel>, p: GridPos) -> Option<EntityKind> {
    match occupant(ents, p) {
        Some(i) => Some(ents[i].kind),
        None => None,
    }
}

pub proof fn lemma_occupant_from_range(ents: Seq<EntityModel>, p: GridPos, i: int)
    ensures
        occupant_from(ents, p, i) matches Some(j) ==> 0 <= j < ents.len() && blocks(ents[j], p),
    decreases ents.len() - i,
{
    if 0 <= i < ents.len() && !blocks(ents[i], p) {
        lemma_occupant_from_range(ents, p, i + 1);
    }
}

/// Whether a walk in direction `d` may go from a tile of kind `cur` to a
/// neighbouring tile of kind `tar`. Ramps point downhill: one is entered
/// from above or left below going downhill, and entered from below or left
/// above going uphill.
pub open spec fn move_allowed(cur: Place, tar: Place, d: Direction) -> bool {
    match cur {
        Place::UpperFloor => match tar {
            Place::Ramp(r) => r == d,
            Place::Wall => false,
            _ => true,
        },
        Place::LowerFloor => match tar {
            Place::Ramp(r) => r == opposite_of(d),
            Place::UpperFloor | Place::Wall => false,
            _ => true,
        },
        Place::Ramp(r) => match tar {
            Place::Void | Place::Exit => true,
            Place::LowerFloor => d == r,
            Place::UpperFloor => d == opposite_of(r),
            Place::Ramp(t) => t == opposite_of(r) && d == r,
            Place::Wall => false,
        },
        Place::Void => tar == Place::Void,
        Place::Wall | Place::Exit => false,
    }
}

/// One move of a push: the entity, where it leaves and where it arrives.
pub type Move = (usize, GridPos, GridPos);

/// The moves that result when entity `e` at `from` walks in direction `d`:
/// empty when the walk is not allowed. An entity in the way is pushed on in
/// the same direction, and the walk succeeds only if that push does; the
/// walker's move comes first. `fuel` bounds the length of the chain (each
/// entity takes part at most once, so the number of entities is enough).
pub open spec fn push_plan(
    ents: Seq<EntityModel>,
    map: TileMap,
    e: usize,
    from: GridPos,
    d: Direction,
    fuel: nat,
) -> Seq<Move>
    decreases fuel,
{
    let to = pos_after(from, d);
    if !move_allowed(map.tile_at(from), map.tile_at(to), d) {
        Seq::empty()
    } else {
        match occupant(ents, to) {
            None => seq![(e, from, to)],
            Some(o) => if fuel == 0 {
                Seq::empty()
            } else {
                let rest = push_plan(ents, map, o as usize, to, d, (fuel - 1) as nat);
                if rest.len() == 0 {
                    Seq::empty()
                } else {
                    seq![(e, from, to)] + rest
                }
            },
        }
    }
}

/// The moves of a plan name entities of the world, the first being the
/// walker.
pub proof fn lemma_plan_ids(
    ents: Seq<EntityModel>,
    map: TileMap,
    e: usize,
    from: GridPos,
    d: Direction,
    fuel: nat,
)
    requires
        e < ents.len(),
    ensures
        ({
            let plan = push_plan(ents, map, e, from, d, fuel);
            (plan.len() > 0 ==> plan[0] == (e, from, pos_after(from, d))) && forall|k: int|
                0 <= k < plan.len() ==> (#[trigger] plan[k]).0 < ents.len()
        }),
    decreases fuel,
{
    let to = pos_after(from, d);
    lemma_occupant_from_range(ents, to, 0);
    if move_allowed(map.tile_at(from), map.tile_at(to), d) {
        if let Some(o) = occupant(ents, to) {
            if fuel > 0 {
                lemma_plan_ids(ents, map, o as usize, to, d, (fuel - 1) as nat);
                let rest = push_plan(ents, map, o as usize, to, d, (fuel - 1) as nat);
                let plan = push_plan(ents, map, e, from, d, fuel);
                if rest.len() > 0 {
                    assert forall|k: int| 0 <= k < plan.len() implies (#[trigger] plan[k]).0
                        < ents.len() by {
                        if k > 0 {
                            assert(plan[k] == rest[k - 1]);
                        }
                    }
                }
            }
        }
    }
}

/// What stands in the way at `pos`, ignoring entities that have left the
/// level.
pub fn entity_on_tile(pos: GridPos, world: &World) -> (r: Option<EntityKind>)
    ensures
        r == kind_on(world@, pos),
{
    match occupant_at(pos, world) {
        Some(i) => {
            proof {
                lemma_occupant_from_range(world@, pos, 0);
            }
            Some(world.entities[i].kind)
        },
        None => None,
    }
}

/// The first entity that stands in the way at `pos`, by id.
fn occupant_at(pos: GridPos, world: &World) -> (r: Option<usize>)
    ensures
        r matches Some(i) ==> occupant(world@, pos) == Some(i as int),
        r is None ==> occupant(world@, pos) is None,
{
    let ghost ents = world@;
    let mut i: usize = 0;
    while i < world.entities.len()
        invariant
            i <= world.entities@.len(),
            ents == world@,
            occupant(ents, pos) == occupant_from(ents, pos, i as int),
        decreases world.entities@.len() - i,
    {
        let e = &world.entities[i];
        if !e.voided_or_exited && e.pos == pos {
            return Some(i);
        }
        i += 1;
    }
    None
}

/// Whether a walk in direction `d` may go from a tile of kind `cur` to a
/// neighbouring tile of kind `tar`.
pub fn can_cross(cur: Place, tar: Place, d: Direction) -> (r: bool)
    ensures
        r == move_allowed(cur, tar, d),
{
    match cur {
        Place::UpperFloor => match tar {
            Place::Ramp(r) => r == d,
            Place::Wall => false,
            _ => true,
        },
        Place::LowerFloor => match tar {
            Place::Ramp(r) => r == d.turn_around(),
            Place::UpperFloor | Place::Wall => false,
            _ => true,
        },
        Place::Ramp(r) => match tar {
            Place::Void | Place::Exit => true,
            Place::LowerFloor => d == r,
            Place::UpperFloor => d == r.turn_around(),
            Place::Ramp(t) => crate::direction::is_dirs_opposite(r, t) && d == r,
            Place::Wall => false,
        },
        Place::Void => matches!(tar, Place::Void),
        Place::Wall | Place::Exit => false,
    }
}

/// The two cells next to `p` in different directions differ.
proof fn lemma_neighbours_differ(p: GridPos, d1: Direction, d2: Direction)
    requires
        pos_after(p, d1) == pos_after(p, d2),
    ensures
        d1 == d2,
{
}

/// The moves that result when entity `entity` at `cur_tile_pos` walks to
/// the neighbouring cell `tar_tile_pos`, pushing what stands in the way.
fn is_valid_move(
    entity: usize,
    cur_tile_pos: GridPos,
    tar_tile_pos: GridPos,
    map: &TileMap,
    world: &World,
    fuel: usize,
) -> (r: Vec<Move>)
    requires
        map.wf(),
        exists|d: Direction| pos_after(cur_tile_pos, d) == tar_tile_pos,
    ensures
        forall|d: Direction|
            pos_after(cur_tile_pos, d) == tar_tile_pos ==> r@ == push_plan(
                world@,
                *map,
                entity,
                cur_tile_pos,
                d,
                fuel as nat,
            ),
    decreases fuel,
{
    let dir = dir_to_adjacent_tile(cur_tile_pos, tar_tile_pos);
    proof {
        assert forall|d: Direction| pos_after(cur_tile_pos, d) == tar_tile_pos implies d == dir by {
            lemma_neighbours_differ(cur_tile_pos, d, dir);
        }
    }
    let cur_tile = map.tile(cur_tile_pos);
    let tar_tile = map.tile(tar_tile_pos);
    if !can_cross(cur_tile, tar_tile, dir) {
        return Vec::new();
    }
    let mut steps: Vec<Move> = Vec::new();
    steps.push((entity, cur_tile_pos, tar_tile_pos));
    match occupant_at(tar_tile_pos, world) {
        None => {
            assert(steps@ =~= seq![(entity, cur_tile_pos, tar_tile_pos)]);
            steps
        },
        Some(e) => {
            if fuel == 0 {
                return Vec::new();
            }
            let new_tar_tile_pos = tar_tile_pos.step(dir);
            let mut nested = is_valid_move(e, tar_tile_pos, new_tar_tile_pos, map, world, fuel - 1);
            if nested.len() == 0 {
                return Vec::new();
            }
            steps.append(&mut nested);
            assert(steps@ =~= seq![(entity, cur_tile_pos, tar_tile_pos)] + push_plan(
                world@,
                *map,
                e,
                tar_tile_pos,
                dir,
                (fuel - 1) as nat,
            ));
            steps
        },
    }
}

/// Entity `e` after arriving at `to`: on a void or exit tile it leaves the
/// level, and a robot stops there for good.
pub open spec fn after_move(e: EntityModel, to: GridPos, map: TileMap) -> EntityModel {
    let gone = map.tile_at(to) == Place::Void || map.tile_at(to) == Place::Exit;
    EntityModel {
        pos: to,
        voided: e.voided || gone,
        bot: match e.bot {
            Some((d, s)) => if gone {
                Some((d, BotStateModel { halted: true, steps: Seq::empty(), ..s }))
            } else {
                e.bot
            },
            None => None,
        },
        ..e
    }
}

/// The world after carrying out the moves of `plan` in order.
pub open spec fn apply_moves(ents: Seq<EntityModel>, map: TileMap, plan: Seq<Move>) -> Seq<
    EntityModel,
>
    decreases plan.len(),
{
    if plan.len() == 0 {
        ents
    } else {
        let (e, _from, to) = plan[0];
        apply_moves(ents.update(e as int, after_move(ents[e as int], to, map)), map, plan.drop_first())
    }
}

/// The events that report the moves of `plan`.
pub open spec fn move_events(plan: Seq<Move>) -> Seq<(usize, DrawStep)> {
    plan.map_values(|m: Move| (m.0, DrawStep::Move(m.1, m.2)))
}

/// The robot `b` with `s` as its execution state.
pub open spec fn with_state(ents: Seq<EntityModel>, b: int, s: BotStateModel) -> Seq<EntityModel> {
    ents.update(b, EntityModel { bot: Some((ents[b].bot.unwrap().0, s)), ..ents[b] })
}

/// The world and the events after robot `b` carries out its most recently
/// queued step, if it has one.
pub open spec fn resolve_step(ents: Seq<EntityModel>, map: TileMap, b: int) -> (
    Seq<EntityModel>,
    Seq<(usize, DrawStep)>,
) {
    let s = ents[b].state();
    if s.steps.len() == 0 {
        (ents, Seq::empty())
    } else {
        let popped = BotStateModel { steps: s.steps.drop_last(), ..s };
        let ents1 = with_state(ents, b, popped);
        match s.steps.last() {
            Step::Wait => (ents1, seq![(b as usize, DrawStep::Idle)]),
            Step::UpdateDir(d) => (
                with_state(ents, b, BotStateModel { dir: d, ..popped }),
                seq![(b as usize, DrawStep::UpdateDir(s.dir, d))],
            ),
            Step::Walk => {
                let plan = push_plan(ents1, map, b as usize, ents[b].pos, s.dir, ents.len());
                if plan.len() == 0 {
                    (ents1, seq![(b as usize, DrawStep::MoveFail)])
                } else {
                    (apply_moves(ents1, map, plan), move_events(plan))
                }
            },
        }
    }
}

proof fn lemma_after_move_wf(e: EntityModel, to: GridPos, map: TileMap)
    requires
        e.wf(),
    ensures
        after_move(e, to, map).wf(),
{
}

/// Moving entity `id` of a well-formed world keeps it well-formed.
fn move_entity(world: &mut World, id: usize, to: GridPos, map: &TileMap)
    requires
        old(world).wf(),
        id < old(world)@.len(),
        map.wf(),
    ensures
        final(world)@ == old(world)@.update(id as int, after_move(old(world)@[id as int], to, *map)),
        final(world).wf(),
{
    let ghost ents0 = world@;
    let tile = map.tile(to);
    let gone = matches!(tile, Place::Void | Place::Exit);
    let e = &mut world.entities[id];
    if gone {
        if let Some(r) = &mut e.bot {
            r.state.steps.clear();
            r.state.halted = true;
        }
        e.voided_or_exited = true;
    }
    e.pos = to;
    proof {
        lemma_after_move_wf(ents0[id as int], to, *map);
        assert(world@ =~= ents0.update(id as int, after_move(ents0[id as int], to, *map)));
    }
}

/// Carries out the most recently queued step of robot `bot_id`, and
/// returns the events it produced: none when nothing is queued.
pub fn apply_bot_actions(world: &mut World, bot_id: usize, map: &TileMap) -> (r: Vec<
    (usize, DrawStep),
>)
    requires
        old(world).wf(),
        map.wf(),
        bot_id < old(world)@.len(),
        old(world)@[bot_id as int].kind == EntityKind::Robot,
    ensures
        (final(world)@, r@) == resolve_step(old(world)@, *map, bot_id as int),
        final(world).wf(),
{
    let ghost ents0 = world@;
    let mut render_steps: Vec<(usize, DrawStep)> = Vec::new();
    let cur_grid_pos = world.entities[bot_id].pos;
    let e = &mut world.entities[bot_id];
    let r = match &mut e.bot {
        Some(r) => r,
        None => {
            return render_steps;
        },
    };
    let bot_action = match r.state.steps.pop() {
        Some(action) => action,
        None => {
            assert(world@ =~= ents0);
            return render_steps;
        },
    };
    let dir = r.state.dir;
    let ghost popped = BotStateModel { steps: ents0[bot_id as int].state().steps.drop_last(), ..ents0[bot_id as int].state() };
    match bot_action {
        Step::Wait => {
            assert(world@ =~= with_state(ents0, bot_id as int, popped));
            render_steps.push((bot_id, DrawStep::Idle));
            assert(render_steps@ =~= seq![(bot_id, DrawStep::Idle)]);
        },
        Step::UpdateDir(new_dir) => {
            r.state.dir = new_dir;
            assert(world@ =~= with_state(ents0, bot_id as int, BotStateModel { dir: new_dir, ..popped }));
            render_steps.push((bot_id, DrawStep::UpdateDir(dir, new_dir)));
            assert(render_steps@ =~= seq![(bot_id, DrawStep::UpdateDir(dir, new_dir))]);
        },
        Step::Walk => {
            assert(world@ =~= with_state(ents0, bot_id as int, popped));
            let ghost ents1 = world@;
            let tar_grid_pos = cur_grid_pos.step(dir);
            let fuel = world.entities.len();
            let steps = is_valid_move(bot_id, cur_grid_pos, tar_grid_pos, map, world, fuel);
            proof {
                lemma_plan_ids(ents1, *map, bot_id, cur_grid_pos, dir, fuel as nat);
            }
            if steps.len() == 0 {
                render_steps.push((bot_id, DrawStep::MoveFail));
                assert(render_steps@ =~= seq![(bot_id, DrawStep::MoveFail)]);
            } else {
                let mut k: usize = 0;
                assert(steps@.skip(0) =~= steps@);
                assert(steps@.take(0) =~= Seq::<Move>::empty());
                while k < steps.len()
                    invariant
                        0 <= k <= steps@.len(),
                        steps@ == push_plan(ents1, *map, bot_id, cur_grid_pos, dir, fuel as nat),
                        forall|j: int| 0 <= j < steps@.len() ==> (#[trigger] steps@[j]).0 < ents1.len(),
                        world@.len() == ents1.len(),
                        world.wf(),
                        map.wf(),
                        apply_moves(world@, *map, steps@.skip(k as int)) == apply_moves(ents1, *map, steps@),
                        render_steps@ == move_events(steps@.take(k as int)),
                    decreases steps@.len() - k,
                {
                    let (e, from, to) = steps[k];
                    render_steps.push((e, DrawStep::Move(from, to)));
                    move_entity(world, e, to, map);
                    proof {
                        assert(steps@.skip(k as int).drop_first() =~= steps@.skip(k as int + 1));
                        assert(steps@.skip(k as int)[0] == steps@[k as int]);
                        assert(move_events(steps@.take(k as int + 1)) =~= move_events(steps@.take(k as int)).push((e, DrawStep::Move(from, to))));
                    }
                    k += 1;
                }
                proof {
                    assert(steps@.skip(k as int) =~= Seq::<Move>::empty());
                    assert(steps@.take(k as int) =~= steps@);
                }
            }
        },
    }
    render_steps
}

/// Changing a robot's program state changes no one's place in the way.
pub proof fn lemma_occupant_with_state(ents: Seq<EntityModel>, b: int, s: BotStateModel, p: GridPos, i: int)
    requires
        0 <= b < ents.len(),
    ensures
        occupant_from(with_state(ents, b, s), p, i) == occupant_from(ents, p, i),
    decreases ents.len() - i,
{
    if 0 <= i < ents.len() {
        lemma_occupant_with_state(ents, b, s, p, i + 1);
    }
}

/// Nothing is found in the way at `p` exactly when nothing stands there.
proof fn lemma_no_occupant(ents: Seq<EntityModel>, p: GridPos, i: int)
    requires
        0 <= i,
    ensures
        occupant_from(ents, p, i) is None <==> forall|j: int| i <= j < ents.len() ==> !blocks(#[trigger] ents[j], p),
    decreases ents.len() - i,
{
    if i < ents.len() {
        lemma_no_occupant(ents, p, i + 1);
    }
}

/// Ramps are crossed along their direction only: from an upper floor onto
/// a ramp and from the ramp down to a lower floor when walking downhill
/// (the ramp's direction), from a lower floor onto a ramp and from the ramp
/// up to an upper floor when walking uphill (the opposite direction).
pub proof fn lemma_ramp_crossing(r: Direction, d: Direction)
    ensures
        move_allowed(Place::UpperFloor, Place::Ramp(r), d) <==> d == r,
        move_allowed(Place::Ramp(r), Place::LowerFloor, d) <==> d == r,
        move_allowed(Place::LowerFloor, Place::Ramp(r), d) <==> d == opposite_of(r),
        move_allowed(Place::Ramp(r), Place::UpperFloor, d) <==> d == opposite_of(r),
{
}

/// A robot that walks into an entity and pushes it into the void still
/// makes its own move, and the pushed entity leaves the level: it is halted
/// if it is a robot, and nothing stands in the way where it fell any more.
pub proof fn lemma_push_into_void(ents: Seq<EntityModel>, map: TileMap, b: int, o: int)
    requires
        world_wf(ents),
        ents.len() <= usize::MAX,
        0 <= b < ents.len(),
        ents[b].kind == EntityKind::Robot,
        ents[b].state().steps.len() > 0,
        ents[b].state().steps.last() == Step::Walk,
        ({
            let d = ents[b].state().dir;
            let to = pos_after(ents[b].pos, d);
            let beyond = pos_after(to, d);
            &&& move_allowed(map.tile_at(ents[b].pos), map.tile_at(to), d)
            &&& occupant(ents, to) == Some(o)
            &&& map.tile_at(beyond) == Place::Void
            &&& move_allowed(map.tile_at(to), Place::Void, d)
            &&& occupant(ents, beyond) is None
        }),
    ensures
        ({
            let d = ents[b].state().dir;
            let from = ents[b].pos;
            let to = pos_after(from, d);
            let beyond = pos_after(to, d);
            let (next, events) = resolve_step(ents, map, b);
            &&& events == seq![
                (b as usize, DrawStep::Move(from, to)),
                (o as usize, DrawStep::Move(to, beyond)),
            ]
            &&& next[b].pos == to
            &&& next[o].pos == beyond
            &&& next[o].voided
            &&& (next[o].kind == EntityKind::Robot ==> next[o].state().halted
                && next[o].state().steps.len() == 0)
            &&& kind_on(next, beyond) is None
        }),
{
    let s = ents[b].state();
    let d = s.dir;
    let from = ents[b].pos;
    let to = pos_after(from, d);
    let beyond = pos_after(to, d);
    let popped = BotStateModel { steps: s.steps.drop_last(), ..s };
    let ents1 = with_state(ents, b, popped);
    lemma_occupant_with_state(ents, b, popped, to, 0);
    lemma_occupant_with_state(ents, b, popped, beyond, 0);
    lemma_occupant_from_range(ents, to, 0);
    assert(o != b) by {
        lemma_neighbours_differ_from_self(from, d);
    }
    assert(ents.len() > 0);
    let fuel = ents.len();
    let rest = push_plan(ents1, map, o as usize, to, d, (fuel - 1) as nat);
    assert(rest == seq![(o as usize, to, beyond)]);
    let plan = push_plan(ents1, map, b as usize, from, d, fuel);
    assert(plan == seq![(b as usize, from, to)] + rest);
    assert(plan =~= seq![(b as usize, from, to), (o as usize, to, beyond)]);
    assert(move_events(plan) =~= seq![
        (b as usize, DrawStep::Move(from, to)),
        (o as usize, DrawStep::Move(to, beyond)),
    ]);
    let e1 = ents1.update(b, after_move(ents1[b], to, map));
    let e2 = e1.update(o, after_move(e1[o], beyond, map));
    assert(plan.drop_first() =~= seq![(o as usize, to, beyond)]);
    assert(plan.drop_first().drop_first() =~= Seq::<Move>::empty());
    let tail = plan.drop_first();
    assert(tail[0] == (o as usize, to, beyond));
    assert(apply_moves(e2, map, tail.drop_first()) == e2);
    assert(apply_moves(e1, map, tail) == apply_moves(e2, map, tail.drop_first()));
    assert(plan[0] == (b as usize, from, to));
    assert(apply_moves(ents1, map, plan) == apply_moves(e1, map, tail));
    lemma_no_occupant(ents, beyond, 0);
    lemma_no_occupant(e2, beyond, 0);
    assert forall|j: int| 0 <= j < e2.len() implies !blocks(#[trigger] e2[j], beyond) by {
        if j == b {
            lemma_neighbours_differ_from_self(to, d);
        } else if j != o {
            assert(!blocks(ents[j], beyond));
        }
    }
}

/// No cell is its own neighbour.
proof fn lemma_neighbours_differ_from_self(p: GridPos, d: Direction)
    ensures
        pos_after(p, d) != p,
{
}

} // verus!
