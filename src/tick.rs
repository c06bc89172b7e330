use vstd::prelude::*;

use crate::bot::{interpret, next_pc, run_bot_interpreter, BotStateModel, Step};
use crate::instruction::{lemma_decode_opcode, opcode, Instruction};
use crate::draw::{DrawUpdates, Step as DrawStep};
use crate::map::{pos_after, EntityKind, TileMap};
use crate::world::{
    after_move, apply_bot_actions, apply_moves, entity_on_tile, kind_on, lemma_occupant_from_range, lemma_occupant_with_state,
    lemma_plan_ids,
    push_plan, resolve_step, with_state, world_wf, EntityModel, Move, World,
};

verus! {

/// Robot `i` after interpreting one instruction, looking at what stands on
/// the tile it faces.
pub open spec fn interpret_entity(ents: Seq<EntityModel>, map: TileMap, i: int) -> Seq<
    EntityModel,
> {
    let e = ents[i];
    let s = e.state();
    with_state(
        ents,
        i,
        interpret(
            e.bot.unwrap().0.instructions@,
            e.pos,
            s,
            map,
            kind_on(ents, pos_after(e.pos, s.dir)),
        ),
    )
}

/// Robot `i`'s turn in a tick: it interprets an instruction, then carries
/// out one queued step.
pub open spec fn bot_turn(ents: Seq<EntityModel>, map: TileMap, i: int) -> (
    Seq<EntityModel>,
    Seq<(usize, DrawStep)>,
) {
    resolve_step(interpret_entity(ents, map, i), map, i)
}

/// The turns of the robots with ids from `i` up to `n`, in order of id,
/// with the events of each turn appended to `events`.
pub open spec fn tick_from(
    ents: Seq<EntityModel>,
    map: TileMap,
    i: nat,
    n: nat,
    events: Seq<Seq<(usize, DrawStep)>>,
) -> (Seq<EntityModel>, Seq<Seq<(usize, DrawStep)>>)
    decreases n - i,
{
    if i >= n || i >= ents.len() {
        (ents, events)
    } else if ents[i as int].kind != EntityKind::Robot {
        tick_from(ents, map, i + 1, n, events)
    } else {
        let (next, ev) = bot_turn(ents, map, i as int);
        tick_from(next, map, i + 1, n, events.push(ev))
    }
}

/// One tick of the whole world: every robot takes its turn, in order of id.
pub open spec fn tick(ents: Seq<EntityModel>, map: TileMap) -> (
    Seq<EntityModel>,
    Seq<Seq<(usize, DrawStep)>>,
) {
    tick_from(ents, map, 0, ents.len(), Seq::empty())
}

/// The world after `k` ticks.
pub open spec fn ticks(ents: Seq<EntityModel>, map: TileMap, k: nat) -> Seq<EntityModel>
    decreases k,
{
    if k == 0 {
        ents
    } else {
        ticks(tick(ents, map).0, map, (k - 1) as nat)
    }
}

proof fn lemma_next_pc(pc: u8)
    requires
        pc < 32,
    ensures
        next_pc(pc) < 32,
{
}

/// Interpreting an instruction keeps the program counter a program address.
pub proof fn lemma_interpret_wf(
    program: Seq<u8>,
    pos: crate::map::GridPos,
    s: BotStateModel,
    map: TileMap,
    facing: Option<EntityKind>,
)
    requires
        crate::bot::program_wf(program),
        s.wf(),
    ensures
        interpret(program, pos, s, map, facing).wf(),
{
    lemma_next_pc(s.pc);
    lemma_next_pc(next_pc(s.pc));
    assert(program[next_pc(s.pc) as int] < 32);
}

proof fn lemma_apply_moves_wf(ents: Seq<EntityModel>, map: TileMap, plan: Seq<Move>)
    requires
        world_wf(ents),
        forall|j: int| 0 <= j < plan.len() ==> (#[trigger] plan[j]).0 < ents.len(),
    ensures
        world_wf(apply_moves(ents, map, plan)),
        apply_moves(ents, map, plan).len() == ents.len(),
    decreases plan.len(),
{
    if plan.len() > 0 {
        let (e, _from, to) = plan[0];
        let next = ents.update(e as int, after_move(ents[e as int], to, map));
        assert(ents[e as int].wf());
        assert forall|j: int| 0 <= j < plan.drop_first().len() implies (#[trigger] plan.drop_first()[j]).0
            < next.len() by {
            assert(plan.drop_first()[j] == plan[j + 1]);
        }
        lemma_apply_moves_wf(next, map, plan.drop_first());
    }
}

/// Carrying out a step keeps the world well-formed and its size.
pub proof fn lemma_resolve_step_wf(ents: Seq<EntityModel>, map: TileMap, b: int)
    requires
        world_wf(ents),
        0 <= b < ents.len(),
        ents[b].kind == EntityKind::Robot,
    ensures
        world_wf(resolve_step(ents, map, b).0),
        resolve_step(ents, map, b).0.len() == ents.len(),
{
    assert(ents[b].wf());
    let s = ents[b].state();
    if s.steps.len() > 0 {
        let popped = BotStateModel { steps: s.steps.drop_last(), ..s };
        let ents1 = with_state(ents, b, popped);
        assert(world_wf(ents1));
        let d = match s.steps.last() {
            Step::UpdateDir(d) => d,
            _ => s.dir,
        };
        assert(world_wf(with_state(ents, b, BotStateModel { dir: d, ..popped })));
        lemma_plan_ids(ents1, map, b as usize, ents[b].pos, s.dir, ents.len());
        lemma_apply_moves_wf(ents1, map, push_plan(ents1, map, b as usize, ents[b].pos, s.dir, ents.len()));
    }
}

proof fn lemma_bot_turn_wf(ents: Seq<EntityModel>, map: TileMap, i: int)
    requires
        world_wf(ents),
        0 <= i < ents.len(),
        ents[i].kind == EntityKind::Robot,
    ensures
        world_wf(bot_turn(ents, map, i).0),
        bot_turn(ents, map, i).0.len() == ents.len(),
{
    let e = ents[i];
    assert(e.wf());
    let s = e.state();
    lemma_interpret_wf(
        e.bot.unwrap().0.instructions@,
        e.pos,
        s,
        map,
        kind_on(ents, pos_after(e.pos, s.dir)),
    );
    let ents1 = interpret_entity(ents, map, i);
    assert(world_wf(ents1));
    lemma_resolve_step_wf(ents1, map, i);
}

proof fn lemma_tick_from_wf(
    ents: Seq<EntityModel>,
    map: TileMap,
    i: nat,
    n: nat,
    events: Seq<Seq<(usize, DrawStep)>>,
)
    requires
        world_wf(ents),
    ensures
        world_wf(tick_from(ents, map, i, n, events).0),
        tick_from(ents, map, i, n, events).0.len() == ents.len(),
    decreases n - i,
{
    if i < n && i < ents.len() {
        if ents[i as int].kind != EntityKind::Robot {
            lemma_tick_from_wf(ents, map, i + 1, n, events);
        } else {
            lemma_bot_turn_wf(ents, map, i as int);
            let (next, ev) = bot_turn(ents, map, i as int);
            lemma_tick_from_wf(next, map, i + 1, n, events.push(ev));
        }
    }
}

/// However many ticks pass, the world stays well-formed: in particular
/// every robot's program counter stays below the program length.
pub proof fn lemma_ticks_keep_pc_in_range(ents: Seq<EntityModel>, map: TileMap, k: nat)
    requires
        world_wf(ents),
    ensures
        world_wf(ticks(ents, map, k)),
        ticks(ents, map, k).len() == ents.len(),
        forall|i: int|
            0 <= i < ents.len() && (#[trigger] ticks(ents, map, k)[i]).kind == EntityKind::Robot
                ==> ticks(ents, map, k)[i].state().pc < 32,
    decreases k,
{
    if k > 0 {
        lemma_tick_from_wf(ents, map, 0, ents.len(), Seq::empty());
        lemma_ticks_keep_pc_in_range(tick(ents, map).0, map, (k - 1) as nat);
    }
    assert forall|i: int|
        0 <= i < ents.len() && (#[trigger] ticks(ents, map, k)[i]).kind == EntityKind::Robot
            implies ticks(ents, map, k)[i].state().pc < 32 by {
        assert(ticks(ents, map, k)[i].wf());
    }
}

/// A `walk 0` queues nothing: the robot's turn produces no event and only
/// moves its program counter past the instruction, and its next turn is the
/// one it would take had the program counter started past it.
pub proof fn lemma_walk_zero_is_a_no_op(ents: Seq<EntityModel>, map: TileMap, b: int)
    requires
        world_wf(ents),
        0 <= b < ents.len(),
        ents[b].kind == EntityKind::Robot,
        !ents[b].state().halted,
        ents[b].state().steps.len() == 0,
        ents[b].bot.unwrap().0.instructions@[ents[b].state().pc as int] == opcode(Instruction::Walk),
        ents[b].bot.unwrap().0.instructions@[next_pc(ents[b].state().pc) as int] == 0,
    ensures
        ({
            let s = ents[b].state();
            let past = next_pc(next_pc(s.pc));
            let (after, events) = bot_turn(ents, map, b);
            &&& events.len() == 0
            &&& after == with_state(ents, b, BotStateModel { prev: s.pc, pc: past, ..s })
            &&& bot_turn(after, map, b) == bot_turn(
                with_state(ents, b, BotStateModel { pc: past, ..s }),
                map,
                b,
            )
        }),
{
    let e = ents[b];
    let s = e.state();
    let past = next_pc(next_pc(s.pc));
    lemma_decode_opcode(Instruction::Walk);
    let walked = BotStateModel { prev: s.pc, pc: past, ..s };
    let skipped = BotStateModel { pc: past, ..s };
    assert(interpret(e.bot.unwrap().0.instructions@, e.pos, s, map, kind_on(ents, pos_after(e.pos, s.dir))) =~= walked);
    let after = with_state(ents, b, walked);
    let skip = with_state(ents, b, skipped);
    assert(resolve_step(after, map, b) == (after, Seq::<(usize, DrawStep)>::empty()));
    let p = pos_after(e.pos, s.dir);
    lemma_occupant_with_state(ents, b, walked, p, 0);
    lemma_occupant_with_state(ents, b, skipped, p, 0);
    lemma_occupant_from_range(ents, p, 0);
    assert(kind_on(after, p) == kind_on(skip, p));
    let r = interpret(e.bot.unwrap().0.instructions@, e.pos, walked, map, kind_on(after, p));
    assert(interpret(e.bot.unwrap().0.instructions@, e.pos, skipped, map, kind_on(skip, p)) == r);
    assert(interpret_entity(after, map, b) =~= interpret_entity(skip, map, b));
}

/// Advances the world by one tick, unless events of the previous tick are
/// still waiting to be played back. The events of each robot's turn are
/// queued as one list.
pub fn progress_world(world: &mut World, map: &TileMap, render_steps: &mut DrawUpdates)
    requires
        old(world).wf(),
        map.wf(),
    ensures
        old(render_steps).data@.len() != 0 ==> final(world)@ == old(world)@ && final(render_steps).data@
            == old(render_steps).data@,
        old(render_steps).data@.len() == 0 ==> ({
            let (next, events) = tick(old(world)@, *map);
            &&& final(world)@ == next
            &&& final(render_steps).data@.map_values(|v: Vec<(usize, DrawStep)>| v@) == events
        }),
        final(world).wf(),
{
    if render_steps.data.len() != 0 {
        return;
    }
    let ghost ents0 = world@;
    let n = world.entities.len();
    let mut i: usize = 0;
    assert(render_steps.data@.map_values(|v: Vec<(usize, DrawStep)>| v@) =~= Seq::<Seq<(usize, DrawStep)>>::empty());
    while i < n
        invariant
            i <= n,
            n == ents0.len(),
            world@.len() == n,
            world.wf(),
            map.wf(),
            tick_from(world@, *map, i as nat, n as nat, render_steps.data@.map_values(|v: Vec<(usize, DrawStep)>| v@))
                == tick(ents0, *map),
        decreases n - i,
    {
        let ghost before = world@;
        let ghost evs = render_steps.data@.map_values(|v: Vec<(usize, DrawStep)>| v@);
        if matches!(world.entities[i].kind, EntityKind::Robot) {
            assert(before[i as int].wf());
            let pos = world.entities[i].pos;
            let dir = match &world.entities[i].bot {
                Some(r) => r.state.dir,
                None => {
                    assert(false);
                    crate::direction::Direction::Up
                },
            };
            let viewing_pos = pos.step(dir);
            let entity_kind = entity_on_tile(viewing_pos, world);
            let e = &mut world.entities[i];
            if let Some(r) = &mut e.bot {
                run_bot_interpreter(&r.data, pos, &mut r.state, map, entity_kind);
            }
            proof {
                assert(world@ =~= interpret_entity(before, *map, i as int));
                assert(world.wf());
            }
            let changes = apply_bot_actions(world, i, map);
            proof {
                lemma_resolve_step_wf(interpret_entity(before, *map, i as int), *map, i as int);
            }
            render_steps.data.push_back(changes);
            proof {
                assert(render_steps.data@.map_values(|v: Vec<(usize, DrawStep)>| v@) =~= evs.push(changes@));
            }
        }
        i += 1;
    }
}

} // verus!
