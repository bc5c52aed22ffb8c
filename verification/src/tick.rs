//! The two parts of an agent's tick: first its queue and its director's
//! reading, and, once every agent has had that part, its planner and its
//! director's report.

use vstd::prelude::*;
use crate::actions::{ActionsEventView, ActionsUpdate, ActionsUpdateView};
use crate::game_entity::{GameEntityVecRead, Tunnels, TunnelsView};
use crate::game_map::GameMap;
use crate::markup::MarkupNodeView;
use crate::voxel::CoolVoxel;

verus! {

/// Iterations that every waiting search is granted each tick.
pub const SEARCH_BUDGET_PER_TICK: usize = 100;

/// The tunnels after the first part of the tick of the agent `id`, where the
/// parser has made `parses[j]` of the text of the `j`-th answer that the
/// director reads: the head of its queue runs, its director reads what has
/// come in, and the counter that both have drawn ids from is sent back to
/// the queue.
pub open spec fn computed(
    parses: Seq<Option<Seq<MarkupNodeView>>>,
    id: usize,
    first_ent: &GameEntityVecRead,
    world: &GameMap<CoolVoxel>,
    tick: usize,
    tunnels: TunnelsView,
) -> TunnelsView {
    let (counter, sent) = first_ent.actions[id as int].performed(
        id,
        first_ent,
        world,
        first_ent.actions[id as int].action_counter,
        tick,
        tunnels,
    );
    let (counter, sent) = first_ent.director[id as int]@.ticked(
        parses,
        id,
        first_ent,
        world,
        tick,
        counter,
        sent,
    );
    sent.with_action(
        ActionsEventView { id, source: None, variant: ActionsUpdateView::UpdateCounter(counter) },
    )
}

/// The tunnels after the second part of the tick of the agent `id`: its
/// planner takes up its searches, and its director reports to the service.
pub open spec fn concluded(
    id: usize,
    first_ent: &GameEntityVecRead,
    world: &GameMap<CoolVoxel>,
    system_prompt: Seq<char>,
    tick: usize,
    tunnels: TunnelsView,
) -> TunnelsView {
    first_ent.director[id as int]@.after_ticked(
        id,
        first_ent,
        world,
        system_prompt,
        tick,
        tunnels.with_planners(
            first_ent.planner[id as int]@.update_events(id, SEARCH_BUDGET_PER_TICK, world),
        ),
    )
}

/// The first part of the tick of the agent `id`.
pub fn compute_tick(
    id: usize,
    first_ent: &GameEntityVecRead,
    world: &GameMap<CoolVoxel>,
    tick: usize,
    tunnels: &mut Tunnels,
)
    requires
        first_ent.wf(),
        id < first_ent.movement.len(),
        world.wf(),
    ensures
        exists|parses: Seq<Option<Seq<MarkupNodeView>>>|
            final(tunnels)@ == computed(parses, id, first_ent, world, tick, old(tunnels)@),
{
    let actions = &first_ent.actions[id];
    let mut counter = *actions.get_counter();
    actions.perform(id, first_ent, world, &mut counter, tick, tunnels);
    let ghost performed = (counter, tunnels@);
    first_ent.director[id].do_tick(id, first_ent, world, tick, &mut counter, tunnels);
    let ghost parses = choose|parses: Seq<Option<Seq<MarkupNodeView>>>|
        (counter, tunnels@) == first_ent.director[id as int]@.ticked(
            parses,
            id,
            first_ent,
            world,
            tick,
            performed.0,
            performed.1,
        );
    tunnels.send_action(id, ActionsUpdate::UpdateCounter(counter));
    assert(tunnels@ == computed(parses, id, first_ent, world, tick, old(tunnels)@));
}

/// The second part of the tick of the agent `id`, with `system_prompt` as
/// the preamble of what its director may ask.
pub fn after_main_tick(
    id: usize,
    first_ent: &GameEntityVecRead,
    world: &GameMap<CoolVoxel>,
    system_prompt: &str,
    tick: usize,
    tunnels: &mut Tunnels,
)
    requires
        first_ent.wf(),
        id < first_ent.movement.len(),
        world.wf(),
    ensures
        final(tunnels)@ == concluded(id, first_ent, world, system_prompt@, tick, old(tunnels)@),
{
    first_ent.planner[id].update(id, SEARCH_BUDGET_PER_TICK, world, tunnels);
    first_ent.director[id].do_after_tick(id, first_ent, world, system_prompt, tick, tunnels);
}

} // verus!
