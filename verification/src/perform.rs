//! One tick of an action: its timer, whether it can be done, whether it is
//! done, and what it does otherwise.

use vstd::prelude::*;
use crate::actions::{
    Action,
    ActionCounter,
    ActionError,
    ActionKind,
    ActionResult,
    ActionSource,
    Actions,
    ActionsEventView,
    ActionsUpdate,
    ActionsUpdateView,
};
use crate::director::{DirectorEventView, DirectorUpdate, DirectorUpdateView};
use crate::entity::{Movement, MovementEvent, MovementEventVariant, Stats};
use crate::game_entity::{GameEntityVecRead, Tunnels, TunnelsView};
use crate::game_map::{GameMap, GameMapEvent};
use crate::geometry::{
    Vec3Milli,
    flat_direction,
    flat_direction_to,
    get_voxel_pos,
    scale,
    scaled,
    voxel_pos_spec,
    within,
};
use crate::pathfinding::SearchState;
use crate::planner::{Plan, PlanView, PlannerEventView, PlannerUpdate, PlannerUpdateView, find_plan};
use crate::voxel::CoolVoxel;

verus! {

/// Iterations that a search gets on the tick it is started.
pub const FIRST_SEARCH_BUDGET: usize = 1000;

/// Share of the ground speed with which an agent closes in on the place
/// where it is to stop, in thousandths.
pub const APPROACH_SHARE: i64 = 200;

/// Share of the ground speed with which an agent brakes, in thousandths.
pub const BRAKE_SHARE: i64 = 500;

/// How one tick of an action ends: its result, the counter after it, and the
/// tunnels with what it sent.
pub struct Performed {
    pub result: ActionResult,
    pub counter: ActionCounter,
    pub tunnels: TunnelsView,
}

/// The events that put `actions` at the head of the queue of `agent_id` in
/// their order: the last one is inserted first.
pub open spec fn insertions(agent_id: usize, actions: Seq<Action>) -> Seq<ActionsEventView> {
    Seq::new(
        actions.len(),
        |k: int|
            ActionsEventView {
                id: agent_id,
                source: None,
                variant: ActionsUpdateView::InsertActionAtStart(actions[actions.len() - 1 - k]),
            },
    )
}

/// The event that takes the action `action_id` out of the queue of
/// `agent_id`.
pub open spec fn removal(agent_id: usize, action_id: usize) -> ActionsEventView {
    ActionsEventView {
        id: agent_id,
        source: None,
        variant: ActionsUpdateView::RemoveAction(action_id),
    }
}

/// The event that adds `impulse` to the speed of `agent_id`.
pub open spec fn push_of(agent_id: usize, impulse: Vec3Milli) -> MovementEvent {
    MovementEvent { id: agent_id, source: None, variant: MovementEventVariant::AddToSpeed(impulse) }
}

impl Action {
    /// The world lets the action be done: a target to move towards lies in a
    /// chunk, a target to find a way to is a voxel that is not solid, and a
    /// voxel to change lies in a chunk.
    pub open spec fn possible(&self, world: &GameMap<CoolVoxel>) -> bool {
        match self.kind {
            ActionKind::Jump => true,
            ActionKind::MoveInDirection(_) => true,
            ActionKind::MoveTowards(position, _) => world.voxel_at(voxel_pos_spec(position)) is Some,
            ActionKind::PathToPosition(position, _) => world.voxel_at(voxel_pos_spec(position))
                is Some && !world.solid(voxel_pos_spec(position)),
            ActionKind::ChangeVoxel(position, _) => world.chunk_exists(
                world.dims.chunk_of(position),
            ),
            ActionKind::StopAt(_, _, _) => true,
        }
    }

    /// The agent has got where the action wants it: within the tolerance of
    /// the target and, where it is to stop, slower than the speed tolerance.
    pub open spec fn done(&self, movement: Movement) -> bool {
        match self.kind {
            ActionKind::Jump => false,
            ActionKind::MoveInDirection(_) => false,
            ActionKind::MoveTowards(position, tolerance) => within(
                movement.pos,
                position,
                tolerance,
            ),
            ActionKind::PathToPosition(position, tolerance) => within(
                movement.pos,
                position,
                tolerance,
            ),
            ActionKind::ChangeVoxel(_, _) => false,
            ActionKind::StopAt(position, speed_tolerance, pos_tolerance) => within(
                movement.pos,
                position,
                pos_tolerance,
            ) && within(movement.speed, Vec3Milli::zero_spec(), speed_tolerance),
        }
    }

    /// Whether the world lets the action be done.
    pub fn is_possible(&self, world: &GameMap<CoolVoxel>) -> (possible: bool)
        requires
            world.wf(),
        ensures
            possible == self.possible(world),
    {
        match self.kind {
            ActionKind::Jump => true,
            ActionKind::MoveInDirection(_) => true,
            ActionKind::MoveTowards(position, _) => world.get_voxel_at(
                get_voxel_pos(position),
            ).is_some(),
            ActionKind::PathToPosition(position, _) => {
                let target = get_voxel_pos(position);
                world.get_voxel_at(target).is_some() && !world.is_voxel_solid(target)
            },
            ActionKind::ChangeVoxel(position, _) => world.does_chunk_exist(
                world.get_chunk_pos_i(position),
            ),
            ActionKind::StopAt(_, _, _) => true,
        }
    }

    /// Whether the agent has got where the action wants it.
    pub fn is_done(&self, agent_id: usize, first_ent: &GameEntityVecRead) -> (done: bool)
        requires
            agent_id < first_ent.movement.len(),
        ensures
            done == self.done(first_ent.movement[agent_id as int]),
    {
        let movement = &first_ent.movement[agent_id];
        match self.kind {
            ActionKind::Jump => false,
            ActionKind::MoveInDirection(_) => false,
            ActionKind::MoveTowards(position, tolerance) => movement.pos.is_within(
                &position,
                tolerance,
            ),
            ActionKind::PathToPosition(position, tolerance) => movement.pos.is_within(
                &position,
                tolerance,
            ),
            ActionKind::ChangeVoxel(_, _) => false,
            ActionKind::StopAt(position, speed_tolerance, pos_tolerance) => {
                movement.pos.is_within(&position, pos_tolerance) && movement.speed.is_within(
                    &Vec3Milli::zero(),
                    speed_tolerance,
                )
            },
        }
    }

    /// The push that the action gives the agent. A move in a direction takes
    /// that share of the ground speed and climbs where the agent stands at a
    /// wall and the direction points up or down. A move towards a place
    /// takes the ground speed on the level and climbs at a wall. A stop
    /// closes in at a fifth of the ground speed while the place is further
    /// than the tolerance, and brakes against the agent's speed at half the
    /// ground speed after that. A jump takes the jump height upwards.
    pub open spec fn impulse(&self, movement: Movement, stats: Stats) -> Vec3Milli {
        match self.kind {
            ActionKind::Jump => Vec3Milli { x: 0, y: 0, z: stats.jump_height },
            ActionKind::MoveInDirection(direction) => Vec3Milli {
                x: scaled(direction.x, stats.ground_speed),
                y: scaled(direction.y, stats.ground_speed),
                z: if direction.z != 0 && movement.against_wall && movement.touching_ground {
                    stats.jump_height
                } else {
                    0
                },
            },
            ActionKind::MoveTowards(position, _) => {
                let direction = flat_direction(movement.pos, position);
                Vec3Milli {
                    x: scaled(direction.x, stats.ground_speed),
                    y: scaled(direction.y, stats.ground_speed),
                    z: if movement.against_wall {
                        stats.jump_height
                    } else {
                        0
                    },
                }
            },
            ActionKind::StopAt(position, _, pos_tolerance) => if !within(
                movement.pos,
                position,
                pos_tolerance,
            ) {
                let direction = flat_direction(movement.pos, position);
                Vec3Milli {
                    x: scaled(scaled(direction.x, stats.ground_speed), APPROACH_SHARE),
                    y: scaled(scaled(direction.y, stats.ground_speed), APPROACH_SHARE),
                    z: if movement.against_wall {
                        stats.jump_height
                    } else {
                        0
                    },
                }
            } else {
                let direction = flat_direction(movement.speed, Vec3Milli::zero_spec());
                Vec3Milli {
                    x: scaled(scaled(direction.x, stats.ground_speed), BRAKE_SHARE),
                    y: scaled(scaled(direction.y, stats.ground_speed), BRAKE_SHARE),
                    z: 0,
                }
            },
            _ => Vec3Milli::zero_spec(),
        }
    }

    /// What an action that needs no plan does once its timer, the world and
    /// its goal have let it through: it sends its push or its change to the
    /// world, and leaves the queue. A jump off the ground fails.
    pub open spec fn effected(
        &self,
        agent_id: usize,
        movement: Movement,
        stats: Stats,
        tunnels: TunnelsView,
    ) -> (ActionResult, TunnelsView) {
        let gone = tunnels.with_action(removal(agent_id, self.id));
        let pushed = tunnels.with_movement(push_of(agent_id, self.impulse(movement, stats)));
        match self.kind {
            ActionKind::Jump => if movement.touching_ground {
                (ActionResult::Done, pushed.with_action(removal(agent_id, self.id)))
            } else {
                (ActionResult::Error(ActionError::ImpossibleAction), gone)
            },
            ActionKind::MoveInDirection(_) => (
                ActionResult::InProgress,
                pushed.with_action(removal(agent_id, self.id)),
            ),
            ActionKind::MoveTowards(_, _) => (
                ActionResult::InProgress,
                pushed.with_action(removal(agent_id, self.id)),
            ),
            ActionKind::StopAt(_, _, _) => (
                ActionResult::InProgress,
                pushed.with_action(removal(agent_id, self.id)),
            ),
            ActionKind::ChangeVoxel(position, voxel) => (
                ActionResult::Done,
                tunnels.with_world(GameMapEvent::UpdateVoxelAt(position, voxel)).with_action(
                    removal(agent_id, self.id),
                ),
            ),
            ActionKind::PathToPosition(_, _) => (
                ActionResult::Error(ActionError::ImpossibleAction),
                tunnels,
            ),
        }
    }

    /// What `plan` adds to the head of the queue on tick `tick`: its steps,
    /// numbered by `counter`, once its search has a path.
    pub open spec fn unfolded(
        agent_id: usize,
        plan: PlanView,
        counter: ActionCounter,
        tick: usize,
        tunnels: TunnelsView,
    ) -> (ActionCounter, TunnelsView) {
        match plan.actions_to_add(counter, tick) {
            Some(actions) => (
                counter.advanced(actions.len()),
                tunnels.with_actions(insertions(agent_id, actions)),
            ),
            None => (counter, tunnels),
        }
    }

    /// The plan that the action starts on the tick it first needs one.
    pub open spec fn first_plan(&self, movement: Movement, world: &GameMap<CoolVoxel>) -> PlanView {
        PlanView {
            plan_action_id: self.id,
            search: SearchState::initial(
                self.kind->PathToPosition_1,
                movement.pos,
                self.kind->PathToPosition_0,
            ).run(FIRST_SEARCH_BUDGET as nat, world),
        }
    }

    /// What one tick of the action comes to.
    ///
    /// In this order: an action whose timer has run out fails and leaves the
    /// queue; one that the world does not let be done fails and leaves the
    /// queue; one that has got where it wants is done and leaves the queue.
    /// An action that needs a plan unfolds the one made for it, or starts
    /// one and unfolds that, and stays. Any other action does what
    /// `effected` says.
    pub open spec fn performed(
        &self,
        agent_id: usize,
        first_ent: &GameEntityVecRead,
        world: &GameMap<CoolVoxel>,
        counter: ActionCounter,
        tick: usize,
        tunnels: TunnelsView,
    ) -> Performed {
        let movement = first_ent.movement[agent_id as int];
        let stats = first_ent.stats[agent_id as int];
        let planner = first_ent.planner[agent_id as int]@;
        let gone = tunnels.with_action(removal(agent_id, self.id));
        if self.timer.timed_out_spec(self.started_at, tick) {
            Performed { result: ActionResult::FailedTimer, counter, tunnels: gone }
        } else if !self.possible(world) {
            Performed {
                result: ActionResult::Error(ActionError::ImpossibleAction),
                counter,
                tunnels: gone,
            }
        } else if self.done(movement) {
            Performed { result: ActionResult::Done, counter, tunnels: gone }
        } else if self.kind is PathToPosition {
            match find_plan(planner.plans, self.id, 0) {
                Some(i) => {
                    let (counter, tunnels) = Self::unfolded(
                        agent_id,
                        planner.plans[i],
                        counter,
                        tick,
                        tunnels,
                    );
                    Performed { result: ActionResult::InProgress, counter, tunnels }
                },
                None => {
                    let plan = self.first_plan(movement, world);
                    let (counter, tunnels) = Self::unfolded(agent_id, plan, counter, tick, tunnels);
                    Performed {
                        result: ActionResult::InProgress,
                        counter,
                        tunnels: tunnels.with_planner(
                            PlannerEventView {
                                id: agent_id,
                                source: None,
                                update: PlannerUpdateView::AddPlan(plan),
                            },
                        ),
                    }
                },
            }
        } else {
            let (result, tunnels) = self.effected(agent_id, movement, stats, tunnels);
            Performed { result, counter, tunnels }
        }
    }
}

/// An action with a delay fails on its timer from the tick on at which the
/// delay is over, whatever else holds of it.
pub proof fn lemma_delay_over_fails(
    action: Action,
    agent_id: usize,
    first_ent: &GameEntityVecRead,
    world: &GameMap<CoolVoxel>,
    counter: ActionCounter,
    tick: usize,
    tunnels: TunnelsView,
)
    requires
        action.timer is Delay,
        tick >= action.started_at + action.timer->Delay_0,
    ensures
        action.performed(agent_id, first_ent, world, counter, tick, tunnels).result
            == ActionResult::FailedTimer,
{
}

impl Action {
    /// The push that the action gives the agent.
    fn push_for(&self, movement: &Movement, stats: &Stats) -> (push: Vec3Milli)
        ensures
            push == self.impulse(*movement, *stats),
    {
        let climb: i64 = if movement.against_wall {
            stats.jump_height
        } else {
            0
        };
        match self.kind {
            ActionKind::Jump => Vec3Milli { x: 0, y: 0, z: stats.jump_height },
            ActionKind::MoveInDirection(direction) => Vec3Milli {
                x: scale(direction.x, stats.ground_speed),
                y: scale(direction.y, stats.ground_speed),
                z: if direction.z != 0 && movement.against_wall && movement.touching_ground {
                    stats.jump_height
                } else {
                    0
                },
            },
            ActionKind::MoveTowards(position, _) => {
                let direction = flat_direction_to(&movement.pos, &position);
                Vec3Milli {
                    x: scale(direction.x, stats.ground_speed),
                    y: scale(direction.y, stats.ground_speed),
                    z: climb,
                }
            },
            ActionKind::StopAt(position, _, pos_tolerance) => {
                if !movement.pos.is_within(&position, pos_tolerance) {
                    let direction = flat_direction_to(&movement.pos, &position);
                    Vec3Milli {
                        x: scale(scale(direction.x, stats.ground_speed), APPROACH_SHARE),
                        y: scale(scale(direction.y, stats.ground_speed), APPROACH_SHARE),
                        z: climb,
                    }
                } else {
                    let direction = flat_direction_to(&movement.speed, &Vec3Milli::zero());
                    Vec3Milli {
                        x: scale(scale(direction.x, stats.ground_speed), BRAKE_SHARE),
                        y: scale(scale(direction.y, stats.ground_speed), BRAKE_SHARE),
                        z: 0,
                    }
                }
            },
            _ => Vec3Milli::zero(),
        }
    }

    /// Sends what an action without a plan does.
    fn effect(&self, agent_id: usize, movement: &Movement, stats: &Stats, tunnels: &mut Tunnels) -> (result:
        ActionResult)
        ensures
            (result, final(tunnels)@) == self.effected(agent_id, *movement, *stats, old(tunnels)@),
    {
        match self.kind {
            ActionKind::Jump => {
                if movement.touching_ground {
                    tunnels.send_movement(
                        agent_id,
                        MovementEventVariant::AddToSpeed(self.push_for(movement, stats)),
                    );
                    tunnels.send_action(agent_id, ActionsUpdate::RemoveAction(self.id));
                    ActionResult::Done
                } else {
                    tunnels.send_action(agent_id, ActionsUpdate::RemoveAction(self.id));
                    ActionResult::Error(ActionError::ImpossibleAction)
                }
            },
            ActionKind::ChangeVoxel(position, voxel) => {
                tunnels.send_world(GameMapEvent::UpdateVoxelAt(position, voxel));
                tunnels.send_action(agent_id, ActionsUpdate::RemoveAction(self.id));
                ActionResult::Done
            },
            ActionKind::PathToPosition(_, _) => ActionResult::Error(ActionError::ImpossibleAction),
            _ => {
                tunnels.send_movement(
                    agent_id,
                    MovementEventVariant::AddToSpeed(self.push_for(movement, stats)),
                );
                tunnels.send_action(agent_id, ActionsUpdate::RemoveAction(self.id));
                ActionResult::InProgress
            },
        }
    }

    /// Puts the steps of `plan` at the head of the queue, once its search
    /// has a path.
    fn unfold(
        agent_id: usize,
        plan: &Plan,
        counter: &mut ActionCounter,
        tick: usize,
        tunnels: &mut Tunnels,
    )
        requires
            plan@.wf(),
        ensures
            (*final(counter), final(tunnels)@) == Self::unfolded(
                agent_id,
                plan@,
                *old(counter),
                tick,
                old(tunnels)@,
            ),
    {
        match plan.get_actions_to_add(counter, tick) {
            Some(actions) => {
                let ghost wanted = insertions(agent_id, actions@);
                let mut k: usize = 0;
                while k < actions.len()
                    invariant
                        k <= actions.len(),
                        wanted == insertions(agent_id, actions@),
                        tunnels@ == old(tunnels)@.with_actions(wanted.subrange(0, k as int)),
                    decreases actions.len() - k,
                {
                    let action = actions[actions.len() - 1 - k];
                    tunnels.send_action(agent_id, ActionsUpdate::InsertActionAtStart(action));
                    assert(old(tunnels)@.actions_out + wanted.subrange(0, k + 1) =~= (old(
                        tunnels,
                    )@.actions_out + wanted.subrange(0, k as int)).push(wanted[k as int]));
                    k += 1;
                }
                assert(wanted.subrange(0, actions.len() as int) =~= wanted);
            },
            None => {
                assert(old(tunnels)@.actions_out + Seq::<ActionsEventView>::empty() =~= old(
                    tunnels,
                )@.actions_out);
            },
        }
    }

    /// One tick of the action, for the agent `agent_id`. What it sends goes
    /// into `tunnels`; the ids of the actions it adds come from `counter`.
    pub fn perform(
        &self,
        agent_id: usize,
        first_ent: &GameEntityVecRead,
        world: &GameMap<CoolVoxel>,
        counter: &mut ActionCounter,
        tick: usize,
        tunnels: &mut Tunnels,
    ) -> (result: ActionResult)
        requires
            first_ent.wf(),
            agent_id < first_ent.movement.len(),
            world.wf(),
        ensures
            (Performed { result, counter: *final(counter), tunnels: final(tunnels)@ })
                == self.performed(agent_id, first_ent, world, *old(counter), tick, old(tunnels)@),
            self.timer.timed_out_spec(self.started_at, tick) ==> result
                == ActionResult::FailedTimer,
    {
        if self.timer.timed_out(self.started_at, tick) {
            tunnels.send_action(agent_id, ActionsUpdate::RemoveAction(self.id));
            ActionResult::FailedTimer
        } else if self.is_possible(world) {
            if self.is_done(agent_id, first_ent) {
                tunnels.send_action(agent_id, ActionsUpdate::RemoveAction(self.id));
                ActionResult::Done
            } else {
                match self.kind {
                    ActionKind::PathToPosition(position, tolerance) => {
                        let planner = &first_ent.planner[agent_id];
                        assert(first_ent.planner[agent_id as int]@.wf());
                        match planner.get_plan_for_id(self.id) {
                            Some(plan) => {
                                Self::unfold(agent_id, plan, counter, tick, tunnels);
                            },
                            None => {
                                let movement = &first_ent.movement[agent_id];
                                let plan = Plan::create_pathfinding(
                                    self.id,
                                    tolerance,
                                    movement.pos,
                                    position,
                                    FIRST_SEARCH_BUDGET,
                                    world,
                                );
                                Self::unfold(agent_id, &plan, counter, tick, tunnels);
                                tunnels.send_planner(agent_id, PlannerUpdate::AddPlan(plan));
                            },
                        }
                        ActionResult::InProgress
                    },
                    _ => self.effect(
                        agent_id,
                        &first_ent.movement[agent_id],
                        &first_ent.stats[agent_id],
                        tunnels,
                    ),
                }
            }
        } else {
            tunnels.send_action(agent_id, ActionsUpdate::RemoveAction(self.id));
            ActionResult::Error(ActionError::ImpossibleAction)
        }
    }
}

/// The tunnels with the word that `action` has ended in `result`. The word
/// goes to whoever put the action into the queue. It goes to the planner
/// too where the action is one that a plan is made for, so that the plan
/// goes when the action has gone.
pub open spec fn told_of_end(
    tunnels: TunnelsView,
    agent_id: usize,
    action: Action,
    result: ActionResult,
) -> TunnelsView {
    let to_planner = PlannerEventView {
        id: agent_id,
        source: None,
        update: PlannerUpdateView::AddFinished((action, result)),
    };
    match action.source {
        ActionSource::Planner => tunnels.with_planner(to_planner),
        ActionSource::Director => {
            let told = tunnels.with_director(
                DirectorEventView {
                    id: agent_id,
                    source: None,
                    update: DirectorUpdateView::NotifyFinished((action, result)),
                },
            );
            if action.kind is PathToPosition {
                told.with_planner(to_planner)
            } else {
                told
            }
        },
    }
}

impl Actions {
    /// What one tick of the queue comes to: the tick of its first action
    /// and, where that action has ended, the word of its end. An empty
    /// queue does nothing.
    pub open spec fn performed(
        &self,
        agent_id: usize,
        first_ent: &GameEntityVecRead,
        world: &GameMap<CoolVoxel>,
        counter: ActionCounter,
        tick: usize,
        tunnels: TunnelsView,
    ) -> (ActionCounter, TunnelsView) {
        if self.all_actions.len() == 0 {
            (counter, tunnels)
        } else {
            let action = self.all_actions[0];
            let head = action.performed(agent_id, first_ent, world, counter, tick, tunnels);
            match head.result {
                ActionResult::InProgress => (head.counter, head.tunnels),
                result => (head.counter, told_of_end(head.tunnels, agent_id, action, result)),
            }
        }
    }

    /// One tick of the queue of the agent `agent_id`: only its first action
    /// runs.
    pub fn perform(
        &self,
        agent_id: usize,
        first_ent: &GameEntityVecRead,
        world: &GameMap<CoolVoxel>,
        counter: &mut ActionCounter,
        tick: usize,
        tunnels: &mut Tunnels,
    )
        requires
            first_ent.wf(),
            agent_id < first_ent.movement.len(),
            world.wf(),
        ensures
            (*final(counter), final(tunnels)@) == self.performed(
                agent_id,
                first_ent,
                world,
                *old(counter),
                tick,
                old(tunnels)@,
            ),
    {
        if self.all_actions.len() > 0 {
            let action = &self.all_actions[0];
            let result = action.perform(agent_id, first_ent, world, counter, tick, tunnels);
            match result {
                ActionResult::InProgress => {},
                _ => match action.source {
                    ActionSource::Planner => {
                        tunnels.send_planner(agent_id, PlannerUpdate::AddFinished((*action, result)));
                    },
                    ActionSource::Director => {
                        tunnels.send_director(
                            agent_id,
                            None,
                            DirectorUpdate::NotifyFinished((*action, result)),
                        );
                        if action.needs_planning() {
                            tunnels.send_planner(
                                agent_id,
                                PlannerUpdate::AddFinished((*action, result)),
                            );
                        }
                    },
                },
            }
        }
    }
}

} // verus!
