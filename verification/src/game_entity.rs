//! What one tick reads and what it sends: the entities as they stood when
//! the tick began, and the tunnels that carry the tick's events away.

use vstd::prelude::*;
use crate::actions::{Actions, ActionsEvent, ActionsEventView};
use crate::director::{Director, DirectorEvent, DirectorEventView, director_events};
use crate::entity::{Movement, MovementEvent, Stats};
use crate::game_map::GameMapEvent;
use crate::planner::{Planner, PlannerEvent, PlannerEventView, planner_events};
use crate::proxima_link::{HordeProximaAIRequest, HordeProximaAIRequestView};
use crate::voxel::CoolVoxel;

verus! {

/// The entities of one kind as they stood when the tick began, one entry of
/// each list for each entity.
pub struct GameEntityVecRead {
    pub movement: Vec<Movement>,
    pub stats: Vec<Stats>,
    pub actions: Vec<Actions>,
    pub director: Vec<Director>,
    pub planner: Vec<Planner>,
}

impl GameEntityVecRead {
    /// Number of entities.
    pub open spec fn count(&self) -> nat {
        self.movement.len() as nat
    }

    /// Every list has one entry for each entity, and every plan rests on a
    /// well-formed search.
    pub open spec fn wf(&self) -> bool {
        &&& self.stats.len() == self.movement.len()
        &&& self.actions.len() == self.movement.len()
        &&& self.director.len() == self.movement.len()
        &&& self.planner.len() == self.movement.len()
        &&& forall|i: int| 0 <= i < self.planner.len() ==> (#[trigger] self.planner[i])@.wf()
    }
}

/// A list of queue events, as plain values.
pub open spec fn actions_events(events: Seq<ActionsEvent>) -> Seq<ActionsEventView> {
    events.map_values(|event: ActionsEvent| event@)
}

/// A list of requests, as plain values.
pub open spec fn payloads_view(payloads: Seq<HordeProximaAIRequest>) -> Seq<
    HordeProximaAIRequestView,
> {
    payloads.map_values(|payload: HordeProximaAIRequest| payload@)
}

/// Where a tick puts its events; each list is committed after the tick, in
/// order.
pub struct Tunnels {
    pub actions_out: Vec<ActionsEvent>,
    pub planner_out: Vec<PlannerEvent>,
    pub director_out: Vec<DirectorEvent>,
    pub movement_out: Vec<MovementEvent>,
    pub world_out: Vec<GameMapEvent<CoolVoxel>>,
    /// Requests to the language-model service.
    pub payload_out: Vec<HordeProximaAIRequest>,
}

/// The events in the tunnels, as plain values.
pub struct TunnelsView {
    pub actions_out: Seq<ActionsEventView>,
    pub planner_out: Seq<PlannerEventView>,
    pub director_out: Seq<DirectorEventView>,
    pub movement_out: Seq<MovementEvent>,
    pub world_out: Seq<GameMapEvent<CoolVoxel>>,
    pub payload_out: Seq<HordeProximaAIRequestView>,
}

impl View for Tunnels {
    type V = TunnelsView;

    open spec fn view(&self) -> TunnelsView {
        TunnelsView {
            actions_out: actions_events(self.actions_out@),
            planner_out: planner_events(self.planner_out@),
            director_out: director_events(self.director_out@),
            movement_out: self.movement_out@,
            world_out: self.world_out@,
            payload_out: payloads_view(self.payload_out@),
        }
    }
}

impl Tunnels {
    /// Tunnels with nothing in them.
    pub fn new() -> (tunnels: Self)
        ensures
            tunnels@ == TunnelsView::empty(),
    {
        let tunnels = Tunnels {
            actions_out: Vec::new(),
            planner_out: Vec::new(),
            director_out: Vec::new(),
            movement_out: Vec::new(),
            world_out: Vec::new(),
            payload_out: Vec::new(),
        };
        assert(tunnels@.actions_out =~= Seq::empty());
        assert(tunnels@.planner_out =~= Seq::empty());
        assert(tunnels@.director_out =~= Seq::empty());
        assert(tunnels@.payload_out =~= Seq::empty());
        tunnels
    }
}

impl TunnelsView {
    /// Tunnels with nothing in them.
    pub open spec fn empty() -> TunnelsView {
        TunnelsView {
            actions_out: Seq::empty(),
            planner_out: Seq::empty(),
            director_out: Seq::empty(),
            movement_out: Seq::empty(),
            world_out: Seq::empty(),
            payload_out: Seq::empty(),
        }
    }

    /// The tunnels with one more queue event.
    pub open spec fn with_action(self, event: ActionsEventView) -> TunnelsView {
        TunnelsView { actions_out: self.actions_out.push(event), ..self }
    }

    /// The tunnels with more queue events.
    pub open spec fn with_actions(self, events: Seq<ActionsEventView>) -> TunnelsView {
        TunnelsView { actions_out: self.actions_out + events, ..self }
    }

    /// The tunnels with one more planner event.
    pub open spec fn with_planner(self, event: PlannerEventView) -> TunnelsView {
        TunnelsView { planner_out: self.planner_out.push(event), ..self }
    }

    /// The tunnels with more planner events.
    pub open spec fn with_planners(self, events: Seq<PlannerEventView>) -> TunnelsView {
        TunnelsView { planner_out: self.planner_out + events, ..self }
    }

    /// The tunnels with one more director event.
    pub open spec fn with_director(self, event: DirectorEventView) -> TunnelsView {
        TunnelsView { director_out: self.director_out.push(event), ..self }
    }

    /// The tunnels with one more movement event.
    pub open spec fn with_movement(self, event: MovementEvent) -> TunnelsView {
        TunnelsView { movement_out: self.movement_out.push(event), ..self }
    }

    /// The tunnels with one more change to the world.
    pub open spec fn with_world(self, event: GameMapEvent<CoolVoxel>) -> TunnelsView {
        TunnelsView { world_out: self.world_out.push(event), ..self }
    }

    /// The tunnels with one more request to the service.
    pub open spec fn with_payload(self, payload: HordeProximaAIRequestView) -> TunnelsView {
        TunnelsView { payload_out: self.payload_out.push(payload), ..self }
    }
}

impl Tunnels {
    /// Sends `update` to the queue of the agent `agent_id`.
    pub fn send_action(&mut self, agent_id: usize, update: crate::actions::ActionsUpdate)
        ensures
            final(self)@ == old(self)@.with_action(
                ActionsEventView { id: agent_id, source: None, variant: update@ },
            ),
    {
        self.actions_out.push(ActionsEvent::new(agent_id, None, update));
        assert(actions_events(self.actions_out@) =~= actions_events(old(self).actions_out@).push(
            ActionsEventView { id: agent_id, source: None, variant: update@ },
        ));
    }

    /// Sends `update` to the planner of the agent `agent_id`.
    pub fn send_planner(&mut self, agent_id: usize, update: crate::planner::PlannerUpdate)
        ensures
            final(self)@ == old(self)@.with_planner(
                PlannerEventView { id: agent_id, source: None, update: update@ },
            ),
    {
        self.planner_out.push(PlannerEvent::new(agent_id, None, update));
        assert(planner_events(self.planner_out@) =~= planner_events(old(self).planner_out@).push(
            PlannerEventView { id: agent_id, source: None, update: update@ },
        ));
    }

    /// Sends `update` to the director of the agent `agent_id` in the name
    /// of `source`.
    pub fn send_director(
        &mut self,
        agent_id: usize,
        source: Option<crate::entity::CoolGameEngineTID>,
        update: crate::director::DirectorUpdate,
    )
        ensures
            final(self)@ == old(self)@.with_director(
                DirectorEventView { id: agent_id, source, update: update@ },
            ),
    {
        self.director_out.push(DirectorEvent::new(agent_id, source, update));
        assert(director_events(self.director_out@) =~= director_events(
            old(self).director_out@,
        ).push(DirectorEventView { id: agent_id, source, update: update@ }));
    }

    /// Sends `variant` to the movement of the agent `agent_id`.
    pub fn send_movement(&mut self, agent_id: usize, variant: crate::entity::MovementEventVariant)
        ensures
            final(self)@ == old(self)@.with_movement(
                MovementEvent { id: agent_id, source: None, variant },
            ),
    {
        self.movement_out.push(MovementEvent::new(agent_id, None, variant));
    }

    /// Sends a change to the world.
    pub fn send_world(&mut self, event: GameMapEvent<CoolVoxel>)
        ensures
            final(self)@ == old(self)@.with_world(event),
    {
        self.world_out.push(event);
    }

    /// Sends a request to the service.
    pub fn send_payload(&mut self, payload: HordeProximaAIRequest)
        ensures
            final(self)@ == old(self)@.with_payload(payload@),
    {
        self.payload_out.push(payload);
        assert(payloads_view(self.payload_out@) =~= payloads_view(old(self).payload_out@).push(
            payload@,
        ));
    }
}

} // verus!
