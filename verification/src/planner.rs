//! The plans behind an agent's longer actions: each binds a route search to
//! the action that asked for it.

use vstd::prelude::*;
use crate::actions::{Action, ActionCounter, ActionKind, ActionResult, ActionSource, ActionTimer};
use crate::entity::CoolGameEngineTID;
use crate::game_entity::Tunnels;
use crate::game_map::GameMap;
use crate::geometry::Vec3Milli;
use crate::pathfinding::{PathfindingData, SearchState};
use crate::voxel::CoolVoxel;

verus! {

/// Ticks that a step of a plan may take.
pub const PLAN_STEP_DELAY: usize = 500;

/// Speed below which an agent counts as stopped at the end of a plan, in
/// thousandths of a voxel a tick.
pub const STOP_SPEED_TOLERANCE: i64 = 20;

/// A search stops being taken up again once it has counted this many
/// iterations.
pub const ITERATION_CEILING: usize = 1000000;

/// What a plan has worked out so far.
pub enum PlanData {
    Pathfinding(PathfindingData),
}

/// A route search bound to the action that asked for it.
pub struct Plan {
    pub plan_action_id: usize,
    pub plan_data: PlanData,
}

/// A plan, as plain values.
pub struct PlanView {
    pub plan_action_id: usize,
    pub search: SearchState,
}

impl View for Plan {
    type V = PlanView;

    open spec fn view(&self) -> PlanView {
        PlanView {
            plan_action_id: self.plan_action_id,
            search: self.plan_data.search(),
        }
    }
}

impl PlanView {
    /// The search behind the plan is well-formed.
    pub open spec fn wf(self) -> bool {
        self.search.wf()
    }

    /// The `k`-th action of a plan with a path: a move towards the `k`-th
    /// voxel of the path, and behind the last of them a stop at the goal.
    pub open spec fn step_action(self, counter: ActionCounter, started_at: usize, k: int) -> Action {
        let path = self.search.found_path->0;
        Action {
            id: counter.advanced(k as nat).latest_id,
            started_at,
            timer: ActionTimer::Delay(PLAN_STEP_DELAY),
            kind: if k < path.len() {
                ActionKind::MoveTowards(
                    self.search.nodes[path[k] as int].position.to_world_spec(),
                    self.search.tolerance,
                )
            } else {
                ActionKind::StopAt(self.search.end_pos, STOP_SPEED_TOLERANCE, self.search.tolerance)
            },
            source: ActionSource::Planner,
        }
    }

    /// The actions that carry out the plan, with ids drawn from `counter`:
    /// one for each voxel of the path and one to stop. `None` while the
    /// search has no path.
    pub open spec fn actions_to_add(self, counter: ActionCounter, started_at: usize) -> Option<
        Seq<Action>,
    > {
        match self.search.found_path {
            Some(path) => Some(
                Seq::new(
                    (path.len() + 1) as nat,
                    |k: int| self.step_action(counter, started_at, k),
                ),
            ),
            None => None,
        }
    }
}

/// The actions of a plan carry ids that rise by one from the counter's, as
/// long as the counter has ids left.
pub proof fn lemma_plan_ids_rise(plan: PlanView, counter: ActionCounter, started_at: usize)
    requires
        plan.search.found_path is Some,
        counter.latest_id + plan.search.found_path->0.len() + 1 <= usize::MAX,
    ensures
        plan.actions_to_add(counter, started_at)->0.len() == plan.search.found_path->0.len() + 1,
        forall|k: int|
            0 <= k < plan.actions_to_add(counter, started_at)->0.len() ==> (
            #[trigger] plan.actions_to_add(counter, started_at)->0[k]).id == counter.latest_id + k,
        forall|j: int, k: int|
            0 <= j < k < plan.actions_to_add(counter, started_at)->0.len()
                ==> plan.actions_to_add(counter, started_at)->0[j].id < plan.actions_to_add(
                counter,
                started_at,
            )->0[k].id,
        forall|k: int|
            0 <= k < plan.search.found_path->0.len() ==> (#[trigger] plan.actions_to_add(
                counter,
                started_at,
            )->0[k]).kind is MoveTowards,
        plan.actions_to_add(counter, started_at)->0.last().kind is StopAt,
{
}

impl Plan {
    /// Whether the search behind the plan has its path.
    pub fn finished_compute(&self) -> (finished: bool)
        ensures
            finished == (self@.search.found_path is Some),
    {
        match &self.plan_data {
            PlanData::Pathfinding(path) => path.found_path.is_some(),
        }
    }

    /// Starts the search for a way from `start_pos` to `end_pos` on behalf of
    /// the action `action_id`, and runs it for `max_iterations` iterations at
    /// most.
    pub fn create_pathfinding(
        action_id: usize,
        tolerance: i64,
        start_pos: Vec3Milli,
        end_pos: Vec3Milli,
        max_iterations: usize,
        world: &GameMap<CoolVoxel>,
    ) -> (plan: Plan)
        requires
            world.wf(),
        ensures
            plan@ == (PlanView {
                plan_action_id: action_id,
                search: SearchState::initial(tolerance, start_pos, end_pos).run(
                    max_iterations as nat,
                    world,
                ),
            }),
            plan@.wf(),
    {
        Plan {
            plan_action_id: action_id,
            plan_data: PlanData::Pathfinding(
                PathfindingData::plan_pathfinding(
                    tolerance,
                    start_pos,
                    end_pos,
                    max_iterations,
                    world,
                ),
            ),
        }
    }

    /// The actions that carry out the plan, numbered by `counter`: one move
    /// towards each voxel of the path, then one stop at the goal. `None`, and
    /// no id drawn, while the search has no path.
    pub fn get_actions_to_add(&self, counter: &mut ActionCounter, started_at: usize) -> (actions:
        Option<Vec<Action>>)
        requires
            self@.wf(),
        ensures
            match actions {
                Some(list) => self@.actions_to_add(*old(counter), started_at) == Some(list@)
                    && *final(counter) == old(counter).advanced(
                    (self@.search.found_path->0.len() + 1) as nat,
                ),
                None => self@.search.found_path is None && *final(counter) == *old(counter),
            },
    {
        match &self.plan_data {
            PlanData::Pathfinding(path_data) => {
                match &path_data.found_path {
                    Some(path) => {
                        proof {
                            reveal(SearchState::wf);
                        }
                        let mut actions: Vec<Action> = Vec::with_capacity(path.len());
                        let mut k: usize = 0;
                        while k < path.len()
                            invariant
                                k <= path.len(),
                                path_data@.found_path == Some(path@),
                                self@.search == path_data@,
                                forall|j: int|
                                    0 <= j < path.len() ==> #[trigger] path[j]
                                        < path_data.nodes.len(),
                                actions.len() == k,
                                *counter == old(counter).advanced(k as nat),
                                forall|j: int|
                                    0 <= j < k ==> actions[j] == self@.step_action(
                                        *old(counter),
                                        started_at,
                                        j,
                                    ),
                            decreases path.len() - k,
                        {
                            let id = counter.get_next_id();
                            let pos = path_data.nodes[path[k]].position;
                            actions.push(
                                Action::new(
                                    id,
                                    started_at,
                                    ActionTimer::Delay(PLAN_STEP_DELAY),
                                    ActionKind::MoveTowards(pos.to_world(), path_data.tolerance),
                                    ActionSource::Planner,
                                ),
                            );
                            k += 1;
                        }
                        let id = counter.get_next_id();
                        actions.push(
                            Action::new(
                                id,
                                started_at,
                                ActionTimer::Delay(PLAN_STEP_DELAY),
                                ActionKind::StopAt(
                                    path_data.end_pos,
                                    STOP_SPEED_TOLERANCE,
                                    path_data.tolerance,
                                ),
                                ActionSource::Planner,
                            ),
                        );
                        assert(actions@ =~= self@.actions_to_add(*old(counter), started_at)->0);
                        Some(actions)
                    },
                    None => None,
                }
            },
        }
    }
}

impl PlanData {
    /// The search that the plan rests on.
    pub open spec fn search(&self) -> SearchState {
        match self {
            PlanData::Pathfinding(data) => data@,
        }
    }
}

impl Clone for PlanData {
    fn clone(&self) -> (copy: Self)
        ensures
            copy.search() == self.search(),
    {
        match self {
            PlanData::Pathfinding(data) => PlanData::Pathfinding(data.clone()),
        }
    }
}

impl Clone for Plan {
    /// A second plan that holds what this one holds.
    fn clone(&self) -> (copy: Self)
        ensures
            copy@ == self@,
    {
        Plan { plan_action_id: self.plan_action_id, plan_data: self.plan_data.clone() }
    }
}

/// Place of the first plan made for the action `action_id`, from `from` on.
pub open spec fn find_plan(plans: Seq<PlanView>, action_id: usize, from: int) -> Option<int>
    decreases plans.len() - from,
{
    if from < 0 || from >= plans.len() {
        None
    } else if plans[from].plan_action_id == action_id {
        Some(from)
    } else {
        find_plan(plans, action_id, from + 1)
    }
}

/// The plans of one agent, and the actions of theirs that have ended since
/// the last tick.
pub struct Planner {
    pub finished_actions: Vec<(Action, ActionResult)>,
    pub plans: Vec<Plan>,
}

/// A planner, as plain values.
pub struct PlannerView {
    pub finished_actions: Seq<(Action, ActionResult)>,
    pub plans: Seq<PlanView>,
}

impl View for Planner {
    type V = PlannerView;

    open spec fn view(&self) -> PlannerView {
        PlannerView {
            finished_actions: self.finished_actions@,
            plans: self.plans@.map_values(|plan: Plan| plan@),
        }
    }
}

/// Nothing that a planner starts from.
#[derive(Clone, Copy, PartialEq, Eq, Structural, Debug)]
pub struct StaticPlanner {}

/// A change to an agent's planner.
pub enum PlannerUpdate {
    FlushFinished,
    FlushPlans,
    AddPlan(Plan),
    /// Puts this plan in place of the one made for the same action.
    UpdatePlan(Plan),
    AddFinished((Action, ActionResult)),
    /// Drops the plan made for this action.
    RemovePlanAssociatedTo(usize),
}

/// A `PlannerUpdate`, as plain values.
pub enum PlannerUpdateView {
    FlushFinished,
    FlushPlans,
    AddPlan(PlanView),
    UpdatePlan(PlanView),
    AddFinished((Action, ActionResult)),
    RemovePlanAssociatedTo(usize),
}

impl View for PlannerUpdate {
    type V = PlannerUpdateView;

    open spec fn view(&self) -> PlannerUpdateView {
        match self {
            PlannerUpdate::FlushFinished => PlannerUpdateView::FlushFinished,
            PlannerUpdate::FlushPlans => PlannerUpdateView::FlushPlans,
            PlannerUpdate::AddPlan(plan) => PlannerUpdateView::AddPlan(plan@),
            PlannerUpdate::UpdatePlan(plan) => PlannerUpdateView::UpdatePlan(plan@),
            PlannerUpdate::AddFinished(finished) => PlannerUpdateView::AddFinished(*finished),
            PlannerUpdate::RemovePlanAssociatedTo(id) => PlannerUpdateView::RemovePlanAssociatedTo(
                *id,
            ),
        }
    }
}

/// A change to the planner of the agent `id`.
pub struct PlannerEvent {
    pub id: usize,
    pub source: Option<CoolGameEngineTID>,
    pub update: PlannerUpdate,
}

/// A `PlannerEvent`, as plain values.
pub struct PlannerEventView {
    pub id: usize,
    pub source: Option<CoolGameEngineTID>,
    pub update: PlannerUpdateView,
}

impl View for PlannerEvent {
    type V = PlannerEventView;

    open spec fn view(&self) -> PlannerEventView {
        PlannerEventView { id: self.id, source: self.source, update: self.update@ }
    }
}

/// The event that asks the planner of the agent `agent_id` for `update`.
pub open spec fn planner_event(agent_id: usize, update: PlannerUpdateView) -> PlannerEventView {
    PlannerEventView { id: agent_id, source: None, update }
}

/// A list of planner events, as plain values.
pub open spec fn planner_events(events: Seq<PlannerEvent>) -> Seq<PlannerEventView> {
    events.map_values(|event: PlannerEvent| event@)
}

impl PlannerView {
    /// Every plan rests on a well-formed search.
    pub open spec fn wf(self) -> bool {
        forall|i: int| 0 <= i < self.plans.len() ==> (#[trigger] self.plans[i]).wf()
    }

    /// What the first `k` finished actions release: for each that has a
    /// plan, the order to drop it.
    pub open spec fn removals(self, agent_id: usize, k: int) -> Seq<PlannerEventView>
        decreases k,
    {
        if k <= 0 {
            Seq::empty()
        } else {
            match find_plan(self.plans, self.finished_actions[k - 1].0.id, 0) {
                Some(i) => self.removals(agent_id, k - 1).push(
                    planner_event(
                        agent_id,
                        PlannerUpdateView::RemovePlanAssociatedTo(self.plans[i].plan_action_id),
                    ),
                ),
                None => self.removals(agent_id, k - 1),
            }
        }
    }

    /// The plan is waiting for its path and may still be taken up.
    pub open spec fn may_advance(plan: PlanView) -> bool {
        plan.search.found_path is None && plan.search.iterations < ITERATION_CEILING
    }

    /// The plan after its search has been granted `extra` iterations more.
    pub open spec fn advanced(plan: PlanView, extra: usize, world: &GameMap<CoolVoxel>) -> PlanView {
        PlanView { search: plan.search.run(plan.search.budget(extra), world), ..plan }
    }

    /// What the first `k` plans turn into: for each that may still be taken
    /// up, its replacement after `extra` iterations more.
    pub open spec fn advances(
        self,
        agent_id: usize,
        extra: usize,
        world: &GameMap<CoolVoxel>,
        k: int,
    ) -> Seq<PlannerEventView>
        decreases k,
    {
        if k <= 0 {
            Seq::empty()
        } else if Self::may_advance(self.plans[k - 1]) {
            self.advances(agent_id, extra, world, k - 1).push(
                planner_event(
                    agent_id,
                    PlannerUpdateView::UpdatePlan(Self::advanced(self.plans[k - 1], extra, world)),
                ),
            )
        } else {
            self.advances(agent_id, extra, world, k - 1)
        }
    }

    /// What the finished actions release: nothing where there are none, else
    /// the order to forget them and to drop the plans made for them.
    pub open spec fn releases(self, agent_id: usize) -> Seq<PlannerEventView> {
        if self.finished_actions.len() > 0 {
            seq![planner_event(agent_id, PlannerUpdateView::FlushFinished)] + self.removals(
                agent_id,
                self.finished_actions.len() as int,
            )
        } else {
            Seq::empty()
        }
    }

    /// The events of one tick of the planner of the agent `agent_id`: what
    /// the finished actions release, then the replacement of every plan
    /// that may still be taken up.
    pub open spec fn update_events(
        self,
        agent_id: usize,
        extra: usize,
        world: &GameMap<CoolVoxel>,
    ) -> Seq<PlannerEventView> {
        self.releases(agent_id) + self.advances(agent_id, extra, world, self.plans.len() as int)
    }

    /// The planner after `update` has been applied to it.
    pub open spec fn updated(self, update: PlannerUpdateView) -> PlannerView {
        match update {
            PlannerUpdateView::FlushFinished => PlannerView {
                finished_actions: Seq::empty(),
                ..self
            },
            PlannerUpdateView::FlushPlans => PlannerView { plans: Seq::empty(), ..self },
            PlannerUpdateView::AddFinished(finished) => PlannerView {
                finished_actions: self.finished_actions.push(finished),
                ..self
            },
            PlannerUpdateView::AddPlan(plan) => PlannerView { plans: self.plans.push(plan), ..self },
            PlannerUpdateView::UpdatePlan(plan) => match find_plan(
                self.plans,
                plan.plan_action_id,
                0,
            ) {
                Some(i) => PlannerView { plans: self.plans.update(i, plan), ..self },
                None => self,
            },
            PlannerUpdateView::RemovePlanAssociatedTo(id) => match find_plan(self.plans, id, 0) {
                Some(i) => PlannerView { plans: self.plans.remove(i), ..self },
                None => self,
            },
        }
    }
}

/// A planner without finished actions whose plans all have their paths asks
/// for nothing.
pub proof fn lemma_idle_planner_is_silent(
    planner: PlannerView,
    agent_id: usize,
    extra: usize,
    world: &GameMap<CoolVoxel>,
)
    requires
        planner.finished_actions.len() == 0,
        forall|i: int|
            0 <= i < planner.plans.len() ==> (#[trigger] planner.plans[i]).search.found_path is Some,
    ensures
        planner.update_events(agent_id, extra, world).len() == 0,
{
    lemma_no_advances(planner, agent_id, extra, world, planner.plans.len() as int);
}

proof fn lemma_no_advances(
    planner: PlannerView,
    agent_id: usize,
    extra: usize,
    world: &GameMap<CoolVoxel>,
    k: int,
)
    requires
        k <= planner.plans.len(),
        forall|i: int|
            0 <= i < planner.plans.len() ==> (#[trigger] planner.plans[i]).search.found_path is Some,
    ensures
        planner.advances(agent_id, extra, world, k).len() == 0,
    decreases k,
{
    if k > 0 {
        lemma_no_advances(planner, agent_id, extra, world, k - 1);
    }
}

/// Sends `update` to the planner of the agent `agent_id`.
fn send_planner(planner_out: &mut Vec<PlannerEvent>, agent_id: usize, update: PlannerUpdate)
    ensures
        planner_events(final(planner_out)@) == planner_events(old(planner_out)@).push(
            planner_event(agent_id, update@),
        ),
{
    planner_out.push(PlannerEvent::new(agent_id, None, update));
    assert(planner_events(planner_out@) =~= planner_events(old(planner_out)@).push(
        planner_event(agent_id, update@),
    ));
}

impl PlannerEvent {
    pub fn new(id: usize, source: Option<CoolGameEngineTID>, update: PlannerUpdate) -> (event: Self)
        ensures
            event.id == id,
            event.source == source,
            event.update == update,
    {
        Self { id, source, update }
    }

    pub fn get_id(&self) -> (id: usize)
        ensures
            id == self.id,
    {
        self.id
    }

    pub fn get_source(&self) -> (source: Option<CoolGameEngineTID>)
        ensures
            source == self.source,
    {
        self.source
    }

    /// Changes the planner of the agent the event names, and no other.
    pub fn apply_to_component(self, components: &mut Vec<Planner>)
        requires
            self.id < old(components).len(),
        ensures
            final(components).len() == old(components).len(),
            final(components)[self.id as int]@ == old(components)[self.id as int]@.updated(
                self.update@,
            ),
            forall|i: int|
                0 <= i < old(components).len() && i != self.id ==> final(components)[i] == old(
                    components,
                )[i],
    {
        let id = self.id;
        let ghost before = components[id as int]@;
        match self.update {
            PlannerUpdate::FlushFinished => {
                components[id].finished_actions.clear();
                assert(components[id as int]@.plans == before.plans);
            },
            PlannerUpdate::FlushPlans => {
                components[id].plans.clear();
                assert(components[id as int]@.plans =~= Seq::empty());
            },
            PlannerUpdate::AddFinished(action) => {
                components[id].finished_actions.push(action);
                assert(components[id as int]@.plans == before.plans);
            },
            PlannerUpdate::AddPlan(plan) => {
                components[id].plans.push(plan);
                assert(components[id as int]@.plans =~= before.plans.push(plan@));
            },
            PlannerUpdate::UpdatePlan(new_plan) => {
                match components[id].find_plan(new_plan.plan_action_id) {
                    Some(i) => {
                        components[id].plans[i] = new_plan;
                        assert(components[id as int]@.plans =~= before.plans.update(
                            i as int,
                            new_plan@,
                        ));
                    },
                    None => {},
                }
            },
            PlannerUpdate::RemovePlanAssociatedTo(action_id) => {
                match components[id].find_plan(action_id) {
                    Some(i) => {
                        components[id].plans.remove(i);
                        assert(components[id as int]@.plans =~= before.plans.remove(i as int));
                    },
                    None => {},
                }
            },
        }
    }
}

impl Planner {
    /// A planner without plans.
    pub fn new() -> (planner: Self)
        ensures
            planner@ == (PlannerView { finished_actions: Seq::empty(), plans: Seq::empty() }),
    {
        let planner = Self { finished_actions: Vec::with_capacity(4), plans: Vec::with_capacity(4) };
        assert(planner@.plans =~= Seq::empty());
        planner
    }

    /// The planner an agent starts with.
    pub fn from_static(static_comp: &StaticPlanner) -> (planner: Self)
        ensures
            planner@ == (PlannerView { finished_actions: Seq::empty(), plans: Seq::empty() }),
    {
        Self::new()
    }

    fn find_plan(&self, action_id: usize) -> (place: Option<usize>)
        ensures
            match place {
                Some(i) => find_plan(self@.plans, action_id, 0) == Some(i as int) && i
                    < self.plans.len(),
                None => find_plan(self@.plans, action_id, 0) is None,
            },
    {
        let mut i: usize = 0;
        while i < self.plans.len()
            invariant
                i <= self.plans.len(),
                find_plan(self@.plans, action_id, 0) == find_plan(self@.plans, action_id, i as int),
            decreases self.plans.len() - i,
        {
            if self.plans[i].plan_action_id == action_id {
                return Some(i);
            }
            i += 1;
        }
        None
    }

    /// The plan made for the action `action_id`.
    pub fn get_plan_for_id(&self, action_id: usize) -> (plan: Option<&Plan>)
        ensures
            match plan {
                Some(found) => find_plan(self@.plans, action_id, 0) is Some && 0 <= find_plan(
                    self@.plans,
                    action_id,
                    0,
                )->0 < self@.plans.len() && found@ == self@.plans[find_plan(
                    self@.plans,
                    action_id,
                    0,
                )->0],
                None => find_plan(self@.plans, action_id, 0) is None,
            },
    {
        match self.find_plan(action_id) {
            Some(i) => Some(&self.plans[i]),
            None => None,
        }
    }

    /// Whether a plan has been made for the action `action_id`.
    pub fn plan_exists_for(&self, action_id: usize) -> (exists: bool)
        ensures
            exists == (find_plan(self@.plans, action_id, 0) is Some),
    {
        self.find_plan(action_id).is_some()
    }

    /// One tick of the planner of the agent `agent_id`. Where actions have
    /// finished it asks to forget them and to drop the plans made for them;
    /// then it grants every plan that waits for its path
    /// `extra_possible_iterations` iterations more and asks to put the
    /// result in the plan's place. The planner itself stays as it is: what
    /// it asks for goes into `tunnels`.
    pub fn update(
        &self,
        agent_id: usize,
        extra_possible_iterations: usize,
        world: &GameMap<CoolVoxel>,
        tunnels: &mut Tunnels,
    )
        requires
            self@.wf(),
            world.wf(),
        ensures
            final(tunnels)@ == old(tunnels)@.with_planners(
                self@.update_events(agent_id, extra_possible_iterations, world),
            ),
    {
        self.send_updates(agent_id, extra_possible_iterations, world, &mut tunnels.planner_out);
    }

    /// Puts the events of one tick of the planner behind those in
    /// `planner_out`.
    fn send_updates(
        &self,
        agent_id: usize,
        extra_possible_iterations: usize,
        world: &GameMap<CoolVoxel>,
        planner_out: &mut Vec<PlannerEvent>,
    )
        requires
            self@.wf(),
            world.wf(),
        ensures
            planner_events(final(planner_out)@) == planner_events(old(planner_out)@)
                + self@.update_events(agent_id, extra_possible_iterations, world),
    {
        let ghost before = planner_events(planner_out@);
        let ghost flush = seq![planner_event(agent_id, PlannerUpdateView::FlushFinished)];
        if self.finished_actions.len() > 0 {
            send_planner(planner_out, agent_id, PlannerUpdate::FlushFinished);
            assert(planner_events(planner_out@) =~= before + (flush + self@.removals(agent_id, 0)));
            let mut k: usize = 0;
            while k < self.finished_actions.len()
                invariant
                    k <= self.finished_actions.len(),
                    planner_events(planner_out@) == before + (flush + self@.removals(
                        agent_id,
                        k as int,
                    )),
                decreases self.finished_actions.len() - k,
            {
                let ghost sent = self@.removals(agent_id, k as int);
                match self.get_plan_for_id(self.finished_actions[k].0.get_id()) {
                    Some(plan) => {
                        let update = PlannerUpdate::RemovePlanAssociatedTo(plan.plan_action_id);
                        send_planner(planner_out, agent_id, update);
                        assert(self@.removals(agent_id, k + 1) == sent.push(
                            planner_event(agent_id, update@),
                        ));
                        assert((before + (flush + sent)).push(planner_event(agent_id, update@))
                            =~= before + (flush + sent.push(planner_event(agent_id, update@))));
                    },
                    None => {
                        assert(self@.removals(agent_id, k + 1) == sent);
                    },
                }
                k += 1;
            }
        }
        let ghost released = self@.releases(agent_id);
        assert(planner_events(planner_out@) =~= before + (released + self@.advances(
            agent_id,
            extra_possible_iterations,
            world,
            0,
        )));
        let mut i: usize = 0;
        while i < self.plans.len()
            invariant
                i <= self.plans.len(),
                self@.wf(),
                world.wf(),
                planner_events(planner_out@) == before + (released + self@.advances(
                    agent_id,
                    extra_possible_iterations,
                    world,
                    i as int,
                )),
            decreases self.plans.len() - i,
        {
            let ghost sent = self@.advances(agent_id, extra_possible_iterations, world, i as int);
            let ghost next = self@.advances(agent_id, extra_possible_iterations, world, i + 1);
            let plan = &self.plans[i];
            assert(plan@ == self@.plans[i as int]);
            let mut advanced: bool = false;
            if !plan.finished_compute() {
                match &plan.plan_data {
                    PlanData::Pathfinding(path) => {
                        if path.iterations < ITERATION_CEILING {
                            let mut new_path = path.clone();
                            new_path.reiterate(extra_possible_iterations, world);
                            let new_plan = Plan {
                                plan_action_id: plan.plan_action_id,
                                plan_data: PlanData::Pathfinding(new_path),
                            };
                            let update = PlannerUpdate::UpdatePlan(new_plan);
                            assert(update@ == PlannerUpdateView::UpdatePlan(
                                PlannerView::advanced(plan@, extra_possible_iterations, world),
                            ));
                            send_planner(planner_out, agent_id, update);
                            assert(next == sent.push(planner_event(agent_id, update@)));
                            assert((before + (released + sent)).push(
                                planner_event(agent_id, update@),
                            ) =~= before + (released + next));
                            advanced = true;
                        }
                    },
                }
            }
            if !advanced {
                assert(!PlannerView::may_advance(plan@));
                assert(next == sent);
            }
            i += 1;
        }
    }
}

} // verus!
