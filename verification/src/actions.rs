//! What an agent does: single actions with their timers, and the queue that
//! holds them.

use vstd::prelude::*;
use crate::entity::CoolGameEngineTID;
use crate::geometry::{Vec3Milli, WorldVoxelPos};
use crate::voxel::CoolVoxel;

verus! {

/// Who put an action into the queue.
#[derive(Clone, Copy, PartialEq, Eq, Structural, Debug)]
pub enum ActionSource {
    Director,
    Planner,
}

/// How long an action may take.
#[derive(Clone, Copy, PartialEq, Eq, Structural, Debug)]
pub enum ActionTimer {
    /// As long as it needs.
    Infinite,
    /// So many ticks from its start.
    Delay(usize),
    /// Until this tick.
    Deadline(usize),
}

impl ActionTimer {
    /// Ticks gone by at `current_tick` since `started`; none before the
    /// start.
    pub open spec fn elapsed(started: usize, current_tick: usize) -> int {
        if current_tick >= started {
            current_tick - started
        } else {
            0
        }
    }

    /// The timer has run out at `current_tick` for an action started at
    /// `started`.
    pub open spec fn timed_out_spec(&self, started: usize, current_tick: usize) -> bool {
        match self {
            ActionTimer::Infinite => false,
            ActionTimer::Delay(delay) => Self::elapsed(started, current_tick) >= *delay,
            ActionTimer::Deadline(deadline) => current_tick >= *deadline,
        }
    }

    /// Whether the timer has run out at `current_tick` for an action started
    /// at `started`.
    pub fn timed_out(&self, started: usize, current_tick: usize) -> (out: bool)
        ensures
            out == self.timed_out_spec(started, current_tick),
    {
        match self {
            ActionTimer::Infinite => false,
            ActionTimer::Delay(delay) => current_tick.saturating_sub(started) >= *delay,
            ActionTimer::Deadline(deadline) => current_tick >= *deadline,
        }
    }
}

/// How one tick of an action ended.
#[derive(Clone, Copy, PartialEq, Eq, Structural, Debug)]
pub enum ActionResult {
    Done,
    InProgress,
    FailedTimer,
    Error(ActionError),
}

/// Why an action could not be done.
#[derive(Clone, Copy, PartialEq, Eq, Structural, Debug)]
pub enum ActionError {
    ImpossibleAction,
    StartedAfterDeadline,
}

/// What an action does. Positions and tolerances are in thousandths of a
/// voxel, directions in thousandths of the agent's ground speed.
#[derive(Clone, Copy, PartialEq, Eq, Structural, Debug)]
pub enum ActionKind {
    MoveInDirection(Vec3Milli),
    Jump,
    /// Target and tolerance.
    PathToPosition(Vec3Milli, i64),
    /// Target and tolerance.
    MoveTowards(Vec3Milli, i64),
    /// Target, speed tolerance and position tolerance.
    StopAt(Vec3Milli, i64, i64),
    ChangeVoxel(WorldVoxelPos, CoolVoxel),
}

/// One unit of behaviour in an agent's queue.
#[derive(Clone, Copy, PartialEq, Eq, Structural, Debug)]
pub struct Action {
    pub id: usize,
    /// Tick at which the action was started.
    pub started_at: usize,
    pub timer: ActionTimer,
    pub kind: ActionKind,
    pub source: ActionSource,
}

impl Action {
    pub fn new(
        id: usize,
        started_at: usize,
        timer: ActionTimer,
        kind: ActionKind,
        source: ActionSource,
    ) -> (action: Self)
        ensures
            action == (Action { id, started_at, timer, kind, source }),
    {
        Self { id, started_at, timer, kind, source }
    }

    /// What the action does.
    pub fn get_kind(&self) -> (kind: &ActionKind)
        ensures
            *kind == self.kind,
    {
        &self.kind
    }

    pub fn get_id(&self) -> (id: usize)
        ensures
            id == self.id,
    {
        self.id
    }

    /// Whether the action has to be broken into steps by a route search.
    pub fn needs_planning(&self) -> (needed: bool)
        ensures
            needed == (self.kind is PathToPosition),
    {
        match &self.kind {
            ActionKind::PathToPosition(_, _) => true,
            _ => false,
        }
    }
}

/// Source of the ids of an agent's actions, in rising order.
#[derive(Clone, Copy, PartialEq, Eq, Structural, Debug)]
pub struct ActionCounter {
    pub latest_id: usize,
}

impl ActionCounter {
    pub fn new() -> (counter: Self)
        ensures
            counter.latest_id == 0,
    {
        Self { latest_id: 0 }
    }

    /// The counter after it has handed out `count` ids. At the top of the
    /// range it stays where it is.
    pub open spec fn advanced(self, count: nat) -> ActionCounter {
        if self.latest_id + count > usize::MAX {
            ActionCounter { latest_id: usize::MAX }
        } else {
            ActionCounter { latest_id: (self.latest_id + count) as usize }
        }
    }

    /// Hands out the next id.
    pub fn get_next_id(&mut self) -> (id: usize)
        ensures
            id == old(self).latest_id,
            *final(self) == old(self).advanced(1),
    {
        let id = self.latest_id;
        self.latest_id = self.latest_id.saturating_add(1);
        id
    }
}

/// A change to an agent's queue.
pub enum ActionsUpdate {
    UpdateCounter(ActionCounter),
    AddAction(Action),
    InsertActionAtStart(Action),
    UpdateAllActions(Vec<Action>),
    /// Takes out the first action with this id.
    RemoveAction(usize),
}

/// An `ActionsUpdate`, as plain values.
pub enum ActionsUpdateView {
    UpdateCounter(ActionCounter),
    AddAction(Action),
    InsertActionAtStart(Action),
    UpdateAllActions(Seq<Action>),
    RemoveAction(usize),
}

impl View for ActionsUpdate {
    type V = ActionsUpdateView;

    open spec fn view(&self) -> ActionsUpdateView {
        match self {
            ActionsUpdate::UpdateCounter(counter) => ActionsUpdateView::UpdateCounter(*counter),
            ActionsUpdate::AddAction(action) => ActionsUpdateView::AddAction(*action),
            ActionsUpdate::InsertActionAtStart(action) => ActionsUpdateView::InsertActionAtStart(
                *action,
            ),
            ActionsUpdate::UpdateAllActions(actions) => ActionsUpdateView::UpdateAllActions(
                actions@,
            ),
            ActionsUpdate::RemoveAction(id) => ActionsUpdateView::RemoveAction(*id),
        }
    }
}

/// A change to the queue of the agent `id`.
pub struct ActionsEvent {
    pub id: usize,
    pub source: Option<CoolGameEngineTID>,
    pub variant: ActionsUpdate,
}

/// An `ActionsEvent`, as plain values.
pub struct ActionsEventView {
    pub id: usize,
    pub source: Option<CoolGameEngineTID>,
    pub variant: ActionsUpdateView,
}

impl View for ActionsEvent {
    type V = ActionsEventView;

    open spec fn view(&self) -> ActionsEventView {
        ActionsEventView { id: self.id, source: self.source, variant: self.variant@ }
    }
}

/// The actions an agent has still to do, first things first, and the counter
/// that numbers them.
pub struct Actions {
    pub action_counter: ActionCounter,
    pub all_actions: Vec<Action>,
}

/// An agent's queue, as plain values.
pub struct ActionsView {
    pub action_counter: ActionCounter,
    pub all_actions: Seq<Action>,
}

impl View for Actions {
    type V = ActionsView;

    open spec fn view(&self) -> ActionsView {
        ActionsView { action_counter: self.action_counter, all_actions: self.all_actions@ }
    }
}

/// The actions that an agent starts with.
pub struct StaticGameActions {
    pub base_actions: Vec<Action>,
}

/// Place of the first action with the id `id`, from `from` on.
pub open spec fn find_action(actions: Seq<Action>, id: usize, from: int) -> Option<int>
    decreases actions.len() - from,
{
    if from < 0 || from >= actions.len() {
        None
    } else if actions[from].id == id {
        Some(from)
    } else {
        find_action(actions, id, from + 1)
    }
}

impl ActionsView {
    /// The queue after `update` has been applied to it.
    pub open spec fn updated(self, update: ActionsUpdateView) -> ActionsView {
        match update {
            ActionsUpdateView::UpdateCounter(counter) => ActionsView {
                action_counter: counter,
                ..self
            },
            ActionsUpdateView::AddAction(action) => ActionsView {
                all_actions: self.all_actions.push(action),
                ..self
            },
            ActionsUpdateView::InsertActionAtStart(action) => ActionsView {
                all_actions: self.all_actions.insert(0, action),
                ..self
            },
            ActionsUpdateView::UpdateAllActions(actions) => ActionsView {
                all_actions: actions,
                ..self
            },
            ActionsUpdateView::RemoveAction(id) => match find_action(self.all_actions, id, 0) {
                Some(i) => ActionsView { all_actions: self.all_actions.remove(i), ..self },
                None => self,
            },
        }
    }
}

/// Copies a list of actions.
pub fn clone_actions(actions: &Vec<Action>) -> (copy: Vec<Action>)
    ensures
        copy@ == actions@,
{
    let mut copy: Vec<Action> = Vec::with_capacity(actions.len());
    let mut i: usize = 0;
    while i < actions.len()
        invariant
            i <= actions.len(),
            copy@ == actions@.subrange(0, i as int),
        decreases actions.len() - i,
    {
        copy.push(actions[i]);
        assert(actions@.subrange(0, i + 1) =~= actions@.subrange(0, i as int).push(actions[i as int]));
        i += 1;
    }
    assert(actions@.subrange(0, actions.len() as int) =~= actions@);
    copy
}

impl Actions {
    /// The counter that numbers the actions of the queue.
    pub fn get_counter(&self) -> (counter: &ActionCounter)
        ensures
            *counter == self.action_counter,
    {
        &self.action_counter
    }

    /// An empty queue with a counter at zero.
    pub fn new() -> (actions: Self)
        ensures
            actions@ == (ActionsView {
                action_counter: ActionCounter { latest_id: 0 },
                all_actions: Seq::empty(),
            }),
    {
        Self { action_counter: ActionCounter::new(), all_actions: Vec::with_capacity(8) }
    }

    /// The queue an agent starts with.
    pub fn from_static(static_comp: &StaticGameActions) -> (actions: Self)
        ensures
            actions@ == (ActionsView {
                action_counter: ActionCounter { latest_id: 0 },
                all_actions: static_comp.base_actions@,
            }),
    {
        Self {
            action_counter: ActionCounter::new(),
            all_actions: clone_actions(&static_comp.base_actions),
        }
    }

    /// Place of the first action with the id `action_id`.
    pub fn find_action(&self, action_id: usize) -> (place: Option<usize>)
        ensures
            match place {
                Some(i) => find_action(self@.all_actions, action_id, 0) == Some(i as int) && i
                    < self.all_actions.len(),
                None => find_action(self@.all_actions, action_id, 0) is None,
            },
    {
        let mut i: usize = 0;
        while i < self.all_actions.len()
            invariant
                i <= self.all_actions.len(),
                find_action(self@.all_actions, action_id, 0) == find_action(
                    self@.all_actions,
                    action_id,
                    i as int,
                ),
            decreases self.all_actions.len() - i,
        {
            if self.all_actions[i].id == action_id {
                return Some(i);
            }
            i += 1;
        }
        None
    }
}

impl ActionsEvent {
    pub fn new(id: usize, source: Option<CoolGameEngineTID>, variant: ActionsUpdate) -> (event: Self)
        ensures
            event.id == id,
            event.source == source,
            event.variant == variant,
    {
        Self { id, source, variant }
    }

    pub fn get_id(&self) -> (id: usize)
        ensures
            id == self.id,
    {
        self.id
    }

    pub fn get_source(&self) -> (source: Option<CoolGameEngineTID>)
        ensures
            source == self.source,
    {
        self.source
    }

    /// Changes the queue of the agent the event names, and no other.
    pub fn apply_to_component(self, components: &mut Vec<Actions>)
        requires
            self.id < old(components).len(),
        ensures
            final(components).len() == old(components).len(),
            final(components)[self.id as int]@ == old(components)[self.id as int]@.updated(
                self.variant@,
            ),
            forall|i: int|
                0 <= i < old(components).len() && i != self.id ==> final(components)[i] == old(
                    components,
                )[i],
    {
        let id = self.id;
        match self.variant {
            ActionsUpdate::UpdateCounter(counter) => {
                components[id].action_counter = counter;
            },
            ActionsUpdate::AddAction(action) => {
                components[id].all_actions.push(action);
            },
            ActionsUpdate::RemoveAction(action_id) => {
                match components[id].find_action(action_id) {
                    Some(i) => {
                        components[id].all_actions.remove(i);
                    },
                    None => {},
                }
            },
            ActionsUpdate::InsertActionAtStart(action) => {
                components[id].all_actions.insert(0, action);
            },
            ActionsUpdate::UpdateAllActions(new_actions) => {
                components[id].all_actions = new_actions;
            },
        }
    }
}

} // verus!
