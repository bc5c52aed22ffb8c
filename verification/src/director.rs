//! The authority that sets an agent's goals: a player, nobody, or a language
//! model.

use vstd::prelude::*;
use crate::actions::{Action, ActionResult};
use crate::entity::CoolGameEngineTID;
use crate::llm_director::{
    DirectorAlert,
    DirectorAlertView,
    LLMDirector,
    LLMDirectorView,
    alerts_view,
};
use crate::proxima_link::{HordeProximaAIResponse, HordeProximaAIResponseView};

verus! {

/// Who directs an agent.
pub enum DirectorKind {
    /// A player; the director does nothing by itself.
    Player,
    /// A language model.
    LLM(LLMDirector),
    /// Nobody.
    Nothing,
}

/// A `DirectorKind`, as plain values.
pub enum DirectorKindView {
    Player,
    LLM(LLMDirectorView),
    Nothing,
}

impl View for DirectorKind {
    type V = DirectorKindView;

    open spec fn view(&self) -> DirectorKindView {
        match self {
            DirectorKind::Player => DirectorKindView::Player,
            DirectorKind::LLM(director) => DirectorKindView::LLM(director@),
            DirectorKind::Nothing => DirectorKindView::Nothing,
        }
    }
}

impl Clone for DirectorKind {
    fn clone(&self) -> (copy: Self)
        ensures
            copy@ == self@,
    {
        match self {
            DirectorKind::Player => DirectorKind::Player,
            DirectorKind::LLM(director) => DirectorKind::LLM(director.clone()),
            DirectorKind::Nothing => DirectorKind::Nothing,
        }
    }
}

/// The goal authority of one agent.
pub struct Director {
    /// The director's actions that have ended since the last tick.
    pub finished_actions: Vec<(Action, ActionResult)>,
    pub name: String,
    /// What the director has been told since the last tick.
    pub alerts: Vec<DirectorAlert>,
    pub kind: DirectorKind,
}

/// A `Director`, as plain values.
pub struct DirectorView {
    pub finished_actions: Seq<(Action, ActionResult)>,
    pub name: Seq<char>,
    pub alerts: Seq<DirectorAlertView>,
    pub kind: DirectorKindView,
}

impl View for Director {
    type V = DirectorView;

    open spec fn view(&self) -> DirectorView {
        DirectorView {
            finished_actions: self.finished_actions@,
            name: self.name@,
            alerts: alerts_view(self.alerts@),
            kind: self.kind@,
        }
    }
}

/// What a director starts from.
pub struct StaticDirector {
    pub kind: DirectorKind,
}

/// A change to an agent's director.
pub enum DirectorUpdate {
    FlushFinished,
    NotifyFinished((Action, ActionResult)),
    UpdateKind(DirectorKind),
    /// Hands an answer of the service to a language-model director.
    LLMAddToResponses(HordeProximaAIResponse),
    SendAlert(DirectorAlert),
    FlushAlerts,
}

/// A `DirectorUpdate`, as plain values.
pub enum DirectorUpdateView {
    FlushFinished,
    NotifyFinished((Action, ActionResult)),
    UpdateKind(DirectorKindView),
    LLMAddToResponses(HordeProximaAIResponseView),
    SendAlert(DirectorAlertView),
    FlushAlerts,
}

impl View for DirectorUpdate {
    type V = DirectorUpdateView;

    open spec fn view(&self) -> DirectorUpdateView {
        match self {
            DirectorUpdate::FlushFinished => DirectorUpdateView::FlushFinished,
            DirectorUpdate::NotifyFinished(finished) => DirectorUpdateView::NotifyFinished(
                *finished,
            ),
            DirectorUpdate::UpdateKind(kind) => DirectorUpdateView::UpdateKind(kind@),
            DirectorUpdate::LLMAddToResponses(response) => DirectorUpdateView::LLMAddToResponses(
                response@,
            ),
            DirectorUpdate::SendAlert(alert) => DirectorUpdateView::SendAlert(alert@),
            DirectorUpdate::FlushAlerts => DirectorUpdateView::FlushAlerts,
        }
    }
}

/// A change to the director of the agent `id`.
pub struct DirectorEvent {
    pub id: usize,
    pub source: Option<CoolGameEngineTID>,
    pub update: DirectorUpdate,
}

/// A `DirectorEvent`, as plain values.
pub struct DirectorEventView {
    pub id: usize,
    pub source: Option<CoolGameEngineTID>,
    pub update: DirectorUpdateView,
}

impl View for DirectorEvent {
    type V = DirectorEventView;

    open spec fn view(&self) -> DirectorEventView {
        DirectorEventView { id: self.id, source: self.source, update: self.update@ }
    }
}

/// A list of director events, as plain values.
pub open spec fn director_events(events: Seq<DirectorEvent>) -> Seq<DirectorEventView> {
    events.map_values(|event: DirectorEvent| event@)
}

impl DirectorView {
    /// The director after `update` has been applied to it.
    pub open spec fn updated(self, update: DirectorUpdateView) -> DirectorView {
        match update {
            DirectorUpdateView::FlushFinished => DirectorView {
                finished_actions: Seq::empty(),
                ..self
            },
            DirectorUpdateView::UpdateKind(kind) => DirectorView { kind, ..self },
            DirectorUpdateView::NotifyFinished(finished) => DirectorView {
                finished_actions: self.finished_actions.push(finished),
                ..self
            },
            DirectorUpdateView::LLMAddToResponses(response) => match self.kind {
                DirectorKindView::LLM(director) => DirectorView {
                    kind: DirectorKindView::LLM(
                        LLMDirectorView { responses: director.responses.push(response), ..director },
                    ),
                    ..self
                },
                _ => self,
            },
            DirectorUpdateView::SendAlert(alert) => DirectorView {
                alerts: self.alerts.push(alert),
                ..self
            },
            DirectorUpdateView::FlushAlerts => DirectorView { alerts: Seq::empty(), ..self },
        }
    }
}

impl DirectorEvent {
    pub fn new(id: usize, source: Option<CoolGameEngineTID>, update: DirectorUpdate) -> (event: Self)
        ensures
            event.id == id,
            event.source == source,
            event.update == update,
    {
        Self { id, source, update }
    }

    pub fn get_id(&self) -> (id: usize)
        ensures
            id == self.id,
    {
        self.id
    }

    pub fn get_source(&self) -> (source: Option<CoolGameEngineTID>)
        ensures
            source == self.source,
    {
        self.source
    }

    /// Changes the director of the agent the event names, and no other.
    pub fn apply_to_component(self, components: &mut Vec<Director>)
        requires
            self.id < old(components).len(),
        ensures
            final(components).len() == old(components).len(),
            final(components)[self.id as int]@ == old(components)[self.id as int]@.updated(
                self.update@,
            ),
            forall|i: int|
                0 <= i < old(components).len() && i != self.id ==> final(components)[i] == old(
                    components,
                )[i],
    {
        let id = self.id;
        let ghost before = components[id as int]@;
        match self.update {
            DirectorUpdate::FlushFinished => {
                components[id].finished_actions.clear();
            },
            DirectorUpdate::UpdateKind(new_kind) => {
                components[id].kind = new_kind;
            },
            DirectorUpdate::NotifyFinished(finished) => {
                components[id].finished_actions.push(finished);
            },
            DirectorUpdate::LLMAddToResponses(response) => {
                match &mut components[id].kind {
                    DirectorKind::LLM(director) => {
                        director.responses.push(response);
                    },
                    _ => {},
                }
                proof {
                    match before.kind {
                        DirectorKindView::LLM(director) => {
                            assert(components[id as int]@.kind->LLM_0.responses
                                =~= director.responses.push(response@));
                        },
                        _ => {},
                    }
                }
            },
            DirectorUpdate::SendAlert(alert) => {
                components[id].alerts.push(alert);
                assert(components[id as int]@.alerts =~= before.alerts.push(alert@));
            },
            DirectorUpdate::FlushAlerts => {
                components[id].alerts.clear();
                assert(components[id as int]@.alerts =~= Seq::empty());
            },
        }
    }
}

impl Director {
    /// A director of the given kind and name that has been told nothing.
    pub fn new(kind: DirectorKind, name: String) -> (director: Self)
        ensures
            director@ == (DirectorView {
                finished_actions: Seq::empty(),
                name: name@,
                alerts: Seq::empty(),
                kind: kind@,
            }),
    {
        let director = Self {
            finished_actions: Vec::with_capacity(4),
            kind,
            name,
            alerts: Vec::with_capacity(3),
        };
        assert(director@.alerts =~= Seq::empty());
        director
    }

    /// A director of the given kind under a name drawn from `names`: one of
    /// them, whichever the draw gives.
    pub fn new_with_random_name(kind: DirectorKind, names: &Vec<String>) -> (director: Self)
        requires
            names.len() > 0,
        ensures
            director@.finished_actions.len() == 0,
            director@.alerts.len() == 0,
            director@.kind == kind@,
            exists|i: int| 0 <= i < names.len() && names[i]@ == director@.name,
    {
        match random_name(names) {
            Some(name) => Self::new(kind, name),
            None => Self::new(kind, names[0].clone()),
        }
    }

    /// The director that an agent starts with: of the kind it is given, and
    /// without a name of its own yet.
    pub fn from_static(static_comp: &StaticDirector) -> (director: Self)
        ensures
            director@ == (DirectorView {
                finished_actions: Seq::empty(),
                name: "Placeholder"@,
                alerts: Seq::empty(),
                kind: static_comp.kind@,
            }),
    {
        let director = Self {
            finished_actions: Vec::new(),
            kind: static_comp.kind.clone(),
            name: String::from_str("Placeholder"),
            alerts: Vec::new(),
        };
        assert(director@.alerts =~= Seq::empty());
        director
    }

    /// The name that the agent goes by.
    pub fn get_name(&self) -> (name: &String)
        ensures
            name@ == self@.name,
    {
        &self.name
    }
}

/// `name` is one of `names`, or nothing where there are none.
pub open spec fn drawn_from(name: Option<String>, names: Seq<String>) -> bool {
    match name {
        Some(drawn) => exists|i: int| 0 <= i < names.len() && names[i]@ == drawn@,
        None => names.len() == 0,
    }
}

/// Calls `fastrand::choice` on the names. It hands out one of the items it
/// is given, and nothing where it is given none; which item comes is left
/// open.
#[verifier::external_body]
fn random_name(names: &Vec<String>) -> (name: Option<String>)
    ensures
        drawn_from(name, names@),
{
    fastrand::choice(names.iter()).cloned()
}

} // verus!
