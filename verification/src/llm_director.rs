//! The director that lets a language model set an agent's goals: what it
//! remembers, what it has asked, and what it makes of the answers.

use vstd::prelude::*;
use crate::entity::CoolGameEngineTID;
use crate::geometry::WorldVoxelPos;
use crate::proxima_link::{HordeProximaAIResponse, HordeProximaAIResponseView};
use crate::text::{clone_strings, strings_view};

verus! {

/// Something that a director is told from outside.
pub enum DirectorAlert {
    /// Nothing has happened for a while.
    Periodic,
    /// The agent of this id has said this.
    HeardWords(usize, String),
    /// A move to this voxel has ended; `true` where it got there.
    FinishedMoveTo(WorldVoxelPos, bool),
}

/// A `DirectorAlert`, as plain values.
pub enum DirectorAlertView {
    Periodic,
    HeardWords(usize, Seq<char>),
    FinishedMoveTo(WorldVoxelPos, bool),
}

impl View for DirectorAlert {
    type V = DirectorAlertView;

    open spec fn view(&self) -> DirectorAlertView {
        match self {
            DirectorAlert::Periodic => DirectorAlertView::Periodic,
            DirectorAlert::HeardWords(speaker, text) => DirectorAlertView::HeardWords(
                *speaker,
                text@,
            ),
            DirectorAlert::FinishedMoveTo(to, worked) => DirectorAlertView::FinishedMoveTo(
                *to,
                *worked,
            ),
        }
    }
}

impl Clone for DirectorAlert {
    fn clone(&self) -> (copy: Self)
        ensures
            copy@ == self@,
    {
        match self {
            DirectorAlert::Periodic => DirectorAlert::Periodic,
            DirectorAlert::HeardWords(speaker, text) => DirectorAlert::HeardWords(
                *speaker,
                text.clone(),
            ),
            DirectorAlert::FinishedMoveTo(to, worked) => DirectorAlert::FinishedMoveTo(
                *to,
                *worked,
            ),
        }
    }
}

/// A list of alerts, as plain values.
pub open spec fn alerts_view(alerts: Seq<DirectorAlert>) -> Seq<DirectorAlertView> {
    alerts.map_values(|alert: DirectorAlert| alert@)
}

/// Copies a list of alerts.
pub fn clone_alerts(alerts: &Vec<DirectorAlert>) -> (copy: Vec<DirectorAlert>)
    ensures
        alerts_view(copy@) == alerts_view(alerts@),
{
    let mut copy: Vec<DirectorAlert> = Vec::with_capacity(alerts.len());
    let mut i: usize = 0;
    while i < alerts.len()
        invariant
            i <= alerts.len(),
            copy.len() == i,
            forall|j: int| 0 <= j < i ==> (#[trigger] copy[j])@ == alerts[j]@,
        decreases alerts.len() - i,
    {
        copy.push(alerts[i].clone());
        i += 1;
    }
    assert(alerts_view(copy@) =~= alerts_view(alerts@));
    copy
}

/// A request that the service has not answered yet: why it was made and
/// what feedback went with it.
pub struct InFlightPrompt {
    pub request_id: usize,
    pub entity_id: CoolGameEngineTID,
    pub reasons: Vec<DirectorAlert>,
    pub feedback: Vec<String>,
}

/// An `InFlightPrompt`, as plain values.
pub struct InFlightPromptView {
    pub request_id: usize,
    pub entity_id: CoolGameEngineTID,
    pub reasons: Seq<DirectorAlertView>,
    pub feedback: Seq<Seq<char>>,
}

impl View for InFlightPrompt {
    type V = InFlightPromptView;

    open spec fn view(&self) -> InFlightPromptView {
        InFlightPromptView {
            request_id: self.request_id,
            entity_id: self.entity_id,
            reasons: alerts_view(self.reasons@),
            feedback: strings_view(self.feedback@),
        }
    }
}

impl Clone for InFlightPrompt {
    fn clone(&self) -> (copy: Self)
        ensures
            copy@ == self@,
    {
        InFlightPrompt {
            request_id: self.request_id,
            entity_id: self.entity_id,
            reasons: clone_alerts(&self.reasons),
            feedback: clone_strings(&self.feedback),
        }
    }
}

/// A list of requests in flight, as plain values.
pub open spec fn prompts_view(prompts: Seq<InFlightPrompt>) -> Seq<InFlightPromptView> {
    prompts.map_values(|prompt: InFlightPrompt| prompt@)
}

/// A list of answers, as plain values.
pub open spec fn responses_view(responses: Seq<HordeProximaAIResponse>) -> Seq<
    HordeProximaAIResponseView,
> {
    responses.map_values(|response: HordeProximaAIResponse| response@)
}

/// What a language-model director keeps between ticks.
pub struct LLMDirector {
    /// The requests not answered yet, in the order they were made.
    pub in_flight_prompts: Vec<InFlightPrompt>,
    /// The id that the next request will carry.
    pub latest_id: usize,
    /// The answers that have come in since the last tick.
    pub responses: Vec<HordeProximaAIResponse>,
    pub goals: Vec<String>,
    pub memory: Vec<String>,
    pub feedback: Vec<String>,
    /// Tick of the last request.
    pub last_prompt_tick: usize,
}

/// An `LLMDirector`, as plain values.
pub struct LLMDirectorView {
    pub in_flight_prompts: Seq<InFlightPromptView>,
    pub latest_id: usize,
    pub responses: Seq<HordeProximaAIResponseView>,
    pub goals: Seq<Seq<char>>,
    pub memory: Seq<Seq<char>>,
    pub feedback: Seq<Seq<char>>,
    pub last_prompt_tick: usize,
}

impl View for LLMDirector {
    type V = LLMDirectorView;

    open spec fn view(&self) -> LLMDirectorView {
        LLMDirectorView {
            in_flight_prompts: prompts_view(self.in_flight_prompts@),
            latest_id: self.latest_id,
            responses: responses_view(self.responses@),
            goals: strings_view(self.goals@),
            memory: strings_view(self.memory@),
            feedback: strings_view(self.feedback@),
            last_prompt_tick: self.last_prompt_tick,
        }
    }
}

impl Clone for LLMDirector {
    fn clone(&self) -> (copy: Self)
        ensures
            copy@ == self@,
    {
        let mut in_flight_prompts: Vec<InFlightPrompt> = Vec::with_capacity(
            self.in_flight_prompts.len(),
        );
        let mut i: usize = 0;
        while i < self.in_flight_prompts.len()
            invariant
                i <= self.in_flight_prompts.len(),
                in_flight_prompts.len() == i,
                forall|j: int|
                    0 <= j < i ==> (#[trigger] in_flight_prompts[j])@ == self.in_flight_prompts[j]@,
            decreases self.in_flight_prompts.len() - i,
        {
            in_flight_prompts.push(self.in_flight_prompts[i].clone());
            i += 1;
        }
        assert(prompts_view(in_flight_prompts@) =~= prompts_view(self.in_flight_prompts@));
        let mut responses: Vec<HordeProximaAIResponse> = Vec::with_capacity(self.responses.len());
        let mut k: usize = 0;
        while k < self.responses.len()
            invariant
                k <= self.responses.len(),
                responses.len() == k,
                forall|j: int| 0 <= j < k ==> (#[trigger] responses[j])@ == self.responses[j]@,
            decreases self.responses.len() - k,
        {
            responses.push(self.responses[k].clone());
            k += 1;
        }
        assert(responses_view(responses@) =~= responses_view(self.responses@));
        LLMDirector {
            in_flight_prompts,
            latest_id: self.latest_id,
            responses,
            goals: clone_strings(&self.goals),
            memory: clone_strings(&self.memory),
            feedback: clone_strings(&self.feedback),
            last_prompt_tick: self.last_prompt_tick,
        }
    }
}

impl LLMDirector {
    /// A director that has asked nothing yet and pursues `goals`.
    pub fn new_with_goals(goals: Vec<String>) -> (director: Self)
        ensures
            director@ == (LLMDirectorView {
                in_flight_prompts: Seq::empty(),
                latest_id: 0,
                responses: Seq::empty(),
                goals: strings_view(goals@),
                memory: Seq::empty(),
                feedback: Seq::empty(),
                last_prompt_tick: 0,
            }),
    {
        let director = Self {
            in_flight_prompts: Vec::with_capacity(4),
            latest_id: 0,
            responses: Vec::new(),
            goals,
            last_prompt_tick: 0,
            memory: Vec::with_capacity(4),
            feedback: Vec::new(),
        };
        assert(director@.in_flight_prompts =~= Seq::empty());
        assert(director@.responses =~= Seq::empty());
        assert(director@.memory =~= Seq::empty());
        assert(director@.feedback =~= Seq::empty());
        director
    }
}

} // verus!
