//! What goes to the language-model service and what comes back.

use vstd::prelude::*;
use crate::director::{DirectorEventView, DirectorUpdate, DirectorUpdateView};
use crate::entity::CoolGameEngineTID;
use crate::game_entity::Tunnels;
use crate::text::strings_view;

verus! {

/// Who speaks in a block of context.
#[derive(Clone, Copy, PartialEq, Eq, Structural, Debug)]
pub enum ContextPosition {
    System,
    User,
}

/// One block of the context of a request.
pub struct ContextPart {
    pub text: String,
    pub position: ContextPosition,
}

/// A `ContextPart`, as plain values.
pub struct ContextPartView {
    pub text: Seq<char>,
    pub position: ContextPosition,
}

impl View for ContextPart {
    type V = ContextPartView;

    open spec fn view(&self) -> ContextPartView {
        ContextPartView { text: self.text@, position: self.position }
    }
}

/// How the service is to answer.
#[derive(Clone, Copy, PartialEq, Eq, Structural, Debug)]
pub struct ChatSettings {
    pub response_token_limit: u32,
    pub temperature: u32,
}

/// What is asked of the service.
pub enum EndpointRequestVariant {
    RespondToFullPrompt { whole_context: Vec<ContextPart>, streaming: bool, chat_settings: ChatSettings },
}

/// An `EndpointRequestVariant`, as plain values.
pub enum EndpointRequestVariantView {
    RespondToFullPrompt {
        whole_context: Seq<ContextPartView>,
        streaming: bool,
        chat_settings: ChatSettings,
    },
}

impl View for EndpointRequestVariant {
    type V = EndpointRequestVariantView;

    open spec fn view(&self) -> EndpointRequestVariantView {
        match self {
            EndpointRequestVariant::RespondToFullPrompt {
                whole_context,
                streaming,
                chat_settings,
            } => EndpointRequestVariantView::RespondToFullPrompt {
                whole_context: whole_context@.map_values(|part: ContextPart| part@),
                streaming: *streaming,
                chat_settings: *chat_settings,
            },
        }
    }
}

/// A request of the entity `entity_id` to the service.
pub struct HordeProximaAIRequest {
    pub request_id: usize,
    pub entity_id: CoolGameEngineTID,
    pub request: EndpointRequestVariant,
}

/// A `HordeProximaAIRequest`, as plain values.
pub struct HordeProximaAIRequestView {
    pub request_id: usize,
    pub entity_id: CoolGameEngineTID,
    pub request: EndpointRequestVariantView,
}

impl View for HordeProximaAIRequest {
    type V = HordeProximaAIRequestView;

    open spec fn view(&self) -> HordeProximaAIRequestView {
        HordeProximaAIRequestView {
            request_id: self.request_id,
            entity_id: self.entity_id,
            request: self.request@,
        }
    }
}

impl HordeProximaAIRequest {
    pub fn new(request_id: usize, entity_id: CoolGameEngineTID, request: EndpointRequestVariant) -> (made:
        Self)
        ensures
            made.request_id == request_id,
            made.entity_id == entity_id,
            made.request == request,
    {
        Self { request_id, entity_id, request }
    }
}

/// The answer of the service to the request `request_id`: its text, or
/// nothing where the service failed.
pub struct HordeProximaAIResponse {
    pub request_id: usize,
    pub entity_id: CoolGameEngineTID,
    pub response: Option<String>,
}

/// A `HordeProximaAIResponse`, as plain values.
pub struct HordeProximaAIResponseView {
    pub request_id: usize,
    pub entity_id: CoolGameEngineTID,
    pub response: Option<Seq<char>>,
}

impl View for HordeProximaAIResponse {
    type V = HordeProximaAIResponseView;

    open spec fn view(&self) -> HordeProximaAIResponseView {
        HordeProximaAIResponseView {
            request_id: self.request_id,
            entity_id: self.entity_id,
            response: match self.response {
                Some(text) => Some(text@),
                None => None,
            },
        }
    }
}

impl Clone for HordeProximaAIResponse {
    fn clone(&self) -> (copy: Self)
        ensures
            copy@ == self@,
    {
        HordeProximaAIResponse {
            request_id: self.request_id,
            entity_id: self.entity_id,
            response: match &self.response {
                Some(text) => Some(text.clone()),
                None => None,
            },
        }
    }
}

/// The first `k` of `parts`, one behind the other.
pub open spec fn joined(parts: Seq<Seq<char>>, k: int) -> Seq<char>
    decreases k,
{
    if k <= 0 {
        Seq::empty()
    } else {
        joined(parts, k - 1) + parts[k - 1]
    }
}

/// The text of an answer, as the transport hands it over: the parts of a
/// reply in blocks, one behind the other. Any failure of the transport, and
/// any reply that is not in blocks, is an answer without text.
pub fn response_text(reply: Result<Option<Vec<String>>, ()>) -> (text: Option<String>)
    ensures
        match reply {
            Ok(Some(parts)) => text is Some && text->0@ == joined(
                strings_view(parts@),
                parts.len() as int,
            ),
            _ => text is None,
        },
{
    match reply {
        Ok(Some(parts)) => {
            let mut text = String::new();
            let mut k: usize = 0;
            while k < parts.len()
                invariant
                    k <= parts.len(),
                    text@ == joined(strings_view(parts@), k as int),
                decreases parts.len() - k,
            {
                assert(strings_view(parts@)[k as int] == parts[k as int]@);
                text.append(parts[k].as_str());
                k += 1;
            }
            Some(text)
        },
        _ => None,
    }
}

impl HordeProximaAIResponse {
    /// The event that hands an answer to the director of the entity `id`.
    pub open spec fn delivery(id: usize, response: HordeProximaAIResponseView) -> DirectorEventView {
        DirectorEventView {
            id,
            source: None,
            update: DirectorUpdateView::LLMAddToResponses(response),
        }
    }

    /// Hands the answer to the director of the entity that asked: through
    /// the tunnels of the first kind of entity or through those of the
    /// second.
    pub fn apply(self, first_ent: &mut Tunnels, second_ent: &mut Tunnels)
        ensures
            match self.entity_id {
                CoolGameEngineTID::Entity1(id) => final(first_ent)@ == old(first_ent)@.with_director(
                    Self::delivery(id, self@),
                ) && final(second_ent)@ == old(second_ent)@,
                CoolGameEngineTID::Entity2(id) => final(second_ent)@ == old(
                    second_ent,
                )@.with_director(Self::delivery(id, self@)) && final(first_ent)@ == old(first_ent)@,
            },
    {
        match self.entity_id {
            CoolGameEngineTID::Entity1(id) => {
                first_ent.send_director(id, None, DirectorUpdate::LLMAddToResponses(self));
            },
            CoolGameEngineTID::Entity2(id) => {
                second_ent.send_director(id, None, DirectorUpdate::LLMAddToResponses(self));
            },
        }
    }
}

} // verus!
