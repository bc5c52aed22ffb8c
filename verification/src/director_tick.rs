//! What a director does each tick: before the planner it reads the answers
//! of the service, after it it tells the service what has happened.

use vstd::prelude::*;
use crate::actions::{Action, ActionCounter, ActionKind, ActionResult};
use crate::director::{
    Director,
    DirectorEventView,
    DirectorKind,
    DirectorKindView,
    DirectorUpdate,
    DirectorUpdateView,
    DirectorView,
};
use crate::game_entity::{GameEntityVecRead, Tunnels, TunnelsView};
use crate::game_map::GameMap;
use crate::geometry::{get_voxel_pos, voxel_pos_spec};
use crate::llm_commands::Parsing;
use crate::llm_director::{
    DirectorAlert,
    DirectorAlertView,
    InFlightPromptView,
    LLMDirector,
    LLMDirectorView,
    alerts_view,
    clone_alerts,
};
use crate::markup::MarkupNodeView;
use crate::text::{decimal, push_decimal, strings_view};
use crate::voxel::CoolVoxel;

verus! {

/// The event that asks the director of the agent `agent_id` for `update`.
pub open spec fn director_event(agent_id: usize, update: DirectorUpdateView) -> DirectorEventView {
    DirectorEventView { id: agent_id, source: None, update }
}

/// What a director is told about a move that has ended: that it got there,
/// or that it ran out of time; nothing about any other end.
pub open spec fn move_feedback(finished: (Action, ActionResult)) -> Option<Seq<char>> {
    match finished.0.kind {
        ActionKind::PathToPosition(position, _) => {
            let at = voxel_pos_spec(position);
            let named = "the GOTO "@ + decimal(at.x as int) + " "@ + decimal(at.y as int) + " "@
                + decimal(at.z as int);
            match finished.1 {
                ActionResult::FailedTimer => Some(named + " action failed to find a path"@),
                ActionResult::Done => Some(named + " action succeeded !"@),
                _ => None,
            }
        },
        _ => None,
    }
}

/// `feedback` with what the first `k` finished actions add to it.
pub open spec fn with_move_feedback(
    feedback: Seq<Seq<char>>,
    finished: Seq<(Action, ActionResult)>,
    k: int,
) -> Seq<Seq<char>>
    decreases k,
{
    if k <= 0 {
        feedback
    } else {
        match move_feedback(finished[k - 1]) {
            Some(told) => with_move_feedback(feedback, finished, k - 1).push(told),
            None => with_move_feedback(feedback, finished, k - 1),
        }
    }
}

/// The event puts a language-model director in place whose requests in
/// flight carry ids of their own, in order and below the next.
pub open spec fn replaces_in_order(event: DirectorEventView) -> bool {
    match event.update {
        DirectorUpdateView::UpdateKind(DirectorKindView::LLM(director)) => director.ids_in_order(),
        _ => false,
    }
}

/// The requests in flight with `alerts` and the ends of the `finished` moves
/// joined to the reasons and the feedback of the last of them. Every
/// request stays in flight under its id.
pub open spec fn folded(
    prompts: Seq<InFlightPromptView>,
    alerts: Seq<DirectorAlertView>,
    finished: Seq<(Action, ActionResult)>,
) -> Seq<InFlightPromptView> {
    if prompts.len() == 0 {
        prompts
    } else {
        prompts.update(
            prompts.len() - 1,
            InFlightPromptView {
                reasons: prompts.last().reasons + alerts,
                feedback: with_move_feedback(
                    prompts.last().feedback,
                    finished,
                    finished.len() as int,
                ),
                ..prompts.last()
            },
        )
    }
}

impl LLMDirectorView {
    /// The director and the tunnels after the director has taken note of
    /// `alerts`. While a request is in flight no other is made: the alerts
    /// and the ends of the `finished` moves join what is pending with the
    /// last request in flight. With none in flight, the alerts make a
    /// request of their own.
    pub open spec fn alerted(
        self,
        alerts: Seq<DirectorAlertView>,
        finished: Seq<(Action, ActionResult)>,
        agent_id: usize,
        first_ent: &GameEntityVecRead,
        world: &GameMap<CoolVoxel>,
        system_prompt: Seq<char>,
        tick: usize,
        tunnels: TunnelsView,
    ) -> (LLMDirectorView, TunnelsView) {
        if self.in_flight_prompts.len() > 0 {
            (
                LLMDirectorView {
                    in_flight_prompts: folded(self.in_flight_prompts, alerts, finished),
                    ..self
                },
                tunnels,
            )
        } else {
            (
                self.asked(agent_id, alerts, tick),
                tunnels.with_payload(self.payload(agent_id, alerts, first_ent, world, system_prompt)),
            )
        }
    }

    /// The director and the tunnels after the director has asked by itself,
    /// where it is due to.
    pub open spec fn prompted(
        self,
        agent_id: usize,
        first_ent: &GameEntityVecRead,
        world: &GameMap<CoolVoxel>,
        system_prompt: Seq<char>,
        tick: usize,
        tunnels: TunnelsView,
    ) -> (LLMDirectorView, TunnelsView) {
        if self.due(tick) {
            (
                self.asked(agent_id, seq![DirectorAlertView::Periodic], tick),
                tunnels.with_payload(
                    self.payload(
                        agent_id,
                        seq![DirectorAlertView::Periodic],
                        first_ent,
                        world,
                        system_prompt,
                    ),
                ),
            )
        } else {
            (self, tunnels)
        }
    }
}

impl DirectorView {
    /// The counter and the tunnels after the director's part before the
    /// planner, where the parser has made `parses[j]` of the text of the
    /// `j`-th answer: a language-model director reads the answers that have
    /// come in and asks to be replaced by what it has become; any other
    /// director does nothing.
    pub open spec fn ticked(
        self,
        parses: Seq<Option<Seq<MarkupNodeView>>>,
        agent_id: usize,
        first_ent: &GameEntityVecRead,
        world: &GameMap<CoolVoxel>,
        tick: usize,
        counter: ActionCounter,
        tunnels: TunnelsView,
    ) -> (ActionCounter, TunnelsView) {
        match self.kind {
            DirectorKindView::LLM(director) => {
                let read = Parsing::fresh(director, counter, tunnels).caught_up(
                    parses,
                    agent_id,
                    first_ent,
                    world,
                    tick,
                );
                (
                    read.counter,
                    read.tunnels.with_director(
                        director_event(
                            agent_id,
                            DirectorUpdateView::UpdateKind(DirectorKindView::LLM(read.director)),
                        ),
                    ),
                )
            },
            _ => (counter, tunnels),
        }
    }

    /// What a language-model director has become after its part behind the
    /// planner, and the tunnels with the request it has made, if any: it
    /// takes the ends of its moves as feedback; with alerts, it makes a
    /// request of them, or joins them to the request in flight; and it asks
    /// by itself if it is due to.
    pub open spec fn reported(
        self,
        director: LLMDirectorView,
        agent_id: usize,
        first_ent: &GameEntityVecRead,
        world: &GameMap<CoolVoxel>,
        system_prompt: Seq<char>,
        tick: usize,
        tunnels: TunnelsView,
    ) -> (LLMDirectorView, TunnelsView) {
        let told = LLMDirectorView {
            feedback: with_move_feedback(
                director.feedback,
                self.finished_actions,
                self.finished_actions.len() as int,
            ),
            ..director
        };
        let (alerted, sent) = if self.alerts.len() > 0 {
            told.alerted(
                self.alerts,
                self.finished_actions,
                agent_id,
                first_ent,
                world,
                system_prompt,
                tick,
                tunnels,
            )
        } else {
            (told, tunnels)
        };
        alerted.prompted(agent_id, first_ent, world, system_prompt, tick, sent)
    }

    /// The tunnels after the director's part behind the planner. A
    /// language-model director makes its requests, asks to be replaced by
    /// what it has become and to have its alerts flushed, and, where actions
    /// of its have ended, to have those flushed too. Any other director
    /// does nothing.
    pub open spec fn after_ticked(
        self,
        agent_id: usize,
        first_ent: &GameEntityVecRead,
        world: &GameMap<CoolVoxel>,
        system_prompt: Seq<char>,
        tick: usize,
        tunnels: TunnelsView,
    ) -> TunnelsView {
        match self.kind {
            DirectorKindView::LLM(director) => {
                let (turned, sent) = self.reported(
                    director,
                    agent_id,
                    first_ent,
                    world,
                    system_prompt,
                    tick,
                    tunnels,
                );
                let flushed = sent.with_director(
                    director_event(
                        agent_id,
                        DirectorUpdateView::UpdateKind(DirectorKindView::LLM(turned)),
                    ),
                ).with_director(director_event(agent_id, DirectorUpdateView::FlushAlerts));
                if self.finished_actions.len() > 0 {
                    flushed.with_director(
                        director_event(agent_id, DirectorUpdateView::FlushFinished),
                    )
                } else {
                    flushed
                }
            },
            _ => tunnels,
        }
    }

    /// The director after those of the first `k` of `events` that are meant
    /// for the agent `agent_id` have been applied to it.
    pub open spec fn committed(self, events: Seq<DirectorEventView>, agent_id: usize, k: int) -> DirectorView
        decreases k,
    {
        if k <= 0 {
            self
        } else if events[k - 1].id == agent_id {
            self.committed(events, agent_id, k - 1).updated(events[k - 1].update)
        } else {
            self.committed(events, agent_id, k - 1)
        }
    }
}

/// Once the events of its part behind the planner have been applied to it, a
/// language-model director holds no alerts, whatever it has been told and
/// whether or not it has made a request.
pub proof fn lemma_alerts_flushed(
    director: DirectorView,
    agent_id: usize,
    first_ent: &GameEntityVecRead,
    world: &GameMap<CoolVoxel>,
    system_prompt: Seq<char>,
    tick: usize,
)
    requires
        director.kind is LLM,
    ensures
        ({
            let events = director.after_ticked(
                agent_id,
                first_ent,
                world,
                system_prompt,
                tick,
                TunnelsView::empty(),
            ).director_out;
            director.committed(events, agent_id, events.len() as int).alerts.len() == 0
        }),
{
    let tunnels = TunnelsView::empty();
    let events = director.after_ticked(
        agent_id,
        first_ent,
        world,
        system_prompt,
        tick,
        tunnels,
    ).director_out;
    let told = LLMDirectorView {
        feedback: with_move_feedback(
            director.kind->LLM_0.feedback,
            director.finished_actions,
            director.finished_actions.len() as int,
        ),
        ..director.kind->LLM_0
    };
    let (alerted, sent) = if director.alerts.len() > 0 {
        told.alerted(
            director.alerts,
            director.finished_actions,
            agent_id,
            first_ent,
            world,
            system_prompt,
            tick,
            tunnels,
        )
    } else {
        (told, tunnels)
    };
    lemma_requests_leave_directors(
        told,
        director.alerts,
        director.finished_actions,
        agent_id,
        first_ent,
        world,
        system_prompt,
        tick,
        tunnels,
    );
    lemma_requests_leave_directors(
        alerted,
        director.alerts,
        director.finished_actions,
        agent_id,
        first_ent,
        world,
        system_prompt,
        tick,
        sent,
    );
    let turned = director.reported(
        director.kind->LLM_0,
        agent_id,
        first_ent,
        world,
        system_prompt,
        tick,
        tunnels,
    );
    assert(turned.1.director_out.len() == 0);
    let replaced = director_event(
        agent_id,
        DirectorUpdateView::UpdateKind(DirectorKindView::LLM(turned.0)),
    );
    let flush = director_event(agent_id, DirectorUpdateView::FlushAlerts);
    assert(director.committed(events, agent_id, 0) == director);
    assert(events[0] == replaced && events[1] == flush);
    assert(director.committed(events, agent_id, 1) == director.updated(replaced.update));
    assert(director.committed(events, agent_id, 2).alerts.len() == 0);
    if director.finished_actions.len() > 0 {
        assert(events.len() == 3);
        assert(director.committed(events, agent_id, 3).alerts.len() == 0);
    } else {
        assert(events.len() == 2);
    }
}

/// A director whose requests in flight carry ids of their own, in order and
/// below the next, and that has ids left, is such a director after its part
/// behind the planner.
pub proof fn lemma_report_keeps_ids(
    director: DirectorView,
    llm: LLMDirectorView,
    agent_id: usize,
    first_ent: &GameEntityVecRead,
    world: &GameMap<CoolVoxel>,
    system_prompt: Seq<char>,
    tick: usize,
    tunnels: TunnelsView,
)
    requires
        llm.ids_in_order(),
        llm.latest_id < usize::MAX,
    ensures
        director.reported(
            llm,
            agent_id,
            first_ent,
            world,
            system_prompt,
            tick,
            tunnels,
        ).0.ids_in_order(),
{
    let told = LLMDirectorView {
        feedback: with_move_feedback(
            llm.feedback,
            director.finished_actions,
            director.finished_actions.len() as int,
        ),
        ..llm
    };
    assert(told.ids_in_order());
    if director.alerts.len() > 0 {
        if told.in_flight_prompts.len() > 0 {
            let joined = folded(told.in_flight_prompts, director.alerts, director.finished_actions);
            assert forall|i: int| 0 <= i < joined.len() implies (#[trigger] joined[i]).request_id
                == told.in_flight_prompts[i].request_id by {}
            assert(crate::llm_prompt::ids_rise_below(joined, told.latest_id));
        } else {
            crate::llm_prompt::lemma_request_ids_rise(told, agent_id, director.alerts, tick);
        }
    } else {
        crate::llm_prompt::lemma_request_ids_rise(
            told,
            agent_id,
            seq![DirectorAlertView::Periodic],
            tick,
        );
    }
}

/// Requests to the service put nothing into the tunnel of the directors.
proof fn lemma_requests_leave_directors(
    director: LLMDirectorView,
    alerts: Seq<DirectorAlertView>,
    finished: Seq<(Action, ActionResult)>,
    agent_id: usize,
    first_ent: &GameEntityVecRead,
    world: &GameMap<CoolVoxel>,
    system_prompt: Seq<char>,
    tick: usize,
    tunnels: TunnelsView,
)
    ensures
        director.alerted(
            alerts,
            finished,
            agent_id,
            first_ent,
            world,
            system_prompt,
            tick,
            tunnels,
        ).1.director_out == tunnels.director_out,
        director.prompted(agent_id, first_ent, world, system_prompt, tick, tunnels).1.director_out
            == tunnels.director_out,
{
}

/// What a director is told about a move that has ended.
fn move_feedback_text(finished: &(Action, ActionResult)) -> (told: Option<String>)
    ensures
        match told {
            Some(text) => move_feedback(*finished) == Some(text@),
            None => move_feedback(*finished) is None,
        },
{
    match finished.0.kind {
        ActionKind::PathToPosition(position, _) => {
            let failed = match finished.1 {
                ActionResult::FailedTimer => true,
                ActionResult::Done => false,
                _ => {
                    return None;
                },
            };
            let at = get_voxel_pos(position);
            let mut text = String::from_str("the GOTO ");
            push_decimal(&mut text, at.x as i64);
            text.append(" ");
            push_decimal(&mut text, at.y as i64);
            text.append(" ");
            push_decimal(&mut text, at.z as i64);
            if failed {
                text.append(" action failed to find a path");
            } else {
                text.append(" action succeeded !");
            }
            Some(text)
        },
        _ => None,
    }
}

/// Puts every alert of `from` behind `into`.
fn push_alerts(into: &mut Vec<DirectorAlert>, from: &Vec<DirectorAlert>)
    ensures
        alerts_view(final(into)@) == alerts_view(old(into)@) + alerts_view(from@),
{
    let ghost before = alerts_view(into@);
    let mut k: usize = 0;
    assert(before + alerts_view(from@).subrange(0, 0) =~= before);
    while k < from.len()
        invariant
            k <= from.len(),
            alerts_view(into@) == before + alerts_view(from@).subrange(0, k as int),
        decreases from.len() - k,
    {
        let copy = from[k].clone();
        into.push(copy);
        assert(alerts_view(into@) =~= (before + alerts_view(from@).subrange(0, k as int)).push(
            copy@,
        ));
        assert((before + alerts_view(from@).subrange(0, k as int)).push(copy@) =~= before
            + alerts_view(from@).subrange(0, k + 1));
        k += 1;
    }
    assert(alerts_view(from@).subrange(0, from.len() as int) =~= alerts_view(from@));
}

/// Puts what the ends of the `finished_actions` tell behind `feedback`.
fn push_move_feedback(feedback: &mut Vec<String>, finished_actions: &Vec<(Action, ActionResult)>)
    ensures
        strings_view(final(feedback)@) == with_move_feedback(
            strings_view(old(feedback)@),
            finished_actions@,
            finished_actions.len() as int,
        ),
{
    let mut k: usize = 0;
    while k < finished_actions.len()
        invariant
            k <= finished_actions.len(),
            strings_view(feedback@) == with_move_feedback(
                strings_view(old(feedback)@),
                finished_actions@,
                k as int,
            ),
        decreases finished_actions.len() - k,
    {
        match move_feedback_text(&finished_actions[k]) {
            Some(told) => {
                let ghost before = strings_view(feedback@);
                feedback.push(told);
                assert(strings_view(feedback@) =~= before.push(told@));
            },
            None => {},
        }
        k += 1;
    }
}

impl LLMDirector {
    /// Takes the ends of the director's moves as feedback.
    fn hear_of_moves(&mut self, finished_actions: &Vec<(Action, ActionResult)>)
        ensures
            final(self)@ == (LLMDirectorView {
                feedback: with_move_feedback(
                    old(self)@.feedback,
                    finished_actions@,
                    finished_actions.len() as int,
                ),
                ..old(self)@
            }),
    {
        push_move_feedback(&mut self.feedback, finished_actions);
    }

    /// Joins `alerts` and the ends of the `finished_actions` to what is
    /// pending with the last request in flight.
    fn fold(&mut self, alerts: &Vec<DirectorAlert>, finished_actions: &Vec<(Action, ActionResult)>)
        requires
            old(self).in_flight_prompts.len() > 0,
        ensures
            final(self)@ == (LLMDirectorView {
                in_flight_prompts: folded(
                    old(self)@.in_flight_prompts,
                    alerts_view(alerts@),
                    finished_actions@,
                ),
                ..old(self)@
            }),
    {
        let last: usize = self.in_flight_prompts.len() - 1;
        let ghost before = self@.in_flight_prompts;
        assert(before[last as int] == self.in_flight_prompts[last as int]@);
        let mut pending = self.in_flight_prompts.pop().unwrap();
        push_alerts(&mut pending.reasons, alerts);
        push_move_feedback(&mut pending.feedback, finished_actions);
        self.in_flight_prompts.push(pending);
        assert(self@.in_flight_prompts =~= folded(before, alerts_view(alerts@), finished_actions@));
    }

    /// Takes note of `alerts`: joins them to the request in flight, or makes
    /// a request of them where none is in flight.
    fn alert(
        &mut self,
        alerts: &Vec<DirectorAlert>,
        finished_actions: &Vec<(Action, ActionResult)>,
        agent_id: usize,
        first_ent: &GameEntityVecRead,
        world: &GameMap<CoolVoxel>,
        system_prompt: &str,
        tick: usize,
        tunnels: &mut Tunnels,
    )
        requires
            first_ent.wf(),
            agent_id < first_ent.movement.len(),
            world.wf(),
        ensures
            (final(self)@, final(tunnels)@) == old(self)@.alerted(
                alerts_view(alerts@),
                finished_actions@,
                agent_id,
                first_ent,
                world,
                system_prompt@,
                tick,
                old(tunnels)@,
            ),
    {
        if self.in_flight_prompts.len() > 0 {
            self.fold(alerts, finished_actions);
        } else {
            let payload = self.get_payload(
                agent_id,
                clone_alerts(alerts),
                first_ent,
                world,
                tick,
                system_prompt,
            );
            tunnels.send_payload(payload);
        }
    }
}

impl Director {
    /// The director's part of a tick before the planner's. A language-model
    /// director reads the answers that have come in since the last tick and
    /// asks to be replaced by what it has become.
    pub fn do_tick(
        &self,
        agent_id: usize,
        first_ent: &GameEntityVecRead,
        world: &GameMap<CoolVoxel>,
        tick: usize,
        counter: &mut ActionCounter,
        tunnels: &mut Tunnels,
    )
        requires
            agent_id < first_ent.movement.len(),
            world.wf(),
        ensures
            exists|parses: Seq<Option<Seq<MarkupNodeView>>>|
                (*final(counter), final(tunnels)@) == self@.ticked(
                    parses,
                    agent_id,
                    first_ent,
                    world,
                    tick,
                    *old(counter),
                    old(tunnels)@,
                ),
            !(self@.kind is LLM) ==> *final(counter) == *old(counter) && final(tunnels)@ == old(
                tunnels,
            )@,
            self@.kind is LLM && self@.kind->LLM_0.ids_in_order() ==> replaces_in_order(
                final(tunnels)@.director_out.last(),
            ),
    {
        match &self.kind {
            DirectorKind::LLM(llm_director) => {
                let mut new_director = llm_director.clone();
                let ghost start = Parsing::fresh(new_director@, *counter, tunnels@);
                new_director.parse_responses(agent_id, first_ent, world, tick, counter, tunnels);
                let ghost parses = choose|parses: Seq<Option<Seq<MarkupNodeView>>>|
                    Parsing::fresh(new_director@, *counter, tunnels@) == start.caught_up(
                        parses,
                        agent_id,
                        first_ent,
                        world,
                        tick,
                    );
                tunnels.send_director(
                    agent_id,
                    None,
                    DirectorUpdate::UpdateKind(DirectorKind::LLM(new_director)),
                );
                assert((*counter, tunnels@) == self@.ticked(
                    parses,
                    agent_id,
                    first_ent,
                    world,
                    tick,
                    *old(counter),
                    old(tunnels)@,
                ));
            },
            _ => {
                assert((*counter, tunnels@) == self@.ticked(
                    Seq::empty(),
                    agent_id,
                    first_ent,
                    world,
                    tick,
                    *old(counter),
                    old(tunnels)@,
                ));
            },
        }
    }

    /// The director's part of a tick behind the planner's. A language-model
    /// director takes the ends of its moves as feedback; makes a request of
    /// its alerts, or joins them to the request in flight rather than make
    /// a second one; asks by itself where nothing has happened for long;
    /// and has itself replaced and its alerts flushed.
    pub fn do_after_tick(
        &self,
        agent_id: usize,
        first_ent: &GameEntityVecRead,
        world: &GameMap<CoolVoxel>,
        system_prompt: &str,
        tick: usize,
        tunnels: &mut Tunnels,
    )
        requires
            first_ent.wf(),
            agent_id < first_ent.movement.len(),
            world.wf(),
        ensures
            final(tunnels)@ == self@.after_ticked(
                agent_id,
                first_ent,
                world,
                system_prompt@,
                tick,
                old(tunnels)@,
            ),
            self@.kind is LLM && self@.kind->LLM_0.ids_in_order() && self@.kind->LLM_0.latest_id
                < usize::MAX ==> replaces_in_order(
                final(tunnels)@.director_out[old(tunnels)@.director_out.len() as int],
            ),
    {
        proof {
            if self@.kind is LLM && self@.kind->LLM_0.ids_in_order() && self@.kind->LLM_0.latest_id
                < usize::MAX {
                lemma_report_keeps_ids(
                    self@,
                    self@.kind->LLM_0,
                    agent_id,
                    first_ent,
                    world,
                    system_prompt@,
                    tick,
                    old(tunnels)@,
                );
            }
        }
        match &self.kind {
            DirectorKind::LLM(llm_director) => {
                let mut new_director = llm_director.clone();
                new_director.hear_of_moves(&self.finished_actions);
                if self.alerts.len() > 0 {
                    new_director.alert(
                        &self.alerts,
                        &self.finished_actions,
                        agent_id,
                        first_ent,
                        world,
                        system_prompt,
                        tick,
                        tunnels,
                    );
                }
                match new_director.get_periodic_payload(
                    agent_id,
                    first_ent,
                    world,
                    tick,
                    system_prompt,
                ) {
                    Some(payload) => {
                        tunnels.send_payload(payload);
                    },
                    None => {},
                }
                tunnels.send_director(
                    agent_id,
                    None,
                    DirectorUpdate::UpdateKind(DirectorKind::LLM(new_director)),
                );
                tunnels.send_director(agent_id, None, DirectorUpdate::FlushAlerts);
                if self.finished_actions.len() > 0 {
                    tunnels.send_director(agent_id, None, DirectorUpdate::FlushFinished);
                }
            },
            _ => {},
        }
    }
}

} // verus!
