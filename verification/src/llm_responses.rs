//! Answers of the service: each is matched with the request in flight that
//! it answers, and the commands in it are carried out.

use vstd::prelude::*;
use crate::actions::ActionCounter;
use crate::game_entity::{GameEntityVecRead, Tunnels, TunnelsView};
use crate::game_map::GameMap;
use crate::llm_commands::Parsing;
use crate::llm_director::{InFlightPromptView, LLMDirector, LLMDirectorView};
use crate::markup::{
    MarkupNode,
    MarkupNodeView,
    commands_in,
    find_commands,
    markup_view,
    parse_markup,
};
use crate::proxima_link::{HordeProximaAIResponse, HordeProximaAIResponseView};
use crate::voxel::CoolVoxel;

verus! {

/// Place of the first request with the id `request_id`, from `from` on.
pub open spec fn find_prompt(prompts: Seq<InFlightPromptView>, request_id: usize, from: int) -> Option<
    int,
>
    decreases prompts.len() - from,
{
    if from < 0 || from >= prompts.len() {
        None
    } else if prompts[from].request_id == request_id {
        Some(from)
    } else {
        find_prompt(prompts, request_id, from + 1)
    }
}

/// The requests in flight without the one that `request_id` names.
pub open spec fn without_prompt(prompts: Seq<InFlightPromptView>, request_id: usize) -> Seq<
    InFlightPromptView,
> {
    match find_prompt(prompts, request_id, 0) {
        Some(i) => prompts.remove(i),
        None => prompts,
    }
}

/// A request found from `from` on is the first one there with that id.
pub proof fn lemma_find_prompt(prompts: Seq<InFlightPromptView>, request_id: usize, from: int)
    requires
        0 <= from,
    ensures
        match find_prompt(prompts, request_id, from) {
            Some(k) => from <= k < prompts.len() && prompts[k].request_id == request_id
                && forall|j: int| from <= j < k ==> prompts[j].request_id != request_id,
            None => forall|j: int| from <= j < prompts.len() ==> prompts[j].request_id != request_id,
        },
    decreases prompts.len() - from,
{
    if from < prompts.len() && prompts[from].request_id != request_id {
        lemma_find_prompt(prompts, request_id, from + 1);
    }
}

/// The first request with the id `request_id` stands at `k`.
proof fn lemma_found_prompt(prompts: Seq<InFlightPromptView>, request_id: usize, from: int, k: int)
    requires
        0 <= from <= k < prompts.len(),
        prompts[k].request_id == request_id,
        forall|j: int| from <= j < k ==> prompts[j].request_id != request_id,
    ensures
        find_prompt(prompts, request_id, from) == Some(k),
    decreases k - from,
{
    if from < k {
        lemma_found_prompt(prompts, request_id, from + 1, k);
    }
}

/// No request carries the id `request_id`.
proof fn lemma_no_prompt(prompts: Seq<InFlightPromptView>, request_id: usize, from: int)
    requires
        0 <= from,
        forall|j: int| from <= j < prompts.len() ==> prompts[j].request_id != request_id,
    ensures
        find_prompt(prompts, request_id, from) is None,
    decreases prompts.len() - from,
{
    if from < prompts.len() {
        lemma_no_prompt(prompts, request_id, from + 1);
    }
}

/// Where the first request with the id `wanted` stands once the request at
/// `gone`, which carries another id, has left.
proof fn lemma_find_after_removal(prompts: Seq<InFlightPromptView>, wanted: usize, gone: int)
    requires
        0 <= gone < prompts.len(),
        prompts[gone].request_id != wanted,
    ensures
        find_prompt(prompts.remove(gone), wanted, 0) == match find_prompt(prompts, wanted, 0) {
            Some(k) => if k < gone {
                Some(k)
            } else {
                Some(k - 1)
            },
            None => None,
        },
{
    lemma_find_prompt(prompts, wanted, 0);
    let left = prompts.remove(gone);
    match find_prompt(prompts, wanted, 0) {
        Some(k) => {
            let place = if k < gone {
                k
            } else {
                k - 1
            };
            assert(left[place] == prompts[k]);
            assert forall|j: int| 0 <= j < place implies left[j].request_id != wanted by {
                if j < gone {
                    assert(left[j] == prompts[j]);
                } else {
                    assert(left[j] == prompts[j + 1]);
                }
            }
            lemma_found_prompt(left, wanted, 0, place);
        },
        None => {
            assert forall|j: int| 0 <= j < left.len() implies left[j].request_id != wanted by {
                if j < gone {
                    assert(left[j] == prompts[j]);
                } else {
                    assert(left[j] == prompts[j + 1]);
                }
            }
            lemma_no_prompt(left, wanted, 0);
        },
    }
}

/// An answer takes its own request out of those in flight and no other, and
/// it does not matter in which order two answers come: the same requests are
/// left in flight.
pub proof fn lemma_answers_commute(prompts: Seq<InFlightPromptView>, first: usize, second: usize)
    ensures
        without_prompt(without_prompt(prompts, first), second) == without_prompt(
            without_prompt(prompts, second),
            first,
        ),
        forall|j: int|
            0 <= j < prompts.len() && (#[trigger] prompts[j]).request_id != first
                ==> without_prompt(prompts, first).contains(prompts[j]),
        without_prompt(prompts, first).len() == if find_prompt(prompts, first, 0) is Some {
            prompts.len() - 1
        } else {
            prompts.len() as int
        },
{
    lemma_find_prompt(prompts, first, 0);
    lemma_find_prompt(prompts, second, 0);
    let less_first = without_prompt(prompts, first);
    assert forall|j: int|
        0 <= j < prompts.len() && (#[trigger] prompts[j]).request_id != first implies less_first.contains(
        prompts[j],
    ) by {
        match find_prompt(prompts, first, 0) {
            Some(i) => {
                if j < i {
                    assert(less_first[j] == prompts[j]);
                } else {
                    assert(less_first[j - 1] == prompts[j]);
                }
            },
            None => {
                assert(less_first[j] == prompts[j]);
            },
        }
    }
    if first != second {
        match (find_prompt(prompts, first, 0), find_prompt(prompts, second, 0)) {
            (Some(i), Some(j)) => {
                lemma_find_after_removal(prompts, second, i);
                lemma_find_after_removal(prompts, first, j);
                if i < j {
                    assert(prompts.remove(i).remove(j - 1) =~= prompts.remove(j).remove(i));
                } else {
                    assert(prompts.remove(i).remove(j) =~= prompts.remove(j).remove(i - 1));
                }
            },
            (Some(i), None) => {
                lemma_find_after_removal(prompts, second, i);
            },
            (None, Some(j)) => {
                lemma_find_after_removal(prompts, first, j);
            },
            (None, None) => {},
        }
    }
}

impl Parsing {
    /// The state of a director between two answers: nothing is marked for
    /// removal.
    pub open spec fn fresh(director: LLMDirectorView, counter: ActionCounter, tunnels: TunnelsView) -> Parsing {
        Parsing {
            director,
            remove_goals: Seq::empty(),
            remove_memory: Seq::empty(),
            counter,
            tunnels,
        }
    }

    /// The state after the document of an answer has been taken in: the
    /// commands it gives are carried out; text that is no document, and a
    /// document without commands, change nothing.
    pub open spec fn given(
        self,
        nodes: Option<Seq<MarkupNodeView>>,
        agent_id: usize,
        first_ent: &GameEntityVecRead,
        world: &GameMap<CoolVoxel>,
        tick: usize,
    ) -> Parsing {
        match nodes {
            Some(list) => match commands_in(list, 0) {
                Some(commands) => self.obeyed(commands, agent_id, first_ent, world, tick),
                None => self,
            },
            None => self,
        }
    }

    /// The state after one answer whose text the parser has made `nodes` of.
    /// An answer to no request in flight changes nothing. Any other takes
    /// its request out of those in flight, and where it carries text, what
    /// the parser has made of that text is taken in.
    pub open spec fn answered(
        self,
        response: HordeProximaAIResponseView,
        nodes: Option<Seq<MarkupNodeView>>,
        agent_id: usize,
        first_ent: &GameEntityVecRead,
        world: &GameMap<CoolVoxel>,
        tick: usize,
    ) -> Parsing {
        match find_prompt(self.director.in_flight_prompts, response.request_id, 0) {
            Some(i) => {
                let taken = Parsing {
                    director: LLMDirectorView {
                        in_flight_prompts: self.director.in_flight_prompts.remove(i),
                        ..self.director
                    },
                    ..self
                };
                match response.response {
                    Some(text) => taken.given(nodes, agent_id, first_ent, world, tick),
                    None => taken,
                }
            },
            None => self,
        }
    }

    /// The state after the first `k` of `responses`, one after the other,
    /// where the parser has made `parses[j]` of the text of the `j`-th.
    pub open spec fn replied(
        self,
        responses: Seq<HordeProximaAIResponseView>,
        parses: Seq<Option<Seq<MarkupNodeView>>>,
        k: int,
        agent_id: usize,
        first_ent: &GameEntityVecRead,
        world: &GameMap<CoolVoxel>,
        tick: usize,
    ) -> Parsing
        decreases k,
    {
        if k <= 0 {
            self
        } else {
            self.replied(responses, parses, k - 1, agent_id, first_ent, world, tick).answered(
                responses[k - 1],
                parses[k - 1],
                agent_id,
                first_ent,
                world,
                tick,
            )
        }
    }

    /// The state after every answer that has come in has been read, and the
    /// list of answers emptied, where the parser has made `parses[j]` of the
    /// text of the `j`-th answer.
    pub open spec fn caught_up(
        self,
        parses: Seq<Option<Seq<MarkupNodeView>>>,
        agent_id: usize,
        first_ent: &GameEntityVecRead,
        world: &GameMap<CoolVoxel>,
        tick: usize,
    ) -> Parsing {
        let read = self.replied(
            self.director.responses,
            parses,
            self.director.responses.len() as int,
            agent_id,
            first_ent,
            world,
            tick,
        );
        Parsing {
            director: LLMDirectorView { responses: Seq::empty(), ..read.director },
            ..read
        }
    }
}

/// What the first `k` answers come to rests on what the parser has made of
/// those `k` alone.
pub proof fn lemma_replied_reads_its_own(
    start: Parsing,
    responses: Seq<HordeProximaAIResponseView>,
    parses: Seq<Option<Seq<MarkupNodeView>>>,
    more: Seq<Option<Seq<MarkupNodeView>>>,
    k: int,
    agent_id: usize,
    first_ent: &GameEntityVecRead,
    world: &GameMap<CoolVoxel>,
    tick: usize,
)
    requires
        k <= parses.len(),
        k <= more.len(),
        forall|j: int| 0 <= j < k ==> parses[j] == more[j],
    ensures
        start.replied(responses, parses, k, agent_id, first_ent, world, tick) == start.replied(
            responses,
            more,
            k,
            agent_id,
            first_ent,
            world,
            tick,
        ),
    decreases k,
{
    if k > 0 {
        lemma_replied_reads_its_own(
            start,
            responses,
            parses,
            more,
            k - 1,
            agent_id,
            first_ent,
            world,
            tick,
        );
    }
}

impl LLMDirector {
    /// Takes in the document of an answer: where it gives commands, they
    /// are carried out.
    pub fn apply_markup(
        &mut self,
        nodes: &Option<Vec<MarkupNode>>,
        agent_id: usize,
        first_ent: &GameEntityVecRead,
        world: &GameMap<CoolVoxel>,
        tick: usize,
        counter: &mut ActionCounter,
        tunnels: &mut Tunnels,
    )
        requires
            agent_id < first_ent.movement.len(),
            world.wf(),
        ensures
            Parsing::fresh(final(self)@, *final(counter), final(tunnels)@) == Parsing::fresh(
                old(self)@,
                *old(counter),
                old(tunnels)@,
            ).given(markup_view(*nodes), agent_id, first_ent, world, tick),
            final(self).kept_aside(old(self)),
    {
        match nodes {
            Some(list) => {
                match find_commands(list) {
                    Some(commands) => {
                        self.parse_commands(
                            commands,
                            agent_id,
                            first_ent,
                            world,
                            tick,
                            counter,
                            tunnels,
                        );
                    },
                    None => {},
                }
            },
            None => {},
        }
    }

    /// Place of the request in flight with the id `request_id`.
    fn find_prompt(&self, request_id: usize) -> (place: Option<usize>)
        ensures
            match place {
                Some(i) => find_prompt(self@.in_flight_prompts, request_id, 0) == Some(i as int)
                    && i < self.in_flight_prompts.len(),
                None => find_prompt(self@.in_flight_prompts, request_id, 0) is None,
            },
    {
        let mut i: usize = 0;
        while i < self.in_flight_prompts.len()
            invariant
                i <= self.in_flight_prompts.len(),
                find_prompt(self@.in_flight_prompts, request_id, 0) == find_prompt(
                    self@.in_flight_prompts,
                    request_id,
                    i as int,
                ),
            decreases self.in_flight_prompts.len() - i,
        {
            if self.in_flight_prompts[i].request_id == request_id {
                return Some(i);
            }
            i += 1;
        }
        None
    }

    /// Reads one answer of the service: an answer to no request in flight
    /// is dropped; any other takes its own request out of those in flight,
    /// and where it carries text, the parser is asked what it makes of it
    /// and the commands it finds are carried out. Whatever the parser
    /// gives (it may give up on a text it would take on another day), the
    /// outcome is the one that `answered` gives for it.
    pub fn parse_response(
        &mut self,
        response: HordeProximaAIResponse,
        agent_id: usize,
        first_ent: &GameEntityVecRead,
        world: &GameMap<CoolVoxel>,
        tick: usize,
        counter: &mut ActionCounter,
        tunnels: &mut Tunnels,
    )
        requires
            agent_id < first_ent.movement.len(),
            world.wf(),
        ensures
            exists|nodes: Option<Seq<MarkupNodeView>>|
                Parsing::fresh(final(self)@, *final(counter), final(tunnels)@) == Parsing::fresh(
                    old(self)@,
                    *old(counter),
                    old(tunnels)@,
                ).answered(response@, nodes, agent_id, first_ent, world, tick),
            final(self)@.in_flight_prompts == without_prompt(
                old(self)@.in_flight_prompts,
                response.request_id,
            ),
            find_prompt(old(self)@.in_flight_prompts, response.request_id, 0) is None
                || response.response is None ==> Parsing::fresh(
                final(self)@,
                *final(counter),
                final(tunnels)@,
            ) == Parsing::fresh(
                (LLMDirectorView {
                    in_flight_prompts: without_prompt(
                        old(self)@.in_flight_prompts,
                        response.request_id,
                    ),
                    ..old(self)@
                }),
                *old(counter),
                old(tunnels)@,
            ),
            final(self).responses == old(self).responses,
            final(self).latest_id == old(self).latest_id,
            final(self).last_prompt_tick == old(self).last_prompt_tick,
            old(self)@.ids_in_order() ==> final(self)@.ids_in_order(),
    {
        proof {
            if self@.ids_in_order() {
                crate::llm_prompt::lemma_answer_keeps_ids_rising(
                    self@.in_flight_prompts,
                    self.latest_id,
                    response.request_id,
                );
            }
        }
        let ghost start = Parsing::fresh(self@, *counter, tunnels@);
        match self.find_prompt(response.request_id) {
            Some(i) => {
                let ghost before = self@.in_flight_prompts;
                self.in_flight_prompts.remove(i);
                assert(self@.in_flight_prompts =~= before.remove(i as int));
                match response.response {
                    Some(text) => {
                        let nodes = parse_markup(text.as_str());
                        self.apply_markup(&nodes, agent_id, first_ent, world, tick, counter, tunnels);
                        assert(Parsing::fresh(self@, *counter, tunnels@) == start.answered(
                            response@,
                            markup_view(nodes),
                            agent_id,
                            first_ent,
                            world,
                            tick,
                        ));
                    },
                    None => {
                        assert(Parsing::fresh(self@, *counter, tunnels@) == start.answered(
                            response@,
                            None,
                            agent_id,
                            first_ent,
                            world,
                            tick,
                        ));
                    },
                }
            },
            None => {
                assert(Parsing::fresh(self@, *counter, tunnels@) == start.answered(
                    response@,
                    None,
                    agent_id,
                    first_ent,
                    world,
                    tick,
                ));
            },
        }
    }

    /// Reads every answer that has come in since the last tick, in the
    /// order they came, and empties the list of answers. The outcome is the
    /// one that `caught_up` gives for what the parser has made of each.
    pub fn parse_responses(
        &mut self,
        agent_id: usize,
        first_ent: &GameEntityVecRead,
        world: &GameMap<CoolVoxel>,
        tick: usize,
        counter: &mut ActionCounter,
        tunnels: &mut Tunnels,
    )
        requires
            agent_id < first_ent.movement.len(),
            world.wf(),
        ensures
            exists|parses: Seq<Option<Seq<MarkupNodeView>>>|
                Parsing::fresh(final(self)@, *final(counter), final(tunnels)@) == Parsing::fresh(
                    old(self)@,
                    *old(counter),
                    old(tunnels)@,
                ).caught_up(parses, agent_id, first_ent, world, tick),
            final(self)@.responses.len() == 0,
            final(self).latest_id == old(self).latest_id,
            final(self).last_prompt_tick == old(self).last_prompt_tick,
            old(self)@.ids_in_order() ==> final(self)@.ids_in_order(),
    {
        let ghost start = Parsing::fresh(self@, *counter, tunnels@);
        let ghost mut parses: Seq<Option<Seq<MarkupNodeView>>> = Seq::empty();
        let mut k: usize = 0;
        while k < self.responses.len()
            invariant
                k <= self.responses.len(),
                agent_id < first_ent.movement.len(),
                world.wf(),
                self.responses == old(self).responses,
                self.latest_id == old(self).latest_id,
                self.last_prompt_tick == old(self).last_prompt_tick,
                old(self)@.ids_in_order() ==> self@.ids_in_order(),
                start.director.responses == crate::llm_director::responses_view(self.responses@),
                parses.len() == k,
                Parsing::fresh(self@, *counter, tunnels@) == start.replied(
                    start.director.responses,
                    parses,
                    k as int,
                    agent_id,
                    first_ent,
                    world,
                    tick,
                ),
            decreases self.responses.len() - k,
        {
            let response = self.responses[k].clone();
            assert(response@ == start.director.responses[k as int]);
            let ghost before = Parsing::fresh(self@, *counter, tunnels@);
            self.parse_response(response, agent_id, first_ent, world, tick, counter, tunnels);
            proof {
                let nodes = choose|nodes: Option<Seq<MarkupNodeView>>|
                    Parsing::fresh(self@, *counter, tunnels@) == before.answered(
                        response@,
                        nodes,
                        agent_id,
                        first_ent,
                        world,
                        tick,
                    );
                let longer = parses.push(nodes);
                lemma_replied_reads_its_own(
                    start,
                    start.director.responses,
                    parses,
                    longer,
                    k as int,
                    agent_id,
                    first_ent,
                    world,
                    tick,
                );
                parses = longer;
            }
            k += 1;
        }
        self.responses.clear();
        assert(self@.responses =~= Seq::empty());
        assert(Parsing::fresh(self@, *counter, tunnels@) == start.caught_up(
            parses,
            agent_id,
            first_ent,
            world,
            tick,
        ));
    }
}

} // verus!
