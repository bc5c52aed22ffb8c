//! What a language-model director does with the commands it is given.

use vstd::prelude::*;
use crate::actions::{
    Action,
    ActionCounter,
    ActionKind,
    ActionSource,
    ActionTimer,
    ActionsEventView,
    ActionsUpdate,
    ActionsUpdateView,
};
use crate::commands::{BlockChange, Command, CommandView, SayMode, command_of, parse_line};
use crate::director::{DirectorEventView, DirectorUpdate, DirectorUpdateView};
use crate::entity::{CoolGameEngineTID, Movement};
use crate::game_entity::{GameEntityVecRead, Tunnels, TunnelsView};
use crate::game_map::GameMap;
use crate::geometry::{WorldVoxelPos, dist2_capped, within};
use crate::lexing::{lines_of, split_lines, texts_view};
use crate::llm_director::{DirectorAlert, DirectorAlertView, LLMDirector, LLMDirectorView};
use crate::text::{chars_of, decimal_nat, push_decimal_nat, string_of, strings_view};
use crate::voxel::{CoolVoxel, VoxelLight};

verus! {

/// Ticks that a move ordered by a director may take.
pub const GOTO_DELAY: usize = 15000;

/// How close to its target a move ordered by a director has to get, in
/// thousandths of a voxel.
pub const GOTO_TOLERANCE: i64 = 800;

/// Ticks that a change of one voxel may take.
pub const BLOCK_DELAY: usize = 500;

/// Ticks that the change of a box may take on top of one for each voxel.
pub const FILL_BASE_DELAY: usize = 400;

/// How far an agent is heard, in thousandths of a voxel.
pub const EARSHOT: i64 = 10000;

/// The kind of voxel that agents place.
pub const PLACED_VOXEL_TYPE: u16 = 9;

/// The kind of voxel that is left where agents destroy one.
pub const EMPTY_VOXEL_TYPE: u16 = 0;

/// Number of neighbours tried for a target that cannot be stood on.
pub const PATHING_POSITION_COUNT: usize = 26;

/// The `k`-th neighbour tried for a target that cannot be stood on: the
/// eight around it on its level, then the nine below, then the nine above;
/// on each level the four at its sides before the four at its corners.
pub open spec fn pathing_offset(k: int) -> WorldVoxelPos {
    let z: i32 = if k < 8 {
        0
    } else if k < 17 {
        -1i32
    } else {
        1
    };
    let ring = if k < 8 {
        k + 1
    } else if k < 17 {
        k - 8
    } else {
        k - 17
    };
    if ring == 0 {
        WorldVoxelPos { x: 0, y: 0, z }
    } else if ring == 1 {
        WorldVoxelPos { x: 1, y: 0, z }
    } else if ring == 2 {
        WorldVoxelPos { x: 0, y: 1, z }
    } else if ring == 3 {
        WorldVoxelPos { x: -1i32, y: 0, z }
    } else if ring == 4 {
        WorldVoxelPos { x: 0, y: -1i32, z }
    } else if ring == 5 {
        WorldVoxelPos { x: 1, y: 1, z }
    } else if ring == 6 {
        WorldVoxelPos { x: 1, y: -1i32, z }
    } else if ring == 7 {
        WorldVoxelPos { x: -1i32, y: 1, z }
    } else {
        WorldVoxelPos { x: -1i32, y: -1i32, z }
    }
}

/// The `k`-th neighbour tried for a target that cannot be stood on.
pub fn pathing_offset_at(k: usize) -> (offset: WorldVoxelPos)
    requires
        k < PATHING_POSITION_COUNT,
    ensures
        offset == pathing_offset(k as int),
{
    let z: i32 = if k < 8 {
        0
    } else if k < 17 {
        -1
    } else {
        1
    };
    let ring: usize = if k < 8 {
        k + 1
    } else if k < 17 {
        k - 8
    } else {
        k - 17
    };
    if ring == 0 {
        WorldVoxelPos { x: 0, y: 0, z }
    } else if ring == 1 {
        WorldVoxelPos { x: 1, y: 0, z }
    } else if ring == 2 {
        WorldVoxelPos { x: 0, y: 1, z }
    } else if ring == 3 {
        WorldVoxelPos { x: -1, y: 0, z }
    } else if ring == 4 {
        WorldVoxelPos { x: 0, y: -1, z }
    } else if ring == 5 {
        WorldVoxelPos { x: 1, y: 1, z }
    } else if ring == 6 {
        WorldVoxelPos { x: 1, y: -1, z }
    } else if ring == 7 {
        WorldVoxelPos { x: -1, y: 1, z }
    } else {
        WorldVoxelPos { x: -1, y: -1, z }
    }
}

/// The `k`-th neighbour of `target` can be stood on.
pub open spec fn neighbour_fits(world: &GameMap<CoolVoxel>, target: WorldVoxelPos, k: int) -> bool {
    match target.offset_spec(pathing_offset(k)) {
        Some(neighbour) => world.walkable(neighbour),
        None => false,
    }
}

/// The first neighbour of `target`, from the `k`-th on, that can be stood
/// on; `target` itself where none can.
pub open spec fn first_fit(world: &GameMap<CoolVoxel>, target: WorldVoxelPos, k: int) -> WorldVoxelPos
    decreases 26 - k,
{
    if k < 0 || k >= 26 {
        target
    } else if neighbour_fits(world, target, k) {
        target.offset_spec(pathing_offset(k))->0
    } else {
        first_fit(world, target, k + 1)
    }
}

/// Where a move to `target` is sent: `target` where an agent can stand
/// there, else the first of its neighbours where one can, else `target`
/// all the same.
pub open spec fn snapped(world: &GameMap<CoolVoxel>, target: WorldVoxelPos) -> WorldVoxelPos {
    if world.walkable(target) {
        target
    } else {
        first_fit(world, target, 0)
    }
}

/// Where a move to `target` is sent.
pub fn snap_to_walkable(world: &GameMap<CoolVoxel>, target: WorldVoxelPos) -> (place: WorldVoxelPos)
    requires
        world.wf(),
    ensures
        place == snapped(world, target),
{
    if world.is_walkable(target) {
        return target;
    }
    let mut k: usize = 0;
    while k < PATHING_POSITION_COUNT
        invariant
            k <= PATHING_POSITION_COUNT,
            world.wf(),
            !world.walkable(target),
            first_fit(world, target, k as int) == first_fit(world, target, 0),
        decreases PATHING_POSITION_COUNT - k,
    {
        match target.offset(pathing_offset_at(k)) {
            Some(neighbour) => {
                if world.is_walkable(neighbour) {
                    assert(neighbour_fits(world, target, k as int));
                    assert(first_fit(world, target, k as int) == neighbour);
                    return neighbour;
                }
            },
            None => {},
        }
        assert(!neighbour_fits(world, target, k as int));
        k += 1;
    }
    target
}

/// What the commands of one answer act on: the director, the places marked
/// for removal from its goals and memories, the counter that numbers new
/// actions, and the tunnels.
pub struct Parsing {
    pub director: LLMDirectorView,
    pub remove_goals: Seq<usize>,
    pub remove_memory: Seq<usize>,
    pub counter: ActionCounter,
    pub tunnels: TunnelsView,
}

/// The event that lets the agent `listener` hear `text` from `agent_id`.
pub open spec fn heard(agent_id: usize, listener: usize, text: Seq<char>) -> DirectorEventView {
    DirectorEventView {
        id: listener,
        source: Some(CoolGameEngineTID::Entity1(agent_id)),
        update: DirectorUpdateView::SendAlert(DirectorAlertView::HeardWords(agent_id, text)),
    }
}

/// The event that adds `action` to the queue of `agent_id`.
pub open spec fn addition(agent_id: usize, action: Action) -> ActionsEventView {
    ActionsEventView { id: agent_id, source: None, variant: ActionsUpdateView::AddAction(action) }
}

/// Among the first `k` agents, the one closest to `agent_id` other than
/// itself: the first of them where several are as close.
pub open spec fn closest_among(movement: Seq<Movement>, agent_id: usize, k: int) -> Option<usize>
    decreases k,
{
    if k <= 0 {
        None
    } else if k - 1 == agent_id {
        closest_among(movement, agent_id, k - 1)
    } else {
        match closest_among(movement, agent_id, k - 1) {
            None => Some((k - 1) as usize),
            Some(best) => if dist2_capped(movement[agent_id as int].pos, movement[k - 1].pos)
                < dist2_capped(movement[agent_id as int].pos, movement[best as int].pos) {
                Some((k - 1) as usize)
            } else {
                Some(best)
            },
        }
    }
}

/// The agent `listener` hears what `agent_id` says in the given mode: it is
/// another agent and, for local speech, within earshot.
pub open spec fn hears(movement: Seq<Movement>, agent_id: usize, local: bool, listener: int) -> bool {
    listener != agent_id && (!local || within(
        movement[agent_id as int].pos,
        movement[listener].pos,
        EARSHOT,
    ))
}

/// What `agent_id` sends when it says `text` to those of the first `k`
/// agents that hear it.
pub open spec fn said_among(
    movement: Seq<Movement>,
    agent_id: usize,
    local: bool,
    text: Seq<char>,
    k: int,
) -> Seq<DirectorEventView>
    decreases k,
{
    if k <= 0 {
        Seq::empty()
    } else if hears(movement, agent_id, local, k - 1) {
        said_among(movement, agent_id, local, text, k - 1).push(
            heard(agent_id, (k - 1) as usize, text),
        )
    } else {
        said_among(movement, agent_id, local, text, k - 1)
    }
}

/// What a director is told after it has spoken to `count` agents within
/// earshot.
pub open spec fn local_feedback(count: nat) -> Seq<char> {
    if count > 0 {
        "Your last SAY local command reached "@ + decimal_nat(count) + " other agents"@
    } else {
        "Your last SAY local command reached "@ + decimal_nat(count)
            + " other agents, consider using the \"closest\" or \"all\" modes to be certain to reach someone"@
    }
}

/// What a director is told after it has spoken to all `count` other agents.
pub open spec fn all_feedback(count: nat) -> Seq<char> {
    "Your last SAY all command reached "@ + decimal_nat(count) + " other agents"@
}

/// The voxel that a change leaves.
pub open spec fn changed_voxel(change: BlockChange) -> CoolVoxel {
    CoolVoxel {
        voxel_type: match change {
            BlockChange::Place => PLACED_VOXEL_TYPE,
            BlockChange::Destroy => EMPTY_VOXEL_TYPE,
        },
        orient: 0,
        light: VoxelLight { level: 255, r: 255, g: 255, b: 255 },
    }
}

/// The box has voxels, and all of them have addresses in the grid.
pub open spec fn fill_fits(from: WorldVoxelPos, size: WorldVoxelPos) -> bool {
    &&& size.x > 0 && size.y > 0 && size.z > 0
    &&& from.x + size.x - 1 <= i32::MAX
    &&& from.y + size.y - 1 <= i32::MAX
    &&& from.z + size.z - 1 <= i32::MAX
}

/// Number of voxels in a box of the given size.
pub open spec fn fill_count(size: WorldVoxelPos) -> nat {
    (size.x * size.y * size.z) as nat
}

/// The `k`-th voxel of the box: the box is walked along x, each slice of
/// it along y, each column of that along z.
pub open spec fn fill_voxel(from: WorldVoxelPos, size: WorldVoxelPos, k: int) -> WorldVoxelPos {
    WorldVoxelPos {
        x: (from.x + k / (size.y * size.z)) as i32,
        y: (from.y + (k / (size.z as int)) % (size.y as int)) as i32,
        z: (from.z + k % (size.z as int)) as i32,
    }
}

/// Ticks that the change of a box may take: one for each voxel on top of
/// the base, as far as a count of ticks goes.
pub open spec fn fill_delay(size: WorldVoxelPos) -> usize {
    if fill_count(size) + FILL_BASE_DELAY > usize::MAX {
        usize::MAX
    } else {
        (fill_count(size) + FILL_BASE_DELAY) as usize
    }
}

/// The action that changes the `k`-th voxel of a box.
pub open spec fn fill_action(
    change: BlockChange,
    from: WorldVoxelPos,
    size: WorldVoxelPos,
    counter: ActionCounter,
    tick: usize,
    k: int,
) -> Action {
    Action {
        id: counter.advanced(k as nat).latest_id,
        started_at: tick,
        timer: ActionTimer::Delay(fill_delay(size)),
        kind: ActionKind::ChangeVoxel(fill_voxel(from, size, k), changed_voxel(change)),
        source: ActionSource::Director,
    }
}

/// The events that change a box, one voxel after the other.
pub open spec fn fill_events(
    agent_id: usize,
    change: BlockChange,
    from: WorldVoxelPos,
    size: WorldVoxelPos,
    counter: ActionCounter,
    tick: usize,
) -> Seq<ActionsEventView> {
    Seq::new(
        fill_count(size),
        |k: int| addition(agent_id, fill_action(change, from, size, counter, tick, k)),
    )
}

/// The list with `place` marked for removal, where it names an entry of
/// `list` that is not marked yet.
pub open spec fn marked(removals: Seq<usize>, list: Seq<Seq<char>>, place: usize) -> Seq<usize> {
    if list.len() > place && !removals.contains(place) {
        removals.push(place)
    } else {
        removals
    }
}

/// The first `k` entries of `list` without those marked for removal.
pub open spec fn kept(list: Seq<Seq<char>>, removals: Seq<usize>, k: int) -> Seq<Seq<char>>
    decreases k,
{
    if k <= 0 {
        Seq::empty()
    } else if removals.contains((k - 1) as usize) {
        kept(list, removals, k - 1)
    } else {
        kept(list, removals, k - 1).push(list[k - 1])
    }
}

impl Parsing {
    /// The state with `feedback` added to what the director is told.
    pub open spec fn told(self, feedback: Seq<char>) -> Parsing {
        Parsing {
            director: LLMDirectorView {
                feedback: self.director.feedback.push(feedback),
                ..self.director
            },
            ..self
        }
    }

    /// The state after one new action of the kind `kind` with the timer
    /// `timer` has been added to the queue of `agent_id`.
    pub open spec fn ordered(self, agent_id: usize, tick: usize, timer: ActionTimer, kind: ActionKind) -> Parsing {
        Parsing {
            counter: self.counter.advanced(1),
            tunnels: self.tunnels.with_action(
                addition(
                    agent_id,
                    Action {
                        id: self.counter.latest_id,
                        started_at: tick,
                        timer,
                        kind,
                        source: ActionSource::Director,
                    },
                ),
            ),
            ..self
        }
    }

    /// The state after `command` has been carried out for the agent
    /// `agent_id` on tick `tick`.
    ///
    /// Speech goes as an alert to the closest other agent, to the others
    /// within earshot or to all others, and speech to several is answered
    /// with the number it reached. A move becomes an action towards the
    /// place where an agent can stand. Goals and memories are added at the
    /// end of their lists or marked for removal. A change of a voxel becomes
    /// one action, the change of a box one action for each of its voxels.
    pub open spec fn executed(
        self,
        command: CommandView,
        agent_id: usize,
        first_ent: &GameEntityVecRead,
        world: &GameMap<CoolVoxel>,
        tick: usize,
    ) -> Parsing {
        let movement = first_ent.movement@;
        match command {
            CommandView::Say(SayMode::Closest, text) => match closest_among(
                movement,
                agent_id,
                movement.len() as int,
            ) {
                Some(listener) => Parsing {
                    tunnels: self.tunnels.with_director(heard(agent_id, listener, text)),
                    ..self
                },
                None => self,
            },
            CommandView::Say(SayMode::Local, text) => {
                let said = said_among(movement, agent_id, true, text, movement.len() as int);
                Parsing {
                    tunnels: TunnelsView {
                        director_out: self.tunnels.director_out + said,
                        ..self.tunnels
                    },
                    ..self
                }.told(local_feedback(said.len()))
            },
            CommandView::Say(SayMode::All, text) => {
                let said = said_among(movement, agent_id, false, text, movement.len() as int);
                Parsing {
                    tunnels: TunnelsView {
                        director_out: self.tunnels.director_out + said,
                        ..self.tunnels
                    },
                    ..self
                }.told(all_feedback(said.len()))
            },
            CommandView::Goto(target) => self.ordered(
                agent_id,
                tick,
                ActionTimer::Delay(GOTO_DELAY),
                ActionKind::PathToPosition(snapped(world, target).to_world_spec(), GOTO_TOLERANCE),
            ),
            CommandView::GoalAdd(text) => Parsing {
                director: LLMDirectorView {
                    goals: self.director.goals.push(text),
                    ..self.director
                },
                ..self
            },
            CommandView::GoalRemove(place) => Parsing {
                remove_goals: marked(self.remove_goals, self.director.goals, place),
                ..self
            },
            CommandView::MemoryAdd(text) => Parsing {
                director: LLMDirectorView {
                    memory: self.director.memory.push(text),
                    ..self.director
                },
                ..self
            },
            CommandView::MemoryRemove(place) => Parsing {
                remove_memory: marked(self.remove_memory, self.director.memory, place),
                ..self
            },
            CommandView::Block(change, at) => self.ordered(
                agent_id,
                tick,
                ActionTimer::Delay(BLOCK_DELAY),
                ActionKind::ChangeVoxel(at, changed_voxel(change)),
            ),
            CommandView::Fill(change, from, size) => if fill_fits(from, size) {
                Parsing {
                    counter: self.counter.advanced(fill_count(size)),
                    tunnels: self.tunnels.with_actions(
                        fill_events(agent_id, change, from, size, self.counter, tick),
                    ),
                    ..self
                }
            } else {
                self
            },
        }
    }

    /// The state after the first `k` of `lines` have been read, each for
    /// the command it gives.
    pub open spec fn read(
        self,
        lines: Seq<Seq<char>>,
        k: int,
        agent_id: usize,
        first_ent: &GameEntityVecRead,
        world: &GameMap<CoolVoxel>,
        tick: usize,
    ) -> Parsing
        decreases k,
    {
        if k <= 0 {
            self
        } else {
            let before = self.read(lines, k - 1, agent_id, first_ent, world, tick);
            match command_of(lines[k - 1]) {
                Some(command) => before.executed(command, agent_id, first_ent, world, tick),
                None => before,
            }
        }
    }

    /// The state after the entries marked for removal have left the goals
    /// and the memories.
    pub open spec fn settled(self) -> Parsing {
        Parsing {
            director: LLMDirectorView {
                goals: kept(
                    self.director.goals,
                    self.remove_goals,
                    self.director.goals.len() as int,
                ),
                memory: kept(
                    self.director.memory,
                    self.remove_memory,
                    self.director.memory.len() as int,
                ),
                ..self.director
            },
            remove_goals: Seq::empty(),
            remove_memory: Seq::empty(),
            ..self
        }
    }

    /// The state after the commands in `text` have been carried out, line by
    /// line, and the marked goals and memories have gone.
    pub open spec fn obeyed(
        self,
        text: Seq<char>,
        agent_id: usize,
        first_ent: &GameEntityVecRead,
        world: &GameMap<CoolVoxel>,
        tick: usize,
    ) -> Parsing {
        self.read(
            lines_of(text),
            lines_of(text).len() as int,
            agent_id,
            first_ent,
            world,
            tick,
        ).settled()
    }
}

/// Lets the closest other agent hear `text`.
fn say_closest(agent_id: usize, first_ent: &GameEntityVecRead, text: &Vec<char>, tunnels: &mut Tunnels)
    requires
        agent_id < first_ent.movement.len(),
    ensures
        final(tunnels)@ == match closest_among(
            first_ent.movement@,
            agent_id,
            first_ent.movement.len() as int,
        ) {
            Some(listener) => old(tunnels)@.with_director(heard(agent_id, listener, text@)),
            None => old(tunnels)@,
        },
{
    let agent_pos = first_ent.movement[agent_id].pos;
    let mut closest: Option<(usize, u128)> = None;
    let mut k: usize = 0;
    while k < first_ent.movement.len()
        invariant
            k <= first_ent.movement.len(),
            agent_id < first_ent.movement.len(),
            agent_pos == first_ent.movement[agent_id as int].pos,
            match closest {
                Some((best, distance)) => closest_among(first_ent.movement@, agent_id, k as int)
                    == Some(best) && best < first_ent.movement.len() && distance == dist2_capped(
                    agent_pos,
                    first_ent.movement[best as int].pos,
                ),
                None => closest_among(first_ent.movement@, agent_id, k as int) is None,
            },
        decreases first_ent.movement.len() - k,
    {
        if k != agent_id {
            let new_distance: u128 = agent_pos.dist2(&first_ent.movement[k].pos);
            match closest {
                Some((_, distance)) => {
                    if new_distance < distance {
                        closest = Some((k, new_distance));
                    }
                },
                None => {
                    closest = Some((k, new_distance));
                },
            }
        }
        k += 1;
    }
    match closest {
        Some((listener, _)) => {
            tunnels.send_director(
                listener,
                Some(CoolGameEngineTID::Entity1(agent_id)),
                DirectorUpdate::SendAlert(DirectorAlert::HeardWords(agent_id, string_of(text))),
            );
        },
        None => {},
    }
}

/// Lets every other agent hear `text`, or every other agent within
/// earshot, and counts them.
fn say_to_many(
    agent_id: usize,
    first_ent: &GameEntityVecRead,
    local: bool,
    text: &Vec<char>,
    tunnels: &mut Tunnels,
) -> (count: usize)
    requires
        agent_id < first_ent.movement.len(),
    ensures
        final(tunnels)@ == (TunnelsView {
            director_out: old(tunnels)@.director_out + said_among(
                first_ent.movement@,
                agent_id,
                local,
                text@,
                first_ent.movement.len() as int,
            ),
            ..old(tunnels)@
        }),
        count == said_among(
            first_ent.movement@,
            agent_id,
            local,
            text@,
            first_ent.movement.len() as int,
        ).len(),
{
    let agent_pos = first_ent.movement[agent_id].pos;
    let mut count: usize = 0;
    let mut k: usize = 0;
    assert(old(tunnels)@.director_out + Seq::<DirectorEventView>::empty() =~= old(
        tunnels,
    )@.director_out);
    while k < first_ent.movement.len()
        invariant
            k <= first_ent.movement.len(),
            agent_id < first_ent.movement.len(),
            agent_pos == first_ent.movement[agent_id as int].pos,
            count <= k,
            count == said_among(first_ent.movement@, agent_id, local, text@, k as int).len(),
            tunnels@ == (TunnelsView {
                director_out: old(tunnels)@.director_out + said_among(
                    first_ent.movement@,
                    agent_id,
                    local,
                    text@,
                    k as int,
                ),
                ..old(tunnels)@
            }),
        decreases first_ent.movement.len() - k,
    {
        let ghost said = said_among(first_ent.movement@, agent_id, local, text@, k as int);
        if k != agent_id && (!local || agent_pos.is_within(&first_ent.movement[k].pos, EARSHOT)) {
            tunnels.send_director(
                k,
                Some(CoolGameEngineTID::Entity1(agent_id)),
                DirectorUpdate::SendAlert(DirectorAlert::HeardWords(agent_id, string_of(text))),
            );
            count += 1;
            assert((old(tunnels)@.director_out + said).push(heard(agent_id, k, text@)) =~= old(
                tunnels,
            )@.director_out + said.push(heard(agent_id, k, text@)));
        }
        k += 1;
    }
    count
}

/// What a director is told after it has spoken to `count` agents within
/// earshot.
fn local_feedback_text(count: usize) -> (text: String)
    ensures
        text@ == local_feedback(count as nat),
{
    let mut text = String::from_str("Your last SAY local command reached ");
    push_decimal_nat(&mut text, count as u64);
    if count > 0 {
        text.append(" other agents");
    } else {
        text.append(
            " other agents, consider using the \"closest\" or \"all\" modes to be certain to reach someone",
        );
    }
    text
}

/// What a director is told after it has spoken to all `count` other agents.
fn all_feedback_text(count: usize) -> (text: String)
    ensures
        text@ == all_feedback(count as nat),
{
    let mut text = String::from_str("Your last SAY all command reached ");
    push_decimal_nat(&mut text, count as u64);
    text.append(" other agents");
    text
}

/// The voxel that a change leaves.
fn voxel_for(change: BlockChange) -> (voxel: CoolVoxel)
    ensures
        voxel == changed_voxel(change),
{
    CoolVoxel::new(
        match change {
            BlockChange::Place => PLACED_VOXEL_TYPE,
            BlockChange::Destroy => EMPTY_VOXEL_TYPE,
        },
        0,
        VoxelLight::max_light(),
    )
}

/// Adds one new action to the queue of `agent_id`.
fn order(
    agent_id: usize,
    tick: usize,
    timer: ActionTimer,
    kind: ActionKind,
    counter: &mut ActionCounter,
    tunnels: &mut Tunnels,
)
    ensures
        *final(counter) == old(counter).advanced(1),
        final(tunnels)@ == old(tunnels)@.with_action(
            addition(
                agent_id,
                Action {
                    id: old(counter).latest_id,
                    started_at: tick,
                    timer,
                    kind,
                    source: ActionSource::Director,
                },
            ),
        ),
{
    let id = counter.get_next_id();
    tunnels.send_action(
        agent_id,
        ActionsUpdate::AddAction(Action::new(id, tick, timer, kind, ActionSource::Director)),
    );
}

/// Marks `place` for removal where it names an entry of `list` that is not
/// marked yet.
fn mark(removals: &mut Vec<usize>, list: &Vec<String>, place: usize)
    ensures
        final(removals)@ == marked(old(removals)@, strings_view(list@), place),
{
    if list.len() > place {
        let mut i: usize = 0;
        while i < removals.len()
            invariant
                i <= removals.len(),
                *removals == *old(removals),
                forall|j: int| 0 <= j < i ==> removals[j] != place,
            decreases removals.len() - i,
        {
            if removals[i] == place {
                return ;
            }
            i += 1;
        }
        removals.push(place);
    }
}

/// Whether `place` is marked for removal.
fn is_marked(removals: &Vec<usize>, place: usize) -> (marked: bool)
    ensures
        marked == removals@.contains(place),
{
    let mut i: usize = 0;
    while i < removals.len()
        invariant
            i <= removals.len(),
            forall|j: int| 0 <= j < i ==> removals[j] != place,
        decreases removals.len() - i,
    {
        if removals[i] == place {
            return true;
        }
        i += 1;
    }
    false
}

/// Takes the entries marked for removal out of `list`.
fn settle(list: &mut Vec<String>, removals: &Vec<usize>)
    ensures
        strings_view(final(list)@) == kept(
            strings_view(old(list)@),
            removals@,
            old(list).len() as int,
        ),
{
    let mut left: Vec<String> = Vec::with_capacity(list.len());
    let mut k: usize = 0;
    assert(strings_view(left@) =~= Seq::empty());
    while k < list.len()
        invariant
            k <= list.len(),
            *list == *old(list),
            strings_view(left@) == kept(strings_view(list@), removals@, k as int),
        decreases list.len() - k,
    {
        if !is_marked(removals, k) {
            let ghost before = strings_view(left@);
            left.push(list[k].clone());
            assert(strings_view(left@) =~= before.push(list[k as int]@));
        }
        k += 1;
    }
    *list = left;
}

/// Adds one action for each voxel of a box to the queue of `agent_id`.
fn fill(
    agent_id: usize,
    change: BlockChange,
    from: WorldVoxelPos,
    size: WorldVoxelPos,
    tick: usize,
    counter: &mut ActionCounter,
    tunnels: &mut Tunnels,
)
    ensures
        fill_fits(from, size) ==> *final(counter) == old(counter).advanced(fill_count(size))
            && final(tunnels)@ == old(tunnels)@.with_actions(
            fill_events(agent_id, change, from, size, *old(counter), tick),
        ),
        !fill_fits(from, size) ==> *final(counter) == *old(counter) && final(tunnels)@ == old(
            tunnels,
        )@,
{
    if size.x <= 0 || size.y <= 0 || size.z <= 0 {
        return ;
    }
    if from.x as i64 + size.x as i64 - 1 > 0x7fff_ffff || from.y as i64 + size.y as i64 - 1
        > 0x7fff_ffff || from.z as i64 + size.z as i64 - 1 > 0x7fff_ffff {
        return ;
    }
    let dx: u128 = size.x as u128;
    let dy: u128 = size.y as u128;
    let dz: u128 = size.z as u128;
    assert(1 <= dy * dz <= 0x8000_0000 * 0x8000_0000 && dx * dy * dz <= 0x8000_0000 * 0x8000_0000
        * 0x8000_0000 && dx * dy * dz == dx * (dy * dz)) by (nonlinear_arith)
        requires
            1 <= dx <= 0x8000_0000,
            1 <= dy <= 0x8000_0000,
            1 <= dz <= 0x8000_0000,
    ;
    let slice: u128 = dy * dz;
    let count: u128 = dx * slice;
    let delay: usize = if count + (FILL_BASE_DELAY as u128) > usize::MAX as u128 {
        usize::MAX
    } else {
        (count + (FILL_BASE_DELAY as u128)) as usize
    };
    let voxel = voxel_for(change);
    let ghost events = fill_events(agent_id, change, from, size, *old(counter), tick);
    let mut k: u128 = 0;
    assert(old(tunnels)@.actions_out + events.subrange(0, 0) =~= old(tunnels)@.actions_out);
    while k < count
        invariant
            k <= count,
            count == fill_count(size),
            count == dx * slice,
            slice == dy * dz,
            slice >= 1,
            dx == size.x,
            dy == size.y,
            dz == size.z,
            fill_fits(from, size),
            delay == fill_delay(size),
            voxel == changed_voxel(change),
            events == fill_events(agent_id, change, from, size, *old(counter), tick),
            *counter == old(counter).advanced(k as nat),
            tunnels@ == old(tunnels)@.with_actions(events.subrange(0, k as int)),
        decreases count - k,
    {
        let along_x: u128 = k / slice;
        let along_y: u128 = (k / dz) % dy;
        let along_z: u128 = k % dz;
        assert(along_x < dx) by (nonlinear_arith)
            requires
                k < dx * slice,
                along_x == (k as int) / (slice as int),
                slice >= 1,
        ;
        let at = WorldVoxelPos {
            x: (from.x as i64 + along_x as i64) as i32,
            y: (from.y as i64 + along_y as i64) as i32,
            z: (from.z as i64 + along_z as i64) as i32,
        };
        assert(at == fill_voxel(from, size, k as int));
        let id = counter.get_next_id();
        let action = Action::new(
            id,
            tick,
            ActionTimer::Delay(delay),
            ActionKind::ChangeVoxel(at, voxel),
            ActionSource::Director,
        );
        assert(action == fill_action(change, from, size, *old(counter), tick, k as int));
        tunnels.send_action(agent_id, ActionsUpdate::AddAction(action));
        assert(old(tunnels)@.actions_out + events.subrange(0, k + 1) =~= (old(
            tunnels,
        )@.actions_out + events.subrange(0, k as int)).push(events[k as int]));
        k += 1;
    }
    assert(events.subrange(0, count as int) =~= events);
}

/// The state that the commands of an answer act on, as the director, the
/// marks, the counter and the tunnels hold it.
pub open spec fn parsing_of(
    director: &LLMDirector,
    remove_goals: &Vec<usize>,
    remove_memory: &Vec<usize>,
    counter: &ActionCounter,
    tunnels: &Tunnels,
) -> Parsing {
    Parsing {
        director: director@,
        remove_goals: remove_goals@,
        remove_memory: remove_memory@,
        counter: *counter,
        tunnels: tunnels@,
    }
}

impl LLMDirector {
    /// What commands leave alone: the requests in flight, the answers not
    /// read yet, the id of the next request and the tick of the last.
    pub open spec fn kept_aside(&self, before: &LLMDirector) -> bool {
        &&& self.in_flight_prompts == before.in_flight_prompts
        &&& self.responses == before.responses
        &&& self.latest_id == before.latest_id
        &&& self.last_prompt_tick == before.last_prompt_tick
    }

    /// Carries out one command for the agent `agent_id` on tick `tick`.
    pub fn execute(
        &mut self,
        command: Command,
        remove_goals: &mut Vec<usize>,
        remove_memory: &mut Vec<usize>,
        agent_id: usize,
        first_ent: &GameEntityVecRead,
        world: &GameMap<CoolVoxel>,
        tick: usize,
        counter: &mut ActionCounter,
        tunnels: &mut Tunnels,
    )
        requires
            agent_id < first_ent.movement.len(),
            world.wf(),
        ensures
            parsing_of(
                final(self),
                final(remove_goals),
                final(remove_memory),
                final(counter),
                final(tunnels),
            ) == parsing_of(
                old(self),
                old(remove_goals),
                old(remove_memory),
                old(counter),
                old(tunnels),
            ).executed(command@, agent_id, first_ent, world, tick),
            final(self).kept_aside(old(self)),
    {
        match command {
            Command::Say(SayMode::Closest, text) => {
                say_closest(agent_id, first_ent, &text, tunnels);
            },
            Command::Say(SayMode::Local, text) => {
                let count = say_to_many(agent_id, first_ent, true, &text, tunnels);
                let ghost before = self@.feedback;
                let told = local_feedback_text(count);
                self.feedback.push(told);
                assert(self@.feedback =~= before.push(told@));
            },
            Command::Say(SayMode::All, text) => {
                let count = say_to_many(agent_id, first_ent, false, &text, tunnels);
                let ghost before = self@.feedback;
                let told = all_feedback_text(count);
                self.feedback.push(told);
                assert(self@.feedback =~= before.push(told@));
            },
            Command::Goto(target) => {
                let place = snap_to_walkable(world, target);
                order(
                    agent_id,
                    tick,
                    ActionTimer::Delay(GOTO_DELAY),
                    ActionKind::PathToPosition(place.to_world(), GOTO_TOLERANCE),
                    counter,
                    tunnels,
                );
            },
            Command::GoalAdd(text) => {
                let ghost before = self@.goals;
                self.goals.push(string_of(&text));
                assert(self@.goals =~= before.push(text@));
            },
            Command::GoalRemove(place) => {
                mark(remove_goals, &self.goals, place);
            },
            Command::MemoryAdd(text) => {
                let ghost before = self@.memory;
                self.memory.push(string_of(&text));
                assert(self@.memory =~= before.push(text@));
            },
            Command::MemoryRemove(place) => {
                mark(remove_memory, &self.memory, place);
            },
            Command::Block(change, at) => {
                order(
                    agent_id,
                    tick,
                    ActionTimer::Delay(BLOCK_DELAY),
                    ActionKind::ChangeVoxel(at, voxel_for(change)),
                    counter,
                    tunnels,
                );
            },
            Command::Fill(change, from, size) => {
                fill(agent_id, change, from, size, tick, counter, tunnels);
            },
        }
    }

    /// Carries out the commands in `commands`, one to a line, for the agent
    /// `agent_id` on tick `tick`; lines that give no command are passed
    /// over. Goals and memories marked for removal leave once every line
    /// has been read.
    pub fn parse_commands(
        &mut self,
        commands: String,
        agent_id: usize,
        first_ent: &GameEntityVecRead,
        world: &GameMap<CoolVoxel>,
        tick: usize,
        counter: &mut ActionCounter,
        tunnels: &mut Tunnels,
    )
        requires
            agent_id < first_ent.movement.len(),
            world.wf(),
        ensures
            (Parsing {
                director: final(self)@,
                remove_goals: Seq::empty(),
                remove_memory: Seq::empty(),
                counter: *final(counter),
                tunnels: final(tunnels)@,
            }) == (Parsing {
                director: old(self)@,
                remove_goals: Seq::empty(),
                remove_memory: Seq::empty(),
                counter: *old(counter),
                tunnels: old(tunnels)@,
            }).obeyed(commands@, agent_id, first_ent, world, tick),
            final(self).kept_aside(old(self)),
    {
        let mut remove_goals: Vec<usize> = Vec::with_capacity(5);
        let mut remove_memory: Vec<usize> = Vec::with_capacity(5);
        let text = chars_of(commands.as_str());
        let lines = split_lines(&text);
        let ghost start = parsing_of(self, &remove_goals, &remove_memory, counter, tunnels);
        let ghost texts = lines_of(commands@);
        let mut k: usize = 0;
        while k < lines.len()
            invariant
                k <= lines.len(),
                agent_id < first_ent.movement.len(),
                world.wf(),
                texts == texts_view(lines@),
                self.kept_aside(old(self)),
                parsing_of(self, &remove_goals, &remove_memory, counter, tunnels) == start.read(
                    texts,
                    k as int,
                    agent_id,
                    first_ent,
                    world,
                    tick,
                ),
            decreases lines.len() - k,
        {
            assert(texts[k as int] == lines[k as int]@);
            match parse_line(&lines[k]) {
                Some(command) => {
                    self.execute(
                        command,
                        &mut remove_goals,
                        &mut remove_memory,
                        agent_id,
                        first_ent,
                        world,
                        tick,
                        counter,
                        tunnels,
                    );
                },
                None => {},
            }
            k += 1;
        }
        settle(&mut self.goals, &remove_goals);
        settle(&mut self.memory, &remove_memory);
    }
}

} // verus!
