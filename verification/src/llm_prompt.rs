//! The text that a language-model director sends to the service: who the
//! agent is, what it remembers, what it sees around it, what it pursues and
//! why it asks.
//!
//! Every function that writes takes the text written so far and gives it
//! back longer.

use vstd::prelude::*;
use crate::entity::Movement;
use crate::game_entity::GameEntityVecRead;
use crate::game_map::GameMap;
use crate::geometry::{WorldVoxelPos, get_voxel_pos, voxel_pos_spec};
use crate::entity::CoolGameEngineTID;
use crate::llm_director::{
    DirectorAlert,
    DirectorAlertView,
    InFlightPrompt,
    InFlightPromptView,
    LLMDirector,
    LLMDirectorView,
    alerts_view,
};
use crate::llm_responses::find_prompt;
use crate::proxima_link::{
    ChatSettings,
    ContextPart,
    ContextPartView,
    ContextPosition,
    EndpointRequestVariant,
    EndpointRequestVariantView,
    HordeProximaAIRequest,
    HordeProximaAIRequestView,
};
use crate::text::{
    clone_strings,
    decimal,
    decimal_nat,
    decimal_string,
    push_decimal,
    push_decimal_nat,
    strings_view,
};
use crate::voxel::{CoolVoxel, Voxel};

verus! {

/// The kind of voxel that a map marks apart from other solid ones.
pub const MARKED_VOXEL_ID: usize = 9;

/// The head of a column of a map: the number of the column in a field five
/// wide, as far as it fits.
pub open spec fn column_label(out: Seq<char>, x: int) -> Seq<char> {
    let number = decimal(x);
    if number.len() == 1 {
        out + "  "@ + number + "  "@
    } else if number.len() == 2 {
        out + " "@ + number + "  "@
    } else if number.len() == 3 {
        out + " "@ + number + " "@
    } else if number.len() == 4 {
        out + number + " "@
    } else {
        out + "     "@
    }
}

/// The heads of `k` columns from the column `from_x` on.
pub open spec fn column_labels(out: Seq<char>, from_x: int, k: int) -> Seq<char>
    decreases k,
{
    if k <= 0 {
        out
    } else {
        column_label(column_labels(out, from_x, k - 1), from_x + k - 1)
    }
}

/// The head of a row of a map: the number of the row in a field three wide,
/// as far as it fits.
pub open spec fn row_label(out: Seq<char>, y: int) -> Seq<char> {
    let number = decimal(y);
    if number.len() == 1 {
        out + " "@ + number + " "@
    } else if number.len() == 2 {
        out + number + " "@
    } else if number.len() == 3 {
        out + number
    } else {
        out + "   "@
    }
}

/// Number of columns or rows from `low` to `high`, both counted.
pub open spec fn span(low: i32, high: i32) -> int {
    if high >= low {
        high - low + 1
    } else {
        0
    }
}

/// The voxel `at` lies in the part of a map where other agents are drawn:
/// from the corner `from` up to, not counting, the corner `to`.
pub open spec fn in_view(from: WorldVoxelPos, to: WorldVoxelPos, at: WorldVoxelPos) -> bool {
    from.x <= at.x < to.x && from.y <= at.y < to.y
}

/// One of the agents from `low` up to, not counting, `high` stands in the
/// voxel `at`, the agent `agent_id` aside.
pub open spec fn others_at(
    movement: Seq<Movement>,
    agent_id: usize,
    at: WorldVoxelPos,
    low: int,
    high: int,
) -> bool
    decreases high - low,
{
    if high <= low {
        false
    } else {
        others_at(movement, agent_id, at, low, high - 1) || (high - 1 != agent_id && voxel_pos_spec(
            movement[high - 1].pos,
        ) == at)
    }
}

/// The voxel right below `at`, where the grid has one.
pub open spec fn below(at: WorldVoxelPos) -> Option<WorldVoxelPos> {
    if at.z > i32::MIN {
        Some(WorldVoxelPos { x: at.x, y: at.y, z: (at.z - 1) as i32 })
    } else {
        None
    }
}

/// One voxel of a map: `@` for the agent itself, `a` for another agent,
/// `%` for something solid, with its own mark for the marked kind, `-` for
/// air above something solid, `.` for air above air.
pub open spec fn cell(
    out: Seq<char>,
    world: &GameMap<CoolVoxel>,
    movement: Seq<Movement>,
    agent_id: usize,
    from: WorldVoxelPos,
    to: WorldVoxelPos,
    at: WorldVoxelPos,
) -> Seq<char> {
    if at == voxel_pos_spec(movement[agent_id as int].pos) {
        out + "  @  "@
    } else if in_view(from, to, at) && others_at(movement, agent_id, at, 0, movement.len() as int) {
        out + "  a  "@
    } else if world.solid(at) {
        if world.voxel_at(at)->0.voxel_id_spec() == MARKED_VOXEL_ID {
            out + "  \u{b5}  "@
        } else {
            out + "  %  "@
        }
    } else if below(at) is Some && world.solid(below(at)->0) {
        out + "  -  "@
    } else {
        out + "  .  "@
    }
}

/// The first `k` voxels of the row `y` of a map.
pub open spec fn cells(
    out: Seq<char>,
    world: &GameMap<CoolVoxel>,
    movement: Seq<Movement>,
    agent_id: usize,
    from: WorldVoxelPos,
    to: WorldVoxelPos,
    y: i32,
    k: int,
) -> Seq<char>
    decreases k,
{
    if k <= 0 {
        out
    } else {
        cell(
            cells(out, world, movement, agent_id, from, to, y, k - 1),
            world,
            movement,
            agent_id,
            from,
            to,
            WorldVoxelPos { x: (from.x + k - 1) as i32, y, z: from.z },
        )
    }
}

/// The row `y` of a map: its head, its voxels, and a line feed.
pub open spec fn row(
    out: Seq<char>,
    world: &GameMap<CoolVoxel>,
    movement: Seq<Movement>,
    agent_id: usize,
    from: WorldVoxelPos,
    to: WorldVoxelPos,
    y: i32,
) -> Seq<char> {
    cells(row_label(out, y as int), world, movement, agent_id, from, to, y, span(from.x, to.x))
        + "\n"@
}

/// The first `k` rows of a map.
pub open spec fn rows(
    out: Seq<char>,
    world: &GameMap<CoolVoxel>,
    movement: Seq<Movement>,
    agent_id: usize,
    from: WorldVoxelPos,
    to: WorldVoxelPos,
    k: int,
) -> Seq<char>
    decreases k,
{
    if k <= 0 {
        out
    } else {
        row(
            rows(out, world, movement, agent_id, from, to, k - 1),
            world,
            movement,
            agent_id,
            from,
            to,
            (from.y + k - 1) as i32,
        )
    }
}

/// The agent `i` is drawn on the map: it is another agent and stands on the
/// map's level where other agents are drawn.
pub open spec fn drawn(
    movement: Seq<Movement>,
    agent_id: usize,
    from: WorldVoxelPos,
    to: WorldVoxelPos,
    i: int,
) -> bool {
    let at = voxel_pos_spec(movement[i].pos);
    i != agent_id && at.z == from.z && in_view(from, to, at)
}

/// One of the first `k` agents is drawn on the map.
pub open spec fn any_drawn(
    movement: Seq<Movement>,
    agent_id: usize,
    from: WorldVoxelPos,
    to: WorldVoxelPos,
    k: int,
) -> bool
    decreases k,
{
    k > 0 && (any_drawn(movement, agent_id, from, to, k - 1) || drawn(
        movement,
        agent_id,
        from,
        to,
        k - 1,
    ))
}

/// The agent `i` is named under the map: it is drawn, and no agent after
/// it stands in the same voxel.
pub open spec fn listed(
    movement: Seq<Movement>,
    agent_id: usize,
    from: WorldVoxelPos,
    to: WorldVoxelPos,
    i: int,
) -> bool {
    drawn(movement, agent_id, from, to, i) && !others_at(
        movement,
        agent_id,
        voxel_pos_spec(movement[i].pos),
        i + 1,
        movement.len() as int,
    )
}

/// The line that names an agent under a map.
pub open spec fn other_line(out: Seq<char>, at: WorldVoxelPos, name: Seq<char>) -> Seq<char> {
    out + "  - ("@ + decimal(at.x as int) + ", "@ + decimal(at.y as int) + ", "@ + decimal(
        at.z as int,
    ) + ") : "@ + name + "\n"@
}

/// The lines that name those of the first `k` agents that are named under
/// the map.
pub open spec fn other_lines(
    out: Seq<char>,
    first_ent: &GameEntityVecRead,
    agent_id: usize,
    from: WorldVoxelPos,
    to: WorldVoxelPos,
    k: int,
) -> Seq<char>
    decreases k,
{
    if k <= 0 {
        out
    } else if listed(first_ent.movement@, agent_id, from, to, k - 1) {
        other_line(
            other_lines(out, first_ent, agent_id, from, to, k - 1),
            voxel_pos_spec(first_ent.movement[k - 1].pos),
            first_ent.director[k - 1]@.name,
        )
    } else {
        other_lines(out, first_ent, agent_id, from, to, k - 1)
    }
}

/// What stands under a map: nothing where no other agent is drawn, else a
/// heading and the agents by name.
pub open spec fn others(
    out: Seq<char>,
    first_ent: &GameEntityVecRead,
    agent_id: usize,
    from: WorldVoxelPos,
    to: WorldVoxelPos,
) -> Seq<char> {
    if any_drawn(first_ent.movement@, agent_id, from, to, first_ent.movement.len() as int) {
        other_lines(
            out + "\nother agents :\n"@,
            first_ent,
            agent_id,
            from,
            to,
            first_ent.movement.len() as int,
        )
    } else {
        out
    }
}

/// The map of one level of the world from the corner `from` to the corner
/// `to`, as the agent `agent_id` sees it: the heads of the columns, the rows,
/// and the other agents.
pub open spec fn world_slice(
    out: Seq<char>,
    from: WorldVoxelPos,
    to: WorldVoxelPos,
    agent_id: usize,
    first_ent: &GameEntityVecRead,
    world: &GameMap<CoolVoxel>,
) -> Seq<char> {
    let head = column_labels(
        out + "<map z = "@ + decimal(from.z as int) + ">\n   "@,
        from.x as int,
        span(from.x, to.x),
    );
    let body = rows(
        head + "\n"@,
        world,
        first_ent.movement@,
        agent_id,
        from,
        to,
        span(from.y, to.y),
    );
    others(body, first_ent, agent_id, from, to) + "\n</map z = "@ + decimal(from.z as int)
        + ">\n"@
}

/// Writes the head of a column.
fn push_column_label(out: &mut String, x: i32)
    ensures
        final(out)@ == column_label(old(out)@, x as int),
{
    let number = decimal_string(x as i64);
    let length = number.as_str().unicode_len();
    if length == 1 {
        out.append("  ");
        out.append(number.as_str());
        out.append("  ");
    } else if length == 2 {
        out.append(" ");
        out.append(number.as_str());
        out.append("  ");
    } else if length == 3 {
        out.append(" ");
        out.append(number.as_str());
        out.append(" ");
    } else if length == 4 {
        out.append(number.as_str());
        out.append(" ");
    } else {
        out.append("     ");
    }
}

/// Writes the head of a row.
fn push_row_label(out: &mut String, y: i32)
    ensures
        final(out)@ == row_label(old(out)@, y as int),
{
    let number = decimal_string(y as i64);
    let length = number.as_str().unicode_len();
    if length == 1 {
        out.append(" ");
        out.append(number.as_str());
        out.append(" ");
    } else if length == 2 {
        out.append(number.as_str());
        out.append(" ");
    } else if length == 3 {
        out.append(number.as_str());
    } else {
        out.append("   ");
    }
}

/// Whether one of the agents from `low` up to `high` stands in `at`, the
/// agent `agent_id` aside.
fn is_other_at(first_ent: &GameEntityVecRead, agent_id: usize, at: WorldVoxelPos, low: usize, high: usize) -> (found:
    bool)
    requires
        low <= high <= first_ent.movement.len(),
    ensures
        found == others_at(first_ent.movement@, agent_id, at, low as int, high as int),
{
    let mut found: bool = false;
    let mut k: usize = low;
    while k < high
        invariant
            low <= k <= high <= first_ent.movement.len(),
            found == others_at(first_ent.movement@, agent_id, at, low as int, k as int),
        decreases high - k,
    {
        if k != agent_id && get_voxel_pos(first_ent.movement[k].pos) == at {
            found = true;
        }
        k += 1;
    }
    found
}

/// Writes one voxel of a map.
fn push_cell(
    out: &mut String,
    world: &GameMap<CoolVoxel>,
    first_ent: &GameEntityVecRead,
    agent_id: usize,
    from: WorldVoxelPos,
    to: WorldVoxelPos,
    at: WorldVoxelPos,
)
    requires
        agent_id < first_ent.movement.len(),
        world.wf(),
    ensures
        final(out)@ == cell(old(out)@, world, first_ent.movement@, agent_id, from, to, at),
{
    let agent_pos = get_voxel_pos(first_ent.movement[agent_id].pos);
    if at == agent_pos {
        out.append("  @  ");
    } else if from.x <= at.x && at.x < to.x && from.y <= at.y && at.y < to.y && is_other_at(
        first_ent,
        agent_id,
        at,
        0,
        first_ent.movement.len(),
    ) {
        out.append("  a  ");
    } else if world.is_voxel_solid(at) {
        let marked = match world.get_voxel_at(at) {
            Some(voxel) => voxel.voxel_id() == MARKED_VOXEL_ID,
            None => false,
        };
        if marked {
            out.append("  \u{b5}  ");
        } else {
            out.append("  %  ");
        }
    } else if at.z > i32::MIN && world.is_voxel_solid(
        WorldVoxelPos { x: at.x, y: at.y, z: at.z - 1 },
    ) {
        out.append("  -  ");
    } else {
        out.append("  .  ");
    }
}

/// Writes one row of a map.
fn push_row(
    out: &mut String,
    world: &GameMap<CoolVoxel>,
    first_ent: &GameEntityVecRead,
    agent_id: usize,
    from: WorldVoxelPos,
    to: WorldVoxelPos,
    y: i32,
)
    requires
        agent_id < first_ent.movement.len(),
        world.wf(),
    ensures
        final(out)@ == row(old(out)@, world, first_ent.movement@, agent_id, from, to, y),
{
    push_row_label(out, y);
    let ghost labelled = out@;
    let mut x: i64 = from.x as i64;
    while x <= to.x as i64
        invariant
            from.x <= x <= to.x + 1 || (x == from.x && to.x < from.x),
            agent_id < first_ent.movement.len(),
            world.wf(),
            out@ == cells(labelled, world, first_ent.movement@, agent_id, from, to, y, x - from.x),
        decreases to.x + 1 - x,
    {
        push_cell(out, world, first_ent, agent_id, from, to, WorldVoxelPos { x: x as i32, y, z: from.z });
        x += 1;
    }
    out.append("\n");
}

/// Writes the agents that are named under a map.
fn push_others(
    out: &mut String,
    first_ent: &GameEntityVecRead,
    agent_id: usize,
    from: WorldVoxelPos,
    to: WorldVoxelPos,
)
    requires
        first_ent.wf(),
    ensures
        final(out)@ == others(old(out)@, first_ent, agent_id, from, to),
{
    let count = first_ent.movement.len();
    let mut any: bool = false;
    let mut i: usize = 0;
    while i < count
        invariant
            i <= count,
            count == first_ent.movement.len(),
            any == any_drawn(first_ent.movement@, agent_id, from, to, i as int),
        decreases count - i,
    {
        let at = get_voxel_pos(first_ent.movement[i].pos);
        if i != agent_id && at.z == from.z && from.x <= at.x && at.x < to.x && from.y <= at.y
            && at.y < to.y {
            any = true;
        }
        i += 1;
    }
    if any {
        out.append("\nother agents :\n");
        let ghost headed = out@;
        let mut k: usize = 0;
        while k < count
            invariant
                k <= count,
                count == first_ent.movement.len(),
                first_ent.wf(),
                out@ == other_lines(headed, first_ent, agent_id, from, to, k as int),
            decreases count - k,
        {
            let at = get_voxel_pos(first_ent.movement[k].pos);
            if k != agent_id && at.z == from.z && from.x <= at.x && at.x < to.x && from.y <= at.y
                && at.y < to.y && !is_other_at(first_ent, agent_id, at, k + 1, count) {
                out.append("  - (");
                push_decimal(out, at.x as i64);
                out.append(", ");
                push_decimal(out, at.y as i64);
                out.append(", ");
                push_decimal(out, at.z as i64);
                out.append(") : ");
                out.append(first_ent.director[k].get_name().as_str());
                out.append("\n");
            }
            k += 1;
        }
    }
}

/// Writes the map of one level of the world behind what `out` holds.
pub fn push_world_slice(
    out: &mut String,
    from: WorldVoxelPos,
    to: WorldVoxelPos,
    agent_id: usize,
    first_ent: &GameEntityVecRead,
    world: &GameMap<CoolVoxel>,
)
    requires
        first_ent.wf(),
        agent_id < first_ent.movement.len(),
        world.wf(),
    ensures
        final(out)@ == world_slice(old(out)@, from, to, agent_id, first_ent, world),
{
    out.append("<map z = ");
    push_decimal(out, from.z as i64);
    out.append(">\n   ");
    let ghost titled = out@;
    let mut x: i64 = from.x as i64;
    while x <= to.x as i64
        invariant
            from.x <= x <= to.x + 1 || (x == from.x && to.x < from.x),
            out@ == column_labels(titled, from.x as int, x - from.x),
        decreases to.x + 1 - x,
    {
        push_column_label(out, x as i32);
        x += 1;
    }
    out.append("\n");
    let ghost headed = out@;
    let mut y: i64 = from.y as i64;
    while y <= to.y as i64
        invariant
            from.y <= y <= to.y + 1 || (y == from.y && to.y < from.y),
            agent_id < first_ent.movement.len(),
            world.wf(),
            out@ == rows(headed, world, first_ent.movement@, agent_id, from, to, y - from.y),
        decreases to.y + 1 - y,
    {
        push_row(out, world, first_ent, agent_id, from, to, y as i32);
        y += 1;
    }
    push_others(out, first_ent, agent_id, from, to);
    out.append("\n</map z = ");
    push_decimal(out, from.z as i64);
    out.append(">\n");
}

/// The map of one level of the world from the corner `from` to the corner
/// `to`, as the agent `agent_id` sees it.
pub fn get_world_slice_string(
    from: WorldVoxelPos,
    to: WorldVoxelPos,
    agent_id: usize,
    first_ent: &GameEntityVecRead,
    world: &GameMap<CoolVoxel>,
) -> (map: String)
    requires
        first_ent.wf(),
        agent_id < first_ent.movement.len(),
        world.wf(),
    ensures
        map@ == world_slice(Seq::empty(), from, to, agent_id, first_ent, world),
{
    let mut map = String::new();
    push_world_slice(&mut map, from, to, agent_id, first_ent, world);
    map
}

/// How far an agent sees along each axis, in voxels.
pub const SIGHT_RANGE: i32 = 4;

/// Number of levels of the world that a prompt shows: the agent's own, the
/// one below and the one above.
pub const SIGHT_LEVELS: usize = 3;

/// Ticks without a request after which a director asks by itself.
pub const SILENCE_BEFORE_PROMPT: usize = 1000;

/// How long an answer may be, in tokens.
pub const RESPONSE_TOKEN_LIMIT: u32 = 3000;

/// How freely the service is to answer.
pub const TEMPERATURE: u32 = 90;

/// `a + b`, held inside the 32-bit range.
pub open spec fn shifted(a: i32, b: int) -> i32 {
    if a + b > i32::MAX {
        i32::MAX
    } else if a + b < i32::MIN {
        i32::MIN
    } else {
        (a + b) as i32
    }
}

/// The first `k` entries of `list`, each on a line behind its number.
pub open spec fn numbered(out: Seq<char>, list: Seq<Seq<char>>, k: int) -> Seq<char>
    decreases k,
{
    if k <= 0 {
        out
    } else {
        numbered(out, list, k - 1) + decimal_nat(k as nat) + ". "@ + list[k - 1] + "\n"@
    }
}

/// The first `k` entries of `list`, each on a line behind a dash.
pub open spec fn dashed(out: Seq<char>, list: Seq<Seq<char>>, k: int) -> Seq<char>
    decreases k,
{
    if k <= 0 {
        out
    } else {
        dashed(out, list, k - 1) + "- "@ + list[k - 1] + "\n"@
    }
}

/// The name of the agent `speaker`; no name for an agent that is not
/// there.
pub open spec fn speaker_name(first_ent: &GameEntityVecRead, speaker: usize) -> Seq<char> {
    if speaker < first_ent.director.len() {
        first_ent.director[speaker as int]@.name
    } else {
        Seq::empty()
    }
}

/// One reason for a request, on a line.
pub open spec fn reason(out: Seq<char>, first_ent: &GameEntityVecRead, alert: DirectorAlertView) -> Seq<
    char,
> {
    match alert {
        DirectorAlertView::Periodic => out + "Periodic prompting after inactivity\n"@,
        DirectorAlertView::HeardWords(speaker, text) => out
            + "You have heard the following from "@ + speaker_name(first_ent, speaker) + " : \""@
            + text + "\"\n"@,
        DirectorAlertView::FinishedMoveTo(to, worked) => if worked {
            out + "Finished moving to ("@ + decimal(to.x as int) + ", "@ + decimal(to.y as int)
                + ", "@ + decimal(to.z as int) + ")\n"@
        } else {
            out + "Couldn't move to ("@ + decimal(to.x as int) + ", "@ + decimal(to.y as int)
                + ", "@ + decimal(to.z as int) + ")\n"@
        },
    }
}

/// The first `k` reasons for a request.
pub open spec fn reasons(
    out: Seq<char>,
    first_ent: &GameEntityVecRead,
    alerts: Seq<DirectorAlertView>,
    k: int,
) -> Seq<char>
    decreases k,
{
    if k <= 0 {
        out
    } else {
        reason(reasons(out, first_ent, alerts, k - 1), first_ent, alerts[k - 1])
    }
}

/// The corner from which the map of the level `z` around `center` is
/// drawn.
pub open spec fn sight_from(center: WorldVoxelPos, z: i32) -> WorldVoxelPos {
    WorldVoxelPos { x: shifted(center.x, -SIGHT_RANGE), y: shifted(center.y, -SIGHT_RANGE), z }
}

/// The corner up to which the map of the level `z` around `center` is
/// drawn.
pub open spec fn sight_to(center: WorldVoxelPos, z: i32) -> WorldVoxelPos {
    WorldVoxelPos { x: shifted(center.x, SIGHT_RANGE as int), y: shifted(center.y, SIGHT_RANGE as int), z }
}

/// The maps of the first `k` levels that an agent sees, from the level
/// below its own upwards; a level outside the grid has no map.
pub open spec fn levels(
    out: Seq<char>,
    agent_id: usize,
    first_ent: &GameEntityVecRead,
    world: &GameMap<CoolVoxel>,
    k: int,
) -> Seq<char>
    decreases k,
{
    let center = voxel_pos_spec(first_ent.movement[agent_id as int].pos);
    if k <= 0 {
        out
    } else if i32::MIN <= center.z + k - 2 <= i32::MAX {
        world_slice(
            levels(out, agent_id, first_ent, world, k - 1),
            sight_from(center, (center.z + k - 2) as i32),
            sight_to(center, (center.z + k - 2) as i32),
            agent_id,
            first_ent,
            world,
        )
    } else {
        levels(out, agent_id, first_ent, world, k - 1)
    }
}

/// What a director tells the service about its agent: name and place,
/// memories, feedback if there is any, the maps of what it sees, its goals,
/// and the reasons for asking.
pub open spec fn prompt(
    director: LLMDirectorView,
    why: Seq<DirectorAlertView>,
    agent_id: usize,
    first_ent: &GameEntityVecRead,
    world: &GameMap<CoolVoxel>,
) -> Seq<char> {
    let at = voxel_pos_spec(first_ent.movement[agent_id as int].pos);
    let who = "<input_data>\n\n"@ + "<personal_info>\nname:"@ + first_ent.director[agent_id as int]@.name
        + "\nposition : ("@ + decimal(at.x as int) + ", "@ + decimal(at.y as int) + ", "@
        + decimal(at.z as int) + ") \n</personal_info>\n"@;
    let remembered = numbered(
        who + "<memory>\n"@,
        director.memory,
        director.memory.len() as int,
    ) + "</memory>\n"@;
    let told = if director.feedback.len() > 0 {
        dashed(remembered + "<feedback>\n"@, director.feedback, director.feedback.len() as int)
            + "</feedback>\n"@
    } else {
        remembered
    };
    let seen = levels(told, agent_id, first_ent, world, SIGHT_LEVELS as int);
    let pursued = numbered(seen + "<goals>\n"@, director.goals, director.goals.len() as int)
        + "</goals>\n<prompt_reason>\n"@;
    reasons(pursued, first_ent, why, why.len() as int) + "</prompt_reason>\n\n</input_data>\n"@
}

/// The requests in flight with `entry` among them: in the place of the
/// request with the same id, or at the end.
pub open spec fn with_prompt(prompts: Seq<InFlightPromptView>, entry: InFlightPromptView) -> Seq<
    InFlightPromptView,
> {
    match find_prompt(prompts, entry.request_id, 0) {
        Some(i) => prompts.update(i, entry),
        None => prompts.push(entry),
    }
}

impl LLMDirectorView {
    /// The request that the director makes for the agent `agent_id`: under
    /// its next id, with the system's preamble and the director's prompt as
    /// context.
    pub open spec fn payload(
        self,
        agent_id: usize,
        why: Seq<DirectorAlertView>,
        first_ent: &GameEntityVecRead,
        world: &GameMap<CoolVoxel>,
        system_prompt: Seq<char>,
    ) -> HordeProximaAIRequestView {
        HordeProximaAIRequestView {
            request_id: self.latest_id,
            entity_id: CoolGameEngineTID::Entity1(agent_id),
            request: EndpointRequestVariantView::RespondToFullPrompt {
                whole_context: seq![
                    ContextPartView { text: system_prompt, position: ContextPosition::System },
                    ContextPartView {
                        text: prompt(self, why, agent_id, first_ent, world),
                        position: ContextPosition::User,
                    },
                ],
                streaming: false,
                chat_settings: ChatSettings {
                    response_token_limit: RESPONSE_TOKEN_LIMIT,
                    temperature: TEMPERATURE,
                },
            },
        }
    }

    /// The director after it has made a request on tick `tick`: the request
    /// is in flight with its reasons and the feedback that went with it,
    /// and the next request gets the next id.
    pub open spec fn asked(self, agent_id: usize, why: Seq<DirectorAlertView>, tick: usize) -> LLMDirectorView {
        LLMDirectorView {
            in_flight_prompts: with_prompt(
                self.in_flight_prompts,
                InFlightPromptView {
                    request_id: self.latest_id,
                    entity_id: CoolGameEngineTID::Entity1(agent_id),
                    reasons: why,
                    feedback: self.feedback,
                },
            ),
            latest_id: if self.latest_id < usize::MAX {
                (self.latest_id + 1) as usize
            } else {
                usize::MAX
            },
            last_prompt_tick: tick,
            ..self
        }
    }

    /// Every request in flight carries an id of its own, below the id that
    /// the next request will carry, and the requests stand in the order of
    /// their ids.
    pub open spec fn ids_in_order(self) -> bool {
        ids_rise_below(self.in_flight_prompts, self.latest_id)
    }

    /// The director has been silent long enough on tick `tick` to ask by
    /// itself: more than the silence has passed since its last request, and
    /// none is in flight.
    pub open spec fn due(self, tick: usize) -> bool {
        tick >= self.last_prompt_tick && tick - self.last_prompt_tick > SILENCE_BEFORE_PROMPT
            && self.in_flight_prompts.len() == 0
    }
}

/// Writes the entries of `list`, each on a line behind its number.
fn push_numbered(out: &mut String, list: &Vec<String>)
    ensures
        final(out)@ == numbered(old(out)@, strings_view(list@), list.len() as int),
{
    let mut k: usize = 0;
    while k < list.len()
        invariant
            k <= list.len(),
            out@ == numbered(old(out)@, strings_view(list@), k as int),
        decreases list.len() - k,
    {
        assert(strings_view(list@)[k as int] == list[k as int]@);
        push_decimal_nat(out, (k + 1) as u64);
        out.append(". ");
        out.append(list[k].as_str());
        out.append("\n");
        k += 1;
    }
}

/// Writes the entries of `list`, each on a line behind a dash.
fn push_dashed(out: &mut String, list: &Vec<String>)
    ensures
        final(out)@ == dashed(old(out)@, strings_view(list@), list.len() as int),
{
    let mut k: usize = 0;
    while k < list.len()
        invariant
            k <= list.len(),
            out@ == dashed(old(out)@, strings_view(list@), k as int),
        decreases list.len() - k,
    {
        assert(strings_view(list@)[k as int] == list[k as int]@);
        out.append("- ");
        out.append(list[k].as_str());
        out.append("\n");
        k += 1;
    }
}

/// Writes one reason for a request.
fn push_reason(out: &mut String, first_ent: &GameEntityVecRead, alert: &DirectorAlert)
    ensures
        final(out)@ == reason(old(out)@, first_ent, alert@),
{
    match alert {
        DirectorAlert::Periodic => {
            out.append("Periodic prompting after inactivity\n");
        },
        DirectorAlert::HeardWords(speaker, text) => {
            out.append("You have heard the following from ");
            if *speaker < first_ent.director.len() {
                out.append(first_ent.director[*speaker].get_name().as_str());
            } else {
                assert(out@ + Seq::<char>::empty() =~= out@);
            }
            out.append(" : \"");
            out.append(text.as_str());
            out.append("\"\n");
        },
        DirectorAlert::FinishedMoveTo(to, worked) => {
            if *worked {
                out.append("Finished moving to (");
            } else {
                out.append("Couldn't move to (");
            }
            push_decimal(out, to.x as i64);
            out.append(", ");
            push_decimal(out, to.y as i64);
            out.append(", ");
            push_decimal(out, to.z as i64);
            out.append(")\n");
        },
    }
}

/// `a + b`, held inside the 32-bit range.
fn shift(a: i32, b: i32) -> (r: i32)
    ensures
        r == shifted(a, b as int),
{
    let sum: i64 = a as i64 + b as i64;
    if sum > 0x7fff_ffff {
        i32::MAX
    } else if sum < -0x8000_0000 {
        i32::MIN
    } else {
        sum as i32
    }
}

/// Writes what a director tells the service about its agent.
fn write_prompt(
    director: &LLMDirector,
    why: &Vec<DirectorAlert>,
    agent_id: usize,
    first_ent: &GameEntityVecRead,
    world: &GameMap<CoolVoxel>,
) -> (text: String)
    requires
        first_ent.wf(),
        agent_id < first_ent.movement.len(),
        world.wf(),
    ensures
        text@ == prompt(director@, alerts_view(why@), agent_id, first_ent, world),
{
    let at = get_voxel_pos(first_ent.movement[agent_id].pos);
    let mut text = String::from_str("<input_data>\n\n");
    text.append("<personal_info>\nname:");
    text.append(first_ent.director[agent_id].get_name().as_str());
    text.append("\nposition : (");
    push_decimal(&mut text, at.x as i64);
    text.append(", ");
    push_decimal(&mut text, at.y as i64);
    text.append(", ");
    push_decimal(&mut text, at.z as i64);
    text.append(") \n</personal_info>\n");
    text.append("<memory>\n");
    push_numbered(&mut text, &director.memory);
    text.append("</memory>\n");
    if director.feedback.len() > 0 {
        text.append("<feedback>\n");
        push_dashed(&mut text, &director.feedback);
        text.append("</feedback>\n");
    }
    let ghost told = text@;
    let mut k: usize = 0;
    while k < SIGHT_LEVELS
        invariant
            k <= SIGHT_LEVELS,
            first_ent.wf(),
            agent_id < first_ent.movement.len(),
            world.wf(),
            at == voxel_pos_spec(first_ent.movement[agent_id as int].pos),
            text@ == levels(told, agent_id, first_ent, world, k as int),
        decreases SIGHT_LEVELS - k,
    {
        let level: i64 = at.z as i64 + k as i64 - 1;
        if -0x8000_0000 <= level && level <= 0x7fff_ffff {
            let z: i32 = level as i32;
            push_world_slice(
                &mut text,
                WorldVoxelPos { x: shift(at.x, -SIGHT_RANGE), y: shift(at.y, -SIGHT_RANGE), z },
                WorldVoxelPos { x: shift(at.x, SIGHT_RANGE), y: shift(at.y, SIGHT_RANGE), z },
                agent_id,
                first_ent,
                world,
            );
        }
        k += 1;
    }
    text.append("<goals>\n");
    push_numbered(&mut text, &director.goals);
    text.append("</goals>\n<prompt_reason>\n");
    let ghost pursued = text@;
    let mut r: usize = 0;
    while r < why.len()
        invariant
            r <= why.len(),
            text@ == reasons(pursued, first_ent, alerts_view(why@), r as int),
        decreases why.len() - r,
    {
        assert(alerts_view(why@)[r as int] == why[r as int]@);
        push_reason(&mut text, first_ent, &why[r]);
        r += 1;
    }
    text.append("</prompt_reason>\n\n</input_data>\n");
    text
}

impl LLMDirector {
    /// Puts `entry` among the requests in flight: in the place of the
    /// request with the same id, or at the end.
    fn insert_prompt(&mut self, entry: InFlightPrompt)
        ensures
            final(self)@ == (LLMDirectorView {
                in_flight_prompts: with_prompt(old(self)@.in_flight_prompts, entry@),
                ..old(self)@
            }),
    {
        let ghost before = self@.in_flight_prompts;
        let mut i: usize = 0;
        while i < self.in_flight_prompts.len()
            invariant
                i <= self.in_flight_prompts.len(),
                *self == *old(self),
                before == self@.in_flight_prompts,
                find_prompt(before, entry.request_id, 0) == find_prompt(
                    before,
                    entry.request_id,
                    i as int,
                ),
            decreases self.in_flight_prompts.len() - i,
        {
            assert(before[i as int] == self.in_flight_prompts[i as int]@);
            if self.in_flight_prompts[i].request_id == entry.request_id {
                self.in_flight_prompts[i] = entry;
                assert(self@.in_flight_prompts =~= before.update(i as int, entry@));
                return ;
            }
            i += 1;
        }
        self.in_flight_prompts.push(entry);
        assert(self@.in_flight_prompts =~= before.push(entry@));
    }

    /// Makes a request for the agent `agent_id` on tick `tick`, for the
    /// reasons `reasons`, with `system_prompt` as the system's preamble.
    /// The request is in flight from now on.
    pub fn get_payload(
        &mut self,
        agent_id: usize,
        reasons: Vec<DirectorAlert>,
        first_ent: &GameEntityVecRead,
        world: &GameMap<CoolVoxel>,
        tick: usize,
        system_prompt: &str,
    ) -> (payload: HordeProximaAIRequest)
        requires
            first_ent.wf(),
            agent_id < first_ent.movement.len(),
            world.wf(),
        ensures
            payload@ == old(self)@.payload(
                agent_id,
                alerts_view(reasons@),
                first_ent,
                world,
                system_prompt@,
            ),
            final(self)@ == old(self)@.asked(agent_id, alerts_view(reasons@), tick),
            old(self)@.ids_in_order() && old(self).latest_id < usize::MAX
                ==> final(self)@.ids_in_order(),
    {
        proof {
            if self@.ids_in_order() && self.latest_id < usize::MAX {
                lemma_request_ids_rise(self@, agent_id, alerts_view(reasons@), tick);
            }
        }
        let specific_prompt = write_prompt(self, &reasons, agent_id, first_ent, world);
        let mut whole_context: Vec<ContextPart> = Vec::new();
        whole_context.push(
            ContextPart { text: String::from_str(system_prompt), position: ContextPosition::System },
        );
        whole_context.push(ContextPart { text: specific_prompt, position: ContextPosition::User });
        let request_id = self.latest_id;
        self.latest_id = self.latest_id.saturating_add(1);
        let feedback = clone_strings(&self.feedback);
        self.insert_prompt(
            InFlightPrompt {
                request_id,
                entity_id: CoolGameEngineTID::Entity1(agent_id),
                reasons,
                feedback,
            },
        );
        self.last_prompt_tick = tick;
        let payload = HordeProximaAIRequest::new(
            request_id,
            CoolGameEngineTID::Entity1(agent_id),
            EndpointRequestVariant::RespondToFullPrompt {
                whole_context,
                streaming: false,
                chat_settings: ChatSettings {
                    response_token_limit: RESPONSE_TOKEN_LIMIT,
                    temperature: TEMPERATURE,
                },
            },
        );
        assert(payload@.request->RespondToFullPrompt_whole_context =~= old(self)@.payload(
            agent_id,
            alerts_view(reasons@),
            first_ent,
            world,
            system_prompt@,
        ).request->RespondToFullPrompt_whole_context);
        payload
    }

    /// Makes a request because nothing has happened for a while: only once
    /// more than the silence has passed since the last request, and while
    /// none is in flight.
    pub fn get_periodic_payload(
        &mut self,
        agent_id: usize,
        first_ent: &GameEntityVecRead,
        world: &GameMap<CoolVoxel>,
        tick: usize,
        system_prompt: &str,
    ) -> (payload: Option<HordeProximaAIRequest>)
        requires
            first_ent.wf(),
            agent_id < first_ent.movement.len(),
            world.wf(),
        ensures
            match payload {
                Some(request) => old(self)@.due(tick) && request@ == old(self)@.payload(
                    agent_id,
                    seq![DirectorAlertView::Periodic],
                    first_ent,
                    world,
                    system_prompt@,
                ) && final(self)@ == old(self)@.asked(
                    agent_id,
                    seq![DirectorAlertView::Periodic],
                    tick,
                ),
                None => !old(self)@.due(tick) && final(self)@ == old(self)@,
            },
            old(self)@.ids_in_order() && old(self).latest_id < usize::MAX
                ==> final(self)@.ids_in_order(),
    {
        if tick.saturating_sub(self.last_prompt_tick) > SILENCE_BEFORE_PROMPT
            && self.in_flight_prompts.len() == 0 {
            let mut why: Vec<DirectorAlert> = Vec::new();
            why.push(DirectorAlert::Periodic);
            assert(alerts_view(why@) =~= seq![DirectorAlertView::Periodic]);
            Some(self.get_payload(agent_id, why, first_ent, world, tick, system_prompt))
        } else {
            None
        }
    }
}

/// The requests in flight carry ids in rising order, all of them below
/// `next`.
pub open spec fn ids_rise_below(prompts: Seq<InFlightPromptView>, next: usize) -> bool {
    &&& forall|i: int, j: int|
        0 <= i < j < prompts.len() ==> prompts[i].request_id < prompts[j].request_id
    &&& forall|i: int| 0 <= i < prompts.len() ==> (#[trigger] prompts[i]).request_id < next
}

/// A director that still has ids left gives every request an id of its own,
/// higher than any before: where the requests in flight carry rising ids
/// below the next one, they still do after one more request, which stands
/// last among them.
pub proof fn lemma_request_ids_rise(
    director: LLMDirectorView,
    agent_id: usize,
    why: Seq<DirectorAlertView>,
    tick: usize,
)
    requires
        ids_rise_below(director.in_flight_prompts, director.latest_id),
        director.latest_id < usize::MAX,
    ensures
        ids_rise_below(
            director.asked(agent_id, why, tick).in_flight_prompts,
            director.asked(agent_id, why, tick).latest_id,
        ),
        director.asked(agent_id, why, tick).latest_id == director.latest_id + 1,
        director.asked(agent_id, why, tick).in_flight_prompts.len()
            == director.in_flight_prompts.len() + 1,
        director.asked(agent_id, why, tick).in_flight_prompts.last().request_id
            == director.latest_id,
{
    crate::llm_responses::lemma_find_prompt(director.in_flight_prompts, director.latest_id, 0);
}

/// An answer leaves the ids of the other requests in flight in rising
/// order.
pub proof fn lemma_answer_keeps_ids_rising(
    prompts: Seq<InFlightPromptView>,
    next: usize,
    request_id: usize,
)
    requires
        ids_rise_below(prompts, next),
    ensures
        ids_rise_below(crate::llm_responses::without_prompt(prompts, request_id), next),
{
    crate::llm_responses::lemma_find_prompt(prompts, request_id, 0);
    let left = crate::llm_responses::without_prompt(prompts, request_id);
    match find_prompt(prompts, request_id, 0) {
        Some(k) => {
            assert forall|i: int, j: int| 0 <= i < j < left.len() implies left[i].request_id
                < left[j].request_id by {
                let oi = if i < k {
                    i
                } else {
                    i + 1
                };
                let oj = if j < k {
                    j
                } else {
                    j + 1
                };
                assert(left[i] == prompts[oi] && left[j] == prompts[oj]);
            }
            assert forall|i: int| 0 <= i < left.len() implies (#[trigger] left[i]).request_id
                < next by {
                let oi = if i < k {
                    i
                } else {
                    i + 1
                };
                assert(left[i] == prompts[oi]);
            }
        },
        None => {},
    }
}

} // verus!
