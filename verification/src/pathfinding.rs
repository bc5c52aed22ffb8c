//! Route search over walkable voxels, one budget of iterations at a time.
//!
//! The search keeps its nodes in an arena and names them by index. `SearchState`
//! is what a search holds, as plain sequences; the functions on it say what
//! one relaxation, one iteration and one whole budget do.

use vstd::prelude::*;
use std::collections::{HashMap, VecDeque};
use crate::game_map::GameMap;
use crate::geometry::{Vec3Milli, WorldVoxelPos, dist, dist2_capped, get_voxel_pos, voxel_pos_spec};
use crate::voxel::CoolVoxel;

verus! {

/// Cost of one step from a voxel to a neighbour, in thousandths of a voxel.
pub const STEP_COST: u64 = 1000;

/// A voxel counts as the goal when its corner lies at most this far from it,
/// in thousandths of a voxel.
pub const GOAL_REACH: u64 = 1000;

/// One voxel that the search has reached.
#[derive(Clone, Copy, PartialEq, Eq, Structural, Debug)]
pub struct PathNode {
    /// The node this one was reached from; `None` for the start.
    pub parent: Option<usize>,
    pub position: WorldVoxelPos,
    /// Steps from the start to this node.
    pub movement_cost: u64,
    /// Estimate of what is left to the goal, in thousandths of a voxel.
    pub heuristic: u64,
    /// `movement_cost` steps and the estimate together.
    pub total_cost: u128,
}

/// The `k`-th of the twelve steps an agent can take: four level, four up,
/// four down.
pub open spec fn direction(k: int) -> WorldVoxelPos {
    let z: i32 = if k < 4 {
        0
    } else if k < 8 {
        1
    } else {
        -1i32
    };
    if k % 4 == 0 {
        WorldVoxelPos { x: 1, y: 0, z }
    } else if k % 4 == 1 {
        WorldVoxelPos { x: 0, y: 1, z }
    } else if k % 4 == 2 {
        WorldVoxelPos { x: -1i32, y: 0, z }
    } else {
        WorldVoxelPos { x: 0, y: -1i32, z }
    }
}

/// Number of steps an agent can choose from.
pub const DIRECTION_COUNT: usize = 12;

/// The `k`-th of the twelve steps.
pub fn direction_at(k: usize) -> (step: WorldVoxelPos)
    requires
        k < DIRECTION_COUNT,
    ensures
        step == direction(k as int),
{
    let z: i32 = if k < 4 {
        0
    } else if k < 8 {
        1
    } else {
        -1
    };
    if k % 4 == 0 {
        WorldVoxelPos { x: 1, y: 0, z }
    } else if k % 4 == 1 {
        WorldVoxelPos { x: 0, y: 1, z }
    } else if k % 4 == 2 {
        WorldVoxelPos { x: -1, y: 0, z }
    } else {
        WorldVoxelPos { x: 0, y: -1, z }
    }
}

/// One of the twelve steps leads from `from` to `to`.
pub open spec fn is_step(from: WorldVoxelPos, to: WorldVoxelPos) -> bool {
    exists|k: int| 0 <= k < 12 && from.offset_spec(#[trigger] direction(k)) == Some(to)
}

/// Estimate of the way from the voxel `pos` to `end_pos`: the straight
/// distance from the voxel's corner, rounded down.
pub open spec fn heuristic_of(pos: WorldVoxelPos, end_pos: Vec3Milli) -> nat {
    dist(pos.to_world_spec(), end_pos)
}

/// The corner of the voxel `pos` lies within reach of `end_pos`: at most one
/// voxel away.
pub open spec fn in_reach(pos: WorldVoxelPos, end_pos: Vec3Milli) -> bool {
    dist2_capped(pos.to_world_spec(), end_pos) <= GOAL_REACH * GOAL_REACH
}

/// The count after one more iteration; at the top of its range it stays.
pub open spec fn counted_up(iterations: usize) -> usize {
    if iterations < usize::MAX {
        (iterations + 1) as usize
    } else {
        usize::MAX
    }
}

/// Cost of a node `steps` steps from the start with `estimate` left to go.
pub open spec fn total_of(steps: u64, estimate: u64) -> u128 {
    (steps * STEP_COST + estimate) as u128
}

/// The number under which the arena of a search files the voxel `pos`:
/// its coordinates, each moved into the unsigned range, side by side.
pub open spec fn position_key(pos: WorldVoxelPos) -> u128 {
    ((pos.x + 0x8000_0000) * 0x1_0000_0000_0000_0000 + (pos.y + 0x8000_0000) * 0x1_0000_0000 + (
    pos.z + 0x8000_0000)) as u128
}

/// No two voxels are filed under the same number.
pub proof fn lemma_position_key_injective(a: WorldVoxelPos, b: WorldVoxelPos)
    requires
        position_key(a) == position_key(b),
    ensures
        a == b,
{
}

/// The index of nodes by voxel, as the arena files it by number.
pub open spec fn positions_of(filed: Map<u128, usize>) -> Map<WorldVoxelPos, usize> {
    Map::new(
        |pos: WorldVoxelPos| filed.contains_key(position_key(pos)),
        |pos: WorldVoxelPos| filed[position_key(pos)],
    )
}

/// The voxels that the arena has filed as looked at.
pub open spec fn explored_of(filed: Map<u128, ()>) -> Set<WorldVoxelPos> {
    Set::new(|pos: WorldVoxelPos| filed.contains_key(position_key(pos)))
}

/// Filing a voxel as looked at puts it among the voxels looked at.
pub proof fn lemma_explored_of_insert(filed: Map<u128, ()>, pos: WorldVoxelPos)
    ensures
        explored_of(filed.insert(position_key(pos), ())) == explored_of(filed).insert(pos),
{
    assert forall|other: WorldVoxelPos| other != pos implies position_key(other) != position_key(
        pos,
    ) by {
        if position_key(other) == position_key(pos) {
            lemma_position_key_injective(other, pos);
        }
    }
    assert(explored_of(filed.insert(position_key(pos), ())) =~= explored_of(filed).insert(pos));
}

/// Filing a voxel under its number puts it into the index by voxel.
pub proof fn lemma_positions_of_insert(filed: Map<u128, usize>, pos: WorldVoxelPos, index: usize)
    ensures
        positions_of(filed.insert(position_key(pos), index)) == positions_of(filed).insert(
            pos,
            index,
        ),
{
    assert forall|other: WorldVoxelPos| other != pos implies position_key(other) != position_key(
        pos,
    ) by {
        if position_key(other) == position_key(pos) {
            lemma_position_key_injective(other, pos);
        }
    }
    assert(positions_of(filed.insert(position_key(pos), index)) =~= positions_of(filed).insert(
        pos,
        index,
    ));
}

/// Place of the first entry `id` of the open set, from `from` on.
pub open spec fn find_entry(open_set: Seq<usize>, id: usize, from: int) -> Option<int>
    decreases open_set.len() - from,
{
    if from < 0 || from >= open_set.len() {
        None
    } else if open_set[from] == id {
        Some(from)
    } else {
        find_entry(open_set, id, from + 1)
    }
}

/// Place of the first entry that costs more than `cost`, from `from` on: the
/// length of the open set where none does.
pub open spec fn place_from(
    nodes: Seq<PathNode>,
    open_set: Seq<usize>,
    cost: u128,
    from: int,
) -> int
    decreases open_set.len() - from,
{
    if from < 0 || from >= open_set.len() {
        open_set.len() as int
    } else if nodes[open_set[from] as int].total_cost > cost {
        from
    } else {
        place_from(nodes, open_set, cost, from + 1)
    }
}

/// The open set names nodes in order of rising cost.
pub open spec fn sorted_by_cost(nodes: Seq<PathNode>, open_set: Seq<usize>) -> bool {
    forall|i: int, j: int|
        0 <= i < j < open_set.len() ==> nodes[open_set[i] as int].total_cost
            <= nodes[open_set[j] as int].total_cost
}

/// Every parent link leads to a node that lies fewer steps from the start.
pub open spec fn nodes_linked(nodes: Seq<PathNode>) -> bool {
    forall|i: int|
        0 <= i < nodes.len() && (#[trigger] nodes[i]).parent is Some ==> {
            &&& nodes[i].parent->0 < nodes.len()
            &&& nodes[nodes[i].parent->0 as int].movement_cost < nodes[i].movement_cost
        }
}

/// The start is the one node without a parent, and every other node's parent
/// lies fewer steps from the start.
pub open spec fn nodes_rooted(nodes: Seq<PathNode>) -> bool {
    &&& nodes.len() >= 1
    &&& nodes[0].parent is None
    &&& forall|i: int|
        1 <= i < nodes.len() ==> {
            &&& (#[trigger] nodes[i]).parent is Some
            &&& nodes[i].parent->0 < nodes.len()
            &&& nodes[nodes[i].parent->0 as int].movement_cost < nodes[i].movement_cost
        }
}

/// No node lies more steps from the start than nodes came before it, and
/// every node costs its steps and its estimate together.
pub open spec fn nodes_costed(nodes: Seq<PathNode>) -> bool {
    forall|i: int|
        0 <= i < nodes.len() ==> {
            &&& (#[trigger] nodes[i]).movement_cost <= i
            &&& nodes[i].total_cost == total_of(nodes[i].movement_cost, nodes[i].heuristic)
        }
}

/// Every node but the start lies one step from its parent and carries the
/// estimate of its own voxel.
pub open spec fn nodes_placed(nodes: Seq<PathNode>, end_pos: Vec3Milli) -> bool {
    forall|i: int|
        1 <= i < nodes.len() ==> {
            &&& is_step(nodes[nodes[i].parent->0 as int].position, (#[trigger] nodes[i]).position)
            &&& nodes[i].heuristic == heuristic_of(nodes[i].position, end_pos)
        }
}

/// The index by voxel names every node under its voxel, and nothing else.
pub open spec fn nodes_indexed(nodes: Seq<PathNode>, nodes_map: Map<WorldVoxelPos, usize>) -> bool {
    &&& forall|i: int|
        0 <= i < nodes.len() ==> nodes_map.contains_key((#[trigger] nodes[i]).position)
            && nodes_map[nodes[i].position] == i
    &&& forall|pos: WorldVoxelPos| #[trigger]
        nodes_map.contains_key(pos) ==> nodes_map[pos] < nodes.len()
            && nodes[nodes_map[pos] as int].position == pos
}

/// No two nodes stand at the same voxel.
pub open spec fn nodes_distinct(nodes: Seq<PathNode>) -> bool {
    forall|i: int, j: int|
        0 <= i < j < nodes.len() ==> (#[trigger] nodes[i]).position != (#[trigger] nodes[j]).position
}

/// The open set names nodes of the arena, each at most once, in order of
/// rising cost.
pub open spec fn open_set_in_order(nodes: Seq<PathNode>, open_set: Seq<usize>) -> bool {
    &&& forall|i: int| 0 <= i < open_set.len() ==> #[trigger] open_set[i] < nodes.len()
    &&& open_set.no_duplicates()
    &&& sorted_by_cost(nodes, open_set)
}

/// A path, once found, leads from the start by parent links to a node whose
/// voxel is within reach of the goal.
pub open spec fn found_sound(
    nodes: Seq<PathNode>,
    end_pos: Vec3Milli,
    found_path: Option<Seq<usize>>,
) -> bool {
    match found_path {
        Some(path) => {
            &&& path.len() >= 1
            &&& path[0] == 0
            &&& forall|k: int| 0 <= k < path.len() ==> #[trigger] path[k] < nodes.len()
            &&& forall|k: int|
                0 <= k < path.len() - 1 ==> nodes[path[k + 1] as int].parent == Some(
                    #[trigger] path[k],
                )
            &&& in_reach(nodes[path.last() as int].position, end_pos)
        },
        None => true,
    }
}

/// What a search holds.
pub struct SearchState {
    pub nodes: Seq<PathNode>,
    /// Where in the arena the node of each voxel stands.
    pub nodes_map: Map<WorldVoxelPos, usize>,
    /// The voxels that the search has looked at, walkable or not.
    pub explored_positions: Set<WorldVoxelPos>,
    pub open_set: Seq<usize>,
    pub start_pos: Vec3Milli,
    pub tolerance: i64,
    pub end_pos: Vec3Milli,
    pub end_pos_i: WorldVoxelPos,
    pub iterations: usize,
    pub last_node: usize,
    pub found_path: Option<Seq<usize>>,
}

impl SearchState {
    /// The nodes from `node` up to the start, by their parent links.
    pub open spec fn chain_up(self, node: usize) -> Seq<usize>
        decreases self.nodes[node as int].movement_cost,
    {
        if node < self.nodes.len() {
            match self.nodes[node as int].parent {
                Some(p) => if p < self.nodes.len() && self.nodes[p as int].movement_cost
                    < self.nodes[node as int].movement_cost {
                    seq![node] + self.chain_up(p)
                } else {
                    seq![node]
                },
                None => seq![node],
            }
        } else {
            Seq::empty()
        }
    }

    /// The open set after the node `id` has been put where its cost belongs,
    /// behind the entries that cost the same. An entry it had before is
    /// taken out first.
    pub open spec fn enqueued(self, id: usize) -> Seq<usize> {
        let open_set = without_entry(self.open_set, id);
        open_set.insert(place_from(self.nodes, open_set, self.nodes[id as int].total_cost, 0), id)
    }

    /// The search after the node `i` has been given a shorter way and put
    /// back into the open set.
    pub open spec fn with_moved(self, i: int, node: PathNode) -> SearchState {
        let moved = SearchState { nodes: self.nodes.update(i, node), ..self };
        SearchState { open_set: moved.enqueued(i as usize), ..moved }
    }

    /// The search after `node` has joined the arena and the open set.
    pub open spec fn with_new(self, node: PathNode) -> SearchState {
        let grown = SearchState {
            nodes: self.nodes.push(node),
            nodes_map: self.nodes_map.insert(node.position, self.nodes.len() as usize),
            last_node: self.nodes.len() as usize,
            ..self
        };
        SearchState { open_set: grown.enqueued(self.nodes.len() as usize), ..grown }
    }

    /// The index of the node that stands at `pos`, if the search has reached
    /// that voxel.
    pub open spec fn lookup(self, pos: WorldVoxelPos) -> Option<usize> {
        if self.nodes_map.contains_key(pos) {
            Some(self.nodes_map[pos])
        } else {
            None
        }
    }

    /// The node that the voxel `new_pos` makes behind `best`.
    pub open spec fn candidate(self, best: usize, new_pos: WorldVoxelPos) -> PathNode {
        let estimate = heuristic_of(new_pos, self.end_pos) as u64;
        let steps = (self.nodes[best as int].movement_cost + 1) as u64;
        PathNode {
            parent: Some(best),
            position: new_pos,
            movement_cost: steps,
            heuristic: estimate,
            total_cost: total_of(steps, estimate),
        }
    }

    /// The search after `node` has been taken in, and the index under which
    /// its voxel stands. A new voxel joins the arena; a known one takes the
    /// way that `node` holds where that way is shorter.
    pub open spec fn reached(self, node: PathNode) -> (SearchState, usize) {
        match self.lookup(node.position) {
            Some(i) => if node.movement_cost < self.nodes[i as int].movement_cost {
                (self.with_moved(i as int, node), i)
            } else {
                (self, i)
            },
            None => (self.with_new(node), self.nodes.len() as usize),
        }
    }

    /// The search ended with the path that leads to `target`.
    pub open spec fn concluded(self, target: usize) -> SearchState {
        SearchState { found_path: Some(self.chain_up(target).reverse()), ..self }
    }

    /// The search after the walkable voxel `new_pos` next to `best` has been
    /// taken in. A new voxel becomes a node behind `best`, unless the arena
    /// has no index left for it; a known one is moved behind `best` where
    /// that makes its way shorter. Either is then put in the open set. A
    /// voxel close enough to the goal ends the search with the path that
    /// leads to it.
    pub open spec fn visited(self, best: usize, new_pos: WorldVoxelPos) -> SearchState {
        let node = self.candidate(best, new_pos);
        let (reached, target) = self.reached(node);
        if reached.nodes.len() > usize::MAX {
            self
        } else if in_reach(new_pos, self.end_pos) {
            reached.concluded(target)
        } else {
            reached
        }
    }

    /// The search after it has looked at the neighbour of `best` in the
    /// direction `step`. A neighbour outside the grid changes nothing. Any
    /// other is taken in if an agent can stand there, and counts as looked
    /// at from now on.
    pub open spec fn relaxed(
        self,
        best: usize,
        step: WorldVoxelPos,
        world: &GameMap<CoolVoxel>,
    ) -> SearchState {
        match self.nodes[best as int].position.offset_spec(step) {
            None => self,
            Some(new_pos) => {
                let taken = if world.walkable(new_pos) {
                    self.visited(best, new_pos)
                } else {
                    self
                };
                SearchState {
                    explored_positions: taken.explored_positions.insert(new_pos),
                    ..taken
                }
            },
        }
    }

    /// The search after it has looked at the neighbours of `best` from the
    /// `k`-th direction on, up to the one that ends it.
    pub open spec fn expanded(self, best: usize, k: int, world: &GameMap<CoolVoxel>) -> SearchState
        decreases 12 - k,
    {
        if k < 0 || k >= 12 || self.found_path is Some {
            self
        } else {
            self.relaxed(best, direction(k), world).expanded(best, k + 1, world)
        }
    }

    /// The search after one iteration: the cheapest open node leaves the open
    /// set and its neighbours are looked at. With nothing open, only the
    /// count of iterations moves, as far as it goes. A search that has its
    /// path stays as it is.
    pub open spec fn stepped(self, world: &GameMap<CoolVoxel>) -> SearchState {
        let counted = SearchState { iterations: counted_up(self.iterations), ..self };
        if self.found_path is Some {
            self
        } else if self.open_set.len() == 0 {
            counted
        } else {
            SearchState { open_set: self.open_set.drop_first(), ..counted }.expanded(
                self.open_set[0],
                0,
                world,
            )
        }
    }

    /// The iterations that a grant of `extra_iterations` lets the search
    /// make: all of them, as far as the count of iterations can go.
    pub open spec fn budget(self, extra_iterations: usize) -> nat {
        if self.iterations + extra_iterations > usize::MAX {
            (usize::MAX - self.iterations) as nat
        } else {
            extra_iterations as nat
        }
    }

    /// The search after it has iterated until it has a path, `budget`
    /// iterations at most.
    pub open spec fn run(self, budget: nat, world: &GameMap<CoolVoxel>) -> SearchState
        decreases budget,
    {
        if budget == 0 || self.found_path is Some {
            self
        } else {
            self.stepped(world).run((budget - 1) as nat, world)
        }
    }

    /// A search that has not looked at anything yet: the start is its only
    /// node, and open.
    pub open spec fn initial(tolerance: i64, start_pos: Vec3Milli, end_pos: Vec3Milli) -> SearchState {
        let estimate = dist(start_pos, end_pos) as u64;
        SearchState {
            nodes: seq![
                PathNode {
                    parent: None,
                    position: voxel_pos_spec(start_pos),
                    movement_cost: 0,
                    heuristic: estimate,
                    total_cost: estimate as u128,
                },
            ],
            nodes_map: Map::empty().insert(voxel_pos_spec(start_pos), 0usize),
            explored_positions: Set::empty().insert(voxel_pos_spec(start_pos)),
            open_set: seq![0usize],
            start_pos,
            tolerance,
            end_pos,
            end_pos_i: voxel_pos_spec(end_pos),
            iterations: 0,
            last_node: 0,
            found_path: None,
        }
    }

    /// Every parent link leads to a node that lies fewer steps from the
    /// start.
    pub open spec fn linked(self) -> bool {
        nodes_linked(self.nodes)
    }

    /// The start is the one node without a parent, and every other node's
    /// parent lies fewer steps from the start.
    pub open spec fn rooted(self) -> bool {
        nodes_rooted(self.nodes)
    }

    /// No node lies more steps from the start than nodes came before it,
    /// and every node costs its steps and its estimate together.
    pub open spec fn costed(self) -> bool {
        nodes_costed(self.nodes)
    }

    /// Every node but the start lies one step from its parent and carries
    /// the estimate of its own voxel.
    pub open spec fn placed(self) -> bool {
        nodes_placed(self.nodes, self.end_pos)
    }

    /// No two nodes stand at the same voxel.
    pub open spec fn distinct(self) -> bool {
        nodes_distinct(self.nodes)
    }

    /// The index by voxel names every node under its voxel, and nothing
    /// else.
    pub open spec fn indexed(self) -> bool {
        nodes_indexed(self.nodes, self.nodes_map)
    }

    /// The open set names nodes of the arena, each at most once, in order
    /// of rising cost.
    pub open spec fn open_in_order(self) -> bool {
        open_set_in_order(self.nodes, self.open_set)
    }

    /// A path, once found, leads from the start by parent links to a node
    /// whose voxel is within reach of the goal.
    pub open spec fn path_sound(self) -> bool {
        found_sound(self.nodes, self.end_pos, self.found_path)
    }

    /// What holds of every search, whatever it has looked at.
    #[verifier::opaque]
    pub open spec fn wf(self) -> bool {
        &&& self.rooted()
        &&& self.costed()
        &&& self.placed()
        &&& self.distinct()
        &&& self.indexed()
        &&& self.open_in_order()
        &&& self.path_sound()
        &&& self.last_node < self.nodes.len()
    }

    /// `node` can stand behind `best`: one step further from the start, one
    /// step away in the grid, with the estimate and the cost of its voxel.
    pub open spec fn fits_behind(self, node: PathNode, best: usize) -> bool {
        &&& best < self.nodes.len()
        &&& node.parent == Some(best)
        &&& node.movement_cost == self.nodes[best as int].movement_cost + 1
        &&& is_step(self.nodes[best as int].position, node.position)
        &&& node.heuristic == heuristic_of(node.position, self.end_pos)
        &&& node.total_cost == total_of(node.movement_cost, node.heuristic)
    }
}

/// Before the place `p` every entry costs at most `cost`, and the entry at `p`
/// costs more: then `p` is where `place_from` arrives.
pub proof fn lemma_place_from(
    nodes: Seq<PathNode>,
    open_set: Seq<usize>,
    cost: u128,
    from: int,
    p: int,
)
    requires
        0 <= from <= p <= open_set.len(),
        forall|j: int| from <= j < p ==> nodes[#[trigger] open_set[j] as int].total_cost <= cost,
        p < open_set.len() ==> nodes[open_set[p] as int].total_cost > cost,
    ensures
        place_from(nodes, open_set, cost, from) == p,
    decreases p - from,
{
    if from < p {
        lemma_place_from(nodes, open_set, cost, from + 1, p);
    }
}

/// An entry found from `from` on is the first one there that names `id`.
pub proof fn lemma_find_entry(open_set: Seq<usize>, id: usize, from: int)
    requires
        0 <= from,
    ensures
        match find_entry(open_set, id, from) {
            Some(k) => from <= k < open_set.len() && open_set[k] == id && forall|j: int|
                from <= j < k ==> open_set[j] != id,
            None => forall|j: int| from <= j < open_set.len() ==> open_set[j] != id,
        },
    decreases open_set.len() - from,
{
    if from < open_set.len() && open_set[from] != id {
        lemma_find_entry(open_set, id, from + 1);
    }
}

/// The open set without the first entry `id`.
pub open spec fn without_entry(open_set: Seq<usize>, id: usize) -> Seq<usize> {
    match find_entry(open_set, id, 0) {
        Some(k) => open_set.remove(k),
        None => open_set,
    }
}

/// Taking a node out of an open set that names each node once, in order of
/// rising cost, leaves such an open set, without that node and with every
/// other.
pub proof fn lemma_without_entry(nodes: Seq<PathNode>, open_set: Seq<usize>, id: usize)
    requires
        sorted_by_cost(nodes, open_set),
        open_set.no_duplicates(),
        forall|i: int| 0 <= i < open_set.len() ==> #[trigger] open_set[i] < nodes.len(),
    ensures
        sorted_by_cost(nodes, without_entry(open_set, id)),
        without_entry(open_set, id).no_duplicates(),
        !without_entry(open_set, id).contains(id),
        forall|i: int|
            0 <= i < without_entry(open_set, id).len() ==> #[trigger] without_entry(open_set, id)[i]
                < nodes.len(),
        forall|other: usize|
            other != id ==> (without_entry(open_set, id).contains(other) <==> open_set.contains(
                other,
            )),
{
    lemma_find_entry(open_set, id, 0);
    let removed = without_entry(open_set, id);
    match find_entry(open_set, id, 0) {
        Some(k) => {
            assert forall|i: int, j: int| 0 <= i < j < removed.len() implies nodes[removed[i] as int].total_cost
                <= nodes[removed[j] as int].total_cost && removed[i] != removed[j] by {
                let oi = if i < k {
                    i
                } else {
                    i + 1
                };
                let oj = if j < k {
                    j
                } else {
                    j + 1
                };
                assert(removed[i] == open_set[oi] && removed[j] == open_set[oj]);
            }
            assert forall|i: int| 0 <= i < removed.len() implies removed[i] != id && #[trigger] removed[i]
                < nodes.len() by {
                let oi = if i < k {
                    i
                } else {
                    i + 1
                };
                assert(removed[i] == open_set[oi]);
            }
            assert forall|other: usize| other != id implies (removed.contains(other)
                <==> open_set.contains(other)) by {
                if removed.contains(other) {
                    let j = choose|j: int| 0 <= j < removed.len() && removed[j] == other;
                    let oj = if j < k {
                        j
                    } else {
                        j + 1
                    };
                    assert(open_set[oj] == other);
                }
                if open_set.contains(other) {
                    let j = choose|j: int| 0 <= j < open_set.len() && open_set[j] == other;
                    let rj = if j < k {
                        j
                    } else {
                        j - 1
                    };
                    assert(removed[rj] == other);
                }
            }
        },
        None => {},
    }
}

/// Putting a node into an open set that does not name it, behind every
/// entry that costs no more and before every entry that costs more, keeps
/// the open set in order of rising cost.
pub proof fn lemma_with_entry(nodes: Seq<PathNode>, open_set: Seq<usize>, id: usize, p: int)
    requires
        sorted_by_cost(nodes, open_set),
        open_set.no_duplicates(),
        !open_set.contains(id),
        id < nodes.len(),
        forall|i: int| 0 <= i < open_set.len() ==> #[trigger] open_set[i] < nodes.len(),
        0 <= p <= open_set.len(),
        forall|j: int|
            0 <= j < p ==> nodes[#[trigger] open_set[j] as int].total_cost
                <= nodes[id as int].total_cost,
        forall|j: int|
            p <= j < open_set.len() ==> nodes[#[trigger] open_set[j] as int].total_cost
                > nodes[id as int].total_cost,
    ensures
        sorted_by_cost(nodes, open_set.insert(p, id)),
        open_set.insert(p, id).no_duplicates(),
        open_set.insert(p, id).contains(id),
        forall|i: int|
            0 <= i < open_set.insert(p, id).len() ==> #[trigger] open_set.insert(p, id)[i]
                < nodes.len(),
        forall|other: usize|
            other != id ==> (open_set.insert(p, id).contains(other) <==> open_set.contains(other)),
{
    let after = open_set.insert(p, id);
    assert(after[p] == id);
    assert forall|i: int| 0 <= i < after.len() && i != p implies #[trigger] after[i] == open_set[if i
        < p {
        i
    } else {
        i - 1
    }] by {}
    assert forall|i: int, j: int| 0 <= i < j < after.len() implies nodes[after[i] as int].total_cost
        <= nodes[after[j] as int].total_cost && after[i] != after[j] by {
        let oi = if i < p {
            i
        } else {
            i - 1
        };
        let oj = if j < p {
            j
        } else {
            j - 1
        };
        if i != p {
            assert(after[i] == open_set[oi]);
        }
        if j != p {
            assert(after[j] == open_set[oj]);
        }
    }
    assert forall|other: usize| other != id implies (after.contains(other) <==> open_set.contains(
        other,
    )) by {
        if after.contains(other) {
            let j = choose|j: int| 0 <= j < after.len() && after[j] == other;
            let oj = if j < p {
                j
            } else {
                j - 1
            };
            assert(open_set[oj] == other);
        }
        if open_set.contains(other) {
            let j = choose|j: int| 0 <= j < open_set.len() && open_set[j] == other;
            let aj = if j < p {
                j
            } else {
                j + 1
            };
            assert(after[aj] == other);
        }
    }
}

/// `chain` leads from `node` to the start of the search, each node followed
/// by its parent.
pub open spec fn leads_to_start(s: SearchState, chain: Seq<usize>, node: usize) -> bool {
    &&& chain.len() >= 1
    &&& chain[0] == node
    &&& chain.last() == 0
    &&& forall|k: int| 0 <= k < chain.len() ==> #[trigger] chain[k] < s.nodes.len()
    &&& forall|k: int|
        0 <= k < chain.len() - 1 ==> s.nodes[#[trigger] chain[k] as int].parent == Some(
            chain[k + 1],
        )
}

/// Where the start is the one node without a parent, the parent links lead
/// from any node to the start.
pub proof fn lemma_chain_up(s: SearchState, node: usize)
    requires
        s.rooted(),
        node < s.nodes.len(),
    ensures
        leads_to_start(s, s.chain_up(node), node),
    decreases s.nodes[node as int].movement_cost,
{
    if node >= 1 {
        let p = s.nodes[node as int].parent->0;
        lemma_chain_up(s, p);
        let rest = s.chain_up(p);
        let chain = s.chain_up(node);
        assert(chain == seq![node] + rest);
        assert(chain.len() == rest.len() + 1);
        assert(chain[0] == node);
        assert forall|k: int| 1 <= k < chain.len() implies chain[k] == rest[k - 1] by {}
        assert(chain.last() == rest.last());
        assert forall|k: int| 0 <= k < chain.len() implies #[trigger] chain[k] < s.nodes.len() by {
            if k >= 1 {
                assert(chain[k] == rest[k - 1]);
            }
        }
        assert forall|k: int| 0 <= k < chain.len() - 1 implies s.nodes[#[trigger] chain[k] as int].parent
            == Some(chain[k + 1]) by {
            assert(chain[k + 1] == rest[k]);
            if k >= 1 {
                assert(chain[k] == rest[k - 1]);
            }
        }
    } else {
        assert(s.chain_up(node) == seq![0usize]);
    }
}

/// In a well-formed search no node lies more steps from the start than
/// nodes came before it.
pub proof fn lemma_steps_bounded(s: SearchState, i: int)
    requires
        s.wf(),
        0 <= i < s.nodes.len(),
    ensures
        s.nodes[i].movement_cost <= i,
{
    reveal(SearchState::wf);
}

/// The parts of well-formedness that the parent links need.
pub proof fn lemma_wf_parts(s: SearchState)
    requires
        s.wf(),
    ensures
        s.rooted(),
        s.linked(),
        s.indexed(),
        s.open_in_order(),
        s.last_node < s.nodes.len(),
{
    reveal(SearchState::wf);
    assert forall|i: int| 0 <= i < s.nodes.len() && (#[trigger] s.nodes[i]).parent is Some implies {
        &&& s.nodes[i].parent->0 < s.nodes.len()
        &&& s.nodes[s.nodes[i].parent->0 as int].movement_cost < s.nodes[i].movement_cost
    } by {
        assert(i >= 1);
    }
}

/// The chain from `target` up to the start, read backwards, is a sound path.
pub proof fn lemma_reversed_chain(nodes: Seq<PathNode>, chain: Seq<usize>, target: usize)
    requires
        chain.len() >= 1,
        chain[0] == target,
        chain.last() == 0,
        forall|k: int| 0 <= k < chain.len() ==> #[trigger] chain[k] < nodes.len(),
        forall|k: int|
            0 <= k < chain.len() - 1 ==> nodes[#[trigger] chain[k] as int].parent == Some(
                chain[k + 1],
            ),
    ensures
        chain.reverse().len() >= 1,
        chain.reverse()[0] == 0,
        chain.reverse().last() == target,
        forall|k: int| 0 <= k < chain.reverse().len() ==> #[trigger] chain.reverse()[k] < nodes.len(),
        forall|k: int|
            0 <= k < chain.reverse().len() - 1 ==> nodes[chain.reverse()[k + 1] as int].parent
                == Some(#[trigger] chain.reverse()[k]),
{
    let path = chain.reverse();
    assert(path.len() == chain.len());
    assert forall|k: int| 0 <= k < path.len() implies #[trigger] path[k] == chain[chain.len() - 1
        - k] by {}
    assert forall|k: int| 0 <= k < path.len() implies #[trigger] path[k] < nodes.len() by {
        assert(path[k] == chain[chain.len() - 1 - k]);
    }
    assert forall|k: int| 0 <= k < path.len() - 1 implies nodes[path[k + 1] as int].parent == Some(
        #[trigger] path[k],
    ) by {
        let m = chain.len() - 2 - k;
        assert(path[k + 1] == chain[m]);
        assert(path[k] == chain[m + 1]);
    }
}

/// A well-formed search that ends at a node within reach of the goal is
/// well-formed.
pub proof fn lemma_concluded_wf(s: SearchState, target: usize)
    requires
        s.wf(),
        target < s.nodes.len(),
        in_reach(s.nodes[target as int].position, s.end_pos),
    ensures
        s.concluded(target).wf(),
{
    lemma_wf_parts(s);
    lemma_chain_up(s, target);
    lemma_reversed_chain(s.nodes, s.chain_up(target), target);
    let t = s.concluded(target);
    assert(found_sound(t.nodes, t.end_pos, t.found_path));
    reveal(SearchState::wf);
}

/// Which voxels a search has looked at is nothing that its well-formedness
/// rests on.
pub proof fn lemma_wf_whatever_explored(s: SearchState, explored: Set<WorldVoxelPos>)
    requires
        s.wf(),
    ensures
        (SearchState { explored_positions: explored, ..s }).wf(),
{
    reveal(SearchState::wf);
}

/// No voxel that an agent can stand on lies within reach of `end_pos`.
pub open spec fn no_standing_room(world: &GameMap<CoolVoxel>, end_pos: Vec3Milli) -> bool {
    forall|pos: WorldVoxelPos| #[trigger] world.walkable(pos) ==> !in_reach(pos, end_pos)
}

/// A neighbour out of reach of the goal does not end the search.
proof fn lemma_relaxed_finds_nothing(
    s: SearchState,
    best: usize,
    step: WorldVoxelPos,
    world: &GameMap<CoolVoxel>,
)
    requires
        s.found_path is None,
        no_standing_room(world, s.end_pos),
    ensures
        s.relaxed(best, step, world).found_path is None,
        s.relaxed(best, step, world).end_pos == s.end_pos,
{
    match s.nodes[best as int].position.offset_spec(step) {
        None => {},
        Some(new_pos) => {
            if world.walkable(new_pos) {
                let node = s.candidate(best, new_pos);
                assert(s.reached(node).0.found_path is None);
                assert(s.reached(node).0.end_pos == s.end_pos);
            }
        },
    }
}

/// Neighbours out of reach of the goal do not end the search.
proof fn lemma_expanded_finds_nothing(
    s: SearchState,
    best: usize,
    k: int,
    world: &GameMap<CoolVoxel>,
)
    requires
        s.found_path is None,
        no_standing_room(world, s.end_pos),
    ensures
        s.expanded(best, k, world).found_path is None,
        s.expanded(best, k, world).end_pos == s.end_pos,
    decreases 12 - k,
{
    if 0 <= k < 12 {
        lemma_relaxed_finds_nothing(s, best, direction(k), world);
        lemma_expanded_finds_nothing(s.relaxed(best, direction(k), world), best, k + 1, world);
    }
}

/// A search claims no path where there is none to claim: as long as no voxel
/// that an agent can stand on lies within reach of the goal, the search has
/// no path, whatever budget it is given and however often it is taken up.
pub proof fn lemma_no_false_positive(s: SearchState, budget: nat, world: &GameMap<CoolVoxel>)
    requires
        s.found_path is None,
        no_standing_room(world, s.end_pos),
    ensures
        s.run(budget, world).found_path is None,
        s.run(budget, world).end_pos == s.end_pos,
    decreases budget,
{
    if budget > 0 {
        let counted = SearchState { iterations: counted_up(s.iterations), ..s };
        if s.open_set.len() > 0 {
            lemma_expanded_finds_nothing(
                SearchState { open_set: s.open_set.drop_first(), ..counted },
                s.open_set[0],
                0,
                world,
            );
        }
        lemma_no_false_positive(s.stepped(world), (budget - 1) as nat, world);
    }
}

/// `way` leads from `start` over voxels that an agent can stand on, each one
/// step from the one before it.
pub open spec fn is_way(world: &GameMap<CoolVoxel>, start: WorldVoxelPos, way: Seq<WorldVoxelPos>) -> bool {
    &&& way.len() >= 1
    &&& way[0] == start
    &&& forall|k: int|
        1 <= k < way.len() ==> is_step(way[k - 1], #[trigger] way[k]) && world.walkable(way[k])
}

/// An agent can get from `start` to `pos` by steps over voxels that it can
/// stand on.
pub open spec fn reachable(world: &GameMap<CoolVoxel>, start: WorldVoxelPos, pos: WorldVoxelPos) -> bool {
    exists|way: Seq<WorldVoxelPos>| #[trigger] is_way(world, start, way) && way.last() == pos
}

/// No voxel that an agent can get to from `start` and stand on lies within
/// reach of `end_pos`.
pub open spec fn goal_out_of_reach(
    world: &GameMap<CoolVoxel>,
    start: WorldVoxelPos,
    end_pos: Vec3Milli,
) -> bool {
    forall|pos: WorldVoxelPos|
        world.walkable(pos) && #[trigger] reachable(world, start, pos) ==> !in_reach(pos, end_pos)
}

impl SearchState {
    /// The search stands on the ground of `world`: an agent can get from the
    /// start to the voxel of every node, and the open set and the index by
    /// voxel name nodes of the arena.
    pub open spec fn grounded(self, world: &GameMap<CoolVoxel>) -> bool {
        &&& forall|i: int|
            0 <= i < self.nodes.len() ==> reachable(
                world,
                voxel_pos_spec(self.start_pos),
                (#[trigger] self.nodes[i]).position,
            )
        &&& forall|k: int|
            0 <= k < self.open_set.len() ==> #[trigger] self.open_set[k] < self.nodes.len()
        &&& forall|pos: WorldVoxelPos| #[trigger]
            self.nodes_map.contains_key(pos) ==> self.nodes_map[pos] < self.nodes.len()
    }
}

/// One step further over a voxel that an agent can stand on is still
/// within what the agent can get to.
pub proof fn lemma_reachable_step(
    world: &GameMap<CoolVoxel>,
    start: WorldVoxelPos,
    from: WorldVoxelPos,
    to: WorldVoxelPos,
)
    requires
        reachable(world, start, from),
        is_step(from, to),
        world.walkable(to),
    ensures
        reachable(world, start, to),
{
    let way = choose|way: Seq<WorldVoxelPos>| #[trigger] is_way(world, start, way) && way.last() == from;
    let longer = way.push(to);
    assert forall|k: int| 1 <= k < longer.len() implies is_step(longer[k - 1], #[trigger] longer[k])
        && world.walkable(longer[k]) by {
        if k < way.len() {
            assert(longer[k] == way[k] && longer[k - 1] == way[k - 1]);
        } else {
            assert(longer[k - 1] == way.last());
        }
    }
    assert(is_way(world, start, longer) && longer.last() == to);
}

/// The place where an entry belongs lies in the open set or right behind it.
proof fn lemma_place_in_range(nodes: Seq<PathNode>, open_set: Seq<usize>, cost: u128, from: int)
    requires
        0 <= from <= open_set.len(),
    ensures
        from <= place_from(nodes, open_set, cost, from) <= open_set.len(),
    decreases open_set.len() - from,
{
    if from < open_set.len() && !(nodes[open_set[from] as int].total_cost > cost) {
        lemma_place_in_range(nodes, open_set, cost, from + 1);
    }
}

/// Queuing a node of the arena leaves the open set naming nodes of the
/// arena.
proof fn lemma_enqueued_names_nodes(s: SearchState, id: usize)
    requires
        id < s.nodes.len(),
        forall|k: int| 0 <= k < s.open_set.len() ==> #[trigger] s.open_set[k] < s.nodes.len(),
    ensures
        forall|k: int| 0 <= k < s.enqueued(id).len() ==> #[trigger] s.enqueued(id)[k] < s.nodes.len(),
{
    lemma_find_entry(s.open_set, id, 0);
    let without = without_entry(s.open_set, id);
    assert forall|k: int| 0 <= k < without.len() implies #[trigger] without[k] < s.nodes.len() by {
        match find_entry(s.open_set, id, 0) {
            Some(gone) => {
                if k < gone {
                    assert(without[k] == s.open_set[k]);
                } else {
                    assert(without[k] == s.open_set[k + 1]);
                }
            },
            None => {},
        }
    }
    let place = place_from(s.nodes, without, s.nodes[id as int].total_cost, 0);
    lemma_place_in_range(s.nodes, without, s.nodes[id as int].total_cost, 0);
    let after = s.enqueued(id);
    assert(after == without.insert(place, id));
    assert forall|k: int| 0 <= k < after.len() implies #[trigger] after[k] < s.nodes.len() by {
        if k < place {
            assert(after[k] == without[k]);
        } else if k > place {
            assert(after[k] == without[k - 1]);
        }
    }
}

/// Taking in a voxel that an agent can stand on, one step from a node,
/// leaves the search on the ground; and it ends the search only where that
/// voxel lies within reach of the goal.
proof fn lemma_visited_grounded(s: SearchState, best: usize, new_pos: WorldVoxelPos, world: &GameMap<CoolVoxel>)
    requires
        s.grounded(world),
        s.found_path is None,
        best < s.nodes.len(),
        is_step(s.nodes[best as int].position, new_pos),
        world.walkable(new_pos),
    ensures
        s.visited(best, new_pos).grounded(world),
        s.visited(best, new_pos).start_pos == s.start_pos,
        s.visited(best, new_pos).end_pos == s.end_pos,
        s.visited(best, new_pos).nodes.len() >= s.nodes.len(),
        s.visited(best, new_pos).found_path is Some ==> in_reach(new_pos, s.end_pos),
{
    let start = voxel_pos_spec(s.start_pos);
    lemma_reachable_step(world, start, s.nodes[best as int].position, new_pos);
    let node = s.candidate(best, new_pos);
    let (reached, target) = s.reached(node);
    match s.lookup(new_pos) {
        Some(i) => {
            if node.movement_cost < s.nodes[i as int].movement_cost {
                let moved = SearchState { nodes: s.nodes.update(i as int, node), ..s };
                lemma_enqueued_names_nodes(moved, i);
                assert forall|j: int| 0 <= j < reached.nodes.len() implies reachable(
                    world,
                    start,
                    (#[trigger] reached.nodes[j]).position,
                ) by {
                    if j != i {
                        assert(reached.nodes[j] == s.nodes[j]);
                    }
                }
                assert(reached.grounded(world));
            }
        },
        None => {
            let grown = SearchState {
                nodes: s.nodes.push(node),
                nodes_map: s.nodes_map.insert(node.position, s.nodes.len() as usize),
                last_node: s.nodes.len() as usize,
                ..s
            };
            if s.nodes.len() < usize::MAX {
                lemma_enqueued_names_nodes(grown, s.nodes.len() as usize);
                assert forall|j: int| 0 <= j < reached.nodes.len() implies reachable(
                    world,
                    start,
                    (#[trigger] reached.nodes[j]).position,
                ) by {
                    if j < s.nodes.len() {
                        assert(reached.nodes[j] == s.nodes[j]);
                    }
                }
                assert forall|pos: WorldVoxelPos| #[trigger]
                    reached.nodes_map.contains_key(pos) implies reached.nodes_map[pos]
                    < reached.nodes.len() by {
                    if pos != node.position {
                        assert(s.nodes_map.contains_key(pos));
                    }
                }
                assert(reached.grounded(world));
            }
        },
    }
}

/// Looking at a neighbour of a node leaves the search on the ground, and
/// does not end it while the goal is out of reach.
proof fn lemma_relaxed_grounded(s: SearchState, best: usize, k: int, world: &GameMap<CoolVoxel>)
    requires
        s.grounded(world),
        s.found_path is None,
        best < s.nodes.len(),
        0 <= k < 12,
        goal_out_of_reach(world, voxel_pos_spec(s.start_pos), s.end_pos),
    ensures
        s.relaxed(best, direction(k), world).grounded(world),
        s.relaxed(best, direction(k), world).start_pos == s.start_pos,
        s.relaxed(best, direction(k), world).end_pos == s.end_pos,
        s.relaxed(best, direction(k), world).nodes.len() >= s.nodes.len(),
        s.relaxed(best, direction(k), world).found_path is None,
{
    match s.nodes[best as int].position.offset_spec(direction(k)) {
        None => {},
        Some(new_pos) => {
            if world.walkable(new_pos) {
                assert(is_step(s.nodes[best as int].position, new_pos));
                lemma_visited_grounded(s, best, new_pos, world);
                lemma_reachable_step(
                    world,
                    voxel_pos_spec(s.start_pos),
                    s.nodes[best as int].position,
                    new_pos,
                );
            }
        },
    }
}

/// Looking at the neighbours of a node leaves the search on the ground, and
/// does not end it while the goal is out of reach.
proof fn lemma_expanded_grounded(s: SearchState, best: usize, k: int, world: &GameMap<CoolVoxel>)
    requires
        s.grounded(world),
        s.found_path is None,
        best < s.nodes.len(),
        0 <= k,
        goal_out_of_reach(world, voxel_pos_spec(s.start_pos), s.end_pos),
    ensures
        s.expanded(best, k, world).grounded(world),
        s.expanded(best, k, world).start_pos == s.start_pos,
        s.expanded(best, k, world).end_pos == s.end_pos,
        s.expanded(best, k, world).found_path is None,
    decreases 12 - k,
{
    if k < 12 {
        lemma_relaxed_grounded(s, best, k, world);
        lemma_expanded_grounded(s.relaxed(best, direction(k), world), best, k + 1, world);
    }
}

/// A search that starts now stands on the ground of any world.
pub proof fn lemma_initial_grounded(
    tolerance: i64,
    start_pos: Vec3Milli,
    end_pos: Vec3Milli,
    world: &GameMap<CoolVoxel>,
)
    ensures
        SearchState::initial(tolerance, start_pos, end_pos).grounded(world),
        SearchState::initial(tolerance, start_pos, end_pos).found_path is None,
        SearchState::initial(tolerance, start_pos, end_pos).start_pos == start_pos,
        SearchState::initial(tolerance, start_pos, end_pos).end_pos == end_pos,
{
    let start = voxel_pos_spec(start_pos);
    let way = seq![start];
    assert(is_way(world, start, way) && way.last() == start);
}

/// The unreachable goal: as long as no voxel that an agent can get to from
/// the start and stand on lies within reach of the goal, a search has no
/// path, whatever budget it is given, and it is again a search of which
/// this holds, so that the same is true however often it is taken up.
pub proof fn lemma_unreachable_goal_is_never_found(
    s: SearchState,
    budget: nat,
    world: &GameMap<CoolVoxel>,
)
    requires
        s.grounded(world),
        s.found_path is None,
        goal_out_of_reach(world, voxel_pos_spec(s.start_pos), s.end_pos),
    ensures
        s.run(budget, world).found_path is None,
        s.run(budget, world).grounded(world),
        s.run(budget, world).start_pos == s.start_pos,
        s.run(budget, world).end_pos == s.end_pos,
    decreases budget,
{
    if budget > 0 {
        let counted = SearchState { iterations: counted_up(s.iterations), ..s };
        if s.open_set.len() > 0 {
            let taken = SearchState { open_set: s.open_set.drop_first(), ..counted };
            assert forall|k: int| 0 <= k < taken.open_set.len() implies #[trigger] taken.open_set[k]
                < taken.nodes.len() by {
                assert(taken.open_set[k] == s.open_set[k + 1]);
            }
            assert(taken.grounded(world));
            lemma_expanded_grounded(taken, s.open_set[0], 0, world);
        } else {
            assert(counted.grounded(world));
        }
        lemma_unreachable_goal_is_never_found(s.stepped(world), (budget - 1) as nat, world);
    }
}

/// A search that has its path keeps it: no iteration and no budget changes
/// anything about it.
pub proof fn lemma_found_is_final(s: SearchState, budget: nat, world: &GameMap<CoolVoxel>)
    requires
        s.found_path is Some,
    ensures
        s.stepped(world) == s,
        s.run(budget, world) == s,
{
}

/// A search claims a path only where it has reached a voxel within reach of
/// the goal: the path starts at the start and ends at such a voxel.
pub proof fn lemma_found_is_near(s: SearchState)
    requires
        s.wf(),
        s.found_path is Some,
    ensures
        s.found_path->0.len() >= 1,
        s.found_path->0[0] == 0,
        s.found_path->0.last() < s.nodes.len(),
        in_reach(s.nodes[s.found_path->0.last() as int].position, s.end_pos),
{
    reveal(SearchState::wf);
}

/// In a well-formed search the open set names its nodes in order of rising
/// cost.
pub proof fn lemma_open_set_sorted(s: SearchState)
    requires
        s.wf(),
    ensures
        forall|i: int, j: int|
            0 <= i < j < s.open_set.len() ==> s.nodes[s.open_set[i] as int].total_cost
                <= s.nodes[s.open_set[j] as int].total_cost,
{
    reveal(SearchState::wf);
}

/// A search that can be stopped after any iteration and taken up again.
pub struct PathfindingData {
    pub nodes: Vec<PathNode>,
    /// Where in the arena the node of each voxel stands, filed under the
    /// number of the voxel.
    pub nodes_map: HashMap<u128, usize>,
    /// The voxels that the search has looked at, walkable or not, each filed
    /// under its number.
    pub explored_positions: HashMap<u128, ()>,
    pub open_set: VecDeque<usize>,
    pub start_pos: Vec3Milli,
    pub tolerance: i64,
    pub end_pos: Vec3Milli,
    pub end_pos_i: WorldVoxelPos,
    pub iterations: usize,
    pub last_node: usize,
    pub found_path: Option<Vec<usize>>,
}

impl View for PathfindingData {
    type V = SearchState;

    open spec fn view(&self) -> SearchState {
        SearchState {
            nodes: self.nodes@,
            nodes_map: positions_of(self.nodes_map@),
            explored_positions: explored_of(self.explored_positions@),
            open_set: self.open_set@,
            start_pos: self.start_pos,
            tolerance: self.tolerance,
            end_pos: self.end_pos,
            end_pos_i: self.end_pos_i,
            iterations: self.iterations,
            last_node: self.last_node,
            found_path: match self.found_path {
                Some(path) => Some(path@),
                None => None,
            },
        }
    }
}

/// Estimate of the way from the voxel `test` to `target`: the straight
/// distance from the voxel's corner, rounded down.
pub fn default_heuristic(test: WorldVoxelPos, target: Vec3Milli) -> (estimate: u64)
    ensures
        estimate == heuristic_of(test, target),
{
    test.to_world().dist(&target)
}

/// The number under which the arena of a search files the voxel `pos`.
fn key_of(pos: WorldVoxelPos) -> (key: u128)
    ensures
        key == position_key(pos),
{
    ((pos.x as i64 + 0x8000_0000) as u128) * 0x1_0000_0000_0000_0000 + ((pos.y as i64
        + 0x8000_0000) as u128) * 0x1_0000_0000 + ((pos.z as i64 + 0x8000_0000) as u128)
}

impl PathfindingData {
    /// The index of the node that stands at `pos`, if the search has reached
    /// that voxel.
    pub fn find_node(&self, pos: WorldVoxelPos) -> (found: Option<usize>)
        ensures
            found == self@.lookup(pos),
    {
        broadcast use vstd::std_specs::hash::group_hash_axioms;

        let key = key_of(pos);
        match self.nodes_map.get(&key) {
            Some(index) => Some(*index),
            None => None,
        }
    }

    /// Takes the entry `id` out of the open set, if it has one.
    fn remove_entry(&mut self, id: usize)
        ensures
            final(self)@ == (SearchState {
                open_set: without_entry(old(self)@.open_set, id),
                ..old(self)@
            }),
    {
        let mut i: usize = 0;
        while i < self.open_set.len()
            invariant
                i <= self.open_set.len(),
                *self == *old(self),
                find_entry(self@.open_set, id, 0) == find_entry(self@.open_set, id, i as int),
            decreases self.open_set.len() - i,
        {
            if self.open_set[i] == id {
                self.open_set.remove(i);
                return ;
            }
            i += 1;
        }
    }

    /// Puts a node that the open set does not name where its cost belongs,
    /// behind the entries that cost the same.
    fn insert_entry(&mut self, node_id: usize)
        requires
            node_id < old(self).nodes.len(),
            forall|i: int|
                0 <= i < old(self)@.open_set.len() ==> #[trigger] old(self)@.open_set[i] < old(
                    self,
                ).nodes.len(),
            sorted_by_cost(old(self)@.nodes, old(self)@.open_set),
            old(self)@.open_set.no_duplicates(),
            !old(self)@.open_set.contains(node_id),
        ensures
            final(self)@ == (SearchState {
                open_set: old(self)@.open_set.insert(
                    place_from(
                        old(self)@.nodes,
                        old(self)@.open_set,
                        old(self)@.nodes[node_id as int].total_cost,
                        0,
                    ),
                    node_id,
                ),
                ..old(self)@
            }),
            sorted_by_cost(final(self)@.nodes, final(self)@.open_set),
            final(self)@.open_set.no_duplicates(),
            final(self)@.open_set.contains(node_id),
            forall|i: int|
                0 <= i < final(self)@.open_set.len() ==> #[trigger] final(self)@.open_set[i]
                    < final(self).nodes.len(),
            forall|id: usize|
                id != node_id ==> (final(self)@.open_set.contains(id) <==> old(
                    self,
                )@.open_set.contains(id)),
    {
        let ghost before = self@.open_set;
        let cost: u128 = self.nodes[node_id].total_cost;
        let mut low: usize = 0;
        let mut high: usize = self.open_set.len();
        while low < high
            invariant
                low <= high <= self.open_set.len(),
                *self == *old(self),
                before == self@.open_set,
                forall|i: int| 0 <= i < before.len() ==> #[trigger] before[i] < self.nodes.len(),
                sorted_by_cost(self@.nodes, before),
                forall|j: int|
                    0 <= j < low ==> self@.nodes[#[trigger] before[j] as int].total_cost <= cost,
                forall|j: int|
                    high <= j < before.len() ==> self@.nodes[#[trigger] before[j] as int].total_cost
                        > cost,
            decreases high - low,
        {
            let middle: usize = low + (high - low) / 2;
            if self.nodes[self.open_set[middle]].total_cost > cost {
                high = middle;
            } else {
                low = middle + 1;
            }
        }
        proof {
            lemma_place_from(self@.nodes, before, cost, 0, low as int);
            lemma_with_entry(self@.nodes, before, node_id, low as int);
        }
        self.open_set.insert(low, node_id);
    }

    /// Puts the node `node_id` into the open set where its cost belongs,
    /// behind the entries that cost the same; an entry it had before is
    /// taken out first. An open set in order of rising cost stays so.
    pub fn add_to_prio_queue(&mut self, node_id: usize)
        requires
            node_id < old(self).nodes.len(),
            forall|i: int|
                0 <= i < old(self)@.open_set.len() ==> #[trigger] old(self)@.open_set[i] < old(
                    self,
                ).nodes.len(),
            sorted_by_cost(old(self)@.nodes, old(self)@.open_set),
            old(self)@.open_set.no_duplicates(),
        ensures
            final(self)@ == (SearchState { open_set: old(self)@.enqueued(node_id), ..old(self)@ }),
            sorted_by_cost(final(self)@.nodes, final(self)@.open_set),
            final(self)@.open_set.no_duplicates(),
            final(self)@.open_set.contains(node_id),
            forall|i: int|
                0 <= i < final(self)@.open_set.len() ==> #[trigger] final(self)@.open_set[i]
                    < final(self).nodes.len(),
            forall|id: usize|
                id != node_id ==> (final(self)@.open_set.contains(id) <==> old(
                    self,
                )@.open_set.contains(id)),
    {
        proof {
            lemma_without_entry(self@.nodes, self@.open_set, node_id);
        }
        self.remove_entry(node_id);
        self.insert_entry(node_id);
    }

    /// Ends the search with the path that the parent links give from the
    /// start to `node`.
    fn create_path(&mut self, node: usize)
        requires
            old(self)@.linked(),
            node < old(self).nodes.len(),
        ensures
            final(self)@ == (SearchState {
                found_path: Some(old(self)@.chain_up(node).reverse()),
                ..old(self)@
            }),
    {
        let mut up: Vec<usize> = Vec::with_capacity(40);
        let mut current: usize = node;
        loop
            invariant_except_break
                up@ + self@.chain_up(current) == self@.chain_up(node),
            invariant
                *self == *old(self),
                self@.linked(),
                current < self.nodes.len(),
            ensures
                up@ == self@.chain_up(node),
            decreases self.nodes[current as int].movement_cost,
        {
            up.push(current);
            match self.nodes[current].parent {
                Some(parent) => {
                    assert(self@.chain_up(current) == seq![current] + self@.chain_up(parent));
                    assert(up@ + self@.chain_up(parent) =~= up@.drop_last() + (seq![current]
                        + self@.chain_up(parent)));
                    current = parent;
                },
                None => {
                    assert(up@ =~= up@.drop_last() + seq![current]);
                    assert(self@.chain_up(current) == seq![current]);
                    break ;
                },
            }
        }
        let mut path: Vec<usize> = Vec::with_capacity(up.len());
        let mut k: usize = 0;
        while k < up.len()
            invariant
                k <= up.len(),
                path.len() == k,
                forall|j: int| 0 <= j < k ==> path[j] == up[up.len() - 1 - j],
            decreases up.len() - k,
        {
            path.push(up[up.len() - 1 - k]);
            k += 1;
        }
        assert(path@ =~= up@.reverse());
        self.found_path = Some(path);
    }
    /// Gives the node `i` the shorter way that `node` holds and puts it back
    /// into the open set.
    fn improve_node(&mut self, i: usize, node: PathNode, best: usize)
        requires
            old(self)@.wf(),
            old(self)@.found_path is None,
            i < old(self).nodes.len(),
            old(self)@.fits_behind(node, best),
            node.position == old(self)@.nodes[i as int].position,
            node.movement_cost < old(self)@.nodes[i as int].movement_cost,
        ensures
            final(self)@ == old(self)@.with_moved(i as int, node),
            final(self)@.wf(),
    {
        proof {
            reveal(SearchState::wf);
            lemma_without_entry(self@.nodes, self@.open_set, i);
        }
        self.remove_entry(i);
        let ghost removed = self@.open_set;
        self.nodes[i] = node;
        assert(self@.nodes == old(self)@.nodes.update(i as int, node));
        assert(sorted_by_cost(self@.nodes, removed)) by {
            assert forall|a: int, b: int| 0 <= a < b < removed.len() implies self@.nodes[removed[a] as int].total_cost
                <= self@.nodes[removed[b] as int].total_cost by {
                assert(removed.contains(removed[a]) && removed.contains(removed[b]));
                assert(old(self)@.nodes[removed[a] as int].total_cost <= old(self)@.nodes[removed[b] as int].total_cost);
            }
        }
        assert forall|j: int| 0 <= j < removed.len() implies self@.nodes[#[trigger] removed[j] as int]
            == old(self)@.nodes[removed[j] as int] by {
            assert(removed.contains(removed[j]));
        }
        assert(place_from(self@.nodes, removed, node.total_cost, 0) == place_from(
            old(self)@.nodes.update(i as int, node),
            removed,
            node.total_cost,
            0,
        ));
        self.insert_entry(i);
        let ghost nodes = self@.nodes;
        assert(nodes_rooted(nodes)) by {
            assert forall|j: int| 1 <= j < nodes.len() implies {
                &&& (#[trigger] nodes[j]).parent is Some
                &&& nodes[j].parent->0 < nodes.len()
                &&& nodes[nodes[j].parent->0 as int].movement_cost < nodes[j].movement_cost
            } by {
                assert(old(self)@.nodes[j].parent is Some);
            }
        }
        assert(nodes_placed(nodes, self@.end_pos)) by {
            assert forall|j: int| 1 <= j < nodes.len() implies {
                &&& is_step(nodes[nodes[j].parent->0 as int].position, (#[trigger] nodes[j]).position)
                &&& nodes[j].heuristic == heuristic_of(nodes[j].position, self@.end_pos)
            } by {
                assert(old(self)@.nodes[j].parent is Some);
                assert(nodes[nodes[j].parent->0 as int].position == old(
                    self,
                )@.nodes[nodes[j].parent->0 as int].position);
            }
        }
        assert(nodes_distinct(nodes)) by {
            assert forall|a: int, b: int| 0 <= a < b < nodes.len() implies (#[trigger] nodes[a]).position
                != (#[trigger] nodes[b]).position by {
                assert(nodes[a].position == old(self)@.nodes[a].position);
                assert(nodes[b].position == old(self)@.nodes[b].position);
            }
        }
        assert(nodes_costed(nodes));
        assert(nodes_indexed(nodes, self@.nodes_map)) by {
            assert forall|j: int| 0 <= j < nodes.len() implies self@.nodes_map.contains_key(
                (#[trigger] nodes[j]).position,
            ) && self@.nodes_map[nodes[j].position] == j by {
                assert(nodes[j].position == old(self)@.nodes[j].position);
            }
        }
    }

    /// Adds `node` to the arena and to the open set.
    fn append_node(&mut self, node: PathNode, best: usize)
        requires
            old(self)@.wf(),
            old(self)@.found_path is None,
            old(self).nodes.len() < usize::MAX,
            old(self)@.fits_behind(node, best),
            !old(self)@.nodes_map.contains_key(node.position),
        ensures
            final(self)@ == old(self)@.with_new(node),
            final(self)@.wf(),
    {
        broadcast use vstd::std_specs::hash::group_hash_axioms;

        proof {
            reveal(SearchState::wf);
            assert forall|j: int| 0 <= j < self@.nodes.len() implies (
            #[trigger] self@.nodes[j]).position != node.position by {
                assert(self@.nodes_map.contains_key(self@.nodes[j].position));
            }
            lemma_positions_of_insert(self.nodes_map@, node.position, self.nodes.len());
        }
        let new_last: usize = self.nodes.len();
        self.nodes.push(node);
        self.nodes_map.insert(key_of(node.position), new_last);
        self.last_node = new_last;
        assert(sorted_by_cost(self@.nodes, self@.open_set));
        assert(without_entry(self@.open_set, new_last) == self@.open_set) by {
            lemma_find_entry(self@.open_set, new_last, 0);
        }
        assert(!self@.open_set.contains(new_last));
        self.insert_entry(new_last);
        let ghost nodes = self@.nodes;
        assert(nodes_rooted(nodes)) by {
            assert forall|j: int| 1 <= j < nodes.len() implies {
                &&& (#[trigger] nodes[j]).parent is Some
                &&& nodes[j].parent->0 < nodes.len()
                &&& nodes[nodes[j].parent->0 as int].movement_cost < nodes[j].movement_cost
            } by {
                if j < new_last {
                    assert(old(self)@.nodes[j].parent is Some);
                }
            }
        }
        assert(nodes_placed(nodes, self@.end_pos)) by {
            assert forall|j: int| 1 <= j < nodes.len() implies {
                &&& is_step(nodes[nodes[j].parent->0 as int].position, (#[trigger] nodes[j]).position)
                &&& nodes[j].heuristic == heuristic_of(nodes[j].position, self@.end_pos)
            } by {
                if j < new_last {
                    assert(old(self)@.nodes[j].parent is Some);
                }
            }
        }
        assert(nodes_distinct(nodes));
        assert(nodes_costed(nodes));
        assert(nodes_indexed(nodes, self@.nodes_map)) by {
            assert forall|j: int| 0 <= j < nodes.len() implies self@.nodes_map.contains_key(
                (#[trigger] nodes[j]).position,
            ) && self@.nodes_map[nodes[j].position] == j by {
                if j < new_last {
                    assert(nodes[j] == old(self)@.nodes[j]);
                }
            }
        }
    }
    /// Takes `node` in: as a new node, or as the shorter way to the node that
    /// stands at its voxel. Gives the index of that node, or `None` where the
    /// arena has no index left.
    fn reach(&mut self, node: PathNode, best: usize) -> (target: Option<usize>)
        requires
            old(self)@.wf(),
            old(self)@.found_path is None,
            old(self)@.fits_behind(node, best),
        ensures
            match target {
                Some(t) => {
                    &&& (final(self)@, t) == old(self)@.reached(node)
                    &&& final(self)@.wf()
                    &&& t < final(self).nodes.len()
                    &&& final(self)@.nodes[t as int].position == node.position
                },
                None => {
                    &&& final(self)@ == old(self)@
                    &&& old(self)@.reached(node).0.nodes.len() > usize::MAX
                },
            },
            final(self)@.nodes.len() >= old(self)@.nodes.len(),
            final(self)@.found_path is None,
            final(self)@.iterations == old(self)@.iterations,
            final(self).start_pos == old(self).start_pos,
            final(self).end_pos == old(self).end_pos,
    {
        proof {
            lemma_wf_parts(self@);
        }
        match self.find_node(node.position) {
            Some(i) => {
                if node.movement_cost < self.nodes[i].movement_cost {
                    self.improve_node(i, node, best);
                }
                Some(i)
            },
            None => {
                if self.nodes.len() == usize::MAX {
                    return None;
                }
                let target: usize = self.nodes.len();
                self.append_node(node, best);
                Some(target)
            },
        }
    }

    /// Ends the search at `target`, a node within reach of the goal.
    fn conclude(&mut self, target: usize)
        requires
            old(self)@.wf(),
            old(self)@.found_path is None,
            target < old(self).nodes.len(),
            in_reach(old(self)@.nodes[target as int].position, old(self)@.end_pos),
        ensures
            final(self)@ == old(self)@.concluded(target),
            final(self)@.wf(),
    {
        proof {
            lemma_wf_parts(self@);
            lemma_concluded_wf(self@, target);
        }
        self.create_path(target);
    }

    /// Takes in the walkable voxel `new_pos` next to `best`.
    fn visit(&mut self, best: usize, new_pos: WorldVoxelPos)
        requires
            old(self)@.wf(),
            old(self)@.found_path is None,
            best < old(self).nodes.len(),
            is_step(old(self)@.nodes[best as int].position, new_pos),
        ensures
            final(self)@ == old(self)@.visited(best, new_pos),
            final(self)@.wf(),
            final(self)@.iterations == old(self)@.iterations,
            final(self)@.nodes.len() >= old(self)@.nodes.len(),
            final(self).start_pos == old(self).start_pos,
            final(self).end_pos == old(self).end_pos,
    {
        let estimate: u64 = default_heuristic(new_pos, self.end_pos);
        let near: bool = new_pos.to_world().dist2(&self.end_pos) <= (GOAL_REACH as u128) * (
        GOAL_REACH as u128);
        proof {
            lemma_steps_bounded(self@, best as int);
        }
        let steps: u64 = self.nodes[best].movement_cost + 1;
        let node = PathNode {
            parent: Some(best),
            position: new_pos,
            movement_cost: steps,
            heuristic: estimate,
            total_cost: steps as u128 * 1000 + estimate as u128,
        };
        assert(node == self@.candidate(best, new_pos));
        match self.reach(node, best) {
            Some(target) => {
                if near {
                    self.conclude(target);
                }
            },
            None => {},
        }
    }

    /// Looks at the neighbour of `best` in the direction `step`.
    fn relax(&mut self, best: usize, step: WorldVoxelPos, world: &GameMap<CoolVoxel>)
        requires
            old(self)@.wf(),
            old(self)@.found_path is None,
            best < old(self).nodes.len(),
            exists|k: int| 0 <= k < 12 && step == direction(k),
            world.wf(),
        ensures
            final(self)@ == old(self)@.relaxed(best, step, world),
            final(self)@.wf(),
            final(self)@.iterations == old(self)@.iterations,
            final(self)@.nodes.len() >= old(self)@.nodes.len(),
            final(self).start_pos == old(self).start_pos,
            final(self).end_pos == old(self).end_pos,
    {
        broadcast use vstd::std_specs::hash::group_hash_axioms;

        let from: WorldVoxelPos = self.nodes[best].position;
        match from.offset(step) {
            None => {},
            Some(new_pos) => {
                if world.is_walkable(new_pos) {
                    assert(is_step(from, new_pos)) by {
                        let k = choose|k: int| 0 <= k < 12 && step == direction(k);
                        assert(from.offset_spec(direction(k)) == Some(new_pos));
                    }
                    self.visit(best, new_pos);
                }
                proof {
                    lemma_explored_of_insert(self.explored_positions@, new_pos);
                    lemma_wf_whatever_explored(self@, self@.explored_positions.insert(new_pos));
                }
                self.explored_positions.insert(key_of(new_pos), ());
            },
        }
    }

    /// Counts one iteration and takes the cheapest node out of the open set.
    fn take_best(&mut self) -> (best: Option<usize>)
        requires
            old(self)@.wf(),
            old(self)@.found_path is None,
        ensures
            final(self)@.wf(),
            final(self)@.found_path is None,
            match best {
                Some(b) => {
                    &&& old(self)@.open_set.len() > 0
                    &&& b == old(self)@.open_set[0]
                    &&& b < final(self).nodes.len()
                    &&& final(self)@ == (SearchState {
                        open_set: old(self)@.open_set.drop_first(),
                        iterations: counted_up(old(self).iterations),
                        ..old(self)@
                    })
                },
                None => {
                    &&& old(self)@.open_set.len() == 0
                    &&& final(self)@ == (SearchState {
                        iterations: counted_up(old(self).iterations),
                        ..old(self)@
                    })
                },
            },
    {
        proof {
            reveal(SearchState::wf);
        }
        self.iterations = self.iterations.saturating_add(1);
        let best = self.open_set.pop_front();
        proof {
            let before = old(self)@.open_set;
            let after = self@.open_set;
            if before.len() > 0 {
                assert(after =~= before.drop_first());
                assert forall|i: int| 0 <= i < after.len() implies after[i] == before[i + 1] by {}
                assert(sorted_by_cost(self@.nodes, after));
                assert(after.no_duplicates());
                assert(open_set_in_order(self@.nodes, after));
            }
        }
        best
    }

    /// One iteration of the search: the cheapest open node leaves the open
    /// set, and each of its walkable neighbours is taken in, until one of
    /// them ends the search. A search that has its path stays as it is.
    pub fn pathfinding_iteration(&mut self, world: &GameMap<CoolVoxel>)
        requires
            old(self)@.wf(),
            world.wf(),
        ensures
            final(self)@ == old(self)@.stepped(world),
            final(self)@.wf(),
            final(self).iterations == if old(self)@.found_path is None {
                counted_up(old(self).iterations)
            } else {
                old(self).iterations
            },
            sorted_by_cost(final(self)@.nodes, final(self)@.open_set),
            final(self).start_pos == old(self).start_pos,
            final(self).end_pos == old(self).end_pos,
    {
        proof {
            lemma_open_set_sorted(self@);
        }
        if self.found_path.is_some() {
            return ;
        }
        match self.take_best() {
            None => {},
            Some(best) => {
                let ghost taken = self@;
                let mut k: usize = 0;
                while k < DIRECTION_COUNT && self.found_path.is_none()
                    invariant
                        k <= DIRECTION_COUNT,
                        self@.wf(),
                        world.wf(),
                        best < self.nodes.len(),
                        self.iterations == taken.iterations,
                        self.start_pos == old(self).start_pos,
                        self.end_pos == old(self).end_pos,
                        self@.expanded(best, k as int, world) == taken.expanded(best, 0, world),
                    decreases DIRECTION_COUNT - k,
                {
                    assert(self@.expanded(best, k as int, world) == self@.relaxed(
                        best,
                        direction(k as int),
                        world,
                    ).expanded(best, k + 1, world));
                    self.relax(best, direction_at(k), world);
                    k += 1;
                }
                assert(self@.expanded(best, k as int, world) == self@);
            },
        }
        proof {
            lemma_open_set_sorted(self@);
        }
    }

    /// Starts a search from `start_pos` to `end_pos` and runs it until it has
    /// a path, `max_iterations` iterations at most.
    pub fn plan_pathfinding(
        tolerance: i64,
        start_pos: Vec3Milli,
        end_pos: Vec3Milli,
        max_iterations: usize,
        world: &GameMap<CoolVoxel>,
    ) -> (data: PathfindingData)
        requires
            world.wf(),
        ensures
            data@ == SearchState::initial(tolerance, start_pos, end_pos).run(
                max_iterations as nat,
                world,
            ),
            data@.wf(),
            data.iterations <= max_iterations,
            sorted_by_cost(data@.nodes, data@.open_set),
            goal_out_of_reach(world, voxel_pos_spec(start_pos), end_pos) ==> data@.found_path
                is None && data@.grounded(world) && data.iterations == max_iterations,
    {
        let mut data = Self::start_search(tolerance, start_pos, end_pos);
        proof {
            lemma_initial_grounded(tolerance, start_pos, end_pos, world);
        }
        data.reiterate(max_iterations, world);
        data
    }

    /// A search that has not looked at anything yet.
    fn start_search(tolerance: i64, start_pos: Vec3Milli, end_pos: Vec3Milli) -> (data:
        PathfindingData)
        ensures
            data@ == SearchState::initial(tolerance, start_pos, end_pos),
            data@.wf(),
    {
        let estimate: u64 = start_pos.dist(&end_pos);
        let mut nodes: Vec<PathNode> = Vec::with_capacity(256);
        nodes.push(
            PathNode {
                parent: None,
                position: get_voxel_pos(start_pos),
                movement_cost: 0,
                heuristic: estimate,
                total_cost: estimate as u128,
            },
        );
        let mut nodes_map: HashMap<u128, usize> = HashMap::with_capacity(512);
        nodes_map.insert(key_of(get_voxel_pos(start_pos)), 0);
        let mut explored_positions: HashMap<u128, ()> = HashMap::with_capacity(512);
        explored_positions.insert(key_of(get_voxel_pos(start_pos)), ());
        let mut open_set: VecDeque<usize> = VecDeque::with_capacity(512);
        open_set.push_back(0);
        let mut data = PathfindingData {
            nodes,
            nodes_map,
            explored_positions,
            open_set,
            start_pos,
            tolerance,
            end_pos,
            end_pos_i: get_voxel_pos(end_pos),
            iterations: 0,
            last_node: 0,
            found_path: None,
        };
        proof {
            reveal(SearchState::wf);
            lemma_positions_of_insert(Map::empty(), voxel_pos_spec(start_pos), 0);
            assert(positions_of(Map::<u128, usize>::empty()) =~= Map::empty());
            lemma_explored_of_insert(Map::empty(), voxel_pos_spec(start_pos));
            assert(explored_of(Map::<u128, ()>::empty()) =~= Set::empty());
            assert(data@.nodes =~= SearchState::initial(tolerance, start_pos, end_pos).nodes);
            assert(data@.open_set =~= SearchState::initial(tolerance, start_pos, end_pos).open_set);
            assert(data@.wf());
        }
        data
    }

    /// Takes the search up again until it has a path, `extra_iterations`
    /// iterations at most.
    pub fn reiterate(&mut self, extra_iterations: usize, world: &GameMap<CoolVoxel>)
        requires
            old(self)@.wf(),
            world.wf(),
        ensures
            final(self)@ == old(self)@.run(
                old(self)@.budget(extra_iterations),
                world,
            ),
            final(self)@.wf(),
            final(self).iterations <= old(self).iterations + extra_iterations,
            final(self).iterations >= old(self).iterations,
            final(self)@.found_path is None ==> final(self).iterations == old(self).iterations
                + old(self)@.budget(extra_iterations),
            sorted_by_cost(final(self)@.nodes, final(self)@.open_set),
            old(self)@.grounded(world) && old(self)@.found_path is None && goal_out_of_reach(
                world,
                voxel_pos_spec(old(self).start_pos),
                old(self).end_pos,
            ) ==> final(self)@.found_path is None && final(self)@.grounded(world),
            final(self).start_pos == old(self).start_pos,
            final(self).end_pos == old(self).end_pos,
    {
        proof {
            if self@.grounded(world) && self@.found_path is None && goal_out_of_reach(
                world,
                voxel_pos_spec(self.start_pos),
                self.end_pos,
            ) {
                lemma_unreachable_goal_is_never_found(
                    self@,
                    self@.budget(extra_iterations),
                    world,
                );
            }
        }
        let new_max: usize = self.iterations.saturating_add(extra_iterations);
        while self.iterations < new_max && self.found_path.is_none()
            invariant
                self@.wf(),
                world.wf(),
                old(self).iterations <= self.iterations <= new_max,
                self.start_pos == old(self).start_pos,
                self.end_pos == old(self).end_pos,
                new_max == old(self).iterations + old(self)@.budget(extra_iterations),
                self@.run((new_max - self.iterations) as nat, world) == old(self)@.run(
                    old(self)@.budget(extra_iterations),
                    world,
                ),
            decreases new_max - self.iterations,
        {
            self.pathfinding_iteration(world);
        }
        proof {
            lemma_open_set_sorted(self@);
        }
    }
}

impl Clone for PathfindingData {
    /// A second search that holds what this one holds.
    fn clone(&self) -> (copy: Self)
        ensures
            copy@ == self@,
    {
        let mut nodes: Vec<PathNode> = Vec::with_capacity(self.nodes.len());
        let mut i: usize = 0;
        while i < self.nodes.len()
            invariant
                i <= self.nodes.len(),
                nodes@ == self.nodes@.subrange(0, i as int),
            decreases self.nodes.len() - i,
        {
            nodes.push(self.nodes[i]);
            assert(self.nodes@.subrange(0, i + 1) =~= self.nodes@.subrange(0, i as int).push(
                self.nodes[i as int],
            ));
            i += 1;
        }
        assert(self.nodes@.subrange(0, self.nodes.len() as int) =~= self.nodes@);
        let mut open_set: VecDeque<usize> = VecDeque::with_capacity(self.open_set.len());
        let mut j: usize = 0;
        while j < self.open_set.len()
            invariant
                j <= self.open_set.len(),
                open_set@ == self.open_set@.subrange(0, j as int),
            decreases self.open_set.len() - j,
        {
            open_set.push_back(self.open_set[j]);
            assert(self.open_set@.subrange(0, j + 1) =~= self.open_set@.subrange(0, j as int).push(
                self.open_set@[j as int],
            ));
            j += 1;
        }
        assert(self.open_set@.subrange(0, self.open_set.len() as int) =~= self.open_set@);
        let found_path: Option<Vec<usize>> = match &self.found_path {
            Some(path) => {
                let mut copy: Vec<usize> = Vec::with_capacity(path.len());
                let mut k: usize = 0;
                while k < path.len()
                    invariant
                        k <= path.len(),
                        copy@ == path@.subrange(0, k as int),
                    decreases path.len() - k,
                {
                    copy.push(path[k]);
                    assert(path@.subrange(0, k + 1) =~= path@.subrange(0, k as int).push(
                        path[k as int],
                    ));
                    k += 1;
                }
                assert(path@.subrange(0, path.len() as int) =~= path@);
                Some(copy)
            },
            None => None,
        };
        PathfindingData {
            nodes,
            nodes_map: self.nodes_map.clone(),
            explored_positions: self.explored_positions.clone(),
            open_set,
            start_pos: self.start_pos,
            tolerance: self.tolerance,
            end_pos: self.end_pos,
            end_pos_i: self.end_pos_i,
            iterations: self.iterations,
            last_node: self.last_node,
            found_path,
        }
    }
}

} // verus!
