use voxel_agents::game_map::{ChunkDims, GameMap};
use voxel_agents::geometry::{Vec3Milli, WorldVoxelPos};
use voxel_agents::pathfinding::{default_heuristic, direction_at, PathNode, PathfindingData};
use voxel_agents::voxel::{CoolVoxel, CoolVoxelType, VoxelLight};

fn kinds() -> Vec<CoolVoxelType> {
    let air = CoolVoxelType::new(0b0011_1111, 0, VoxelLight::zero_light(), None);
    let stone = CoolVoxelType::new(0, 1, VoxelLight::zero_light(), None);
    vec![air, stone]
}

fn voxel(solid: bool) -> CoolVoxel {
    CoolVoxel::new(if solid { 1 } else { 0 }, 0, VoxelLight::max_light())
}

/// A strip of floor at z = -1 from x = 0 to x = `last_x`, on the row y = 0,
/// with air above it.
fn strip(last_x: i32) -> GameMap<CoolVoxel> {
    let mut map = GameMap::new(ChunkDims::new(8, 8, 8), kinds());
    for cx in -1..=2 {
        for cy in -1..=0 {
            for cz in -1..=0 {
                map.generate_chunk(WorldVoxelPos::new(cx, cy, cz), &|p: WorldVoxelPos| {
                    voxel(p.z == -1 && p.y == 0 && 0 <= p.x && p.x <= last_x)
                });
            }
        }
    }
    map
}

fn at(x: i64, y: i64, z: i64) -> Vec3Milli {
    Vec3Milli::new(x * 1000, y * 1000, z * 1000)
}

fn sorted(data: &PathfindingData) -> bool {
    let costs: Vec<u128> = data.open_set.iter().map(|&i| data.nodes[i].total_cost).collect();
    costs.windows(2).all(|pair| pair[0] <= pair[1])
}

#[test]
fn twelve_directions_four_level_four_up_four_down() {
    let all: Vec<WorldVoxelPos> = (0..12).map(direction_at).collect();
    assert_eq!(all[0], WorldVoxelPos::new(1, 0, 0));
    assert_eq!(all[1], WorldVoxelPos::new(0, 1, 0));
    assert_eq!(all[2], WorldVoxelPos::new(-1, 0, 0));
    assert_eq!(all[3], WorldVoxelPos::new(0, -1, 0));
    assert_eq!(all[4], WorldVoxelPos::new(1, 0, 1));
    assert_eq!(all[7], WorldVoxelPos::new(0, -1, 1));
    assert_eq!(all[8], WorldVoxelPos::new(1, 0, -1));
    assert_eq!(all[11], WorldVoxelPos::new(0, -1, -1));
    for (i, a) in all.iter().enumerate() {
        for b in all.iter().skip(i + 1) {
            assert_ne!(a, b);
        }
    }
}

#[test]
fn estimate_is_the_straight_distance_from_the_corner_of_the_voxel() {
    assert_eq!(default_heuristic(WorldVoxelPos::new(0, 0, 0), at(3, 4, 0)), 5000);
    assert_eq!(default_heuristic(WorldVoxelPos::new(2, 0, 0), at(3, 0, 0)), 1000);
    assert_eq!(default_heuristic(WorldVoxelPos::new(2, 0, 0), Vec3Milli::new(3001, 0, 0)), 1001);
    assert_eq!(default_heuristic(WorldVoxelPos::new(1, 1, 1), at(0, 0, 0)), 1732);
    assert_eq!(default_heuristic(WorldVoxelPos::new(-7, 2, 5), at(-7, 2, 5)), 0);
}

#[test]
fn reachable_goal_on_a_flat_floor_is_found_within_four_iterations() {
    let world = strip(3);
    let data = PathfindingData::plan_pathfinding(800, at(0, 0, 0), at(3, 0, 0), 1000, &world);
    let path = data.found_path.clone().expect("a path along the floor");
    assert!(data.iterations <= 4);
    assert_eq!(data.iterations, 2);
    // The node one voxel from the goal counts as the goal, so the path ends there.
    let places: Vec<WorldVoxelPos> = path.iter().map(|&i| data.nodes[i].position).collect();
    assert_eq!(
        places,
        vec![WorldVoxelPos::new(0, 0, 0), WorldVoxelPos::new(1, 0, 0), WorldVoxelPos::new(2, 0, 0)]
    );
    assert_eq!(path[0], 0);
    let last = data.nodes[*path.last().unwrap()];
    assert_eq!(last.heuristic, 1000);
    assert_eq!(last.movement_cost, 2);
    assert_eq!(last.total_cost, 3000);
}

#[test]
fn goal_is_reached_at_one_voxel_and_not_a_hair_beyond() {
    let world = strip(3);
    // From (2, 0, 0) this goal lies a little more than one voxel away, although the
    // estimate, rounded down, is a thousand.
    let goal = Vec3Milli::new(3000, 20, 0);
    assert_eq!(default_heuristic(WorldVoxelPos::new(2, 0, 0), goal), 1000);
    let data = PathfindingData::plan_pathfinding(800, at(0, 0, 0), goal, 1000, &world);
    let path = data.found_path.clone().expect("a path along the floor");
    let places: Vec<WorldVoxelPos> = path.iter().map(|&i| data.nodes[i].position).collect();
    assert_eq!(
        places,
        vec![
            WorldVoxelPos::new(0, 0, 0),
            WorldVoxelPos::new(1, 0, 0),
            WorldVoxelPos::new(2, 0, 0),
            WorldVoxelPos::new(3, 0, 0)
        ]
    );
    assert_eq!(data.iterations, 3);
}

#[test]
fn search_costs_are_steps_and_straight_distance_in_thousandths() {
    let world = strip(6);
    let data = PathfindingData::plan_pathfinding(800, at(0, 0, 0), at(6, 0, 0), 1, &world);
    assert_eq!(data.iterations, 1);
    assert!(data.found_path.is_none());
    assert_eq!(
        data.nodes[0],
        PathNode {
            parent: None,
            position: WorldVoxelPos::new(0, 0, 0),
            movement_cost: 0,
            heuristic: 6000,
            total_cost: 6000
        }
    );
    assert_eq!(
        data.nodes[1],
        PathNode {
            parent: Some(0),
            position: WorldVoxelPos::new(1, 0, 0),
            movement_cost: 1,
            heuristic: 5000,
            total_cost: 6000
        }
    );
    assert_eq!(data.nodes.len(), 2);
    assert_eq!(data.open_set.iter().copied().collect::<Vec<usize>>(), vec![1]);
}

#[test]
fn unreachable_goal_is_never_claimed() {
    let world = strip(3);
    let mut data = PathfindingData::plan_pathfinding(800, at(0, 0, 0), at(20, 0, 0), 1000, &world);
    assert!(data.found_path.is_none());
    assert_eq!(data.iterations, 1000);
    // Every voxel of the strip has been reached, and none beyond it.
    assert_eq!(data.nodes.len(), 4);
    assert!(data.open_set.is_empty());
    for tick in 1..=50 {
        data.reiterate(100, &world);
        assert!(data.found_path.is_none());
        assert_eq!(data.iterations, 1000 + 100 * tick);
        assert_eq!(data.nodes.len(), 4);
    }
}

#[test]
fn goal_inside_a_solid_block_without_standing_room_is_not_found() {
    // The goal lies in the air far above the strip: nothing near it can be stood on.
    let world = strip(3);
    let data = PathfindingData::plan_pathfinding(800, at(0, 0, 0), at(1, 0, 5), 200, &world);
    assert!(data.found_path.is_none());
    assert_eq!(data.iterations, 200);
}

#[test]
fn every_node_is_indexed_by_its_voxel() {
    let world = strip(7);
    let data = PathfindingData::plan_pathfinding(800, at(0, 0, 0), at(7, 0, 0), 3, &world);
    assert_eq!(data.nodes.len(), 4);
    assert_eq!(data.nodes_map.len(), data.nodes.len());
    for (i, node) in data.nodes.iter().enumerate() {
        assert_eq!(data.find_node(node.position), Some(i));
    }
    assert_eq!(data.find_node(WorldVoxelPos::new(4, 0, 0)), None);
    assert_eq!(data.find_node(WorldVoxelPos::new(0, 1, 0)), None);
    assert_eq!(data.find_node(WorldVoxelPos::new(0, 0, -1)), None);
    // Every neighbour of the three nodes taken from the open set has been looked
    // at: 3 * 12 voxels, of which the three between the first and the third node
    // were looked at twice. The start is one of them.
    assert_eq!(data.explored_positions.len(), 36 - 3);
    let far = WorldVoxelPos::new(i32::MAX, i32::MIN, i32::MAX);
    let near = WorldVoxelPos::new(i32::MAX, i32::MIN, i32::MAX - 1);
    let mut edge = PathfindingData::plan_pathfinding(800, far.to_world(), at(0, 0, 0), 0, &world);
    assert_eq!(edge.find_node(far), Some(0));
    assert_eq!(edge.find_node(near), None);
    // At the rim of the grid the neighbours beyond it are passed over.
    edge.pathfinding_iteration(&world);
    assert_eq!(edge.nodes.len(), 1);
    assert_eq!(edge.explored_positions.len(), 1 + 4);
}

#[test]
fn search_resumes_where_it_stopped() {
    let world = strip(7);
    let mut stepwise = PathfindingData::plan_pathfinding(800, at(0, 0, 0), at(7, 0, 0), 2, &world);
    assert!(stepwise.found_path.is_none());
    assert_eq!(stepwise.iterations, 2);
    stepwise.reiterate(100, &world);
    let at_once = PathfindingData::plan_pathfinding(800, at(0, 0, 0), at(7, 0, 0), 102, &world);
    assert_eq!(stepwise.found_path, at_once.found_path);
    assert_eq!(stepwise.iterations, at_once.iterations);
    assert_eq!(stepwise.nodes, at_once.nodes);
    assert_eq!(stepwise.found_path.as_ref().map(|p| p.len()), Some(7));
    assert_eq!(stepwise.iterations, 6);
}

#[test]
fn a_found_path_freezes_the_search() {
    let world = strip(3);
    let mut data = PathfindingData::plan_pathfinding(800, at(0, 0, 0), at(3, 0, 0), 1000, &world);
    let nodes = data.nodes.clone();
    let path = data.found_path.clone();
    let iterations = data.iterations;
    data.reiterate(100, &world);
    data.pathfinding_iteration(&world);
    assert_eq!(data.nodes, nodes);
    assert_eq!(data.found_path, path);
    assert_eq!(data.iterations, iterations);
}

#[test]
fn open_set_stays_in_order_of_rising_cost() {
    // A wide floor gives the open set many entries of different cost.
    let mut map = GameMap::new(ChunkDims::new(8, 8, 8), kinds());
    for cx in -1..=1 {
        for cy in -1..=1 {
            for cz in -1..=0 {
                map.generate_chunk(WorldVoxelPos::new(cx, cy, cz), &|p: WorldVoxelPos| {
                    voxel(p.z == -1)
                });
            }
        }
    }
    let mut data = PathfindingData::plan_pathfinding(800, at(0, 0, 0), at(7, 5, 0), 0, &map);
    assert!(sorted(&data));
    for _ in 0..6 {
        data.pathfinding_iteration(&map);
        assert!(sorted(&data));
        let mut seen = data.open_set.iter().copied().collect::<Vec<usize>>();
        seen.sort();
        seen.dedup();
        assert_eq!(seen.len(), data.open_set.len());
    }
    assert!(data.open_set.len() > 4);
}

#[test]
fn entry_goes_behind_entries_of_the_same_cost() {
    let world = strip(6);
    let mut data = PathfindingData::plan_pathfinding(800, at(0, 0, 0), at(6, 0, 0), 2, &world);
    // Nodes 0, 1 and 2 all cost 6000; 2 is the only open one.
    assert_eq!(data.open_set.iter().copied().collect::<Vec<usize>>(), vec![2]);
    data.add_to_prio_queue(0);
    assert_eq!(data.open_set.iter().copied().collect::<Vec<usize>>(), vec![2, 0]);
    data.add_to_prio_queue(1);
    assert_eq!(data.open_set.iter().copied().collect::<Vec<usize>>(), vec![2, 0, 1]);
    // Putting a node in again moves it; it is never there twice.
    data.add_to_prio_queue(2);
    assert_eq!(data.open_set.iter().copied().collect::<Vec<usize>>(), vec![0, 1, 2]);
    assert!(sorted(&data));
}

#[test]
fn path_climbs_a_step() {
    // Floor at z = -1 for x in 0..=1, and one voxel higher for x in 2..=4.
    let mut map = GameMap::new(ChunkDims::new(8, 8, 8), kinds());
    for cz in -1..=0 {
        map.generate_chunk(WorldVoxelPos::new(0, 0, cz), &|p: WorldVoxelPos| {
            voxel(p.y == 0 && ((p.z == -1 && p.x <= 1) || (p.z <= 0 && p.x >= 2 && p.x <= 4)))
        });
    }
    let data = PathfindingData::plan_pathfinding(800, at(0, 0, 0), at(4, 0, 1), 1000, &map);
    let path = data.found_path.clone().expect("a path up the step");
    let places: Vec<WorldVoxelPos> = path.iter().map(|&i| data.nodes[i].position).collect();
    assert_eq!(
        places,
        vec![
            WorldVoxelPos::new(0, 0, 0),
            WorldVoxelPos::new(1, 0, 0),
            WorldVoxelPos::new(2, 0, 1),
            WorldVoxelPos::new(3, 0, 1)
        ]
    );
}
