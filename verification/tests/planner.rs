use voxel_agents::actions::{
    Action, ActionCounter, ActionKind, ActionResult, ActionSource, ActionTimer,
};
use voxel_agents::game_entity::Tunnels;
use voxel_agents::game_map::{ChunkDims, GameMap};
use voxel_agents::geometry::{Vec3Milli, WorldVoxelPos};
use voxel_agents::pathfinding::PathfindingData;
use voxel_agents::planner::{
    Plan, PlanData, Planner, PlannerEvent, PlannerUpdate, StaticPlanner, ITERATION_CEILING,
};
use voxel_agents::voxel::{CoolVoxel, CoolVoxelType, VoxelLight};

fn strip(last_x: i32) -> GameMap<CoolVoxel> {
    let air = CoolVoxelType::new(0b0011_1111, 0, VoxelLight::zero_light(), None);
    let stone = CoolVoxelType::new(0, 1, VoxelLight::zero_light(), None);
    let mut map = GameMap::new(ChunkDims::new(8, 8, 8), vec![air, stone]);
    for cx in -1..=2 {
        for cz in -1..=0 {
            map.generate_chunk(WorldVoxelPos::new(cx, 0, cz), &|p: WorldVoxelPos| {
                let solid = p.z == -1 && p.y == 0 && 0 <= p.x && p.x <= last_x;
                CoolVoxel::new(if solid { 1 } else { 0 }, 0, VoxelLight::max_light())
            });
        }
    }
    map
}

fn at(x: i64, y: i64, z: i64) -> Vec3Milli {
    Vec3Milli::new(x * 1000, y * 1000, z * 1000)
}

fn search(plan: &Plan) -> &PathfindingData {
    match &plan.plan_data {
        PlanData::Pathfinding(data) => data,
    }
}

fn finished(id: usize) -> (Action, ActionResult) {
    (
        Action::new(id, 0, ActionTimer::Infinite, ActionKind::Jump, ActionSource::Planner),
        ActionResult::Done,
    )
}

#[test]
fn plan_with_a_path_becomes_one_move_for_each_voxel_and_a_stop() {
    let world = strip(5);
    let plan = Plan::create_pathfinding(42, 800, at(0, 0, 0), at(5, 0, 0), 1000, &world);
    assert!(plan.finished_compute());
    assert_eq!(plan.plan_action_id, 42);
    let path_length = search(&plan).found_path.as_ref().unwrap().len();
    assert_eq!(path_length, 5);
    let mut counter = ActionCounter { latest_id: 10 };
    let actions = plan.get_actions_to_add(&mut counter, 77).expect("actions of a finished plan");
    assert_eq!(actions.len(), path_length + 1);
    assert_eq!(counter.latest_id, 16);
    for (k, action) in actions.iter().enumerate() {
        assert_eq!(action.id, 10 + k);
        assert_eq!(action.started_at, 77);
        assert_eq!(action.timer, ActionTimer::Delay(500));
        assert_eq!(action.source, ActionSource::Planner);
        if k < path_length {
            assert_eq!(action.kind, ActionKind::MoveTowards(at(k as i64, 0, 0), 800));
        } else {
            assert_eq!(action.kind, ActionKind::StopAt(at(5, 0, 0), 20, 800));
        }
    }
}

#[test]
fn plan_without_a_path_adds_nothing_and_draws_no_id() {
    let world = strip(3);
    let plan = Plan::create_pathfinding(1, 800, at(0, 0, 0), at(30, 0, 0), 50, &world);
    assert!(!plan.finished_compute());
    let mut counter = ActionCounter { latest_id: 10 };
    assert!(plan.get_actions_to_add(&mut counter, 0).is_none());
    assert_eq!(counter.latest_id, 10);
}

#[test]
fn idle_planner_sends_nothing() {
    let world = strip(5);
    let mut tunnels = Tunnels::new();
    Planner::new().update(0, 100, &world, &mut tunnels);
    assert!(tunnels.planner_out.is_empty());
    let done = Plan::create_pathfinding(3, 800, at(0, 0, 0), at(5, 0, 0), 1000, &world);
    assert!(done.finished_compute());
    let planner = Planner { finished_actions: Vec::new(), plans: vec![done] };
    planner.update(0, 100, &world, &mut tunnels);
    planner.update(0, 100, &world, &mut tunnels);
    assert!(tunnels.planner_out.is_empty());
    assert!(tunnels.actions_out.is_empty() && tunnels.director_out.is_empty());
    assert!(tunnels.movement_out.is_empty() && tunnels.world_out.is_empty());
    assert!(tunnels.payload_out.is_empty());
}

#[test]
fn planner_takes_unfinished_plans_up_again() {
    let world = strip(9);
    let waiting = Plan::create_pathfinding(3, 800, at(0, 0, 0), at(9, 0, 0), 2, &world);
    let done = Plan::create_pathfinding(4, 800, at(0, 0, 0), at(2, 0, 0), 1000, &world);
    assert!(!waiting.finished_compute());
    let planner = Planner { finished_actions: Vec::new(), plans: vec![done, waiting] };
    let mut tunnels = Tunnels::new();
    planner.update(6, 3, &world, &mut tunnels);
    let events = tunnels.planner_out;
    assert_eq!(events.len(), 1);
    assert_eq!(events[0].id, 6);
    assert_eq!(events[0].source, None);
    match &events[0].update {
        PlannerUpdate::UpdatePlan(plan) => {
            assert_eq!(plan.plan_action_id, 3);
            assert_eq!(search(plan).iterations, 5);
            assert!(!plan.finished_compute());
        }
        _ => panic!("expected the plan to be replaced"),
    }
    // The planner itself is not changed: its plan still stands where it stood.
    assert_eq!(search(&planner.plans[1]).iterations, 2);
    let mut again = Tunnels::new();
    planner.update(6, 100, &world, &mut again);
    match &again.planner_out[0].update {
        PlannerUpdate::UpdatePlan(plan) => {
            assert!(plan.finished_compute());
            assert_eq!(search(plan).iterations, 8);
        }
        _ => panic!("expected the plan to be replaced"),
    }
}

#[test]
fn search_at_the_ceiling_is_left_alone() {
    let world = strip(3);
    let mut plan = Plan::create_pathfinding(3, 800, at(0, 0, 0), at(30, 0, 0), 10, &world);
    match &mut plan.plan_data {
        PlanData::Pathfinding(data) => data.iterations = ITERATION_CEILING,
    }
    let planner = Planner { finished_actions: Vec::new(), plans: vec![plan] };
    let mut tunnels = Tunnels::new();
    planner.update(0, 100, &world, &mut tunnels);
    assert!(tunnels.planner_out.is_empty());
    let mut below = Plan::create_pathfinding(3, 800, at(0, 0, 0), at(30, 0, 0), 10, &world);
    match &mut below.plan_data {
        PlanData::Pathfinding(data) => data.iterations = ITERATION_CEILING - 1,
    }
    let planner = Planner { finished_actions: Vec::new(), plans: vec![below] };
    planner.update(0, 100, &world, &mut tunnels);
    let events = tunnels.planner_out;
    assert_eq!(events.len(), 1);
    match &events[0].update {
        PlannerUpdate::UpdatePlan(plan) => assert_eq!(search(plan).iterations, ITERATION_CEILING + 99),
        _ => panic!("expected the plan to be replaced"),
    }
}

#[test]
fn finished_actions_release_their_plans() {
    let world = strip(5);
    let plans = vec![
        Plan::create_pathfinding(3, 800, at(0, 0, 0), at(5, 0, 0), 1000, &world),
        Plan::create_pathfinding(8, 800, at(0, 0, 0), at(4, 0, 0), 1000, &world),
    ];
    let planner = Planner { finished_actions: vec![finished(8), finished(5), finished(3)], plans };
    let mut tunnels = Tunnels::new();
    planner.update(2, 100, &world, &mut tunnels);
    let events = tunnels.planner_out;
    assert_eq!(events.len(), 3);
    assert!(matches!(events[0].update, PlannerUpdate::FlushFinished));
    assert!(matches!(events[1].update, PlannerUpdate::RemovePlanAssociatedTo(8)));
    assert!(matches!(events[2].update, PlannerUpdate::RemovePlanAssociatedTo(3)));
    assert!(events.iter().all(|event| event.id == 2 && event.source.is_none()));
}

#[test]
fn planner_events_change_the_planner_of_their_agent() {
    let world = strip(5);
    let mut planners = vec![Planner::new(), Planner::from_static(&StaticPlanner {})];
    let plan = |id: usize, budget: usize| Plan::create_pathfinding(id, 800, at(0, 0, 0), at(5, 0, 0), budget, &world);
    let send = |planners: &mut Vec<Planner>, update| PlannerEvent::new(1, None, update).apply_to_component(planners);
    send(&mut planners, PlannerUpdate::AddPlan(plan(3, 1)));
    send(&mut planners, PlannerUpdate::AddPlan(plan(4, 1)));
    send(&mut planners, PlannerUpdate::AddFinished(finished(9)));
    assert!(planners[0].plans.is_empty() && planners[0].finished_actions.is_empty());
    assert_eq!(planners[1].plans.len(), 2);
    assert_eq!(planners[1].finished_actions, vec![finished(9)]);
    assert!(planners[1].plan_exists_for(4));
    assert!(!planners[1].plan_exists_for(5));
    assert_eq!(planners[1].get_plan_for_id(4).map(|p| p.plan_action_id), Some(4));
    assert!(planners[1].get_plan_for_id(5).is_none());
    // An update replaces the plan made for the same action, and only that.
    send(&mut planners, PlannerUpdate::UpdatePlan(plan(4, 1000)));
    assert!(!planners[1].plans[0].finished_compute());
    assert!(planners[1].plans[1].finished_compute());
    send(&mut planners, PlannerUpdate::UpdatePlan(plan(77, 1000)));
    assert_eq!(planners[1].plans.len(), 2);
    send(&mut planners, PlannerUpdate::RemovePlanAssociatedTo(3));
    assert_eq!(planners[1].plans.len(), 1);
    assert_eq!(planners[1].plans[0].plan_action_id, 4);
    send(&mut planners, PlannerUpdate::RemovePlanAssociatedTo(3));
    assert_eq!(planners[1].plans.len(), 1);
    send(&mut planners, PlannerUpdate::FlushFinished);
    assert!(planners[1].finished_actions.is_empty());
    assert_eq!(planners[1].plans.len(), 1);
    send(&mut planners, PlannerUpdate::FlushPlans);
    assert!(planners[1].plans.is_empty());
}

#[test]
fn copy_of_a_plan_holds_what_the_plan_holds() {
    let world = strip(9);
    let plan = Plan::create_pathfinding(3, 800, at(0, 0, 0), at(9, 0, 0), 4, &world);
    let copy = plan.clone();
    assert_eq!(copy.plan_action_id, 3);
    assert_eq!(search(&copy).nodes, search(&plan).nodes);
    assert_eq!(search(&copy).open_set, search(&plan).open_set);
    assert_eq!(search(&copy).found_path, search(&plan).found_path);
    assert_eq!(search(&copy).iterations, 4);
    assert_eq!(search(&copy).end_pos, at(9, 0, 0));
    assert_eq!(search(&copy).end_pos_i, WorldVoxelPos::new(9, 0, 0));
    assert_eq!(search(&copy).tolerance, 800);
}
