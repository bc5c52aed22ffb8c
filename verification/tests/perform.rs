use voxel_agents::actions::{
    Action, ActionCounter, ActionError, ActionKind, ActionResult, ActionSource, ActionTimer,
    Actions, ActionsUpdate,
};
use voxel_agents::director::{Director, DirectorKind, DirectorUpdate};
use voxel_agents::entity::{Movement, MovementEvent, MovementEventVariant, Stats, StaticStats};
use voxel_agents::game_entity::{GameEntityVecRead, Tunnels};
use voxel_agents::game_map::{ChunkDims, GameMap, GameMapEvent};
use voxel_agents::geometry::{Vec3Milli, WorldVoxelPos};
use voxel_agents::planner::{Plan, Planner, PlannerUpdate};
use voxel_agents::voxel::{CoolVoxel, CoolVoxelType, VoxelLight};

fn strip(last_x: i32) -> GameMap<CoolVoxel> {
    let air = CoolVoxelType::new(0b0011_1111, 0, VoxelLight::zero_light(), None);
    let stone = CoolVoxelType::new(0, 1, VoxelLight::zero_light(), None);
    let mut map = GameMap::new(ChunkDims::new(8, 8, 8), vec![air, stone]);
    for cx in -1..=2 {
        for cz in -1..=0 {
            map.generate_chunk(WorldVoxelPos::new(cx, 0, cz), &|p: WorldVoxelPos| {
                let solid = p.z == -1 && p.y == 0 && 0 <= p.x && p.x <= last_x;
                CoolVoxel::new(if solid { 1 } else { 0 }, 0, VoxelLight::max_light())
            });
        }
    }
    map
}

fn at(x: i64, y: i64, z: i64) -> Vec3Milli {
    Vec3Milli::new(x * 1000, y * 1000, z * 1000)
}

fn one_agent(movement: Movement) -> GameEntityVecRead {
    GameEntityVecRead {
        movement: vec![movement],
        stats: vec![Stats::from_static(&StaticStats {})],
        actions: vec![Actions::new()],
        director: vec![Director::new(DirectorKind::Nothing, String::from("Ann"))],
        planner: vec![Planner::new()],
    }
}

fn standing(pos: Vec3Milli) -> Movement {
    Movement { pos, speed: Vec3Milli::zero(), touching_ground: true, against_wall: false }
}

fn action(kind: ActionKind, timer: ActionTimer) -> Action {
    Action::new(5, 100, timer, kind, ActionSource::Director)
}

fn removals(tunnels: &Tunnels) -> Vec<usize> {
    tunnels
        .actions_out
        .iter()
        .map(|event| match event.variant {
            ActionsUpdate::RemoveAction(id) => id,
            _ => panic!("expected a removal"),
        })
        .collect()
}

fn pushes(tunnels: &Tunnels) -> Vec<MovementEvent> {
    tunnels.movement_out.clone()
}

fn push(impulse: Vec3Milli) -> MovementEvent {
    MovementEvent { id: 0, source: None, variant: MovementEventVariant::AddToSpeed(impulse) }
}

#[test]
fn delay_over_fails_even_when_the_action_is_done() {
    let world = strip(3);
    let ent = one_agent(standing(at(2, 0, 0)));
    // The agent stands on the target, so the action would be done.
    let reached = action(ActionKind::MoveTowards(at(2, 0, 0), 500), ActionTimer::Delay(10));
    for tick in [110, 111, 5000] {
        let mut counter = ActionCounter::new();
        let mut tunnels = Tunnels::new();
        let result = reached.perform(0, &ent, &world, &mut counter, tick, &mut tunnels);
        assert_eq!(result, ActionResult::FailedTimer);
        assert_eq!(removals(&tunnels), vec![5]);
        assert!(tunnels.movement_out.is_empty());
    }
    let mut counter = ActionCounter::new();
    let mut tunnels = Tunnels::new();
    assert_eq!(reached.perform(0, &ent, &world, &mut counter, 109, &mut tunnels), ActionResult::Done);
    assert_eq!(removals(&tunnels), vec![5]);
}

#[test]
fn timer_comes_before_the_world_and_the_world_before_the_goal() {
    let world = strip(3);
    // A target outside every chunk cannot be moved towards.
    let nowhere = action(ActionKind::MoveTowards(at(500, 0, 0), 100), ActionTimer::Deadline(200));
    let ent = one_agent(standing(at(500, 0, 0)));
    let mut counter = ActionCounter::new();
    let mut tunnels = Tunnels::new();
    assert_eq!(
        nowhere.perform(0, &ent, &world, &mut counter, 150, &mut tunnels),
        ActionResult::Error(ActionError::ImpossibleAction)
    );
    assert_eq!(removals(&tunnels), vec![5]);
    let mut tunnels = Tunnels::new();
    assert_eq!(nowhere.perform(0, &ent, &world, &mut counter, 200, &mut tunnels), ActionResult::FailedTimer);
    assert_eq!(removals(&tunnels), vec![5]);
}

#[test]
fn what_the_world_lets_be_done() {
    let world = strip(3);
    let possible = |kind| action(kind, ActionTimer::Infinite).is_possible(&world);
    assert!(possible(ActionKind::Jump));
    assert!(possible(ActionKind::MoveInDirection(at(500, 0, 0))));
    assert!(possible(ActionKind::StopAt(at(500, 0, 0), 1, 1)));
    assert!(possible(ActionKind::MoveTowards(at(1, 0, -1), 1)));
    assert!(!possible(ActionKind::MoveTowards(at(1, 0, 50), 1)));
    // A path leads to air only, and only inside a chunk.
    assert!(possible(ActionKind::PathToPosition(at(1, 0, 0), 1)));
    assert!(!possible(ActionKind::PathToPosition(at(1, 0, -1), 1)));
    assert!(!possible(ActionKind::PathToPosition(at(1, 0, 50), 1)));
    let voxel = CoolVoxel::new(1, 0, VoxelLight::max_light());
    assert!(possible(ActionKind::ChangeVoxel(WorldVoxelPos::new(7, 7, -8), voxel)));
    assert!(!possible(ActionKind::ChangeVoxel(WorldVoxelPos::new(7, 8, -8), voxel)));
}

#[test]
fn when_an_action_is_done() {
    let ent = one_agent(Movement {
        pos: at(3, 4, 0),
        speed: Vec3Milli::new(0, 30, 40),
        touching_ground: true,
        against_wall: false,
    });
    let done = |kind| action(kind, ActionTimer::Infinite).is_done(0, &ent);
    assert!(!done(ActionKind::Jump));
    assert!(!done(ActionKind::MoveInDirection(Vec3Milli::zero())));
    assert!(!done(ActionKind::ChangeVoxel(WorldVoxelPos::new(3, 4, 0), CoolVoxel::new(0, 0, VoxelLight::max_light()))));
    assert!(done(ActionKind::MoveTowards(at(0, 0, 0), 5001)));
    assert!(!done(ActionKind::MoveTowards(at(0, 0, 0), 5000)));
    assert!(done(ActionKind::PathToPosition(at(0, 0, 0), 5001)));
    assert!(!done(ActionKind::PathToPosition(at(0, 0, 0), 5000)));
    // A stop needs the place and the speed: the agent moves at 50.
    assert!(done(ActionKind::StopAt(at(0, 0, 0), 51, 5001)));
    assert!(!done(ActionKind::StopAt(at(0, 0, 0), 50, 5001)));
    assert!(!done(ActionKind::StopAt(at(0, 0, 0), 51, 5000)));
}

#[test]
fn jump_pushes_up_from_the_ground_only() {
    let world = strip(3);
    let jump = action(ActionKind::Jump, ActionTimer::Infinite);
    let mut counter = ActionCounter::new();
    let mut tunnels = Tunnels::new();
    let ent = one_agent(standing(at(0, 0, 0)));
    assert_eq!(jump.perform(0, &ent, &world, &mut counter, 100, &mut tunnels), ActionResult::Done);
    assert_eq!(pushes(&tunnels), vec![push(Vec3Milli::new(0, 0, 1000))]);
    assert_eq!(removals(&tunnels), vec![5]);
    let mut tunnels = Tunnels::new();
    let mut in_air = standing(at(0, 0, 3));
    in_air.touching_ground = false;
    let ent = one_agent(in_air);
    assert_eq!(
        jump.perform(0, &ent, &world, &mut counter, 100, &mut tunnels),
        ActionResult::Error(ActionError::ImpossibleAction)
    );
    assert!(tunnels.movement_out.is_empty());
    assert_eq!(removals(&tunnels), vec![5]);
}

#[test]
fn move_in_a_direction_takes_its_share_of_the_ground_speed() {
    let world = strip(3);
    let mut counter = ActionCounter::new();
    let go = action(ActionKind::MoveInDirection(Vec3Milli::new(1000, -500, 1000)), ActionTimer::Infinite);
    let mut tunnels = Tunnels::new();
    let ent = one_agent(standing(at(0, 0, 0)));
    assert_eq!(go.perform(0, &ent, &world, &mut counter, 100, &mut tunnels), ActionResult::InProgress);
    assert_eq!(pushes(&tunnels), vec![push(Vec3Milli::new(200, -100, 0))]);
    assert_eq!(removals(&tunnels), vec![5]);
    // At a wall, on the ground, a direction that points up makes the agent climb.
    let mut at_wall = standing(at(0, 0, 0));
    at_wall.against_wall = true;
    let mut tunnels = Tunnels::new();
    go.perform(0, &one_agent(at_wall), &world, &mut counter, 100, &mut tunnels);
    assert_eq!(pushes(&tunnels), vec![push(Vec3Milli::new(200, -100, 1000))]);
    let level = action(ActionKind::MoveInDirection(Vec3Milli::new(1000, 0, 0)), ActionTimer::Infinite);
    let mut tunnels = Tunnels::new();
    level.perform(0, &one_agent(at_wall), &world, &mut counter, 100, &mut tunnels);
    assert_eq!(pushes(&tunnels), vec![push(Vec3Milli::new(200, 0, 0))]);
    at_wall.touching_ground = false;
    let mut tunnels = Tunnels::new();
    go.perform(0, &one_agent(at_wall), &world, &mut counter, 100, &mut tunnels);
    assert_eq!(pushes(&tunnels), vec![push(Vec3Milli::new(200, -100, 0))]);
}

#[test]
fn move_towards_pushes_along_the_level_direction_once() {
    let world = strip(7);
    let mut counter = ActionCounter::new();
    // From (0, 0, 0) towards (3, 0, 0) with the way (3, 4) on the level from (0, -4).
    let towards = action(ActionKind::MoveTowards(at(3, 0, 0), 100), ActionTimer::Infinite);
    let mut tunnels = Tunnels::new();
    let ent = one_agent(standing(Vec3Milli::new(0, -4000, 0)));
    assert_eq!(towards.perform(0, &ent, &world, &mut counter, 100, &mut tunnels), ActionResult::InProgress);
    assert_eq!(pushes(&tunnels), vec![push(Vec3Milli::new(120, 160, 0))]);
    // The action leaves the queue although the agent has not arrived.
    assert_eq!(removals(&tunnels), vec![5]);
    let mut at_wall = standing(Vec3Milli::new(0, -4000, 0));
    at_wall.against_wall = true;
    at_wall.touching_ground = false;
    let mut tunnels = Tunnels::new();
    towards.perform(0, &one_agent(at_wall), &world, &mut counter, 100, &mut tunnels);
    assert_eq!(pushes(&tunnels), vec![push(Vec3Milli::new(120, 160, 1000))]);
}

#[test]
fn stop_closes_in_slowly_and_then_brakes() {
    let world = strip(7);
    let mut counter = ActionCounter::new();
    let stop = action(ActionKind::StopAt(at(3, 0, 0), 20, 1000), ActionTimer::Infinite);
    // Further away than the tolerance: a fifth of the ground speed towards the place.
    let mut tunnels = Tunnels::new();
    let ent = one_agent(standing(Vec3Milli::new(0, -4000, 0)));
    assert_eq!(stop.perform(0, &ent, &world, &mut counter, 100, &mut tunnels), ActionResult::InProgress);
    assert_eq!(pushes(&tunnels), vec![push(Vec3Milli::new(24, 32, 0))]);
    assert_eq!(removals(&tunnels), vec![5]);
    // Within the tolerance but too fast: half the ground speed against the agent's speed.
    let mut tunnels = Tunnels::new();
    let moving = Movement {
        pos: Vec3Milli::new(2900, 0, 0),
        speed: Vec3Milli::new(300, -400, 900),
        touching_ground: true,
        against_wall: true,
    };
    assert_eq!(stop.perform(0, &one_agent(moving), &world, &mut counter, 100, &mut tunnels), ActionResult::InProgress);
    assert_eq!(pushes(&tunnels), vec![push(Vec3Milli::new(-60, 80, 0))]);
    // At rest within the tolerance the stop is done.
    let mut tunnels = Tunnels::new();
    let ent = one_agent(standing(Vec3Milli::new(2900, 0, 0)));
    assert_eq!(stop.perform(0, &ent, &world, &mut counter, 100, &mut tunnels), ActionResult::Done);
    assert!(tunnels.movement_out.is_empty());
}

#[test]
fn change_of_a_voxel_is_sent_to_the_world() {
    let world = strip(3);
    let mut counter = ActionCounter::new();
    let voxel = CoolVoxel::new(9, 0, VoxelLight::max_light());
    let change = action(ActionKind::ChangeVoxel(WorldVoxelPos::new(2, 0, 1), voxel), ActionTimer::Infinite);
    let mut tunnels = Tunnels::new();
    let ent = one_agent(standing(at(0, 0, 0)));
    assert_eq!(change.perform(0, &ent, &world, &mut counter, 100, &mut tunnels), ActionResult::Done);
    assert_eq!(tunnels.world_out.len(), 1);
    match &tunnels.world_out[0] {
        GameMapEvent::UpdateVoxelAt(pos, put) => {
            assert_eq!(*pos, WorldVoxelPos::new(2, 0, 1));
            assert_eq!(*put, voxel);
        }
    }
    assert_eq!(removals(&tunnels), vec![5]);
    assert_eq!(counter.latest_id, 0);
}

#[test]
fn path_starts_a_plan_and_puts_its_steps_before_itself() {
    let world = strip(4);
    let mut counter = ActionCounter { latest_id: 20 };
    let path = action(ActionKind::PathToPosition(at(4, 0, 0), 800), ActionTimer::Delay(15000));
    let mut tunnels = Tunnels::new();
    let ent = one_agent(standing(at(0, 0, 0)));
    assert_eq!(path.perform(0, &ent, &world, &mut counter, 130, &mut tunnels), ActionResult::InProgress);
    // The path has four voxels, so five actions are put at the head of the queue, last first.
    assert_eq!(counter.latest_id, 25);
    assert_eq!(tunnels.actions_out.len(), 5);
    let inserted: Vec<Action> = tunnels
        .actions_out
        .iter()
        .map(|event| match event.variant {
            ActionsUpdate::InsertActionAtStart(action) => action,
            _ => panic!("expected an insertion"),
        })
        .collect();
    assert_eq!(inserted.iter().map(|a| a.id).collect::<Vec<usize>>(), vec![24, 23, 22, 21, 20]);
    assert_eq!(inserted[0].kind, ActionKind::StopAt(at(4, 0, 0), 20, 800));
    assert_eq!(inserted[1].kind, ActionKind::MoveTowards(at(3, 0, 0), 800));
    assert_eq!(inserted[4].kind, ActionKind::MoveTowards(at(0, 0, 0), 800));
    assert!(inserted.iter().all(|a| a.started_at == 130 && a.source == ActionSource::Planner));
    assert_eq!(tunnels.planner_out.len(), 1);
    match &tunnels.planner_out[0].update {
        PlannerUpdate::AddPlan(plan) => {
            assert_eq!(plan.plan_action_id, 5);
            assert!(plan.finished_compute());
        }
        _ => panic!("expected a new plan"),
    }
    // Applied in order, the insertions leave the steps in their order before the path itself.
    let mut queues = vec![Actions { action_counter: ActionCounter::new(), all_actions: vec![path] }];
    for event in tunnels.actions_out {
        event.apply_to_component(&mut queues);
    }
    let ids: Vec<usize> = queues[0].all_actions.iter().map(|a| a.id).collect();
    assert_eq!(ids, vec![20, 21, 22, 23, 24, 5]);
}

#[test]
fn path_with_a_plan_unfolds_it_and_starts_no_other() {
    let world = strip(4);
    let path = action(ActionKind::PathToPosition(at(4, 0, 0), 800), ActionTimer::Delay(15000));
    let mut ent = one_agent(standing(at(0, 0, 0)));
    // A plan that still waits for its path adds nothing.
    ent.planner[0].plans.push(Plan::create_pathfinding(5, 800, at(0, 0, 0), at(4, 0, 0), 1, &world));
    let mut counter = ActionCounter { latest_id: 20 };
    let mut tunnels = Tunnels::new();
    assert_eq!(path.perform(0, &ent, &world, &mut counter, 130, &mut tunnels), ActionResult::InProgress);
    assert!(tunnels.actions_out.is_empty() && tunnels.planner_out.is_empty());
    assert_eq!(counter.latest_id, 20);
    // Once the plan has its path, its steps are put before the action.
    ent.planner[0].plans[0] = Plan::create_pathfinding(5, 800, at(0, 0, 0), at(4, 0, 0), 100, &world);
    assert_eq!(path.perform(0, &ent, &world, &mut counter, 131, &mut tunnels), ActionResult::InProgress);
    assert_eq!(tunnels.actions_out.len(), 5);
    assert!(tunnels.planner_out.is_empty());
    assert_eq!(counter.latest_id, 25);
}

#[test]
fn only_the_head_of_the_queue_runs() {
    let world = strip(4);
    let ent = one_agent(standing(at(0, 0, 0)));
    let jump = Action::new(1, 0, ActionTimer::Infinite, ActionKind::Jump, ActionSource::Director);
    let change = Action::new(
        2,
        0,
        ActionTimer::Infinite,
        ActionKind::ChangeVoxel(WorldVoxelPos::new(0, 0, 1), CoolVoxel::new(9, 0, VoxelLight::max_light())),
        ActionSource::Planner,
    );
    let queue = Actions { action_counter: ActionCounter::new(), all_actions: vec![jump, change] };
    let mut counter = ActionCounter::new();
    let mut tunnels = Tunnels::new();
    queue.perform(0, &ent, &world, &mut counter, 3, &mut tunnels);
    assert_eq!(tunnels.movement_out.len(), 1);
    assert!(tunnels.world_out.is_empty());
    assert_eq!(removals(&tunnels), vec![1]);
    // The end of a director's action is told to the director.
    assert!(tunnels.planner_out.is_empty());
    assert_eq!(tunnels.director_out.len(), 1);
    assert_eq!(tunnels.director_out[0].id, 0);
    match &tunnels.director_out[0].update {
        DirectorUpdate::NotifyFinished((action, result)) => {
            assert_eq!(*action, jump);
            assert_eq!(*result, ActionResult::Done);
        }
        _ => panic!("expected the end of the action"),
    }
    // The end of a planner's action is told to the planner.
    let queue = Actions { action_counter: ActionCounter::new(), all_actions: vec![change, jump] };
    let mut tunnels = Tunnels::new();
    queue.perform(0, &ent, &world, &mut counter, 3, &mut tunnels);
    assert!(tunnels.director_out.is_empty());
    match &tunnels.planner_out[0].update {
        PlannerUpdate::AddFinished((action, result)) => {
            assert_eq!(*action, change);
            assert_eq!(*result, ActionResult::Done);
        }
        _ => panic!("expected the end of the action"),
    }
}

#[test]
fn end_of_a_directors_path_is_told_to_the_planner_too() {
    let world = strip(4);
    let ent = one_agent(standing(at(2, 0, 0)));
    let path = Action::new(
        8,
        0,
        ActionTimer::Delay(15000),
        ActionKind::PathToPosition(at(2, 0, 0), 800),
        ActionSource::Director,
    );
    let queue = Actions { action_counter: ActionCounter::new(), all_actions: vec![path] };
    let mut counter = ActionCounter::new();
    let mut tunnels = Tunnels::new();
    queue.perform(0, &ent, &world, &mut counter, 3, &mut tunnels);
    assert_eq!(removals(&tunnels), vec![8]);
    assert_eq!(tunnels.director_out.len(), 1);
    assert_eq!(tunnels.planner_out.len(), 1);
    match (&tunnels.director_out[0].update, &tunnels.planner_out[0].update) {
        (DirectorUpdate::NotifyFinished(told), PlannerUpdate::AddFinished(heard)) => {
            assert_eq!(*told, (path, ActionResult::Done));
            assert_eq!(*heard, (path, ActionResult::Done));
        }
        _ => panic!("expected the end of the path"),
    }
    // A path that has run out of time is told of in the same way.
    let mut tunnels = Tunnels::new();
    queue.perform(0, &ent, &world, &mut counter, 15000, &mut tunnels);
    assert!(matches!(
        tunnels.planner_out[0].update,
        PlannerUpdate::AddFinished((_, ActionResult::FailedTimer))
    ));
    assert_eq!(tunnels.director_out.len(), 1);
}

#[test]
fn action_in_progress_and_empty_queue_tell_nobody() {
    let world = strip(4);
    let ent = one_agent(standing(at(0, 0, 0)));
    let mut counter = ActionCounter::new();
    let mut tunnels = Tunnels::new();
    Actions::new().perform(0, &ent, &world, &mut counter, 3, &mut tunnels);
    let go = Action::new(
        1,
        0,
        ActionTimer::Infinite,
        ActionKind::MoveInDirection(Vec3Milli::new(1000, 0, 0)),
        ActionSource::Director,
    );
    assert!(tunnels.actions_out.is_empty() && tunnels.movement_out.is_empty());
    let queue = Actions { action_counter: ActionCounter::new(), all_actions: vec![go] };
    queue.perform(0, &ent, &world, &mut counter, 3, &mut tunnels);
    assert_eq!(tunnels.movement_out.len(), 1);
    assert!(tunnels.director_out.is_empty() && tunnels.planner_out.is_empty());
}
