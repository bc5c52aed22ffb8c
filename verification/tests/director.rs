use voxel_agents::actions::{
    Action, ActionCounter, ActionKind, ActionResult, ActionSource, ActionTimer, Actions,
    ActionsUpdate,
};
use voxel_agents::director::{
    Director, DirectorEvent, DirectorKind, DirectorUpdate, StaticDirector,
};
use voxel_agents::entity::{CoolGameEngineTID, Movement, Stats, StaticStats};
use voxel_agents::game_entity::{GameEntityVecRead, Tunnels};
use voxel_agents::game_map::{ChunkDims, GameMap};
use voxel_agents::geometry::{Vec3Milli, WorldVoxelPos};
use voxel_agents::llm_commands::{pathing_offset_at, snap_to_walkable};
use voxel_agents::llm_director::{DirectorAlert, InFlightPrompt, LLMDirector};
use voxel_agents::llm_prompt::get_world_slice_string;
use voxel_agents::markup::{find_commands, is_actions_name, MarkupChild, MarkupNode};
use voxel_agents::planner::Planner;
use voxel_agents::proxima_link::{
    response_text, ChatSettings, ContextPosition, EndpointRequestVariant, HordeProximaAIRequest,
    HordeProximaAIResponse,
};
use voxel_agents::voxel::{CoolVoxel, CoolVoxelType, VoxelLight};

/// A floor at z = -1 for x and y from -8 up to 15, with air above it.
fn plain() -> GameMap<CoolVoxel> {
    let air = CoolVoxelType::new(0b0011_1111, 0, VoxelLight::zero_light(), None);
    let stone = CoolVoxelType::new(0, 1, VoxelLight::zero_light(), None);
    let mut kinds = vec![air, stone];
    while kinds.len() < 10 {
        kinds.push(stone);
    }
    let mut map = GameMap::new(ChunkDims::new(8, 8, 8), kinds);
    for cx in -1..=1 {
        for cy in -1..=1 {
            for cz in -1..=1 {
                map.generate_chunk(WorldVoxelPos::new(cx, cy, cz), &|p: WorldVoxelPos| {
                    CoolVoxel::new(if p.z == -1 { 1 } else { 0 }, 0, VoxelLight::max_light())
                });
            }
        }
    }
    map
}

fn at(x: i64, y: i64, z: i64) -> Vec3Milli {
    Vec3Milli::new(x * 1000, y * 1000, z * 1000)
}

fn standing(pos: Vec3Milli) -> Movement {
    Movement { pos, speed: Vec3Milli::zero(), touching_ground: true, against_wall: false }
}

fn agents(places: &[(&str, Vec3Milli)]) -> GameEntityVecRead {
    GameEntityVecRead {
        movement: places.iter().map(|(_, pos)| standing(*pos)).collect(),
        stats: places.iter().map(|_| Stats::from_static(&StaticStats {})).collect(),
        actions: places.iter().map(|_| Actions::new()).collect(),
        director: places
            .iter()
            .map(|(name, _)| Director::new(DirectorKind::Nothing, String::from(*name)))
            .collect(),
        planner: places.iter().map(|_| Planner::new()).collect(),
    }
}

fn alone() -> GameEntityVecRead {
    agents(&[("Ann", at(0, 0, 0))])
}

fn fresh() -> LLMDirector {
    LLMDirector::new_with_goals(vec![String::from("explore")])
}

fn obey(director: &mut LLMDirector, text: &str, ent: &GameEntityVecRead, world: &GameMap<CoolVoxel>) -> (ActionCounter, Tunnels) {
    let mut counter = ActionCounter { latest_id: 40 };
    let mut tunnels = Tunnels::new();
    director.parse_commands(String::from(text), 0, ent, world, 300, &mut counter, &mut tunnels);
    (counter, tunnels)
}

fn added(tunnels: &Tunnels) -> Vec<Action> {
    tunnels
        .actions_out
        .iter()
        .map(|event| {
            assert_eq!(event.id, 0);
            assert_eq!(event.source, None);
            match event.variant {
                ActionsUpdate::AddAction(action) => action,
                _ => panic!("expected an added action"),
            }
        })
        .collect()
}

fn heard(tunnels: &Tunnels) -> Vec<(usize, Option<CoolGameEngineTID>, usize, String)> {
    tunnels
        .director_out
        .iter()
        .map(|event| match &event.update {
            DirectorUpdate::SendAlert(DirectorAlert::HeardWords(speaker, text)) => {
                (event.id, event.source, *speaker, text.clone())
            }
            _ => panic!("expected speech"),
        })
        .collect()
}

fn in_flight(ids: &[usize]) -> Vec<InFlightPrompt> {
    ids.iter()
        .map(|&request_id| InFlightPrompt {
            request_id,
            entity_id: CoolGameEngineTID::Entity1(0),
            reasons: vec![DirectorAlert::Periodic],
            feedback: vec![format!("feedback of {}", request_id)],
        })
        .collect()
}

fn answer(request_id: usize, text: Option<&str>) -> HordeProximaAIResponse {
    HordeProximaAIResponse {
        request_id,
        entity_id: CoolGameEngineTID::Entity1(0),
        response: text.map(String::from),
    }
}

fn ids_in_flight(director: &LLMDirector) -> Vec<usize> {
    director.in_flight_prompts.iter().map(|prompt| prompt.request_id).collect()
}

#[test]
fn goto_adds_one_path_with_a_long_delay() {
    let world = plain();
    let mut director = fresh();
    // The voxel (5, -2, 10) hangs in the air, and so do all its neighbours: the target stays.
    let (counter, tunnels) = obey(&mut director, "GOTO 5 -2 10", &alone(), &world);
    assert_eq!(
        added(&tunnels),
        vec![Action::new(
            40,
            300,
            ActionTimer::Delay(15000),
            ActionKind::PathToPosition(at(5, -2, 10), 800),
            ActionSource::Director
        )]
    );
    assert_eq!(counter.latest_id, 41);
    assert!(tunnels.director_out.is_empty() && tunnels.planner_out.is_empty());
}

#[test]
fn goto_snaps_to_a_place_where_an_agent_can_stand() {
    let world = plain();
    let target_of = |line: &str| {
        let mut director = fresh();
        let (_, tunnels) = obey(&mut director, line, &alone(), &world);
        match added(&tunnels)[0].kind {
            ActionKind::PathToPosition(target, 800) => target,
            _ => panic!("expected a path"),
        }
    };
    // On the floor the target stands.
    assert_eq!(target_of("GOTO 5 -2 0"), at(5, -2, 0));
    // A solid target: its neighbours on its level are solid too, those below as well,
    // and the first above, right over it, is free.
    assert_eq!(target_of("GOTO 5 -2 -1"), at(5, -2, 0));
    // One above the floor the target is unsupported: the first neighbour below is tried
    // after the eight on its level.
    assert_eq!(target_of("GOTO 5 -2 1"), at(5, -2, 0));
    assert_eq!(snap_to_walkable(&world, WorldVoxelPos::new(5, -2, 1)), WorldVoxelPos::new(5, -2, 0));
    assert_eq!(snap_to_walkable(&world, WorldVoxelPos::new(i32::MAX, i32::MAX, i32::MIN)), WorldVoxelPos::new(i32::MAX, i32::MAX, i32::MIN));
}

#[test]
fn neighbours_are_tried_level_first_then_below_then_above() {
    let offsets: Vec<WorldVoxelPos> = (0..26).map(pathing_offset_at).collect();
    let flat = [(1, 0), (0, 1), (-1, 0), (0, -1), (1, 1), (1, -1), (-1, 1), (-1, -1)];
    let mut wanted = Vec::new();
    for (x, y) in flat {
        wanted.push(WorldVoxelPos::new(x, y, 0));
    }
    for z in [-1, 1] {
        wanted.push(WorldVoxelPos::new(0, 0, z));
        for (x, y) in flat {
            wanted.push(WorldVoxelPos::new(x, y, z));
        }
    }
    assert_eq!(offsets, wanted);
    // With a hole in the floor under the target, the first neighbour on its level is taken.
    let mut world = plain();
    world.update_voxel_at(WorldVoxelPos::new(3, 3, -1), CoolVoxel::new(0, 0, VoxelLight::max_light()));
    assert_eq!(snap_to_walkable(&world, WorldVoxelPos::new(3, 3, 0)), WorldVoxelPos::new(4, 3, 0));
}

#[test]
fn block_commands_change_one_voxel() {
    let world = plain();
    let mut director = fresh();
    let (counter, tunnels) = obey(&mut director, "BLOCK place 1 2 3\nBLOCK destroy 4 5 -1", &alone(), &world);
    let light = VoxelLight::max_light();
    assert_eq!(
        added(&tunnels),
        vec![
            Action::new(
                40,
                300,
                ActionTimer::Delay(500),
                ActionKind::ChangeVoxel(WorldVoxelPos::new(1, 2, 3), CoolVoxel::new(9, 0, light)),
                ActionSource::Director
            ),
            Action::new(
                41,
                300,
                ActionTimer::Delay(500),
                ActionKind::ChangeVoxel(WorldVoxelPos::new(4, 5, -1), CoolVoxel::new(0, 0, light)),
                ActionSource::Director
            ),
        ]
    );
    assert_eq!(counter.latest_id, 42);
}

#[test]
fn fill_changes_a_box_voxel_by_voxel() {
    let world = plain();
    let mut director = fresh();
    let (counter, tunnels) = obey(&mut director, "FILL place 10 20 30 2 1 3", &alone(), &world);
    let actions = added(&tunnels);
    assert_eq!(actions.len(), 6);
    assert_eq!(counter.latest_id, 46);
    let places: Vec<WorldVoxelPos> = actions
        .iter()
        .map(|action| match action.kind {
            ActionKind::ChangeVoxel(pos, voxel) => {
                assert_eq!(voxel, CoolVoxel::new(9, 0, VoxelLight::max_light()));
                pos
            }
            _ => panic!("expected a change"),
        })
        .collect();
    assert_eq!(
        places,
        vec![
            WorldVoxelPos::new(10, 20, 30),
            WorldVoxelPos::new(10, 20, 31),
            WorldVoxelPos::new(10, 20, 32),
            WorldVoxelPos::new(11, 20, 30),
            WorldVoxelPos::new(11, 20, 31),
            WorldVoxelPos::new(11, 20, 32),
        ]
    );
    for (k, action) in actions.iter().enumerate() {
        assert_eq!(action.id, 40 + k);
        assert_eq!(action.timer, ActionTimer::Delay(406));
        assert_eq!(action.started_at, 300);
        assert_eq!(action.source, ActionSource::Director);
    }
    let mut director = fresh();
    let (_, tunnels) = obey(&mut director, "FILL destroy 0 0 0 2 2 2", &alone(), &world);
    let actions = added(&tunnels);
    assert_eq!(actions.len(), 8);
    assert_eq!(actions[3].kind, ActionKind::ChangeVoxel(WorldVoxelPos::new(0, 1, 1), CoolVoxel::new(0, 0, VoxelLight::max_light())));
    assert_eq!(actions[4].kind, ActionKind::ChangeVoxel(WorldVoxelPos::new(1, 0, 0), CoolVoxel::new(0, 0, VoxelLight::max_light())));
    assert_eq!(actions[0].timer, ActionTimer::Delay(408));
}

#[test]
fn fill_without_room_does_nothing() {
    let world = plain();
    for line in [
        "FILL place 0 0 0 0 2 2",
        "FILL place 0 0 0 2 -1 2",
        "FILL place 0 0 0 -2 -2 2",
        "FILL place 2147483647 0 0 2 1 1",
        "FILL destroy 0 0 2147483646 1 1 3",
    ] {
        let mut director = fresh();
        let (counter, tunnels) = obey(&mut director, line, &alone(), &world);
        assert!(tunnels.actions_out.is_empty());
        assert_eq!(counter.latest_id, 40);
    }
    let mut director = fresh();
    let (_, tunnels) = obey(&mut director, "FILL place 2147483647 0 0 1 1 1", &alone(), &world);
    assert_eq!(added(&tunnels).len(), 1);
}

#[test]
fn goals_and_memories_are_added_at_once_and_removed_at_the_end() {
    let world = plain();
    let mut director = LLMDirector::new_with_goals(vec![
        String::from("first"),
        String::from("second"),
        String::from("third"),
    ]);
    let text = "GOAL remove 1\nGOAL add \"fourth\"\nGOAL remove 3\nGOAL remove 1\nGOAL remove 9\nMEMORY add \"a\"\nMEMORY add \"b\"\nMEMORY remove 1\nMEMORY remove 3";
    let (counter, tunnels) = obey(&mut director, text, &alone(), &world);
    assert_eq!(director.goals, vec!["second", "fourth"]);
    assert_eq!(director.memory, vec!["b"]);
    assert_eq!(counter.latest_id, 40);
    assert!(tunnels.actions_out.is_empty());
    // A removal only counts where the list is long enough when the line is read.
    let mut director = fresh();
    obey(&mut director, "GOAL remove 2\nGOAL add \"late\"", &alone(), &world);
    assert_eq!(director.goals, vec!["explore", "late"]);
    let mut director = fresh();
    obey(&mut director, "GOAL add \"early\"\nGOAL remove 2", &alone(), &world);
    assert_eq!(director.goals, vec!["explore"]);
}

#[test]
fn say_closest_reaches_the_nearest_other_agent() {
    let world = plain();
    let ent = agents(&[
        ("Ann", at(0, 0, 0)),
        ("Bob", at(9, 0, 0)),
        ("Cyd", at(0, -3, 4)),
        ("Dan", at(3, 4, 0)),
    ]);
    let mut director = fresh();
    let (_, tunnels) = obey(&mut director, "SAY closest \"over here\"", &ent, &world);
    // Cyd and Dan are both five voxels away; the first of them hears it.
    assert_eq!(heard(&tunnels), vec![(2, Some(CoolGameEngineTID::Entity1(0)), 0, String::from("over here"))]);
    assert!(director.feedback.is_empty());
    let mut director = fresh();
    let (_, tunnels) = obey(&mut director, "SAY closest \"anyone?\"", &alone(), &world);
    assert!(tunnels.director_out.is_empty());
}

#[test]
fn say_local_reaches_the_agents_within_ten_voxels() {
    let world = plain();
    let ent = agents(&[
        ("Ann", at(0, 0, 0)),
        ("Bob", at(9, 0, 0)),
        ("Cyd", at(6, 8, 0)),
        ("Dan", Vec3Milli::new(0, 0, 9999)),
    ]);
    let mut director = fresh();
    let (_, tunnels) = obey(&mut director, "SAY local \"hello\"", &ent, &world);
    let source = Some(CoolGameEngineTID::Entity1(0));
    // Cyd stands exactly ten voxels away, which is out of earshot.
    assert_eq!(
        heard(&tunnels),
        vec![(1, source, 0, String::from("hello")), (3, source, 0, String::from("hello"))]
    );
    assert_eq!(director.feedback, vec!["Your last SAY local command reached 2 other agents"]);
    let mut director = fresh();
    let (_, tunnels) = obey(&mut director, "SAY local \"hello\"", &alone(), &world);
    assert!(tunnels.director_out.is_empty());
    assert_eq!(
        director.feedback,
        vec!["Your last SAY local command reached 0 other agents, consider using the \"closest\" or \"all\" modes to be certain to reach someone"]
    );
}

#[test]
fn say_all_reaches_every_other_agent() {
    let world = plain();
    let ent = agents(&[("Ann", at(500, 0, 0)), ("Bob", at(0, 0, 0)), ("Cyd", at(-500, 0, 0))]);
    let mut director = fresh();
    let mut counter = ActionCounter::new();
    let mut tunnels = Tunnels::new();
    director.parse_commands(String::from("SAY all \"meet at noon\""), 1, &ent, &world, 0, &mut counter, &mut tunnels);
    let source = Some(CoolGameEngineTID::Entity1(1));
    assert_eq!(
        heard(&tunnels),
        vec![(0, source, 1, String::from("meet at noon")), (2, source, 1, String::from("meet at noon"))]
    );
    assert_eq!(director.feedback, vec!["Your last SAY all command reached 2 other agents"]);
}

#[test]
fn bad_lines_are_passed_over_and_the_rest_is_done() {
    let world = plain();
    let mut director = fresh();
    let text = "I think I should move.\nGOTO 1 2\nGOTO one 2 3\n\nBLOCK place 1 1 1\r\nSAY all no quotes here\nGOAL add \"rest\"\n   GOTO 2 2 0   \nFILL place 1 2 3";
    let (counter, tunnels) = obey(&mut director, text, &alone(), &world);
    let actions = added(&tunnels);
    assert_eq!(actions.len(), 2);
    assert!(matches!(actions[0].kind, ActionKind::ChangeVoxel(_, _)));
    assert_eq!(actions[1].kind, ActionKind::PathToPosition(at(2, 2, 0), 800));
    assert_eq!(counter.latest_id, 42);
    assert_eq!(director.goals, vec!["explore", "rest"]);
    assert!(tunnels.director_out.is_empty());
}

#[test]
fn commands_stand_in_the_actions_element() {
    assert!(is_actions_name("actions"));
    assert!(is_actions_name("  actions\t"));
    assert!(!is_actions_name("action"));
    assert!(!is_actions_name("Actions"));
    assert!(!is_actions_name("actions2"));
    assert!(!is_actions_name(""));
    assert!(!is_actions_name("   "));
    let text = |s: &str| MarkupChild::Text(String::from(s));
    let element = |name: &str, children: Vec<MarkupChild>| MarkupNode::Element(String::from(name), children);
    let nodes = vec![
        MarkupNode::Text(String::from("GOTO 9 9 9")),
        element("thoughts", vec![text("GOTO 8 8 8")]),
        MarkupNode::Comment(String::from("actions")),
        element("actions", vec![text("GOTO 1 2 3"), text("GOTO 7 7 7")]),
        element("actions", vec![text("GOTO 4 5 6")]),
    ];
    assert_eq!(find_commands(&nodes), Some(String::from("GOTO 1 2 3")));
    // The first actions element decides, also where it does not begin with text.
    let nodes = vec![
        element("actions", vec![MarkupChild::Element(String::from("b")), text("GOTO 1 2 3")]),
        element("actions", vec![text("GOTO 4 5 6")]),
    ];
    assert_eq!(find_commands(&nodes), None);
    assert_eq!(find_commands(&vec![element("actions", Vec::new()), element("actions", vec![text("x")])]), None);
    assert_eq!(find_commands(&Vec::new()), None);
    assert_eq!(find_commands(&vec![element("plan", vec![text("GOTO 1 2 3")])]), None);
}

#[test]
fn answer_is_parsed_as_markup_and_its_commands_are_carried_out() {
    let world = plain();
    let mut director = fresh();
    director.in_flight_prompts = in_flight(&[3]);
    let mut counter = ActionCounter { latest_id: 40 };
    let mut tunnels = Tunnels::new();
    let text = "<thoughts>I should go and remember it.</thoughts>\n<actions>\nGOTO 5 -2 0\nMEMORY add \"went east\"\n</actions>\n<actions>GOTO 1 1 0</actions>";
    director.parse_response(answer(3, Some(text)), 0, &alone(), &world, 300, &mut counter, &mut tunnels);
    assert_eq!(
        added(&tunnels),
        vec![Action::new(
            40,
            300,
            ActionTimer::Delay(15000),
            ActionKind::PathToPosition(at(5, -2, 0), 800),
            ActionSource::Director
        )]
    );
    assert_eq!(director.memory, vec!["went east"]);
    assert!(director.in_flight_prompts.is_empty());
}

#[test]
fn answers_without_commands_only_settle_their_request() {
    let world = plain();
    for text in [
        None,
        Some(""),
        Some("GOTO 5 -2 0"),
        Some("<thoughts>GOTO 5 -2 0</thoughts>"),
        Some("<actions></actions>"),
        Some("<actions><b>GOTO 5 -2 0</b></actions>"),
        Some("<div><actions>GOTO 5 -2 0</actions></div>"),
        Some("<actions>nothing to do</actions>"),
    ] {
        let mut director = fresh();
        director.in_flight_prompts = in_flight(&[3, 4]);
        let mut counter = ActionCounter { latest_id: 40 };
        let mut tunnels = Tunnels::new();
        director.parse_response(answer(3, text), 0, &alone(), &world, 300, &mut counter, &mut tunnels);
        assert!(tunnels.actions_out.is_empty());
        assert_eq!(counter.latest_id, 40);
        assert_eq!(ids_in_flight(&director), vec![4]);
        assert_eq!(director.goals, vec!["explore"]);
    }
}

#[test]
fn answer_to_no_request_in_flight_is_dropped() {
    let world = plain();
    let mut director = fresh();
    director.in_flight_prompts = in_flight(&[3]);
    let mut counter = ActionCounter { latest_id: 40 };
    let mut tunnels = Tunnels::new();
    director.parse_response(answer(9, Some("<actions>GOTO 5 -2 0</actions>")), 0, &alone(), &world, 300, &mut counter, &mut tunnels);
    assert!(tunnels.actions_out.is_empty());
    assert_eq!(ids_in_flight(&director), vec![3]);
    // The same answer twice: the second finds its request gone.
    director.parse_response(answer(3, Some("<actions>GOTO 5 -2 0</actions>")), 0, &alone(), &world, 300, &mut counter, &mut tunnels);
    director.parse_response(answer(3, Some("<actions>GOTO 5 -2 0</actions>")), 0, &alone(), &world, 300, &mut counter, &mut tunnels);
    assert_eq!(added(&tunnels).len(), 1);
}

#[test]
fn each_answer_settles_its_own_request_in_any_order() {
    let world = plain();
    let run = |order: &[usize]| {
        let mut director = fresh();
        director.in_flight_prompts = in_flight(&[7, 8]);
        let mut counter = ActionCounter::new();
        let mut tunnels = Tunnels::new();
        let mut seen = Vec::new();
        for &id in order {
            director.parse_response(answer(id, None), 0, &alone(), &world, 0, &mut counter, &mut tunnels);
            seen.push(ids_in_flight(&director));
        }
        seen
    };
    assert_eq!(run(&[7]), vec![vec![8]]);
    assert_eq!(run(&[8]), vec![vec![7]]);
    assert_eq!(run(&[7, 8]), vec![vec![8], vec![]]);
    assert_eq!(run(&[8, 7]), vec![vec![7], vec![]]);
    // With a third request in flight, both orders leave the same requests behind.
    let left = |order: &[usize]| {
        let mut director = fresh();
        director.in_flight_prompts = in_flight(&[6, 7, 8]);
        let mut counter = ActionCounter::new();
        let mut tunnels = Tunnels::new();
        for &id in order {
            director.parse_response(answer(id, None), 0, &alone(), &world, 0, &mut counter, &mut tunnels);
        }
        (ids_in_flight(&director), director.in_flight_prompts[0].feedback.clone())
    };
    assert_eq!(left(&[7, 8]), left(&[8, 7]));
    assert_eq!(left(&[7, 8]), (vec![6], vec![String::from("feedback of 6")]));
}

#[test]
fn tick_reads_the_answers_and_replaces_the_director() {
    let world = plain();
    let mut llm = fresh();
    llm.in_flight_prompts = in_flight(&[0, 1]);
    llm.latest_id = 2;
    llm.responses = vec![
        answer(1, Some("<actions>GOAL add \"dig\"</actions>")),
        answer(0, Some("<actions>BLOCK destroy 0 0 -1</actions>")),
    ];
    let director = Director::new(DirectorKind::LLM(llm), String::from("Ann"));
    let mut counter = ActionCounter { latest_id: 40 };
    let mut tunnels = Tunnels::new();
    director.do_tick(0, &alone(), &world, 300, &mut counter, &mut tunnels);
    assert_eq!(added(&tunnels).len(), 1);
    assert_eq!(counter.latest_id, 41);
    assert_eq!(tunnels.director_out.len(), 1);
    match &tunnels.director_out[0].update {
        DirectorUpdate::UpdateKind(DirectorKind::LLM(after)) => {
            assert!(after.responses.is_empty());
            assert!(after.in_flight_prompts.is_empty());
            assert_eq!(after.goals, vec!["explore", "dig"]);
            assert_eq!(after.latest_id, 2);
        }
        _ => panic!("expected the director to be replaced"),
    }
    // The director itself is read only.
    match &director.kind {
        DirectorKind::LLM(before) => assert_eq!(before.responses.len(), 2),
        _ => panic!("expected a language-model director"),
    }
    for kind in [DirectorKind::Player, DirectorKind::Nothing] {
        let mut tunnels = Tunnels::new();
        Director::new(kind, String::from("Ann")).do_tick(0, &alone(), &world, 300, &mut counter, &mut tunnels);
        assert!(tunnels.director_out.is_empty() && tunnels.actions_out.is_empty());
    }
}

fn after_tick(director: &Director, ent: &GameEntityVecRead, world: &GameMap<CoolVoxel>, tick: usize) -> (Tunnels, Director) {
    let mut tunnels = Tunnels::new();
    director.do_after_tick(0, ent, world, "You are an agent.", tick, &mut tunnels);
    // Commit the events the way the engine does after the tick.
    let mut committed = vec![Director {
        finished_actions: director.finished_actions.clone(),
        name: director.name.clone(),
        alerts: director.alerts.clone(),
        kind: director.kind.clone(),
    }];
    let mut left = Tunnels::new();
    for event in tunnels.director_out.drain(..) {
        let copy = DirectorEvent::new(
            event.id,
            event.source,
            match &event.update {
                DirectorUpdate::UpdateKind(kind) => DirectorUpdate::UpdateKind(kind.clone()),
                DirectorUpdate::FlushAlerts => DirectorUpdate::FlushAlerts,
                DirectorUpdate::FlushFinished => DirectorUpdate::FlushFinished,
                _ => panic!("unexpected event"),
            },
        );
        left.director_out.push(event);
        copy.apply_to_component(&mut committed);
    }
    left.payload_out = tunnels.payload_out;
    (left, committed.pop().unwrap())
}

fn llm_of(director: &Director) -> &LLMDirector {
    match &director.kind {
        DirectorKind::LLM(llm) => llm,
        _ => panic!("expected a language-model director"),
    }
}

fn prompt_of(request: &HordeProximaAIRequest) -> (&str, &str) {
    match &request.request {
        EndpointRequestVariant::RespondToFullPrompt { whole_context, streaming, chat_settings } => {
            assert!(!*streaming);
            assert_eq!(*chat_settings, ChatSettings { response_token_limit: 3000, temperature: 90 });
            assert_eq!(whole_context.len(), 2);
            assert_eq!(whole_context[0].position, ContextPosition::System);
            assert_eq!(whole_context[1].position, ContextPosition::User);
            (whole_context[0].text.as_str(), whole_context[1].text.as_str())
        }
    }
}

#[test]
fn alerts_are_always_flushed() {
    let world = plain();
    let ent = alone();
    let heard = || DirectorAlert::HeardWords(0, String::from("hi"));
    for (alerts, tick, requests) in [
        (vec![], 5, 0),
        (vec![], 5000, 1),
        (vec![heard()], 5, 1),
        (vec![heard(), DirectorAlert::FinishedMoveTo(WorldVoxelPos::new(1, 2, 3), true)], 5000, 1),
    ] {
        let mut director = Director::new(DirectorKind::LLM(fresh()), String::from("Ann"));
        director.alerts = alerts;
        let (tunnels, after) = after_tick(&director, &ent, &world, tick);
        assert_eq!(tunnels.payload_out.len(), requests);
        assert!(after.alerts.is_empty());
        assert!(matches!(tunnels.director_out[0].update, DirectorUpdate::UpdateKind(_)));
        assert!(matches!(tunnels.director_out[1].update, DirectorUpdate::FlushAlerts));
        assert_eq!(tunnels.director_out.len(), 2);
        assert_eq!(llm_of(&after).in_flight_prompts.len(), requests);
    }
    // With a request in flight and alerts on top, no second request and no alerts left.
    let mut llm = fresh();
    llm.in_flight_prompts = in_flight(&[0]);
    llm.latest_id = 1;
    let mut director = Director::new(DirectorKind::LLM(llm), String::from("Ann"));
    director.alerts = vec![heard()];
    let (tunnels, after) = after_tick(&director, &ent, &world, 5);
    assert!(tunnels.payload_out.is_empty());
    assert!(after.alerts.is_empty());
    assert_eq!(ids_in_flight(llm_of(&after)), vec![0]);
    // Other directors send nothing at all.
    let mut idle = Director::new(DirectorKind::Nothing, String::from("Ann"));
    idle.alerts = vec![heard()];
    let (tunnels, _) = after_tick(&idle, &ent, &world, 5000);
    assert!(tunnels.director_out.is_empty() && tunnels.payload_out.is_empty());
}

#[test]
fn silence_makes_a_director_ask_by_itself() {
    let world = plain();
    let ent = alone();
    let mut llm = fresh();
    llm.last_prompt_tick = 2000;
    assert!(llm.get_periodic_payload(0, &ent, &world, 3000, "system").is_none());
    assert!(llm.get_periodic_payload(0, &ent, &world, 100, "system").is_none());
    assert_eq!(llm.latest_id, 0);
    let request = llm.get_periodic_payload(0, &ent, &world, 3001, "system").expect("a request after the silence");
    assert_eq!(request.request_id, 0);
    assert_eq!(request.entity_id, CoolGameEngineTID::Entity1(0));
    assert_eq!(prompt_of(&request).0, "system");
    assert!(prompt_of(&request).1.contains("<prompt_reason>\nPeriodic prompting after inactivity\n</prompt_reason>"));
    assert_eq!(llm.latest_id, 1);
    assert_eq!(llm.last_prompt_tick, 3001);
    assert_eq!(ids_in_flight(&llm), vec![0]);
    assert!(matches!(llm.in_flight_prompts[0].reasons[..], [DirectorAlert::Periodic]));
    // With a request in flight the director waits.
    assert!(llm.get_periodic_payload(0, &ent, &world, 9000, "system").is_none());
}

#[test]
fn ends_of_moves_become_feedback() {
    let world = plain();
    let ent = alone();
    let path = |id: usize| Action::new(id, 0, ActionTimer::Delay(15000), ActionKind::PathToPosition(Vec3Milli::new(5900, -2100, 0), 800), ActionSource::Director);
    let jump = Action::new(9, 0, ActionTimer::Infinite, ActionKind::Jump, ActionSource::Director);
    let mut director = Director::new(DirectorKind::LLM(fresh()), String::from("Ann"));
    director.finished_actions = vec![
        (path(1), ActionResult::Done),
        (jump, ActionResult::Done),
        (path(2), ActionResult::FailedTimer),
        (path(3), ActionResult::InProgress),
    ];
    let (tunnels, after) = after_tick(&director, &ent, &world, 5);
    assert_eq!(
        llm_of(&after).feedback,
        vec!["the GOTO 5 -2 0 action succeeded !", "the GOTO 5 -2 0 action failed to find a path"]
    );
    assert!(tunnels.payload_out.is_empty());
    assert_eq!(tunnels.director_out.len(), 3);
    assert!(matches!(tunnels.director_out[2].update, DirectorUpdate::FlushFinished));
    assert!(after.finished_actions.is_empty());
}

#[test]
fn alerts_join_the_request_in_flight_and_no_second_request_is_made() {
    let world = plain();
    let ent = agents(&[("Ann", at(0, 0, 0)), ("Bob", at(2, 0, 0))]);
    let mut llm = fresh();
    llm.latest_id = 2;
    llm.last_prompt_tick = 40;
    llm.feedback = vec![String::from("own")];
    llm.in_flight_prompts = vec![
        InFlightPrompt {
            request_id: 0,
            entity_id: CoolGameEngineTID::Entity1(0),
            reasons: vec![DirectorAlert::Periodic, DirectorAlert::HeardWords(1, String::from("first"))],
            feedback: vec![String::from("a"), String::from("b")],
        },
        InFlightPrompt {
            request_id: 1,
            entity_id: CoolGameEngineTID::Entity1(0),
            reasons: vec![DirectorAlert::FinishedMoveTo(WorldVoxelPos::new(1, 2, 3), false)],
            feedback: vec![String::from("c")],
        },
    ];
    let mut director = Director::new(DirectorKind::LLM(llm), String::from("Ann"));
    director.alerts = vec![DirectorAlert::HeardWords(1, String::from("second")), DirectorAlert::Periodic];
    director.finished_actions = vec![(
        Action::new(7, 0, ActionTimer::Delay(15000), ActionKind::PathToPosition(at(5, -2, 0), 800), ActionSource::Director),
        ActionResult::Done,
    )];
    // Far beyond the silence: with requests in flight the director still does not ask.
    let (tunnels, after) = after_tick(&director, &ent, &world, 5000);
    assert!(tunnels.payload_out.is_empty());
    let llm = llm_of(&after);
    // Every request is still in flight, under its id.
    assert_eq!(ids_in_flight(llm), vec![0, 1]);
    assert_eq!(llm.latest_id, 2);
    assert_eq!(llm.last_prompt_tick, 40);
    // The first is as it was.
    assert_eq!(llm.in_flight_prompts[0].reasons.len(), 2);
    assert_eq!(llm.in_flight_prompts[0].feedback, vec!["a", "b"]);
    // The alerts and the end of the move have joined the last.
    assert!(matches!(
        &llm.in_flight_prompts[1].reasons[..],
        [DirectorAlert::FinishedMoveTo(_, false), DirectorAlert::HeardWords(1, text), DirectorAlert::Periodic]
            if text == "second"
    ));
    assert_eq!(llm.in_flight_prompts[1].feedback, vec!["c", "the GOTO 5 -2 0 action succeeded !"]);
    // The director keeps its feedback, so that it goes out with its next request.
    assert_eq!(llm.feedback, vec!["own", "the GOTO 5 -2 0 action succeeded !"]);
    assert!(after.alerts.is_empty());
    assert!(after.finished_actions.is_empty());
    // Once the answers have landed, the next request carries that feedback.
    let mut next = LLMDirector::new_with_goals(Vec::new());
    next.feedback = llm.feedback.clone();
    next.latest_id = llm.latest_id;
    let mut director = Director::new(DirectorKind::LLM(next), String::from("Ann"));
    director.alerts = vec![DirectorAlert::HeardWords(1, String::from("third"))];
    let (tunnels, after) = after_tick(&director, &ent, &world, 5001);
    assert_eq!(tunnels.payload_out.len(), 1);
    assert_eq!(tunnels.payload_out[0].request_id, 2);
    let (system, prompt) = prompt_of(&tunnels.payload_out[0]);
    assert_eq!(system, "You are an agent.");
    assert!(prompt.contains("<feedback>\n- own\n- the GOTO 5 -2 0 action succeeded !\n</feedback>\n"));
    assert!(prompt.ends_with(
        "<prompt_reason>\nYou have heard the following from Bob : \"third\"\n</prompt_reason>\n\n</input_data>\n"
    ));
    assert_eq!(ids_in_flight(llm_of(&after)), vec![2]);
    assert_eq!(llm_of(&after).in_flight_prompts[0].feedback, vec!["own", "the GOTO 5 -2 0 action succeeded !"]);
    assert_eq!(llm_of(&after).latest_id, 3);
    assert_eq!(llm_of(&after).last_prompt_tick, 5001);
}

#[test]
fn map_of_a_level() {
    let mut world = plain();
    world.update_voxel_at(WorldVoxelPos::new(1, 0, 0), CoolVoxel::new(1, 0, VoxelLight::max_light()));
    world.update_voxel_at(WorldVoxelPos::new(2, 0, 0), CoolVoxel::new(9, 0, VoxelLight::max_light()));
    world.update_voxel_at(WorldVoxelPos::new(2, 1, -1), CoolVoxel::new(0, 0, VoxelLight::max_light()));
    let ent = agents(&[
        ("Ann", at(0, 0, 0)),
        ("Bob", at(-1, 1, 0)),
        ("Cyd", at(-1, 1, 0)),
        ("Dan", at(2, -1, 0)),
        ("Eve", at(0, 1, 5)),
    ]);
    let map = get_world_slice_string(WorldVoxelPos::new(-1, -1, 0), WorldVoxelPos::new(2, 1, 0), 0, &ent, &world);
    let wanted = "<map z = 0>\n    -1    0    1    2  \n-1   -    -    -    -  \n 0   -    @    %    \u{b5}  \n 1   -    -    -    .  \n\n</map z = 0>\n";
    assert_eq!(map, wanted);
    // Other agents are drawn up to, not counting, the far corner, and named under the map.
    let map = get_world_slice_string(WorldVoxelPos::new(-1, -1, 0), WorldVoxelPos::new(3, 2, 0), 0, &ent, &world);
    let wanted = "<map z = 0>\n    -1    0    1    2    3  \n-1   -    -    -    a    -  \n 0   -    @    %    \u{b5}    -  \n 1   a    -    -    .    -  \n 2   -    -    -    -    -  \n\nother agents :\n  - (-1, 1, 0) : Cyd\n  - (2, -1, 0) : Dan\n\n</map z = 0>\n";
    assert_eq!(map, wanted);
    let below = get_world_slice_string(WorldVoxelPos::new(0, 0, -1), WorldVoxelPos::new(1, 0, -1), 0, &ent, &world);
    assert_eq!(below, "<map z = -1>\n     0    1  \n 0   %    %  \n\n</map z = -1>\n");
    let empty = get_world_slice_string(WorldVoxelPos::new(3, 3, 0), WorldVoxelPos::new(2, 2, 0), 0, &ent, &world);
    assert_eq!(empty, "<map z = 0>\n   \n\n</map z = 0>\n");
    let wide = get_world_slice_string(WorldVoxelPos::new(-1000, 100, 0), WorldVoxelPos::new(-999, 100, 0), 0, &ent, &world);
    assert_eq!(wide, "<map z = 0>\n        -999 \n100  .    .  \n\n</map z = 0>\n");
}

#[test]
fn prompt_tells_who_what_where_and_why() {
    let world = plain();
    let ent = agents(&[("Ann", Vec3Milli::new(2500, -1500, 0)), ("Bob", at(3, -1, 0))]);
    let mut llm = LLMDirector::new_with_goals(vec![String::from("explore"), String::from("rest")]);
    llm.memory = vec![String::from("the door is locked")];
    llm.latest_id = 5;
    let request = llm.get_payload(
        0,
        vec![DirectorAlert::FinishedMoveTo(WorldVoxelPos::new(2, -1, 0), true), DirectorAlert::HeardWords(7, String::from("?"))],
        &ent,
        &world,
        12,
        "system text",
    );
    assert_eq!(request.request_id, 5);
    let (system, prompt) = prompt_of(&request);
    assert_eq!(system, "system text");
    assert!(prompt.starts_with(
        "<input_data>\n\n<personal_info>\nname:Ann\nposition : (2, -1, 0) \n</personal_info>\n<memory>\n1. the door is locked\n</memory>\n<map z = -1>\n    -2   -1    0    1    2    3    4    5    6  \n-5   %    %    %"
    ));
    // Without feedback the prompt has no feedback block.
    assert!(!prompt.contains("<feedback>"));
    assert_eq!(prompt.matches("<map z = ").count(), 3);
    assert!(prompt.contains("</map z = -1>\n<map z = 0>\n"));
    assert!(prompt.contains("</map z = 0>\n<map z = 1>\n"));
    assert!(prompt.contains("-1   -    -    -    -    @    a    -    -    -  \n"));
    assert!(prompt.contains("\nother agents :\n  - (3, -1, 0) : Bob\n\n</map z = 0>\n"));
    assert!(prompt.ends_with(
        "</map z = 1>\n<goals>\n1. explore\n2. rest\n</goals>\n<prompt_reason>\nFinished moving to (2, -1, 0)\nYou have heard the following from  : \"?\"\n</prompt_reason>\n\n</input_data>\n"
    ));
    assert_eq!(llm.latest_id, 6);
    assert_eq!(llm.last_prompt_tick, 12);
    assert_eq!(ids_in_flight(&llm), vec![5]);
}

#[test]
fn request_under_an_id_in_flight_takes_its_place() {
    let world = plain();
    let ent = alone();
    let mut llm = fresh();
    llm.in_flight_prompts = in_flight(&[4, 5, 6]);
    llm.latest_id = 5;
    llm.get_payload(0, vec![DirectorAlert::Periodic, DirectorAlert::Periodic], &ent, &world, 1, "");
    assert_eq!(ids_in_flight(&llm), vec![4, 5, 6]);
    assert_eq!(llm.in_flight_prompts[1].reasons.len(), 2);
    assert!(llm.in_flight_prompts[1].feedback.is_empty());
    llm.latest_id = usize::MAX;
    let request = llm.get_payload(0, Vec::new(), &ent, &world, 1, "");
    assert_eq!(request.request_id, usize::MAX);
    assert_eq!(llm.latest_id, usize::MAX);
    assert_eq!(ids_in_flight(&llm), vec![4, 5, 6, usize::MAX]);
}

#[test]
fn director_events_change_the_director_of_their_agent() {
    let mut directors = vec![
        Director::new(DirectorKind::Nothing, String::from("Ann")),
        Director::new(DirectorKind::LLM(fresh()), String::from("Bob")),
    ];
    let jump = Action::new(1, 0, ActionTimer::Infinite, ActionKind::Jump, ActionSource::Director);
    let send = |directors: &mut Vec<Director>, id: usize, update| DirectorEvent::new(id, None, update).apply_to_component(directors);
    send(&mut directors, 1, DirectorUpdate::SendAlert(DirectorAlert::Periodic));
    send(&mut directors, 1, DirectorUpdate::NotifyFinished((jump, ActionResult::Done)));
    send(&mut directors, 1, DirectorUpdate::LLMAddToResponses(answer(3, Some("x"))));
    send(&mut directors, 0, DirectorUpdate::LLMAddToResponses(answer(3, Some("x"))));
    assert!(directors[0].alerts.is_empty() && directors[0].finished_actions.is_empty());
    assert!(matches!(directors[0].kind, DirectorKind::Nothing));
    assert_eq!(directors[1].alerts.len(), 1);
    assert_eq!(directors[1].finished_actions, vec![(jump, ActionResult::Done)]);
    assert_eq!(llm_of(&directors[1]).responses.len(), 1);
    assert_eq!(llm_of(&directors[1]).responses[0].request_id, 3);
    send(&mut directors, 1, DirectorUpdate::FlushAlerts);
    send(&mut directors, 1, DirectorUpdate::FlushFinished);
    assert!(directors[1].alerts.is_empty() && directors[1].finished_actions.is_empty());
    send(&mut directors, 1, DirectorUpdate::UpdateKind(DirectorKind::Player));
    assert!(matches!(directors[1].kind, DirectorKind::Player));
    assert_eq!(directors[1].get_name(), "Bob");
    let event = DirectorEvent::new(4, Some(CoolGameEngineTID::Entity2(1)), DirectorUpdate::FlushAlerts);
    assert_eq!(event.get_id(), 4);
    assert_eq!(event.get_source(), Some(CoolGameEngineTID::Entity2(1)));
}

#[test]
fn failures_of_the_transport_are_answers_without_text() {
    let parts = vec![String::from("<actions>"), String::from("GOTO 1 2 3"), String::from("</actions>")];
    assert_eq!(response_text(Ok(Some(parts))), Some(String::from("<actions>GOTO 1 2 3</actions>")));
    assert_eq!(response_text(Ok(Some(Vec::new()))), Some(String::new()));
    assert_eq!(response_text(Ok(None)), None);
    assert_eq!(response_text(Err(())), None);
}

#[test]
fn answer_goes_to_the_entity_that_asked() {
    let mut first = Tunnels::new();
    let mut second = Tunnels::new();
    answer(3, Some("x")).apply(&mut first, &mut second);
    let other = HordeProximaAIResponse { request_id: 4, entity_id: CoolGameEngineTID::Entity2(6), response: None };
    other.apply(&mut first, &mut second);
    assert_eq!(first.director_out.len(), 1);
    assert_eq!(second.director_out.len(), 1);
    assert_eq!(first.director_out[0].id, 0);
    assert_eq!(second.director_out[0].id, 6);
    match (&first.director_out[0].update, &second.director_out[0].update) {
        (DirectorUpdate::LLMAddToResponses(a), DirectorUpdate::LLMAddToResponses(b)) => {
            assert_eq!((a.request_id, a.response.as_deref()), (3, Some("x")));
            assert_eq!((b.request_id, b.response.as_deref()), (4, None));
        }
        _ => panic!("expected answers"),
    }
}

#[test]
fn directors_and_their_names() {
    let names = vec![String::from("Jack"), String::from("Nick"), String::from("Natalie")];
    let mut seen = std::collections::HashSet::new();
    for _ in 0..200 {
        let director = Director::new_with_random_name(DirectorKind::Player, &names);
        assert!(names.contains(director.get_name()));
        assert!(director.alerts.is_empty() && director.finished_actions.is_empty());
        assert!(matches!(director.kind, DirectorKind::Player));
        seen.insert(director.get_name().clone());
    }
    assert!(seen.len() > 1);
    let start = Director::from_static(&StaticDirector { kind: DirectorKind::LLM(fresh()) });
    assert_eq!(start.get_name(), "Placeholder");
    assert_eq!(llm_of(&start).goals, vec!["explore"]);
    let made = HordeProximaAIRequest::new(
        3,
        CoolGameEngineTID::Entity1(2),
        EndpointRequestVariant::RespondToFullPrompt {
            whole_context: Vec::new(),
            streaming: true,
            chat_settings: ChatSettings { response_token_limit: 1, temperature: 2 },
        },
    );
    assert_eq!((made.request_id, made.entity_id), (3, CoolGameEngineTID::Entity1(2)));
}
