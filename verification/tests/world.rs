use voxel_agents::game_map::{ChunkDims, GameMap, GameMapEvent};
use voxel_agents::geometry::WorldVoxelPos;
use voxel_agents::voxel::{CoolVoxel, CoolVoxelType, Voxel, VoxelLight, VoxelModel, VoxelType};

fn kinds() -> Vec<CoolVoxelType> {
    let air = CoolVoxelType::new(0b0011_1111, 0, VoxelLight::zero_light(), None);
    let stone = CoolVoxelType::new(0, 1, VoxelLight::zero_light(), None);
    vec![air, stone]
}

fn voxel(kind: u16) -> CoolVoxel {
    CoolVoxel::new(kind, 0, VoxelLight::max_light())
}

fn ground() -> GameMap<CoolVoxel> {
    let mut map = GameMap::new(ChunkDims::new(4, 5, 3), kinds());
    for cz in -1..=0 {
        map.generate_chunk(WorldVoxelPos::new(0, 0, cz), &|p: WorldVoxelPos| {
            voxel(if p.z < 0 { 1 } else { 0 })
        });
    }
    map
}

#[test]
fn new_world_has_no_chunks() {
    let map: GameMap<CoolVoxel> = GameMap::new(ChunkDims::new(4, 4, 4), kinds());
    assert!(!map.does_chunk_exist(WorldVoxelPos::new(0, 0, 0)));
    assert!(map.get_voxel_at(WorldVoxelPos::new(0, 0, 0)).is_none());
    assert!(!map.is_voxel_solid(WorldVoxelPos::new(0, 0, 0)));
    assert_eq!(map.get_voxel_types().len(), 2);
}

#[test]
fn chunk_of_a_voxel_rounds_down() {
    // Chunks are 5 long, 4 wide and 3 high.
    let map = ground();
    assert_eq!(map.get_chunk_pos_i(WorldVoxelPos::new(0, 0, 0)), WorldVoxelPos::new(0, 0, 0));
    assert_eq!(map.get_chunk_pos_i(WorldVoxelPos::new(4, 3, 2)), WorldVoxelPos::new(0, 0, 0));
    assert_eq!(map.get_chunk_pos_i(WorldVoxelPos::new(5, 4, 3)), WorldVoxelPos::new(1, 1, 1));
    assert_eq!(map.get_chunk_pos_i(WorldVoxelPos::new(-1, -1, -1)), WorldVoxelPos::new(-1, -1, -1));
    assert_eq!(map.get_chunk_pos_i(WorldVoxelPos::new(-5, -4, -3)), WorldVoxelPos::new(-1, -1, -1));
    assert_eq!(map.get_chunk_pos_i(WorldVoxelPos::new(-6, -5, -4)), WorldVoxelPos::new(-2, -2, -2));
    assert_eq!(
        map.get_chunk_pos_i(WorldVoxelPos::new(i32::MIN, i32::MAX, 0)),
        WorldVoxelPos::new(-429_496_730, 536_870_911, 0)
    );
}

#[test]
fn generated_chunk_holds_what_the_function_made() {
    let mut map = GameMap::new(ChunkDims::new(4, 5, 3), kinds());
    map.generate_chunk(WorldVoxelPos::new(-1, 2, 0), &|p: WorldVoxelPos| {
        CoolVoxel::new(1, ((p.x + 5) * 16 + (p.y - 8) * 4 + p.z) as u8, VoxelLight::zero_light())
    });
    assert!(map.does_chunk_exist(WorldVoxelPos::new(-1, 2, 0)));
    assert!(!map.does_chunk_exist(WorldVoxelPos::new(0, 2, 0)));
    for x in -5..0 {
        for y in 8..12 {
            for z in 0..3 {
                let found = map.get_voxel_at(WorldVoxelPos::new(x, y, z)).expect("inside the chunk");
                assert_eq!(found.orient, ((x + 5) * 16 + (y - 8) * 4 + z) as u8);
            }
        }
    }
    assert!(map.get_voxel_at(WorldVoxelPos::new(0, 8, 0)).is_none());
    assert!(map.get_voxel_at(WorldVoxelPos::new(-6, 8, 0)).is_none());
    assert!(map.get_voxel_at(WorldVoxelPos::new(-5, 12, 0)).is_none());
    assert!(map.get_voxel_at(WorldVoxelPos::new(-5, 8, 3)).is_none());
}

#[test]
fn generating_a_chunk_again_replaces_it() {
    let mut map = ground();
    assert!(map.is_voxel_solid(WorldVoxelPos::new(0, 0, -1)));
    map.generate_chunk(WorldVoxelPos::new(0, 0, -1), &|_p: WorldVoxelPos| voxel(0));
    assert!(!map.is_voxel_solid(WorldVoxelPos::new(0, 0, -1)));
    assert_eq!(map.chunks.len(), 2);
}

#[test]
fn solid_is_a_known_kind_that_is_not_empty_on_all_sides() {
    let mut map = ground();
    assert!(map.is_voxel_solid(WorldVoxelPos::new(1, 1, -1)));
    assert!(!map.is_voxel_solid(WorldVoxelPos::new(1, 1, 0)));
    // Outside every chunk nothing is solid.
    assert!(!map.is_voxel_solid(WorldVoxelPos::new(1, 1, -4)));
    // A voxel of a kind that the world does not know is not solid.
    map.update_voxel_at(WorldVoxelPos::new(1, 1, -1), voxel(77));
    assert!(!map.is_voxel_solid(WorldVoxelPos::new(1, 1, -1)));
    assert_eq!(map.get_voxel_at(WorldVoxelPos::new(1, 1, -1)).unwrap().voxel_type, 77);
}

#[test]
fn walkable_is_air_above_something_solid() {
    let map = ground();
    assert!(map.is_walkable(WorldVoxelPos::new(2, 2, 0)));
    assert!(!map.is_walkable(WorldVoxelPos::new(2, 2, 1)));
    assert!(!map.is_walkable(WorldVoxelPos::new(2, 2, -1)));
    assert!(!map.is_walkable(WorldVoxelPos::new(9, 9, 0)));
    assert!(!map.is_walkable(WorldVoxelPos::new(0, 0, i32::MIN)));
}

#[test]
fn update_changes_one_voxel_only() {
    let mut map = ground();
    map.update_voxel_at(WorldVoxelPos::new(3, 2, 1), voxel(1));
    assert!(map.is_voxel_solid(WorldVoxelPos::new(3, 2, 1)));
    for x in 0..5 {
        for y in 0..4 {
            for z in 0..3 {
                if (x, y, z) != (3, 2, 1) {
                    assert!(!map.is_voxel_solid(WorldVoxelPos::new(x, y, z)));
                }
            }
        }
    }
    // Outside every chunk an update changes nothing.
    map.update_voxel_at(WorldVoxelPos::new(30, 2, 1), voxel(1));
    assert!(map.get_voxel_at(WorldVoxelPos::new(30, 2, 1)).is_none());
    assert_eq!(map.chunks.len(), 2);
}

#[test]
fn world_event_puts_a_voxel() {
    let mut map = ground();
    let event = GameMapEvent::UpdateVoxelAt(WorldVoxelPos::new(0, 0, 0), voxel(1));
    assert!(event.should_sync());
    assert_eq!(event.get_source(), None);
    event.apply_event(&mut map);
    assert!(map.is_voxel_solid(WorldVoxelPos::new(0, 0, 0)));
}

#[test]
fn kind_is_empty_when_all_six_sides_are() {
    let light = VoxelLight::zero_light();
    assert!(CoolVoxelType::new(0b0011_1111, 0, light, None).is_completely_empty());
    assert!(CoolVoxelType::new(0b1111_1111, 0, light, None).is_completely_empty());
    assert!(!CoolVoxelType::new(0b0011_1110, 0, light, None).is_completely_empty());
    assert!(!CoolVoxelType::new(0b1100_0000, 0, light, None).is_completely_empty());
    assert!(!CoolVoxelType::new(0, 0, light, None).is_completely_empty());
}

#[test]
fn voxel_and_kind_hand_out_their_fields() {
    let kind = CoolVoxelType::new(5, 17, VoxelLight::new(1, 2, 3, 4), Some(VoxelLight::max_light()));
    assert_eq!(kind.sides_empty(), 5);
    assert_eq!(kind.easy_texture(), 17);
    assert_eq!(kind.vertices_taken(), 0);
    assert_eq!(kind.light_passthrough(), VoxelLight::new(1, 2, 3, 4));
    assert!(matches!(kind.kind_of_model(), VoxelModel::WrappedTexture(17)));
    let voxel = CoolVoxel::new(300, 3, VoxelLight::new(9, 8, 7, 6));
    assert_eq!(voxel.voxel_id(), 300);
    assert_eq!(voxel.orientation(), 3);
    assert_eq!(voxel.light_level(), VoxelLight::new(9, 8, 7, 6));
}

#[test]
fn lights() {
    assert_eq!(VoxelLight::new(1, 2, 3, 4), VoxelLight { level: 1, r: 2, g: 3, b: 4 });
    assert_eq!(VoxelLight::zero_light(), VoxelLight { level: 0, r: 0, g: 0, b: 0 });
    assert_eq!(VoxelLight::max_light(), VoxelLight { level: 255, r: 255, g: 255, b: 255 });
}

#[test]
fn random_lights_stay_in_their_ranges() {
    let mut levels = std::collections::HashSet::new();
    for _ in 0..2000 {
        let light = VoxelLight::random_light();
        assert!(light.level < 255 && light.r < 255 && light.g < 255 && light.b < 255);
        levels.insert(light.level);
        let soft = VoxelLight::slightly_less_random_light();
        assert!(soft.level >= 230);
        for channel in [soft.r, soft.g, soft.b] {
            assert!(channel == 0 || channel >= 200);
        }
        let lit = [soft.r, soft.g, soft.b].iter().filter(|&&c| c >= 200).count();
        assert!(lit == 1 || lit == 2);
    }
    // The draws differ: a generator that always gave the same value would not pass.
    assert!(levels.len() > 50);
}
