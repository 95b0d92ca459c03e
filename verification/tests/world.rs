use subdivism::game::prefab::{candidates_for_chunk, default_prefab_rules, PrefabKind};
use subdivism::game::block_style::{block_from_key, block_key, euclid_mod, TextureBrush, TextureFace};
use subdivism::game::hud::HudFormatter;
use subdivism::game::inventory::InventorySlot;
use subdivism::game::prefab::{chunk_in_bounds, roll_hash, spawn_eligible, SpawnBounds, SpawnRule};
use subdivism::game::terrain_params::{parameter_index, TerrainParamRegistry};
use subdivism::game::world::{
    biome_from_index, biome_index, block_light_emission, contains_world_y, crust_block_for_y, div_floor,
    sample_light, valid_sub_coords, BiomeKind, Block,
};
use subdivism::game::{tall_world, world};

#[test]
fn block_ids_round_trip() {
    let all = [
        Block::Air, Block::Water, Block::Grass, Block::Dirt, Block::Stone, Block::Deepslate, Block::DeepDark,
        Block::CustomA, Block::CustomB, Block::CustomC,
    ];
    for (i, block) in all.iter().enumerate() {
        assert_eq!(block.to_id() as usize, i);
        assert_eq!(Block::from_id(block.to_id()), *block);
    }
    assert_eq!(Block::from_id(200), Block::Air);
    assert!(!Block::Air.is_solid());
    assert!(!Block::Water.is_solid());
    assert!(Block::Stone.is_solid());
    for id in 0..6u8 {
        assert_eq!(tall_world::Block::from_id(id).to_id(), id);
    }
    assert_eq!(tall_world::Block::from_id(77), tall_world::Block::Air);
}

#[test]
fn block_labels_and_codes() {
    assert_eq!(HudFormatter::block_label(Block::DeepDark), "DEEP DARK");
    assert_eq!(HudFormatter::block_short_code(Block::Grass), "GR");
    assert_eq!(block_key(Block::DeepDark), "deep_dark");
    assert_eq!(block_from_key("  Deep_Dark "), Some(Block::DeepDark));
    assert_eq!(block_from_key("STONE"), Some(Block::Stone));
    assert_eq!(block_from_key("lava"), None);
}

#[test]
fn inventory_row_formats_cells() {
    let slots = [
        InventorySlot { block: Block::Stone, count: 7 },
        InventorySlot { block: Block::Air, count: 0 },
        InventorySlot { block: Block::Dirt, count: 250 },
    ];
    assert_eq!(HudFormatter::format_inventory_row(&slots, 0, 3), "ST07 ___ DI99");
    assert_eq!(HudFormatter::format_inventory_row(&slots, 2, 3), "DI99 ___ ___");
    assert_eq!(HudFormatter::format_inventory_row(&slots, 0, 0), "");
}

#[test]
fn texture_faces_and_brushes_cycle_both_ways() {
    assert_eq!(TextureFace::Top.cycle(1), TextureFace::Side);
    assert_eq!(TextureFace::Top.cycle(-1), TextureFace::Bottom);
    assert_eq!(TextureFace::Side.cycle(5), TextureFace::Top);
    assert_eq!(TextureFace::Bottom.label(), "BOTTOM");
    assert_eq!(TextureBrush::Lighten.cycle(-1), TextureBrush::Noise);
    assert_eq!(TextureBrush::Noise.cycle(1), TextureBrush::Lighten);
    assert_eq!(TextureBrush::Warm.label(), "WARM");
    assert_eq!(euclid_mod(-7, 3), 2);
    assert_eq!(euclid_mod(i64::MIN, 3), 1);
}

#[test]
fn terrain_parameter_labels() {
    assert_eq!(parameter_index("base_height"), Some(0));
    assert_eq!(parameter_index("BASE_HEIGHT"), Some(0));
    assert_eq!(parameter_index("nothing"), None);
    assert_eq!(TerrainParamRegistry::label("base_height"), "BASE HEIGHT");
    assert_eq!(TerrainParamRegistry::label("my_new_knob"), "MY NEW KNOB");
}

#[test]
fn spawn_bounds_include_their_edges() {
    let circle = SpawnBounds::Circle { center_x: 0, center_z: 0, radius_chunks: 5 };
    assert!(chunk_in_bounds(3, 4, circle));
    assert!(!chunk_in_bounds(4, 4, circle));
    let rect = SpawnBounds::Rect { min_chunk_x: -2, max_chunk_x: 2, min_chunk_z: 0, max_chunk_z: 1 };
    assert!(chunk_in_bounds(-2, 1, rect));
    assert!(!chunk_in_bounds(-3, 1, rect));
    assert!(!chunk_in_bounds(0, 2, rect));
}

#[test]
fn roll_hash_mixes_seed_chunk_and_id() {
    assert_eq!(roll_hash(42, 3, -5, "oak_tree"), 10679846748427118470);
    assert_eq!(roll_hash(0, 0, 0, ""), 0);
    assert_eq!(roll_hash(0, 0, 0, "a"), 4099245476018830244);
    assert_ne!(roll_hash(42, 3, -5, "oak_tree"), roll_hash(42, 3, -5, "oak_trees"));
}

#[test]
fn world_helpers_follow_the_layer_rules() {
    assert_eq!(div_floor(-7, 2), -4);
    assert_eq!(div_floor(7, -2), -4);
    assert_eq!(div_floor(-8, -2), 4);
    assert_eq!(div_floor(i64::MIN, 1), i64::MIN);
    assert_eq!(subdivism::game::world::world_to_chunk(-1, 31), (-1, 1));
    assert_eq!(subdivism::game::world::world_to_chunk(16, -16), (1, -1));
    assert!(contains_world_y(-64) && contains_world_y(320));
    assert!(!contains_world_y(-65) && !contains_world_y(321));
    assert_eq!(crust_block_for_y(-129), Block::DeepDark);
    assert_eq!(crust_block_for_y(-128), Block::Deepslate);
    assert_eq!(crust_block_for_y(-1), Block::Deepslate);
    assert_eq!(crust_block_for_y(0), Block::Stone);
    assert!(valid_sub_coords(3, 2, 0, 1));
    assert!(!valid_sub_coords(3, 3, 0, 0));
    assert!(!valid_sub_coords(4, 0, 0, 0));
    assert!(valid_sub_coords(6, 5, 5, 5));
    assert_eq!(block_light_emission(Block::Stone), 0);
    for i in 0..6 {
        assert_eq!(biome_index(biome_from_index(i)), i);
    }
    assert_eq!(biome_from_index(99), BiomeKind::Meadow);
    assert!(tall_world::contains_world_y(1024) && !tall_world::contains_world_y(1025));
    assert_eq!(tall_world::world_y_to_index(-256), Some(0));
    assert_eq!(tall_world::world_y_to_index(1024), Some(1280));
    assert_eq!(tall_world::world_y_to_index(-257), None);
}

#[test]
fn light_under_open_sky_is_full_and_solid_cells_are_dark() {
    let xz = 2_usize;
    let height = 4_usize;
    let mut ids = vec![world::Block::Air.to_id(); xz * xz * height];
    ids[2 * xz * xz] = world::Block::Stone.to_id();
    let light = world::build_light_volume(&ids, xz, height, 0, height - 1);
    assert_eq!(light[3 * xz * xz], 15);
    assert_eq!(light[2 * xz * xz], 0);
    assert!(light[xz * xz] < 15);
    assert_eq!(light[xz * xz + 1], 15);
    assert_eq!(sample_light(&light, xz, height, 0, 2, 0), 0);
    assert_eq!(sample_light(&light, xz, height, 5, 0, 0), 15);
    let tall = tall_world::build_light_volume(&ids, xz, height);
    assert_eq!(tall[3 * xz * xz], 15);
    assert_eq!(tall[2 * xz * xz], 0);
}

#[test]
fn sub_cell_moves_give_the_crossed_face() {
    let base = (4_i64, 10_i32, -2_i64);
    let from = subdivism::game::interact::SubTarget { base, sx: 2, sy: 1, sz: 1 };
    let to = subdivism::game::interact::SubTarget { base, sx: 1, sy: 1, sz: 1 };
    assert_eq!(
        subdivism::game::interact::sub_transition_normal(from, to),
        Some(subdivism::game::interact::FaceNormal { x: 1, y: 0, z: 0 })
    );
    let up = subdivism::game::interact::SubTarget { base, sx: 2, sy: 0, sz: 2 };
    assert_eq!(
        subdivism::game::interact::sub_transition_normal(from, up),
        Some(subdivism::game::interact::FaceNormal { x: 0, y: 1, z: -1 })
    );
    assert_eq!(subdivism::game::interact::sub_transition_normal(from, from), None);
    assert_eq!(subdivism::game::actor::ActorId(3), subdivism::game::actor::ActorId(3));
}

#[test]
fn bounded_spawn_rules_respect_region() {
    let rule = SpawnRule {
        id: "bounded_test".to_string(),
        allowed_biomes: vec!["meadow".to_string()],
        bounds: Some(SpawnBounds::Circle { center_x: 0, center_z: 0, radius_chunks: 8 }),
    };
    assert!(spawn_eligible(&rule, 2, -3, "meadow"));
    assert!(!spawn_eligible(&rule, 64, 64, "meadow"));
    assert!(!spawn_eligible(&rule, 2, -3, "desert"));
    let open = SpawnRule { id: "tree".to_string(), allowed_biomes: vec!["valley".into(), "meadow".into()], bounds: None };
    assert!(spawn_eligible(&open, 1_000_000, -7, "meadow"));
}

#[test]
fn default_prefab_rules_and_candidates() {
    let rules = default_prefab_rules();
    assert_eq!(rules.len(), 5);
    assert_eq!(rules[0].spawn.id, "oak_tree");
    assert_eq!(rules[1].kind, PrefabKind::House);
    assert_eq!(rules[4].footprint_chunks, (2, 1));
    // Everything admitted: the meadow archetypes near the origin spawn.
    let all = vec![u64::MAX; 5];
    assert_eq!(candidates_for_chunk(&rules, &all, 3, 4, "meadow", 7), vec![0, 1]);
    // Outside the village circle only the tree is left.
    assert_eq!(candidates_for_chunk(&rules, &all, 200, 0, "meadow", 7), vec![0]);
    assert_eq!(candidates_for_chunk(&rules, &all, 0, 0, "mountain", 7), vec![2, 3, 4]);
    // A threshold just below the roll hash keeps the archetype out.
    let h = roll_hash(7, 3, 4, "oak_tree");
    let mut tight = vec![u64::MAX; 5];
    tight[0] = h - 1;
    assert_eq!(candidates_for_chunk(&rules, &tight, 3, 4, "meadow", 7), vec![1]);
    tight[0] = h;
    assert_eq!(candidates_for_chunk(&rules, &tight, 3, 4, "meadow", 7), vec![0, 1]);
}
