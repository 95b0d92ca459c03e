use subdivism::game::{tall_world, world};

fn grid_index(x: usize, y: usize, z: usize, xz_extent: usize) -> usize {
    y * xz_extent * xz_extent + z * xz_extent + x
}

#[test]
fn world_skylight_decays_with_depth_when_overhang_blocks_direct_sun() {
    let xz_extent = 5_usize;
    let y_extent = 10_usize;
    let mut block_ids = vec![tall_world::Block::Air.to_id(); xz_extent * xz_extent * y_extent];

    // A 3x3 roof at y=7 over the center blocks direct skylight below it.
    for z in 1..=3 {
        for x in 1..=3 {
            block_ids[grid_index(x, 7, z, xz_extent)] = tall_world::Block::Stone.to_id();
        }
    }

    let light = tall_world::build_light_volume(&block_ids, xz_extent, y_extent);
    let center_near_roof = light[grid_index(2, 6, 2, xz_extent)];
    let center_deeper = light[grid_index(2, 2, 2, xz_extent)];
    let open_sky = light[grid_index(0, 6, 0, xz_extent)];

    assert!(open_sky >= 14, "expected near-full skylight under open sky");
    assert!(
        center_near_roof < open_sky,
        "expected occluded column to be darker than open sky; got center={center_near_roof}, open={open_sky}"
    );
    assert!(
        center_deeper < center_near_roof,
        "expected light to decay with depth under overhang; got near={center_near_roof}, deep={center_deeper}"
    );
}

#[test]
fn mod_skylight_decays_with_depth_when_overhang_blocks_direct_sun() {
    let xz_extent = 5_usize;
    let y_extent = 10_usize;
    let mut block_ids = vec![world::Block::Air.to_id(); xz_extent * xz_extent * y_extent];

    // A 3x3 roof at y=7 over the center blocks direct skylight below it.
    for z in 1..=3 {
        for x in 1..=3 {
            block_ids[grid_index(x, 7, z, xz_extent)] = world::Block::Stone.to_id();
        }
    }

    let light = world::build_light_volume(&block_ids, xz_extent, y_extent, 0, y_extent.saturating_sub(1));
    let center_near_roof = light[grid_index(2, 6, 2, xz_extent)];
    let center_deeper = light[grid_index(2, 2, 2, xz_extent)];
    let open_sky = light[grid_index(0, 6, 0, xz_extent)];

    assert!(open_sky >= 14, "expected near-full skylight under open sky");
    assert!(
        center_near_roof < open_sky,
        "expected occluded column to be darker than open sky; got center={center_near_roof}, open={open_sky}"
    );
    assert!(
        center_deeper < center_near_roof,
        "expected light to decay with depth under overhang; got near={center_near_roof}, deep={center_deeper}"
    );
}
