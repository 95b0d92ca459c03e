use subdivism::render::ChunkRenderKey;
use subdivism::ui::lod::{block_change_dirty_keys, collect_lod_ring};
use subdivism::ui::perf::{make_perf_lod_keys, make_perf_rd128_mix_keys};

const FULL_DETAIL_RADIUS_CHUNKS: i64 = 16;
const MID_DETAIL_RADIUS_CHUNKS: i64 = 32;
const LOW_DETAIL_RADIUS_CHUNKS: i64 = 64;

fn collect_visible_keys_for_test(center: (i64, i64), render_distance: i64) -> Vec<ChunkRenderKey> {
    let mut desired = Vec::new();
    collect_lod_ring(&mut desired, center, 0, render_distance.min(FULL_DETAIL_RADIUS_CHUNKS), 0);
    if render_distance > FULL_DETAIL_RADIUS_CHUNKS {
        collect_lod_ring(
            &mut desired,
            center,
            FULL_DETAIL_RADIUS_CHUNKS,
            render_distance.min(MID_DETAIL_RADIUS_CHUNKS),
            1,
        );
    }
    if render_distance > MID_DETAIL_RADIUS_CHUNKS {
        collect_lod_ring(
            &mut desired,
            center,
            MID_DETAIL_RADIUS_CHUNKS,
            render_distance.min(LOW_DETAIL_RADIUS_CHUNKS),
            2,
        );
    }
    if render_distance > LOW_DETAIL_RADIUS_CHUNKS {
        collect_lod_ring(&mut desired, center, LOW_DETAIL_RADIUS_CHUNKS, render_distance, 3);
    }
    desired
}

fn chunk_covered_by_any_key(chunk: (i64, i64), keys: &[ChunkRenderKey]) -> bool {
    keys.iter().any(|key| {
        let span = 1_i64 << key.lod_level;
        let min_x = key.origin_chunk.0;
        let min_z = key.origin_chunk.1;
        let max_x = min_x + span - 1;
        let max_z = min_z + span - 1;
        (min_x..=max_x).contains(&chunk.0) && (min_z..=max_z).contains(&chunk.1)
    })
}

#[test]
fn lod_selection_covers_entire_render_circle() {
    let center = (0_i64, 0_i64);
    for render_distance in [8_i64, 16, 24, 32, 48, 64, 96, 128] {
        let keys = collect_visible_keys_for_test(center, render_distance);
        for z in (center.1 - render_distance)..=(center.1 + render_distance) {
            for x in (center.0 - render_distance)..=(center.0 + render_distance) {
                let dx = x as f32 - center.0 as f32;
                let dz = z as f32 - center.1 as f32;
                if dx * dx + dz * dz > (render_distance * render_distance) as f32 {
                    continue;
                }
                assert!(
                    chunk_covered_by_any_key((x, z), &keys),
                    "missing coverage at chunk ({x}, {z}) for render distance {render_distance}"
                );
            }
        }
    }
}

#[test]
fn lod_ring_is_empty_when_it_has_no_width() {
    let mut keys = Vec::new();
    collect_lod_ring(&mut keys, (3, -4), 8, 8, 1);
    collect_lod_ring(&mut keys, (3, -4), 0, 0, 0);
    collect_lod_ring(&mut keys, (3, -4), 0, -2, 0);
    assert!(keys.is_empty());
}

#[test]
fn lod_ring_of_radius_one_holds_the_tiles_touching_the_center() {
    let mut keys = Vec::new();
    collect_lod_ring(&mut keys, (0, 0), 0, 1, 0);
    let origins: Vec<(i64, i64)> = keys.iter().map(|key| key.origin_chunk).collect();
    // Rows from south to north, west to east; tile (1, 1) touches only at distance sqrt 2.
    assert_eq!(
        origins,
        vec![(-1, -1), (0, -1), (1, -1), (-1, 0), (0, 0), (1, 0), (-1, 1), (0, 1)]
    );
    assert!(keys.iter().all(|key| key.lod_level == 0));
}

#[test]
fn perf_lod_keys_are_the_nearest_tiles_in_order() {
    let keys = make_perf_lod_keys(5, 1);
    let origins: Vec<(i64, i64)> = keys.iter().map(|k| k.origin_chunk).collect();
    assert_eq!(origins, vec![(0, 0), (0, -2), (-2, 0), (2, 0), (0, 2)]);
    assert!(keys.iter().all(|k| k.lod_level == 1));
    assert!(make_perf_lod_keys(0, 0).is_empty());
    let many = make_perf_lod_keys(64, 0);
    assert_eq!(many.len(), 64);
    let d = |k: &ChunkRenderKey| k.origin_chunk.0 * k.origin_chunk.0 + k.origin_chunk.1 * k.origin_chunk.1;
    assert!(many.windows(2).all(|w| d(&w[0]) <= d(&w[1])));
    // One tile asked for: the origin itself.
    assert_eq!(make_perf_lod_keys(1, 2)[0].origin_chunk, (0, 0));
}

#[test]
fn perf_mix_keys_hold_every_ring_sorted_by_distance_then_level() {
    let keys = make_perf_rd128_mix_keys(128);
    let mut expected = collect_visible_keys_for_test((0, 0), 128);
    assert_eq!(keys.len(), expected.len());
    let rank = |k: &ChunkRenderKey| {
        let (x, z) = k.origin_chunk;
        (x * x + z * z, k.lod_level, z, x)
    };
    expected.sort_by_key(rank);
    assert_eq!(keys, expected);
    let small = make_perf_rd128_mix_keys(1);
    assert_eq!(small.len(), 8);
    assert_eq!(small[0].origin_chunk, (0, 0));
}

#[test]
fn block_changes_dirty_the_neighbouring_tiles() {
    let keys = block_change_dirty_keys(-1, 40);
    let expected: Vec<((i64, i64), u8)> = vec![
        ((-2, 1), 0), ((-1, 1), 0), ((0, 1), 0),
        ((-2, 2), 0), ((-1, 2), 0), ((0, 2), 0),
        ((-2, 3), 0), ((-1, 3), 0), ((0, 3), 0),
        ((-2, 2), 1), ((-4, 0), 2), ((-8, 0), 3),
    ];
    let got: Vec<((i64, i64), u8)> = keys.iter().map(|k| (k.origin_chunk, k.lod_level)).collect();
    assert_eq!(got, expected);
}
