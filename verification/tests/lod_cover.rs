use subdivism::render::ChunkRenderKey;
use subdivism::ui::lod_cover::{collect_visible_keys, desired_chunk_keys};

fn covered(chunk: (i64, i64), keys: &[ChunkRenderKey]) -> bool {
    keys.iter().any(|key| {
        let span = 1_i64 << key.lod_level;
        (key.origin_chunk.0..key.origin_chunk.0 + span).contains(&chunk.0)
            && (key.origin_chunk.1..key.origin_chunk.1 + span).contains(&chunk.1)
    })
}

#[test]
fn visible_rings_cover_render_circle_off_center() {
    let center = (37_i64, -21_i64);
    for rd in [1_i64, 7, 16, 17, 40, 70] {
        let keys = collect_visible_keys(center, rd, 10, 20, 45);
        for z in center.1 - rd..=center.1 + rd {
            for x in center.0 - rd..=center.0 + rd {
                let (dx, dz) = (x - center.0, z - center.1);
                if dx * dx + dz * dz <= rd * rd {
                    assert!(covered((x, z), &keys), "({x}, {z}) uncovered at {rd}");
                }
            }
        }
    }
}

#[test]
fn visible_keys_start_with_full_detail_tiles() {
    let keys = collect_visible_keys((0, 0), 2, 16, 32, 64);
    assert!(keys.iter().all(|k| k.lod_level == 0));
    assert!(keys.contains(&ChunkRenderKey { origin_chunk: (0, 0), lod_level: 0 }));
    assert!(keys.contains(&ChunkRenderKey { origin_chunk: (-2, 0), lod_level: 0 }));
    assert!(!keys.contains(&ChunkRenderKey { origin_chunk: (2, 2), lod_level: 0 }));
    let far = collect_visible_keys((0, 0), 40, 16, 32, 64);
    assert!(far.iter().any(|k| k.lod_level == 2));
    assert!(!far.iter().any(|k| k.lod_level == 3));
}

#[test]
fn desired_keys_come_nearest_first() {
    let center = (5_i64, -3_i64);
    let mut expected = collect_visible_keys(center, 40, 16, 32, 64);
    let keys = desired_chunk_keys(center, 40, 16, 32, 64);
    assert_eq!(keys.len(), expected.len());
    let d = |k: &ChunkRenderKey| {
        let dx = k.origin_chunk.0 - center.0;
        let dz = k.origin_chunk.1 - center.1;
        (dx * dx + dz * dz, k.lod_level)
    };
    expected.sort_by_key(|k| d(k));
    assert_eq!(keys, expected);
    assert_eq!(keys[0], ChunkRenderKey { origin_chunk: (5, -3), lod_level: 0 });
}
