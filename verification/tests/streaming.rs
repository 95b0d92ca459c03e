use subdivism::render::ChunkRenderKey;
use subdivism::ui::streaming::{BuildResultAction, ChunkBuildRequest, ChunkStream};

fn key(x: i64) -> ChunkRenderKey {
    ChunkRenderKey { origin_chunk: (x, 0), lod_level: 0 }
}

fn req(x: i64, version: u64) -> ChunkBuildRequest {
    ChunkBuildRequest { key: key(x), version }
}

#[test]
fn streaming_requests_builds_and_takes_in_results() {
    let mut stream = ChunkStream::new();
    let requests = stream.schedule(&vec![key(0), key(1), key(2)], 2);
    assert_eq!(requests, vec![req(0, 1), req(1, 1)]);
    assert_eq!(stream.requested_count(), 2);
    assert!(stream.has_pending_visible_chunk_work());

    assert_eq!(stream.on_build_result(key(0), 1), BuildResultAction::Upload);
    assert!(stream.is_resident(&key(0)));

    assert_eq!(stream.mark_dirty(key(1)), None);
    assert_eq!(stream.version_of(&key(1)), Some(2));
    assert_eq!(stream.on_build_result(key(1), 1), BuildResultAction::Rebuild(Some(req(1, 2))));
    assert_eq!(stream.requested_count(), 1);

    assert_eq!(stream.mark_dirty(key(0)), Some(req(0, 2)));
    assert_eq!(stream.requested_count(), 2);

    assert_eq!(stream.schedule(&vec![key(2)], 5), vec![req(2, 1)]);
    assert_eq!(stream.on_build_result(key(0), 2), BuildResultAction::Discard);
    assert!(!stream.has_pending_visible_chunk_work());
    assert_eq!(stream.on_build_result(key(2), 1), BuildResultAction::Upload);
    stream.abandon_request(&key(1));
    assert_eq!(stream.requested_count(), 0);
    assert!(stream.schedule(&vec![key(2)], 5).is_empty());
}

#[test]
fn streaming_budget_stops_scheduling() {
    let mut stream = ChunkStream::new();
    assert!(stream.schedule(&vec![key(0), key(1)], 0).is_empty());
    assert_eq!(stream.requested_count(), 0);
    assert!(stream.has_pending_visible_chunk_work());
    let empty = ChunkStream::new();
    assert!(!empty.has_pending_visible_chunk_work());
}

#[test]
fn block_changes_bump_every_touched_tile() {
    let mut stream = ChunkStream::new();
    assert!(stream.mark_block_change_dirty(5, 5).is_empty());
    assert_eq!(stream.version_of(&key(0)), Some(1));
    assert_eq!(stream.version_of(&ChunkRenderKey { origin_chunk: (-1, -1), lod_level: 0 }), Some(1));
    assert_eq!(stream.version_of(&ChunkRenderKey { origin_chunk: (0, 0), lod_level: 3 }), Some(1));
    stream.schedule(&vec![key(0)], 4);
    stream.on_build_result(key(0), 1);
    let again = stream.mark_block_change_dirty(5, 5);
    assert_eq!(again, vec![req(0, 2)]);
}
