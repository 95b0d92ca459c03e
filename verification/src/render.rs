//! Keys of renderable chunk tiles and the outcome of a frame.
use vstd::prelude::*;

verus! {

/// A tile of terrain to mesh: its origin chunk and level of detail (the
/// tile spans `2^lod_level` chunks along each axis).
#[derive(Clone, Copy, Debug, PartialEq, Eq, Hash)]
pub struct ChunkRenderKey {
    pub origin_chunk: (i64, i64),
    pub lod_level: u8,
}

/// What happened when a frame was presented.
#[derive(Clone, Copy, Debug, PartialEq, Eq, Structural)]
pub enum RenderOutcome {
    Success,
    Reconfigure,
    SkipFrame,
    FatalSurfaceLoss,
}

} // verus!
