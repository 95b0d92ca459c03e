//! Level-of-detail rings: which terrain tiles to draw around a chunk.
use vstd::prelude::*;

use crate::game::block_style::euclid_mod;
use crate::render::ChunkRenderKey;

verus! {

/// Largest chunk coordinate the ring selection handles exactly.
pub const LOD_COORD_LIMIT: i64 = 0x10_0000;
/// Largest radius the ring selection handles exactly.
pub const LOD_RADIUS_LIMIT: i64 = 0x400;
/// Largest level of detail (tiles of 2^10 chunks).
pub const LOD_LEVEL_LIMIT: u8 = 10;

/// Remainder of `a` by `|b|`, never negative.
pub open spec fn rem_euclid(a: int, b: int) -> int {
    a % b
}

/// The multiple of `step` at or below `v` (toward negative infinity for a
/// positive step; `v - v.rem_euclid(step)` in general).
pub open spec fn aligned(v: int, step: int) -> int {
    v - v % step
}

fn aligned_coord(v: i64, step: i64) -> (a: i64)
    requires
        step != 0,
        !(v == i64::MIN && step == -1),
        aligned(v as int, step as int) >= i64::MIN,
    ensures
        a == aligned(v as int, step as int),
{
    let m: u128 = if step < 0 {
        (-(step as i128)) as u128
    } else {
        step as u128
    };
    let r: u128 = if v >= 0 {
        (v as u128) % m
    } else {
        let a = ((-(v as i128)) as u128) % m;
        if a == 0 {
            0
        } else {
            m - a
        }
    };
    proof {
        let vi = v as int;
        let si = step as int;
        let mi = m as int;
        vstd::arithmetic::div_mod::lemma_fundamental_div_mod(vi, si);
        assert(vi % si == vi % mi) by {
            vstd::arithmetic::div_mod::lemma_fundamental_div_mod(vi, mi);
            if si < 0 {
                assert(vi == (-(vi / si)) * mi + vi % si) by (nonlinear_arith)
                    requires
                        vi == si * (vi / si) + vi % si,
                        mi == -si,
                ;
                vstd::arithmetic::div_mod::lemma_fundamental_div_mod_converse(vi, mi, -(vi / si), vi % si);
            }
        }
        if v < 0 {
            let q2 = (-vi) / mi;
            vstd::arithmetic::div_mod::lemma_fundamental_div_mod(-vi, mi);
            let a = (-vi) % mi;
            if a == 0 {
                assert(vi == (-q2) * mi) by (nonlinear_arith)
                    requires
                        -vi == mi * q2 + a,
                        a == 0,
                ;
                vstd::arithmetic::div_mod::lemma_fundamental_div_mod_converse(vi, mi, -q2, 0);
            } else {
                assert(vi == (-q2 - 1) * mi + (mi - a)) by (nonlinear_arith)
                    requires
                        -vi == mi * q2 + a,
                ;
                vstd::arithmetic::div_mod::lemma_fundamental_div_mod_converse(vi, mi, -q2 - 1, mi - a);
            }
        }
        assert(r as int == vi % si);
    }
    (v as i128 - r as i128) as i64
}

/// The tile origin containing `chunk` for tiles of `step_chunks` chunks.
pub fn aligned_origin(chunk: (i64, i64), step_chunks: i64) -> (origin: (i64, i64))
    requires
        step_chunks != 0,
        !(chunk.0 == i64::MIN && step_chunks == -1),
        !(chunk.1 == i64::MIN && step_chunks == -1),
        aligned(chunk.0 as int, step_chunks as int) >= i64::MIN,
        aligned(chunk.1 as int, step_chunks as int) >= i64::MIN,
    ensures
        origin.0 == aligned(chunk.0 as int, step_chunks as int),
        origin.1 == aligned(chunk.1 as int, step_chunks as int),
{
    (aligned_coord(chunk.0, step_chunks), aligned_coord(chunk.1, step_chunks))
}

/// `v` clamped into `lo..=hi`.
pub open spec fn clamp_to(v: int, lo: int, hi: int) -> int {
    if v < lo {
        lo
    } else if v > hi {
        hi
    } else {
        v
    }
}

/// The tile edge farther from `c` (the upper edge on a tie).
pub open spec fn far_edge(c: int, lo: int, hi: int) -> int {
    let dl = if c - lo < 0 {
        lo - c
    } else {
        c - lo
    };
    let dh = if c - hi < 0 {
        hi - c
    } else {
        c - hi
    };
    if dl > dh {
        lo
    } else {
        hi
    }
}

/// A tile from `(ox, oz)` spanning `step` chunks belongs to the ring when
/// its nearest point lies within `max_radius` of the center and, unless
/// the ring starts at the center, its farthest corner lies beyond `min_radius`.
pub open spec fn tile_selected(cx: int, cz: int, min_radius: int, max_radius: int, step: int, ox: int, oz: int) -> bool {
    let hx = ox + step;
    let hz = oz + step;
    let nx = clamp_to(cx, ox, hx) - cx;
    let nz = clamp_to(cz, oz, hz) - cz;
    let fx = far_edge(cx, ox, hx) - cx;
    let fz = far_edge(cz, oz, hz) - cz;
    nx * nx + nz * nz <= max_radius * max_radius && (min_radius == 0 || fx * fx + fz * fz > min_radius
        * min_radius)
}

pub open spec fn key_at(ox: int, oz: int, lod: u8) -> ChunkRenderKey {
    ChunkRenderKey { origin_chunk: (ox as i64, oz as i64), lod_level: lod }
}

/// Selected tiles of the row at `oz`, from `ox` up to `end_x`, west to east.
pub open spec fn row_keys(cx: int, cz: int, min_radius: int, max_radius: int, lod: u8, step: int, ox: int, end_x: int, oz: int) -> Seq<ChunkRenderKey>
    decreases end_x - ox + step,
{
    if step <= 0 || ox > end_x {
        Seq::empty()
    } else {
        (if tile_selected(cx, cz, min_radius, max_radius, step, ox, oz) {
            seq![key_at(ox, oz, lod)]
        } else {
            Seq::empty()
        }) + row_keys(cx, cz, min_radius, max_radius, lod, step, ox + step, end_x, oz)
    }
}

/// Selected tiles of the rows from `oz` up to `end_z`, row by row.
pub open spec fn ring_rows(
    cx: int,
    cz: int,
    min_radius: int,
    max_radius: int,
    lod: u8,
    step: int,
    start_x: int,
    end_x: int,
    oz: int,
    end_z: int,
) -> Seq<ChunkRenderKey>
    decreases end_z - oz + step,
{
    if step <= 0 || oz > end_z {
        Seq::empty()
    } else {
        row_keys(cx, cz, min_radius, max_radius, lod, step, start_x, end_x, oz) + ring_rows(
            cx,
            cz,
            min_radius,
            max_radius,
            lod,
            step,
            start_x,
            end_x,
            oz + step,
            end_z,
        )
    }
}

/// Tile side for a level of detail.
pub open spec fn lod_step(lod: u8) -> int {
    (1i64 << lod) as int
}

/// Tiles of level `lod` for the ring `min_radius..max_radius` (in chunks)
/// around `center`, row by row from the south-west corner of the aligned
/// square that covers the ring; none when the ring is empty.
pub open spec fn ring_keys(center: (i64, i64), min_radius: int, max_radius: int, lod: u8) -> Seq<ChunkRenderKey> {
    if max_radius <= 0 || max_radius <= min_radius {
        Seq::empty()
    } else {
        let step = lod_step(lod);
        let cx = center.0 as int;
        let cz = center.1 as int;
        ring_rows(
            cx,
            cz,
            min_radius,
            max_radius,
            lod,
            step,
            aligned(cx - max_radius, step),
            aligned(cx + max_radius, step),
            aligned(cz - max_radius, step),
            aligned(cz + max_radius, step),
        )
    }
}

/// The coordinates stay where single-precision arithmetic on them is exact.
pub open spec fn lod_inputs_in_range(center: (i64, i64), min_radius: i64, max_radius: i64, lod_level: u8) -> bool {
    &&& -LOD_COORD_LIMIT <= center.0 <= LOD_COORD_LIMIT
    &&& -LOD_COORD_LIMIT <= center.1 <= LOD_COORD_LIMIT
    &&& -LOD_RADIUS_LIMIT <= min_radius <= LOD_RADIUS_LIMIT
    &&& -LOD_RADIUS_LIMIT <= max_radius <= LOD_RADIUS_LIMIT
    &&& lod_level <= LOD_LEVEL_LIMIT
}

fn tile_is_selected(cx: i64, cz: i64, min_radius: i64, max_radius: i64, step: i64, ox: i64, oz: i64) -> (b: bool)
    requires
        -0x20_0000 <= cx <= 0x20_0000,
        -0x20_0000 <= cz <= 0x20_0000,
        -0x20_0000 <= ox <= 0x20_0000,
        -0x20_0000 <= oz <= 0x20_0000,
        1 <= step <= 0x400,
        -LOD_RADIUS_LIMIT <= min_radius <= LOD_RADIUS_LIMIT,
        -LOD_RADIUS_LIMIT <= max_radius <= LOD_RADIUS_LIMIT,
    ensures
        b == tile_selected(cx as int, cz as int, min_radius as int, max_radius as int, step as int, ox as int, oz as int),
{
    let hx = ox + step;
    let hz = oz + step;
    let nx = (if cx < ox {
        ox
    } else if cx > hx {
        hx
    } else {
        cx
    }) - cx;
    let nz = (if cz < oz {
        oz
    } else if cz > hz {
        hz
    } else {
        cz
    }) - cz;
    let dlx = if cx - ox < 0 {
        ox - cx
    } else {
        cx - ox
    };
    let dhx = if cx - hx < 0 {
        hx - cx
    } else {
        cx - hx
    };
    let fx = (if dlx > dhx {
        ox
    } else {
        hx
    }) - cx;
    let dlz = if cz - oz < 0 {
        oz - cz
    } else {
        cz - oz
    };
    let dhz = if cz - hz < 0 {
        hz - cz
    } else {
        cz - hz
    };
    let fz = (if dlz > dhz {
        oz
    } else {
        hz
    }) - cz;
    proof {
        assert(-0x80_0000 <= nx <= 0x80_0000 && -0x80_0000 <= nz <= 0x80_0000);
        assert(-0x80_0000 <= fx <= 0x80_0000 && -0x80_0000 <= fz <= 0x80_0000);
        assert(nx * nx <= 0x80_0000 * 0x80_0000) by (nonlinear_arith)
            requires
                -0x80_0000 <= nx <= 0x80_0000,
        ;
        assert(nz * nz <= 0x80_0000 * 0x80_0000) by (nonlinear_arith)
            requires
                -0x80_0000 <= nz <= 0x80_0000,
        ;
        assert(fx * fx <= 0x80_0000 * 0x80_0000) by (nonlinear_arith)
            requires
                -0x80_0000 <= fx <= 0x80_0000,
        ;
        assert(fz * fz <= 0x80_0000 * 0x80_0000) by (nonlinear_arith)
            requires
                -0x80_0000 <= fz <= 0x80_0000,
        ;
        assert(0 <= nx * nx && 0 <= nz * nz && 0 <= fx * fx && 0 <= fz * fz) by (nonlinear_arith);
        assert(0 <= max_radius * max_radius <= 0x400 * 0x400) by (nonlinear_arith)
            requires
                -0x400 <= max_radius <= 0x400,
        ;
        assert(0 <= min_radius * min_radius <= 0x400 * 0x400) by (nonlinear_arith)
            requires
                -0x400 <= min_radius <= 0x400,
        ;
    }
    nx * nx + nz * nz <= max_radius * max_radius && (min_radius == 0 || fx * fx + fz * fz > min_radius
        * min_radius)
}

/// Appends the tiles of level `lod_level` of the ring `min_radius..max_radius`
/// around `center_chunk` (see `ring_keys`).
pub fn collect_lod_ring(out: &mut Vec<ChunkRenderKey>, center_chunk: (i64, i64), min_radius: i64, max_radius: i64, lod_level: u8)
    requires
        lod_inputs_in_range(center_chunk, min_radius, max_radius, lod_level),
    ensures
        final(out)@ == old(out)@ + ring_keys(center_chunk, min_radius as int, max_radius as int, lod_level),
{
    if max_radius <= 0 || max_radius <= min_radius {
        proof {
            assert(old(out)@ + Seq::<ChunkRenderKey>::empty() =~= old(out)@);
        }
        return;
    }
    let step: i64 = 1i64 << lod_level;
    proof {
        assert(1 <= (1i64 << lod_level) <= 1024) by (bit_vector)
            requires
                lod_level <= 10,
        ;
    }
    let cx = center_chunk.0;
    let cz = center_chunk.1;
    let start_x = cx - max_radius - euclid_mod(cx - max_radius, step);
    let end_x = cx + max_radius - euclid_mod(cx + max_radius, step);
    let start_z = cz - max_radius - euclid_mod(cz - max_radius, step);
    let end_z = cz + max_radius - euclid_mod(cz + max_radius, step);
    let ghost total = ring_rows(
        cx as int,
        cz as int,
        min_radius as int,
        max_radius as int,
        lod_level,
        step as int,
        start_x as int,
        end_x as int,
        start_z as int,
        end_z as int,
    );
    proof {
        assert(total == ring_keys(center_chunk, min_radius as int, max_radius as int, lod_level));
    }
    let ghost base = out@;
    let mut origin_z = start_z;
    while origin_z <= end_z
        invariant
            1 <= step <= 1024,
            step == lod_step(lod_level),
            lod_inputs_in_range(center_chunk, min_radius, max_radius, lod_level),
            cx == center_chunk.0,
            cz == center_chunk.1,
            0 < max_radius,
            start_x >= cx - max_radius - step,
            end_x <= cx + max_radius,
            start_x <= end_x + step,
            start_z >= cz - max_radius - step,
            end_z <= cz + max_radius,
            start_z <= origin_z <= end_z + step,
            base + total == out@ + ring_rows(
                cx as int,
                cz as int,
                min_radius as int,
                max_radius as int,
                lod_level,
                step as int,
                start_x as int,
                end_x as int,
                origin_z as int,
                end_z as int,
            ),
        decreases end_z + step - origin_z,
    {
        let ghost rest_rows = ring_rows(
            cx as int,
            cz as int,
            min_radius as int,
            max_radius as int,
            lod_level,
            step as int,
            start_x as int,
            end_x as int,
            origin_z as int + step,
            end_z as int,
        );
        let ghost row_start = out@;
        let mut origin_x = start_x;
        while origin_x <= end_x
            invariant
                1 <= step <= 1024,
                lod_inputs_in_range(center_chunk, min_radius, max_radius, lod_level),
                cx == center_chunk.0,
                cz == center_chunk.1,
                start_x >= cx - max_radius - step,
                end_x <= cx + max_radius,
                start_x <= origin_x <= end_x + step,
                start_z <= origin_z <= end_z,
                start_z >= cz - max_radius - step,
                end_z <= cz + max_radius,
                row_start + row_keys(
                    cx as int,
                    cz as int,
                    min_radius as int,
                    max_radius as int,
                    lod_level,
                    step as int,
                    start_x as int,
                    end_x as int,
                    origin_z as int,
                ) == out@ + row_keys(
                    cx as int,
                    cz as int,
                    min_radius as int,
                    max_radius as int,
                    lod_level,
                    step as int,
                    origin_x as int,
                    end_x as int,
                    origin_z as int,
                ),
            decreases end_x + step - origin_x,
        {
            let ghost before = out@;
            let selected = tile_is_selected(cx, cz, min_radius, max_radius, step, origin_x, origin_z);
            if selected {
                out.push(ChunkRenderKey { origin_chunk: (origin_x, origin_z), lod_level });
            }
            proof {
                let rest = row_keys(
                    cx as int,
                    cz as int,
                    min_radius as int,
                    max_radius as int,
                    lod_level,
                    step as int,
                    origin_x + step,
                    end_x as int,
                    origin_z as int,
                );
                if selected {
                    assert(before + (seq![key_at(origin_x as int, origin_z as int, lod_level)] + rest) =~= out@ + rest);
                } else {
                    assert(before + (Seq::<ChunkRenderKey>::empty() + rest) =~= out@ + rest);
                }
            }
            origin_x = origin_x + step;
        }
        proof {
            assert(row_keys(
                cx as int,
                cz as int,
                min_radius as int,
                max_radius as int,
                lod_level,
                step as int,
                origin_x as int,
                end_x as int,
                origin_z as int,
            ) == Seq::<ChunkRenderKey>::empty());
            assert(out@ + Seq::<ChunkRenderKey>::empty() =~= out@);
            let row = row_keys(
                cx as int,
                cz as int,
                min_radius as int,
                max_radius as int,
                lod_level,
                step as int,
                start_x as int,
                end_x as int,
                origin_z as int,
            );
            assert(row_start + (row + rest_rows) =~= (row_start + row) + rest_rows);
        }
        origin_z = origin_z + step;
    }
    proof {
        assert(out@ + Seq::<ChunkRenderKey>::empty() =~= out@);
    }
}

} // verus!

verus! {

/// The tiles whose meshes a change to block column `(x, z)` invalidates:
/// the full-detail tiles of its chunk and the eight around it (row by row),
/// then the tile holding its chunk at levels 1, 2 and 3.
pub open spec fn block_change_keys(x: i64, z: i64) -> Seq<ChunkRenderKey> {
    let cx = crate::game::world::spec_floor_div(x as int, 16);
    let cz = crate::game::world::spec_floor_div(z as int, 16);
    seq![
        key_at(cx - 1, cz - 1, 0), key_at(cx, cz - 1, 0), key_at(cx + 1, cz - 1, 0),
        key_at(cx - 1, cz, 0), key_at(cx, cz, 0), key_at(cx + 1, cz, 0),
        key_at(cx - 1, cz + 1, 0), key_at(cx, cz + 1, 0), key_at(cx + 1, cz + 1, 0),
        key_at(aligned(cx, 2), aligned(cz, 2), 1),
        key_at(aligned(cx, 4), aligned(cz, 4), 2),
        key_at(aligned(cx, 8), aligned(cz, 8), 3),
    ]
}

/// The tiles to rebuild after the block column `(x, z)` changed (see
/// `block_change_keys`).
pub fn block_change_dirty_keys(x: i64, z: i64) -> (keys: Vec<ChunkRenderKey>)
    ensures
        keys@ == block_change_keys(x, z),
{
    let chunk = crate::game::world::world_to_chunk(x, z);
    proof {
        assert(-0x800_0000_0000_0000 <= chunk.0 < 0x800_0000_0000_0000);
        assert(-0x800_0000_0000_0000 <= chunk.1 < 0x800_0000_0000_0000);
    }
    let mut keys: Vec<ChunkRenderKey> = Vec::new();
    let mut dz: i64 = -1;
    while dz <= 1
        invariant
            -1 <= dz <= 2,
            -0x800_0000_0000_0000 <= chunk.0 < 0x800_0000_0000_0000,
            -0x800_0000_0000_0000 <= chunk.1 < 0x800_0000_0000_0000,
            keys@.len() == 3 * (dz + 1),
            forall|k: int| 0 <= k < keys@.len() ==> #[trigger] keys@[k] == block_change_keys(x, z)[k],
            chunk.0 == crate::game::world::spec_floor_div(x as int, 16),
            chunk.1 == crate::game::world::spec_floor_div(z as int, 16),
        decreases 2 - dz,
    {
        let mut dx: i64 = -1;
        while dx <= 1
            invariant
                -1 <= dz <= 1,
                -1 <= dx <= 2,
                -0x800_0000_0000_0000 <= chunk.0 < 0x800_0000_0000_0000,
                -0x800_0000_0000_0000 <= chunk.1 < 0x800_0000_0000_0000,
                keys@.len() == 3 * (dz + 1) + dx + 1,
                forall|k: int| 0 <= k < keys@.len() ==> #[trigger] keys@[k] == block_change_keys(x, z)[k],
                chunk.0 == crate::game::world::spec_floor_div(x as int, 16),
                chunk.1 == crate::game::world::spec_floor_div(z as int, 16),
            decreases 2 - dx,
        {
            keys.push(ChunkRenderKey { origin_chunk: (chunk.0 + dx, chunk.1 + dz), lod_level: 0 });
            dx = dx + 1;
        }
        dz = dz + 1;
    }
    let mut lod_level: u8 = 1;
    while lod_level <= 3
        invariant
            1 <= lod_level <= 4,
            keys@.len() == 9 + lod_level - 1,
            forall|k: int| 0 <= k < keys@.len() ==> #[trigger] keys@[k] == block_change_keys(x, z)[k],
            chunk.0 == crate::game::world::spec_floor_div(x as int, 16),
            chunk.1 == crate::game::world::spec_floor_div(z as int, 16),
            -0x800_0000_0000_0000 <= chunk.0 < 0x800_0000_0000_0000,
            -0x800_0000_0000_0000 <= chunk.1 < 0x800_0000_0000_0000,
        decreases 4 - lod_level,
    {
        let step: i64 = 1i64 << lod_level;
        proof {
            assert(lod_level == 1 ==> (1i64 << lod_level) == 2) by (bit_vector);
            assert(lod_level == 2 ==> (1i64 << lod_level) == 4) by (bit_vector);
            assert(lod_level == 3 ==> (1i64 << lod_level) == 8) by (bit_vector);
            assert(aligned(chunk.0 as int, step as int) >= chunk.0 - step + 1) by {
                vstd::arithmetic::div_mod::lemma_fundamental_div_mod(chunk.0 as int, step as int);
            }
            assert(aligned(chunk.1 as int, step as int) >= chunk.1 - step + 1) by {
                vstd::arithmetic::div_mod::lemma_fundamental_div_mod(chunk.1 as int, step as int);
            }
        }
        let origin = aligned_origin(chunk, step);
        keys.push(ChunkRenderKey { origin_chunk: origin, lod_level });
        lod_level = lod_level + 1;
    }
    proof {
        assert(keys@ =~= block_change_keys(x, z));
    }
    keys
}

} // verus!
