//! The tiles drawn around the player: the rings of the four levels of detail
//! put together, and the law that they leave no chunk of the render circle
//! uncovered.
use vstd::prelude::*;
use vstd::relations::{sorted_by, total_ordering};

use crate::render::ChunkRenderKey;
use crate::ui::lod::{
    aligned, clamp_to, collect_lod_ring, far_edge, key_at, lod_inputs_in_range, lod_step, ring_keys, ring_rows, row_keys,
    tile_selected, LOD_COORD_LIMIT, LOD_RADIUS_LIMIT,
};

verus! {

/// The smaller of two radii.
pub open spec fn min_radius_of(a: int, b: int) -> int {
    if a < b {
        a
    } else {
        b
    }
}

/// The tiles for render distance `rd` with detail boundaries `full`, `mid`
/// and `low`: full detail out to `full`, then levels 1, 2 and 3 in the rings
/// `full..mid`, `mid..low` and `low..rd`, each ring only when the render
/// distance reaches past its inner edge.
pub open spec fn visible_keys(center: (i64, i64), rd: int, full: int, mid: int, low: int) -> Seq<ChunkRenderKey> {
    ring_keys(center, 0, min_radius_of(rd, full), 0) + (if rd > full {
        ring_keys(center, full, min_radius_of(rd, mid), 1)
    } else {
        Seq::empty()
    }) + (if rd > mid {
        ring_keys(center, mid, min_radius_of(rd, low), 2)
    } else {
        Seq::empty()
    }) + (if rd > low {
        ring_keys(center, low, rd, 3)
    } else {
        Seq::empty()
    })
}

/// Boundaries the ring assembly takes: increasing, inside the radius range
/// the selection handles exactly, around a center it handles exactly.
pub open spec fn visible_inputs_ok(center: (i64, i64), rd: i64, full: i64, mid: i64, low: i64) -> bool {
    &&& -LOD_COORD_LIMIT <= center.0 <= LOD_COORD_LIMIT
    &&& -LOD_COORD_LIMIT <= center.1 <= LOD_COORD_LIMIT
    &&& 1 <= rd <= LOD_RADIUS_LIMIT
    &&& 0 < full < mid < low <= LOD_RADIUS_LIMIT
}

/// Collects the tiles for render distance `render_distance` with detail
/// boundaries `full`, `mid` and `low` (see `visible_keys`), ring after ring,
/// each ring row by row.
pub fn collect_visible_keys(center: (i64, i64), render_distance: i64, full: i64, mid: i64, low: i64) -> (keys: Vec<
    ChunkRenderKey,
>)
    requires
        visible_inputs_ok(center, render_distance, full, mid, low),
    ensures
        keys@ == visible_keys(center, render_distance as int, full as int, mid as int, low as int),
{
    let rd = render_distance;
    let mut keys: Vec<ChunkRenderKey> = Vec::new();
    collect_lod_ring(&mut keys, center, 0, if rd < full { rd } else { full }, 0);
    let ghost k0 = keys@;
    if rd > full {
        collect_lod_ring(&mut keys, center, full, if rd < mid { rd } else { mid }, 1);
    }
    let ghost k1 = keys@;
    if rd > mid {
        collect_lod_ring(&mut keys, center, mid, if rd < low { rd } else { low }, 2);
    }
    let ghost k2 = keys@;
    if rd > low {
        collect_lod_ring(&mut keys, center, low, rd, 3);
    }
    proof {
        let r0 = ring_keys(center, 0, min_radius_of(rd as int, full as int), 0);
        let r1: Seq<ChunkRenderKey> = if rd > full {
            ring_keys(center, full as int, min_radius_of(rd as int, mid as int), 1)
        } else {
            Seq::empty()
        };
        let r2: Seq<ChunkRenderKey> = if rd > mid {
            ring_keys(center, mid as int, min_radius_of(rd as int, low as int), 2)
        } else {
            Seq::empty()
        };
        let r3: Seq<ChunkRenderKey> = if rd > low {
            ring_keys(center, low as int, rd as int, 3)
        } else {
            Seq::empty()
        };
        assert(k0 =~= r0);
        assert(k1 =~= r0 + r1);
        assert(k2 =~= r0 + r1 + r2);
        assert(keys@ =~= r0 + r1 + r2 + r3);
    }
    keys
}

/// Key `k` covers chunk `(x, z)`: the chunk lies in the square of side
/// `2^lod` from the key's origin.
pub open spec fn covers(k: ChunkRenderKey, x: int, z: int) -> bool {
    let s = lod_step(k.lod_level);
    &&& k.origin_chunk.0 <= x < k.origin_chunk.0 + s
    &&& k.origin_chunk.1 <= z < k.origin_chunk.1 + s
}

/// Squared distance of chunk `(x, z)` from the center chunk.
pub open spec fn chunk_dist2(center: (i64, i64), x: int, z: int) -> int {
    (x - center.0) * (x - center.0) + (z - center.1) * (z - center.1)
}

/// Squared distance from the center to the far corner of the tile of level
/// `lod` that holds chunk `(x, z)`.
pub open spec fn far_dist2(center: (i64, i64), x: int, z: int, lod: u8) -> int {
    let s = lod_step(lod);
    let ox = aligned(x, s);
    let oz = aligned(z, s);
    let fx = far_edge(center.0 as int, ox, ox + s) - center.0;
    let fz = far_edge(center.1 as int, oz, oz + s) - center.1;
    fx * fx + fz * fz
}

proof fn lemma_step_range(lod: u8)
    requires
        lod <= 10,
    ensures
        1 <= lod_step(lod) <= 1024,
{
    assert(1 <= (1i64 << lod) <= 1024) by (bit_vector)
        requires
            lod <= 10,
    ;
}

/// The aligned value is the multiple of the step at or below `v`.
proof fn lemma_aligned(v: int, s: int)
    requires
        s > 0,
    ensures
        aligned(v, s) == (v / s) * s,
        aligned(v, s) <= v < aligned(v, s) + s,
{
    vstd::arithmetic::div_mod::lemma_fundamental_div_mod(v, s);
    assert(s * (v / s) == (v / s) * s) by (nonlinear_arith);
}

/// Between the aligned values of `u <= v` lies a whole number of steps.
proof fn lemma_aligned_steps(u: int, v: int, s: int)
    requires
        s > 0,
        u <= v,
    ensures
        v / s - u / s >= 0,
        aligned(v, s) == aligned(u, s) + (v / s - u / s) * s,
{
    lemma_aligned(u, s);
    lemma_aligned(v, s);
    vstd::arithmetic::div_mod::lemma_div_is_ordered(u, v, s);
    assert((v / s) * s == (u / s) * s + (v / s - u / s) * s) by (nonlinear_arith);
}

/// Squares grow with the magnitude.
proof fn lemma_square_le(a: int, b: int)
    requires
        (if a < 0 { -a } else { a }) <= (if b < 0 { -b } else { b }),
    ensures
        a * a <= b * b,
{
    let pa = if a < 0 { -a } else { a };
    let pb = if b < 0 { -b } else { b };
    assert(pa * pa <= pb * pb) by (nonlinear_arith)
        requires
            0 <= pa <= pb,
    ;
    assert(a * a == pa * pa) by (nonlinear_arith)
        requires
            pa == a || pa == -a,
    ;
    assert(b * b == pb * pb) by (nonlinear_arith)
        requires
            pb == b || pb == -b,
    ;
}

/// On one axis, the tile's nearest point is no farther from `c` than any of
/// its points, and its far edge no nearer.
proof fn lemma_axis_bounds(c: int, lo: int, hi: int, x: int)
    requires
        lo <= x <= hi,
    ensures
        (clamp_to(c, lo, hi) - c) * (clamp_to(c, lo, hi) - c) <= (x - c) * (x - c),
        (x - c) * (x - c) <= (far_edge(c, lo, hi) - c) * (far_edge(c, lo, hi) - c),
{
    lemma_square_le(clamp_to(c, lo, hi) - c, x - c);
    lemma_square_le(x - c, far_edge(c, lo, hi) - c);
}

/// A selected tile whose origin is `j` steps along a row lies in the row.
proof fn lemma_in_row(
    cx: int,
    cz: int,
    m: int,
    mm: int,
    lod: u8,
    s: int,
    start: int,
    end_x: int,
    oz: int,
    j: int,
)
    requires
        s > 0,
        j >= 0,
        start + j * s <= end_x,
        tile_selected(cx, cz, m, mm, s, start + j * s, oz),
    ensures
        row_keys(cx, cz, m, mm, lod, s, start, end_x, oz).contains(key_at(start + j * s, oz, lod)),
    decreases j,
{
    let row = row_keys(cx, cz, m, mm, lod, s, start, end_x, oz);
    let rest = row_keys(cx, cz, m, mm, lod, s, start + s, end_x, oz);
    if j == 0 {
        assert(row[0] == key_at(start, oz, lod));
    } else {
        assert(start + s + (j - 1) * s == start + j * s) by (nonlinear_arith);
        assert(start <= start + j * s) by (nonlinear_arith)
            requires
                j >= 0,
                s > 0,
        ;
        lemma_in_row(cx, cz, m, mm, lod, s, start + s, end_x, oz, j - 1);
        let k = choose|k: int| 0 <= k < rest.len() && rest[k] == key_at(start + j * s, oz, lod);
        let head: Seq<ChunkRenderKey> = if tile_selected(cx, cz, m, mm, s, start, oz) {
            seq![key_at(start, oz, lod)]
        } else {
            Seq::empty()
        };
        assert(row == head + rest);
        assert(row[head.len() + k] == rest[k]);
    }
}

/// A selected tile `jx` steps along row `jz` of a ring lies in the ring.
proof fn lemma_in_rows(
    cx: int,
    cz: int,
    m: int,
    mm: int,
    lod: u8,
    s: int,
    start_x: int,
    end_x: int,
    start_z: int,
    end_z: int,
    jx: int,
    jz: int,
)
    requires
        s > 0,
        jx >= 0,
        jz >= 0,
        start_x + jx * s <= end_x,
        start_z + jz * s <= end_z,
        tile_selected(cx, cz, m, mm, s, start_x + jx * s, start_z + jz * s),
    ensures
        ring_rows(cx, cz, m, mm, lod, s, start_x, end_x, start_z, end_z).contains(
            key_at(start_x + jx * s, start_z + jz * s, lod),
        ),
    decreases jz,
{
    let rows = ring_rows(cx, cz, m, mm, lod, s, start_x, end_x, start_z, end_z);
    let row = row_keys(cx, cz, m, mm, lod, s, start_x, end_x, start_z);
    let rest = ring_rows(cx, cz, m, mm, lod, s, start_x, end_x, start_z + s, end_z);
    let key = key_at(start_x + jx * s, start_z + jz * s, lod);
    assert(start_z <= start_z + jz * s) by (nonlinear_arith)
        requires
            jz >= 0,
            s > 0,
    ;
    assert(rows == row + rest);
    if jz == 0 {
        lemma_in_row(cx, cz, m, mm, lod, s, start_x, end_x, start_z, jx);
        let k = choose|k: int| 0 <= k < row.len() && row[k] == key;
        assert(rows[k] == row[k]);
    } else {
        assert(start_z + s + (jz - 1) * s == start_z + jz * s) by (nonlinear_arith);
        lemma_in_rows(cx, cz, m, mm, lod, s, start_x, end_x, start_z + s, end_z, jx, jz - 1);
        let k = choose|k: int| 0 <= k < rest.len() && rest[k] == key;
        assert(rows[row.len() + k] == rest[k]);
    }
}

/// A chunk within `mm` of the center whose tile of level `lod` reaches past
/// `m` (or `m` is 0) has that tile in the ring `m..mm`.
proof fn lemma_in_ring(center: (i64, i64), m: int, mm: int, lod: u8, x: int, z: int)
    requires
        -LOD_COORD_LIMIT <= center.0 <= LOD_COORD_LIMIT,
        -LOD_COORD_LIMIT <= center.1 <= LOD_COORD_LIMIT,
        0 <= m < mm <= LOD_RADIUS_LIMIT,
        lod <= 10,
        chunk_dist2(center, x, z) <= mm * mm,
        m == 0 || far_dist2(center, x, z, lod) > m * m,
    ensures
        ring_keys(center, m, mm, lod).contains(
            key_at(aligned(x, lod_step(lod)), aligned(z, lod_step(lod)), lod),
        ),
        covers(key_at(aligned(x, lod_step(lod)), aligned(z, lod_step(lod)), lod), x, z),
{
    let s = lod_step(lod);
    lemma_step_range(lod);
    let cx = center.0 as int;
    let cz = center.1 as int;
    let ox = aligned(x, s);
    let oz = aligned(z, s);
    lemma_aligned(x, s);
    lemma_aligned(z, s);
    let dx = x - cx;
    let dz = z - cz;
    assert(-mm <= dx <= mm && -mm <= dz <= mm) by (nonlinear_arith)
        requires
            dx * dx + dz * dz <= mm * mm,
            mm > 0,
    ;
    lemma_axis_bounds(cx, ox, ox + s, x);
    lemma_axis_bounds(cz, oz, oz + s, z);
    assert(tile_selected(cx, cz, m, mm, s, ox, oz));
    let start_x = aligned(cx - mm, s);
    let end_x = aligned(cx + mm, s);
    let start_z = aligned(cz - mm, s);
    let end_z = aligned(cz + mm, s);
    lemma_aligned_steps(cx - mm, x, s);
    lemma_aligned_steps(x, cx + mm, s);
    lemma_aligned_steps(cz - mm, z, s);
    lemma_aligned_steps(z, cz + mm, s);
    let jx = x / s - (cx - mm) / s;
    let jz = z / s - (cz - mm) / s;
    assert(0 <= (cx + mm) / s - x / s);
    assert(0 <= ((cx + mm) / s - x / s) * s) by (nonlinear_arith)
        requires
            0 <= (cx + mm) / s - x / s,
            s > 0,
    ;
    assert(0 <= ((cz + mm) / s - z / s) * s) by (nonlinear_arith)
        requires
            0 <= (cz + mm) / s - z / s,
            s > 0,
    ;
    lemma_in_rows(cx, cz, m, mm, lod, s, start_x, end_x, start_z, end_z, jx, jz);
    assert(ring_keys(center, m, mm, lod) == ring_rows(cx, cz, m, mm, lod, s, start_x, end_x, start_z, end_z));
    assert(-0x20_0000 <= ox <= 0x20_0000 && -0x20_0000 <= oz <= 0x20_0000);
}

/// Every chunk of the render circle (within the render distance of the
/// center) is covered by some tile of the rings put together: at the outmost
/// level whose tile holding the chunk reaches past that level's inner edge,
/// the chunk lies within that ring's outer edge.
pub proof fn lemma_visible_keys_cover_circle(
    center: (i64, i64),
    rd: i64,
    full: i64,
    mid: i64,
    low: i64,
    x: int,
    z: int,
)
    requires
        visible_inputs_ok(center, rd, full, mid, low),
        chunk_dist2(center, x, z) <= rd * rd,
    ensures
        exists|i: int|
            0 <= i < visible_keys(center, rd as int, full as int, mid as int, low as int).len() && covers(
                #[trigger] visible_keys(center, rd as int, full as int, mid as int, low as int)[i],
                x,
                z,
            ),
{
    let rdi = rd as int;
    let r0 = ring_keys(center, 0, min_radius_of(rdi, full as int), 0);
    let r1: Seq<ChunkRenderKey> = if rd > full {
        ring_keys(center, full as int, min_radius_of(rdi, mid as int), 1)
    } else {
        Seq::empty()
    };
    let r2: Seq<ChunkRenderKey> = if rd > mid {
        ring_keys(center, mid as int, min_radius_of(rdi, low as int), 2)
    } else {
        Seq::empty()
    };
    let r3: Seq<ChunkRenderKey> = if rd > low {
        ring_keys(center, low as int, rdi, 3)
    } else {
        Seq::empty()
    };
    let all = visible_keys(center, rdi, full as int, mid as int, low as int);
    assert(all == r0 + r1 + r2 + r3);
    let d2 = chunk_dist2(center, x, z);
    // The chunk lies no farther than the far corner of each tile holding it.
    assert forall|lod: u8| lod <= 10 implies d2 <= #[trigger] far_dist2(center, x, z, lod) by {
        let s = lod_step(lod);
        lemma_step_range(lod);
        lemma_aligned(x, s);
        lemma_aligned(z, s);
        lemma_axis_bounds(center.0 as int, aligned(x, s), aligned(x, s) + s, x);
        lemma_axis_bounds(center.1 as int, aligned(z, s), aligned(z, s) + s, z);
    }
    assert(full * full < mid * mid && mid * mid < low * low) by (nonlinear_arith)
        requires
            0 < full < mid < low,
    ;
    if rd > low && far_dist2(center, x, z, 3) > low * low {
        lemma_in_ring(center, low as int, rdi, 3, x, z);
        let key = key_at(aligned(x, lod_step(3)), aligned(z, lod_step(3)), 3);
        let k = choose|k: int| 0 <= k < r3.len() && r3[k] == key;
        assert(all[r0.len() + r1.len() + r2.len() + k] == key);
    } else if rd > mid && far_dist2(center, x, z, 2) > mid * mid {
        let mm = min_radius_of(rdi, low as int);
        assert(d2 <= mm * mm) by {
            if rd > low {
                assert(d2 <= far_dist2(center, x, z, 3));
            }
        }
        lemma_in_ring(center, mid as int, mm, 2, x, z);
        let key = key_at(aligned(x, lod_step(2)), aligned(z, lod_step(2)), 2);
        let k = choose|k: int| 0 <= k < r2.len() && r2[k] == key;
        assert(all[r0.len() + r1.len() + k] == key);
    } else if rd > full && far_dist2(center, x, z, 1) > full * full {
        let mm = min_radius_of(rdi, mid as int);
        assert(d2 <= mm * mm) by {
            if rd > mid {
                assert(d2 <= far_dist2(center, x, z, 2));
            }
        }
        lemma_in_ring(center, full as int, mm, 1, x, z);
        let key = key_at(aligned(x, lod_step(1)), aligned(z, lod_step(1)), 1);
        let k = choose|k: int| 0 <= k < r1.len() && r1[k] == key;
        assert(all[r0.len() + k] == key);
    } else {
        let mm = min_radius_of(rdi, full as int);
        assert(d2 <= mm * mm) by {
            if rd > full {
                assert(d2 <= far_dist2(center, x, z, 1));
            }
        }
        lemma_in_ring(center, 0, mm, 0, x, z);
        let key = key_at(aligned(x, lod_step(0)), aligned(z, lod_step(0)), 0);
        let k = choose|k: int| 0 <= k < r0.len() && r0[k] == key;
        assert(all[k] == key);
    }
}

/// Squared distance of a tile's origin from the center chunk.
pub open spec fn center_dist2(center: (i64, i64), k: ChunkRenderKey) -> int {
    (k.origin_chunk.0 - center.0) * (k.origin_chunk.0 - center.0) + (k.origin_chunk.1 - center.1) * (
    k.origin_chunk.1 - center.1)
}

/// The order tiles are requested in: origins nearer the center first, then
/// lower levels of detail, then by row, then by column.
pub open spec fn key_leq_from(center: (i64, i64), a: ChunkRenderKey, b: ChunkRenderKey) -> bool {
    ||| center_dist2(center, a) < center_dist2(center, b)
    ||| center_dist2(center, a) == center_dist2(center, b) && a.lod_level < b.lod_level
    ||| center_dist2(center, a) == center_dist2(center, b) && a.lod_level == b.lod_level && a.origin_chunk.1
        < b.origin_chunk.1
    ||| center_dist2(center, a) == center_dist2(center, b) && a.lod_level == b.lod_level && a.origin_chunk.1
        == b.origin_chunk.1 && a.origin_chunk.0 <= b.origin_chunk.0
}

/// `key_leq_from` as a relation.
pub open spec fn key_order_from(center: (i64, i64)) -> spec_fn(ChunkRenderKey, ChunkRenderKey) -> bool {
    |a: ChunkRenderKey, b: ChunkRenderKey| key_leq_from(center, a, b)
}

/// The request order is total: any two tiles compare, and only equal tiles
/// compare both ways.
pub proof fn lemma_key_order_from_total(center: (i64, i64))
    ensures
        total_ordering(key_order_from(center)),
{
    assert forall|a: ChunkRenderKey, b: ChunkRenderKey|
        #[trigger] key_order_from(center)(a, b) && #[trigger] key_order_from(center)(b, a) implies a == b by {
        assert(a.origin_chunk == b.origin_chunk);
    }
}

fn offset_square(v: i64, c: i64) -> (s: u128)
    requires
        -LOD_COORD_LIMIT <= c <= LOD_COORD_LIMIT,
    ensures
        s == (v - c) * (v - c),
        s <= 0x4000_0000_0020_0000_0000_0100_0000_0000,
{
    let d: i128 = v as i128 - c as i128;
    let a: u128 = if d < 0 {
        (-d) as u128
    } else {
        d as u128
    };
    proof {
        assert(a * a == (v - c) * (v - c)) by (nonlinear_arith)
            requires
                a == d || a == -d,
                d == v - c,
        ;
        assert(a * a <= 0x4000_0000_0020_0000_0000_0100_0000_0000) by (nonlinear_arith)
            requires
                0 <= a <= 0x8000_0000_0010_0000,
        ;
    }
    a * a
}

fn center_dist2_of(center: (i64, i64), k: &ChunkRenderKey) -> (d: u128)
    requires
        -LOD_COORD_LIMIT <= center.0 <= LOD_COORD_LIMIT,
        -LOD_COORD_LIMIT <= center.1 <= LOD_COORD_LIMIT,
    ensures
        d == center_dist2(center, *k),
{
    offset_square(k.origin_chunk.0, center.0) + offset_square(k.origin_chunk.1, center.1)
}

/// Whether `a` comes no later than `b` (see `key_leq_from`).
pub fn key_le_from(center: (i64, i64), a: &ChunkRenderKey, b: &ChunkRenderKey) -> (le: bool)
    requires
        -LOD_COORD_LIMIT <= center.0 <= LOD_COORD_LIMIT,
        -LOD_COORD_LIMIT <= center.1 <= LOD_COORD_LIMIT,
    ensures
        le == key_leq_from(center, *a, *b),
{
    let da = center_dist2_of(center, a);
    let db = center_dist2_of(center, b);
    if da != db {
        da < db
    } else if a.lod_level != b.lod_level {
        a.lod_level < b.lod_level
    } else if a.origin_chunk.1 != b.origin_chunk.1 {
        a.origin_chunk.1 < b.origin_chunk.1
    } else {
        a.origin_chunk.0 <= b.origin_chunk.0
    }
}

/// Sorts tiles nearest `center` first (see `key_leq_from`).
pub fn sort_keys_from(center: (i64, i64), v: &mut Vec<ChunkRenderKey>)
    requires
        -LOD_COORD_LIMIT <= center.0 <= LOD_COORD_LIMIT,
        -LOD_COORD_LIMIT <= center.1 <= LOD_COORD_LIMIT,
    ensures
        final(v)@.to_multiset() == old(v)@.to_multiset(),
        sorted_by(final(v)@, key_order_from(center)),
{
    broadcast use vstd::multiset::group_multiset_axioms;

    let n = v.len();
    let mut i: usize = 0;
    while i < n
        invariant
            n == v@.len(),
            i <= n,
            -LOD_COORD_LIMIT <= center.0 <= LOD_COORD_LIMIT,
            -LOD_COORD_LIMIT <= center.1 <= LOD_COORD_LIMIT,
            v@.to_multiset() == old(v)@.to_multiset(),
            forall|a: int, b: int| 0 <= a < b < i ==> key_leq_from(center, #[trigger] v@[a], #[trigger] v@[b]),
            forall|a: int, b: int| 0 <= a < i <= b < n ==> key_leq_from(center, #[trigger] v@[a], #[trigger] v@[b]),
        decreases n - i,
    {
        let mut m = i;
        let mut j = i + 1;
        while j < n
            invariant
                n == v@.len(),
                i <= m < n,
                -LOD_COORD_LIMIT <= center.0 <= LOD_COORD_LIMIT,
                -LOD_COORD_LIMIT <= center.1 <= LOD_COORD_LIMIT,
                i < j <= n,
                forall|k: int| i <= k < j ==> key_leq_from(center, v@[m as int], #[trigger] v@[k]),
            decreases n - j,
        {
            if !key_le_from(center, &v[m], &v[j]) {
                proof {
                    assert forall|k: int| i <= k < j + 1 implies key_leq_from(center, v@[j as int], #[trigger] v@[k]) by {
                        if k < j {
                            assert(key_leq_from(center, v@[m as int], v@[k]));
                        }
                    }
                }
                m = j;
            }
            j = j + 1;
        }
        let a = v[i];
        let b = v[m];
        let ghost before = v@;
        v.set(i, b);
        v.set(m, a);
        proof {
            let mid = before.update(i as int, b);
            assert(before[i as int] == a);
            vstd::seq_lib::to_multiset_update(before, i as int, b);
            assert(mid.to_multiset() == before.to_multiset().insert(b).remove(a));
            assert(v@ == mid.update(m as int, a));
            vstd::seq_lib::to_multiset_update(mid, m as int, a);
            assert(v@.to_multiset() == mid.to_multiset().insert(a).remove(mid[m as int]));
            vstd::seq_lib::to_multiset_contains(before, b);
            if m == i {
                assert(v@ =~= before);
            } else {
                assert(mid[m as int] == b);
                vstd::seq_lib::to_multiset_contains(before, a);
                let ms = before.to_multiset();
                assert(ms.contains(b));
                assert(ms.contains(a));
                assert(ms.insert(b).remove(a).insert(a).remove(b) =~= ms);
                assert(v@.to_multiset() =~= before.to_multiset());
            }
            assert forall|x: int, y: int| 0 <= x < y < i + 1 implies key_leq_from(center, #[trigger] v@[x], #[trigger] v@[y]) by {
                if y == i {
                    assert(v@[y] == b);
                    assert(before[x] == v@[x]);
                    assert(key_leq_from(center, before[x], before[m as int]));
                }
            }
            assert forall|x: int, y: int| 0 <= x < i + 1 <= y < n implies key_leq_from(center, #[trigger] v@[x], #[trigger] v@[y]) by {
                if x == i {
                    if y == m {
                        assert(key_leq_from(center, b, before[i as int]));
                    } else {
                        assert(v@[y] == before[y]);
                        assert(key_leq_from(center, b, before[y]));
                    }
                } else {
                    assert(v@[x] == before[x]);
                    if y == m {
                        assert(key_leq_from(center, before[x], before[i as int]));
                    } else {
                        assert(v@[y] == before[y]);
                    }
                }
            }
        }
        i = i + 1;
    }
    proof {
        assert(sorted_by(v@, key_order_from(center))) by {
            assert forall|a: int, b: int| 0 <= a < b < v@.len() implies #[trigger] key_order_from(center)(v@[a], v@[b]) by {
                assert(key_leq_from(center, v@[a], v@[b]));
            }
        }
    }
}

/// The tiles to request for render distance `render_distance` around
/// `center` with detail boundaries `full`, `mid` and `low`: the tiles of
/// `visible_keys`, nearest origin first, then lower level first.  Tiles of
/// one distance and level come from one ring, which lists them row by row,
/// so ordering them by row and column keeps them in the order they were
/// collected.
pub fn desired_chunk_keys(center: (i64, i64), render_distance: i64, full: i64, mid: i64, low: i64) -> (keys: Vec<
    ChunkRenderKey,
>)
    requires
        visible_inputs_ok(center, render_distance, full, mid, low),
    ensures
        keys@.to_multiset() == visible_keys(
            center,
            render_distance as int,
            full as int,
            mid as int,
            low as int,
        ).to_multiset(),
        sorted_by(keys@, key_order_from(center)),
{
    let mut keys = collect_visible_keys(center, render_distance, full, mid, low);
    sort_keys_from(center, &mut keys);
    keys
}

} // verus!
