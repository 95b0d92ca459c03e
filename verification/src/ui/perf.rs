//! Tile sets of the start-up benchmark: the tiles nearest the origin at one
//! level of detail, and every tile a render distance asks for, nearest first.
use vstd::prelude::*;
use vstd::relations::{sorted_by, total_ordering};

use crate::render::ChunkRenderKey;
use crate::ui::lod::{collect_lod_ring, key_at, ring_keys};

verus! {

/// Squared distance of a tile's origin from the origin.
pub open spec fn dist2(k: ChunkRenderKey) -> int {
    k.origin_chunk.0 * k.origin_chunk.0 + k.origin_chunk.1 * k.origin_chunk.1
}

/// The benchmark's order of tiles: nearer origins first, then lower levels
/// of detail, then by row, then by column.
pub open spec fn key_leq(a: ChunkRenderKey, b: ChunkRenderKey) -> bool {
    ||| dist2(a) < dist2(b)
    ||| dist2(a) == dist2(b) && a.lod_level < b.lod_level
    ||| dist2(a) == dist2(b) && a.lod_level == b.lod_level && a.origin_chunk.1 < b.origin_chunk.1
    ||| dist2(a) == dist2(b) && a.lod_level == b.lod_level && a.origin_chunk.1 == b.origin_chunk.1
        && a.origin_chunk.0 <= b.origin_chunk.0
}

/// `key_leq` as a relation.
pub open spec fn key_order() -> spec_fn(ChunkRenderKey, ChunkRenderKey) -> bool {
    |a: ChunkRenderKey, b: ChunkRenderKey| key_leq(a, b)
}

/// The benchmark's order is total: any two tiles compare, and only equal
/// tiles compare both ways.
pub proof fn lemma_key_order_total()
    ensures
        total_ordering(key_order()),
{
    assert forall|a: ChunkRenderKey, b: ChunkRenderKey|
        #[trigger] key_order()(a, b) && #[trigger] key_order()(b, a) implies a == b by {
        assert(a.origin_chunk == b.origin_chunk);
    }
}

fn square(v: i64) -> (s: u128)
    ensures
        s == v * v,
        s <= 0x4000_0000_0000_0000_0000_0000_0000_0000,
{
    let a: u128 = if v < 0 {
        (-(v as i128)) as u128
    } else {
        v as u128
    };
    proof {
        assert(a * a == v * v) by (nonlinear_arith)
            requires
                a == v || a == -v,
        ;
        assert(a * a <= 0x4000_0000_0000_0000_0000_0000_0000_0000) by (nonlinear_arith)
            requires
                0 <= a <= 0x8000_0000_0000_0000,
        ;
    }
    a * a
}

fn dist2_of(k: &ChunkRenderKey) -> (d: u128)
    ensures
        d == dist2(*k),
{
    square(k.origin_chunk.0) + square(k.origin_chunk.1)
}

/// Whether `a` comes no later than `b` (see `key_leq`).
pub fn key_le(a: &ChunkRenderKey, b: &ChunkRenderKey) -> (le: bool)
    ensures
        le == key_leq(*a, *b),
{
    let da = dist2_of(a);
    let db = dist2_of(b);
    if da != db {
        da < db
    } else if a.lod_level != b.lod_level {
        a.lod_level < b.lod_level
    } else if a.origin_chunk.1 != b.origin_chunk.1 {
        a.origin_chunk.1 < b.origin_chunk.1
    } else {
        a.origin_chunk.0 <= b.origin_chunk.0
    }
}

/// Sorts tiles into the benchmark's order (see `key_leq`).
pub fn sort_keys(v: &mut Vec<ChunkRenderKey>)
    ensures
        final(v)@.to_multiset() == old(v)@.to_multiset(),
        sorted_by(final(v)@, key_order()),
{
    broadcast use vstd::multiset::group_multiset_axioms;

    let n = v.len();
    let mut i: usize = 0;
    while i < n
        invariant
            n == v@.len(),
            i <= n,
            v@.to_multiset() == old(v)@.to_multiset(),
            forall|a: int, b: int| 0 <= a < b < i ==> key_leq(#[trigger] v@[a], #[trigger] v@[b]),
            forall|a: int, b: int| 0 <= a < i <= b < n ==> key_leq(#[trigger] v@[a], #[trigger] v@[b]),
        decreases n - i,
    {
        let mut m = i;
        let mut j = i + 1;
        while j < n
            invariant
                n == v@.len(),
                i <= m < n,
                i < j <= n,
                forall|k: int| i <= k < j ==> key_leq(v@[m as int], #[trigger] v@[k]),
            decreases n - j,
        {
            if !key_le(&v[m], &v[j]) {
                proof {
                    assert forall|k: int| i <= k < j + 1 implies key_leq(v@[j as int], #[trigger] v@[k]) by {
                        if k < j {
                            assert(key_leq(v@[m as int], v@[k]));
                        }
                    }
                }
                m = j;
            }
            j = j + 1;
        }
        let a = v[i];
        let b = v[m];
        let ghost before = v@;
        v.set(i, b);
        v.set(m, a);
        proof {
            let mid = before.update(i as int, b);
            assert(before[i as int] == a);
            vstd::seq_lib::to_multiset_update(before, i as int, b);
            assert(mid.to_multiset() == before.to_multiset().insert(b).remove(a));
            assert(v@ == mid.update(m as int, a));
            vstd::seq_lib::to_multiset_update(mid, m as int, a);
            assert(v@.to_multiset() == mid.to_multiset().insert(a).remove(mid[m as int]));
            vstd::seq_lib::to_multiset_contains(before, b);
            if m == i {
                assert(v@ =~= before);
            } else {
                assert(mid[m as int] == b);
                vstd::seq_lib::to_multiset_contains(before, a);
                let ms = before.to_multiset();
                assert(ms.contains(b));
                assert(ms.contains(a));
                assert(ms.insert(b).remove(a).insert(a).remove(b) =~= ms);
                assert(v@.to_multiset() =~= before.to_multiset());
            }
            assert forall|x: int, y: int| 0 <= x < y < i + 1 implies key_leq(#[trigger] v@[x], #[trigger] v@[y]) by {
                if y == i {
                    assert(v@[y] == b);
                    assert(before[x] == v@[x]);
                    assert(key_leq(before[x], before[m as int]));
                }
            }
            assert forall|x: int, y: int| 0 <= x < i + 1 <= y < n implies key_leq(#[trigger] v@[x], #[trigger] v@[y]) by {
                if x == i {
                    if y == m {
                        assert(key_leq(b, before[i as int]));
                    } else {
                        assert(v@[y] == before[y]);
                        assert(key_leq(b, before[y]));
                    }
                } else {
                    assert(v@[x] == before[x]);
                    if y == m {
                        assert(key_leq(before[x], before[i as int]));
                    } else {
                        assert(v@[y] == before[y]);
                    }
                }
            }
        }
        i = i + 1;
    }
    proof {
        assert(sorted_by(v@, key_order())) by {
            assert forall|a: int, b: int| 0 <= a < b < v@.len() implies #[trigger] key_order()(v@[a], v@[b]) by {
                assert(key_leq(v@[a], v@[b]));
            }
        }
    }
}

/// The keys of the tiles of row `z` from column `x` to `end_x` (in tile
/// units of `step` chunks), west to east.
pub open spec fn grid_row(step: int, lod: u8, x: int, end_x: int, z: int) -> Seq<ChunkRenderKey>
    decreases end_x - x + 1,
{
    if x > end_x {
        Seq::empty()
    } else {
        seq![key_at(x * step, z * step, lod)] + grid_row(step, lod, x + 1, end_x, z)
    }
}

/// The rows `z..=end_z` of the square of half-width `side`, south to north.
pub open spec fn grid_rows(step: int, lod: u8, side: int, z: int, end_z: int) -> Seq<ChunkRenderKey>
    decreases end_z - z + 1,
{
    if z > end_z {
        Seq::empty()
    } else {
        grid_row(step, lod, -side, side, z) + grid_rows(step, lod, side, z + 1, end_z)
    }
}

/// `r` is the smallest whole number whose square reaches `n`.
pub open spec fn is_ceil_sqrt(n: int, r: int) -> bool {
    &&& r >= 0
    &&& r * r >= n
    &&& (r == 0 || (r - 1) * (r - 1) < n)
}

/// The rounded-up square root of `n`.
pub open spec fn ceil_sqrt(n: int) -> int {
    choose|r: int| is_ceil_sqrt(n, r)
}

proof fn lemma_ceil_sqrt_unique(n: int, r: int, s: int)
    requires
        is_ceil_sqrt(n, r),
        is_ceil_sqrt(n, s),
    ensures
        r == s,
{
    if r < s {
        assert(r * r <= (s - 1) * (s - 1)) by (nonlinear_arith)
            requires
                0 <= r <= s - 1,
        ;
    } else if s < r {
        assert(s * s <= (r - 1) * (r - 1)) by (nonlinear_arith)
            requires
                0 <= s <= r - 1,
        ;
    }
}

fn ceil_sqrt_of(n: u64) -> (r: u64)
    requires
        n <= 0x10_0000,
    ensures
        r == ceil_sqrt(n as int),
        r <= 0x400,
{
    let mut r: u64 = 0;
    while r * r < n
        invariant
            r <= 0x400,
            r * r <= 0x10_0000,
            n <= 0x10_0000,
            r == 0 || (r - 1) * (r - 1) < n,
        decreases 0x400 - r,
    {
        proof {
            assert(r < 0x400) by (nonlinear_arith)
                requires
                    r * r < n,
                    n <= 0x10_0000,
                    r <= 0x400,
            ;
            assert((r + 1) * (r + 1) <= 0x10_0000) by (nonlinear_arith)
                requires
                    r < 0x400,
            ;
        }
        r = r + 1;
    }
    proof {
        assert(is_ceil_sqrt(n as int, r as int));
        lemma_ceil_sqrt_unique(n as int, r as int, ceil_sqrt(n as int));
    }
    r
}

/// The half-width of the square of tiles that the benchmark chooses from.
pub open spec fn perf_side(count: int) -> int {
    ceil_sqrt(count) + 3
}

/// The tiles of the benchmark square for `count` tiles of level `lod`.
pub open spec fn perf_candidates(count: int, lod: u8) -> Seq<ChunkRenderKey> {
    let side = perf_side(count);
    grid_rows(crate::ui::lod::lod_step(lod), lod, side, -side, side)
}

/// The `count` tiles of level `lod_level` nearest the origin, nearest first
/// (see `key_leq`); all of the benchmark square when it has fewer.  The
/// bounds keep the square's side a whole square root that a double-precision
/// root gives exactly, and the squared distances of its tiles inside a
/// signed 64-bit sum at every count they admit.
pub fn make_perf_lod_keys(count: usize, lod_level: u8) -> (keys: Vec<ChunkRenderKey>)
    requires
        count <= 0x10_0000,
        lod_level <= 20,
    ensures
        ({
            let sorted = perf_candidates(count as int, lod_level).sort_by(key_order());
            keys@ == if count < sorted.len() {
                sorted.take(count as int)
            } else {
                sorted
            }
        }),
{
    let step: i64 = 1i64 << lod_level;
    proof {
        assert(1 <= (1i64 << lod_level) <= 0x10_0000) by (bit_vector)
            requires
                lod_level <= 20,
        ;
    }
    let side = ceil_sqrt_of(count as u64) as i64 + 3;
    let ghost all = grid_rows(step as int, lod_level, side as int, -side, side as int);
    let mut candidates: Vec<ChunkRenderKey> = Vec::new();
    let mut z = -side;
    proof {
        assert(all == Seq::<ChunkRenderKey>::empty() + grid_rows(step as int, lod_level, side as int, z as int, side as int));
    }
    while z <= side
        invariant
            1 <= step <= 0x10_0000,
            3 <= side <= 0x403,
            -side <= z <= side + 1,
            all == candidates@ + grid_rows(step as int, lod_level, side as int, z as int, side as int),
        decreases side - z + 1,
    {
        let ghost row_start = candidates@;
        let ghost rest = grid_rows(step as int, lod_level, side as int, z + 1, side as int);
        let mut x = -side;
        proof {
            assert(grid_row(step as int, lod_level, -side, side as int, z as int) + rest =~= Seq::<ChunkRenderKey>::empty()
                + (grid_row(step as int, lod_level, -side, side as int, z as int) + rest));
        }
        while x <= side
            invariant
                1 <= step <= 0x10_0000,
                3 <= side <= 0x403,
                -side <= z <= side,
                -side <= x <= side + 1,
                rest == grid_rows(step as int, lod_level, side as int, z + 1, side as int),
                row_start + grid_row(step as int, lod_level, -side, side as int, z as int) + rest
                    == candidates@ + grid_row(step as int, lod_level, x as int, side as int, z as int) + rest,
            decreases side - x + 1,
        {
            proof {
                assert(-0x403 * 0x10_0000 <= x * step <= 0x403 * 0x10_0000) by (nonlinear_arith)
                    requires
                        -0x403 <= x <= 0x403,
                        1 <= step <= 0x10_0000,
                ;
                assert(-0x403 * 0x10_0000 <= z * step <= 0x403 * 0x10_0000) by (nonlinear_arith)
                    requires
                        -0x403 <= z <= 0x403,
                        1 <= step <= 0x10_0000,
                ;
            }
            let key = ChunkRenderKey { origin_chunk: (x * step, z * step), lod_level };
            let ghost before = candidates@;
            candidates.push(key);
            proof {
                let tail = grid_row(step as int, lod_level, x + 1, side as int, z as int);
                assert(key == key_at(x * step, z * step, lod_level));
                assert(before + (seq![key] + tail) + rest =~= candidates@ + tail + rest);
            }
            x = x + 1;
        }
        proof {
            assert(grid_row(step as int, lod_level, x as int, side as int, z as int) == Seq::<ChunkRenderKey>::empty());
            assert(candidates@ + Seq::<ChunkRenderKey>::empty() + rest =~= candidates@ + rest);
            assert(row_start + grid_row(step as int, lod_level, -side, side as int, z as int) + rest =~= row_start + (grid_row(
                step as int,
                lod_level,
                -side,
                side as int,
                z as int,
            ) + rest));
        }
        z = z + 1;
    }
    proof {
        assert(candidates@ + Seq::<ChunkRenderKey>::empty() =~= candidates@);
        assert(all == candidates@);
        assert(step as int == crate::ui::lod::lod_step(lod_level));
    }
    let ghost unsorted = candidates@;
    sort_keys(&mut candidates);
    proof {
        lemma_key_order_total();
        unsorted.lemma_sort_by_ensures(key_order());
        vstd::seq_lib::lemma_sorted_unique(candidates@, unsorted.sort_by(key_order()), key_order());
    }
    candidates.truncate(count);
    proof {
        if count >= unsorted.sort_by(key_order()).len() {
            assert(candidates@ =~= unsorted.sort_by(key_order()));
        }
    }
    candidates
}

/// The tiles a render distance of `render_distance` chunks asks for around
/// the origin: full detail to 16 chunks, then levels 1, 2 and 3 out to 32,
/// 64 and the render distance.
pub open spec fn mix_keys(render_distance: int) -> Seq<ChunkRenderKey> {
    let rd = render_distance;
    let min = |a: int, b: int| if a < b { a } else { b };
    ring_keys((0, 0), 0, min(rd, 16), 0) + (if rd > 16 {
        ring_keys((0, 0), 16, min(rd, 32), 1)
    } else {
        Seq::empty()
    }) + (if rd > 32 {
        ring_keys((0, 0), 32, min(rd, 64), 2)
    } else {
        Seq::empty()
    }) + (if rd > 64 {
        ring_keys((0, 0), 64, rd, 3)
    } else {
        Seq::empty()
    })
}

/// Every tile a render distance asks for around the origin (see
/// `mix_keys`), nearest first (see `key_leq`).
pub fn make_perf_rd128_mix_keys(render_distance: i64) -> (keys: Vec<ChunkRenderKey>)
    requires
        -crate::ui::lod::LOD_RADIUS_LIMIT <= render_distance <= crate::ui::lod::LOD_RADIUS_LIMIT,
    ensures
        keys@ == mix_keys(render_distance as int).sort_by(key_order()),
{
    let mut keys: Vec<ChunkRenderKey> = Vec::new();
    let rd = render_distance;
    collect_lod_ring(&mut keys, (0, 0), 0, if rd < 16 { rd } else { 16 }, 0);
    if rd > 16 {
        collect_lod_ring(&mut keys, (0, 0), 16, if rd < 32 { rd } else { 32 }, 1);
    }
    if rd > 32 {
        collect_lod_ring(&mut keys, (0, 0), 32, if rd < 64 { rd } else { 64 }, 2);
    }
    if rd > 64 {
        collect_lod_ring(&mut keys, (0, 0), 64, rd, 3);
    }
    proof {
        assert(keys@ =~= mix_keys(render_distance as int));
    }
    let ghost unsorted = keys@;
    sort_keys(&mut keys);
    proof {
        lemma_key_order_total();
        unsorted.lemma_sort_by_ensures(key_order());
        vstd::seq_lib::lemma_sorted_unique(keys@, unsorted.sort_by(key_order()), key_order());
    }
    keys
}

} // verus!
