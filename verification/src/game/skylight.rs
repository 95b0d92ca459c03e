//! Column skylight shared by both world layouts.
//!
//! A light volume is a flat array of voxels laid out layer by layer: the
//! voxel at column `c` (where `c = z * xz_extent + x`) of layer `y` sits at
//! index `y * xz_extent * xz_extent + c`.  Within a vertical band of layers,
//! every open voxel of a column either sees the sky (full light, 15) or sits
//! below the column's topmost solid voxel and loses one level per layer of
//! depth below it.
use vstd::prelude::*;

verus! {

/// Maximum light level.
pub const FULL_LIGHT: u8 = 15;

/// A voxel id scheme that knows which ids block light.
pub trait VoxelIds {
    spec fn spec_id_is_solid(id: u8) -> bool;

    fn id_is_solid(id: u8) -> (b: bool)
        ensures
            b == Self::spec_id_is_solid(id),
    ;
}

/// Index of column `c` of layer `y` when a layer holds `stride` voxels.
pub open spec fn cell(stride: int, y: int, c: int) -> int {
    y * stride + c
}

/// The topmost layer in `lo..=y` whose voxel in column `c` is solid.
pub open spec fn ceiling<K: VoxelIds>(ids: Seq<u8>, stride: int, c: int, lo: int, y: int) -> Option<int>
    decreases y - lo + 1,
{
    if y < lo {
        None
    } else if K::spec_id_is_solid(ids[cell(stride, y, c)]) {
        Some(y)
    } else {
        ceiling::<K>(ids, stride, c, lo, y - 1)
    }
}

/// Light of an open voxel at layer `y` of a column whose ceiling is `top`:
/// full light above the ceiling (or with no ceiling), otherwise full light
/// minus the depth below the ceiling (the depth taken modulo 256, as a byte),
/// floored at zero.
pub open spec fn sky_level(top: Option<int>, y: int) -> u8 {
    match top {
        None => FULL_LIGHT,
        Some(t) => if y > t {
            FULL_LIGHT
        } else {
            let depth = (t + 1 - y) % 256;
            if depth >= 15 {
                0u8
            } else {
                (15 - depth) as u8
            }
        },
    }
}

/// The light of layer `y` in column `c` after the column pass over `lo..=hi`.
pub open spec fn column_light<K: VoxelIds>(ids: Seq<u8>, stride: int, c: int, lo: int, hi: int, y: int) -> u8 {
    sky_level(ceiling::<K>(ids, stride, c, lo, hi), y)
}

pub proof fn lemma_cell_bounds(stride: int, y: int, c: int, lo: int, hi: int)
    requires
        0 <= c < stride,
        0 <= lo <= y <= hi,
    ensures
        lo * stride <= cell(stride, y, c) < (hi + 1) * stride,
        0 <= cell(stride, y, c),
{
    assert(lo * stride <= y * stride) by (nonlinear_arith)
        requires
            lo <= y,
            0 <= stride,
    ;
    assert(y * stride + stride <= (hi + 1) * stride) by (nonlinear_arith)
        requires
            y <= hi,
            0 <= stride,
    ;
    assert(0 <= y * stride) by (nonlinear_arith)
        requires
            0 <= y,
            0 <= stride,
    ;
}

pub proof fn lemma_cell_injective(stride: int, y1: int, c1: int, y2: int, c2: int)
    requires
        0 <= c1 < stride,
        0 <= c2 < stride,
        cell(stride, y1, c1) == cell(stride, y2, c2),
    ensures
        y1 == y2,
        c1 == c2,
{
    if y1 < y2 {
        assert(y1 * stride + stride <= y2 * stride) by (nonlinear_arith)
            requires
                y1 < y2,
                0 <= stride,
        ;
    } else if y2 < y1 {
        assert(y2 * stride + stride <= y1 * stride) by (nonlinear_arith)
            requires
                y2 < y1,
                0 <= stride,
        ;
    }
}

/// Column `c = z * xz + x` is a column of an `xz` by `xz` layer.
pub proof fn lemma_column_in_layer(xz: int, x: int, z: int)
    requires
        0 <= x < xz,
        0 <= z < xz,
    ensures
        0 <= z * xz + x < xz * xz,
{
    assert(z * xz + x < xz * xz) by (nonlinear_arith)
        requires
            0 <= x < xz,
            0 <= z < xz,
    ;
    assert(0 <= z * xz) by (nonlinear_arith)
        requires
            0 <= z,
            0 <= xz,
    ;
}

pub proof fn lemma_band_fits(stride: int, hi: int)
    requires
        1 <= stride,
        0 <= hi,
    ensures
        hi + 1 <= (hi + 1) * stride,
{
    assert(hi + 1 <= (hi + 1) * stride) by (nonlinear_arith)
        requires
            1 <= stride,
            0 <= hi,
    ;
}

/// Finds the topmost solid layer of column `c` within `lo..=hi`.
fn find_ceiling<K: VoxelIds>(ids: &[u8], stride: usize, c: usize, lo: usize, hi: usize) -> (top: Option<usize>)
    requires
        c < stride,
        lo <= hi,
        (hi + 1) * stride <= ids@.len(),
    ensures
        top matches Some(t) ==> ceiling::<K>(ids@, stride as int, c as int, lo as int, hi as int) == Some(t as int),
        top is None ==> ceiling::<K>(ids@, stride as int, c as int, lo as int, hi as int) is None,
{
    let n = ids.len();
    proof {
        lemma_band_fits(stride as int, hi as int);
    }
    let mut y: usize = hi + 1;
    let mut found: Option<usize> = None;
    while y > lo && found.is_none()
        invariant
            c < stride,
            lo <= hi,
            (hi + 1) * stride <= ids@.len(),
            n == ids@.len(),
            lo <= y <= hi + 1,
            found is None ==> ceiling::<K>(ids@, stride as int, c as int, lo as int, hi as int)
                == ceiling::<K>(ids@, stride as int, c as int, lo as int, y - 1),
            found matches Some(t) ==> ceiling::<K>(ids@, stride as int, c as int, lo as int, hi as int)
                == Some(t as int),
        decreases y,
    {
        y = y - 1;
        proof {
            lemma_cell_bounds(stride as int, y as int, c as int, lo as int, hi as int);
        }
        let idx = y * stride + c;
        if K::id_is_solid(ids[idx]) {
            found = Some(y);
        }
    }
    found
}

/// The light of an open voxel at layer `y` of a column with ceiling `top`.
fn level_below(top: Option<usize>, y: usize) -> (level: u8)
    ensures
        level == sky_level(
            match top {
                Some(t) => Some(t as int),
                None => None,
            },
            y as int,
        ),
{
    match top {
        None => FULL_LIGHT,
        Some(t) => {
            if y > t {
                FULL_LIGHT
            } else {
                let below = (t - y) % 256;
                let depth: u8 = if below == 255 {
                    0
                } else {
                    (below + 1) as u8
                };
                assert(depth == (t + 1 - y) % 256);
                if depth >= 15 {
                    0
                } else {
                    15 - depth
                }
            }
        },
    }
}

/// Lights every open voxel of the layers `lo..=hi`, column by column, from
/// the sky.  Voxels outside the band and solid voxels keep their light.
pub fn fill_sky_columns<K: VoxelIds>(ids: &[u8], light: &mut Vec<u8>, stride: usize, lo: usize, hi: usize)
    requires
        old(light)@.len() == ids@.len(),
        lo <= hi,
        (hi + 1) * stride <= ids@.len(),
    ensures
        final(light)@.len() == ids@.len(),
        forall|y: int, c: int|
            lo <= y <= hi && 0 <= c < stride && !K::spec_id_is_solid(ids@[#[trigger] cell(stride as int, y, c)])
                ==> final(light)@[cell(stride as int, y, c)]
                == column_light::<K>(ids@, stride as int, c, lo as int, hi as int, y),
        forall|i: int|
            0 <= i < ids@.len() && (i < lo * stride || i >= (hi + 1) * stride || K::spec_id_is_solid(ids@[i]))
                ==> #[trigger] final(light)@[i] == old(light)@[i],
{
    let n = ids.len();
    let ghost start = light@;
    let ghost s = stride as int;
    let mut c: usize = 0;
    while c < stride
        invariant
            light@.len() == ids@.len(),
            n == ids@.len(),
            start.len() == ids@.len(),
            s == stride,
            lo <= hi,
            (hi + 1) * stride <= ids@.len(),
            c <= stride,
            forall|y: int, cc: int|
                lo <= y <= hi && 0 <= cc < c && !K::spec_id_is_solid(ids@[#[trigger] cell(s, y, cc)])
                    ==> light@[cell(s, y, cc)] == column_light::<K>(ids@, s, cc, lo as int, hi as int, y),
            forall|i: int|
                0 <= i < ids@.len() && light@[i] != start[i] ==> exists|y: int, cc: int|
                    lo <= y <= hi && 0 <= cc < c && !K::spec_id_is_solid(ids@[cell(s, y, cc)])
                        && i == #[trigger] cell(s, y, cc),
        decreases stride - c,
    {
        let top = find_ceiling::<K>(ids, stride, c, lo, hi);
        let ghost before = light@;
        let mut y: usize = lo;
        while y <= hi
            invariant
                light@.len() == ids@.len(),
                n == ids@.len(),
                before.len() == ids@.len(),
                s == stride,
                c < stride,
                lo <= hi,
                (hi + 1) * stride <= ids@.len(),
                lo <= y <= hi + 1,
                top matches Some(t) ==> ceiling::<K>(ids@, s, c as int, lo as int, hi as int) == Some(t as int),
                top is None ==> ceiling::<K>(ids@, s, c as int, lo as int, hi as int) is None,
                forall|yy: int|
                    lo <= yy < y && !K::spec_id_is_solid(ids@[#[trigger] cell(s, yy, c as int)])
                        ==> light@[cell(s, yy, c as int)] == column_light::<K>(ids@, s, c as int, lo as int, hi as int, yy),
                forall|i: int|
                    0 <= i < ids@.len() && light@[i] != before[i] ==> exists|yy: int|
                        lo <= yy < y && !K::spec_id_is_solid(ids@[cell(s, yy, c as int)])
                            && i == #[trigger] cell(s, yy, c as int),
            decreases hi + 1 - y,
        {
            proof {
                lemma_cell_bounds(s, y as int, c as int, lo as int, hi as int);
                lemma_band_fits(s, hi as int);
            }
            let idx = y * stride + c;
            if !K::id_is_solid(ids[idx]) {
                let level = level_below(top, y);
                let ghost pre = light@;
                light.set(idx, level);
                proof {
                    assert forall|yy: int|
                        lo <= yy < y + 1 && !K::spec_id_is_solid(ids@[#[trigger] cell(s, yy, c as int)])
                            implies light@[cell(s, yy, c as int)] == column_light::<K>(ids@, s, c as int, lo as int, hi as int, yy) by {
                        lemma_cell_bounds(s, yy, c as int, lo as int, hi as int);
                        if yy != y {
                            if cell(s, yy, c as int) == idx as int {
                                lemma_cell_injective(s, yy, c as int, y as int, c as int);
                            }
                            assert(light@[cell(s, yy, c as int)] == pre[cell(s, yy, c as int)]);
                        } else {
                            assert(cell(s, yy, c as int) == idx as int);
                            match top {
                                Some(t) => {
                                    assert(ceiling::<K>(ids@, s, c as int, lo as int, hi as int) == Some(t as int));
                                    assert(level == sky_level(Some(t as int), y as int));
                                },
                                None => {},
                            }
                        }
                    }
                    assert forall|i: int|
                        0 <= i < ids@.len() && light@[i] != before[i] implies exists|yy: int|
                            lo <= yy < y + 1 && !K::spec_id_is_solid(ids@[cell(s, yy, c as int)])
                                && i == #[trigger] cell(s, yy, c as int) by {
                        if i == idx as int {
                            assert(i == cell(s, y as int, c as int));
                        }
                    }
                }
            }
            y = y + 1;
        }
        proof {
            let cc = c as int;
            assert forall|y: int, c2: int|
                lo <= y <= hi && 0 <= c2 < c + 1 && !K::spec_id_is_solid(ids@[#[trigger] cell(s, y, c2)])
                    implies light@[cell(s, y, c2)] == column_light::<K>(ids@, s, c2, lo as int, hi as int, y) by {
                if c2 < cc {
                    lemma_cell_bounds(s, y, c2, lo as int, hi as int);
                    let j = cell(s, y, c2);
                    if light@[j] != before[j] {
                        let yy = choose|yy: int|
                            lo <= yy < hi + 1 && !K::spec_id_is_solid(ids@[cell(s, yy, cc)]) && j == #[trigger] cell(s, yy, cc);
                        lemma_cell_injective(s, y, c2, yy, cc);
                    }
                }
            }
            assert forall|i: int|
                0 <= i < ids@.len() && light@[i] != start[i] implies exists|y: int, c2: int|
                    lo <= y <= hi && 0 <= c2 < c + 1 && !K::spec_id_is_solid(ids@[cell(s, y, c2)])
                        && i == #[trigger] cell(s, y, c2) by {
                if light@[i] != before[i] {
                    let yy = choose|yy: int|
                        lo <= yy < hi + 1 && !K::spec_id_is_solid(ids@[cell(s, yy, cc)]) && i == #[trigger] cell(s, yy, cc);
                    assert(i == cell(s, yy, cc));
                } else {
                    let (y, c2) = choose|y: int, c2: int|
                        lo <= y <= hi && 0 <= c2 < cc && !K::spec_id_is_solid(ids@[cell(s, y, c2)])
                            && i == #[trigger] cell(s, y, c2);
                    assert(i == cell(s, y, c2));
                }
            }
        }
        c = c + 1;
    }
    proof {
        assert forall|i: int|
            0 <= i < ids@.len() && (i < lo * stride || i >= (hi + 1) * stride || K::spec_id_is_solid(ids@[i]))
                implies #[trigger] light@[i] == start[i] by {
            if light@[i] != start[i] {
                let (y, c2) = choose|y: int, c2: int|
                    lo <= y <= hi && 0 <= c2 < s && !K::spec_id_is_solid(ids@[cell(s, y, c2)])
                        && i == #[trigger] cell(s, y, c2);
                lemma_cell_bounds(s, y, c2, lo as int, hi as int);
            }
        }
    }
}

} // verus!

verus! {

/// The ceiling of a column is its topmost solid layer in the band: when it
/// is `Some(t)`, layer `t` lies in the band and is solid and no layer above
/// it in the band is; when it is `None`, no layer of the band is solid.
pub proof fn lemma_ceiling_is_topmost<K: VoxelIds>(ids: Seq<u8>, stride: int, c: int, lo: int, hi: int)
    ensures
        match ceiling::<K>(ids, stride, c, lo, hi) {
            Some(t) => {
                &&& lo <= t <= hi
                &&& K::spec_id_is_solid(ids[cell(stride, t, c)])
                &&& forall|u: int| t < u <= hi ==> !K::spec_id_is_solid(#[trigger] ids[cell(stride, u, c)])
            },
            None => forall|u: int| lo <= u <= hi ==> !K::spec_id_is_solid(#[trigger] ids[cell(stride, u, c)]),
        },
    decreases hi - lo + 1,
{
    if hi >= lo && !K::spec_id_is_solid(ids[cell(stride, hi, c)]) {
        lemma_ceiling_is_topmost::<K>(ids, stride, c, lo, hi - 1);
        match ceiling::<K>(ids, stride, c, lo, hi - 1) {
            Some(t) => {
                assert forall|u: int| t < u <= hi implies !K::spec_id_is_solid(#[trigger] ids[cell(stride, u, c)]) by {
                    if u < hi {
                    }
                }
            },
            None => {
                assert forall|u: int| lo <= u <= hi implies !K::spec_id_is_solid(#[trigger] ids[cell(stride, u, c)]) by {
                    if u < hi {
                    }
                }
            },
        }
    }
}

/// An open voxel below a solid layer `t` of its column, with nothing solid
/// above `t` in the band, loses one level of light per layer of depth below
/// `t` (depth `t + 1 - y`, counted as a byte): none left from depth 15 on.
pub proof fn lemma_light_below_roof<K: VoxelIds>(ids: Seq<u8>, stride: int, c: int, lo: int, hi: int, y: int, t: int)
    requires
        lo <= y <= t <= hi,
        K::spec_id_is_solid(ids[cell(stride, t, c)]),
        forall|u: int| t < u <= hi ==> !K::spec_id_is_solid(#[trigger] ids[cell(stride, u, c)]),
    ensures
        column_light::<K>(ids, stride, c, lo, hi, y) as int == 15 - if (t + 1 - y) % 256 < 15 {
            (t + 1 - y) % 256
        } else {
            15
        },
        t + 1 - y < 256 ==> column_light::<K>(ids, stride, c, lo, hi, y) as int == 15 - if t + 1 - y < 15 {
            t + 1 - y
        } else {
            15
        },
{
    lemma_ceiling_is_topmost::<K>(ids, stride, c, lo, hi);
    match ceiling::<K>(ids, stride, c, lo, hi) {
        Some(t2) => {
            if t2 < t {
                assert(!K::spec_id_is_solid(ids[cell(stride, t, c)]));
            } else if t2 > t {
                assert(!K::spec_id_is_solid(ids[cell(stride, t2, c)]));
            }
        },
        None => {
            assert(!K::spec_id_is_solid(ids[cell(stride, t, c)]));
        },
    }
}

/// An open voxel with nothing solid at or above its layer in the band sees
/// the sky: full light.
pub proof fn lemma_light_open_sky<K: VoxelIds>(ids: Seq<u8>, stride: int, c: int, lo: int, hi: int, y: int)
    requires
        lo <= y <= hi,
        forall|u: int| y <= u <= hi ==> !K::spec_id_is_solid(#[trigger] ids[cell(stride, u, c)]),
    ensures
        column_light::<K>(ids, stride, c, lo, hi, y) == 15,
{
    lemma_ceiling_is_topmost::<K>(ids, stride, c, lo, hi);
    match ceiling::<K>(ids, stride, c, lo, hi) {
        Some(t) => {
            if t >= y {
                assert(!K::spec_id_is_solid(ids[cell(stride, t, c)]));
            }
        },
        None => {},
    }
}

} // verus!
