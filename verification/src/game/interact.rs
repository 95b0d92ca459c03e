//! Targets of the player's pointer: block faces and sub-block cells.
use vstd::prelude::*;

use crate::game::world::{contains_world_y, spec_contains_world_y};

verus! {

/// The outward normal of a block face: one axis is -1 or 1, the others 0
/// (a normal built from a move between sub-cells may have several axes set).
#[derive(Clone, Copy, Debug, PartialEq, Eq, Structural)]
pub struct FaceNormal {
    pub x: i32,
    pub y: i32,
    pub z: i32,
}

/// A sub-cell of a block cell: the cell and the sub-cell's coordinates.
#[derive(Clone, Copy, Debug, PartialEq, Eq)]
pub struct SubTarget {
    pub base: (i64, i32, i64),
    pub sx: u8,
    pub sy: u8,
    pub sz: u8,
}

/// The sign of `v`: -1, 0 or 1.
pub open spec fn sign(v: int) -> int {
    if v < 0 {
        -1
    } else if v > 0 {
        1
    } else {
        0
    }
}

fn sign_of(a: u8, b: u8) -> (s: i32)
    ensures
        s == sign(a - b),
{
    if a < b {
        -1
    } else if a > b {
        1
    } else {
        0
    }
}

/// The face a ray crossed when it moved from sub-cell `from` to sub-cell
/// `to` of the same block: per axis the sign of `from - to`; `None` when
/// both are the same sub-cell, so that the caller falls back to the ray's
/// direction.
pub fn sub_transition_normal(from: SubTarget, to: SubTarget) -> (normal: Option<FaceNormal>)
    ensures
        (from.sx == to.sx && from.sy == to.sy && from.sz == to.sz) ==> normal is None,
        !(from.sx == to.sx && from.sy == to.sy && from.sz == to.sz) ==> normal == Some(
            FaceNormal {
                x: sign(from.sx - to.sx) as i32,
                y: sign(from.sy - to.sy) as i32,
                z: sign(from.sz - to.sz) as i32,
            },
        ),
{
    if from.sx == to.sx && from.sy == to.sy && from.sz == to.sz {
        None
    } else {
        Some(FaceNormal { x: sign_of(from.sx, to.sx), y: sign_of(from.sy, to.sy), z: sign_of(from.sz, to.sz) })
    }
}

/// One axis of a step from sub-cell `s` of cell `base` by `n` sub-cells,
/// where a cell has `d` sub-cells per axis: a step below the first sub-cell
/// goes to the last sub-cell of the cell before, a step past the last
/// sub-cell to the first sub-cell of the cell after.
pub open spec fn stepped_axis(base: int, s: int, n: int, d: int) -> (int, int) {
    let t = s + n;
    if t < 0 {
        (base - 1, d - 1)
    } else if t >= d {
        (base + 1, 0)
    } else {
        (base, t)
    }
}

/// The sub-cell next to `hit` across the face with normal `normal`, or
/// `None` when that sub-cell lies above or below the world.
pub open spec fn spec_neighbor_sub_target(hit: SubTarget, divisions: u8, normal: FaceNormal) -> Option<SubTarget> {
    let d = divisions as int;
    let (bx, sx) = stepped_axis(hit.base.0 as int, hit.sx as int, normal.x as int, d);
    let (by, sy) = stepped_axis(hit.base.1 as int, hit.sy as int, normal.y as int, d);
    let (bz, sz) = stepped_axis(hit.base.2 as int, hit.sz as int, normal.z as int, d);
    if !spec_contains_world_y(by) {
        None
    } else {
        Some(SubTarget { base: (bx as i64, by as i32, bz as i64), sx: sx as u8, sy: sy as u8, sz: sz as u8 })
    }
}

/// Steps one axis (see `stepped_axis`).
fn step_axis(s: u8, n: i32, d: u8) -> (r: (i32, u8))
    requires
        -1 <= n <= 1,
        1 <= d,
    ensures
        r.0 == stepped_axis(0, s as int, n as int, d as int).0,
        r.1 as int == stepped_axis(0, s as int, n as int, d as int).1,
{
    let t = s as i32 + n;
    if t < 0 {
        (-1, d - 1)
    } else if t >= d as i32 {
        (1, 0)
    } else {
        (0, t as u8)
    }
}

/// Where a sub-block goes when the player builds against the face of sub-cell
/// `hit` with outward normal `normal`, with `divisions` sub-cells per axis:
/// per axis the sub-coordinate moves by the normal, wrapping into the
/// neighbouring cell (see `stepped_axis`); `None` when the cell reached lies
/// above or below the world.  The hit sub-cell may come from a finer split
/// than `divisions`.
pub fn neighbor_sub_target(hit: SubTarget, divisions: u8, normal: FaceNormal) -> (t: Option<SubTarget>)
    requires
        1 <= divisions,
        -1 <= normal.x <= 1,
        -1 <= normal.y <= 1,
        -1 <= normal.z <= 1,
        i64::MIN < hit.base.0 < i64::MAX,
        i32::MIN < hit.base.1 < i32::MAX,
        i64::MIN < hit.base.2 < i64::MAX,
    ensures
        t == spec_neighbor_sub_target(hit, divisions, normal),
{
    let (dx, sx) = step_axis(hit.sx, normal.x, divisions);
    let (dy, sy) = step_axis(hit.sy, normal.y, divisions);
    let (dz, sz) = step_axis(hit.sz, normal.z, divisions);
    let y = hit.base.1 + dy;
    if !contains_world_y(y) {
        return None;
    }
    Some(SubTarget { base: (hit.base.0 + dx as i64, y, hit.base.2 + dz as i64), sx, sy, sz })
}

} // verus!
