//! Placing and removing sub-blocks in build mode: the target cell is checked,
//! the piece is paid for out of the selected hotbar slot, and removed pieces
//! are refunded.  Finding which sub-cell the pointer hits is left to the
//! caller, which hands in the sub-cell and what it found about it.
use vstd::prelude::*;

use crate::game::interact::SubTarget;
use crate::game::inventory::{Inventory, InventoryView};
use crate::game::world::edits::{sub_pos, EditsView, WorldEdits};
use crate::game::world::storage::{cells_with, cells_without, lookup};
use crate::game::world::{spec_contains_world_y, spec_is_solid, spec_valid_sub_coords, Block, SubBlockPos};
use crate::ui::{refunded, spent, wallet_units, BuildModeState, SubdivideScale};

verus! {

/// Sub-cells per axis at a scale.
pub open spec fn scale_divisions(scale: SubdivideScale) -> u8 {
    match scale {
        SubdivideScale::Full => 1u8,
        SubdivideScale::Thirds => 3u8,
        SubdivideScale::Sixths => 6u8,
    }
}

/// Units one piece costs at a scale.
pub open spec fn scale_cost(scale: SubdivideScale) -> u16 {
    match scale {
        SubdivideScale::Full => 6u16,
        SubdivideScale::Thirds => 2u16,
        SubdivideScale::Sixths => 1u16,
    }
}

/// The block type of the selected hotbar slot.
pub open spec fn selected_block(inv: InventoryView) -> Block {
    inv.hotbar[inv.selected].block
}

/// The sub-block position of a target at `divisions` sub-cells per axis.
pub open spec fn target_pos(target: SubTarget, divisions: u8) -> SubBlockPos {
    sub_pos(target.base.0, target.base.1, target.base.2, divisions, target.sx, target.sy, target.sz)
}

/// Whether a placement goes as far as writing the sub-block and paying: the
/// scale splits blocks, the selected block is solid, the target cell is not
/// solid, no placed sub-block overlaps the slot, the cell lies inside the
/// world's height and the sub-coordinates lie inside the cell.
pub open spec fn placement_tried(
    scale: SubdivideScale,
    inv: InventoryView,
    target: SubTarget,
    base_solid: bool,
    overlaps_existing: bool,
) -> bool {
    let d = scale_divisions(scale);
    &&& d > 1
    &&& spec_is_solid(selected_block(inv))
    &&& !base_solid
    &&& !overlaps_existing
    &&& spec_contains_world_y(target.base.1 as int)
    &&& spec_valid_sub_coords(d, target.sx, target.sy, target.sz)
}

/// The sub-block placed at `pos`, when `pos` lies inside the world's height
/// and is a sub-cell.
pub open spec fn sub_entry(v: EditsView, pos: SubBlockPos) -> Option<Block> {
    if spec_contains_world_y(pos.y as int) && spec_valid_sub_coords(pos.divisions, pos.sx, pos.sy, pos.sz) {
        lookup(v.sub_cells, pos)
    } else {
        None
    }
}

fn scale_divisions_of(scale: SubdivideScale) -> (d: u8)
    ensures
        d == scale_divisions(scale),
{
    scale.divisions()
}

fn scale_cost_of(scale: SubdivideScale) -> (c: u16)
    ensures
        c == scale_cost(scale),
{
    scale.piece_cost_units()
}

/// Builds one sub-block of the selected hotbar block into `target`, at the
/// wallet's scale.  `base_solid` tells whether the target's whole cell is
/// solid, `overlaps_existing` whether a placed solid sub-block overlaps the
/// slot.  When every check passes (see `placement_tried`) the sub-block is
/// written and one piece is paid for (see `BuildModeState::spend_sub_units`);
/// if the payment fails the sub-block is cleared again, while the blocks
/// already broken into the wallet stay there.  Returns whether the sub-block
/// stands; the caller then marks the cell's tiles out of date.
pub fn place_sub_block(
    edits: &mut WorldEdits,
    wallet: &mut BuildModeState,
    inventory: &mut Inventory,
    target: SubTarget,
    base_solid: bool,
    overlaps_existing: bool,
) -> (placed: bool)
    requires
        old(edits).wf(),
    ensures
        final(edits).wf(),
        ({
            let scale = old(wallet).subdivide_scale;
            let d = scale_divisions(scale);
            let block = selected_block(old(inventory)@);
            let pos = target_pos(target, d);
            let tried = placement_tried(scale, old(inventory)@, target, base_solid, overlaps_existing);
            &&& !tried ==> !placed && final(edits)@ == old(edits)@ && *final(wallet) == *old(wallet)
                && final(inventory)@ == old(inventory)@
            &&& tried ==> spent(
                *old(wallet),
                old(inventory)@,
                *final(wallet),
                final(inventory)@,
                block,
                scale_cost(scale) as int,
                placed,
            )
            &&& placed ==> final(edits)@ == (EditsView {
                sub_cells: cells_with(old(edits)@.sub_cells, pos, block),
                ..old(edits)@
            })
            &&& placed ==> lookup(final(edits)@.sub_cells, pos) == Some(block)
            &&& tried && !placed ==> final(edits)@ == (EditsView {
                sub_cells: cells_without(cells_with(old(edits)@.sub_cells, pos, block), pos),
                ..old(edits)@
            })
            &&& tried && !placed && lookup(old(edits)@.sub_cells, pos) is None ==> final(edits)@ == old(edits)@
        }),
{
    let scale = wallet.subdivide_scale;
    let divisions = scale_divisions_of(scale);
    if divisions <= 1 {
        return false;
    }
    let block = inventory.selected_slot().block;
    if !block.is_solid() {
        return false;
    }
    if base_solid || overlaps_existing {
        return false;
    }
    let ghost before = edits@;
    proof {
        edits.lemma_wf_cells();
    }
    if !edits.set_sub_block_i64(target.base.0, target.base.1, target.base.2, divisions, target.sx, target.sy, target.sz, block) {
        return false;
    }
    let unit_cost = scale_cost_of(scale);
    if !wallet.spend_sub_units(inventory, block, unit_cost) {
        let _ = edits.clear_sub_block_i64(target.base.0, target.base.1, target.base.2, divisions, target.sx, target.sy, target.sz);
        proof {
            let pos = target_pos(target, divisions);
            if lookup(before.sub_cells, pos) is None {
                crate::game::world::storage::lemma_insert_then_remove(before.sub_cells, pos, block);
            }
        }
        return false;
    }
    true
}

/// Removes the sub-block at `hit` while the wallet's scale splits blocks, and
/// refunds one piece of it at that scale (see
/// `BuildModeState::refund_sub_units`).  Returns the block removed; `None`,
/// with nothing changed, at the full-block scale or where no sub-block is
/// placed.  The caller then marks the cell's tiles out of date.
pub fn remove_sub_block(
    edits: &mut WorldEdits,
    wallet: &mut BuildModeState,
    inventory: &mut Inventory,
    hit: SubBlockPos,
) -> (removed: Option<Block>)
    requires
        old(edits).wf(),
        sub_entry(old(edits)@, hit) matches Some(b) ==> wallet_units(*old(wallet), b) + scale_cost(
            old(wallet).subdivide_scale,
        ) <= u16::MAX,
    ensures
        final(edits).wf(),
        ({
            let scale = old(wallet).subdivide_scale;
            &&& removed == if scale_divisions(scale) > 1 {
                sub_entry(old(edits)@, hit)
            } else {
                None
            }
            &&& removed is None ==> final(edits)@ == old(edits)@ && *final(wallet) == *old(wallet)
                && final(inventory)@ == old(inventory)@
            &&& removed matches Some(b) ==> {
                &&& final(edits)@ == (EditsView {
                    sub_cells: cells_without(old(edits)@.sub_cells, hit),
                    ..old(edits)@
                })
                &&& lookup(final(edits)@.sub_cells, hit) is None
                &&& refunded(
                    *old(wallet),
                    old(inventory)@,
                    *final(wallet),
                    final(inventory)@,
                    b,
                    scale_cost(scale) as int,
                )
            }
        }),
{
    let scale = wallet.subdivide_scale;
    let divisions = scale_divisions_of(scale);
    if divisions <= 1 {
        return None;
    }
    let ghost before = edits@;
    let removed = edits.clear_sub_block_i64(hit.x, hit.y, hit.z, hit.divisions, hit.sx, hit.sy, hit.sz);
    match removed {
        Some(block) => {
            wallet.refund_sub_units(inventory, block, scale_cost_of(scale));
        },
        None => {
            proof {
                if lookup(before.sub_cells, hit) is None {
                    lemma_clear_absent(before, hit);
                }
            }
        },
    }
    removed
}

/// Clearing a sub-cell where nothing is placed leaves the cells as they are.
proof fn lemma_clear_absent(v: EditsView, pos: SubBlockPos)
    requires
        lookup(v.sub_cells, pos) is None,
    ensures
        cells_without(v.sub_cells, pos) == v.sub_cells,
{
}

} // verus!
