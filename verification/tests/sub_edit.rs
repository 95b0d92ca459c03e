use subdivism::game::interact::{neighbor_sub_target, FaceNormal, SubTarget};
use subdivism::game::inventory::{Inventory, InventorySlot};
use subdivism::game::world::edits::WorldEdits;
use subdivism::game::world::{Block, SubBlockPos};
use subdivism::ui::sub_edit::{place_sub_block, remove_sub_block};
use subdivism::ui::{BuildModeState, SubdivideScale};

fn target(base: (i64, i32, i64), sx: u8, sy: u8, sz: u8) -> SubTarget {
    SubTarget { base, sx, sy, sz }
}

fn stone_units(wallet: &BuildModeState) -> u16 {
    wallet.sub_unit_wallet[Block::Stone.to_id() as usize]
}

#[test]
fn neighbor_steps_within_and_across_cells() {
    let hit = target((5, 10, 5), 2, 1, 0);
    let east = neighbor_sub_target(hit, 3, FaceNormal { x: 1, y: 0, z: 0 }).unwrap();
    assert_eq!(east, target((6, 10, 5), 0, 1, 0));
    let north = neighbor_sub_target(hit, 3, FaceNormal { x: 0, y: 0, z: -1 }).unwrap();
    assert_eq!(north, target((5, 10, 4), 2, 1, 2));
    let up = neighbor_sub_target(hit, 3, FaceNormal { x: 0, y: 1, z: 0 }).unwrap();
    assert_eq!(up, target((5, 10, 5), 2, 2, 0));
    let west = neighbor_sub_target(hit, 3, FaceNormal { x: -1, y: 0, z: 0 }).unwrap();
    assert_eq!(west, target((5, 10, 5), 1, 1, 0));
}

#[test]
fn neighbor_from_finer_split_wraps_forward() {
    let hit = target((0, 0, 0), 5, 0, 0);
    let t = neighbor_sub_target(hit, 3, FaceNormal { x: 0, y: 0, z: 1 }).unwrap();
    assert_eq!(t, target((1, 0, 0), 0, 0, 1));
}

#[test]
fn neighbor_above_the_world_is_refused() {
    let top = target((0, 320, 0), 0, 2, 0);
    assert_eq!(neighbor_sub_target(top, 3, FaceNormal { x: 0, y: 1, z: 0 }), None);
    let bottom = target((0, -64, 0), 0, 0, 0);
    assert_eq!(neighbor_sub_target(bottom, 6, FaceNormal { x: 0, y: -1, z: 0 }), None);
    assert_eq!(
        neighbor_sub_target(bottom, 6, FaceNormal { x: 0, y: 1, z: 0 }),
        Some(target((0, -64, 0), 0, 1, 0))
    );
}

#[test]
fn placing_pays_from_the_selected_stack() {
    let mut edits = WorldEdits::new();
    let mut wallet = BuildModeState::new();
    wallet.subdivide_scale = SubdivideScale::Thirds;
    let mut inventory = Inventory::new();
    assert!(place_sub_block(&mut edits, &mut wallet, &mut inventory, target((0, 10, 0), 1, 0, 2), false, false));
    assert_eq!(edits.sub_block_i64(0, 10, 0, 3, 1, 0, 2), Some(Block::Stone));
    assert_eq!(inventory.hotbar()[0].count, 31);
    assert_eq!(stone_units(&wallet), 4);
    assert!(place_sub_block(&mut edits, &mut wallet, &mut inventory, target((0, 10, 0), 2, 0, 2), false, false));
    assert_eq!(inventory.hotbar()[0].count, 31);
    assert_eq!(stone_units(&wallet), 2);
}

#[test]
fn placing_is_refused_without_change() {
    let mut edits = WorldEdits::new();
    let mut wallet = BuildModeState::new();
    let mut inventory = Inventory::new();
    let t = target((0, 10, 0), 1, 1, 1);
    assert!(!place_sub_block(&mut edits, &mut wallet, &mut inventory, t, false, false));
    wallet.subdivide_scale = SubdivideScale::Sixths;
    assert!(!place_sub_block(&mut edits, &mut wallet, &mut inventory, t, true, false));
    assert!(!place_sub_block(&mut edits, &mut wallet, &mut inventory, t, false, true));
    assert!(!place_sub_block(&mut edits, &mut wallet, &mut inventory, target((0, 400, 0), 1, 1, 1), false, false));
    assert!(!place_sub_block(&mut edits, &mut wallet, &mut inventory, target((0, 10, 0), 6, 1, 1), false, false));
    inventory.select_index(5);
    assert!(!place_sub_block(&mut edits, &mut wallet, &mut inventory, t, false, false));
    assert_eq!(edits.sub_blocks_in_cell(0, 10, 0).len(), 0);
    assert_eq!(inventory.hotbar()[0].count, 32);
    assert_eq!(stone_units(&wallet), 0);
}

#[test]
fn failed_payment_clears_the_piece_again() {
    let mut edits = WorldEdits::new();
    let mut wallet = BuildModeState::new();
    wallet.subdivide_scale = SubdivideScale::Thirds;
    let mut inventory = Inventory::new();
    assert!(inventory.set_hotbar_slot(0, InventorySlot { block: Block::Stone, count: 0 }));
    assert!(!place_sub_block(&mut edits, &mut wallet, &mut inventory, target((2, 3, 4), 0, 0, 0), false, false));
    assert_eq!(edits.sub_block_i64(2, 3, 4, 3, 0, 0, 0), None);
    assert_eq!(edits.sub_blocks_in_cell(2, 3, 4).len(), 0);
}

#[test]
fn removing_refunds_the_piece() {
    let mut edits = WorldEdits::new();
    let mut wallet = BuildModeState::new();
    wallet.subdivide_scale = SubdivideScale::Thirds;
    let mut inventory = Inventory::new();
    assert!(place_sub_block(&mut edits, &mut wallet, &mut inventory, target((0, 10, 0), 1, 0, 2), false, false));
    assert_eq!(stone_units(&wallet), 4);
    let pos = SubBlockPos { x: 0, y: 10, z: 0, divisions: 3, sx: 1, sy: 0, sz: 2 };
    assert_eq!(remove_sub_block(&mut edits, &mut wallet, &mut inventory, pos), Some(Block::Stone));
    assert_eq!(edits.sub_block_i64(0, 10, 0, 3, 1, 0, 2), None);
    assert_eq!(stone_units(&wallet), 0);
    assert_eq!(inventory.hotbar()[0].count, 32);
    assert_eq!(remove_sub_block(&mut edits, &mut wallet, &mut inventory, pos), None);
    wallet.subdivide_scale = SubdivideScale::Full;
    assert!(!place_sub_block(&mut edits, &mut wallet, &mut inventory, target((0, 10, 0), 1, 0, 2), false, false));
}
