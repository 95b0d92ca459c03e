use subdivism::game::inventory::{Inventory, InventorySlot, BACKPACK_SIZE, HOTBAR_SIZE, STACK_LIMIT};
use subdivism::game::world::Block;

#[test]
fn block_pickup_prefers_hotbar_then_backpack() {
    let mut inventory = Inventory::new();
    for index in 0..HOTBAR_SIZE {
        assert!(inventory.set_hotbar_slot(index, InventorySlot { block: Block::Stone, count: STACK_LIMIT }));
    }
    for index in 0..BACKPACK_SIZE {
        assert!(inventory.set_backpack_slot(index, InventorySlot { block: Block::Air, count: 0 }));
    }

    assert!(inventory.add_block(Block::Grass));
    let backpack_used = inventory
        .backpack()
        .iter()
        .any(|slot| slot.block == Block::Grass && slot.count == 1);
    assert!(backpack_used);
}

#[test]
fn moving_backpack_stack_to_hotbar_swaps_or_merges() {
    let mut inventory = Inventory::new();
    inventory.set_hotbar_slot(0, InventorySlot { block: Block::Dirt, count: 10 });
    inventory.set_backpack_slot(0, InventorySlot { block: Block::Dirt, count: 5 });

    assert!(inventory.move_backpack_slot_to_hotbar(0, 0));
    assert_eq!(inventory.hotbar()[0].count, 15);
    assert!(inventory.backpack()[0].is_empty());
}

#[test]
fn new_inventory_starts_with_three_stacks() {
    let inventory = Inventory::new();
    assert_eq!(inventory.selected_hotbar_index(), 0);
    let first = inventory.selected_slot();
    assert_eq!((first.block, first.count), (Block::Stone, 32));
    assert_eq!(inventory.filled_slots(), 3);
    assert_eq!(inventory.slot_capacity(), HOTBAR_SIZE + BACKPACK_SIZE);
    assert!(inventory.backpack_slot(0).unwrap().is_empty());
    assert!(inventory.backpack_slot(BACKPACK_SIZE).is_none());
}

#[test]
fn taking_from_the_selected_slot_empties_it_at_zero() {
    let mut inventory = Inventory::new();
    inventory.set_hotbar_slot(3, InventorySlot { block: Block::Dirt, count: 1 });
    inventory.select_index(3);
    inventory.select_index(HOTBAR_SIZE);
    assert_eq!(inventory.selected_hotbar_index(), 3);
    assert!(!inventory.try_take_selected_matching(Block::Stone));
    assert_eq!(inventory.try_take_selected(), Some(Block::Dirt));
    assert_eq!(inventory.selected_slot().block, Block::Air);
    assert_eq!(inventory.try_take_selected(), None);
    assert!(!inventory.try_take_selected_matching(Block::Dirt));
    inventory.select_index(0);
    assert!(inventory.try_take_selected_matching(Block::Stone));
    assert_eq!(inventory.selected_slot().count, 31);
}

#[test]
fn picking_up_fills_stacks_then_empty_slots_and_refuses_air() {
    let mut inventory = Inventory::new();
    assert!(!inventory.add_block(Block::Air));
    assert!(inventory.add_block(Block::Stone));
    assert_eq!(inventory.hotbar()[0].count, 33);
    assert!(inventory.add_block(Block::Deepslate));
    assert_eq!((inventory.hotbar()[3].block, inventory.hotbar()[3].count), (Block::Deepslate, 1));
    let mut full = Inventory::new();
    for index in 0..HOTBAR_SIZE {
        full.set_hotbar_slot(index, InventorySlot { block: Block::Stone, count: STACK_LIMIT });
    }
    for index in 0..BACKPACK_SIZE {
        full.set_backpack_slot(index, InventorySlot { block: Block::Dirt, count: STACK_LIMIT });
    }
    assert!(!full.add_block(Block::Grass));
    assert_eq!(full.filled_slots(), HOTBAR_SIZE + BACKPACK_SIZE);
}

#[test]
fn moving_a_different_stack_swaps_and_a_full_merge_leaves_the_rest() {
    let mut inventory = Inventory::new();
    inventory.set_backpack_slot(4, InventorySlot { block: Block::Grass, count: 7 });
    assert!(inventory.move_backpack_slot_to_hotbar(4, 0));
    assert_eq!((inventory.hotbar()[0].block, inventory.hotbar()[0].count), (Block::Grass, 7));
    assert_eq!((inventory.backpack()[4].block, inventory.backpack()[4].count), (Block::Stone, 32));
    inventory.set_hotbar_slot(1, InventorySlot { block: Block::Stone, count: 90 });
    assert!(inventory.move_backpack_slot_to_hotbar(4, 1));
    assert_eq!(inventory.hotbar()[1].count, 99);
    assert_eq!(inventory.backpack()[4].count, 23);
    assert!(!inventory.move_backpack_slot_to_hotbar(5, 1));
    assert!(!inventory.move_backpack_slot_to_hotbar(BACKPACK_SIZE, 0));
}

#[test]
fn setting_a_slot_past_a_full_stack_is_refused() {
    let mut inventory = Inventory::new();
    assert!(!inventory.set_hotbar_slot(0, InventorySlot { block: Block::Stone, count: STACK_LIMIT + 1 }));
    assert!(!inventory.set_backpack_slot(0, InventorySlot { block: Block::Dirt, count: 1000 }));
    assert_eq!(inventory.hotbar()[0].count, 32);
    assert!(inventory.hotbar().iter().chain(inventory.backpack().iter()).all(|s| s.count <= STACK_LIMIT));
}
