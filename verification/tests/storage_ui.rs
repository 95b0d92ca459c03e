use subdivism::ui::adjusted_ldo_start;
use subdivism::game::inventory::{Inventory, InventorySlot};
use subdivism::game::world::storage::SubOverrideState;
use subdivism::game::world::{Block, SubBlockPos};
use subdivism::ui::lod::aligned_origin;
use subdivism::ui::{
    adjusted_render_distance, cycle_frame_cap, frame_cap_label, frame_cap_preset, max_chunk_requests_in_flight,
    max_chunk_uploads_per_frame, BuildModeState, CameraMode, InventoryAction, InventoryCursor, InventoryKey,
    InventorySection, MenuAction, MenuKey, MenuPage, MenuState, SessionNetMode, SubdivideScale, UiMode,
};

fn sub(x: i64, y: i32, z: i64, sx: u8) -> SubBlockPos {
    SubBlockPos { x, y, z, divisions: 3, sx, sy: 0, sz: 1 }
}

#[test]
fn sub_block_overrides_store_and_forget_pieces() {
    let mut state = SubOverrideState::new();
    state.insert(sub(1, 2, 3, 0), Block::Stone);
    state.insert(sub(1, 2, 3, 1), Block::Dirt);
    state.insert(sub(-4, 0, 9, 2), Block::Grass);
    assert_eq!(state.get(&sub(1, 2, 3, 0)), Some(Block::Stone));
    state.insert(sub(1, 2, 3, 0), Block::Grass);
    assert_eq!(state.get(&sub(1, 2, 3, 0)), Some(Block::Grass));
    assert_eq!(state.entries_in_cell(1, 2, 3).len(), 2);
    assert!(state.has_entries_in_cell(-4, 0, 9));
    assert_eq!(state.iter_all().len(), 3);
    assert_eq!(state.remove(&sub(1, 2, 3, 1)), Some(Block::Dirt));
    assert_eq!(state.remove(&sub(1, 2, 3, 1)), None);
    assert_eq!(state.get(&sub(1, 2, 3, 1)), None);
    state.remove_cell(1, 2, 3);
    assert!(!state.has_entries_in_cell(1, 2, 3));
    assert_eq!(state.get(&sub(1, 2, 3, 0)), None);
    assert_eq!(state.iter_all(), vec![(sub(-4, 0, 9, 2), Block::Grass)]);
}

#[test]
fn menu_navigation_wraps_and_reports_actions() {
    let mut menu = MenuState::new();
    assert_eq!(menu.ui_mode, UiMode::Playing);
    menu.open_pause_menu();
    assert_eq!(menu.ui_mode, UiMode::Paused);
    assert_eq!(menu.handle_menu_navigation(MenuKey::Up, 4), MenuAction::Idle);
    assert_eq!(menu.index, 3);
    assert_eq!(menu.handle_menu_navigation(MenuKey::Down, 4), MenuAction::Idle);
    assert_eq!(menu.index, 0);
    assert_eq!(menu.handle_menu_navigation(MenuKey::Left, 4), MenuAction::AdjustValue(-1));
    assert_eq!(menu.handle_menu_navigation(MenuKey::Enter, 4), MenuAction::Activate);
    assert_eq!(menu.handle_menu_navigation(MenuKey::Escape, 4), MenuAction::Back);
    menu.page = MenuPage::Graphics;
    menu.index = 2;
    menu.menu_back_or_resume();
    assert_eq!(menu.page, MenuPage::Settings);
    assert_eq!(menu.index, 0);
    menu.menu_back_or_resume();
    assert_eq!(menu.page, MenuPage::Main);
    menu.menu_back_or_resume();
    assert_eq!(menu.ui_mode, UiMode::Playing);
}

#[test]
fn inventory_cursor_moves_between_hotbar_and_backpack() {
    let mut inventory = Inventory::new();
    inventory.select_index(5);
    let mut cursor = InventoryCursor::on_selected_slot(&inventory);
    assert_eq!(cursor, InventoryCursor { section: InventorySection::Hotbar, index: 5 });
    assert_eq!(cursor.handle_inventory_navigation(InventoryKey::Right), InventoryAction::Idle);
    assert_eq!(cursor.index, 6);
    cursor.handle_inventory_navigation(InventoryKey::Right);
    cursor.handle_inventory_navigation(InventoryKey::Right);
    assert_eq!(cursor.index, 0);
    cursor.handle_inventory_navigation(InventoryKey::Down);
    assert_eq!(cursor.section, InventorySection::Backpack);
    cursor.handle_inventory_navigation(InventoryKey::Up);
    assert_eq!(cursor.section, InventorySection::Hotbar);
    assert_eq!(cursor.handle_inventory_navigation(InventoryKey::Activate), InventoryAction::Activate);
    assert_eq!(cursor.handle_inventory_navigation(InventoryKey::Close), InventoryAction::Close);
    cursor.activate_inventory_selection(&mut inventory);
    assert_eq!(inventory.selected_hotbar_index(), cursor.index);
}

#[test]
fn build_mode_spends_and_refunds_sub_units() {
    let mut inventory = Inventory::new();
    inventory.set_hotbar_slot(0, InventorySlot { block: Block::Stone, count: 2 });
    inventory.select_index(0);
    let mut build = BuildModeState::new();
    assert_eq!(build.subdivide_scale, SubdivideScale::Full);
    assert!(build.spend_sub_units(&mut inventory, Block::Stone, 2));
    assert_eq!(inventory.hotbar()[0].count, 1);
    assert_eq!(build.sub_unit_wallet[Block::Stone.to_id() as usize], 4);
    assert!(build.spend_sub_units(&mut inventory, Block::Stone, 9));
    assert_eq!(inventory.hotbar()[0].count, 0);
    assert_eq!(build.sub_unit_wallet[Block::Stone.to_id() as usize], 1);
    assert!(!build.spend_sub_units(&mut inventory, Block::Stone, 6));
    build.refund_sub_units(&mut inventory, Block::Stone, 11);
    assert_eq!(build.sub_unit_wallet[Block::Stone.to_id() as usize], 0);
    let stones: u32 = inventory.hotbar().iter().filter(|s| s.block == Block::Stone).map(|s| s.count).sum();
    assert_eq!(stones, 2);
    build.refund_sub_units(&mut inventory, Block::Water, 6);
    assert_eq!(build.sub_unit_wallet[Block::Water.to_id() as usize], 0);
}

#[test]
fn scales_labels_and_frame_caps() {
    assert_eq!(CameraMode::Free.label(), "free");
    assert_eq!(SubdivideScale::Full.cycle(-1), SubdivideScale::Sixths);
    assert_eq!(SubdivideScale::Thirds.divisions(), 3);
    assert_eq!(SubdivideScale::Sixths.piece_cost_units(), 1);
    assert_eq!(SubdivideScale::Sixths.label(), "6X6");
    assert!(!SessionNetMode::Solo.prediction_enabled());
    assert!(SessionNetMode::JoinLocal.prediction_enabled());
    assert_eq!(SessionNetMode::HostLocal.menu_label(), "HOST LOCAL SERVER");
    assert_eq!(frame_cap_preset(0), None);
    assert_eq!(frame_cap_preset(3), Some(144));
    assert_eq!(cycle_frame_cap(4), 0);
    assert_eq!(frame_cap_label(Some(60)), "60 FPS cap");
    assert_eq!(frame_cap_label(None), "uncapped");
}

#[test]
fn streaming_budgets_follow_render_distance() {
    assert_eq!(adjusted_render_distance(24, 4), 28);
    assert_eq!(adjusted_render_distance(3, -5), 2);
    assert_eq!(adjusted_render_distance(127, 8), 128);
    assert_eq!(max_chunk_requests_in_flight(2, false), 192);
    assert_eq!(max_chunk_requests_in_flight(24, false), 368);
    assert_eq!(max_chunk_requests_in_flight(24, true), 736);
    assert_eq!(max_chunk_requests_in_flight(500, false), 2048);
    assert_eq!(max_chunk_uploads_per_frame(24, false), 11);
    assert_eq!(max_chunk_uploads_per_frame(24, true), 23);
    assert_eq!(max_chunk_uploads_per_frame(1000, true), 64);
}

#[test]
fn tile_origins_align_down() {
    assert_eq!(aligned_origin((5, -5), 4), (4, -8));
    assert_eq!(aligned_origin((-1, 0), 8), (-8, 0));
    assert_eq!(aligned_origin((7, 9), 1), (7, 9));
}

#[test]
fn menu_index_past_the_items_steps_like_any_other() {
    let mut menu = MenuState::new();
    menu.index = 7;
    assert_eq!(menu.handle_menu_navigation(MenuKey::Down, 4), MenuAction::Idle);
    assert_eq!(menu.index, 0);
    menu.index = 7;
    assert_eq!(menu.handle_menu_navigation(MenuKey::Up, 4), MenuAction::Idle);
    assert_eq!(menu.index, 6);
}

#[test]
fn ldo_start_steps_stay_in_range() {
    assert_eq!(adjusted_ldo_start(16, 1), 17);
    assert_eq!(adjusted_ldo_start(6, -1), 6);
    assert_eq!(adjusted_ldo_start(48, 3), 48);
    assert_eq!(adjusted_ldo_start(100, -10), 48);
}
