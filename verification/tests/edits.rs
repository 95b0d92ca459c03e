use subdivism::game::world::edits::WorldEdits;
use subdivism::game::world::Block;

#[test]
fn world_edits_place_blocks_and_sub_blocks() {
    let mut edits = WorldEdits::new();
    assert_eq!(edits.edited_block_at(1, 5, 1), None);
    assert_eq!(edits.edited_block_at(1, 400, 1), Some(Block::Air));
    assert!(edits.set_sub_block_i64(1, 5, 1, 3, 0, 1, 2, Block::Stone));
    assert!(edits.set_sub_block_i64(1, 5, 1, 3, 2, 2, 2, Block::Dirt));
    assert!(!edits.set_sub_block_i64(1, 5, 1, 4, 0, 0, 0, Block::Dirt));
    assert!(!edits.set_sub_block_i64(1, 999, 1, 3, 0, 0, 0, Block::Dirt));
    assert_eq!(edits.sub_block_i64(1, 5, 1, 3, 0, 1, 2), Some(Block::Stone));
    assert_eq!(edits.sub_blocks_in_cell(1, 5, 1).len(), 2);
    assert_eq!(edits.clear_sub_block_i64(1, 5, 1, 3, 2, 2, 2), Some(Block::Dirt));
    assert_eq!(edits.clear_sub_block_i64(1, 5, 1, 3, 2, 2, 2), None);
    assert_eq!(edits.clear_sub_block_i64(1, 5, 1, 7, 0, 0, 0), None);

    edits.set_block_i64(1, 5, 1, Block::Grass);
    assert_eq!(edits.edited_block_at(1, 5, 1), Some(Block::Grass));
    assert!(edits.sub_blocks_in_cell(1, 5, 1).is_empty());
    assert_eq!(edits.sub_block_i64(1, 5, 1, 3, 0, 1, 2), None);

    edits.set_block_i64(2, 5, 1, Block::Stone);
    edits.set_block_i64(1, 5, 1, Block::Air);
    assert_eq!(edits.edited_block_at(1, 5, 1), Some(Block::Air));
    assert_eq!(edits.edited_block_at(2, 5, 1), Some(Block::Stone));
    edits.set_block_i64(2, -65, 1, Block::Stone);
    assert_eq!(edits.edited_block_at(2, -65, 1), Some(Block::Air));
    assert!(edits.sub_blocks_in_cell(2, -65, 1).is_empty());
}
