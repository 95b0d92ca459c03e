//! The player's edits to a world: whole blocks placed or removed, and
//! sub-blocks placed into block cells. Generated terrain shows wherever no
//! edit says otherwise.
use vstd::prelude::*;

use crate::game::world::storage::{
    cell_entries, cells_with, cells_without, cells_without_cell, cells_wf, find_cell, lemma_find_cell_found,
    lookup, CellList, SubOverrideState,
};
use crate::game::world::{contains_world_y, spec_contains_world_y, spec_valid_sub_coords, valid_sub_coords, Block, BlockPos, SubBlockPos};

verus! {

/// Index of the edit of block cell `pos`.
pub open spec fn find_block(blocks: Seq<(BlockPos, Block)>, pos: BlockPos) -> Option<int>
    decreases blocks.len(),
{
    if blocks.len() == 0 {
        None
    } else if blocks.last().0 == pos {
        Some(blocks.len() - 1)
    } else {
        find_block(blocks.drop_last(), pos)
    }
}

/// The block the edits put at `pos`, if any.
pub open spec fn block_edit(blocks: Seq<(BlockPos, Block)>, pos: BlockPos) -> Option<Block> {
    match find_block(blocks, pos) {
        Some(i) => Some(blocks[i].1),
        None => None,
    }
}

/// The block edits after `pos` is set to `block`: an edit already there is
/// replaced in place, a new one goes last.
pub open spec fn blocks_with(blocks: Seq<(BlockPos, Block)>, pos: BlockPos, block: Block) -> Seq<(BlockPos, Block)> {
    match find_block(blocks, pos) {
        Some(i) => blocks.update(i, (pos, block)),
        None => blocks.push((pos, block)),
    }
}

/// No block cell is edited twice.
pub open spec fn blocks_wf(blocks: Seq<(BlockPos, Block)>) -> bool {
    forall|i: int, j: int| 0 <= i < j < blocks.len() ==> #[trigger] blocks[i].0 != #[trigger] blocks[j].0
}

/// The edits as plain values: block edits in the order first made, and the
/// sub-block cells.
pub ghost struct EditsView {
    pub blocks: Seq<(BlockPos, Block)>,
    pub sub_cells: CellList,
}

/// Where the block at a position comes from.
pub open spec fn edited_block(v: EditsView, x: i64, y: i32, z: i64) -> Option<Block> {
    if !spec_contains_world_y(y as int) {
        Some(Block::Air)
    } else {
        block_edit(v.blocks, BlockPos { x, y, z })
    }
}

proof fn lemma_find_block_found(blocks: Seq<(BlockPos, Block)>, pos: BlockPos)
    requires
        find_block(blocks, pos) is Some,
    ensures
        0 <= find_block(blocks, pos)->0 < blocks.len(),
        blocks[find_block(blocks, pos)->0].0 == pos,
    decreases blocks.len(),
{
    if blocks.last().0 != pos {
        lemma_find_block_found(blocks.drop_last(), pos);
    }
}

proof fn lemma_find_block_none(blocks: Seq<(BlockPos, Block)>, pos: BlockPos)
    requires
        find_block(blocks, pos) is None,
    ensures
        forall|i: int| 0 <= i < blocks.len() ==> (#[trigger] blocks[i]).0 != pos,
    decreases blocks.len(),
{
    if blocks.len() > 0 {
        lemma_find_block_none(blocks.drop_last(), pos);
        assert forall|i: int| 0 <= i < blocks.len() implies (#[trigger] blocks[i]).0 != pos by {
            if i < blocks.len() - 1 {
                assert(blocks[i] == blocks.drop_last()[i]);
            }
        }
    }
}

proof fn lemma_find_block_at(blocks: Seq<(BlockPos, Block)>, i: int)
    requires
        0 <= i < blocks.len(),
        blocks_wf(blocks),
    ensures
        find_block(blocks, blocks[i].0) == Some(i),
    decreases blocks.len(),
{
    if i < blocks.len() - 1 {
        let d = blocks.drop_last();
        assert(blocks[i] == d[i]);
        assert forall|a: int, b: int| 0 <= a < b < d.len() implies #[trigger] d[a].0 != #[trigger] d[b].0 by {
            assert(d[a] == blocks[a] && d[b] == blocks[b]);
        }
        lemma_find_block_at(d, i);
    }
}

/// Setting a block edit keeps edits distinct, and reads back: the cell gets
/// the new block, every other cell keeps its edit.
pub proof fn lemma_blocks_with(blocks: Seq<(BlockPos, Block)>, pos: BlockPos, block: Block, other: BlockPos)
    requires
        blocks_wf(blocks),
    ensures
        blocks_wf(blocks_with(blocks, pos, block)),
        block_edit(blocks_with(blocks, pos, block), pos) == Some(block),
        other != pos ==> block_edit(blocks_with(blocks, pos, block), other) == block_edit(blocks, other),
{
    let nb = blocks_with(blocks, pos, block);
    match find_block(blocks, pos) {
        Some(i) => {
            lemma_find_block_found(blocks, pos);
            assert(blocks_wf(nb));
            lemma_find_block_at(nb, i);
            if other != pos {
                match find_block(blocks, other) {
                    Some(j) => {
                        lemma_find_block_found(blocks, other);
                        lemma_find_block_at(nb, j);
                    },
                    None => {
                        lemma_find_block_none(blocks, other);
                        if find_block(nb, other) is Some {
                            lemma_find_block_found(nb, other);
                        }
                    },
                }
            }
        },
        None => {
            lemma_find_block_none(blocks, pos);
            assert(blocks_wf(nb));
            lemma_find_block_at(nb, blocks.len() as int);
            if other != pos {
                match find_block(blocks, other) {
                    Some(j) => {
                        lemma_find_block_found(blocks, other);
                        lemma_find_block_at(nb, j);
                    },
                    None => {
                        lemma_find_block_none(blocks, other);
                        if find_block(nb, other) is Some {
                            lemma_find_block_found(nb, other);
                        }
                    },
                }
            }
        },
    }
}

/// Clearing a cell leaves it without sub-blocks.
proof fn lemma_cell_cleared(cells: CellList, c: BlockPos)
    requires
        cells_wf(cells),
    ensures
        cell_entries(cells_without_cell(cells, c), c).len() == 0,
{
    match find_cell(cells, c) {
        Some(i) => {
            lemma_find_cell_found(cells, c);
            let t = cells.remove(i);
            if find_cell(t, c) is Some {
                lemma_find_cell_found(t, c);
                let j = find_cell(t, c)->0;
                if j < i {
                    assert(t[j] == cells[j]);
                } else {
                    assert(t[j] == cells[j + 1]);
                }
            }
        },
        None => {},
    }
}

/// A sub-block position other than `pos`.
spec fn another_sub_pos(pos: SubBlockPos) -> SubBlockPos {
    SubBlockPos { x: if pos.x == 0 { 1 } else { 0 }, ..pos }
}

/// Index of the edit of cell `pos` (see `find_block`).
fn block_index(blocks: &Vec<(BlockPos, Block)>, pos: BlockPos) -> (i: Option<usize>)
    ensures
        match i {
            Some(k) => find_block(blocks@, pos) == Some(k as int) && k < blocks@.len(),
            None => find_block(blocks@, pos) is None,
        },
{
    let mut i = blocks.len();
    proof {
        assert(blocks@.subrange(0, i as int) =~= blocks@);
    }
    while i > 0
        invariant
            i <= blocks@.len(),
            find_block(blocks@, pos) == find_block(blocks@.subrange(0, i as int), pos),
        decreases i,
    {
        let ghost pre = blocks@.subrange(0, i as int);
        proof {
            assert(pre.drop_last() =~= blocks@.subrange(0, i - 1));
        }
        if blocks[i - 1].0 == pos {
            proof {
                assert(find_block(pre, pos) == Some(i - 1));
            }
            return Some(i - 1);
        }
        i = i - 1;
    }
    proof {
        assert(blocks@.subrange(0, 0) =~= Seq::<(BlockPos, Block)>::empty());
    }
    None
}

/// The edits to one world.
pub struct WorldEdits {
    blocks: Vec<(BlockPos, Block)>,
    sub_blocks: SubOverrideState,
}

impl View for WorldEdits {
    type V = EditsView;

    closed spec fn view(&self) -> EditsView {
        EditsView { blocks: self.blocks@, sub_cells: self.sub_blocks@ }
    }
}

/// The sub-block at the given coordinates, as a position.
pub open spec fn sub_pos(x: i64, y: i32, z: i64, divisions: u8, sx: u8, sy: u8, sz: u8) -> SubBlockPos {
    SubBlockPos { x, y, z, divisions, sx, sy, sz }
}

impl WorldEdits {
    /// Edits are distinct and the sub-blocks consistently bucketed.
    pub closed spec fn wf(&self) -> bool {
        &&& blocks_wf(self.blocks@)
        &&& self.sub_blocks.wf()
    }

    /// Well-formed edits keep their sub-block cells consistently bucketed.
    pub proof fn lemma_wf_cells(&self)
        requires
            self.wf(),
        ensures
            cells_wf(self@.sub_cells),
    {
    }

    /// No edits.
    pub fn new() -> (e: Self)
        ensures
            e.wf(),
            e@.blocks.len() == 0,
            e@.sub_cells.len() == 0,
    {
        WorldEdits { blocks: Vec::new(), sub_blocks: SubOverrideState::new() }
    }

    /// Where the block at `(x, y, z)` comes from: `Air` above or below the
    /// world, the edited block where there is one, and `None` where the
    /// generated terrain decides.
    pub fn edited_block_at(&self, x: i64, y: i32, z: i64) -> (b: Option<Block>)
        requires
            self.wf(),
        ensures
            b == edited_block(self@, x, y, z),
    {
        if !contains_world_y(y) {
            return Some(Block::Air);
        }
        let pos = BlockPos { x, y, z };
        match block_index(&self.blocks, pos) {
            Some(i) => Some(self.blocks[i].1),
            None => None,
        }
    }

    /// Puts `block` at `(x, y, z)` and clears the sub-blocks of that cell;
    /// outside the world's height nothing changes.
    pub fn set_block_i64(&mut self, x: i64, y: i32, z: i64, block: Block)
        requires
            old(self).wf(),
        ensures
            final(self).wf(),
            !spec_contains_world_y(y as int) ==> final(self)@ == old(self)@,
            spec_contains_world_y(y as int) ==> {
                &&& final(self)@.blocks == blocks_with(old(self)@.blocks, BlockPos { x, y, z }, block)
                &&& final(self)@.sub_cells == cells_without_cell(old(self)@.sub_cells, BlockPos { x, y, z })
                &&& edited_block(final(self)@, x, y, z) == Some(block)
                &&& cell_entries(final(self)@.sub_cells, BlockPos { x, y, z }).len() == 0
            },
    {
        if !contains_world_y(y) {
            return;
        }
        let pos = BlockPos { x, y, z };
        let ghost old_blocks = self.blocks@;
        match block_index(&self.blocks, pos) {
            Some(i) => {
                self.blocks.set(i, (pos, block));
            },
            None => {
                self.blocks.push((pos, block));
            },
        }
        proof {
            assert(self.blocks@ =~= blocks_with(old_blocks, pos, block));
            lemma_blocks_with(old_blocks, pos, block, pos);
            lemma_cell_cleared(self.sub_blocks@, pos);
        }
        self.sub_blocks.remove_cell(x, y, z);
    }

    /// Places `block` at a sub-block; false, with nothing changed, outside
    /// the world's height or for coordinates that are not a sub-cell.
    pub fn set_sub_block_i64(&mut self, x: i64, y: i32, z: i64, divisions: u8, sx: u8, sy: u8, sz: u8, block: Block) -> (placed: bool)
        requires
            old(self).wf(),
        ensures
            final(self).wf(),
            placed == (spec_contains_world_y(y as int) && spec_valid_sub_coords(divisions, sx, sy, sz)),
            !placed ==> final(self)@ == old(self)@,
            placed ==> final(self)@ == (EditsView {
                sub_cells: cells_with(old(self)@.sub_cells, sub_pos(x, y, z, divisions, sx, sy, sz), block),
                ..old(self)@
            }),
            placed ==> lookup(final(self)@.sub_cells, sub_pos(x, y, z, divisions, sx, sy, sz)) == Some(block),
    {
        if !contains_world_y(y) || !valid_sub_coords(divisions, sx, sy, sz) {
            return false;
        }
        let pos = SubBlockPos { x, y, z, divisions, sx, sy, sz };
        self.sub_blocks.insert(pos, block);
        proof {
            crate::game::world::storage::lemma_insert_then_lookup(old(self)@.sub_cells, pos, block, another_sub_pos(pos));
        }
        true
    }

    /// Clears a sub-block and returns what was there; `None`, with nothing
    /// changed, outside the world's height or for coordinates that are not a
    /// sub-cell.
    pub fn clear_sub_block_i64(&mut self, x: i64, y: i32, z: i64, divisions: u8, sx: u8, sy: u8, sz: u8) -> (removed: Option<Block>)
        requires
            old(self).wf(),
        ensures
            final(self).wf(),
            !(spec_contains_world_y(y as int) && spec_valid_sub_coords(divisions, sx, sy, sz)) ==> removed is None
                && final(self)@ == old(self)@,
            spec_contains_world_y(y as int) && spec_valid_sub_coords(divisions, sx, sy, sz) ==> {
                &&& removed == lookup(old(self)@.sub_cells, sub_pos(x, y, z, divisions, sx, sy, sz))
                &&& final(self)@ == (EditsView {
                    sub_cells: cells_without(old(self)@.sub_cells, sub_pos(x, y, z, divisions, sx, sy, sz)),
                    ..old(self)@
                })
                &&& lookup(final(self)@.sub_cells, sub_pos(x, y, z, divisions, sx, sy, sz)) is None
            },
    {
        if !contains_world_y(y) || !valid_sub_coords(divisions, sx, sy, sz) {
            return None;
        }
        let pos = SubBlockPos { x, y, z, divisions, sx, sy, sz };
        let removed = self.sub_blocks.remove(&pos);
        proof {
            crate::game::world::storage::lemma_remove_then_lookup(old(self)@.sub_cells, pos, another_sub_pos(pos));
        }
        removed
    }

    /// The block at a sub-block; `None` outside the world's height, for
    /// coordinates that are not a sub-cell, or where nothing was placed.
    pub fn sub_block_i64(&self, x: i64, y: i32, z: i64, divisions: u8, sx: u8, sy: u8, sz: u8) -> (b: Option<Block>)
        requires
            self.wf(),
        ensures
            b == if spec_contains_world_y(y as int) && spec_valid_sub_coords(divisions, sx, sy, sz) {
                lookup(self@.sub_cells, sub_pos(x, y, z, divisions, sx, sy, sz))
            } else {
                None
            },
    {
        if !contains_world_y(y) || !valid_sub_coords(divisions, sx, sy, sz) {
            return None;
        }
        let pos = SubBlockPos { x, y, z, divisions, sx, sy, sz };
        self.sub_blocks.get(&pos)
    }

    /// The sub-blocks placed in the cell at `(x, y, z)`, in placement order;
    /// none outside the world's height.
    pub fn sub_blocks_in_cell(&self, x: i64, y: i32, z: i64) -> (entries: Vec<(SubBlockPos, Block)>)
        requires
            self.wf(),
        ensures
            entries@ == if spec_contains_world_y(y as int) {
                cell_entries(self@.sub_cells, BlockPos { x, y, z })
            } else {
                Seq::empty()
            },
    {
        if !contains_world_y(y) {
            return Vec::new();
        }
        self.sub_blocks.entries_in_cell(x, y, z)
    }
}

} // verus!
