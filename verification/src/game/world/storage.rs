//! Sub-block overrides: blocks placed into the sub-cells of whole blocks,
//! grouped by the block cell they belong to.
use vstd::prelude::*;

use crate::game::world::{Block, BlockPos, SubBlockPos};

verus! {

/// The block cell a sub-block lies in.
pub open spec fn cell_of(pos: SubBlockPos) -> BlockPos {
    BlockPos { x: pos.x, y: pos.y, z: pos.z }
}

/// The sub-blocks of one cell, in the order they were first placed.
pub struct CellSubBlocks {
    pub cell: BlockPos,
    pub entries: Vec<(SubBlockPos, Block)>,
}

/// Abstract overrides: for each cell that has sub-blocks, its entries in
/// placement order; cells in the order they first got a sub-block.
pub type CellList = Seq<(BlockPos, Seq<(SubBlockPos, Block)>)>;

/// Index of the cell `c` in `cells`.
pub open spec fn find_cell(cells: CellList, c: BlockPos) -> Option<int>
    decreases cells.len(),
{
    if cells.len() == 0 {
        None
    } else if cells.last().0 == c {
        Some(cells.len() - 1)
    } else {
        find_cell(cells.drop_last(), c)
    }
}

/// Index of the entry for `pos` in a cell's entries.
pub open spec fn find_pos(entries: Seq<(SubBlockPos, Block)>, pos: SubBlockPos) -> Option<int>
    decreases entries.len(),
{
    if entries.len() == 0 {
        None
    } else if entries.last().0 == pos {
        Some(entries.len() - 1)
    } else {
        find_pos(entries.drop_last(), pos)
    }
}

/// The entries of cell `c` (none when it has no sub-blocks).
pub open spec fn cell_entries(cells: CellList, c: BlockPos) -> Seq<(SubBlockPos, Block)> {
    match find_cell(cells, c) {
        Some(i) => cells[i].1,
        None => Seq::empty(),
    }
}

/// The block placed at sub-block `pos`, if any.
pub open spec fn lookup(cells: CellList, pos: SubBlockPos) -> Option<Block> {
    let entries = cell_entries(cells, cell_of(pos));
    match find_pos(entries, pos) {
        Some(k) => Some(entries[k].1),
        None => None,
    }
}

/// Cells are listed once, each with at least one entry, each entry lies in
/// its cell, and no sub-block is listed twice.
pub open spec fn cells_wf(cells: CellList) -> bool {
    &&& forall|i: int, j: int| 0 <= i < j < cells.len() ==> #[trigger] cells[i].0 != #[trigger] cells[j].0
    &&& forall|i: int| 0 <= i < cells.len() ==> (#[trigger] cells[i]).1.len() > 0
    &&& forall|i: int, k: int|
        0 <= i < cells.len() && 0 <= k < cells[i].1.len() ==> cell_of(#[trigger] cells[i].1[k].0) == cells[i].0
    &&& forall|i: int, k: int, l: int|
        0 <= i < cells.len() && 0 <= k < l < cells[i].1.len() ==> #[trigger] cells[i].1[k].0 != #[trigger] cells[i].1[l].0
}

/// All entries, cell after cell.
pub open spec fn all_entries(cells: CellList) -> Seq<(SubBlockPos, Block)>
    decreases cells.len(),
{
    if cells.len() == 0 {
        Seq::empty()
    } else {
        all_entries(cells.drop_last()) + cells.last().1
    }
}

/// Entries of cell `c` after `pos` is set to `block`: an entry already there
/// is updated in place, a new one goes last.
pub open spec fn entries_with(entries: Seq<(SubBlockPos, Block)>, pos: SubBlockPos, block: Block) -> Seq<(SubBlockPos, Block)> {
    match find_pos(entries, pos) {
        Some(k) => entries.update(k, (pos, block)),
        None => entries.push((pos, block)),
    }
}

/// The cells after `pos` is set to `block`.
pub open spec fn cells_with(cells: CellList, pos: SubBlockPos, block: Block) -> CellList {
    let c = cell_of(pos);
    match find_cell(cells, c) {
        Some(i) => cells.update(i, (c, entries_with(cells[i].1, pos, block))),
        None => cells.push((c, seq![(pos, block)])),
    }
}

/// The cells after `pos` is cleared; a cell left without entries is dropped.
pub open spec fn cells_without(cells: CellList, pos: SubBlockPos) -> CellList {
    let c = cell_of(pos);
    match find_cell(cells, c) {
        Some(i) => match find_pos(cells[i].1, pos) {
            Some(k) => if cells[i].1.len() == 1 {
                cells.remove(i)
            } else {
                cells.update(i, (c, cells[i].1.remove(k)))
            },
            None => cells,
        },
        None => cells,
    }
}

/// The cells after every sub-block of cell `c` is cleared.
pub open spec fn cells_without_cell(cells: CellList, c: BlockPos) -> CellList {
    match find_cell(cells, c) {
        Some(i) => cells.remove(i),
        None => cells,
    }
}

pub proof fn lemma_find_cell_found(cells: CellList, c: BlockPos)
    requires
        find_cell(cells, c) is Some,
    ensures
        0 <= find_cell(cells, c)->0 < cells.len(),
        cells[find_cell(cells, c)->0].0 == c,
    decreases cells.len(),
{
    if cells.last().0 != c {
        lemma_find_cell_found(cells.drop_last(), c);
    }
}

proof fn lemma_find_cell_none(cells: CellList, c: BlockPos)
    requires
        find_cell(cells, c) is None,
    ensures
        forall|i: int| 0 <= i < cells.len() ==> (#[trigger] cells[i]).0 != c,
    decreases cells.len(),
{
    if cells.len() > 0 {
        lemma_find_cell_none(cells.drop_last(), c);
        assert forall|i: int| 0 <= i < cells.len() implies (#[trigger] cells[i]).0 != c by {
            if i < cells.len() - 1 {
                assert(cells[i] == cells.drop_last()[i]);
            }
        }
    }
}

/// In a list of distinct cells, the index of a listed cell is found.
proof fn lemma_find_cell_at(cells: CellList, i: int)
    requires
        0 <= i < cells.len(),
        forall|a: int, b: int| 0 <= a < b < cells.len() ==> #[trigger] cells[a].0 != #[trigger] cells[b].0,
    ensures
        find_cell(cells, cells[i].0) == Some(i),
    decreases cells.len(),
{
    if i < cells.len() - 1 {
        let d = cells.drop_last();
        assert(cells[i] == d[i]);
        assert forall|a: int, b: int| 0 <= a < b < d.len() implies #[trigger] d[a].0 != #[trigger] d[b].0 by {
            assert(d[a] == cells[a] && d[b] == cells[b]);
        }
        lemma_find_cell_at(d, i);
    }
}

proof fn lemma_find_pos_found(entries: Seq<(SubBlockPos, Block)>, pos: SubBlockPos)
    requires
        find_pos(entries, pos) is Some,
    ensures
        0 <= find_pos(entries, pos)->0 < entries.len(),
        entries[find_pos(entries, pos)->0].0 == pos,
    decreases entries.len(),
{
    if entries.last().0 != pos {
        lemma_find_pos_found(entries.drop_last(), pos);
    }
}

proof fn lemma_find_pos_none(entries: Seq<(SubBlockPos, Block)>, pos: SubBlockPos)
    requires
        find_pos(entries, pos) is None,
    ensures
        forall|k: int| 0 <= k < entries.len() ==> (#[trigger] entries[k]).0 != pos,
    decreases entries.len(),
{
    if entries.len() > 0 {
        lemma_find_pos_none(entries.drop_last(), pos);
        assert forall|k: int| 0 <= k < entries.len() implies (#[trigger] entries[k]).0 != pos by {
            if k < entries.len() - 1 {
                assert(entries[k] == entries.drop_last()[k]);
            }
        }
    }
}

proof fn lemma_find_pos_at(entries: Seq<(SubBlockPos, Block)>, k: int)
    requires
        0 <= k < entries.len(),
        forall|a: int, b: int| 0 <= a < b < entries.len() ==> #[trigger] entries[a].0 != #[trigger] entries[b].0,
    ensures
        find_pos(entries, entries[k].0) == Some(k),
    decreases entries.len(),
{
    if k < entries.len() - 1 {
        let d = entries.drop_last();
        assert(entries[k] == d[k]);
        assert forall|a: int, b: int| 0 <= a < b < d.len() implies #[trigger] d[a].0 != #[trigger] d[b].0 by {
            assert(d[a] == entries[a] && d[b] == entries[b]);
        }
        lemma_find_pos_at(d, k);
    }
}

/// Sub-block overrides, bucketed by block cell.  The buckets are vectors
/// with no cell and no sub-block listed twice: positions are structs of
/// several integers, and vstd specifies `HashMap` only for keys that it
/// knows to hash consistently (single primitive integers and booleans),
/// which such a key is not without an unproved assumption.
pub struct SubOverrideState {
    cells: Vec<CellSubBlocks>,
}

impl View for SubOverrideState {
    type V = CellList;

    closed spec fn view(&self) -> CellList {
        self.cells@.map_values(|e: CellSubBlocks| (e.cell, e.entries@))
    }
}

impl SubOverrideState {
    /// The overrides keep their bucketing consistent.
    pub open spec fn wf(&self) -> bool {
        cells_wf(self@)
    }

    pub fn new() -> (s: Self)
        ensures
            s.wf(),
            s@ == Seq::<(BlockPos, Seq<(SubBlockPos, Block)>)>::empty(),
    {
        let s = SubOverrideState { cells: Vec::new() };
        assert(s@ =~= Seq::<(BlockPos, Seq<(SubBlockPos, Block)>)>::empty());
        s
    }

    proof fn lemma_view(&self)
        ensures
            self@.len() == self.cells@.len(),
            forall|i: int| 0 <= i < self.cells@.len() ==> #[trigger] self@[i] == (self.cells@[i].cell, self.cells@[i].entries@),
    {
    }

    /// Position of cell `c` in the bucket list.
    fn cell_index(&self, c: BlockPos) -> (i: Option<usize>)
        ensures
            i matches Some(k) ==> find_cell(self@, c) == Some(k as int) && k < self.cells@.len(),
            i is None ==> find_cell(self@, c) is None,
    {
        proof {
            self.lemma_view();
            assert(self@.subrange(0, self@.len() as int) =~= self@);
        }
        let mut k = self.cells.len();
        while k > 0
            invariant
                k <= self.cells@.len(),
                self@.len() == self.cells@.len(),
                find_cell(self@, c) == find_cell(self@.subrange(0, k as int), c),
            decreases k,
        {
            let ghost prefix = self@.subrange(0, k as int);
            if self.cells[k - 1].cell == c {
                proof {
                    assert(prefix.last() == self@[k - 1]);
                }
                return Some(k - 1);
            }
            proof {
                assert(prefix.drop_last() == self@.subrange(0, k - 1));
                assert(prefix.last() == self@[k - 1]);
            }
            k = k - 1;
        }
        proof {
            assert(self@.subrange(0, 0) =~= Seq::<(BlockPos, Seq<(SubBlockPos, Block)>)>::empty());
        }
        None
    }

    /// Sets sub-block `pos` to `block`.
    pub fn insert(&mut self, pos: SubBlockPos, block: Block)
        requires
            old(self).wf(),
        ensures
            final(self).wf(),
            final(self)@ == cells_with(old(self)@, pos, block),
    {
        proof {
            self.lemma_view();
        }
        let c = BlockPos { x: pos.x, y: pos.y, z: pos.z };
        match self.cell_index(c) {
            Some(i) => {
                proof {
                    lemma_find_cell_found(self@, c);
                }
                let k = find_entry(&self.cells[i].entries, pos);
                let ghost old_entries = self@[i as int].1;
                match k {
                    Some(k) => {
                        self.cells[i].entries.set(k, (pos, block));
                    },
                    None => {
                        self.cells[i].entries.push((pos, block));
                    },
                }
                proof {
                    assert(self@ =~= cells_with(old(self)@, pos, block));
                    lemma_insert_keeps_wf(old(self)@, pos, block);
                }
            },
            None => {
                let mut entries: Vec<(SubBlockPos, Block)> = Vec::new();
                entries.push((pos, block));
                self.cells.push(CellSubBlocks { cell: c, entries });
                proof {
                    assert(self@ =~= cells_with(old(self)@, pos, block));
                    lemma_insert_keeps_wf(old(self)@, pos, block);
                }
            },
        }
    }

    /// Clears sub-block `pos`, returning the block it held.
    pub fn remove(&mut self, pos: &SubBlockPos) -> (removed: Option<Block>)
        requires
            old(self).wf(),
        ensures
            final(self).wf(),
            removed == lookup(old(self)@, *pos),
            final(self)@ == cells_without(old(self)@, *pos),
    {
        proof {
            self.lemma_view();
        }
        let c = BlockPos { x: pos.x, y: pos.y, z: pos.z };
        match self.cell_index(c) {
            Some(i) => {
                proof {
                    lemma_find_cell_found(self@, c);
                }
                match find_entry(&self.cells[i].entries, *pos) {
                    Some(k) => {
                        let n = self.cells[i].entries.len();
                        if n == 1 {
                            let gone = self.cells.remove(i);
                            let block = gone.entries[k].1;
                            proof {
                                assert(self@ =~= cells_without(old(self)@, *pos));
                                lemma_remove_keeps_wf(old(self)@, *pos);
                            }
                            Some(block)
                        } else {
                            let (_, block) = self.cells[i].entries.remove(k);
                            proof {
                                assert(self@ =~= cells_without(old(self)@, *pos));
                                lemma_remove_keeps_wf(old(self)@, *pos);
                            }
                            Some(block)
                        }
                    },
                    None => None,
                }
            },
            None => None,
        }
    }

    /// Clears every sub-block of cell `(x, y, z)`.
    pub fn remove_cell(&mut self, x: i64, y: i32, z: i64)
        requires
            old(self).wf(),
        ensures
            final(self).wf(),
            final(self)@ == cells_without_cell(old(self)@, BlockPos { x, y, z }),
    {
        proof {
            self.lemma_view();
        }
        let c = BlockPos { x, y, z };
        match self.cell_index(c) {
            Some(i) => {
                let _ = self.cells.remove(i);
                proof {
                    assert(self@ =~= cells_without_cell(old(self)@, c));
                    let s = old(self)@;
                    let t = self@;
                    assert forall|a: int, b: int| 0 <= a < b < t.len() implies #[trigger] t[a].0 != #[trigger] t[b].0 by {
                        let a2 = if a < i { a } else { a + 1 };
                        let b2 = if b < i { b } else { b + 1 };
                        assert(t[a] == s[a2] && t[b] == s[b2]);
                    }
                    assert forall|j: int| 0 <= j < t.len() implies (#[trigger] t[j]).1.len() > 0 by {
                        let j2 = if j < i { j } else { j + 1 };
                        assert(t[j] == s[j2]);
                    }
                    assert forall|j: int, k: int| 0 <= j < t.len() && 0 <= k < t[j].1.len()
                        implies cell_of(#[trigger] t[j].1[k].0) == t[j].0 by {
                        let j2 = if j < i { j } else { j + 1 };
                        assert(t[j] == s[j2]);
                    }
                    assert forall|j: int, k: int, l: int| 0 <= j < t.len() && 0 <= k < l < t[j].1.len()
                        implies #[trigger] t[j].1[k].0 != #[trigger] t[j].1[l].0 by {
                        let j2 = if j < i { j } else { j + 1 };
                        assert(t[j] == s[j2]);
                    }
                }
            },
            None => {},
        }
    }

    /// The block at sub-block `pos`, if one was placed there.
    pub fn get(&self, pos: &SubBlockPos) -> (block: Option<Block>)
        requires
            self.wf(),
        ensures
            block == lookup(self@, *pos),
    {
        proof {
            self.lemma_view();
        }
        let c = BlockPos { x: pos.x, y: pos.y, z: pos.z };
        match self.cell_index(c) {
            Some(i) => {
                proof {
                    lemma_find_cell_found(self@, c);
                }
                match find_entry(&self.cells[i].entries, *pos) {
                    Some(k) => Some(self.cells[i].entries[k].1),
                    None => None,
                }
            },
            None => None,
        }
    }

    /// The sub-blocks of cell `(x, y, z)` with their blocks, in placement order.
    pub fn entries_in_cell(&self, x: i64, y: i32, z: i64) -> (entries: Vec<(SubBlockPos, Block)>)
        requires
            self.wf(),
        ensures
            entries@ == cell_entries(self@, BlockPos { x, y, z }),
    {
        proof {
            self.lemma_view();
        }
        let c = BlockPos { x, y, z };
        match self.cell_index(c) {
            Some(i) => {
                let src = &self.cells[i].entries;
                let mut out: Vec<(SubBlockPos, Block)> = Vec::new();
                let mut k: usize = 0;
                while k < src.len()
                    invariant
                        k <= src@.len(),
                        out@ == src@.subrange(0, k as int),
                    decreases src@.len() - k,
                {
                    out.push(src[k]);
                    k = k + 1;
                }
                proof {
                    assert(out@ =~= src@);
                }
                out
            },
            None => Vec::new(),
        }
    }

    /// Every placed sub-block with its block, cell after cell.
    pub fn iter_all(&self) -> (entries: Vec<(SubBlockPos, Block)>)
        requires
            self.wf(),
        ensures
            entries@ == all_entries(self@),
    {
        proof {
            self.lemma_view();
        }
        let mut out: Vec<(SubBlockPos, Block)> = Vec::new();
        let mut i: usize = 0;
        while i < self.cells.len()
            invariant
                i <= self.cells@.len(),
                self@.len() == self.cells@.len(),
                out@ == all_entries(self@.subrange(0, i as int)),
            decreases self.cells@.len() - i,
        {
            let src = &self.cells[i].entries;
            let ghost before = out@;
            let mut k: usize = 0;
            while k < src.len()
                invariant
                    k <= src@.len(),
                    out@ == before + src@.subrange(0, k as int),
                decreases src@.len() - k,
            {
                out.push(src[k]);
                proof {
                    assert(before + src@.subrange(0, k + 1) =~= (before + src@.subrange(0, k as int)).push(src@[k as int]));
                }
                k = k + 1;
            }
            proof {
                let p = self@.subrange(0, i + 1);
                assert(p.drop_last() =~= self@.subrange(0, i as int));
                assert(p.last() == self@[i as int]);
                assert(src@.subrange(0, src@.len() as int) =~= src@);
            }
            i = i + 1;
        }
        proof {
            assert(self@.subrange(0, self@.len() as int) =~= self@);
        }
        out
    }

    /// True when cell `(x, y, z)` has at least one sub-block.
    pub fn has_entries_in_cell(&self, x: i64, y: i32, z: i64) -> (b: bool)
        requires
            self.wf(),
        ensures
            b == (find_cell(self@, BlockPos { x, y, z }) is Some),
    {
        self.cell_index(BlockPos { x, y, z }).is_some()
    }
}

/// Position of `pos` in a cell's entries.
fn find_entry(entries: &Vec<(SubBlockPos, Block)>, pos: SubBlockPos) -> (k: Option<usize>)
    ensures
        k matches Some(k) ==> find_pos(entries@, pos) == Some(k as int) && k < entries@.len(),
        k is None ==> find_pos(entries@, pos) is None,
{
    proof {
        assert(entries@.subrange(0, entries@.len() as int) =~= entries@);
    }
    let mut k = entries.len();
    while k > 0
        invariant
            k <= entries@.len(),
            find_pos(entries@, pos) == find_pos(entries@.subrange(0, k as int), pos),
        decreases k,
    {
        let ghost prefix = entries@.subrange(0, k as int);
        if entries[k - 1].0 == pos {
            proof {
                assert(prefix.last() == entries@[k - 1]);
            }
            return Some(k - 1);
        }
        proof {
            assert(prefix.drop_last() == entries@.subrange(0, k - 1));
            assert(prefix.last() == entries@[k - 1]);
        }
        k = k - 1;
    }
    proof {
        assert(entries@.subrange(0, 0) =~= Seq::<(SubBlockPos, Block)>::empty());
    }
    None
}

proof fn lemma_insert_keeps_wf(cells: CellList, pos: SubBlockPos, block: Block)
    requires
        cells_wf(cells),
    ensures
        cells_wf(cells_with(cells, pos, block)),
{
    let c = cell_of(pos);
    let t = cells_with(cells, pos, block);
    match find_cell(cells, c) {
        Some(i) => {
            lemma_find_cell_found(cells, c);
            let e = cells[i].1;
            let e2 = entries_with(e, pos, block);
            match find_pos(e, pos) {
                Some(k) => {
                    lemma_find_pos_found(e, pos);
                },
                None => {
                    lemma_find_pos_none(e, pos);
                },
            }
            assert forall|a: int, b: int| 0 <= a < b < t.len() implies #[trigger] t[a].0 != #[trigger] t[b].0 by {
                assert(t[a].0 == cells[a].0 && t[b].0 == cells[b].0);
            }
            assert forall|j: int| 0 <= j < t.len() implies (#[trigger] t[j]).1.len() > 0 by {
                if j != i {
                    assert(t[j] == cells[j]);
                }
            }
            assert forall|j: int, k: int| 0 <= j < t.len() && 0 <= k < t[j].1.len()
                implies cell_of(#[trigger] t[j].1[k].0) == t[j].0 by {
                if j != i {
                    assert(t[j] == cells[j]);
                } else {
                    assert(t[j].1 == e2);
                    if k < e.len() {
                        assert(cell_of(e[k].0) == cells[i].0);
                    }
                }
            }
            assert forall|j: int, k: int, l: int| 0 <= j < t.len() && 0 <= k < l < t[j].1.len()
                implies #[trigger] t[j].1[k].0 != #[trigger] t[j].1[l].0 by {
                if j != i {
                    assert(t[j] == cells[j]);
                } else {
                    assert(t[j].1 == e2);
                    assert(e[k].0 != e[l].0 || l >= e.len());
                }
            }
        },
        None => {
            lemma_find_cell_none(cells, c);
            assert forall|a: int, b: int| 0 <= a < b < t.len() implies #[trigger] t[a].0 != #[trigger] t[b].0 by {
                if b == cells.len() {
                    assert(t[a] == cells[a]);
                } else {
                    assert(t[a] == cells[a] && t[b] == cells[b]);
                }
            }
            assert forall|j: int| 0 <= j < t.len() implies (#[trigger] t[j]).1.len() > 0 by {
                if j < cells.len() {
                    assert(t[j] == cells[j]);
                }
            }
            assert forall|j: int, k: int| 0 <= j < t.len() && 0 <= k < t[j].1.len()
                implies cell_of(#[trigger] t[j].1[k].0) == t[j].0 by {
                if j < cells.len() {
                    assert(t[j] == cells[j]);
                }
            }
            assert forall|j: int, k: int, l: int| 0 <= j < t.len() && 0 <= k < l < t[j].1.len()
                implies #[trigger] t[j].1[k].0 != #[trigger] t[j].1[l].0 by {
                if j < cells.len() {
                    assert(t[j] == cells[j]);
                }
            }
        },
    }
}

proof fn lemma_remove_keeps_wf(cells: CellList, pos: SubBlockPos)
    requires
        cells_wf(cells),
    ensures
        cells_wf(cells_without(cells, pos)),
{
    let c = cell_of(pos);
    let t = cells_without(cells, pos);
    match find_cell(cells, c) {
        Some(i) => {
            lemma_find_cell_found(cells, c);
            let e = cells[i].1;
            match find_pos(e, pos) {
                Some(k) => {
                    lemma_find_pos_found(e, pos);
                    if e.len() == 1 {
                        assert forall|a: int, b: int| 0 <= a < b < t.len() implies #[trigger] t[a].0 != #[trigger] t[b].0 by {
                            let a2 = if a < i { a } else { a + 1 };
                            let b2 = if b < i { b } else { b + 1 };
                            assert(t[a] == cells[a2] && t[b] == cells[b2]);
                        }
                        assert forall|j: int| 0 <= j < t.len() implies (#[trigger] t[j]).1.len() > 0 by {
                            let j2 = if j < i { j } else { j + 1 };
                            assert(t[j] == cells[j2]);
                        }
                        assert forall|j: int, q: int| 0 <= j < t.len() && 0 <= q < t[j].1.len()
                            implies cell_of(#[trigger] t[j].1[q].0) == t[j].0 by {
                            let j2 = if j < i { j } else { j + 1 };
                            assert(t[j] == cells[j2]);
                        }
                        assert forall|j: int, q: int, l: int| 0 <= j < t.len() && 0 <= q < l < t[j].1.len()
                            implies #[trigger] t[j].1[q].0 != #[trigger] t[j].1[l].0 by {
                            let j2 = if j < i { j } else { j + 1 };
                            assert(t[j] == cells[j2]);
                        }
                    } else {
                        let e2 = e.remove(k);
                        assert forall|a: int, b: int| 0 <= a < b < t.len() implies #[trigger] t[a].0 != #[trigger] t[b].0 by {
                            assert(t[a].0 == cells[a].0 && t[b].0 == cells[b].0);
                        }
                        assert forall|j: int| 0 <= j < t.len() implies (#[trigger] t[j]).1.len() > 0 by {
                            if j != i {
                                assert(t[j] == cells[j]);
                            }
                        }
                        assert forall|j: int, q: int| 0 <= j < t.len() && 0 <= q < t[j].1.len()
                            implies cell_of(#[trigger] t[j].1[q].0) == t[j].0 by {
                            if j != i {
                                assert(t[j] == cells[j]);
                            } else {
                                let q2 = if q < k { q } else { q + 1 };
                                assert(e2[q] == e[q2]);
                            }
                        }
                        assert forall|j: int, q: int, l: int| 0 <= j < t.len() && 0 <= q < l < t[j].1.len()
                            implies #[trigger] t[j].1[q].0 != #[trigger] t[j].1[l].0 by {
                            if j != i {
                                assert(t[j] == cells[j]);
                            } else {
                                let q2 = if q < k { q } else { q + 1 };
                                let l2 = if l < k { l } else { l + 1 };
                                assert(e2[q] == e[q2] && e2[l] == e[l2]);
                            }
                        }
                    }
                },
                None => {},
            }
        },
        None => {},
    }
}

/// After `pos` is set to `block`, reading `pos` gives `block`, and every
/// other sub-block reads as before.
pub proof fn lemma_insert_then_lookup(cells: CellList, pos: SubBlockPos, block: Block, other: SubBlockPos)
    requires
        cells_wf(cells),
        other != pos,
    ensures
        lookup(cells_with(cells, pos, block), pos) == Some(block),
        lookup(cells_with(cells, pos, block), other) == lookup(cells, other),
{
    let t = cells_with(cells, pos, block);
    lemma_insert_keeps_wf(cells, pos, block);
    let c = cell_of(pos);
    let oc = cell_of(other);
    match find_cell(cells, c) {
        Some(i) => {
            lemma_find_cell_found(cells, c);
            lemma_find_cell_at(t, i);
            let e = cells[i].1;
            let e2 = t[i].1;
            match find_pos(e, pos) {
                Some(k) => {
                    lemma_find_pos_found(e, pos);
                },
                None => {
                    lemma_find_pos_none(e, pos);
                },
            }
            let k2 = if find_pos(e, pos) is Some { find_pos(e, pos)->0 } else { e.len() as int };
            assert(e2[k2].0 == pos);
            lemma_find_pos_at(e2, k2);
            if oc == c {
                match find_pos(e, other) {
                    Some(ko) => {
                        lemma_find_pos_found(e, other);
                        lemma_find_pos_at(e2, ko);
                    },
                    None => {
                        lemma_find_pos_none(e, other);
                        if find_pos(e2, other) is Some {
                            lemma_find_pos_found(e2, other);
                        }
                    },
                }
            } else {
                match find_cell(cells, oc) {
                    Some(j) => {
                        lemma_find_cell_found(cells, oc);
                        lemma_find_cell_at(t, j);
                    },
                    None => {
                        lemma_find_cell_none(cells, oc);
                        if find_cell(t, oc) is Some {
                            lemma_find_cell_found(t, oc);
                        }
                    },
                }
            }
        },
        None => {
            lemma_find_cell_none(cells, c);
            let n = cells.len() as int;
            lemma_find_cell_at(t, n);
            assert(t[n].1 == seq![(pos, block)]);
            lemma_find_pos_at(t[n].1, 0);
            if oc == c {
                if find_pos(t[n].1, other) is Some {
                    lemma_find_pos_found(t[n].1, other);
                }
            } else {
                match find_cell(cells, oc) {
                    Some(j) => {
                        lemma_find_cell_found(cells, oc);
                        lemma_find_cell_at(t, j);
                    },
                    None => {
                        lemma_find_cell_none(cells, oc);
                        if find_cell(t, oc) is Some {
                            lemma_find_cell_found(t, oc);
                        }
                    },
                }
            }
        },
    }
}

proof fn lemma_distinct_cells_remove(cells: CellList, i: int)
    requires
        cells_wf(cells),
        0 <= i < cells.len(),
    ensures
        forall|a: int, b: int| 0 <= a < b < cells.remove(i).len() ==> #[trigger] cells.remove(i)[a].0 != #[trigger] cells.remove(i)[b].0,
{
    let t = cells.remove(i);
    assert forall|a: int, b: int| 0 <= a < b < t.len() implies #[trigger] t[a].0 != #[trigger] t[b].0 by {
        let a2 = if a < i { a } else { a + 1 };
        let b2 = if b < i { b } else { b + 1 };
        assert(t[a] == cells[a2] && t[b] == cells[b2]);
    }
}

/// Dropping cell `i` leaves the sub-blocks of every other cell as they were.
proof fn lemma_lookup_after_cell_removed(cells: CellList, i: int, other: SubBlockPos)
    requires
        cells_wf(cells),
        0 <= i < cells.len(),
        cell_of(other) != cells[i].0,
    ensures
        lookup(cells.remove(i), other) == lookup(cells, other),
{
    let t = cells.remove(i);
    let oc = cell_of(other);
    lemma_distinct_cells_remove(cells, i);
    match find_cell(cells, oc) {
        Some(j) => {
            lemma_find_cell_found(cells, oc);
            let j2 = if j < i { j } else { j - 1 };
            assert(t[j2] == cells[j]);
            lemma_find_cell_at(t, j2);
        },
        None => {
            lemma_find_cell_none(cells, oc);
            if find_cell(t, oc) is Some {
                lemma_find_cell_found(t, oc);
                let j = find_cell(t, oc)->0;
                let j2 = if j < i { j } else { j + 1 };
                assert(t[j] == cells[j2]);
            }
        },
    }
}

/// Changing the entries of cell `i` leaves every other cell as it was.
proof fn lemma_lookup_after_cell_updated(cells: CellList, i: int, entries: Seq<(SubBlockPos, Block)>, other: SubBlockPos)
    requires
        cells_wf(cells),
        0 <= i < cells.len(),
        cell_of(other) != cells[i].0,
    ensures
        lookup(cells.update(i, (cells[i].0, entries)), other) == lookup(cells, other),
{
    let t = cells.update(i, (cells[i].0, entries));
    let oc = cell_of(other);
    assert forall|a: int, b: int| 0 <= a < b < t.len() implies #[trigger] t[a].0 != #[trigger] t[b].0 by {
        assert(t[a].0 == cells[a].0 && t[b].0 == cells[b].0);
    }
    match find_cell(cells, oc) {
        Some(j) => {
            lemma_find_cell_found(cells, oc);
            lemma_find_cell_at(t, j);
        },
        None => {
            lemma_find_cell_none(cells, oc);
            if find_cell(t, oc) is Some {
                lemma_find_cell_found(t, oc);
            }
        },
    }
}

/// After `pos` is cleared it reads as empty, and every other sub-block reads
/// as before.
pub proof fn lemma_remove_then_lookup(cells: CellList, pos: SubBlockPos, other: SubBlockPos)
    requires
        cells_wf(cells),
        other != pos,
    ensures
        lookup(cells_without(cells, pos), pos) is None,
        lookup(cells_without(cells, pos), other) == lookup(cells, other),
{
    let c = cell_of(pos);
    let oc = cell_of(other);
    match find_cell(cells, c) {
        Some(i) => {
            lemma_find_cell_found(cells, c);
            let e = cells[i].1;
            match find_pos(e, pos) {
                Some(k) => {
                    lemma_find_pos_found(e, pos);
                    if e.len() == 1 {
                        let t = cells.remove(i);
                        lemma_distinct_cells_remove(cells, i);
                        if find_cell(t, c) is Some {
                            lemma_find_cell_found(t, c);
                            let j = find_cell(t, c)->0;
                            let j2 = if j < i { j } else { j + 1 };
                            assert(t[j] == cells[j2]);
                        }
                        if oc == c {
                            if find_pos(e, other) is Some {
                                lemma_find_pos_found(e, other);
                            }
                        } else {
                            lemma_lookup_after_cell_removed(cells, i, other);
                        }
                    } else {
                        let e2 = e.remove(k);
                        let t = cells.update(i, (c, e2));
                        assert forall|a: int, b: int| 0 <= a < b < t.len() implies #[trigger] t[a].0 != #[trigger] t[b].0 by {
                            assert(t[a].0 == cells[a].0 && t[b].0 == cells[b].0);
                        }
                        lemma_find_cell_at(t, i);
                        if find_pos(e2, pos) is Some {
                            lemma_find_pos_found(e2, pos);
                            let q = find_pos(e2, pos)->0;
                            let q2 = if q < k { q } else { q + 1 };
                            assert(e2[q] == e[q2]);
                        }
                        if oc == c {
                            match find_pos(e, other) {
                                Some(ko) => {
                                    lemma_find_pos_found(e, other);
                                    let ko2 = if ko < k { ko } else { ko - 1 };
                                    assert(e2[ko2] == e[ko]);
                                    assert forall|a: int, b: int| 0 <= a < b < e2.len() implies #[trigger] e2[a].0 != #[trigger] e2[b].0 by {
                                        let a2 = if a < k { a } else { a + 1 };
                                        let b2 = if b < k { b } else { b + 1 };
                                        assert(e2[a] == e[a2] && e2[b] == e[b2]);
                                    }
                                    lemma_find_pos_at(e2, ko2);
                                },
                                None => {
                                    lemma_find_pos_none(e, other);
                                    if find_pos(e2, other) is Some {
                                        lemma_find_pos_found(e2, other);
                                        let q = find_pos(e2, other)->0;
                                        let q2 = if q < k { q } else { q + 1 };
                                        assert(e2[q] == e[q2]);
                                    }
                                },
                            }
                        } else {
                            lemma_lookup_after_cell_updated(cells, i, e2, other);
                        }
                    }
                },
                None => {
                    lemma_find_pos_none(e, pos);
                },
            }
        },
        None => {
            lemma_find_cell_none(cells, c);
        },
    }
}

/// After cell `c` is cleared its sub-blocks read as empty and sub-blocks of
/// other cells read as before.
/// Placing a sub-block where none was and clearing it again gives back the
/// cells exactly as they were.
pub proof fn lemma_insert_then_remove(cells: CellList, pos: SubBlockPos, block: Block)
    requires
        cells_wf(cells),
        lookup(cells, pos) is None,
    ensures
        cells_without(cells_with(cells, pos, block), pos) == cells,
{
    let c = cell_of(pos);
    let t = cells_with(cells, pos, block);
    match find_cell(cells, c) {
        Some(i) => {
            lemma_find_cell_found(cells, c);
            let e = cells[i].1;
            assert(find_pos(e, pos) is None);
            let e2 = e.push((pos, block));
            assert(t == cells.update(i, (c, e2)));
            assert forall|a: int, b: int| 0 <= a < b < t.len() implies #[trigger] t[a].0 != #[trigger] t[b].0 by {
                assert(t[a].0 == cells[a].0 && t[b].0 == cells[b].0);
            }
            lemma_find_cell_at(t, i);
            assert(find_cell(t, c) == Some(i));
            assert(find_pos(e2, pos) == Some(e.len() as int));
            assert(e2.len() != 1);
            assert(e2.remove(e.len() as int) =~= e);
            assert(cells.update(i, (c, e)) =~= cells);
        },
        None => {
            assert(t == cells.push((c, seq![(pos, block)])));
            assert(find_cell(t, c) == Some(cells.len() as int));
            assert(find_pos(seq![(pos, block)], pos) == Some(0int));
            assert(t.remove(cells.len() as int) =~= cells);
        },
    }
}

pub proof fn lemma_remove_cell_then_lookup(cells: CellList, c: BlockPos, other: SubBlockPos)
    requires
        cells_wf(cells),
    ensures
        cell_of(other) == c ==> lookup(cells_without_cell(cells, c), other) is None,
        cell_of(other) != c ==> lookup(cells_without_cell(cells, c), other) == lookup(cells, other),
{
    match find_cell(cells, c) {
        Some(i) => {
            lemma_find_cell_found(cells, c);
            let t = cells.remove(i);
            lemma_distinct_cells_remove(cells, i);
            if cell_of(other) == c {
                if find_cell(t, c) is Some {
                    lemma_find_cell_found(t, c);
                    let j = find_cell(t, c)->0;
                    let j2 = if j < i { j } else { j + 1 };
                    assert(t[j] == cells[j2]);
                }
            } else {
                lemma_lookup_after_cell_removed(cells, i, other);
            }
        },
        None => {
            lemma_find_cell_none(cells, c);
        },
    }
}

} // verus!
