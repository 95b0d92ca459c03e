//! The player's inventory: a hotbar and a backpack of stacked blocks.
use vstd::prelude::*;

use crate::game::world::Block;

verus! {

/// Number of hotbar slots.
pub const HOTBAR_SIZE: usize = 8;
/// Rows of the backpack grid.
pub const BACKPACK_ROWS: usize = 6;
/// Columns of the backpack grid.
pub const BACKPACK_COLS: usize = 8;
/// Number of backpack slots.
pub const BACKPACK_SIZE: usize = BACKPACK_ROWS * BACKPACK_COLS;
/// Largest stack a slot grows to by picking blocks up or merging stacks.
pub const STACK_LIMIT: u32 = 99;

/// One inventory cell: a block type and how many of it the cell holds.
#[derive(Clone, Copy, Debug)]
pub struct InventorySlot {
    pub block: Block,
    pub count: u32,
}

/// The empty slot: air, none of it.
pub open spec fn empty_slot() -> InventorySlot {
    InventorySlot { block: Block::Air, count: 0 }
}

/// A slot is empty when it holds nothing or holds air.
pub open spec fn slot_is_empty(slot: InventorySlot) -> bool {
    slot.count == 0 || slot.block == Block::Air
}

/// A slot can take one more `block` when it already has that block type
/// and is below the stack limit (an empty count still counts as that type).
pub open spec fn can_stack(slot: InventorySlot, block: Block) -> bool {
    slot.block == block && slot.count < STACK_LIMIT
}

impl Default for InventorySlot {
    fn default() -> (slot: Self)
        ensures
            slot == empty_slot(),
    {
        InventorySlot { block: Block::Air, count: 0 }
    }
}

impl InventorySlot {
    pub fn is_empty(self) -> (b: bool)
        ensures
            b == slot_is_empty(self),
    {
        self.count == 0 || matches!(self.block, Block::Air)
    }
}

/// First index at or after `i` of a slot that can take one more `block`.
pub open spec fn first_stack_from(slots: Seq<InventorySlot>, block: Block, i: int) -> Option<int>
    decreases slots.len() - i,
{
    if i < 0 || i >= slots.len() {
        None
    } else if can_stack(slots[i], block) {
        Some(i)
    } else {
        first_stack_from(slots, block, i + 1)
    }
}

/// First index at or after `i` of an empty slot.
pub open spec fn first_empty_from(slots: Seq<InventorySlot>, i: int) -> Option<int>
    decreases slots.len() - i,
{
    if i < 0 || i >= slots.len() {
        None
    } else if slot_is_empty(slots[i]) {
        Some(i)
    } else {
        first_empty_from(slots, i + 1)
    }
}

/// The slots after one more `block` joins the first stack that has room.
pub open spec fn stacked(slots: Seq<InventorySlot>, block: Block) -> Option<Seq<InventorySlot>> {
    match first_stack_from(slots, block, 0) {
        Some(i) => Some(slots.update(i, InventorySlot { block, count: (slots[i].count + 1) as u32 })),
        None => None,
    }
}

/// The slots after one `block` goes into the first empty slot.
pub open spec fn placed(slots: Seq<InventorySlot>, block: Block) -> Option<Seq<InventorySlot>> {
    match first_empty_from(slots, 0) {
        Some(i) => Some(slots.update(i, InventorySlot { block, count: 1 })),
        None => None,
    }
}

/// The abstract inventory: hotbar slots, backpack slots, selected hotbar index.
pub ghost struct InventoryView {
    pub hotbar: Seq<InventorySlot>,
    pub backpack: Seq<InventorySlot>,
    pub selected: int,
}

/// What picking up `block` does to an inventory: it joins a hotbar stack,
/// else an empty hotbar slot, else a backpack stack, else an empty backpack
/// slot; `None` when the block is air or there is no room.
pub open spec fn picked_up(inv: InventoryView, block: Block) -> Option<InventoryView> {
    if block == Block::Air {
        None
    } else if stacked(inv.hotbar, block) is Some {
        Some(InventoryView { hotbar: stacked(inv.hotbar, block)->0, ..inv })
    } else if placed(inv.hotbar, block) is Some {
        Some(InventoryView { hotbar: placed(inv.hotbar, block)->0, ..inv })
    } else if stacked(inv.backpack, block) is Some {
        Some(InventoryView { backpack: stacked(inv.backpack, block)->0, ..inv })
    } else if placed(inv.backpack, block) is Some {
        Some(InventoryView { backpack: placed(inv.backpack, block)->0, ..inv })
    } else {
        None
    }
}

/// The slot after one block is taken from it: the count drops by one and a
/// slot left with nothing turns to air.
pub open spec fn taken_one(slot: InventorySlot) -> InventorySlot {
    if slot.count == 1 {
        InventorySlot { block: Block::Air, count: 0 }
    } else {
        InventorySlot { block: slot.block, count: (slot.count - 1) as u32 }
    }
}

/// Moving backpack slot `from` onto hotbar slot `to`: onto an empty slot the
/// stack moves whole; onto a stack of the same block with room it merges up
/// to the stack limit; otherwise the two swap.
pub open spec fn moved_to_hotbar(from: InventorySlot, to: InventorySlot) -> (InventorySlot, InventorySlot) {
    if slot_is_empty(to) {
        (empty_slot(), from)
    } else if to.block == from.block && to.count < STACK_LIMIT {
        let room = STACK_LIMIT - to.count;
        let moved = if room < from.count {
            room
        } else {
            from.count as int
        };
        let left = from.count - moved;
        (
            if left == 0 {
                empty_slot()
            } else {
                InventorySlot { block: from.block, count: left as u32 }
            },
            InventorySlot { block: to.block, count: (to.count + moved) as u32 },
        )
    } else {
        (to, from)
    }
}

/// Number of non-empty slots.
pub open spec fn filled_count(slots: Seq<InventorySlot>) -> nat
    decreases slots.len(),
{
    if slots.len() == 0 {
        0
    } else {
        filled_count(slots.drop_last()) + if slot_is_empty(slots.last()) {
            0nat
        } else {
            1nat
        }
    }
}

/// How many of `block` the slots hold.
pub open spec fn stock(slots: Seq<InventorySlot>, block: Block) -> int
    decreases slots.len(),
{
    if slots.len() == 0 {
        0
    } else {
        stock(slots.drop_last(), block) + if slots.last().block == block {
            slots.last().count as int
        } else {
            0
        }
    }
}

/// How many of `block` the whole inventory holds.
pub open spec fn total_stock(inv: InventoryView, block: Block) -> int {
    stock(inv.hotbar, block) + stock(inv.backpack, block)
}

pub struct Inventory {
    hotbar: [InventorySlot; HOTBAR_SIZE],
    backpack: [InventorySlot; BACKPACK_SIZE],
    selected_hotbar: usize,
}

impl View for Inventory {
    type V = InventoryView;

    closed spec fn view(&self) -> InventoryView {
        InventoryView { hotbar: self.hotbar@, backpack: self.backpack@, selected: self.selected_hotbar as int }
    }
}

/// No slot holds more than a full stack.
pub open spec fn slots_within_limit(slots: Seq<InventorySlot>) -> bool {
    forall|i: int| 0 <= i < slots.len() ==> (#[trigger] slots[i]).count <= STACK_LIMIT
}

/// No slot of the hotbar or the backpack holds more than a full stack.
pub open spec fn stacks_within_limit(inv: InventoryView) -> bool {
    slots_within_limit(inv.hotbar) && slots_within_limit(inv.backpack)
}

/// Slot counts and a selected index inside the hotbar.
pub open spec fn inventory_wf(inv: InventoryView) -> bool {
    &&& inv.hotbar.len() == HOTBAR_SIZE
    &&& inv.backpack.len() == BACKPACK_SIZE
    &&& 0 <= inv.selected < HOTBAR_SIZE
}

impl Inventory {
    #[verifier::type_invariant]
    closed spec fn selection_in_hotbar(self) -> bool {
        &&& self.selected_hotbar < HOTBAR_SIZE
        &&& stacks_within_limit(self@)
    }

    /// A new inventory: 32 stone, 16 grass and 16 dirt in the first three
    /// hotbar slots, the first slot selected, everything else empty.
    pub fn new() -> (inv: Self)
        ensures
            inventory_wf(inv@),
            stacks_within_limit(inv@),
            inv@.selected == 0,
            inv@.hotbar[0] == (InventorySlot { block: Block::Stone, count: 32 }),
            inv@.hotbar[1] == (InventorySlot { block: Block::Grass, count: 16 }),
            inv@.hotbar[2] == (InventorySlot { block: Block::Dirt, count: 16 }),
            forall|i: int| 3 <= i < HOTBAR_SIZE ==> #[trigger] inv@.hotbar[i] == empty_slot(),
            forall|i: int| 0 <= i < BACKPACK_SIZE ==> #[trigger] inv@.backpack[i] == empty_slot(),
    {
        let mut hotbar = [InventorySlot::default(); HOTBAR_SIZE];
        hotbar[0] = InventorySlot { block: Block::Stone, count: 32 };
        hotbar[1] = InventorySlot { block: Block::Grass, count: 16 };
        hotbar[2] = InventorySlot { block: Block::Dirt, count: 16 };
        let backpack = [InventorySlot::default(); BACKPACK_SIZE];
        proof {
            assert(slots_within_limit(hotbar@));
            assert(slots_within_limit(backpack@));
        }
        Inventory { hotbar, backpack, selected_hotbar: 0 }
    }

    /// Selects a hotbar slot; an index past the hotbar is ignored.
    pub fn select_index(&mut self, index: usize)
        ensures
            final(self)@.hotbar == old(self)@.hotbar,
            final(self)@.backpack == old(self)@.backpack,
            final(self)@.selected == if index < HOTBAR_SIZE {
                index as int
            } else {
                old(self)@.selected
            },
            stacks_within_limit(final(self)@),
    {
        proof {
            use_type_invariant(&*self);
        }
        if index < HOTBAR_SIZE {
            self.selected_hotbar = index;
        }
    }

    pub fn selected_hotbar_index(&self) -> (i: usize)
        ensures
            i == self@.selected,
            i < HOTBAR_SIZE,
            inventory_wf(self@),
            stacks_within_limit(self@),
    {
        proof {
            use_type_invariant(self);
        }
        self.selected_hotbar
    }

    pub fn selected_slot(&self) -> (slot: InventorySlot)
        ensures
            slot == self@.hotbar[self@.selected],
    {
        proof {
            use_type_invariant(self);
        }
        self.hotbar[self.selected_hotbar]
    }

    pub fn hotbar(&self) -> (slots: &[InventorySlot; HOTBAR_SIZE])
        ensures
            slots@ == self@.hotbar,
            slots_within_limit(slots@),
    {
        proof {
            use_type_invariant(self);
        }
        &self.hotbar
    }

    pub fn backpack(&self) -> (slots: &[InventorySlot; BACKPACK_SIZE])
        ensures
            slots@ == self@.backpack,
            slots_within_limit(slots@),
    {
        proof {
            use_type_invariant(self);
        }
        &self.backpack
    }

    /// The backpack slot at `index`, if there is one.
    pub fn backpack_slot(&self, index: usize) -> (slot: Option<InventorySlot>)
        ensures
            index < BACKPACK_SIZE ==> slot == Some(self@.backpack[index as int]),
            index >= BACKPACK_SIZE ==> slot is None,
    {
        if index < BACKPACK_SIZE {
            Some(self.backpack[index])
        } else {
            None
        }
    }

    /// Replaces the hotbar slot at `index`; false (and no change) past the
    /// hotbar or for a slot holding more than a full stack.
    pub fn set_hotbar_slot(&mut self, index: usize, slot: InventorySlot) -> (done: bool)
        ensures
            done == (index < HOTBAR_SIZE && slot.count <= STACK_LIMIT),
            stacks_within_limit(final(self)@),
            final(self)@.hotbar == if done {
                old(self)@.hotbar.update(index as int, slot)
            } else {
                old(self)@.hotbar
            },
            final(self)@.backpack == old(self)@.backpack,
            final(self)@.selected == old(self)@.selected,
    {
        proof {
            use_type_invariant(&*self);
        }
        if index < HOTBAR_SIZE && slot.count <= STACK_LIMIT {
            self.hotbar[index] = slot;
            true
        } else {
            false
        }
    }

    /// Replaces the backpack slot at `index`; false (and no change) past the
    /// backpack or for a slot holding more than a full stack.
    pub fn set_backpack_slot(&mut self, index: usize, slot: InventorySlot) -> (done: bool)
        ensures
            done == (index < BACKPACK_SIZE && slot.count <= STACK_LIMIT),
            stacks_within_limit(final(self)@),
            final(self)@.backpack == if done {
                old(self)@.backpack.update(index as int, slot)
            } else {
                old(self)@.backpack
            },
            final(self)@.hotbar == old(self)@.hotbar,
            final(self)@.selected == old(self)@.selected,
    {
        proof {
            use_type_invariant(&*self);
        }
        if index < BACKPACK_SIZE && slot.count <= STACK_LIMIT {
            self.backpack[index] = slot;
            true
        } else {
            false
        }
    }

    /// Number of non-empty slots in hotbar and backpack together.
    pub fn filled_slots(&self) -> (n: usize)
        ensures
            n == filled_count(self@.hotbar) + filled_count(self@.backpack),
    {
        let a = count_filled(&self.hotbar);
        let b = count_filled(&self.backpack);
        a + b
    }

    pub fn slot_capacity(&self) -> (n: usize)
        ensures
            n == HOTBAR_SIZE + BACKPACK_SIZE,
    {
        HOTBAR_SIZE + BACKPACK_SIZE
    }

    /// Picks up one block (see `picked_up`); false, and no change, for air or
    /// when no slot has room.
    pub fn add_block(&mut self, block: Block) -> (added: bool)
        ensures
            added == (picked_up(old(self)@, block) is Some),
            added ==> final(self)@ == picked_up(old(self)@, block)->0,
            !added ==> final(self)@ == old(self)@,
            stacks_within_limit(final(self)@),
    {
        proof {
            use_type_invariant(&*self);
        }
        if matches!(block, Block::Air) {
            return false;
        }
        if try_insert_existing_stack(&mut self.hotbar, block) {
            return true;
        }
        if try_insert_empty_slot(&mut self.hotbar, block) {
            return true;
        }
        if try_insert_existing_stack(&mut self.backpack, block) {
            return true;
        }
        try_insert_empty_slot(&mut self.backpack, block)
    }

    /// Takes one block from the selected hotbar slot.
    pub fn try_take_selected(&mut self) -> (taken: Option<Block>)
        ensures
            ({
                let slot = old(self)@.hotbar[old(self)@.selected];
                if slot_is_empty(slot) {
                    &&& taken is None
                    &&& final(self)@ == old(self)@
                } else {
                    &&& taken == Some(slot.block)
                    &&& final(self)@ == (InventoryView {
                        hotbar: old(self)@.hotbar.update(old(self)@.selected, taken_one(slot)),
                        ..old(self)@
                    })
                }
            }),
            stacks_within_limit(final(self)@),
    {
        proof {
            use_type_invariant(&*self);
        }
        let index = self.selected_hotbar;
        let slot = self.hotbar[index];
        if slot.is_empty() {
            return None;
        }
        let count = slot.count - 1;
        let block = slot.block;
        if count == 0 {
            self.hotbar[index] = InventorySlot { block: Block::Air, count: 0 };
        } else {
            self.hotbar[index] = InventorySlot { block, count };
        }
        Some(block)
    }

    /// Takes one block from the selected hotbar slot when it holds `expected`.
    pub fn try_take_selected_matching(&mut self, expected: Block) -> (taken: bool)
        ensures
            ({
                let slot = old(self)@.hotbar[old(self)@.selected];
                if slot_is_empty(slot) || slot.block != expected {
                    &&& !taken
                    &&& final(self)@ == old(self)@
                } else {
                    &&& taken
                    &&& final(self)@ == (InventoryView {
                        hotbar: old(self)@.hotbar.update(old(self)@.selected, taken_one(slot)),
                        ..old(self)@
                    })
                }
            }),
            stacks_within_limit(final(self)@),
    {
        proof {
            use_type_invariant(&*self);
        }
        let index = self.selected_hotbar;
        let slot = self.hotbar[index];
        if slot.is_empty() || slot.block != expected {
            return false;
        }
        let count = slot.count - 1;
        if count == 0 {
            self.hotbar[index] = InventorySlot { block: Block::Air, count: 0 };
        } else {
            self.hotbar[index] = InventorySlot { block: slot.block, count };
        }
        true
    }

    /// Moves backpack slot `backpack_index` onto hotbar slot `hotbar_index`
    /// (see `moved_to_hotbar`); false, and no change, for an index out of
    /// range or an empty backpack slot.
    pub fn move_backpack_slot_to_hotbar(&mut self, backpack_index: usize, hotbar_index: usize) -> (moved: bool)
        ensures
            moved == (backpack_index < BACKPACK_SIZE && hotbar_index < HOTBAR_SIZE && !slot_is_empty(
                old(self)@.backpack[backpack_index as int],
            )),
            moved ==> ({
                let (from, to) = moved_to_hotbar(
                    old(self)@.backpack[backpack_index as int],
                    old(self)@.hotbar[hotbar_index as int],
                );
                final(self)@ == InventoryView {
                    hotbar: old(self)@.hotbar.update(hotbar_index as int, to),
                    backpack: old(self)@.backpack.update(backpack_index as int, from),
                    selected: old(self)@.selected,
                }
            }),
            !moved ==> final(self)@ == old(self)@,
            stacks_within_limit(final(self)@),
    {
        proof {
            use_type_invariant(&*self);
        }
        if backpack_index >= BACKPACK_SIZE || hotbar_index >= HOTBAR_SIZE {
            return false;
        }
        let from = self.backpack[backpack_index];
        if from.is_empty() {
            return false;
        }
        let to = self.hotbar[hotbar_index];

        if to.is_empty() {
            self.hotbar[hotbar_index] = from;
            self.backpack[backpack_index] = InventorySlot::default();
            return true;
        }

        if to.block == from.block && to.count < STACK_LIMIT {
            let can_move = STACK_LIMIT - to.count;
            let moved = if can_move < from.count {
                can_move
            } else {
                from.count
            };
            self.hotbar[hotbar_index] = InventorySlot { block: to.block, count: to.count + moved };
            let left = from.count - moved;
            if left == 0 {
                self.backpack[backpack_index] = InventorySlot::default();
            } else {
                self.backpack[backpack_index] = InventorySlot { block: from.block, count: left };
            }
            return true;
        }

        self.hotbar[hotbar_index] = from;
        self.backpack[backpack_index] = to;
        true
    }
}

/// Counts the non-empty slots.
fn count_filled<const N: usize>(slots: &[InventorySlot; N]) -> (n: usize)
    ensures
        n == filled_count(slots@),
        n <= N,
{
    let mut n: usize = 0;
    let mut i: usize = 0;
    while i < N
        invariant
            i <= N,
            slots@.len() == N,
            n == filled_count(slots@.subrange(0, i as int)),
            n <= i,
        decreases N - i,
    {
        proof {
            assert(slots@.subrange(0, i + 1).drop_last() == slots@.subrange(0, i as int));
        }
        if !slots[i].is_empty() {
            n = n + 1;
        }
        i = i + 1;
    }
    proof {
        assert(slots@.subrange(0, N as int) == slots@);
    }
    n
}

proof fn lemma_first_stack_skip(slots: Seq<InventorySlot>, block: Block, i: int)
    requires
        0 <= i <= slots.len(),
        forall|j: int| 0 <= j < i ==> !can_stack(#[trigger] slots[j], block),
    ensures
        first_stack_from(slots, block, 0) == first_stack_from(slots, block, i),
    decreases i,
{
    if i > 0 {
        lemma_first_stack_skip(slots, block, i - 1);
    }
}

proof fn lemma_first_empty_skip(slots: Seq<InventorySlot>, i: int)
    requires
        0 <= i <= slots.len(),
        forall|j: int| 0 <= j < i ==> !slot_is_empty(#[trigger] slots[j]),
    ensures
        first_empty_from(slots, 0) == first_empty_from(slots, i),
    decreases i,
{
    if i > 0 {
        lemma_first_empty_skip(slots, i - 1);
    }
}

/// Adds one `block` to the first stack of it with room.
fn try_insert_existing_stack<const N: usize>(slots: &mut [InventorySlot; N], block: Block) -> (done: bool)
    ensures
        done == (stacked(old(slots)@, block) is Some),
        done ==> final(slots)@ == stacked(old(slots)@, block)->0,
        !done ==> final(slots)@ == old(slots)@,
        slots_within_limit(old(slots)@) ==> slots_within_limit(final(slots)@),
    no_unwind
{
    let mut i: usize = 0;
    while i < N
        invariant
            i <= N,
            slots@.len() == N,
            slots@ == old(slots)@,
            forall|j: int| 0 <= j < i ==> !can_stack(#[trigger] slots@[j], block),
        decreases N - i,
    {
        let slot = slots[i];
        if slot.block == block && slot.count < STACK_LIMIT {
            proof {
                lemma_first_stack_skip(slots@, block, i as int);
            }
            slots[i] = InventorySlot { block, count: slot.count + 1 };
            proof {
                assert(slots_within_limit(old(slots)@) ==> slots_within_limit(slots@)) by {
                    if slots_within_limit(old(slots)@) {
                        assert forall|j: int| 0 <= j < slots@.len() implies (#[trigger] slots@[j]).count <= STACK_LIMIT by {
                            if j != i {
                                assert(slots@[j] == old(slots)@[j]);
                            }
                        }
                    }
                }
            }
            return true;
        }
        i = i + 1;
    }
    proof {
        lemma_first_stack_skip(slots@, block, N as int);
    }
    false
}

/// Puts one `block` into the first empty slot.
fn try_insert_empty_slot<const N: usize>(slots: &mut [InventorySlot; N], block: Block) -> (done: bool)
    ensures
        done == (placed(old(slots)@, block) is Some),
        done ==> final(slots)@ == placed(old(slots)@, block)->0,
        !done ==> final(slots)@ == old(slots)@,
        slots_within_limit(old(slots)@) ==> slots_within_limit(final(slots)@),
    no_unwind
{
    let mut i: usize = 0;
    while i < N
        invariant
            i <= N,
            slots@.len() == N,
            slots@ == old(slots)@,
            forall|j: int| 0 <= j < i ==> !slot_is_empty(#[trigger] slots@[j]),
        decreases N - i,
    {
        let slot = slots[i];
        if slot.count == 0 || matches!(slot.block, Block::Air) {
            proof {
                lemma_first_empty_skip(slots@, i as int);
            }
            slots[i] = InventorySlot { block, count: 1 };
            proof {
                assert(slots_within_limit(old(slots)@) ==> slots_within_limit(slots@)) by {
                    if slots_within_limit(old(slots)@) {
                        assert forall|j: int| 0 <= j < slots@.len() implies (#[trigger] slots@[j]).count <= STACK_LIMIT by {
                            if j != i {
                                assert(slots@[j] == old(slots)@[j]);
                            }
                        }
                    }
                }
            }
            return true;
        }
        i = i + 1;
    }
    proof {
        lemma_first_empty_skip(slots@, N as int);
    }
    false
}

/// What one slot adds to the stock of `block`.
pub open spec fn slot_stock(slot: InventorySlot, block: Block) -> int {
    if slot.block == block {
        slot.count as int
    } else {
        0
    }
}

/// Replacing one slot changes the stock by the difference of the two slots.
pub proof fn lemma_stock_update(slots: Seq<InventorySlot>, i: int, slot: InventorySlot, block: Block)
    requires
        0 <= i < slots.len(),
    ensures
        stock(slots.update(i, slot), block) == stock(slots, block) - slot_stock(slots[i], block) + slot_stock(slot, block),
    decreases slots.len(),
{
    let t = slots.update(i, slot);
    if i == slots.len() - 1 {
        assert(t.drop_last() == slots.drop_last());
    } else {
        assert(t.drop_last() == slots.drop_last().update(i, slot));
        lemma_stock_update(slots.drop_last(), i, slot, block);
    }
}

proof fn lemma_first_stack_found(slots: Seq<InventorySlot>, block: Block, i: int)
    requires
        0 <= i,
        first_stack_from(slots, block, i) is Some,
    ensures
        ({
            let k = first_stack_from(slots, block, i)->0;
            i <= k < slots.len() && can_stack(slots[k], block)
        }),
    decreases slots.len() - i,
{
    if i < slots.len() && !can_stack(slots[i], block) {
        lemma_first_stack_found(slots, block, i + 1);
    }
}

proof fn lemma_first_empty_found(slots: Seq<InventorySlot>, i: int)
    requires
        0 <= i,
        first_empty_from(slots, i) is Some,
    ensures
        ({
            let k = first_empty_from(slots, i)->0;
            i <= k < slots.len() && slot_is_empty(slots[k])
        }),
    decreases slots.len() - i,
{
    if i < slots.len() && !slot_is_empty(slots[i]) {
        lemma_first_empty_found(slots, i + 1);
    }
}

proof fn lemma_stacked_stock(slots: Seq<InventorySlot>, block: Block, other: Block)
    requires
        stacked(slots, block) is Some,
        other != block,
    ensures
        stock(stacked(slots, block)->0, block) == stock(slots, block) + 1,
        stock(stacked(slots, block)->0, other) == stock(slots, other),
{
    lemma_first_stack_found(slots, block, 0);
    let k = first_stack_from(slots, block, 0)->0;
    let v = InventorySlot { block, count: (slots[k].count + 1) as u32 };
    lemma_stock_update(slots, k, v, block);
    lemma_stock_update(slots, k, v, other);
}

proof fn lemma_placed_stock(slots: Seq<InventorySlot>, block: Block, other: Block)
    requires
        placed(slots, block) is Some,
        stacked(slots, block) is None,
        block != Block::Air,
        other != block,
        other != Block::Air,
    ensures
        stock(placed(slots, block)->0, block) == stock(slots, block) + 1,
        stock(placed(slots, block)->0, other) == stock(slots, other),
{
    lemma_first_empty_found(slots, 0);
    let k = first_empty_from(slots, 0)->0;
    let v = InventorySlot { block, count: 1 };
    lemma_stock_update(slots, k, v, block);
    lemma_stock_update(slots, k, v, other);
}

/// Picking up a block adds exactly one of it to the inventory and leaves the
/// stock of every other (non-air) block unchanged.
pub proof fn lemma_pick_up_adds_one(inv: InventoryView, block: Block, other: Block)
    requires
        picked_up(inv, block) is Some,
        other != block,
        other != Block::Air,
    ensures
        total_stock(picked_up(inv, block)->0, block) == total_stock(inv, block) + 1,
        total_stock(picked_up(inv, block)->0, other) == total_stock(inv, other),
{
    if stacked(inv.hotbar, block) is Some {
        lemma_stacked_stock(inv.hotbar, block, other);
    } else if placed(inv.hotbar, block) is Some {
        lemma_placed_stock(inv.hotbar, block, other);
    } else if stacked(inv.backpack, block) is Some {
        lemma_stacked_stock(inv.backpack, block, other);
    } else {
        lemma_placed_stock(inv.backpack, block, other);
    }
}

/// Moving a backpack stack onto the hotbar keeps the stock of every non-air
/// block: nothing is created or lost.
pub proof fn lemma_move_keeps_stock(inv: InventoryView, backpack_index: int, hotbar_index: int, block: Block)
    requires
        0 <= backpack_index < inv.backpack.len(),
        0 <= hotbar_index < inv.hotbar.len(),
        !slot_is_empty(inv.backpack[backpack_index]),
        block != Block::Air,
    ensures
        ({
            let (from, to) = moved_to_hotbar(inv.backpack[backpack_index], inv.hotbar[hotbar_index]);
            total_stock(
                InventoryView {
                    hotbar: inv.hotbar.update(hotbar_index, to),
                    backpack: inv.backpack.update(backpack_index, from),
                    selected: inv.selected,
                },
                block,
            ) == total_stock(inv, block)
        }),
{
    let (from, to) = moved_to_hotbar(inv.backpack[backpack_index], inv.hotbar[hotbar_index]);
    lemma_stock_update(inv.hotbar, hotbar_index, to, block);
    lemma_stock_update(inv.backpack, backpack_index, from, block);
}

/// Taking from a non-empty slot removes exactly one of its block and leaves
/// every other non-air block's stock unchanged.
pub proof fn lemma_take_removes_one(inv: InventoryView, other: Block)
    requires
        inventory_wf(inv),
        !slot_is_empty(inv.hotbar[inv.selected]),
        other != inv.hotbar[inv.selected].block,
        other != Block::Air,
    ensures
        ({
            let slot = inv.hotbar[inv.selected];
            let after = InventoryView { hotbar: inv.hotbar.update(inv.selected, taken_one(slot)), ..inv };
            &&& total_stock(after, slot.block) == total_stock(inv, slot.block) - 1
            &&& total_stock(after, other) == total_stock(inv, other)
        }),
{
    let slot = inv.hotbar[inv.selected];
    lemma_stock_update(inv.hotbar, inv.selected, taken_one(slot), slot.block);
    lemma_stock_update(inv.hotbar, inv.selected, taken_one(slot), other);
}

} // verus!

verus! {

/// The slot holds `block` and has room for one more.
pub open spec fn has_room_for(slot: InventorySlot, block: Block) -> bool {
    slot.block == block && slot.count < STACK_LIMIT
}

/// The slot holds nothing: no items, or air.
pub open spec fn holds_nothing(slot: InventorySlot) -> bool {
    slot.count == 0 || slot.block == Block::Air
}

proof fn lemma_first_stack_at(slots: Seq<InventorySlot>, block: Block, j: int)
    requires
        0 <= j < slots.len(),
        has_room_for(slots[j], block),
        forall|k: int| 0 <= k < j ==> !has_room_for(#[trigger] slots[k], block),
    ensures
        first_stack_from(slots, block, 0) == Some(j),
{
    lemma_first_stack_skip(slots, block, j);
}

proof fn lemma_no_stack(slots: Seq<InventorySlot>, block: Block)
    requires
        forall|k: int| 0 <= k < slots.len() ==> !has_room_for(#[trigger] slots[k], block),
    ensures
        first_stack_from(slots, block, 0) is None,
{
    lemma_first_stack_skip(slots, block, slots.len() as int);
}

proof fn lemma_first_empty_at(slots: Seq<InventorySlot>, j: int)
    requires
        0 <= j < slots.len(),
        holds_nothing(slots[j]),
        forall|k: int| 0 <= k < j ==> !holds_nothing(#[trigger] slots[k]),
    ensures
        first_empty_from(slots, 0) == Some(j),
{
    lemma_first_empty_skip(slots, j);
}

proof fn lemma_no_empty(slots: Seq<InventorySlot>)
    requires
        forall|k: int| 0 <= k < slots.len() ==> !holds_nothing(#[trigger] slots[k]),
    ensures
        first_empty_from(slots, 0) is None,
{
    lemma_first_empty_skip(slots, slots.len() as int);
}

/// Picking up a block joins the first hotbar stack of it that has room;
/// nothing else changes.
pub proof fn lemma_pickup_joins_first_hotbar_stack(inv: InventoryView, block: Block, j: int)
    requires
        block != Block::Air,
        0 <= j < inv.hotbar.len(),
        has_room_for(inv.hotbar[j], block),
        forall|k: int| 0 <= k < j ==> !has_room_for(#[trigger] inv.hotbar[k], block),
    ensures
        picked_up(inv, block) == Some(
            InventoryView {
                hotbar: inv.hotbar.update(j, InventorySlot { block, count: (inv.hotbar[j].count + 1) as u32 }),
                ..inv
            },
        ),
{
    lemma_first_stack_at(inv.hotbar, block, j);
}

/// With no hotbar stack of the block that has room, picking it up fills the
/// first empty hotbar slot with one of it, before any backpack slot; the
/// backpack is unchanged.
pub proof fn lemma_pickup_fills_first_empty_hotbar_slot(inv: InventoryView, block: Block, j: int)
    requires
        block != Block::Air,
        forall|k: int| 0 <= k < inv.hotbar.len() ==> !has_room_for(#[trigger] inv.hotbar[k], block),
        0 <= j < inv.hotbar.len(),
        holds_nothing(inv.hotbar[j]),
        forall|k: int| 0 <= k < j ==> !holds_nothing(#[trigger] inv.hotbar[k]),
    ensures
        picked_up(inv, block) == Some(
            InventoryView { hotbar: inv.hotbar.update(j, InventorySlot { block, count: 1 }), ..inv },
        ),
{
    lemma_no_stack(inv.hotbar, block);
    lemma_first_empty_at(inv.hotbar, j);
}

/// Only when the hotbar has neither a stack of the block with room nor an
/// empty slot does a picked-up block go to the backpack: joining its first
/// stack with room there, else its first empty slot; the hotbar is unchanged.
pub proof fn lemma_pickup_goes_to_backpack_when_hotbar_full(inv: InventoryView, block: Block, j: int)
    requires
        block != Block::Air,
        forall|k: int|
            0 <= k < inv.hotbar.len() ==> !has_room_for(#[trigger] inv.hotbar[k], block) && !holds_nothing(inv.hotbar[k]),
        0 <= j < inv.backpack.len(),
        has_room_for(inv.backpack[j], block) || holds_nothing(inv.backpack[j]),
        forall|k: int| 0 <= k < j ==> !has_room_for(#[trigger] inv.backpack[k], block) && !holds_nothing(inv.backpack[k]),
        has_room_for(inv.backpack[j], block) || forall|k: int|
            0 <= k < inv.backpack.len() ==> !has_room_for(#[trigger] inv.backpack[k], block),
    ensures
        picked_up(inv, block) matches Some(next) && next.hotbar == inv.hotbar && next.selected == inv.selected
            && next.backpack == inv.backpack.update(
            j,
            InventorySlot {
                block,
                count: if has_room_for(inv.backpack[j], block) {
                    (inv.backpack[j].count + 1) as u32
                } else {
                    1u32
                },
            },
        ),
{
    assert forall|k: int| 0 <= k < inv.hotbar.len() implies !has_room_for(#[trigger] inv.hotbar[k], block) by {}
    assert forall|k: int| 0 <= k < inv.hotbar.len() implies !holds_nothing(#[trigger] inv.hotbar[k]) by {}
    lemma_no_stack(inv.hotbar, block);
    lemma_no_empty(inv.hotbar);
    if has_room_for(inv.backpack[j], block) {
        assert forall|k: int| 0 <= k < j implies !has_room_for(#[trigger] inv.backpack[k], block) by {}
        lemma_first_stack_at(inv.backpack, block, j);
    } else {
        lemma_no_stack(inv.backpack, block);
        assert forall|k: int| 0 <= k < j implies !holds_nothing(#[trigger] inv.backpack[k]) by {}
        lemma_first_empty_at(inv.backpack, j);
    }
}

} // verus!
