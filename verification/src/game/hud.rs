//! Text of the heads-up display.
use vstd::prelude::*;

use crate::game::inventory::{slot_is_empty, InventorySlot};
use crate::game::world::{spec_block_label, spec_block_short_code, Block};
use crate::text::{digit_char, push_char};

verus! {

/// A count shown with two digits, capped at 99.
pub open spec fn two_digit_count(count: u32) -> Seq<char> {
    let n: nat = if count > 99 {
        99
    } else {
        count as nat
    };
    seq![digit_char(n / 10), digit_char(n % 10)]
}

/// The cell text of a slot: `___` when empty, else the block's short code
/// and the count.
pub open spec fn slot_token(slot: InventorySlot) -> Seq<char> {
    if slot_is_empty(slot) {
        "___"@
    } else {
        spec_block_short_code(slot.block) + two_digit_count(slot.count)
    }
}

/// The slot at `idx`, or the empty slot past the end.
pub open spec fn slot_at(slots: Seq<InventorySlot>, idx: int) -> InventorySlot {
    if 0 <= idx < slots.len() {
        slots[idx]
    } else {
        InventorySlot { block: Block::Air, count: 0 }
    }
}

/// The tokens of `width` slots from `start`, separated by single spaces.
pub open spec fn inventory_row(slots: Seq<InventorySlot>, start: int, width: nat) -> Seq<char>
    decreases width,
{
    if width == 0 {
        Seq::empty()
    } else {
        let prev = inventory_row(slots, start, (width - 1) as nat);
        let tok = slot_token(slot_at(slots, start + width - 1));
        if prev.len() == 0 {
            tok
        } else {
            prev + seq![' '] + tok
        }
    }
}

pub struct HudFormatter;

impl HudFormatter {
    pub fn block_label(block: Block) -> (s: &'static str)
        ensures
            s@ == spec_block_label(block),
    {
        block.label()
    }

    pub fn block_short_code(block: Block) -> (s: &'static str)
        ensures
            s@ == spec_block_short_code(block),
    {
        block.short_code()
    }

    /// One row of inventory cells: `width` slots from `start` (slots past the
    /// end show as empty), separated by spaces.
    pub fn format_inventory_row(slots: &[InventorySlot], start: usize, width: usize) -> (row: String)
        requires
            start + width <= usize::MAX,
        ensures
            row@ == inventory_row(slots@, start as int, width as nat),
    {
        let mut out = String::new();
        let mut i: usize = 0;
        while i < width
            invariant
                i <= width,
                start + width <= usize::MAX,
                out@ == inventory_row(slots@, start as int, i as nat),
            decreases width - i,
        {
            let idx = start + i;
            let slot = if idx < slots.len() {
                slots[idx]
            } else {
                InventorySlot::default()
            };
            let ghost prev = out@;
            proof {
                lemma_row_nonempty(slots@, start as int, i as nat);
            }
            if i > 0 {
                push_char(&mut out, ' ');
            }
            let ghost with_sep = out@;
            if slot.is_empty() {
                out.append("___");
            } else {
                out.append(Self::block_short_code(slot.block));
                let shown = if slot.count > 99 {
                    99u32
                } else {
                    slot.count
                };
                push_char(&mut out, digit_of(shown / 10));
                push_char(&mut out, digit_of(shown % 10));
            }
            proof {
                let tok = slot_token(slot_at(slots@, idx as int));
                assert(out@ =~= with_sep + tok);
                if prev.len() == 0 {
                    assert(with_sep =~= prev);
                    assert(out@ =~= tok);
                } else {
                    assert(with_sep =~= prev + seq![' ']);
                }
            }
            i = i + 1;
        }
        out
    }
}

proof fn lemma_row_nonempty(slots: Seq<InventorySlot>, start: int, width: nat)
    ensures
        (inventory_row(slots, start, width).len() == 0) == (width == 0),
    decreases width,
{
    reveal_strlit("___");
    if width > 0 {
        lemma_row_nonempty(slots, start, (width - 1) as nat);
    }
}

/// The digit character of `d < 10`.
fn digit_of(d: u32) -> (c: char)
    requires
        d < 10,
    ensures
        c == digit_char(d as nat),
{
    let b: u8 = (48 + d) as u8;
    b as char
}

} // verus!
