//! Game-shell state: menus, the inventory cursor, build mode, frame caps,
//! chunk streaming budgets and the terrain lab's save names.
use vstd::prelude::*;

use crate::game::block_style::euclid_mod;
use crate::game::inventory::{
    picked_up, slot_is_empty, taken_one, Inventory, InventoryView, BACKPACK_COLS, BACKPACK_ROWS,
    BACKPACK_SIZE, HOTBAR_SIZE,
};
use crate::game::world::{spec_block_id, spec_is_solid, Block, BLOCK_COUNT};
use crate::text::{
    ascii_lower, chars_of, is_ascii_alphanumeric, is_ascii_digit, is_ascii_lower, join_words_of,
    push_signed_decimal, signed_decimal, to_ascii_lowercase, words_or,
};

pub mod lod;
pub mod lod_cover;
pub mod perf;
pub mod launch;
pub mod streaming;
pub mod sub_edit;

verus! {

/// Which camera drives the view.
#[derive(Clone, Copy, Debug, PartialEq, Eq, Structural)]
pub enum CameraMode {
    Player,
    Free,
}

impl CameraMode {
    pub fn label(self) -> (s: &'static str)
        ensures
            s@ == match self {
                CameraMode::Player => "player"@,
                CameraMode::Free => "free"@,
            },
    {
        match self {
            CameraMode::Player => "player",
            CameraMode::Free => "free",
        }
    }
}

/// What the player is doing with the window.
#[derive(Clone, Copy, Debug, PartialEq, Eq, Structural)]
pub enum UiMode {
    Playing,
    Paused,
    Inventory,
}

/// Pages of the pause menu.
#[derive(Clone, Copy, Debug, PartialEq, Eq, Structural)]
pub enum MenuPage {
    Main,
    Settings,
    Graphics,
}

/// The two areas of the inventory screen.
#[derive(Clone, Copy, Debug, PartialEq, Eq, Structural)]
pub enum InventorySection {
    Hotbar,
    Backpack,
}

/// How finely build mode splits a block.
#[derive(Clone, Copy, Debug, PartialEq, Eq, Structural)]
pub enum SubdivideScale {
    Full,
    Thirds,
    Sixths,
}

pub open spec fn scale_index(scale: SubdivideScale) -> int {
    match scale {
        SubdivideScale::Full => 0,
        SubdivideScale::Thirds => 1,
        SubdivideScale::Sixths => 2,
    }
}

/// Sub-block units a whole block is worth.
pub const SUB_UNITS_PER_BLOCK: u16 = 6;

impl SubdivideScale {
    pub fn label(self) -> (s: &'static str)
        ensures
            s@ == match self {
                SubdivideScale::Full => "1X1"@,
                SubdivideScale::Thirds => "3X3"@,
                SubdivideScale::Sixths => "6X6"@,
            },
    {
        match self {
            SubdivideScale::Full => "1X1",
            SubdivideScale::Thirds => "3X3",
            SubdivideScale::Sixths => "6X6",
        }
    }

    /// The scale `delta` steps on in the order full, thirds, sixths, wrapping.
    pub fn cycle(self, delta: i32) -> (scale: SubdivideScale)
        ensures
            scale_index(scale) == (scale_index(self) + delta) % 3,
    {
        let idx: i64 = match self {
            SubdivideScale::Full => 0,
            SubdivideScale::Thirds => 1,
            SubdivideScale::Sixths => 2,
        };
        let next = euclid_mod(idx + delta as i64, 3);
        match next {
            1 => SubdivideScale::Thirds,
            2 => SubdivideScale::Sixths,
            _ => SubdivideScale::Full,
        }
    }

    /// Sub-cells per axis.
    pub fn divisions(self) -> (d: u8)
        ensures
            d == match self {
                SubdivideScale::Full => 1u8,
                SubdivideScale::Thirds => 3u8,
                SubdivideScale::Sixths => 6u8,
            },
    {
        match self {
            SubdivideScale::Full => 1,
            SubdivideScale::Thirds => 3,
            SubdivideScale::Sixths => 6,
        }
    }

    /// Sub-block units one piece of this scale costs.
    pub fn piece_cost_units(self) -> (units: u16)
        ensures
            units == match self {
                SubdivideScale::Full => 6u16,
                SubdivideScale::Thirds => 2u16,
                SubdivideScale::Sixths => 1u16,
            },
    {
        match self {
            SubdivideScale::Thirds => 2,
            SubdivideScale::Sixths => 1,
            SubdivideScale::Full => 6,
        }
    }
}

/// Networking mode of a play session.
#[derive(Clone, Copy, Debug, PartialEq, Eq, Structural)]
pub enum SessionNetMode {
    Solo,
    HostLocal,
    JoinLocal,
}

impl SessionNetMode {
    pub fn label(self) -> (s: &'static str)
        ensures
            s@ == match self {
                SessionNetMode::Solo => "solo"@,
                SessionNetMode::HostLocal => "host-local"@,
                SessionNetMode::JoinLocal => "join-local"@,
            },
    {
        match self {
            SessionNetMode::Solo => "solo",
            SessionNetMode::HostLocal => "host-local",
            SessionNetMode::JoinLocal => "join-local",
        }
    }

    pub fn menu_label(self) -> (s: &'static str)
        ensures
            s@ == match self {
                SessionNetMode::Solo => "SINGLEPLAYER (OFFLINE)"@,
                SessionNetMode::HostLocal => "HOST LOCAL SERVER"@,
                SessionNetMode::JoinLocal => "JOIN LOCAL SERVER"@,
            },
    {
        match self {
            SessionNetMode::Solo => "SINGLEPLAYER (OFFLINE)",
            SessionNetMode::HostLocal => "HOST LOCAL SERVER",
            SessionNetMode::JoinLocal => "JOIN LOCAL SERVER",
        }
    }

    /// Every networked mode predicts locally; solo play does not.
    pub fn prediction_enabled(self) -> (b: bool)
        ensures
            b == (self != SessionNetMode::Solo),
    {
        !matches!(self, SessionNetMode::Solo)
    }
}

/// Menu keys.
#[derive(Clone, Copy, Debug, PartialEq, Eq, Structural)]
pub enum MenuKey {
    Up,
    Down,
    Left,
    Right,
    Enter,
    Escape,
}

/// What the shell does after a menu key.
#[derive(Clone, Copy, Debug, PartialEq, Eq, Structural)]
pub enum MenuAction {
    Idle,
    AdjustValue(i32),
    Activate,
    Back,
}

/// The pause menu's state.
#[derive(Clone, Copy, Debug, PartialEq, Eq, Structural)]
pub struct MenuState {
    pub ui_mode: UiMode,
    pub page: MenuPage,
    pub index: usize,
    pub hover_index: Option<usize>,
}

impl MenuState {
    /// Playing, on the main page, first item, nothing hovered.
    pub fn new() -> (m: Self)
        ensures
            m == (MenuState { ui_mode: UiMode::Playing, page: MenuPage::Main, index: 0, hover_index: None }),
    {
        MenuState { ui_mode: UiMode::Playing, page: MenuPage::Main, index: 0, hover_index: None }
    }

    /// Opens the pause menu on its main page.
    pub fn open_pause_menu(&mut self)
        ensures
            *final(self) == (MenuState { ui_mode: UiMode::Paused, page: MenuPage::Main, index: 0, hover_index: None }),
    {
        self.ui_mode = UiMode::Paused;
        self.page = MenuPage::Main;
        self.index = 0;
        self.hover_index = None;
    }

    /// Moves the selection with the arrow keys (wrapping over `item_count`
    /// items) and reports what the other keys ask for.
    pub fn handle_menu_navigation(&mut self, key: MenuKey, item_count: usize) -> (action: MenuAction)
        requires
            item_count > 0,
            old(self).index < usize::MAX,
        ensures
            old(self).index < item_count ==> final(self).index < item_count,
            final(self).ui_mode == old(self).ui_mode,
            final(self).page == old(self).page,
            match key {
                MenuKey::Up => {
                    &&& final(self).index == if old(self).index == 0 {
                        item_count - 1
                    } else {
                        old(self).index - 1
                    }
                    &&& final(self).hover_index is None
                    &&& action == MenuAction::Idle
                },
                MenuKey::Down => {
                    &&& final(self).index == (old(self).index + 1) % (item_count as int)
                    &&& final(self).hover_index is None
                    &&& action == MenuAction::Idle
                },
                MenuKey::Left => *final(self) == *old(self) && action == MenuAction::AdjustValue(-1i32),
                MenuKey::Right => *final(self) == *old(self) && action == MenuAction::AdjustValue(1i32),
                MenuKey::Enter => *final(self) == *old(self) && action == MenuAction::Activate,
                MenuKey::Escape => *final(self) == *old(self) && action == MenuAction::Back,
            },
    {
        match key {
            MenuKey::Up => {
                self.index = if self.index == 0 {
                    item_count - 1
                } else {
                    self.index - 1
                };
                self.hover_index = None;
                MenuAction::Idle
            },
            MenuKey::Down => {
                self.index = (self.index + 1) % item_count;
                self.hover_index = None;
                MenuAction::Idle
            },
            MenuKey::Left => MenuAction::AdjustValue(-1),
            MenuKey::Right => MenuAction::AdjustValue(1),
            MenuKey::Enter => MenuAction::Activate,
            MenuKey::Escape => MenuAction::Back,
        }
    }

    /// Leaves the current page: the main page resumes play, a sub-page goes
    /// up one level to its first item.
    pub fn menu_back_or_resume(&mut self)
        ensures
            final(self).hover_index is None,
            match old(self).page {
                MenuPage::Main => {
                    &&& final(self).ui_mode == UiMode::Playing
                    &&& final(self).page == MenuPage::Main
                    &&& final(self).index == old(self).index
                },
                MenuPage::Settings => {
                    &&& final(self).ui_mode == old(self).ui_mode
                    &&& final(self).page == MenuPage::Main
                    &&& final(self).index == 0
                },
                MenuPage::Graphics => {
                    &&& final(self).ui_mode == old(self).ui_mode
                    &&& final(self).page == MenuPage::Settings
                    &&& final(self).index == 0
                },
            },
    {
        match self.page {
            MenuPage::Main => {
                self.ui_mode = UiMode::Playing;
            },
            MenuPage::Settings => {
                self.page = MenuPage::Main;
                self.index = 0;
            },
            MenuPage::Graphics => {
                self.page = MenuPage::Settings;
                self.index = 0;
            },
        }
        self.hover_index = None;
    }
}

/// Inventory screen keys.
#[derive(Clone, Copy, Debug, PartialEq, Eq, Structural)]
pub enum InventoryKey {
    Up,
    Down,
    Left,
    Right,
    Activate,
    Close,
}

/// What the shell does after an inventory key.
#[derive(Clone, Copy, Debug, PartialEq, Eq, Structural)]
pub enum InventoryAction {
    Idle,
    Activate,
    Close,
}

/// Highlighted cell of the inventory screen.
#[derive(Clone, Copy, Debug, PartialEq, Eq, Structural)]
pub struct InventoryCursor {
    pub section: InventorySection,
    pub index: usize,
}

/// The cursor points at a cell of its section.
pub open spec fn cursor_in_range(c: InventoryCursor) -> bool {
    match c.section {
        InventorySection::Hotbar => c.index < HOTBAR_SIZE,
        InventorySection::Backpack => c.index < BACKPACK_SIZE,
    }
}

/// The cursor after an arrow key.  In the hotbar, left and right wrap
/// around the bar and down enters the backpack's first row; in the
/// backpack, left and right wrap within the row, up from the first row
/// returns to the hotbar and down stops at the last row.
pub open spec fn cursor_moved(c: InventoryCursor, key: InventoryKey) -> InventoryCursor {
    let row = c.index as int / BACKPACK_COLS as int;
    let col = c.index as int % BACKPACK_COLS as int;
    match key {
        InventoryKey::Up => match c.section {
            InventorySection::Hotbar => c,
            InventorySection::Backpack => if row == 0 {
                InventoryCursor {
                    section: InventorySection::Hotbar,
                    index: if col < HOTBAR_SIZE - 1 {
                        col as usize
                    } else {
                        (HOTBAR_SIZE - 1) as usize
                    },
                }
            } else {
                InventoryCursor { index: (c.index - BACKPACK_COLS) as usize, ..c }
            },
        },
        InventoryKey::Down => match c.section {
            InventorySection::Hotbar => InventoryCursor {
                section: InventorySection::Backpack,
                index: if c.index < BACKPACK_COLS - 1 {
                    c.index
                } else {
                    (BACKPACK_COLS - 1) as usize
                },
            },
            InventorySection::Backpack => if row + 1 < BACKPACK_ROWS {
                InventoryCursor { index: (c.index + BACKPACK_COLS) as usize, ..c }
            } else {
                c
            },
        },
        InventoryKey::Left => match c.section {
            InventorySection::Hotbar => InventoryCursor {
                index: if c.index == 0 {
                    (HOTBAR_SIZE - 1) as usize
                } else {
                    (c.index - 1) as usize
                },
                ..c
            },
            InventorySection::Backpack => InventoryCursor {
                index: (row * BACKPACK_COLS + if col == 0 {
                    BACKPACK_COLS - 1
                } else {
                    col - 1
                }) as usize,
                ..c
            },
        },
        InventoryKey::Right => match c.section {
            InventorySection::Hotbar => InventoryCursor { index: ((c.index + 1) % HOTBAR_SIZE as int) as usize, ..c },
            InventorySection::Backpack => InventoryCursor {
                index: (row * BACKPACK_COLS + (col + 1) % BACKPACK_COLS as int) as usize,
                ..c
            },
        },
        _ => c,
    }
}

impl InventoryCursor {
    /// The cursor on the selected hotbar slot, as the inventory screen opens.
    pub fn on_selected_slot(inventory: &Inventory) -> (c: Self)
        ensures
            c == (InventoryCursor { section: InventorySection::Hotbar, index: inventory@.selected as usize }),
            cursor_in_range(c),
    {
        InventoryCursor { section: InventorySection::Hotbar, index: inventory.selected_hotbar_index() }
    }

    /// Handles an inventory-screen key: arrows move the cursor (see
    /// `cursor_moved`), the others ask the shell to activate or close.
    pub fn handle_inventory_navigation(&mut self, key: InventoryKey) -> (action: InventoryAction)
        requires
            cursor_in_range(*old(self)),
        ensures
            cursor_in_range(*final(self)),
            *final(self) == cursor_moved(*old(self), key),
            action == match key {
                InventoryKey::Activate => InventoryAction::Activate,
                InventoryKey::Close => InventoryAction::Close,
                _ => InventoryAction::Idle,
            },
    {
        match key {
            InventoryKey::Up => {
                match self.section {
                    InventorySection::Hotbar => {},
                    InventorySection::Backpack => {
                        let row = self.index / BACKPACK_COLS;
                        let col = self.index % BACKPACK_COLS;
                        if row == 0 {
                            self.section = InventorySection::Hotbar;
                            self.index = if col < HOTBAR_SIZE - 1 {
                                col
                            } else {
                                HOTBAR_SIZE - 1
                            };
                        } else {
                            self.index = self.index - BACKPACK_COLS;
                        }
                    },
                }
                InventoryAction::Idle
            },
            InventoryKey::Down => {
                match self.section {
                    InventorySection::Hotbar => {
                        self.section = InventorySection::Backpack;
                        self.index = if self.index < BACKPACK_COLS - 1 {
                            self.index
                        } else {
                            BACKPACK_COLS - 1
                        };
                    },
                    InventorySection::Backpack => {
                        let row = self.index / BACKPACK_COLS;
                        if row + 1 < BACKPACK_ROWS {
                            self.index = self.index + BACKPACK_COLS;
                        }
                    },
                }
                InventoryAction::Idle
            },
            InventoryKey::Left => {
                match self.section {
                    InventorySection::Hotbar => {
                        self.index = if self.index == 0 {
                            HOTBAR_SIZE - 1
                        } else {
                            self.index - 1
                        };
                    },
                    InventorySection::Backpack => {
                        let row = self.index / BACKPACK_COLS;
                        let col = self.index % BACKPACK_COLS;
                        let next_col = if col == 0 {
                            BACKPACK_COLS - 1
                        } else {
                            col - 1
                        };
                        self.index = row * BACKPACK_COLS + next_col;
                    },
                }
                InventoryAction::Idle
            },
            InventoryKey::Right => {
                match self.section {
                    InventorySection::Hotbar => {
                        self.index = (self.index + 1) % HOTBAR_SIZE;
                    },
                    InventorySection::Backpack => {
                        let row = self.index / BACKPACK_COLS;
                        let col = self.index % BACKPACK_COLS;
                        let next_col = (col + 1) % BACKPACK_COLS;
                        self.index = row * BACKPACK_COLS + next_col;
                    },
                }
                InventoryAction::Idle
            },
            InventoryKey::Activate => InventoryAction::Activate,
            InventoryKey::Close => InventoryAction::Close,
        }
    }

    /// Applies the highlighted cell: a hotbar cell becomes the selected slot;
    /// a backpack cell's stack moves onto the selected hotbar slot.
    pub fn activate_inventory_selection(&self, inventory: &mut Inventory)
        requires
            cursor_in_range(*self),
        ensures
            match self.section {
                InventorySection::Hotbar => final(inventory)@ == (InventoryView {
                    selected: self.index as int,
                    ..old(inventory)@
                }),
                InventorySection::Backpack => {
                    let from = old(inventory)@.backpack[self.index as int];
                    let sel = old(inventory)@.selected;
                    if slot_is_empty(from) {
                        final(inventory)@ == old(inventory)@
                    } else {
                        let (f, t) = crate::game::inventory::moved_to_hotbar(from, old(inventory)@.hotbar[sel]);
                        final(inventory)@ == InventoryView {
                            hotbar: old(inventory)@.hotbar.update(sel, t),
                            backpack: old(inventory)@.backpack.update(self.index as int, f),
                            selected: sel,
                        }
                    }
                },
            },
    {
        match self.section {
            InventorySection::Hotbar => {
                inventory.select_index(self.index);
            },
            InventorySection::Backpack => {
                let hotbar_index = inventory.selected_hotbar_index();
                let _ = inventory.move_backpack_slot_to_hotbar(self.index, hotbar_index);
            },
        }
    }
}

/// Build-mode state: the piece size and, per block type, sub-block units
/// already paid for but not yet placed.
#[derive(Clone, Copy, Debug)]
pub struct BuildModeState {
    pub subdivide_scale: SubdivideScale,
    pub sub_unit_wallet: [u16; BLOCK_COUNT],
}

/// Units of `block` in the wallet.
pub open spec fn wallet_units(state: BuildModeState, block: Block) -> int {
    state.sub_unit_wallet@[spec_block_id(block) as int] as int
}

/// Whole blocks and loose sub-block units of `block`, counted in units.
pub open spec fn unit_value(inv: InventoryView, state: BuildModeState, block: Block) -> int {
    SUB_UNITS_PER_BLOCK * crate::game::inventory::total_stock(inv, block) + wallet_units(state, block)
}

/// Blocks of `block` the selected slot can give up.
pub open spec fn available_blocks(inv: InventoryView, block: Block) -> nat {
    let slot = inv.hotbar[inv.selected];
    if slot_is_empty(slot) || slot.block != block {
        0
    } else {
        slot.count as nat
    }
}

/// Whole blocks to break so that a wallet holding `wallet` units covers `units`.
pub open spec fn blocks_needed(wallet: int, units: int) -> nat {
    if wallet >= units {
        0
    } else {
        ((units - wallet + 5) / 6) as nat
    }
}

/// A slot after `k` of its blocks are taken.
pub open spec fn slot_after_taking(slot: crate::game::inventory::InventorySlot, k: nat) -> crate::game::inventory::InventorySlot {
    if k == 0 {
        slot
    } else if slot.count == k {
        crate::game::inventory::empty_slot()
    } else {
        crate::game::inventory::InventorySlot { block: slot.block, count: (slot.count - k) as u32 }
    }
}

/// The inventory after `k` blocks are taken from the selected slot.
pub open spec fn after_taking(inv: InventoryView, k: nat) -> InventoryView {
    InventoryView { hotbar: inv.hotbar.update(inv.selected, slot_after_taking(inv.hotbar[inv.selected], k)), ..inv }
}

/// The inventory after `n` blocks of `block` are picked up in turn (as far
/// as there is room).
pub open spec fn picked_up_n(inv: InventoryView, block: Block, n: nat) -> InventoryView
    decreases n,
{
    if n == 0 {
        inv
    } else {
        match picked_up(picked_up_n(inv, block, (n - 1) as nat), block) {
            Some(next) => next,
            None => picked_up_n(inv, block, (n - 1) as nat),
        }
    }
}

/// What paying `units` of `block` did (see `BuildModeState::spend_sub_units`):
/// blocks broken off the selected slot into the wallet, as many as the price
/// needs or as the slot has, and the price taken from the wallet when they
/// sufficed; the scale and every other wallet stay.
pub open spec fn spent(
    state: BuildModeState,
    inv: InventoryView,
    state2: BuildModeState,
    inv2: InventoryView,
    block: Block,
    units: int,
    paid: bool,
) -> bool {
    let w0 = wallet_units(state, block);
    let avail = available_blocks(inv, block);
    let need = blocks_needed(w0, units);
    let k = if need <= avail {
        need
    } else {
        avail
    };
    &&& paid == (need <= avail)
    &&& inv2 == after_taking(inv, k)
    &&& wallet_units(state2, block) == w0 + SUB_UNITS_PER_BLOCK * k - if paid {
        units
    } else {
        0
    }
    &&& state2.subdivide_scale == state.subdivide_scale
    &&& forall|b: Block| b != block ==> wallet_units(state2, b) == wallet_units(state, b)
}

/// What giving back `units` of `block` did (see
/// `BuildModeState::refund_sub_units`).
pub open spec fn refunded(
    state: BuildModeState,
    inv: InventoryView,
    state2: BuildModeState,
    inv2: InventoryView,
    block: Block,
    units: int,
) -> bool {
    &&& state2.subdivide_scale == state.subdivide_scale
    &&& forall|b: Block| b != block ==> wallet_units(state2, b) == wallet_units(state, b)
    &&& !spec_is_solid(block) ==> state2 == state && inv2 == inv
    &&& spec_is_solid(block) ==> ({
        let total = wallet_units(state, block) + units;
        let w = wallet_units(state2, block);
        let added = ((total - w) / SUB_UNITS_PER_BLOCK as int) as nat;
        &&& 0 <= w <= total
        &&& (total - w) % SUB_UNITS_PER_BLOCK as int == 0
        &&& inv2 == picked_up_n(inv, block, added)
        &&& forall|n: nat| n < added ==> #[trigger] picked_up(picked_up_n(inv, block, n), block) is Some
        &&& (w < SUB_UNITS_PER_BLOCK || picked_up(inv2, block) is None)
    })
}

impl BuildModeState {
    /// Full-block pieces and an empty wallet.
    pub fn new() -> (s: Self)
        ensures
            s.subdivide_scale == SubdivideScale::Full,
            forall|i: int| 0 <= i < BLOCK_COUNT ==> #[trigger] s.sub_unit_wallet@[i] == 0,
    {
        BuildModeState { subdivide_scale: SubdivideScale::Full, sub_unit_wallet: [0u16; BLOCK_COUNT] }
    }

    /// Pays `units` of `block`: breaks whole blocks of it off the selected
    /// hotbar slot into the wallet (six units each) until the wallet covers
    /// the price, then takes the price from the wallet.  When the selected
    /// slot runs out of `block` first, the payment fails and the blocks
    /// broken so far stay in the wallet.
    pub fn spend_sub_units(&mut self, inventory: &mut Inventory, block: Block, units: u16) -> (paid: bool)
        requires
            units <= u16::MAX - SUB_UNITS_PER_BLOCK,
        ensures
            ({
                let w0 = wallet_units(*old(self), block);
                let avail = available_blocks(old(inventory)@, block);
                let need = blocks_needed(w0, units as int);
                let k = if need <= avail {
                    need
                } else {
                    avail
                };
                &&& paid == (need <= avail)
                &&& final(inventory)@ == after_taking(old(inventory)@, k)
                &&& wallet_units(*final(self), block) == w0 + SUB_UNITS_PER_BLOCK * k - if paid {
                    units as int
                } else {
                    0
                }
            }),
            final(self).subdivide_scale == old(self).subdivide_scale,
            forall|b: Block| b != block ==> wallet_units(*final(self), b) == wallet_units(*old(self), b),
    {
        let id = block.to_id() as usize;
        let ghost w0 = self.sub_unit_wallet@[id as int] as int;
        let ghost inv0 = inventory@;
        let ghost sel = inv0.selected;
        let ghost slot0 = inv0.hotbar[sel];
        let ghost avail = available_blocks(inv0, block);
        let ghost need = blocks_needed(w0, units as int);
        let ghost mut taken: nat = 0;
        let _ = inventory.selected_hotbar_index();
        proof {
            assert(inv0.hotbar =~= inv0.hotbar.update(sel, slot0));
        }
        while self.sub_unit_wallet[id] < units
            invariant
                id == spec_block_id(block),
                id < BLOCK_COUNT,
                units <= u16::MAX - SUB_UNITS_PER_BLOCK,
                self.subdivide_scale == old(self).subdivide_scale,
                forall|i: int| 0 <= i < BLOCK_COUNT && i != id ==> #[trigger] self.sub_unit_wallet@[i] == old(self).sub_unit_wallet@[i],
                self.sub_unit_wallet@[id as int] == w0 + SUB_UNITS_PER_BLOCK * taken,
                w0 + SUB_UNITS_PER_BLOCK * taken <= u16::MAX,
                taken <= avail,
                taken <= need,
                0 <= sel < HOTBAR_SIZE,
                crate::game::inventory::inventory_wf(inv0),
                inventory@ == after_taking(inv0, taken),
                inv0 == old(inventory)@,
                w0 == wallet_units(*old(self), block),
                slot0 == inv0.hotbar[sel],
                sel == inv0.selected,
                avail == available_blocks(inv0, block),
                need == blocks_needed(w0, units as int),
            decreases need - taken,
        {
            if !inventory.try_take_selected_matching(block) {
                proof {
                    lemma_take_fails(inv0, block, taken);
                    assert(taken == avail);
                    assert(need > avail) by {
                        lemma_needed_more(w0, units as int, taken);
                    }
                    assert(inventory@ == after_taking(inv0, taken));
                }
                return false;
            }
            self.sub_unit_wallet[id] = self.sub_unit_wallet[id] + SUB_UNITS_PER_BLOCK;
            proof {
                lemma_take_step(inv0, block, taken);
                lemma_needed_more(w0, units as int, taken);
                taken = taken + 1;
            }
        }
        self.sub_unit_wallet[id] = self.sub_unit_wallet[id] - units;
        proof {
            lemma_needed_exact(w0, units as int, taken);
            assert forall|b: Block| b != block implies wallet_units(*self, b) == wallet_units(*old(self), b) by {
                lemma_block_ids_differ(b, block);
            }
        }
        true
    }

    /// Gives back `units` of a solid `block`: they go into the wallet, and
    /// while it holds six units or more, six are turned back into a block
    /// that the inventory picks up, until it has no room.  Non-solid blocks
    /// are not refunded.
    pub fn refund_sub_units(&mut self, inventory: &mut Inventory, block: Block, units: u16)
        requires
            old(self).sub_unit_wallet@[spec_block_id(block) as int] + units <= u16::MAX,
        ensures
            final(self).subdivide_scale == old(self).subdivide_scale,
            forall|b: Block| b != block ==> wallet_units(*final(self), b) == wallet_units(*old(self), b),
            !spec_is_solid(block) ==> *final(self) == *old(self) && final(inventory)@ == old(inventory)@,
            spec_is_solid(block) ==> ({
                let total = wallet_units(*old(self), block) + units;
                let w = wallet_units(*final(self), block);
                let added = ((total - w) / SUB_UNITS_PER_BLOCK as int) as nat;
                &&& 0 <= w <= total
                &&& (total - w) % SUB_UNITS_PER_BLOCK as int == 0
                &&& final(inventory)@ == picked_up_n(old(inventory)@, block, added)
                &&& forall|n: nat| n < added ==> #[trigger] picked_up(picked_up_n(old(inventory)@, block, n), block) is Some
                &&& (w < SUB_UNITS_PER_BLOCK || picked_up(final(inventory)@, block) is None)
            }),
    {
        if !block.is_solid() {
            return;
        }
        let id = block.to_id() as usize;
        self.sub_unit_wallet[id] = self.sub_unit_wallet[id] + units;
        let ghost inv0 = inventory@;
        let ghost total = self.sub_unit_wallet@[id as int] as int;
        let ghost mut added: nat = 0;
        let mut room = true;
        while room && self.sub_unit_wallet[id] >= SUB_UNITS_PER_BLOCK
            invariant
                id == spec_block_id(block),
                id < BLOCK_COUNT,
                self.subdivide_scale == old(self).subdivide_scale,
                forall|i: int| 0 <= i < BLOCK_COUNT && i != id ==> #[trigger] self.sub_unit_wallet@[i] == old(self).sub_unit_wallet@[i],
                total == wallet_units(*old(self), block) + units,
                self.sub_unit_wallet@[id as int] + SUB_UNITS_PER_BLOCK * added == total,
                inventory@ == picked_up_n(inv0, block, added),
                forall|n: nat| n < added ==> #[trigger] picked_up(picked_up_n(inv0, block, n), block) is Some,
                !room ==> picked_up(inventory@, block) is None,
                inv0 == old(inventory)@,
            decreases self.sub_unit_wallet@[id as int] + if room {
                1int
            } else {
                0int
            },
        {
            let ghost before = inventory@;
            if inventory.add_block(block) {
                self.sub_unit_wallet[id] = self.sub_unit_wallet[id] - SUB_UNITS_PER_BLOCK;
                proof {
                    assert(picked_up_n(inv0, block, added + 1) == picked_up(before, block)->0);
                    assert forall|n: nat| n < added + 1 implies #[trigger] picked_up(picked_up_n(inv0, block, n), block) is Some by {
                        if n == added {
                            assert(picked_up_n(inv0, block, n) == before);
                        }
                    }
                    added = added + 1;
                }
            } else {
                room = false;
            }
        }
        proof {
            assert(total - self.sub_unit_wallet@[id as int] == SUB_UNITS_PER_BLOCK * added);
            vstd::arithmetic::div_mod::lemma_div_multiples_vanish(added as int, SUB_UNITS_PER_BLOCK as int);
            vstd::arithmetic::div_mod::lemma_mod_multiples_basic(added as int, SUB_UNITS_PER_BLOCK as int);
            assert forall|b: Block| b != block implies wallet_units(*self, b) == wallet_units(*old(self), b) by {
                lemma_block_ids_differ(b, block);
            }
        }
    }
}

/// Distinct blocks have distinct ids below the block count.
pub proof fn lemma_block_ids_differ(a: Block, b: Block)
    ensures
        spec_block_id(a) < BLOCK_COUNT,
        a != b ==> spec_block_id(a) != spec_block_id(b),
{
}

proof fn lemma_take_step(inv0: InventoryView, block: Block, taken: nat)
    requires
        0 <= inv0.selected < inv0.hotbar.len(),
        ({
            let s = after_taking(inv0, taken);
            let slot = s.hotbar[s.selected];
            !slot_is_empty(slot) && slot.block == block
        }),
        taken <= available_blocks(inv0, block),
    ensures
        taken + 1 <= available_blocks(inv0, block),
        ({
            let s = after_taking(inv0, taken);
            InventoryView { hotbar: s.hotbar.update(s.selected, taken_one(s.hotbar[s.selected])), ..s }
        }) == after_taking(inv0, taken + 1),
{
    let s = after_taking(inv0, taken);
    let slot0 = inv0.hotbar[inv0.selected];
    let t = after_taking(inv0, taken + 1);
    assert(s.hotbar[s.selected] == slot_after_taking(slot0, taken));
    assert(s.hotbar.update(s.selected, taken_one(s.hotbar[s.selected])) =~= t.hotbar);
}

proof fn lemma_take_fails(inv0: InventoryView, block: Block, taken: nat)
    requires
        0 <= inv0.selected < inv0.hotbar.len(),
        taken <= available_blocks(inv0, block),
        ({
            let s = after_taking(inv0, taken);
            let slot = s.hotbar[s.selected];
            slot_is_empty(slot) || slot.block != block
        }),
    ensures
        taken == available_blocks(inv0, block),
{
    let s = after_taking(inv0, taken);
    assert(s.hotbar[s.selected] == slot_after_taking(inv0.hotbar[inv0.selected], taken));
}

proof fn lemma_needed_more(w0: int, units: int, taken: nat)
    requires
        w0 + SUB_UNITS_PER_BLOCK * taken < units,
    ensures
        taken + 1 <= blocks_needed(w0, units),
{
}

proof fn lemma_needed_exact(w0: int, units: int, taken: nat)
    requires
        w0 + SUB_UNITS_PER_BLOCK * taken >= units,
        taken <= blocks_needed(w0, units),
        taken > 0 ==> w0 + SUB_UNITS_PER_BLOCK * (taken - 1) < units,
    ensures
        taken == blocks_needed(w0, units),
{
}

/// Breaking blocks into the wallet and paying from it keeps the value of
/// `block` (six units per whole block plus loose units) except for the price
/// paid; every other block keeps its whole value.
pub proof fn lemma_spend_keeps_value(inv: InventoryView, state: BuildModeState, after_state: BuildModeState, block: Block, units: int, k: nat, paid: bool, other: Block)
    requires
        crate::game::inventory::inventory_wf(inv),
        block != Block::Air,
        k <= available_blocks(inv, block),
        wallet_units(after_state, block) == wallet_units(state, block) + SUB_UNITS_PER_BLOCK * k - if paid {
            units
        } else {
            0
        },
        forall|b: Block| b != block ==> wallet_units(after_state, b) == wallet_units(state, b),
        other != block,
        other != Block::Air,
    ensures
        unit_value(after_taking(inv, k), after_state, block) == unit_value(inv, state, block) - if paid {
            units
        } else {
            0
        },
        unit_value(after_taking(inv, k), after_state, other) == unit_value(inv, state, other),
{
    let sel = inv.selected;
    let slot = inv.hotbar[sel];
    let v = slot_after_taking(slot, k);
    crate::game::inventory::lemma_stock_update(inv.hotbar, sel, v, block);
    crate::game::inventory::lemma_stock_update(inv.hotbar, sel, v, other);
}

/// Frame-rate caps the player cycles through; `None` is uncapped.
pub const FRAME_CAP_PRESET_COUNT: usize = 5;

pub open spec fn spec_frame_cap_preset(index: int) -> Option<u32> {
    if index == 1 {
        Some(60)
    } else if index == 2 {
        Some(120)
    } else if index == 3 {
        Some(144)
    } else if index == 4 {
        Some(240)
    } else {
        None
    }
}

/// The frame cap at preset `index`.
pub fn frame_cap_preset(index: usize) -> (cap: Option<u32>)
    requires
        index < FRAME_CAP_PRESET_COUNT,
    ensures
        cap == spec_frame_cap_preset(index as int),
{
    match index {
        1 => Some(60),
        2 => Some(120),
        3 => Some(144),
        4 => Some(240),
        _ => None,
    }
}

/// The preset after `index`, wrapping.
pub fn cycle_frame_cap(index: usize) -> (next: usize)
    requires
        index < FRAME_CAP_PRESET_COUNT,
    ensures
        next == (index + 1) % (FRAME_CAP_PRESET_COUNT as int),
{
    (index + 1) % FRAME_CAP_PRESET_COUNT
}

/// Text of a frame cap: `<fps> FPS cap`, or `uncapped`.
pub fn frame_cap_label(cap: Option<u32>) -> (s: String)
    ensures
        s@ == match cap {
            Some(fps) => crate::text::decimal(fps as nat) + " FPS cap"@,
            None => "uncapped"@,
        },
{
    match cap {
        Some(fps) => {
            let mut s = String::new();
            crate::text::push_decimal(&mut s, fps as u64);
            s.append(" FPS cap");
            s
        },
        None => String::from_str("uncapped"),
    }
}

/// Smallest and largest render distance, in chunks.
pub const MIN_RENDER_DISTANCE_CHUNKS: u32 = 2;
pub const MAX_RENDER_DISTANCE_CHUNKS: u32 = 128;
/// Floors of the chunk streaming budgets.
pub const MIN_CHUNK_UPLOADS_PER_FRAME: usize = 8;
pub const MIN_CHUNK_REQUESTS_IN_FLIGHT: usize = 192;

/// The render distance after a step of `delta`, kept within its bounds.
pub fn adjusted_render_distance(current: u32, delta: i32) -> (next: u32)
    requires
        current <= i32::MAX,
        i32::MIN <= current + delta <= i32::MAX,
    ensures
        next == if current + delta < MIN_RENDER_DISTANCE_CHUNKS {
            MIN_RENDER_DISTANCE_CHUNKS as int
        } else if current + delta > MAX_RENDER_DISTANCE_CHUNKS {
            MAX_RENDER_DISTANCE_CHUNKS as int
        } else {
            current + delta
        },
{
    let value = current as i32 + delta;
    if value < MIN_RENDER_DISTANCE_CHUNKS as i32 {
        MIN_RENDER_DISTANCE_CHUNKS
    } else if value > MAX_RENDER_DISTANCE_CHUNKS as i32 {
        MAX_RENDER_DISTANCE_CHUNKS
    } else {
        value as u32
    }
}

/// The level-of-detail start distance after a menu step of `delta` chunks,
/// kept within the settings' range.
pub fn adjusted_ldo_start(current: u32, delta: i32) -> (next: u32)
    requires
        current <= i32::MAX,
        i32::MIN <= current + delta <= i32::MAX,
    ensures
        next == if current + delta < crate::settings::MIN_LDO_START_DISTANCE_CHUNKS {
            crate::settings::MIN_LDO_START_DISTANCE_CHUNKS as int
        } else if current + delta > crate::settings::MAX_LDO_START_DISTANCE_CHUNKS {
            crate::settings::MAX_LDO_START_DISTANCE_CHUNKS as int
        } else {
            current + delta
        },
{
    let value = current as i32 + delta;
    if value < crate::settings::MIN_LDO_START_DISTANCE_CHUNKS as i32 {
        crate::settings::MIN_LDO_START_DISTANCE_CHUNKS
    } else if value > crate::settings::MAX_LDO_START_DISTANCE_CHUNKS as i32 {
        crate::settings::MAX_LDO_START_DISTANCE_CHUNKS
    } else {
        value as u32
    }
}

/// Chunk builds allowed in flight: 128 plus ten per chunk of render
/// distance, doubled while the terrain lab is on, kept within 192..=2048.
pub fn max_chunk_requests_in_flight(render_distance_chunks: u32, terrain_lab_enabled: bool) -> (n: usize)
    ensures
        n == ({
            let target = 128 + 10 * render_distance_chunks;
            let boosted = if terrain_lab_enabled {
                2 * target
            } else {
                target
            };
            if boosted < MIN_CHUNK_REQUESTS_IN_FLIGHT {
                MIN_CHUNK_REQUESTS_IN_FLIGHT as int
            } else if boosted > 2048 {
                2048
            } else {
                boosted
            }
        }),
{
    let rd = render_distance_chunks as u64;
    let target = 128 + rd * 10;
    let boosted = if terrain_lab_enabled {
        target * 2
    } else {
        target
    };
    if boosted < MIN_CHUNK_REQUESTS_IN_FLIGHT as u64 {
        MIN_CHUNK_REQUESTS_IN_FLIGHT
    } else if boosted > 2048 {
        2048
    } else {
        boosted as usize
    }
}

/// Chunk meshes uploaded per frame: a base of 8 (20 with the terrain lab)
/// plus one per eight chunks of render distance, at most 64.
pub fn max_chunk_uploads_per_frame(render_distance_chunks: u32, terrain_lab_enabled: bool) -> (n: usize)
    ensures
        n == ({
            let base: int = if terrain_lab_enabled {
                20
            } else {
                MIN_CHUNK_UPLOADS_PER_FRAME as int
            };
            let scaled = base + render_distance_chunks / 8;
            if scaled > 64 {
                64
            } else {
                scaled
            }
        }),
{
    let base: u64 = if terrain_lab_enabled {
        20
    } else {
        MIN_CHUNK_UPLOADS_PER_FRAME as u64
    };
    let scaled = base + (render_distance_chunks / 8) as u64;
    if scaled > 64 {
        64
    } else {
        scaled as usize
    }
}

/// Terrain lab panel state.
pub struct TerrainLabState {
    pub enabled: bool,
    pub panel_visible: bool,
    pub selected_index: usize,
    pub save_name: String,
    pub editing_save_name: bool,
    pub last_save_status: String,
}

impl TerrainLabState {
    pub fn new(enabled: bool, initial_save_name: String) -> (s: Self)
        ensures
            s.enabled == enabled,
            !s.panel_visible,
            s.selected_index == 0,
            s.save_name@ == initial_save_name@,
            !s.editing_save_name,
            s.last_save_status@ == Seq::<char>::empty(),
    {
        TerrainLabState {
            enabled,
            panel_visible: false,
            selected_index: 0,
            save_name: initial_save_name,
            editing_save_name: false,
            last_save_status: String::new(),
        }
    }
}

/// Settings of the running world session.
pub struct WorldSessionState {
    pub world_seed: i64,
    pub terrain_profile: String,
    pub terrain_recipe_path: Option<String>,
    pub dev_mode: bool,
    pub terrain_lab: TerrainLabState,
}

impl WorldSessionState {
    pub fn new(
        world_seed: i64,
        terrain_profile: String,
        terrain_recipe_path: Option<String>,
        dev_mode: bool,
        terrain_lab_enabled: bool,
        terrain_lab_save_name: String,
    ) -> (s: Self)
        ensures
            s.world_seed == world_seed,
            s.terrain_profile@ == terrain_profile@,
            s.terrain_recipe_path == terrain_recipe_path,
            s.dev_mode == dev_mode,
            s.terrain_lab.enabled == terrain_lab_enabled,
            !s.terrain_lab.panel_visible,
            s.terrain_lab.selected_index == 0,
            s.terrain_lab.save_name@ == terrain_lab_save_name@,
            !s.terrain_lab.editing_save_name,
    {
        WorldSessionState {
            world_seed,
            terrain_profile,
            terrain_recipe_path,
            dev_mode,
            terrain_lab: TerrainLabState::new(terrain_lab_enabled, terrain_lab_save_name),
        }
    }
}

/// The save name the terrain lab suggests for a seed.
pub fn default_terrain_lab_save_name(seed: i64) -> (name: String)
    ensures
        name@ == "terrain_lab_seed_"@ + signed_decimal(seed as int),
{
    let mut name = String::from_str("terrain_lab_seed_");
    push_signed_decimal(&mut name, seed);
    name
}

/// How a recipe-name character is kept: lowercase letters, digits, '-' and
/// '_' stay (capitals are lowercased first); anything else becomes '_'.
pub open spec fn recipe_name_char(c: char) -> char {
    let l = ascii_lower(c);
    if is_ascii_lower(l) || is_ascii_digit(l) || l == '-' || l == '_' {
        l
    } else {
        '_'
    }
}

/// The characters of a raw recipe name, each mapped by `recipe_name_char`.
pub open spec fn recipe_name_chars(raw: Seq<char>) -> Seq<char> {
    raw.map_values(|c: char| recipe_name_char(c))
}

/// A file-safe recipe name: the underscore-separated words of the mapped
/// name joined by single underscores, or `terrain` when none are left.
pub fn sanitize_terrain_recipe_name(raw: &str) -> (name: String)
    ensures
        name@ == words_or(recipe_name_chars(raw@), raw@.len(), "terrain"@),
{
    let chars = chars_of(raw);
    let mut mapped: Vec<char> = Vec::new();
    let mut i: usize = 0;
    while i < chars.len()
        invariant
            i <= chars@.len(),
            chars@ == raw@,
            mapped@ == recipe_name_chars(raw@).subrange(0, i as int),
        decreases chars@.len() - i,
    {
        let l = to_ascii_lowercase(chars[i]);
        let kept = if ('a' <= l && l <= 'z') || ('0' <= l && l <= '9') || l == '-' || l == '_' {
            l
        } else {
            '_'
        };
        mapped.push(kept);
        proof {
            assert(recipe_name_chars(raw@).subrange(0, i + 1) =~= recipe_name_chars(raw@).subrange(0, i as int).push(
                recipe_name_char(raw@[i as int]),
            ));
        }
        i = i + 1;
    }
    proof {
        assert(recipe_name_chars(raw@).subrange(0, raw@.len() as int) =~= recipe_name_chars(raw@));
    }
    join_words_of(&mapped, chars.len(), "terrain")
}

/// How a name character is kept: ASCII letters and digits, lowercased;
/// anything else becomes '_'.
pub open spec fn name_char(c: char) -> char {
    if is_ascii_alphanumeric(c) {
        ascii_lower(c)
    } else {
        '_'
    }
}

/// The characters of a name, each mapped by `name_char`.
pub open spec fn name_chars(raw: Seq<char>) -> Seq<char> {
    raw.map_values(|c: char| name_char(c))
}

/// Maps every character of `raw` by `name_char`.
pub fn map_name_chars(raw: &str) -> (mapped: Vec<char>)
    ensures
        mapped@ == name_chars(raw@),
{
    let chars = chars_of(raw);
    let mut mapped: Vec<char> = Vec::new();
    let mut i: usize = 0;
    while i < chars.len()
        invariant
            i <= chars@.len(),
            chars@ == raw@,
            mapped@ == name_chars(raw@).subrange(0, i as int),
        decreases chars@.len() - i,
    {
        let c = chars[i];
        let kept = if crate::text::is_alphanumeric_ascii(c) {
            to_ascii_lowercase(c)
        } else {
            '_'
        };
        mapped.push(kept);
        proof {
            assert(name_chars(raw@).subrange(0, i + 1) =~= name_chars(raw@).subrange(0, i as int).push(name_char(raw@[i as int])));
        }
        i = i + 1;
    }
    proof {
        assert(name_chars(raw@).subrange(0, raw@.len() as int) =~= name_chars(raw@));
    }
    mapped
}

/// The next pseudo-random value of a xorshift state, and the new state.
pub open spec fn xorshift(s: u64) -> u64 {
    let a = s ^ (s >> 12u64);
    let b = a ^ (a << 25u64);
    b ^ (b >> 27u64)
}

/// The xorshift* output for a state.
pub open spec fn xorshift_star(s: u64) -> u64 {
    vstd::wrapping::u64_specs::wrapping_mul(xorshift(s), 0x2545_F491_4F6C_DD1D)
}

/// A pseudo-random integer in `min..=max` (just `min` when the range is
/// empty or a single value), advancing the generator state.
pub fn random_i32_inclusive(state: &mut u64, min: i32, max: i32) -> (value: i32)
    requires
        max <= min || max - min < i32::MAX,
    ensures
        *final(state) == xorshift(*old(state)),
        max <= min ==> value == min,
        max > min ==> value == min + (xorshift_star(*old(state)) as int % 0x1_0000_0000) % (max - min + 1),
        max > min ==> min <= value <= max,
{
    *state ^= *state >> 12u64;
    *state ^= *state << 25u64;
    *state ^= *state >> 27u64;
    let value = state.wrapping_mul(0x2545F4914F6CDD1D);

    if max <= min {
        return min;
    }

    let span = (max - min + 1) as u32;
    let low = value as u32;
    proof {
        assert(low == value as int % 0x1_0000_0000) by (bit_vector)
            requires
                low == value as u32,
        ;
    }
    min + (low % span) as i32
}

} // verus!
