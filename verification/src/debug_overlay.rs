//! The built-in 5x7 bitmap font of the debug overlay.
use vstd::prelude::*;

verus! {

/// Rows of the glyph for `ch`, top row first; bit 4 of a row is its leftmost
/// pixel. Capital letters, digits, '.', '-' and '_' have glyphs; every other
/// character, the space among them, is blank.
pub open spec fn glyph(ch: char) -> Seq<u8> {
    match ch {
        'A' => seq![0b01110u8, 0b10001u8, 0b10001u8, 0b11111u8, 0b10001u8, 0b10001u8, 0b10001u8],
        'B' => seq![0b11110u8, 0b10001u8, 0b10001u8, 0b11110u8, 0b10001u8, 0b10001u8, 0b11110u8],
        'C' => seq![0b01110u8, 0b10001u8, 0b10000u8, 0b10000u8, 0b10000u8, 0b10001u8, 0b01110u8],
        'D' => seq![0b11100u8, 0b10010u8, 0b10001u8, 0b10001u8, 0b10001u8, 0b10010u8, 0b11100u8],
        'E' => seq![0b11111u8, 0b10000u8, 0b10000u8, 0b11110u8, 0b10000u8, 0b10000u8, 0b11111u8],
        'F' => seq![0b11111u8, 0b10000u8, 0b10000u8, 0b11110u8, 0b10000u8, 0b10000u8, 0b10000u8],
        'G' => seq![0b01110u8, 0b10001u8, 0b10000u8, 0b10111u8, 0b10001u8, 0b10001u8, 0b01110u8],
        'H' => seq![0b10001u8, 0b10001u8, 0b10001u8, 0b11111u8, 0b10001u8, 0b10001u8, 0b10001u8],
        'I' => seq![0b01110u8, 0b00100u8, 0b00100u8, 0b00100u8, 0b00100u8, 0b00100u8, 0b01110u8],
        'J' => seq![0b00001u8, 0b00001u8, 0b00001u8, 0b00001u8, 0b10001u8, 0b10001u8, 0b01110u8],
        'K' => seq![0b10001u8, 0b10010u8, 0b10100u8, 0b11000u8, 0b10100u8, 0b10010u8, 0b10001u8],
        'L' => seq![0b10000u8, 0b10000u8, 0b10000u8, 0b10000u8, 0b10000u8, 0b10000u8, 0b11111u8],
        'M' => seq![0b10001u8, 0b11011u8, 0b10101u8, 0b10001u8, 0b10001u8, 0b10001u8, 0b10001u8],
        'N' => seq![0b10001u8, 0b11001u8, 0b10101u8, 0b10011u8, 0b10001u8, 0b10001u8, 0b10001u8],
        'O' => seq![0b01110u8, 0b10001u8, 0b10001u8, 0b10001u8, 0b10001u8, 0b10001u8, 0b01110u8],
        'P' => seq![0b11110u8, 0b10001u8, 0b10001u8, 0b11110u8, 0b10000u8, 0b10000u8, 0b10000u8],
        'Q' => seq![0b01110u8, 0b10001u8, 0b10001u8, 0b10001u8, 0b10101u8, 0b10010u8, 0b01101u8],
        'R' => seq![0b11110u8, 0b10001u8, 0b10001u8, 0b11110u8, 0b10100u8, 0b10010u8, 0b10001u8],
        'S' => seq![0b01111u8, 0b10000u8, 0b10000u8, 0b01110u8, 0b00001u8, 0b00001u8, 0b11110u8],
        'T' => seq![0b11111u8, 0b00100u8, 0b00100u8, 0b00100u8, 0b00100u8, 0b00100u8, 0b00100u8],
        'U' => seq![0b10001u8, 0b10001u8, 0b10001u8, 0b10001u8, 0b10001u8, 0b10001u8, 0b01110u8],
        'V' => seq![0b10001u8, 0b10001u8, 0b10001u8, 0b10001u8, 0b10001u8, 0b01010u8, 0b00100u8],
        'W' => seq![0b10001u8, 0b10001u8, 0b10001u8, 0b10101u8, 0b10101u8, 0b10101u8, 0b01010u8],
        'X' => seq![0b10001u8, 0b10001u8, 0b01010u8, 0b00100u8, 0b01010u8, 0b10001u8, 0b10001u8],
        'Y' => seq![0b10001u8, 0b10001u8, 0b01010u8, 0b00100u8, 0b00100u8, 0b00100u8, 0b00100u8],
        'Z' => seq![0b11111u8, 0b00001u8, 0b00010u8, 0b00100u8, 0b01000u8, 0b10000u8, 0b11111u8],
        '0' => seq![0b01110u8, 0b10001u8, 0b10011u8, 0b10101u8, 0b11001u8, 0b10001u8, 0b01110u8],
        '1' => seq![0b00100u8, 0b01100u8, 0b00100u8, 0b00100u8, 0b00100u8, 0b00100u8, 0b01110u8],
        '2' => seq![0b01110u8, 0b10001u8, 0b00001u8, 0b00010u8, 0b00100u8, 0b01000u8, 0b11111u8],
        '3' => seq![0b11110u8, 0b00001u8, 0b00001u8, 0b01110u8, 0b00001u8, 0b00001u8, 0b11110u8],
        '4' => seq![0b00010u8, 0b00110u8, 0b01010u8, 0b10010u8, 0b11111u8, 0b00010u8, 0b00010u8],
        '5' => seq![0b11111u8, 0b10000u8, 0b11110u8, 0b00001u8, 0b00001u8, 0b10001u8, 0b01110u8],
        '6' => seq![0b00110u8, 0b01000u8, 0b10000u8, 0b11110u8, 0b10001u8, 0b10001u8, 0b01110u8],
        '7' => seq![0b11111u8, 0b00001u8, 0b00010u8, 0b00100u8, 0b01000u8, 0b01000u8, 0b01000u8],
        '8' => seq![0b01110u8, 0b10001u8, 0b10001u8, 0b01110u8, 0b10001u8, 0b10001u8, 0b01110u8],
        '9' => seq![0b01110u8, 0b10001u8, 0b10001u8, 0b01111u8, 0b00001u8, 0b00010u8, 0b11100u8],
        '.' => seq![0b00000u8, 0b00000u8, 0b00000u8, 0b00000u8, 0b00000u8, 0b00110u8, 0b00110u8],
        '-' => seq![0b00000u8, 0b00000u8, 0b00000u8, 0b11111u8, 0b00000u8, 0b00000u8, 0b00000u8],
        '_' => seq![0b00000u8, 0b00000u8, 0b00000u8, 0b00000u8, 0b00000u8, 0b00000u8, 0b11111u8],
        _ => seq![0u8, 0u8, 0u8, 0u8, 0u8, 0u8, 0u8],
    }
}

/// The pixel rows of the glyph for `ch` (see `glyph`).
pub fn glyph_rows(ch: char) -> (rows: [u8; 7])
    ensures
        rows@ == glyph(ch),
{
    match ch {
        'A' => [0b01110, 0b10001, 0b10001, 0b11111, 0b10001, 0b10001, 0b10001],
        'B' => [0b11110, 0b10001, 0b10001, 0b11110, 0b10001, 0b10001, 0b11110],
        'C' => [0b01110, 0b10001, 0b10000, 0b10000, 0b10000, 0b10001, 0b01110],
        'D' => [0b11100, 0b10010, 0b10001, 0b10001, 0b10001, 0b10010, 0b11100],
        'E' => [0b11111, 0b10000, 0b10000, 0b11110, 0b10000, 0b10000, 0b11111],
        'F' => [0b11111, 0b10000, 0b10000, 0b11110, 0b10000, 0b10000, 0b10000],
        'G' => [0b01110, 0b10001, 0b10000, 0b10111, 0b10001, 0b10001, 0b01110],
        'H' => [0b10001, 0b10001, 0b10001, 0b11111, 0b10001, 0b10001, 0b10001],
        'I' => [0b01110, 0b00100, 0b00100, 0b00100, 0b00100, 0b00100, 0b01110],
        'J' => [0b00001, 0b00001, 0b00001, 0b00001, 0b10001, 0b10001, 0b01110],
        'K' => [0b10001, 0b10010, 0b10100, 0b11000, 0b10100, 0b10010, 0b10001],
        'L' => [0b10000, 0b10000, 0b10000, 0b10000, 0b10000, 0b10000, 0b11111],
        'M' => [0b10001, 0b11011, 0b10101, 0b10001, 0b10001, 0b10001, 0b10001],
        'N' => [0b10001, 0b11001, 0b10101, 0b10011, 0b10001, 0b10001, 0b10001],
        'O' => [0b01110, 0b10001, 0b10001, 0b10001, 0b10001, 0b10001, 0b01110],
        'P' => [0b11110, 0b10001, 0b10001, 0b11110, 0b10000, 0b10000, 0b10000],
        'Q' => [0b01110, 0b10001, 0b10001, 0b10001, 0b10101, 0b10010, 0b01101],
        'R' => [0b11110, 0b10001, 0b10001, 0b11110, 0b10100, 0b10010, 0b10001],
        'S' => [0b01111, 0b10000, 0b10000, 0b01110, 0b00001, 0b00001, 0b11110],
        'T' => [0b11111, 0b00100, 0b00100, 0b00100, 0b00100, 0b00100, 0b00100],
        'U' => [0b10001, 0b10001, 0b10001, 0b10001, 0b10001, 0b10001, 0b01110],
        'V' => [0b10001, 0b10001, 0b10001, 0b10001, 0b10001, 0b01010, 0b00100],
        'W' => [0b10001, 0b10001, 0b10001, 0b10101, 0b10101, 0b10101, 0b01010],
        'X' => [0b10001, 0b10001, 0b01010, 0b00100, 0b01010, 0b10001, 0b10001],
        'Y' => [0b10001, 0b10001, 0b01010, 0b00100, 0b00100, 0b00100, 0b00100],
        'Z' => [0b11111, 0b00001, 0b00010, 0b00100, 0b01000, 0b10000, 0b11111],
        '0' => [0b01110, 0b10001, 0b10011, 0b10101, 0b11001, 0b10001, 0b01110],
        '1' => [0b00100, 0b01100, 0b00100, 0b00100, 0b00100, 0b00100, 0b01110],
        '2' => [0b01110, 0b10001, 0b00001, 0b00010, 0b00100, 0b01000, 0b11111],
        '3' => [0b11110, 0b00001, 0b00001, 0b01110, 0b00001, 0b00001, 0b11110],
        '4' => [0b00010, 0b00110, 0b01010, 0b10010, 0b11111, 0b00010, 0b00010],
        '5' => [0b11111, 0b10000, 0b11110, 0b00001, 0b00001, 0b10001, 0b01110],
        '6' => [0b00110, 0b01000, 0b10000, 0b11110, 0b10001, 0b10001, 0b01110],
        '7' => [0b11111, 0b00001, 0b00010, 0b00100, 0b01000, 0b01000, 0b01000],
        '8' => [0b01110, 0b10001, 0b10001, 0b01110, 0b10001, 0b10001, 0b01110],
        '9' => [0b01110, 0b10001, 0b10001, 0b01111, 0b00001, 0b00010, 0b11100],
        '.' => [0b00000, 0b00000, 0b00000, 0b00000, 0b00000, 0b00110, 0b00110],
        '-' => [0b00000, 0b00000, 0b00000, 0b11111, 0b00000, 0b00000, 0b00000],
        '_' => [0b00000, 0b00000, 0b00000, 0b00000, 0b00000, 0b00000, 0b11111],
        _ => [0, 0, 0, 0, 0, 0, 0],
    }
}

/// Every glyph is seven rows of five pixels: no row has a bit above bit 4.
pub proof fn lemma_glyphs_fit_cell(ch: char)
    ensures
        glyph(ch).len() == 7,
        forall|row: int| 0 <= row < 7 ==> #[trigger] glyph(ch)[row] < 32,
{
}

} // verus!
