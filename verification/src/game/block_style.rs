//! Texture editing selections and the text keys that name blocks.
use vstd::prelude::*;

use crate::game::world::Block;
use crate::text::{ascii_lower, ascii_upper, chars_eq, lower_seq, lowercase_chars, trim, trimmed_chars};

verus! {

/// A face of a block texture.
#[derive(Clone, Copy, Debug, PartialEq, Eq, Structural)]
pub enum TextureFace {
    Top,
    Side,
    Bottom,
}

pub open spec fn face_index(face: TextureFace) -> int {
    match face {
        TextureFace::Top => 0,
        TextureFace::Side => 1,
        TextureFace::Bottom => 2,
    }
}

impl TextureFace {
    pub fn label(self) -> (s: &'static str)
        ensures
            s@ == match self {
                TextureFace::Top => "TOP"@,
                TextureFace::Side => "SIDE"@,
                TextureFace::Bottom => "BOTTOM"@,
            },
    {
        match self {
            TextureFace::Top => "TOP",
            TextureFace::Side => "SIDE",
            TextureFace::Bottom => "BOTTOM",
        }
    }

    /// The face `delta` steps on in the order top, side, bottom, wrapping.
    pub fn cycle(self, delta: i32) -> (face: TextureFace)
        ensures
            face_index(face) == (face_index(self) + delta) % 3,
    {
        let idx: i64 = match self {
            TextureFace::Top => 0,
            TextureFace::Side => 1,
            TextureFace::Bottom => 2,
        };
        let next = euclid_mod(idx + delta as i64, 3);
        if next == 0 {
            TextureFace::Top
        } else if next == 1 {
            TextureFace::Side
        } else {
            TextureFace::Bottom
        }
    }
}

/// Non-negative remainder of `value` by a positive `modulus`.
pub fn euclid_mod(value: i64, modulus: i64) -> (r: i64)
    requires
        modulus > 0,
    ensures
        r == value % modulus,
        0 <= r < modulus,
{
    let v = value as i128;
    let m = modulus as i128;
    if v >= 0 {
        let r = ((v as u128) % (m as u128)) as i64;
        r
    } else {
        let a = ((-v) as u128) % (m as u128);
        proof {
            vstd::arithmetic::div_mod::lemma_fundamental_div_mod(value as int, modulus as int);
            vstd::arithmetic::div_mod::lemma_fundamental_div_mod(-(value as int), modulus as int);
            let q2 = (-(value as int)) / (modulus as int);
            assert(a == (-(value as int)) % (modulus as int));
            if a == 0 {
                assert(value == (-q2) * modulus) by (nonlinear_arith)
                    requires
                        -(value as int) == modulus * q2 + a,
                        a == 0,
                ;
                vstd::arithmetic::div_mod::lemma_fundamental_div_mod_converse(value as int, modulus as int, -q2, 0);
            } else {
                assert(value == (-q2 - 1) * modulus + (modulus - a)) by (nonlinear_arith)
                    requires
                        -(value as int) == modulus * q2 + a,
                ;
                vstd::arithmetic::div_mod::lemma_fundamental_div_mod_converse(value as int, modulus as int, -q2 - 1, modulus - a);
            }
        }
        if a == 0 {
            0
        } else {
            (m - a as i128) as i64
        }
    }
}

/// A color brush of the texture editor.
#[derive(Clone, Copy, Debug, PartialEq, Eq, Structural)]
pub enum TextureBrush {
    Lighten,
    Darken,
    Saturate,
    Desaturate,
    Warm,
    Cool,
    Shade,
    Noise,
}

pub open spec fn brush_index(brush: TextureBrush) -> int {
    match brush {
        TextureBrush::Lighten => 0,
        TextureBrush::Darken => 1,
        TextureBrush::Saturate => 2,
        TextureBrush::Desaturate => 3,
        TextureBrush::Warm => 4,
        TextureBrush::Cool => 5,
        TextureBrush::Shade => 6,
        TextureBrush::Noise => 7,
    }
}

impl TextureBrush {
    pub fn label(self) -> (s: &'static str)
        ensures
            s@ == match self {
                TextureBrush::Lighten => "LIGHTEN"@,
                TextureBrush::Darken => "DARKEN"@,
                TextureBrush::Saturate => "SATURATE"@,
                TextureBrush::Desaturate => "DESATURATE"@,
                TextureBrush::Warm => "WARM"@,
                TextureBrush::Cool => "COOL"@,
                TextureBrush::Shade => "SHADE"@,
                TextureBrush::Noise => "NOISE"@,
            },
    {
        match self {
            TextureBrush::Lighten => "LIGHTEN",
            TextureBrush::Darken => "DARKEN",
            TextureBrush::Saturate => "SATURATE",
            TextureBrush::Desaturate => "DESATURATE",
            TextureBrush::Warm => "WARM",
            TextureBrush::Cool => "COOL",
            TextureBrush::Shade => "SHADE",
            TextureBrush::Noise => "NOISE",
        }
    }

    /// The brush `delta` steps on in the brush order, wrapping.
    pub fn cycle(self, delta: i32) -> (brush: TextureBrush)
        ensures
            brush_index(brush) == (brush_index(self) + delta) % 8,
    {
        let idx: i64 = match self {
            TextureBrush::Lighten => 0,
            TextureBrush::Darken => 1,
            TextureBrush::Saturate => 2,
            TextureBrush::Desaturate => 3,
            TextureBrush::Warm => 4,
            TextureBrush::Cool => 5,
            TextureBrush::Shade => 6,
            TextureBrush::Noise => 7,
        };
        let next = euclid_mod(idx + delta as i64, 8);
        match next {
            0 => TextureBrush::Lighten,
            1 => TextureBrush::Darken,
            2 => TextureBrush::Saturate,
            3 => TextureBrush::Desaturate,
            4 => TextureBrush::Warm,
            5 => TextureBrush::Cool,
            6 => TextureBrush::Shade,
            _ => TextureBrush::Noise,
        }
    }
}

/// The text key of a block.
pub open spec fn spec_block_key(block: Block) -> Seq<char> {
    match block {
        Block::Air => "air"@,
        Block::Water => "water"@,
        Block::Grass => "grass"@,
        Block::Dirt => "dirt"@,
        Block::Stone => "stone"@,
        Block::Deepslate => "deepslate"@,
        Block::DeepDark => "deep_dark"@,
        Block::CustomA => "custom_a"@,
        Block::CustomB => "custom_b"@,
        Block::CustomC => "custom_c"@,
    }
}

pub fn block_key(block: Block) -> (s: &'static str)
    ensures
        s@ == spec_block_key(block),
{
    match block {
        Block::Air => "air",
        Block::Water => "water",
        Block::Grass => "grass",
        Block::Dirt => "dirt",
        Block::Stone => "stone",
        Block::Deepslate => "deepslate",
        Block::DeepDark => "deep_dark",
        Block::CustomA => "custom_a",
        Block::CustomB => "custom_b",
        Block::CustomC => "custom_c",
    }
}

/// The block named by a (trimmed, lowercased) key: its own key, or the key
/// without its underscore.
pub open spec fn spec_block_for_key(k: Seq<char>) -> Option<Block> {
    if k == "air"@ {
        Some(Block::Air)
    } else if k == "water"@ {
        Some(Block::Water)
    } else if k == "grass"@ {
        Some(Block::Grass)
    } else if k == "dirt"@ {
        Some(Block::Dirt)
    } else if k == "stone"@ {
        Some(Block::Stone)
    } else if k == "deepslate"@ {
        Some(Block::Deepslate)
    } else if k == "deep_dark"@ || k == "deepdark"@ {
        Some(Block::DeepDark)
    } else if k == "custom_a"@ || k == "customa"@ {
        Some(Block::CustomA)
    } else if k == "custom_b"@ || k == "customb"@ {
        Some(Block::CustomB)
    } else if k == "custom_c"@ || k == "customc"@ {
        Some(Block::CustomC)
    } else {
        None
    }
}

/// `s` with every ASCII small letter turned uppercase.
pub open spec fn upper_seq(s: Seq<char>) -> Seq<char> {
    s.map_values(|c: char| ascii_upper(c))
}

/// A key spelled in small ASCII letters and underscores.
spec fn plain_key(s: Seq<char>) -> bool {
    s.len() > 0 && forall|i: int| 0 <= i < s.len() ==> ('a' <= #[trigger] s[i] <= 'z' || s[i] == '_')
}

proof fn lemma_plain_key_reads(s: Seq<char>)
    requires
        plain_key(s),
    ensures
        lower_seq(trim(s)) == s,
        lower_seq(trim(upper_seq(s))) == s,
{
    let u = upper_seq(s);
    assert forall|i: int| 0 <= i < s.len() implies ascii_lower(#[trigger] u[i]) == s[i] && !crate::text::is_white_space(u[i])
        && !crate::text::is_white_space(s[i]) by {
        let c = s[i];
        if 'a' <= c <= 'z' {
            assert(('A' <= ((c as u32) - 32) as char <= 'Z'));
            assert((((((c as u32) - 32) as char) as u32) + 32) as char == c);
        }
    }
    crate::settings::lemma_trim_keeps(s);
    crate::settings::lemma_trim_keeps(u);
    assert(lower_seq(s) =~= s);
    assert(lower_seq(u) =~= s);
}

/// Every block's key reads back as that block, and so does the key written
/// in capitals.
pub proof fn lemma_block_key_round_trip(block: Block)
    ensures
        spec_block_for_key(lower_seq(trim(spec_block_key(block)))) == Some(block),
        spec_block_for_key(lower_seq(trim(upper_seq(spec_block_key(block))))) == Some(block),
{
    let k = spec_block_key(block);
    reveal_strlit("air");
    reveal_strlit("water");
    reveal_strlit("grass");
    reveal_strlit("dirt");
    reveal_strlit("stone");
    reveal_strlit("deepslate");
    reveal_strlit("deep_dark");
    reveal_strlit("deepdark");
    reveal_strlit("custom_a");
    reveal_strlit("customa");
    reveal_strlit("custom_b");
    reveal_strlit("customb");
    reveal_strlit("custom_c");
    reveal_strlit("customc");
    assert(plain_key(k));
    lemma_plain_key_reads(k);
}

/// Reads a block key, ignoring surrounding white space and ASCII case.
pub fn block_from_key(key: &str) -> (block: Option<Block>)
    ensures
        block == spec_block_for_key(lower_seq(trim(key@))),
{
    let trimmed = trimmed_chars(key);
    let k = lowercase_chars(&trimmed);
    if chars_eq(&k, "air") {
        Some(Block::Air)
    } else if chars_eq(&k, "water") {
        Some(Block::Water)
    } else if chars_eq(&k, "grass") {
        Some(Block::Grass)
    } else if chars_eq(&k, "dirt") {
        Some(Block::Dirt)
    } else if chars_eq(&k, "stone") {
        Some(Block::Stone)
    } else if chars_eq(&k, "deepslate") {
        Some(Block::Deepslate)
    } else if chars_eq(&k, "deep_dark") || chars_eq(&k, "deepdark") {
        Some(Block::DeepDark)
    } else if chars_eq(&k, "custom_a") || chars_eq(&k, "customa") {
        Some(Block::CustomA)
    } else if chars_eq(&k, "custom_b") || chars_eq(&k, "customb") {
        Some(Block::CustomB)
    } else if chars_eq(&k, "custom_c") || chars_eq(&k, "customc") {
        Some(Block::CustomC)
    } else {
        None
    }
}

} // verus!

verus! {

/// What a line of the block style book asks for.
#[derive(Clone, Debug)]
pub enum StyleLine {
    /// Nothing: blank, comment, version, or another kind of entry.
    Skipped,
    /// A style for a block, with the text of its eleven numbers: top, side
    /// and bottom colour (red, green, blue each), tint strength and grain
    /// strength; the caller reads them.
    Style(Block, Vec<String>),
}

/// Why a line of the block style book is refused.
#[derive(Clone, Debug)]
pub enum StyleLineError {
    /// A `style` line without exactly thirteen fields.
    FieldCount,
    /// A `style` line whose block key names no block.
    UnknownBlock(String),
}

/// What a style-book line does, as plain values.
pub ghost enum StyleOutcome {
    Skipped,
    Style(Block, Seq<Seq<char>>),
    FieldCount,
    UnknownBlock(Seq<char>),
}

/// What line `line` of a style book does: lines are trimmed; blank lines,
/// `#` comments and the `version=` line are skipped; otherwise the line is
/// split at commas into trimmed fields, and a `style` line must have thirteen
/// fields, the second a block key (see `block_from_key`), the rest its
/// numbers; lines of other kinds are skipped.
pub open spec fn style_line_outcome(line: Seq<char>) -> StyleOutcome {
    match crate::game::asset_registry::registry_fields(line) {
        None => StyleOutcome::Skipped,
        Some(fs) => if fs[0] == "style"@ {
            if fs.len() != 13 {
                StyleOutcome::FieldCount
            } else {
                match spec_block_for_key(lower_seq(trim(fs[1]))) {
                    Some(b) => StyleOutcome::Style(b, fs.subrange(2, 13)),
                    None => StyleOutcome::UnknownBlock(fs[1]),
                }
            }
        } else {
            StyleOutcome::Skipped
        },
    }
}

/// Reads one line of a block style book (see `style_line_outcome`).
pub fn read_style_line(line: &str) -> (r: Result<StyleLine, StyleLineError>)
    ensures
        match style_line_outcome(line@) {
            StyleOutcome::Skipped => r matches Ok(StyleLine::Skipped),
            StyleOutcome::Style(b, values) => r matches Ok(StyleLine::Style(c, vs)) && c == b && vs@.map_values(
                |s: String| s@,
            ) == values,
            StyleOutcome::FieldCount => r matches Err(StyleLineError::FieldCount),
            StyleOutcome::UnknownBlock(key) => r matches Err(StyleLineError::UnknownBlock(k)) && k@ == key,
        },
{
    let fields = match crate::game::asset_registry::registry_line_fields(line) {
        Some(fs) => fs,
        None => {
            return Ok(StyleLine::Skipped);
        },
    };
    let ghost fs = fields@.map_values(|f: String| f@);
    proof {
        let t = trim(line@);
        crate::text::lemma_split_on_nonempty(t, ',');
    }
    let kind = crate::text::chars_of(fields[0].as_str());
    if !chars_eq(&kind, "style") {
        return Ok(StyleLine::Skipped);
    }
    if fields.len() != 13 {
        return Err(StyleLineError::FieldCount);
    }
    match block_from_key(fields[1].as_str()) {
        None => Err(StyleLineError::UnknownBlock(fields[1].clone())),
        Some(block) => {
            let mut values: Vec<String> = Vec::new();
            let mut k: usize = 2;
            while k < 13
                invariant
                    2 <= k <= 13,
                    fields@.len() == 13,
                    fs == fields@.map_values(|f: String| f@),
                    values@.len() == k - 2,
                    forall|j: int| 0 <= j < k - 2 ==> #[trigger] values@[j]@ == fs[j + 2],
                decreases 13 - k,
            {
                values.push(fields[k].clone());
                k = k + 1;
            }
            proof {
                assert(values@.map_values(|s: String| s@) =~= fs.subrange(2, 13));
            }
            Ok(StyleLine::Style(block, values))
        },
    }
}

/// The lines a block style book starts with: a comment, the version and a
/// blank line; one `style` line per block follows.
pub open spec fn style_book_header() -> Seq<Seq<char>> {
    seq!["# Subdivism block style book"@, "version=1"@, Seq::empty()]
}

/// The first lines of a block style book (see `style_book_header`).
pub fn style_book_header_lines() -> (lines: Vec<String>)
    ensures
        lines@.map_values(|s: String| s@) == style_book_header(),
{
    let lines = vec![String::from_str("# Subdivism block style book"), String::from_str("version=1"), String::new()];
    proof {
        assert(lines@.map_values(|s: String| s@) =~= style_book_header());
    }
    lines
}

} // verus!
