//! Names and display labels of the tunable terrain parameters.
use vstd::prelude::*;

use crate::text::{
    ascii_upper, chars_eq, chars_of, lower_seq, lowercase_chars, push_char, to_ascii_uppercase,
};

verus! {

/// Number of tunable terrain parameters.
pub const TERRAIN_PARAM_COUNT: usize = 31;

/// Key of parameter `i`.
pub open spec fn param_key(i: int) -> Seq<char> {
    if i == 0 {
        "base_height"@
    } else if i == 1 {
        "macro_scale"@
    } else if i == 2 {
        "macro_amplitude"@
    } else if i == 3 {
        "detail_scale"@
    } else if i == 4 {
        "detail_amplitude"@
    } else if i == 5 {
        "micro_scale"@
    } else if i == 6 {
        "micro_amplitude"@
    } else if i == 7 {
        "mountain_scale"@
    } else if i == 8 {
        "mountain_amplitude"@
    } else if i == 9 {
        "mountain_sharpness"@
    } else if i == 10 {
        "valley_scale"@
    } else if i == 11 {
        "valley_depth"@
    } else if i == 12 {
        "cliff_scale"@
    } else if i == 13 {
        "cliff_strength"@
    } else if i == 14 {
        "cliff_ledge_flatness"@
    } else if i == 15 {
        "cliff_recess_strength"@
    } else if i == 16 {
        "cliff_edge_rounding"@
    } else if i == 17 {
        "cliff_base_smoothing"@
    } else if i == 18 {
        "terrace_step"@
    } else if i == 19 {
        "biome_scale"@
    } else if i == 20 {
        "biome_region_scale"@
    } else if i == 21 {
        "biome_blend"@
    } else if i == 22 {
        "mountain_base_lift"@
    } else if i == 23 {
        "desert_base_drop"@
    } else if i == 24 {
        "desert_dune_scale"@
    } else if i == 25 {
        "desert_dune_amplitude"@
    } else if i == 26 {
        "ravine_scale"@
    } else if i == 27 {
        "ravine_strength"@
    } else if i == 28 {
        "ravine_width"@
    } else if i == 29 {
        "ravine_offset_x"@
    } else if i == 30 {
        "ravine_offset_z"@
    } else {
        Seq::empty()
    }
}

/// Display label of parameter `i`.
pub open spec fn param_label(i: int) -> Seq<char> {
    if i == 0 {
        "BASE HEIGHT"@
    } else if i == 1 {
        "MACRO SPAN"@
    } else if i == 2 {
        "MACRO AMPLITUDE"@
    } else if i == 3 {
        "DETAIL SPAN"@
    } else if i == 4 {
        "DETAIL AMPLITUDE"@
    } else if i == 5 {
        "MICRO SPAN"@
    } else if i == 6 {
        "MICRO AMPLITUDE"@
    } else if i == 7 {
        "MOUNTAIN SPAN"@
    } else if i == 8 {
        "MOUNTAIN AMPLITUDE"@
    } else if i == 9 {
        "MOUNTAIN SHARPNESS"@
    } else if i == 10 {
        "VALLEY SPAN"@
    } else if i == 11 {
        "VALLEY DEPTH"@
    } else if i == 12 {
        "CLIFF SPAN"@
    } else if i == 13 {
        "CLIFF STRENGTH"@
    } else if i == 14 {
        "CLIFF LEDGE FLATNESS"@
    } else if i == 15 {
        "CLIFF RECESS STRENGTH"@
    } else if i == 16 {
        "CLIFF EDGE ROUNDING"@
    } else if i == 17 {
        "CLIFF BASE SMOOTHING"@
    } else if i == 18 {
        "TERRACE STEP"@
    } else if i == 19 {
        "BIOME SPAN"@
    } else if i == 20 {
        "BIOME REGION SIZE"@
    } else if i == 21 {
        "BIOME BLEND"@
    } else if i == 22 {
        "MOUNTAIN BASE LIFT"@
    } else if i == 23 {
        "DESERT BASE DROP"@
    } else if i == 24 {
        "DUNE SPAN"@
    } else if i == 25 {
        "DESERT DUNE AMPLITUDE"@
    } else if i == 26 {
        "RAVINE SPAN"@
    } else if i == 27 {
        "RAVINE STRENGTH"@
    } else if i == 28 {
        "RAVINE WIDTH"@
    } else if i == 29 {
        "RAVINE OFFSET X"@
    } else if i == 30 {
        "RAVINE OFFSET Z"@
    } else {
        Seq::empty()
    }
}

/// Key and label of parameter `i`.
pub fn param_entry(i: usize) -> (entry: (&'static str, &'static str))
    requires
        i < TERRAIN_PARAM_COUNT,
    ensures
        entry.0@ == param_key(i as int),
        entry.1@ == param_label(i as int),
{
    match i {
        0 => ("base_height", "BASE HEIGHT"),
        1 => ("macro_scale", "MACRO SPAN"),
        2 => ("macro_amplitude", "MACRO AMPLITUDE"),
        3 => ("detail_scale", "DETAIL SPAN"),
        4 => ("detail_amplitude", "DETAIL AMPLITUDE"),
        5 => ("micro_scale", "MICRO SPAN"),
        6 => ("micro_amplitude", "MICRO AMPLITUDE"),
        7 => ("mountain_scale", "MOUNTAIN SPAN"),
        8 => ("mountain_amplitude", "MOUNTAIN AMPLITUDE"),
        9 => ("mountain_sharpness", "MOUNTAIN SHARPNESS"),
        10 => ("valley_scale", "VALLEY SPAN"),
        11 => ("valley_depth", "VALLEY DEPTH"),
        12 => ("cliff_scale", "CLIFF SPAN"),
        13 => ("cliff_strength", "CLIFF STRENGTH"),
        14 => ("cliff_ledge_flatness", "CLIFF LEDGE FLATNESS"),
        15 => ("cliff_recess_strength", "CLIFF RECESS STRENGTH"),
        16 => ("cliff_edge_rounding", "CLIFF EDGE ROUNDING"),
        17 => ("cliff_base_smoothing", "CLIFF BASE SMOOTHING"),
        18 => ("terrace_step", "TERRACE STEP"),
        19 => ("biome_scale", "BIOME SPAN"),
        20 => ("biome_region_scale", "BIOME REGION SIZE"),
        21 => ("biome_blend", "BIOME BLEND"),
        22 => ("mountain_base_lift", "MOUNTAIN BASE LIFT"),
        23 => ("desert_base_drop", "DESERT BASE DROP"),
        24 => ("desert_dune_scale", "DUNE SPAN"),
        25 => ("desert_dune_amplitude", "DESERT DUNE AMPLITUDE"),
        26 => ("ravine_scale", "RAVINE SPAN"),
        27 => ("ravine_strength", "RAVINE STRENGTH"),
        28 => ("ravine_width", "RAVINE WIDTH"),
        29 => ("ravine_offset_x", "RAVINE OFFSET X"),
        30 => ("ravine_offset_z", "RAVINE OFFSET Z"),
        _ => ("ravine_offset_z", "RAVINE OFFSET Z"),
    }
}

/// Index of the first parameter at or after `i` whose key is `k`.
pub open spec fn param_index_from(k: Seq<char>, i: int) -> Option<int>
    decreases TERRAIN_PARAM_COUNT - i,
{
    if i < 0 || i >= TERRAIN_PARAM_COUNT {
        None
    } else if param_key(i) == k {
        Some(i)
    } else {
        param_index_from(k, i + 1)
    }
}

/// The label shown for a key with no parameter: underscores become spaces
/// and ASCII letters are capitalized.
pub open spec fn fallback_label(key: Seq<char>) -> Seq<char> {
    key.map_values(|c: char| if c == '_' {
        ' '
    } else {
        ascii_upper(c)
    })
}

/// The label of a parameter key: the parameter's label when the key,
/// lowercased, names one; otherwise the key spelled as a label.
pub open spec fn spec_param_display(key: Seq<char>) -> Seq<char> {
    match param_index_from(lower_seq(key), 0) {
        Some(i) => param_label(i),
        None => fallback_label(key),
    }
}

/// Index of the parameter whose key is `key` with ASCII letters lowercased.
pub fn parameter_index(key: &str) -> (index: Option<usize>)
    ensures
        index matches Some(i) ==> param_index_from(lower_seq(key@), 0) == Some(i as int) && i < TERRAIN_PARAM_COUNT,
        index is None ==> param_index_from(lower_seq(key@), 0) is None,
{
    let chars = chars_of(key);
    let lowered = lowercase_chars(&chars);
    let mut i: usize = 0;
    while i < TERRAIN_PARAM_COUNT
        invariant
            i <= TERRAIN_PARAM_COUNT,
            lowered@ == lower_seq(key@),
            param_index_from(lower_seq(key@), 0) == param_index_from(lower_seq(key@), i as int),
        decreases TERRAIN_PARAM_COUNT - i,
    {
        let (k, _) = param_entry(i);
        if chars_eq(&lowered, k) {
            return Some(i);
        }
        i = i + 1;
    }
    None
}

pub struct TerrainParamRegistry;

impl TerrainParamRegistry {
    /// Display label of a parameter key (see `spec_param_display`).
    pub fn label(key: &str) -> (s: String)
        ensures
            s@ == spec_param_display(key@),
    {
        match parameter_index(key) {
            Some(i) => {
                let (_, label) = param_entry(i);
                String::from_str(label)
            },
            None => {
                let chars = chars_of(key);
                let mut out = String::new();
                let mut j: usize = 0;
                while j < chars.len()
                    invariant
                        j <= chars@.len(),
                        chars@ == key@,
                        out@ == fallback_label(key@).subrange(0, j as int),
                    decreases chars@.len() - j,
                {
                    let c = chars[j];
                    if c == '_' {
                        push_char(&mut out, ' ');
                    } else {
                        push_char(&mut out, to_ascii_uppercase(c));
                    }
                    proof {
                        assert(fallback_label(key@).subrange(0, j + 1) =~= fallback_label(key@).subrange(0, j as int).push(
                            fallback_label(key@)[j as int],
                        ));
                    }
                    j = j + 1;
                }
                proof {
                    assert(fallback_label(key@).subrange(0, chars@.len() as int) =~= fallback_label(key@));
                }
                out
            },
        }
    }
}

} // verus!
