//! Terrain recipe files: a header (name, description, terrain profile and
//! seed) and the fractional terrain parameters, one `key=value` per line.
//! The library reads and writes every line but the fractional numbers, whose
//! text it hands over by parameter.
use vstd::prelude::*;

use crate::settings::{settings_entry, settings_entry_of};
use crate::text::{chars_eq, lower_seq, lowercase_chars, push_signed_decimal, signed_decimal, string_of};
use crate::ui::launch::{parse_i64, parse_signed};

verus! {

/// Seed of a recipe that names none.
pub const DEFAULT_WORLD_SEED: i64 = 0x5EED_BA5E;

/// The fractional terrain parameters a recipe sets, in file order.
#[derive(Clone, Copy, Debug, PartialEq, Eq, Structural)]
pub enum RecipeParam {
    BaseHeight,
    MacroScale,
    MacroAmplitude,
    DetailScale,
    DetailAmplitude,
    MicroScale,
    MicroAmplitude,
    MountainScale,
    MountainAmplitude,
    MountainSharpness,
    ValleyScale,
    ValleyDepth,
    CliffScale,
    CliffStrength,
    CliffLedgeFlatness,
    CliffRecessStrength,
    CliffEdgeRounding,
    CliffBaseSmoothing,
    TerraceStep,
    BiomeScale,
    BiomeBlend,
    MountainBaseLift,
    DesertBaseDrop,
    DesertDuneScale,
    DesertDuneAmplitude,
    RavineScale,
    RavineStrength,
    RavineWidth,
    RavineOffsetX,
    RavineOffsetZ,
}

/// The key of a parameter in a recipe file.
pub open spec fn recipe_param_key(p: RecipeParam) -> Seq<char> {
    match p {
        RecipeParam::BaseHeight => "base_height"@,
        RecipeParam::MacroScale => "macro_scale"@,
        RecipeParam::MacroAmplitude => "macro_amplitude"@,
        RecipeParam::DetailScale => "detail_scale"@,
        RecipeParam::DetailAmplitude => "detail_amplitude"@,
        RecipeParam::MicroScale => "micro_scale"@,
        RecipeParam::MicroAmplitude => "micro_amplitude"@,
        RecipeParam::MountainScale => "mountain_scale"@,
        RecipeParam::MountainAmplitude => "mountain_amplitude"@,
        RecipeParam::MountainSharpness => "mountain_sharpness"@,
        RecipeParam::ValleyScale => "valley_scale"@,
        RecipeParam::ValleyDepth => "valley_depth"@,
        RecipeParam::CliffScale => "cliff_scale"@,
        RecipeParam::CliffStrength => "cliff_strength"@,
        RecipeParam::CliffLedgeFlatness => "cliff_ledge_flatness"@,
        RecipeParam::CliffRecessStrength => "cliff_recess_strength"@,
        RecipeParam::CliffEdgeRounding => "cliff_edge_rounding"@,
        RecipeParam::CliffBaseSmoothing => "cliff_base_smoothing"@,
        RecipeParam::TerraceStep => "terrace_step"@,
        RecipeParam::BiomeScale => "biome_scale"@,
        RecipeParam::BiomeBlend => "biome_blend"@,
        RecipeParam::MountainBaseLift => "mountain_base_lift"@,
        RecipeParam::DesertBaseDrop => "desert_base_drop"@,
        RecipeParam::DesertDuneScale => "desert_dune_scale"@,
        RecipeParam::DesertDuneAmplitude => "desert_dune_amplitude"@,
        RecipeParam::RavineScale => "ravine_scale"@,
        RecipeParam::RavineStrength => "ravine_strength"@,
        RecipeParam::RavineWidth => "ravine_width"@,
        RecipeParam::RavineOffsetX => "ravine_offset_x"@,
        RecipeParam::RavineOffsetZ => "ravine_offset_z"@,
    }
}

/// The parameter a key names, if any.
pub open spec fn recipe_param_of(key: Seq<char>) -> Option<RecipeParam> {
    if key == "base_height"@ {
        Some(RecipeParam::BaseHeight)
    } else if key == "macro_scale"@ {
        Some(RecipeParam::MacroScale)
    } else if key == "macro_amplitude"@ {
        Some(RecipeParam::MacroAmplitude)
    } else if key == "detail_scale"@ {
        Some(RecipeParam::DetailScale)
    } else if key == "detail_amplitude"@ {
        Some(RecipeParam::DetailAmplitude)
    } else if key == "micro_scale"@ {
        Some(RecipeParam::MicroScale)
    } else if key == "micro_amplitude"@ {
        Some(RecipeParam::MicroAmplitude)
    } else if key == "mountain_scale"@ {
        Some(RecipeParam::MountainScale)
    } else if key == "mountain_amplitude"@ {
        Some(RecipeParam::MountainAmplitude)
    } else if key == "mountain_sharpness"@ {
        Some(RecipeParam::MountainSharpness)
    } else if key == "valley_scale"@ {
        Some(RecipeParam::ValleyScale)
    } else if key == "valley_depth"@ {
        Some(RecipeParam::ValleyDepth)
    } else if key == "cliff_scale"@ {
        Some(RecipeParam::CliffScale)
    } else if key == "cliff_strength"@ {
        Some(RecipeParam::CliffStrength)
    } else if key == "cliff_ledge_flatness"@ {
        Some(RecipeParam::CliffLedgeFlatness)
    } else if key == "cliff_recess_strength"@ {
        Some(RecipeParam::CliffRecessStrength)
    } else if key == "cliff_edge_rounding"@ {
        Some(RecipeParam::CliffEdgeRounding)
    } else if key == "cliff_base_smoothing"@ {
        Some(RecipeParam::CliffBaseSmoothing)
    } else if key == "terrace_step"@ {
        Some(RecipeParam::TerraceStep)
    } else if key == "biome_scale"@ {
        Some(RecipeParam::BiomeScale)
    } else if key == "biome_blend"@ {
        Some(RecipeParam::BiomeBlend)
    } else if key == "mountain_base_lift"@ {
        Some(RecipeParam::MountainBaseLift)
    } else if key == "desert_base_drop"@ {
        Some(RecipeParam::DesertBaseDrop)
    } else if key == "desert_dune_scale"@ {
        Some(RecipeParam::DesertDuneScale)
    } else if key == "desert_dune_amplitude"@ {
        Some(RecipeParam::DesertDuneAmplitude)
    } else if key == "ravine_scale"@ {
        Some(RecipeParam::RavineScale)
    } else if key == "ravine_strength"@ {
        Some(RecipeParam::RavineStrength)
    } else if key == "ravine_width"@ {
        Some(RecipeParam::RavineWidth)
    } else if key == "ravine_offset_x"@ {
        Some(RecipeParam::RavineOffsetX)
    } else if key == "ravine_offset_z"@ {
        Some(RecipeParam::RavineOffsetZ)
    } else {
        None
    }
}

/// All parameters, in file order.
pub open spec fn recipe_params() -> Seq<RecipeParam> {
    seq![
        RecipeParam::BaseHeight,
        RecipeParam::MacroScale,
        RecipeParam::MacroAmplitude,
        RecipeParam::DetailScale,
        RecipeParam::DetailAmplitude,
        RecipeParam::MicroScale,
        RecipeParam::MicroAmplitude,
        RecipeParam::MountainScale,
        RecipeParam::MountainAmplitude,
        RecipeParam::MountainSharpness,
        RecipeParam::ValleyScale,
        RecipeParam::ValleyDepth,
        RecipeParam::CliffScale,
        RecipeParam::CliffStrength,
        RecipeParam::CliffLedgeFlatness,
        RecipeParam::CliffRecessStrength,
        RecipeParam::CliffEdgeRounding,
        RecipeParam::CliffBaseSmoothing,
        RecipeParam::TerraceStep,
        RecipeParam::BiomeScale,
        RecipeParam::BiomeBlend,
        RecipeParam::MountainBaseLift,
        RecipeParam::DesertBaseDrop,
        RecipeParam::DesertDuneScale,
        RecipeParam::DesertDuneAmplitude,
        RecipeParam::RavineScale,
        RecipeParam::RavineStrength,
        RecipeParam::RavineWidth,
        RecipeParam::RavineOffsetX,
        RecipeParam::RavineOffsetZ,
    ]
}

impl RecipeParam {
    /// The parameter's key.
    pub fn key(self) -> (k: &'static str)
        ensures
            k@ == recipe_param_key(self),
    {
        match self {
            RecipeParam::BaseHeight => "base_height",
            RecipeParam::MacroScale => "macro_scale",
            RecipeParam::MacroAmplitude => "macro_amplitude",
            RecipeParam::DetailScale => "detail_scale",
            RecipeParam::DetailAmplitude => "detail_amplitude",
            RecipeParam::MicroScale => "micro_scale",
            RecipeParam::MicroAmplitude => "micro_amplitude",
            RecipeParam::MountainScale => "mountain_scale",
            RecipeParam::MountainAmplitude => "mountain_amplitude",
            RecipeParam::MountainSharpness => "mountain_sharpness",
            RecipeParam::ValleyScale => "valley_scale",
            RecipeParam::ValleyDepth => "valley_depth",
            RecipeParam::CliffScale => "cliff_scale",
            RecipeParam::CliffStrength => "cliff_strength",
            RecipeParam::CliffLedgeFlatness => "cliff_ledge_flatness",
            RecipeParam::CliffRecessStrength => "cliff_recess_strength",
            RecipeParam::CliffEdgeRounding => "cliff_edge_rounding",
            RecipeParam::CliffBaseSmoothing => "cliff_base_smoothing",
            RecipeParam::TerraceStep => "terrace_step",
            RecipeParam::BiomeScale => "biome_scale",
            RecipeParam::BiomeBlend => "biome_blend",
            RecipeParam::MountainBaseLift => "mountain_base_lift",
            RecipeParam::DesertBaseDrop => "desert_base_drop",
            RecipeParam::DesertDuneScale => "desert_dune_scale",
            RecipeParam::DesertDuneAmplitude => "desert_dune_amplitude",
            RecipeParam::RavineScale => "ravine_scale",
            RecipeParam::RavineStrength => "ravine_strength",
            RecipeParam::RavineWidth => "ravine_width",
            RecipeParam::RavineOffsetX => "ravine_offset_x",
            RecipeParam::RavineOffsetZ => "ravine_offset_z",
        }
    }
}

/// The parameter the key `key` names, if any.
pub fn recipe_param_from_key(key: &Vec<char>) -> (p: Option<RecipeParam>)
    ensures
        p == recipe_param_of(key@),
{
    if chars_eq(key, "base_height") {
        Some(RecipeParam::BaseHeight)
    } else if chars_eq(key, "macro_scale") {
        Some(RecipeParam::MacroScale)
    } else if chars_eq(key, "macro_amplitude") {
        Some(RecipeParam::MacroAmplitude)
    } else if chars_eq(key, "detail_scale") {
        Some(RecipeParam::DetailScale)
    } else if chars_eq(key, "detail_amplitude") {
        Some(RecipeParam::DetailAmplitude)
    } else if chars_eq(key, "micro_scale") {
        Some(RecipeParam::MicroScale)
    } else if chars_eq(key, "micro_amplitude") {
        Some(RecipeParam::MicroAmplitude)
    } else if chars_eq(key, "mountain_scale") {
        Some(RecipeParam::MountainScale)
    } else if chars_eq(key, "mountain_amplitude") {
        Some(RecipeParam::MountainAmplitude)
    } else if chars_eq(key, "mountain_sharpness") {
        Some(RecipeParam::MountainSharpness)
    } else if chars_eq(key, "valley_scale") {
        Some(RecipeParam::ValleyScale)
    } else if chars_eq(key, "valley_depth") {
        Some(RecipeParam::ValleyDepth)
    } else if chars_eq(key, "cliff_scale") {
        Some(RecipeParam::CliffScale)
    } else if chars_eq(key, "cliff_strength") {
        Some(RecipeParam::CliffStrength)
    } else if chars_eq(key, "cliff_ledge_flatness") {
        Some(RecipeParam::CliffLedgeFlatness)
    } else if chars_eq(key, "cliff_recess_strength") {
        Some(RecipeParam::CliffRecessStrength)
    } else if chars_eq(key, "cliff_edge_rounding") {
        Some(RecipeParam::CliffEdgeRounding)
    } else if chars_eq(key, "cliff_base_smoothing") {
        Some(RecipeParam::CliffBaseSmoothing)
    } else if chars_eq(key, "terrace_step") {
        Some(RecipeParam::TerraceStep)
    } else if chars_eq(key, "biome_scale") {
        Some(RecipeParam::BiomeScale)
    } else if chars_eq(key, "biome_blend") {
        Some(RecipeParam::BiomeBlend)
    } else if chars_eq(key, "mountain_base_lift") {
        Some(RecipeParam::MountainBaseLift)
    } else if chars_eq(key, "desert_base_drop") {
        Some(RecipeParam::DesertBaseDrop)
    } else if chars_eq(key, "desert_dune_scale") {
        Some(RecipeParam::DesertDuneScale)
    } else if chars_eq(key, "desert_dune_amplitude") {
        Some(RecipeParam::DesertDuneAmplitude)
    } else if chars_eq(key, "ravine_scale") {
        Some(RecipeParam::RavineScale)
    } else if chars_eq(key, "ravine_strength") {
        Some(RecipeParam::RavineStrength)
    } else if chars_eq(key, "ravine_width") {
        Some(RecipeParam::RavineWidth)
    } else if chars_eq(key, "ravine_offset_x") {
        Some(RecipeParam::RavineOffsetX)
    } else if chars_eq(key, "ravine_offset_z") {
        Some(RecipeParam::RavineOffsetZ)
    } else {
        None
    }
}

/// All parameters, in file order.
pub fn all_recipe_params() -> (ps: Vec<RecipeParam>)
    ensures
        ps@ == recipe_params(),
{
    let ps = vec![
        RecipeParam::BaseHeight,
        RecipeParam::MacroScale,
        RecipeParam::MacroAmplitude,
        RecipeParam::DetailScale,
        RecipeParam::DetailAmplitude,
        RecipeParam::MicroScale,
        RecipeParam::MicroAmplitude,
        RecipeParam::MountainScale,
        RecipeParam::MountainAmplitude,
        RecipeParam::MountainSharpness,
        RecipeParam::ValleyScale,
        RecipeParam::ValleyDepth,
        RecipeParam::CliffScale,
        RecipeParam::CliffStrength,
        RecipeParam::CliffLedgeFlatness,
        RecipeParam::CliffRecessStrength,
        RecipeParam::CliffEdgeRounding,
        RecipeParam::CliffBaseSmoothing,
        RecipeParam::TerraceStep,
        RecipeParam::BiomeScale,
        RecipeParam::BiomeBlend,
        RecipeParam::MountainBaseLift,
        RecipeParam::DesertBaseDrop,
        RecipeParam::DesertDuneScale,
        RecipeParam::DesertDuneAmplitude,
        RecipeParam::RavineScale,
        RecipeParam::RavineStrength,
        RecipeParam::RavineWidth,
        RecipeParam::RavineOffsetX,
        RecipeParam::RavineOffsetZ,
    ];
    proof {
        assert(ps@ =~= recipe_params());
    }
    ps
}

} // verus!

verus! {

/// The preset terrain a profile name selects.
#[derive(Clone, Copy, Debug, PartialEq, Eq, Structural)]
pub enum TerrainProfile {
    Balanced,
    Alpine,
    Canyon,
    Valleylands,
    Expansive,
}

/// The preset a profile name selects, its ASCII letters taken in either case.
pub open spec fn profile_of(name: Seq<char>) -> Option<TerrainProfile> {
    let n = lower_seq(name);
    if n == "balanced"@ {
        Some(TerrainProfile::Balanced)
    } else if n == "alpine"@ || n == "mountain"@ || n == "mountains"@ {
        Some(TerrainProfile::Alpine)
    } else if n == "canyon"@ || n == "cliff"@ || n == "cliffs"@ {
        Some(TerrainProfile::Canyon)
    } else if n == "valleylands"@ || n == "valley"@ || n == "valleys"@ {
        Some(TerrainProfile::Valleylands)
    } else if n == "expansive"@ || n == "continental"@ || n == "large"@ {
        Some(TerrainProfile::Expansive)
    } else {
        None
    }
}

/// The preset the profile name `name` selects (see `profile_of`).
pub fn profile_from_name(name: &Vec<char>) -> (p: Option<TerrainProfile>)
    ensures
        p == profile_of(name@),
{
    let n = lowercase_chars(name);
    if chars_eq(&n, "balanced") {
        Some(TerrainProfile::Balanced)
    } else if chars_eq(&n, "alpine") || chars_eq(&n, "mountain") || chars_eq(&n, "mountains") {
        Some(TerrainProfile::Alpine)
    } else if chars_eq(&n, "canyon") || chars_eq(&n, "cliff") || chars_eq(&n, "cliffs") {
        Some(TerrainProfile::Canyon)
    } else if chars_eq(&n, "valleylands") || chars_eq(&n, "valley") || chars_eq(&n, "valleys") {
        Some(TerrainProfile::Valleylands)
    } else if chars_eq(&n, "expansive") || chars_eq(&n, "continental") || chars_eq(&n, "large") {
        Some(TerrainProfile::Expansive)
    } else {
        None
    }
}

/// The named part of a recipe.
#[derive(Clone, Debug)]
pub struct RecipeHeader {
    pub name: String,
    pub description: String,
    pub profile: String,
    pub seed: i64,
}

/// A recipe header as plain values.
pub ghost struct HeaderView {
    pub name: Seq<char>,
    pub description: Seq<char>,
    pub profile: Seq<char>,
    pub seed: i64,
}

impl View for RecipeHeader {
    type V = HeaderView;

    open spec fn view(&self) -> HeaderView {
        HeaderView { name: self.name@, description: self.description@, profile: self.profile@, seed: self.seed }
    }
}

impl RecipeHeader {
    /// The header of the balanced recipe with seed `seed`.
    pub fn balanced(seed: i64) -> (h: Self)
        ensures
            h@ == (HeaderView { name: "balanced_world"@, description: Seq::empty(), profile: "balanced"@, seed }),
    {
        let h = RecipeHeader {
            name: String::from_str("balanced_world"),
            description: String::new(),
            profile: String::from_str("balanced"),
            seed,
        };
        proof {
            assert(h.description@ =~= Seq::<char>::empty());
        }
        h
    }

    /// The header a recipe file starts from: the balanced recipe with the
    /// default seed.
    pub fn default_seeded() -> (h: Self)
        ensures
            h@ == (HeaderView {
                name: "balanced_world"@,
                description: Seq::empty(),
                profile: "balanced"@,
                seed: DEFAULT_WORLD_SEED,
            }),
    {
        Self::balanced(DEFAULT_WORLD_SEED)
    }
}

/// What a recipe line asks for.
#[derive(Clone, Debug)]
pub enum RecipeLine {
    /// Nothing: blank, comment, no `=`, the version, or an unknown key.
    Skipped,
    /// The name, the description or the seed was set.
    Applied,
    /// The profile was set; the terrain becomes the preset it selects, if any.
    Profile(Option<TerrainProfile>),
    /// A fractional parameter with the text of its value; the caller reads it.
    Fractional(RecipeParam, String),
}

/// Why a recipe line is refused.
#[derive(Clone, Debug)]
pub enum RecipeError {
    /// The seed's value is not a signed 64-bit whole number.
    InvalidSeed(String),
}

/// What a recipe line does, as plain values.
pub ghost enum RecipeOutcome {
    Skipped,
    Applied(HeaderView),
    Profile(HeaderView, Option<TerrainProfile>),
    Fractional(RecipeParam, Seq<char>),
    InvalidSeed(Seq<char>),
}

/// What line `line` does to header `h`: blank lines, `#` comments and lines
/// without `=` are skipped; otherwise the trimmed text before the first `=`
/// is the key and the trimmed rest the value.  `name`, `description` and
/// `profile` set those fields (a profile also selects its preset), `seed`
/// sets the seed or is refused when the value is no signed 64-bit number,
/// the terrain keys hand their value over, and every other key is skipped.
pub open spec fn recipe_line_outcome(h: HeaderView, line: Seq<char>) -> RecipeOutcome {
    match settings_entry(line) {
        None => RecipeOutcome::Skipped,
        Some((key, value)) => if key == "name"@ {
            RecipeOutcome::Applied(HeaderView { name: value, ..h })
        } else if key == "description"@ {
            RecipeOutcome::Applied(HeaderView { description: value, ..h })
        } else if key == "profile"@ {
            RecipeOutcome::Profile(HeaderView { profile: value, ..h }, profile_of(value))
        } else if key == "seed"@ {
            match parse_signed(value) {
                Some(n) => RecipeOutcome::Applied(HeaderView { seed: n as i64, ..h }),
                None => RecipeOutcome::InvalidSeed(value),
            }
        } else {
            match recipe_param_of(key) {
                Some(p) => RecipeOutcome::Fractional(p, value),
                None => RecipeOutcome::Skipped,
            }
        },
    }
}

/// Reads one recipe line into `h` (see `recipe_line_outcome`); a refused
/// line leaves `h` as it was.
pub fn apply_recipe_line(h: &mut RecipeHeader, line: &str) -> (r: Result<RecipeLine, RecipeError>)
    ensures
        match recipe_line_outcome(old(h)@, line@) {
            RecipeOutcome::Skipped => r matches Ok(RecipeLine::Skipped) && final(h)@ == old(h)@,
            RecipeOutcome::Applied(next) => r matches Ok(RecipeLine::Applied) && final(h)@ == next,
            RecipeOutcome::Profile(next, p) => r matches Ok(RecipeLine::Profile(q)) && q == p && final(h)@ == next,
            RecipeOutcome::Fractional(p, text) => r matches Ok(RecipeLine::Fractional(q, t)) && q == p && t@ == text
                && final(h)@ == old(h)@,
            RecipeOutcome::InvalidSeed(text) => r matches Err(RecipeError::InvalidSeed(t)) && t@ == text && final(h)@
                == old(h)@,
        },
{
    let (key, value) = match settings_entry_of(line) {
        Some(kv) => kv,
        None => {
            return Ok(RecipeLine::Skipped);
        },
    };
    if chars_eq(&key, "name") {
        h.name = string_of(&value);
        Ok(RecipeLine::Applied)
    } else if chars_eq(&key, "description") {
        h.description = string_of(&value);
        Ok(RecipeLine::Applied)
    } else if chars_eq(&key, "profile") {
        let p = profile_from_name(&value);
        h.profile = string_of(&value);
        Ok(RecipeLine::Profile(p))
    } else if chars_eq(&key, "seed") {
        let text = string_of(&value);
        match parse_i64(text.as_str()) {
            Some(n) => {
                h.seed = n;
                Ok(RecipeLine::Applied)
            },
            None => Err(RecipeError::InvalidSeed(text)),
        }
    } else {
        match recipe_param_from_key(&key) {
            Some(p) => Ok(RecipeLine::Fractional(p, string_of(&value))),
            None => Ok(RecipeLine::Skipped),
        }
    }
}

/// The header lines of a recipe file: a comment, the version, then name,
/// description, profile and seed.
pub open spec fn recipe_header_text(h: HeaderView) -> Seq<Seq<char>> {
    seq![
        "# Subdivism terrain recipe"@,
        "version=1"@,
        "name="@ + h.name,
        "description="@ + h.description,
        "profile="@ + h.profile,
        "seed="@ + signed_decimal(h.seed as int),
    ]
}

fn field_line(key: &str, value: &String) -> (line: String)
    ensures
        line@ == key@ + value@,
{
    let mut line = String::from_str(key);
    line.append(value.as_str());
    line
}

/// The header lines of `h` (see `recipe_header_text`); the parameter lines
/// follow them in the order of `recipe_params`.
pub fn recipe_header_lines(h: &RecipeHeader) -> (lines: Vec<String>)
    ensures
        lines@.map_values(|s: String| s@) == recipe_header_text(h@),
{
    let mut seed = String::from_str("seed=");
    push_signed_decimal(&mut seed, h.seed);
    let lines = vec![
        String::from_str("# Subdivism terrain recipe"),
        String::from_str("version=1"),
        field_line("name=", &h.name),
        field_line("description=", &h.description),
        field_line("profile=", &h.profile),
        seed,
    ];
    proof {
        assert(lines@.map_values(|s: String| s@) =~= recipe_header_text(h@));
    }
    lines
}

} // verus!

verus! {

/// The header after reading `lines` in turn from `start`; `None` when a
/// line is refused.
pub open spec fn read_header(start: HeaderView, lines: Seq<Seq<char>>) -> Option<HeaderView>
    decreases lines.len(),
{
    if lines.len() == 0 {
        Some(start)
    } else {
        match recipe_line_outcome(start, lines[0]) {
            RecipeOutcome::Applied(next) => read_header(next, lines.drop_first()),
            RecipeOutcome::Profile(next, _) => read_header(next, lines.drop_first()),
            RecipeOutcome::InvalidSeed(_) => None,
            _ => read_header(start, lines.drop_first()),
        }
    }
}

/// A value the reader keeps as written: empty, or without white space at
/// either end.
pub open spec fn clean_value(v: Seq<char>) -> bool {
    v.len() == 0 || (!crate::text::is_white_space(v[0]) && !crate::text::is_white_space(v.last()))
}

proof fn lemma_field_line(key: Seq<char>, value: Seq<char>)
    requires
        key.len() >= 1,
        key[0] != '#',
        !crate::text::is_white_space(key[0]),
        !crate::text::is_white_space(key.last()),
        forall|i: int| 0 <= i < key.len() ==> key[i] != '=',
        clean_value(value),
    ensures
        settings_entry(key + "="@ + value) == Some((key, value)),
{
    reveal_strlit("=");
    if value.len() > 0 {
        crate::settings::lemma_entry_of_line(key, value);
    } else {
        let line = key + "="@ + value;
        assert(line =~= key.push('='));
        assert(line[0] == key[0]);
        assert(line.last() == '=');
        crate::settings::lemma_trim_keeps(line);
        let i = key.len() as int;
        assert(crate::text::is_first(line, '=', i));
        let k = choose|k: int| crate::text::is_first(line, '=', k);
        assert(k == i) by {
            if k < i {
                assert(line[k] == key[k]);
            } else if k > i {
                assert(line[i] == '=');
            }
        }
        assert(line.take(i) =~= key);
        assert(line.skip(i + 1) =~= value);
        crate::settings::lemma_trim_keeps(key);
        assert(crate::text::trim(value) =~= value);
    }
}

proof fn lemma_seed_text(n: i64)
    ensures
        parse_signed(signed_decimal(n as int)) == Some(n as int),
        clean_value(signed_decimal(n as int)),
        signed_decimal(n as int).len() >= 1,
{
    if n >= 0 {
        crate::settings::lemma_decimal_parses(n as nat, 0x7FFF_FFFF_FFFF_FFFF);
        crate::settings::lemma_decimal_first_digit(n as nat);
    } else {
        let m = (-n) as nat;
        crate::settings::lemma_decimal_scans(m, 0x8000_0000_0000_0000);
        crate::settings::lemma_decimal_parses(m, 0x8000_0000_0000_0000);
        let s = signed_decimal(n as int);
        assert(s == seq!['-'] + crate::text::decimal(m));
        assert(s.drop_first() =~= crate::text::decimal(m));
        assert(s.last() == crate::text::decimal(m).last());
    }
}

/// Reading a recipe's header lines gives back the header, from any header
/// the reader starts with, when the name, description and profile have no
/// white space at either end (the reader trims values).
pub proof fn lemma_recipe_header_reads_back(h: HeaderView, start: HeaderView)
    requires
        clean_value(h.name),
        clean_value(h.description),
        clean_value(h.profile),
    ensures
        read_header(start, recipe_header_text(h)) == Some(h),
{
    reveal_strlit("# Subdivism terrain recipe");
    reveal_strlit("version=1");
    reveal_strlit("version");
    reveal_strlit("1");
    reveal_strlit("name");
    reveal_strlit("name=");
    reveal_strlit("description");
    reveal_strlit("description=");
    reveal_strlit("profile");
    reveal_strlit("profile=");
    reveal_strlit("seed");
    reveal_strlit("seed=");
    reveal_strlit("=");
    let lines = recipe_header_text(h);
    // The comment line.
    let c = "# Subdivism terrain recipe"@;
    crate::settings::lemma_trim_keeps(c);
    assert(settings_entry(c) is None);
    // The version line: an entry whose key names nothing.
    assert("version=1"@ =~= "version"@ + "="@ + "1"@);
    lemma_field_line("version"@, "1"@);
    assert(recipe_param_of("version"@) is None) by {
        reveal_strlit("base_height");
        reveal_strlit("macro_scale");
        reveal_strlit("macro_amplitude");
        reveal_strlit("detail_scale");
        reveal_strlit("detail_amplitude");
        reveal_strlit("micro_scale");
        reveal_strlit("micro_amplitude");
        reveal_strlit("mountain_scale");
        reveal_strlit("mountain_amplitude");
        reveal_strlit("mountain_sharpness");
        reveal_strlit("valley_scale");
        reveal_strlit("valley_depth");
        reveal_strlit("cliff_scale");
        reveal_strlit("cliff_strength");
        reveal_strlit("cliff_ledge_flatness");
        reveal_strlit("cliff_recess_strength");
        reveal_strlit("cliff_edge_rounding");
        reveal_strlit("cliff_base_smoothing");
        reveal_strlit("terrace_step");
        reveal_strlit("biome_scale");
        reveal_strlit("biome_blend");
        reveal_strlit("mountain_base_lift");
        reveal_strlit("desert_base_drop");
        reveal_strlit("desert_dune_scale");
        reveal_strlit("desert_dune_amplitude");
        reveal_strlit("ravine_scale");
        reveal_strlit("ravine_strength");
        reveal_strlit("ravine_width");
        reveal_strlit("ravine_offset_x");
        reveal_strlit("ravine_offset_z");
    }
    let s1 = HeaderView { name: h.name, ..start };
    let s2 = HeaderView { description: h.description, ..s1 };
    let s3 = HeaderView { profile: h.profile, ..s2 };
    assert("name="@ =~= "name"@ + "="@);
    assert("description="@ =~= "description"@ + "="@);
    assert("profile="@ =~= "profile"@ + "="@);
    assert("seed="@ =~= "seed"@ + "="@);
    lemma_field_line("name"@, h.name);
    lemma_field_line("description"@, h.description);
    lemma_field_line("profile"@, h.profile);
    lemma_seed_text(h.seed);
    lemma_field_line("seed"@, signed_decimal(h.seed as int));
    assert(recipe_line_outcome(start, lines[0]) == RecipeOutcome::Skipped);
    assert(recipe_line_outcome(start, lines[1]) == RecipeOutcome::Skipped);
    assert(recipe_line_outcome(start, lines[2]) == RecipeOutcome::Applied(s1));
    assert(recipe_line_outcome(s1, lines[3]) == RecipeOutcome::Applied(s2));
    assert(recipe_line_outcome(s2, lines[4]) == RecipeOutcome::Profile(s3, profile_of(h.profile)));
    assert(recipe_line_outcome(s3, lines[5]) == RecipeOutcome::Applied(h));
    let l1 = lines.drop_first();
    let l2 = l1.drop_first();
    let l3 = l2.drop_first();
    let l4 = l3.drop_first();
    let l5 = l4.drop_first();
    let l6 = l5.drop_first();
    assert(l6.len() == 0);
    assert(read_header(h, l6) == Some(h));
    assert(l5[0] == lines[5]);
    assert(read_header(s3, l5) == Some(h));
    assert(l4[0] == lines[4]);
    assert(read_header(s2, l4) == Some(h));
    assert(l3[0] == lines[3]);
    assert(read_header(s1, l3) == Some(h));
    assert(l2[0] == lines[2]);
    assert(read_header(start, l2) == Some(h));
    assert(l1[0] == lines[1]);
    assert(read_header(start, l1) == Some(h));
}

} // verus!

verus! {

/// The name a preset is called by in recipe files.
pub open spec fn preset_name(p: TerrainProfile) -> Seq<char> {
    match p {
        TerrainProfile::Balanced => "balanced"@,
        TerrainProfile::Alpine => "alpine"@,
        TerrainProfile::Canyon => "canyon"@,
        TerrainProfile::Valleylands => "valleylands"@,
        TerrainProfile::Expansive => "expansive"@,
    }
}

/// Each preset's own name selects that preset, and so does each of its
/// other names: `mountain` and `mountains` for alpine, `cliff` and `cliffs`
/// for canyon, `valley` and `valleys` for valleylands, `continental` and
/// `large` for expansive; distinct presets are never confused.
pub proof fn lemma_profile_names(p: TerrainProfile)
    ensures
        profile_of(preset_name(p)) == Some(p),
        profile_of("mountain"@) == Some(TerrainProfile::Alpine),
        profile_of("mountains"@) == Some(TerrainProfile::Alpine),
        profile_of("cliff"@) == Some(TerrainProfile::Canyon),
        profile_of("cliffs"@) == Some(TerrainProfile::Canyon),
        profile_of("valley"@) == Some(TerrainProfile::Valleylands),
        profile_of("valleys"@) == Some(TerrainProfile::Valleylands),
        profile_of("continental"@) == Some(TerrainProfile::Expansive),
        profile_of("large"@) == Some(TerrainProfile::Expansive),
        forall|q: TerrainProfile| profile_of(preset_name(q)) == Some(p) ==> q == p,
{
    reveal_strlit("balanced");
    reveal_strlit("alpine");
    reveal_strlit("mountain");
    reveal_strlit("mountains");
    reveal_strlit("canyon");
    reveal_strlit("cliff");
    reveal_strlit("cliffs");
    reveal_strlit("valleylands");
    reveal_strlit("valley");
    reveal_strlit("valleys");
    reveal_strlit("expansive");
    reveal_strlit("continental");
    reveal_strlit("large");
    assert forall|w: Seq<char>| w.len() > 0 && (forall|i: int| 0 <= i < w.len() ==> 'a' <= #[trigger] w[i] <= 'z')
        implies lower_seq(w) == w by {
        assert(lower_seq(w) =~= w);
    }
    assert(lower_seq("balanced"@) == "balanced"@);
    assert(lower_seq("alpine"@) == "alpine"@);
    assert(lower_seq("mountain"@) == "mountain"@);
    assert(lower_seq("mountains"@) == "mountains"@);
    assert(lower_seq("canyon"@) == "canyon"@);
    assert(lower_seq("cliff"@) == "cliff"@);
    assert(lower_seq("cliffs"@) == "cliffs"@);
    assert(lower_seq("valleylands"@) == "valleylands"@);
    assert(lower_seq("valley"@) == "valley"@);
    assert(lower_seq("valleys"@) == "valleys"@);
    assert(lower_seq("expansive"@) == "expansive"@);
    assert(lower_seq("continental"@) == "continental"@);
    assert(lower_seq("large"@) == "large"@);
    assert("balanced"@ != "mountain"@) by {
        assert("balanced"@[0] != "mountain"@[0]);
    }
    assert("alpine"@ != "canyon"@) by {
        assert("alpine"@[0] != "canyon"@[0]);
    }
    assert("alpine"@ != "cliffs"@) by {
        assert("alpine"@[0] != "cliffs"@[0]);
    }
    assert("alpine"@ != "valley"@) by {
        assert("alpine"@[0] != "valley"@[0]);
    }
    assert("mountains"@ != "expansive"@) by {
        assert("mountains"@[0] != "expansive"@[0]);
    }
    assert("canyon"@ != "cliffs"@) by {
        assert("canyon"@[1] != "cliffs"@[1]);
    }
    assert("canyon"@ != "valley"@) by {
        assert("canyon"@[0] != "valley"@[0]);
    }
    assert("cliff"@ != "large"@) by {
        assert("cliff"@[0] != "large"@[0]);
    }
    assert("cliffs"@ != "valley"@) by {
        assert("cliffs"@[0] != "valley"@[0]);
    }
    assert("valleylands"@ != "continental"@) by {
        assert("valleylands"@[0] != "continental"@[0]);
    }
}

} // verus!
