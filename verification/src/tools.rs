//! Logic of the command-line terrain and benchmark tools: file-safe names,
//! height-map exports and their random number source.
use vstd::prelude::*;

use crate::text::{join_words_of, push_char, push_signed_decimal, signed_decimal, split_chars, split_on, words_or};
use crate::ui::{map_name_chars, name_chars, xorshift, xorshift_star};

verus! {

/// Advances a xorshift state and returns its xorshift* output.
pub fn rand_u64(state: &mut u64) -> (value: u64)
    ensures
        *final(state) == xorshift(*old(state)),
        value == xorshift_star(*old(state)),
{
    *state ^= *state >> 12u64;
    *state ^= *state << 25u64;
    *state ^= *state >> 27u64;
    state.wrapping_mul(0x2545_F491_4F6C_DD1D)
}

/// A file-safe name: ASCII letters and digits lowercased, every other
/// character a separator, the words joined by single underscores; `terrain`
/// when no word is left. (No string has more words than characters, so the
/// limit below keeps them all.)
pub fn sanitize_name(raw: &str) -> (name: String)
    ensures
        name@ == words_or(name_chars(raw@), raw@.len(), "terrain"@),
{
    let mapped = map_name_chars(raw);
    join_words_of(&mapped, mapped.len(), "terrain")
}

/// A short slug of a description: its first six words (ASCII letters and
/// digits, lowercased) joined by underscores; `fallback` when there are none.
pub fn slugify(text: &str, fallback: &str) -> (slug: String)
    ensures
        slug@ == words_or(name_chars(text@), 6, fallback@),
{
    let mapped = map_name_chars(text);
    join_words_of(&mapped, 6, fallback)
}

/// Numbers of a row separated by commas.
pub open spec fn csv_line(row: Seq<i32>) -> Seq<char>
    decreases row.len(),
{
    if row.len() == 0 {
        Seq::empty()
    } else if row.len() == 1 {
        signed_decimal(row[0] as int)
    } else {
        csv_line(row.drop_last()) + seq![','] + signed_decimal(row.last() as int)
    }
}

/// The first `rows` rows of a grid stored row by row, `width` values each,
/// every row on a line of its own ended by a newline.
pub open spec fn csv_grid(heights: Seq<i32>, width: int, rows: int) -> Seq<char>
    decreases rows,
{
    if rows <= 0 {
        Seq::empty()
    } else {
        csv_grid(heights, width, rows - 1) + csv_line(heights.subrange((rows - 1) * width, rows * width))
            + seq!['\n']
    }
}

proof fn lemma_cell_in_grid(z: int, x: int, width: int)
    requires
        0 <= z < width,
        0 <= x < width,
    ensures
        0 <= z * width,
        z * width + x < width * width,
        (z + 1) * width == z * width + width,
        (z + 1) * width <= width * width,
{
    assert(z * width + x < width * width) by (nonlinear_arith)
        requires
            0 <= z < width,
            0 <= x < width,
    ;
    assert((z + 1) * width <= width * width) by (nonlinear_arith)
        requires
            0 <= z < width,
    ;
    assert(0 <= z * width) by (nonlinear_arith)
        requires
            0 <= z,
            0 <= width,
    ;
    assert((z + 1) * width == z * width + width) by (nonlinear_arith);
}

/// The `width` by `width` height grid as comma-separated text, one line per
/// row.
pub fn csv_preview(heights: &[i32], width: usize) -> (out: String)
    requires
        width * width <= heights@.len(),
    ensures
        out@ == csv_grid(heights@, width as int, width as int),
{
    let mut out = String::new();
    let n = heights.len();
    let mut z: usize = 0;
    while z < width
        invariant
            z <= width,
            n == heights@.len(),
            width * width <= heights@.len(),
            out@ == csv_grid(heights@, width as int, z as int),
        decreases width - z,
    {
        let ghost line_start = out@;
        let ghost zi = z as int;
        let ghost w = width as int;
        proof {
            lemma_cell_in_grid(zi, 0, w);
            assert(heights@.subrange(zi * w, zi * w) =~= Seq::<i32>::empty());
            assert(line_start + Seq::<char>::empty() =~= line_start);
        }
        let mut x: usize = 0;
        while x < width
            invariant
                z < width,
                x <= width,
                n == heights@.len(),
                width * width <= heights@.len(),
                zi == z,
                w == width,
                out@ == line_start + csv_line(heights@.subrange(zi * w, zi * w + x)),
            decreases width - x,
        {
            proof {
                lemma_cell_in_grid(zi, x as int, w);
            }
            let index = z * width + x;
            let ghost before = out@;
            if x > 0 {
                push_char(&mut out, ',');
            }
            push_signed_decimal(&mut out, heights[index] as i64);
            proof {
                let row = heights@.subrange(zi * w, zi * w + x + 1);
                assert(row.drop_last() =~= heights@.subrange(zi * w, zi * w + x));
                assert(row.last() == heights@[index as int]);
                if x == 0 {
                    assert(row.len() == 1);
                    assert(before =~= line_start);
                    assert(line_start + csv_line(row) =~= out@);
                } else {
                    assert(line_start + csv_line(row) =~= out@);
                }
            }
            x = x + 1;
        }
        push_char(&mut out, '\n');
        proof {
            lemma_cell_in_grid(zi, 0, w);
            assert(zi * w + w == (zi + 1) * w);
        }
        z = z + 1;
    }
    out
}

} // verus!

verus! {

/// The pieces of a description between runs of characters other than
/// ASCII letters and digits, lowercased; the non-empty ones are its words.
pub open spec fn description_pieces(description: Seq<char>) -> Seq<Seq<char>> {
    split_on(name_chars(description), '_')
}

/// Some word of the description is one of `terms` (all non-empty).
pub open spec fn mentions(description: Seq<char>, terms: Seq<Seq<char>>) -> bool {
    exists|i: int, j: int|
        0 <= i < description_pieces(description).len() && 0 <= j < terms.len() && #[trigger] description_pieces(
            description,
        )[i] == #[trigger] terms[j]
}

/// Which kinds of terrain a description asks for.
#[derive(Clone, Copy, Debug, PartialEq, Eq, Structural)]
pub struct DescriptionTraits {
    pub mountains: bool,
    pub valleys: bool,
    pub canyons: bool,
    pub desert: bool,
    pub blended: bool,
    pub flat: bool,
    pub rolling: bool,
    pub sharp: bool,
    pub soft: bool,
}

pub open spec fn mountain_terms() -> Seq<Seq<char>> {
    seq!["mountain"@, "mountains"@, "peak"@, "peaks"@, "alpine"@, "rugged"@]
}

pub open spec fn valley_terms() -> Seq<Seq<char>> {
    seq!["valley"@, "valleys"@, "basin"@, "river"@]
}

pub open spec fn canyon_terms() -> Seq<Seq<char>> {
    seq!["canyon"@, "canyons"@, "cliff"@, "cliffs"@, "mesa"@, "ravine"@]
}

pub open spec fn desert_terms() -> Seq<Seq<char>> {
    seq!["desert"@, "dune"@, "arid"@, "dry"@]
}

pub open spec fn blend_terms() -> Seq<Seq<char>> {
    seq!["blend"@, "blended"@, "smooth"@, "transition"@]
}

pub open spec fn flat_terms() -> Seq<Seq<char>> {
    seq!["flat"@, "plain"@, "plains"@, "meadow"@, "gentle"@]
}

pub open spec fn rolling_terms() -> Seq<Seq<char>> {
    seq!["rolling"@, "hill"@, "hills"@, "undulating"@]
}

pub open spec fn sharp_terms() -> Seq<Seq<char>> {
    seq!["sharp"@, "steep"@, "dramatic"@, "extreme"@]
}

pub open spec fn soft_terms() -> Seq<Seq<char>> {
    seq!["smooth"@, "soft"@]
}

/// The kinds of terrain `description` asks for.
pub open spec fn description_traits(description: Seq<char>) -> DescriptionTraits {
    DescriptionTraits {
        mountains: mentions(description, mountain_terms()),
        valleys: mentions(description, valley_terms()),
        canyons: mentions(description, canyon_terms()),
        desert: mentions(description, desert_terms()),
        blended: mentions(description, blend_terms()),
        flat: mentions(description, flat_terms()),
        rolling: mentions(description, rolling_terms()),
        sharp: mentions(description, sharp_terms()),
        soft: mentions(description, soft_terms()),
    }
}

fn mentions_any(pieces: &Vec<Vec<char>>, terms: &[&str]) -> (found: bool)
    ensures
        found == exists|i: int, j: int|
            0 <= i < pieces@.len() && 0 <= j < terms@.len() && #[trigger] pieces@[i]@ == #[trigger] terms@[j]@,
{
    let mut i: usize = 0;
    while i < pieces.len()
        invariant
            i <= pieces@.len(),
            forall|a: int, b: int| 0 <= a < i && 0 <= b < terms@.len() ==> #[trigger] pieces@[a]@ != #[trigger] terms@[b]@,
        decreases pieces@.len() - i,
    {
        let mut j: usize = 0;
        while j < terms.len()
            invariant
                i < pieces@.len(),
                j <= terms@.len(),
                forall|b: int| 0 <= b < j ==> pieces@[i as int]@ != #[trigger] terms@[b]@,
            decreases terms@.len() - j,
        {
            if crate::text::chars_eq(&pieces[i], terms[j]) {
                return true;
            }
            j = j + 1;
        }
        i = i + 1;
    }
    false
}

fn mentions_terms(pieces: &Vec<Vec<char>>, terms: &[&str], Ghost(description): Ghost<Seq<char>>, Ghost(spec_terms): Ghost<Seq<Seq<char>>>) -> (found: bool)
    requires
        pieces@.len() == description_pieces(description).len(),
        forall|k: int| 0 <= k < pieces@.len() ==> #[trigger] pieces@[k]@ == description_pieces(description)[k],
        terms@.len() == spec_terms.len(),
        forall|k: int| 0 <= k < terms@.len() ==> #[trigger] terms@[k]@ == spec_terms[k],
    ensures
        found == mentions(description, spec_terms),
{
    let found = mentions_any(pieces, terms);
    proof {
        if found {
            let (i, j) = choose|i: int, j: int|
                0 <= i < pieces@.len() && 0 <= j < terms@.len() && #[trigger] pieces@[i]@ == #[trigger] terms@[j]@;
            assert(description_pieces(description)[i] == spec_terms[j]);
        } else if mentions(description, spec_terms) {
            let (i, j) = choose|i: int, j: int|
                0 <= i < description_pieces(description).len() && 0 <= j < spec_terms.len()
                    && #[trigger] description_pieces(description)[i] == #[trigger] spec_terms[j];
            assert(pieces@[i]@ == terms@[j]@);
        }
    }
    found
}

/// The kinds of terrain a description asks for: each kind is asked for when
/// one of its words occurs among the description's words (runs of ASCII
/// letters and digits, compared lowercased).
pub fn describe_terrain(description: &str) -> (traits: DescriptionTraits)
    ensures
        traits == description_traits(description@),
{
    let mapped = map_name_chars(description);
    let pieces = split_chars(&mapped, '_');
    let ghost d = description@;
    let mountain = ["mountain", "mountains", "peak", "peaks", "alpine", "rugged"];
    let valley = ["valley", "valleys", "basin", "river"];
    let canyon = ["canyon", "canyons", "cliff", "cliffs", "mesa", "ravine"];
    let desert = ["desert", "dune", "arid", "dry"];
    let blend = ["blend", "blended", "smooth", "transition"];
    let flat = ["flat", "plain", "plains", "meadow", "gentle"];
    let rolling = ["rolling", "hill", "hills", "undulating"];
    let sharp = ["sharp", "steep", "dramatic", "extreme"];
    let soft = ["smooth", "soft"];
    DescriptionTraits {
        mountains: mentions_terms(&pieces, &mountain, Ghost(d), Ghost(mountain_terms())),
        valleys: mentions_terms(&pieces, &valley, Ghost(d), Ghost(valley_terms())),
        canyons: mentions_terms(&pieces, &canyon, Ghost(d), Ghost(canyon_terms())),
        desert: mentions_terms(&pieces, &desert, Ghost(d), Ghost(desert_terms())),
        blended: mentions_terms(&pieces, &blend, Ghost(d), Ghost(blend_terms())),
        flat: mentions_terms(&pieces, &flat, Ghost(d), Ghost(flat_terms())),
        rolling: mentions_terms(&pieces, &rolling, Ghost(d), Ghost(rolling_terms())),
        sharp: mentions_terms(&pieces, &sharp, Ghost(d), Ghost(sharp_terms())),
        soft: mentions_terms(&pieces, &soft, Ghost(d), Ghost(soft_terms())),
    }
}

} // verus!

verus! {

/// A text option as plain characters.
pub open spec fn text_view(o: Option<String>) -> Option<Seq<char>> {
    match o {
        Some(s) => Some(s@),
        None => None,
    }
}

/// A pair of texts as plain characters.
pub open spec fn pair_view(p: (String, String)) -> (Seq<char>, Seq<char>) {
    (p.0@, p.1@)
}

fn arg_is(arg: &String, name: &str) -> (b: bool)
    ensures
        b == (arg@ == name@),
{
    crate::text::chars_eq(&crate::text::chars_of(arg.as_str()), name)
}

/// Options of the terrain sampling command.
pub struct LabOptions {
    pub profile: Option<String>,
    pub seed: Option<i64>,
    pub name: Option<String>,
    pub out: Option<String>,
    pub csv_path: Option<String>,
    pub center_chunk: (i64, i64),
    pub region_chunks: i64,
    /// Key and value text of each `--set key=value`, in order; the caller
    /// reads the values.
    pub sets: Vec<(String, String)>,
    /// The two texts of each `--ravine-offset x z`, in order; the caller
    /// reads them.
    pub ravine_offsets: Vec<(String, String)>,
    pub ascii: bool,
    pub list_params: bool,
    pub help: bool,
}

/// `LabOptions` as plain values.
pub ghost struct LabView {
    pub profile: Option<Seq<char>>,
    pub seed: Option<int>,
    pub name: Option<Seq<char>>,
    pub out: Option<Seq<char>>,
    pub csv_path: Option<Seq<char>>,
    pub center_chunk: (int, int),
    pub region_chunks: int,
    pub sets: Seq<(Seq<char>, Seq<char>)>,
    pub ravine_offsets: Seq<(Seq<char>, Seq<char>)>,
    pub ascii: bool,
    pub list_params: bool,
    pub help: bool,
}

impl View for LabOptions {
    type V = LabView;

    open spec fn view(&self) -> LabView {
        LabView {
            profile: text_view(self.profile),
            seed: match self.seed {
                Some(s) => Some(s as int),
                None => None,
            },
            name: text_view(self.name),
            out: text_view(self.out),
            csv_path: text_view(self.csv_path),
            center_chunk: (self.center_chunk.0 as int, self.center_chunk.1 as int),
            region_chunks: self.region_chunks as int,
            sets: self.sets@.map_values(|p: (String, String)| pair_view(p)),
            ravine_offsets: self.ravine_offsets@.map_values(|p: (String, String)| pair_view(p)),
            ascii: self.ascii,
            list_params: self.list_params,
            help: self.help,
        }
    }
}

/// `v` kept within `1..=128`.
pub open spec fn region_clamp(v: int) -> int {
    if v < 1 {
        1
    } else if v > 128 {
        128
    } else {
        v
    }
}

/// The sampling options after reading `args[i..]`: options with values take
/// the next argument (or the next two), when there are enough; a value that
/// is not a number leaves the option as it was (`--seed` becomes unset);
/// unknown arguments are skipped.
pub open spec fn lab_scan(args: Seq<Seq<char>>, i: int, acc: LabView) -> LabView
    decreases args.len() - i,
{
    if i < 0 || i >= args.len() {
        acc
    } else {
        let a = args[i];
        let has1 = i + 1 < args.len();
        let has2 = i + 2 < args.len();
        if a == "--profile"@ {
            if has1 { lab_scan(args, i + 2, LabView { profile: Some(args[i + 1]), ..acc }) } else { acc }
        } else if a == "--seed"@ {
            if has1 { lab_scan(args, i + 2, LabView { seed: crate::ui::launch::parse_signed(args[i + 1]), ..acc }) } else { acc }
        } else if a == "--name"@ {
            if has1 { lab_scan(args, i + 2, LabView { name: Some(args[i + 1]), ..acc }) } else { acc }
        } else if a == "--out"@ {
            if has1 { lab_scan(args, i + 2, LabView { out: Some(args[i + 1]), ..acc }) } else { acc }
        } else if a == "--csv"@ {
            if has1 { lab_scan(args, i + 2, LabView { csv_path: Some(args[i + 1]), ..acc }) } else { acc }
        } else if a == "--center-chunk"@ {
            if has2 {
                let next = match (crate::ui::launch::parse_signed(args[i + 1]), crate::ui::launch::parse_signed(args[i + 2])) {
                    (Some(x), Some(z)) => LabView { center_chunk: (x, z), ..acc },
                    _ => acc,
                };
                lab_scan(args, i + 3, next)
            } else {
                acc
            }
        } else if a == "--region-chunks"@ {
            if has1 {
                let next = match crate::ui::launch::parse_signed(args[i + 1]) {
                    Some(n) => LabView { region_chunks: region_clamp(n), ..acc },
                    None => acc,
                };
                lab_scan(args, i + 2, next)
            } else {
                acc
            }
        } else if a == "--set"@ {
            if has1 {
                let next = match crate::text::split_once(args[i + 1], '=') {
                    Some(kv) => LabView { sets: acc.sets.push(kv), ..acc },
                    None => acc,
                };
                lab_scan(args, i + 2, next)
            } else {
                acc
            }
        } else if a == "--ravine-offset"@ {
            if has2 {
                lab_scan(args, i + 3, LabView { ravine_offsets: acc.ravine_offsets.push((args[i + 1], args[i + 2])), ..acc })
            } else {
                acc
            }
        } else if a == "--ascii"@ {
            lab_scan(args, i + 1, LabView { ascii: true, ..acc })
        } else if a == "--list-params"@ {
            lab_scan(args, i + 1, LabView { list_params: true, ..acc })
        } else if a == "--help"@ || a == "-h"@ {
            lab_scan(args, i + 1, LabView { help: true, ..acc })
        } else {
            lab_scan(args, i + 1, acc)
        }
    }
}

/// The sampling options before any argument is read.
pub open spec fn lab_defaults() -> LabView {
    LabView {
        profile: None,
        seed: None,
        name: None,
        out: None,
        csv_path: None,
        center_chunk: (0, 0),
        region_chunks: 32,
        sets: Seq::empty(),
        ravine_offsets: Seq::empty(),
        ascii: false,
        list_params: false,
        help: false,
    }
}

impl LabOptions {
    /// Reads the sampling options from the arguments (the program name left
    /// out; see `lab_scan`).
    pub fn from_args(args: &Vec<String>) -> (options: Self)
        ensures
            options@ == lab_scan(args@.map_values(|s: String| s@), 0, lab_defaults()),
    {
        let ghost a = args@.map_values(|s: String| s@);
        let mut o = LabOptions {
            profile: None,
            seed: None,
            name: None,
            out: None,
            csv_path: None,
            center_chunk: (0, 0),
            region_chunks: 32,
            sets: Vec::new(),
            ravine_offsets: Vec::new(),
            ascii: false,
            list_params: false,
            help: false,
        };
        proof {
            assert(o@.sets =~= Seq::<(Seq<char>, Seq<char>)>::empty());
            assert(o@.ravine_offsets =~= Seq::<(Seq<char>, Seq<char>)>::empty());
            assert(o@ == lab_defaults());
        }
        let n = args.len();
        let mut i: usize = 0;
        while i < n
            invariant
                n == args@.len(),
                a == args@.map_values(|s: String| s@),
                i <= n,
                lab_scan(a, 0, lab_defaults()) == lab_scan(a, i as int, o@),
            decreases n - i,
        {
            let arg = &args[i];
            let ghost acc = o@;
            if arg_is(arg, "--profile") {
                if i + 1 < n {
                    o.profile = Some(args[i + 1].clone());
                    i = i + 2;
                } else {
                    i = n;
                }
            } else if arg_is(arg, "--seed") {
                if i + 1 < n {
                    o.seed = crate::ui::launch::parse_i64(args[i + 1].as_str());
                    i = i + 2;
                } else {
                    i = n;
                }
            } else if arg_is(arg, "--name") {
                if i + 1 < n {
                    o.name = Some(args[i + 1].clone());
                    i = i + 2;
                } else {
                    i = n;
                }
            } else if arg_is(arg, "--out") {
                if i + 1 < n {
                    o.out = Some(args[i + 1].clone());
                    i = i + 2;
                } else {
                    i = n;
                }
            } else if arg_is(arg, "--csv") {
                if i + 1 < n {
                    o.csv_path = Some(args[i + 1].clone());
                    i = i + 2;
                } else {
                    i = n;
                }
            } else if arg_is(arg, "--center-chunk") {
                if n - i > 2 {
                    let x = crate::ui::launch::parse_i64(args[i + 1].as_str());
                    let z = crate::ui::launch::parse_i64(args[i + 2].as_str());
                    match (x, z) {
                        (Some(x), Some(z)) => {
                            o.center_chunk = (x, z);
                        },
                        _ => {},
                    }
                    i = i + 3;
                } else {
                    i = n;
                }
            } else if arg_is(arg, "--region-chunks") {
                if i + 1 < n {
                    match crate::ui::launch::parse_i64(args[i + 1].as_str()) {
                        Some(v) => {
                            o.region_chunks = if v < 1 {
                                1
                            } else if v > 128 {
                                128
                            } else {
                                v
                            };
                        },
                        None => {},
                    }
                    i = i + 2;
                } else {
                    i = n;
                }
            } else if arg_is(arg, "--set") {
                if i + 1 < n {
                    let chars = crate::text::chars_of(args[i + 1].as_str());
                    match crate::text::split_once_chars(&chars, '=') {
                        Some((k, v)) => {
                            o.sets.push((crate::text::string_of(&k), crate::text::string_of(&v)));
                            proof {
                                assert(o@.sets =~= acc.sets.push((k@, v@)));
                            }
                        },
                        None => {},
                    }
                    i = i + 2;
                } else {
                    i = n;
                }
            } else if arg_is(arg, "--ravine-offset") {
                if n - i > 2 {
                    o.ravine_offsets.push((args[i + 1].clone(), args[i + 2].clone()));
                    proof {
                        assert(o@.ravine_offsets =~= acc.ravine_offsets.push((a[i + 1], a[i + 2])));
                    }
                    i = i + 3;
                } else {
                    i = n;
                }
            } else if arg_is(arg, "--ascii") {
                o.ascii = true;
                i = i + 1;
            } else if arg_is(arg, "--list-params") {
                o.list_params = true;
                i = i + 1;
            } else if arg_is(arg, "--help") || arg_is(arg, "-h") {
                o.help = true;
                i = i + 1;
            } else {
                i = i + 1;
            }
        }
        o
    }

    /// The profile asked for, or `custom`.
    pub fn profile_name(&self) -> (name: String)
        ensures
            name@ == match self.profile {
                Some(p) => p@,
                None => "custom"@,
            },
    {
        match &self.profile {
            Some(p) => p.clone(),
            None => String::from_str("custom"),
        }
    }
}

} // verus!

verus! {

/// Options of the terrain recipe and asset registry command.
pub struct ToolOptions {
    pub description: String,
    pub profile: Option<String>,
    pub seed: Option<i64>,
    pub out: Option<String>,
    pub name: Option<String>,
    pub assets_file: Option<String>,
    pub assets_list: bool,
    pub assets_add_texture: Option<(String, String)>,
    pub assets_remove_texture: Option<String>,
    /// Id, terrain profile, top, side and bottom texture of a biome to add.
    pub assets_add_biome: Option<Vec<String>>,
    pub assets_remove_biome: Option<String>,
    /// The text of each `--tint`, in order; the caller reads them.
    pub tints: Vec<String>,
    pub help: bool,
}

/// `ToolOptions` as plain values.
pub ghost struct ToolView {
    pub description: Seq<char>,
    pub profile: Option<Seq<char>>,
    pub seed: Option<int>,
    pub out: Option<Seq<char>>,
    pub name: Option<Seq<char>>,
    pub assets_file: Option<Seq<char>>,
    pub assets_list: bool,
    pub assets_add_texture: Option<(Seq<char>, Seq<char>)>,
    pub assets_remove_texture: Option<Seq<char>>,
    pub assets_add_biome: Option<Seq<Seq<char>>>,
    pub assets_remove_biome: Option<Seq<char>>,
    pub tints: Seq<Seq<char>>,
    pub help: bool,
}

impl View for ToolOptions {
    type V = ToolView;

    open spec fn view(&self) -> ToolView {
        ToolView {
            description: self.description@,
            profile: text_view(self.profile),
            seed: match self.seed {
                Some(s) => Some(s as int),
                None => None,
            },
            out: text_view(self.out),
            name: text_view(self.name),
            assets_file: text_view(self.assets_file),
            assets_list: self.assets_list,
            assets_add_texture: match self.assets_add_texture {
                Some(p) => Some(pair_view(p)),
                None => None,
            },
            assets_remove_texture: text_view(self.assets_remove_texture),
            assets_add_biome: match self.assets_add_biome {
                Some(fields) => Some(fields@.map_values(|f: String| f@)),
                None => None,
            },
            assets_remove_biome: text_view(self.assets_remove_biome),
            tints: self.tints@.map_values(|t: String| t@),
            help: self.help,
        }
    }
}

/// The recipe tool's options after reading `args[i..]`: options with values
/// take the next argument (the next two for a texture, the next five for a
/// biome), when there are enough; a `--seed` that is not a number unsets the
/// seed; unknown arguments are skipped.
pub open spec fn tool_scan(args: Seq<Seq<char>>, i: int, acc: ToolView) -> ToolView
    decreases args.len() - i,
{
    if i < 0 || i >= args.len() {
        acc
    } else {
        let a = args[i];
        let has1 = i + 1 < args.len();
        if a == "--describe"@ {
            if has1 { tool_scan(args, i + 2, ToolView { description: args[i + 1], ..acc }) } else { acc }
        } else if a == "--profile"@ {
            if has1 { tool_scan(args, i + 2, ToolView { profile: Some(args[i + 1]), ..acc }) } else { acc }
        } else if a == "--seed"@ {
            if has1 { tool_scan(args, i + 2, ToolView { seed: crate::ui::launch::parse_signed(args[i + 1]), ..acc }) } else { acc }
        } else if a == "--out"@ {
            if has1 { tool_scan(args, i + 2, ToolView { out: Some(args[i + 1]), ..acc }) } else { acc }
        } else if a == "--name"@ {
            if has1 { tool_scan(args, i + 2, ToolView { name: Some(args[i + 1]), ..acc }) } else { acc }
        } else if a == "--assets-file"@ {
            if has1 { tool_scan(args, i + 2, ToolView { assets_file: Some(args[i + 1]), ..acc }) } else { acc }
        } else if a == "--assets-list"@ {
            tool_scan(args, i + 1, ToolView { assets_list: true, ..acc })
        } else if a == "--assets-add-texture"@ {
            if i + 2 < args.len() {
                tool_scan(args, i + 3, ToolView { assets_add_texture: Some((args[i + 1], args[i + 2])), ..acc })
            } else {
                acc
            }
        } else if a == "--assets-remove-texture"@ {
            if has1 { tool_scan(args, i + 2, ToolView { assets_remove_texture: Some(args[i + 1]), ..acc }) } else { acc }
        } else if a == "--assets-add-biome"@ {
            if i + 5 < args.len() {
                tool_scan(args, i + 6, ToolView { assets_add_biome: Some(args.subrange(i + 1, i + 6)), ..acc })
            } else {
                acc
            }
        } else if a == "--assets-remove-biome"@ {
            if has1 { tool_scan(args, i + 2, ToolView { assets_remove_biome: Some(args[i + 1]), ..acc }) } else { acc }
        } else if a == "--tint"@ {
            if has1 { tool_scan(args, i + 2, ToolView { tints: acc.tints.push(args[i + 1]), ..acc }) } else { acc }
        } else if a == "--help"@ || a == "-h"@ {
            tool_scan(args, i + 1, ToolView { help: true, ..acc })
        } else {
            tool_scan(args, i + 1, acc)
        }
    }
}

/// The recipe tool's options before any argument is read.
pub open spec fn tool_defaults() -> ToolView {
    ToolView {
        description: Seq::empty(),
        profile: None,
        seed: None,
        out: None,
        name: None,
        assets_file: None,
        assets_list: false,
        assets_add_texture: None,
        assets_remove_texture: None,
        assets_add_biome: None,
        assets_remove_biome: None,
        tints: Seq::empty(),
        help: false,
    }
}

impl ToolOptions {
    /// Reads the recipe tool's options from the arguments (the program name
    /// left out; see `tool_scan`).
    pub fn from_args(args: &Vec<String>) -> (options: Self)
        ensures
            options@ == tool_scan(args@.map_values(|s: String| s@), 0, tool_defaults()),
    {
        let ghost a = args@.map_values(|s: String| s@);
        let mut o = ToolOptions {
            description: String::new(),
            profile: None,
            seed: None,
            out: None,
            name: None,
            assets_file: None,
            assets_list: false,
            assets_add_texture: None,
            assets_remove_texture: None,
            assets_add_biome: None,
            assets_remove_biome: None,
            tints: Vec::new(),
            help: false,
        };
        proof {
            assert(o@.tints =~= Seq::<Seq<char>>::empty());
            assert(o@.description =~= Seq::<char>::empty());
            assert(o@ == tool_defaults());
        }
        let n = args.len();
        let mut i: usize = 0;
        while i < n
            invariant
                n == args@.len(),
                a == args@.map_values(|s: String| s@),
                i <= n,
                tool_scan(a, 0, tool_defaults()) == tool_scan(a, i as int, o@),
            decreases n - i,
        {
            let arg = &args[i];
            let ghost acc = o@;
            if arg_is(arg, "--describe") {
                if i + 1 < n {
                    o.description = args[i + 1].clone();
                    i = i + 2;
                } else {
                    i = n;
                }
            } else if arg_is(arg, "--profile") {
                if i + 1 < n {
                    o.profile = Some(args[i + 1].clone());
                    i = i + 2;
                } else {
                    i = n;
                }
            } else if arg_is(arg, "--seed") {
                if i + 1 < n {
                    o.seed = crate::ui::launch::parse_i64(args[i + 1].as_str());
                    i = i + 2;
                } else {
                    i = n;
                }
            } else if arg_is(arg, "--out") {
                if i + 1 < n {
                    o.out = Some(args[i + 1].clone());
                    i = i + 2;
                } else {
                    i = n;
                }
            } else if arg_is(arg, "--name") {
                if i + 1 < n {
                    o.name = Some(args[i + 1].clone());
                    i = i + 2;
                } else {
                    i = n;
                }
            } else if arg_is(arg, "--assets-file") {
                if i + 1 < n {
                    o.assets_file = Some(args[i + 1].clone());
                    i = i + 2;
                } else {
                    i = n;
                }
            } else if arg_is(arg, "--assets-list") {
                o.assets_list = true;
                i = i + 1;
            } else if arg_is(arg, "--assets-add-texture") {
                if n - i > 2 {
                    o.assets_add_texture = Some((args[i + 1].clone(), args[i + 2].clone()));
                    i = i + 3;
                } else {
                    i = n;
                }
            } else if arg_is(arg, "--assets-remove-texture") {
                if i + 1 < n {
                    o.assets_remove_texture = Some(args[i + 1].clone());
                    i = i + 2;
                } else {
                    i = n;
                }
            } else if arg_is(arg, "--assets-add-biome") {
                if n - i > 5 {
                    let mut fields: Vec<String> = Vec::new();
                    let mut k: usize = 1;
                    while k <= 5
                        invariant
                            n == args@.len(),
                            i + 5 < n,
                            1 <= k <= 6,
                            fields@.len() == k - 1,
                            forall|j: int| 0 <= j < k - 1 ==> #[trigger] fields@[j]@ == args@[i + 1 + j]@,
                        decreases 6 - k,
                    {
                        fields.push(args[i + k].clone());
                        k = k + 1;
                    }
                    proof {
                        assert(fields@.map_values(|f: String| f@) =~= a.subrange(i + 1, i + 6));
                    }
                    o.assets_add_biome = Some(fields);
                    i = i + 6;
                } else {
                    i = n;
                }
            } else if arg_is(arg, "--assets-remove-biome") {
                if i + 1 < n {
                    o.assets_remove_biome = Some(args[i + 1].clone());
                    i = i + 2;
                } else {
                    i = n;
                }
            } else if arg_is(arg, "--tint") {
                if i + 1 < n {
                    o.tints.push(args[i + 1].clone());
                    proof {
                        assert(o@.tints =~= acc.tints.push(a[i + 1]));
                    }
                    i = i + 2;
                } else {
                    i = n;
                }
            } else if arg_is(arg, "--help") || arg_is(arg, "-h") {
                o.help = true;
                i = i + 1;
            } else {
                i = i + 1;
            }
        }
        o
    }

    /// Whether the options ask for a registry command.
    pub fn has_asset_command(&self) -> (b: bool)
        ensures
            b == (self.assets_list || self.assets_add_texture is Some || self.assets_remove_texture is Some
                || self.assets_add_biome is Some || self.assets_remove_biome is Some),
    {
        self.assets_list || self.assets_add_texture.is_some() || self.assets_remove_texture.is_some()
            || self.assets_add_biome.is_some() || self.assets_remove_biome.is_some()
    }
}

} // verus!
