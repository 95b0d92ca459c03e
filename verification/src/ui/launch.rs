//! Start-up options of the game: read from the command line and the
//! terrain-lab environment switch.
use vstd::prelude::*;

use crate::settings::{parse_unsigned, parse_unsigned_chars, scan_digits};
use crate::text::{chars_eq, chars_of, lower_seq, lowercase_chars, slice_chars};

verus! {

/// The terrain recipe used when the command line names none and it exists.
pub const DEFAULT_TERRAIN_RECIPE_PATH: &'static str = "terrain/default.terrain";

/// A signed whole number: an optional sign and decimal digits, within the
/// range of `i64`.
pub open spec fn parse_signed(s: Seq<char>) -> Option<int> {
    if s.len() > 0 && s[0] == '-' {
        if s.len() == 1 {
            None
        } else {
            match scan_digits(s.drop_first(), 0, 0x8000_0000_0000_0000) {
                Ok(v) => Some(-v),
                Err(_) => None,
            }
        }
    } else {
        match parse_unsigned(s, 0x7FFF_FFFF_FFFF_FFFF) {
            Ok(v) => Some(v as int),
            Err(_) => None,
        }
    }
}

/// Reads a signed whole number (see `parse_signed`).
pub fn parse_i64(s: &str) -> (v: Option<i64>)
    ensures
        match v {
            Some(n) => parse_signed(s@) == Some(n as int),
            None => parse_signed(s@) is None,
        },
{
    let chars = chars_of(s);
    let n = chars.len();
    if n > 0 && chars[0] == '-' {
        if n == 1 {
            return None;
        }
        let digits = slice_chars(&chars, 1, n);
        proof {
            assert(digits@ =~= s@.drop_first());
            assert(digits@.len() > 0);
        }
        match parse_unsigned_chars(&digits, 0x8000_0000_0000_0000) {
            Ok(m) => {
                proof {
                    assert(digits@[0] != '+' && digits@[0] != '-' ==> parse_unsigned(digits@, 0x8000_0000_0000_0000)
                        == scan_digits(digits@, 0, 0x8000_0000_0000_0000));
                }
                if digits[0] == '+' || digits[0] == '-' {
                    proof {
                        assert(scan_digits(digits@, 0, 0x8000_0000_0000_0000) is Err);
                    }
                    return None;
                }
                Some((-(m as i128)) as i64)
            },
            Err(_) => {
                proof {
                    if digits@[0] != '+' && digits@[0] != '-' {
                        assert(parse_unsigned(digits@, 0x8000_0000_0000_0000) == scan_digits(
                            digits@,
                            0,
                            0x8000_0000_0000_0000,
                        ));
                    } else {
                        assert(scan_digits(digits@, 0, 0x8000_0000_0000_0000) is Err);
                    }
                }
                None
            },
        }
    } else {
        match parse_unsigned_chars(&chars, 0x7FFF_FFFF_FFFF_FFFF) {
            Ok(m) => Some(m as i64),
            Err(_) => None,
        }
    }
}

/// The start-up options.
pub struct LaunchOptions {
    pub seed_override: Option<i64>,
    pub terrain_file: Option<String>,
    pub dev_mode: bool,
    pub terrain_lab: bool,
    /// `--seed` values that are not whole numbers, in order.
    pub rejected_seeds: Vec<String>,
}

/// The options as plain values.
pub ghost struct LaunchView {
    pub seed_override: Option<int>,
    pub terrain_file: Option<Seq<char>>,
    pub dev_mode: bool,
    pub terrain_lab: bool,
    pub rejected_seeds: Seq<Seq<char>>,
}

impl View for LaunchOptions {
    type V = LaunchView;

    open spec fn view(&self) -> LaunchView {
        LaunchView {
            seed_override: match self.seed_override {
                Some(s) => Some(s as int),
                None => None,
            },
            terrain_file: match self.terrain_file {
                Some(f) => Some(f@),
                None => None,
            },
            dev_mode: self.dev_mode,
            terrain_lab: self.terrain_lab,
            rejected_seeds: self.rejected_seeds@.map_values(|s: String| s@),
        }
    }
}

/// The options after reading the arguments from `i` on: `--seed <n>` and
/// `--terrain-file <path>` take the next argument (when there is one),
/// `--dev`, `--dev-mode` and `--terrain-lab` are switches, the rest is
/// ignored; later arguments win.
pub open spec fn scan_args(args: Seq<Seq<char>>, i: int, acc: LaunchView) -> LaunchView
    decreases args.len() - i,
{
    if i < 0 || i >= args.len() {
        acc
    } else if args[i] == "--seed"@ {
        if i + 1 < args.len() {
            let next = match parse_signed(args[i + 1]) {
                Some(v) => LaunchView { seed_override: Some(v), ..acc },
                None => LaunchView { rejected_seeds: acc.rejected_seeds.push(args[i + 1]), ..acc },
            };
            scan_args(args, i + 2, next)
        } else {
            acc
        }
    } else if args[i] == "--terrain-file"@ {
        if i + 1 < args.len() {
            scan_args(args, i + 2, LaunchView { terrain_file: Some(args[i + 1]), ..acc })
        } else {
            acc
        }
    } else if args[i] == "--dev"@ || args[i] == "--dev-mode"@ {
        scan_args(args, i + 1, LaunchView { dev_mode: true, ..acc })
    } else if args[i] == "--terrain-lab"@ {
        scan_args(args, i + 1, LaunchView { terrain_lab: true, ..acc })
    } else {
        scan_args(args, i + 1, acc)
    }
}

/// The terrain-lab switch of the environment: `1`, or `true` in any letter
/// case; off when unset.
pub open spec fn lab_switch(env: Option<Seq<char>>) -> bool {
    match env {
        Some(v) => v == "1"@ || lower_seq(v) == "true"@,
        None => false,
    }
}

/// The start-up options for the arguments `args` (the program name left
/// out), the terrain-lab environment value `lab_env`, and whether the
/// default terrain recipe file exists.
pub open spec fn launch_view(args: Seq<Seq<char>>, lab_env: Option<Seq<char>>, default_recipe_exists: bool) -> LaunchView {
    let scanned = scan_args(
        args,
        0,
        LaunchView {
            seed_override: None,
            terrain_file: None,
            dev_mode: false,
            terrain_lab: lab_switch(lab_env),
            rejected_seeds: Seq::empty(),
        },
    );
    if scanned.terrain_file is None && default_recipe_exists {
        LaunchView { terrain_file: Some(DEFAULT_TERRAIN_RECIPE_PATH@), ..scanned }
    } else {
        scanned
    }
}

fn is_arg(arg: &String, name: &str) -> (b: bool)
    ensures
        b == (arg@ == name@),
{
    chars_eq(&chars_of(arg.as_str()), name)
}

/// Reads the start-up options (see `launch_view`).
pub fn launch_options(args: &Vec<String>, lab_env: Option<&str>, default_recipe_exists: bool) -> (options: LaunchOptions)
    ensures
        options@ == launch_view(
            args@.map_values(|s: String| s@),
            match lab_env {
                Some(v) => Some(v@),
                None => None,
            },
            default_recipe_exists,
        ),
{
    let ghost a = args@.map_values(|s: String| s@);
    let terrain_lab = match lab_env {
        Some(v) => {
            let chars = chars_of(v);
            chars_eq(&chars, "1") || chars_eq(&lowercase_chars(&chars), "true")
        },
        None => false,
    };
    let mut options = LaunchOptions {
        seed_override: None,
        terrain_file: None,
        dev_mode: false,
        terrain_lab,
        rejected_seeds: Vec::new(),
    };
    let ghost start = options@;
    proof {
        assert(start.rejected_seeds =~= Seq::<Seq<char>>::empty());
    }
    let n = args.len();
    let mut i: usize = 0;
    while i < n
        invariant
            n == args@.len(),
            a == args@.map_values(|s: String| s@),
            i <= n,
            scan_args(a, 0, start) == scan_args(a, i as int, options@),
        decreases n - i,
    {
        let arg = &args[i];
        let ghost acc = options@;
        if is_arg(arg, "--seed") {
            if i + 1 < n {
                match parse_i64(args[i + 1].as_str()) {
                    Some(v) => {
                        options.seed_override = Some(v);
                    },
                    None => {
                        options.rejected_seeds.push(args[i + 1].clone());
                        proof {
                            assert(options@.rejected_seeds =~= acc.rejected_seeds.push(a[i + 1]));
                        }
                    },
                }
                i = i + 2;
            } else {
                i = n;
            }
        } else if is_arg(arg, "--terrain-file") {
            if i + 1 < n {
                options.terrain_file = Some(args[i + 1].clone());
                i = i + 2;
            } else {
                i = n;
            }
        } else if is_arg(arg, "--dev") || is_arg(arg, "--dev-mode") {
            options.dev_mode = true;
            i = i + 1;
        } else if is_arg(arg, "--terrain-lab") {
            options.terrain_lab = true;
            i = i + 1;
        } else {
            i = i + 1;
        }
    }
    proof {
        assert(scan_args(a, i as int, options@) == options@);
    }
    if options.terrain_file.is_none() && default_recipe_exists {
        options.terrain_file = Some(String::from_str(DEFAULT_TERRAIN_RECIPE_PATH));
    }
    options
}

} // verus!
