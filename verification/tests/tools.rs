use subdivism::debug_overlay::glyph_rows;
use subdivism::tools::{csv_preview, rand_u64, sanitize_name, slugify};
use subdivism::ui::launch::{launch_options, parse_i64};
use subdivism::ui::{default_terrain_lab_save_name, random_i32_inclusive, sanitize_terrain_recipe_name};

#[test]
fn rand_u64_advances_xorshift_and_scrambles_output() {
    let mut state = 1_u64;
    let value = rand_u64(&mut state);
    assert_eq!(state, 0x0200_0001);
    assert_eq!(value, 5180492295206395165);
}

#[test]
fn random_i32_inclusive_stays_in_range_and_advances() {
    let mut state = 0xA5A5_1D2D_3D4D_5D6D_u64;
    let value = random_i32_inclusive(&mut state, -5, 5);
    assert_eq!(state, 0x5c70_7a64_1191_c44b);
    assert_eq!(value, 3);
    let mut state2 = 7_u64;
    assert_eq!(random_i32_inclusive(&mut state2, 4, 4), 4);
    assert_eq!(random_i32_inclusive(&mut state2, 9, 2), 9);
    let mut state3 = 99_u64;
    for _ in 0..200 {
        let v = random_i32_inclusive(&mut state3, -3, 2);
        assert!((-3..=2).contains(&v));
    }
}

#[test]
fn sanitize_name_keeps_lowercase_words() {
    assert_eq!(sanitize_name("My Biome  Mix!"), "my_biome_mix");
    assert_eq!(sanitize_name("__Alpine--Peaks__2"), "alpine_peaks_2");
    assert_eq!(sanitize_name("!!!"), "terrain");
    assert_eq!(sanitize_name(""), "terrain");
    assert_eq!(sanitize_name("ÄÖ x"), "x");
}

#[test]
fn slugify_keeps_at_most_six_words() {
    assert_eq!(slugify("Rolling hills with a river and dry canyons", "custom"), "rolling_hills_with_a_river_and");
    assert_eq!(slugify("  Jagged   PEAKS ", "custom"), "jagged_peaks");
    assert_eq!(slugify("...", "custom"), "custom");
}

#[test]
fn recipe_names_keep_dashes_and_underscores() {
    assert_eq!(sanitize_terrain_recipe_name("My-Recipe v2"), "my-recipe_v2");
    assert_eq!(sanitize_terrain_recipe_name("___"), "terrain");
    assert_eq!(sanitize_terrain_recipe_name("A__B"), "a_b");
}

#[test]
fn terrain_lab_save_name_spells_the_seed() {
    assert_eq!(default_terrain_lab_save_name(42), "terrain_lab_seed_42");
    assert_eq!(default_terrain_lab_save_name(-7), "terrain_lab_seed_-7");
    assert_eq!(default_terrain_lab_save_name(i64::MIN), "terrain_lab_seed_-9223372036854775808");
}

#[test]
fn csv_preview_writes_rows_of_the_grid() {
    let heights = vec![1, -2, 30, 4, 0, 7, 8, -9, 10, 99];
    assert_eq!(csv_preview(&heights, 3), "1,-2,30\n4,0,7\n8,-9,10\n");
    assert_eq!(csv_preview(&heights, 1), "1\n");
    assert_eq!(csv_preview(&heights, 0), "");
}

#[test]
fn glyphs_cover_letters_digits_and_blank_others() {
    assert_eq!(glyph_rows('A'), [0b01110, 0b10001, 0b10001, 0b11111, 0b10001, 0b10001, 0b10001]);
    assert_eq!(glyph_rows('7'), [0b11111, 0b00001, 0b00010, 0b00100, 0b01000, 0b01000, 0b01000]);
    assert_eq!(glyph_rows('_'), [0, 0, 0, 0, 0, 0, 0b11111]);
    assert_eq!(glyph_rows(' '), [0; 7]);
    assert_eq!(glyph_rows('a'), [0; 7]);
    for ch in "ABCDEFGHIJKLMNOPQRSTUVWXYZ0123456789.-_".chars() {
        assert!(glyph_rows(ch).iter().all(|row| *row < 32));
        assert!(glyph_rows(ch).iter().any(|row| *row != 0));
    }
}

#[test]
fn descriptions_name_terrain_kinds_by_whole_words() {
    let traits = subdivism::tools::describe_terrain("Rugged PEAKS over a dry river-basin; smooth blend!");
    assert!(traits.mountains);
    assert!(traits.valleys);
    assert!(traits.desert);
    assert!(traits.blended);
    assert!(traits.soft);
    assert!(!traits.canyons && !traits.flat && !traits.rolling && !traits.sharp);
    let none = subdivism::tools::describe_terrain("mountainous hillside cliffy");
    assert_eq!(
        none,
        subdivism::tools::DescriptionTraits {
            mountains: false,
            valleys: false,
            canyons: false,
            desert: false,
            blended: false,
            flat: false,
            rolling: false,
            sharp: false,
            soft: false,
        }
    );
    assert!(subdivism::tools::describe_terrain("gentle_hills").flat);
    assert!(subdivism::tools::describe_terrain("gentle_hills").rolling);
}

#[test]
fn signed_numbers_parse_like_i64() {
    assert_eq!(parse_i64("42"), Some(42));
    assert_eq!(parse_i64("+7"), Some(7));
    assert_eq!(parse_i64("-9223372036854775808"), Some(i64::MIN));
    assert_eq!(parse_i64("9223372036854775807"), Some(i64::MAX));
    assert_eq!(parse_i64("9223372036854775808"), None);
    assert_eq!(parse_i64("-9223372036854775809"), None);
    assert_eq!(parse_i64("-"), None);
    assert_eq!(parse_i64("+"), None);
    assert_eq!(parse_i64("-+3"), None);
    assert_eq!(parse_i64(""), None);
    assert_eq!(parse_i64(" 1"), None);
}

#[test]
fn launch_options_read_arguments_in_order() {
    let args: Vec<String> = ["--seed", "12", "--dev", "--seed", "x1", "--terrain-file", "a.terrain", "--bogus", "--seed"]
        .iter()
        .map(|s| s.to_string())
        .collect();
    let options = launch_options(&args, Some("TRUE"), true);
    assert_eq!(options.seed_override, Some(12));
    assert_eq!(options.rejected_seeds, vec!["x1".to_string()]);
    assert_eq!(options.terrain_file.as_deref(), Some("a.terrain"));
    assert!(options.dev_mode);
    assert!(options.terrain_lab);

    let none: Vec<String> = vec!["--terrain-lab".to_string()];
    let plain = launch_options(&none, Some("0"), true);
    assert!(plain.terrain_lab);
    assert_eq!(plain.terrain_file.as_deref(), Some("terrain/default.terrain"));
    assert_eq!(plain.seed_override, None);
    let bare = launch_options(&Vec::new(), None, false);
    assert!(!bare.terrain_lab && !bare.dev_mode && bare.terrain_file.is_none());
    assert!(!launch_options(&Vec::new(), Some("yes"), false).terrain_lab);
}
