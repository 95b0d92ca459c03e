use subdivism::game::terrain_recipe::{
    all_recipe_params, apply_recipe_line, recipe_header_lines, RecipeError, RecipeHeader, RecipeLine, RecipeParam,
    TerrainProfile, DEFAULT_WORLD_SEED,
};

fn read(text: &str) -> Result<(RecipeHeader, Vec<(RecipeParam, String)>, Option<TerrainProfile>), RecipeError> {
    let mut header = RecipeHeader::default_seeded();
    let mut params = Vec::new();
    let mut profile = None;
    for line in text.lines() {
        match apply_recipe_line(&mut header, line)? {
            RecipeLine::Fractional(p, v) => params.push((p, v)),
            RecipeLine::Profile(p) => profile = p,
            _ => {}
        }
    }
    Ok((header, params, profile))
}

#[test]
fn recipe_round_trip_stable() {
    let mut header = RecipeHeader::balanced(42);
    header.name = "test".to_string();
    header.description = "rolling hills".to_string();
    let mut lines = recipe_header_lines(&header);
    for param in all_recipe_params() {
        let value: f32 = if param == RecipeParam::ValleyDepth { 7.25 } else { 1.0 };
        lines.push(format!("{}={:.6}", param.key(), value));
    }
    let text = lines.join("\n") + "\n";
    let (parsed, params, profile) = read(&text).expect("recipe parse");
    assert_eq!(parsed.seed, 42);
    assert_eq!(parsed.name, "test");
    assert_eq!(parsed.description, "rolling hills");
    assert_eq!(profile, Some(TerrainProfile::Balanced));
    assert_eq!(params.len(), 30);
    let valley = params.iter().find(|(p, _)| *p == RecipeParam::ValleyDepth).unwrap();
    assert!((valley.1.parse::<f32>().unwrap() - 7.25).abs() < 0.001);
}

#[test]
fn recipe_header_lines_in_order() {
    let header = RecipeHeader { name: "a".into(), description: "b c".into(), profile: "alpine".into(), seed: -7 };
    assert_eq!(
        recipe_header_lines(&header),
        vec!["# Subdivism terrain recipe", "version=1", "name=a", "description=b c", "profile=alpine", "seed=-7"]
    );
}

#[test]
fn recipe_lines_skip_comments_and_unknown_keys() {
    let mut header = RecipeHeader::default_seeded();
    assert!(matches!(apply_recipe_line(&mut header, "  # note"), Ok(RecipeLine::Skipped)));
    assert!(matches!(apply_recipe_line(&mut header, ""), Ok(RecipeLine::Skipped)));
    assert!(matches!(apply_recipe_line(&mut header, "no equals here"), Ok(RecipeLine::Skipped)));
    assert!(matches!(apply_recipe_line(&mut header, "version=1"), Ok(RecipeLine::Skipped)));
    assert!(matches!(apply_recipe_line(&mut header, "unknown=3"), Ok(RecipeLine::Skipped)));
    assert_eq!(header.seed, DEFAULT_WORLD_SEED);
    assert_eq!(header.name, "balanced_world");
    assert!(matches!(
        apply_recipe_line(&mut header, " ravine_width = 2.5 "),
        Ok(RecipeLine::Fractional(RecipeParam::RavineWidth, v)) if v == "2.5"
    ));
    assert!(matches!(apply_recipe_line(&mut header, "profile=Mountains"), Ok(RecipeLine::Profile(Some(TerrainProfile::Alpine)))));
    assert_eq!(header.profile, "Mountains");
    assert!(matches!(apply_recipe_line(&mut header, "profile=custom"), Ok(RecipeLine::Profile(None))));
    assert!(matches!(apply_recipe_line(&mut header, "name=peaks=high"), Ok(RecipeLine::Applied)));
    assert_eq!(header.name, "peaks=high");
}

#[test]
fn recipe_seed_must_be_a_whole_number() {
    let mut header = RecipeHeader::default_seeded();
    assert!(matches!(apply_recipe_line(&mut header, "seed=-12"), Ok(RecipeLine::Applied)));
    assert_eq!(header.seed, -12);
    match apply_recipe_line(&mut header, "seed=12x") {
        Err(RecipeError::InvalidSeed(v)) => assert_eq!(v, "12x"),
        _ => panic!("seed accepted"),
    }
    assert!(apply_recipe_line(&mut header, "seed=9223372036854775808").is_err());
    assert_eq!(header.seed, -12);
}
