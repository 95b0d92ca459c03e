use subdivism::tools::{LabOptions, ToolOptions};

fn args(list: &[&str]) -> Vec<String> {
    list.iter().map(|s| s.to_string()).collect()
}

#[test]
fn lab_options_read_values_and_switches() {
    let o = LabOptions::from_args(&args(&[
        "--cli", "--profile", "alpine", "--seed", "-5", "--center-chunk", "3", "-4", "--region-chunks", "500",
        "--set", "mountain_amplitude=22", "--set", "broken", "--ravine-offset", "120", "-40", "--ascii", "-h",
    ]));
    assert_eq!(o.profile.as_deref(), Some("alpine"));
    assert_eq!(o.seed, Some(-5));
    assert_eq!(o.center_chunk, (3, -4));
    assert_eq!(o.region_chunks, 128);
    assert_eq!(o.sets, vec![("mountain_amplitude".to_string(), "22".to_string())]);
    assert_eq!(o.ravine_offsets, vec![("120".to_string(), "-40".to_string())]);
    assert!(o.ascii && o.help && !o.list_params);
    assert_eq!(o.profile_name(), "alpine");

    let d = LabOptions::from_args(&args(&["--seed", "x", "--region-chunks", "-3", "--center-chunk", "1", "q", "--out"]));
    assert_eq!(d.seed, None);
    assert_eq!(d.region_chunks, 1);
    assert_eq!(d.center_chunk, (0, 0));
    assert_eq!(d.out, None);
    assert_eq!(d.profile_name(), "custom");
    assert_eq!(LabOptions::from_args(&Vec::new()).region_chunks, 32);
}

#[test]
fn tool_options_read_registry_commands() {
    let o = ToolOptions::from_args(&args(&[
        "--describe", "rolling hills", "--assets-add-texture", "sand", "textures/sand.png", "--tint", "1,1,0.5",
        "--assets-add-biome", "dunes", "canyon", "sand", "sand", "stone", "--seed", "12", "--assets-remove-biome",
    ]));
    assert_eq!(o.description, "rolling hills");
    assert_eq!(o.assets_add_texture, Some(("sand".to_string(), "textures/sand.png".to_string())));
    assert_eq!(o.tints, vec!["1,1,0.5".to_string()]);
    assert_eq!(o.assets_add_biome, Some(args(&["dunes", "canyon", "sand", "sand", "stone"])));
    assert_eq!(o.seed, Some(12));
    assert_eq!(o.assets_remove_biome, None);
    assert!(o.has_asset_command());

    let short = ToolOptions::from_args(&args(&["--assets-add-biome", "a", "b", "c", "d"]));
    assert_eq!(short.assets_add_biome, None);
    assert!(!short.has_asset_command());
    assert!(ToolOptions::from_args(&args(&["--assets-list"])).has_asset_command());
}
