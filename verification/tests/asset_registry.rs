use subdivism::game::asset_registry::{
    apply_registry_line, biome_line, default_biomes, registry_line_fields, remove_biome, sorted_slot, text_less_than,
    upsert_biome, BiomeEntry, RegistryLine, RegistryLineError, TextureEntry, TextureList,
};

fn biome(id: &str, profile: &str) -> BiomeEntry {
    BiomeEntry {
        id: id.to_string(),
        terrain_profile: profile.to_string(),
        top_texture: "dirt".to_string(),
        side_texture: "dirt".to_string(),
        bottom_texture: "stone".to_string(),
    }
}

fn ids(biomes: &[BiomeEntry]) -> Vec<&str> {
    biomes.iter().map(|b| b.id.as_str()).collect()
}

#[test]
fn text_order_is_string_order() {
    for (a, b) in [("a", "b"), ("ab", "abc"), ("", "a"), ("Z", "a"), ("meadow", "rocky"), ("b", "a"), ("x", "x")] {
        assert_eq!(text_less_than(a, b), a < b, "{a} vs {b}");
    }
}

#[test]
fn sorted_slot_finds_or_places_an_id() {
    let list: Vec<String> = vec!["alpha".into(), "delta".into(), "kilo".into()];
    assert_eq!(sorted_slot(&list, "delta"), Ok(1));
    assert_eq!(sorted_slot(&list, "beta"), Err(1));
    assert_eq!(sorted_slot(&list, "aaa"), Err(0));
    assert_eq!(sorted_slot(&list, "zulu"), Err(3));
}

#[test]
fn default_biomes_are_sorted_by_id() {
    let biomes = default_biomes();
    assert_eq!(ids(&biomes), vec!["dry", "meadow", "rocky"]);
    assert_eq!(biomes[1].top_texture, "grass_top");
    assert_eq!(biomes[2].terrain_profile, "alpine");
}

#[test]
fn upsert_keeps_ids_sorted_and_replaces_in_place() {
    let mut biomes = default_biomes();
    upsert_biome(&mut biomes, biome("forest", "balanced"));
    upsert_biome(&mut biomes, biome("arctic", "alpine"));
    upsert_biome(&mut biomes, biome("zone", "canyon"));
    assert_eq!(ids(&biomes), vec!["arctic", "dry", "forest", "meadow", "rocky", "zone"]);
    upsert_biome(&mut biomes, biome("meadow", "valleylands"));
    assert_eq!(biomes.len(), 6);
    assert_eq!(biomes[3].terrain_profile, "valleylands");
    remove_biome(&mut biomes, "dry");
    remove_biome(&mut biomes, "missing");
    assert_eq!(ids(&biomes), vec!["arctic", "forest", "meadow", "rocky", "zone"]);
}

#[test]
fn registry_lines_split_into_trimmed_fields() {
    assert_eq!(
        registry_line_fields("  biome, dunes ,canyon, sand,sand , stone  "),
        Some(vec!["biome".to_string(), "dunes".into(), "canyon".into(), "sand".into(), "sand".into(), "stone".into()])
    );
    assert_eq!(registry_line_fields("a,,b,"), Some(vec!["a".to_string(), "".into(), "b".into(), "".into()]));
    assert_eq!(registry_line_fields("# comment"), None);
    assert_eq!(registry_line_fields("version=1"), None);
    assert_eq!(registry_line_fields("   "), None);
}

#[test]
fn registry_round_trip() {
    let text = "# Subdivism asset registry\nversion=1\n\ntexture,dirt,textures/dirt.png,1.0000,1.0000,1.0000\n\nbiome,dry,canyon,dirt,dirt,stone\nbiome,meadow,balanced,grass_top,dirt,dirt\nbiome,rocky,alpine,stone,stone,stone\n";
    let mut biomes = Vec::new();
    let mut textures = Vec::new();
    for line in text.lines() {
        match apply_registry_line(&mut biomes, line).expect("registry parse") {
            RegistryLine::Texture(fields) => textures.push(fields),
            _ => {}
        }
    }
    assert_eq!(biomes, default_biomes());
    assert_eq!(textures.len(), 1);
    assert_eq!(textures[0][2], "textures/dirt.png");
}

#[test]
fn registry_rejects_short_biome_lines() {
    let mut biomes = default_biomes();
    assert_eq!(
        apply_registry_line(&mut biomes, "biome,dunes,canyon").err(),
        Some(RegistryLineError::BiomeFieldCount)
    );
    assert!(matches!(apply_registry_line(&mut biomes, "mystery,1,2"), Ok(RegistryLine::Skipped)));
    assert_eq!(biomes, default_biomes());
}

#[test]
fn biome_lines_read_back_as_the_same_biomes() {
    let biomes = default_biomes();
    let lines: Vec<String> = biomes.iter().map(biome_line).collect();
    assert_eq!(lines[1], "biome,meadow,balanced,grass_top,dirt,dirt");
    let mut read = Vec::new();
    for line in &lines {
        assert!(matches!(apply_registry_line(&mut read, line), Ok(RegistryLine::Biome)));
    }
    assert_eq!(read, biomes);
}

fn texture(id: &str) -> TextureEntry {
    TextureEntry { id: id.to_string(), path: format!("textures/{id}.png"), tint_bits: [1.0f32.to_bits(); 3] }
}

#[test]
fn texture_list_keeps_ids_in_order() {
    let mut list = TextureList::new();
    list.upsert(texture("stone"));
    list.upsert(texture("dirt"));
    list.upsert(texture("grass_top"));
    let ids: Vec<&str> = list.entries().iter().map(|t| t.id.as_str()).collect();
    assert_eq!(ids, vec!["dirt", "grass_top", "stone"]);
    let mut tinted = texture("dirt");
    tinted.tint_bits = [0.5f32.to_bits(); 3];
    list.upsert(tinted);
    assert_eq!(list.entries().len(), 3);
    assert_eq!(f32::from_bits(list.entries()[0].tint_bits[1]), 0.5);
    list.remove("grass_top");
    list.remove("sand");
    let ids: Vec<&str> = list.entries().iter().map(|t| t.id.as_str()).collect();
    assert_eq!(ids, vec!["dirt", "stone"]);
}

#[test]
fn texture_line_needs_six_fields() {
    let mut biomes = default_biomes();
    assert_eq!(
        apply_registry_line(&mut biomes, "texture,dirt,textures/dirt.png,1,1").err(),
        Some(RegistryLineError::TextureFieldCount)
    );
    assert!(matches!(
        apply_registry_line(&mut biomes, "texture,dirt,textures/dirt.png,1,1,1"),
        Ok(RegistryLine::Texture(fields)) if fields.len() == 6
    ));
}
