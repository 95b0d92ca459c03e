use subdivism::settings::{
    apply_settings_line, int_settings_lines, FloatSetting, IntSettings, NumberError, SettingsError,
    SettingsLine,
};

fn read_all(text: &str) -> Result<(IntSettings, Vec<(FloatSetting, String)>), String> {
    let mut settings = IntSettings::default();
    let mut fractional = Vec::new();
    for line in text.lines() {
        match apply_settings_line(&mut settings, line) {
            Ok(SettingsLine::Fractional(which, value)) => fractional.push((which, value)),
            Ok(_) => {}
            Err(err) => return Err(err.message()),
        }
    }
    Ok((settings.clamped(), fractional))
}

#[test]
fn settings_defaults_match_a_fresh_install() {
    let s = IntSettings::default();
    assert_eq!(s.render_distance_chunks, 24);
    assert_eq!(s.frame_cap_index, 2);
    assert!(s.shadows_enabled && s.fog_enabled && s.atmosphere_enabled);
    assert_eq!(s.ldo_start_distance_chunks, 16);
}

#[test]
fn settings_round_trip_stable() {
    let mut settings = IntSettings::default();
    settings.render_distance_chunks = 30;
    settings.frame_cap_index = 1;
    settings.fog_enabled = false;

    let text = int_settings_lines(settings).join("\n") + "\nshader_quality=0.400000\n";
    let (parsed, fractional) = read_all(&text).expect("settings parse");

    assert_eq!(parsed.render_distance_chunks, 30);
    assert_eq!(parsed.frame_cap_index, 1);
    assert!(!parsed.fog_enabled);
    assert_eq!(fractional, vec![(FloatSetting::ShaderQuality, "0.400000".to_string())]);
    assert_eq!(parsed, settings);
}

#[test]
fn settings_lines_write_every_whole_number_and_switch() {
    let s = IntSettings::new(30, 3, false, true, false, 20);
    let text = int_settings_lines(s).join("\n") + "\n";
    assert_eq!(
        text,
        "version=1\nrender_distance_chunks=30\nframe_cap_index=3\nshadows_enabled=false\nfog_enabled=true\natmosphere_enabled=false\nldo_start_distance_chunks=20\n"
    );
    let (parsed, fractional) = read_all(&text).expect("settings parse");
    assert_eq!(parsed, s);
    assert!(fractional.is_empty());
}

#[test]
fn settings_parse_clamps_extreme_values() {
    let text = "version=1\nrender_distance_chunks=999\nframe_cap_index=999\nldo_start_distance_chunks=999\nshader_quality=NaN\nfog_start=-99\nfog_end=2\n";
    let (parsed, fractional) = read_all(text).expect("settings parse");
    assert_eq!(parsed.render_distance_chunks, 128);
    assert_eq!(parsed.frame_cap_index, 4);
    assert_eq!(parsed.ldo_start_distance_chunks, 48);
    assert_eq!(
        fractional,
        vec![
            (FloatSetting::ShaderQuality, "NaN".to_string()),
            (FloatSetting::FogStart, "-99".to_string()),
            (FloatSetting::FogEnd, "2".to_string()),
        ]
    );
    let low = IntSettings::new(0, 0, true, true, true, 1);
    assert_eq!(low.render_distance_chunks, 2);
    assert_eq!(low.ldo_start_distance_chunks, 6);
}

#[test]
fn settings_lines_are_trimmed_and_comments_skipped() {
    let mut s = IntSettings::default();
    assert!(matches!(apply_settings_line(&mut s, "   # render_distance_chunks=5"), Ok(SettingsLine::Skipped)));
    assert!(matches!(apply_settings_line(&mut s, ""), Ok(SettingsLine::Skipped)));
    assert!(matches!(apply_settings_line(&mut s, "no separator"), Ok(SettingsLine::Skipped)));
    assert!(matches!(apply_settings_line(&mut s, "unknown_key=3"), Ok(SettingsLine::Skipped)));
    assert_eq!(s, IntSettings::default());
    assert!(matches!(apply_settings_line(&mut s, "  render_distance_chunks =  +40  "), Ok(SettingsLine::Applied)));
    assert_eq!(s.render_distance_chunks, 40);
    assert!(matches!(apply_settings_line(&mut s, "fog_enabled=FALSE"), Ok(SettingsLine::Applied)));
    assert!(!s.fog_enabled);
    assert!(matches!(apply_settings_line(&mut s, "fog_enabled=1"), Ok(SettingsLine::Applied)));
    assert!(s.fog_enabled);
    match apply_settings_line(&mut s, "color_vibrance = 1.5 = x") {
        Ok(SettingsLine::Fractional(which, value)) => {
            assert_eq!(which, FloatSetting::ColorVibrance);
            assert_eq!(value, "1.5 = x");
            assert_eq!(which.key(), "color_vibrance");
        }
        _ => panic!("expected a fractional setting"),
    }
}

#[test]
fn settings_errors_name_the_bad_value() {
    let mut s = IntSettings::default();
    match apply_settings_line(&mut s, "version=2") {
        Err(err) => {
            assert!(matches!(err, SettingsError::UnsupportedVersion(2)));
            assert_eq!(err.message(), "unsupported settings version `2` (expected 1)");
        }
        _ => panic!("expected a version error"),
    }
    match apply_settings_line(&mut s, "frame_cap_index=") {
        Err(err) => {
            assert!(matches!(err, SettingsError::InvalidNumber { reason: NumberError::Empty, .. }));
            assert_eq!(err.message(), "invalid frame_cap_index ``: cannot parse integer from empty string");
        }
        _ => panic!("expected a number error"),
    }
    match apply_settings_line(&mut s, "render_distance_chunks=-3") {
        Err(err) => {
            assert!(matches!(err, SettingsError::InvalidNumber { reason: NumberError::InvalidDigit, .. }));
            assert_eq!(err.message(), "invalid render_distance_chunks `-3`: invalid digit found in string");
        }
        _ => panic!("expected a number error"),
    }
    match apply_settings_line(&mut s, "ldo_start_distance_chunks=4294967296") {
        Err(err) => {
            assert!(matches!(err, SettingsError::InvalidNumber { reason: NumberError::TooLarge, .. }));
            assert_eq!(
                err.message(),
                "invalid ldo_start_distance_chunks `4294967296`: number too large to fit in target type"
            );
        }
        _ => panic!("expected a number error"),
    }
    match apply_settings_line(&mut s, "shadows_enabled=yes") {
        Err(err) => {
            assert!(matches!(err, SettingsError::InvalidFlag { .. }));
            assert_eq!(err.message(), "invalid shadows_enabled `yes`: expected true/false or 1/0");
        }
        _ => panic!("expected a flag error"),
    }
    assert!(matches!(apply_settings_line(&mut s, "version=+"), Err(SettingsError::InvalidNumber { reason: NumberError::InvalidDigit, .. })));
    assert!(matches!(apply_settings_line(&mut s, "version=1"), Ok(SettingsLine::Skipped)));
    assert_eq!(s, IntSettings::default());
}
