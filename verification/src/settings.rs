//! The user settings file: `key=value` lines, blank lines and `#` comments.
//! The whole-number and on/off settings are read and kept in range here; a
//! fractional setting is handed back with its text for the caller to read.
use vstd::prelude::*;

use crate::text::{
    chars_eq, chars_of, decimal, is_white_space, lower_seq, push_decimal, split_once, split_once_chars, trim,
    trim_chars,
};
use crate::ui::{FRAME_CAP_PRESET_COUNT, MAX_RENDER_DISTANCE_CHUNKS, MIN_RENDER_DISTANCE_CHUNKS};

verus! {

/// The settings file format this code reads and writes.
pub const SETTINGS_VERSION: u32 = 1;
/// Render distance before the file says otherwise, in chunks.
pub const DEFAULT_RENDER_DISTANCE_CHUNKS: u32 = 24;
/// Frame cap preset before the file says otherwise.
pub const DEFAULT_FRAME_CAP_INDEX: usize = 2;
/// Distance at which reduced detail starts before the file says otherwise.
pub const DEFAULT_LDO_START_DISTANCE_CHUNKS: u32 = 16;
/// Bounds of the distance at which reduced detail starts, in chunks.
pub const MIN_LDO_START_DISTANCE_CHUNKS: u32 = 6;
pub const MAX_LDO_START_DISTANCE_CHUNKS: u32 = 48;

/// The whole-number and on/off settings.
#[derive(Clone, Copy, Debug, PartialEq, Eq, Structural)]
pub struct IntSettings {
    pub render_distance_chunks: u32,
    pub frame_cap_index: usize,
    pub shadows_enabled: bool,
    pub fog_enabled: bool,
    pub atmosphere_enabled: bool,
    pub ldo_start_distance_chunks: u32,
}

/// The settings a fresh install starts with.
pub open spec fn default_int_settings() -> IntSettings {
    IntSettings {
        render_distance_chunks: DEFAULT_RENDER_DISTANCE_CHUNKS,
        frame_cap_index: DEFAULT_FRAME_CAP_INDEX,
        shadows_enabled: true,
        fog_enabled: true,
        atmosphere_enabled: true,
        ldo_start_distance_chunks: DEFAULT_LDO_START_DISTANCE_CHUNKS,
    }
}

pub open spec fn clamp_u32(v: u32, lo: u32, hi: u32) -> u32 {
    if v < lo {
        lo
    } else if v > hi {
        hi
    } else {
        v
    }
}

/// `s` with every setting brought into its range.
pub open spec fn clamped_settings(s: IntSettings) -> IntSettings {
    IntSettings {
        render_distance_chunks: clamp_u32(s.render_distance_chunks, MIN_RENDER_DISTANCE_CHUNKS, MAX_RENDER_DISTANCE_CHUNKS),
        frame_cap_index: if s.frame_cap_index < FRAME_CAP_PRESET_COUNT - 1 {
            s.frame_cap_index
        } else {
            (FRAME_CAP_PRESET_COUNT - 1) as usize
        },
        ldo_start_distance_chunks: clamp_u32(
            s.ldo_start_distance_chunks,
            MIN_LDO_START_DISTANCE_CHUNKS,
            MAX_LDO_START_DISTANCE_CHUNKS,
        ),
        ..s
    }
}

impl Default for IntSettings {
    fn default() -> (s: Self)
        ensures
            s == default_int_settings(),
    {
        IntSettings {
            render_distance_chunks: DEFAULT_RENDER_DISTANCE_CHUNKS,
            frame_cap_index: DEFAULT_FRAME_CAP_INDEX,
            shadows_enabled: true,
            fog_enabled: true,
            atmosphere_enabled: true,
            ldo_start_distance_chunks: DEFAULT_LDO_START_DISTANCE_CHUNKS,
        }
    }
}

fn clamp_between(v: u32, lo: u32, hi: u32) -> (c: u32)
    ensures
        c == clamp_u32(v, lo, hi),
{
    if v < lo {
        lo
    } else if v > hi {
        hi
    } else {
        v
    }
}

impl IntSettings {
    /// Settings built from values that may be out of range (see `clamped`).
    pub fn new(
        render_distance_chunks: u32,
        frame_cap_index: usize,
        shadows_enabled: bool,
        fog_enabled: bool,
        atmosphere_enabled: bool,
        ldo_start_distance_chunks: u32,
    ) -> (s: Self)
        ensures
            s == clamped_settings(
                IntSettings {
                    render_distance_chunks,
                    frame_cap_index,
                    shadows_enabled,
                    fog_enabled,
                    atmosphere_enabled,
                    ldo_start_distance_chunks,
                },
            ),
    {
        IntSettings {
            render_distance_chunks,
            frame_cap_index,
            shadows_enabled,
            fog_enabled,
            atmosphere_enabled,
            ldo_start_distance_chunks,
        }.clamped()
    }

    /// The settings with render distance, frame cap preset and reduced-detail
    /// distance brought into their ranges; the switches unchanged.
    pub fn clamped(self) -> (s: Self)
        ensures
            s == clamped_settings(self),
    {
        let last_preset = FRAME_CAP_PRESET_COUNT - 1;
        IntSettings {
            render_distance_chunks: clamp_between(
                self.render_distance_chunks,
                MIN_RENDER_DISTANCE_CHUNKS,
                MAX_RENDER_DISTANCE_CHUNKS,
            ),
            frame_cap_index: if self.frame_cap_index < last_preset {
                self.frame_cap_index
            } else {
                last_preset
            },
            shadows_enabled: self.shadows_enabled,
            fog_enabled: self.fog_enabled,
            atmosphere_enabled: self.atmosphere_enabled,
            ldo_start_distance_chunks: clamp_between(
                self.ldo_start_distance_chunks,
                MIN_LDO_START_DISTANCE_CHUNKS,
                MAX_LDO_START_DISTANCE_CHUNKS,
            ),
        }
    }
}

/// The fractional settings, which the caller reads.
#[derive(Clone, Copy, Debug, PartialEq, Eq, Structural)]
pub enum FloatSetting {
    ShaderQuality,
    AmbientBoost,
    ShadowSoftness,
    ShadowContrast,
    FarShadowLift,
    FogStrength,
    FogStart,
    FogEnd,
    AtmosphereStrength,
    ColorVibrance,
    LdoDetailScale,
}

/// The key that names each fractional setting in the file.
pub open spec fn float_key(f: FloatSetting) -> Seq<char> {
    match f {
        FloatSetting::ShaderQuality => "shader_quality"@,
        FloatSetting::AmbientBoost => "ambient_boost"@,
        FloatSetting::ShadowSoftness => "shadow_softness"@,
        FloatSetting::ShadowContrast => "shadow_contrast"@,
        FloatSetting::FarShadowLift => "far_shadow_lift"@,
        FloatSetting::FogStrength => "fog_strength"@,
        FloatSetting::FogStart => "fog_start"@,
        FloatSetting::FogEnd => "fog_end"@,
        FloatSetting::AtmosphereStrength => "atmosphere_strength"@,
        FloatSetting::ColorVibrance => "color_vibrance"@,
        FloatSetting::LdoDetailScale => "ldo_detail_scale"@,
    }
}

impl FloatSetting {
    /// The key of this setting in the file.
    pub fn key(self) -> (k: &'static str)
        ensures
            k@ == float_key(self),
    {
        match self {
            FloatSetting::ShaderQuality => "shader_quality",
            FloatSetting::AmbientBoost => "ambient_boost",
            FloatSetting::ShadowSoftness => "shadow_softness",
            FloatSetting::ShadowContrast => "shadow_contrast",
            FloatSetting::FarShadowLift => "far_shadow_lift",
            FloatSetting::FogStrength => "fog_strength",
            FloatSetting::FogStart => "fog_start",
            FloatSetting::FogEnd => "fog_end",
            FloatSetting::AtmosphereStrength => "atmosphere_strength",
            FloatSetting::ColorVibrance => "color_vibrance",
            FloatSetting::LdoDetailScale => "ldo_detail_scale",
        }
    }
}

/// Why a text is not a whole number of the wanted size.
#[derive(Clone, Copy, Debug, PartialEq, Eq, Structural)]
pub enum NumberError {
    /// The text is empty.
    Empty,
    /// A character is not a decimal digit (or a sign stands alone).
    InvalidDigit,
    /// The value is larger than the wanted type holds.
    TooLarge,
}

pub open spec fn is_decimal_digit(c: char) -> bool {
    '0' <= c <= '9'
}

pub open spec fn digit_value(c: char) -> nat {
    (c as u32 - '0' as u32) as nat
}

/// Reads `d` from the left onto `acc`: the first non-digit is an error, and
/// so is the first digit that takes the value above `max`.
pub open spec fn scan_digits(d: Seq<char>, acc: nat, max: nat) -> Result<nat, NumberError>
    decreases d.len(),
{
    if d.len() == 0 {
        Ok(acc)
    } else if !is_decimal_digit(d[0]) {
        Err(NumberError::InvalidDigit)
    } else if acc * 10 + digit_value(d[0]) > max {
        Err(NumberError::TooLarge)
    } else {
        scan_digits(d.drop_first(), acc * 10 + digit_value(d[0]), max)
    }
}

/// An unsigned whole number no larger than `max`: an optional '+' and then
/// decimal digits.
pub open spec fn parse_unsigned(s: Seq<char>, max: nat) -> Result<nat, NumberError> {
    if s.len() == 0 {
        Err(NumberError::Empty)
    } else if (s[0] == '+' || s[0] == '-') && s.len() == 1 {
        Err(NumberError::InvalidDigit)
    } else if s[0] == '+' {
        scan_digits(s.drop_first(), 0, max)
    } else {
        scan_digits(s, 0, max)
    }
}

/// Reads an unsigned whole number no larger than `max` (see `parse_unsigned`).
pub fn parse_unsigned_chars(s: &Vec<char>, max: u64) -> (r: Result<u64, NumberError>)
    ensures
        match r {
            Ok(v) => parse_unsigned(s@, max as nat) == Ok::<nat, NumberError>(v as nat) && v <= max,
            Err(e) => parse_unsigned(s@, max as nat) == Err::<nat, NumberError>(e),
        },
{
    let n = s.len();
    if n == 0 {
        return Err(NumberError::Empty);
    }
    if (s[0] == '+' || s[0] == '-') && n == 1 {
        return Err(NumberError::InvalidDigit);
    }
    let start: usize = if s[0] == '+' {
        1
    } else {
        0
    };
    let ghost d = s@.skip(start as int);
    proof {
        assert(start == 1 ==> d =~= s@.drop_first());
        assert(start == 0 ==> d =~= s@);
        assert(parse_unsigned(s@, max as nat) == scan_digits(d, 0, max as nat));
    }
    let mut acc: u64 = 0;
    let mut i: usize = start;
    while i < n
        invariant
            n == s@.len(),
            start <= i <= n,
            d == s@.skip(start as int),
            parse_unsigned(s@, max as nat) == scan_digits(d, 0, max as nat),
            acc <= max,
            scan_digits(d, 0, max as nat) == scan_digits(s@.skip(i as int), acc as nat, max as nat),
        decreases n - i,
    {
        let c = s[i];
        let ghost rest = s@.skip(i as int);
        proof {
            assert(rest.len() > 0 && rest[0] == c);
        }
        if !('0' <= c && c <= '9') {
            assert(scan_digits(rest, acc as nat, max as nat) == Err::<nat, NumberError>(NumberError::InvalidDigit));
            return Err(NumberError::InvalidDigit);
        }
        let v: u128 = (acc as u128) * 10 + (c as u32 - '0' as u32) as u128;
        assert(v == acc as nat * 10 + digit_value(c));
        if v > max as u128 {
            assert(scan_digits(rest, acc as nat, max as nat) == Err::<nat, NumberError>(NumberError::TooLarge));
            return Err(NumberError::TooLarge);
        }
        proof {
            assert(s@.skip(i as int).drop_first() =~= s@.skip(i + 1));
        }
        acc = v as u64;
        i = i + 1;
    }
    proof {
        assert(s@.skip(n as int) =~= Seq::<char>::empty());
    }
    Ok(acc)
}

/// `true` for `true` in any letter case or `1`, `false` for `false` in any
/// letter case or `0`; nothing for anything else.
pub open spec fn parse_flag(s: Seq<char>) -> Option<bool> {
    if lower_seq(s) == "true"@ || s == "1"@ {
        Some(true)
    } else if lower_seq(s) == "false"@ || s == "0"@ {
        Some(false)
    } else {
        None
    }
}

fn lowercase_of(chars: &Vec<char>) -> (out: Vec<char>)
    ensures
        out@ == lower_seq(chars@),
{
    crate::text::lowercase_chars(chars)
}

/// Reads an on/off value (see `parse_flag`).
pub fn parse_flag_chars(s: &Vec<char>) -> (r: Option<bool>)
    ensures
        r == parse_flag(s@),
{
    let lower = lowercase_of(s);
    if chars_eq(&lower, "true") || chars_eq(s, "1") {
        Some(true)
    } else if chars_eq(&lower, "false") || chars_eq(s, "0") {
        Some(false)
    } else {
        None
    }
}

/// What is wrong with a settings line, as plain text values.
pub enum SettingsFault {
    UnsupportedVersion(u32),
    InvalidNumber(Seq<char>, Seq<char>, NumberError),
    InvalidFlag(Seq<char>, Seq<char>),
}

/// Why a settings file was refused.
#[derive(Clone, Debug)]
pub enum SettingsError {
    /// The file declares a format version other than `SETTINGS_VERSION`.
    UnsupportedVersion(u32),
    /// The value of `key` is not a whole number of the wanted size.
    InvalidNumber { key: String, value: String, reason: NumberError },
    /// The value of `key` is not an on/off value.
    InvalidFlag { key: String, value: String },
}

impl View for SettingsError {
    type V = SettingsFault;

    open spec fn view(&self) -> SettingsFault {
        match self {
            SettingsError::UnsupportedVersion(v) => SettingsFault::UnsupportedVersion(*v),
            SettingsError::InvalidNumber { key, value, reason } => SettingsFault::InvalidNumber(key@, value@, *reason),
            SettingsError::InvalidFlag { key, value } => SettingsFault::InvalidFlag(key@, value@),
        }
    }
}

/// The words that explain a `NumberError`.
pub open spec fn number_error_text(e: NumberError) -> Seq<char> {
    match e {
        NumberError::Empty => "cannot parse integer from empty string"@,
        NumberError::InvalidDigit => "invalid digit found in string"@,
        NumberError::TooLarge => "number too large to fit in target type"@,
    }
}

/// The message shown for a fault.
pub open spec fn fault_message(f: SettingsFault) -> Seq<char> {
    match f {
        SettingsFault::UnsupportedVersion(v) => "unsupported settings version `"@ + decimal(v as nat) + "` (expected "@
            + decimal(SETTINGS_VERSION as nat) + ")"@,
        SettingsFault::InvalidNumber(key, value, e) => "invalid "@ + key + " `"@ + value + "`: "@ + number_error_text(e),
        SettingsFault::InvalidFlag(key, value) => "invalid "@ + key + " `"@ + value + "`: "@
            + "expected true/false or 1/0"@,
    }
}

impl SettingsError {
    /// The message shown for this error.
    pub fn message(&self) -> (m: String)
        ensures
            m@ == fault_message(self@),
    {
        match self {
            SettingsError::UnsupportedVersion(v) => {
                let mut m = String::from_str("unsupported settings version `");
                push_decimal(&mut m, *v as u64);
                m.append("` (expected ");
                push_decimal(&mut m, SETTINGS_VERSION as u64);
                m.append(")");
                m
            },
            SettingsError::InvalidNumber { key, value, reason } => {
                let mut m = String::from_str("invalid ");
                m.append(key.as_str());
                m.append(" `");
                m.append(value.as_str());
                m.append("`: ");
                match reason {
                    NumberError::Empty => m.append("cannot parse integer from empty string"),
                    NumberError::InvalidDigit => m.append("invalid digit found in string"),
                    NumberError::TooLarge => m.append("number too large to fit in target type"),
                }
                m
            },
            SettingsError::InvalidFlag { key, value } => {
                let mut m = String::from_str("invalid ");
                m.append(key.as_str());
                m.append(" `");
                m.append(value.as_str());
                m.append("`: ");
                m.append("expected true/false or 1/0");
                m
            },
        }
    }
}

/// The key and value of a settings line, both trimmed; nothing for a blank
/// line, a `#` comment or a line without '='.
pub open spec fn settings_entry(line: Seq<char>) -> Option<(Seq<char>, Seq<char>)> {
    let t = trim(line);
    if t.len() == 0 || t[0] == '#' {
        None
    } else {
        match split_once(t, '=') {
            Some((k, v)) => Some((trim(k), trim(v))),
            None => None,
        }
    }
}

/// What one line does to the settings.
pub enum LineOutcome {
    /// Nothing: blank, comment, no '=', an unknown key, or the right version.
    Skipped,
    /// The settings become these.
    Applied(IntSettings),
    /// The line sets a fractional setting to this text.
    Fractional(FloatSetting, Seq<char>),
    /// The file is refused.
    Failed(SettingsFault),
}

/// The fractional setting named `key`, if any.
pub open spec fn float_setting_named(key: Seq<char>) -> Option<FloatSetting> {
    if key == "shader_quality"@ {
        Some(FloatSetting::ShaderQuality)
    } else if key == "ambient_boost"@ {
        Some(FloatSetting::AmbientBoost)
    } else if key == "shadow_softness"@ {
        Some(FloatSetting::ShadowSoftness)
    } else if key == "shadow_contrast"@ {
        Some(FloatSetting::ShadowContrast)
    } else if key == "far_shadow_lift"@ {
        Some(FloatSetting::FarShadowLift)
    } else if key == "fog_strength"@ {
        Some(FloatSetting::FogStrength)
    } else if key == "fog_start"@ {
        Some(FloatSetting::FogStart)
    } else if key == "fog_end"@ {
        Some(FloatSetting::FogEnd)
    } else if key == "atmosphere_strength"@ {
        Some(FloatSetting::AtmosphereStrength)
    } else if key == "color_vibrance"@ {
        Some(FloatSetting::ColorVibrance)
    } else if key == "ldo_detail_scale"@ {
        Some(FloatSetting::LdoDetailScale)
    } else {
        None
    }
}

/// A whole-number setting: the settings `set` makes of the value, or the
/// fault.
pub open spec fn number_outcome(key: Seq<char>, value: Seq<char>, max: nat, applied: spec_fn(nat) -> IntSettings) -> LineOutcome {
    match parse_unsigned(value, max) {
        Ok(v) => LineOutcome::Applied(applied(v)),
        Err(e) => LineOutcome::Failed(SettingsFault::InvalidNumber(key, value, e)),
    }
}

/// An on/off setting: the settings `set` makes of the value, or the fault.
pub open spec fn flag_outcome(key: Seq<char>, value: Seq<char>, applied: spec_fn(bool) -> IntSettings) -> LineOutcome {
    match parse_flag(value) {
        Some(b) => LineOutcome::Applied(applied(b)),
        None => LineOutcome::Failed(SettingsFault::InvalidFlag(key, value)),
    }
}

/// What `line` does to settings `s`.
pub open spec fn settings_line_outcome(s: IntSettings, line: Seq<char>) -> LineOutcome {
    match settings_entry(line) {
        None => LineOutcome::Skipped,
        Some((key, value)) => if key == "version"@ {
            match parse_unsigned(value, u32::MAX as nat) {
                Ok(v) => if v == SETTINGS_VERSION {
                    LineOutcome::Skipped
                } else {
                    LineOutcome::Failed(SettingsFault::UnsupportedVersion(v as u32))
                },
                Err(e) => LineOutcome::Failed(SettingsFault::InvalidNumber(key, value, e)),
            }
        } else if key == "render_distance_chunks"@ {
            number_outcome(key, value, u32::MAX as nat, |v: nat| IntSettings { render_distance_chunks: v as u32, ..s })
        } else if key == "frame_cap_index"@ {
            number_outcome(key, value, usize::MAX as nat, |v: nat| IntSettings { frame_cap_index: v as usize, ..s })
        } else if key == "shadows_enabled"@ {
            flag_outcome(key, value, |b: bool| IntSettings { shadows_enabled: b, ..s })
        } else if key == "fog_enabled"@ {
            flag_outcome(key, value, |b: bool| IntSettings { fog_enabled: b, ..s })
        } else if key == "atmosphere_enabled"@ {
            flag_outcome(key, value, |b: bool| IntSettings { atmosphere_enabled: b, ..s })
        } else if key == "ldo_start_distance_chunks"@ {
            number_outcome(key, value, u32::MAX as nat, |v: nat| IntSettings { ldo_start_distance_chunks: v as u32, ..s })
        } else {
            match float_setting_named(key) {
                Some(f) => LineOutcome::Fractional(f, value),
                None => LineOutcome::Skipped,
            }
        },
    }
}

/// What a settings line did.
#[derive(Clone, Debug)]
pub enum SettingsLine {
    /// Nothing changed.
    Skipped,
    /// A whole-number or on/off setting changed.
    Applied,
    /// The line sets this fractional setting to this text; the caller reads it.
    Fractional(FloatSetting, String),
}

pub(crate) fn settings_entry_of(line: &str) -> (entry: Option<(Vec<char>, Vec<char>)>)
    ensures
        match entry {
            Some((k, v)) => settings_entry(line@) == Some((k@, v@)),
            None => settings_entry(line@) is None,
        },
{
    let all = chars_of(line);
    let t = trim_chars(&all);
    if t.len() == 0 || t[0] == '#' {
        return None;
    }
    match split_once_chars(&t, '=') {
        Some((k, v)) => Some((trim_chars(&k), trim_chars(&v))),
        None => None,
    }
}

fn float_setting_of(key: &Vec<char>) -> (f: Option<FloatSetting>)
    ensures
        f == float_setting_named(key@),
{
    if chars_eq(key, "shader_quality") {
        Some(FloatSetting::ShaderQuality)
    } else if chars_eq(key, "ambient_boost") {
        Some(FloatSetting::AmbientBoost)
    } else if chars_eq(key, "shadow_softness") {
        Some(FloatSetting::ShadowSoftness)
    } else if chars_eq(key, "shadow_contrast") {
        Some(FloatSetting::ShadowContrast)
    } else if chars_eq(key, "far_shadow_lift") {
        Some(FloatSetting::FarShadowLift)
    } else if chars_eq(key, "fog_strength") {
        Some(FloatSetting::FogStrength)
    } else if chars_eq(key, "fog_start") {
        Some(FloatSetting::FogStart)
    } else if chars_eq(key, "fog_end") {
        Some(FloatSetting::FogEnd)
    } else if chars_eq(key, "atmosphere_strength") {
        Some(FloatSetting::AtmosphereStrength)
    } else if chars_eq(key, "color_vibrance") {
        Some(FloatSetting::ColorVibrance)
    } else if chars_eq(key, "ldo_detail_scale") {
        Some(FloatSetting::LdoDetailScale)
    } else {
        None
    }
}

fn string_of_chars(chars: &Vec<char>) -> (s: String)
    ensures
        s@ == chars@,
{
    crate::text::string_of(chars)
}

/// Reads a whole-number setting of type `u32`; a bad value is an error that
/// names the key and the value.
pub fn parse_u32(input: &str, key: &str) -> (r: Result<u32, SettingsError>)
    ensures
        match parse_unsigned(input@, u32::MAX as nat) {
            Ok(v) => r matches Ok(n) && n == v,
            Err(e) => r matches Err(err) && err@ == SettingsFault::InvalidNumber(key@, input@, e),
        },
{
    match parse_unsigned_chars(&chars_of(input), 0xFFFF_FFFF) {
        Ok(v) => Ok(v as u32),
        Err(reason) => Err(SettingsError::InvalidNumber { key: String::from_str(key), value: String::from_str(input), reason }),
    }
}

/// Reads a whole-number setting of type `usize` (see `parse_u32`).
pub fn parse_usize(input: &str, key: &str) -> (r: Result<usize, SettingsError>)
    ensures
        match parse_unsigned(input@, usize::MAX as nat) {
            Ok(v) => r matches Ok(n) && n == v,
            Err(e) => r matches Err(err) && err@ == SettingsFault::InvalidNumber(key@, input@, e),
        },
{
    match parse_unsigned_chars(&chars_of(input), usize::MAX as u64) {
        Ok(v) => Ok(v as usize),
        Err(reason) => Err(SettingsError::InvalidNumber { key: String::from_str(key), value: String::from_str(input), reason }),
    }
}

/// Reads an on/off setting (see `parse_flag`); anything else is an error
/// that names the key and the value.
pub fn parse_bool(input: &str, key: &str) -> (r: Result<bool, SettingsError>)
    ensures
        match parse_flag(input@) {
            Some(b) => r matches Ok(v) && v == b,
            None => r matches Err(err) && err@ == SettingsFault::InvalidFlag(key@, input@),
        },
{
    match parse_flag_chars(&chars_of(input)) {
        Some(b) => Ok(b),
        None => Err(SettingsError::InvalidFlag { key: String::from_str(key), value: String::from_str(input) }),
    }
}

/// Applies one line of the settings file to `settings` (see
/// `settings_line_outcome`): whole-number and on/off settings change here; a
/// fractional one comes back with its text; a bad value or another format
/// version is an error, and the settings stay as they were.
pub fn apply_settings_line(settings: &mut IntSettings, line: &str) -> (r: Result<SettingsLine, SettingsError>)
    ensures
        match settings_line_outcome(*old(settings), line@) {
            LineOutcome::Skipped => r matches Ok(SettingsLine::Skipped) && *final(settings) == *old(settings),
            LineOutcome::Applied(next) => r matches Ok(SettingsLine::Applied) && *final(settings) == next,
            LineOutcome::Fractional(f, text) => r matches Ok(SettingsLine::Fractional(g, t)) && g == f && t@ == text
                && *final(settings) == *old(settings),
            LineOutcome::Failed(fault) => r matches Err(e) && e@ == fault && *final(settings) == *old(settings),
        },
{
    let entry = settings_entry_of(line);
    let (key_chars, value_chars) = match entry {
        Some(kv) => kv,
        None => {
            return Ok(SettingsLine::Skipped);
        },
    };
    let key = string_of_chars(&key_chars);
    let value = string_of_chars(&value_chars);
    let k = key.as_str();
    let v = value.as_str();
    if chars_eq(&key_chars, "version") {
        let version = parse_u32(v, k)?;
        if version == SETTINGS_VERSION {
            Ok(SettingsLine::Skipped)
        } else {
            Err(SettingsError::UnsupportedVersion(version))
        }
    } else if chars_eq(&key_chars, "render_distance_chunks") {
        settings.render_distance_chunks = parse_u32(v, k)?;
        Ok(SettingsLine::Applied)
    } else if chars_eq(&key_chars, "frame_cap_index") {
        settings.frame_cap_index = parse_usize(v, k)?;
        Ok(SettingsLine::Applied)
    } else if chars_eq(&key_chars, "shadows_enabled") {
        settings.shadows_enabled = parse_bool(v, k)?;
        Ok(SettingsLine::Applied)
    } else if chars_eq(&key_chars, "fog_enabled") {
        settings.fog_enabled = parse_bool(v, k)?;
        Ok(SettingsLine::Applied)
    } else if chars_eq(&key_chars, "atmosphere_enabled") {
        settings.atmosphere_enabled = parse_bool(v, k)?;
        Ok(SettingsLine::Applied)
    } else if chars_eq(&key_chars, "ldo_start_distance_chunks") {
        settings.ldo_start_distance_chunks = parse_u32(v, k)?;
        Ok(SettingsLine::Applied)
    } else {
        match float_setting_of(&key_chars) {
            Some(f) => Ok(SettingsLine::Fractional(f, value)),
            None => Ok(SettingsLine::Skipped),
        }
    }
}

} // verus!

verus! {

/// How an on/off value is written.
pub open spec fn flag_text(b: bool) -> Seq<char> {
    if b {
        "true"@
    } else {
        "false"@
    }
}

/// The lines that write `s`, the format version first.
pub open spec fn int_settings_text(s: IntSettings) -> Seq<Seq<char>> {
    seq![
        "version"@ + "="@ + decimal(SETTINGS_VERSION as nat),
        "render_distance_chunks"@ + "="@ + decimal(s.render_distance_chunks as nat),
        "frame_cap_index"@ + "="@ + decimal(s.frame_cap_index as nat),
        "shadows_enabled"@ + "="@ + flag_text(s.shadows_enabled),
        "fog_enabled"@ + "="@ + flag_text(s.fog_enabled),
        "atmosphere_enabled"@ + "="@ + flag_text(s.atmosphere_enabled),
        "ldo_start_distance_chunks"@ + "="@ + decimal(s.ldo_start_distance_chunks as nat),
    ]
}

/// The settings after reading `lines` in order from `s`; `None` when a line
/// is refused. Fractional settings leave them unchanged.
pub open spec fn apply_lines(s: IntSettings, lines: Seq<Seq<char>>) -> Option<IntSettings>
    decreases lines.len(),
{
    if lines.len() == 0 {
        Some(s)
    } else {
        match settings_line_outcome(s, lines[0]) {
            LineOutcome::Failed(_) => None,
            LineOutcome::Applied(next) => apply_lines(next, lines.drop_first()),
            _ => apply_lines(s, lines.drop_first()),
        }
    }
}

fn push_flag(s: &mut String, b: bool)
    ensures
        final(s)@ == old(s)@ + flag_text(b),
{
    if b {
        s.append("true");
    } else {
        s.append("false");
    }
}

fn number_line(key: &str, n: u64) -> (line: String)
    ensures
        line@ == key@ + "="@ + decimal(n as nat),
{
    let mut line = String::from_str(key);
    line.append("=");
    push_decimal(&mut line, n);
    proof {
        assert(line@ =~= key@ + "="@ + decimal(n as nat));
    }
    line
}

fn flag_line(key: &str, b: bool) -> (line: String)
    ensures
        line@ == key@ + "="@ + flag_text(b),
{
    let mut line = String::from_str(key);
    line.append("=");
    push_flag(&mut line, b);
    proof {
        assert(line@ =~= key@ + "="@ + flag_text(b));
    }
    line
}

/// The lines that write the whole-number and on/off settings (see
/// `int_settings_text`).
pub fn int_settings_lines(s: IntSettings) -> (lines: Vec<String>)
    ensures
        lines@.len() == int_settings_text(s).len(),
        forall|k: int| 0 <= k < lines@.len() ==> #[trigger] lines@[k]@ == int_settings_text(s)[k],
{
    let mut lines: Vec<String> = Vec::new();
    lines.push(number_line("version", SETTINGS_VERSION as u64));
    lines.push(number_line("render_distance_chunks", s.render_distance_chunks as u64));
    lines.push(number_line("frame_cap_index", s.frame_cap_index as u64));
    lines.push(flag_line("shadows_enabled", s.shadows_enabled));
    lines.push(flag_line("fog_enabled", s.fog_enabled));
    lines.push(flag_line("atmosphere_enabled", s.atmosphere_enabled));
    lines.push(number_line("ldo_start_distance_chunks", s.ldo_start_distance_chunks as u64));
    proof {
        let t = int_settings_text(s);
        assert forall|k: int| 0 <= k < lines@.len() implies #[trigger] lines@[k]@ == t[k] by {
            if k == 0 {
            } else if k == 1 {
            } else if k == 2 {
            } else if k == 3 {
            } else if k == 4 {
            } else if k == 5 {
            } else {
            }
        }
    }
    lines
}

} // verus!

verus! {

proof fn lemma_digit_char(d: nat)
    requires
        d < 10,
    ensures
        is_decimal_digit(crate::text::digit_char(d)),
        digit_value(crate::text::digit_char(d)) == d,
        !is_white_space(crate::text::digit_char(d)),
        crate::text::digit_char(d) != '=',
        crate::text::digit_char(d) != '+',
        crate::text::digit_char(d) != '-',
{
}

proof fn lemma_scan_push(d: Seq<char>, c: char, acc: nat, max: nat)
    requires
        is_decimal_digit(c),
    ensures
        scan_digits(d.push(c), acc, max) == match scan_digits(d, acc, max) {
            Ok(v) => if v * 10 + digit_value(c) > max {
                Err(NumberError::TooLarge)
            } else {
                Ok(v * 10 + digit_value(c))
            },
            Err(e) => Err(e),
        },
    decreases d.len(),
{
    reveal_with_fuel(scan_digits, 2);
    if d.len() == 0 {
        assert(d.push(c).drop_first() =~= Seq::<char>::empty());
        assert(d.push(c)[0] == c);
    } else {
        assert(d.push(c).drop_first() =~= d.drop_first().push(c));
        assert(d.push(c)[0] == d[0]);
        if is_decimal_digit(d[0]) && acc * 10 + digit_value(d[0]) <= max {
            lemma_scan_push(d.drop_first(), c, acc * 10 + digit_value(d[0]), max);
        }
    }
}

pub(crate) proof fn lemma_decimal_scans(n: nat, max: nat)
    requires
        n <= max,
    ensures
        scan_digits(decimal(n), 0, max) == Ok::<nat, NumberError>(n),
    decreases n,
{
    if n < 10 {
        lemma_digit_char(n);
        let c = crate::text::digit_char(n);
        assert(decimal(n) =~= Seq::<char>::empty().push(c));
        lemma_scan_push(Seq::<char>::empty(), c, 0, max);
    } else {
        lemma_decimal_scans(n / 10, max);
        lemma_digit_char(n % 10);
        let d = decimal(n / 10);
        let c = crate::text::digit_char(n % 10);
        assert(decimal(n) == d.push(c));
        lemma_scan_push(d, c, 0, max);
        assert((n / 10) * 10 + n % 10 == n);
    }
}

/// A decimal numeral reads back as its value.
pub(crate) proof fn lemma_decimal_parses(n: nat, max: nat)
    requires
        n <= max,
    ensures
        parse_unsigned(decimal(n), max) == Ok::<nat, NumberError>(n),
        decimal(n).len() >= 1,
        !is_white_space(decimal(n)[0]),
        !is_white_space(decimal(n).last()),
        decimal(n)[0] != '#',
{
    lemma_decimal_scans(n, max);
    lemma_decimal_first_digit(n);
    lemma_digit_char(n % 10);
    if n >= 10 {
        assert(decimal(n).last() == crate::text::digit_char(n % 10));
    } else {
        assert(n % 10 == n);
    }
}

pub(crate) proof fn lemma_decimal_first_digit(n: nat)
    ensures
        decimal(n).len() >= 1,
        is_decimal_digit(decimal(n)[0]),
        decimal(n)[0] != '+',
        decimal(n)[0] != '-',
    decreases n,
{
    if n < 10 {
        lemma_digit_char(n);
    } else {
        lemma_decimal_first_digit(n / 10);
        assert(decimal(n)[0] == decimal(n / 10)[0]);
    }
}

pub(crate) proof fn lemma_trim_keeps(s: Seq<char>)
    requires
        s.len() >= 1,
        !is_white_space(s[0]),
        !is_white_space(s.last()),
    ensures
        trim(s) == s,
{
    assert(crate::text::trim_start(s) == s);
    assert(crate::text::trim_end(s) == s);
}

/// A `key=value` line without surrounding blanks reads as that key and value.
pub(crate) proof fn lemma_entry_of_line(key: Seq<char>, value: Seq<char>)
    requires
        key.len() >= 1,
        key[0] != '#',
        !is_white_space(key[0]),
        !is_white_space(key.last()),
        forall|i: int| 0 <= i < key.len() ==> key[i] != '=',
        value.len() >= 1,
        !is_white_space(value[0]),
        !is_white_space(value.last()),
    ensures
        settings_entry(key + "="@ + value) == Some((key, value)),
{
    reveal_strlit("=");
    let line = key + "="@ + value;
    assert(line[0] == key[0]);
    assert(line.last() == value.last());
    lemma_trim_keeps(line);
    let i = key.len() as int;
    assert(crate::text::is_first(line, '=', i));
    let k = choose|k: int| crate::text::is_first(line, '=', k);
    assert(k == i) by {
        if k < i {
            assert(line[k] == key[k]);
        } else if k > i {
            assert(line[i] == '=');
        }
    }
    assert(line.take(i) =~= key);
    assert(line.skip(i + 1) =~= value);
    lemma_trim_keeps(key);
    lemma_trim_keeps(value);
}

proof fn lemma_flag_text(b: bool)
    ensures
        parse_flag(flag_text(b)) == Some(b),
        flag_text(b).len() >= 1,
        !is_white_space(flag_text(b)[0]),
        !is_white_space(flag_text(b).last()),
{
    reveal_strlit("true");
    reveal_strlit("false");
    reveal_strlit("1");
    reveal_strlit("0");
    assert(lower_seq("true"@) =~= "true"@);
    assert(lower_seq("false"@) =~= "false"@);
}

proof fn lemma_version_line(start: IntSettings)
    ensures
        settings_line_outcome(start, "version"@ + "="@ + decimal(SETTINGS_VERSION as nat)) == LineOutcome::Skipped,
{
    reveal_strlit("version");
    lemma_decimal_parses(SETTINGS_VERSION as nat, u32::MAX as nat);
    lemma_entry_of_line("version"@, decimal(SETTINGS_VERSION as nat));
}

proof fn lemma_render_distance_line(start: IntSettings, v: u32)
    ensures
        settings_line_outcome(start, "render_distance_chunks"@ + "="@ + decimal(v as nat)) == LineOutcome::Applied(
            IntSettings { render_distance_chunks: v, ..start },
        ),
{
    reveal_strlit("version");
    reveal_strlit("render_distance_chunks");
    lemma_decimal_parses(v as nat, u32::MAX as nat);
    lemma_entry_of_line("render_distance_chunks"@, decimal(v as nat));
}

proof fn lemma_frame_cap_line(start: IntSettings, v: usize)
    ensures
        settings_line_outcome(start, "frame_cap_index"@ + "="@ + decimal(v as nat)) == LineOutcome::Applied(
            IntSettings { frame_cap_index: v, ..start },
        ),
{
    reveal_strlit("version");
    reveal_strlit("render_distance_chunks");
    reveal_strlit("frame_cap_index");
    lemma_decimal_parses(v as nat, usize::MAX as nat);
    lemma_entry_of_line("frame_cap_index"@, decimal(v as nat));
}

proof fn lemma_shadows_line(start: IntSettings, b: bool)
    ensures
        settings_line_outcome(start, "shadows_enabled"@ + "="@ + flag_text(b)) == LineOutcome::Applied(
            IntSettings { shadows_enabled: b, ..start },
        ),
{
    reveal_strlit("version");
    reveal_strlit("render_distance_chunks");
    reveal_strlit("frame_cap_index");
    reveal_strlit("shadows_enabled");
    lemma_flag_text(b);
    lemma_entry_of_line("shadows_enabled"@, flag_text(b));
}

proof fn lemma_fog_line(start: IntSettings, b: bool)
    ensures
        settings_line_outcome(start, "fog_enabled"@ + "="@ + flag_text(b)) == LineOutcome::Applied(
            IntSettings { fog_enabled: b, ..start },
        ),
{
    reveal_strlit("version");
    reveal_strlit("render_distance_chunks");
    reveal_strlit("frame_cap_index");
    reveal_strlit("shadows_enabled");
    reveal_strlit("fog_enabled");
    lemma_flag_text(b);
    lemma_entry_of_line("fog_enabled"@, flag_text(b));
}

proof fn lemma_atmosphere_line(start: IntSettings, b: bool)
    ensures
        settings_line_outcome(start, "atmosphere_enabled"@ + "="@ + flag_text(b)) == LineOutcome::Applied(
            IntSettings { atmosphere_enabled: b, ..start },
        ),
{
    reveal_strlit("version");
    reveal_strlit("render_distance_chunks");
    reveal_strlit("frame_cap_index");
    reveal_strlit("shadows_enabled");
    reveal_strlit("fog_enabled");
    reveal_strlit("atmosphere_enabled");
    lemma_flag_text(b);
    lemma_entry_of_line("atmosphere_enabled"@, flag_text(b));
}

proof fn lemma_ldo_start_line(start: IntSettings, v: u32)
    ensures
        settings_line_outcome(start, "ldo_start_distance_chunks"@ + "="@ + decimal(v as nat)) == LineOutcome::Applied(
            IntSettings { ldo_start_distance_chunks: v, ..start },
        ),
{
    reveal_strlit("version");
    reveal_strlit("render_distance_chunks");
    reveal_strlit("frame_cap_index");
    reveal_strlit("shadows_enabled");
    reveal_strlit("fog_enabled");
    reveal_strlit("atmosphere_enabled");
    reveal_strlit("ldo_start_distance_chunks");
    lemma_decimal_parses(v as nat, u32::MAX as nat);
    lemma_entry_of_line("ldo_start_distance_chunks"@, decimal(v as nat));
}

/// Writing the whole-number and on/off settings and reading the lines back
/// gives the same settings, whatever the settings were before.
pub proof fn lemma_settings_round_trip(s: IntSettings, start: IntSettings)
    ensures
        apply_lines(start, int_settings_text(s)) == Some(s),
{
    let t = int_settings_text(s);
    let s1 = IntSettings { render_distance_chunks: s.render_distance_chunks, ..start };
    let s2 = IntSettings { frame_cap_index: s.frame_cap_index, ..s1 };
    let s3 = IntSettings { shadows_enabled: s.shadows_enabled, ..s2 };
    let s4 = IntSettings { fog_enabled: s.fog_enabled, ..s3 };
    let s5 = IntSettings { atmosphere_enabled: s.atmosphere_enabled, ..s4 };
    let s6 = IntSettings { ldo_start_distance_chunks: s.ldo_start_distance_chunks, ..s5 };
    assert(s6 == s);
    lemma_version_line(start);
    lemma_render_distance_line(start, s.render_distance_chunks);
    lemma_frame_cap_line(s1, s.frame_cap_index);
    lemma_shadows_line(s2, s.shadows_enabled);
    lemma_fog_line(s3, s.fog_enabled);
    lemma_atmosphere_line(s4, s.atmosphere_enabled);
    lemma_ldo_start_line(s5, s.ldo_start_distance_chunks);
    let t1 = t.drop_first();
    let t2 = t1.drop_first();
    let t3 = t2.drop_first();
    let t4 = t3.drop_first();
    let t5 = t4.drop_first();
    let t6 = t5.drop_first();
    let t7 = t6.drop_first();
    assert(t7.len() == 0);
    assert(apply_lines(s6, t7) == Some(s6));
    assert(apply_lines(s5, t6) == Some(s6));
    assert(apply_lines(s4, t5) == Some(s6));
    assert(apply_lines(s3, t4) == Some(s6));
    assert(apply_lines(s2, t3) == Some(s6));
    assert(apply_lines(s1, t2) == Some(s6));
    assert(apply_lines(start, t1) == Some(s6));
}

} // verus!

verus! {

/// `s` spells `word` (given in small letters) in any letter case.
pub open spec fn spells(s: Seq<char>, word: Seq<char>) -> bool {
    s.len() == word.len() && forall|i: int| 0 <= i < s.len() ==> crate::text::ascii_lower(#[trigger] s[i]) == word[i]
}

/// On/off values: `1` and `true` in any letter case read as on, `0` and
/// `false` in any letter case as off, and nothing else reads as either.
pub proof fn lemma_flag_meaning(s: Seq<char>)
    ensures
        parse_flag("1"@) == Some(true),
        parse_flag("0"@) == Some(false),
        parse_flag(s) == Some(true) <==> (s == "1"@ || spells(s, "true"@)),
        parse_flag(s) == Some(false) <==> (s == "0"@ || spells(s, "false"@)),
        parse_flag(s) is None <==> !(s == "1"@ || spells(s, "true"@) || s == "0"@ || spells(s, "false"@)),
{
    reveal_strlit("1");
    reveal_strlit("0");
    reveal_strlit("true");
    reveal_strlit("false");
    assert(lower_seq("1"@) =~= "1"@);
    assert(lower_seq("0"@) =~= "0"@);
    assert(lower_seq(s) == "true"@ <==> spells(s, "true"@)) by {
        if spells(s, "true"@) {
            assert(lower_seq(s) =~= "true"@);
        }
        if lower_seq(s) == "true"@ {
            assert forall|i: int| 0 <= i < s.len() implies crate::text::ascii_lower(#[trigger] s[i]) == "true"@[i] by {
                assert(lower_seq(s)[i] == crate::text::ascii_lower(s[i]));
            }
        }
    }
    assert(lower_seq(s) == "false"@ <==> spells(s, "false"@)) by {
        if spells(s, "false"@) {
            assert(lower_seq(s) =~= "false"@);
        }
        if lower_seq(s) == "false"@ {
            assert forall|i: int| 0 <= i < s.len() implies crate::text::ascii_lower(#[trigger] s[i]) == "false"@[i] by {
                assert(lower_seq(s)[i] == crate::text::ascii_lower(s[i]));
            }
        }
    }
    assert("0"@ != "1"@) by {
        assert("0"@[0] != "1"@[0]);
    }
    assert(lower_seq("0"@) != "true"@) by {
        assert(lower_seq("0"@).len() != "true"@.len());
    }
    assert(lower_seq("0"@) != "false"@) by {
        assert(lower_seq("0"@).len() != "false"@.len());
    }
    assert(lower_seq("1"@) != "true"@) by {
        assert(lower_seq("1"@).len() != "true"@.len());
    }
    if s == "1"@ {
        assert(!spells(s, "false"@));
    }
    if s == "0"@ {
        assert(!spells(s, "true"@));
    }
    if spells(s, "true"@) {
        assert(!spells(s, "false"@));
        assert(s != "0"@);
    }
}

} // verus!
