//! User settings and their text file: one `key=value` per line.
//!
//! Volume and dB range are floating-point numbers. They are held here as
//! the bits of their `f32` value and never interpreted: reading their text
//! and writing it is left to the caller, which gets the raw value text of
//! each such line from `parse_settings_text` and hands the text of each to
//! `format_settings_text`.
use vstd::prelude::*;

use crate::modes::{
    display_mode_parse, eq_lit, fullscreen_mode_parse, settings_key, view_mode_parse,
    LibrarySortMode, SpectrogramDisplayMode, SpectrogramViewMode, ViewerFullscreenMode,
};
use crate::numbers::{parse_i32, parse_i32_spec, parse_u8, parse_unsigned, parse_usize};
use crate::text::{
    append_chars, chars_of, decimal, decimal_int, push_decimal, push_decimal_i64, push_str,
    string_from_chars, trim, trim_chars,
};

verus! {

// ---------------------------------------------------------------------------
// Settings
// ---------------------------------------------------------------------------

/// What the analysis views show.
#[derive(Debug, Clone, Copy, PartialEq, Eq, Structural)]
pub struct BridgeDisplaySettings {
    pub log_scale: bool,
    pub show_fps: bool,
    pub show_spectrogram_crosshair: bool,
    pub show_spectrogram_scale: bool,
    /// 0 hidden, 1 on hover, 2 always.
    pub channel_buttons_visibility: u8,
    pub spectrogram_zoom_enabled: bool,
}

/// Desktop and scrobbling integrations.
#[derive(Debug, Clone)]
pub struct BridgeIntegrationSettings {
    pub system_media_controls_enabled: bool,
    pub lastfm_scrobbling_enabled: bool,
    pub lastfm_username: String,
}

/// All persisted settings.
#[derive(Debug, Clone)]
pub struct BridgeSettings {
    /// The bits of the `f32` volume, in 0..=1.
    pub volume_bits: u32,
    pub fft_size: usize,
    pub spectrogram_view_mode: SpectrogramViewMode,
    pub spectrogram_display_mode: SpectrogramDisplayMode,
    pub viewer_fullscreen_mode: ViewerFullscreenMode,
    /// The bits of the `f32` dB range, in 50..=150.
    pub db_range_bits: u32,
    pub display: BridgeDisplaySettings,
    pub library_sort_mode: LibrarySortMode,
    pub integrations: BridgeIntegrationSettings,
}

pub struct SettingsView {
    pub volume_bits: u32,
    pub fft_size: usize,
    pub view_mode: SpectrogramViewMode,
    pub display_mode: SpectrogramDisplayMode,
    pub fullscreen: ViewerFullscreenMode,
    pub db_range_bits: u32,
    pub display: BridgeDisplaySettings,
    pub sort: LibrarySortMode,
    pub system_media_controls_enabled: bool,
    pub lastfm_scrobbling_enabled: bool,
    pub lastfm_username: Seq<char>,
}

impl View for BridgeSettings {
    type V = SettingsView;

    open spec fn view(&self) -> SettingsView {
        SettingsView {
            volume_bits: self.volume_bits,
            fft_size: self.fft_size,
            view_mode: self.spectrogram_view_mode,
            display_mode: self.spectrogram_display_mode,
            fullscreen: self.viewer_fullscreen_mode,
            db_range_bits: self.db_range_bits,
            display: self.display,
            sort: self.library_sort_mode,
            system_media_controls_enabled: self.integrations.system_media_controls_enabled,
            lastfm_scrobbling_enabled: self.integrations.lastfm_scrobbling_enabled,
            lastfm_username: self.integrations.lastfm_username@,
        }
    }
}

/// The bits of `1.0f32`.
pub const DEFAULT_VOLUME_BITS: u32 = 0x3F80_0000;

/// The bits of `132.0f32`.
pub const DEFAULT_DB_RANGE_BITS: u32 = 0x4304_0000;

/// The bits of `0.0f32` and `1.0f32`: the volume's bounds.
pub const VOLUME_MIN_BITS: u32 = 0;
pub const VOLUME_MAX_BITS: u32 = 0x3F80_0000;

/// The bits of `50.0f32` and `150.0f32`: the dB range's bounds.
pub const DB_RANGE_MIN_BITS: u32 = 0x4248_0000;
pub const DB_RANGE_MAX_BITS: u32 = 0x4316_0000;

/// The bits of `f32::clamp(x, lo, hi)` for the `f32` `x` with bits `b`,
/// where `lo` and `hi` are the bits of `0.0 <= lo <= hi`, both finite. Among
/// non-negative `f32`s the order of the numbers is that of their bits; every
/// negative number (negative infinity too) lies below `lo`, except `-0.0`,
/// which equals `+0.0` and so stays when `lo` is `+0.0`. A NaN stays NaN.
pub open spec fn f32_bits_clamped(b: u32, lo: u32, hi: u32) -> u32 {
    if crate::queue_details::f32_bits_nan(b) {
        b
    } else if b >= 0x8000_0000 {
        if b == 0x8000_0000 && lo == 0 { b } else { lo }
    } else if b < lo {
        lo
    } else if b > hi {
        hi
    } else {
        b
    }
}

fn clamp_f32_bits(b: u32, lo: u32, hi: u32) -> (r: u32)
    requires
        lo <= hi < 0x7F80_0000,
    ensures
        r == f32_bits_clamped(b, lo, hi),
{
    if (b / 0x80_0000) % 0x100 == 0xFF && b % 0x80_0000 != 0 {
        b
    } else if b >= 0x8000_0000 {
        if b == 0x8000_0000 && lo == 0 { b } else { lo }
    } else if b < lo {
        lo
    } else if b > hi {
        hi
    } else {
        b
    }
}

/// The volume with bits `b`, clamped to 0..=1 (as bits).
pub fn clamped_volume_bits(b: u32) -> (r: u32)
    ensures
        r == f32_bits_clamped(b, VOLUME_MIN_BITS, VOLUME_MAX_BITS),
{
    clamp_f32_bits(b, VOLUME_MIN_BITS, VOLUME_MAX_BITS)
}

/// The dB range with bits `b`, clamped to 50..=150 (as bits).
pub fn clamped_db_range_bits(b: u32) -> (r: u32)
    ensures
        r == f32_bits_clamped(b, DB_RANGE_MIN_BITS, DB_RANGE_MAX_BITS),
{
    clamp_f32_bits(b, DB_RANGE_MIN_BITS, DB_RANGE_MAX_BITS)
}

impl BridgeSettings {
    /// The settings of a first start: full volume, the largest FFT, a
    /// 132 dB range, media controls on, scrobbling off; the frame-rate
    /// overlay as the environment asks.
    pub fn defaults(show_fps: bool) -> (s: Self)
        ensures
            s@ == (SettingsView {
                volume_bits: DEFAULT_VOLUME_BITS,
                fft_size: 8192,
                view_mode: SpectrogramViewMode::Downmix,
                display_mode: SpectrogramDisplayMode::Rolling,
                fullscreen: ViewerFullscreenMode::WithinWindow,
                db_range_bits: DEFAULT_DB_RANGE_BITS,
                display: BridgeDisplaySettings {
                    log_scale: false,
                    show_fps,
                    show_spectrogram_crosshair: false,
                    show_spectrogram_scale: false,
                    channel_buttons_visibility: 1,
                    spectrogram_zoom_enabled: true,
                },
                sort: LibrarySortMode::Year,
                system_media_controls_enabled: true,
                lastfm_scrobbling_enabled: false,
                lastfm_username: Seq::empty(),
            }),
    {
        BridgeSettings {
            volume_bits: DEFAULT_VOLUME_BITS,
            fft_size: 8192,
            spectrogram_view_mode: SpectrogramViewMode::Downmix,
            spectrogram_display_mode: SpectrogramDisplayMode::Rolling,
            viewer_fullscreen_mode: ViewerFullscreenMode::WithinWindow,
            db_range_bits: DEFAULT_DB_RANGE_BITS,
            display: BridgeDisplaySettings {
                log_scale: false,
                show_fps,
                show_spectrogram_crosshair: false,
                show_spectrogram_scale: false,
                channel_buttons_visibility: 1,
                spectrogram_zoom_enabled: true,
            },
            library_sort_mode: LibrarySortMode::Year,
            integrations: BridgeIntegrationSettings {
                system_media_controls_enabled: true,
                lastfm_scrobbling_enabled: false,
                lastfm_username: String::new(),
            },
        }
    }
}

// ---------------------------------------------------------------------------
// Reading
// ---------------------------------------------------------------------------

/// An FFT size as stored: clamped to 512..=8192, then rounded up to a power
/// of two.
pub open spec fn fft_size_for(x: nat) -> usize {
    if x <= 512 {
        512
    } else if x <= 1024 {
        1024
    } else if x <= 2048 {
        2048
    } else if x <= 4096 {
        4096
    } else {
        8192
    }
}

pub fn clamp_fft_size(x: usize) -> (r: usize)
    ensures
        r == fft_size_for(x as nat),
{
    if x <= 512 {
        512
    } else if x <= 1024 {
        1024
    } else if x <= 2048 {
        2048
    } else if x <= 4096 {
        4096
    } else {
        8192
    }
}

/// The floating-point settings, whose text the caller reads.
#[derive(Debug, Clone, Copy, PartialEq, Eq, Structural)]
pub enum FloatSetting {
    Volume,
    DbRange,
}

/// The floating-point setting a key names.
pub open spec fn float_key(key: Seq<char>) -> Option<FloatSetting> {
    if key == "volume"@ {
        Some(FloatSetting::Volume)
    } else if key == "db_range"@ {
        Some(FloatSetting::DbRange)
    } else {
        None
    }
}

/// A flag is stored as an integer; any non-zero integer is on.
pub open spec fn flag_of(value: Seq<char>) -> Option<bool> {
    match parse_i32_spec(value) {
        Some(x) => Some(x != 0),
        None => None,
    }
}

pub open spec fn is_mode_key(key: Seq<char>) -> bool {
    key == "fft_size"@ || key == "spectrogram_view_mode"@ || key == "spectrogram_display_mode"@
        || key == "viewer_fullscreen_mode"@
}

pub open spec fn is_display_key(key: Seq<char>) -> bool {
    key == "log_scale"@ || key == "show_fps"@ || key == "show_spectrogram_crosshair"@ || key
        == "show_spectrogram_scale"@ || key == "channel_buttons_visibility"@ || key
        == "spectrogram_zoom_enabled"@
}

/// One `key = value` assignment; values that do not read are ignored, as
/// are unknown keys and the floating-point keys.
pub open spec fn apply_setting(s: SettingsView, key: Seq<char>, value: Seq<char>) -> SettingsView {
    if is_mode_key(key) {
        apply_mode_setting(s, key, value)
    } else if is_display_key(key) {
        SettingsView { display: apply_display_setting(s.display, key, value), ..s }
    } else {
        apply_integration_setting(s, key, value)
    }
}

pub open spec fn apply_mode_setting(s: SettingsView, key: Seq<char>, value: Seq<char>) -> SettingsView {
    if key == "fft_size"@ {
        match parse_unsigned(value, usize::MAX as nat) {
            Some(x) => SettingsView { fft_size: fft_size_for(x), ..s },
            None => s,
        }
    } else if key == "spectrogram_view_mode"@ {
        match view_mode_parse(settings_key(value)) {
            Some(m) => SettingsView { view_mode: m, ..s },
            None => s,
        }
    } else if key == "spectrogram_display_mode"@ {
        match display_mode_parse(settings_key(value)) {
            Some(m) => SettingsView { display_mode: m, ..s },
            None => s,
        }
    } else {
        match fullscreen_mode_parse(trim(value)) {
            Some(m) => SettingsView { fullscreen: m, ..s },
            None => s,
        }
    }
}

pub open spec fn apply_display_setting(
    d: BridgeDisplaySettings,
    key: Seq<char>,
    value: Seq<char>,
) -> BridgeDisplaySettings {
    if key == "channel_buttons_visibility"@ {
        match parse_unsigned(value, 255) {
            Some(x) => BridgeDisplaySettings {
                channel_buttons_visibility: if x <= 2 {
                    x as u8
                } else {
                    2
                },
                ..d
            },
            None => d,
        }
    } else {
        match flag_of(value) {
            Some(b) => if key == "log_scale"@ {
                BridgeDisplaySettings { log_scale: b, ..d }
            } else if key == "show_fps"@ {
                BridgeDisplaySettings { show_fps: b, ..d }
            } else if key == "show_spectrogram_crosshair"@ {
                BridgeDisplaySettings { show_spectrogram_crosshair: b, ..d }
            } else if key == "show_spectrogram_scale"@ {
                BridgeDisplaySettings { show_spectrogram_scale: b, ..d }
            } else {
                BridgeDisplaySettings { spectrogram_zoom_enabled: b, ..d }
            },
            None => d,
        }
    }
}

pub open spec fn apply_integration_setting(
    s: SettingsView,
    key: Seq<char>,
    value: Seq<char>,
) -> SettingsView {
    if key == "system_media_controls_enabled"@ {
        match flag_of(value) {
            Some(b) => SettingsView { system_media_controls_enabled: b, ..s },
            None => s,
        }
    } else if key == "library_sort_mode"@ {
        match parse_i32_spec(value) {
            Some(x) => SettingsView { sort: LibrarySortMode::spec_from_i32(x), ..s },
            None => s,
        }
    } else if key == "lastfm_scrobbling_enabled"@ {
        match flag_of(value) {
            Some(b) => SettingsView { lastfm_scrobbling_enabled: b, ..s },
            None => s,
        }
    } else if key == "lastfm_username"@ {
        SettingsView { lastfm_username: value, ..s }
    } else {
        s
    }
}

/// Index of the first `c` in `t` at or after `i`, or `t.len()`.
pub open spec fn index_from(t: Seq<char>, c: char, i: int) -> int
    decreases t.len() - i,
{
    if i < 0 || i >= t.len() {
        t.len() as int
    } else if t[i] == c {
        i
    } else {
        index_from(t, c, i + 1)
    }
}

/// The trimmed key and value of a line, split at its first `=`; `None`
/// where it has none.
pub open spec fn line_pair(line: Seq<char>) -> Option<(Seq<char>, Seq<char>)> {
    let k = index_from(line, '=', 0);
    if k < line.len() {
        Some((trim(line.take(k)), trim(line.skip(k + 1))))
    } else {
        None
    }
}

pub open spec fn apply_line(s: SettingsView, line: Seq<char>) -> SettingsView {
    match line_pair(line) {
        Some((k, v)) => apply_setting(s, k, v),
        None => s,
    }
}

/// The floating-point assignment a line makes, with its trimmed value text.
pub open spec fn line_float(line: Seq<char>) -> Option<(FloatSetting, Seq<char>)> {
    match line_pair(line) {
        Some((k, v)) => match float_key(k) {
            Some(f) => Some((f, v)),
            None => None,
        },
        None => None,
    }
}

/// The lines of a text, split at each `\n`.
pub open spec fn lines_from(s: Seq<char>, i: int, cur: Seq<char>, acc: Seq<Seq<char>>) -> Seq<Seq<char>>
    decreases s.len() - i,
{
    if i < 0 || i >= s.len() {
        acc.push(cur)
    } else if s[i] == '\n' {
        lines_from(s, i + 1, Seq::empty(), acc.push(cur))
    } else {
        lines_from(s, i + 1, cur.push(s[i]), acc)
    }
}

pub open spec fn text_lines(s: Seq<char>) -> Seq<Seq<char>> {
    lines_from(s, 0, Seq::empty(), Seq::empty())
}

pub open spec fn apply_lines(s: SettingsView, lines: Seq<Seq<char>>) -> SettingsView
    decreases lines.len(),
{
    if lines.len() == 0 {
        s
    } else {
        apply_line(apply_lines(s, lines.drop_last()), lines.last())
    }
}

pub open spec fn float_lines(lines: Seq<Seq<char>>) -> Seq<(FloatSetting, Seq<char>)>
    decreases lines.len(),
{
    if lines.len() == 0 {
        Seq::empty()
    } else {
        match line_float(lines.last()) {
            Some(f) => float_lines(lines.drop_last()).push(f),
            None => float_lines(lines.drop_last()),
        }
    }
}

fn flag_value(value: &Vec<char>) -> (r: Option<bool>)
    ensures
        r == flag_of(value@),
{
    match parse_i32(value) {
        Some(x) => Some(x != 0),
        None => None,
    }
}

fn apply_mode_exec(settings: &mut BridgeSettings, key: &Vec<char>, value: &Vec<char>)
    requires
        is_mode_key(key@),
    ensures
        final(settings)@ == apply_mode_setting(old(settings)@, key@, value@),
{
    if eq_lit(key, "fft_size") {
        if let Some(x) = parse_usize(value) {
            settings.fft_size = clamp_fft_size(x);
        }
        return;
    }
    let text = string_from_chars(value);
    if eq_lit(key, "spectrogram_view_mode") {
        if let Some(m) = SpectrogramViewMode::parse_settings_value(text.as_str()) {
            settings.spectrogram_view_mode = m;
        }
    } else if eq_lit(key, "spectrogram_display_mode") {
        if let Some(m) = SpectrogramDisplayMode::parse_settings_value(text.as_str()) {
            settings.spectrogram_display_mode = m;
        }
    } else {
        if let Some(m) = ViewerFullscreenMode::parse_settings_value(text.as_str()) {
            settings.viewer_fullscreen_mode = m;
        }
    }
}

fn apply_display_exec(display: &mut BridgeDisplaySettings, key: &Vec<char>, value: &Vec<char>)
    requires
        is_display_key(key@),
    ensures
        *final(display) == apply_display_setting(*old(display), key@, value@),
{
    if eq_lit(key, "channel_buttons_visibility") {
        if let Some(x) = parse_u8(value) {
            display.channel_buttons_visibility = if x <= 2 { x } else { 2 };
        }
        return;
    }
    if let Some(b) = flag_value(value) {
        if eq_lit(key, "log_scale") {
            display.log_scale = b;
        } else if eq_lit(key, "show_fps") {
            display.show_fps = b;
        } else if eq_lit(key, "show_spectrogram_crosshair") {
            display.show_spectrogram_crosshair = b;
        } else if eq_lit(key, "show_spectrogram_scale") {
            display.show_spectrogram_scale = b;
        } else {
            display.spectrogram_zoom_enabled = b;
        }
    }
}

fn apply_integration_exec(settings: &mut BridgeSettings, key: &Vec<char>, value: &Vec<char>)
    ensures
        final(settings)@ == apply_integration_setting(old(settings)@, key@, value@),
{
    if eq_lit(key, "system_media_controls_enabled") {
        if let Some(b) = flag_value(value) {
            settings.integrations.system_media_controls_enabled = b;
        }
    } else if eq_lit(key, "library_sort_mode") {
        if let Some(x) = parse_i32(value) {
            settings.library_sort_mode = LibrarySortMode::from_i32(x);
        }
    } else if eq_lit(key, "lastfm_scrobbling_enabled") {
        if let Some(b) = flag_value(value) {
            settings.integrations.lastfm_scrobbling_enabled = b;
        }
    } else if eq_lit(key, "lastfm_username") {
        settings.integrations.lastfm_username = string_from_chars(value);
    }
}

fn apply_setting_exec(settings: &mut BridgeSettings, key: &Vec<char>, value: &Vec<char>)
    ensures
        final(settings)@ == apply_setting(old(settings)@, key@, value@),
{
    if eq_lit(key, "fft_size") || eq_lit(key, "spectrogram_view_mode") || eq_lit(
        key,
        "spectrogram_display_mode",
    ) || eq_lit(key, "viewer_fullscreen_mode") {
        apply_mode_exec(settings, key, value);
    } else if eq_lit(key, "log_scale") || eq_lit(key, "show_fps") || eq_lit(
        key,
        "show_spectrogram_crosshair",
    ) || eq_lit(key, "show_spectrogram_scale") || eq_lit(key, "channel_buttons_visibility")
        || eq_lit(key, "spectrogram_zoom_enabled") {
        apply_display_exec(&mut settings.display, key, value);
    } else {
        apply_integration_exec(settings, key, value);
    }
}

fn first_index(t: &Vec<char>, c: char) -> (k: usize)
    ensures
        k == index_from(t@, c, 0),
{
    let mut i: usize = 0;
    while i < t.len()
        invariant
            i <= t@.len(),
            index_from(t@, c, i as int) == index_from(t@, c, 0),
        decreases t@.len() - i,
    {
        if t[i] == c {
            return i;
        }
        i += 1;
    }
    i
}

/// Splits a line at its first `=` into trimmed key and value.
fn split_line(line: &Vec<char>) -> (r: Option<(Vec<char>, Vec<char>)>)
    ensures
        match r {
            Some((k, v)) => line_pair(line@) == Some((k@, v@)),
            None => line_pair(line@) is None,
        },
{
    let k = first_index(line, '=');
    if k >= line.len() {
        return None;
    }
    let mut key: Vec<char> = Vec::new();
    let mut value: Vec<char> = Vec::new();
    let mut i: usize = 0;
    while i < line.len()
        invariant
            k < line@.len(),
            i <= line@.len(),
            key@ == line@.take(if i < k { i as int } else { k as int }),
            value@ == (if i <= k + 1 { Seq::<char>::empty() } else { line@.subrange(k + 1, i as int) }),
        decreases line@.len() - i,
    {
        if i < k {
            key.push(line[i]);
            assert(key@ =~= line@.take(i + 1));
        } else if i > k {
            value.push(line[i]);
            assert(value@ =~= line@.subrange(k + 1, i + 1));
        }
        i += 1;
    }
    assert(value@ =~= line@.skip(k + 1));
    Some((trim_chars(&key), trim_chars(&value)))
}

fn apply_line_exec(
    settings: &mut BridgeSettings,
    line: &Vec<char>,
    floats: &mut Vec<(FloatSetting, String)>,
)
    ensures
        final(settings)@ == apply_line(old(settings)@, line@),
        float_views(final(floats)@) == match line_float(line@) {
            Some(f) => float_views(old(floats)@).push(f),
            None => float_views(old(floats)@),
        },
{
    match split_line(line) {
        Some((key, value)) => {
            apply_setting_exec(settings, &key, &value);
            let ghost before = floats@;
            if eq_lit(&key, "volume") {
                floats.push((FloatSetting::Volume, string_from_chars(&value)));
                assert(float_views(floats@) =~= float_views(before).push((FloatSetting::Volume, value@)));
            } else if eq_lit(&key, "db_range") {
                floats.push((FloatSetting::DbRange, string_from_chars(&value)));
                assert(float_views(floats@) =~= float_views(before).push((FloatSetting::DbRange, value@)));
            }
        },
        None => {},
    }
}

pub open spec fn float_views(v: Seq<(FloatSetting, String)>) -> Seq<(FloatSetting, Seq<char>)> {
    v.map_values(|p: (FloatSetting, String)| (p.0, p.1@))
}

/// Reads a settings file into `settings`, line by line, later lines winning.
/// Returns the floating-point assignments, in file order, with their
/// trimmed value text, for the caller to read.
pub fn parse_settings_text(settings: &mut BridgeSettings, text: &str) -> (floats: Vec<
    (FloatSetting, String),
>)
    ensures
        final(settings)@ == apply_lines(old(settings)@, text_lines(text@)),
        float_views(floats@) == float_lines(text_lines(text@)),
{
    let s = chars_of(text);
    let mut floats: Vec<(FloatSetting, String)> = Vec::new();
    let mut cur: Vec<char> = Vec::new();
    let ghost start = settings@;
    let ghost mut acc: Seq<Seq<char>> = Seq::empty();
    let mut i: usize = 0;
    assert(float_views(floats@) =~= Seq::<(FloatSetting, Seq<char>)>::empty());
    assert(cur@ =~= Seq::<char>::empty());
    while i < s.len()
        invariant
            i <= s@.len(),
            s@ == text@,
            lines_from(s@, i as int, cur@, acc) == text_lines(text@),
            settings@ == apply_lines(start, acc),
            float_views(floats@) == float_lines(acc),
        decreases s@.len() - i,
    {
        let c = s[i];
        if c == '\n' {
            apply_line_exec(settings, &cur, &mut floats);
            proof {
                assert(acc.push(cur@).drop_last() =~= acc);
                acc = acc.push(cur@);
            }
            cur = Vec::new();
            assert(cur@ =~= Seq::<char>::empty());
        } else {
            cur.push(c);
        }
        i += 1;
    }
    apply_line_exec(settings, &cur, &mut floats);
    proof {
        assert(acc.push(cur@).drop_last() =~= acc);
    }
    floats
}

// ---------------------------------------------------------------------------
// Writing
// ---------------------------------------------------------------------------

pub open spec fn flag_text(b: bool) -> Seq<char> {
    if b {
        "1"@
    } else {
        "0"@
    }
}

/// The settings file for `s`, with the given text for volume and dB range:
/// the lines of `settings_lines`, each ended by a line break.
pub open spec fn settings_text(s: SettingsView, volume: Seq<char>, db_range: Seq<char>) -> Seq<char> {
    joined_lines(settings_lines(s, volume, db_range))
}

fn key_value_line(key: &str, value: &Vec<char>) -> (r: Vec<char>)
    ensures
        r@ == key@ + "="@ + value@,
{
    let mut out: Vec<char> = Vec::new();
    push_str(&mut out, key);
    push_str(&mut out, "=");
    append_chars(&mut out, value);
    assert(out@ =~= key@ + "="@ + value@);
    out
}

pub open spec fn lines_view(v: Seq<Vec<char>>) -> Seq<Seq<char>> {
    v.map_values(|l: Vec<char>| l@)
}

/// Each line followed by a line break.
fn join_lines(lines: &Vec<Vec<char>>) -> (out: Vec<char>)
    ensures
        out@ == joined_lines(lines_view(lines@)),
{
    let ghost ls = lines_view(lines@);
    let mut out: Vec<char> = Vec::new();
    let mut i: usize = 0;
    assert(ls.take(0) =~= Seq::<Seq<char>>::empty());
    while i < lines.len()
        invariant
            i <= lines@.len(),
            ls == lines_view(lines@),
            out@ == joined_lines(ls.take(i as int)),
        decreases lines@.len() - i,
    {
        append_chars(&mut out, &lines[i]);
        out.push('\n');
        proof {
            assert(ls.take(i + 1) =~= ls.take(i as int).push(ls[i as int]));
            lemma_joined_push(ls.take(i as int), ls[i as int]);
            assert(out@ =~= joined_lines(ls.take(i + 1)));
        }
        i += 1;
    }
    assert(ls.take(lines@.len() as int) =~= ls);
    out
}

fn flag_chars(b: bool) -> (r: Vec<char>)
    ensures
        r@ == flag_text(b),
{
    if b {
        chars_of("1")
    } else {
        chars_of("0")
    }
}

fn decimal_chars(n: u64) -> (r: Vec<char>)
    ensures
        r@ == decimal(n as nat),
{
    let mut v: Vec<char> = Vec::new();
    push_decimal(&mut v, n);
    assert(v@ =~= decimal(n as nat));
    v
}

/// Writes the settings file; `volume` and `db_range` are the texts to store
/// for the two floating-point settings.
pub fn format_settings_text(settings: &BridgeSettings, volume: &str, db_range: &str) -> (r: String)
    ensures
        r@ == settings_text(settings@, volume@, db_range@),
{
    let mut lines: Vec<Vec<char>> = Vec::new();
    lines.push(key_value_line("volume", &chars_of(volume)));
    lines.push(key_value_line("fft_size", &decimal_chars(settings.fft_size as u64)));
    lines.push(
        key_value_line(
            "spectrogram_view_mode",
            &chars_of(settings.spectrogram_view_mode.settings_value()),
        ),
    );
    lines.push(
        key_value_line(
            "spectrogram_display_mode",
            &chars_of(settings.spectrogram_display_mode.settings_value()),
        ),
    );
    lines.push(
        key_value_line(
            "viewer_fullscreen_mode",
            &chars_of(settings.viewer_fullscreen_mode.settings_value()),
        ),
    );
    lines.push(key_value_line("db_range", &chars_of(db_range)));
    lines.push(key_value_line("log_scale", &flag_chars(settings.display.log_scale)));
    lines.push(key_value_line("show_fps", &flag_chars(settings.display.show_fps)));
    lines.push(
        key_value_line(
            "show_spectrogram_crosshair",
            &flag_chars(settings.display.show_spectrogram_crosshair),
        ),
    );
    lines.push(
        key_value_line("show_spectrogram_scale", &flag_chars(settings.display.show_spectrogram_scale)),
    );
    lines.push(
        key_value_line(
            "channel_buttons_visibility",
            &decimal_chars(settings.display.channel_buttons_visibility as u64),
        ),
    );
    lines.push(
        key_value_line(
            "spectrogram_zoom_enabled",
            &flag_chars(settings.display.spectrogram_zoom_enabled),
        ),
    );
    lines.push(
        key_value_line(
            "system_media_controls_enabled",
            &flag_chars(settings.integrations.system_media_controls_enabled),
        ),
    );
    let mut sort: Vec<char> = Vec::new();
    push_decimal_i64(&mut sort, settings.library_sort_mode.to_i32() as i64);
    assert(sort@ =~= decimal_int(settings.library_sort_mode.code() as int));
    lines.push(key_value_line("library_sort_mode", &sort));
    lines.push(
        key_value_line(
            "lastfm_scrobbling_enabled",
            &flag_chars(settings.integrations.lastfm_scrobbling_enabled),
        ),
    );
    lines.push(
        key_value_line(
            "lastfm_username",
            &chars_of(settings.integrations.lastfm_username.as_str()),
        ),
    );
    assert(lines_view(lines@) =~= settings_lines(settings@, volume@, db_range@));
    let out = join_lines(&lines);
    string_from_chars(&out)
}

// ---------------------------------------------------------------------------
// Writing then reading
// ---------------------------------------------------------------------------

pub open spec fn no_char(s: Seq<char>, c: char) -> bool {
    forall|i: int| 0 <= i < s.len() ==> #[trigger] s[i] != c
}

/// Lines, each followed by a line break.
pub open spec fn joined_lines(ls: Seq<Seq<char>>) -> Seq<char>
    decreases ls.len(),
{
    if ls.len() == 0 {
        Seq::empty()
    } else {
        ls[0] + seq!['\n'] + joined_lines(ls.drop_first())
    }
}

proof fn lemma_lines_shift(p: Seq<char>, b: Seq<char>, j: int, cur: Seq<char>, acc: Seq<Seq<char>>)
    requires
        0 <= j <= b.len(),
    ensures
        lines_from(p + b, p.len() + j, cur, acc) == lines_from(b, j, cur, acc),
    decreases b.len() - j,
{
    if j < b.len() {
        assert((p + b)[p.len() + j] == b[j]);
        if b[j] == '\n' {
            lemma_lines_shift(p, b, j + 1, Seq::empty(), acc.push(cur));
        } else {
            lemma_lines_shift(p, b, j + 1, cur.push(b[j]), acc);
        }
    }
}

proof fn lemma_lines_one(a: Seq<char>, b: Seq<char>, i: int, cur: Seq<char>, acc: Seq<Seq<char>>)
    requires
        0 <= i <= a.len(),
        no_char(a, '\n'),
    ensures
        lines_from(a + seq!['\n'] + b, i, cur, acc) == lines_from(
            b,
            0,
            Seq::empty(),
            acc.push(cur + a.skip(i)),
        ),
    decreases a.len() - i,
{
    let s = a + seq!['\n'] + b;
    if i == a.len() {
        assert(s[i] == '\n');
        assert(cur + a.skip(i) =~= cur);
        assert(s =~= (a + seq!['\n']) + b);
        lemma_lines_shift(a + seq!['\n'], b, 0, Seq::empty(), acc.push(cur));
    } else {
        assert(s[i] == a[i]);
        lemma_lines_one(a, b, i + 1, cur.push(a[i]), acc);
        assert(cur.push(a[i]) + a.skip(i + 1) =~= cur + a.skip(i));
    }
}

proof fn lemma_joined_lines(ls: Seq<Seq<char>>, acc: Seq<Seq<char>>)
    requires
        forall|k: int| 0 <= k < ls.len() ==> no_char(#[trigger] ls[k], '\n'),
    ensures
        lines_from(joined_lines(ls), 0, Seq::empty(), acc) == (acc + ls).push(Seq::empty()),
    decreases ls.len(),
{
    if ls.len() == 0 {
        assert(acc + ls =~= acc);
    } else {
        let rest = ls.drop_first();
        assert(ls[0] == ls[0]);
        lemma_lines_one(ls[0], joined_lines(rest), 0, Seq::empty(), acc);
        assert(Seq::<char>::empty() + ls[0].skip(0) =~= ls[0]);
        assert forall|k: int| 0 <= k < rest.len() implies no_char(#[trigger] rest[k], '\n') by {
            assert(rest[k] == ls[k + 1]);
        }
        lemma_joined_lines(rest, acc.push(ls[0]));
        assert(acc.push(ls[0]) + rest =~= acc + ls);
    }
}

proof fn lemma_index_after_key(key: Seq<char>, value: Seq<char>, i: int)
    requires
        0 <= i <= key.len(),
        no_char(key, '='),
    ensures
        index_from(key + "="@ + value, '=', i) == key.len(),
    decreases key.len() - i,
{
    reveal_strlit("=");
    let l = key + "="@ + value;
    if i < key.len() {
        assert(l[i] == key[i]);
        lemma_index_after_key(key, value, i + 1);
    } else {
        assert(l[i] == '=');
    }
}

proof fn lemma_line_pair(key: Seq<char>, value: Seq<char>)
    requires
        no_char(key, '='),
        trim(key) == key,
    ensures
        line_pair(key + "="@ + value) == Some((key, trim(value))),
{
    reveal_strlit("=");
    let l = key + "="@ + value;
    lemma_index_after_key(key, value, 0);
    assert(l.take(key.len() as int) =~= key);
    assert(l.skip(key.len() + 1int) =~= value);
}

/// Every line that `settings_text` writes, without its line break.
pub open spec fn settings_lines(s: SettingsView, volume: Seq<char>, db_range: Seq<char>) -> Seq<Seq<char>> {
    seq![
        "volume"@ + "="@ + volume,
        "fft_size"@ + "="@ + decimal(s.fft_size as nat),
        "spectrogram_view_mode"@ + "="@ + s.view_mode.name(),
        "spectrogram_display_mode"@ + "="@ + s.display_mode.name(),
        "viewer_fullscreen_mode"@ + "="@ + s.fullscreen.name(),
        "db_range"@ + "="@ + db_range,
        "log_scale"@ + "="@ + flag_text(s.display.log_scale),
        "show_fps"@ + "="@ + flag_text(s.display.show_fps),
        "show_spectrogram_crosshair"@ + "="@ + flag_text(s.display.show_spectrogram_crosshair),
        "show_spectrogram_scale"@ + "="@ + flag_text(s.display.show_spectrogram_scale),
        "channel_buttons_visibility"@ + "="@ + decimal(s.display.channel_buttons_visibility as nat),
        "spectrogram_zoom_enabled"@ + "="@ + flag_text(s.display.spectrogram_zoom_enabled),
        "system_media_controls_enabled"@ + "="@ + flag_text(s.system_media_controls_enabled),
        "library_sort_mode"@ + "="@ + decimal_int(s.sort.code() as int),
        "lastfm_scrobbling_enabled"@ + "="@ + flag_text(s.lastfm_scrobbling_enabled),
        "lastfm_username"@ + "="@ + s.lastfm_username,
    ]
}

proof fn lemma_no_char_concat(a: Seq<char>, b: Seq<char>, c: char)
    requires
        no_char(a, c),
        no_char(b, c),
    ensures
        no_char(a + b, c),
{
    assert forall|i: int| 0 <= i < (a + b).len() implies #[trigger] (a + b)[i] != c by {
        if i < a.len() {
            assert((a + b)[i] == a[i]);
        } else {
            assert((a + b)[i] == b[i - a.len()]);
        }
    }
}

proof fn lemma_flag_round_trip(b: bool)
    ensures
        flag_of(flag_text(b)) == Some(b),
        trim(flag_text(b)) == flag_text(b),
        no_char(flag_text(b), '\n'),
{
    reveal_strlit("1");
    reveal_strlit("0");
    let t = flag_text(b);
    assert(t.len() == 1);
    assert(t.drop_last() =~= Seq::<char>::empty());
    assert(crate::numbers::digits_value(t.drop_last()) == 0);
    assert(t.last() == (if b { '1' } else { '0' }));
    assert(crate::numbers::all_digits(t));
    assert(crate::numbers::digits_value(t) == (if b { 1nat } else { 0nat }));
    crate::modes::lemma_trim_of_clean(t);
}

proof fn lemma_decimal_clean(n: nat)
    ensures
        trim(decimal(n)) == decimal(n),
        no_char(decimal(n), '\n'),
        no_char(decimal(n), '='),
{
    crate::numbers::lemma_decimal_round_trip(n);
    let d = decimal(n);
    assert(crate::text::is_digit_char(d[0]));
    assert(crate::text::is_digit_char(d.last()));
    crate::modes::lemma_trim_of_clean(d);
}

proof fn lemma_name_clean(t: Seq<char>)
    requires
        t == "downmix"@ || t == "per_channel"@ || t == "rolling"@ || t == "centered"@ || t
            == "within_window"@ || t == "whole_screen"@,
    ensures
        trim(t) == t,
        no_char(t, '\n'),
{
    reveal_strlit("downmix");
    reveal_strlit("per_channel");
    reveal_strlit("rolling");
    reveal_strlit("centered");
    reveal_strlit("within_window");
    reveal_strlit("whole_screen");
    crate::modes::lemma_trim_of_clean(t);
}

/// What each written line does when read back into any settings `x`.
proof fn lemma_written_lines(x: SettingsView, s: SettingsView, volume: Seq<char>, db_range: Seq<char>)
    requires
        fft_size_for(s.fft_size as nat) == s.fft_size,
        s.display.channel_buttons_visibility <= 2,
        trim(s.lastfm_username) == s.lastfm_username,
    ensures
        ({
            let ls = settings_lines(s, volume, db_range);
            &&& apply_line(x, ls[0]) == x
            &&& line_float(ls[0]) == Some((FloatSetting::Volume, trim(volume)))
            &&& apply_line(x, ls[1]) == SettingsView { fft_size: s.fft_size, ..x }
            &&& line_float(ls[1]) is None
            &&& apply_line(x, ls[2]) == SettingsView { view_mode: s.view_mode, ..x }
            &&& line_float(ls[2]) is None
            &&& apply_line(x, ls[3]) == SettingsView { display_mode: s.display_mode, ..x }
            &&& line_float(ls[3]) is None
            &&& apply_line(x, ls[4]) == SettingsView { fullscreen: s.fullscreen, ..x }
            &&& line_float(ls[4]) is None
            &&& apply_line(x, ls[5]) == x
            &&& line_float(ls[5]) == Some((FloatSetting::DbRange, trim(db_range)))
        }),
{
    reveal_strlit("volume");
    reveal_strlit("fft_size");
    reveal_strlit("spectrogram_view_mode");
    reveal_strlit("spectrogram_display_mode");
    reveal_strlit("viewer_fullscreen_mode");
    reveal_strlit("db_range");
    reveal_strlit("log_scale");
    reveal_strlit("show_fps");
    reveal_strlit("show_spectrogram_crosshair");
    reveal_strlit("show_spectrogram_scale");
    reveal_strlit("channel_buttons_visibility");
    reveal_strlit("spectrogram_zoom_enabled");
    reveal_strlit("system_media_controls_enabled");
    reveal_strlit("library_sort_mode");
    reveal_strlit("lastfm_scrobbling_enabled");
    reveal_strlit("lastfm_username");
    reveal_strlit("=");
    let ls = settings_lines(s, volume, db_range);
    crate::modes::lemma_trim_of_clean("volume"@);
    crate::modes::lemma_trim_of_clean("fft_size"@);
    crate::modes::lemma_trim_of_clean("spectrogram_view_mode"@);
    crate::modes::lemma_trim_of_clean("spectrogram_display_mode"@);
    crate::modes::lemma_trim_of_clean("viewer_fullscreen_mode"@);
    crate::modes::lemma_trim_of_clean("db_range"@);
    lemma_line_pair("volume"@, volume);
    lemma_line_pair("fft_size"@, decimal(s.fft_size as nat));
    lemma_line_pair("spectrogram_view_mode"@, s.view_mode.name());
    lemma_line_pair("spectrogram_display_mode"@, s.display_mode.name());
    lemma_line_pair("viewer_fullscreen_mode"@, s.fullscreen.name());
    lemma_line_pair("db_range"@, db_range);
    lemma_decimal_clean(s.fft_size as nat);
    crate::numbers::law_unsigned_round_trip(s.fft_size as nat, usize::MAX as nat);
    lemma_name_clean(s.view_mode.name());
    lemma_name_clean(s.display_mode.name());
    lemma_name_clean(s.fullscreen.name());
    crate::modes::law_mode_names_round_trip(s.view_mode, s.display_mode, s.fullscreen);
}

proof fn lemma_written_flag_lines(x: SettingsView, s: SettingsView, volume: Seq<char>, db_range: Seq<char>)
    ensures
        ({
            let ls = settings_lines(s, volume, db_range);
            &&& apply_line(x, ls[6]) == SettingsView { display: BridgeDisplaySettings { log_scale: s.display.log_scale, ..x.display }, ..x }
            &&& line_float(ls[6]) is None
            &&& apply_line(x, ls[7]) == SettingsView { display: BridgeDisplaySettings { show_fps: s.display.show_fps, ..x.display }, ..x }
            &&& line_float(ls[7]) is None
            &&& apply_line(x, ls[8]) == SettingsView { display: BridgeDisplaySettings { show_spectrogram_crosshair: s.display.show_spectrogram_crosshair, ..x.display }, ..x }
            &&& line_float(ls[8]) is None
        }),
{
    reveal_strlit("volume");
    reveal_strlit("fft_size");
    reveal_strlit("spectrogram_view_mode");
    reveal_strlit("spectrogram_display_mode");
    reveal_strlit("viewer_fullscreen_mode");
    reveal_strlit("db_range");
    reveal_strlit("log_scale");
    reveal_strlit("show_fps");
    reveal_strlit("show_spectrogram_crosshair");
    reveal_strlit("show_spectrogram_scale");
    reveal_strlit("channel_buttons_visibility");
    reveal_strlit("spectrogram_zoom_enabled");
    reveal_strlit("system_media_controls_enabled");
    reveal_strlit("library_sort_mode");
    reveal_strlit("lastfm_scrobbling_enabled");
    reveal_strlit("lastfm_username");
    reveal_strlit("=");
    crate::modes::lemma_trim_of_clean("log_scale"@);
    crate::modes::lemma_trim_of_clean("show_fps"@);
    crate::modes::lemma_trim_of_clean("show_spectrogram_crosshair"@);
    lemma_line_pair("log_scale"@, flag_text(s.display.log_scale));
    lemma_line_pair("show_fps"@, flag_text(s.display.show_fps));
    lemma_line_pair("show_spectrogram_crosshair"@, flag_text(s.display.show_spectrogram_crosshair));
    lemma_flag_round_trip(s.display.log_scale);
    lemma_flag_round_trip(s.display.show_fps);
    lemma_flag_round_trip(s.display.show_spectrogram_crosshair);
}

proof fn lemma_written_display_lines(x: SettingsView, s: SettingsView, volume: Seq<char>, db_range: Seq<char>)
    requires
        s.display.channel_buttons_visibility <= 2,
    ensures
        ({
            let ls = settings_lines(s, volume, db_range);
            &&& apply_line(x, ls[9]) == SettingsView { display: BridgeDisplaySettings { show_spectrogram_scale: s.display.show_spectrogram_scale, ..x.display }, ..x }
            &&& line_float(ls[9]) is None
            &&& apply_line(x, ls[10]) == SettingsView { display: BridgeDisplaySettings { channel_buttons_visibility: s.display.channel_buttons_visibility, ..x.display }, ..x }
            &&& line_float(ls[10]) is None
            &&& apply_line(x, ls[11]) == SettingsView { display: BridgeDisplaySettings { spectrogram_zoom_enabled: s.display.spectrogram_zoom_enabled, ..x.display }, ..x }
            &&& line_float(ls[11]) is None
        }),
{
    reveal_strlit("volume");
    reveal_strlit("fft_size");
    reveal_strlit("spectrogram_view_mode");
    reveal_strlit("spectrogram_display_mode");
    reveal_strlit("viewer_fullscreen_mode");
    reveal_strlit("db_range");
    reveal_strlit("log_scale");
    reveal_strlit("show_fps");
    reveal_strlit("show_spectrogram_crosshair");
    reveal_strlit("show_spectrogram_scale");
    reveal_strlit("channel_buttons_visibility");
    reveal_strlit("spectrogram_zoom_enabled");
    reveal_strlit("system_media_controls_enabled");
    reveal_strlit("library_sort_mode");
    reveal_strlit("lastfm_scrobbling_enabled");
    reveal_strlit("lastfm_username");
    reveal_strlit("=");
    crate::modes::lemma_trim_of_clean("show_spectrogram_scale"@);
    crate::modes::lemma_trim_of_clean("channel_buttons_visibility"@);
    crate::modes::lemma_trim_of_clean("spectrogram_zoom_enabled"@);
    lemma_line_pair("show_spectrogram_scale"@, flag_text(s.display.show_spectrogram_scale));
    lemma_line_pair("channel_buttons_visibility"@, decimal(s.display.channel_buttons_visibility as nat));
    lemma_line_pair("spectrogram_zoom_enabled"@, flag_text(s.display.spectrogram_zoom_enabled));
    lemma_flag_round_trip(s.display.show_spectrogram_scale);
    lemma_flag_round_trip(s.display.spectrogram_zoom_enabled);
    lemma_decimal_clean(s.display.channel_buttons_visibility as nat);
    crate::numbers::law_unsigned_round_trip(s.display.channel_buttons_visibility as nat, 255);
}

proof fn lemma_written_integration_lines(x: SettingsView, s: SettingsView, volume: Seq<char>, db_range: Seq<char>)
    requires
        trim(s.lastfm_username) == s.lastfm_username,
    ensures
        ({
            let ls = settings_lines(s, volume, db_range);
            &&& apply_line(x, ls[12]) == SettingsView { system_media_controls_enabled: s.system_media_controls_enabled, ..x }
            &&& line_float(ls[12]) is None
            &&& apply_line(x, ls[13]) == SettingsView { sort: s.sort, ..x }
            &&& line_float(ls[13]) is None
            &&& apply_line(x, ls[14]) == SettingsView { lastfm_scrobbling_enabled: s.lastfm_scrobbling_enabled, ..x }
            &&& line_float(ls[14]) is None
            &&& apply_line(x, ls[15]) == SettingsView { lastfm_username: s.lastfm_username, ..x }
            &&& line_float(ls[15]) is None
        }),
{
    reveal_strlit("volume");
    reveal_strlit("fft_size");
    reveal_strlit("spectrogram_view_mode");
    reveal_strlit("spectrogram_display_mode");
    reveal_strlit("viewer_fullscreen_mode");
    reveal_strlit("db_range");
    reveal_strlit("log_scale");
    reveal_strlit("show_fps");
    reveal_strlit("show_spectrogram_crosshair");
    reveal_strlit("show_spectrogram_scale");
    reveal_strlit("channel_buttons_visibility");
    reveal_strlit("spectrogram_zoom_enabled");
    reveal_strlit("system_media_controls_enabled");
    reveal_strlit("library_sort_mode");
    reveal_strlit("lastfm_scrobbling_enabled");
    reveal_strlit("lastfm_username");
    reveal_strlit("=");
    crate::modes::lemma_trim_of_clean("system_media_controls_enabled"@);
    crate::modes::lemma_trim_of_clean("library_sort_mode"@);
    crate::modes::lemma_trim_of_clean("lastfm_scrobbling_enabled"@);
    crate::modes::lemma_trim_of_clean("lastfm_username"@);
    lemma_line_pair("system_media_controls_enabled"@, flag_text(s.system_media_controls_enabled));
    lemma_line_pair("library_sort_mode"@, decimal_int(s.sort.code() as int));
    lemma_line_pair("lastfm_scrobbling_enabled"@, flag_text(s.lastfm_scrobbling_enabled));
    lemma_line_pair("lastfm_username"@, s.lastfm_username);
    lemma_flag_round_trip(s.system_media_controls_enabled);
    lemma_flag_round_trip(s.lastfm_scrobbling_enabled);
    lemma_decimal_clean(s.sort.code() as nat);
    crate::numbers::law_i32_round_trip(s.sort.code());
    crate::modes::law_mode_codes_round_trip(s.sort, SpectrogramViewMode::Downmix, ViewerFullscreenMode::WithinWindow);
}

proof fn lemma_joined_push(a: Seq<Seq<char>>, x: Seq<char>)
    ensures
        joined_lines(a.push(x)) == joined_lines(a) + x + seq!['\n'],
    decreases a.len(),
{
    if a.len() == 0 {
        assert(a.push(x).drop_first() =~= Seq::<Seq<char>>::empty());
        assert(a.push(x)[0] == x);
        assert(joined_lines(a.push(x).drop_first()) == Seq::<char>::empty());
        assert(joined_lines(a) == Seq::<char>::empty());
        assert(joined_lines(a.push(x)) == x + seq!['\n'] + Seq::<char>::empty());
        assert(joined_lines(a.push(x)) =~= joined_lines(a) + x + seq!['\n']);
    } else {
        assert(a.push(x).drop_first() =~= a.drop_first().push(x));
        lemma_joined_push(a.drop_first(), x);
        assert(a.push(x)[0] == a[0]);
        assert(joined_lines(a.push(x)) == a[0] + seq!['\n'] + joined_lines(a.drop_first().push(x)));
        assert(joined_lines(a) == a[0] + seq!['\n'] + joined_lines(a.drop_first()));
        assert(joined_lines(a.push(x)) =~= joined_lines(a) + x + seq!['\n']);
    }
}

/// Settings written to their file and read back into any settings give
/// back every setting written, and the texts of the two floating-point
/// settings, trimmed, in file order. This holds for the values the setters
/// store: an FFT size that is a power of two in 512..=8192, a channel-button
/// visibility of at most 2, and texts without line breaks (a username
/// also without surrounding whitespace).
pub proof fn law_settings_text_round_trip(
    s: SettingsView,
    base: SettingsView,
    volume: Seq<char>,
    db_range: Seq<char>,
)
    requires
        fft_size_for(s.fft_size as nat) == s.fft_size,
        s.display.channel_buttons_visibility <= 2,
        trim(s.lastfm_username) == s.lastfm_username,
        no_char(s.lastfm_username, '\n'),
        no_char(volume, '\n'),
        no_char(db_range, '\n'),
    ensures
        apply_lines(base, text_lines(settings_text(s, volume, db_range))) == (SettingsView {
            volume_bits: base.volume_bits,
            db_range_bits: base.db_range_bits,
            ..s
        }),
        float_lines(text_lines(settings_text(s, volume, db_range))) == seq![
            (FloatSetting::Volume, trim(volume)),
            (FloatSetting::DbRange, trim(db_range)),
        ],
{
    let ls = settings_lines(s, volume, db_range);
    lemma_settings_lines_clean(s, volume, db_range);
    lemma_joined_lines(ls, Seq::empty());
    assert(Seq::<Seq<char>>::empty() + ls =~= ls);
    let full = ls.push(Seq::<char>::empty());
    assert(text_lines(settings_text(s, volume, db_range)) == full);
    lemma_read_written_lines(base, s, volume, db_range);
    lemma_read_written_floats(s, volume, db_range);
}

proof fn lemma_apply_step(base: SettingsView, full: Seq<Seq<char>>, k: int)
    requires
        0 <= k < full.len(),
    ensures
        apply_lines(base, full.take(k + 1)) == apply_line(apply_lines(base, full.take(k)), full[k]),
{
    assert(full.take(k + 1).drop_last() =~= full.take(k));
    assert(full.take(k + 1).last() == full[k]);
}

/// The settings after the first nine written lines.
pub open spec fn after_nine(base: SettingsView, s: SettingsView) -> SettingsView {
    SettingsView {
        fft_size: s.fft_size,
        view_mode: s.view_mode,
        display_mode: s.display_mode,
        fullscreen: s.fullscreen,
        display: BridgeDisplaySettings {
            log_scale: s.display.log_scale,
            show_fps: s.display.show_fps,
            show_spectrogram_crosshair: s.display.show_spectrogram_crosshair,
            ..base.display
        },
        ..base
    }
}

proof fn lemma_read_first_lines(base: SettingsView, s: SettingsView, volume: Seq<char>, db_range: Seq<char>)
    requires
        fft_size_for(s.fft_size as nat) == s.fft_size,
        s.display.channel_buttons_visibility <= 2,
        trim(s.lastfm_username) == s.lastfm_username,
    ensures
        apply_lines(base, settings_lines(s, volume, db_range).push(Seq::<char>::empty()).take(9))
            == after_nine(base, s),
{
    let ls = settings_lines(s, volume, db_range);
    let full = ls.push(Seq::<char>::empty());
    assert(full.take(0) =~= Seq::<Seq<char>>::empty());
    let mut x = base;
    lemma_apply_step(base, full, 0);
    lemma_written_lines(base, s, volume, db_range);
    let x1 = apply_line(base, ls[0]);
    lemma_apply_step(base, full, 1);
    lemma_written_lines(x1, s, volume, db_range);
    let x2 = apply_line(x1, ls[1]);
    lemma_apply_step(base, full, 2);
    lemma_written_lines(x2, s, volume, db_range);
    let x3 = apply_line(x2, ls[2]);
    lemma_apply_step(base, full, 3);
    lemma_written_lines(x3, s, volume, db_range);
    let x4 = apply_line(x3, ls[3]);
    lemma_apply_step(base, full, 4);
    lemma_written_lines(x4, s, volume, db_range);
    let x5 = apply_line(x4, ls[4]);
    lemma_apply_step(base, full, 5);
    lemma_written_lines(x5, s, volume, db_range);
    let x6 = apply_line(x5, ls[5]);
    lemma_apply_step(base, full, 6);
    lemma_written_flag_lines(x6, s, volume, db_range);
    let x7 = apply_line(x6, ls[6]);
    lemma_apply_step(base, full, 7);
    lemma_written_flag_lines(x7, s, volume, db_range);
    let x8 = apply_line(x7, ls[7]);
    lemma_apply_step(base, full, 8);
    lemma_written_flag_lines(x8, s, volume, db_range);
    let x9 = apply_line(x8, ls[8]);
    assert(x9 == after_nine(base, s));
}

/// The settings after the first twelve written lines.
pub open spec fn after_twelve(base: SettingsView, s: SettingsView) -> SettingsView {
    SettingsView { display: s.display, ..after_nine(base, s) }
}

proof fn lemma_read_middle_lines(base: SettingsView, s: SettingsView, volume: Seq<char>, db_range: Seq<char>)
    requires
        s.display.channel_buttons_visibility <= 2,
        apply_lines(base, settings_lines(s, volume, db_range).push(Seq::<char>::empty()).take(9))
            == after_nine(base, s),
    ensures
        apply_lines(base, settings_lines(s, volume, db_range).push(Seq::<char>::empty()).take(12))
            == after_twelve(base, s),
{
    let ls = settings_lines(s, volume, db_range);
    let full = ls.push(Seq::<char>::empty());
    let x9 = after_nine(base, s);
    lemma_apply_step(base, full, 9);
    lemma_written_display_lines(x9, s, volume, db_range);
    let x10 = apply_line(x9, ls[9]);
    lemma_apply_step(base, full, 10);
    lemma_written_display_lines(x10, s, volume, db_range);
    let x11 = apply_line(x10, ls[10]);
    lemma_apply_step(base, full, 11);
    lemma_written_display_lines(x11, s, volume, db_range);
    let x12 = apply_line(x11, ls[11]);
    assert(x12 == after_twelve(base, s));
}

proof fn lemma_read_last_lines(base: SettingsView, s: SettingsView, volume: Seq<char>, db_range: Seq<char>)
    requires
        trim(s.lastfm_username) == s.lastfm_username,
        apply_lines(base, settings_lines(s, volume, db_range).push(Seq::<char>::empty()).take(12))
            == after_twelve(base, s),
    ensures
        apply_lines(base, settings_lines(s, volume, db_range).push(Seq::<char>::empty())) == (SettingsView {
            volume_bits: base.volume_bits,
            db_range_bits: base.db_range_bits,
            ..s
        }),
{
    let ls = settings_lines(s, volume, db_range);
    let full = ls.push(Seq::<char>::empty());
    let x12 = after_twelve(base, s);
    lemma_apply_step(base, full, 12);
    lemma_written_integration_lines(x12, s, volume, db_range);
    let x13 = apply_line(x12, ls[12]);
    lemma_apply_step(base, full, 13);
    lemma_written_integration_lines(x13, s, volume, db_range);
    let x14 = apply_line(x13, ls[13]);
    lemma_apply_step(base, full, 14);
    lemma_written_integration_lines(x14, s, volume, db_range);
    let x15 = apply_line(x14, ls[14]);
    lemma_apply_step(base, full, 15);
    lemma_written_integration_lines(x15, s, volume, db_range);
    let x16 = apply_line(x15, ls[15]);
    lemma_apply_step(base, full, 16);
    assert(line_pair(Seq::<char>::empty()) is None);
    assert(full[16] == Seq::<char>::empty());
    assert(full.take(17) =~= full);
    assert(x16 == (SettingsView { volume_bits: base.volume_bits, db_range_bits: base.db_range_bits, ..s }));
}

proof fn lemma_read_written_lines(base: SettingsView, s: SettingsView, volume: Seq<char>, db_range: Seq<char>)
    requires
        fft_size_for(s.fft_size as nat) == s.fft_size,
        s.display.channel_buttons_visibility <= 2,
        trim(s.lastfm_username) == s.lastfm_username,
    ensures
        apply_lines(base, settings_lines(s, volume, db_range).push(Seq::<char>::empty())) == (SettingsView {
            volume_bits: base.volume_bits,
            db_range_bits: base.db_range_bits,
            ..s
        }),
{
    lemma_read_first_lines(base, s, volume, db_range);
    lemma_read_middle_lines(base, s, volume, db_range);
    lemma_read_last_lines(base, s, volume, db_range);
}

proof fn lemma_float_step(full: Seq<Seq<char>>, k: int)
    requires
        0 <= k < full.len(),
    ensures
        float_lines(full.take(k + 1)) == match line_float(full[k]) {
            Some(f) => float_lines(full.take(k)).push(f),
            None => float_lines(full.take(k)),
        },
{
    assert(full.take(k + 1).drop_last() =~= full.take(k));
    assert(full.take(k + 1).last() == full[k]);
}

proof fn lemma_read_written_floats(s: SettingsView, volume: Seq<char>, db_range: Seq<char>)
    requires
        fft_size_for(s.fft_size as nat) == s.fft_size,
        s.display.channel_buttons_visibility <= 2,
        trim(s.lastfm_username) == s.lastfm_username,
    ensures
        float_lines(settings_lines(s, volume, db_range).push(Seq::<char>::empty())) == seq![
            (FloatSetting::Volume, trim(volume)),
            (FloatSetting::DbRange, trim(db_range)),
        ],
{
    let ls = settings_lines(s, volume, db_range);
    let full = ls.push(Seq::<char>::empty());
    lemma_written_lines(s, s, volume, db_range);
    lemma_written_flag_lines(s, s, volume, db_range);
    lemma_written_display_lines(s, s, volume, db_range);
    lemma_written_integration_lines(s, s, volume, db_range);
    assert(line_pair(Seq::<char>::empty()) is None);
    assert(full.take(0) =~= Seq::<Seq<char>>::empty());
    let two = seq![(FloatSetting::Volume, trim(volume)), (FloatSetting::DbRange, trim(db_range))];
    lemma_float_step(full, 0);
    assert(float_lines(full.take(1)) =~= seq![(FloatSetting::Volume, trim(volume))]);
    lemma_float_step(full, 1);
    lemma_float_step(full, 2);
    lemma_float_step(full, 3);
    lemma_float_step(full, 4);
    lemma_float_step(full, 5);
    assert(float_lines(full.take(6)) =~= two);
    lemma_float_step(full, 6);
    lemma_float_step(full, 7);
    lemma_float_step(full, 8);
    lemma_float_step(full, 9);
    lemma_float_step(full, 10);
    lemma_float_step(full, 11);
    lemma_float_step(full, 12);
    lemma_float_step(full, 13);
    lemma_float_step(full, 14);
    lemma_float_step(full, 15);
    lemma_float_step(full, 16);
    assert(full.take(17) =~= full);
}

proof fn lemma_kv_no_newline(key: Seq<char>, value: Seq<char>)
    requires
        no_char(key, '\n'),
        no_char(value, '\n'),
    ensures
        no_char(key + "="@, '\n'),
        no_char(key + "="@ + value, '\n'),
{
    reveal_strlit("=");
    assert(no_char("="@, '\n'));
    lemma_no_char_concat(key, "="@, '\n');
    lemma_no_char_concat(key + "="@, value, '\n');
}

proof fn lemma_settings_lines_clean(s: SettingsView, volume: Seq<char>, db_range: Seq<char>)
    requires
        no_char(s.lastfm_username, '\n'),
        no_char(volume, '\n'),
        no_char(db_range, '\n'),
    ensures
        forall|k: int|
            0 <= k < settings_lines(s, volume, db_range).len() ==> no_char(
                #[trigger] settings_lines(s, volume, db_range)[k],
                '\n',
            ),
{
    let ls = settings_lines(s, volume, db_range);
    lemma_decimal_clean(s.fft_size as nat);
    lemma_decimal_clean(s.display.channel_buttons_visibility as nat);
    lemma_decimal_clean(s.sort.code() as nat);
    lemma_name_clean(s.view_mode.name());
    lemma_name_clean(s.display_mode.name());
    lemma_name_clean(s.fullscreen.name());
    lemma_flag_round_trip(s.display.log_scale);
    lemma_flag_round_trip(s.display.show_fps);
    lemma_flag_round_trip(s.display.show_spectrogram_crosshair);
    lemma_flag_round_trip(s.display.show_spectrogram_scale);
    lemma_flag_round_trip(s.display.spectrogram_zoom_enabled);
    lemma_flag_round_trip(s.system_media_controls_enabled);
    lemma_flag_round_trip(s.lastfm_scrobbling_enabled);
    assert(decimal_int(s.sort.code() as int) == decimal(s.sort.code() as nat));
    assert(no_char("volume"@, '\n')) by { reveal_strlit("volume"); }
    lemma_kv_no_newline("volume"@, volume);
    assert(no_char(ls[0], '\n'));
    assert(no_char("fft_size"@, '\n')) by { reveal_strlit("fft_size"); }
    lemma_kv_no_newline("fft_size"@, decimal(s.fft_size as nat));
    assert(no_char(ls[1], '\n'));
    assert(no_char("spectrogram_view_mode"@, '\n')) by { reveal_strlit("spectrogram_view_mode"); }
    lemma_kv_no_newline("spectrogram_view_mode"@, s.view_mode.name());
    assert(no_char(ls[2], '\n'));
    assert(no_char("spectrogram_display_mode"@, '\n')) by { reveal_strlit("spectrogram_display_mode"); }
    lemma_kv_no_newline("spectrogram_display_mode"@, s.display_mode.name());
    assert(no_char(ls[3], '\n'));
    assert(no_char("viewer_fullscreen_mode"@, '\n')) by { reveal_strlit("viewer_fullscreen_mode"); }
    lemma_kv_no_newline("viewer_fullscreen_mode"@, s.fullscreen.name());
    assert(no_char(ls[4], '\n'));
    assert(no_char("db_range"@, '\n')) by { reveal_strlit("db_range"); }
    lemma_kv_no_newline("db_range"@, db_range);
    assert(no_char(ls[5], '\n'));
    assert(no_char("log_scale"@, '\n')) by { reveal_strlit("log_scale"); }
    lemma_kv_no_newline("log_scale"@, flag_text(s.display.log_scale));
    assert(no_char(ls[6], '\n'));
    assert(no_char("show_fps"@, '\n')) by { reveal_strlit("show_fps"); }
    lemma_kv_no_newline("show_fps"@, flag_text(s.display.show_fps));
    assert(no_char(ls[7], '\n'));
    assert(no_char("show_spectrogram_crosshair"@, '\n')) by { reveal_strlit("show_spectrogram_crosshair"); }
    lemma_kv_no_newline("show_spectrogram_crosshair"@, flag_text(s.display.show_spectrogram_crosshair));
    assert(no_char(ls[8], '\n'));
    assert(no_char("show_spectrogram_scale"@, '\n')) by { reveal_strlit("show_spectrogram_scale"); }
    lemma_kv_no_newline("show_spectrogram_scale"@, flag_text(s.display.show_spectrogram_scale));
    assert(no_char(ls[9], '\n'));
    assert(no_char("channel_buttons_visibility"@, '\n')) by { reveal_strlit("channel_buttons_visibility"); }
    lemma_kv_no_newline("channel_buttons_visibility"@, decimal(s.display.channel_buttons_visibility as nat));
    assert(no_char(ls[10], '\n'));
    assert(no_char("spectrogram_zoom_enabled"@, '\n')) by { reveal_strlit("spectrogram_zoom_enabled"); }
    lemma_kv_no_newline("spectrogram_zoom_enabled"@, flag_text(s.display.spectrogram_zoom_enabled));
    assert(no_char(ls[11], '\n'));
    assert(no_char("system_media_controls_enabled"@, '\n')) by { reveal_strlit("system_media_controls_enabled"); }
    lemma_kv_no_newline("system_media_controls_enabled"@, flag_text(s.system_media_controls_enabled));
    assert(no_char(ls[12], '\n'));
    assert(no_char("library_sort_mode"@, '\n')) by { reveal_strlit("library_sort_mode"); }
    lemma_kv_no_newline("library_sort_mode"@, decimal_int(s.sort.code() as int));
    assert(no_char(ls[13], '\n'));
    assert(no_char("lastfm_scrobbling_enabled"@, '\n')) by { reveal_strlit("lastfm_scrobbling_enabled"); }
    lemma_kv_no_newline("lastfm_scrobbling_enabled"@, flag_text(s.lastfm_scrobbling_enabled));
    assert(no_char(ls[14], '\n'));
    assert(no_char("lastfm_username"@, '\n')) by { reveal_strlit("lastfm_username"); }
    lemma_kv_no_newline("lastfm_username"@, s.lastfm_username);
    assert(no_char(ls[15], '\n'));
}

} // verus!
