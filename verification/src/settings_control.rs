//! What a settings command changes, and what it asks of the playback
//! engine, the analysis engine and the scrobbling service.
use vstd::prelude::*;

use crate::bridge::BridgeSettingsCommand;
use crate::lastfm::{AuthState, Command, RuntimeState};
use crate::modes::{SpectrogramDisplayMode, SpectrogramViewMode};
use crate::settings::{
    clamp_fft_size, clamped_db_range_bits, clamped_volume_bits, f32_bits_clamped, fft_size_for,
    BridgeDisplaySettings, BridgeSettings, SettingsView, DB_RANGE_MAX_BITS, DB_RANGE_MIN_BITS,
    VOLUME_MAX_BITS, VOLUME_MIN_BITS,
};
use crate::text::{string_from_chars, trim, trim_str};

verus! {

/// Work a settings command hands on.
#[derive(Debug, Clone)]
pub enum SettingsAction {
    /// Read the settings file, then apply `settings_loaded`.
    LoadFromDisk,
    /// Write the settings file.
    SaveToDisk,
    /// The new volume, as the bits of an `f32` in 0..=1.
    PlaybackSetVolume(u32),
    AnalysisSetFftSize(usize),
    AnalysisSetViewMode(SpectrogramViewMode),
    AnalysisSetDisplayMode(SpectrogramDisplayMode),
    LastFm(Command),
}

pub enum ActionView {
    LoadFromDisk,
    SaveToDisk,
    PlaybackSetVolume(u32),
    AnalysisSetFftSize(usize),
    AnalysisSetViewMode(SpectrogramViewMode),
    AnalysisSetDisplayMode(SpectrogramDisplayMode),
    LastFmSetEnabled(bool),
    LastFmLoadStoredSession(Seq<char>),
    LastFmBeginAuth,
    LastFmCompleteAuth,
    LastFmDisconnect(bool),
    Other,
}

pub open spec fn action_view(a: SettingsAction) -> ActionView {
    match a {
        SettingsAction::LoadFromDisk => ActionView::LoadFromDisk,
        SettingsAction::SaveToDisk => ActionView::SaveToDisk,
        SettingsAction::PlaybackSetVolume(b) => ActionView::PlaybackSetVolume(b),
        SettingsAction::AnalysisSetFftSize(n) => ActionView::AnalysisSetFftSize(n),
        SettingsAction::AnalysisSetViewMode(m) => ActionView::AnalysisSetViewMode(m),
        SettingsAction::AnalysisSetDisplayMode(m) => ActionView::AnalysisSetDisplayMode(m),
        SettingsAction::LastFm(c) => match c {
            Command::SetEnabled(e) => ActionView::LastFmSetEnabled(e),
            Command::LoadStoredSession { username } => ActionView::LastFmLoadStoredSession(username@),
            Command::BeginDesktopAuth => ActionView::LastFmBeginAuth,
            Command::CompleteDesktopAuth => ActionView::LastFmCompleteAuth,
            Command::Disconnect { clear_queue } => ActionView::LastFmDisconnect(clear_queue),
            _ => ActionView::Other,
        },
    }
}

pub open spec fn actions_view(v: Seq<SettingsAction>) -> Seq<ActionView> {
    v.map_values(|a: SettingsAction| action_view(a))
}

/// The settings after a command. Volume is clamped to 0..=1, dB range to
/// 50..=150, FFT size to a power of two in 512..=8192 and the channel-button
/// visibility to 0..=2.
pub open spec fn settings_after(cmd: BridgeSettingsCommand, s: SettingsView) -> SettingsView {
    let d = s.display;
    match cmd {
        BridgeSettingsCommand::SetVolume(b) => SettingsView {
            volume_bits: f32_bits_clamped(b, VOLUME_MIN_BITS, VOLUME_MAX_BITS),
            ..s
        },
        BridgeSettingsCommand::SetFftSize(n) => SettingsView { fft_size: fft_size_for(n as nat), ..s },
        BridgeSettingsCommand::SetSpectrogramViewMode(m) => SettingsView { view_mode: m, ..s },
        BridgeSettingsCommand::SetSpectrogramDisplayMode(m) => SettingsView { display_mode: m, ..s },
        BridgeSettingsCommand::SetViewerFullscreenMode(m) => SettingsView { fullscreen: m, ..s },
        BridgeSettingsCommand::SetDbRange(b) => SettingsView {
            db_range_bits: f32_bits_clamped(b, DB_RANGE_MIN_BITS, DB_RANGE_MAX_BITS),
            ..s
        },
        BridgeSettingsCommand::SetLogScale(v) => SettingsView {
            display: BridgeDisplaySettings { log_scale: v, ..d },
            ..s
        },
        BridgeSettingsCommand::SetShowFps(v) => SettingsView {
            display: BridgeDisplaySettings { show_fps: v, ..d },
            ..s
        },
        BridgeSettingsCommand::SetShowSpectrogramCrosshair(v) => SettingsView {
            display: BridgeDisplaySettings { show_spectrogram_crosshair: v, ..d },
            ..s
        },
        BridgeSettingsCommand::SetShowSpectrogramScale(v) => SettingsView {
            display: BridgeDisplaySettings { show_spectrogram_scale: v, ..d },
            ..s
        },
        BridgeSettingsCommand::SetChannelButtonsVisibility(v) => SettingsView {
            display: BridgeDisplaySettings {
                channel_buttons_visibility: if v <= 2 { v } else { 2 },
                ..d
            },
            ..s
        },
        BridgeSettingsCommand::SetSpectrogramZoomEnabled(v) => SettingsView {
            display: BridgeDisplaySettings { spectrogram_zoom_enabled: v, ..d },
            ..s
        },
        BridgeSettingsCommand::SetSystemMediaControlsEnabled(v) => SettingsView {
            system_media_controls_enabled: v,
            ..s
        },
        BridgeSettingsCommand::SetLibrarySortMode(m) => SettingsView { sort: m, ..s },
        BridgeSettingsCommand::SetLastFmScrobblingEnabled(v) => SettingsView {
            lastfm_scrobbling_enabled: v,
            ..s
        },
        BridgeSettingsCommand::DisconnectLastFm => SettingsView { lastfm_username: Seq::empty(), ..s },
        _ => s,
    }
}

/// Whether the settings must be written out after the command: every
/// command that changes a setting marks them so, saving clears the mark,
/// and the others leave it.
pub open spec fn dirty_after(cmd: BridgeSettingsCommand, dirty: bool) -> bool {
    match cmd {
        BridgeSettingsCommand::LoadFromDisk => dirty,
        BridgeSettingsCommand::SaveToDisk => false,
        BridgeSettingsCommand::BeginLastFmAuth => dirty,
        BridgeSettingsCommand::CompleteLastFmAuth => dirty,
        _ => true,
    }
}

/// The work a command hands on.
pub open spec fn settings_actions(cmd: BridgeSettingsCommand, s: SettingsView) -> Seq<ActionView> {
    match cmd {
        BridgeSettingsCommand::LoadFromDisk => seq![ActionView::LoadFromDisk],
        BridgeSettingsCommand::SaveToDisk => seq![ActionView::SaveToDisk],
        BridgeSettingsCommand::SetVolume(b) => seq![
            ActionView::PlaybackSetVolume(f32_bits_clamped(b, VOLUME_MIN_BITS, VOLUME_MAX_BITS)),
        ],
        BridgeSettingsCommand::SetFftSize(n) => seq![ActionView::AnalysisSetFftSize(fft_size_for(n as nat))],
        BridgeSettingsCommand::SetSpectrogramViewMode(m) => seq![ActionView::AnalysisSetViewMode(m)],
        BridgeSettingsCommand::SetSpectrogramDisplayMode(m) => seq![ActionView::AnalysisSetDisplayMode(m)],
        BridgeSettingsCommand::SetLastFmScrobblingEnabled(v) => seq![ActionView::LastFmSetEnabled(v)],
        BridgeSettingsCommand::BeginLastFmAuth => seq![ActionView::LastFmBeginAuth],
        BridgeSettingsCommand::CompleteLastFmAuth => seq![ActionView::LastFmCompleteAuth],
        BridgeSettingsCommand::DisconnectLastFm => seq![ActionView::LastFmDisconnect(true)],
        _ => Seq::empty(),
    }
}

/// Commands that only change a setting (and perhaps tell an engine).
pub open spec fn is_plain(cmd: BridgeSettingsCommand) -> bool {
    !(cmd is LoadFromDisk || cmd is SaveToDisk || cmd is SetLastFmScrobblingEnabled
        || cmd is BeginLastFmAuth || cmd is CompleteLastFmAuth || cmd is DisconnectLastFm)
}

/// Commands that change a setting some engine follows.
pub open spec fn is_engine_setting(cmd: BridgeSettingsCommand) -> bool {
    cmd is SetVolume || cmd is SetFftSize || cmd is SetSpectrogramViewMode
        || cmd is SetSpectrogramDisplayMode
}

fn apply_engine_setting(cmd: BridgeSettingsCommand, settings: &mut BridgeSettings) -> (r: SettingsAction)
    requires
        is_engine_setting(cmd),
    ensures
        final(settings)@ == settings_after(cmd, old(settings)@),
        settings_actions(cmd, old(settings)@) == seq![action_view(r)],
{
    match cmd {
        BridgeSettingsCommand::SetVolume(b) => {
            let v = clamped_volume_bits(b);
            settings.volume_bits = v;
            SettingsAction::PlaybackSetVolume(v)
        },
        BridgeSettingsCommand::SetFftSize(n) => {
            let fft = clamp_fft_size(n);
            settings.fft_size = fft;
            SettingsAction::AnalysisSetFftSize(fft)
        },
        BridgeSettingsCommand::SetSpectrogramViewMode(m) => {
            settings.spectrogram_view_mode = m;
            SettingsAction::AnalysisSetViewMode(m)
        },
        _ => {
            let m = match cmd {
                BridgeSettingsCommand::SetSpectrogramDisplayMode(m) => m,
                _ => SpectrogramDisplayMode::Rolling,
            };
            settings.spectrogram_display_mode = m;
            SettingsAction::AnalysisSetDisplayMode(m)
        },
    }
}

/// Commands about what the analysis views show.
pub open spec fn is_display_setting(cmd: BridgeSettingsCommand) -> bool {
    cmd is SetLogScale || cmd is SetShowFps || cmd is SetShowSpectrogramCrosshair
        || cmd is SetShowSpectrogramScale || cmd is SetChannelButtonsVisibility
        || cmd is SetSpectrogramZoomEnabled
}

fn new_display(cmd: BridgeSettingsCommand, d: BridgeDisplaySettings) -> (r: BridgeDisplaySettings)
    requires
        is_display_setting(cmd),
    ensures
        forall|s: SettingsView| s.display == d ==> #[trigger] settings_after(cmd, s) == (SettingsView { display: r, ..s }),
{
    match cmd {
        BridgeSettingsCommand::SetLogScale(v) => BridgeDisplaySettings { log_scale: v, ..d },
        BridgeSettingsCommand::SetShowFps(v) => BridgeDisplaySettings { show_fps: v, ..d },
        BridgeSettingsCommand::SetShowSpectrogramCrosshair(v) => BridgeDisplaySettings {
            show_spectrogram_crosshair: v,
            ..d
        },
        BridgeSettingsCommand::SetShowSpectrogramScale(v) => BridgeDisplaySettings {
            show_spectrogram_scale: v,
            ..d
        },
        BridgeSettingsCommand::SetChannelButtonsVisibility(v) => BridgeDisplaySettings {
            channel_buttons_visibility: if v <= 2 { v } else { 2 },
            ..d
        },
        BridgeSettingsCommand::SetSpectrogramZoomEnabled(v) => BridgeDisplaySettings {
            spectrogram_zoom_enabled: v,
            ..d
        },
        _ => d,
    }
}

fn apply_silent_setting(cmd: BridgeSettingsCommand, settings: &mut BridgeSettings)
    requires
        is_plain(cmd),
        !is_engine_setting(cmd),
    ensures
        final(settings)@ == settings_after(cmd, old(settings)@),
        settings_actions(cmd, old(settings)@) == Seq::<ActionView>::empty(),
{
    let is_display = match cmd {
        BridgeSettingsCommand::SetLogScale(_) => true,
        BridgeSettingsCommand::SetShowFps(_) => true,
        BridgeSettingsCommand::SetShowSpectrogramCrosshair(_) => true,
        BridgeSettingsCommand::SetShowSpectrogramScale(_) => true,
        BridgeSettingsCommand::SetChannelButtonsVisibility(_) => true,
        BridgeSettingsCommand::SetSpectrogramZoomEnabled(_) => true,
        _ => false,
    };
    if is_display {
        let d = new_display(cmd, settings.display);
        settings.display = d;
        return;
    }
    match cmd {
        BridgeSettingsCommand::SetViewerFullscreenMode(m) => {
            settings.viewer_fullscreen_mode = m;
        },
        BridgeSettingsCommand::SetDbRange(b) => {
            settings.db_range_bits = clamped_db_range_bits(b);
        },
        BridgeSettingsCommand::SetSystemMediaControlsEnabled(v) => {
            settings.integrations.system_media_controls_enabled = v;
        },
        BridgeSettingsCommand::SetLibrarySortMode(m) => {
            settings.library_sort_mode = m;
        },
        _ => {},
    }
}

fn apply_plain_setting(cmd: BridgeSettingsCommand, settings: &mut BridgeSettings) -> (r: Option<
    SettingsAction,
>)
    requires
        is_plain(cmd),
    ensures
        final(settings)@ == settings_after(cmd, old(settings)@),
        match r {
            Some(a) => settings_actions(cmd, old(settings)@) == seq![action_view(a)],
            None => settings_actions(cmd, old(settings)@) == Seq::<ActionView>::empty(),
        },
{
    let engine = match cmd {
        BridgeSettingsCommand::SetVolume(_) => true,
        BridgeSettingsCommand::SetFftSize(_) => true,
        BridgeSettingsCommand::SetSpectrogramViewMode(_) => true,
        BridgeSettingsCommand::SetSpectrogramDisplayMode(_) => true,
        _ => false,
    };
    if engine {
        Some(apply_engine_setting(cmd, settings))
    } else {
        apply_silent_setting(cmd, settings);
        None
    }
}

/// Applies a settings command (see `settings_after`, `dirty_after` and
/// `settings_actions`); switching scrobbling mirrors the switch into the
/// scrobbling state, and disconnecting forgets the account there too.
pub fn handle_settings_command(
    cmd: BridgeSettingsCommand,
    settings: &mut BridgeSettings,
    lastfm: &mut RuntimeState,
    dirty: &mut bool,
) -> (actions: Vec<SettingsAction>)
    ensures
        final(settings)@ == settings_after(cmd, old(settings)@),
        *final(dirty) == dirty_after(cmd, *old(dirty)),
        actions_view(actions@) == settings_actions(cmd, old(settings)@),
        final(lastfm).enabled == match cmd {
            BridgeSettingsCommand::SetLastFmScrobblingEnabled(v) => v,
            _ => old(lastfm).enabled,
        },
        cmd is DisconnectLastFm ==> final(lastfm).username@.len() == 0 && final(lastfm).auth_url@.len()
            == 0 && final(lastfm).auth_state == AuthState::Disconnected,
        !(cmd is DisconnectLastFm) ==> final(lastfm).username == old(lastfm).username
            && final(lastfm).auth_url == old(lastfm).auth_url && final(lastfm).auth_state == old(
            lastfm,
        ).auth_state,
        final(lastfm).build_configured == old(lastfm).build_configured,
        final(lastfm).pending_scrobble_count == old(lastfm).pending_scrobble_count,
        final(lastfm).status_text == old(lastfm).status_text,
{
    let mut actions: Vec<SettingsAction> = Vec::new();
    let action = match cmd {
        BridgeSettingsCommand::LoadFromDisk => Some(SettingsAction::LoadFromDisk),
        BridgeSettingsCommand::SaveToDisk => {
            *dirty = false;
            Some(SettingsAction::SaveToDisk)
        },
        BridgeSettingsCommand::SetLastFmScrobblingEnabled(v) => {
            settings.integrations.lastfm_scrobbling_enabled = v;
            lastfm.enabled = v;
            *dirty = true;
            Some(SettingsAction::LastFm(Command::SetEnabled(v)))
        },
        BridgeSettingsCommand::BeginLastFmAuth => Some(SettingsAction::LastFm(Command::BeginDesktopAuth)),
        BridgeSettingsCommand::CompleteLastFmAuth => Some(
            SettingsAction::LastFm(Command::CompleteDesktopAuth),
        ),
        BridgeSettingsCommand::DisconnectLastFm => {
            settings.integrations.lastfm_username = String::new();
            lastfm.username = String::new();
            lastfm.auth_url = String::new();
            lastfm.auth_state = AuthState::Disconnected;
            *dirty = true;
            Some(SettingsAction::LastFm(Command::Disconnect { clear_queue: true }))
        },
        _ => {
            *dirty = true;
            apply_plain_setting(cmd, settings)
        },
    };
    match action {
        Some(a) => {
            actions.push(a);
        },
        None => {},
    }
    assert(actions_view(actions@) =~= settings_actions(cmd, old(settings)@));
    actions
}

/// What follows reading the settings file: the scrobbling switch is
/// mirrored into the scrobbling state; the volume goes to playback; the
/// display mode, FFT size and channel layout go to analysis, in that order;
/// the scrobbling switch goes to the scrobbling service, and the stored
/// account is loaded when there is one.
pub open spec fn loaded_actions(s: SettingsView) -> Seq<ActionView> {
    let base = seq![
        ActionView::PlaybackSetVolume(s.volume_bits),
        ActionView::AnalysisSetDisplayMode(s.display_mode),
        ActionView::AnalysisSetFftSize(s.fft_size),
        ActionView::AnalysisSetViewMode(s.view_mode),
        ActionView::LastFmSetEnabled(s.lastfm_scrobbling_enabled),
    ];
    if trim(s.lastfm_username).len() > 0 {
        base.push(ActionView::LastFmLoadStoredSession(s.lastfm_username))
    } else {
        base
    }
}

pub fn settings_loaded(settings: &BridgeSettings, lastfm: &mut RuntimeState) -> (actions: Vec<
    SettingsAction,
>)
    ensures
        actions_view(actions@) == loaded_actions(settings@),
        final(lastfm).enabled == settings.integrations.lastfm_scrobbling_enabled,
        final(lastfm).username == old(lastfm).username,
        final(lastfm).auth_url == old(lastfm).auth_url,
        final(lastfm).auth_state == old(lastfm).auth_state,
        final(lastfm).build_configured == old(lastfm).build_configured,
        final(lastfm).pending_scrobble_count == old(lastfm).pending_scrobble_count,
        final(lastfm).status_text == old(lastfm).status_text,
{
    lastfm.enabled = settings.integrations.lastfm_scrobbling_enabled;
    let mut actions: Vec<SettingsAction> = Vec::new();
    actions.push(SettingsAction::PlaybackSetVolume(settings.volume_bits));
    actions.push(SettingsAction::AnalysisSetDisplayMode(settings.spectrogram_display_mode));
    actions.push(SettingsAction::AnalysisSetFftSize(settings.fft_size));
    actions.push(SettingsAction::AnalysisSetViewMode(settings.spectrogram_view_mode));
    actions.push(
        SettingsAction::LastFm(Command::SetEnabled(settings.integrations.lastfm_scrobbling_enabled)),
    );
    let name = trim_str(settings.integrations.lastfm_username.as_str());
    if name.len() > 0 {
        let username = settings.integrations.lastfm_username.clone();
        actions.push(SettingsAction::LastFm(Command::LoadStoredSession { username }));
    }
    assert(actions_view(actions@) =~= loaded_actions(settings@));
    actions
}

/// Any change of a setting marks the settings for saving until they are
/// saved: after a command that changes a setting they are marked, after a
/// save they are not.
pub proof fn law_changes_mark_settings_dirty(cmd: BridgeSettingsCommand, s: SettingsView, dirty: bool)
    ensures
        settings_after(cmd, s) != s ==> dirty_after(cmd, dirty),
        cmd is SaveToDisk ==> !dirty_after(cmd, dirty),
{
}

} // verus!
