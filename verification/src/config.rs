//! The persisted form of the settings.
use crate::i18n::Language;
use crate::settings::{FitMode, Settings};
use vstd::prelude::*;

verus! {

/// Persisted form of everything the F1 panel can change. The runtime form
/// (`Settings`) is derived from this on every load and is snapshot-saved on
/// changes.
#[derive(Debug)]
pub struct Config {
    pub language: Language,
    pub display: DisplayConfig,
    pub monitor: MonitorConfig,
    pub relay: RelayConfig,
    pub capture: CaptureConfig,
    pub audio: AudioConfig,
}

/// Colour channels are held as the bit patterns of single precision numbers.
#[derive(Debug)]
pub struct DisplayConfig {
    pub fit_mode: FitModeIo,
    pub show_stats: bool,
    pub background_color: [u32; 3],
}

#[derive(Debug, Clone, Copy, PartialEq, Eq, Structural)]
pub struct MonitorConfig {
    pub fullscreen: bool,
    pub borderless: bool,
    pub always_on_top: bool,
    pub hide_cursor: bool,
}

#[derive(Debug, Clone, Copy, PartialEq, Eq, Structural)]
pub struct RelayConfig {
    pub jpeg_quality: u8,
}

#[derive(Debug, Clone, Copy)]
pub struct CaptureConfig {
    pub device_index: Option<u32>,
    pub width: Option<u32>,
    pub height: Option<u32>,
    pub fps: Option<u32>,
}

#[derive(Debug)]
pub struct AudioConfig {
    pub enabled: bool,
    pub input_device: Option<String>,
    pub output_device: Option<String>,
    pub volume_percent: u32,
    pub muted: bool,
    pub delay_ms: u32,
}

#[derive(Debug, Clone, Copy, PartialEq, Eq, Structural)]
pub enum FitModeIo {
    Stretch,
    Fit,
    Fill,
}

/// The persisted name of a fit mode.
pub open spec fn fit_mode_io(m: FitMode) -> FitModeIo {
    match m {
        FitMode::Stretch => FitModeIo::Stretch,
        FitMode::Fit => FitModeIo::Fit,
        FitMode::Fill => FitModeIo::Fill,
    }
}

/// The fit mode that a persisted name stands for.
pub open spec fn fit_mode_of(m: FitModeIo) -> FitMode {
    match m {
        FitModeIo::Stretch => FitMode::Stretch,
        FitModeIo::Fit => FitMode::Fit,
        FitModeIo::Fill => FitMode::Fill,
    }
}

impl From<FitMode> for FitModeIo {
    fn from(m: FitMode) -> (r: Self) {
        match m {
            FitMode::Stretch => FitModeIo::Stretch,
            FitMode::Fit => FitModeIo::Fit,
            FitMode::Fill => FitModeIo::Fill,
        }
    }
}

impl vstd::std_specs::convert::FromSpecImpl<FitMode> for FitModeIo {
    open spec fn obeys_from_spec() -> bool {
        true
    }

    open spec fn from_spec(m: FitMode) -> Self {
        fit_mode_io(m)
    }
}

impl From<FitModeIo> for FitMode {
    fn from(m: FitModeIo) -> (r: Self) {
        match m {
            FitModeIo::Stretch => FitMode::Stretch,
            FitModeIo::Fit => FitMode::Fit,
            FitModeIo::Fill => FitMode::Fill,
        }
    }
}

impl vstd::std_specs::convert::FromSpecImpl<FitModeIo> for FitMode {
    open spec fn obeys_from_spec() -> bool {
        true
    }

    open spec fn from_spec(m: FitModeIo) -> Self {
        fit_mode_of(m)
    }
}

impl Clone for AudioConfig {
    fn clone(&self) -> (r: Self)
        ensures
            r == *self,
    {
        AudioConfig {
            enabled: self.enabled,
            input_device: clone_name(&self.input_device),
            output_device: clone_name(&self.output_device),
            volume_percent: self.volume_percent,
            muted: self.muted,
            delay_ms: self.delay_ms,
        }
    }
}

/// A copy of an optional device name.
fn clone_name(name: &Option<String>) -> (r: Option<String>)
    ensures
        r == *name,
{
    match name {
        Some(s) => Some(s.clone()),
        None => None,
    }
}

impl Clone for DisplayConfig {
    fn clone(&self) -> (r: Self)
        ensures
            r == *self,
    {
        DisplayConfig {
            fit_mode: self.fit_mode,
            show_stats: self.show_stats,
            background_color: self.background_color,
        }
    }
}

impl Clone for Config {
    fn clone(&self) -> (r: Self)
        ensures
            r == *self,
    {
        Config {
            language: self.language,
            display: self.display.clone(),
            monitor: self.monitor,
            relay: self.relay,
            capture: self.capture,
            audio: self.audio.clone(),
        }
    }
}

impl DisplayConfig {
    /// The display section of a first start.
    pub open spec fn initial(self) -> bool {
        &&& self.fit_mode == FitModeIo::Fit
        &&& self.show_stats
        &&& self.background_color@ == seq![0u32, 0u32, 0u32]
    }
}

impl MonitorConfig {
    /// The monitor section of a first start.
    pub open spec fn initial(self) -> bool {
        !self.fullscreen && !self.borderless && !self.always_on_top && !self.hide_cursor
    }
}

impl CaptureConfig {
    /// The capture section of a first start: everything left to the device.
    pub open spec fn initial(self) -> bool {
        &&& self.device_index is None
        &&& self.width is None
        &&& self.height is None
        &&& self.fps is None
    }
}

impl AudioConfig {
    /// The audio section of a first start.
    pub open spec fn initial(self) -> bool {
        &&& !self.enabled
        &&& self.input_device is None
        &&& self.output_device is None
        &&& self.volume_percent == 100
        &&& !self.muted
        &&& self.delay_ms == 100
    }
}

impl Config {
    /// The configuration of a first start.
    pub open spec fn initial(self) -> bool {
        &&& self.language == Language::German
        &&& self.display.initial()
        &&& self.monitor.initial()
        &&& self.relay.jpeg_quality == 75
        &&& self.capture.initial()
        &&& self.audio.initial()
    }
}

impl Default for Config {
    fn default() -> (c: Self)
        ensures
            c.initial(),
    {
        let s = Settings::default();
        Config {
            language: s.language,
            display: DisplayConfig {
                fit_mode: FitModeIo::from(s.fit_mode),
                show_stats: s.show_stats,
                background_color: s.background_color,
            },
            monitor: MonitorConfig {
                fullscreen: s.fullscreen,
                borderless: s.borderless,
                always_on_top: s.always_on_top,
                hide_cursor: s.hide_cursor,
            },
            relay: RelayConfig { jpeg_quality: s.jpeg_quality },
            capture: CaptureConfig::default(),
            audio: AudioConfig::default(),
        }
    }
}

impl Default for DisplayConfig {
    fn default() -> (c: Self)
        ensures
            c.initial(),
    {
        let s = Settings::default();
        DisplayConfig {
            fit_mode: FitModeIo::from(s.fit_mode),
            show_stats: s.show_stats,
            background_color: s.background_color,
        }
    }
}

impl Default for MonitorConfig {
    fn default() -> (c: Self)
        ensures
            c.initial(),
    {
        let s = Settings::default();
        MonitorConfig {
            fullscreen: s.fullscreen,
            borderless: s.borderless,
            always_on_top: s.always_on_top,
            hide_cursor: s.hide_cursor,
        }
    }
}

impl Default for RelayConfig {
    fn default() -> (c: Self)
        ensures
            c.jpeg_quality == 75,
    {
        RelayConfig { jpeg_quality: 75 }
    }
}

impl Default for CaptureConfig {
    fn default() -> (c: Self)
        ensures
            c.initial(),
    {
        CaptureConfig { device_index: None, width: None, height: None, fps: None }
    }
}

impl Default for AudioConfig {
    fn default() -> (c: Self)
        ensures
            c.initial(),
    {
        AudioConfig {
            enabled: false,
            input_device: None,
            output_device: None,
            volume_percent: 100,
            muted: false,
            delay_ms: 100,
        }
    }
}

/// What was found where the configuration is kept.
pub enum ConfigSource {
    /// The configuration directory could not be resolved.
    NoDirectory,
    /// There is no file yet.
    Missing,
    /// The file could not be read.
    Unreadable,
    /// The file could not be parsed.
    Malformed,
    /// The file was read and parsed.
    Parsed(Config),
}

/// The configuration to start with: the one that was found, or the defaults
/// where none could be had.
pub fn load(source: ConfigSource) -> (c: Config)
    ensures
        match source {
            ConfigSource::Parsed(found) => c == found,
            _ => c.initial(),
        },
{
    match source {
        ConfigSource::Parsed(found) => found,
        _ => Config::default(),
    }
}

/// The runtime settings that `cfg` stands for, the panel closed.
pub open spec fn settings_of(cfg: Config) -> Settings {
    Settings {
        show_panel: false,
        show_stats: cfg.display.show_stats,
        fit_mode: fit_mode_of(cfg.display.fit_mode),
        background_color: cfg.display.background_color,
        jpeg_quality: cfg.relay.jpeg_quality,
        fullscreen: cfg.monitor.fullscreen,
        borderless: cfg.monitor.borderless,
        always_on_top: cfg.monitor.always_on_top,
        hide_cursor: cfg.monitor.hide_cursor,
        language: cfg.language,
    }
}

/// What is saved for the settings `s` with the given capture and audio parts.
pub open spec fn config_of(s: Settings, capture: CaptureConfig, audio: AudioConfig) -> Config {
    Config {
        language: s.language,
        display: DisplayConfig {
            fit_mode: fit_mode_io(s.fit_mode),
            show_stats: s.show_stats,
            background_color: s.background_color,
        },
        monitor: MonitorConfig {
            fullscreen: s.fullscreen,
            borderless: s.borderless,
            always_on_top: s.always_on_top,
            hide_cursor: s.hide_cursor,
        },
        relay: RelayConfig { jpeg_quality: s.jpeg_quality },
        capture,
        audio,
    }
}

/// Build a runtime `Settings` from a persisted `Config`. The `show_panel`
/// field is always reset to false so the user sees video on launch.
pub fn settings_from_config(cfg: &Config) -> (s: Settings)
    ensures
        s == settings_of(*cfg),
{
    Settings {
        show_panel: false,
        show_stats: cfg.display.show_stats,
        fit_mode: FitMode::from(cfg.display.fit_mode),
        background_color: cfg.display.background_color,
        jpeg_quality: cfg.relay.jpeg_quality,
        fullscreen: cfg.monitor.fullscreen,
        borderless: cfg.monitor.borderless,
        always_on_top: cfg.monitor.always_on_top,
        hide_cursor: cfg.monitor.hide_cursor,
        language: cfg.language,
    }
}

/// Snapshot the runtime state back into a `Config` shape for saving.
pub fn config_from_runtime(s: &Settings, capture: &CaptureConfig, audio: &AudioConfig) -> (c:
    Config)
    ensures
        c == config_of(*s, *capture, *audio),
{
    Config {
        language: s.language,
        display: DisplayConfig {
            fit_mode: FitModeIo::from(s.fit_mode),
            show_stats: s.show_stats,
            background_color: s.background_color,
        },
        monitor: MonitorConfig {
            fullscreen: s.fullscreen,
            borderless: s.borderless,
            always_on_top: s.always_on_top,
            hide_cursor: s.hide_cursor,
        },
        relay: RelayConfig { jpeg_quality: s.jpeg_quality },
        capture: *capture,
        audio: audio.clone(),
    }
}

/// A fit mode survives being saved, and its name survives being loaded.
pub proof fn law_fit_mode_round_trip(m: FitMode, io: FitModeIo)
    ensures
        fit_mode_of(fit_mode_io(m)) == m,
        fit_mode_io(fit_mode_of(io)) == io,
{
}

/// Settings that are saved and loaded come back as they were, with the panel
/// closed.
pub proof fn law_saved_settings_come_back(s: Settings, capture: CaptureConfig, audio: AudioConfig)
    ensures
        settings_of(config_of(s, capture, audio)) == (Settings { show_panel: false, ..s }),
{
    law_fit_mode_round_trip(s.fit_mode, FitModeIo::Fit);
}

/// A configuration that is loaded and saved without a change stays the same.
pub proof fn law_unchanged_config_stays(cfg: Config)
    ensures
        config_of(settings_of(cfg), cfg.capture, cfg.audio) == cfg,
{
    law_fit_mode_round_trip(FitMode::Fit, cfg.display.fit_mode);
}

/// The default configuration stands for the default settings.
pub proof fn law_defaults_agree(cfg: Config)
    requires
        cfg.initial(),
    ensures
        settings_of(cfg).initial(),
{
}

/// Each setting is read from the entry of its own name.
pub proof fn law_each_setting_has_its_entry(cfg: Config)
    ensures
        ({
            let s = settings_of(cfg);
            &&& !s.show_panel
            &&& s.show_stats == cfg.display.show_stats
            &&& s.fit_mode is Stretch <==> cfg.display.fit_mode is Stretch
            &&& s.fit_mode is Fit <==> cfg.display.fit_mode is Fit
            &&& s.fit_mode is Fill <==> cfg.display.fit_mode is Fill
            &&& s.background_color == cfg.display.background_color
            &&& s.jpeg_quality == cfg.relay.jpeg_quality
            &&& s.fullscreen == cfg.monitor.fullscreen
            &&& s.borderless == cfg.monitor.borderless
            &&& s.always_on_top == cfg.monitor.always_on_top
            &&& s.hide_cursor == cfg.monitor.hide_cursor
            &&& s.language == cfg.language
        }),
{
}

/// Each setting is saved in the entry of its own name, and the capture and audio
/// parts as they are.
pub proof fn law_each_setting_is_saved(s: Settings, capture: CaptureConfig, audio: AudioConfig)
    ensures
        ({
            let c = config_of(s, capture, audio);
            &&& c.display.show_stats == s.show_stats
            &&& c.display.fit_mode is Stretch <==> s.fit_mode is Stretch
            &&& c.display.fit_mode is Fit <==> s.fit_mode is Fit
            &&& c.display.fit_mode is Fill <==> s.fit_mode is Fill
            &&& c.display.background_color == s.background_color
            &&& c.relay.jpeg_quality == s.jpeg_quality
            &&& c.monitor.fullscreen == s.fullscreen
            &&& c.monitor.borderless == s.borderless
            &&& c.monitor.always_on_top == s.always_on_top
            &&& c.monitor.hide_cursor == s.hide_cursor
            &&& c.language == s.language
            &&& c.capture == capture
            &&& c.audio == audio
        }),
{
}

/// A first start leaves the capture to the device and the audio off, and shows a
/// plain window with the picture fitted into it.
pub proof fn law_first_start_is_plain(c: Config)
    requires
        c.initial(),
    ensures
        c.capture.device_index is None && c.capture.width is None && c.capture.height is None
            && c.capture.fps is None,
        !c.audio.enabled && !c.audio.muted,
        c.audio.input_device is None && c.audio.output_device is None,
        c.audio.volume_percent == 100,
        c.audio.delay_ms == 100,
        c.relay.jpeg_quality == 75,
        c.display.fit_mode is Fit && c.display.show_stats,
        c.display.background_color@ == seq![0u32, 0u32, 0u32],
        !c.monitor.fullscreen && !c.monitor.borderless && !c.monitor.always_on_top
            && !c.monitor.hide_cursor,
        c.language is German,
{
}

} // verus!
