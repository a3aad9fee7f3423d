use video_capture_share::audio_state::AudioState;
use video_capture_share::config::{
    config_from_runtime, load, settings_from_config, AudioConfig, CaptureConfig, Config,
    ConfigSource, DisplayConfig, FitModeIo, MonitorConfig, RelayConfig,
};
use video_capture_share::i18n::{strings, Language};
use video_capture_share::panel::{
    app_load_line, apply_label, audio_line, firewall_hint, fit_label, relay_host, short, stats_line,
    system_load_line, RelayPanel,
};
use video_capture_share::perf::{PerfMetrics, ProcessSample, SystemSnapshot};
use video_capture_share::settings::{CaptureInfo, FitMode, Settings};
use video_capture_share::text::push_decimal;

#[test]
fn defaults() {
    let c = Config::default();
    assert_eq!(c.language, Language::German);
    assert_eq!(c.display.fit_mode, FitModeIo::Fit);
    assert!(c.display.show_stats);
    assert_eq!(c.relay.jpeg_quality, 75);
    assert_eq!(c.capture.device_index, None);
    assert_eq!(c.audio.volume_percent, 100);
    assert_eq!(c.audio.delay_ms, 100);
    assert!(!c.audio.enabled);
    assert_eq!(RelayConfig::default().jpeg_quality, 75);
    assert!(!MonitorConfig::default().fullscreen);
    assert_eq!(DisplayConfig::default().background_color, [0, 0, 0]);
    assert_eq!(CaptureConfig::default().fps, None);
    assert_eq!(AudioConfig::default().input_device, None);
    let s = settings_from_config(&c);
    let d = Settings::default();
    assert_eq!((s.show_panel, s.show_stats, s.fit_mode), (d.show_panel, d.show_stats, d.fit_mode));
    assert_eq!((s.jpeg_quality, s.language), (d.jpeg_quality, d.language));
}

#[test]
fn settings_survive_being_saved() {
    let mut s = Settings::default();
    s.show_panel = true;
    s.fit_mode = FitMode::Fill;
    s.background_color = [0.5f32.to_bits(), 0, 1.0f32.to_bits()];
    s.jpeg_quality = 12;
    s.hide_cursor = true;
    s.language = Language::SimplifiedChinese;
    let capture = CaptureConfig { device_index: Some(3), width: None, height: Some(720), fps: None };
    let audio = AudioConfig { input_device: Some("in".to_string()), ..AudioConfig::default() };
    let c = config_from_runtime(&s, &capture, &audio);
    assert_eq!(c.display.fit_mode, FitModeIo::Fill);
    assert_eq!(c.capture.height, Some(720));
    assert_eq!(c.audio.input_device.as_deref(), Some("in"));
    let back = settings_from_config(&c);
    assert!(!back.show_panel);
    assert_eq!(back.fit_mode, FitMode::Fill);
    assert_eq!(back.background_color, s.background_color);
    assert_eq!(back.jpeg_quality, 12);
    assert!(back.hide_cursor);
    assert_eq!(back.language, Language::SimplifiedChinese);
}

#[test]
fn an_unchanged_config_stays() {
    let mut c = Config::default();
    c.language = Language::English;
    c.display.fit_mode = FitModeIo::Stretch;
    c.monitor.borderless = true;
    c.audio.output_device = Some("out".to_string());
    let again = config_from_runtime(&settings_from_config(&c), &c.capture, &c.audio);
    assert_eq!(again.language, c.language);
    assert_eq!(again.display.fit_mode, c.display.fit_mode);
    assert_eq!(again.monitor, c.monitor);
    assert_eq!(again.relay, c.relay);
    assert_eq!(again.audio.output_device, c.audio.output_device);
}

#[test]
fn fit_mode_names() {
    for m in [FitMode::Stretch, FitMode::Fit, FitMode::Fill] {
        assert_eq!(FitMode::from(FitModeIo::from(m)), m);
    }
}

#[test]
fn loading() {
    for source in [
        ConfigSource::NoDirectory,
        ConfigSource::Missing,
        ConfigSource::Unreadable,
        ConfigSource::Malformed,
    ] {
        assert_eq!(load(source).relay.jpeg_quality, 75);
    }
    let mut c = Config::default();
    c.relay.jpeg_quality = 30;
    assert_eq!(load(ConfigSource::Parsed(c)).relay.jpeg_quality, 30);
}

#[test]
fn languages() {
    assert_eq!(Language::default(), Language::German);
    let labels: Vec<&str> = Language::all().iter().map(|l| l.label_native()).collect();
    assert_eq!(labels, vec!["Deutsch", "English", "简体中文"]);
    assert_eq!(strings(Language::German).close, "Schließen");
    assert_eq!(strings(Language::English).close, "Close");
    assert_eq!(strings(Language::SimplifiedChinese).close, "关闭");
}

#[test]
fn decimals() {
    for n in [0u64, 9, 10, 109, 4096, u64::MAX] {
        let mut s = String::from("<");
        push_decimal(&mut s, n);
        assert_eq!(s, format!("<{n}"));
        assert_eq!(s[1..].parse::<u64>(), Ok(n));
    }
}

#[test]
fn panel_lines() {
    let t = strings(Language::English);
    let info = CaptureInfo { fps_target: 60, format_label: "YUYV".to_string() };
    assert_eq!(stats_line(&t, &info), format!("{} 60 fps  YUYV", t.stats_target));
    let mut a = AudioState::new(0);
    a.sample_rate = 48000;
    a.channels = 2;
    a.buffered_samples = 9600;
    assert_eq!(
        audio_line(&t, &a),
        format!("48000 Hz, 2 {}, {} 100 ms", t.audio_status_channels, t.audio_status_buffered)
    );
    assert_eq!(
        app_load_line(&t, "  1.5", 33),
        format!("{}   1.5 %   {} 33 MB", t.perf_app_cpu, t.perf_app_ram)
    );
    let s = SystemSnapshot { total_cpu_percent: 0, used_memory_mb: 5, total_memory_mb: 16 };
    assert_eq!(
        system_load_line(&t, "10.0", &s),
        format!("{} 10.0 %   {} 5 / 16 MB", t.perf_system_cpu, t.perf_system_ram)
    );
    assert_eq!(fit_label(&t, FitMode::Stretch), t.fit_stretch);
    assert_eq!(fit_label(&t, FitMode::Fit), t.fit_fit);
    assert_eq!(fit_label(&t, FitMode::Fill), t.fit_fill);
    assert_eq!(apply_label(&t, true), t.apply);
    assert_eq!(apply_label(&t, false), t.applied);
}

#[test]
fn short_names() {
    let fits = "x".repeat(48);
    assert_eq!(short(&fits), fits);
    let long = "y".repeat(49);
    assert_eq!(short(&long), format!("{}...", "y".repeat(45)));
    assert_eq!(short(&long).len(), 48);
    let umlauts = "ä".repeat(24);
    assert_eq!(short(&umlauts), umlauts);
    let mixed = format!("z{}", "ä".repeat(30));
    assert_eq!(short(&mixed), format!("z{}...", "ä".repeat(22)));
    let across = "ä".repeat(30);
    assert_eq!(short(&across), format!("{}...", "ä".repeat(22)));
    let wide = format!("ab{}", "𝄞".repeat(12));
    assert_eq!(short(&wide), format!("ab{}...", "𝄞".repeat(10)));
    assert_eq!(short(""), "");
}

#[test]
fn relay_section() {
    assert_eq!(relay_host(true), [127, 0, 0, 1]);
    assert_eq!(relay_host(false), [0, 0, 0, 0]);
    assert!(firewall_hint(0, 0, false));
    assert!(!firewall_hint(0, 1, false));
    assert!(!firewall_hint(1, 0, false));
    assert!(!firewall_hint(0, 0, true));
    let mut p = RelayPanel {
        running: false,
        port: 8080,
        autostart: false,
        localhost_only: false,
        error: None,
    };
    p.started(Err("port in use".to_string()));
    assert!(!p.running && !p.autostart);
    assert_eq!(p.error.as_deref(), Some("port in use"));
    p.started(Ok(()));
    assert!(p.running && p.autostart);
    assert_eq!((p.port, p.error.as_deref()), (8080, None));
    p.stopped();
    assert!(!p.running && !p.autostart);
}

#[test]
fn performance_figures() {
    let mut m = PerfMetrics::new();
    assert_eq!((m.cpu_percent(), m.memory_mb()), (0, 0));
    let p = ProcessSample { cpu_percent: 12.5f32.to_bits(), memory_bytes: 3 * 1024 * 1024 + 7 };
    m.record(50.0f32.to_bits(), 1024 * 1024 - 1, 8 * 1024 * 1024, Some(p));
    assert_eq!(f32::from_bits(m.cpu_percent()), 12.5);
    assert_eq!(m.memory_mb(), 3);
    assert_eq!(f32::from_bits(m.system().total_cpu_percent), 50.0);
    assert_eq!(m.system().used_memory_mb, 0);
    assert_eq!(m.system().total_memory_mb, 8);
    m.record(0, 0, 0, None);
    assert_eq!(m.memory_mb(), 3);
    assert_eq!(m.system(), SystemSnapshot::default());
    m.cpu_percent = 0x1_0000_0002;
    assert_eq!(m.cpu_percent(), 2);
}
