use comet::config::Config;
use comet::history::RingBuffer;
use comet::pet::PetMood;
use comet::processes::ProcessEntry;
use comet::recorder::{format_utc_seconds, format_utc_timestamp, RecordingFormat};
use comet::signal::SignalModalState;
use comet::tabs::Tab;
use comet::telemetry::{GpuVendor, ProcessSignal};
use comet::theme::{Theme, ThemeId};
use std::time::{Duration, UNIX_EPOCH};

fn config_from_toml(text: &str) -> Config {
    let table: toml::Table = text.parse().expect("valid TOML");
    let mut cfg = Config::default();
    let text_of = |key: &str| table.get(key).and_then(|v| v.as_str()).map(|s| s.to_string());
    if let Some(v) = text_of("theme") {
        cfg.theme = v;
    }
    if let Some(v) = text_of("default_tab") {
        cfg.default_tab = v;
    }
    if let Some(v) = text_of("pet_name") {
        cfg.pet_name = v;
    }
    if let Some(v) = table.get("show_pet").and_then(|v| v.as_bool()) {
        cfg.show_pet = v;
    }
    if let Some(v) = table.get("telemetry_refresh_ms").and_then(|v| v.as_integer()) {
        cfg.telemetry_refresh_ms = v as u64;
    }
    if let Some(v) = table.get("process_refresh_ms").and_then(|v| v.as_integer()) {
        cfg.process_refresh_ms = v as u64;
    }
    if let Some(v) = text_of("recording_format") {
        cfg.recording_format = v;
    }
    if let Some(v) = text_of("recording_dir") {
        cfg.recording_dir = Some(v);
    }
    cfg
}

#[test]
fn test_theme_aliases() {
    let mut cfg = Config::default();

    cfg.theme = "amber-crt".to_string();
    assert_eq!(cfg.parsed_theme(), ThemeId::AmberCrt);

    cfg.theme = "green_crt".to_string();
    assert_eq!(cfg.parsed_theme(), ThemeId::GreenCrt);

    cfg.theme = "MONO".to_string();
    assert_eq!(cfg.parsed_theme(), ThemeId::Monochrome);

    cfg.theme = "invalid-name".to_string();
    assert_eq!(cfg.parsed_theme(), ThemeId::Candy);
}

#[test]
fn test_default_config() {
    let cfg = Config::default();
    assert_eq!(cfg.parsed_theme(), ThemeId::Candy);
    assert_eq!(cfg.parsed_tab(), Tab::Overview);
    assert_eq!(cfg.pet_name, "Mochi");
    assert!(cfg.show_pet);
    assert_eq!(cfg.telemetry_refresh_ms, 500);
    assert_eq!(cfg.parsed_recording_format(), RecordingFormat::Csv);
    let homes = [None, Some("/home/mochi".to_string())];
    let xdgs = [None, Some("/data".to_string())];
    for home in homes.iter() {
        for xdg in xdgs.iter() {
            let parts = cfg.recording_dir_parts(home.clone(), xdg.clone());
            assert!(parts.join("/").contains("recordings"));
        }
    }
}

#[test]
fn test_ring_buffer_capacity() {
    let mut buf = RingBuffer::new(3);
    buf.push(1);
    buf.push(2);
    buf.push(3);
    assert_eq!(buf.to_vec(), vec![1, 2, 3]);
    buf.push(4);
    assert_eq!(buf.to_vec(), vec![2, 3, 4]);
    assert_eq!(buf.latest(), Some(&4));
}

#[test]
fn test_pet_mood_labels() {
    assert_eq!(PetMood::Sleeping.label(), "Sleeping");
    assert_eq!(PetMood::HighCpu.label(), "Overclocked!");
    assert_eq!(PetMood::Hot.label(), "Toasty!");
}

#[test]
fn test_gpu_vendor_display() {
    assert_eq!(GpuVendor::Nvidia.to_string(), "NVIDIA");
    assert_eq!(GpuVendor::Amd.to_string(), "AMD");
    assert_eq!(GpuVendor::Intel.to_string(), "Intel");
    assert_eq!(GpuVendor::Other.to_string(), "GPU");
}

#[test]
fn test_utc_timestamp_epoch() {
    let (iso, file) = format_utc_timestamp(UNIX_EPOCH);
    assert_eq!(iso, "1970-01-01T00:00:00Z");
    assert_eq!(file, "19700101_000000");
}

#[test]
fn test_utc_timestamp_known_date() {
    // 2026-09-10 00:00:00 UTC = 20706 days * 86400 = 1788998400 seconds
    let known = UNIX_EPOCH + Duration::from_secs(1788998400);
    let (iso, file) = format_utc_timestamp(known);
    assert_eq!(iso, "2026-09-10T00:00:00Z");
    assert_eq!(file, "20260910_000000");
}

#[test]
fn test_all_themes_instantiate() {
    for &id in &ThemeId::ALL {
        let theme = Theme::get(id);
        assert_eq!(theme.id, id);
        assert!(!theme.name.is_empty());
    }
}

#[test]
fn test_theme_cycle() {
    assert_eq!(ThemeId::Candy.next(), ThemeId::Synthwave);
    assert_eq!(ThemeId::Rainbow.next(), ThemeId::Candy);
}

#[test]
fn test_signal_modal_state_transitions() {
    let proc = ProcessEntry {
        pid: 1234,
        parent_pid: Some(1),
        name: "test_proc".to_string(),
        cpu_order: 0,
        memory_bytes: 4096,
        read_bytes: 0,
        written_bytes: 0,
        status: "Running".to_string(),
        cmd: "test_proc --arg".to_string(),
    };

    let mut modal = SignalModalState::new(&proc);
    assert_eq!(modal.pid, 1234);
    assert_eq!(modal.signal, ProcessSignal::Term);

    modal.toggle_signal();
    assert_eq!(modal.signal, ProcessSignal::Kill);

    modal.toggle_signal();
    assert_eq!(modal.signal, ProcessSignal::Term);

    modal.select_kill();
    assert_eq!(modal.signal, ProcessSignal::Kill);

    modal.select_term();
    assert_eq!(modal.signal, ProcessSignal::Term);
}

#[test]
fn utc_seconds_matches_timestamp() {
    let (iso, _) = format_utc_seconds(0);
    assert_eq!(iso, "1970-01-01T00:00:00Z");
}

#[test]
fn test_parse_custom_toml() {
    let toml_str = r#"
            theme = "Cyberpunk"
            default_tab = "gpu"
            pet_name = "Kiko"
            show_pet = false
            telemetry_refresh_ms = 250
            recording_format = "json"
            recording_dir = "/tmp/comet_bench"
        "#;

    let cfg = config_from_toml(toml_str);
    assert_eq!(cfg.parsed_theme(), ThemeId::Cyberpunk);
    assert_eq!(cfg.parsed_tab(), Tab::Gpu);
    assert_eq!(cfg.pet_name, "Kiko");
    assert!(!cfg.show_pet);
    assert_eq!(cfg.telemetry_refresh_ms, 250);
    assert_eq!(cfg.process_refresh_ms, 1000);
    assert_eq!(cfg.parsed_recording_format(), RecordingFormat::Json);
    assert_eq!(cfg.recording_dir_parts(None, None), vec!["/tmp/comet_bench".to_string()]);
}
