use comet::app::{App, KeyCode, KeyOutcome, KeyPress};
use comet::calendar::civil_from_days;
use comet::config::{format_from_name, tab_from_name, theme_from_name, Config};
use comet::history::RingBuffer;
use comet::labels::{
    signal_failed_text, signal_sent_text, clock_text, command_text, dialog_command_text, filter_text, gpu_process_name, gpu_status_text,
    gpu_title_text, grid_cell, grid_row_count, header_host_text, process_summary_text,
    recording_badge, sort_label, used_total_text, vram_usage_text, GpuLabel,
};
use comet::layout::{centered_box, centered_rect, Area};
use comet::meter::format_bytes;
use comet::parse::{parse_u32, parse_u64, replace_text, split_char, split_lines};
use comet::pet::{get_cat_sprite, PetMood, PetState};
use comet::processes::{
    build_process_tree, count_matching, matching_rows, nth_matching, process_matches,
    sort_processes, ProcessEntry, ProcessSortBy,
};
use comet::recorder::{
    csv_quote, format_utc_seconds, recording_file_name, RecordingFormat, RecordingSession,
};
use comet::sysfs::{
    amd_clock_mhz, base_device_name, diskstats_entry, hwmon_freq_mhz, is_card_node,
    parse_uevent_text, pci_names_from_lspci, plan_card, sysfs_driver_label, CardKind,
};
use comet::tabs::Tab;
use comet::telemetry::{GpuVendor, MemoryMetrics, ProcessSignal, SystemInfo};
use comet::text::normalize;
use comet::theme::{get_theme, ThemeId};
use ratatui::layout::{Constraint, Direction, Layout, Rect};
use std::sync::atomic::{AtomicBool, Ordering};
use std::sync::Arc;

fn entry(pid: u32, name: &str, cpu_order: u32, memory_bytes: u64) -> ProcessEntry {
    ProcessEntry {
        pid,
        parent_pid: None,
        name: name.to_string(),
        cpu_order,
        memory_bytes,
        read_bytes: 0,
        written_bytes: 0,
        status: "Running".to_string(),
        cmd: format!("/usr/bin/{}", name),
    }
}

fn key(c: char) -> KeyPress {
    KeyPress { code: KeyCode::Char(c), ctrl: false }
}

fn special(code: KeyCode) -> KeyPress {
    KeyPress { code, ctrl: false }
}

fn pids(v: &[ProcessEntry]) -> Vec<u32> {
    v.iter().map(|p| p.pid).collect()
}

#[test]
fn format_bytes_small_units() {
    assert_eq!(format_bytes(0), "0 B");
    assert_eq!(format_bytes(1023), "1023 B");
    assert_eq!(format_bytes(1024), "1 KB");
    assert_eq!(format_bytes(1536), "2 KB");
    assert_eq!(format_bytes(2560), "2 KB");
    assert_eq!(format_bytes(1048575), "1024 KB");
    assert_eq!(format_bytes(1048576), "1.0 MB");
    assert_eq!(format_bytes(1572864), "1.5 MB");
    assert_eq!(format_bytes(1073741824), "1.0 GB");
    assert_eq!(format_bytes(1099511627776), "1.00 TB");
    assert_eq!(format_bytes(1649267441664), "1.50 TB");
}

#[test]
fn format_bytes_agrees_with_float_formatting() {
    const KB: u64 = 1024;
    const MB: u64 = KB * 1024;
    const GB: u64 = MB * 1024;
    const TB: u64 = GB * 1024;
    let mut samples: Vec<u64> = vec![u64::MAX, u64::MAX - 1, 1 << 53, (1 << 53) + 1, 3 * TB / 8];
    let mut x: u64 = 1;
    while x < u64::MAX / 3 {
        samples.push(x);
        samples.push(x + 1);
        samples.push(x * 3 / 2);
        samples.push(x * 5 / 4);
        samples.push(x * 21 / 20);
        x = x * 3 + 7;
    }
    for unit in [KB, MB, GB, TB] {
        for k in 1..200u64 {
            samples.push(unit * k / 20);
            samples.push(unit * k / 40);
        }
    }
    for b in samples {
        let expected = if b >= TB {
            format!("{:.2} TB", b as f64 / TB as f64)
        } else if b >= GB {
            format!("{:.1} GB", b as f64 / GB as f64)
        } else if b >= MB {
            format!("{:.1} MB", b as f64 / MB as f64)
        } else if b >= KB {
            format!("{:.0} KB", b as f64 / KB as f64)
        } else {
            format!("{} B", b)
        };
        assert_eq!(format_bytes(b), expected, "bytes = {}", b);
    }
}

#[test]
fn utc_dates_follow_the_gregorian_calendar() {
    assert_eq!(format_utc_seconds(951782400).0, "2000-02-29T00:00:00Z");
    assert_eq!(format_utc_seconds(1772236800).0, "2026-02-28T00:00:00Z");
    assert_eq!(format_utc_seconds(4107542400).0, "2100-03-01T00:00:00Z");
    assert_eq!(format_utc_seconds(13574563200).0, "2400-02-29T00:00:00Z");
    assert_eq!(format_utc_seconds(94694399).0, "1972-12-31T23:59:59Z");
    assert_eq!(format_utc_seconds(94694399).1, "19721231_235959");
    assert_eq!(format_utc_seconds(946598400 + 86399).0, "1999-12-31T23:59:59Z");
}

#[test]
fn civil_days_examples() {
    assert_eq!(civil_from_days(0), (1970, 1, 1));
    assert_eq!(civil_from_days(59), (1970, 3, 1));
    assert_eq!(civil_from_days(11016), (2000, 2, 29));
    assert_eq!(civil_from_days(20512), (2026, 2, 28));
    assert_eq!(civil_from_days(47541), (2100, 3, 1));
}

#[test]
fn recording_names_and_csv_fields() {
    assert_eq!(
        recording_file_name("20260910_000000", RecordingFormat::Csv),
        "comet_telemetry_20260910_000000.csv"
    );
    assert_eq!(recording_file_name("x", RecordingFormat::Json), "comet_telemetry_x.json");
    assert_eq!(csv_quote("RTX \"Ti\""), "\"RTX \"\"Ti\"\"\"");
    assert_eq!(csv_quote(""), "\"\"");
    assert_eq!(RecordingFormat::Csv.extension(), "csv");
    assert_eq!(RecordingFormat::Json.extension(), "json");
}

#[test]
fn test_recorder_csv_lifecycle() {
    let mut session = RecordingSession::new(RecordingFormat::Csv);
    let mut content = session.header();
    assert_eq!(session.sample_count, 0);
    content.push_str(session.sample_prefix());
    content.push_str("1970-01-01T00:00:00Z,0.000");
    content.push_str(session.sample_suffix());
    session.note_sample();
    assert_eq!(session.sample_count, 1);
    content.push_str(session.footer());
    assert!(content.contains("timestamp_utc,elapsed_seconds"));
    assert!(content.lines().count() >= 2);
    assert_eq!(content.lines().count(), 2);
}

#[test]
fn test_recorder_json_lifecycle() {
    let mut session = RecordingSession::new(RecordingFormat::Json);
    let mut content = session.header();
    for i in 0..2 {
        content.push_str(session.sample_prefix());
        content.push_str(&format!("{{\"sample\":{}}}", i));
        content.push_str(session.sample_suffix());
        session.note_sample();
    }
    content.push_str(session.footer());
    assert_eq!(session.sample_count, 2);
    let parsed: Vec<serde_json::Value> = serde_json::from_str(&content).expect("Valid JSON array");
    assert_eq!(parsed.len(), 2);
    assert_eq!(content, "[\n  {\"sample\":0},\n  {\"sample\":1}\n]\n");
}

#[test]
fn empty_json_recording_is_an_empty_array() {
    let session = RecordingSession::new(RecordingFormat::Json);
    let content = format!("{}{}", session.header(), session.footer());
    let parsed: Vec<serde_json::Value> = serde_json::from_str(&content).expect("Valid JSON array");
    assert!(parsed.is_empty());
}

#[test]
fn tabs_cycle_and_round_trip() {
    let titles = Tab::titles();
    assert_eq!(titles.len(), 8);
    assert_eq!(titles[0], "1:Overview");
    assert_eq!(titles[7], "8:Sensors");
    let mut t = Tab::Overview;
    for i in 0..8 {
        assert_eq!(Tab::from_index(i), t);
        assert_eq!(t.index(), i);
        assert_eq!(t.next().prev(), t);
        t = t.next();
    }
    assert_eq!(t, Tab::Overview);
    assert_eq!(Tab::Overview.prev(), Tab::Sensors);
    assert_eq!(Tab::from_index(8), Tab::Overview);
}

#[test]
fn theme_cycle_visits_every_theme_once() {
    let mut id = ThemeId::Candy;
    let mut seen = Vec::new();
    for _ in 0..9 {
        assert!(!seen.contains(&id));
        seen.push(id);
        id = id.next();
    }
    assert_eq!(id, ThemeId::Candy);
    assert_eq!(get_theme(ThemeId::Ocean).name, "Ocean");
}

#[test]
fn config_names_are_trimmed_and_case_insensitive() {
    assert_eq!(theme_from_name("ocean"), ThemeId::Ocean);
    assert_eq!(theme_from_name("amber"), ThemeId::AmberCrt);
    assert_eq!(tab_from_name("cpu"), Tab::Cpu);
    assert_eq!(tab_from_name("nowhere"), Tab::Overview);
    assert_eq!(format_from_name("json"), RecordingFormat::Json);
    assert_eq!(format_from_name("xml"), RecordingFormat::Csv);
    let mut cfg = Config::default();
    cfg.theme = " Ocean ".to_string();
    cfg.default_tab = " CPU\n".to_string();
    cfg.recording_format = "JSON".to_string();
    assert_eq!(cfg.parsed_theme(), ThemeId::Ocean);
    assert_eq!(cfg.parsed_tab(), Tab::Cpu);
    assert_eq!(cfg.parsed_recording_format(), RecordingFormat::Json);
    assert_eq!(normalize("  MiXeD \t"), "mixed");
}

#[test]
fn config_file_location() {
    let xdg = Config::config_path_parts(Some("/x".to_string()), Some("/home/u".to_string()));
    assert_eq!(xdg, Some(vec!["/x".to_string(), "comet".to_string(), "config.toml".to_string()]));
    let home = Config::config_path_parts(Some("  ".to_string()), Some("/home/u".to_string()));
    assert_eq!(
        home,
        Some(vec![
            "/home/u".to_string(),
            ".config".to_string(),
            "comet".to_string(),
            "config.toml".to_string()
        ])
    );
    assert_eq!(Config::config_path_parts(None, None), None);
}

#[test]
fn recording_directory_choices() {
    let mut cfg = Config::default();
    cfg.recording_dir = Some("~/rec".to_string());
    assert_eq!(
        cfg.recording_dir_parts(Some("/home/u".to_string()), None),
        vec!["/home/u".to_string(), "rec".to_string()]
    );
    cfg.recording_dir = Some(" /data/rec ".to_string());
    assert_eq!(cfg.recording_dir_parts(None, None), vec!["/data/rec".to_string()]);
    cfg.recording_dir = None;
    assert_eq!(
        cfg.recording_dir_parts(Some("/home/u".to_string()), Some("/xdg".to_string())),
        vec!["/xdg".to_string(), "comet".to_string(), "recordings".to_string()]
    );
    assert_eq!(cfg.recording_dir_parts(None, None), vec!["./recordings".to_string()]);
}

#[test]
fn ring_buffer_edge_cases() {
    let mut zero: RingBuffer<u32> = RingBuffer::new(0);
    assert!(zero.is_empty());
    assert_eq!(zero.latest(), None);
    zero.push(5);
    zero.push(6);
    assert_eq!(zero.len(), 1);
    assert_eq!(zero.to_vec(), vec![6]);
    let mut buf = RingBuffer::new(4);
    for i in 0..10u32 {
        buf.push(i);
    }
    assert_eq!(buf.iter().copied().collect::<Vec<u32>>(), vec![6, 7, 8, 9]);
    let copy = buf.clone();
    assert_eq!(copy.to_vec(), buf.to_vec());
}

#[test]
fn pet_reacts_to_load() {
    let mut pet = PetState::new();
    assert_eq!(pet.mood, PetMood::Happy);
    pet.update(90, 10, None, None, 0, 16_000_000, 100_000_000);
    assert_eq!(pet.mood, PetMood::HighCpu);
    pet.update(40, 10, None, None, 0, 16_000_000, 200_000_000);
    assert_eq!(pet.mood, PetMood::HighCpu);
    pet.update(40, 10, None, None, 0, 16_000_000, 2_000_000_000);
    assert_eq!(pet.mood, PetMood::Busy);
    pet.update(10, 10, None, Some(85), 0, 16_000_000, 2_100_000_000);
    assert_eq!(pet.mood, PetMood::Hot);
    assert_eq!(pet.name, "Mochi");
}

#[test]
fn pet_sleeps_and_blinks() {
    let mut pet = PetState::new();
    pet.update(5, 10, Some(10), None, 0, 31_000_000_000, 10_000_000_000);
    assert_eq!(pet.mood, PetMood::Sleeping);
    let mut blinker = PetState::new();
    blinker.update(20, 10, None, None, 0, 16_000_000, 3_600_000_000);
    assert!(blinker.is_blinking);
    blinker.update(20, 10, None, None, 0, 16_000_000, 3_900_000_000);
    assert!(!blinker.is_blinking);
    let mut excited = PetState::new();
    excited.update(20, 10, Some(90), None, 0, 16_000_000, 2_000_000_000);
    assert_eq!(excited.mood, PetMood::Excited);
    let mut surfing = PetState::new();
    surfing.update(20, 10, None, None, 12_000_000, 16_000_000, 2_000_000_000);
    assert_eq!(surfing.mood, PetMood::Network);
}

#[test]
fn cat_sprites() {
    assert_eq!(get_cat_sprite(PetMood::Happy, false)[1], "( \u{2022}.\u{2022} )");
    assert_eq!(get_cat_sprite(PetMood::Happy, true)[1], "( -.- )");
    assert_eq!(get_cat_sprite(PetMood::Sleeping, true)[1], "( -.- ) zZ");
}

#[test]
fn process_sorting_is_stable() {
    let procs = vec![entry(3, "beta", 5, 10), entry(1, "Alpha", 5, 30), entry(2, "gamma", 9, 10)];
    assert_eq!(pids(&sort_processes(procs.clone(), ProcessSortBy::Cpu)), vec![2, 3, 1]);
    assert_eq!(pids(&sort_processes(procs.clone(), ProcessSortBy::Memory)), vec![1, 3, 2]);
    assert_eq!(pids(&sort_processes(procs.clone(), ProcessSortBy::Pid)), vec![1, 2, 3]);
    assert_eq!(pids(&sort_processes(procs.clone(), ProcessSortBy::Name)), vec![1, 3, 2]);
    assert_eq!(ProcessSortBy::Cpu.next(), ProcessSortBy::Memory);
    assert_eq!(ProcessSortBy::Name.next(), ProcessSortBy::Cpu);
}

#[test]
fn process_search() {
    let procs = vec![entry(1234, "Firefox", 1, 1), entry(88, "bash", 2, 2), entry(7, "zsh", 3, 3)];
    assert!(process_matches(&procs[0], "FIRE"));
    assert!(process_matches(&procs[0], "23"));
    assert!(process_matches(&procs[1], ""));
    assert!(!process_matches(&procs[1], "zz"));
    assert_eq!(count_matching(&procs, "sh"), 2);
    assert_eq!(nth_matching(&procs, "sh", 1).map(|p| p.pid), Some(7));
    assert_eq!(nth_matching(&procs, "sh", 2).map(|p| p.pid), None);
}

#[test]
fn key_presses_drive_the_dashboard() {
    let cfg = Config::default();
    let mut app = App::new(&cfg);
    assert_eq!(app.tab, Tab::Overview);
    app.on_key(key('7'));
    assert_eq!(app.tab, Tab::Processes);
    app.on_telemetry(vec![entry(10, "bash", 1, 1), entry(20, "zsh", 2, 2), entry(30, "vim", 3, 3)], 0);
    app.on_key(special(KeyCode::Down));
    app.on_key(special(KeyCode::Down));
    app.on_key(special(KeyCode::Down));
    assert_eq!(app.selected_proc_idx, 2);
    app.on_key(key('/'));
    assert!(app.is_searching);
    app.on_key(key('s'));
    app.on_key(key('h'));
    assert_eq!(app.search_query, "sh");
    assert_eq!(app.current_process_count(), 2);
    assert_eq!(app.selected_proc_idx, 1);
    app.on_key(special(KeyCode::Backspace));
    assert_eq!(app.search_query, "s");
    app.on_key(special(KeyCode::Enter));
    assert!(!app.is_searching);
    assert_eq!(app.get_selected_process().map(|p| p.pid), Some(20));
    app.on_key(key('x'));
    assert_eq!(app.signal_modal.as_ref().map(|m| m.pid), Some(20));
    app.on_key(key('2'));
    match app.on_key(key('y')) {
        KeyOutcome::SendSignal { pid, name, signal } => {
            assert_eq!(pid, 20);
            assert_eq!(name, "zsh");
            assert_eq!(signal, ProcessSignal::Kill);
        }
        _ => panic!("confirming the dialog must request a signal"),
    }
    assert!(app.signal_modal.is_none());
    app.on_key(special(KeyCode::Esc));
    assert_eq!(app.search_query, "");
    app.on_key(key('q'));
    assert!(app.should_quit);
}

#[test]
fn key_presses_for_views_and_overlays() {
    let cfg = Config::default();
    let mut app = App::new(&cfg);
    app.on_key(special(KeyCode::Tab));
    assert_eq!(app.tab, Tab::Cpu);
    app.on_key(special(KeyCode::BackTab));
    app.on_key(special(KeyCode::BackTab));
    assert_eq!(app.tab, Tab::Sensors);
    app.on_key(key('t'));
    assert_eq!(app.theme_id, ThemeId::Synthwave);
    app.on_key(key('?'));
    assert!(app.show_help);
    app.on_key(key('q'));
    assert!(!app.show_help);
    assert!(!app.should_quit);
    app.on_key(key('p'));
    app.on_telemetry(vec![entry(3, "b", 1, 9), entry(1, "a", 2, 5)], 0);
    app.on_key(key('s'));
    assert_eq!(app.proc_sort, ProcessSortBy::Memory);
    assert_eq!(pids(&app.processes), vec![3, 1]);
    app.on_key(key('s'));
    assert_eq!(pids(&app.processes), vec![1, 3]);
    app.on_key(KeyPress { code: KeyCode::Char('c'), ctrl: true });
    assert!(app.should_quit);
}

#[test]
fn telemetry_keeps_the_selection_inside_the_table() {
    let cfg = Config::default();
    let mut app = App::new(&cfg);
    app.on_key(key('7'));
    app.on_telemetry(vec![entry(1, "a", 1, 1), entry(2, "b", 1, 1), entry(3, "c", 1, 1)], 0);
    app.on_key(special(KeyCode::Down));
    app.on_key(special(KeyCode::Down));
    assert_eq!(app.selected_proc_idx, 2);
    app.on_telemetry(vec![entry(1, "a", 1, 1)], 0);
    assert_eq!(app.selected_proc_idx, 0);
    app.on_telemetry(Vec::new(), 0);
    assert_eq!(app.selected_proc_idx, 0);
    assert!(app.get_selected_process().is_none());
}

#[test]
fn numbers_parse_like_std() {
    let texts = [
        "0", "42", "+7", "-1", "", "+", " 1", "1 ", "12a", "007", "18446744073709551615",
        "18446744073709551616", "4294967295", "4294967296", "99999999999999999999999",
    ];
    for t in texts {
        assert_eq!(parse_u64(t), t.parse::<u64>().ok(), "text {:?}", t);
        assert_eq!(parse_u32(t), t.parse::<u32>().ok(), "text {:?}", t);
    }
}

#[test]
fn lines_fields_and_replacement_like_std() {
    let texts = ["", "a", "a\n", "a\r\nb", "\n\nx", "a\rb\n", "x\r\n", "one\ntwo\r\nthree"];
    for t in texts {
        let expected: Vec<String> = t.lines().map(|l| l.to_string()).collect();
        assert_eq!(split_lines(t), expected, "text {:?}", t);
        let fields: Vec<String> = t.split('\n').map(|l| l.to_string()).collect();
        assert_eq!(split_char(t, '\n'), fields, "text {:?}", t);
    }
    assert_eq!(replace_text("aaa", "aa", "b"), "aaa".replace("aa", "b"));
    assert_eq!(replace_text("NVIDIA Corporation", " Corporation", ""), "NVIDIA");
    assert_eq!(replace_text("abc", "x", "y"), "abc");
}

#[test]
fn uevent_files() {
    let (driver, slot) =
        parse_uevent_text("DRIVER=amdgpu\nPCI_CLASS=30000\nPCI_SLOT_NAME=0000:03:00.0\n");
    assert_eq!(driver, "amdgpu");
    assert_eq!(slot, Some("0000:03:00.0".to_string()));
    let (driver, slot) = parse_uevent_text("MODALIAS=pci:v00001002\n");
    assert_eq!(driver, "");
    assert_eq!(slot, None);
    let (driver, _) = parse_uevent_text("DRIVER= i915 \n");
    assert_eq!(driver, "i915");
}

#[test]
fn clock_files() {
    assert_eq!(hwmon_freq_mhz("1500000000\n"), Some(1500));
    assert_eq!(hwmon_freq_mhz("garbage"), None);
    assert_eq!(amd_clock_mhz("0: 500Mhz\n1: 1800Mhz *\n2: 2000Mhz\n"), Some(1800));
    assert_eq!(amd_clock_mhz("0: 500Mhz\n1: 1800Mhz\n"), None);
    assert_eq!(amd_clock_mhz("1: fast *\n"), None);
    assert_eq!(amd_clock_mhz("1: 96MHZ *\n"), Some(96));
}

#[test]
fn lspci_listing() {
    let text = "0000:00:02.0 \"VGA compatible controller\" \"Intel Corporation\" \"UHD Graphics 630\" -r02 \"Dell\" \"Device 0869\"\n\
                0000:00:1f.3 \"Audio device\" \"Intel Corporation\" \"Cannon Lake PCH cAVS\"\n\
                0000:03:00.0 \"Display controller\" \"Advanced Micro Devices, Inc. [AMD/ATI]\" \"Navi 23\"\n";
    let names = pci_names_from_lspci(text);
    assert_eq!(
        names,
        vec![
            ("0000:00:02.0".to_string(), "Intel UHD Graphics 630".to_string()),
            ("0000:03:00.0".to_string(), "Advanced Micro Devices Navi 23".to_string()),
        ]
    );
}

#[test]
fn diskstats_lines() {
    let line = "   8       0 sda 1000 20 52000 300 400 10 8000 500 0 600 800";
    assert_eq!(diskstats_entry(line), Some(("sda".to_string(), 52000, 8000)));
    assert_eq!(diskstats_entry("8 0 sda 1 2"), None);
    assert_eq!(
        diskstats_entry("8 0 sdb 1 2 x 4 5 6 y"),
        Some(("sdb".to_string(), 0, 0))
    );
    assert_eq!(base_device_name("/dev/nvme0n1p1"), "nvme0n1p1");
    assert_eq!(base_device_name("sda"), "sda");
}

#[test]
fn card_planning() {
    assert!(is_card_node("card0"));
    assert!(!is_card_node("card1-DP-1"));
    assert!(!is_card_node("renderD128"));
    let amd = plan_card("0x1002\n", String::new(), None, false).expect("AMD card");
    assert_eq!(amd.kind, CardKind::Amd);
    assert_eq!(amd.name, "AMD Radeon Graphics");
    assert_eq!(amd.driver, "amdgpu");
    let intel = plan_card("0x8086", "xe".to_string(), Some("Intel Arc".to_string()), true).unwrap();
    assert_eq!(intel.kind, CardKind::Intel);
    assert_eq!(intel.name, "Intel Arc");
    assert_eq!(intel.driver, "xe");
    assert!(plan_card("0x10de", String::new(), None, true).is_none());
    let nv = plan_card("0x10DE", String::new(), None, false).unwrap();
    assert_eq!(nv.kind, CardKind::NvidiaSysfs);
    assert_eq!(nv.driver, "nouveau");
    assert!(plan_card("0x1234", String::new(), None, false).is_none());
    assert_eq!(sysfs_driver_label("amdgpu"), "amdgpu (sysfs)");
}

fn ratatui_centered(px: u16, py: u16, r: Rect) -> Rect {
    let rows = Layout::default()
        .direction(Direction::Vertical)
        .constraints([
            Constraint::Percentage((100 - py) / 2),
            Constraint::Percentage(py),
            Constraint::Percentage((100 - py) / 2),
        ])
        .split(r);
    Layout::default()
        .direction(Direction::Horizontal)
        .constraints([
            Constraint::Percentage((100 - px) / 2),
            Constraint::Percentage(px),
            Constraint::Percentage((100 - px) / 2),
        ])
        .split(rows[1])[1]
}

#[test]
fn dialogs_are_centered() {
    for (px, py, w, h) in [(60, 40, 100, 50), (50, 50, 80, 24), (70, 80, 37, 13), (100, 100, 10, 10)] {
        let c = centered_rect(px, py, Area { x: 2, y: 3, width: w, height: h });
        let r = ratatui_centered(px, py, Rect { x: 2, y: 3, width: w, height: h });
        assert_eq!((c.x, c.y, c.width, c.height), (r.x, r.y, r.width, r.height));
    }
    let c = centered_rect(50, 50, Area { x: 0, y: 0, width: 100, height: 40 });
    assert_eq!((c.x, c.y, c.width, c.height), (25, 10, 50, 20));
    assert_eq!(
        centered_box(40, 10, Area { x: 0, y: 0, width: 100, height: 30 }),
        Area { x: 30, y: 10, width: 40, height: 10 }
    );
    assert_eq!(
        centered_box(40, 10, Area { x: 5, y: 5, width: 20, height: 6 }),
        Area { x: 6, y: 6, width: 18, height: 4 }
    );
    assert_eq!(
        centered_box(40, 10, Area { x: 0, y: 0, width: 1, height: 0 }),
        Area { x: 0, y: 0, width: 0, height: 0 }
    );
}

#[test]
fn header_and_footer_texts() {
    assert_eq!(recording_badge(42, 65), "\u{25CF} REC 01:05 (42)");
    assert_eq!(recording_badge(0, 3600), "\u{25CF} REC 60:00 (0)");
    let info = SystemInfo {
        host_name: "box".to_string(),
        os_name: "Linux".to_string(),
        os_version: "6".to_string(),
        kernel_version: "6.1".to_string(),
        cpu_arch: "x86_64".to_string(),
        uptime_seconds: 90061,
    };
    assert_eq!(info.formatted_uptime(), "1d 1h 1m");
    assert_eq!(header_host_text(&info), "Host: box | Up: 1d 1h 1m");
    let short = SystemInfo { uptime_seconds: 3660, ..info };
    assert_eq!(short.formatted_uptime(), "1h 1m");
    let gpus = vec![
        GpuLabel { vendor: GpuVendor::Nvidia, driver: "NVML".to_string() },
        GpuLabel { vendor: GpuVendor::Amd, driver: "amdgpu (sysfs)".to_string() },
    ];
    assert_eq!(gpu_status_text(&gpus, &None, 1), "GPU (2/2): AMD [amdgpu (sysfs)]");
    let one = vec![gpus[0].clone()];
    assert_eq!(gpu_status_text(&one, &None, 0), "GPU: NVIDIA [NVML]");
    assert_eq!(gpu_status_text(&Vec::new(), &None, 0), "GPU: None");
    let fallback = Some(GpuLabel { vendor: GpuVendor::Intel, driver: "i915".to_string() });
    assert_eq!(gpu_status_text(&Vec::new(), &fallback, 3), "GPU: Intel [i915]");
    assert_eq!(sort_label(ProcessSortBy::Memory), "Memory");
    assert_eq!(sort_label(ProcessSortBy::Cpu), "CPU%");
}

#[test]
fn signals_and_memory_defaults() {
    assert_eq!(ProcessSignal::Term.short_name(), "SIGTERM");
    assert_eq!(ProcessSignal::Kill.short_name(), "SIGKILL");
    assert_eq!(ProcessSignal::Term.number(), 15);
    assert_eq!(ProcessSignal::Kill.number(), 9);
    let m = MemoryMetrics::default();
    assert_eq!(m.total_bytes, 0);
    assert_eq!(m.swap_used_bytes, 0);
}

#[test]
fn panel_texts() {
    assert_eq!(used_total_text("RAM: ", 1610612736, 8589934592), "RAM: 1.5 GB / 8.0 GB");
    assert_eq!(vram_usage_text(true, 1, 2), None);
    assert_eq!(vram_usage_text(false, 5, 0), None);
    assert_eq!(
        vram_usage_text(false, 1048576, 2147483648),
        Some("VRAM: 1.0 MB / 2.0 GB".to_string())
    );
    assert_eq!(gpu_title_text(GpuVendor::Nvidia, "RTX 3070", 0, 2), " NVIDIA GPU (1 of 2): RTX 3070 [g: switch] ");
    assert_eq!(gpu_title_text(GpuVendor::Amd, "Navi", 0, 1), " AMD GPU: Navi ");
    let procs = vec![entry(5, "blender", 1, 1), entry(9, "game", 1, 1), entry(9, "other", 1, 1)];
    assert_eq!(gpu_process_name(&procs, 9), "game");
    assert_eq!(gpu_process_name(&procs, 4), "Unknown");
    assert_eq!(
        process_summary_text(ProcessSortBy::Memory, 42),
        "    Sort: [Memory] (press 's' to toggle)    Total Processes: 42"
    );
    assert_eq!(filter_text("", false), "Press '/' to search...");
    assert_eq!(filter_text("", true), "");
    assert_eq!(filter_text("ab", false), "ab");
    assert_eq!(command_text(""), "[Kernel or system process]");
    assert_eq!(command_text("/bin/sh"), "/bin/sh");
    assert_eq!(clock_text(Some(1800)), "1800 MHz");
    assert_eq!(clock_text(None), "N/A");
}

#[test]
fn signal_dialog_command_is_cut_by_bytes() {
    assert_eq!(dialog_command_text(""), "[kernel or system process]");
    let short = "x".repeat(46);
    assert_eq!(dialog_command_text(&short), short);
    let long = "abcdefghij".repeat(5);
    assert_eq!(dialog_command_text(&long), format!("{}...", &long[..43]));
    let wide = format!("{}{}", "y".repeat(41), "\u{e9}\u{e9}\u{e9}");
    assert!(wide.len() > 46 && wide.is_char_boundary(43));
    assert_eq!(dialog_command_text(&wide), format!("{}...", &wide[..43]));
}

#[test]
fn gauge_grids() {
    assert_eq!(grid_row_count(0, 4), 0);
    assert_eq!(grid_row_count(5, 4), 2);
    assert_eq!(grid_row_count(8, 4), 2);
    assert_eq!(grid_row_count(3, 2), 2);
    assert_eq!(grid_cell(5, 4), (1, 1));
    assert_eq!(grid_cell(3, 2), (1, 1));
    assert_eq!(grid_cell(0, 2), (0, 0));
}

#[test]
fn telemetry_manager_stops_its_sampler() {
    let flag = Arc::new(AtomicBool::new(true));
    let manager = comet::telemetry::TelemetryManager::new(flag.clone());
    assert!(flag.load(Ordering::Relaxed));
    manager.stop();
    assert!(!flag.load(Ordering::Relaxed));
}

fn child(pid: u32, parent: Option<u32>, name: &str, cpu_order: u32) -> ProcessEntry {
    ProcessEntry { parent_pid: parent, ..entry(pid, name, cpu_order, 0) }
}

fn tree_sample() -> Vec<ProcessEntry> {
    vec![
        child(1, None, "init", 1),
        child(2, Some(1), "b", 5),
        child(3, Some(1), "c", 9),
        child(4, Some(2), "d", 1),
        child(5, Some(99), "orphan", 0),
        child(6, Some(6), "self", 0),
        child(7, Some(3), "g", 0),
    ]
}

#[test]
fn process_tree_rows_and_glyphs() {
    let tree = build_process_tree(&tree_sample(), ProcessSortBy::Cpu);
    let pids: Vec<u32> = tree.iter().map(|t| t.process.pid).collect();
    let prefixes: Vec<&str> = tree.iter().map(|t| t.prefix.as_str()).collect();
    assert_eq!(pids, vec![1, 3, 7, 2, 4, 5, 6]);
    let mut listed = pids.clone();
    listed.sort();
    assert_eq!(listed, vec![1, 2, 3, 4, 5, 6, 7]);
    assert_eq!(
        prefixes,
        vec!["", "\u{251C}\u{2500} ", "\u{2502}  \u{2514}\u{2500} ", "\u{2514}\u{2500} ", "   \u{2514}\u{2500} ", "", ""]
    );
    let by_pid = build_process_tree(&tree_sample(), ProcessSortBy::Pid);
    let pids: Vec<u32> = by_pid.iter().map(|t| t.process.pid).collect();
    assert_eq!(pids, vec![1, 2, 4, 3, 7, 5, 6]);
    assert!(build_process_tree(&Vec::new(), ProcessSortBy::Name).is_empty());
}

#[test]
fn process_tree_follows_the_search() {
    let rows = matching_rows(&tree_sample(), "d");
    assert_eq!(pids(&rows), vec![4]);
    let tree = build_process_tree(&rows, ProcessSortBy::Cpu);
    assert_eq!(tree.len(), 1);
    assert_eq!(tree[0].prefix, "");
}

#[test]
fn tree_mode_selects_tree_rows() {
    let cfg = Config::default();
    let mut app = App::new(&cfg);
    app.on_key(key('7'));
    app.on_telemetry(tree_sample(), 0);
    app.on_key(key('t'));
    assert!(app.tree_mode);
    app.on_key(special(KeyCode::Down));
    assert_eq!(app.get_selected_process().map(|p| p.pid), Some(3));
    app.on_key(key('t'));
    assert!(!app.tree_mode);
    assert_eq!(app.get_selected_process().map(|p| p.pid), Some(2));
    app.on_key(key('t'));
    app.on_key(key('s'));
    assert_eq!(app.proc_sort, ProcessSortBy::Memory);
    app.on_key(key('s'));
    assert_eq!(app.proc_sort, ProcessSortBy::Pid);
    app.on_key(special(KeyCode::Down));
    assert_eq!(app.get_selected_process().map(|p| p.pid), Some(4));
    app.on_key(key('x'));
    assert_eq!(app.signal_modal.as_ref().map(|m| m.pid), Some(4));
}

#[test]
fn gpu_switching_and_recording_keys() {
    let cfg = Config::default();
    let mut app = App::new(&cfg);
    app.on_telemetry(Vec::new(), 3);
    app.on_key(key('g'));
    assert_eq!(app.tab, Tab::Gpu);
    assert_eq!(app.selected_gpu, 0);
    app.on_key(key('g'));
    assert_eq!(app.selected_gpu, 1);
    app.on_key(key('g'));
    app.on_key(key('g'));
    assert_eq!(app.selected_gpu, 0);
    app.on_telemetry(Vec::new(), 0);
    app.on_key(key('g'));
    assert_eq!(app.selected_gpu, 0);
    assert!(matches!(app.on_key(key('r')), KeyOutcome::ToggleRecording));
    assert!(matches!(app.on_key(key('R')), KeyOutcome::ToggleRecording));
    assert_eq!(app.tab, Tab::Gpu);
    app.on_key(key('7'));
    app.on_key(key('/'));
    assert!(matches!(app.on_key(key('r')), KeyOutcome::Nothing));
    assert_eq!(app.search_query, "r");
}

#[test]
fn signal_notices() {
    assert_eq!(signal_sent_text(ProcessSignal::Term, "vim", 42), "\u{2714} Sent SIGTERM to vim (PID: 42)");
    assert_eq!(
        signal_failed_text(ProcessSignal::Kill, 1, "Operation not permitted"),
        "\u{2716} Failed to send SIGKILL to PID 1: Operation not permitted"
    );
}

#[test]
fn defaults_of_the_dashboard_and_pet() {
    let app = App::default();
    assert_eq!(app.tab, Tab::Overview);
    assert_eq!(app.theme_id, ThemeId::Candy);
    assert_eq!(app.pet.name, "Mochi");
    assert!(app.pet.visible);
    let pet = PetState::default();
    assert_eq!(pet.mood, PetMood::Happy);
    assert_eq!(pet.favorite, "GPU");
    assert!(!pet.is_blinking);
}

#[test]
fn white_space_is_unicode_white_space() {
    let samples = [
        " \t\nCandy\r\n",
        "\u{85}Ocean\u{a0}",
        "\u{3000}MONO\u{2029}",
        "\u{200b}zero width\u{200b}",
        "\u{1680}\u{2000}\u{200a}x\u{202f}\u{205f}",
        "",
        "   ",
    ];
    for s in samples {
        assert_eq!(normalize(s), s.trim().to_lowercase(), "text {:?}", s);
    }
    let line = "8\u{3000}0\u{a0}sdc 1 2 77 4 5 6 99 8 9";
    let words: Vec<&str> = line.split_whitespace().collect();
    assert_eq!(
        diskstats_entry(line),
        Some((words[2].to_string(), words[5].parse().unwrap(), words[9].parse().unwrap()))
    );
}
