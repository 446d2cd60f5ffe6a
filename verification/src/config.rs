//! User configuration: its defaults and how its text settings are read.
use vstd::prelude::*;
use crate::recorder::RecordingFormat;
use crate::tabs::Tab;
use crate::text::{ascii_lower, ascii_lowercase, is_ascii_text, normalize, normalized, spec_trim, str_equal, str_trim};
use crate::tabs::{tab_index, tab_titles};
use crate::theme::{theme_name, ThemeId};

verus! {

/// Settings of the monitor.
#[derive(Debug, Clone)]
pub struct Config {
    pub theme: String,
    pub default_tab: String,
    pub show_pet: bool,
    pub pet_name: String,
    pub pet_position: String,
    pub animations: bool,
    pub telemetry_refresh_ms: u64,
    pub process_refresh_ms: u64,
    pub history_capacity: usize,
    pub recording_dir: Option<String>,
    pub recording_format: String,
}

impl Default for Config {
    /// Candy theme, overview tab, a visible pet named Mochi at the bottom
    /// right, animations on, telemetry every 500 ms, processes every second,
    /// 120 history samples, recordings as CSV in the default directory.
    fn default() -> (c: Config)
        ensures
            c.theme@ == "candy"@,
            c.default_tab@ == "overview"@,
            c.show_pet,
            c.pet_name@ == "Mochi"@,
            c.pet_position@ == "bottom-right"@,
            c.animations,
            c.telemetry_refresh_ms == 500,
            c.process_refresh_ms == 1000,
            c.history_capacity == 120,
            c.recording_dir.is_none(),
            c.recording_format@ == "csv"@,
    {
        Config {
            theme: String::from_str("candy"),
            default_tab: String::from_str("overview"),
            show_pet: true,
            pet_name: String::from_str("Mochi"),
            pet_position: String::from_str("bottom-right"),
            animations: true,
            telemetry_refresh_ms: 500,
            process_refresh_ms: 1000,
            history_capacity: 120,
            recording_dir: None,
            recording_format: String::from_str("csv"),
        }
    }
}

/// The theme named by a normalized (trimmed, lowercase) setting; unknown
/// names give the Candy theme.
pub open spec fn theme_for_name(n: Seq<char>) -> ThemeId {
    if n == "synthwave"@ {
        ThemeId::Synthwave
    } else if n == "aurora"@ {
        ThemeId::Aurora
    } else if n == "cyberpunk"@ {
        ThemeId::Cyberpunk
    } else if n == "ocean"@ {
        ThemeId::Ocean
    } else if n == "amber"@ || n == "amber-crt"@ || n == "ambercrt"@ || n == "amber_crt"@ {
        ThemeId::AmberCrt
    } else if n == "green"@ || n == "green-crt"@ || n == "greencrt"@ || n == "green_crt"@ {
        ThemeId::GreenCrt
    } else if n == "monochrome"@ || n == "mono"@ {
        ThemeId::Monochrome
    } else if n == "rainbow"@ {
        ThemeId::Rainbow
    } else {
        ThemeId::Candy
    }
}

/// The tab named by a normalized setting; unknown names give the overview.
pub open spec fn tab_for_name(n: Seq<char>) -> Tab {
    if n == "cpu"@ {
        Tab::Cpu
    } else if n == "gpu"@ {
        Tab::Gpu
    } else if n == "memory"@ || n == "mem"@ || n == "ram"@ {
        Tab::Memory
    } else if n == "disks"@ || n == "disk"@ || n == "storage"@ {
        Tab::Disks
    } else if n == "network"@ || n == "net"@ {
        Tab::Network
    } else if n == "processes"@ || n == "process"@ || n == "proc"@ || n == "procs"@ {
        Tab::Processes
    } else if n == "sensors"@ || n == "sensor"@ || n == "temp"@ {
        Tab::Sensors
    } else {
        Tab::Overview
    }
}

/// The recording format named by a normalized setting: JSON for "json",
/// "jsonl" or "ndjson", CSV otherwise.
pub open spec fn format_for_name(n: Seq<char>) -> RecordingFormat {
    if n == "json"@ || n == "jsonl"@ || n == "ndjson"@ {
        RecordingFormat::Json
    } else {
        RecordingFormat::Csv
    }
}

/// The theme for a normalized name.
pub fn theme_from_name(n: &str) -> (t: ThemeId)
    ensures
        t == theme_for_name(n@),
{
    if str_equal(n, "synthwave") {
        ThemeId::Synthwave
    } else if str_equal(n, "aurora") {
        ThemeId::Aurora
    } else if str_equal(n, "cyberpunk") {
        ThemeId::Cyberpunk
    } else if str_equal(n, "ocean") {
        ThemeId::Ocean
    } else if str_equal(n, "amber") || str_equal(n, "amber-crt") || str_equal(n, "ambercrt")
        || str_equal(n, "amber_crt") {
        ThemeId::AmberCrt
    } else if str_equal(n, "green") || str_equal(n, "green-crt") || str_equal(n, "greencrt")
        || str_equal(n, "green_crt") {
        ThemeId::GreenCrt
    } else if str_equal(n, "monochrome") || str_equal(n, "mono") {
        ThemeId::Monochrome
    } else if str_equal(n, "rainbow") {
        ThemeId::Rainbow
    } else {
        ThemeId::Candy
    }
}

/// The tab for a normalized name.
pub fn tab_from_name(n: &str) -> (t: Tab)
    ensures
        t == tab_for_name(n@),
{
    if str_equal(n, "cpu") {
        Tab::Cpu
    } else if str_equal(n, "gpu") {
        Tab::Gpu
    } else if str_equal(n, "memory") || str_equal(n, "mem") || str_equal(n, "ram") {
        Tab::Memory
    } else if str_equal(n, "disks") || str_equal(n, "disk") || str_equal(n, "storage") {
        Tab::Disks
    } else if str_equal(n, "network") || str_equal(n, "net") {
        Tab::Network
    } else if str_equal(n, "processes") || str_equal(n, "process") || str_equal(n, "proc")
        || str_equal(n, "procs") {
        Tab::Processes
    } else if str_equal(n, "sensors") || str_equal(n, "sensor") || str_equal(n, "temp") {
        Tab::Sensors
    } else {
        Tab::Overview
    }
}

/// The recording format for a normalized name.
pub fn format_from_name(n: &str) -> (f: RecordingFormat)
    ensures
        f == format_for_name(n@),
{
    if str_equal(n, "json") || str_equal(n, "jsonl") || str_equal(n, "ndjson") {
        RecordingFormat::Json
    } else {
        RecordingFormat::Csv
    }
}

/// The text of an optional string.
pub open spec fn opt_text(o: Option<String>) -> Option<Seq<char>> {
    match o {
        Some(s) => Some(s@),
        None => None,
    }
}

/// A setting that is present and holds more than white space.
pub open spec fn is_set(o: Option<Seq<char>>) -> bool {
    o is Some && spec_trim(o.unwrap()).len() > 0
}

/// The texts of a list of strings.
pub open spec fn texts(v: Seq<String>) -> Seq<Seq<char>> {
    v.map_values(|s: String| s@)
}

/// Components of the configuration file's path, joined in order:
/// `$XDG_CONFIG_HOME/comet/config.toml`, else `$HOME/.config/comet/config.toml`,
/// none when neither variable holds a path.
pub open spec fn config_path_spec(xdg_config_home: Option<Seq<char>>, home: Option<Seq<char>>) -> Option<
    Seq<Seq<char>>,
> {
    if is_set(xdg_config_home) {
        Some(seq![xdg_config_home.unwrap(), "comet"@, "config.toml"@])
    } else if is_set(home) {
        Some(seq![home.unwrap(), ".config"@, "comet"@, "config.toml"@])
    } else {
        None
    }
}

/// Components of the recording directory, joined in order: the configured
/// directory (trimmed, with a leading `~/` replaced by the home directory
/// when one is known); else `$XDG_DATA_HOME/comet/recordings`; else
/// `$HOME/.local/share/comet/recordings`; else `./recordings`.
pub open spec fn recording_dir_spec(
    recording_dir: Option<Seq<char>>,
    home: Option<Seq<char>>,
    xdg_data_home: Option<Seq<char>>,
) -> Seq<Seq<char>> {
    if is_set(recording_dir) {
        let t = spec_trim(recording_dir.unwrap());
        if t.len() >= 2 && t[0] == '~' && t[1] == '/' && home is Some {
            seq![home.unwrap(), t.skip(2)]
        } else {
            seq![t]
        }
    } else if is_set(xdg_data_home) {
        seq![xdg_data_home.unwrap(), "comet"@, "recordings"@]
    } else if is_set(home) {
        seq![home.unwrap(), ".local"@, "share"@, "comet"@, "recordings"@]
    } else {
        seq!["./recordings"@]
    }
}

fn is_set_exec(o: &Option<String>) -> (b: bool)
    ensures
        b == is_set(opt_text(*o)),
{
    match o {
        Some(s) => !str_trim(s.as_str()).is_empty(),
        None => false,
    }
}

impl Config {
    /// The configured theme; names are trimmed and compared without case,
    /// aliases such as "amber-crt" or "mono" are accepted and unknown names
    /// give Candy.
    pub fn parsed_theme(&self) -> (t: ThemeId)
        ensures
            t == theme_for_name(normalized(self.theme@)),
            is_ascii_text(spec_trim(self.theme@)) ==> t == theme_for_name(ascii_lowercase(spec_trim(self.theme@))),
    {
        let n = normalize(self.theme.as_str());
        theme_from_name(n.as_str())
    }

    /// The configured starting tab, read like the theme.
    pub fn parsed_tab(&self) -> (t: Tab)
        ensures
            t == tab_for_name(normalized(self.default_tab@)),
            is_ascii_text(spec_trim(self.default_tab@)) ==> t == tab_for_name(ascii_lowercase(spec_trim(self.default_tab@))),
    {
        let n = normalize(self.default_tab.as_str());
        tab_from_name(n.as_str())
    }

    /// The configured recording format: JSON or CSV.
    pub fn parsed_recording_format(&self) -> (f: RecordingFormat)
        ensures
            f == format_for_name(normalized(self.recording_format@)),
            is_ascii_text(spec_trim(self.recording_format@)) ==> f == format_for_name(ascii_lowercase(spec_trim(self.recording_format@))),
    {
        let n = normalize(self.recording_format.as_str());
        format_from_name(n.as_str())
    }

    /// Components of the configuration file's path, from the values of
    /// `XDG_CONFIG_HOME` and `HOME`.
    pub fn config_path_parts(xdg_config_home: Option<String>, home: Option<String>) -> (r: Option<
        Vec<String>,
    >)
        ensures
            match r {
                Some(v) => config_path_spec(opt_text(xdg_config_home), opt_text(home)) == Some(
                    texts(v@),
                ),
                None => config_path_spec(opt_text(xdg_config_home), opt_text(home)) is None,
            },
    {
        if is_set_exec(&xdg_config_home) {
            let mut v: Vec<String> = Vec::new();
            v.push(xdg_config_home.unwrap());
            v.push(String::from_str("comet"));
            v.push(String::from_str("config.toml"));
            assert(texts(v@) =~= config_path_spec(opt_text(xdg_config_home), opt_text(home)).unwrap());
            Some(v)
        } else if is_set_exec(&home) {
            let mut v: Vec<String> = Vec::new();
            v.push(home.unwrap());
            v.push(String::from_str(".config"));
            v.push(String::from_str("comet"));
            v.push(String::from_str("config.toml"));
            assert(texts(v@) =~= config_path_spec(opt_text(xdg_config_home), opt_text(home)).unwrap());
            Some(v)
        } else {
            None
        }
    }

    /// Components of the recording directory, from the setting and the
    /// values of `HOME` and `XDG_DATA_HOME`.
    pub fn recording_dir_parts(&self, home: Option<String>, xdg_data_home: Option<String>) -> (v:
        Vec<String>)
        ensures
            texts(v@) == recording_dir_spec(
                opt_text(self.recording_dir),
                opt_text(home),
                opt_text(xdg_data_home),
            ),
    {
        let ghost goal = recording_dir_spec(
            opt_text(self.recording_dir),
            opt_text(home),
            opt_text(xdg_data_home),
        );
        let mut v: Vec<String> = Vec::new();
        if is_set_exec(&self.recording_dir) {
            let dir = self.recording_dir.as_ref().unwrap();
            let t = str_trim(dir.as_str());
            let n = t.unicode_len();
            let tilde = n >= 2 && t.get_char(0) == '~' && t.get_char(1) == '/';
            if tilde && home.is_some() {
                v.push(home.unwrap());
                v.push(String::from_str(t.substring_char(2, n)));
                assert(t@.subrange(2, n as int) =~= t@.skip(2));
            } else {
                v.push(String::from_str(t));
            }
        } else if is_set_exec(&xdg_data_home) {
            v.push(xdg_data_home.unwrap());
            v.push(String::from_str("comet"));
            v.push(String::from_str("recordings"));
        } else if is_set_exec(&home) {
            v.push(home.unwrap());
            v.push(String::from_str(".local"));
            v.push(String::from_str("share"));
            v.push(String::from_str("comet"));
            v.push(String::from_str("recordings"));
        } else {
            v.push(String::from_str("./recordings"));
        }
        assert(texts(v@) =~= goal);
        v
    }
}

/// A display name as a setting writes it: lowercase, spaces as hyphens.
pub open spec fn slug(s: Seq<char>) -> Seq<char> {
    s.map_values(|c: char| if c == ' ' { '-' } else { ascii_lower(c) })
}

/// Every built-in theme is read back from its display name written as a
/// setting ("Amber CRT" as "amber-crt").
pub proof fn lemma_theme_names_read_back(id: ThemeId)
    ensures
        theme_for_name(slug(theme_name(id))) == id,
{
        reveal_strlit("Candy");
        reveal_strlit("Synthwave");
        reveal_strlit("Aurora");
        reveal_strlit("Cyberpunk");
        reveal_strlit("Ocean");
        reveal_strlit("Amber CRT");
        reveal_strlit("Green CRT");
        reveal_strlit("Monochrome");
        reveal_strlit("Rainbow");
        reveal_strlit("candy");
        reveal_strlit("synthwave");
        reveal_strlit("aurora");
        reveal_strlit("cyberpunk");
        reveal_strlit("ocean");
        reveal_strlit("amber");
        reveal_strlit("amber-crt");
        reveal_strlit("ambercrt");
        reveal_strlit("amber_crt");
        reveal_strlit("green");
        reveal_strlit("green-crt");
        reveal_strlit("greencrt");
        reveal_strlit("green_crt");
        reveal_strlit("monochrome");
        reveal_strlit("mono");
        reveal_strlit("rainbow");
    match id {
        ThemeId::Candy => {
            assert(slug(theme_name(id)) =~= "candy"@);
            assert("candy"@.len() != "synthwave"@.len());
            assert("candy"@ != "synthwave"@);
            assert("candy"@.len() != "aurora"@.len());
            assert("candy"@ != "aurora"@);
            assert("candy"@.len() != "cyberpunk"@.len());
            assert("candy"@ != "cyberpunk"@);
            assert("candy"@[0] != "ocean"@[0]);
            assert("candy"@ != "ocean"@);
            assert("candy"@[0] != "amber"@[0]);
            assert("candy"@ != "amber"@);
            assert("candy"@.len() != "amber-crt"@.len());
            assert("candy"@ != "amber-crt"@);
            assert("candy"@.len() != "ambercrt"@.len());
            assert("candy"@ != "ambercrt"@);
            assert("candy"@.len() != "amber_crt"@.len());
            assert("candy"@ != "amber_crt"@);
            assert("candy"@[0] != "green"@[0]);
            assert("candy"@ != "green"@);
            assert("candy"@.len() != "green-crt"@.len());
            assert("candy"@ != "green-crt"@);
            assert("candy"@.len() != "greencrt"@.len());
            assert("candy"@ != "greencrt"@);
            assert("candy"@.len() != "green_crt"@.len());
            assert("candy"@ != "green_crt"@);
            assert("candy"@.len() != "monochrome"@.len());
            assert("candy"@ != "monochrome"@);
            assert("candy"@.len() != "mono"@.len());
            assert("candy"@ != "mono"@);
            assert("candy"@.len() != "rainbow"@.len());
            assert("candy"@ != "rainbow"@);
        },
        ThemeId::Synthwave => {
            assert(slug(theme_name(id)) =~= "synthwave"@);

        },
        ThemeId::Aurora => {
            assert(slug(theme_name(id)) =~= "aurora"@);
            assert("aurora"@.len() != "synthwave"@.len());
            assert("aurora"@ != "synthwave"@);
        },
        ThemeId::Cyberpunk => {
            assert(slug(theme_name(id)) =~= "cyberpunk"@);
            assert("cyberpunk"@[0] != "synthwave"@[0]);
            assert("cyberpunk"@ != "synthwave"@);
            assert("cyberpunk"@.len() != "aurora"@.len());
            assert("cyberpunk"@ != "aurora"@);
        },
        ThemeId::Ocean => {
            assert(slug(theme_name(id)) =~= "ocean"@);
            assert("ocean"@.len() != "synthwave"@.len());
            assert("ocean"@ != "synthwave"@);
            assert("ocean"@.len() != "aurora"@.len());
            assert("ocean"@ != "aurora"@);
            assert("ocean"@.len() != "cyberpunk"@.len());
            assert("ocean"@ != "cyberpunk"@);
        },
        ThemeId::AmberCrt => {
            assert(slug(theme_name(id)) =~= "amber-crt"@);
            assert("amber-crt"@[0] != "synthwave"@[0]);
            assert("amber-crt"@ != "synthwave"@);
            assert("amber-crt"@.len() != "aurora"@.len());
            assert("amber-crt"@ != "aurora"@);
            assert("amber-crt"@[0] != "cyberpunk"@[0]);
            assert("amber-crt"@ != "cyberpunk"@);
            assert("amber-crt"@.len() != "ocean"@.len());
            assert("amber-crt"@ != "ocean"@);
            assert("amber-crt"@.len() != "amber"@.len());
            assert("amber-crt"@ != "amber"@);
        },
        ThemeId::GreenCrt => {
            assert(slug(theme_name(id)) =~= "green-crt"@);
            assert("green-crt"@[0] != "synthwave"@[0]);
            assert("green-crt"@ != "synthwave"@);
            assert("green-crt"@.len() != "aurora"@.len());
            assert("green-crt"@ != "aurora"@);
            assert("green-crt"@[0] != "cyberpunk"@[0]);
            assert("green-crt"@ != "cyberpunk"@);
            assert("green-crt"@.len() != "ocean"@.len());
            assert("green-crt"@ != "ocean"@);
            assert("green-crt"@.len() != "amber"@.len());
            assert("green-crt"@ != "amber"@);
            assert("green-crt"@[0] != "amber-crt"@[0]);
            assert("green-crt"@ != "amber-crt"@);
            assert("green-crt"@.len() != "ambercrt"@.len());
            assert("green-crt"@ != "ambercrt"@);
            assert("green-crt"@[0] != "amber_crt"@[0]);
            assert("green-crt"@ != "amber_crt"@);
            assert("green-crt"@.len() != "green"@.len());
            assert("green-crt"@ != "green"@);
        },
        ThemeId::Monochrome => {
            assert(slug(theme_name(id)) =~= "monochrome"@);
            assert("monochrome"@.len() != "synthwave"@.len());
            assert("monochrome"@ != "synthwave"@);
            assert("monochrome"@.len() != "aurora"@.len());
            assert("monochrome"@ != "aurora"@);
            assert("monochrome"@.len() != "cyberpunk"@.len());
            assert("monochrome"@ != "cyberpunk"@);
            assert("monochrome"@.len() != "ocean"@.len());
            assert("monochrome"@ != "ocean"@);
            assert("monochrome"@.len() != "amber"@.len());
            assert("monochrome"@ != "amber"@);
            assert("monochrome"@.len() != "amber-crt"@.len());
            assert("monochrome"@ != "amber-crt"@);
            assert("monochrome"@.len() != "ambercrt"@.len());
            assert("monochrome"@ != "ambercrt"@);
            assert("monochrome"@.len() != "amber_crt"@.len());
            assert("monochrome"@ != "amber_crt"@);
            assert("monochrome"@.len() != "green"@.len());
            assert("monochrome"@ != "green"@);
            assert("monochrome"@.len() != "green-crt"@.len());
            assert("monochrome"@ != "green-crt"@);
            assert("monochrome"@.len() != "greencrt"@.len());
            assert("monochrome"@ != "greencrt"@);
            assert("monochrome"@.len() != "green_crt"@.len());
            assert("monochrome"@ != "green_crt"@);
        },
        ThemeId::Rainbow => {
            assert(slug(theme_name(id)) =~= "rainbow"@);
            assert("rainbow"@.len() != "synthwave"@.len());
            assert("rainbow"@ != "synthwave"@);
            assert("rainbow"@.len() != "aurora"@.len());
            assert("rainbow"@ != "aurora"@);
            assert("rainbow"@.len() != "cyberpunk"@.len());
            assert("rainbow"@ != "cyberpunk"@);
            assert("rainbow"@.len() != "ocean"@.len());
            assert("rainbow"@ != "ocean"@);
            assert("rainbow"@.len() != "amber"@.len());
            assert("rainbow"@ != "amber"@);
            assert("rainbow"@.len() != "amber-crt"@.len());
            assert("rainbow"@ != "amber-crt"@);
            assert("rainbow"@.len() != "ambercrt"@.len());
            assert("rainbow"@ != "ambercrt"@);
            assert("rainbow"@.len() != "amber_crt"@.len());
            assert("rainbow"@ != "amber_crt"@);
            assert("rainbow"@.len() != "green"@.len());
            assert("rainbow"@ != "green"@);
            assert("rainbow"@.len() != "green-crt"@.len());
            assert("rainbow"@ != "green-crt"@);
            assert("rainbow"@.len() != "greencrt"@.len());
            assert("rainbow"@ != "greencrt"@);
            assert("rainbow"@.len() != "green_crt"@.len());
            assert("rainbow"@ != "green_crt"@);
            assert("rainbow"@.len() != "monochrome"@.len());
            assert("rainbow"@ != "monochrome"@);
            assert("rainbow"@.len() != "mono"@.len());
            assert("rainbow"@ != "mono"@);
        },
    }
}

/// Every tab is read back from its title without the number ("4:Memory" as
/// "memory").
pub proof fn lemma_tab_names_read_back(t: Tab)
    ensures
        tab_for_name(slug(tab_titles()[tab_index(t) as int].skip(2))) == t,
{
        reveal_strlit("1:Overview");
        reveal_strlit("2:CPU");
        reveal_strlit("3:GPU");
        reveal_strlit("4:Memory");
        reveal_strlit("5:Disks");
        reveal_strlit("6:Network");
        reveal_strlit("7:Processes");
        reveal_strlit("8:Sensors");
        reveal_strlit("overview");
        reveal_strlit("cpu");
        reveal_strlit("gpu");
        reveal_strlit("memory");
        reveal_strlit("disks");
        reveal_strlit("network");
        reveal_strlit("processes");
        reveal_strlit("sensors");
        reveal_strlit("cpu");
        reveal_strlit("gpu");
        reveal_strlit("memory");
        reveal_strlit("mem");
        reveal_strlit("ram");
        reveal_strlit("disks");
        reveal_strlit("disk");
        reveal_strlit("storage");
        reveal_strlit("network");
        reveal_strlit("net");
        reveal_strlit("processes");
        reveal_strlit("process");
        reveal_strlit("proc");
        reveal_strlit("procs");
        reveal_strlit("sensors");
        reveal_strlit("sensor");
        reveal_strlit("temp");
    match t {
        Tab::Overview => {
            assert(slug(tab_titles()[0].skip(2)) =~= "overview"@);
            assert("overview"@.len() != "cpu"@.len());
            assert("overview"@ != "cpu"@);
            assert("overview"@.len() != "gpu"@.len());
            assert("overview"@ != "gpu"@);
            assert("overview"@.len() != "memory"@.len());
            assert("overview"@ != "memory"@);
            assert("overview"@.len() != "mem"@.len());
            assert("overview"@ != "mem"@);
            assert("overview"@.len() != "ram"@.len());
            assert("overview"@ != "ram"@);
            assert("overview"@.len() != "disks"@.len());
            assert("overview"@ != "disks"@);
            assert("overview"@.len() != "disk"@.len());
            assert("overview"@ != "disk"@);
            assert("overview"@.len() != "storage"@.len());
            assert("overview"@ != "storage"@);
            assert("overview"@.len() != "network"@.len());
            assert("overview"@ != "network"@);
            assert("overview"@.len() != "net"@.len());
            assert("overview"@ != "net"@);
            assert("overview"@.len() != "processes"@.len());
            assert("overview"@ != "processes"@);
            assert("overview"@.len() != "process"@.len());
            assert("overview"@ != "process"@);
            assert("overview"@.len() != "proc"@.len());
            assert("overview"@ != "proc"@);
            assert("overview"@.len() != "procs"@.len());
            assert("overview"@ != "procs"@);
            assert("overview"@.len() != "sensors"@.len());
            assert("overview"@ != "sensors"@);
            assert("overview"@.len() != "sensor"@.len());
            assert("overview"@ != "sensor"@);
            assert("overview"@.len() != "temp"@.len());
            assert("overview"@ != "temp"@);
        },
        Tab::Cpu => {
            assert(slug(tab_titles()[1].skip(2)) =~= "cpu"@);
        },
        Tab::Gpu => {
            assert(slug(tab_titles()[2].skip(2)) =~= "gpu"@);
            assert("gpu"@[0] != "cpu"@[0]);
            assert("gpu"@ != "cpu"@);
        },
        Tab::Memory => {
            assert(slug(tab_titles()[3].skip(2)) =~= "memory"@);
            assert("memory"@.len() != "cpu"@.len());
            assert("memory"@ != "cpu"@);
            assert("memory"@.len() != "gpu"@.len());
            assert("memory"@ != "gpu"@);
        },
        Tab::Disks => {
            assert(slug(tab_titles()[4].skip(2)) =~= "disks"@);
            assert("disks"@.len() != "cpu"@.len());
            assert("disks"@ != "cpu"@);
            assert("disks"@.len() != "gpu"@.len());
            assert("disks"@ != "gpu"@);
            assert("disks"@.len() != "memory"@.len());
            assert("disks"@ != "memory"@);
            assert("disks"@.len() != "mem"@.len());
            assert("disks"@ != "mem"@);
            assert("disks"@.len() != "ram"@.len());
            assert("disks"@ != "ram"@);
        },
        Tab::Network => {
            assert(slug(tab_titles()[5].skip(2)) =~= "network"@);
            assert("network"@.len() != "cpu"@.len());
            assert("network"@ != "cpu"@);
            assert("network"@.len() != "gpu"@.len());
            assert("network"@ != "gpu"@);
            assert("network"@.len() != "memory"@.len());
            assert("network"@ != "memory"@);
            assert("network"@.len() != "mem"@.len());
            assert("network"@ != "mem"@);
            assert("network"@.len() != "ram"@.len());
            assert("network"@ != "ram"@);
            assert("network"@.len() != "disks"@.len());
            assert("network"@ != "disks"@);
            assert("network"@.len() != "disk"@.len());
            assert("network"@ != "disk"@);
            assert("network"@[0] != "storage"@[0]);
            assert("network"@ != "storage"@);
        },
        Tab::Processes => {
            assert(slug(tab_titles()[6].skip(2)) =~= "processes"@);
            assert("processes"@.len() != "cpu"@.len());
            assert("processes"@ != "cpu"@);
            assert("processes"@.len() != "gpu"@.len());
            assert("processes"@ != "gpu"@);
            assert("processes"@.len() != "memory"@.len());
            assert("processes"@ != "memory"@);
            assert("processes"@.len() != "mem"@.len());
            assert("processes"@ != "mem"@);
            assert("processes"@.len() != "ram"@.len());
            assert("processes"@ != "ram"@);
            assert("processes"@.len() != "disks"@.len());
            assert("processes"@ != "disks"@);
            assert("processes"@.len() != "disk"@.len());
            assert("processes"@ != "disk"@);
            assert("processes"@.len() != "storage"@.len());
            assert("processes"@ != "storage"@);
            assert("processes"@.len() != "network"@.len());
            assert("processes"@ != "network"@);
            assert("processes"@.len() != "net"@.len());
            assert("processes"@ != "net"@);
        },
        Tab::Sensors => {
            assert(slug(tab_titles()[7].skip(2)) =~= "sensors"@);
            assert("sensors"@.len() != "cpu"@.len());
            assert("sensors"@ != "cpu"@);
            assert("sensors"@.len() != "gpu"@.len());
            assert("sensors"@ != "gpu"@);
            assert("sensors"@.len() != "memory"@.len());
            assert("sensors"@ != "memory"@);
            assert("sensors"@.len() != "mem"@.len());
            assert("sensors"@ != "mem"@);
            assert("sensors"@.len() != "ram"@.len());
            assert("sensors"@ != "ram"@);
            assert("sensors"@.len() != "disks"@.len());
            assert("sensors"@ != "disks"@);
            assert("sensors"@.len() != "disk"@.len());
            assert("sensors"@ != "disk"@);
            assert("sensors"@[1] != "storage"@[1]);
            assert("sensors"@ != "storage"@);
            assert("sensors"@[0] != "network"@[0]);
            assert("sensors"@ != "network"@);
            assert("sensors"@.len() != "net"@.len());
            assert("sensors"@ != "net"@);
            assert("sensors"@.len() != "processes"@.len());
            assert("sensors"@ != "processes"@);
            assert("sensors"@[0] != "process"@[0]);
            assert("sensors"@ != "process"@);
            assert("sensors"@.len() != "proc"@.len());
            assert("sensors"@ != "proc"@);
            assert("sensors"@.len() != "procs"@.len());
            assert("sensors"@ != "procs"@);
        },
    }
}

/// Each recording format is read back from its file extension.
pub proof fn lemma_format_names_read_back(f: RecordingFormat)
    ensures
        format_for_name(f.spec_extension()) == f,
{
    reveal_strlit("csv");
    reveal_strlit("json");
    reveal_strlit("jsonl");
    reveal_strlit("ndjson");
    assert("csv"@.len() != "json"@.len());
    assert("csv"@.len() != "jsonl"@.len());
    assert("csv"@[0] != "ndjson"@[0]);
}

} // verus!

