//! Recording formats, UTC timestamps and the text that names and fills a
//! recording file.
use vstd::prelude::*;
use std::time::SystemTime;
use crate::calendar::{civil_date, civil_from_days};
use crate::text::{decimal, push_chars, push_zero_padded, string_push, zero_pad};

verus! {

/// File format of a telemetry recording.
#[derive(Debug, Clone, Copy, PartialEq, Eq, Structural)]
pub enum RecordingFormat {
    Csv,
    Json,
}

impl RecordingFormat {
    pub open spec fn spec_extension(self) -> Seq<char> {
        match self {
            RecordingFormat::Csv => "csv"@,
            RecordingFormat::Json => "json"@,
        }
    }

    /// File extension of the format.
    pub fn extension(&self) -> (e: &'static str)
        ensures
            e@ == self.spec_extension(),
    {
        match self {
            RecordingFormat::Csv => "csv",
            RecordingFormat::Json => "json",
        }
    }
}

/// A number written with at least two digits.
pub open spec fn two_digits(n: nat) -> Seq<char> {
    zero_pad(decimal(n), 2)
}

pub open spec fn utc_year(secs: nat) -> nat {
    civil_date((secs / 86400) as int).0 as nat
}

pub open spec fn utc_month(secs: nat) -> nat {
    civil_date((secs / 86400) as int).1 as nat
}

pub open spec fn utc_day(secs: nat) -> nat {
    civil_date((secs / 86400) as int).2 as nat
}

pub open spec fn utc_hour(secs: nat) -> nat {
    (secs % 86400) / 3600
}

pub open spec fn utc_minute(secs: nat) -> nat {
    (secs % 3600) / 60
}

pub open spec fn utc_second(secs: nat) -> nat {
    secs % 60
}

/// ISO 8601 text `YYYY-MM-DDTHH:MM:SSZ` of the instant `secs` seconds after
/// the Unix epoch.
pub open spec fn utc_iso_text(secs: nat) -> Seq<char> {
    zero_pad(decimal(utc_year(secs)), 4) + seq!['-'] + two_digits(utc_month(secs)) + seq!['-']
        + two_digits(utc_day(secs)) + seq!['T'] + two_digits(utc_hour(secs)) + seq![':']
        + two_digits(utc_minute(secs)) + seq![':'] + two_digits(utc_second(secs)) + seq!['Z']
}

/// File-name-safe text `YYYYMMDD_HHMMSS` of the same instant.
pub open spec fn utc_file_text(secs: nat) -> Seq<char> {
    zero_pad(decimal(utc_year(secs)), 4) + two_digits(utc_month(secs)) + two_digits(utc_day(secs))
        + seq!['_'] + two_digits(utc_hour(secs)) + two_digits(utc_minute(secs))
        + two_digits(utc_second(secs))
}

/// The ISO 8601 text and the file-name text of the UTC instant `secs`
/// seconds after the Unix epoch.
pub fn format_utc_seconds(secs: u64) -> (r: (String, String))
    ensures
        r.0@ == utc_iso_text(secs as nat),
        r.1@ == utc_file_text(secs as nat),
{
    let days = secs / 86400;
    let sod = secs % 86400;
    let hour = sod / 3600;
    let minute = (sod % 3600) / 60;
    let second = sod % 60;
    proof {
        assert((secs % 3600) == (sod % 3600)) by {
            vstd::arithmetic::div_mod::lemma_fundamental_div_mod(secs as int, 86400);
            vstd::arithmetic::div_mod::lemma_mod_mod(secs as int, 3600, 24);
        }
        assert((secs % 60) == (sod % 60)) by {
            vstd::arithmetic::div_mod::lemma_mod_mod(secs as int, 60, 1440);
        }
    }
    let (y, m, d) = civil_from_days(days);
    let mut iso = String::new();
    push_zero_padded(&mut iso, y as u128, 4);
    string_push(&mut iso, '-');
    push_zero_padded(&mut iso, m as u128, 2);
    string_push(&mut iso, '-');
    push_zero_padded(&mut iso, d as u128, 2);
    string_push(&mut iso, 'T');
    push_zero_padded(&mut iso, hour as u128, 2);
    string_push(&mut iso, ':');
    push_zero_padded(&mut iso, minute as u128, 2);
    string_push(&mut iso, ':');
    push_zero_padded(&mut iso, second as u128, 2);
    string_push(&mut iso, 'Z');
    let mut file = String::new();
    push_zero_padded(&mut file, y as u128, 4);
    push_zero_padded(&mut file, m as u128, 2);
    push_zero_padded(&mut file, d as u128, 2);
    string_push(&mut file, '_');
    push_zero_padded(&mut file, hour as u128, 2);
    push_zero_padded(&mut file, minute as u128, 2);
    push_zero_padded(&mut file, second as u128, 2);
    proof {
        assert(iso@ =~= utc_iso_text(secs as nat));
        assert(file@ =~= utc_file_text(secs as nat));
    }
    (iso, file)
}

/// Declares std's `SystemTime` so that a time can be handed through.
#[verifier::external_type_specification]
#[verifier::external_body]
pub struct ExSystemTime(std::time::SystemTime);

/// Whole seconds from the Unix epoch to `time`, as
/// `time.duration_since(UNIX_EPOCH)` gives them (zero for an earlier time).
pub uninterp spec fn unix_secs_of(time: SystemTime) -> u64;

/// `SystemTime::duration_since(UNIX_EPOCH)`, an error (a time before the
/// epoch) read as zero, in whole seconds (`Duration::as_secs`). The contract
/// names the result as a function of the time.
#[verifier::external_body]
fn unix_seconds(time: SystemTime) -> (r: u64)
    ensures
        r == unix_secs_of(time),
{
    time.duration_since(std::time::UNIX_EPOCH).unwrap_or_default().as_secs()
}

/// Converts a `SystemTime` into its UTC ISO 8601 text and a file-name-safe
/// timestamp (`YYYYMMDD_HHMMSS`); times before the epoch count as the epoch.
pub fn format_utc_timestamp(time: SystemTime) -> (r: (String, String))
    ensures
        r.0@ == utc_iso_text(unix_secs_of(time) as nat),
        r.1@ == utc_file_text(unix_secs_of(time) as nat),
{
    let secs = unix_seconds(time);
    format_utc_seconds(secs)
}

/// Name of a recording file: `comet_telemetry_<stamp>.<extension>`.
pub open spec fn recording_file_name_text(stamp: Seq<char>, format: RecordingFormat) -> Seq<char> {
    "comet_telemetry_"@ + stamp + seq!['.'] + format.spec_extension()
}

pub fn recording_file_name(stamp: &str, format: RecordingFormat) -> (name: String)
    ensures
        name@ == recording_file_name_text(stamp@, format),
{
    let mut name = String::from_str("comet_telemetry_");
    name.append(stamp);
    string_push(&mut name, '.');
    name.append(format.extension());
    name
}

/// A CSV field: the text between double quotes, each quote doubled.
pub open spec fn csv_escape(s: Seq<char>) -> Seq<char>
    decreases s.len(),
{
    if s.len() == 0 {
        Seq::empty()
    } else {
        let rest = csv_escape(s.drop_last());
        if s.last() == '"' {
            rest + seq!['"', '"']
        } else {
            rest.push(s.last())
        }
    }
}

pub open spec fn csv_quoted(s: Seq<char>) -> Seq<char> {
    seq!['"'] + csv_escape(s) + seq!['"']
}

/// Quotes `s` as one CSV field.
pub fn csv_quote(s: &str) -> (q: String)
    ensures
        q@ == csv_quoted(s@),
{
    let mut q = String::new();
    string_push(&mut q, '"');
    let ghost start = q@;
    for c in it: s.chars()
        invariant
            it.seq() == s@,
            q@ == start + csv_escape(s@.take(it.index() as int)),
            start == seq!['"'],
    {
        let ghost before = it.index();
        assert(s@.take(before + 1).drop_last() == s@.take(before as int));
        if c == '"' {
            string_push(&mut q, '"');
            string_push(&mut q, '"');
        } else {
            string_push(&mut q, c);
        }
    }
    assert(s@.take(s@.len() as int) == s@);
    string_push(&mut q, '"');
    q
}

/// Column names of a CSV recording.
pub open spec fn csv_header_text() -> Seq<char> {
    "timestamp_utc,elapsed_seconds,cpu_overall_percent,cpu_cores_count,ram_used_bytes,ram_total_bytes,ram_used_percent,swap_used_bytes,swap_total_bytes,swap_used_percent,gpu_vendor,gpu_name,gpu_util_percent,gpu_vram_used_bytes,gpu_vram_total_bytes,gpu_temp_c,gpu_power_watts,disk_read_bytes_sec,disk_write_bytes_sec,net_rx_bytes_sec,net_tx_bytes_sec,max_sensor_temp_c"@
}

/// The framing of an open recording file: what is written when it opens,
/// before each sample and when it closes, and how many samples it holds.
#[derive(Debug, Clone, Copy, PartialEq, Eq, Structural)]
pub struct RecordingSession {
    pub format: RecordingFormat,
    pub sample_count: usize,
}

/// Text written when a recording opens: the CSV header line, or the opening
/// bracket of a JSON array.
pub open spec fn session_header_text(format: RecordingFormat) -> Seq<char> {
    match format {
        RecordingFormat::Csv => csv_header_text() + "\n"@,
        RecordingFormat::Json => "[\n"@,
    }
}

/// Text written before a sample: nothing for CSV; for JSON an indent, after
/// a separating comma and line break if a sample came before.
pub open spec fn sample_prefix_text(format: RecordingFormat, count: nat) -> Seq<char> {
    match format {
        RecordingFormat::Csv => ""@,
        RecordingFormat::Json => if count > 0 { ",\n  "@ } else { "  "@ },
    }
}

/// Text written after a sample: a line break for CSV, nothing for JSON.
pub open spec fn sample_suffix_text(format: RecordingFormat) -> Seq<char> {
    match format {
        RecordingFormat::Csv => "\n"@,
        RecordingFormat::Json => ""@,
    }
}

/// Text written when a recording closes: nothing for CSV, the closing
/// bracket of the JSON array on a line of its own.
pub open spec fn session_footer_text(format: RecordingFormat) -> Seq<char> {
    match format {
        RecordingFormat::Csv => ""@,
        RecordingFormat::Json => "\n]\n"@,
    }
}

impl RecordingSession {
    /// A session that holds no sample yet.
    pub fn new(format: RecordingFormat) -> (s: RecordingSession)
        ensures
            s.format == format,
            s.sample_count == 0,
    {
        RecordingSession { format, sample_count: 0 }
    }

    pub fn header(&self) -> (t: String)
        ensures
            t@ == session_header_text(self.format),
    {
        match self.format {
            RecordingFormat::Csv => {
                let mut t = String::from_str("timestamp_utc,elapsed_seconds,cpu_overall_percent,cpu_cores_count,ram_used_bytes,ram_total_bytes,ram_used_percent,swap_used_bytes,swap_total_bytes,swap_used_percent,gpu_vendor,gpu_name,gpu_util_percent,gpu_vram_used_bytes,gpu_vram_total_bytes,gpu_temp_c,gpu_power_watts,disk_read_bytes_sec,disk_write_bytes_sec,net_rx_bytes_sec,net_tx_bytes_sec,max_sensor_temp_c");
                t.append("\n");
                t
            },
            RecordingFormat::Json => String::from_str("[\n"),
        }
    }

    pub fn sample_prefix(&self) -> (t: &'static str)
        ensures
            t@ == sample_prefix_text(self.format, self.sample_count as nat),
    {
        match self.format {
            RecordingFormat::Csv => "",
            RecordingFormat::Json => if self.sample_count > 0 { ",\n  " } else { "  " },
        }
    }

    pub fn sample_suffix(&self) -> (t: &'static str)
        ensures
            t@ == sample_suffix_text(self.format),
    {
        match self.format {
            RecordingFormat::Csv => "\n",
            RecordingFormat::Json => "",
        }
    }

    pub fn footer(&self) -> (t: &'static str)
        ensures
            t@ == session_footer_text(self.format),
    {
        match self.format {
            RecordingFormat::Csv => "",
            RecordingFormat::Json => "\n]\n",
        }
    }

    /// Counts a written sample.
    pub fn note_sample(&mut self)
        requires
            old(self).sample_count < usize::MAX,
        ensures
            final(self).sample_count == old(self).sample_count + 1,
            final(self).format == old(self).format,
    {
        self.sample_count = self.sample_count + 1;
    }
}

/// The text of a whole recording: header, each sample with its prefix and
/// suffix, footer.
pub open spec fn recording_text(format: RecordingFormat, samples: Seq<Seq<char>>) -> Seq<char>
    decreases samples.len(),
{
    if samples.len() == 0 {
        session_header_text(format)
    } else {
        recording_text(format, samples.drop_last()) + sample_prefix_text(format, (samples.len() - 1) as nat)
            + samples.last() + sample_suffix_text(format)
    }
}

proof fn lemma_json_text(samples: Seq<Seq<char>>)
    ensures
        recording_text(RecordingFormat::Json, samples) == "[\n"@ + json_body(samples),
    decreases samples.len(),
{
    reveal_strlit("");
    if samples.len() == 0 {
        assert("[\n"@ + json_body(samples) =~= "[\n"@);
    } else {
        lemma_json_text(samples.drop_last());
        if samples.len() == 1 {
            assert(samples.drop_last().len() == 0);
            assert(json_body(samples.drop_last()) =~= Seq::<char>::empty());
            assert(recording_text(RecordingFormat::Json, samples) =~= "[\n"@ + json_body(samples));
        } else {
            assert(recording_text(RecordingFormat::Json, samples) =~= "[\n"@ + json_body(samples));
        }
    }
}

/// A JSON recording of samples `s1, ..., sn` reads `[`, the samples
/// separated by commas and line breaks, then `]`: a well-formed JSON array.
pub proof fn lemma_json_recording_shape(samples: Seq<Seq<char>>)
    ensures
        recording_text(RecordingFormat::Json, samples) + session_footer_text(RecordingFormat::Json)
            == "[\n"@ + json_body(samples) + "\n]\n"@,
{
    lemma_json_text(samples);
}

/// The samples of a JSON array, each indented, separated by ",\n".
pub open spec fn json_body(samples: Seq<Seq<char>>) -> Seq<char>
    decreases samples.len(),
{
    if samples.len() == 0 {
        Seq::empty()
    } else if samples.len() == 1 {
        "  "@ + samples[0]
    } else {
        json_body(samples.drop_last()) + ",\n  "@ + samples.last()
    }
}

/// The samples of a CSV recording, each on a line of its own.
pub open spec fn csv_body(samples: Seq<Seq<char>>) -> Seq<char>
    decreases samples.len(),
{
    if samples.len() == 0 {
        Seq::empty()
    } else {
        csv_body(samples.drop_last()) + samples.last() + "\n"@
    }
}

/// A CSV recording of samples `s1, ..., sn` reads the header line, then each
/// sample on a line of its own, and closes with nothing more.
pub proof fn lemma_csv_recording_shape(samples: Seq<Seq<char>>)
    ensures
        recording_text(RecordingFormat::Csv, samples) + session_footer_text(RecordingFormat::Csv)
            == csv_header_text() + "\n"@ + csv_body(samples),
    decreases samples.len(),
{
    reveal_strlit("");
    if samples.len() == 0 {
        assert(csv_header_text() + "\n"@ + csv_body(samples) =~= csv_header_text() + "\n"@);
        assert(recording_text(RecordingFormat::Csv, samples) + ""@ =~= recording_text(RecordingFormat::Csv, samples));
    } else {
        lemma_csv_recording_shape(samples.drop_last());
        assert(recording_text(RecordingFormat::Csv, samples.drop_last()) + ""@ =~= recording_text(
            RecordingFormat::Csv,
            samples.drop_last(),
        ));
        assert(recording_text(RecordingFormat::Csv, samples) + ""@ =~= csv_header_text() + "\n"@
            + csv_body(samples));
    }
}

} // verus!
