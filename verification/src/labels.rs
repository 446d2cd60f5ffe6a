//! Texts of the dashboard's panels: header, footer, GPU and process panels,
//! the signal dialog, and the placement of gauges in a grid.
use vstd::prelude::*;
use vstd::string::StringSliceAdditionalSpecFns;
use vstd::utf8::{decode_utf8, encode_utf8, is_char_boundary};
use crate::meter::{format_bytes, format_bytes_text};
use crate::processes::{ProcessEntry, ProcessSortBy};
use crate::telemetry::{signal_name, uptime_text, vendor_text, GpuVendor, ProcessSignal, SystemInfo};
use crate::text::{decimal, push_decimal, push_zero_padded, zero_pad};

verus! {

/// Badge shown while a recording runs: minutes and seconds of recording,
/// then the number of samples, as in "● REC 01:05 (42)".
pub open spec fn recording_badge_text(count: nat, elapsed_secs: nat) -> Seq<char> {
    "\u{25CF} REC "@ + zero_pad(decimal(elapsed_secs / 60), 2) + ":"@ + zero_pad(
        decimal(elapsed_secs % 60),
        2,
    ) + " ("@ + decimal(count) + ")"@
}

pub fn recording_badge(count: usize, elapsed_secs: u64) -> (s: String)
    ensures
        s@ == recording_badge_text(count as nat, elapsed_secs as nat),
{
    let mut s = String::from_str("\u{25CF} REC ");
    push_zero_padded(&mut s, (elapsed_secs / 60) as u128, 2);
    s.append(":");
    push_zero_padded(&mut s, (elapsed_secs % 60) as u128, 2);
    s.append(" (");
    push_decimal(&mut s, count as u128);
    s.append(")");
    s
}

/// "Host: <name> | Up: <uptime>".
pub open spec fn host_text(host_name: Seq<char>, uptime_seconds: nat) -> Seq<char> {
    "Host: "@ + host_name + " | Up: "@ + uptime_text(uptime_seconds)
}

pub fn header_host_text(info: &SystemInfo) -> (s: String)
    ensures
        s@ == host_text(info.host_name@, info.uptime_seconds as nat),
{
    let mut s = String::from_str("Host: ");
    s.append(info.host_name.as_str());
    s.append(" | Up: ");
    let up = info.formatted_uptime();
    s.append(up.as_str());
    s
}

/// The vendor and driver of a graphics card, as the footer names it.
#[derive(Debug, Clone)]
pub struct GpuLabel {
    pub vendor: GpuVendor,
    pub driver: String,
}

/// The footer's GPU text: the card at `selected` among `gpus`, or else the
/// primary card; "GPU (i/n): vendor [driver]" when there are several cards,
/// "GPU: vendor [driver]" otherwise, "GPU: None" without a card.
pub open spec fn gpu_status(gpus: Seq<GpuLabel>, fallback: Option<GpuLabel>, selected: nat) -> Seq<char> {
    let active = if selected < gpus.len() { Some(gpus[selected as int]) } else { fallback };
    match active {
        Some(g) => {
            let multi = if gpus.len() > 1 {
                " ("@ + decimal(selected + 1) + "/"@ + decimal(gpus.len()) + ")"@
            } else {
                Seq::empty()
            };
            "GPU"@ + multi + ": "@ + vendor_text(g.vendor) + " ["@ + g.driver@ + "]"@
        },
        None => "GPU: None"@,
    }
}

pub fn gpu_status_text(gpus: &Vec<GpuLabel>, fallback: &Option<GpuLabel>, selected: usize) -> (s:
    String)
    requires
        selected < usize::MAX,
    ensures
        s@ == gpu_status(gpus@, *fallback, selected as nat),
{
    let active: Option<&GpuLabel> = if selected < gpus.len() {
        Some(&gpus[selected])
    } else {
        match fallback {
            Some(g) => Some(g),
            None => None,
        }
    };
    match active {
        Some(g) => {
            let mut s = String::from_str("GPU");
            if gpus.len() > 1 {
                s.append(" (");
                push_decimal(&mut s, (selected + 1) as u128);
                s.append("/");
                push_decimal(&mut s, gpus.len() as u128);
                s.append(")");
            }
            s.append(": ");
            s.append(g.vendor.name());
            s.append(" [");
            s.append(g.driver.as_str());
            s.append("]");
            proof {
                assert(s@ =~= gpu_status(gpus@, *fallback, selected as nat));
            }
            s
        },
        None => String::from_str("GPU: None"),
    }
}

pub open spec fn sort_label_text(by: ProcessSortBy) -> Seq<char> {
    match by {
        ProcessSortBy::Cpu => "CPU%"@,
        ProcessSortBy::Memory => "Memory"@,
        ProcessSortBy::Pid => "PID"@,
        ProcessSortBy::Name => "Name"@,
    }
}

/// Name of the sort column shown above the process table.
pub fn sort_label(by: ProcessSortBy) -> (s: &'static str)
    ensures
        s@ == sort_label_text(by),
{
    match by {
        ProcessSortBy::Cpu => "CPU%",
        ProcessSortBy::Memory => "Memory",
        ProcessSortBy::Pid => "PID",
        ProcessSortBy::Name => "Name",
    }
}

/// `prefix`, then the used and total sizes, as in "RAM: 1.5 GB / 8.0 GB".
pub open spec fn used_total(prefix: Seq<char>, used: nat, total: nat) -> Seq<char> {
    prefix + format_bytes_text(used) + " / "@ + format_bytes_text(total)
}

pub fn used_total_text(prefix: &str, used: u64, total: u64) -> (s: String)
    ensures
        s@ == used_total(prefix@, used as nat, total as nat),
{
    let mut s = String::from_str(prefix);
    let u = format_bytes(used);
    s.append(u.as_str());
    s.append(" / ");
    let t = format_bytes(total);
    s.append(t.as_str());
    s
}

/// The VRAM gauge's text: none for a card that shares system memory or
/// reports no VRAM of its own, else "VRAM: used / total".
pub fn vram_usage_text(shared: bool, used: u64, total: u64) -> (r: Option<String>)
    ensures
        r is None <==> (shared || total == 0),
        r matches Some(s) ==> s@ == used_total("VRAM: "@, used as nat, total as nat),
{
    if shared || total == 0 {
        None
    } else {
        Some(used_total_text("VRAM: ", used, total))
    }
}

/// Title of the GPU panel: with several cards it numbers the card shown and
/// tells how to switch, " NVIDIA GPU (1 of 2): name [g: switch] "; with one,
/// " NVIDIA GPU: name ".
pub open spec fn gpu_title(vendor: GpuVendor, name: Seq<char>, selected: nat, count: nat) -> Seq<char> {
    if count > 1 {
        " "@ + vendor_text(vendor) + " GPU ("@ + decimal(selected + 1) + " of "@ + decimal(count) + "): "@
            + name + " [g: switch] "@
    } else {
        " "@ + vendor_text(vendor) + " GPU: "@ + name + " "@
    }
}

pub fn gpu_title_text(vendor: GpuVendor, name: &str, selected: usize, count: usize) -> (s: String)
    requires
        selected < usize::MAX,
    ensures
        s@ == gpu_title(vendor, name@, selected as nat, count as nat),
{
    let mut s = String::from_str(" ");
    s.append(vendor.name());
    if count > 1 {
        s.append(" GPU (");
        push_decimal(&mut s, (selected + 1) as u128);
        s.append(" of ");
        push_decimal(&mut s, count as u128);
        s.append("): ");
        s.append(name);
        s.append(" [g: switch] ");
    } else {
        s.append(" GPU: ");
        s.append(name);
        s.append(" ");
    }
    proof {
        assert(s@ =~= gpu_title(vendor, name@, selected as nat, count as nat));
    }
    s
}

/// Name of the first process with the given PID, "Unknown" if none has it.
pub open spec fn name_of_pid(procs: Seq<ProcessEntry>, pid: u32) -> Seq<char>
    decreases procs.len(),
{
    if procs.len() == 0 {
        "Unknown"@
    } else if procs[0].pid == pid {
        procs[0].name@
    } else {
        name_of_pid(procs.drop_first(), pid)
    }
}

/// The name shown for a process that uses the GPU.
pub fn gpu_process_name(procs: &Vec<ProcessEntry>, pid: u32) -> (s: String)
    ensures
        s@ == name_of_pid(procs@, pid),
{
    let mut i: usize = 0;
    assert(procs@.skip(0) =~= procs@);
    while i < procs.len()
        invariant
            i <= procs@.len(),
            name_of_pid(procs@, pid) == name_of_pid(procs@.skip(i as int), pid),
        decreases procs.len() - i,
    {
        proof {
            assert(procs@.skip(i as int)[0] == procs@[i as int]);
            assert(procs@.skip(i as int).drop_first() =~= procs@.skip(i + 1));
        }
        if procs[i].pid == pid {
            return procs[i].name.clone();
        }
        i = i + 1;
    }
    proof {
        assert(procs@.skip(i as int).len() == 0);
    }
    String::from_str("Unknown")
}

/// The sort column and the number of processes, shown beside the filter.
pub open spec fn process_summary(by: ProcessSortBy, total: nat) -> Seq<char> {
    "    Sort: ["@ + sort_label_text(by) + "] (press 's' to toggle)    Total Processes: "@ + decimal(total)
}

pub fn process_summary_text(by: ProcessSortBy, total: usize) -> (s: String)
    ensures
        s@ == process_summary(by, total as nat),
{
    let mut s = String::from_str("    Sort: [");
    s.append(sort_label(by));
    s.append("] (press 's' to toggle)    Total Processes: ");
    push_decimal(&mut s, total as u128);
    s
}

/// The filter field: the search text, or a hint when there is none and no
/// search is being typed.
pub fn filter_text(query: &str, is_searching: bool) -> (s: &str)
    ensures
        s@ == (if query@.len() == 0 && !is_searching { "Press '/' to search..."@ } else { query@ }),
{
    if query.is_empty() && !is_searching {
        "Press '/' to search..."
    } else {
        query
    }
}

/// A process's command line, or a note for processes without one.
pub fn command_text(cmd: &str) -> (s: &str)
    ensures
        s@ == (if cmd@.len() == 0 { "[Kernel or system process]"@ } else { cmd@ }),
{
    if cmd.is_empty() {
        "[Kernel or system process]"
    } else {
        cmd
    }
}

/// The command line as the signal dialog shows it: longer than 46 bytes of
/// UTF-8, it is cut after its first 43 bytes and "..." is appended.
pub open spec fn dialog_command(cmd: Seq<char>) -> Seq<char> {
    if cmd.len() == 0 {
        "[kernel or system process]"@
    } else if encode_utf8(cmd).len() > 46 {
        decode_utf8(encode_utf8(cmd).subrange(0, 43)) + "..."@
    } else {
        cmd
    }
}

/// The signal dialog's command line. A command longer than 46 bytes must
/// have a character boundary after its 43rd byte.
pub fn dialog_command_text(cmd: &str) -> (s: String)
    requires
        encode_utf8(cmd@).len() <= usize::MAX,
        encode_utf8(cmd@).len() > 46 ==> is_char_boundary(encode_utf8(cmd@), 43),
    ensures
        s@ == dialog_command(cmd@),
{
    if cmd.is_empty() {
        String::from_str("[kernel or system process]")
    } else if cmd.len() > 46 {
        let (head, _) = cmd.split_at(43);
        proof {
            vstd::utf8::encode_utf8_decode_utf8(head@);
            assert(decode_utf8(encode_utf8(cmd@).subrange(0, 43)) == head@);
        }
        let mut s = String::from_str(head);
        s.append("...");
        s
    } else {
        String::from_str(cmd)
    }
}

/// A clock in MHz, or "N/A" when it is unknown.
pub open spec fn clock(mhz: Option<u32>) -> Seq<char> {
    match mhz {
        Some(c) => decimal(c as nat) + " MHz"@,
        None => "N/A"@,
    }
}

pub fn clock_text(mhz: Option<u32>) -> (s: String)
    ensures
        s@ == clock(mhz),
{
    match mhz {
        Some(c) => {
            let mut s = String::new();
            push_decimal(&mut s, c as u128);
            s.append(" MHz");
            s
        },
        None => String::from_str("N/A"),
    }
}

/// Number of rows of a grid with `per_row` gauges a row that holds `count`
/// gauges.
pub fn grid_row_count(count: usize, per_row: usize) -> (n: usize)
    requires
        per_row > 0,
        count + per_row - 1 <= usize::MAX,
    ensures
        n == (count + per_row - 1) / per_row as int,
        per_row * n >= count,
        per_row * n < count + per_row,
{
    let n = (count + (per_row - 1)) / per_row;
    proof {
        vstd::arithmetic::div_mod::lemma_fundamental_div_mod((count + per_row - 1) as int, per_row as int);
    }
    n
}

/// Row and column of the gauge at position `idx` in a grid with `per_row`
/// gauges a row, filled row by row.
pub fn grid_cell(idx: usize, per_row: usize) -> (rc: (usize, usize))
    requires
        per_row > 0,
    ensures
        rc.0 == idx / per_row,
        rc.1 == idx % per_row,
        per_row * rc.0 + rc.1 == idx,
        rc.1 < per_row,
{
    proof {
        vstd::arithmetic::div_mod::lemma_fundamental_div_mod(idx as int, per_row as int);
    }
    (idx / per_row, idx % per_row)
}

/// The notice after a signal was delivered: "✔ Sent SIGTERM to name (PID: 42)".
pub open spec fn signal_sent(signal: ProcessSignal, name: Seq<char>, pid: nat) -> Seq<char> {
    "\u{2714} Sent "@ + signal_name(signal) + " to "@ + name + " (PID: "@ + decimal(pid) + ")"@
}

pub fn signal_sent_text(signal: ProcessSignal, name: &str, pid: u32) -> (s: String)
    ensures
        s@ == signal_sent(signal, name@, pid as nat),
{
    let mut s = String::from_str("\u{2714} Sent ");
    s.append(signal.short_name());
    s.append(" to ");
    s.append(name);
    s.append(" (PID: ");
    push_decimal(&mut s, pid as u128);
    s.append(")");
    s
}

/// The notice after a signal could not be delivered:
/// "✖ Failed to send SIGKILL to PID 42: reason".
pub open spec fn signal_failed(signal: ProcessSignal, pid: nat, reason: Seq<char>) -> Seq<char> {
    "\u{2716} Failed to send "@ + signal_name(signal) + " to PID "@ + decimal(pid) + ": "@ + reason
}

pub fn signal_failed_text(signal: ProcessSignal, pid: u32, reason: &str) -> (s: String)
    ensures
        s@ == signal_failed(signal, pid as nat, reason@),
{
    let mut s = String::from_str("\u{2716} Failed to send ");
    s.append(signal.short_name());
    s.append(" to PID ");
    push_decimal(&mut s, pid as u128);
    s.append(": ");
    s.append(reason);
    s
}

} // verus!
