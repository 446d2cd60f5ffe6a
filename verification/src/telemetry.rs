//! Plain telemetry records that the dashboard shows and the rules that turn
//! them into text.
use vstd::prelude::*;
use std::sync::Arc;
use std::sync::atomic::{AtomicBool, Ordering};
use crate::text::{decimal, push_decimal};

verus! {

/// Maker of a graphics adapter.
#[derive(Debug, Clone, Copy, PartialEq, Eq, Structural)]
pub enum GpuVendor {
    Nvidia,
    Amd,
    Intel,
    Other,
}

pub open spec fn vendor_text(v: GpuVendor) -> Seq<char> {
    match v {
        GpuVendor::Nvidia => "NVIDIA"@,
        GpuVendor::Amd => "AMD"@,
        GpuVendor::Intel => "Intel"@,
        GpuVendor::Other => "GPU"@,
    }
}

impl GpuVendor {
    /// Display name of the vendor.
    pub fn name(&self) -> (s: &'static str)
        ensures
            s@ == vendor_text(*self),
    {
        match self {
            GpuVendor::Nvidia => "NVIDIA",
            GpuVendor::Amd => "AMD",
            GpuVendor::Intel => "Intel",
            GpuVendor::Other => "GPU",
        }
    }

    /// Display name of the vendor, as an owned string.
    pub fn to_string(&self) -> (s: String)
        ensures
            s@ == vendor_text(*self),
    {
        String::from_str(self.name())
    }
}

/// A process that holds graphics memory.
#[derive(Debug, Clone, Copy, PartialEq, Eq, Structural)]
pub struct GpuProcessInfo {
    pub pid: u32,
    pub used_memory: u64,
}

/// Physical memory and swap, in bytes.
#[derive(Debug, Clone, Copy, PartialEq, Eq, Structural)]
pub struct MemoryMetrics {
    pub total_bytes: u64,
    pub used_bytes: u64,
    pub available_bytes: u64,
    pub free_bytes: u64,
    pub swap_total_bytes: u64,
    pub swap_used_bytes: u64,
    pub swap_free_bytes: u64,
}

impl Default for MemoryMetrics {
    fn default() -> (m: MemoryMetrics)
        ensures
            m == (MemoryMetrics {
                total_bytes: 0,
                used_bytes: 0,
                available_bytes: 0,
                free_bytes: 0,
                swap_total_bytes: 0,
                swap_used_bytes: 0,
                swap_free_bytes: 0,
            }),
    {
        MemoryMetrics {
            total_bytes: 0,
            used_bytes: 0,
            available_bytes: 0,
            free_bytes: 0,
            swap_total_bytes: 0,
            swap_used_bytes: 0,
            swap_free_bytes: 0,
        }
    }
}

/// Host facts shown in the header.
#[derive(Debug, Clone)]
pub struct SystemInfo {
    pub host_name: String,
    pub os_name: String,
    pub os_version: String,
    pub kernel_version: String,
    pub cpu_arch: String,
    pub uptime_seconds: u64,
}

/// Uptime as `"{d}d {h}h {m}m"`, or `"{h}h {m}m"` under a day.
pub open spec fn uptime_text(secs: nat) -> Seq<char> {
    let days = secs / 86400;
    let hours = (secs % 86400) / 3600;
    let mins = (secs % 3600) / 60;
    if days > 0 {
        decimal(days) + "d "@ + decimal(hours) + "h "@ + decimal(mins) + "m"@
    } else {
        decimal(hours) + "h "@ + decimal(mins) + "m"@
    }
}

impl SystemInfo {
    /// The uptime in days, hours and minutes.
    pub fn formatted_uptime(&self) -> (s: String)
        ensures
            s@ == uptime_text(self.uptime_seconds as nat),
    {
        let secs = self.uptime_seconds;
        let days = secs / 86400;
        let hours = (secs % 86400) / 3600;
        let mins = (secs % 3600) / 60;
        let mut s = String::new();
        if days > 0 {
            push_decimal(&mut s, days as u128);
            s.append("d ");
        }
        push_decimal(&mut s, hours as u128);
        s.append("h ");
        push_decimal(&mut s, mins as u128);
        s.append("m");
        proof {
            assert(s@ =~= uptime_text(secs as nat));
        }
        s
    }
}

/// Signal that the process manager can send.
#[derive(Debug, Clone, Copy, PartialEq, Eq, Structural)]
pub enum ProcessSignal {
    Term,
    Kill,
}

pub open spec fn signal_name(s: ProcessSignal) -> Seq<char> {
    match s {
        ProcessSignal::Term => "SIGTERM"@,
        ProcessSignal::Kill => "SIGKILL"@,
    }
}

pub open spec fn signal_number(s: ProcessSignal) -> int {
    match s {
        ProcessSignal::Term => 15,
        ProcessSignal::Kill => 9,
    }
}

impl ProcessSignal {
    /// Conventional name of the signal.
    pub fn short_name(&self) -> (s: &'static str)
        ensures
            s@ == signal_name(*self),
    {
        match self {
            ProcessSignal::Term => "SIGTERM",
            ProcessSignal::Kill => "SIGKILL",
        }
    }

    /// POSIX number of the signal.
    pub fn number(&self) -> (n: i32)
        ensures
            n == signal_number(*self),
    {
        match self {
            ProcessSignal::Term => 15,
            ProcessSignal::Kill => 9,
        }
    }
}

/// Handle on the background sampler: it samples while the shared flag is
/// set, and stops at its next round once the flag is cleared.
pub struct TelemetryManager {
    running: Arc<AtomicBool>,
}

impl TelemetryManager {
    /// The flag that the sampler reads.
    pub closed spec fn flag(&self) -> Arc<AtomicBool> {
        self.running
    }

    /// A handle on a sampler that runs while `running` is set.
    pub fn new(running: Arc<AtomicBool>) -> (m: TelemetryManager)
        ensures
            m.flag() == running,
    {
        TelemetryManager { running }
    }

    /// Clears the flag, so that the sampler stops.
    pub fn stop(&self) {
        self.running.store(false, Ordering::Relaxed);
    }
}

} // verus!
