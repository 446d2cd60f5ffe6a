//! State of the dialog that confirms sending a signal to a process.
use vstd::prelude::*;
use crate::processes::ProcessEntry;
use crate::telemetry::ProcessSignal;

verus! {

/// The process targeted by the dialog and the signal chosen so far.
#[derive(Debug, Clone)]
pub struct SignalModalState {
    pub pid: u32,
    pub name: String,
    pub cmd: String,
    pub signal: ProcessSignal,
}

impl SignalModalState {
    /// Opens the dialog for a process, with the gentle signal selected.
    pub fn new(process: &ProcessEntry) -> (m: SignalModalState)
        ensures
            m.pid == process.pid,
            m.name@ == process.name@,
            m.cmd@ == process.cmd@,
            m.signal == ProcessSignal::Term,
    {
        SignalModalState {
            pid: process.pid,
            name: process.name.clone(),
            cmd: process.cmd.clone(),
            signal: ProcessSignal::Term,
        }
    }

    /// Switches between the two signals.
    pub fn toggle_signal(&mut self)
        ensures
            final(self).signal == (if old(self).signal == ProcessSignal::Term {
                ProcessSignal::Kill
            } else {
                ProcessSignal::Term
            }),
            final(self).pid == old(self).pid,
            final(self).name == old(self).name,
            final(self).cmd == old(self).cmd,
    {
        self.signal = match self.signal {
            ProcessSignal::Term => ProcessSignal::Kill,
            ProcessSignal::Kill => ProcessSignal::Term,
        };
    }

    /// Selects the gentle signal (SIGTERM).
    pub fn select_term(&mut self)
        ensures
            final(self).signal == ProcessSignal::Term,
            final(self).pid == old(self).pid,
            final(self).name == old(self).name,
            final(self).cmd == old(self).cmd,
    {
        self.signal = ProcessSignal::Term;
    }

    /// Selects the forceful signal (SIGKILL).
    pub fn select_kill(&mut self)
        ensures
            final(self).signal == ProcessSignal::Kill,
            final(self).pid == old(self).pid,
            final(self).name == old(self).name,
            final(self).cmd == old(self).cmd,
    {
        self.signal = ProcessSignal::Kill;
    }
}

/// Toggling twice restores the selected signal, and toggling always changes it.
pub proof fn lemma_toggle_involution(s: ProcessSignal)
    ensures
        ({
            let t = if s == ProcessSignal::Term { ProcessSignal::Kill } else { ProcessSignal::Term };
            &&& t != s
            &&& (if t == ProcessSignal::Term { ProcessSignal::Kill } else { ProcessSignal::Term }) == s
        }),
{
}

} // verus!
