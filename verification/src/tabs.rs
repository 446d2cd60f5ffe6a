//! The dashboard's tabs and their cyclic order.
use vstd::prelude::*;

verus! {

/// A tab of the dashboard.
#[derive(Debug, Clone, Copy, PartialEq, Eq, Structural)]
pub enum Tab {
    Overview,
    Cpu,
    Gpu,
    Memory,
    Disks,
    Network,
    Processes,
    Sensors,
}

/// Position of a tab in the tab bar, from 0.
pub open spec fn tab_index(t: Tab) -> nat {
    match t {
        Tab::Overview => 0,
        Tab::Cpu => 1,
        Tab::Gpu => 2,
        Tab::Memory => 3,
        Tab::Disks => 4,
        Tab::Network => 5,
        Tab::Processes => 6,
        Tab::Sensors => 7,
    }
}

/// The tab at position `i` of the tab bar, counting modulo 8.
pub open spec fn tab_at(i: nat) -> Tab {
    let k = i % 8;
    if k == 0 {
        Tab::Overview
    } else if k == 1 {
        Tab::Cpu
    } else if k == 2 {
        Tab::Gpu
    } else if k == 3 {
        Tab::Memory
    } else if k == 4 {
        Tab::Disks
    } else if k == 5 {
        Tab::Network
    } else if k == 6 {
        Tab::Processes
    } else {
        Tab::Sensors
    }
}

/// The labels of the tab bar, in order.
pub open spec fn tab_titles() -> Seq<Seq<char>> {
    seq![
        "1:Overview"@,
        "2:CPU"@,
        "3:GPU"@,
        "4:Memory"@,
        "5:Disks"@,
        "6:Network"@,
        "7:Processes"@,
        "8:Sensors"@,
    ]
}

impl Tab {
    /// Labels of the tab bar, in tab order.
    pub fn titles() -> (v: Vec<&'static str>)
        ensures
            v@.len() == 8,
            forall|i: int| 0 <= i < 8 ==> (#[trigger] v@[i])@ == tab_titles()[i],
    {
        let v = vec![
            "1:Overview",
            "2:CPU",
            "3:GPU",
            "4:Memory",
            "5:Disks",
            "6:Network",
            "7:Processes",
            "8:Sensors",
        ];
        assert(forall|i: int| 0 <= i < 8 ==> (#[trigger] v@[i])@ == tab_titles()[i]);
        v
    }

    /// Position of the tab in the tab bar.
    pub fn index(self) -> (i: usize)
        ensures
            i == tab_index(self),
            i < 8,
    {
        match self {
            Tab::Overview => 0,
            Tab::Cpu => 1,
            Tab::Gpu => 2,
            Tab::Memory => 3,
            Tab::Disks => 4,
            Tab::Network => 5,
            Tab::Processes => 6,
            Tab::Sensors => 7,
        }
    }

    /// The tab at position `idx` modulo 8.
    pub fn from_index(idx: usize) -> (t: Tab)
        ensures
            t == tab_at(idx as nat),
    {
        let k = idx % 8;
        if k == 0 {
            Tab::Overview
        } else if k == 1 {
            Tab::Cpu
        } else if k == 2 {
            Tab::Gpu
        } else if k == 3 {
            Tab::Memory
        } else if k == 4 {
            Tab::Disks
        } else if k == 5 {
            Tab::Network
        } else if k == 6 {
            Tab::Processes
        } else {
            Tab::Sensors
        }
    }

    /// The tab to the right, wrapping from the last to the first.
    pub fn next(self) -> (t: Tab)
        ensures
            t == tab_at(tab_index(self) + 1),
    {
        Self::from_index(self.index() + 1)
    }

    /// The tab to the left, wrapping from the first to the last.
    pub fn prev(self) -> (t: Tab)
        ensures
            t == tab_at(tab_index(self) + 7),
    {
        Self::from_index(self.index() + 7)
    }
}

/// A tab's position leads back to the tab.
pub proof fn lemma_tab_index_roundtrip(t: Tab)
    ensures
        tab_at(tab_index(t)) == t,
        tab_index(t) < 8,
{
}

/// Every position names the tab found at that position.
pub proof fn lemma_tab_at_index(i: nat)
    requires
        i < 8,
    ensures
        tab_index(tab_at(i)) == i,
{
}

/// Moving right then left (or left then right) returns to the same tab.
pub proof fn lemma_tab_next_prev(t: Tab)
    ensures
        tab_at(tab_index(tab_at(tab_index(t) + 1)) + 7) == t,
        tab_at(tab_index(tab_at(tab_index(t) + 7)) + 1) == t,
{
}

/// The tab reached from `t` by moving right `k` times.
pub open spec fn tab_step(t: Tab, k: nat) -> Tab {
    tab_at(tab_index(t) + k)
}

/// Moving right eight times visits every tab once and returns to the start.
pub proof fn lemma_tab_cycle(t: Tab)
    ensures
        tab_step(t, 8) == t,
        forall|k: nat, l: nat| k < l < 8 ==> #[trigger] tab_step(t, k) != #[trigger] tab_step(t, l),
{
    assert forall|k: nat, l: nat| k < l < 8 implies #[trigger] tab_step(t, k) != #[trigger] tab_step(t, l) by {
        let a = tab_index(t) + k;
        let b = tab_index(t) + l;
        assert(tab_index(tab_at(a)) == a % 8);
        assert(tab_index(tab_at(b)) == b % 8);
    }
}

} // verus!
