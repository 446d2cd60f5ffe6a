//! The dashboard's interactive state and its response to key presses.
use vstd::prelude::*;
use crate::config::{tab_for_name, theme_for_name, Config};
use crate::pet::PetState;
use crate::processes::{
    build_process_tree, copy_entry, count_matching, filtered, lemma_sort_keeps_matches,
    matching_rows, nth_matching, process_tree, sort_after, sort_processes, sorted_rows, tree_items,
    ProcessEntry, ProcessSortBy,
};
use crate::signal::SignalModalState;
use crate::tabs::{tab_at, tab_index, tab_titles, Tab};
use crate::telemetry::ProcessSignal;
use crate::text::{ascii_lower, normalized, string_pop, string_push};
use crate::theme::{theme_after, ThemeId};

verus! {

/// A key, as the dashboard distinguishes keys.
#[derive(Debug, Clone, Copy, PartialEq, Eq, Structural)]
pub enum KeyCode {
    Char(char),
    Esc,
    Enter,
    Backspace,
    Tab,
    BackTab,
    Left,
    Right,
    Up,
    Down,
    Other,
}

/// A key press: the key and whether Control was held.
#[derive(Debug, Clone, Copy, PartialEq, Eq, Structural)]
pub struct KeyPress {
    pub code: KeyCode,
    pub ctrl: bool,
}

/// What the caller must do after a key press.
#[derive(Debug, Clone)]
pub enum KeyOutcome {
    Nothing,
    /// Send `signal` to process `pid` (named `name`) and report the result.
    SendSignal { pid: u32, name: String, signal: ProcessSignal },
    /// Start a recording, or stop the one that runs.
    ToggleRecording,
}

/// A key press's request to the caller, as plain values.
pub enum KeyRequest {
    Nothing,
    Signal { pid: u32, name: Seq<char>, signal: ProcessSignal },
    Record,
}

/// The interactive state of the dashboard.
#[derive(Debug)]
pub struct App {
    pub tab: Tab,
    pub theme_id: ThemeId,
    pub pet: PetState,
    pub processes: Vec<ProcessEntry>,
    pub selected_proc_idx: usize,
    pub selected_gpu: usize,
    pub gpu_count: usize,
    pub proc_sort: ProcessSortBy,
    pub tree_mode: bool,
    pub signal_modal: Option<SignalModalState>,
    pub search_query: String,
    pub is_searching: bool,
    pub show_help: bool,
    pub show_theme_picker: bool,
    pub show_pet_panel: bool,
    pub should_quit: bool,
}

/// The signal dialog as plain values.
pub struct ModalModel {
    pub pid: u32,
    pub name: Seq<char>,
    pub cmd: Seq<char>,
    pub signal: ProcessSignal,
}

/// The dashboard state as plain values.
pub struct AppModel {
    pub tab: Tab,
    pub theme_id: ThemeId,
    pub pet: PetState,
    pub processes: Seq<ProcessEntry>,
    pub selected: nat,
    pub selected_gpu: nat,
    pub gpu_count: nat,
    pub proc_sort: ProcessSortBy,
    pub tree_mode: bool,
    pub modal: Option<ModalModel>,
    pub query: Seq<char>,
    pub is_searching: bool,
    pub show_help: bool,
    pub show_theme_picker: bool,
    pub show_pet_panel: bool,
    pub should_quit: bool,
}

pub open spec fn modal_model(m: SignalModalState) -> ModalModel {
    ModalModel { pid: m.pid, name: m.name@, cmd: m.cmd@, signal: m.signal }
}

impl View for App {
    type V = AppModel;

    open spec fn view(&self) -> AppModel {
        AppModel {
            tab: self.tab,
            theme_id: self.theme_id,
            pet: self.pet,
            processes: self.processes@,
            selected: self.selected_proc_idx as nat,
            selected_gpu: self.selected_gpu as nat,
            gpu_count: self.gpu_count as nat,
            proc_sort: self.proc_sort,
            tree_mode: self.tree_mode,
            modal: match self.signal_modal {
                Some(m) => Some(modal_model(m)),
                None => None,
            },
            query: self.search_query@,
            is_searching: self.is_searching,
            show_help: self.show_help,
            show_theme_picker: self.show_theme_picker,
            show_pet_panel: self.show_pet_panel,
            should_quit: self.should_quit,
        }
    }
}

/// The request made by a key press.
pub open spec fn outcome_model(o: KeyOutcome) -> KeyRequest {
    match o {
        KeyOutcome::Nothing => KeyRequest::Nothing,
        KeyOutcome::SendSignal { pid, name, signal } => KeyRequest::Signal { pid, name: name@, signal },
        KeyOutcome::ToggleRecording => KeyRequest::Record,
    }
}

/// Number of rows that the process table shows.
pub open spec fn visible_count(m: AppModel) -> nat {
    filtered(m.processes, m.query).len()
}

/// A selection index kept inside a table of `total` rows.
pub open spec fn clamp_index(i: nat, total: nat) -> nat {
    if total == 0 {
        0
    } else if i >= total {
        (total - 1) as nat
    } else {
        i
    }
}

/// The state with the selection moved back inside the table.
pub open spec fn clamped(m: AppModel) -> AppModel {
    AppModel { selected: clamp_index(m.selected, visible_count(m)), ..m }
}

/// The rows that the process table shows, in order: the matching rows, or
/// the process tree of the matching rows in tree mode.
pub open spec fn shown_rows(m: AppModel) -> Seq<ProcessEntry> {
    if m.tree_mode {
        process_tree(filtered(m.processes, m.query), m.proc_sort).map_values(
            |r: (ProcessEntry, Seq<char>)| r.0,
        )
    } else {
        filtered(m.processes, m.query)
    }
}

/// The selected row of the table, if the selection points at one.
pub open spec fn selected_row(m: AppModel) -> Option<ProcessEntry> {
    if m.selected < shown_rows(m).len() {
        Some(shown_rows(m)[m.selected as int])
    } else {
        None
    }
}

/// The card after `i` among `n` cards, wrapping to the first.
pub open spec fn next_gpu(i: nat, n: nat) -> nat {
    if i + 1 >= n {
        0
    } else {
        i + 1
    }
}

pub open spec fn is_char(k: KeyPress, c: char) -> bool {
    k.code == KeyCode::Char(c)
}

pub open spec fn with_signal(md: ModalModel, s: ProcessSignal) -> ModalModel {
    ModalModel { signal: s, ..md }
}

/// Keys while typing a search: Esc or Enter end the search, Backspace
/// deletes, characters are appended; the selection stays inside the table.
pub open spec fn search_step(m: AppModel, k: KeyPress) -> AppModel {
    match k.code {
        KeyCode::Esc | KeyCode::Enter => AppModel { is_searching: false, ..m },
        KeyCode::Backspace => clamped(
            AppModel { query: if m.query.len() > 0 { m.query.drop_last() } else { m.query }, ..m },
        ),
        KeyCode::Char(c) => clamped(AppModel { query: m.query.push(c), ..m }),
        _ => m,
    }
}

/// Keys while the signal dialog is open: 1 and 2 choose SIGTERM and SIGKILL,
/// Tab and the arrows switch, y or Enter confirm (the dialog closes and the
/// signal is requested), Esc, n or q cancel; other keys do nothing.
pub open spec fn modal_step(m: AppModel, md: ModalModel, k: KeyPress) -> (AppModel, KeyRequest) {
    if is_char(k, '1') {
        (AppModel { modal: Some(with_signal(md, ProcessSignal::Term)), ..m }, KeyRequest::Nothing)
    } else if is_char(k, '2') {
        (AppModel { modal: Some(with_signal(md, ProcessSignal::Kill)), ..m }, KeyRequest::Nothing)
    } else if k.code == KeyCode::Tab || k.code == KeyCode::Left || k.code == KeyCode::Right
        || k.code == KeyCode::Up || k.code == KeyCode::Down {
        let s = if md.signal == ProcessSignal::Term { ProcessSignal::Kill } else { ProcessSignal::Term };
        (AppModel { modal: Some(with_signal(md, s)), ..m }, KeyRequest::Nothing)
    } else if is_char(k, 'y') || k.code == KeyCode::Enter {
        (
            AppModel { modal: None, ..m },
            KeyRequest::Signal { pid: md.pid, name: md.name, signal: md.signal },
        )
    } else if k.code == KeyCode::Esc || is_char(k, 'n') || is_char(k, 'q') {
        (AppModel { modal: None, ..m }, KeyRequest::Nothing)
    } else {
        (m, KeyRequest::Nothing)
    }
}

/// An overlay (help, theme picker or pet panel) is shown.
pub open spec fn overlay_open(m: AppModel) -> bool {
    m.show_help || m.show_theme_picker || m.show_pet_panel
}

/// Keys that an open overlay handles itself.
pub open spec fn overlay_handles(k: KeyPress) -> bool {
    k.code == KeyCode::Esc || is_char(k, 'q') || is_char(k, '?') || is_char(k, 'h') || is_char(k, 't')
        || is_char(k, 'P')
}

/// An overlay closes on Esc, q, ? or h; t cycles the theme; P hides the pet panel.
pub open spec fn overlay_step(m: AppModel, k: KeyPress) -> AppModel {
    if is_char(k, 't') {
        AppModel { theme_id: theme_after(m.theme_id), ..m }
    } else if is_char(k, 'P') {
        AppModel { show_pet_panel: false, ..m }
    } else {
        AppModel { show_help: false, show_theme_picker: false, show_pet_panel: false, ..m }
    }
}

/// The tab that a shortcut key opens, if it is one.
pub open spec fn tab_shortcut(k: KeyPress) -> Option<Tab> {
    if is_char(k, '1') || is_char(k, 'o') {
        Some(Tab::Overview)
    } else if is_char(k, '2') || is_char(k, 'c') {
        Some(Tab::Cpu)
    } else if is_char(k, '3') {
        Some(Tab::Gpu)
    } else if is_char(k, '4') || is_char(k, 'm') {
        Some(Tab::Memory)
    } else if is_char(k, '5') || is_char(k, 'd') {
        Some(Tab::Disks)
    } else if is_char(k, '6') || is_char(k, 'n') {
        Some(Tab::Network)
    } else if is_char(k, '7') || is_char(k, 'p') {
        Some(Tab::Processes)
    } else {
        None
    }
}

/// Keys of the dashboard itself.
pub open spec fn global_step(m: AppModel, k: KeyPress) -> AppModel {
    let in_procs = m.tab == Tab::Processes;
    if is_char(k, 'q') || (is_char(k, 'c') && k.ctrl) {
        AppModel { should_quit: true, ..m }
    } else if is_char(k, '?') || is_char(k, 'h') {
        AppModel { show_help: !m.show_help, ..m }
    } else if is_char(k, 't') {
        if in_procs {
            clamped(AppModel { tree_mode: !m.tree_mode, ..m })
        } else {
            AppModel { theme_id: theme_after(m.theme_id), ..m }
        }
    } else if is_char(k, 'x') || is_char(k, 'K') {
        if in_procs && selected_row(m) is Some {
            let p = selected_row(m).unwrap();
            AppModel {
                modal: Some(ModalModel { pid: p.pid, name: p.name@, cmd: p.cmd@, signal: ProcessSignal::Term }),
                ..m
            }
        } else {
            m
        }
    } else if is_char(k, 'T') {
        AppModel { show_theme_picker: !m.show_theme_picker, ..m }
    } else if is_char(k, 'P') {
        AppModel { show_pet_panel: !m.show_pet_panel, ..m }
    } else {
        nav_step(m, k)
    }
}

/// Tab shortcuts, switching cards, sorting and tab cycling; the rest goes
/// to `move_step`. On the GPU tab g shows the next card; elsewhere it opens
/// the GPU tab.
pub open spec fn nav_step(m: AppModel, k: KeyPress) -> AppModel {
    let in_procs = m.tab == Tab::Processes;
    if tab_shortcut(k) is Some {
        AppModel { tab: tab_shortcut(k).unwrap(), ..m }
    } else if is_char(k, 'g') {
        if m.tab == Tab::Gpu {
            AppModel { selected_gpu: next_gpu(m.selected_gpu, m.gpu_count), ..m }
        } else {
            AppModel { tab: Tab::Gpu, ..m }
        }
    } else if is_char(k, '8') || is_char(k, 's') {
        if in_procs {
            let by = sort_after(m.proc_sort);
            AppModel { proc_sort: by, processes: sorted_rows(m.processes, by), ..m }
        } else {
            AppModel { tab: Tab::Sensors, ..m }
        }
    } else if k.code == KeyCode::Tab {
        AppModel { tab: tab_at(tab_index(m.tab) + 1), ..m }
    } else if k.code == KeyCode::BackTab {
        AppModel { tab: tab_at(tab_index(m.tab) + 7), ..m }
    } else {
        move_step(m, k)
    }
}

/// Moving the selection, starting a search and clearing it.
pub open spec fn move_step(m: AppModel, k: KeyPress) -> AppModel {
    let in_procs = m.tab == Tab::Processes;
    if k.code == KeyCode::Down || is_char(k, 'j') {
        if in_procs && visible_count(m) > 0 && m.selected + 1 < visible_count(m) {
            AppModel { selected: m.selected + 1, ..m }
        } else {
            m
        }
    } else if k.code == KeyCode::Up || is_char(k, 'k') {
        if in_procs && m.selected > 0 {
            AppModel { selected: (m.selected - 1) as nat, ..m }
        } else {
            m
        }
    } else if is_char(k, '/') {
        if in_procs {
            AppModel { is_searching: true, ..m }
        } else {
            m
        }
    } else if k.code == KeyCode::Esc {
        if m.query.len() > 0 {
            clamped(AppModel { query: Seq::empty(), ..m })
        } else {
            m
        }
    } else {
        m
    }
}

/// The recording key, r or R.
pub open spec fn is_record_key(k: KeyPress) -> bool {
    is_char(k, 'r') || is_char(k, 'R')
}

/// The state after a key press and what it requests: typing a search takes
/// every key first, then an open signal dialog, then an open overlay; r or
/// R asks to start or stop a recording; then come the dashboard's own keys.
pub open spec fn key_step(m: AppModel, k: KeyPress) -> (AppModel, KeyRequest) {
    if m.is_searching {
        (search_step(m, k), KeyRequest::Nothing)
    } else if m.modal is Some {
        modal_step(m, m.modal.unwrap(), k)
    } else if overlay_open(m) && overlay_handles(k) {
        (overlay_step(m, k), KeyRequest::Nothing)
    } else if is_record_key(k) {
        (m, KeyRequest::Record)
    } else {
        (global_step(m, k), KeyRequest::Nothing)
    }
}

impl Default for App {
    /// The starting state for the default configuration.
    fn default() -> (a: App)
        ensures
            a.tab == tab_for_name(normalized("overview"@)),
            a.theme_id == theme_for_name(normalized("candy"@)),
            a.pet.name@ == "Mochi"@,
            a.pet.visible,
            a.pet.mood == crate::pet::PetMood::Happy,
            a.processes@.len() == 0,
            a.selected_proc_idx == 0,
            a.selected_gpu == 0,
            a.gpu_count == 0,
            a.proc_sort == ProcessSortBy::Cpu,
            !a.tree_mode,
            a.signal_modal.is_none(),
            a.search_query@.len() == 0,
            !a.is_searching && !a.show_help && !a.show_theme_picker && !a.show_pet_panel,
            !a.should_quit,
    {
        let config = Config::default();
        App::new(&config)
    }
}

impl App {
    /// The starting state for a configuration: its tab and theme, its pet's
    /// name and visibility, no processes, nothing open.
    pub fn new(config: &Config) -> (a: App)
        ensures
            a.tab == tab_for_name(normalized(config.default_tab@)),
            a.theme_id == theme_for_name(normalized(config.theme@)),
            a.pet.name@ == config.pet_name@,
            a.pet.visible == config.show_pet,
            a.pet.mood == crate::pet::PetMood::Happy,
            a.processes@.len() == 0,
            a.selected_proc_idx == 0,
            a.selected_gpu == 0,
            a.gpu_count == 0,
            a.proc_sort == ProcessSortBy::Cpu,
            !a.tree_mode,
            a.signal_modal.is_none(),
            a.search_query@.len() == 0,
            !a.is_searching && !a.show_help && !a.show_theme_picker && !a.show_pet_panel,
            !a.should_quit,
    {
        let mut pet = PetState::new();
        pet.name = config.pet_name.clone();
        pet.visible = config.show_pet;
        App {
            tab: config.parsed_tab(),
            theme_id: config.parsed_theme(),
            pet,
            processes: Vec::new(),
            selected_proc_idx: 0,
            selected_gpu: 0,
            gpu_count: 0,
            proc_sort: ProcessSortBy::Cpu,
            tree_mode: false,
            signal_modal: None,
            search_query: String::new(),
            is_searching: false,
            show_help: false,
            show_theme_picker: false,
            show_pet_panel: false,
            should_quit: false,
        }
    }

    /// Number of rows that the process table shows (those that match the
    /// search text).
    pub fn current_process_count(&self) -> (n: usize)
        ensures
            n == visible_count(self@),
    {
        count_matching(&self.processes, self.search_query.as_str())
    }

    /// Keeps the selection inside the process table.
    pub fn clamp_selected_proc(&mut self)
        ensures
            final(self)@ == clamped(old(self)@),
    {
        let total = self.current_process_count();
        if total == 0 {
            self.selected_proc_idx = 0;
        } else if self.selected_proc_idx >= total {
            self.selected_proc_idx = total - 1;
        }
    }

    /// A copy of the selected row of the process table (of the process tree
    /// in tree mode), if the selection points at one.
    pub fn get_selected_process(&self) -> (r: Option<ProcessEntry>)
        ensures
            r == selected_row(self@),
    {
        if self.tree_mode {
            let rows = matching_rows(&self.processes, self.search_query.as_str());
            let tree = build_process_tree(&rows, self.proc_sort);
            if self.selected_proc_idx < tree.len() {
                let p = copy_entry(&tree[self.selected_proc_idx].process);
                proof {
                    assert(tree_items(tree@)[self.selected_proc_idx as int].0 == p);
                }
                Some(p)
            } else {
                None
            }
        } else {
            match nth_matching(&self.processes, self.search_query.as_str(), self.selected_proc_idx) {
                Some(p) => Some(copy_entry(p)),
                None => None,
            }
        }
    }

    /// Takes a new sample: the process rows and the number of graphics
    /// cards, keeping the selection inside the table.
    pub fn on_telemetry(&mut self, processes: Vec<ProcessEntry>, gpu_count: usize)
        ensures
            final(self)@ == clamped(
                AppModel { processes: processes@, gpu_count: gpu_count as nat, ..old(self)@ },
            ),
    {
        self.processes = processes;
        self.gpu_count = gpu_count;
        self.clamp_selected_proc();
    }

    /// Moves to the next sort column and re-sorts the rows by it.
    fn cycle_process_sort(&mut self)
        ensures
            final(self)@ == (AppModel {
                proc_sort: sort_after(old(self)@.proc_sort),
                processes: sorted_rows(old(self)@.processes, sort_after(old(self)@.proc_sort)),
                ..old(self)@
            }),
    {
        self.proc_sort = self.proc_sort.next();
        let mut procs: Vec<ProcessEntry> = Vec::new();
        std::mem::swap(&mut procs, &mut self.processes);
        self.processes = sort_processes(procs, self.proc_sort);
    }

    fn key_is(key: KeyPress, c: char) -> (b: bool)
        ensures
            b == is_char(key, c),
    {
        match key.code {
            KeyCode::Char(d) => d == c,
            _ => false,
        }
    }

    /// Handles a key press and says which signal, if any, the user asked to
    /// send.
    pub fn on_key(&mut self, key: KeyPress) -> (out: KeyOutcome)
        ensures
            (final(self)@, outcome_model(out)) == key_step(old(self)@, key),
    {
        if self.is_searching {
            match key.code {
                KeyCode::Esc | KeyCode::Enter => {
                    self.is_searching = false;
                },
                KeyCode::Backspace => {
                    string_pop(&mut self.search_query);
                    self.clamp_selected_proc();
                },
                KeyCode::Char(c) => {
                    string_push(&mut self.search_query, c);
                    self.clamp_selected_proc();
                },
                _ => {},
            }
            return KeyOutcome::Nothing;
        }
        if self.signal_modal.is_some() {
            let mut modal = self.signal_modal.take().unwrap();
            if Self::key_is(key, '1') {
                modal.select_term();
            } else if Self::key_is(key, '2') {
                modal.select_kill();
            } else if key.code == KeyCode::Tab || key.code == KeyCode::Left || key.code
                == KeyCode::Right || key.code == KeyCode::Up || key.code == KeyCode::Down {
                modal.toggle_signal();
            } else if Self::key_is(key, 'y') || key.code == KeyCode::Enter {
                return KeyOutcome::SendSignal { pid: modal.pid, name: modal.name, signal: modal.signal };
            } else if key.code == KeyCode::Esc || Self::key_is(key, 'n') || Self::key_is(key, 'q') {
                return KeyOutcome::Nothing;
            }
            self.signal_modal = Some(modal);
            return KeyOutcome::Nothing;
        }
        let overlay = self.show_help || self.show_theme_picker || self.show_pet_panel;
        if overlay {
            if key.code == KeyCode::Esc || Self::key_is(key, 'q') || Self::key_is(key, '?')
                || Self::key_is(key, 'h') {
                self.show_help = false;
                self.show_theme_picker = false;
                self.show_pet_panel = false;
                return KeyOutcome::Nothing;
            } else if Self::key_is(key, 't') {
                self.theme_id = self.theme_id.next();
                return KeyOutcome::Nothing;
            } else if Self::key_is(key, 'P') {
                self.show_pet_panel = false;
                return KeyOutcome::Nothing;
            }
        }
        if Self::key_is(key, 'r') || Self::key_is(key, 'R') {
            return KeyOutcome::ToggleRecording;
        }
        self.global_key(key);
        KeyOutcome::Nothing
    }

    fn global_key(&mut self, key: KeyPress)
        ensures
            final(self)@ == global_step(old(self)@, key),
    {
        let in_procs = self.tab == Tab::Processes;
        if Self::key_is(key, 'q') || (Self::key_is(key, 'c') && key.ctrl) {
            self.should_quit = true;
        } else if Self::key_is(key, '?') || Self::key_is(key, 'h') {
            self.show_help = !self.show_help;
        } else if Self::key_is(key, 't') {
            if in_procs {
                self.tree_mode = !self.tree_mode;
                self.clamp_selected_proc();
            } else {
                self.theme_id = self.theme_id.next();
            }
        } else if Self::key_is(key, 'x') || Self::key_is(key, 'K') {
            if in_procs {
                let selected = self.get_selected_process();
                match selected {
                    Some(p) => {
                        let m = SignalModalState::new(&p);
                        self.signal_modal = Some(m);
                    },
                    None => {},
                }
            }
        } else if Self::key_is(key, 'T') {
            self.show_theme_picker = !self.show_theme_picker;
        } else if Self::key_is(key, 'P') {
            self.show_pet_panel = !self.show_pet_panel;
        } else {
            self.nav_key(key);
        }
    }

    fn nav_key(&mut self, key: KeyPress)
        ensures
            final(self)@ == nav_step(old(self)@, key),
    {
        let in_procs = self.tab == Tab::Processes;
        if Self::key_is(key, '1') || Self::key_is(key, 'o') {
            self.tab = Tab::Overview;
        } else if Self::key_is(key, '2') || Self::key_is(key, 'c') {
            self.tab = Tab::Cpu;
        } else if Self::key_is(key, '3') {
            self.tab = Tab::Gpu;
        } else if Self::key_is(key, 'g') {
            if self.tab == Tab::Gpu {
                if self.gpu_count == 0 || self.selected_gpu >= self.gpu_count - 1 {
                    self.selected_gpu = 0;
                } else {
                    self.selected_gpu = self.selected_gpu + 1;
                }
            } else {
                self.tab = Tab::Gpu;
            }
        } else if Self::key_is(key, '4') || Self::key_is(key, 'm') {
            self.tab = Tab::Memory;
        } else if Self::key_is(key, '5') || Self::key_is(key, 'd') {
            self.tab = Tab::Disks;
        } else if Self::key_is(key, '6') || Self::key_is(key, 'n') {
            self.tab = Tab::Network;
        } else if Self::key_is(key, '7') || Self::key_is(key, 'p') {
            self.tab = Tab::Processes;
        } else if Self::key_is(key, '8') || Self::key_is(key, 's') {
            if in_procs {
                self.cycle_process_sort();
            } else {
                self.tab = Tab::Sensors;
            }
        } else if key.code == KeyCode::Tab {
            self.tab = self.tab.next();
        } else if key.code == KeyCode::BackTab {
            self.tab = self.tab.prev();
        } else {
            self.move_key(key);
        }
    }

    fn move_key(&mut self, key: KeyPress)
        ensures
            final(self)@ == move_step(old(self)@, key),
    {
        let in_procs = self.tab == Tab::Processes;
        if key.code == KeyCode::Down || Self::key_is(key, 'j') {
            if in_procs {
                let total = self.current_process_count();
                if total > 0 && self.selected_proc_idx < total - 1 {
                    self.selected_proc_idx = self.selected_proc_idx + 1;
                }
            }
        } else if key.code == KeyCode::Up || Self::key_is(key, 'k') {
            if in_procs && self.selected_proc_idx > 0 {
                self.selected_proc_idx = self.selected_proc_idx - 1;
            }
        } else if Self::key_is(key, '/') {
            if in_procs {
                self.is_searching = true;
            }
        } else if key.code == KeyCode::Esc {
            if !self.search_query.as_str().is_empty() {
                self.search_query = String::new();
                self.clamp_selected_proc();
            }
        }
    }
}

/// The selection points at a row of the process table, or is zero when the
/// table is empty.
pub open spec fn selection_in_table(m: AppModel) -> bool {
    if visible_count(m) == 0 {
        m.selected == 0
    } else {
        m.selected < visible_count(m)
    }
}

/// Whatever key is pressed, a selection inside the process table stays
/// inside it (searching, sorting and toggling views included).
pub proof fn lemma_key_keeps_selection(m: AppModel, k: KeyPress)
    requires
        selection_in_table(m),
    ensures
        selection_in_table(key_step(m, k).0),
{
    if !m.is_searching && m.modal is None && !(overlay_open(m) && overlay_handles(k)) {
        if (is_char(k, '8') || is_char(k, 's')) && m.tab == Tab::Processes && !(is_char(k, 'q') || (
        is_char(k, 'c') && k.ctrl)) {
            lemma_sort_keeps_matches(m.processes, sort_after(m.proc_sort), m.query);
        }
    }
}

/// A new sample of processes leaves the selection inside the table.
pub proof fn lemma_telemetry_keeps_selection(m: AppModel, procs: Seq<ProcessEntry>, gpu_count: nat)
    ensures
        selection_in_table(clamped(AppModel { processes: procs, gpu_count, ..m })),
{
}

/// Pressing q quits unless a search is being typed, the signal dialog is
/// open (q cancels it) or an overlay is shown (q closes it); Control-C quits
/// in the same situations; Esc never quits.
pub proof fn lemma_quit_keys(m: AppModel, k: KeyPress)
    ensures
        !m.is_searching && m.modal is None && !overlay_open(m) && (is_char(k, 'q') || (is_char(
            k,
            'c',
        ) && k.ctrl)) ==> key_step(m, k).0.should_quit,
        k.code == KeyCode::Esc ==> key_step(m, k).0.should_quit == m.should_quit,
{
}

/// Confirming the signal dialog requests exactly the process and signal it
/// shows, and closes it; no other key requests a signal.
pub proof fn lemma_signal_request(m: AppModel, k: KeyPress)
    ensures
        key_step(m, k).1 is Signal ==> !m.is_searching && m.modal is Some && key_step(m, k).0.modal is None
            && key_step(m, k).1 == (KeyRequest::Signal {
                pid: m.modal.unwrap().pid,
                name: m.modal.unwrap().name,
                signal: m.modal.unwrap().signal,
            }),
{
}

/// The recording keys request a recording toggle and change nothing else,
/// unless a search is typed or the signal dialog is open; no other key
/// requests one.
pub proof fn lemma_record_key(m: AppModel, k: KeyPress)
    ensures
        key_step(m, k).1 is Record <==> !m.is_searching && m.modal is None && is_record_key(k),
        key_step(m, k).1 is Record ==> key_step(m, k).0 == m,
{
}

/// On the GPU tab, g keeps the shown card among the cards there are.
pub proof fn lemma_gpu_switch(m: AppModel, k: KeyPress)
    requires
        !m.is_searching,
        m.modal is None,
        !overlay_open(m),
        m.tab == Tab::Gpu,
        is_char(k, 'g'),
    ensures
        key_step(m, k).0.tab == Tab::Gpu,
        m.gpu_count > 0 ==> key_step(m, k).0.selected_gpu < m.gpu_count,
        m.gpu_count == 0 ==> key_step(m, k).0.selected_gpu == 0,
{
}

/// The tab shortcuts: with no search typed and no dialog or overlay open,
/// the digit that begins a tab's title opens that tab ("4:Memory": 4), and
/// so does the lowercase first letter of its name (m); only on the process
/// table do 8 and s sort the rows instead of opening the sensors.
pub proof fn lemma_tab_keys(m: AppModel, t: Tab)
    requires
        !m.is_searching,
        m.modal is None,
        !overlay_open(m),
    ensures
        ({
            let title = tab_titles()[tab_index(t) as int];
            let digit = KeyPress { code: KeyCode::Char(title[0]), ctrl: false };
            let letter = KeyPress { code: KeyCode::Char(ascii_lower(title[2])), ctrl: false };
            &&& (t != Tab::Sensors || m.tab != Tab::Processes) ==> key_step(m, digit).0.tab == t
            &&& (t != Tab::Sensors || m.tab != Tab::Processes) ==> key_step(m, letter).0.tab == t
        }),
{
    reveal_strlit("1:Overview");
    reveal_strlit("2:CPU");
    reveal_strlit("3:GPU");
    reveal_strlit("4:Memory");
    reveal_strlit("5:Disks");
    reveal_strlit("6:Network");
    reveal_strlit("7:Processes");
    reveal_strlit("8:Sensors");
}

/// With no search typed and no dialog or overlay open, Tab moves one tab to
/// the right and Shift-Tab one to the left, wrapping around; on the process
/// table Down (or j) moves the selection one row down unless it is on the
/// last row, and Up (or k) one row up unless it is on the first.
pub proof fn lemma_navigation_keys(m: AppModel, k: KeyPress)
    requires
        !m.is_searching,
        m.modal is None,
        !overlay_open(m),
    ensures
        k.code == KeyCode::Tab ==> tab_index(key_step(m, k).0.tab) == (tab_index(m.tab) + 1) % 8,
        k.code == KeyCode::BackTab ==> tab_index(key_step(m, k).0.tab) == (tab_index(m.tab) + 7) % 8,
        m.tab == Tab::Processes && (k.code == KeyCode::Down || is_char(k, 'j')) ==> key_step(m, k).0.selected
            == (if m.selected + 1 < visible_count(m) { m.selected + 1 } else { m.selected }),
        m.tab == Tab::Processes && (k.code == KeyCode::Up || is_char(k, 'k')) ==> key_step(m, k).0.selected
            == (if m.selected > 0 { (m.selected - 1) as nat } else { m.selected }),
        (k.code == KeyCode::Tab || k.code == KeyCode::BackTab) ==> key_step(m, k).0.selected == m.selected,
{
}

} // verus!
