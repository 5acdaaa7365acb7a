//! The application state machine: which tab and pane are focused, which
//! process is selected, and how each user action maps onto exactly one
//! manager, handle, or port-killer operation. Event decoding and drawing
//! happen outside; they only produce `Action` values and read this state.

use vstd::prelude::*;

use crate::browser;
use crate::browser::PortKiller;
use crate::config::AppConfig;
use crate::manager::ProcessManager;
use crate::signal;

verus! {

#[derive(Clone, Copy, Debug, PartialEq, Eq, Structural)]
pub enum ActiveTab {
    Processes,
    PortKiller,
}

#[derive(Clone, Copy, Debug, PartialEq, Eq, Structural)]
pub enum Scope {
    ProcessList,
    Terminal,
    TerminalZoomed,
}

pub struct UiState {
    pub selected_process: usize,
    pub scope: Scope,
    pub show_keymap: bool,
    /// Mouse selection start (col, row) in absolute terminal coordinates.
    pub selection_start: Option<(u16, u16)>,
    /// Mouse selection end (col, row) in absolute terminal coordinates.
    pub selection_end: Option<(u16, u16)>,
}

/// One user action, already decoded from the raw input event.
pub enum Action {
    Quit,
    SelectNext,
    SelectPrev,
    StartProcess,
    StopProcess,
    ForceKill,
    RestartProcess,
    ClearLogs,
    SelectIndex(usize),
    ClickOutputPane,
    MouseDragStart(u16, u16),
    MouseDragEnd(u16, u16),
    CopySelection,
    FocusProcessList,
    FocusTerminal,
    ToggleZoom,
    ToggleKeymap,
    ScrollUp(u16),
    ScrollDown(u16),
    SendInput(Vec<u8>),
    Resize(u16, u16),
    SwitchToPortKiller,
    SwitchToProcesses,
    PortKillerType(char),
    PortKillerBackspace,
    PortKillerClear,
    Noop,
}

/// What the caller must do after a dispatch: nothing, rescan the
/// listening ports and hand them back through the port killer, or copy
/// the mouse selection to the clipboard.
#[derive(Clone, Copy, Debug, PartialEq, Eq, Structural)]
pub enum Effect {
    Nothing,
    RescanPorts,
    CopySelection,
}

/// The output pane dimensions carved out of the whole terminal: a
/// quarter-width process list and two border columns to the left, a
/// status bar and keymap row above and below, never below one cell.
pub open spec fn spec_pane_size(term_cols: u16, term_rows: u16) -> (int, int) {
    let list_width = term_cols as int / 4;
    let pane_cols = if term_cols as int >= list_width + 2 {
        term_cols as int - list_width - 2
    } else {
        0
    };
    let pane_rows = if term_rows as int >= 4 {
        term_rows as int - 4
    } else {
        0
    };
    (if pane_rows >= 1 { pane_rows } else { 1 }, if pane_cols >= 1 { pane_cols } else { 1 })
}

pub fn pane_size(term_cols: u16, term_rows: u16) -> (r: (u16, u16))
    ensures
        r.0 as int == spec_pane_size(term_cols, term_rows).0,
        r.1 as int == spec_pane_size(term_cols, term_rows).1,
{
    let list_width = term_cols / 4;
    let pane_cols = term_cols.saturating_sub(list_width + 2);
    let pane_rows = term_rows.saturating_sub(4);
    let rows = if pane_rows >= 1 {
        pane_rows
    } else {
        1
    };
    let cols = if pane_cols >= 1 {
        pane_cols
    } else {
        1
    };
    (rows, cols)
}

/// The mouse selection normalised to (start_row, start_col, end_row,
/// end_col) in row-major order, or nothing while no selection is active.
pub open spec fn spec_selection(ui: UiState) -> Option<(u16, u16, u16, u16)> {
    match (ui.selection_start, ui.selection_end) {
        (Some(start), Some(end)) => {
            if start.1 < end.1 || (start.1 == end.1 && start.0 <= end.0) {
                Some((start.1, start.0, end.1, end.0))
            } else {
                Some((end.1, end.0, start.1, start.0))
            }
        }
        _ => None,
    }
}

pub fn compute_selection(ui: &UiState) -> (r: Option<(u16, u16, u16, u16)>)
    ensures
        r == spec_selection(*ui),
{
    match (ui.selection_start, ui.selection_end) {
        (Some(start), Some(end)) => {
            if start.1 < end.1 || (start.1 == end.1 && start.0 <= end.0) {
                Some((start.1, start.0, end.1, end.0))
            } else {
                Some((end.1, end.0, start.1, start.0))
            }
        }
        _ => None,
    }
}

/// Whether the cell at absolute coordinates (x, y) lies inside the
/// normalised selection: nothing outside its rows, the span between the
/// columns on a single-row selection, the open ends on the first and
/// last rows, everything on the rows between.
pub open spec fn spec_is_selected(x: u16, y: u16, sel: Option<(u16, u16, u16, u16)>) -> bool {
    match sel {
        Option::None => false,
        Some((sr, sc, er, ec)) => {
            if y < sr || y > er {
                false
            } else if y == sr && y == er {
                sc <= x && x <= ec
            } else if y == sr {
                x >= sc
            } else if y == er {
                x <= ec
            } else {
                true
            }
        }
    }
}

pub fn is_selected(abs_x: u16, abs_y: u16, sel: &Option<(u16, u16, u16, u16)>) -> (r: bool)
    ensures
        r == spec_is_selected(abs_x, abs_y, *sel),
{
    let (sr, sc, er, ec) = match sel {
        Some(s) => *s,
        Option::None => {
            return false;
        }
    };
    if abs_y < sr || abs_y > er {
        return false;
    }
    if abs_y == sr && abs_y == er {
        return sc <= abs_x && abs_x <= ec;
    }
    if abs_y == sr {
        return abs_x >= sc;
    }
    if abs_y == er {
        return abs_x <= ec;
    }
    true
}

/// The whole supervisor application state.
pub struct App {
    pub should_quit: bool,
    pub active_tab: ActiveTab,
    pub ui_state: UiState,
    pub process_manager: ProcessManager,
    pub port_killer: PortKiller,
    pub auto_exit: bool,
}

impl App {
    pub open spec fn wf(&self) -> bool {
        self.process_manager.wf()
    }

    /// Build the application from the merged configuration and the
    /// terminal dimensions: one handle per configured process (spawning
    /// the autostarted ones), an empty port listing, and the process
    /// list focused.
    pub fn new(config: AppConfig, term_cols: u16, term_rows: u16) -> (r: Self)
        ensures
            r.wf(),
            r.process_manager.processes@.len() == config.processes@.len(),
            forall|i: int|
                0 <= i < config.processes@.len() ==> (#[trigger] r.process_manager.processes@[i]).spec_config()
                    == config.processes@[i],
            forall|i: int|
                0 <= i < config.processes@.len() && !config.processes@[i].autostart ==> (
                #[trigger] r.process_manager.processes@[i]).spec_status() is NotStarted,
            !r.should_quit,
            r.active_tab is Processes,
            r.ui_state.selected_process == 0,
            r.ui_state.scope is ProcessList,
            r.ui_state.show_keymap,
            r.ui_state.selection_start is None,
            r.ui_state.selection_end is None,
            r.auto_exit == config.auto_exit,
    {
        let (pane_rows, pane_cols) = pane_size(term_cols, term_rows);
        proof {
            assert(pane_rows >= 1 && pane_cols >= 1);
        }

        let ghost all = config.processes@;
        let mut rest = config.processes;
        let mut pm = ProcessManager::new();
        while rest.len() > 0
            invariant
                pm.wf(),
                pane_rows >= 1,
                pane_cols >= 1,
                pm.processes@.len() + rest@.len() == all.len(),
                rest@ =~= all.skip(pm.processes@.len() as int),
                forall|i: int|
                    0 <= i < pm.processes@.len() ==> (#[trigger] pm.processes@[i]).spec_config()
                        == all[i],
                forall|i: int|
                    0 <= i < pm.processes@.len() && !all[i].autostart ==> (
                    #[trigger] pm.processes@[i]).spec_status() is NotStarted,
            decreases rest@.len(),
        {
            let ghost before = rest@;
            let proc_config = rest.remove(0);
            proof {
                assert(rest@ =~= before.skip(1));
            }
            pm.add_process(proc_config, pane_rows, pane_cols);
        }

        App {
            should_quit: false,
            active_tab: ActiveTab::Processes,
            ui_state: UiState {
                selected_process: 0,
                scope: Scope::ProcessList,
                show_keymap: true,
                selection_start: Option::None,
                selection_end: Option::None,
            },
            process_manager: pm,
            port_killer: PortKiller::new(),
            auto_exit: config.auto_exit,
        }
    }

    /// Whether the supervisor should exit on its own: it was asked to
    /// auto-exit, at least one process was configured, and none is
    /// running.
    pub fn should_auto_exit(&self) -> (r: bool)
        ensures
            r == (self.auto_exit && self.process_manager.processes@.len() > 0 && (forall|i: int|
                0 <= i < self.process_manager.processes@.len() ==> !((
                #[trigger] self.process_manager.processes@[i]).spec_status() is Running))),
    {
        self.auto_exit && self.process_manager.process_count() > 0
            && self.process_manager.all_stopped()
    }

    /// Apply one user action to the state, performing the single
    /// manager, handle, or port-killer operation it maps onto, and
    /// report what the caller still has to do outside.
    #[verifier::rlimit(100)]
    pub fn dispatch(&mut self, action: Action) -> (effect: Effect)
        requires
            old(self).wf(),
        ensures
            final(self).wf(),
            final(self).auto_exit == old(self).auto_exit,
            final(self).should_quit == (old(self).should_quit || action is Quit),
            final(self).active_tab == (match action {
                Action::SwitchToPortKiller => ActiveTab::PortKiller,
                Action::SwitchToProcesses => ActiveTab::Processes,
                _ => old(self).active_tab,
            }),
            final(self).ui_state.show_keymap == (if action is ToggleKeymap {
                !old(self).ui_state.show_keymap
            } else {
                old(self).ui_state.show_keymap
            }),
            action is ToggleZoom ==> final(self).ui_state.scope == (match old(self).ui_state.scope {
                Scope::TerminalZoomed => Scope::Terminal,
                _ => Scope::TerminalZoomed,
            }),
            action is FocusProcessList ==> final(self).ui_state.scope is ProcessList,
            action is FocusTerminal || action is ClickOutputPane ==> final(self).ui_state.scope is Terminal,
            (match action {
                Action::SelectIndex(idx) => final(self).ui_state.selected_process == (if (
                idx as int) < old(self).process_manager.processes@.len() {
                    idx as int
                } else {
                    old(self).ui_state.selected_process as int
                }),
                _ => true,
            }),
            action is CopySelection ==> final(self).ui_state.selection_start is None && final(self).ui_state.selection_end is None,
            final(self).process_manager.processes@.len() == old(self).process_manager.processes@.len(),
            forall|i: int|
                0 <= i < old(self).process_manager.processes@.len() ==> (#[trigger] final(self).process_manager.processes@[i]).spec_config() == old(self).process_manager.processes@[i].spec_config(),
            effect == (match action {
                Action::SwitchToPortKiller => Effect::RescanPorts,
                Action::PortKillerType(c) => if browser::is_filter_char(c) {
                    Effect::RescanPorts
                } else {
                    Effect::Nothing
                },
                Action::PortKillerBackspace => Effect::RescanPorts,
                Action::PortKillerClear => Effect::RescanPorts,
                Action::StopProcess | Action::ForceKill => if old(self).active_tab is PortKiller
                    && old(self).port_killer.spec_selected() < old(self).port_killer.spec_entries().len() {
                    Effect::RescanPorts
                } else {
                    Effect::Nothing
                },
                Action::CopySelection => Effect::CopySelection,
                _ => Effect::Nothing,
            }),
    {
        match action {
            Action::Quit => {
                self.should_quit = true;
                Effect::Nothing
            }
            Action::SelectNext => {
                if matches!(self.active_tab, ActiveTab::PortKiller) {
                    self.port_killer.select_next();
                } else {
                    let count = self.process_manager.process_count();
                    if count > 0 {
                        if self.ui_state.selected_process >= count - 1 {
                            self.ui_state.selected_process = 0;
                        } else {
                            self.ui_state.selected_process = self.ui_state.selected_process + 1;
                        }
                    }
                }
                Effect::Nothing
            }
            Action::SelectPrev => {
                if matches!(self.active_tab, ActiveTab::PortKiller) {
                    self.port_killer.select_prev();
                } else {
                    let count = self.process_manager.process_count();
                    if count > 0 {
                        if self.ui_state.selected_process == 0 {
                            self.ui_state.selected_process = count - 1;
                        } else {
                            self.ui_state.selected_process = self.ui_state.selected_process - 1;
                        }
                    }
                }
                Effect::Nothing
            }
            Action::StartProcess => {
                let idx = self.ui_state.selected_process;
                let _ = self.process_manager.start(idx);
                Effect::Nothing
            }
            Action::StopProcess => {
                if matches!(self.active_tab, ActiveTab::PortKiller) {
                    match self.port_killer.selected_pid() {
                        Some(pid) => {
                            let _ = signal::kill_process(pid, false);
                            Effect::RescanPorts
                        }
                        Option::None => Effect::Nothing,
                    }
                } else {
                    let idx = self.ui_state.selected_process;
                    let _ = self.process_manager.stop(idx);
                    Effect::Nothing
                }
            }
            Action::ForceKill => {
                if matches!(self.active_tab, ActiveTab::PortKiller) {
                    match self.port_killer.selected_pid() {
                        Some(pid) => {
                            let _ = signal::kill_process(pid, true);
                            Effect::RescanPorts
                        }
                        Option::None => Effect::Nothing,
                    }
                } else {
                    let idx = self.ui_state.selected_process;
                    let _ = self.process_manager.force_kill(idx);
                    Effect::Nothing
                }
            }
            Action::RestartProcess => {
                let idx = self.ui_state.selected_process;
                let _ = self.process_manager.restart(idx);
                Effect::Nothing
            }
            Action::ClearLogs => Effect::Nothing,
            Action::SelectIndex(idx) => {
                let count = self.process_manager.process_count();
                if idx < count {
                    self.ui_state.selected_process = idx;
                }
                Effect::Nothing
            }
            Action::ClickOutputPane => {
                self.ui_state.scope = Scope::Terminal;
                self.ui_state.selection_start = Option::None;
                self.ui_state.selection_end = Option::None;
                Effect::Nothing
            }
            Action::MouseDragStart(col, row) => {
                self.ui_state.selection_start = Some((col, row));
                self.ui_state.selection_end = Option::None;
                Effect::Nothing
            }
            Action::MouseDragEnd(col, row) => {
                self.ui_state.selection_end = Some((col, row));
                Effect::Nothing
            }
            Action::CopySelection => {
                self.ui_state.selection_start = Option::None;
                self.ui_state.selection_end = Option::None;
                Effect::CopySelection
            }
            Action::FocusProcessList => {
                self.ui_state.scope = Scope::ProcessList;
                Effect::Nothing
            }
            Action::FocusTerminal => {
                self.ui_state.scope = Scope::Terminal;
                Effect::Nothing
            }
            Action::ToggleZoom => {
                self.ui_state.scope = match self.ui_state.scope {
                    Scope::TerminalZoomed => Scope::Terminal,
                    _ => Scope::TerminalZoomed,
                };
                Effect::Nothing
            }
            Action::ToggleKeymap => {
                self.ui_state.show_keymap = !self.ui_state.show_keymap;
                Effect::Nothing
            }
            Action::ScrollUp(n) => {
                let idx = self.ui_state.selected_process;
                if idx < self.process_manager.processes.len() {
                    let ghost prev = self.process_manager.processes@;
                    let mut h = self.process_manager.processes.remove(idx);
                    h.scroll_up(n as usize);
                    self.process_manager.processes.insert(idx, h);
                    proof {
                        assert(self.process_manager.processes@ =~= prev.update(idx as int, h));
                    }
                }
                Effect::Nothing
            }
            Action::ScrollDown(n) => {
                let idx = self.ui_state.selected_process;
                if idx < self.process_manager.processes.len() {
                    let ghost prev = self.process_manager.processes@;
                    let mut h = self.process_manager.processes.remove(idx);
                    h.scroll_down(n as usize);
                    self.process_manager.processes.insert(idx, h);
                    proof {
                        assert(self.process_manager.processes@ =~= prev.update(idx as int, h));
                    }
                }
                Effect::Nothing
            }
            Action::SendInput(data) => {
                let idx = self.ui_state.selected_process;
                if idx < self.process_manager.processes.len() {
                    let ghost prev = self.process_manager.processes@;
                    let mut h = self.process_manager.processes.remove(idx);
                    let _ = h.write_input(data.as_slice());
                    self.process_manager.processes.insert(idx, h);
                    proof {
                        assert(self.process_manager.processes@ =~= prev.update(idx as int, h));
                    }
                }
                Effect::Nothing
            }
            Action::Resize(w, h) => {
                let (pane_rows, pane_cols) = pane_size(w, h);
                self.process_manager.resize_all(pane_rows, pane_cols);
                Effect::Nothing
            }
            Action::SwitchToPortKiller => {
                self.active_tab = ActiveTab::PortKiller;
                Effect::RescanPorts
            }
            Action::SwitchToProcesses => {
                self.active_tab = ActiveTab::Processes;
                Effect::Nothing
            }
            Action::PortKillerType(c) => {
                let accepted = self.port_killer.type_char(c);
                if accepted {
                    Effect::RescanPorts
                } else {
                    Effect::Nothing
                }
            }
            Action::PortKillerBackspace => {
                self.port_killer.backspace();
                Effect::RescanPorts
            }
            Action::PortKillerClear => {
                self.port_killer.clear_input();
                Effect::RescanPorts
            }
            Action::Noop => Effect::Nothing,
        }
    }
}

} // verus!
