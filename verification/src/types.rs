//! Core data model: the lifecycle status of a supervised process and the
//! immutable per-process configuration.

use vstd::prelude::*;

verus! {

/// Lifecycle state of one supervised process slot.
///
/// Transitions: `NotStarted -> Running` on spawn, `Running -> Stopped` or
/// `Running -> Crashed` when the child is reaped, and `Stopped | Crashed ->
/// Running` on a restart. `NotStarted` is never reached again once left.
#[derive(Clone, Copy, Debug, PartialEq, Eq, Structural)]
pub enum ProcessStatus {
    NotStarted,
    Running { pid: u32 },
    Stopped { exit_code: i32 },
    Crashed,
}

impl ProcessStatus {
    pub open spec fn spec_is_running(self) -> bool {
        self is Running
    }

    pub fn is_running(&self) -> (r: bool)
        ensures
            r == self.spec_is_running(),
    {
        matches!(self, ProcessStatus::Running { .. })
    }

    /// Display priority: Running = 0 (first), Crashed = 1, Stopped = 2,
    /// NotStarted = 3.
    pub open spec fn spec_sort_order(self) -> int {
        match self {
            ProcessStatus::Running { .. } => 0,
            ProcessStatus::Crashed => 1,
            ProcessStatus::Stopped { .. } => 2,
            ProcessStatus::NotStarted => 3,
        }
    }

    pub fn sort_order(&self) -> (r: u8)
        ensures
            r as int == self.spec_sort_order(),
    {
        match self {
            ProcessStatus::Running { .. } => 0,
            ProcessStatus::Crashed => 1,
            ProcessStatus::Stopped { .. } => 2,
            ProcessStatus::NotStarted => 3,
        }
    }

    pub fn label(&self) -> (r: &'static str)
        ensures
            self is NotStarted ==> r@ == "NOT STARTED"@,
            self is Running ==> r@ == "RUNNING"@,
            (match self {
                ProcessStatus::Stopped { exit_code } => exit_code == 0,
                _ => false,
            }) ==> r@ == "STOPPED"@,
            (match self {
                ProcessStatus::Stopped { exit_code } => exit_code != 0,
                _ => false,
            }) ==> r@ == "EXITED"@,
            self is Crashed ==> r@ == "CRASHED"@,
    {
        match self {
            ProcessStatus::NotStarted => "NOT STARTED",
            ProcessStatus::Running { .. } => "RUNNING",
            ProcessStatus::Stopped { exit_code: 0 } => "STOPPED",
            ProcessStatus::Stopped { .. } => "EXITED",
            ProcessStatus::Crashed => "CRASHED",
        }
    }
}

/// Immutable configuration for one supervised process, supplied by the
/// configuration loaders before the supervisor starts.
///
/// `command` is run through a shell unless `cmd` supplies an explicit
/// argument vector. `env` holds environment overrides as ordered key/value
/// pairs; `cwd` is an optional working directory. `port` is an optional
/// declared network port used only by the conflict scanner.
#[derive(Clone, Debug)]
pub struct ProcessConfig {
    pub name: String,
    pub command: String,
    pub cmd: Option<Vec<String>>,
    pub cwd: Option<String>,
    pub env: Vec<(String, String)>,
    pub autostart: bool,
    pub autorestart: bool,
    pub port: Option<u16>,
}

impl Default for ProcessConfig {
    fn default() -> (r: Self)
        ensures
            r.name@ == Seq::<char>::empty(),
            r.command@ == Seq::<char>::empty(),
            r.cmd is None,
            r.cwd is None,
            r.env@ == Seq::<(String, String)>::empty(),
            r.autostart == true,
            r.autorestart == false,
            r.port is None,
    {
        ProcessConfig {
            name: String::new(),
            command: String::new(),
            cmd: None,
            cwd: None,
            env: Vec::new(),
            autostart: true,
            autorestart: false,
            port: None,
        }
    }
}

} // verus!
