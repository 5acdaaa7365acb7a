//! One supervised process: its configuration, lifecycle status, terminal
//! buffer, and — only while running — the PTY plumbing around the child.

use vstd::prelude::*;

use crate::pty;
use crate::pty::{ChildProc, ExitPoll, ExitWait, PtyMaster, PtyReader, PtyWriter, ReadEvent};
use crate::screen::TerminalScreen;
use crate::signal;
use crate::types::{ProcessConfig, ProcessStatus};

verus! {

/// How long a graceful stop waits before escalating to a forced kill.
pub const GRACE_INTERVAL_MS: u16 = 100;

/// How many scrolled-off lines each process's buffer keeps.
pub const SCROLLBACK_LINES: usize = 10000;

/// Why a spawn or write failed. None of these abort the supervisor; the
/// slot keeps its previous status and may be retried.
#[derive(Clone, Copy, Debug, PartialEq, Eq, Structural)]
pub enum ProcError {
    /// The OS refused to allocate a pseudo-terminal.
    PtyOpenFailed,
    /// The child process could not be created.
    SpawnFailed,
    /// The output side of the PTY could not be prepared for polling.
    OutputSetupFailed,
    /// The input side of the PTY could not be obtained.
    InputSetupFailed,
    /// A best-effort write of input bytes failed.
    WriteFailed,
}

/// Whether the configured command runs through a shell: no explicit
/// argument vector, or an empty one.
pub open spec fn uses_shell_form(config: ProcessConfig) -> bool {
    match config.cmd {
        Some(args) => args@.len() == 0,
        None => true,
    }
}

/// Whether a builder carries exactly the configured command: the
/// explicit argument vector when one is given, else the command string
/// behind `sh -c`; the configured working directory; and the
/// environment overrides in order, with the terminal type appended
/// last so a child always sees full terminal capabilities.
pub open spec fn command_built_for(c: portable_pty::CommandBuilder, config: ProcessConfig) -> bool {
    &&& (if uses_shell_form(config) {
        &&& pty::cmd_program(c) == "sh"@
        &&& pty::cmd_args(c).len() == 2
        &&& pty::cmd_args(c)[0] == "-c"@
        &&& pty::cmd_args(c)[1] == config.command@
    } else {
        let args = config.cmd->0;
        &&& pty::cmd_program(c) == args@[0]@
        &&& pty::cmd_args(c).len() == args@.len() - 1
        &&& (forall|i: int|
            0 <= i < args@.len() - 1 ==> #[trigger] pty::cmd_args(c)[i] == args@[i + 1]@)
    })
    &&& pty::cmd_dir(c) == (match config.cwd {
        Some(dir) => Some(dir@),
        None => None::<Seq<char>>,
    })
    &&& pty::cmd_envs(c).len() == config.env@.len() + 1
    &&& (forall|i: int|
        0 <= i < config.env@.len() ==> #[trigger] pty::cmd_envs(c)[i] == (
        config.env@[i].0@,
        config.env@[i].1@,
        ))
    &&& pty::cmd_envs(c)[config.env@.len() as int] == ("TERM"@, "xterm-256color"@)
}

/// A handle owning one child process slot.
///
/// Invariant (`wf`): the OS resources — child handle, PTY master end,
/// output reader, input writer — are all present exactly while the status
/// is `Running`; they are set together on spawn and cleared together on
/// reap. A running slot always carries a real (positive) pid, and the
/// buffer always has at least one row and column.
pub struct ProcessHandle {
    pub config: ProcessConfig,
    pub status: ProcessStatus,
    pub screen: TerminalScreen,
    child: Option<ChildProc>,
    master: Option<PtyMaster>,
    reader: Option<PtyReader>,
    writer: Option<PtyWriter>,
}

impl ProcessHandle {
    pub closed spec fn spec_status(&self) -> ProcessStatus {
        self.status
    }

    pub closed spec fn spec_config(&self) -> ProcessConfig {
        self.config
    }

    pub closed spec fn spec_screen(&self) -> TerminalScreen {
        self.screen
    }

    pub closed spec fn wf(&self) -> bool {
        &&& (self.child is Some <==> self.status is Running)
        &&& (self.child is Some <==> self.master is Some)
        &&& (self.child is Some <==> self.reader is Some)
        &&& (self.child is Some <==> self.writer is Some)
        &&& (self.status matches ProcessStatus::Running { pid } ==> pid > 0)
        &&& self.screen.spec_rows() >= 1
        &&& self.screen.spec_cols() >= 1
    }

    pub fn is_running(&self) -> (r: bool)
        ensures
            r == (self.spec_status() is Running),
    {
        self.status.is_running()
    }

    pub fn is_not_started(&self) -> (r: bool)
        ensures
            r == (self.spec_status() is NotStarted),
    {
        matches!(self.status, ProcessStatus::NotStarted)
    }

    pub fn autorestart(&self) -> (r: bool)
        ensures
            r == self.spec_config().autorestart,
    {
        self.config.autorestart
    }

    pub fn sort_key(&self) -> (r: u8)
        ensures
            r as int == self.spec_status().spec_sort_order(),
    {
        self.status.sort_order()
    }

    pub fn name_clone(&self) -> (r: String)
        ensures
            r == self.spec_config().name,
    {
        self.config.name.clone()
    }

    pub fn name_matches(&self, other: &String) -> (r: bool)
        ensures
            r == (self.spec_config().name@ == other@),
    {
        self.config.name.eq(other)
    }

    /// Build the child command: an explicit argument vector runs directly,
    /// otherwise the command string runs through a shell. Working
    /// directory and environment overrides apply, and a terminal type is
    /// always injected so the child produces full terminal output.
    fn build_command(config: &ProcessConfig) -> (c: portable_pty::CommandBuilder)
        ensures
            command_built_for(c, *config),
    {
        let mut cmd = match &config.cmd {
            Some(args) if args.len() > 0 => {
                let mut c = pty::command_new(&args[0]);
                let mut i: usize = 1;
                while i < args.len()
                    invariant
                        1 <= i <= args@.len(),
                        pty::cmd_program(c) == args@[0]@,
                        pty::cmd_args(c).len() == i - 1,
                        forall|k: int|
                            0 <= k < i - 1 ==> #[trigger] pty::cmd_args(c)[k] == args@[k + 1]@,
                        pty::cmd_envs(c).len() == 0,
                        pty::cmd_dir(c) is None,
                    decreases args.len() - i,
                {
                    pty::command_arg(&mut c, &args[i]);
                    i = i + 1;
                }
                c
            }
            _ => {
                let mut c = pty::command_new("sh");
                pty::command_arg(&mut c, "-c");
                pty::command_arg(&mut c, &config.command);
                c
            }
        };
        if let Some(dir) = &config.cwd {
            pty::command_cwd(&mut cmd, dir);
        }
        let ghost base = *config;
        let mut i: usize = 0;
        while i < config.env.len()
            invariant
                i <= config.env@.len(),
                *config == base,
                (if uses_shell_form(base) {
                    &&& pty::cmd_program(cmd) == "sh"@
                    &&& pty::cmd_args(cmd).len() == 2
                    &&& pty::cmd_args(cmd)[0] == "-c"@
                    &&& pty::cmd_args(cmd)[1] == base.command@
                } else {
                    let args = base.cmd->0;
                    &&& pty::cmd_program(cmd) == args@[0]@
                    &&& pty::cmd_args(cmd).len() == args@.len() - 1
                    &&& (forall|k: int|
                        0 <= k < args@.len() - 1 ==> #[trigger] pty::cmd_args(cmd)[k] == args@[k
                            + 1]@)
                }),
                pty::cmd_dir(cmd) == (match base.cwd {
                    Some(dir) => Some(dir@),
                    None => None::<Seq<char>>,
                }),
                pty::cmd_envs(cmd).len() == i,
                forall|k: int|
                    0 <= k < i ==> #[trigger] pty::cmd_envs(cmd)[k] == (
                    base.env@[k].0@,
                    base.env@[k].1@,
                    ),
            decreases config.env.len() - i,
        {
            pty::command_env(&mut cmd, &config.env[i].0, &config.env[i].1);
            i = i + 1;
        }
        pty::command_env(&mut cmd, "TERM", "xterm-256color");
        cmd
    }

    /// Classify the outcome of a blocking reap: a successful wait records
    /// `Stopped` with the exit code (clamped into the status's range, -1
    /// when it does not fit); a failed wait records `Crashed`.
    pub open spec fn spec_classify_exit(outcome: ExitWait) -> ProcessStatus {
        match outcome {
            ExitWait::Exited(code) => ProcessStatus::Stopped {
                exit_code: if code <= 0x7fff_ffff {
                    code as i32
                } else {
                    -1i32
                },
            },
            ExitWait::Failed => ProcessStatus::Crashed,
        }
    }

    pub fn classify_exit(outcome: ExitWait) -> (s: ProcessStatus)
        ensures
            s == Self::spec_classify_exit(outcome),
    {
        match outcome {
            ExitWait::Exited(code) => {
                let exit_code: i32 = if code <= 0x7fff_ffff {
                    code as i32
                } else {
                    -1
                };
                ProcessStatus::Stopped { exit_code }
            }
            ExitWait::Failed => ProcessStatus::Crashed,
        }
    }

    /// Classify the outcome of a non-blocking exit poll: still-running
    /// and failed polls leave the status alone; a clean exit records
    /// `Stopped { 0 }`, any other exit code records `Crashed`.
    pub open spec fn spec_classify_exit_poll(outcome: ExitPoll) -> Option<ProcessStatus> {
        match outcome {
            ExitPoll::StillRunning => None,
            ExitPoll::Exited(code) => Some(
                if code == 0 {
                    ProcessStatus::Stopped { exit_code: 0 }
                } else {
                    ProcessStatus::Crashed
                },
            ),
            ExitPoll::Failed => None,
        }
    }

    pub fn classify_exit_poll(outcome: ExitPoll) -> (r: Option<ProcessStatus>)
        ensures
            r == Self::spec_classify_exit_poll(outcome),
    {
        match outcome {
            ExitPoll::StillRunning => None,
            ExitPoll::Exited(code) => {
                if code == 0 {
                    Some(ProcessStatus::Stopped { exit_code: 0 })
                } else {
                    Some(ProcessStatus::Crashed)
                }
            }
            ExitPoll::Failed => None,
        }
    }

    pub fn new(config: ProcessConfig, rows: u16, cols: u16) -> (r: Self)
        requires
            rows >= 1,
            cols >= 1,
        ensures
            r.wf(),
            r.spec_config() == config,
            r.spec_screen().spec_rows() == rows,
            r.spec_screen().spec_cols() == cols,
            r.spec_screen().spec_offset() == 0,
            !config.autostart ==> r.spec_status() is NotStarted,
            r.spec_status() is NotStarted || (r.spec_status() matches ProcessStatus::Running {
                pid,
            } && pid > 0),
    {
        let autostart = config.autostart;
        let mut handle = ProcessHandle {
            config,
            status: ProcessStatus::NotStarted,
            screen: TerminalScreen::new(rows, cols, SCROLLBACK_LINES),
            child: None,
            master: None,
            reader: None,
            writer: None,
        };
        if autostart {
            let _ = handle.spawn();
        }
        handle
    }

    /// Spawn the configured command on a fresh PTY sized to the buffer. A
    /// handle that is already running is gracefully stopped first. On
    /// success the slot is `Running` with the child's positive pid and the
    /// view is scrolled to the live bottom; on failure the slot keeps a
    /// non-running status and no resources.
    pub fn spawn(&mut self) -> (r: Result<(), ProcError>)
        requires
            old(self).wf(),
        ensures
            final(self).wf(),
            final(self).spec_config() == old(self).spec_config(),
            r is Ok ==> (final(self).spec_status() matches ProcessStatus::Running { pid }
                && pid > 0),
            r is Ok ==> final(self).spec_screen().spec_offset() == 0,
            r is Err ==> !(final(self).spec_status() is Running),
            r is Err && !(old(self).spec_status() is Running) ==> final(self).spec_status()
                == old(self).spec_status(),
            r is Err ==> final(self).spec_screen().spec_offset() == old(self).spec_screen().spec_offset(),
            final(self).spec_screen().spec_rows() == old(self).spec_screen().spec_rows(),
            final(self).spec_screen().spec_cols() == old(self).spec_screen().spec_cols(),
    {
        if self.status.is_running() {
            self.stop(true);
        }

        let (master, slave) = match pty::open_pty(self.screen.rows(), self.screen.cols()) {
            Some(pair) => pair,
            None => {
                return Err(ProcError::PtyOpenFailed);
            }
        };

        let cmd = Self::build_command(&self.config);

        let child = match pty::spawn_command_on(slave, cmd) {
            Some(child) => child,
            None => {
                return Err(ProcError::SpawnFailed);
            }
        };
        let pid = pty::child_pid(&child);

        let reader = match pty::clone_reader(&master) {
            Some(reader) => reader,
            None => {
                return Err(ProcError::OutputSetupFailed);
            }
        };
        let nonblocking = match pty::master_fd(&master) {
            Some(fd) => pty::set_fd_nonblocking(fd),
            None => false,
        };
        if !nonblocking {
            return Err(ProcError::OutputSetupFailed);
        }

        let writer = match pty::take_writer(&master) {
            Some(writer) => writer,
            None => {
                return Err(ProcError::InputSetupFailed);
            }
        };

        self.child = Some(child);
        self.master = Some(master);
        self.reader = Some(reader);
        self.writer = Some(writer);
        self.status = ProcessStatus::Running { pid };
        self.screen.scroll_to_bottom();
        Ok(())
    }

    /// Stop a running child: gracefully (terminate the process group, wait
    /// the grace interval, escalate to a forced kill if it is still alive)
    /// or forcefully at once. The child is then reaped: a successful wait
    /// records `Stopped` with its exit code, a failed wait records
    /// `Crashed`. All OS resources are released together either way. A
    /// handle that is not running is left untouched.
    pub fn stop(&mut self, graceful: bool)
        requires
            old(self).wf(),
        ensures
            final(self).wf(),
            final(self).spec_config() == old(self).spec_config(),
            final(self).spec_screen() == old(self).spec_screen(),
            !(old(self).spec_status() is Running) ==> *final(self) == *old(self),
            old(self).spec_status() is Running ==> (final(self).spec_status() is Stopped
                || final(self).spec_status() is Crashed),
    {
        if let ProcessStatus::Running { pid } = self.status {
            if graceful {
                let _ = signal::terminate_process_group(pid);
                signal::pause_millis(GRACE_INTERVAL_MS);
                if signal::is_process_alive(pid) {
                    let _ = signal::force_kill_process_group(pid);
                }
            } else {
                let _ = signal::force_kill_process_group(pid);
            }

            match &mut self.child {
                Some(child) => {
                    let outcome = pty::wait_child(child);
                    self.status = Self::classify_exit(outcome);
                }
                None => {
                    // wf rules this out: a running handle owns its child.
                    self.status = ProcessStatus::Crashed;
                }
            }

            self.child = None;
            self.master = None;
            self.reader = None;
            self.writer = None;
        }
    }

    /// A graceful stop followed by a fresh spawn.
    pub fn restart(&mut self) -> (r: Result<(), ProcError>)
        requires
            old(self).wf(),
        ensures
            final(self).wf(),
            final(self).spec_config() == old(self).spec_config(),
            r is Ok ==> (final(self).spec_status() matches ProcessStatus::Running { pid }
                && pid > 0),
            r is Ok ==> final(self).spec_screen().spec_offset() == 0,
            r is Err ==> !(final(self).spec_status() is Running),
    {
        self.stop(true);
        self.spawn()
    }

    /// Forward raw input bytes (keystrokes, pastes) to the child's
    /// terminal. Best effort: a handle that is not running ignores the
    /// bytes, and a failed write is reported but changes nothing.
    pub fn write_input(&mut self, data: &[u8]) -> (r: Result<(), ProcError>)
        requires
            old(self).wf(),
        ensures
            final(self).wf(),
            final(self).spec_config() == old(self).spec_config(),
            final(self).spec_status() == old(self).spec_status(),
            final(self).spec_screen() == old(self).spec_screen(),
            !(old(self).spec_status() is Running) ==> r is Ok,
            r is Err ==> r == Err::<(), ProcError>(ProcError::WriteFailed),
    {
        match &mut self.writer {
            Some(writer) => {
                if pty::write_all_to(writer, data) {
                    Ok(())
                } else {
                    Err(ProcError::WriteFailed)
                }
            }
            None => Ok(()),
        }
    }

    /// Drain every output chunk currently available, feeding each into the
    /// terminal buffer in arrival order, then poll (without blocking) for
    /// the child's exit: a clean exit records `Stopped { 0 }`, any other
    /// outcome of the exit poll records `Crashed`, and either releases all
    /// OS resources together. Returns true iff any output was consumed.
    pub fn drain_output(&mut self) -> (had_output: bool)
        requires
            old(self).wf(),
        ensures
            final(self).wf(),
            final(self).spec_config() == old(self).spec_config(),
            !(old(self).spec_status() is Running) ==> *final(self) == *old(self) && !had_output,
            old(self).spec_status() is Running ==> (final(self).spec_status() == old(self).spec_status() || final(self).spec_status() == (ProcessStatus::Stopped {
                exit_code: 0,
            }) || final(self).spec_status() is Crashed),
            final(self).spec_status() is NotStarted ==> old(self).spec_status() is NotStarted,
            final(self).spec_screen().spec_rows() == old(self).spec_screen().spec_rows(),
            final(self).spec_screen().spec_cols() == old(self).spec_screen().spec_cols(),
            final(self).spec_screen().spec_offset() == old(self).spec_screen().spec_offset(),
    {
        let mut had_output = false;
        // Cap the chunks consumed per call so one flooding child cannot
        // starve the supervisor's tick loop; the next drain continues.
        let mut budget: usize = 4096;

        while budget > 0
            invariant
                self.wf(),
                self.spec_status() == old(self).spec_status(),
                self.spec_config() == old(self).spec_config(),
                self.spec_screen().spec_rows() == old(self).spec_screen().spec_rows(),
                self.spec_screen().spec_cols() == old(self).spec_screen().spec_cols(),
                self.spec_screen().spec_offset() == old(self).spec_screen().spec_offset(),
                !(old(self).spec_status() is Running) ==> *self == *old(self) && !had_output,
            decreases budget,
        {
            budget = budget - 1;
            match &mut self.reader {
                Some(reader) => {
                    match pty::read_chunk(reader) {
                        ReadEvent::Data(data) => {
                            self.screen.process_bytes(data.as_slice());
                            had_output = true;
                        }
                        ReadEvent::WouldBlock => {
                            break;
                        }
                        ReadEvent::Closed => {
                            break;
                        }
                        ReadEvent::Failed => {
                            break;
                        }
                    }
                }
                None => {
                    break;
                }
            }
        }

        let reaped = match &mut self.child {
            Some(child) => {
                let outcome = pty::try_wait_child(child);
                Self::classify_exit_poll(outcome)
            }
            None => None,
        };
        match reaped {
            Some(status) => {
                self.status = status;
                self.child = None;
                self.master = None;
                self.reader = None;
                self.writer = None;
            }
            None => {}
        }

        had_output
    }

    /// Scroll this handle's view further into its scrollback, clamped to
    /// the lines actually held.
    pub fn scroll_up(&mut self, n: usize)
        requires
            old(self).wf(),
        ensures
            final(self).wf(),
            final(self).spec_config() == old(self).spec_config(),
            final(self).spec_status() == old(self).spec_status(),
            final(self).spec_screen().spec_offset() as nat == crate::screen::scroll_up_model(
                old(self).spec_screen().spec_offset() as nat,
                n as nat,
                old(self).spec_screen().emu_history(),
            ),
    {
        self.screen.scroll_up(n);
    }

    /// Scroll this handle's view back towards the live bottom.
    pub fn scroll_down(&mut self, n: usize)
        requires
            old(self).wf(),
        ensures
            final(self).wf(),
            final(self).spec_config() == old(self).spec_config(),
            final(self).spec_status() == old(self).spec_status(),
            final(self).spec_screen().spec_offset() as nat == crate::screen::scroll_down_model(
                old(self).spec_screen().spec_offset() as nat,
                n as nat,
                old(self).spec_screen().emu_history(),
            ),
    {
        self.screen.scroll_down(n);
    }

    /// Grow the terminal buffer to cover the requested pane size (never
    /// shrinking it), and resize the live PTY to exactly the requested
    /// size so the child reformats its output for the real pane.
    pub fn resize_pty(&mut self, rows: u16, cols: u16)
        requires
            old(self).wf(),
        ensures
            final(self).wf(),
            final(self).spec_config() == old(self).spec_config(),
            final(self).spec_status() == old(self).spec_status(),
            final(self).spec_screen().spec_rows() >= old(self).spec_screen().spec_rows(),
            final(self).spec_screen().spec_cols() >= old(self).spec_screen().spec_cols(),
            final(self).spec_screen().spec_rows() == if rows >= old(self).spec_screen().spec_rows() {
                rows
            } else {
                old(self).spec_screen().spec_rows()
            },
            final(self).spec_screen().spec_cols() == if cols >= old(self).spec_screen().spec_cols() {
                cols
            } else {
                old(self).spec_screen().spec_cols()
            },
            final(self).spec_screen().spec_offset() == old(self).spec_screen().spec_offset(),
    {
        self.screen.resize(rows, cols);
        match &self.master {
            Some(master) => {
                let _ = pty::resize_pty_window(master, rows, cols);
            }
            None => {}
        }
    }
}

} // verus!
