//! The process manager: an ordered collection of process handles with
//! bulk and indexed lifecycle operations, autorestart policy, and
//! status-based display ordering.

use vstd::prelude::*;
use vstd::seq_lib::*;

use crate::handle::{ProcError, ProcessHandle};
use crate::types::{ProcessConfig, ProcessStatus};

verus! {

/// Selects the handles whose status has the given sort priority.
pub open spec fn has_order(k: int) -> spec_fn(ProcessHandle) -> bool {
    |h: ProcessHandle| h.spec_status().spec_sort_order() == k
}

/// The display order: all running handles first, then crashed, stopped,
/// and never-started ones, each group keeping its original relative order.
pub open spec fn status_buckets(s: Seq<ProcessHandle>) -> Seq<ProcessHandle> {
    s.filter(has_order(0)) + s.filter(has_order(1)) + s.filter(has_order(2)) + s.filter(
        has_order(3),
    )
}

pub struct ProcessManager {
    pub processes: Vec<ProcessHandle>,
}

impl ProcessManager {
    pub open spec fn wf(&self) -> bool {
        forall|i: int|
            0 <= i < self.processes@.len() ==> (#[trigger] self.processes@[i]).wf()
    }

    pub fn new() -> (r: Self)
        ensures
            r.wf(),
            r.processes@.len() == 0,
    {
        ProcessManager { processes: Vec::new() }
    }

    pub fn process_count(&self) -> (r: usize)
        ensures
            r == self.processes@.len(),
    {
        self.processes.len()
    }

    /// Append a new handle; a config with the autostart flag spawns itself
    /// immediately as part of construction.
    pub fn add_process(&mut self, config: ProcessConfig, rows: u16, cols: u16)
        requires
            old(self).wf(),
            rows >= 1,
            cols >= 1,
        ensures
            final(self).wf(),
            final(self).processes@.len() == old(self).processes@.len() + 1,
            forall|j: int|
                0 <= j < old(self).processes@.len() ==> final(self).processes@[j] == old(self).processes@[j],
            final(self).processes@.last().spec_config() == config,
            final(self).processes@.last().spec_screen().spec_rows() == rows,
            final(self).processes@.last().spec_screen().spec_cols() == cols,
            final(self).processes@.last().spec_screen().spec_offset() == 0,
            !config.autostart ==> final(self).processes@.last().spec_status() is NotStarted,
            final(self).processes@.last().spec_status() is NotStarted || (final(self).processes@.last().spec_status() matches ProcessStatus::Running { pid } && pid > 0),
    {
        let handle = ProcessHandle::new(config, rows, cols);
        self.processes.push(handle);
    }

    /// Spawn the handle at `index`; out-of-range indices are a no-op.
    pub fn start(&mut self, index: usize) -> (r: Result<(), ProcError>)
        requires
            old(self).wf(),
        ensures
            final(self).wf(),
            final(self).processes@.len() == old(self).processes@.len(),
            forall|j: int|
                0 <= j < old(self).processes@.len() && j != index
                    ==> final(self).processes@[j] == old(self).processes@[j],
            index >= old(self).processes@.len() ==> *final(self) == *old(self) && r is Ok,
            index < old(self).processes@.len() ==> final(self).processes@[index as int].spec_config()
                == old(self).processes@[index as int].spec_config(),
            index < old(self).processes@.len() && r is Ok ==> (final(self).processes@[index as int].spec_status() matches ProcessStatus::Running { pid }
                && pid > 0),
            index < old(self).processes@.len() && r is Err ==> !(final(self).processes@[index as int].spec_status() is Running),
            index < old(self).processes@.len() && r is Err && !(old(self).processes@[index as int].spec_status() is Running) ==> final(self).processes@[index as int].spec_status() == old(self).processes@[index as int].spec_status(),
    {
        if index < self.processes.len() {
            let mut h = self.processes.remove(index);
            let r = h.spawn();
            self.processes.insert(index, h);
            proof {
                assert(final(self).processes@ =~= old(self).processes@.update(index as int, h));
            }
            r
        } else {
            Ok(())
        }
    }

    /// Gracefully stop the handle at `index`; out-of-range indices are a
    /// no-op.
    pub fn stop(&mut self, index: usize) -> (r: Result<(), ProcError>)
        requires
            old(self).wf(),
        ensures
            final(self).wf(),
            final(self).processes@.len() == old(self).processes@.len(),
            forall|j: int|
                0 <= j < old(self).processes@.len() && j != index
                    ==> final(self).processes@[j] == old(self).processes@[j],
            index >= old(self).processes@.len() ==> *final(self) == *old(self),
            r is Ok,
            index < old(self).processes@.len() ==> final(self).processes@[index as int].spec_config()
                == old(self).processes@[index as int].spec_config(),
            index < old(self).processes@.len() && old(self).processes@[index as int].spec_status()
                is Running ==> (final(self).processes@[index as int].spec_status() is Stopped
                || final(self).processes@[index as int].spec_status() is Crashed),
            index < old(self).processes@.len() && !(old(self).processes@[index as int].spec_status() is Running) ==> final(self).processes@[index as int] == old(self).processes@[index as int],
    {
        if index < self.processes.len() {
            let mut h = self.processes.remove(index);
            h.stop(true);
            self.processes.insert(index, h);
            proof {
                assert(final(self).processes@ =~= old(self).processes@.update(index as int, h));
            }
        }
        Ok(())
    }

    /// Forcefully kill the handle at `index`; out-of-range indices are a
    /// no-op.
    pub fn force_kill(&mut self, index: usize) -> (r: Result<(), ProcError>)
        requires
            old(self).wf(),
        ensures
            final(self).wf(),
            final(self).processes@.len() == old(self).processes@.len(),
            forall|j: int|
                0 <= j < old(self).processes@.len() && j != index
                    ==> final(self).processes@[j] == old(self).processes@[j],
            index >= old(self).processes@.len() ==> *final(self) == *old(self),
            r is Ok,
            index < old(self).processes@.len() ==> final(self).processes@[index as int].spec_config()
                == old(self).processes@[index as int].spec_config(),
            index < old(self).processes@.len() && old(self).processes@[index as int].spec_status()
                is Running ==> (final(self).processes@[index as int].spec_status() is Stopped
                || final(self).processes@[index as int].spec_status() is Crashed),
            index < old(self).processes@.len() && !(old(self).processes@[index as int].spec_status() is Running) ==> final(self).processes@[index as int] == old(self).processes@[index as int],
    {
        if index < self.processes.len() {
            let mut h = self.processes.remove(index);
            h.stop(false);
            self.processes.insert(index, h);
            proof {
                assert(final(self).processes@ =~= old(self).processes@.update(index as int, h));
            }
        }
        Ok(())
    }

    /// Restart the handle at `index`; out-of-range indices are a no-op.
    pub fn restart(&mut self, index: usize) -> (r: Result<(), ProcError>)
        requires
            old(self).wf(),
        ensures
            final(self).wf(),
            final(self).processes@.len() == old(self).processes@.len(),
            forall|j: int|
                0 <= j < old(self).processes@.len() && j != index
                    ==> final(self).processes@[j] == old(self).processes@[j],
            index >= old(self).processes@.len() ==> *final(self) == *old(self) && r is Ok,
            index < old(self).processes@.len() ==> final(self).processes@[index as int].spec_config()
                == old(self).processes@[index as int].spec_config(),
            index < old(self).processes@.len() && r is Ok ==> (final(self).processes@[index as int].spec_status() matches ProcessStatus::Running { pid }
                && pid > 0),
            index < old(self).processes@.len() && r is Err ==> !(final(self).processes@[index as int].spec_status() is Running),
    {
        if index < self.processes.len() {
            let mut h = self.processes.remove(index);
            let r = h.restart();
            self.processes.insert(index, h);
            proof {
                assert(final(self).processes@ =~= old(self).processes@.update(index as int, h));
            }
            r
        } else {
            Ok(())
        }
    }

    /// Drain pending output from every handle. Returns true iff any handle
    /// consumed output, which drives redraw scheduling.
    pub fn drain_output(&mut self) -> (any: bool)
        requires
            old(self).wf(),
        ensures
            final(self).wf(),
            final(self).processes@.len() == old(self).processes@.len(),
            forall|i: int|
                0 <= i < old(self).processes@.len() ==> (#[trigger] final(self).processes@[i]).spec_config() == old(self).processes@[i].spec_config(),
            forall|i: int|
                0 <= i < old(self).processes@.len() && !(old(self).processes@[i].spec_status()
                    is Running) ==> final(self).processes@[i] == old(self).processes@[i],
            forall|i: int|
                0 <= i < old(self).processes@.len() && old(self).processes@[i].spec_status()
                    is Running ==> ((#[trigger] final(self).processes@[i]).spec_status() == old(self).processes@[i].spec_status() || final(self).processes@[i].spec_status() == (
                ProcessStatus::Stopped { exit_code: 0 }) || final(self).processes@[i].spec_status()
                    is Crashed),
            (forall|i: int|
                0 <= i < old(self).processes@.len() ==> !((#[trigger] old(self).processes@[i]).spec_status() is Running)) ==> !any,
    {
        let mut any = false;
        let n = self.processes.len();
        let mut i: usize = 0;
        while i < n
            invariant
                self.wf(),
                n == self.processes@.len(),
                n == old(self).processes@.len(),
                i <= n,
                forall|j: int|
                    0 <= j < n ==> (#[trigger] self.processes@[j]).spec_config() == old(self).processes@[j].spec_config(),
                forall|j: int|
                    i <= j < n ==> self.processes@[j] == old(self).processes@[j],
                forall|j: int|
                    0 <= j < i && !(old(self).processes@[j].spec_status() is Running)
                        ==> self.processes@[j] == old(self).processes@[j],
                forall|j: int|
                    0 <= j < i && old(self).processes@[j].spec_status() is Running ==> ((
                    #[trigger] self.processes@[j]).spec_status() == old(self).processes@[j].spec_status() || self.processes@[j].spec_status() == (
                    ProcessStatus::Stopped { exit_code: 0 }) || self.processes@[j].spec_status()
                        is Crashed),
                (forall|j: int|
                    0 <= j < n ==> !((#[trigger] old(self).processes@[j]).spec_status()
                        is Running)) ==> !any,
            decreases n - i,
        {
            let ghost prev = self.processes@;
            let mut h = self.processes.remove(i);
            if h.drain_output() {
                any = true;
            }
            self.processes.insert(i, h);
            proof {
                assert(self.processes@ =~= prev.update(i as int, h));
            }
            i = i + 1;
        }
        any
    }

    /// Respawn every handle whose config asks for autorestart and which
    /// was started before but is no longer running. A handle that was
    /// never started is never auto-started.
    pub fn check_autorestart(&mut self)
        requires
            old(self).wf(),
        ensures
            final(self).wf(),
            final(self).processes@.len() == old(self).processes@.len(),
            forall|i: int|
                0 <= i < old(self).processes@.len() ==> (#[trigger] final(self).processes@[i]).spec_config() == old(self).processes@[i].spec_config(),
            forall|i: int|
                0 <= i < old(self).processes@.len() && old(self).processes@[i].spec_status()
                    is NotStarted ==> final(self).processes@[i] == old(self).processes@[i],
            forall|i: int|
                0 <= i < old(self).processes@.len() && !(old(self).processes@[i].spec_config().autorestart && !(old(self).processes@[i].spec_status() is Running) && !(old(self).processes@[i].spec_status() is NotStarted)) ==> final(self).processes@[i] == old(self).processes@[i],
            forall|i: int|
                0 <= i < old(self).processes@.len() && old(self).processes@[i].spec_config().autorestart && !(old(self).processes@[i].spec_status() is Running) && !(old(self).processes@[i].spec_status() is NotStarted) ==> (((#[trigger] final(self).processes@[i]).spec_status() matches ProcessStatus::Running { pid }
                    && pid > 0) || final(self).processes@[i].spec_status() == old(self).processes@[i].spec_status()),
    {
        let n = self.processes.len();
        let mut i: usize = 0;
        while i < n
            invariant
                self.wf(),
                n == self.processes@.len(),
                n == old(self).processes@.len(),
                i <= n,
                forall|j: int|
                    0 <= j < n ==> (#[trigger] self.processes@[j]).spec_config() == old(self).processes@[j].spec_config(),
                forall|j: int|
                    i <= j < n ==> self.processes@[j] == old(self).processes@[j],
                forall|j: int|
                    0 <= j < i && old(self).processes@[j].spec_status() is NotStarted
                        ==> self.processes@[j] == old(self).processes@[j],
                forall|j: int|
                    0 <= j < i && !(old(self).processes@[j].spec_config().autorestart && !(old(self).processes@[j].spec_status() is Running) && !(old(self).processes@[j].spec_status() is NotStarted)) ==> self.processes@[j] == old(self).processes@[j],
                forall|j: int|
                    0 <= j < i && old(self).processes@[j].spec_config().autorestart && !(old(self).processes@[j].spec_status() is Running) && !(old(self).processes@[j].spec_status() is NotStarted) ==> (((#[trigger] self.processes@[j]).spec_status() matches ProcessStatus::Running { pid }
                        && pid > 0) || self.processes@[j].spec_status() == old(self).processes@[j].spec_status()),
            decreases n - i,
        {
            let eligible = self.processes[i].autorestart() && !self.processes[i].is_running()
                && !self.processes[i].is_not_started();
            if eligible {
                let ghost prev = self.processes@;
                let mut h = self.processes.remove(i);
                let _ = h.spawn();
                self.processes.insert(i, h);
                proof {
                    assert(self.processes@ =~= prev.update(i as int, h));
                }
            }
            i = i + 1;
        }
    }

    /// Gracefully stop every running handle. Called once when the
    /// supervisor itself shuts down, so no children survive it.
    pub fn stop_all(&mut self)
        requires
            old(self).wf(),
        ensures
            final(self).wf(),
            final(self).processes@.len() == old(self).processes@.len(),
            forall|i: int|
                0 <= i < old(self).processes@.len() ==> (#[trigger] final(self).processes@[i]).spec_config() == old(self).processes@[i].spec_config(),
            forall|i: int|
                0 <= i < old(self).processes@.len() && !(old(self).processes@[i].spec_status()
                    is Running) ==> final(self).processes@[i] == old(self).processes@[i],
            forall|i: int|
                0 <= i < old(self).processes@.len() ==> !((#[trigger] final(self).processes@[i]).spec_status() is Running),
            forall|i: int|
                0 <= i < old(self).processes@.len() && old(self).processes@[i].spec_status()
                    is Running ==> ((#[trigger] final(self).processes@[i]).spec_status() is Stopped
                    || final(self).processes@[i].spec_status() is Crashed),
    {
        let n = self.processes.len();
        let mut i: usize = 0;
        while i < n
            invariant
                self.wf(),
                n == self.processes@.len(),
                n == old(self).processes@.len(),
                i <= n,
                forall|j: int|
                    0 <= j < n ==> (#[trigger] self.processes@[j]).spec_config() == old(self).processes@[j].spec_config(),
                forall|j: int|
                    i <= j < n ==> self.processes@[j] == old(self).processes@[j],
                forall|j: int|
                    0 <= j < i && !(old(self).processes@[j].spec_status() is Running)
                        ==> self.processes@[j] == old(self).processes@[j],
                forall|j: int|
                    0 <= j < i ==> !((#[trigger] self.processes@[j]).spec_status() is Running),
                forall|j: int|
                    0 <= j < i && old(self).processes@[j].spec_status() is Running ==> ((
                    #[trigger] self.processes@[j]).spec_status() is Stopped
                        || self.processes@[j].spec_status() is Crashed),
            decreases n - i,
        {
            if self.processes[i].is_running() {
                let ghost prev = self.processes@;
                let mut h = self.processes.remove(i);
                h.stop(true);
                self.processes.insert(i, h);
                proof {
                    assert(self.processes@ =~= prev.update(i as int, h));
                }
            }
            i = i + 1;
        }
    }

    pub fn all_stopped(&self) -> (r: bool)
        ensures
            r == (forall|i: int|
                0 <= i < self.processes@.len() ==> !((#[trigger] self.processes@[i]).spec_status()
                    is Running)),
    {
        let n = self.processes.len();
        let mut i: usize = 0;
        while i < n
            invariant
                n == self.processes@.len(),
                i <= n,
                forall|j: int|
                    0 <= j < i ==> !((#[trigger] self.processes@[j]).spec_status() is Running),
            decreases n - i,
        {
            if self.processes[i].is_running() {
                return false;
            }
            i = i + 1;
        }
        true
    }

    /// Grow every handle's terminal buffer to cover the new pane size and
    /// resize every live PTY to exactly that size.
    pub fn resize_all(&mut self, rows: u16, cols: u16)
        requires
            old(self).wf(),
        ensures
            final(self).wf(),
            final(self).processes@.len() == old(self).processes@.len(),
            forall|i: int|
                0 <= i < old(self).processes@.len() ==> (#[trigger] final(self).processes@[i]).spec_config() == old(self).processes@[i].spec_config(),
            forall|i: int|
                0 <= i < old(self).processes@.len() ==> (#[trigger] final(self).processes@[i]).spec_status() == old(self).processes@[i].spec_status(),
            forall|i: int|
                0 <= i < old(self).processes@.len() ==> (#[trigger] final(self).processes@[i]).spec_screen().spec_rows() >= old(self).processes@[i].spec_screen().spec_rows() && final(self).processes@[i].spec_screen().spec_cols() >= old(self).processes@[i].spec_screen().spec_cols(),
            forall|i: int|
                0 <= i < old(self).processes@.len() ==> (#[trigger] final(self).processes@[i]).spec_screen().spec_rows() == (if rows >= old(self).processes@[i].spec_screen().spec_rows() {
                    rows
                } else {
                    old(self).processes@[i].spec_screen().spec_rows()
                }) && final(self).processes@[i].spec_screen().spec_cols() == (if cols >= old(self).processes@[i].spec_screen().spec_cols() {
                    cols
                } else {
                    old(self).processes@[i].spec_screen().spec_cols()
                }) && final(self).processes@[i].spec_screen().spec_offset() == old(self).processes@[i].spec_screen().spec_offset(),
    {
        let n = self.processes.len();
        let mut i: usize = 0;
        while i < n
            invariant
                self.wf(),
                n == self.processes@.len(),
                n == old(self).processes@.len(),
                i <= n,
                forall|j: int|
                    0 <= j < n ==> (#[trigger] self.processes@[j]).spec_config() == old(self).processes@[j].spec_config(),
                forall|j: int|
                    i <= j < n ==> self.processes@[j] == old(self).processes@[j],
                forall|j: int|
                    0 <= j < n ==> (#[trigger] self.processes@[j]).spec_status() == old(self).processes@[j].spec_status(),
                forall|j: int|
                    0 <= j < i ==> (#[trigger] self.processes@[j]).spec_screen().spec_rows()
                        >= old(self).processes@[j].spec_screen().spec_rows()
                        && self.processes@[j].spec_screen().spec_cols() >= old(self).processes@[j].spec_screen().spec_cols(),
                forall|j: int|
                    0 <= j < i ==> (#[trigger] self.processes@[j]).spec_screen().spec_rows() == (
                    if rows >= old(self).processes@[j].spec_screen().spec_rows() {
                        rows
                    } else {
                        old(self).processes@[j].spec_screen().spec_rows()
                    }) && self.processes@[j].spec_screen().spec_cols() == (if cols >= old(self).processes@[j].spec_screen().spec_cols() {
                        cols
                    } else {
                        old(self).processes@[j].spec_screen().spec_cols()
                    }) && self.processes@[j].spec_screen().spec_offset() == old(self).processes@[j].spec_screen().spec_offset(),
            decreases n - i,
        {
            let ghost prev = self.processes@;
            let mut h = self.processes.remove(i);
            h.resize_pty(rows, cols);
            self.processes.insert(i, h);
            proof {
                assert(self.processes@ =~= prev.update(i as int, h));
            }
            i = i + 1;
        }
    }

    /// Reorder the handles by status priority — running first, then
    /// crashed, stopped, never-started — stable on ties. Returns the new
    /// index of the first handle carrying the name that stood at
    /// `selected` before the sort, or 0 when there is no such handle
    /// (an empty collection, an out-of-range selection, or a vanished
    /// name).
    pub fn sort_by_status(&mut self, selected: usize) -> (new_index: usize)
        requires
            old(self).wf(),
        ensures
            final(self).wf(),
            final(self).processes@ == status_buckets(old(self).processes@),
            new_index <= final(self).processes@.len(),
            selected < old(self).processes@.len() ==> ({
                let name = old(self).processes@[selected as int].spec_config().name;
                if exists|j: int|
                    0 <= j < final(self).processes@.len() && (#[trigger] final(self).processes@[j]).spec_config().name@ == name@ {
                    &&& new_index < final(self).processes@.len()
                    &&& final(self).processes@[new_index as int].spec_config().name@ == name@
                    &&& forall|k: int|
                        0 <= k < new_index ==> (#[trigger] final(self).processes@[k]).spec_config().name@ != name@
                } else {
                    new_index == 0
                }
            }),
            selected >= old(self).processes@.len() ==> new_index == 0,
    {
        let n = self.processes.len();
        if n == 0 {
            proof {
                assert(status_buckets(old(self).processes@) =~= old(self).processes@);
            }
            return 0;
        }
        let selected_name: Option<String> = if selected < n {
            Some(self.processes[selected].name_clone())
        } else {
            None
        };

        let ghost orig = self.processes@;

        let mut b0: Vec<ProcessHandle> = Vec::new();
        let mut b1: Vec<ProcessHandle> = Vec::new();
        let mut b2: Vec<ProcessHandle> = Vec::new();
        let mut b3: Vec<ProcessHandle> = Vec::new();

        while self.processes.len() > 0
            invariant
                orig.len() == n,
                self.processes@.len() <= n,
                self.processes@ == orig.subrange(
                    n - self.processes@.len(),
                    n as int,
                ),
                b0@ == orig.subrange(0, n - self.processes@.len()).filter(has_order(0)),
                b1@ == orig.subrange(0, n - self.processes@.len()).filter(has_order(1)),
                b2@ == orig.subrange(0, n - self.processes@.len()).filter(has_order(2)),
                b3@ == orig.subrange(0, n - self.processes@.len()).filter(has_order(3)),
                forall|i: int| 0 <= i < orig.len() ==> (#[trigger] orig[i]).wf(),
                forall|i: int| 0 <= i < b0@.len() ==> (#[trigger] b0@[i]).wf(),
                forall|i: int| 0 <= i < b1@.len() ==> (#[trigger] b1@[i]).wf(),
                forall|i: int| 0 <= i < b2@.len() ==> (#[trigger] b2@[i]).wf(),
                forall|i: int| 0 <= i < b3@.len() ==> (#[trigger] b3@[i]).wf(),
            decreases self.processes@.len(),
        {
            let ghost done = n - self.processes@.len();
            let ghost pre = orig.subrange(0, done);
            let h = self.processes.remove(0);
            proof {
                assert(h == orig[done]);
                assert(orig.subrange(0, done + 1) =~= pre + seq![h]);
                Seq::filter_distributes_over_add(pre, seq![h], has_order(0));
                Seq::filter_distributes_over_add(pre, seq![h], has_order(1));
                Seq::filter_distributes_over_add(pre, seq![h], has_order(2));
                Seq::filter_distributes_over_add(pre, seq![h], has_order(3));
                lemma_filter_singleton(h, has_order(0));
                lemma_filter_singleton(h, has_order(1));
                lemma_filter_singleton(h, has_order(2));
                lemma_filter_singleton(h, has_order(3));
                assert(self.processes@ =~= orig.subrange(done + 1, n as int));
            }
            let k = h.sort_key();
            if k == 0 {
                b0.push(h);
            } else if k == 1 {
                b1.push(h);
            } else if k == 2 {
                b2.push(h);
            } else {
                b3.push(h);
            }
            proof {
                assert(b0@ =~= orig.subrange(0, done + 1).filter(has_order(0)));
                assert(b1@ =~= orig.subrange(0, done + 1).filter(has_order(1)));
                assert(b2@ =~= orig.subrange(0, done + 1).filter(has_order(2)));
                assert(b3@ =~= orig.subrange(0, done + 1).filter(has_order(3)));
            }
        }

        proof {
            assert(orig.subrange(0, n as int) =~= orig);
        }

        self.processes = b0;
        self.processes.append(&mut b1);
        self.processes.append(&mut b2);
        self.processes.append(&mut b3);
        proof {
            assert(self.processes@ == status_buckets(orig));
        }

        match selected_name {
            None => 0,
            Some(name) => {
                let m = self.processes.len();
                let mut j: usize = 0;
                while j < m
                    invariant
                        m == self.processes@.len(),
                        j <= m,
                        orig == old(self).processes@,
                        selected < orig.len(),
                        name == old(self).processes@[selected as int].spec_config().name,
                        self.processes@ == status_buckets(orig),
                        self.wf(),
                        forall|k: int|
                            0 <= k < j ==> (#[trigger] self.processes@[k]).spec_config().name@
                                != name@,
                    decreases m - j,
                {
                    if self.processes[j].name_matches(&name) {
                        return j;
                    }
                    j = j + 1;
                }
                0
            }
        }
    }
}

/// Every element of a one-element sequence is kept or dropped by `filter`
/// according to the predicate alone.
proof fn lemma_filter_singleton<A>(x: A, p: spec_fn(A) -> bool)
    ensures
        seq![x].filter(p) == if p(x) {
            seq![x]
        } else {
            Seq::<A>::empty()
        },
{
    reveal_with_fuel(Seq::filter, 2);
    assert(seq![x].drop_last() =~= Seq::<A>::empty());
    if p(x) {
        assert(Seq::<A>::empty().push(x) =~= seq![x]);
    }
}

/// A filter whose predicate holds of every element keeps the sequence.
proof fn lemma_filter_all_true<A>(s: Seq<A>, p: spec_fn(A) -> bool)
    requires
        forall|i: int| 0 <= i < s.len() ==> p(#[trigger] s[i]),
    ensures
        s.filter(p) == s,
    decreases s.len(),
{
    reveal(Seq::filter);
    if s.len() > 0 {
        assert(forall|i: int| 0 <= i < s.drop_last().len() ==> p(#[trigger] s.drop_last()[i]));
        lemma_filter_all_true(s.drop_last(), p);
        assert(s.drop_last().push(s.last()) =~= s);
    }
}

/// A filter whose predicate holds of no element drops them all.
proof fn lemma_filter_all_false<A>(s: Seq<A>, p: spec_fn(A) -> bool)
    requires
        forall|i: int| 0 <= i < s.len() ==> !p(#[trigger] s[i]),
    ensures
        s.filter(p) == Seq::<A>::empty(),
    decreases s.len(),
{
    reveal(Seq::filter);
    if s.len() > 0 {
        assert(forall|i: int|
            0 <= i < s.drop_last().len() ==> !p(#[trigger] s.drop_last()[i]));
        lemma_filter_all_false(s.drop_last(), p);
    }
}

/// Law: sorting by status is idempotent. Re-sorting an already sorted
/// sequence of handles leaves the order unchanged.
pub proof fn lemma_sort_by_status_idempotent(s: Seq<ProcessHandle>)
    ensures
        status_buckets(status_buckets(s)) == status_buckets(s),
{
    broadcast use vstd::seq_lib::group_filter_ensures;

    let c0 = s.filter(has_order(0));
    let c1 = s.filter(has_order(1));
    let c2 = s.filter(has_order(2));
    let c3 = s.filter(has_order(3));
    let t = status_buckets(s);

    assert forall|j: int, k: int|
        0 <= j < 4 && 0 <= k < 4 implies (s.filter(has_order(j)).filter(has_order(k)) == if j
        == k {
        s.filter(has_order(j))
    } else {
        Seq::<ProcessHandle>::empty()
    }) by {
        let cj = s.filter(has_order(j));
        assert(forall|i: int|
            0 <= i < cj.len() ==> has_order(j)((#[trigger] cj[i])));
        if j == k {
            lemma_filter_all_true(cj, has_order(k));
        } else {
            assert(forall|i: int| 0 <= i < cj.len() ==> !has_order(k)(#[trigger] cj[i]));
            lemma_filter_all_false(cj, has_order(k));
        }
    }

    Seq::filter_distributes_over_add(c0 + c1 + c2, c3, has_order(0));
    Seq::filter_distributes_over_add(c0 + c1, c2, has_order(0));
    Seq::filter_distributes_over_add(c0, c1, has_order(0));
    Seq::filter_distributes_over_add(c0 + c1 + c2, c3, has_order(1));
    Seq::filter_distributes_over_add(c0 + c1, c2, has_order(1));
    Seq::filter_distributes_over_add(c0, c1, has_order(1));
    Seq::filter_distributes_over_add(c0 + c1 + c2, c3, has_order(2));
    Seq::filter_distributes_over_add(c0 + c1, c2, has_order(2));
    Seq::filter_distributes_over_add(c0, c1, has_order(2));
    Seq::filter_distributes_over_add(c0 + c1 + c2, c3, has_order(3));
    Seq::filter_distributes_over_add(c0 + c1, c2, has_order(3));
    Seq::filter_distributes_over_add(c0, c1, has_order(3));

    assert(t.filter(has_order(0)) =~= c0);
    assert(t.filter(has_order(1)) =~= c1);
    assert(t.filter(has_order(2)) =~= c2);
    assert(t.filter(has_order(3)) =~= c3);
    assert(status_buckets(t) == t);
}

} // verus!
