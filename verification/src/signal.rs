//! Signal primitives: thin operations on OS process groups and single
//! processes. These are the only places the library touches OS signals;
//! everything above them treats a failed send as "already stopped".

use vstd::prelude::*;

verus! {

/// Relies on nix::sys::signal::killpg with SIGTERM: asks every process in
/// the group rooted at `pid` to terminate. Returns false when the group no
/// longer exists or the signal could not be sent. A zero pid is excluded:
/// it would address the caller's own process group.
#[verifier::external_body]
pub fn terminate_process_group(pid: u32) -> (ok: bool)
    requires
        pid > 0,
{
    nix::sys::signal::killpg(
        nix::unistd::Pid::from_raw(pid as i32),
        nix::sys::signal::Signal::SIGTERM,
    )
    .is_ok()
}

/// Relies on nix::sys::signal::killpg with SIGKILL: forcibly kills every
/// process in the group rooted at `pid`. Returns false when the group no
/// longer exists or the signal could not be sent. A zero pid is excluded:
/// it would address the caller's own process group.
#[verifier::external_body]
pub fn force_kill_process_group(pid: u32) -> (ok: bool)
    requires
        pid > 0,
{
    nix::sys::signal::killpg(
        nix::unistd::Pid::from_raw(pid as i32),
        nix::sys::signal::Signal::SIGKILL,
    )
    .is_ok()
}

/// Relies on nix::sys::signal::kill with no signal (signal 0): probes
/// whether the process still exists without affecting it.
#[verifier::external_body]
pub fn is_process_alive(pid: u32) -> (alive: bool) {
    nix::sys::signal::kill(nix::unistd::Pid::from_raw(pid as i32), None).is_ok()
}

/// Relies on nix::sys::signal::kill with SIGTERM: asks the single process
/// `pid` (not its group) to terminate. A zero pid is excluded: it would
/// address the caller's own process group.
#[verifier::external_body]
fn signal_process_term(pid: u32) -> (ok: bool)
    requires
        pid > 0,
{
    nix::sys::signal::kill(
        nix::unistd::Pid::from_raw(pid as i32),
        nix::sys::signal::Signal::SIGTERM,
    )
    .is_ok()
}

/// Relies on nix::sys::signal::kill with SIGKILL: forcibly kills the single
/// process `pid` (not its group). A zero pid is excluded: it would
/// address the caller's own process group.
#[verifier::external_body]
fn signal_process_kill(pid: u32) -> (ok: bool)
    requires
        pid > 0,
{
    nix::sys::signal::kill(
        nix::unistd::Pid::from_raw(pid as i32),
        nix::sys::signal::Signal::SIGKILL,
    )
    .is_ok()
}

/// Send a termination signal to one process: SIGKILL when `force` is set,
/// SIGTERM otherwise. Used by the port-killer view on processes the
/// supervisor does not own. A zero pid — which the OS would read as the
/// caller's own process group — is refused.
pub fn kill_process(pid: u32, force: bool) -> (ok: bool)
    ensures
        pid == 0 ==> !ok,
{
    if pid == 0 {
        return false;
    }
    if force {
        signal_process_kill(pid)
    } else {
        signal_process_term(pid)
    }
}

/// Relies on nix::poll::poll over an empty descriptor set: blocks the
/// calling thread until the timeout in milliseconds elapses.
#[verifier::external_body]
pub(crate) fn pause_millis(ms: u16) {
    let mut fds: [nix::poll::PollFd; 0] = [];
    let _ = nix::poll::poll(&mut fds, ms);
}

} // verus!
