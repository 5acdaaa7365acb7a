//! Trusted boundary to the portable-pty crate (and, for non-blocking reads,
//! one nix fcntl call): opening a pseudo-terminal, building and spawning a
//! child command on its slave end, and moving bytes through the master end.
//!
//! Every item here is believed, not proved; each one names the outside
//! function it relies on. The values handed out (master end, child handle,
//! reader, writer) are opaque to the verifier and are only carried between
//! these calls by the verified code.

use vstd::prelude::*;

verus! {

#[verifier::external_type_specification]
#[verifier::external_body]
pub struct ExCommandBuilder(portable_pty::CommandBuilder);

/// The master end of an open pseudo-terminal.
#[verifier::external_body]
pub struct PtyMaster {
    inner: Box<dyn portable_pty::MasterPty + Send>,
}

/// The slave end of an open pseudo-terminal; consumed when a command is
/// spawned onto it.
#[verifier::external_body]
pub struct PtySlave {
    inner: Box<dyn portable_pty::SlavePty + Send>,
}

/// A handle on a child process spawned onto a pseudo-terminal.
#[verifier::external_body]
pub struct ChildProc {
    inner: Box<dyn portable_pty::Child + Send + Sync>,
}

/// A readable handle on a pseudo-terminal's output stream.
#[verifier::external_body]
pub struct PtyReader {
    inner: Box<dyn std::io::Read + Send>,
}

/// A writable handle on a pseudo-terminal's input stream.
#[verifier::external_body]
pub struct PtyWriter {
    inner: Box<dyn std::io::Write + Send>,
}

/// One non-blocking read from a pseudo-terminal's output stream.
pub enum ReadEvent {
    /// A non-empty chunk of output bytes, in stream order.
    Data(Vec<u8>),
    /// Nothing available right now; the stream is still open.
    WouldBlock,
    /// End of stream: the child closed its side.
    Closed,
    /// The read failed for another reason.
    Failed,
}

/// Outcome of a non-blocking poll for the child's exit.
pub enum ExitPoll {
    StillRunning,
    Exited(u32),
    Failed,
}

/// Outcome of a blocking wait for the child's exit.
pub enum ExitWait {
    Exited(u32),
    Failed,
}

/// The program a builder will execute: the first word of its argument
/// vector.
pub uninterp spec fn cmd_program(c: portable_pty::CommandBuilder) -> Seq<char>;

/// The arguments recorded after the program, in order.
pub uninterp spec fn cmd_args(c: portable_pty::CommandBuilder) -> Seq<Seq<char>>;

/// The environment overrides recorded since the builder was made, in
/// call order; at spawn time a later entry for the same key wins.
pub uninterp spec fn cmd_envs(c: portable_pty::CommandBuilder) -> Seq<(Seq<char>, Seq<char>)>;

/// The working directory recorded for the child, when one was set.
pub uninterp spec fn cmd_dir(c: portable_pty::CommandBuilder) -> Option<Seq<char>>;

/// Relies on portable_pty::CommandBuilder::new: a fresh builder whose
/// argument vector holds exactly `program`, with no overrides recorded
/// and no working directory.
#[verifier::external_body]
pub(crate) fn command_new(program: &str) -> (c: portable_pty::CommandBuilder)
    ensures
        cmd_program(c) == program@,
        cmd_args(c) == Seq::<Seq<char>>::empty(),
        cmd_envs(c) == Seq::<(Seq<char>, Seq<char>)>::empty(),
        cmd_dir(c) is None,
{
    portable_pty::CommandBuilder::new(program)
}

/// Relies on portable_pty::CommandBuilder::arg: appends one argument to
/// the argument vector, touching nothing else.
#[verifier::external_body]
pub(crate) fn command_arg(c: &mut portable_pty::CommandBuilder, arg: &str)
    ensures
        cmd_program(*final(c)) == cmd_program(*old(c)),
        cmd_args(*final(c)) == cmd_args(*old(c)).push(arg@),
        cmd_envs(*final(c)) == cmd_envs(*old(c)),
        cmd_dir(*final(c)) == cmd_dir(*old(c)),
{
    c.arg(arg);
}

/// Relies on portable_pty::CommandBuilder::env: records one environment
/// override applied at spawn time, touching nothing else.
#[verifier::external_body]
pub(crate) fn command_env(c: &mut portable_pty::CommandBuilder, key: &str, value: &str)
    ensures
        cmd_program(*final(c)) == cmd_program(*old(c)),
        cmd_args(*final(c)) == cmd_args(*old(c)),
        cmd_envs(*final(c)) == cmd_envs(*old(c)).push((key@, value@)),
        cmd_dir(*final(c)) == cmd_dir(*old(c)),
{
    c.env(key, value);
}

/// Relies on portable_pty::CommandBuilder::cwd: records the working
/// directory applied at spawn time, touching nothing else.
#[verifier::external_body]
pub(crate) fn command_cwd(c: &mut portable_pty::CommandBuilder, dir: &str)
    ensures
        cmd_program(*final(c)) == cmd_program(*old(c)),
        cmd_args(*final(c)) == cmd_args(*old(c)),
        cmd_envs(*final(c)) == cmd_envs(*old(c)),
        cmd_dir(*final(c)) == Some(dir@),
{
    c.cwd(dir);
}

/// Relies on portable_pty::native_pty_system and PtySystem::openpty: opens
/// a new pseudo-terminal pair sized to `rows` x `cols`. None when the OS
/// refuses a pty.
#[verifier::external_body]
pub(crate) fn open_pty(rows: u16, cols: u16) -> (r: Option<(PtyMaster, PtySlave)>) {
    let size = portable_pty::PtySize { rows, cols, pixel_width: 0, pixel_height: 0 };
    match portable_pty::native_pty_system().openpty(size) {
        Ok(pair) => Some((PtyMaster { inner: pair.master }, PtySlave { inner: pair.slave })),
        Err(_) => None,
    }
}

/// Relies on portable_pty::SlavePty::spawn_command: spawns the built
/// command as a child attached to the slave end. None when the spawn fails.
#[verifier::external_body]
pub(crate) fn spawn_command_on(
    slave: PtySlave,
    cmd: portable_pty::CommandBuilder,
) -> (r: Option<ChildProc>) {
    match slave.inner.spawn_command(cmd) {
        Ok(child) => Some(ChildProc { inner: child }),
        Err(_) => None,
    }
}

/// Relies on portable_pty::Child::process_id: on this platform the child
/// handle wraps std::process::Child and reports the OS pid of the spawned
/// child, which is positive.
#[verifier::external_body]
pub(crate) fn child_pid(child: &ChildProc) -> (pid: u32)
    ensures
        pid > 0,
{
    child.inner.process_id().unwrap_or(0)
}

/// Relies on portable_pty::MasterPty::try_clone_reader: a readable handle
/// on the child's output stream.
#[verifier::external_body]
pub(crate) fn clone_reader(master: &PtyMaster) -> (r: Option<PtyReader>) {
    match master.inner.try_clone_reader() {
        Ok(reader) => Some(PtyReader { inner: reader }),
        Err(_) => None,
    }
}

/// Relies on portable_pty::MasterPty::take_writer: a writable handle on the
/// child's input stream; the crate hands it out at most once per pty.
#[verifier::external_body]
pub(crate) fn take_writer(master: &PtyMaster) -> (r: Option<PtyWriter>) {
    match master.inner.take_writer() {
        Ok(writer) => Some(PtyWriter { inner: writer }),
        Err(_) => None,
    }
}

/// Relies on portable_pty::MasterPty::as_raw_fd: the OS file descriptor
/// under the master end, when the implementation exposes one.
#[verifier::external_body]
pub(crate) fn master_fd(master: &PtyMaster) -> (r: Option<i32>) {
    master.inner.as_raw_fd()
}

/// Relies on nix::fcntl::fcntl with F_SETFL(O_NONBLOCK): puts the open file
/// description behind `fd` into non-blocking mode, so reads return
/// immediately when no data is pending.
#[verifier::external_body]
pub(crate) fn set_fd_nonblocking(fd: i32) -> (ok: bool) {
    nix::fcntl::fcntl(
        fd,
        nix::fcntl::FcntlArg::F_SETFL(nix::fcntl::OFlag::O_NONBLOCK),
    )
    .is_ok()
}

/// Relies on std::io::Read::read: one read of at most 4096 bytes from the
/// output stream. A WouldBlock error is reported as `WouldBlock`, zero
/// bytes as `Closed`, any other error as `Failed`; a successful read of
/// `n > 0` bytes yields exactly those `n` bytes in stream order.
#[verifier::external_body]
pub(crate) fn read_chunk(reader: &mut PtyReader) -> (r: ReadEvent)
    ensures
        r matches ReadEvent::Data(d) ==> d@.len() > 0,
{
    let mut buf = [0u8; 4096];
    match reader.inner.read(&mut buf) {
        Ok(0) => ReadEvent::Closed,
        Ok(n) => ReadEvent::Data(buf[..n].to_vec()),
        Err(e) if e.kind() == std::io::ErrorKind::WouldBlock => ReadEvent::WouldBlock,
        Err(_) => ReadEvent::Failed,
    }
}

/// Relies on std::io::Write::write_all: sends all of `data` to the child's
/// input stream, or reports failure.
#[verifier::external_body]
pub(crate) fn write_all_to(writer: &mut PtyWriter, data: &[u8]) -> (ok: bool) {
    writer.inner.write_all(data).is_ok()
}

/// Relies on portable_pty::MasterPty::resize: tells the kernel the new
/// window size so the child is notified of the change.
#[verifier::external_body]
pub(crate) fn resize_pty_window(master: &PtyMaster, rows: u16, cols: u16) -> (ok: bool) {
    let size = portable_pty::PtySize { rows, cols, pixel_width: 0, pixel_height: 0 };
    master.inner.resize(size).is_ok()
}

/// Relies on portable_pty::Child::try_wait and ExitStatus::exit_code: polls
/// without blocking; reports the exit code once the child has exited.
#[verifier::external_body]
pub(crate) fn try_wait_child(child: &mut ChildProc) -> (r: ExitPoll) {
    match child.inner.try_wait() {
        Ok(None) => ExitPoll::StillRunning,
        Ok(Some(status)) => ExitPoll::Exited(status.exit_code()),
        Err(_) => ExitPoll::Failed,
    }
}

/// Relies on portable_pty::Child::wait and ExitStatus::exit_code: blocks
/// until the child has exited, then reports its exit code.
#[verifier::external_body]
pub(crate) fn wait_child(child: &mut ChildProc) -> (r: ExitWait) {
    match child.inner.wait() {
        Ok(status) => ExitWait::Exited(status.exit_code()),
        Err(_) => ExitWait::Failed,
    }
}

} // verus!
