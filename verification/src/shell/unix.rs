//! Decisions of a shell session on a Unix pseudo-terminal.

use vstd::prelude::*;

use super::{io_error_text, last_os_error, trim, trim_seq, contains_char, PtyRead, PtySize};

verus! {

/// Why a Unix session failed.
#[derive(Debug)]
pub enum PtyError {
    /// A system call failed.
    Io { operation: &'static str, source: std::io::Error },
    InvalidDimensions,
    EmptyCommand,
    CommandContainsNul,
    ZeroLengthWrite,
}

impl PtyError {
    /// The failure of `operation`, with the error the system last reported.
    pub fn io(operation: &'static str) -> (r: Self)
        ensures
            r matches PtyError::Io { operation: op, .. } && op == operation,
    {
        Self::Io { operation, source: last_os_error() }
    }

    /// The failure of `operation` with the given error.
    pub fn from_io(operation: &'static str, source: std::io::Error) -> (r: Self)
        ensures
            r == (PtyError::Io { operation, source }),
    {
        Self::Io { operation, source }
    }

    /// The message that describes the failure.
    pub fn message(&self) -> (r: String)
        ensures
            match self {
                PtyError::Io { operation, .. } => r@.len() >= operation@.len() + 9 && r@.take(
                    (operation@.len() + 9) as int,
                ) == operation@ + " failed: "@,
                PtyError::InvalidDimensions => r@ == "invalid terminal dimensions"@,
                PtyError::EmptyCommand => r@ == "shell command is empty"@,
                PtyError::CommandContainsNul => r@ == "shell command contains a NUL byte"@,
                PtyError::ZeroLengthWrite => r@ == "write made no progress"@,
            },
    {
        match self {
            PtyError::Io { operation, source } => {
                let op: &str = *operation;
                let mut m: String = op.to_owned();
                m.append(" failed: ");
                let ghost head = m@;
                proof {
                    reveal_strlit(" failed: ");
                }
                m.append(io_error_text(source).as_str());
                assert(m@.take(head.len() as int) =~= head);
                m
            },
            PtyError::InvalidDimensions => "invalid terminal dimensions".to_owned(),
            PtyError::EmptyCommand => "shell command is empty".to_owned(),
            PtyError::CommandContainsNul => "shell command contains a NUL byte".to_owned(),
            PtyError::ZeroLengthWrite => "write made no progress".to_owned(),
        }
    }
}

impl From<std::io::Error> for PtyError {
    fn from(source: std::io::Error) -> (r: Self) {
        Self::Io { operation: "I/O operation", source }
    }
}

impl vstd::std_specs::convert::FromSpecImpl<std::io::Error> for PtyError {
    open spec fn obeys_from_spec() -> bool {
        true
    }

    open spec fn from_spec(source: std::io::Error) -> Self {
        PtyError::Io { operation: "I/O operation", source }
    }
}

/// The command line the shell runs: the command, trimmed, after `exec`.
pub open spec fn exec_line(command: Seq<char>) -> Seq<char> {
    "exec "@ + trim_seq(command)
}

/// Checks a request to start `command` at `size` and gives the command line
/// that `/bin/sh -lc` runs for it: an unusable size, a command that is blank,
/// and one that holds a NUL character are refused, in that order.
pub fn spawn_command(command: &str, size: PtySize) -> (r: Result<String, PtyError>)
    ensures
        !(size.rows > 0 && size.cols > 0) ==> r matches Err(PtyError::InvalidDimensions),
        size.rows > 0 && size.cols > 0 && trim_seq(command@).len() == 0 ==> r matches Err(
            PtyError::EmptyCommand,
        ),
        size.rows > 0 && size.cols > 0 && trim_seq(command@).len() > 0 && trim_seq(
            command@,
        ).contains('\0') ==> r matches Err(PtyError::CommandContainsNul),
        size.rows > 0 && size.cols > 0 && trim_seq(command@).len() > 0 && !trim_seq(
            command@,
        ).contains('\0') ==> (r matches Ok(line) && line@ == exec_line(command@)),
{
    if !size.is_valid() {
        return Err(PtyError::InvalidDimensions);
    }
    let command = trim(command);
    if command.unicode_len() == 0 {
        return Err(PtyError::EmptyCommand);
    }
    if contains_char(command, '\0') {
        return Err(PtyError::CommandContainsNul);
    }
    let mut line = "exec ".to_owned();
    line.append(command);
    proof {
        reveal_strlit("exec ");
    }
    Ok(line)
}

/// What the error number of a failed system call tells.
#[derive(Debug, Clone, Copy, PartialEq, Eq, Structural)]
pub enum Errno {
    /// A signal interrupted the call (`EINTR`).
    Interrupted,
    /// The call would have to wait (`EAGAIN`, `EWOULDBLOCK`).
    WouldBlock,
    /// An input/output error (`EIO`).
    InputOutput,
    /// There is no such child (`ECHILD`).
    NoChild,
    /// Any other error.
    Other,
}

/// What to do after a read from the PTY master.
#[derive(Debug, Clone, Copy, PartialEq, Eq, Structural)]
pub enum ReadStep {
    /// Return this result.
    Done(PtyRead),
    /// The shell has gone: reap the child, then return `Eof`.
    ReapThenEof,
    /// Read again.
    Retry,
    /// Nothing to read: return `Eof` if the child has exited, else `WouldBlock`.
    CheckExit,
    /// Return the read's error.
    Fail,
}

/// The step after a read that returned `bytes_read` (and, when that is
/// negative, failed with `errno`).
pub fn read_step(bytes_read: isize, errno: Errno) -> (r: ReadStep)
    ensures
        bytes_read > 0 ==> r == ReadStep::Done(PtyRead::Data(bytes_read as usize)),
        bytes_read == 0 ==> r == ReadStep::ReapThenEof,
        bytes_read < 0 ==> r == match errno {
            Errno::Interrupted => ReadStep::Retry,
            Errno::WouldBlock => ReadStep::CheckExit,
            Errno::InputOutput => ReadStep::ReapThenEof,
            _ => ReadStep::Fail,
        },
{
    if bytes_read > 0 {
        return ReadStep::Done(PtyRead::Data(bytes_read as usize));
    }
    if bytes_read == 0 {
        return ReadStep::ReapThenEof;
    }
    match errno {
        Errno::Interrupted => ReadStep::Retry,
        Errno::WouldBlock => ReadStep::CheckExit,
        Errno::InputOutput => ReadStep::ReapThenEof,
        _ => ReadStep::Fail,
    }
}

/// The read result when nothing could be read: the end when the child has
/// exited, else nothing for now.
pub fn idle_read(child_exited: bool) -> (r: PtyRead)
    ensures
        r == (if child_exited {
            PtyRead::Eof
        } else {
            PtyRead::WouldBlock
        }),
{
    if child_exited {
        PtyRead::Eof
    } else {
        PtyRead::WouldBlock
    }
}

/// What to do after a write to the PTY master.
#[derive(Debug, Clone, Copy, PartialEq, Eq, Structural)]
pub enum WriteStep {
    /// This many more bytes were written.
    Advance(usize),
    /// Nothing was written: fail with `ZeroLengthWrite`.
    NoProgress,
    /// Write again at once.
    Retry,
    /// Wait a moment, then write again.
    Wait,
    /// Return the write's error.
    Fail,
}

/// The step after a write that returned `bytes_written` (and, when that is
/// negative, failed with `errno`).
pub fn write_step(bytes_written: isize, errno: Errno) -> (r: WriteStep)
    ensures
        bytes_written > 0 ==> r == WriteStep::Advance(bytes_written as usize),
        bytes_written == 0 ==> r == WriteStep::NoProgress,
        bytes_written < 0 ==> r == match errno {
            Errno::Interrupted => WriteStep::Retry,
            Errno::WouldBlock => WriteStep::Wait,
            _ => WriteStep::Fail,
        },
{
    if bytes_written > 0 {
        return WriteStep::Advance(bytes_written as usize);
    }
    if bytes_written == 0 {
        return WriteStep::NoProgress;
    }
    match errno {
        Errno::Interrupted => WriteStep::Retry,
        Errno::WouldBlock => WriteStep::Wait,
        _ => WriteStep::Fail,
    }
}

/// What a non-blocking wait for the child tells.
#[derive(Debug, Clone, Copy, PartialEq, Eq, Structural)]
pub enum ReapStep {
    /// The child has exited and is reaped.
    Exited,
    /// The child is still running.
    Running,
    /// Wait again.
    Retry,
    /// Return the wait's error.
    Fail,
}

/// The step after waiting for the child `child_pid` returned `result` (and,
/// when that is neither the child nor zero, failed with `errno`).
pub fn reap_step(result: i32, child_pid: i32, errno: Errno) -> (r: ReapStep)
    ensures
        result == child_pid ==> r == ReapStep::Exited,
        result != child_pid && result == 0 ==> r == ReapStep::Running,
        result != child_pid && result != 0 ==> r == match errno {
            Errno::Interrupted => ReapStep::Retry,
            Errno::NoChild => ReapStep::Exited,
            _ => ReapStep::Fail,
        },
{
    if result == child_pid {
        return ReapStep::Exited;
    }
    if result == 0 {
        return ReapStep::Running;
    }
    match errno {
        Errno::Interrupted => ReapStep::Retry,
        Errno::NoChild => ReapStep::Exited,
        _ => ReapStep::Fail,
    }
}

/// The signals a graceful shutdown sends, mildest first.
#[derive(Debug, Clone, Copy, PartialEq, Eq, Structural)]
pub enum ShutdownSignal {
    Hangup,
    Terminate,
    Kill,
}

/// The signal to send after `sent`, when the child has or has not exited in
/// the wait that followed: none once it has exited, and none after `Kill`.
pub fn next_shutdown_signal(sent: ShutdownSignal, exited: bool) -> (r: Option<ShutdownSignal>)
    ensures
        exited ==> r is None,
        !exited ==> r == match sent {
            ShutdownSignal::Hangup => Some(ShutdownSignal::Terminate),
            ShutdownSignal::Terminate => Some(ShutdownSignal::Kill),
            ShutdownSignal::Kill => None::<ShutdownSignal>,
        },
{
    if exited {
        return None;
    }
    match sent {
        ShutdownSignal::Hangup => Some(ShutdownSignal::Terminate),
        ShutdownSignal::Terminate => Some(ShutdownSignal::Kill),
        ShutdownSignal::Kill => None,
    }
}

} // verus!
