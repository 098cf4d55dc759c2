//! Decisions of a shell session on a Windows pseudoconsole.

use vstd::prelude::*;

use crate::keystroke::{decimal, decimal_digits};
use super::{io_error_text, is_white_space, is_white_space_char, last_os_error, trim_start, trim_start_seq, PtyRead, PtySize};

verus! {

/// The wait result of an object that is signaled: the process has exited.
pub const WAIT_OBJECT_0: u32 = 0;

/// The wait result of a wait that timed out: the process still runs.
pub const WAIT_TIMEOUT: u32 = 258;

/// The wait result of a wait that failed.
pub const WAIT_FAILED: u32 = 4294967295;

/// Why a Windows session failed.
#[derive(Debug)]
pub enum PtyError {
    /// A system call failed.
    Io { operation: &'static str, source: std::io::Error },
    ConPtyNotAvailable,
    ProcessCreationFailed(u32),
    ProcessWaitFailed(u32),
    InvalidDimensions,
    ZeroLengthWrite,
}

impl PtyError {
    /// The failure of `operation`, with the error the system last reported.
    pub fn io(operation: &'static str) -> (r: Self)
        ensures
            r matches PtyError::Io { operation: op, .. } && op == operation,
    {
        Self::Io { operation, source: last_os_error() }
    }

    /// The failure of `operation` with the given error.
    pub fn from_io(operation: &'static str, source: std::io::Error) -> (r: Self)
        ensures
            r == (PtyError::Io { operation, source }),
    {
        Self::Io { operation, source }
    }

    /// The message that describes the failure; the codes of the process
    /// errors follow their wording.
    pub fn message(&self) -> (r: String)
        ensures
            match self {
                PtyError::Io { operation, .. } => r@.len() >= operation@.len() + 9 && r@.take(
                    (operation@.len() + 9) as int,
                ) == operation@ + " failed: "@,
                PtyError::ConPtyNotAvailable => r@
                    == "ConPTY not available (requires Windows 10 1809+)"@,
                PtyError::ProcessCreationFailed(code) => r@
                    == "create process failed with Windows error "@ + decimal_digits(*code as nat),
                PtyError::ProcessWaitFailed(code) => r@
                    == "wait for process failed with Windows status "@ + decimal_digits(*code as nat),
                PtyError::InvalidDimensions => r@ == "invalid terminal dimensions"@,
                PtyError::ZeroLengthWrite => r@ == "write made no progress"@,
            },
    {
        match self {
            PtyError::Io { operation, source } => {
                let op: &str = *operation;
                let mut m: String = op.to_owned();
                m.append(" failed: ");
                let ghost head = m@;
                proof {
                    reveal_strlit(" failed: ");
                }
                m.append(io_error_text(source).as_str());
                assert(m@.take(head.len() as int) =~= head);
                m
            },
            PtyError::ConPtyNotAvailable => "ConPTY not available (requires Windows 10 1809+)".to_owned(),
            PtyError::ProcessCreationFailed(code) => {
                let mut m: String = "create process failed with Windows error ".to_owned();
                m.append(decimal(*code as u128).as_str());
                m
            },
            PtyError::ProcessWaitFailed(code) => {
                let mut m: String = "wait for process failed with Windows status ".to_owned();
                m.append(decimal(*code as u128).as_str());
                m
            },
            PtyError::InvalidDimensions => "invalid terminal dimensions".to_owned(),
            PtyError::ZeroLengthWrite => "write made no progress".to_owned(),
        }
    }
}

impl From<std::io::Error> for PtyError {
    fn from(source: std::io::Error) -> (r: Self) {
        Self::Io { operation: "I/O operation", source }
    }
}

impl vstd::std_specs::convert::FromSpecImpl<std::io::Error> for PtyError {
    open spec fn obeys_from_spec() -> bool {
        true
    }

    open spec fn from_spec(source: std::io::Error) -> Self {
        PtyError::Io { operation: "I/O operation", source }
    }
}

/// Checks a request to start a shell at `size` on a system that does or does
/// not offer pseudoconsoles: an unusable size is refused first, then a
/// system without them.
pub fn spawn_precheck(size: PtySize, conpty_available: bool) -> (r: Result<(), PtyError>)
    ensures
        !(size.rows > 0 && size.cols > 0) ==> r matches Err(PtyError::InvalidDimensions),
        size.rows > 0 && size.cols > 0 && !conpty_available ==> r matches Err(
            PtyError::ConPtyNotAvailable,
        ),
        size.rows > 0 && size.cols > 0 && conpty_available ==> r is Ok,
{
    if !size.is_valid() {
        return Err(PtyError::InvalidDimensions);
    }
    if !conpty_available {
        return Err(PtyError::ConPtyNotAvailable);
    }
    Ok(())
}

/// Whether the process has exited, from the result of a wait that did not
/// wait: signaled means exited, a timeout means running; a failed wait is
/// the system's error, and any other result is refused with its code.
pub fn exited_from_wait(status: u32) -> (r: Result<bool, PtyError>)
    ensures
        status == WAIT_OBJECT_0 ==> r matches Ok(true),
        status == WAIT_TIMEOUT ==> r matches Ok(false),
        status == WAIT_FAILED ==> (r matches Err(PtyError::Io { operation, .. }) && operation@
            == "wait for process"@),
        status != WAIT_OBJECT_0 && status != WAIT_TIMEOUT && status != WAIT_FAILED ==> (r matches Err(
            PtyError::ProcessWaitFailed(code),
        ) && code == status),
{
    if status == WAIT_OBJECT_0 {
        Ok(true)
    } else if status == WAIT_TIMEOUT {
        Ok(false)
    } else if status == WAIT_FAILED {
        Err(PtyError::io("wait for process"))
    } else {
        Err(PtyError::ProcessWaitFailed(status))
    }
}

/// The most bytes one read or write call takes: what a 32-bit count holds,
/// or all of `len` when that is fewer.
pub open spec fn count_cap(len: usize) -> u32 {
    if len <= u32::MAX {
        len as u32
    } else {
        u32::MAX
    }
}

/// How many bytes to read: those available, but no more than the buffer
/// holds, a buffer beyond what a 32-bit count holds taken as that many.
pub fn bytes_to_read(available: u32, buf_len: usize) -> (r: u32)
    ensures
        r == (if available <= count_cap(buf_len) {
            available
        } else {
            count_cap(buf_len)
        }),
{
    let cap = write_chunk(buf_len);
    if available <= cap {
        available
    } else {
        cap
    }
}

/// What a read does once the pipe has been looked at.
#[derive(Debug, Clone, Copy, PartialEq, Eq, Structural)]
pub enum ReadPlan {
    /// Return this result without reading.
    Done(PtyRead),
    /// Nothing is waiting: the end if the process has exited, else nothing for now.
    CheckExit,
    /// Read this many bytes.
    Read(u32),
}

/// The plan of a read into a buffer of `buf_len` bytes, given the bytes the
/// pipe holds (`None` when the pipe has closed).
pub fn read_plan(available: Option<u32>, buf_len: usize) -> (r: ReadPlan)
    ensures
        buf_len == 0 ==> r == ReadPlan::Done(PtyRead::WouldBlock),
        buf_len > 0 && available is None ==> r == ReadPlan::Done(PtyRead::Eof),
        buf_len > 0 && available == Some(0u32) ==> r == ReadPlan::CheckExit,
        buf_len > 0 ==> match available {
            Some(n) => n > 0 ==> r == ReadPlan::Read(
                if n <= count_cap(buf_len) {
                    n
                } else {
                    count_cap(buf_len)
                },
            ),
            None => true,
        },
{
    if buf_len == 0 {
        return ReadPlan::Done(PtyRead::WouldBlock);
    }
    match available {
        None => ReadPlan::Done(PtyRead::Eof),
        Some(n) => if n == 0 {
            ReadPlan::CheckExit
        } else {
            ReadPlan::Read(bytes_to_read(n, buf_len))
        },
    }
}

/// The read result of a read that gave `bytes_read` bytes: none means the
/// pipe has ended.
pub fn read_result(bytes_read: u32) -> (r: PtyRead)
    ensures
        r == (if bytes_read == 0 {
            PtyRead::Eof
        } else {
            PtyRead::Data(bytes_read as usize)
        }),
{
    if bytes_read == 0 {
        PtyRead::Eof
    } else {
        PtyRead::Data(bytes_read as usize)
    }
}

/// How many of the `remaining` bytes one write hands over: all of them, up
/// to what a 32-bit count holds.
pub fn write_chunk(remaining: usize) -> (r: u32)
    ensures
        r == count_cap(remaining),
{
    if remaining <= 4294967295usize {
        remaining as u32
    } else {
        4294967295u32
    }
}

/// The pseudoconsole size of a terminal size: columns across, rows down,
/// each as a 16-bit signed count.
pub fn size_to_coord(size: PtySize) -> (r: (i16, i16))
    ensures
        r == (size.cols as i16, size.rows as i16),
{
    (size.cols as i16, size.rows as i16)
}

/// What a graceful close does after waiting for the process: whether to
/// terminate it, and the error to report.
pub fn close_wait_outcome(status: u32) -> (r: (bool, Option<PtyError>))
    ensures
        status == WAIT_OBJECT_0 ==> !r.0 && r.1 is None,
        status == WAIT_TIMEOUT ==> r.0 && r.1 is None,
        status == WAIT_FAILED ==> r.0 && (r.1 matches Some(PtyError::Io { operation, .. })
            && operation@ == "wait for process"@),
        status != WAIT_OBJECT_0 && status != WAIT_TIMEOUT && status != WAIT_FAILED ==> r.0
            && (r.1 matches Some(PtyError::ProcessWaitFailed(code)) && code == status),
{
    if status == WAIT_OBJECT_0 {
        (false, None)
    } else if status == WAIT_TIMEOUT {
        (true, None)
    } else if status == WAIT_FAILED {
        (true, Some(PtyError::io("wait for process")))
    } else {
        (true, Some(PtyError::ProcessWaitFailed(status)))
    }
}

/// The characters of `s` before its first double quote (all of them when
/// it has none).
pub open spec fn before_quote(s: Seq<char>) -> Seq<char>
    decreases s.len(),
{
    if s.len() == 0 || s[0] == '"' {
        Seq::empty()
    } else {
        seq![s[0]] + before_quote(s.drop_first())
    }
}

/// The characters of `s` before its first white space (all of them when it
/// has none).
pub open spec fn before_space(s: Seq<char>) -> Seq<char>
    decreases s.len(),
{
    if s.len() == 0 || is_white_space(s[0]) {
        Seq::empty()
    } else {
        seq![s[0]] + before_space(s.drop_first())
    }
}

/// The program a command line names, when it names one by a path: the first
/// word after leading white space, or the text of an opening double quote up
/// to the next, when that holds a back or forward slash.
pub open spec fn application_of(command: Seq<char>) -> Option<Seq<char>> {
    let t = trim_start_seq(command);
    if t.len() == 0 {
        None
    } else {
        let first = if t[0] == '"' {
            before_quote(t.drop_first())
        } else {
            before_space(t)
        };
        if first.contains('\\') || first.contains('/') {
            Some(first)
        } else {
            None
        }
    }
}

proof fn lemma_before_quote(s: Seq<char>, i: int)
    requires
        0 <= i <= s.len(),
        forall|j: int| 0 <= j < i ==> s[j] != '"',
        i == s.len() || s[i] == '"',
    ensures
        before_quote(s) == s.take(i),
    decreases i,
{
    if i > 0 {
        lemma_before_quote(s.drop_first(), i - 1);
        assert(s.take(i) =~= seq![s[0]] + s.drop_first().take(i - 1));
    } else {
        assert(s.take(0) =~= Seq::<char>::empty());
    }
}

proof fn lemma_before_space(s: Seq<char>, i: int)
    requires
        0 <= i <= s.len(),
        forall|j: int| 0 <= j < i ==> !is_white_space(#[trigger] s[j]),
        i == s.len() || is_white_space(s[i]),
    ensures
        before_space(s) == s.take(i),
    decreases i,
{
    if i > 0 {
        assert forall|j: int| 0 <= j < i - 1 implies !is_white_space(#[trigger] s.drop_first()[j]) by {
            assert(s.drop_first()[j] == s[j + 1]);
        }
        lemma_before_space(s.drop_first(), i - 1);
        assert(s.take(i) =~= seq![s[0]] + s.drop_first().take(i - 1));
    } else {
        assert(s.take(0) =~= Seq::<char>::empty());
    }
}

/// The characters of `s` from index `from` up to the first double quote
/// (`quote`) or the first white space (`!quote`), as a string.
fn take_from(s: &str, from: usize, quote: bool) -> (r: String)
    requires
        from <= s@.len(),
    ensures
        quote ==> r@ == before_quote(s@.skip(from as int)),
        !quote ==> r@ == before_space(s@.skip(from as int)),
{
    let n = s.unicode_len();
    let mut out = String::new();
    let mut i: usize = from;
    while i < n
        invariant
            n == s@.len(),
            from <= i <= n,
            out@ == s@.subrange(from as int, i as int),
            forall|j: int| from <= j < i ==> (if quote {
                s@[j] != '"'
            } else {
                !is_white_space(#[trigger] s@[j])
            }),
        ensures
            from <= i <= n,
            i == n || (if quote {
                s@[i as int] == '"'
            } else {
                is_white_space(s@[i as int])
            }),
        decreases n - i,
    {
        let c = s.get_char(i);
        let stop = if quote {
            c == '"'
        } else {
            is_white_space_char(c)
        };
        if stop {
            break;
        }
        out.push(c);
        i = i + 1;
        assert(out@ =~= s@.subrange(from as int, i as int));
    }
    proof {
        let rest = s@.skip(from as int);
        let k = i - from;
        assert(s@.subrange(from as int, i as int) =~= rest.take(k));
        if quote {
            assert forall|j: int| 0 <= j < k implies rest[j] != '"' by {
                assert(rest[j] == s@[from + j]);
            }
            if k < rest.len() {
                assert(rest[k] == s@[i as int]);
            }
            lemma_before_quote(rest, k);
        } else {
            assert forall|j: int| 0 <= j < k implies !is_white_space(#[trigger] rest[j]) by {
                assert(rest[j] == s@[from + j]);
            }
            if k < rest.len() {
                assert(rest[k] == s@[i as int]);
            }
            lemma_before_space(rest, k);
        }
    }
    out
}

/// The program a command line names by a path, for the process to start
/// from; `None` when its first word is no path.
pub fn application_name(command: &str) -> (r: Option<String>)
    ensures
        match (r, application_of(command@)) {
            (Some(x), Some(y)) => x@ == y,
            (None, None) => true,
            _ => false,
        },
{
    let trimmed = trim_start(command);
    if trimmed.unicode_len() == 0 {
        return None;
    }
    let first = if trimmed.get_char(0) == '"' {
        let f = take_from(trimmed, 1, true);
        assert(trimmed@.skip(1) =~= trimmed@.drop_first());
        f
    } else {
        let f = take_from(trimmed, 0, false);
        assert(trimmed@.skip(0) =~= trimmed@);
        f
    };
    let f: &str = first.as_str();
    if super::contains_char(f, '\\') || super::contains_char(f, '/') {
        Some(first)
    } else {
        None
    }
}

} // verus!
