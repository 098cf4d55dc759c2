//! The bridge between the terminal and a shell running on a pseudo-terminal:
//! sizes, read results, and the decisions of the platform sessions.

pub mod unix;
pub mod windows;


use vstd::prelude::*;

verus! {

#[verifier::external_type_specification]
#[verifier::external_body]
pub struct ExIoError(std::io::Error);

/// Calls `std::io::Error::last_os_error`: the error the operating system
/// last reported to this thread. It depends on the system's state, so
/// nothing is stated of it.
#[verifier::external_body]
pub(crate) fn last_os_error() -> std::io::Error {
    std::io::Error::last_os_error()
}

/// Calls `ToString::to_string` on an I/O error: its message, which the
/// standard library and the system word; nothing is stated of it.
#[verifier::external_body]
pub(crate) fn io_error_text(error: &std::io::Error) -> String {
    error.to_string()
}

/// A terminal size in character cells.
#[derive(Debug, Clone, Copy, PartialEq, Eq, Structural)]
pub struct PtySize {
    pub rows: u16,
    pub cols: u16,
}

impl PtySize {
    /// A size of `rows` rows and `cols` columns.
    pub fn new(rows: u16, cols: u16) -> (r: Self)
        ensures
            r.rows == rows,
            r.cols == cols,
    {
        Self { rows, cols }
    }

    /// A size is usable when it has at least one row and one column.
    pub fn is_valid(self) -> (r: bool)
        ensures
            r == (self.rows > 0 && self.cols > 0),
    {
        self.rows > 0 && self.cols > 0
    }
}

/// The result of reading from a session without waiting.
#[derive(Debug, Clone, Copy, PartialEq, Eq, Structural)]
pub enum PtyRead {
    /// This many bytes were read.
    Data(usize),
    /// Nothing to read now.
    WouldBlock,
    /// The shell has gone: nothing more will come.
    Eof,
}

/// Whether a character is white space: the characters with Unicode's
/// White_Space property, which `char::is_whitespace` tests for.
pub open spec fn is_white_space(c: char) -> bool {
    ||| '\t' <= c <= '\r'
    ||| c == ' '
    ||| c == '\u{85}'
    ||| c == '\u{a0}'
    ||| c == '\u{1680}'
    ||| '\u{2000}' <= c <= '\u{200a}'
    ||| c == '\u{2028}'
    ||| c == '\u{2029}'
    ||| c == '\u{202f}'
    ||| c == '\u{205f}'
    ||| c == '\u{3000}'
}

/// Whether a character is white space.
pub fn is_white_space_char(c: char) -> (r: bool)
    ensures
        r == is_white_space(c),
{
    ('\t' <= c && c <= '\r') || c == ' ' || c == '\u{85}' || c == '\u{a0}' || c == '\u{1680}'
        || ('\u{2000}' <= c && c <= '\u{200a}') || c == '\u{2028}' || c == '\u{2029}' || c
        == '\u{202f}' || c == '\u{205f}' || c == '\u{3000}'
}

/// `s` without its leading white space.
pub open spec fn trim_start_seq(s: Seq<char>) -> Seq<char>
    decreases s.len(),
{
    if s.len() > 0 && is_white_space(s[0]) {
        trim_start_seq(s.drop_first())
    } else {
        s
    }
}

/// `s` without its trailing white space.
pub open spec fn trim_end_seq(s: Seq<char>) -> Seq<char>
    decreases s.len(),
{
    if s.len() > 0 && is_white_space(s.last()) {
        trim_end_seq(s.drop_last())
    } else {
        s
    }
}

/// `s` without its leading and trailing white space.
pub open spec fn trim_seq(s: Seq<char>) -> Seq<char> {
    trim_end_seq(trim_start_seq(s))
}

proof fn lemma_trim_start_skip(s: Seq<char>, i: int)
    requires
        0 <= i <= s.len(),
        forall|j: int| 0 <= j < i ==> is_white_space(#[trigger] s[j]),
    ensures
        trim_start_seq(s) == trim_start_seq(s.skip(i)),
    decreases i,
{
    if i > 0 {
        assert(s.skip(1) =~= s.drop_first());
        lemma_trim_start_skip(s.drop_first(), i - 1);
        assert(s.drop_first().skip(i - 1) =~= s.skip(i));
    } else {
        assert(s.skip(0) =~= s);
    }
}

proof fn lemma_trim_end_take(s: Seq<char>, k: int)
    requires
        0 <= k <= s.len(),
        forall|j: int| k <= j < s.len() ==> is_white_space(#[trigger] s[j]),
    ensures
        trim_end_seq(s) == trim_end_seq(s.take(k)),
    decreases s.len() - k,
{
    if k < s.len() {
        assert(s.take(s.len() - 1) =~= s.drop_last());
        lemma_trim_end_take(s.drop_last(), k);
        assert(s.drop_last().take(k) =~= s.take(k));
    } else {
        assert(s.take(k) =~= s);
    }
}

/// Index of the first character of `s` that is not white space, or its
/// length when there is none.
fn leading_space_end(s: &str) -> (r: usize)
    ensures
        r <= s@.len(),
        trim_start_seq(s@) == s@.skip(r as int),
{
    let n = s.unicode_len();
    let mut i: usize = 0;
    while i < n && is_white_space_char(s.get_char(i))
        invariant
            n == s@.len(),
            i <= n,
            forall|j: int| 0 <= j < i ==> is_white_space(#[trigger] s@[j]),
        decreases n - i,
    {
        i = i + 1;
    }
    proof {
        lemma_trim_start_skip(s@, i as int);
        let rest = s@.skip(i as int);
        if rest.len() > 0 {
            assert(rest[0] == s@[i as int]);
        }
    }
    i
}

/// `s` without its leading white space.
pub fn trim_start(s: &str) -> (r: &str)
    ensures
        r@ == trim_start_seq(s@),
{
    let n = s.unicode_len();
    let i = leading_space_end(s);
    let r = s.substring_char(i, n);
    assert(r@ =~= s@.skip(i as int));
    r
}

/// `s` without its leading and trailing white space.
pub fn trim(s: &str) -> (r: &str)
    ensures
        r@ == trim_seq(s@),
{
    let t = trim_start(s);
    let mut k: usize = t.unicode_len();
    while k > 0 && is_white_space_char(t.get_char(k - 1))
        invariant
            k <= t@.len(),
            forall|j: int| k <= j < t@.len() ==> is_white_space(#[trigger] t@[j]),
        decreases k,
    {
        k = k - 1;
    }
    proof {
        lemma_trim_end_take(t@, k as int);
        let kept = t@.take(k as int);
        if kept.len() > 0 {
            assert(kept.last() == t@[k - 1]);
        }
    }
    let r = t.substring_char(0, k);
    assert(r@ =~= t@.take(k as int));
    r
}

/// Whether `s` holds the given character.
pub fn contains_char(s: &str, c: char) -> (r: bool)
    ensures
        r == s@.contains(c),
{
    let n = s.unicode_len();
    let mut i: usize = 0;
    while i < n
        invariant
            n == s@.len(),
            i <= n,
            forall|j: int| 0 <= j < i ==> s@[j] != c,
        decreases n - i,
    {
        if s.get_char(i) == c {
            assert(s@[i as int] == c);
            return true;
        }
        i = i + 1;
    }
    false
}

} // verus!
