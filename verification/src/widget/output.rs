//! Batching of shell output on its way to the terminal, and the report of
//! the shell's exit.

use vstd::prelude::*;

verus! {

/// Output is handed on once this many bytes have gathered.
pub const OUTPUT_BATCH_THRESHOLD: usize = 16384;

/// Shell output gathered until it is handed on in one batch.
pub struct OutputBatcher {
    buffer: Vec<u8>,
}

impl OutputBatcher {
    /// The bytes gathered and not yet handed on.
    pub closed spec fn pending(self) -> Seq<u8> {
        self.buffer@
    }

    /// A batcher holding nothing.
    pub fn new() -> (r: Self)
        ensures
            r.pending() == Seq::<u8>::empty(),
    {
        Self { buffer: Vec::new() }
    }

    /// How many bytes are gathered.
    pub fn len(&self) -> (r: usize)
        ensures
            r == self.pending().len(),
    {
        self.buffer.len()
    }

    /// Whether nothing is gathered.
    pub fn is_empty(&self) -> (r: bool)
        ensures
            r == (self.pending().len() == 0),
    {
        self.buffer.len() == 0
    }

    /// Gathers `data`; once the threshold is reached, hands on everything
    /// gathered, in order, and starts over.
    pub fn push(&mut self, data: &[u8]) -> (r: Option<Vec<u8>>)
        requires
            old(self).pending().len() + data@.len() <= usize::MAX,
        ensures
            ({
                let all = old(self).pending() + data@;
                match r {
                    Some(batch) => batch@ == all && all.len() >= OUTPUT_BATCH_THRESHOLD
                        && final(self).pending() == Seq::<u8>::empty(),
                    None => final(self).pending() == all && all.len() < OUTPUT_BATCH_THRESHOLD,
                }
            }),
    {
        self.buffer.extend_from_slice(data);
        assert(self.buffer@ =~= old(self).buffer@ + data@);
        if self.buffer.len() >= OUTPUT_BATCH_THRESHOLD {
            let mut batch: Vec<u8> = Vec::new();
            std::mem::swap(&mut batch, &mut self.buffer);
            Some(batch)
        } else {
            None
        }
    }

    /// Hands on everything gathered, in order, when anything is.
    pub fn take(&mut self) -> (r: Option<Vec<u8>>)
        ensures
            final(self).pending() == Seq::<u8>::empty(),
            match r {
                Some(batch) => batch@ == old(self).pending() && batch@.len() > 0,
                None => old(self).pending().len() == 0,
            },
    {
        if self.buffer.len() == 0 {
            return None;
        }
        let mut batch: Vec<u8> = Vec::new();
        std::mem::swap(&mut batch, &mut self.buffer);
        Some(batch)
    }
}

/// Whether a shell's exit is reported now, and whether it has been
/// reported, after a check that finds the exit flag as given.
pub open spec fn exit_check(reported: bool, flag: bool) -> (bool, bool) {
    if !reported && flag {
        (true, true)
    } else {
        (false, reported)
    }
}

/// Whether the exit of a view's shell has been reported.
#[derive(Debug, Clone, Copy, PartialEq, Eq, Structural)]
pub struct ExitWatch {
    pub has_exited: bool,
}

impl ExitWatch {
    /// A watch that has reported nothing.
    pub fn new() -> (r: Self)
        ensures
            !r.has_exited,
    {
        Self { has_exited: false }
    }

    /// Whether the exit has been reported.
    pub fn has_exited(&self) -> (r: bool)
        ensures
            r == self.has_exited,
    {
        self.has_exited
    }

    /// Reports the exit the first time the shell's exit flag is found set.
    pub fn check_exit(&mut self, flag: bool) -> (r: bool)
        ensures
            (r, final(self).has_exited) == exit_check(old(self).has_exited, flag),
    {
        if !self.has_exited && flag {
            self.has_exited = true;
            true
        } else {
            false
        }
    }
}

/// An exit is reported once: after a check reports it, no later check does,
/// whatever the flag.
pub proof fn law_exit_reported_once(reported: bool, first: bool, later: bool)
    ensures
        exit_check(reported, first).0 ==> !exit_check(exit_check(reported, first).1, later).0,
{
}

} // verus!
