//! The text sink that rendered output is written into.
//!
//! A sink models the destination the logging framework hands to the
//! formatter: an in-memory or buffered-terminal writer that either accepts
//! every write or (when it has been closed) accepts none.  The sink also
//! carries the color-capability signal for its output target: whether ANSI
//! escape sequences may be used.

use vstd::prelude::*;
use vstd::string::StringExecFns;

verus! {

/// A failure to write to the output sink.  This is the only error the
/// renderer can produce.
#[derive(Clone, Copy, PartialEq, Eq, Structural, Debug)]
pub struct FormatError;

/// Destination for rendered text.
///
/// `text` is everything written so far.  `ansi` reports whether the output
/// target understands ANSI escape sequences; the renderer consults it, never
/// decides it.  `healthy` models the sink's ability to accept writes: a
/// closed sink (`healthy == false`) rejects every write with [`FormatError`]
/// and keeps its text unchanged.
pub struct TextSink {
    pub text: String,
    pub ansi: bool,
    pub healthy: bool,
}

impl TextSink {
    /// A fresh, empty sink that accepts writes.
    pub fn new(ansi: bool) -> (s: TextSink)
        ensures
            s.text@ == Seq::<char>::empty(),
            s.ansi == ansi,
            s.healthy,
    {
        TextSink { text: String::new(), ansi, healthy: true }
    }

    /// A fresh sink that has already been closed: every write fails.
    pub fn closed(ansi: bool) -> (s: TextSink)
        ensures
            s.text@ == Seq::<char>::empty(),
            s.ansi == ansi,
            !s.healthy,
    {
        TextSink { text: String::new(), ansi, healthy: false }
    }

    /// Whether the output target understands ANSI escape sequences.
    pub fn has_ansi_escapes(&self) -> (r: bool)
        ensures
            r == self.ansi,
    {
        self.ansi
    }

    /// Appends `s` to the sink, or fails without a trace if the sink is
    /// closed.
    pub fn write_str(&mut self, s: &str) -> (r: Result<(), FormatError>)
        ensures
            final(self).ansi == old(self).ansi,
            final(self).healthy == old(self).healthy,
            old(self).healthy ==> r is Ok && final(self).text@ == old(self).text@ + s@,
            !old(self).healthy ==> r is Err && final(self).text@ == old(self).text@,
    {
        if self.healthy {
            self.text.append(s);
            Ok(())
        } else {
            Err(FormatError)
        }
    }
}

} // verus!
