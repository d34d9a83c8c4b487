//! Where program output goes: to standard output, or, once buffering is
//! active, into an in-memory buffer that can be taken back.  The library
//! decides; the caller does the printing it is told to do.
use vstd::prelude::*;

verus! {

/// The output sink: `None` while output goes to standard output, `Some`
/// with what was collected while buffering.
pub struct Sink {
    pub buf: Option<String>,
}

/// What a sink holds, as characters.
pub open spec fn sink_text(s: Sink) -> Option<Seq<char>> {
    match s.buf {
        Some(b) => Some(b@),
        None => None,
    }
}

/// The text a write adds: `s`, and a newline for a line.
pub open spec fn write_text(line: bool, s: Seq<char>) -> Seq<char> {
    if line {
        s + "\n"@
    } else {
        s
    }
}

/// What a sink holds after a write: the text appended while buffering,
/// nothing otherwise.
pub open spec fn after_write(o: Option<Seq<char>>, line: bool, s: Seq<char>) -> Option<Seq<char>> {
    match o {
        Some(t) => Some(t + write_text(line, s)),
        None => None,
    }
}

impl Sink {
    /// A sink that writes to standard output.
    pub fn new() -> (s: Sink)
        ensures
            sink_text(s) is None,
    {
        Sink { buf: None }
    }

    /// Start buffering: later output is collected, from empty.
    pub fn activate(&mut self)
        ensures
            sink_text(*final(self)) == Some(Seq::<char>::empty()),
    {
        self.buf = Some(String::new());
    }

    /// Stop buffering and hand back what was collected (empty if buffering
    /// was not active).
    pub fn take(&mut self) -> (r: String)
        ensures
            r@ == match sink_text(*old(self)) {
                Some(t) => t,
                None => Seq::<char>::empty(),
            },
            sink_text(*final(self)) is None,
    {
        let old_buf = self.buf.take();
        match old_buf {
            Some(b) => b,
            None => String::new(),
        }
    }

    /// Write `s` and a newline.  While buffering, they are collected and
    /// nothing is returned; otherwise the sink is unchanged and the text to
    /// print is returned.
    pub fn emit_line(&mut self, s: &str) -> (print: Option<String>)
        ensures
            sink_text(*final(self)) == after_write(sink_text(*old(self)), true, s@),
            match sink_text(*old(self)) {
                Some(_) => print is None,
                None => print matches Some(p) && p@ == write_text(true, s@),
            },
    {
        match &mut self.buf {
            Some(buf) => {
                buf.append(s);
                buf.append("\n");
                None
            },
            None => {
                let mut p = String::from_str(s);
                p.append("\n");
                Some(p)
            },
        }
    }

    /// Write `s` as it is: collected while buffering, else returned to print.
    pub fn emit_raw(&mut self, s: &str) -> (print: Option<String>)
        ensures
            sink_text(*final(self)) == after_write(sink_text(*old(self)), false, s@),
            match sink_text(*old(self)) {
                Some(_) => print is None,
                None => print matches Some(p) && p@ == write_text(false, s@),
            },
    {
        match &mut self.buf {
            Some(buf) => {
                buf.append(s);
                None
            },
            None => Some(String::from_str(s)),
        }
    }
}

} // verus!
