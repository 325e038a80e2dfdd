//! A subcommand run rendered as plain text: section headers, content
//! lines, notes, a labeled step around a piece of work, and a summary. The
//! caller writes the finished text out.

use vstd::prelude::*;
use crate::error::Error;
use crate::text::{chars_of, push_all, push_str, string_of};

verus! {

/// The text of a run so far.
pub struct Run {
    pub out: Vec<char>,
}

impl Run {
    /// A run with no output yet.
    pub fn new() -> (r: Run)
        ensures
            r.out@ == Seq::<char>::empty(),
    {
        Run { out: Vec::new() }
    }

    fn put(&mut self, head: &str, body: &str, tail: &str)
        ensures
            final(self).out@ == old(self).out@ + head@ + body@ + tail@,
    {
        push_str(&mut self.out, head);
        let c = chars_of(body);
        push_all(&mut self.out, c.as_slice());
        push_str(&mut self.out, tail);
    }

    /// A blank line, then the title line.
    pub fn section(&mut self, title: &str)
        ensures
            final(self).out@ == old(self).out@ + "\n  "@ + title@ + "\n"@,
    {
        self.put("\n  ", title, "\n");
    }

    /// An indented content line.
    pub fn line(&mut self, text: &str)
        ensures
            final(self).out@ == old(self).out@ + "  "@ + text@ + "\n"@,
    {
        self.put("  ", text, "\n");
    }

    /// An indented note line; in plain text it reads like a content line.
    pub fn faint(&mut self, text: &str)
        ensures
            final(self).out@ == old(self).out@ + "  "@ + text@ + "\n"@,
    {
        self.line(text);
    }

    /// A blank line, then the summary line.
    pub fn summary(&mut self, text: &str)
        ensures
            final(self).out@ == old(self).out@ + "\n  "@ + text@ + "\n"@,
    {
        self.put("\n  ", text, "\n");
    }

    /// Announces `label` with a `label...` line, then runs `work` and hands
    /// back what it returned.
    pub fn spinner<T, F: FnOnce() -> Result<T, Error>>(&mut self, label: &str, work: F) -> (r: Result<T, Error>)
        requires
            call_requires(work, ()),
        ensures
            call_ensures(work, (), r),
            final(self).out@ == old(self).out@ + "  "@ + label@ + "...\n"@,
    {
        self.put("  ", label, "...\n");
        work()
    }

    /// The text written so far.
    pub fn text(&self) -> (s: String)
        ensures
            s@ == self.out@,
    {
        string_of(self.out.as_slice())
    }
}

} // verus!
