//! The run transcript: section headers, lines, notes, steps with their
//! outcome, and a summary, rendered as plain text.

use vstd::prelude::*;
use crate::text::{chars_of, push_all, push_str, string_of};
use super::line::{LineV, Span, Tone, lines_view, one, push_one};

verus! {

/// One entry of the transcript.
#[derive(Debug, Clone)]
pub enum RunLine {
    Section(String),
    Line(String),
    Faint(String),
    Summary(String),
    /// A step: its label and, once finished, whether it failed (with the error).
    Spinner(String, Option<Result<(), String>>),
}

/// The transcript of a subcommand run.
pub struct RunShell {
    pub lines: Vec<RunLine>,
}

/// The plain text of one entry.
pub open spec fn line_text(l: RunLine) -> Seq<char> {
    match l {
        RunLine::Section(t) => "\n  "@ + t@ + "\n"@,
        RunLine::Line(t) => "  "@ + t@ + "\n"@,
        RunLine::Faint(t) => "  "@ + t@ + "\n"@,
        RunLine::Summary(t) => "\n  "@ + t@ + "\n"@,
        RunLine::Spinner(label, r) => match r {
            Some(Ok(())) => "\n  ✅ "@ + label@ + "\n"@,
            Some(Err(_)) => "\n  ❌ "@ + label@ + "\n"@,
            None => "\n  ⠋ "@ + label@ + "\n"@,
        },
    }
}

/// The plain text of the first entries.
pub open spec fn plain_text(ls: Seq<RunLine>) -> Seq<char>
    decreases ls.len(),
{
    if ls.len() == 0 {
        seq![]
    } else {
        plain_text(ls.drop_last()) + line_text(ls.last())
    }
}

impl RunShell {
    /// An empty transcript.
    pub fn new() -> (r: RunShell)
        ensures
            r.lines@.len() == 0,
    {
        RunShell { lines: Vec::new() }
    }

    /// Adds a section header.
    pub fn section(&mut self, title: String)
        ensures
            final(self).lines@ == old(self).lines@.push(RunLine::Section(title)),
    {
        self.lines.push(RunLine::Section(title));
    }

    /// Adds a content line.
    pub fn line(&mut self, text: String)
        ensures
            final(self).lines@ == old(self).lines@.push(RunLine::Line(text)),
    {
        self.lines.push(RunLine::Line(text));
    }

    /// Adds a dimmed note.
    pub fn faint(&mut self, text: String)
        ensures
            final(self).lines@ == old(self).lines@.push(RunLine::Faint(text)),
    {
        self.lines.push(RunLine::Faint(text));
    }

    /// Adds the summary.
    pub fn summary(&mut self, text: String)
        ensures
            final(self).lines@ == old(self).lines@.push(RunLine::Summary(text)),
    {
        self.lines.push(RunLine::Summary(text));
    }

    /// Runs `work` for a step labeled `label` and records how it ended.
    pub fn spinner<F: FnOnce() -> Result<(), String>>(&mut self, label: String, work: F)
        requires
            call_requires(work, ()),
        ensures
            exists|r: Result<(), String>| call_ensures(work, (), r) && final(self).lines@
                == old(self).lines@.push(RunLine::Spinner(label, Some(r))),
    {
        let r = work();
        self.lines.push(RunLine::Spinner(label, Some(r)));
    }

    /// The transcript as plain text.
    pub fn to_plain_text(&self) -> (s: String)
        ensures
            s@ == plain_text(self.lines@),
    {
        let mut out: Vec<char> = Vec::new();
        let mut i: usize = 0;
        while i < self.lines.len()
            invariant
                i <= self.lines@.len(),
                out@ == plain_text(self.lines@.subrange(0, i as int)),
            decreases self.lines.len() - i,
        {
            let ghost before = out@;
            match &self.lines[i] {
                RunLine::Section(t) => {
                    push_str(&mut out, "\n  ");
                    let c = chars_of(t.as_str());
                    push_all(&mut out, c.as_slice());
                    push_str(&mut out, "\n");
                },
                RunLine::Line(t) => {
                    push_str(&mut out, "  ");
                    let c = chars_of(t.as_str());
                    push_all(&mut out, c.as_slice());
                    push_str(&mut out, "\n");
                },
                RunLine::Faint(t) => {
                    push_str(&mut out, "  ");
                    let c = chars_of(t.as_str());
                    push_all(&mut out, c.as_slice());
                    push_str(&mut out, "\n");
                },
                RunLine::Summary(t) => {
                    push_str(&mut out, "\n  ");
                    let c = chars_of(t.as_str());
                    push_all(&mut out, c.as_slice());
                    push_str(&mut out, "\n");
                },
                RunLine::Spinner(label, r) => {
                    match r {
                        Some(Ok(())) => push_str(&mut out, "\n  ✅ "),
                        Some(Err(_)) => push_str(&mut out, "\n  ❌ "),
                        None => push_str(&mut out, "\n  ⠋ "),
                    }
                    let c = chars_of(label.as_str());
                    push_all(&mut out, c.as_slice());
                    push_str(&mut out, "\n");
                },
            }
            assert(self.lines@.subrange(0, i + 1).drop_last() =~= self.lines@.subrange(0, i as int));
            assert(out@ =~= before + line_text(self.lines@[i as int]));
            i += 1;
        }
        assert(self.lines@.subrange(0, i as int) =~= self.lines@);
        string_of(out.as_slice())
    }
}

/// One entry as a styled line: sections, summaries and steps bold in the
/// primary color, notes faint, lines plain; a step shows its outcome mark
/// (the first spinner frame while it runs).
pub open spec fn entry_view(l: RunLine) -> LineV {
    match l {
        RunLine::Section(t) => one("  "@ + t@, Tone::BoldPrimary),
        RunLine::Line(t) => one("  "@ + t@, Tone::Plain),
        RunLine::Faint(t) => one("  "@ + t@, Tone::Faint),
        RunLine::Summary(t) => one("  "@ + t@, Tone::BoldPrimary),
        RunLine::Spinner(label, r) => one(
            match r {
                Some(Ok(())) => "  ✅ "@ + label@,
                Some(Err(_)) => "  ❌ "@ + label@,
                None => "  ⠋ "@ + label@,
            },
            Tone::BoldPrimary,
        ),
    }
}

impl RunShell {
    /// The transcript as styled lines, one per entry.
    pub fn view_lines(&self) -> (ls: Vec<Vec<Span>>)
        ensures
            lines_view(ls@) == self.lines@.map_values(|l: RunLine| entry_view(l)),
    {
        let mut ls: Vec<Vec<Span>> = Vec::new();
        let mut i: usize = 0;
        while i < self.lines.len()
            invariant
                i <= self.lines@.len(),
                lines_view(ls@) == self.lines@.subrange(0, i as int).map_values(|l: RunLine| entry_view(l)),
            decreases self.lines.len() - i,
        {
            let (head, body, tone): (&str, &String, Tone) = match &self.lines[i] {
                RunLine::Section(t) => ("  ", t, Tone::BoldPrimary),
                RunLine::Line(t) => ("  ", t, Tone::Plain),
                RunLine::Faint(t) => ("  ", t, Tone::Faint),
                RunLine::Summary(t) => ("  ", t, Tone::BoldPrimary),
                RunLine::Spinner(label, r) => (
                    match r {
                        Some(Ok(())) => "  ✅ ",
                        Some(Err(_)) => "  ❌ ",
                        None => "  ⠋ ",
                    },
                    label,
                    Tone::BoldPrimary,
                ),
            };
            let mut t = chars_of(head);
            let b = chars_of(body.as_str());
            push_all(&mut t, b.as_slice());
            push_one(&mut ls, t.as_slice(), tone);
            assert(self.lines@.subrange(0, i + 1).map_values(|l: RunLine| entry_view(l)) =~= self.lines@.subrange(
                0,
                i as int,
            ).map_values(|l: RunLine| entry_view(l)).push(entry_view(self.lines@[i as int])));
            i += 1;
        }
        assert(self.lines@.subrange(0, i as int) =~= self.lines@);
        ls
    }
}

} // verus!
