//! Styled screen lines as plain values: each line is a sequence of spans,
//! each span a text with a tone. The terminal front end maps tones to its
//! colors.

use vstd::prelude::*;
use crate::text::string_of;

verus! {

/// How a span is drawn.
#[derive(Clone, Copy, PartialEq, Eq, Debug, Structural)]
pub enum Tone {
    Plain,
    /// Bold, without a color.
    Bold,
    BoldPrimary,
    Faint,
    ButtonOn,
    ButtonOff,
    /// Bold, in the color of failures.
    Danger,
    /// In the color of warnings.
    Warn,
    /// The row under the cursor.
    Highlight,
}

/// A piece of text in one tone.
#[derive(Debug)]
pub struct Span {
    pub text: String,
    pub tone: Tone,
}

/// A line as a value: its spans' texts and tones.
pub type LineV = Seq<(Seq<char>, Tone)>;

/// A span as a value.
pub open spec fn span_view(s: Span) -> (Seq<char>, Tone) {
    (s.text@, s.tone)
}

/// A line as a value.
pub open spec fn line_view(l: Seq<Span>) -> Seq<(Seq<char>, Tone)> {
    l.map_values(|s: Span| span_view(s))
}

/// Lines as values.
pub open spec fn lines_view(ls: Seq<Vec<Span>>) -> Seq<Seq<(Seq<char>, Tone)>> {
    ls.map_values(|l: Vec<Span>| line_view(l@))
}

/// A line of one span.
pub open spec fn one(t: Seq<char>, tone: Tone) -> Seq<(Seq<char>, Tone)> {
    seq![(t, tone)]
}

/// An empty line.
pub open spec fn blank() -> Seq<(Seq<char>, Tone)> {
    Seq::empty()
}

/// The spinner frame `i` of ten.
pub open spec fn frame_text(i: int) -> Seq<char> {
    if i == 0 {
        "⠋"@
    } else if i == 1 {
        "⠙"@
    } else if i == 2 {
        "⠹"@
    } else if i == 3 {
        "⠸"@
    } else if i == 4 {
        "⠼"@
    } else if i == 5 {
        "⠴"@
    } else if i == 6 {
        "⠦"@
    } else if i == 7 {
        "⠧"@
    } else if i == 8 {
        "⠇"@
    } else {
        "⠏"@
    }
}

/// The spinner frame `i` of ten.
pub fn spinner_frame(i: usize) -> (s: &'static str)
    ensures
        s@ == frame_text(i as int),
{
    if i == 0 {
        "⠋"
    } else if i == 1 {
        "⠙"
    } else if i == 2 {
        "⠹"
    } else if i == 3 {
        "⠸"
    } else if i == 4 {
        "⠼"
    } else if i == 5 {
        "⠴"
    } else if i == 6 {
        "⠦"
    } else if i == 7 {
        "⠧"
    } else if i == 8 {
        "⠇"
    } else {
        "⠏"
    }
}

/// Appends a line.
pub fn push_line(ls: &mut Vec<Vec<Span>>, l: Vec<Span>)
    ensures
        lines_view(final(ls)@) == lines_view(old(ls)@).push(line_view(l@)),
{
    let ghost before = lines_view(ls@);
    let ghost lv = line_view(l@);
    ls.push(l);
    assert(lines_view(ls@) =~= before.push(lv));
}

/// Appends a line of one span.
pub fn push_one(ls: &mut Vec<Vec<Span>>, t: &[char], tone: Tone)
    ensures
        lines_view(final(ls)@) == lines_view(old(ls)@).push(one(t@, tone)),
{
    let mut l: Vec<Span> = Vec::new();
    l.push(Span { text: string_of(t), tone });
    assert(line_view(l@) =~= one(t@, tone));
    push_line(ls, l);
}

/// Appends a line of one span with a literal text.
pub fn push_lit(ls: &mut Vec<Vec<Span>>, t: &str, tone: Tone)
    ensures
        lines_view(final(ls)@) == lines_view(old(ls)@).push(one(t@, tone)),
{
    let mut l: Vec<Span> = Vec::new();
    l.push(Span { text: String::from_str(t), tone });
    assert(line_view(l@) =~= one(t@, tone));
    push_line(ls, l);
}

/// Appends an empty line.
pub fn push_blank(ls: &mut Vec<Vec<Span>>)
    ensures
        lines_view(final(ls)@) == lines_view(old(ls)@).push(blank()),
{
    let l: Vec<Span> = Vec::new();
    assert(line_view(l@) =~= blank());
    push_line(ls, l);
}

/// The YES/NO buttons, `gap` apart: the one under `cursor` (0 is YES)
/// drawn armed.
pub open spec fn button_line(cursor: int, gap: Seq<char>) -> LineV {
    seq![("  "@, Tone::Plain), (" YES "@, if cursor == 0 { Tone::ButtonOn } else { Tone::ButtonOff }), (gap, Tone::Plain),
        (" NO "@, if cursor == 0 { Tone::ButtonOff } else { Tone::ButtonOn })]
}

/// Appends the YES/NO buttons.
pub fn push_buttons(ls: &mut Vec<Vec<Span>>, cursor: usize, gap: &str)
    ensures
        lines_view(final(ls)@) == lines_view(old(ls)@).push(button_line(cursor as int, gap@)),
{
    let mut l: Vec<Span> = Vec::new();
    l.push(Span { text: String::from_str("  "), tone: Tone::Plain });
    l.push(Span { text: String::from_str(" YES "), tone: if cursor == 0 { Tone::ButtonOn } else { Tone::ButtonOff } });
    l.push(Span { text: String::from_str(gap), tone: Tone::Plain });
    l.push(Span { text: String::from_str(" NO "), tone: if cursor == 0 { Tone::ButtonOff } else { Tone::ButtonOn } });
    assert(line_view(l@) =~= button_line(cursor as int, gap@));
    push_line(ls, l);
}

} // verus!
