//! The terminal interface's logic: key handling of the menu, the confirm
//! dialog and the uninstall browser, the run transcript, and text helpers.
//! Drawing and the terminal itself are the caller's.

pub mod confirm;
pub mod line;
pub mod menu;
pub mod run;
pub mod status;
pub mod styles;
pub mod uninstall;

use vstd::prelude::*;
use crate::text::{chars_of, push_all, string_of};

verus! {

/// A key press, with the modifiers the interface tells apart.
#[derive(Debug, Clone, Copy, PartialEq, Eq, Structural)]
pub enum Key {
    Char(char),
    Up,
    Down,
    Left,
    Right,
    Enter,
    Esc,
    Backspace,
    Tab,
    /// Shift+Tab.
    BackTab,
    Other,
}

/// A key event: the key and whether Control or Alt was held.
#[derive(Debug, Clone, Copy, PartialEq, Eq, Structural)]
pub struct KeyEvent {
    pub code: Key,
    pub ctrl: bool,
    pub alt: bool,
}

/// Whether the event is Ctrl+C.
pub open spec fn ctrl_c(k: KeyEvent) -> bool {
    k.code == Key::Char('c') && k.ctrl
}

/// Whether a key event is Ctrl+C.
pub fn is_ctrl_c(key: &KeyEvent) -> (b: bool)
    ensures
        b == ctrl_c(*key),
{
    key.code == Key::Char('c') && key.ctrl
}

/// The uppercase form of a character (`char::to_uppercase`), which may be
/// several characters.
pub uninterp spec fn upper(c: char) -> Seq<char>;

/// `char::to_uppercase`, collected.
#[verifier::external_body]
fn char_upper(c: char) -> (s: String)
    ensures
        s@ == upper(c),
{
    c.to_uppercase().collect()
}

/// `s` with its first character uppercased.
pub open spec fn capitalized(s: Seq<char>) -> Seq<char> {
    if s.len() == 0 {
        seq![]
    } else {
        upper(s[0]) + s.drop_first()
    }
}

/// Uppercases the first character of `s`.
pub fn capitalize(s: &str) -> (r: String)
    ensures
        r@ == capitalized(s@),
{
    let c = chars_of(s);
    if c.len() == 0 {
        return String::new();
    }
    let u = char_upper(c[0]);
    let mut t = chars_of(u.as_str());
    let rest = crate::text::slice_of(c.as_slice(), 1, c.len());
    push_all(&mut t, rest.as_slice());
    assert(rest@ =~= s@.drop_first());
    string_of(t.as_slice())
}

/// The banner the menu shows after a subcommand: its summary with a check
/// mark, `<Command> cancelled.` when it was aborted, the error with a cross
/// (an error banner), or none when the subcommand printed its own output.
pub fn result_banner(chosen: &str, summary: Option<String>, err: Option<String>) -> (r: (String, bool))
    ensures
        match err {
            Some(e) => r.0@ == "❌ "@ + e@ && r.1,
            None => !r.1 && match summary {
                Some(s) => if s@ == "Aborted."@ {
                    r.0@ == capitalized(chosen@) + " cancelled."@
                } else {
                    r.0@ == "✅ "@ + s@
                },
                None => r.0@.len() == 0,
            },
        },
{
    match err {
        Some(e) => {
            let mut t = chars_of("❌ ");
            let ec = chars_of(e.as_str());
            push_all(&mut t, ec.as_slice());
            (string_of(t.as_slice()), true)
        },
        None => match summary {
            Some(s) => {
                let sc = chars_of(s.as_str());
                if crate::text::eq_str(sc.as_slice(), "Aborted.") {
                    let cap = capitalize(chosen);
                    let mut t = chars_of(cap.as_str());
                    crate::text::push_str(&mut t, " cancelled.");
                    (string_of(t.as_slice()), false)
                } else {
                    let mut t = chars_of("✅ ");
                    push_all(&mut t, sc.as_slice());
                    (string_of(t.as_slice()), false)
                }
            },
            None => (String::new(), false),
        },
    }
}

} // verus!
