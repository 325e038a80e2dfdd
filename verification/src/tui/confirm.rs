//! The YES/NO confirm dialog: NO by default.

use vstd::prelude::*;
use super::{Key, KeyEvent, ctrl_c, is_ctrl_c};
use super::line::{LineV, Span, Tone, blank, button_line, lines_view, one, push_blank, push_buttons, push_lit, push_one};
use crate::text::{chars_of, push_all};

verus! {

/// The dialog's state. `cursor` 0 is YES, 1 is NO; `result` is set once
/// the dialog is done.
#[derive(Clone, Debug)]
pub struct Confirm {
    pub prompt: String,
    pub cursor: usize,
    pub result: Option<bool>,
}

/// Whether a key toggles between YES and NO.
pub open spec fn toggles(k: Key) -> bool {
    k == Key::Left || k == Key::Char('h') || k == Key::Tab || k == Key::Right || k == Key::Char('l')
}

impl Confirm {
    /// A new dialog with the cursor on NO.
    pub fn new(prompt: String) -> (c: Confirm)
        ensures
            c.prompt == prompt,
            c.cursor == 1,
            c.result is None,
    {
        Confirm { prompt, cursor: 1, result: None }
    }

    /// Handles a key; returns whether the dialog is done. The arrows, `h`,
    /// `l` and Tab toggle; Enter answers with the cursor; `q` answers NO.
    pub fn handle_key(&mut self, key: Key) -> (done: bool)
        requires
            old(self).cursor <= 1,
        ensures
            final(self).prompt == old(self).prompt,
            final(self).cursor <= 1,
            toggles(key) ==> !done && final(self).cursor == 1 - old(self).cursor && final(self).result
                == old(self).result,
            key == Key::Enter ==> done && final(self).cursor == old(self).cursor && final(self).result
                == Some(old(self).cursor == 0),
            key == Key::Char('q') ==> done && final(self).cursor == old(self).cursor
                && final(self).result == Some(false),
            !toggles(key) && key != Key::Enter && key != Key::Char('q') ==> !done && *final(self)
                == *old(self),
    {
        match key {
            Key::Left | Key::Char('h') | Key::Tab | Key::Right | Key::Char('l') => {
                self.cursor = 1 - self.cursor;
                false
            },
            Key::Enter => {
                self.result = Some(self.cursor == 0);
                true
            },
            Key::Char('q') => {
                self.result = Some(false);
                true
            },
            _ => false,
        }
    }

    /// Handles a key event: Ctrl+C answers NO; other keys with Control or
    /// Alt are ignored; the rest go to [`Confirm::handle_key`].
    pub fn handle_key_event(&mut self, key: KeyEvent) -> (done: bool)
        requires
            old(self).cursor <= 1,
        ensures
            final(self).cursor <= 1,
            ctrl_c(key) ==> done && final(self).result == Some(false) && final(self).cursor == old(self).cursor,
            !ctrl_c(key) && (key.ctrl || key.alt) ==> !done && *final(self) == *old(self),
    {
        if is_ctrl_c(&key) {
            self.result = Some(false);
            return true;
        }
        if key.ctrl || key.alt {
            return false;
        }
        self.handle_key(key.code)
    }

    /// The answer, once given.
    pub fn result(&self) -> (r: Option<bool>)
        ensures
            r == self.result,
    {
        self.result
    }
}

/// The two button labels.
pub fn render_buttons(cursor: usize) -> (r: (&'static str, &'static str))
    ensures
        r.0@ == "YES"@ && r.1@ == "NO"@,
{
    ("YES", "NO")
}

/// The dialog: the prompt, the buttons, and the key hint.
pub open spec fn confirm_view(c: Confirm) -> Seq<LineV> {
    seq![blank(), blank(), one("  "@ + c.prompt@, Tone::Plain), blank(), button_line(c.cursor as int, "  "@), blank(),
        blank(), one("  ←/→ navigate  •  Enter: confirm  •  q: quit"@, Tone::Plain), blank()]
}

impl Confirm {
    /// The dialog as styled lines, the button under the cursor armed.
    pub fn view_lines(&self) -> (ls: Vec<Vec<Span>>)
        ensures
            lines_view(ls@) == confirm_view(*self),
    {
        let mut ls: Vec<Vec<Span>> = Vec::new();
        push_blank(&mut ls);
        push_blank(&mut ls);
        let mut t = chars_of("  ");
        let p = chars_of(self.prompt.as_str());
        push_all(&mut t, p.as_slice());
        push_one(&mut ls, t.as_slice(), Tone::Plain);
        push_blank(&mut ls);
        push_buttons(&mut ls, self.cursor, "  ");
        push_blank(&mut ls);
        push_blank(&mut ls);
        push_lit(&mut ls, "  ←/→ navigate  •  Enter: confirm  •  q: quit", Tone::Plain);
        push_blank(&mut ls);
        assert(lines_view(ls@) =~= confirm_view(*self));
        ls
    }
}

} // verus!
