//! The main menu: its items and its key handling.

use vstd::prelude::*;
use super::{Key, KeyEvent, ctrl_c, is_ctrl_c};
use super::line::{LineV, Span, Tone, blank, lines_view, one, push_blank, push_line, push_lit, push_one};
use crate::size::{human_kb, human_kilobytes};
use crate::text::{chars_of, left_aligned, push_all, push_left, push_str};

verus! {

/// One menu entry.
#[derive(Clone, Debug)]
pub struct MenuItem {
    pub label: &'static str,
    pub desc: &'static str,
    pub command: &'static str,
}

/// The commands of the menu entries, in order.
pub open spec fn menu_commands() -> Seq<Seq<char>> {
    seq!["audit"@, "clean"@, "uninstall"@, "optimize"@, "status"@, "quit"@]
}

fn item(label: &'static str, desc: &'static str, command: &'static str) -> (m: MenuItem)
    ensures
        m.label == label && m.desc == desc && m.command == command,
{
    MenuItem { label, desc, command }
}

/// The labels and descriptions of the menu entries, in order.
pub open spec fn menu_rows() -> Seq<(Seq<char>, Seq<char>)> {
    seq![
        ("Audit"@, "Diagnose cleanup issues and apply recommended fixes"@),
        ("Clean"@, "Free disk space (cache, apt, snap, journal, kernels)"@),
        ("Uninstall"@, "Remove apps and all their remnants"@),
        ("Optimize"@, "Run system maintenance tasks"@),
        ("Status"@, "Live system dashboard"@),
        ("Quit"@, "Exit mu"@),
    ]
}

/// The six menu entries: Audit, Clean, Uninstall, Optimize, Status, Quit.
pub fn menu_items() -> (v: Vec<MenuItem>)
    ensures
        v@.map_values(|m: MenuItem| m.command@) == menu_commands(),
        v@.map_values(|m: MenuItem| (m.label@, m.desc@)) == menu_rows(),
{
    let mut v = Vec::new();
    v.push(item("Audit", "Diagnose cleanup issues and apply recommended fixes", "audit"));
    v.push(item("Clean", "Free disk space (cache, apt, snap, journal, kernels)", "clean"));
    v.push(item("Uninstall", "Remove apps and all their remnants", "uninstall"));
    v.push(item("Optimize", "Run system maintenance tasks", "optimize"));
    v.push(item("Status", "Live system dashboard", "status"));
    v.push(item("Quit", "Exit mu", "quit"));
    assert(v@.map_values(|m: MenuItem| m.command@) =~= menu_commands());
    assert(v@.map_values(|m: MenuItem| (m.label@, m.desc@)) =~= menu_rows());
    v
}

/// A health reading for the menu: the CPU and free root-disk percentages,
/// rounded to whole numbers (as text), and the memory used and in total,
/// in kilobytes. A reading with no memory total is empty.
#[derive(Clone, Debug)]
pub struct HealthSnapshot {
    pub cpu_pct: String,
    pub mem_used: u64,
    pub mem_total: u64,
    pub disk_free_pct: String,
}

impl HealthSnapshot {
    /// Whether nothing was read: no memory total.
    pub fn is_empty(&self) -> (b: bool)
        ensures
            b == (self.mem_total == 0),
    {
        self.mem_total == 0
    }
}

/// The menu's state: the cursor, the command chosen, and a transient banner
/// shown after a subcommand ran.
#[derive(Clone, Debug)]
pub struct MainMenu {
    pub cursor: usize,
    pub chosen: Option<&'static str>,
    /// The health reading, once taken.
    pub snapshot: Option<HealthSnapshot>,
    pub banner: String,
    pub banner_err: bool,
}

impl Default for MainMenu {
    /// A menu on the first entry, with no reading and no banner.
    fn default() -> (m: MainMenu)
        ensures
            m.cursor == 0 && m.chosen is None && m.snapshot is None && m.banner@.len() == 0 && !m.banner_err,
    {
        MainMenu::new(0, None)
    }
}

impl MainMenu {
    /// A menu at the given cursor with the given reading, and no banner.
    pub fn new(cursor: usize, snapshot: Option<HealthSnapshot>) -> (m: MainMenu)
        ensures
            m.cursor == cursor && m.chosen is None && m.snapshot == snapshot && m.banner@.len() == 0
                && !m.banner_err,
    {
        MainMenu { cursor, chosen: None, snapshot, banner: String::new(), banner_err: false }
    }

    /// Records the health reading.
    pub fn set_snapshot(&mut self, snap: HealthSnapshot)
        ensures
            final(self).snapshot == Some(snap),
            final(self).cursor == old(self).cursor && final(self).chosen == old(self).chosen,
            final(self).banner == old(self).banner && final(self).banner_err == old(self).banner_err,
    {
        self.snapshot = Some(snap);
    }

    /// The menu with a banner set.
    pub fn with_banner(self, banner: String, err: bool) -> (m: MainMenu)
        ensures
            m.cursor == self.cursor && m.chosen == self.chosen && m.snapshot == self.snapshot && m.banner == banner
                && m.banner_err == err,
    {
        MainMenu { banner, banner_err: err, ..self }
    }

    /// Handles a key; returns whether the menu is done. A showing banner
    /// is cleared by any key. Otherwise `q` quits, up/`k` and down/`j` move
    /// within the six entries, `1` to `6` choose an entry, and Enter or
    /// Space choose the entry under the cursor.
    pub fn handle_key(&mut self, key: Key) -> (done: bool)
        requires
            old(self).cursor < 6,
        ensures
            final(self).cursor < 6,
            old(self).banner@.len() > 0 ==> !done && final(self).banner@.len() == 0 && !final(self).banner_err
                && final(self).cursor == old(self).cursor && final(self).chosen == old(self).chosen,
            old(self).banner@.len() == 0 ==> {
                &&& key == Key::Char('q') ==> (done && (final(self).chosen matches Some(c) && c@ == "quit"@))
                &&& (key == Key::Up || key == Key::Char('k')) ==> !done && final(self).cursor == (if old(self).cursor > 0 { old(self).cursor - 1 } else { 0 })
                &&& (key == Key::Down || key == Key::Char('j')) ==> !done && final(self).cursor == (if old(self).cursor < 5 { old(self).cursor + 1 } else { 5 })
                &&& (key matches Key::Char(c) && '1' <= c <= '6') ==> (done && (final(self).chosen matches Some(x) && x@ == menu_commands()[(key->Char_0 as int) - ('1' as int)]))
                &&& (key == Key::Enter || key == Key::Char(' ')) ==> (done && (final(self).chosen matches Some(x) && x@ == menu_commands()[old(self).cursor as int]))
            },
    {
        if !self.banner.as_str().is_empty() {
            self.banner = String::new();
            self.banner_err = false;
            return false;
        }
        let items = menu_items();
        assert(items@.map_values(|m: MenuItem| m.command@).len() == items@.len());
        assert(menu_commands().len() == 6);
        assert(items@.len() == 6);
        match key {
            Key::Char('q') => {
                self.chosen = Some("quit");
                true
            },
            Key::Up | Key::Char('k') => {
                if self.cursor > 0 {
                    self.cursor -= 1;
                }
                false
            },
            Key::Down | Key::Char('j') => {
                if self.cursor < 5 {
                    self.cursor += 1;
                }
                false
            },
            Key::Char(c) => {
                if '1' <= c && c <= '6' {
                    let idx = (c as u32 - '1' as u32) as usize;
                    assert(items@.map_values(|m: MenuItem| m.command@)[idx as int] == items@[idx as int].command@);
                    self.chosen = Some(items[idx].command);
                    true
                } else if c == ' ' {
                    assert(items@.map_values(|m: MenuItem| m.command@)[self.cursor as int] == items@[self.cursor as int].command@);
                    self.chosen = Some(items[self.cursor].command);
                    true
                } else {
                    false
                }
            },
            Key::Enter => {
                assert(items@.map_values(|m: MenuItem| m.command@)[self.cursor as int] == items@[self.cursor as int].command@);
                self.chosen = Some(items[self.cursor].command);
                true
            },
            _ => false,
        }
    }

    /// Handles a key event: a banner is cleared first; Ctrl+C quits; other
    /// keys with Control or Alt are ignored.
    pub fn handle_key_event(&mut self, key: KeyEvent) -> (done: bool)
        requires
            old(self).cursor < 6,
        ensures
            final(self).cursor < 6,
            old(self).banner@.len() > 0 ==> !done && final(self).banner@.len() == 0 && final(self).cursor == old(self).cursor,
            old(self).banner@.len() == 0 && ctrl_c(key) ==> (done && (final(self).chosen matches Some(c) && c@ == "quit"@)),
            old(self).banner@.len() == 0 && !ctrl_c(key) && (key.ctrl || key.alt) ==> !done && final(self).cursor == old(self).cursor && final(self).chosen == old(self).chosen,
    {
        if !self.banner.as_str().is_empty() {
            self.banner = String::new();
            self.banner_err = false;
            return false;
        }
        if is_ctrl_c(&key) {
            self.chosen = Some("quit");
            return true;
        }
        if key.ctrl || key.alt {
            return false;
        }
        self.handle_key(key.code)
    }
}

/// The lines of the transient banner: the text (bold, in the failure
/// color for an error), the hint to press a key after an error, a blank.
pub open spec fn banner_lines(banner: Seq<char>, err: bool) -> Seq<LineV> {
    if banner.len() == 0 {
        seq![]
    } else {
        seq![one("  "@ + banner, if err { Tone::Danger } else { Tone::BoldPrimary })] + (if err {
            seq![one("  press any key to continue"@, Tone::Faint)]
        } else {
            seq![]
        }) + seq![blank()]
    }
}

/// The health line and a blank: loading, dashes for an empty reading, or
/// the CPU, memory and free root-disk figures.
pub open spec fn health_lines(s: Option<HealthSnapshot>) -> Seq<LineV> {
    match s {
        None => seq![one("  Loading..."@, Tone::Faint), blank()],
        Some(h) => if h.mem_total == 0 {
            seq![one("  ---  ---  ---"@, Tone::Faint), blank()]
        } else {
            seq![one("  CPU: "@ + h.cpu_pct@ + "%  RAM: "@ + human_kilobytes(h.mem_used as nat) + "/"@
                + human_kilobytes(h.mem_total as nat) + "  Disk /: "@ + h.disk_free_pct@ + "% free"@, Tone::Faint),
                blank()]
        },
    }
}

/// Entry `i`'s line: a pointer on the cursor's entry, the label in a
/// column of fourteen, the description; the cursor's entry bold.
pub open spec fn entry_line(i: int, cursor: int) -> LineV {
    one("  "@ + (if i == cursor { "▶ "@ } else { "  "@ }) + left_aligned(menu_rows()[i].0, 14) + " "@
        + menu_rows()[i].1, if i == cursor { Tone::BoldPrimary } else { Tone::Plain })
}

/// The menu screen: the logo and title, the banner, the health line, the
/// six entries, and the key hint.
pub open spec fn menu_view(m: MainMenu) -> Seq<LineV> {
    seq![blank(), blank(), one("  ░█▄▒▄█░█▒█░░"@, Tone::BoldPrimary), one("  ░█▒▀▒█░▀▄█▒░"@, Tone::BoldPrimary),
        one("  Mole Ubuntu — safe system cleaner"@, Tone::BoldPrimary)] + banner_lines(m.banner@, m.banner_err)
        + health_lines(m.snapshot) + Seq::new(6, |i: int| entry_line(i, m.cursor as int)) + seq![blank(), blank(),
        blank(), one("  ↑/↓ or j/k to navigate  •  Enter to select  •  q to quit"@, Tone::Plain)]
}

impl MainMenu {
    fn push_banner(&self, ls: &mut Vec<Vec<Span>>)
        ensures
            lines_view(final(ls)@) == lines_view(old(ls)@) + banner_lines(self.banner@, self.banner_err),
    {
        let ghost before = lines_view(ls@);
        let b = chars_of(self.banner.as_str());
        if b.len() == 0 {
            assert(lines_view(ls@) =~= before + banner_lines(self.banner@, self.banner_err));
            return;
        }
        let mut t = chars_of("  ");
        push_all(&mut t, b.as_slice());
        push_one(ls, t.as_slice(), if self.banner_err { Tone::Danger } else { Tone::BoldPrimary });
        if self.banner_err {
            push_lit(ls, "  press any key to continue", Tone::Faint);
        }
        push_blank(ls);
        assert(lines_view(ls@) =~= before + banner_lines(self.banner@, self.banner_err));
    }

    fn push_health(&self, ls: &mut Vec<Vec<Span>>)
        ensures
            lines_view(final(ls)@) == lines_view(old(ls)@) + health_lines(self.snapshot),
    {
        let ghost before = lines_view(ls@);
        match &self.snapshot {
            None => push_lit(ls, "  Loading...", Tone::Faint),
            Some(h) => {
                if h.is_empty() {
                    push_lit(ls, "  ---  ---  ---", Tone::Faint);
                } else {
                    let mut t = chars_of("  CPU: ");
                    let c = chars_of(h.cpu_pct.as_str());
                    push_all(&mut t, c.as_slice());
                    push_str(&mut t, "%  RAM: ");
                    let u = human_kb(h.mem_used);
                    let uc = chars_of(u.as_str());
                    push_all(&mut t, uc.as_slice());
                    push_str(&mut t, "/");
                    let a = human_kb(h.mem_total);
                    let ac = chars_of(a.as_str());
                    push_all(&mut t, ac.as_slice());
                    push_str(&mut t, "  Disk /: ");
                    let d = chars_of(h.disk_free_pct.as_str());
                    push_all(&mut t, d.as_slice());
                    push_str(&mut t, "% free");
                    push_one(ls, t.as_slice(), Tone::Faint);
                }
            },
        }
        push_blank(ls);
        assert(lines_view(ls@) =~= before + health_lines(self.snapshot));
    }

    /// The menu screen as styled lines.
    pub fn view_lines(&self) -> (ls: Vec<Vec<Span>>)
        ensures
            lines_view(ls@) == menu_view(*self),
    {
        let mut ls: Vec<Vec<Span>> = Vec::new();
        push_blank(&mut ls);
        push_blank(&mut ls);
        push_lit(&mut ls, "  ░█▄▒▄█░█▒█░░", Tone::BoldPrimary);
        push_lit(&mut ls, "  ░█▒▀▒█░▀▄█▒░", Tone::BoldPrimary);
        push_lit(&mut ls, "  Mole Ubuntu — safe system cleaner", Tone::BoldPrimary);
        self.push_banner(&mut ls);
        self.push_health(&mut ls);
        let ghost head = lines_view(ls@);
        let items = menu_items();
        assert(items@.map_values(|m: MenuItem| (m.label@, m.desc@)).len() == items@.len());
        assert(menu_rows().len() == 6);
        let mut i: usize = 0;
        while i < 6
            invariant
                i <= 6,
                items@.len() == 6,
                items@.map_values(|m: MenuItem| (m.label@, m.desc@)) == menu_rows(),
                lines_view(ls@) == head + Seq::new(i as nat, |k: int| entry_line(k, self.cursor as int)),
            decreases 6 - i,
        {
            assert(items@.map_values(|m: MenuItem| (m.label@, m.desc@))[i as int] == (items@[i as int].label@, items@[i as int].desc@));
            let sel = i == self.cursor;
            let mut t = chars_of("  ");
            push_str(&mut t, if sel { "▶ " } else { "  " });
            let l = chars_of(items[i].label);
            push_left(&mut t, l.as_slice(), 14);
            push_str(&mut t, " ");
            let d = chars_of(items[i].desc);
            push_all(&mut t, d.as_slice());
            push_one(&mut ls, t.as_slice(), if sel { Tone::BoldPrimary } else { Tone::Plain });
            assert(lines_view(ls@) =~= head + Seq::new((i + 1) as nat, |k: int| entry_line(k, self.cursor as int)));
            i += 1;
        }
        push_blank(&mut ls);
        push_blank(&mut ls);
        push_blank(&mut ls);
        push_lit(&mut ls, "  ↑/↓ or j/k to navigate  •  Enter to select  •  q to quit", Tone::Plain);
        assert(lines_view(ls@) =~= menu_view(*self));
        ls
    }
}

} // verus!
