//! The audit wizard's state machine: scan, findings (choose what to fix),
//! confirm (NO by default), apply, rescore. The caller runs the scans and
//! the apply on the commands this model returns and hands back the results
//! as messages.

use vstd::prelude::*;
use super::Options;
use super::apply::{ApplyResult, count_apply_errors};
use super::findings::{Finding, copy_findings, severity_text};
use super::scan::{Report, Snapshot, clamp64};
use crate::fmt::{dec, dec_int, fmt_i64, fmt_u64};
use crate::size::{human, human_size};
use crate::text::{chars_of, eq_str, lines, push_all, push_str, split_lines, string_of, views};
use crate::tui::line::{blank, line_view, lines_view, one, push_blank, push_line, push_lit, push_one, LineV, Span, Tone};

verus! {

/// The wizard's screen.
#[derive(Debug, Clone, Copy, PartialEq, Eq, Structural)]
pub enum Phase {
    Scan,
    Findings,
    Confirm,
    Apply,
    Rescore,
}

/// What the wizard asks for next.
#[derive(Debug, Clone, Copy, PartialEq, Eq, Structural)]
pub enum Cmd {
    /// Nothing to do.
    Nothing,
    /// Quit.
    Quit,
    /// Take a snapshot and build its report; answered with `Msg::Scanned`.
    Scan,
    /// Apply the selected findings; answered with `Msg::Applied`.
    Apply,
    /// Take a new snapshot and report; answered with `Msg::Rescored`.
    Rescore,
}

/// What the wizard is told.
#[derive(Debug)]
pub enum Msg {
    WindowSize { width: usize, height: usize },
    Scanned { snap: Snapshot, rep: Report },
    Applied { results: Vec<ApplyResult>, before: Report },
    Rescored { before: Report, after: Report },
    /// A key, by its name (`ctrl+c`, `q`, `enter`, ` `, `up`, ...).
    Key(String),
}

/// The wizard's state.
#[derive(Debug)]
pub struct AuditModel {
    pub phase: Phase,
    pub opts: Options,
    pub snap: Snapshot,
    pub report: Report,
    pub after: Report,
    pub findings: Vec<Finding>,
    /// The row under the cursor; it rests on a selectable row when there is one.
    pub cursor: usize,
    /// `selected[i]`: whether `findings[i]` is selected.
    pub selected: Vec<bool>,
    /// 0 is YES, 1 is NO.
    pub confirm: usize,
    pub applying: bool,
    pub results: Vec<ApplyResult>,
    pub width: usize,
    pub height: usize,
    pub done: bool,
    pub status: String,
}

/// The first selectable index at or after `i`, or -1.
pub open spec fn next_sel(fs: Seq<Finding>, i: int) -> int
    decreases fs.len() - i,
{
    if i < 0 || i >= fs.len() {
        -1
    } else if fs[i].selectable {
        i
    } else {
        next_sel(fs, i + 1)
    }
}

/// The last selectable index before `i`, or -1.
pub open spec fn prev_sel(fs: Seq<Finding>, i: int) -> int
    decreases i,
{
    if i <= 0 {
        -1
    } else if fs[i - 1].selectable {
        i - 1
    } else {
        prev_sel(fs, i - 1)
    }
}

/// The first selectable index at or after `from`, else the first
/// selectable one, else 0.
pub open spec fn first_sel(fs: Seq<Finding>, from: int) -> int {
    if next_sel(fs, from) >= 0 {
        next_sel(fs, from)
    } else if next_sel(fs, 0) >= 0 {
        next_sel(fs, 0)
    } else {
        0
    }
}

proof fn lemma_next_sel(fs: Seq<Finding>, i: int)
    ensures
        next_sel(fs, i) == -1 || (i <= next_sel(fs, i) < fs.len() && fs[next_sel(fs, i)].selectable),
        0 <= i && next_sel(fs, i) == -1 ==> forall|j: int| i <= j < fs.len() ==> !(#[trigger] fs[j]).selectable,
    decreases fs.len() - i,
{
    if 0 <= i < fs.len() && !fs[i].selectable {
        lemma_next_sel(fs, i + 1);
    }
}

proof fn lemma_prev_sel(fs: Seq<Finding>, i: int)
    ensures
        prev_sel(fs, i) == -1 || (0 <= prev_sel(fs, i) < i && fs[prev_sel(fs, i)].selectable),
    decreases i,
{
    if i > 0 && !fs[i - 1].selectable {
        lemma_prev_sel(fs, i - 1);
    }
}

/// The first selectable index at or after `from`, else the first
/// selectable one, else 0.
pub fn first_selectable(fs: &[Finding], from: usize) -> (r: usize)
    ensures
        r == first_sel(fs@, from as int),
{
    let mut i = from;
    while i < fs.len()
        invariant
            from <= i,
            next_sel(fs@, from as int) == next_sel(fs@, i as int),
        decreases fs.len() - i,
    {
        if fs[i].selectable {
            return i;
        }
        i += 1;
    }
    let mut j: usize = 0;
    while j < fs.len()
        invariant
            next_sel(fs@, from as int) == -1,
            next_sel(fs@, 0) == next_sel(fs@, j as int),
        decreases fs.len() - j,
    {
        if fs[j].selectable {
            return j;
        }
        j += 1;
    }
    0
}

/// The next selectable index after `cur`, else `cur`.
pub fn next_selectable(fs: &[Finding], cur: usize) -> (r: usize)
    ensures
        r == if next_sel(fs@, cur + 1) >= 0 { next_sel(fs@, cur + 1) } else { cur as int },
{
    if cur >= fs.len() {
        return cur;
    }
    let mut i = cur + 1;
    while i < fs.len()
        invariant
            cur + 1 <= i,
            next_sel(fs@, cur + 1) == next_sel(fs@, i as int),
        decreases fs.len() - i,
    {
        if fs[i].selectable {
            return i;
        }
        i += 1;
    }
    cur
}

/// The previous selectable index before `cur`, else `cur`.
pub fn prev_selectable(fs: &[Finding], cur: usize) -> (r: usize)
    requires
        cur <= fs@.len(),
    ensures
        r == if prev_sel(fs@, cur as int) >= 0 { prev_sel(fs@, cur as int) } else { cur as int },
{
    let mut i = cur;
    while i > 0
        invariant
            i <= cur <= fs@.len(),
            prev_sel(fs@, cur as int) == prev_sel(fs@, i as int),
        decreases i,
    {
        if fs[i - 1].selectable {
            return i - 1;
        }
        i -= 1;
    }
    cur
}

/// How many of the first `k` findings are selected and selectable.
pub open spec fn count_sel(fs: Seq<Finding>, sel: Seq<bool>, k: int) -> nat
    decreases k,
{
    if k <= 0 {
        0
    } else {
        count_sel(fs, sel, k - 1) + if sel[k - 1] && fs[k - 1].selectable { 1nat } else { 0nat }
    }
}

/// The bytes of the selected findings among the first `k`.
pub open spec fn sel_sum(fs: Seq<Finding>, sel: Seq<bool>, k: int) -> int
    decreases k,
{
    if k <= 0 {
        0
    } else {
        sel_sum(fs, sel, k - 1) + if sel[k - 1] { fs[k - 1].bytes as int } else { 0 }
    }
}

/// The selected, selectable findings among the first `k`, in order.
pub open spec fn sel_list(fs: Seq<Finding>, sel: Seq<bool>, k: int) -> Seq<Finding>
    decreases k,
{
    if k <= 0 {
        Seq::empty()
    } else {
        sel_list(fs, sel, k - 1) + if sel[k - 1] && fs[k - 1].selectable { seq![fs[k - 1]] } else { Seq::empty() }
    }
}

proof fn lemma_sel_sum_bound(fs: Seq<Finding>, sel: Seq<bool>, k: int)
    requires
        0 <= k,
    ensures
        -k * 0x8000_0000_0000_0000 <= sel_sum(fs, sel, k) <= k * 0x8000_0000_0000_0000,
    decreases k,
{
    if k > 0 {
        lemma_sel_sum_bound(fs, sel, k - 1);
    }
}

proof fn lemma_count_sel_bound(fs: Seq<Finding>, sel: Seq<bool>, k: int)
    requires
        0 <= k,
    ensures
        count_sel(fs, sel, k) <= k,
    decreases k,
{
    if k > 0 {
        lemma_count_sel_bound(fs, sel, k - 1);
    }
}

/// Whether `f` is a safe selectable finding (not opt-in).
pub open spec fn safe(f: Finding) -> bool {
    f.selectable && !f.opt_in
}

/// The wizard about to scan, the confirm cursor on NO.
pub fn new_audit_model(opts: Options) -> (m: AuditModel)
    ensures
        m.phase == Phase::Scan && m.opts == opts && m.findings@.len() == 0 && m.selected@.len() == 0,
        m.cursor == 0 && m.confirm == 1 && !m.applying && m.results@.len() == 0,
        m.width == 80 && m.height == 24 && !m.done && m.status@.len() == 0,
        m.wf(),
{
    AuditModel {
        phase: Phase::Scan,
        opts,
        snap: Snapshot::default(),
        report: Report::default(),
        after: Report::default(),
        findings: Vec::new(),
        cursor: 0,
        selected: Vec::new(),
        confirm: 1,
        applying: false,
        results: Vec::new(),
        width: 80,
        height: 24,
        done: false,
        status: String::new(),
    }
}

impl AuditModel {
    /// The wizard's invariant: one selection flag per finding, the cursor on
    /// a row (0 when there is none), and the confirm cursor YES or NO.
    pub open spec fn wf(&self) -> bool {
        &&& self.selected@.len() == self.findings@.len()
        &&& self.confirm <= 1
        &&& (self.findings@.len() == 0 ==> self.cursor == 0)
        &&& (self.findings@.len() > 0 ==> self.cursor < self.findings@.len())
    }

    /// The first command: scan.
    pub fn init(&self) -> (c: Cmd)
        ensures
            c == Cmd::Scan,
    {
        Cmd::Scan
    }

    /// Selected rows that are selectable.
    pub fn count_selected(&self) -> (n: usize)
        requires
            self.wf(),
        ensures
            n == count_sel(self.findings@, self.selected@, self.findings@.len() as int),
    {
        let mut n: usize = 0;
        let mut i: usize = 0;
        while i < self.findings.len()
            invariant
                i <= self.findings@.len(),
                self.selected@.len() == self.findings@.len(),
                n == count_sel(self.findings@, self.selected@, i as int),
            decreases self.findings.len() - i,
        {
            proof {
                lemma_count_sel_bound(self.findings@, self.selected@, i as int);
            }
            if self.selected[i] && self.findings[i].selectable {
                n += 1;
            }
            i += 1;
        }
        n
    }

    /// The bytes of the selected findings, held to the range of `i64`.
    pub fn selected_bytes(&self) -> (b: i64)
        requires
            self.wf(),
        ensures
            b == clamp64(sel_sum(self.findings@, self.selected@, self.findings@.len() as int)),
    {
        let mut total: i128 = 0;
        let mut i: usize = 0;
        let n = self.findings.len();
        while i < n
            invariant
                n == self.findings@.len(),
                i <= n,
                self.selected@.len() == n,
                total == sel_sum(self.findings@, self.selected@, i as int),
            decreases n - i,
        {
            proof {
                lemma_sel_sum_bound(self.findings@, self.selected@, i as int);
                assert(-(i as int) * 0x8000_0000_0000_0000 >= -0x1_0000_0000_0000_0000 * 0x8000_0000_0000_0000) by (nonlinear_arith)
                    requires i < 0x1_0000_0000_0000_0000;
                assert((i as int) * 0x8000_0000_0000_0000 <= 0x1_0000_0000_0000_0000 * 0x8000_0000_0000_0000) by (nonlinear_arith)
                    requires i < 0x1_0000_0000_0000_0000;
            }
            if self.selected[i] {
                total = total + self.findings[i].bytes as i128;
            }
            i += 1;
        }
        if total > i64::MAX as i128 {
            i64::MAX
        } else if total < i64::MIN as i128 {
            i64::MIN
        } else {
            total as i64
        }
    }

    /// The selected, selectable findings, in order.
    pub fn selected_findings(&self) -> (r: Vec<Finding>)
        requires
            self.wf(),
        ensures
            r@ == sel_list(self.findings@, self.selected@, self.findings@.len() as int),
    {
        let mut r: Vec<Finding> = Vec::new();
        let mut i: usize = 0;
        while i < self.findings.len()
            invariant
                i <= self.findings@.len(),
                self.selected@.len() == self.findings@.len(),
                r@ == sel_list(self.findings@, self.selected@, i as int),
            decreases self.findings.len() - i,
        {
            if self.selected[i] && self.findings[i].selectable {
                r.push(self.findings[i].copy());
            }
            assert(r@ =~= sel_list(self.findings@, self.selected@, i + 1));
            i += 1;
        }
        r
    }
}

/// Whether a key is one of the quit keys.
pub open spec fn quit_key(k: Seq<char>) -> bool {
    k == "ctrl+c"@ || k == "q"@
}

/// Whether a key flips the confirm cursor.
pub open spec fn flip_key(k: Seq<char>) -> bool {
    k == "left"@ || k == "h"@ || k == "right"@ || k == "l"@ || k == "tab"@
}

/// Whether every safe finding is selected.
pub open spec fn all_safe_on(fs: Seq<Finding>, sel: Seq<bool>) -> bool {
    forall|i: int| 0 <= i < fs.len() && safe(#[trigger] fs[i]) ==> sel[i]
}

/// The selection after the safe-all toggle: every safe finding set to the
/// opposite of whether all of them were selected, the rest unchanged.
pub open spec fn toggled_safe(fs: Seq<Finding>, sel: Seq<bool>) -> Seq<bool> {
    Seq::new(sel.len(), |i: int| if safe(fs[i]) { !all_safe_on(fs, sel) } else { sel[i] })
}

/// The selection a report starts with: the selectable findings that are
/// selected by default.
pub open spec fn default_selection(fs: Seq<Finding>) -> Seq<bool> {
    Seq::new(fs.len(), |i: int| fs[i].selectable && fs[i].default_selected)
}

/// The key names are distinct.
proof fn lemma_key_names()
    ensures
        "ctrl+c"@ != "q"@ && "ctrl+c"@ != "up"@ && "ctrl+c"@ != "k"@ && "ctrl+c"@ != "down"@,
        "ctrl+c"@ != "j"@ && "ctrl+c"@ != " "@ && "ctrl+c"@ != "a"@ && "ctrl+c"@ != "enter"@,
        "ctrl+c"@ != "left"@ && "ctrl+c"@ != "h"@ && "ctrl+c"@ != "right"@ && "ctrl+c"@ != "l"@,
        "ctrl+c"@ != "tab"@ && "q"@ != "up"@ && "q"@ != "k"@ && "q"@ != "down"@,
        "q"@ != "j"@ && "q"@ != " "@ && "q"@ != "a"@ && "q"@ != "enter"@,
        "q"@ != "left"@ && "q"@ != "h"@ && "q"@ != "right"@ && "q"@ != "l"@,
        "q"@ != "tab"@ && "up"@ != "k"@ && "up"@ != "down"@ && "up"@ != "j"@,
        "up"@ != " "@ && "up"@ != "a"@ && "up"@ != "enter"@ && "up"@ != "left"@,
        "up"@ != "h"@ && "up"@ != "right"@ && "up"@ != "l"@ && "up"@ != "tab"@,
        "k"@ != "down"@ && "k"@ != "j"@ && "k"@ != " "@ && "k"@ != "a"@,
        "k"@ != "enter"@ && "k"@ != "left"@ && "k"@ != "h"@ && "k"@ != "right"@,
        "k"@ != "l"@ && "k"@ != "tab"@ && "down"@ != "j"@ && "down"@ != " "@,
        "down"@ != "a"@ && "down"@ != "enter"@ && "down"@ != "left"@ && "down"@ != "h"@,
        "down"@ != "right"@ && "down"@ != "l"@ && "down"@ != "tab"@ && "j"@ != " "@,
        "j"@ != "a"@ && "j"@ != "enter"@ && "j"@ != "left"@ && "j"@ != "h"@,
        "j"@ != "right"@ && "j"@ != "l"@ && "j"@ != "tab"@ && " "@ != "a"@,
        " "@ != "enter"@ && " "@ != "left"@ && " "@ != "h"@ && " "@ != "right"@,
        " "@ != "l"@ && " "@ != "tab"@ && "a"@ != "enter"@ && "a"@ != "left"@,
        "a"@ != "h"@ && "a"@ != "right"@ && "a"@ != "l"@ && "a"@ != "tab"@,
        "enter"@ != "left"@ && "enter"@ != "h"@ && "enter"@ != "right"@ && "enter"@ != "l"@,
        "enter"@ != "tab"@ && "left"@ != "h"@ && "left"@ != "right"@ && "left"@ != "l"@,
        "left"@ != "tab"@ && "h"@ != "right"@ && "h"@ != "l"@ && "h"@ != "tab"@,
        "right"@ != "l"@ && "right"@ != "tab"@ && "l"@ != "tab"@,
{
    reveal_strlit("ctrl+c");
    reveal_strlit("q");
    reveal_strlit("up");
    reveal_strlit("k");
    reveal_strlit("down");
    reveal_strlit("j");
    reveal_strlit(" ");
    reveal_strlit("a");
    reveal_strlit("enter");
    reveal_strlit("left");
    reveal_strlit("h");
    reveal_strlit("right");
    reveal_strlit("l");
    reveal_strlit("tab");
    assert("ctrl+c"@.len() == 6);
    assert("q"@.len() == 1);
    assert("up"@.len() == 2);
    assert("k"@.len() == 1);
    assert("down"@.len() == 4);
    assert("j"@.len() == 1);
    assert(" "@.len() == 1);
    assert("a"@.len() == 1);
    assert("enter"@.len() == 5);
    assert("left"@.len() == 4);
    assert("h"@.len() == 1);
    assert("right"@.len() == 5);
    assert("l"@.len() == 1);
    assert("tab"@.len() == 3);
    assert("q"@[0] != "k"@[0]);
    assert("q"@[0] != "j"@[0]);
    assert("q"@[0] != " "@[0]);
    assert("q"@[0] != "a"@[0]);
    assert("q"@[0] != "h"@[0]);
    assert("q"@[0] != "l"@[0]);
    assert("k"@[0] != "j"@[0]);
    assert("k"@[0] != " "@[0]);
    assert("k"@[0] != "a"@[0]);
    assert("k"@[0] != "h"@[0]);
    assert("k"@[0] != "l"@[0]);
    assert("down"@[0] != "left"@[0]);
    assert("j"@[0] != " "@[0]);
    assert("j"@[0] != "a"@[0]);
    assert("j"@[0] != "h"@[0]);
    assert("j"@[0] != "l"@[0]);
    assert(" "@[0] != "a"@[0]);
    assert(" "@[0] != "h"@[0]);
    assert(" "@[0] != "l"@[0]);
    assert("a"@[0] != "h"@[0]);
    assert("a"@[0] != "l"@[0]);
    assert("enter"@[0] != "right"@[0]);
    assert("h"@[0] != "l"@[0]);
}

impl AuditModel {
    /// What a key handler leaves alone.
    pub open spec fn keeps_data(&self, o: &AuditModel) -> bool {
        &&& self.findings == o.findings
        &&& self.report == o.report
        &&& self.after == o.after
        &&& self.snap == o.snap
        &&& self.opts == o.opts
        &&& self.results == o.results
        &&& self.width == o.width
        &&& self.height == o.height
    }

    fn key_findings(&mut self, key: &str) -> (c: Cmd)
        requires
            old(self).wf(),
            old(self).phase == Phase::Findings,
        ensures
            final(self).wf(),
            final(self).keeps_data(&*old(self)),
            quit_key(key@) ==> c == Cmd::Quit && final(self).done && final(self).selected == old(self).selected
                && final(self).phase == Phase::Findings,
            (key@ == "up"@ || key@ == "k"@) ==> c == Cmd::Nothing && final(self).phase == Phase::Findings
                && final(self).selected == old(self).selected && final(self).cursor == if prev_sel(
                old(self).findings@,
                old(self).cursor as int,
            ) >= 0 {
                prev_sel(old(self).findings@, old(self).cursor as int)
            } else {
                old(self).cursor as int
            },
            (key@ == "down"@ || key@ == "j"@) ==> c == Cmd::Nothing && final(self).phase == Phase::Findings
                && final(self).selected == old(self).selected && final(self).cursor == if next_sel(
                old(self).findings@,
                old(self).cursor + 1,
            ) >= 0 {
                next_sel(old(self).findings@, old(self).cursor + 1)
            } else {
                old(self).cursor as int
            },
            key@ == " "@ ==> c == Cmd::Nothing && final(self).phase == Phase::Findings && final(self).cursor
                == old(self).cursor && final(self).selected@ == if old(self).cursor < old(self).findings@.len()
                && old(self).findings@[old(self).cursor as int].selectable {
                old(self).selected@.update(old(self).cursor as int, !old(self).selected@[old(self).cursor as int])
            } else {
                old(self).selected@
            },
            key@ == "a"@ ==> c == Cmd::Nothing && final(self).phase == Phase::Findings && final(self).cursor
                == old(self).cursor && final(self).selected@ == toggled_safe(old(self).findings@, old(self).selected@),
            key@ == "enter"@ ==> c == Cmd::Nothing && final(self).selected == old(self).selected && if count_sel(
                old(self).findings@,
                old(self).selected@,
                old(self).findings@.len() as int,
            ) == 0 {
                final(self).phase == Phase::Findings && final(self).status@ == "Select at least one finding, or q to quit."@
            } else {
                final(self).phase == Phase::Confirm && final(self).status@.len() == 0 && final(self).confirm == 1
            },
            !quit_key(key@) && key@ != "up"@ && key@ != "k"@ && key@ != "down"@ && key@ != "j"@ && key@ != " "@
                && key@ != "a"@ && key@ != "enter"@ ==> c == Cmd::Nothing && final(self).phase == Phase::Findings
                && final(self).selected == old(self).selected && final(self).cursor == old(self).cursor,
    {
        proof {
            lemma_key_names();
        }
        let k = chars_of(key);
        if eq_str(k.as_slice(), "ctrl+c") || eq_str(k.as_slice(), "q") {
            self.done = true;
            return Cmd::Quit;
        }
        if eq_str(k.as_slice(), "up") || eq_str(k.as_slice(), "k") {
            self.cursor = prev_selectable(self.findings.as_slice(), self.cursor);
            proof {
                lemma_prev_sel(self.findings@, old(self).cursor as int);
            }
            return Cmd::Nothing;
        }
        if eq_str(k.as_slice(), "down") || eq_str(k.as_slice(), "j") {
            self.cursor = next_selectable(self.findings.as_slice(), self.cursor);
            proof {
                lemma_next_sel(self.findings@, old(self).cursor + 1);
            }
            return Cmd::Nothing;
        }
        if eq_str(k.as_slice(), " ") {
            if self.cursor < self.findings.len() && self.findings[self.cursor].selectable {
                let on = self.selected[self.cursor];
                self.selected.set(self.cursor, !on);
            }
            return Cmd::Nothing;
        }
        if eq_str(k.as_slice(), "a") {
            let mut all_on = true;
            let mut i: usize = 0;
            while i < self.findings.len()
                invariant
                    i <= self.findings@.len(),
                    self.selected@.len() == self.findings@.len(),
                    all_on == forall|j: int| 0 <= j < i && safe(#[trigger] self.findings@[j]) ==> self.selected@[j],
                decreases self.findings.len() - i,
            {
                if self.findings[i].selectable && !self.findings[i].opt_in && !self.selected[i] {
                    all_on = false;
                }
                i += 1;
            }
            let ghost sel0 = self.selected@;
            let mut j: usize = 0;
            while j < self.findings.len()
                invariant
                    j <= self.findings@.len(),
                    self.selected@.len() == self.findings@.len(),
                    sel0.len() == self.findings@.len(),
                    all_on == all_safe_on(self.findings@, sel0),
                    forall|m: int| 0 <= m < j ==> self.selected@[m] == if safe(self.findings@[m]) { !all_on } else { sel0[m] },
                    forall|m: int| j <= m < self.selected@.len() ==> self.selected@[m] == sel0[m],
                    self.findings == old(self).findings,
                    self.phase == old(self).phase && self.cursor == old(self).cursor && self.confirm == old(self).confirm,
                    self.report == old(self).report && self.after == old(self).after && self.snap == old(self).snap,
                    self.opts == old(self).opts && self.results == old(self).results,
                    self.width == old(self).width && self.height == old(self).height,
                decreases self.findings.len() - j,
            {
                if self.findings[j].selectable && !self.findings[j].opt_in {
                    self.selected.set(j, !all_on);
                }
                j += 1;
            }
            assert(self.selected@ =~= toggled_safe(self.findings@, sel0));
            return Cmd::Nothing;
        }
        if eq_str(k.as_slice(), "enter") {
            if self.count_selected() == 0 {
                self.status = String::from_str("Select at least one finding, or q to quit.");
                return Cmd::Nothing;
            }
            self.status = String::new();
            self.phase = Phase::Confirm;
            self.confirm = 1;
            return Cmd::Nothing;
        }
        Cmd::Nothing
    }

    fn key_confirm(&mut self, key: &str) -> (c: Cmd)
        requires
            old(self).wf(),
            old(self).phase == Phase::Confirm,
        ensures
            final(self).wf(),
            final(self).keeps_data(&*old(self)),
            final(self).selected == old(self).selected && final(self).cursor == old(self).cursor,
            final(self).done == old(self).done,
            quit_key(key@) ==> c == Cmd::Nothing && final(self).phase == Phase::Findings,
            flip_key(key@) ==> c == Cmd::Nothing && final(self).phase == Phase::Confirm && final(self).confirm == 1
                - old(self).confirm,
            key@ == "enter"@ ==> if old(self).confirm != 0 {
                c == Cmd::Nothing && final(self).phase == Phase::Findings
            } else {
                c == Cmd::Apply && final(self).phase == Phase::Apply && final(self).applying
            },
            !quit_key(key@) && !flip_key(key@) && key@ != "enter"@ ==> c == Cmd::Nothing && final(self).phase
                == Phase::Confirm && final(self).confirm == old(self).confirm,
    {
        proof {
            lemma_key_names();
        }
        let k = chars_of(key);
        if eq_str(k.as_slice(), "ctrl+c") || eq_str(k.as_slice(), "q") {
            self.phase = Phase::Findings;
            return Cmd::Nothing;
        }
        if eq_str(k.as_slice(), "left") || eq_str(k.as_slice(), "h") || eq_str(k.as_slice(), "right") || eq_str(
            k.as_slice(),
            "l",
        ) || eq_str(k.as_slice(), "tab") {
            self.confirm = 1 - self.confirm;
            return Cmd::Nothing;
        }
        if eq_str(k.as_slice(), "enter") {
            if self.confirm != 0 {
                self.phase = Phase::Findings;
                return Cmd::Nothing;
            }
            self.phase = Phase::Apply;
            self.applying = true;
            return Cmd::Apply;
        }
        Cmd::Nothing
    }

    /// Handles a key, by phase. Scanning: ctrl+c or q quits. Findings: ctrl+c
    /// or q quits, up/k and down/j move between selectable rows, space
    /// toggles the row, `a` toggles every safe finding, enter goes to the
    /// confirm dialog (NO armed) once something is selected. Confirm: ctrl+c
    /// or q goes back, the arrow keys, h, l and tab flip the cursor, enter
    /// on NO goes back and on YES applies. Applying: ctrl+c only explains
    /// that active maintenance cannot be interrupted. Rescored: enter, q or
    /// ctrl+c quits.
    pub fn handle_key(&mut self, key: &str) -> (c: Cmd)
        requires
            old(self).wf(),
        ensures
            final(self).wf(),
            handled_key(*old(self), *final(self), key@, c),
    {
        proof {
            lemma_key_names();
        }
        let k = chars_of(key);
        match self.phase {
            Phase::Scan => {
                if eq_str(k.as_slice(), "ctrl+c") || eq_str(k.as_slice(), "q") {
                    self.done = true;
                    return Cmd::Quit;
                }
                Cmd::Nothing
            },
            Phase::Findings => self.key_findings(key),
            Phase::Confirm => self.key_confirm(key),
            Phase::Apply => {
                if eq_str(k.as_slice(), "ctrl+c") {
                    self.status = String::from_str(
                        "Active maintenance cannot be interrupted safely; waiting for completion.",
                    );
                }
                Cmd::Nothing
            },
            Phase::Rescore => {
                if eq_str(k.as_slice(), "enter") || eq_str(k.as_slice(), "q") || eq_str(k.as_slice(), "ctrl+c") {
                    self.done = true;
                    return Cmd::Quit;
                }
                Cmd::Nothing
            },
        }
    }

    /// Handles a message: a window size is recorded; a scan's report
    /// becomes the findings, preselecting the selectable ones selected by
    /// default, the cursor on the first selectable row; an apply's results
    /// are recorded and a rescore asked for; a rescore's reports are
    /// recorded; keys go to `handle_key`.
    pub fn update(&mut self, msg: Msg) -> (c: Cmd)
        requires
            old(self).wf(),
        ensures
            final(self).wf(),
            msg matches Msg::WindowSize { width, height } ==> c == Cmd::Nothing && final(self).width == width
                && final(self).height == height && final(self).phase == old(self).phase,
            msg matches Msg::Scanned { snap, rep } ==> c == Cmd::Nothing && final(self).snap == snap
                && final(self).report == rep && final(self).findings@ == rep.findings@ && final(self).selected@
                == default_selection(rep.findings@) && final(self).cursor == first_sel(rep.findings@, 0)
                && final(self).phase == Phase::Findings,
            msg matches Msg::Applied { results, before } ==> c == Cmd::Rescore && final(self).results == results
                && !final(self).applying && final(self).phase == Phase::Rescore,
            msg matches Msg::Rescored { before, after } ==> c == Cmd::Nothing && final(self).after == after
                && final(self).report == before && final(self).phase == old(self).phase,
            msg matches Msg::Key(k) ==> handled_key(*old(self), *final(self), k@, c),
    {
        match msg {
            Msg::WindowSize { width, height } => {
                self.width = width;
                self.height = height;
                Cmd::Nothing
            },
            Msg::Scanned { snap, rep } => {
                let fs = copy_findings(rep.findings.as_slice());
                let mut sel: Vec<bool> = Vec::new();
                let mut i: usize = 0;
                while i < fs.len()
                    invariant
                        i <= fs@.len(),
                        sel@ == default_selection(fs@).subrange(0, i as int),
                    decreases fs.len() - i,
                {
                    sel.push(fs[i].selectable && fs[i].default_selected);
                    assert(sel@ =~= default_selection(fs@).subrange(0, i + 1));
                    i += 1;
                }
                assert(sel@ =~= default_selection(fs@));
                let cur = first_selectable(fs.as_slice(), 0);
                proof {
                    lemma_next_sel(fs@, 0);
                }
                self.snap = snap;
                self.report = rep;
                self.findings = fs;
                self.selected = sel;
                self.cursor = cur;
                self.phase = Phase::Findings;
                Cmd::Nothing
            },
            Msg::Applied { results, before } => {
                self.results = results;
                self.applying = false;
                self.phase = Phase::Rescore;
                Cmd::Rescore
            },
            Msg::Rescored { before, after } => {
                self.after = after;
                self.report = before;
                Cmd::Nothing
            },
            Msg::Key(key) => self.handle_key(key.as_str()),
        }
    }
}

/// What a key does in each phase (see [`AuditModel::handle_key`]): the
/// report, findings and other data are kept.
pub open spec fn handled_key(o: AuditModel, f: AuditModel, key: Seq<char>, c: Cmd) -> bool {
    &&& f.keeps_data(&o)
    &&& o.phase == Phase::Scan ==> if quit_key(key) {
        c == Cmd::Quit && f.done && f.phase == Phase::Scan
    } else {
        c == Cmd::Nothing && f.done == o.done && f.phase == Phase::Scan
    }
    &&& o.phase == Phase::Findings ==> {
        &&& quit_key(key) ==> c == Cmd::Quit && f.done && f.selected == o.selected
        &&& (key == "up"@ || key == "k"@) ==> c == Cmd::Nothing && f.selected == o.selected
            && f.cursor == if prev_sel(o.findings@, o.cursor as int) >= 0 {
            prev_sel(o.findings@, o.cursor as int)
        } else {
            o.cursor as int
        }
        &&& (key == "down"@ || key == "j"@) ==> c == Cmd::Nothing && f.selected
            == o.selected && f.cursor == if next_sel(o.findings@, o.cursor + 1)
            >= 0 {
            next_sel(o.findings@, o.cursor + 1)
        } else {
            o.cursor as int
        }
        &&& key == " "@ ==> c == Cmd::Nothing && f.selected@ =~= if o.cursor
            < o.findings@.len() && o.findings@[o.cursor as int].selectable {
            o.selected@.update(o.cursor as int, !o.selected@[o.cursor as int])
        } else {
            o.selected@
        }
        &&& key == "a"@ ==> c == Cmd::Nothing && f.selected@ =~= toggled_safe(
            o.findings@,
            o.selected@,
        )
        &&& key == "enter"@ ==> c == Cmd::Nothing && if count_sel(
            o.findings@,
            o.selected@,
            o.findings@.len() as int,
        ) == 0 {
            f.phase == Phase::Findings && f.status@
                =~= "Select at least one finding, or q to quit."@
        } else {
            f.phase == Phase::Confirm && f.status@.len() == 0 && f.confirm == 1
        }
    }
    &&& o.phase == Phase::Confirm ==> {
        &&& quit_key(key) ==> c == Cmd::Nothing && f.phase == Phase::Findings
        &&& flip_key(key) ==> c == Cmd::Nothing && f.confirm == 1 - o.confirm
        &&& key == "enter"@ ==> if o.confirm != 0 {
            c == Cmd::Nothing && f.phase == Phase::Findings
        } else {
            c == Cmd::Apply && f.phase == Phase::Apply && f.applying
        }
        &&& f.selected == o.selected && f.done == o.done
    }
    &&& o.phase == Phase::Apply ==> c == Cmd::Nothing && f.phase == Phase::Apply
        && f.done == o.done && f.applying == o.applying && if key
        == "ctrl+c"@ {
        f.status@ =~= "Active maintenance cannot be interrupted safely; waiting for completion."@
    } else {
        f.status == o.status
    }
    &&& o.phase == Phase::Rescore ==> if key == "enter"@ || quit_key(key) {
        c == Cmd::Quit && f.done
    } else {
        c == Cmd::Nothing && f.done == o.done
    }
}

/// A finding's selection mark: `✓` when selected, blank when not, `·` for
/// information only.
pub open spec fn mark_text(f: Finding, on: bool) -> Seq<char> {
    if f.selectable {
        if on { "✓"@ } else { " "@ }
    } else {
        "·"@
    }
}

/// What follows a finding's title: its size when it has one, and the
/// opt-in and information notes.
pub open spec fn row_notes(f: Finding) -> Seq<char> {
    (if f.bytes > 0 { "  "@ + human(f.bytes as int) } else { Seq::empty() }) + (if f.opt_in {
        " (opt-in)"@
    } else {
        Seq::empty()
    }) + (if !f.selectable { " (info)"@ } else { Seq::empty() })
}

/// A finding's row on the findings screen: the cursor, the selection mark,
/// the severity, the title and the notes.
pub open spec fn row_text(fs: Seq<Finding>, sel: Seq<bool>, cursor: int, i: int) -> Seq<char> {
    (if i == cursor { "  ▶ "@ } else { "    "@ }) + mark_text(fs[i], sel[i]) + " ["@ + severity_text(fs[i].severity)
        + "] "@ + fs[i].title@ + row_notes(fs[i]) + "\n"@
}

/// The rows of the first `k` findings.
pub open spec fn rows_text(fs: Seq<Finding>, sel: Seq<bool>, cursor: int, k: int) -> Seq<char>
    decreases k,
{
    if k <= 0 {
        Seq::empty()
    } else {
        rows_text(fs, sel, cursor, k - 1) + row_text(fs, sel, cursor, k - 1)
    }
}

/// The list of findings about to be applied.
pub open spec fn will_text(fs: Seq<Finding>) -> Seq<char>
    decreases fs.len(),
{
    if fs.len() == 0 {
        Seq::empty()
    } else {
        will_text(fs.drop_last()) + "    • "@ + fs.last().title@ + " ("@ + fs.last().action@ + ")\n"@
    }
}

impl AuditModel {
    /// The findings screen.
    pub open spec fn findings_text(&self) -> Seq<char> {
        let head = "\n\n  mu audit — findings\n"@ + "  Health "@ + dec_int(self.report.health as int) + "/100  •  Disk / "@
            + self.report.disk_free_pct_text@ + "% free  •  Reclaimable "@ + human(self.report.reclaimable_bytes as int)
            + "\n\n"@;
        let n = self.findings@.len() as int;
        if n == 0 {
            head + "  ✅ No issues found.\n\n\n"@ + "  q to quit\n"@
        } else {
            head + rows_text(self.findings@, self.selected@, self.cursor as int, n) + "\n"@ + "  Selected: "@ + dec(
                count_sel(self.findings@, self.selected@, n),
            ) + "  •  ~"@ + human(clamp64(sel_sum(self.findings@, self.selected@, n)) as int) + "\n"@ + (if self.status@.len()
                > 0 {
                "  "@ + self.status@ + "\n"@
            } else {
                Seq::empty()
            }) + "\n\n"@ + "  j/k move  •  space toggle  •  a safe-all  •  enter continue  •  q quit\n"@
        }
    }

    /// The confirm screen as text.
    pub open spec fn confirm_text(&self) -> Seq<char> {
        "\n\n  Confirm apply\n\n"@ + (if self.opts.dry_run { "  Mode: DRY RUN (no changes)\n\n"@ } else { Seq::empty() })
            + "  Will apply:\n"@ + will_text(sel_list(self.findings@, self.selected@, self.findings@.len() as int))
            + "\n  Sudo may be required for apt/snap/kernel/journal actions.\n"@ + "  User files go to trash when cleaned.\n\n"@
            + "  YES  NO\n\n\n"@ + "  ←/→  •  Enter  •  q back\n"@
    }

    /// The screen after applying.
    pub open spec fn rescore_text(&self) -> Seq<char> {
        let failed = self.results@.filter(|r: ApplyResult| r.err is Some).len();
        "\n\n  Audit complete\n\n"@ + (if failed > 0 {
            "  ⚠️  "@ + dec(failed) + " action(s) had errors.\n\n"@
        } else if self.opts.dry_run {
            "  Dry run finished — nothing modified.\n\n"@
        } else {
            "  ✅ Actions finished.\n\n"@
        }) + "  Health:      "@ + dec_int(self.report.health as int) + " → "@ + dec_int(self.after.health as int) + "\n"@
            + "  Disk free:   "@ + self.report.disk_free_pct_text@ + "% → "@ + self.after.disk_free_pct_text@ + "%\n"@
            + "  Reclaimable: "@ + human(self.report.reclaimable_bytes as int) + " → "@ + human(
            self.after.reclaimable_bytes as int,
        ) + "\n"@ + "\n\n"@ + "  Enter or q to exit\n"@
    }

    /// The screen while applying.
    pub open spec fn apply_text(&self) -> Seq<char> {
        "\n\n  Applying fixes…\n\n"@ + "  Please wait."@ + (if self.status@.len() > 0 {
            "\n  "@ + self.status@
        } else {
            Seq::empty()
        }) + "\n\n\n  active package operations are allowed to finish\n"@
    }

    /// The screen for the current phase, as text.
    pub open spec fn view_text(&self) -> Seq<char> {
        match self.phase {
            Phase::Scan => "\n\n  mu audit\n\n  🔍 Scanning system…\n\n\n  q to quit\n"@,
            Phase::Findings => self.findings_text(),
            Phase::Confirm => self.confirm_text(),
            Phase::Apply => self.apply_text(),
            Phase::Rescore => self.rescore_text(),
        }
    }

    fn push_notes(t: &mut Vec<char>, f: &Finding)
        ensures
            final(t)@ == old(t)@ + row_notes(*f),
    {
        let ghost start = t@;
        if f.bytes > 0 {
            push_str(t, "  ");
            let h = chars_of(human_size(f.bytes).as_str());
            push_all(t, h.as_slice());
        }
        let ghost a = t@;
        if f.opt_in {
            push_str(t, " (opt-in)");
        }
        let ghost b = t@;
        if !f.selectable {
            push_str(t, " (info)");
        }
        assert(t@ =~= start + row_notes(*f));
    }

    #[verifier::spinoff_prover]
    #[verifier::rlimit(30)]
    fn push_row(&self, t: &mut Vec<char>, i: usize)
        requires
            self.wf(),
            i < self.findings@.len(),
        ensures
            final(t)@ == old(t)@ + row_text(self.findings@, self.selected@, self.cursor as int, i as int),
    {
        let ghost start = t@;
        let f = &self.findings[i];
        if i == self.cursor {
            push_str(t, "  ▶ ");
        } else {
            push_str(t, "    ");
        }
        let ghost p = t@;
        if f.selectable {
            if self.selected[i] {
                push_str(t, "✓");
            } else {
                push_str(t, " ");
            }
        } else {
            push_str(t, "·");
        }
        assert(t@ == p + mark_text(*f, self.selected@[i as int]));
        push_str(t, " [");
        push_str(t, f.severity.as_str());
        push_str(t, "] ");
        let title = chars_of(f.title.as_str());
        push_all(t, title.as_slice());
        Self::push_notes(t, f);
        push_str(t, "\n");
        assert(t@ =~= start + row_text(self.findings@, self.selected@, self.cursor as int, i as int));
    }

    fn push_health_head(&self, t: &mut Vec<char>)
        ensures
            final(t)@ == old(t)@ + "\n\n  mu audit — findings\n"@ + "  Health "@ + dec_int(self.report.health as int)
                + "/100  •  Disk / "@ + self.report.disk_free_pct_text@ + "% free  •  Reclaimable "@ + human(
                self.report.reclaimable_bytes as int,
            ) + "\n\n"@,
    {
        push_str(t, "\n\n  mu audit — findings\n");
        push_str(t, "  Health ");
        let h = fmt_i64(self.report.health);
        push_all(t, h.as_slice());
        push_str(t, "/100  •  Disk / ");
        let d = chars_of(self.report.disk_free_pct_text.as_str());
        push_all(t, d.as_slice());
        push_str(t, "% free  •  Reclaimable ");
        let r = chars_of(human_size(self.report.reclaimable_bytes).as_str());
        push_all(t, r.as_slice());
        push_str(t, "\n\n");
    }

    fn findings_view(&self) -> (v: Vec<char>)
        requires
            self.wf(),
        ensures
            v@ == self.findings_text(),
    {
        let mut t: Vec<char> = Vec::new();
        self.push_health_head(&mut t);
        if self.findings.len() == 0 {
            push_str(&mut t, "  ✅ No issues found.\n\n\n");
            push_str(&mut t, "  q to quit\n");
            return t;
        }
        let ghost head = t@;
        let mut i: usize = 0;
        while i < self.findings.len()
            invariant
                self.wf(),
                i <= self.findings@.len(),
                t@ == head + rows_text(self.findings@, self.selected@, self.cursor as int, i as int),
            decreases self.findings.len() - i,
        {
            self.push_row(&mut t, i);
            i += 1;
        }
        push_str(&mut t, "\n");
        push_str(&mut t, "  Selected: ");
        let c = fmt_u64(self.count_selected() as u64);
        push_all(&mut t, c.as_slice());
        push_str(&mut t, "  •  ~");
        let b = chars_of(human_size(self.selected_bytes()).as_str());
        push_all(&mut t, b.as_slice());
        push_str(&mut t, "\n");
        if self.status.as_str().is_empty() == false {
            push_str(&mut t, "  ");
            let s = chars_of(self.status.as_str());
            push_all(&mut t, s.as_slice());
            push_str(&mut t, "\n");
        }
        push_str(&mut t, "\n\n");
        push_str(&mut t, "  j/k move  •  space toggle  •  a safe-all  •  enter continue  •  q quit\n");
        assert(t@ =~= self.findings_text());
        t
    }

    fn push_will(&self, t: &mut Vec<char>, fs: &Vec<Finding>)
        ensures
            final(t)@ == old(t)@ + will_text(fs@),
    {
        let ghost start = t@;
        let mut i: usize = 0;
        while i < fs.len()
            invariant
                i <= fs@.len(),
                t@ == start + will_text(fs@.subrange(0, i as int)),
            decreases fs.len() - i,
        {
            push_str(t, "    • ");
            let a = chars_of(fs[i].title.as_str());
            push_all(t, a.as_slice());
            push_str(t, " (");
            let b = chars_of(fs[i].action.as_str());
            push_all(t, b.as_slice());
            push_str(t, ")\n");
            assert(fs@.subrange(0, i + 1).drop_last() =~= fs@.subrange(0, i as int));
            assert(t@ =~= start + will_text(fs@.subrange(0, i + 1)));
            i += 1;
        }
        assert(fs@.subrange(0, i as int) =~= fs@);
    }

    fn confirm_view(&self) -> (v: Vec<char>)
        requires
            self.wf(),
        ensures
            v@ == self.confirm_text(),
    {
        let mut t: Vec<char> = Vec::new();
        push_str(&mut t, "\n\n  Confirm apply\n\n");
        if self.opts.dry_run {
            push_str(&mut t, "  Mode: DRY RUN (no changes)\n\n");
        }
        push_str(&mut t, "  Will apply:\n");
        let sel = self.selected_findings();
        self.push_will(&mut t, &sel);
        push_str(&mut t, "\n  Sudo may be required for apt/snap/kernel/journal actions.\n");
        push_str(&mut t, "  User files go to trash when cleaned.\n\n");
        push_str(&mut t, "  YES  NO\n\n\n");
        push_str(&mut t, "  ←/→  •  Enter  •  q back\n");
        assert(t@ =~= self.confirm_text());
        t
    }

    fn rescore_view(&self) -> (v: Vec<char>)
        ensures
            v@ == self.rescore_text(),
    {
        let mut t: Vec<char> = Vec::new();
        push_str(&mut t, "\n\n  Audit complete\n\n");
        let failed = count_apply_errors(self.results.as_slice());
        if failed > 0 {
            push_str(&mut t, "  ⚠️  ");
            let n = fmt_u64(failed as u64);
            push_all(&mut t, n.as_slice());
            push_str(&mut t, " action(s) had errors.\n\n");
        } else if self.opts.dry_run {
            push_str(&mut t, "  Dry run finished — nothing modified.\n\n");
        } else {
            push_str(&mut t, "  ✅ Actions finished.\n\n");
        }
        push_str(&mut t, "  Health:      ");
        let a = fmt_i64(self.report.health);
        push_all(&mut t, a.as_slice());
        push_str(&mut t, " → ");
        let b = fmt_i64(self.after.health);
        push_all(&mut t, b.as_slice());
        push_str(&mut t, "\n");
        push_str(&mut t, "  Disk free:   ");
        let c = chars_of(self.report.disk_free_pct_text.as_str());
        push_all(&mut t, c.as_slice());
        push_str(&mut t, "% → ");
        let d = chars_of(self.after.disk_free_pct_text.as_str());
        push_all(&mut t, d.as_slice());
        push_str(&mut t, "%\n");
        push_str(&mut t, "  Reclaimable: ");
        let e = chars_of(human_size(self.report.reclaimable_bytes).as_str());
        push_all(&mut t, e.as_slice());
        push_str(&mut t, " → ");
        let f = chars_of(human_size(self.after.reclaimable_bytes).as_str());
        push_all(&mut t, f.as_slice());
        push_str(&mut t, "\n");
        push_str(&mut t, "\n\n");
        push_str(&mut t, "  Enter or q to exit\n");
        assert(t@ =~= self.rescore_text());
        t
    }

    /// The screen for the current phase, as text.
    pub fn view(&self) -> (s: String)
        requires
            self.wf(),
        ensures
            s@ == self.view_text(),
    {
        match self.phase {
            Phase::Scan => String::from_str("\n\n  mu audit\n\n  🔍 Scanning system…\n\n\n  q to quit\n"),
            Phase::Findings => string_of(self.findings_view().as_slice()),
            Phase::Confirm => string_of(self.confirm_view().as_slice()),
            Phase::Apply => {
                let mut t: Vec<char> = Vec::new();
                push_str(&mut t, "\n\n  Applying fixes…\n\n");
                push_str(&mut t, "  Please wait.");
                if self.status.as_str().is_empty() == false {
                    push_str(&mut t, "\n  ");
                    let s = chars_of(self.status.as_str());
                    push_all(&mut t, s.as_slice());
                }
                push_str(&mut t, "\n\n\n  active package operations are allowed to finish\n");
                assert(t@ =~= self.apply_text());
                string_of(t.as_slice())
            },
            Phase::Rescore => string_of(self.rescore_view().as_slice()),
        }
    }

    /// The confirm screen as styled lines, the armed button highlighted.
    pub open spec fn confirm_lines_view(&self) -> Seq<LineV> {
        let yes = if self.confirm == 0 { Tone::ButtonOn } else { Tone::ButtonOff };
        let no = if self.confirm == 0 { Tone::ButtonOff } else { Tone::ButtonOn };
        seq![blank(), blank(), one("  Confirm apply"@, Tone::BoldPrimary), blank()] + (if self.opts.dry_run {
            seq![one("  Mode: DRY RUN (no changes)"@, Tone::Plain), blank()]
        } else {
            Seq::empty()
        }) + seq![one("  Will apply:"@, Tone::Plain)] + sel_list(
            self.findings@,
            self.selected@,
            self.findings@.len() as int,
        ).map_values(|f: Finding| one("    • "@ + f.title@ + " ("@ + f.action@ + ")"@, Tone::Plain)) + seq![
            blank(),
            one("  Sudo may be required for apt/snap/kernel/journal actions."@, Tone::Plain),
            one("  User files go to trash when cleaned."@, Tone::Plain),
            blank(),
            seq![("  "@, Tone::Plain), (" YES "@, yes), ("  "@, Tone::Plain), (" NO "@, no)],
            blank(),
            blank(),
            one("  ←/→  •  Enter  •  q back"@, Tone::Faint),
        ]
    }

    /// The confirm screen as styled lines, the armed button highlighted.
    pub fn view_confirm_lines(&self) -> (ls: Vec<Vec<Span>>)
        requires
            self.wf(),
        ensures
            lines_view(ls@) == self.confirm_lines_view(),
    {
        let yes = if self.confirm == 0 { Tone::ButtonOn } else { Tone::ButtonOff };
        let no = if self.confirm == 0 { Tone::ButtonOff } else { Tone::ButtonOn };
        let mut ls: Vec<Vec<Span>> = Vec::new();
        push_blank(&mut ls);
        push_blank(&mut ls);
        push_lit(&mut ls, "  Confirm apply", Tone::BoldPrimary);
        push_blank(&mut ls);
        if self.opts.dry_run {
            push_lit(&mut ls, "  Mode: DRY RUN (no changes)", Tone::Plain);
            push_blank(&mut ls);
        }
        push_lit(&mut ls, "  Will apply:", Tone::Plain);
        let ghost head = lines_view(ls@);
        let sel = self.selected_findings();
        let mut i: usize = 0;
        while i < sel.len()
            invariant
                i <= sel@.len(),
                lines_view(ls@) == head + sel@.subrange(0, i as int).map_values(
                    |f: Finding| one("    • "@ + f.title@ + " ("@ + f.action@ + ")"@, Tone::Plain),
                ),
            decreases sel.len() - i,
        {
            let mut t: Vec<char> = Vec::new();
            push_str(&mut t, "    • ");
            let a = chars_of(sel[i].title.as_str());
            push_all(&mut t, a.as_slice());
            push_str(&mut t, " (");
            let b = chars_of(sel[i].action.as_str());
            push_all(&mut t, b.as_slice());
            push_str(&mut t, ")");
            push_one(&mut ls, t.as_slice(), Tone::Plain);
            assert(sel@.subrange(0, i + 1).map_values(
                |f: Finding| one("    • "@ + f.title@ + " ("@ + f.action@ + ")"@, Tone::Plain),
            ) =~= sel@.subrange(0, i as int).map_values(
                |f: Finding| one("    • "@ + f.title@ + " ("@ + f.action@ + ")"@, Tone::Plain),
            ).push(one(t@, Tone::Plain)));
            i += 1;
        }
        assert(sel@.subrange(0, i as int) =~= sel@);
        push_blank(&mut ls);
        push_lit(&mut ls, "  Sudo may be required for apt/snap/kernel/journal actions.", Tone::Plain);
        push_lit(&mut ls, "  User files go to trash when cleaned.", Tone::Plain);
        push_blank(&mut ls);
        let mut b: Vec<Span> = Vec::new();
        b.push(Span { text: String::from_str("  "), tone: Tone::Plain });
        b.push(Span { text: String::from_str(" YES "), tone: yes });
        b.push(Span { text: String::from_str("  "), tone: Tone::Plain });
        b.push(Span { text: String::from_str(" NO "), tone: no });
        assert(line_view(b@) =~= seq![("  "@, Tone::Plain), (" YES "@, yes), ("  "@, Tone::Plain), (" NO "@, no)]);
        push_line(&mut ls, b);
        push_blank(&mut ls);
        push_blank(&mut ls);
        push_lit(&mut ls, "  ←/→  •  Enter  •  q back", Tone::Faint);
        assert(lines_view(ls@) =~= self.confirm_lines_view());
        ls
    }

    /// The screen as styled lines: the confirm screen with its buttons, the
    /// others as their text's lines.
    pub open spec fn screen(&self) -> Seq<LineV> {
        if self.phase == Phase::Confirm {
            self.confirm_lines_view()
        } else {
            lines(self.view_text()).map_values(|l: Seq<char>| one(l, Tone::Plain))
        }
    }

    /// The screen as styled lines.
    pub fn view_lines(&self) -> (ls: Vec<Vec<Span>>)
        requires
            self.wf(),
        ensures
            lines_view(ls@) == self.screen(),
    {
        if self.phase == Phase::Confirm {
            return self.view_confirm_lines();
        }
        let text = self.view();
        let c = chars_of(text.as_str());
        let parts = split_lines(c.as_slice());
        let mut ls: Vec<Vec<Span>> = Vec::new();
        let mut i: usize = 0;
        while i < parts.len()
            invariant
                i <= parts@.len(),
                views(parts@) == lines(self.view_text()),
                lines_view(ls@) == views(parts@).subrange(0, i as int).map_values(|l: Seq<char>| one(l, Tone::Plain)),
            decreases parts.len() - i,
        {
            push_one(&mut ls, parts[i].as_slice(), Tone::Plain);
            assert(views(parts@).subrange(0, i + 1).map_values(|l: Seq<char>| one(l, Tone::Plain)) =~= views(
                parts@,
            ).subrange(0, i as int).map_values(|l: Seq<char>| one(l, Tone::Plain)).push(one(parts@[i as int]@, Tone::Plain)));
            i += 1;
        }
        assert(views(parts@).subrange(0, i as int) =~= views(parts@));
        ls
    }
}

/// The name the wizard knows a key event by: `ctrl+c`; for an unmodified
/// key `enter`, `up`, `down`, `left`, `right`, `tab`, `shift+tab`, or a
/// printable character itself; nothing for other keys or other modified
/// ones.
pub open spec fn key_name_of(k: crate::tui::KeyEvent) -> Option<Seq<char>> {
    if crate::tui::ctrl_c(k) {
        Some("ctrl+c"@)
    } else if k.ctrl || k.alt {
        None
    } else {
        match k.code {
            crate::tui::Key::Enter => Some("enter"@),
            crate::tui::Key::Up => Some("up"@),
            crate::tui::Key::Down => Some("down"@),
            crate::tui::Key::Left => Some("left"@),
            crate::tui::Key::Right => Some("right"@),
            crate::tui::Key::Tab => Some("tab"@),
            crate::tui::Key::BackTab => Some("shift+tab"@),
            crate::tui::Key::Char(c) => if crate::tui::uninstall::is_control(c) {
                None
            } else {
                Some(seq![c])
            },
            _ => None,
        }
    }
}

/// The wizard's name for a key event, if it has one.
pub fn key_name(k: crate::tui::KeyEvent) -> (r: Option<String>)
    ensures
        match key_name_of(k) {
            Some(n) => r matches Some(s) && s@ == n,
            None => r is None,
        },
{
    if crate::tui::is_ctrl_c(&k) {
        return Some(String::from_str("ctrl+c"));
    }
    if k.ctrl || k.alt {
        return None;
    }
    match k.code {
        crate::tui::Key::Enter => Some(String::from_str("enter")),
        crate::tui::Key::Up => Some(String::from_str("up")),
        crate::tui::Key::Down => Some(String::from_str("down")),
        crate::tui::Key::Left => Some(String::from_str("left")),
        crate::tui::Key::Right => Some(String::from_str("right")),
        crate::tui::Key::Tab => Some(String::from_str("tab")),
        crate::tui::Key::BackTab => Some(String::from_str("shift+tab")),
        crate::tui::Key::Char(c) => {
            if (c as u32) <= 0x1F || (0x7F <= (c as u32) && (c as u32) <= 0x9F) {
                None
            } else {
                let mut v: Vec<char> = Vec::new();
                v.push(c);
                let s = string_of(v.as_slice());
                assert(v@ =~= seq![c]);
                Some(s)
            }
        },
        _ => None,
    }
}

} // verus!
