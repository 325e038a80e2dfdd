//! The clean workflow's state machine: scanning, summary, confirm (NO by
//! default), running, done. Scanning and executing targets are done by the
//! caller on the commands this model returns; it hands back the outcomes as
//! messages.

use vstd::prelude::*;
use super::{CleanTarget, Options};
use crate::error::{Error, message_of};
use crate::fmt::{dec, fmt_u64};
use crate::size::{human, human_size};
use crate::text::{chars_of, push_all, push_right, push_spaces, push_str, right_aligned, spaces, string_of};
use crate::tui::line::{
    blank, frame_text, line_view, lines_view, one, push_blank, push_line, push_lit, push_one, spinner_frame,
    LineV, Span, Tone,
};

verus! {

/// The workflow's screen.
#[derive(Clone, Copy, PartialEq, Eq, Debug, Structural)]
pub enum FlowState {
    Scanning,
    Summary,
    Confirm,
    Running,
    Done,
}

/// The status of one target while cleaning.
#[derive(Clone, Copy, PartialEq, Eq, Debug, Structural)]
pub enum RowStatus {
    Pending,
    Running,
    Done,
    Failed,
    Skipped,
}

/// One target's row while cleaning.
#[derive(Debug)]
pub struct RunRow {
    pub label: String,
    pub size: i64,
    pub status: RowStatus,
    pub err: Option<Error>,
}

/// One target's scan outcome. The preview items are kept even when the
/// preview failed.
#[derive(Debug)]
pub struct ScanTargetMsg {
    pub idx: usize,
    pub size: i64,
    pub items: Vec<String>,
    pub err: Option<Error>,
    pub preview_err: Option<Error>,
}

/// One target's execution outcome.
#[derive(Debug)]
pub struct ItemDoneMsg {
    pub idx: usize,
    pub err: Option<Error>,
}

/// The keys the workflow tells apart: Ctrl+C; `q` or Esc; Enter or Space;
/// and the YES/NO toggles.
#[derive(Clone, Copy, PartialEq, Eq, Debug, Structural)]
pub enum Key {
    CtrlC,
    Quit,
    Select,
    Flip,
}

/// What the workflow is told.
#[derive(Debug)]
pub enum Msg {
    WindowSize { width: usize },
    SpinnerTick,
    ScanTarget(ScanTargetMsg),
    ItemDone(ItemDoneMsg),
    Key(Key),
    Noop,
}

/// What the workflow asks for next.
#[derive(Clone, Copy, PartialEq, Eq, Debug, Structural)]
pub enum Cmd {
    /// Keep the spinner animating.
    SpinnerTick,
    /// Scan target `i`.
    Scan(usize),
    /// Execute target `i`.
    Run(usize),
    /// Quit.
    Quit,
}

/// How a target is executed: a real run of a target that needs sudo gets
/// the terminal (so the password prompt works); the rest run in place.
#[derive(Clone, Copy, PartialEq, Eq, Debug, Structural)]
pub enum RunDispatch {
    ExecTerminal,
    Plain,
}

/// One scanned target's size and preview items.
#[derive(Debug)]
pub struct Scanned {
    pub size: i64,
    pub items: Vec<String>,
}

/// The workflow's state.
pub struct FlowModel {
    pub opts: Options,
    pub targets: Vec<CleanTarget>,
    pub state: FlowState,
    /// Terminal width.
    pub width: usize,
    /// Spinner frame (ten frames).
    pub spinner_idx: usize,
    /// `results[i]` is the scan of `targets[i]`.
    pub results: Vec<Scanned>,
    pub total: i64,
    pub scan_errs: Vec<Error>,
    /// 0 is YES, 1 is NO.
    pub confirm_cursor: usize,
    pub rows: Vec<RunRow>,
    pub freed: i64,
    pub failed: usize,
    /// Ctrl+C while running: finish the current target, skip the rest.
    pub aborted: bool,
    /// The one-line summary.
    pub summary_out: String,
    /// The error the workflow ends with.
    pub run_err: Option<Error>,
}

/// What recording scan outcome `m` does: its result is appended; a failed
/// scan adds `scan <id>: <error>` to the errors; a successful one adds its
/// size to the total, and a failed preview adds `preview <id>: <error>`;
/// the next target is scanned, or the summary follows the last. Nothing
/// else changes.
pub open spec fn scan_post(o: FlowModel, f: FlowModel, m: ScanTargetMsg, cmds: Seq<Cmd>) -> bool {
    &&& f == FlowModel { results: f.results, total: f.total, scan_errs: f.scan_errs, state: f.state, ..o }
    &&& f.results@ =~= o.results@.push(Scanned { size: m.size, items: m.items })
    &&& f.total == if m.err is None { o.total + m.size } else { o.total as int }
    &&& error_texts(f.scan_errs@) =~= error_texts(o.scan_errs@) + match m.err {
        Some(e) => seq!["scan "@ + o.targets@[m.idx as int].id@ + ": "@ + message_of(e)],
        None => match m.preview_err {
            Some(e) => seq!["preview "@ + o.targets@[m.idx as int].id@ + ": "@ + message_of(e)],
            None => seq![],
        },
    }
    &&& m.idx + 1 < o.targets@.len() ==> cmds =~= seq![Cmd::Scan((m.idx + 1) as usize)] && f.state
        == FlowState::Scanning
    &&& m.idx + 1 >= o.targets@.len() ==> cmds.len() == 0 && f.state == FlowState::Summary
}

/// The texts of errors.
pub open spec fn error_texts(v: Seq<Error>) -> Seq<Seq<char>> {
    v.map_values(|e: Error| message_of(e))
}

impl FlowModel {
    /// The workflow's invariant: the cursor is YES or NO, the spinner
    /// frame is valid, scan results never outnumber targets, scanning has
    /// targets left, summary and confirm follow a complete scan of at least
    /// one target, and running has a row per scanned target.
    pub open spec fn wf(&self) -> bool {
        &&& self.confirm_cursor <= 1
        &&& self.spinner_idx < 10
        &&& self.results@.len() <= self.targets@.len()
        &&& self.state == FlowState::Scanning ==> self.results@.len() < self.targets@.len()
        &&& (self.state == FlowState::Summary || self.state == FlowState::Confirm) ==> self.results@.len()
            == self.targets@.len() && self.targets@.len() > 0
        &&& self.state == FlowState::Running ==> self.rows@.len() == self.results@.len() && self.rows@.len() > 0
    }

    /// A workflow about to scan the targets, the confirm cursor on NO.
    pub fn new(opts: Options, targets: Vec<CleanTarget>) -> (m: FlowModel)
        ensures
            m.opts == opts && m.targets == targets && m.state == FlowState::Scanning && m.width == 80
                && m.spinner_idx == 0 && m.results@.len() == 0 && m.total == 0 && m.scan_errs@.len() == 0
                && m.confirm_cursor == 1 && m.rows@.len() == 0 && m.freed == 0 && m.failed == 0
                && !m.aborted && m.summary_out@.len() == 0 && m.run_err is None,
    {
        FlowModel {
            opts,
            targets,
            state: FlowState::Scanning,
            width: 80,
            spinner_idx: 0,
            results: Vec::new(),
            total: 0,
            scan_errs: Vec::new(),
            confirm_cursor: 1,
            rows: Vec::new(),
            freed: 0,
            failed: 0,
            aborted: false,
            summary_out: String::new(),
            run_err: None,
        }
    }

    /// Starts: with no targets the workflow is done with nothing to clean;
    /// otherwise it asks for the spinner and the first scan.
    pub fn init(&mut self) -> (cmds: Vec<Cmd>)
        requires
            old(self).state == FlowState::Scanning,
            old(self).results@.len() == 0,
            old(self).confirm_cursor <= 1,
            old(self).spinner_idx < 10,
        ensures
            final(self).wf(),
            old(self).targets@.len() == 0 ==> cmds@.len() == 0 && final(self).state == FlowState::Done
                && final(self).summary_out@ == "Nothing to clean."@,
            old(self).targets@.len() > 0 ==> cmds@ == seq![Cmd::SpinnerTick, Cmd::Scan(0)]
                && final(self).state == FlowState::Scanning,
            final(self).targets == old(self).targets,
    {
        if self.targets.len() == 0 {
            self.state = FlowState::Done;
            self.summary_out = String::from_str("Nothing to clean.");
            return Vec::new();
        }
        let mut v = Vec::new();
        v.push(Cmd::SpinnerTick);
        v.push(Cmd::Scan(0));
        v
    }

    /// How target `i` is executed.
    pub fn run_dispatch(&self, i: usize) -> (d: RunDispatch)
        requires
            i < self.targets@.len(),
        ensures
            d == if !self.opts.dry_run && self.targets@[i as int].requires_sudo {
                RunDispatch::ExecTerminal
            } else {
                RunDispatch::Plain
            },
    {
        if !self.opts.dry_run && self.targets[i].requires_sudo {
            RunDispatch::ExecTerminal
        } else {
            RunDispatch::Plain
        }
    }

    /// Records a scan outcome (targets are scanned in order). A failed scan
    /// is an error `scan <id>: <error>`; a successful one adds its size to
    /// the total, and a failed preview is an error `preview <id>: <error>`.
    /// The next target is scanned, or the summary is shown after the last.
    pub fn on_scan_target(&mut self, m: ScanTargetMsg) -> (cmds: Vec<Cmd>)
        requires
            old(self).wf(),
            old(self).state == FlowState::Scanning,
            m.idx == old(self).results@.len(),
            m.err is None ==> i64::MIN <= old(self).total + m.size <= i64::MAX,
        ensures
            final(self).wf(),
            scan_post(*old(self), *final(self), m, cmds@),
    {
        let idx = m.idx;
        let id = chars_of(self.targets[idx].id.as_str());
        self.results.push(Scanned { size: m.size, items: m.items });
        match m.err {
            Some(e) => {
                let mut t: Vec<char> = Vec::new();
                push_str(&mut t, "scan ");
                push_all(&mut t, id.as_slice());
                push_str(&mut t, ": ");
                let mc = chars_of(e.message().as_str());
                push_all(&mut t, mc.as_slice());
                let ghost before = error_texts(self.scan_errs@);
                let ne = Error::Msg(string_of(t.as_slice()));
                self.scan_errs.push(ne);
                assert(error_texts(self.scan_errs@) =~= before.push(t@));
            },
            None => {
                self.total = self.total + m.size;
                match m.preview_err {
                    Some(e) => {
                        let mut t: Vec<char> = Vec::new();
                        push_str(&mut t, "preview ");
                        push_all(&mut t, id.as_slice());
                        push_str(&mut t, ": ");
                        let mc = chars_of(e.message().as_str());
                        push_all(&mut t, mc.as_slice());
                        let ghost before = error_texts(self.scan_errs@);
                        self.scan_errs.push(Error::Msg(string_of(t.as_slice())));
                        assert(error_texts(self.scan_errs@) =~= before.push(t@));
                    },
                    None => {
                        assert(error_texts(self.scan_errs@) =~= error_texts(old(self).scan_errs@) + Seq::<Seq<char>>::empty());
                    },
                }
            },
        }
        if self.targets.len() - idx > 1 {
            let mut v = Vec::new();
            v.push(Cmd::Scan(idx + 1));
            return v;
        }
        self.state = FlowState::Summary;
        Vec::new()
    }
}


/// The errors' texts joined by newlines, as one error.
pub fn join_error_list(errs: &Vec<Error>) -> (e: Error)
    ensures
        e is Msg,
        message_of(e) == crate::status::proc::join_lines(error_texts(errs@)),
{
    let mut parts: Vec<Vec<char>> = Vec::new();
    let mut i: usize = 0;
    while i < errs.len()
        invariant
            i <= errs@.len(),
            crate::text::views(parts@) == error_texts(errs@.subrange(0, i as int)),
        decreases errs.len() - i,
    {
        let m = errs[i].message();
        let ghost before = crate::text::views(parts@);
        parts.push(chars_of(m.as_str()));
        assert(crate::text::views(parts@) =~= before.push(message_of(errs@[i as int])));
        assert(errs@.subrange(0, i + 1) =~= errs@.subrange(0, i as int).push(errs@[i as int]));
        assert(error_texts(errs@.subrange(0, i + 1)) =~= error_texts(errs@.subrange(0, i as int)).push(message_of(errs@[i as int])));
        i += 1;
    }
    assert(errs@.subrange(0, i as int) =~= errs@);
    match crate::status::proc::join_errors(&parts) {
        Some(e) => e,
        None => {
            proof {
                reveal_strlit("");
            }
            Error::Msg(String::new())
        },
    }
}

/// The summary of a finished run.
pub open spec fn run_summary(aborted: bool, failed: nat, dry_run: bool, total: int, freed: int) -> Seq<char> {
    if aborted {
        "Aborted."@
    } else if failed > 0 {
        if dry_run {
            "Dry run — "@ + human(total) + " reclaimable ("@ + dec(failed) + " failed)"@
        } else {
            "Freed "@ + human(freed) + " — "@ + dec(failed) + " item(s) failed"@
        }
    } else if dry_run {
        "Dry run — "@ + human(total) + " reclaimable"@
    } else {
        "Freed "@ + human(freed)
    }
}

/// How a run finishes when the rows from `next` on are left: they are
/// skipped, the workflow is done with the summary of the run, and when
/// targets failed (and the run was not aborted) it ends with the error
/// `N clean target(s) failed`. Nothing else changes.
pub open spec fn finished(o: FlowModel, f: FlowModel, next: int) -> bool {
    &&& f == FlowModel {
        rows: f.rows,
        state: FlowState::Done,
        summary_out: f.summary_out,
        run_err: f.run_err,
        ..o
    }
    &&& f.rows@.len() == o.rows@.len()
    &&& forall|k: int| 0 <= k < f.rows@.len() ==> #[trigger] f.rows@[k] == if k >= next {
        RunRow { status: RowStatus::Skipped, ..o.rows@[k] }
    } else {
        o.rows@[k]
    }
    &&& f.summary_out@ == run_summary(o.aborted, o.failed as nat, o.opts.dry_run, o.total as int, o.freed as int)
    &&& if !o.aborted && o.failed > 0 {
        f.run_err matches Some(e) && message_of(e) == dec(o.failed as nat) + " clean target(s) failed"@
    } else {
        f.run_err == o.run_err
    }
}

/// The row of target `i` once its outcome `err` is known.
pub open spec fn done_row(r: RunRow, err: Option<Error>) -> RunRow {
    match err {
        Some(e) => RunRow { status: RowStatus::Failed, err: Some(e), ..r },
        None => RunRow { status: RowStatus::Done, ..r },
    }
}

/// What recording the outcome `m` of row `m.idx` does: the row is done or
/// failed (counted, or its size added to what was freed); then the next
/// row runs, unless the run was aborted or this was the last row, in
/// which case the run finishes as [`finished`] says from the next row on.
pub open spec fn item_done_post(o: FlowModel, f: FlowModel, m: ItemDoneMsg, cmds: Seq<Cmd>) -> bool {
    let i = m.idx as int;
    let failed: int = if m.err is Some { o.failed + 1 } else { o.failed as int };
    let freed: int = if m.err is Some { o.freed as int } else { o.freed + o.rows@[i].size };
    &&& f.rows@.len() == o.rows@.len()
    &&& f.failed == failed && f.freed == freed
    &&& f.rows@[i] == done_row(o.rows@[i], m.err)
    &&& forall|k: int| 0 <= k < i ==> #[trigger] f.rows@[k] == o.rows@[k]
    &&& if i + 1 < o.rows@.len() && !o.aborted {
        &&& cmds =~= seq![Cmd::Run((i + 1) as usize)]
        &&& f == FlowModel { rows: f.rows, failed: f.failed, freed: f.freed, ..o }
        &&& f.rows@[i + 1] == RunRow { status: RowStatus::Running, ..o.rows@[i + 1] }
        &&& forall|k: int| i + 1 < k < f.rows@.len() ==> #[trigger] f.rows@[k] == o.rows@[k]
    } else {
        &&& cmds.len() == 0
        &&& f == FlowModel {
            rows: f.rows,
            failed: f.failed,
            freed: f.freed,
            state: FlowState::Done,
            summary_out: f.summary_out,
            run_err: f.run_err,
            ..o
        }
        &&& forall|k: int| i < k < f.rows@.len() ==> #[trigger] f.rows@[k] == RunRow {
            status: RowStatus::Skipped,
            ..o.rows@[k]
        }
        &&& f.summary_out@ == run_summary(o.aborted, failed as nat, o.opts.dry_run, o.total as int, freed)
        &&& if !o.aborted && failed > 0 {
            f.run_err matches Some(e) && message_of(e) == dec(failed as nat) + " clean target(s) failed"@
        } else {
            f.run_err == o.run_err
        }
    }
}

/// How a run starts: one row per scanned target, with the target's label
/// and scanned size and no error, the first running and the rest pending.
/// Nothing else changes.
pub open spec fn started(o: FlowModel, f: FlowModel) -> bool {
    &&& f == FlowModel { rows: f.rows, state: FlowState::Running, ..o }
    &&& f.rows@.len() == o.results@.len()
    &&& forall|k: int| 0 <= k < f.rows@.len() ==> {
        &&& (#[trigger] f.rows@[k]).label@ == o.targets@[k].label@
        &&& f.rows@[k].size == o.results@[k].size
        &&& f.rows@[k].err is None
        &&& f.rows@[k].status == if k == 0 { RowStatus::Running } else { RowStatus::Pending }
    }
}

/// How the workflow quits before running: after a scan with errors on the
/// summary it ends with those errors joined; otherwise it is aborted.
/// Nothing else changes.
pub open spec fn quit_post(o: FlowModel, f: FlowModel, cmds: Seq<Cmd>) -> bool {
    &&& cmds =~= seq![Cmd::Quit]
    &&& if o.state == FlowState::Summary && o.scan_errs@.len() > 0 {
        &&& f == FlowModel { run_err: f.run_err, ..o }
        &&& f.run_err matches Some(e) && message_of(e) == crate::status::proc::join_lines(error_texts(o.scan_errs@))
    } else {
        &&& f == FlowModel { summary_out: f.summary_out, ..o }
        &&& f.summary_out@ == "Aborted."@
    }
}

/// What a key does. Ctrl+C while running marks the run aborted (the
/// current target finishes, the rest are skipped); `q`/Esc is ignored
/// while running; on the done screen Ctrl+C, `q` and Enter quit; elsewhere
/// Ctrl+C and `q` quit before running. Enter on the summary reports the
/// scan errors, runs at once for a dry run or `--yes`, and otherwise opens
/// the confirm dialog; there NO aborts (no row is made) and YES runs. The
/// toggles move the confirm cursor. Nothing else changes.
pub open spec fn key_post(o: FlowModel, f: FlowModel, key: Key, cmds: Seq<Cmd>) -> bool {
    match key {
        Key::CtrlC => if o.state == FlowState::Running {
            cmds.len() == 0 && f == FlowModel { aborted: true, ..o }
        } else if o.state == FlowState::Done {
            cmds =~= seq![Cmd::Quit] && f == o
        } else {
            quit_post(o, f, cmds)
        },
        Key::Quit => if o.state == FlowState::Running {
            cmds.len() == 0 && f == o
        } else if o.state == FlowState::Done {
            cmds =~= seq![Cmd::Quit] && f == o
        } else {
            quit_post(o, f, cmds)
        },
        Key::Select => if o.state == FlowState::Summary {
            if o.scan_errs@.len() > 0 {
                &&& cmds =~= seq![Cmd::Quit]
                &&& f == FlowModel { run_err: f.run_err, ..o }
                &&& f.run_err matches Some(e) && message_of(e) == crate::status::proc::join_lines(
                    error_texts(o.scan_errs@),
                )
            } else if o.opts.dry_run || o.opts.auto_yes {
                cmds =~= seq![Cmd::SpinnerTick, Cmd::Run(0)] && started(o, f)
            } else {
                cmds.len() == 0 && f == FlowModel { state: FlowState::Confirm, ..o }
            }
        } else if o.state == FlowState::Confirm {
            if o.confirm_cursor == 1 {
                &&& cmds =~= seq![Cmd::Quit]
                &&& f == FlowModel { summary_out: f.summary_out, ..o }
                &&& f.summary_out@ == "Aborted."@
            } else {
                cmds =~= seq![Cmd::SpinnerTick, Cmd::Run(0)] && started(o, f)
            }
        } else if o.state == FlowState::Done {
            cmds =~= seq![Cmd::Quit] && f == o
        } else {
            cmds.len() == 0 && f == o
        },
        Key::Flip => cmds.len() == 0 && f == FlowModel {
            confirm_cursor: if o.state == FlowState::Confirm {
                (1 - o.confirm_cursor) as usize
            } else {
                o.confirm_cursor
            },
            ..o
        },
    }
}

impl FlowModel {
    /// Marks the rows from `next` on as skipped, finishes the workflow and
    /// sets its summary (and, when targets failed, its error).
    pub fn finish_run(&mut self, next: usize)
        requires
            old(self).wf(),
            old(self).state == FlowState::Running,
        ensures
            final(self).wf(),
            finished(*old(self), *final(self), next as int),
    {
        let mut k = next;
        while k < self.rows.len()
            invariant
                next <= k,
                self.rows@.len() == old(self).rows@.len(),
                forall|j: int| 0 <= j < self.rows@.len() ==> #[trigger] self.rows@[j] == if j >= next && j < k {
                    (RunRow { status: RowStatus::Skipped, ..old(self).rows@[j] })
                } else {
                    old(self).rows@[j]
                },
                *self == (FlowModel { rows: self.rows, ..*old(self) }),
            decreases self.rows.len() - k,
        {
            let mut row = self.rows.remove(k);
            row.status = RowStatus::Skipped;
            self.rows.insert(k, row);
            k += 1;
        }
        self.state = FlowState::Done;
        if self.aborted {
            self.summary_out = String::from_str("Aborted.");
        } else if self.failed > 0 {
            let n = fmt_u64(self.failed as u64);
            let mut e: Vec<char> = Vec::new();
            push_all(&mut e, n.as_slice());
            push_str(&mut e, " clean target(s) failed");
            self.run_err = Some(Error::Msg(string_of(e.as_slice())));
            let mut t: Vec<char> = Vec::new();
            if self.opts.dry_run {
                push_str(&mut t, "Dry run — ");
                let h = chars_of(human_size(self.total).as_str());
                push_all(&mut t, h.as_slice());
                push_str(&mut t, " reclaimable (");
                push_all(&mut t, n.as_slice());
                push_str(&mut t, " failed)");
            } else {
                push_str(&mut t, "Freed ");
                let h = chars_of(human_size(self.freed).as_str());
                push_all(&mut t, h.as_slice());
                push_str(&mut t, " — ");
                push_all(&mut t, n.as_slice());
                push_str(&mut t, " item(s) failed");
            }
            self.summary_out = string_of(t.as_slice());
        } else if self.opts.dry_run {
            let mut t: Vec<char> = Vec::new();
            push_str(&mut t, "Dry run — ");
            let h = chars_of(human_size(self.total).as_str());
            push_all(&mut t, h.as_slice());
            push_str(&mut t, " reclaimable");
            self.summary_out = string_of(t.as_slice());
        } else {
            let mut t: Vec<char> = Vec::new();
            push_str(&mut t, "Freed ");
            let h = chars_of(human_size(self.freed).as_str());
            push_all(&mut t, h.as_slice());
            self.summary_out = string_of(t.as_slice());
        }
    }

    /// Records an execution outcome: a failure marks the row failed and
    /// counts it; a success marks it done and adds its size to what was
    /// freed. The next row runs unless the run was aborted or this was the
    /// last; then the run finishes.
    pub fn on_item_done(&mut self, m: ItemDoneMsg) -> (cmds: Vec<Cmd>)
        requires
            old(self).wf(),
            old(self).state == FlowState::Running,
            m.idx < old(self).rows@.len(),
            m.err is None ==> i64::MIN <= old(self).freed + old(self).rows@[m.idx as int].size <= i64::MAX,
            old(self).failed < usize::MAX,
        ensures
            final(self).wf(),
            item_done_post(*old(self), *final(self), m, cmds@),
    {
        let idx = m.idx;
        let mut row = self.rows.remove(idx);
        match m.err {
            Some(e) => {
                row.status = RowStatus::Failed;
                row.err = Some(e);
                self.failed = self.failed + 1;
            },
            None => {
                row.status = RowStatus::Done;
                self.freed = self.freed + row.size;
            },
        }
        self.rows.insert(idx, row);
        if self.rows.len() - idx > 1 && !self.aborted {
            let next = idx + 1;
            let mut r = self.rows.remove(next);
            r.status = RowStatus::Running;
            self.rows.insert(next, r);
            let mut v = Vec::new();
            v.push(Cmd::Run(next));
            return v;
        }
        self.finish_run(idx + 1);
        Vec::new()
    }

    /// Starts cleaning: one pending row per scanned target, the first running.
    pub fn start_run(&mut self)
        requires
            old(self).wf(),
            old(self).state == FlowState::Summary || old(self).state == FlowState::Confirm,
        ensures
            final(self).wf(),
            started(*old(self), *final(self)),
    {
        let mut rows: Vec<RunRow> = Vec::new();
        let mut i: usize = 0;
        while i < self.results.len()
            invariant
                i <= self.results@.len(),
                self.results@.len() <= self.targets@.len(),
                rows@.len() == i,
                forall|k: int| 0 <= k < i ==> {
                    &&& (#[trigger] rows@[k]).label@ == self.targets@[k].label@
                    &&& rows@[k].size == self.results@[k].size
                    &&& rows@[k].err is None
                    &&& rows@[k].status == if k == 0 { RowStatus::Running } else { RowStatus::Pending }
                },
            decreases self.results.len() - i,
        {
            let status = if i == 0 { RowStatus::Running } else { RowStatus::Pending };
            rows.push(RunRow { label: self.targets[i].label.clone(), size: self.results[i].size, status, err: None });
            i += 1;
        }
        self.rows = rows;
        self.state = FlowState::Running;
    }

    /// Quits before running: with a finished scan that had errors the
    /// workflow ends with those errors, otherwise it is aborted.
    pub fn quit_abort(&mut self) -> (cmds: Vec<Cmd>)
        requires
            old(self).wf(),
        ensures
            final(self).wf(),
            quit_post(*old(self), *final(self), cmds@),
    {
        if self.state == FlowState::Summary && self.scan_errs.len() > 0 {
            self.run_err = Some(join_error_list(&self.scan_errs));
        } else {
            self.summary_out = String::from_str("Aborted.");
        }
        let mut v = Vec::new();
        v.push(Cmd::Quit);
        v
    }

    /// Handles a key. Ctrl+C while running aborts after the current target;
    /// `q`/Esc is ignored while running; on the done screen both quit;
    /// elsewhere both quit before running. Enter on the summary reports scan
    /// errors, runs directly for a dry run or `--yes`, and otherwise asks
    /// to confirm; on the confirm dialog NO aborts and YES runs. The toggle
    /// keys move the confirm cursor.
    pub fn handle_key(&mut self, key: Key) -> (cmds: Vec<Cmd>)
        requires
            old(self).wf(),
        ensures
            final(self).wf(),
            key_post(*old(self), *final(self), key, cmds@),
    {
        match key {
            Key::CtrlC => match self.state {
                FlowState::Running => {
                    self.aborted = true;
                },
                FlowState::Done => {
                    let mut v = Vec::new();
                    v.push(Cmd::Quit);
                    return v;
                },
                _ => {
                    return self.quit_abort();
                },
            },
            Key::Quit => match self.state {
                FlowState::Running => {},
                FlowState::Done => {
                    let mut v = Vec::new();
                    v.push(Cmd::Quit);
                    return v;
                },
                _ => {
                    return self.quit_abort();
                },
            },
            Key::Select => match self.state {
                FlowState::Summary => {
                    if self.scan_errs.len() > 0 {
                        self.run_err = Some(join_error_list(&self.scan_errs));
                        let mut v = Vec::new();
                        v.push(Cmd::Quit);
                        return v;
                    }
                    if self.opts.dry_run || self.opts.auto_yes {
                        self.start_run();
                        let mut v = Vec::new();
                        v.push(Cmd::SpinnerTick);
                        v.push(Cmd::Run(0));
                        return v;
                    }
                    self.state = FlowState::Confirm;
                },
                FlowState::Confirm => {
                    if self.confirm_cursor == 1 {
                        self.summary_out = String::from_str("Aborted.");
                        let mut v = Vec::new();
                        v.push(Cmd::Quit);
                        return v;
                    }
                    self.start_run();
                    let mut v = Vec::new();
                    v.push(Cmd::SpinnerTick);
                    v.push(Cmd::Run(0));
                    return v;
                },
                FlowState::Done => {
                    let mut v = Vec::new();
                    v.push(Cmd::Quit);
                    return v;
                },
                _ => {},
            },
            Key::Flip => {
                if self.state == FlowState::Confirm {
                    self.confirm_cursor = 1 - self.confirm_cursor;
                }
            },
        }
        Vec::new()
    }

    /// Handles a message: a window size is recorded; a spinner tick
    /// advances the spinner and asks for the next tick while scanning or
    /// running; scan and execution outcomes and keys go to their handlers.
    pub fn update(&mut self, msg: Msg) -> (cmds: Vec<Cmd>)
        requires
            old(self).wf(),
            msg matches Msg::ScanTarget(m) ==> old(self).state == FlowState::Scanning && m.idx == old(self).results@.len()
                && (m.err is None ==> i64::MIN <= old(self).total + m.size <= i64::MAX),
            msg matches Msg::ItemDone(m) ==> old(self).state == FlowState::Running && m.idx < old(self).rows@.len()
                && (m.err is None ==> i64::MIN <= old(self).freed + old(self).rows@[m.idx as int].size <= i64::MAX)
                && old(self).failed < usize::MAX,
        ensures
            final(self).wf(),
            msg matches Msg::WindowSize { width } ==> cmds@.len() == 0 && *final(self) == (FlowModel {
                width,
                ..*old(self)
            }),
            msg is SpinnerTick ==> if old(self).state == FlowState::Scanning || old(self).state == FlowState::Running {
                cmds@ == seq![Cmd::SpinnerTick] && *final(self) == (FlowModel {
                    spinner_idx: ((old(self).spinner_idx + 1) % 10) as usize,
                    ..*old(self)
                })
            } else {
                cmds@.len() == 0 && *final(self) == *old(self)
            },
            msg matches Msg::ScanTarget(m) ==> scan_post(*old(self), *final(self), m, cmds@),
            msg matches Msg::ItemDone(m) ==> item_done_post(*old(self), *final(self), m, cmds@),
            msg matches Msg::Key(k) ==> key_post(*old(self), *final(self), k, cmds@),
            msg is Noop ==> cmds@.len() == 0 && *final(self) == *old(self),
    {
        match msg {
            Msg::WindowSize { width } => {
                self.width = width;
            },
            Msg::SpinnerTick => {
                if self.state == FlowState::Scanning || self.state == FlowState::Running {
                    self.spinner_idx = (self.spinner_idx + 1) % 10;
                    let mut v = Vec::new();
                    v.push(Cmd::SpinnerTick);
                    return v;
                }
            },
            Msg::ScanTarget(m) => {
                return self.on_scan_target(m);
            },
            Msg::ItemDone(m) => {
                return self.on_item_done(m);
            },
            Msg::Key(k) => {
                return self.handle_key(k);
            },
            Msg::Noop => {},
        }
        Vec::new()
    }

    /// Rows that finished cleanly.
    pub fn run_count(&self) -> (n: usize)
        ensures
            n == self.rows@.filter(|r: RunRow| r.status == RowStatus::Done).len(),
    {
        let mut n: usize = 0;
        let mut i: usize = 0;
        while i < self.rows.len()
            invariant
                i <= self.rows@.len(),
                n == self.rows@.subrange(0, i as int).filter(|r: RunRow| r.status == RowStatus::Done).len(),
                n <= i,
            decreases self.rows.len() - i,
        {
            proof {
                reveal(Seq::filter);
                assert(self.rows@.subrange(0, i + 1).drop_last() =~= self.rows@.subrange(0, i as int));
            }
            if self.rows[i].status == RowStatus::Done {
                n += 1;
            }
            i += 1;
        }
        assert(self.rows@.subrange(0, i as int) =~= self.rows@);
        n
    }
}

/// `s` cut to `width` characters with an ellipsis; a width under 1 leaves
/// it whole.
pub open spec fn truncated_to(s: Seq<char>, width: int) -> Seq<char> {
    if width < 1 || s.len() <= width {
        s
    } else {
        s.subrange(0, width - 1) + seq!['…']
    }
}

/// A cut text fits its width: at a width of one or more the result is at
/// most that long, and it is the text itself when that fits.
pub proof fn law_truncated_fits(s: Seq<char>, width: int)
    ensures
        width >= 1 ==> truncated_to(s, width).len() <= width,
        s.len() <= width ==> truncated_to(s, width) == s,
{
}

/// Truncates `s` to `width` characters, ending a cut with `…`; a width
/// under 1 leaves `s` whole.
pub fn truncate(s: &str, width: i64) -> (r: String)
    ensures
        r@ == truncated_to(s@, width as int),
{
    cut(s, width as i128)
}

fn cut(s: &str, width: i128) -> (r: String)
    ensures
        r@ == truncated_to(s@, width as int),
{
    let c = chars_of(s);
    if width < 1 || (c.len() as u128) <= (width as u128) {
        return String::from_str(s);
    }
    let w = width as usize;
    let mut t = crate::text::slice_of(c.as_slice(), 0, w - 1);
    t.push('…');
    string_of(t.as_slice())
}

/// The room a view leaves for text: the terminal width read as a signed
/// number, less `less` columns.
pub open spec fn room(width: usize, less: int) -> int {
    (width as i64) as int - less
}

fn room_of(width: usize, less: i128) -> (r: i128)
    requires
        0 <= less <= 100,
    ensures
        r == room(width, less as int),
{
    (width as i64) as i128 - less
}

/// `a - b`, or 0 when `b` is not below `a`.
pub open spec fn sat_sub(a: int, b: int) -> nat {
    if a > b {
        (a - b) as nat
    } else {
        0
    }
}

/// The longest label, in characters.
pub open spec fn max_label_len(ts: Seq<CleanTarget>) -> nat
    decreases ts.len(),
{
    if ts.len() == 0 {
        0
    } else {
        let m = max_label_len(ts.drop_last());
        if ts.last().label@.len() > m {
            ts.last().label@.len()
        } else {
            m
        }
    }
}

/// The longest size text of the results, or `init` if longer.
pub open spec fn max_size_len(rs: Seq<Scanned>, init: nat) -> nat
    decreases rs.len(),
{
    if rs.len() == 0 {
        init
    } else {
        let m = max_size_len(rs.drop_last(), init);
        let l = human(rs.last().size as int).len();
        if l > m {
            l
        } else {
            m
        }
    }
}

/// The spaces after `d` in a label column `label_w` wide, plus the gap.
pub open spec fn pad(label_w: nat, d: Seq<char>) -> Seq<char> {
    spaces(sat_sub(label_w as int, d.len() as int) + 2)
}

/// An error's text, empty without one.
pub open spec fn err_text(e: Option<Error>) -> Seq<char> {
    match e {
        Some(e) => message_of(e),
        None => Seq::empty(),
    }
}

/// How long a run took: `<1s` under a second, `Ns` under a minute, else
/// `MmSs`.
pub open spec fn took_text(secs: nat) -> Seq<char> {
    if secs < 1 {
        "<1s"@
    } else if secs < 60 {
        dec(secs) + "s"@
    } else {
        dec(secs / 60) + "m"@ + dec(secs % 60) + "s"@
    }
}

/// The elapsed-time text for a number of whole seconds.
pub fn took(secs: u64) -> (r: String)
    ensures
        r@ == took_text(secs as nat),
{
    if secs < 1 {
        return String::from_str("<1s");
    }
    let mut t: Vec<char>;
    if secs < 60 {
        t = fmt_u64(secs);
        push_str(&mut t, "s");
    } else {
        t = fmt_u64(secs / 60);
        push_str(&mut t, "m");
        let r = fmt_u64(secs % 60);
        push_all(&mut t, r.as_slice());
        push_str(&mut t, "s");
    }
    string_of(t.as_slice())
}

impl FlowModel {
    /// The scanning screen.
    pub open spec fn scanning_view(&self) -> Seq<LineV> {
        let done = self.results@.len();
        let n = self.targets@.len();
        let progress = if done > 0 {
            "  ("@ + dec(done) + " of "@ + dec(n) + ")"@ + if done < n {
                ": "@ + self.targets@[done as int].label@
            } else {
                Seq::empty()
            }
        } else {
            Seq::empty()
        };
        seq![
            blank(),
            blank(),
            one("  "@ + frame_text(self.spinner_idx as int) + " Scanning system"@ + progress, Tone::BoldPrimary),
            blank(),
            blank(),
            one("  q or ctrl+c: cancel"@, Tone::Faint),
        ]
    }

    /// The scanning screen: the spinner, progress and the target being scanned.
    pub fn view_scanning(&self) -> (ls: Vec<Vec<Span>>)
        ensures
            lines_view(ls@) == self.scanning_view(),
    {
        let mut ls: Vec<Vec<Span>> = Vec::new();
        push_blank(&mut ls);
        push_blank(&mut ls);
        let mut t: Vec<char> = Vec::new();
        push_str(&mut t, "  ");
        push_str(&mut t, spinner_frame(self.spinner_idx));
        push_str(&mut t, " Scanning system");
        let ghost head = t@;
        let done = self.results.len();
        if done > 0 {
            push_str(&mut t, "  (");
            let a = fmt_u64(done as u64);
            push_all(&mut t, a.as_slice());
            push_str(&mut t, " of ");
            let b = fmt_u64(self.targets.len() as u64);
            push_all(&mut t, b.as_slice());
            push_str(&mut t, ")");
            if done < self.targets.len() {
                push_str(&mut t, ": ");
                let l = chars_of(self.targets[done].label.as_str());
                push_all(&mut t, l.as_slice());
            }
        }
        assert(t@ =~= "  "@ + frame_text(self.spinner_idx as int) + " Scanning system"@ + (if done > 0 {
            "  ("@ + dec(done as nat) + " of "@ + dec(self.targets@.len()) + ")"@ + if done < self.targets@.len() {
                ": "@ + self.targets@[done as int].label@
            } else {
                Seq::empty()
            }
        } else {
            Seq::empty()
        }));
        push_one(&mut ls, t.as_slice(), Tone::BoldPrimary);
        push_blank(&mut ls);
        push_blank(&mut ls);
        push_lit(&mut ls, "  q or ctrl+c: cancel", Tone::Faint);
        assert(lines_view(ls@) =~= self.scanning_view());
        ls
    }

    /// The confirm screen.
    pub open spec fn confirm_view(&self) -> Seq<LineV> {
        let yes = if self.confirm_cursor == 0 { Tone::ButtonOn } else { Tone::ButtonOff };
        let no = if self.confirm_cursor == 1 { Tone::ButtonOn } else { Tone::ButtonOff };
        seq![
            blank(),
            blank(),
            one("  Proceed to clean?"@, Tone::BoldPrimary),
            blank(),
            one("  "@ + dec(self.results@.len()) + " item(s) — "@ + human(self.total as int), Tone::Faint),
            blank(),
            seq![("  "@, Tone::Plain), (" YES "@, yes), ("  "@, Tone::Plain), (" NO "@, no)],
            blank(),
            blank(),
            blank(),
            one("  ←/→ navigate  •  Enter: confirm  •  q: quit"@, Tone::Faint),
        ]
    }

    /// The confirm screen: the item count and total, and the YES/NO buttons.
    pub fn view_confirm(&self) -> (ls: Vec<Vec<Span>>)
        ensures
            lines_view(ls@) == self.confirm_view(),
    {
        let yes = if self.confirm_cursor == 0 { Tone::ButtonOn } else { Tone::ButtonOff };
        let no = if self.confirm_cursor == 1 { Tone::ButtonOn } else { Tone::ButtonOff };
        let mut ls: Vec<Vec<Span>> = Vec::new();
        push_blank(&mut ls);
        push_blank(&mut ls);
        push_lit(&mut ls, "  Proceed to clean?", Tone::BoldPrimary);
        push_blank(&mut ls);
        let mut t: Vec<char> = Vec::new();
        push_str(&mut t, "  ");
        let n = fmt_u64(self.results.len() as u64);
        push_all(&mut t, n.as_slice());
        push_str(&mut t, " item(s) — ");
        let h = chars_of(human_size(self.total).as_str());
        push_all(&mut t, h.as_slice());
        assert(t@ =~= "  "@ + dec(self.results@.len()) + " item(s) — "@ + human(self.total as int));
        push_one(&mut ls, t.as_slice(), Tone::Faint);
        push_blank(&mut ls);
        let mut b: Vec<Span> = Vec::new();
        b.push(Span { text: String::from_str("  "), tone: Tone::Plain });
        b.push(Span { text: String::from_str(" YES "), tone: yes });
        b.push(Span { text: String::from_str("  "), tone: Tone::Plain });
        b.push(Span { text: String::from_str(" NO "), tone: no });
        assert(line_view(b@) =~= seq![("  "@, Tone::Plain), (" YES "@, yes), ("  "@, Tone::Plain), (" NO "@, no)]);
        push_line(&mut ls, b);
        push_blank(&mut ls);
        push_blank(&mut ls);
        push_blank(&mut ls);
        push_lit(&mut ls, "  ←/→ navigate  •  Enter: confirm  •  q: quit", Tone::Faint);
        assert(lines_view(ls@) =~= self.confirm_view());
        ls
    }

    /// One row of the running screen.
    pub open spec fn running_row(&self, r: RunRow) -> LineV {
        let label = truncated_to(r.label@, room(self.width, 14));
        let sz = human(r.size as int);
        match r.status {
            RowStatus::Pending => one("  "@ + label + "  "@ + sz, Tone::Faint),
            RowStatus::Running => one(
                "  "@ + frame_text(self.spinner_idx as int) + " Cleaning "@ + label + "  "@ + sz,
                Tone::Plain,
            ),
            RowStatus::Done => one("  ✓ Cleaned "@ + label + "  "@ + sz, Tone::Plain),
            RowStatus::Failed => one(
                "  ✗ Failed "@ + label + " — "@ + truncated_to(err_text(r.err), room(self.width, 8)),
                Tone::Plain,
            ),
            RowStatus::Skipped => one("  Skipped "@ + label + " (cancelled)"@, Tone::Faint),
        }
    }

    /// The running screen.
    pub open spec fn running_view(&self) -> Seq<LineV> {
        let started = self.rows@.filter(
            |r: RunRow| r.status == RowStatus::Running || r.status == RowStatus::Done || r.status == RowStatus::Failed,
        ).len();
        seq![
            blank(),
            blank(),
            seq![
                ("  Cleaning"@, Tone::BoldPrimary),
                ("   "@ + dec(started) + " of "@ + dec(self.rows@.len()), Tone::Faint),
            ],
            blank(),
        ] + self.rows@.map_values(|r: RunRow| self.running_row(r)) + seq![
            blank(),
            blank(),
            blank(),
            one("  ctrl+c: cancel after current item"@, Tone::Faint),
        ]
    }

    fn row_line(&self, r: &RunRow) -> (l: Vec<char>)
        ensures
            one(l@, if r.status == RowStatus::Pending || r.status == RowStatus::Skipped {
                Tone::Faint
            } else {
                Tone::Plain
            }) == self.running_row(*r),
    {
        let w14 = room_of(self.width, 14);
        let label = chars_of(cut(r.label.as_str(), w14).as_str());
        let sz = chars_of(human_size(r.size).as_str());
        let mut t: Vec<char> = Vec::new();
        match r.status {
            RowStatus::Pending => {
                push_str(&mut t, "  ");
                push_all(&mut t, label.as_slice());
                push_str(&mut t, "  ");
                push_all(&mut t, sz.as_slice());
            },
            RowStatus::Running => {
                push_str(&mut t, "  ");
                push_str(&mut t, spinner_frame(self.spinner_idx));
                push_str(&mut t, " Cleaning ");
                push_all(&mut t, label.as_slice());
                push_str(&mut t, "  ");
                push_all(&mut t, sz.as_slice());
            },
            RowStatus::Done => {
                push_str(&mut t, "  ✓ Cleaned ");
                push_all(&mut t, label.as_slice());
                push_str(&mut t, "  ");
                push_all(&mut t, sz.as_slice());
            },
            RowStatus::Failed => {
                push_str(&mut t, "  ✗ Failed ");
                push_all(&mut t, label.as_slice());
                push_str(&mut t, " — ");
                let e = match &r.err {
                    Some(e) => e.message(),
                    None => String::new(),
                };
                proof {
                    reveal_strlit("");
                }
                let w8 = room_of(self.width, 8);
                let ec = chars_of(cut(e.as_str(), w8).as_str());
                push_all(&mut t, ec.as_slice());
            },
            RowStatus::Skipped => {
                push_str(&mut t, "  Skipped ");
                push_all(&mut t, label.as_slice());
                push_str(&mut t, " (cancelled)");
            },
        }
        assert(one(t@, if r.status == RowStatus::Pending || r.status == RowStatus::Skipped {
            Tone::Faint
        } else {
            Tone::Plain
        }) =~= self.running_row(*r));
        t
    }

    /// The running screen: progress, then one row per target.
    pub fn view_running(&self) -> (ls: Vec<Vec<Span>>)
        ensures
            lines_view(ls@) == self.running_view(),
    {
        let mut started: usize = 0;
        let mut i: usize = 0;
        while i < self.rows.len()
            invariant
                i <= self.rows@.len(),
                started == self.rows@.subrange(0, i as int).filter(
                    |r: RunRow| r.status == RowStatus::Running || r.status == RowStatus::Done || r.status
                        == RowStatus::Failed,
                ).len(),
                started <= i,
            decreases self.rows.len() - i,
        {
            proof {
                reveal(Seq::filter);
                assert(self.rows@.subrange(0, i + 1).drop_last() =~= self.rows@.subrange(0, i as int));
            }
            let st = self.rows[i].status;
            if st == RowStatus::Running || st == RowStatus::Done || st == RowStatus::Failed {
                started += 1;
            }
            i += 1;
        }
        assert(self.rows@.subrange(0, i as int) =~= self.rows@);
        let mut ls: Vec<Vec<Span>> = Vec::new();
        push_blank(&mut ls);
        push_blank(&mut ls);
        let mut t: Vec<char> = Vec::new();
        push_str(&mut t, "   ");
        let a = fmt_u64(started as u64);
        push_all(&mut t, a.as_slice());
        push_str(&mut t, " of ");
        let b = fmt_u64(self.rows.len() as u64);
        push_all(&mut t, b.as_slice());
        assert(t@ =~= "   "@ + dec(started as nat) + " of "@ + dec(self.rows@.len()));
        let mut h: Vec<Span> = Vec::new();
        h.push(Span { text: String::from_str("  Cleaning"), tone: Tone::BoldPrimary });
        h.push(Span { text: string_of(t.as_slice()), tone: Tone::Faint });
        assert(line_view(h@) =~= seq![("  Cleaning"@, Tone::BoldPrimary), (t@, Tone::Faint)]);
        push_line(&mut ls, h);
        push_blank(&mut ls);
        let ghost head = lines_view(ls@);
        let mut k: usize = 0;
        while k < self.rows.len()
            invariant
                k <= self.rows@.len(),
                lines_view(ls@) == head + self.rows@.subrange(0, k as int).map_values(|r: RunRow| self.running_row(r)),
            decreases self.rows.len() - k,
        {
            let st = self.rows[k].status;
            let l = self.row_line(&self.rows[k]);
            let tone = if st == RowStatus::Pending || st == RowStatus::Skipped { Tone::Faint } else { Tone::Plain };
            push_one(&mut ls, l.as_slice(), tone);
            assert(self.rows@.subrange(0, k + 1).map_values(|r: RunRow| self.running_row(r)) =~= self.rows@.subrange(
                0,
                k as int,
            ).map_values(|r: RunRow| self.running_row(r)).push(self.running_row(self.rows@[k as int])));
            k += 1;
        }
        assert(self.rows@.subrange(0, k as int) =~= self.rows@);
        push_blank(&mut ls);
        push_blank(&mut ls);
        push_blank(&mut ls);
        push_lit(&mut ls, "  ctrl+c: cancel after current item", Tone::Faint);
        assert(lines_view(ls@) =~= self.running_view());
        ls
    }
}

/// A failed row on the done screen.
pub open spec fn failure_line(r: RunRow) -> LineV {
    one("  ✗ Failed "@ + r.label@ + " — "@ + err_text(r.err), Tone::Plain)
}

impl FlowModel {
    /// The done screen, `secs` seconds after the run started.
    pub open spec fn done_view(&self, secs: nat) -> Seq<LineV> {
        let outcome = if self.aborted {
            one(
                "  Cancelled — "@ + dec(self.rows@.filter(|r: RunRow| r.status == RowStatus::Done).len()) + " of "@
                    + dec(self.rows@.len()) + " items cleaned"@,
                Tone::Faint,
            )
        } else if self.failed > 0 {
            one("  ✗ "@ + self.summary_out@, Tone::Plain)
        } else {
            one("  ✓ "@ + self.summary_out@, Tone::Plain)
        };
        seq![blank(), blank(), one("  Done"@, Tone::BoldPrimary), blank(), outcome, one("  Took "@ + took_text(secs), Tone::Faint)]
            + self.rows@.filter(|r: RunRow| r.status == RowStatus::Failed).map_values(|r: RunRow| failure_line(r))
            + seq![
            blank(),
            blank(),
            blank(),
            one("  Enter or q: exit  •  rerun: choose Clean in the menu (or `mu clean`)"@, Tone::Faint),
        ]
    }

    /// The done screen: the outcome, how long it took, and each failure.
    pub fn view_done(&self, secs: u64) -> (ls: Vec<Vec<Span>>)
        ensures
            lines_view(ls@) == self.done_view(secs as nat),
    {
        let mut ls: Vec<Vec<Span>> = Vec::new();
        push_blank(&mut ls);
        push_blank(&mut ls);
        push_lit(&mut ls, "  Done", Tone::BoldPrimary);
        push_blank(&mut ls);
        let mut t: Vec<char> = Vec::new();
        if self.aborted {
            push_str(&mut t, "  Cancelled — ");
            let a = fmt_u64(self.run_count() as u64);
            push_all(&mut t, a.as_slice());
            push_str(&mut t, " of ");
            let b = fmt_u64(self.rows.len() as u64);
            push_all(&mut t, b.as_slice());
            push_str(&mut t, " items cleaned");
            push_one(&mut ls, t.as_slice(), Tone::Faint);
        } else {
            if self.failed > 0 {
                push_str(&mut t, "  ✗ ");
            } else {
                push_str(&mut t, "  ✓ ");
            }
            let c = chars_of(self.summary_out.as_str());
            push_all(&mut t, c.as_slice());
            push_one(&mut ls, t.as_slice(), Tone::Plain);
        }
        let mut d: Vec<char> = Vec::new();
        push_str(&mut d, "  Took ");
        let tk = chars_of(took(secs).as_str());
        push_all(&mut d, tk.as_slice());
        push_one(&mut ls, d.as_slice(), Tone::Faint);
        let ghost head = lines_view(ls@);
        let mut k: usize = 0;
        while k < self.rows.len()
            invariant
                k <= self.rows@.len(),
                lines_view(ls@) == head + self.rows@.subrange(0, k as int).filter(
                    |r: RunRow| r.status == RowStatus::Failed,
                ).map_values(|r: RunRow| failure_line(r)),
            decreases self.rows.len() - k,
        {
            proof {
                reveal(Seq::filter);
                assert(self.rows@.subrange(0, k + 1).drop_last() =~= self.rows@.subrange(0, k as int));
            }
            let ghost before = self.rows@.subrange(0, k as int).filter(|r: RunRow| r.status == RowStatus::Failed);
            if self.rows[k].status == RowStatus::Failed {
                let mut f: Vec<char> = Vec::new();
                push_str(&mut f, "  ✗ Failed ");
                let l = chars_of(self.rows[k].label.as_str());
                push_all(&mut f, l.as_slice());
                push_str(&mut f, " — ");
                let e = match &self.rows[k].err {
                    Some(e) => e.message(),
                    None => String::new(),
                };
                proof {
                    reveal_strlit("");
                }
                let ec = chars_of(e.as_str());
                push_all(&mut f, ec.as_slice());
                assert(one(f@, Tone::Plain) =~= failure_line(self.rows@[k as int]));
                push_one(&mut ls, f.as_slice(), Tone::Plain);
                assert(before.push(self.rows@[k as int]).map_values(|r: RunRow| failure_line(r)) =~= before.map_values(
                    |r: RunRow| failure_line(r),
                ).push(failure_line(self.rows@[k as int])));
            }
            k += 1;
        }
        assert(self.rows@.subrange(0, k as int) =~= self.rows@);
        push_blank(&mut ls);
        push_blank(&mut ls);
        push_blank(&mut ls);
        push_lit(&mut ls, "  Enter or q: exit  •  rerun: choose Clean in the menu (or `mu clean`)", Tone::Faint);
        assert(lines_view(ls@) =~= self.done_view(secs as nat));
        ls
    }
}

impl FlowModel {
    /// The width of the size column: the longest size text, the total's included.
    pub open spec fn size_width(&self) -> nat {
        max_size_len(self.results@, human(self.total as int).len())
    }

    /// The width of the label column: the longest label, narrowed to what
    /// the terminal leaves when that is more than four, and at least one.
    pub open spec fn label_width(&self) -> nat {
        let lw = max_label_len(self.targets@);
        let mx = sat_sub(self.width as int, self.size_width() as int + 6);
        let lw1 = if lw > mx && mx > 4 { mx } else { lw };
        if lw1 < 1 { 1 } else { lw1 }
    }

    /// A preview item's line.
    pub open spec fn item_line(&self, it: String) -> LineV {
        one("    - "@ + truncated_to(it@, room(self.width, 8)), Tone::Faint)
    }

    /// A scanned target's lines: its label and size, then its preview items.
    pub open spec fn result_lines(&self, r: Scanned, label: Seq<char>) -> Seq<LineV> {
        let l = truncated_to(label, self.label_width() as int);
        seq![one("  "@ + l + pad(self.label_width(), l) + right_aligned(human(r.size as int), self.size_width()), Tone::Plain)]
            + r.items@.map_values(|it: String| self.item_line(it))
    }

    /// The lines of the first `k` scanned targets.
    pub open spec fn results_lines(&self, k: nat) -> Seq<LineV>
        decreases k,
    {
        if k == 0 || k > self.results@.len() {
            Seq::empty()
        } else {
            self.results_lines((k - 1) as nat) + self.result_lines(self.results@[k - 1], self.targets@[k - 1].label@)
        }
    }

    /// A scan error's line.
    pub open spec fn error_line(&self, e: Error) -> LineV {
        one("  ✗ "@ + truncated_to(message_of(e), room(self.width, 6)), Tone::Faint)
    }

    /// The summary screen's title and column headers.
    pub open spec fn summary_head(&self) -> Seq<LineV> {
        seq![
            blank(),
            blank(),
            one("  Scan complete"@, Tone::BoldPrimary),
            blank(),
            one("  CATEGORY"@ + pad(self.label_width(), "CATEGORY"@) + right_aligned("SIZE"@, self.size_width()), Tone::Faint),
        ]
    }

    /// The summary screen's rule and total.
    pub open spec fn summary_total(&self) -> Seq<LineV> {
        let lw = self.label_width();
        let sw = self.size_width();
        let prefix = "Potential space to free:"@;
        seq![
            one("  "@ + Seq::new(lw + sw + 2, |i: int| '─'), Tone::Plain),
            seq![("  "@, Tone::Plain), (prefix, Tone::BoldPrimary), (pad(lw, prefix), Tone::Plain), (right_aligned(human(self.total as int), sw), Tone::Plain)],
        ]
    }

    /// The summary screen's closing lines: the dry-run note, then the scan
    /// errors and how to leave, or how to go on.
    pub open spec fn summary_tail(&self) -> Seq<LineV> {
        (if self.opts.dry_run {
            seq![one("  DRY RUN — no files will be deleted"@, Tone::Faint)]
        } else {
            Seq::empty()
        }) + if self.scan_errs@.len() > 0 {
            self.scan_errs@.map_values(|e: Error| self.error_line(e)) + seq![blank(), blank(), blank(), one("  Enter or q: exit"@, Tone::Faint)]
        } else {
            seq![blank(), blank(), blank(), one("  Enter: continue  •  q: quit"@, Tone::Faint)]
        }
    }

    /// The summary screen.
    pub open spec fn summary_view(&self) -> Seq<LineV> {
        self.summary_head() + self.results_lines(self.results@.len()) + self.summary_total() + self.summary_tail()
    }

    fn size_col(&self) -> (w: usize)
        ensures
            w == self.size_width(),
    {
        let tot = chars_of(human_size(self.total).as_str());
        let mut w = tot.len();
        let mut i: usize = 0;
        while i < self.results.len()
            invariant
                i <= self.results@.len(),
                w == max_size_len(self.results@.subrange(0, i as int), tot@.len()),
            decreases self.results.len() - i,
        {
            let l = chars_of(human_size(self.results[i].size).as_str()).len();
            assert(self.results@.subrange(0, i + 1).drop_last() =~= self.results@.subrange(0, i as int));
            if l > w {
                w = l;
            }
            i += 1;
        }
        assert(self.results@.subrange(0, i as int) =~= self.results@);
        w
    }

    fn label_col(&self, size_w: usize) -> (w: u128)
        requires
            size_w == self.size_width(),
        ensures
            w == self.label_width(),
            w <= usize::MAX,
    {
        let mut lw: usize = 0;
        let mut i: usize = 0;
        while i < self.targets.len()
            invariant
                i <= self.targets@.len(),
                lw == max_label_len(self.targets@.subrange(0, i as int)),
            decreases self.targets.len() - i,
        {
            let l = chars_of(self.targets[i].label.as_str()).len();
            assert(self.targets@.subrange(0, i + 1).drop_last() =~= self.targets@.subrange(0, i as int));
            if l > lw {
                lw = l;
            }
            i += 1;
        }
        assert(self.targets@.subrange(0, i as int) =~= self.targets@);
        let need = size_w as u128 + 6;
        let mx: u128 = if need >= self.width as u128 { 0 } else { self.width as u128 - need };
        let mut w = lw as u128;
        if w > mx && mx > 4 {
            w = mx;
        }
        if w < 1 {
            w = 1;
        }
        w
    }

    fn result_block(&self, ls: &mut Vec<Vec<Span>>, i: usize, label_w: u128, size_w: usize)
        requires
            i < self.results@.len(),
            self.results@.len() <= self.targets@.len(),
            label_w == self.label_width(),
            label_w <= usize::MAX,
            size_w == self.size_width(),
        ensures
            lines_view(final(ls)@) == lines_view(old(ls)@) + self.result_lines(self.results@[i as int], self.targets@[i as int].label@),
    {
        let ghost start = lines_view(ls@);
        let lab = chars_of(cut(self.targets[i].label.as_str(), label_w as i128).as_str());
        let mut t: Vec<char> = Vec::new();
        push_str(&mut t, "  ");
        push_all(&mut t, lab.as_slice());
        let gap: u128 = if label_w > lab.len() as u128 { label_w - lab.len() as u128 } else { 0 };
        push_spaces(&mut t, gap + 2);
        let hs = chars_of(human_size(self.results[i].size).as_str());
        push_right(&mut t, hs.as_slice(), size_w);
        assert(t@ =~= "  "@ + truncated_to(self.targets@[i as int].label@, self.label_width() as int) + pad(
            self.label_width(),
            truncated_to(self.targets@[i as int].label@, self.label_width() as int),
        ) + right_aligned(human(self.results@[i as int].size as int), self.size_width()));
        push_one(ls, t.as_slice(), Tone::Plain);
        let ghost items = self.results@[i as int].items@;
        let w8 = room_of(self.width, 8);
        let mut j: usize = 0;
        while j < self.results[i].items.len()
            invariant
                i < self.results@.len(),
                items == self.results@[i as int].items@,
                j <= items.len(),
                w8 == room(self.width, 8),
                lines_view(ls@) == start + seq![one(t@, Tone::Plain)] + items.subrange(0, j as int).map_values(
                    |it: String| self.item_line(it),
                ),
            decreases items.len() - j,
        {
            let mut u: Vec<char> = Vec::new();
            push_str(&mut u, "    - ");
            let c = chars_of(cut(self.results[i].items[j].as_str(), w8).as_str());
            push_all(&mut u, c.as_slice());
            assert(one(u@, Tone::Faint) =~= self.item_line(items[j as int]));
            push_one(ls, u.as_slice(), Tone::Faint);
            assert(items.subrange(0, j + 1).map_values(|it: String| self.item_line(it)) =~= items.subrange(
                0,
                j as int,
            ).map_values(|it: String| self.item_line(it)).push(self.item_line(items[j as int])));
            j += 1;
        }
        assert(items.subrange(0, j as int) =~= items);
        assert(lines_view(ls@) =~= start + self.result_lines(self.results@[i as int], self.targets@[i as int].label@));
    }

    fn push_head(&self, ls: &mut Vec<Vec<Span>>, label_w: u128, size_w: usize)
        requires
            label_w == self.label_width(),
            label_w <= usize::MAX,
            size_w == self.size_width(),
        ensures
            lines_view(final(ls)@) == lines_view(old(ls)@) + self.summary_head(),
    {
        let ghost start = lines_view(ls@);
        push_blank(ls);
        push_blank(ls);
        push_lit(ls, "  Scan complete", Tone::BoldPrimary);
        push_blank(ls);
        let mut t: Vec<char> = Vec::new();
        push_str(&mut t, "  CATEGORY");
        let cat = chars_of("CATEGORY");
        let gap: u128 = if label_w > cat.len() as u128 { label_w - cat.len() as u128 } else { 0 };
        push_spaces(&mut t, gap + 2);
        let sz = chars_of("SIZE");
        push_right(&mut t, sz.as_slice(), size_w);
        assert(t@ =~= "  CATEGORY"@ + pad(self.label_width(), "CATEGORY"@) + right_aligned("SIZE"@, self.size_width()));
        push_one(ls, t.as_slice(), Tone::Faint);
        assert(lines_view(ls@) =~= start + self.summary_head());
    }

    fn push_total(&self, ls: &mut Vec<Vec<Span>>, label_w: u128, size_w: usize)
        requires
            label_w == self.label_width(),
            label_w <= usize::MAX,
            size_w == self.size_width(),
        ensures
            lines_view(final(ls)@) == lines_view(old(ls)@) + self.summary_total(),
    {
        let ghost start = lines_view(ls@);
        let mut r: Vec<char> = Vec::new();
        push_str(&mut r, "  ");
        let n: u128 = label_w + size_w as u128 + 2;
        let mut k: u128 = 0;
        while k < n
            invariant
                k <= n,
                r@ == "  "@ + Seq::new(k as nat, |i: int| '─'),
            decreases n - k,
        {
            r.push('─');
            assert(r@ =~= "  "@ + Seq::new((k + 1) as nat, |i: int| '─'));
            k += 1;
        }
        push_one(ls, r.as_slice(), Tone::Plain);
        let prefix = chars_of("Potential space to free:");
        let pgap: u128 = if label_w > prefix.len() as u128 { label_w - prefix.len() as u128 } else { 0 };
        let mut p: Vec<char> = Vec::new();
        push_spaces(&mut p, pgap + 2);
        let tot = chars_of(human_size(self.total).as_str());
        let mut q: Vec<char> = Vec::new();
        push_right(&mut q, tot.as_slice(), size_w);
        let mut tl: Vec<Span> = Vec::new();
        tl.push(Span { text: String::from_str("  "), tone: Tone::Plain });
        tl.push(Span { text: String::from_str("Potential space to free:"), tone: Tone::BoldPrimary });
        tl.push(Span { text: string_of(p.as_slice()), tone: Tone::Plain });
        tl.push(Span { text: string_of(q.as_slice()), tone: Tone::Plain });
        assert(p@ =~= pad(label_w as nat, "Potential space to free:"@));
        assert(q@ =~= right_aligned(human(self.total as int), size_w as nat));
        assert(line_view(tl@) =~= seq![
            ("  "@, Tone::Plain),
            ("Potential space to free:"@, Tone::BoldPrimary),
            (pad(label_w as nat, "Potential space to free:"@), Tone::Plain),
            (right_aligned(human(self.total as int), size_w as nat), Tone::Plain),
        ]);
        push_line(ls, tl);
        assert(lines_view(ls@) =~= start + self.summary_total());
    }

    fn push_tail(&self, ls: &mut Vec<Vec<Span>>)
        ensures
            lines_view(final(ls)@) == lines_view(old(ls)@) + self.summary_tail(),
    {
        let ghost start = lines_view(ls@);
        if self.opts.dry_run {
            push_lit(ls, "  DRY RUN — no files will be deleted", Tone::Faint);
        }
        let ghost before_errs = lines_view(ls@);
        if self.scan_errs.len() > 0 {
            let w6 = room_of(self.width, 6);
            let mut j: usize = 0;
            while j < self.scan_errs.len()
                invariant
                    j <= self.scan_errs@.len(),
                    w6 == room(self.width, 6),
                    lines_view(ls@) == before_errs + self.scan_errs@.subrange(0, j as int).map_values(
                        |e: Error| self.error_line(e),
                    ),
                decreases self.scan_errs.len() - j,
            {
                let mut u: Vec<char> = Vec::new();
                push_str(&mut u, "  ✗ ");
                let m = self.scan_errs[j].message();
                let c = chars_of(cut(m.as_str(), w6).as_str());
                push_all(&mut u, c.as_slice());
                assert(one(u@, Tone::Faint) =~= self.error_line(self.scan_errs@[j as int]));
                push_one(ls, u.as_slice(), Tone::Faint);
                assert(self.scan_errs@.subrange(0, j + 1).map_values(|e: Error| self.error_line(e))
                    =~= self.scan_errs@.subrange(0, j as int).map_values(|e: Error| self.error_line(e)).push(
                    self.error_line(self.scan_errs@[j as int]),
                ));
                j += 1;
            }
            assert(self.scan_errs@.subrange(0, j as int) =~= self.scan_errs@);
            push_blank(ls);
            push_blank(ls);
            push_blank(ls);
            push_lit(ls, "  Enter or q: exit", Tone::Faint);
        } else {
            push_blank(ls);
            push_blank(ls);
            push_blank(ls);
            push_lit(ls, "  Enter: continue  •  q: quit", Tone::Faint);
        }
        assert(lines_view(ls@) =~= start + self.summary_tail());
    }

    /// The summary screen: a table of targets and sizes with their preview
    /// items, the total, then the scan errors or how to go on.
    pub fn view_summary(&self) -> (ls: Vec<Vec<Span>>)
        requires
            self.results@.len() <= self.targets@.len(),
        ensures
            lines_view(ls@) == self.summary_view(),
    {
        let size_w = self.size_col();
        let label_w = self.label_col(size_w);
        let mut ls: Vec<Vec<Span>> = Vec::new();
        self.push_head(&mut ls, label_w, size_w);
        let ghost head = lines_view(ls@);
        assert(head =~= self.summary_head());
        let mut i: usize = 0;
        while i < self.results.len()
            invariant
                i <= self.results@.len(),
                self.results@.len() <= self.targets@.len(),
                label_w == self.label_width(),
                label_w <= usize::MAX,
                size_w == self.size_width(),
                lines_view(ls@) == head + self.results_lines(i as nat),
            decreases self.results.len() - i,
        {
            self.result_block(&mut ls, i, label_w, size_w);
            assert(lines_view(ls@) =~= head + self.results_lines((i + 1) as nat));
            i += 1;
        }
        self.push_total(&mut ls, label_w, size_w);
        self.push_tail(&mut ls);
        assert(lines_view(ls@) =~= self.summary_view());
        ls
    }

    /// The screen for the current state, `secs` seconds into a run.
    pub open spec fn screen(&self, secs: nat) -> Seq<LineV> {
        match self.state {
            FlowState::Scanning => self.scanning_view(),
            FlowState::Summary => self.summary_view(),
            FlowState::Confirm => self.confirm_view(),
            FlowState::Running => self.running_view(),
            FlowState::Done => self.done_view(secs),
        }
    }

    /// The screen for the current state as styled lines; `secs` is how long
    /// the run has taken, shown on the done screen.
    pub fn view_lines(&self, secs: u64) -> (ls: Vec<Vec<Span>>)
        requires
            self.wf(),
        ensures
            lines_view(ls@) == self.screen(secs as nat),
    {
        match self.state {
            FlowState::Scanning => self.view_scanning(),
            FlowState::Summary => self.view_summary(),
            FlowState::Confirm => self.view_confirm(),
            FlowState::Running => self.view_running(),
            FlowState::Done => self.view_done(secs),
        }
    }
}

/// What a key event means to the workflow: Ctrl+C; `q` or Esc; Enter or
/// Space; the arrows, `h`, `l` and Tab flip YES/NO; nothing else (nor any
/// other key with Control or Alt) means anything.
pub open spec fn flow_key_of(k: crate::tui::KeyEvent) -> Option<Key> {
    if crate::tui::ctrl_c(k) {
        Some(Key::CtrlC)
    } else if k.ctrl || k.alt {
        None
    } else if k.code == crate::tui::Key::Char('q') || k.code == crate::tui::Key::Esc {
        Some(Key::Quit)
    } else if k.code == crate::tui::Key::Enter || k.code == crate::tui::Key::Char(' ') {
        Some(Key::Select)
    } else if k.code == crate::tui::Key::Left || k.code == crate::tui::Key::Char('h') || k.code
        == crate::tui::Key::Right || k.code == crate::tui::Key::Char('l') || k.code == crate::tui::Key::Tab {
        Some(Key::Flip)
    } else {
        None
    }
}

/// The workflow key of a key event, if it is one.
pub fn flow_key(k: crate::tui::KeyEvent) -> (r: Option<Key>)
    ensures
        r == flow_key_of(k),
{
    if crate::tui::is_ctrl_c(&k) {
        return Some(Key::CtrlC);
    }
    if k.ctrl || k.alt {
        return None;
    }
    match k.code {
        crate::tui::Key::Char('q') | crate::tui::Key::Esc => Some(Key::Quit),
        crate::tui::Key::Enter | crate::tui::Key::Char(' ') => Some(Key::Select),
        crate::tui::Key::Left | crate::tui::Key::Char('h') | crate::tui::Key::Right | crate::tui::Key::Char('l')
        | crate::tui::Key::Tab => Some(Key::Flip),
        _ => None,
    }
}

} // verus!
