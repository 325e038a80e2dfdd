//! Applying selected findings: which findings run and as what, and the
//! result, transcript line and log outcome of each. Running a clean target
//! or an optimize step touches the system and is done by the caller between
//! [`plan_apply`] and [`finish_step`].

use vstd::prelude::*;
use super::findings::{Finding, action_parts, actionable, parse_action};
use crate::error::{Error, message_of};
use crate::text::{chars_of, eq_str, push_all, push_str, string_of};

verus! {

/// The outcome of applying one finding.
#[derive(Debug)]
pub struct ApplyResult {
    pub finding_id: String,
    pub action: String,
    pub err: Option<Error>,
    pub skipped: bool,
}

/// What applying one finding does.
#[derive(Debug)]
pub enum StepKind {
    /// Not applied: not selectable, no action, or an action already applied.
    Skip,
    /// Execute the clean target with this id.
    Clean(String),
    /// Run the optimize step with this id.
    Optimize(String),
    /// An action of a kind nothing handles.
    Unknown(String),
}

/// One finding to apply, in order.
#[derive(Debug)]
pub struct ApplyStep {
    pub finding_id: String,
    pub action: String,
    pub title: String,
    pub kind: StepKind,
}

/// Whether a finding is applied at all (ignoring repeats).
pub open spec fn runnable(f: Finding) -> bool {
    f.selectable && actionable(f.action@)
}

/// Whether an earlier runnable finding carries the same action.
pub open spec fn repeated(fs: Seq<Finding>, k: int) -> bool {
    exists|j: int| 0 <= j < k && runnable(#[trigger] fs[j]) && fs[j].action@ == fs[k].action@
}

/// The abstract kind of a step: 0 skip, 1 clean, 2 optimize, 3 unknown,
/// with the id (or the unknown kind).
pub open spec fn kind_of(fs: Seq<Finding>, k: int) -> (int, Seq<char>) {
    if !runnable(fs[k]) || repeated(fs, k) {
        (0, seq![])
    } else {
        let (kind, id) = action_parts(fs[k].action@);
        if kind == "clean"@ {
            (1, id)
        } else if kind == "optimize"@ {
            (2, id)
        } else {
            (3, kind)
        }
    }
}

pub open spec fn step_kind_view(k: StepKind) -> (int, Seq<char>) {
    match k {
        StepKind::Skip => (0, seq![]),
        StepKind::Clean(id) => (1, id@),
        StepKind::Optimize(id) => (2, id@),
        StepKind::Unknown(kind) => (3, kind@),
    }
}

fn same_action_before(fs: &[Finding], k: usize) -> (b: bool)
    requires
        k < fs@.len(),
    ensures
        b == repeated(fs@, k as int),
{
    let a = chars_of(fs[k].action.as_str());
    let mut j: usize = 0;
    while j < k
        invariant
            j <= k < fs@.len(),
            a@ == fs@[k as int].action@,
            forall|i: int| 0 <= i < j ==> !(runnable(#[trigger] fs@[i]) && fs@[i].action@ == fs@[k as int].action@),
        decreases k - j,
    {
        let f = &fs[j];
        let b = chars_of(f.action.as_str());
        if f.selectable && b.len() > 0 && !eq_str(b.as_slice(), "none") && crate::text::eq(b.as_slice(), a.as_slice()) {
            return true;
        }
        j += 1;
    }
    false
}

/// The steps for the selected findings, one per finding in order: findings
/// that are not selectable, carry no action, or repeat the action of an
/// earlier applied finding are skipped; the rest run by their action's kind.
pub fn plan_apply(selected: &[Finding]) -> (steps: Vec<ApplyStep>)
    ensures
        steps@.len() == selected@.len(),
        forall|k: int| 0 <= k < steps@.len() ==> {
            &&& (#[trigger] steps@[k]).finding_id@ == selected@[k].id@
            &&& steps@[k].action@ == selected@[k].action@
            &&& steps@[k].title@ == selected@[k].title@
            &&& step_kind_view(steps@[k].kind) == kind_of(selected@, k)
        },
{
    let mut steps: Vec<ApplyStep> = Vec::new();
    let mut i: usize = 0;
    while i < selected.len()
        invariant
            i <= selected@.len(),
            steps@.len() == i,
            forall|k: int| 0 <= k < i ==> {
                &&& (#[trigger] steps@[k]).finding_id@ == selected@[k].id@
                &&& steps@[k].action@ == selected@[k].action@
                &&& steps@[k].title@ == selected@[k].title@
                &&& step_kind_view(steps@[k].kind) == kind_of(selected@, k)
            },
        decreases selected.len() - i,
    {
        let f = &selected[i];
        let a = chars_of(f.action.as_str());
        let run = f.selectable && a.len() > 0 && !eq_str(a.as_slice(), "none");
        let kind = if !run || same_action_before(selected, i) {
            StepKind::Skip
        } else {
            let (kind, id) = parse_action(f.action.as_str());
            let kc = chars_of(kind.as_str());
            if eq_str(kc.as_slice(), "clean") {
                StepKind::Clean(id)
            } else if eq_str(kc.as_slice(), "optimize") {
                StepKind::Optimize(id)
            } else {
                StepKind::Unknown(kind)
            }
        };
        steps.push(ApplyStep {
            finding_id: f.id.clone(),
            action: f.action.clone(),
            title: f.title.clone(),
            kind,
        });
        i += 1;
    }
    steps
}

/// The line printed before a step runs: `→ Applying <title> (<action>)…`.
pub fn step_header(step: &ApplyStep) -> (s: String)
    ensures
        s@ == "→ Applying "@ + step.title@ + " ("@ + step.action@ + ")…"@,
{
    let mut t: Vec<char> = Vec::new();
    push_str(&mut t, "→ Applying ");
    let title = chars_of(step.title.as_str());
    push_all(&mut t, title.as_slice());
    push_str(&mut t, " (");
    let action = chars_of(step.action.as_str());
    push_all(&mut t, action.as_slice());
    push_str(&mut t, ")…");
    string_of(t.as_slice())
}

/// The error of an action of unknown kind.
pub fn unknown_kind_error(kind: &String) -> (e: Error)
    ensures
        message_of(e) == "unknown action kind: "@ + kind@,
        e is Msg,
{
    let mut t: Vec<char> = Vec::new();
    push_str(&mut t, "unknown action kind: ");
    let k = chars_of(kind.as_str());
    push_all(&mut t, k.as_slice());
    Error::Msg(string_of(t.as_slice()))
}

/// How a step ended: its result, the line printed after it (none for a
/// skipped step), and the outcome recorded in the operations log.
pub struct StepReport {
    pub result: ApplyResult,
    pub line: Option<String>,
    pub outcome: &'static str,
}

/// Finishes a step: a planned skip is recorded as skipped; otherwise an
/// error is a warning and a failure, a step skipped by the optimize policy
/// is reported as such, and anything else is done (a dry run, or a success).
pub fn finish_step(step: &ApplyStep, skipped: bool, err: Option<Error>, dry_run: bool) -> (r: StepReport)
    ensures
        r.result.finding_id@ == step.finding_id@,
        r.result.action@ == step.action@,
        step.kind is Skip ==> r.result.skipped && r.result.err is None && r.line is None && r.outcome@
            == "skipped"@,
        !(step.kind is Skip) ==> r.result.err == err && r.result.skipped == skipped && match err {
            Some(e) => r.line matches Some(l) && l@ == "  warn: "@ + message_of(e) && r.outcome@
                == "failure"@,
            None => if skipped {
                r.line matches Some(l) && l@ == "  ⏭️ Skipped by optimize policy"@ && r.outcome@
                    == "skipped"@
            } else {
                r.line matches Some(l) && l@ == "  ✅ Done"@ && r.outcome@ == (if dry_run {
                    "dry-run"@
                } else {
                    "success"@
                })
            },
        },
{
    let result_skip = ApplyResult {
        finding_id: step.finding_id.clone(),
        action: step.action.clone(),
        err: None,
        skipped: true,
    };
    match &step.kind {
        StepKind::Skip => {
            return StepReport { result: result_skip, line: None, outcome: "skipped" };
        },
        _ => {},
    }
    let (line, outcome) = match &err {
        Some(e) => {
            let mut t: Vec<char> = Vec::new();
            push_str(&mut t, "  warn: ");
            let m = e.message();
            let mc = chars_of(m.as_str());
            push_all(&mut t, mc.as_slice());
            (string_of(t.as_slice()), "failure")
        },
        None => if skipped {
            (String::from_str("  ⏭️ Skipped by optimize policy"), "skipped")
        } else {
            (String::from_str("  ✅ Done"), if dry_run { "dry-run" } else { "success" })
        },
    };
    StepReport {
        result: ApplyResult {
            finding_id: step.finding_id.clone(),
            action: step.action.clone(),
            err,
            skipped,
        },
        line: Some(line),
        outcome,
    }
}

/// How many apply results failed.
pub fn count_apply_errors(rs: &[ApplyResult]) -> (n: usize)
    ensures
        n == rs@.filter(|r: ApplyResult| r.err is Some).len(),
{
    let mut n: usize = 0;
    let mut i: usize = 0;
    while i < rs.len()
        invariant
            i <= rs@.len(),
            n == rs@.subrange(0, i as int).filter(|r: ApplyResult| r.err is Some).len(),
            n <= i,
        decreases rs.len() - i,
    {
        proof {
            reveal(Seq::filter);
            assert(rs@.subrange(0, i + 1).drop_last() =~= rs@.subrange(0, i as int));
        }
        if rs[i].err.is_some() {
            n += 1;
        }
        i += 1;
    }
    assert(rs@.subrange(0, i as int) =~= rs@);
    n
}

} // verus!
