//! Optimize steps: the step catalog, which steps are skipped, the plan, the
//! sequential executor's record of each step, and the summary.

use vstd::prelude::*;
use crate::error::{Error, message_of};
use crate::text::{chars_of, push_all, push_str, string_of, string_views};
use crate::fmt::{dec, fmt_u64};

verus! {

/// The options of `mu optimize`.
#[derive(Debug, Clone)]
pub struct Options {
    /// Preview actions without making changes.
    pub dry_run: bool,
    /// Verbose logging.
    pub debug: bool,
    /// Step ids from `--skip`, merged over the configured ones.
    pub skip: Vec<String>,
    /// Skip the confirmation prompt.
    pub auto_yes: bool,
}

impl Default for Options {
    fn default() -> (o: Options)
        ensures
            !o.dry_run && !o.debug && o.skip@.len() == 0 && !o.auto_yes,
    {
        Options { dry_run: false, debug: false, skip: Vec::new(), auto_yes: false }
    }
}

/// The outcome of one step.
#[derive(Debug, Clone, Copy, PartialEq, Eq, Structural)]
pub enum StepStatus {
    Success,
    Failed,
    Skipped,
}

impl StepStatus {
    /// The outcome text recorded in the operations log.
    pub fn as_str(self) -> (s: &'static str)
        ensures
            s@ == status_text(self),
    {
        match self {
            StepStatus::Success => "success",
            StepStatus::Failed => "failed",
            StepStatus::Skipped => "skipped",
        }
    }
}

pub open spec fn status_text(s: StepStatus) -> Seq<char> {
    match s {
        StepStatus::Success => "success"@,
        StepStatus::Failed => "failed"@,
        StepStatus::Skipped => "skipped"@,
    }
}

/// The recorded outcome of one step.
#[derive(Debug)]
pub struct StepResult {
    pub id: String,
    pub status: StepStatus,
    pub err: Option<Error>,
}

/// One optimize step: its id and what it does.
#[derive(Debug, Clone)]
pub struct Step {
    pub id: String,
    pub desc: String,
}

/// The built-in steps, in order.
pub open spec fn steps_spec() -> Seq<(Seq<char>, Seq<char>)> {
    seq![("apt"@, "apt-get update && apt-get autoremove --purge"@), ("journal"@,
        "journalctl --vacuum-size=500M"@), ("caches"@, "update icon/mime/font caches"@)]
}

pub open spec fn step_views(v: Seq<Step>) -> Seq<(Seq<char>, Seq<char>)> {
    v.map_values(|s: Step| (s.id@, s.desc@))
}

/// The built-in steps: apt, journal, caches.
pub fn all_steps() -> (v: Vec<Step>)
    ensures
        step_views(v@) == steps_spec(),
{
    let mut v = Vec::new();
    v.push(Step { id: String::from_str("apt"), desc: String::from_str("apt-get update && apt-get autoremove --purge") });
    v.push(Step { id: String::from_str("journal"), desc: String::from_str("journalctl --vacuum-size=500M") });
    v.push(Step { id: String::from_str("caches"), desc: String::from_str("update icon/mime/font caches") });
    assert(step_views(v@) =~= steps_spec());
    v
}

/// The ids of the built-in steps, in order.
pub fn step_ids() -> (v: Vec<&'static str>)
    ensures
        v@.map_values(|s: &'static str| s@) == seq!["apt"@, "journal"@, "caches"@],
{
    let mut v = Vec::new();
    v.push("apt");
    v.push("journal");
    v.push("caches");
    assert(v@.map_values(|s: &'static str| s@) =~= seq!["apt"@, "journal"@, "caches"@]);
    v
}

/// The ids of the built-in steps.
pub open spec fn valid_ids() -> Seq<Seq<char>> {
    seq!["apt"@, "journal"@, "caches"@]
}

/// The command-line entries, then the configured ones not already listed.
pub open spec fn merged(cli: Seq<Seq<char>>, cfg: Seq<Seq<char>>) -> Seq<Seq<char>>
    decreases cfg.len(),
{
    if cfg.len() == 0 {
        cli
    } else {
        let m = merged(cli, cfg.drop_last());
        if m.contains(cfg.last()) {
            m
        } else {
            m.push(cfg.last())
        }
    }
}

/// The first id that names no step, if any.
pub open spec fn first_unknown(s: Seq<Seq<char>>) -> Option<Seq<char>>
    decreases s.len(),
{
    if s.len() == 0 {
        None
    } else {
        match first_unknown(s.drop_last()) {
            Some(x) => Some(x),
            None => if valid_ids().contains(s.last()) {
                None
            } else {
                Some(s.last())
            },
        }
    }
}

fn contains_str(v: &Vec<String>, x: &String) -> (b: bool)
    ensures
        b == string_views(v@).contains(x@),
{
    let ghost sv = string_views(v@);
    let xc = chars_of(x.as_str());
    let mut i: usize = 0;
    while i < v.len()
        invariant
            i <= v@.len(),
            sv == string_views(v@),
            xc@ == x@,
            forall|j: int| 0 <= j < i ==> sv[j] != x@,
        decreases v.len() - i,
    {
        let c = chars_of(v[i].as_str());
        if crate::text::eq(c.as_slice(), xc.as_slice()) {
            assert(sv[i as int] == x@);
            return true;
        }
        i += 1;
    }
    false
}

fn is_step_id(x: &String) -> (b: bool)
    ensures
        b == valid_ids().contains(x@),
{
    let c = chars_of(x.as_str());
    let b = crate::text::eq_str(c.as_slice(), "apt") || crate::text::eq_str(c.as_slice(), "journal")
        || crate::text::eq_str(c.as_slice(), "caches");
    proof {
        if b {
            if c@ == "apt"@ {
                assert(valid_ids()[0] == x@);
            } else if c@ == "journal"@ {
                assert(valid_ids()[1] == x@);
            } else {
                assert(valid_ids()[2] == x@);
            }
        }
    }
    b
}

/// The steps to skip: `cli` (from `--skip`) followed by the configured
/// `config_steps` not already listed; an id that names no step is an error.
pub fn resolve_skip(cli: &Vec<String>, config_steps: &Vec<String>) -> (r: Result<Vec<String>, Error>)
    ensures
        match first_unknown(merged(string_views(cli@), string_views(config_steps@))) {
            Some(x) => r matches Err(Error::Msg(m)) && m@ == "unknown optimize skip ID: "@ + x,
            None => r matches Ok(v) && string_views(v@) == merged(string_views(cli@), string_views(config_steps@)),
        },
{
    let ghost cv = string_views(config_steps@);
    let mut skip: Vec<String> = Vec::new();
    let mut i: usize = 0;
    while i < cli.len()
        invariant
            i <= cli@.len(),
            string_views(skip@) == string_views(cli@).subrange(0, i as int),
        decreases cli.len() - i,
    {
        let ghost before = string_views(skip@);
        skip.push(cli[i].clone());
        assert(string_views(skip@) =~= before.push(cli@[i as int]@));
        assert(string_views(cli@).subrange(0, i + 1) =~= string_views(cli@).subrange(0, i as int).push(cli@[i as int]@));
        i += 1;
    }
    assert(string_views(cli@).subrange(0, i as int) =~= string_views(cli@));
    let mut j: usize = 0;
    while j < config_steps.len()
        invariant
            j <= config_steps@.len(),
            cv == string_views(config_steps@),
            string_views(skip@) == merged(string_views(cli@), cv.subrange(0, j as int)),
        decreases config_steps.len() - j,
    {
        assert(cv.subrange(0, j + 1).drop_last() =~= cv.subrange(0, j as int));
        if !contains_str(&skip, &config_steps[j]) {
            let ghost before = string_views(skip@);
            skip.push(config_steps[j].clone());
            assert(string_views(skip@) =~= before.push(cv[j as int]));
        }
        j += 1;
    }
    assert(cv.subrange(0, j as int) =~= cv);
    let ghost sv = string_views(skip@);
    let mut k: usize = 0;
    while k < skip.len()
        invariant
            k <= skip@.len(),
            sv == string_views(skip@),
            sv == merged(string_views(cli@), string_views(config_steps@)),
            first_unknown(sv.subrange(0, k as int)) is None,
        decreases skip.len() - k,
    {
        assert(sv.subrange(0, k + 1).drop_last() =~= sv.subrange(0, k as int));
        if !is_step_id(&skip[k]) {
            let mut t: Vec<char> = Vec::new();
            push_str(&mut t, "unknown optimize skip ID: ");
            let c = chars_of(skip[k].as_str());
            push_all(&mut t, c.as_slice());
            proof {
                lemma_first_unknown_prefix(sv, k + 1);
            }
            return Err(Error::Msg(string_of(t.as_slice())));
        }
        k += 1;
    }
    assert(sv.subrange(0, k as int) =~= sv);
    Ok(skip)
}

pub proof fn lemma_first_unknown_prefix(s: Seq<Seq<char>>, n: int)
    requires
        0 <= n <= s.len(),
        first_unknown(s.subrange(0, n)) is Some,
    ensures
        first_unknown(s) == first_unknown(s.subrange(0, n)),
    decreases s.len() - n,
{
    if n < s.len() {
        assert(s.subrange(0, n + 1).drop_last() =~= s.subrange(0, n));
        lemma_first_unknown_prefix(s, n + 1);
    } else {
        assert(s.subrange(0, n) =~= s);
    }
}

/// The plan line of a step: `[skip]` or `[run]` and what it does.
pub open spec fn plan_line(st: (Seq<char>, Seq<char>), skip: Seq<Seq<char>>) -> Seq<char> {
    if skip.contains(st.0) {
        "  [skip]  "@ + st.1
    } else {
        "  [run]   "@ + st.1
    }
}

/// The plan: one line per step, marking the skipped ones.
pub fn plan_lines(steps: &Vec<Step>, skip: &Vec<String>) -> (r: Vec<String>)
    ensures
        r@.len() == steps@.len(),
        forall|k: int| 0 <= k < r@.len() ==> (#[trigger] r@[k])@ == plan_line(step_views(steps@)[k], string_views(skip@)),
{
    let mut r: Vec<String> = Vec::new();
    let mut i: usize = 0;
    while i < steps.len()
        invariant
            i <= steps@.len(),
            r@.len() == i,
            forall|k: int| 0 <= k < i ==> (#[trigger] r@[k])@ == plan_line(step_views(steps@)[k], string_views(skip@)),
        decreases steps.len() - i,
    {
        let mut t: Vec<char> = Vec::new();
        if contains_str(skip, &steps[i].id) {
            push_str(&mut t, "  [skip]  ");
        } else {
            push_str(&mut t, "  [run]   ");
        }
        let d = chars_of(steps[i].desc.as_str());
        push_all(&mut t, d.as_slice());
        r.push(string_of(t.as_slice()));
        i += 1;
    }
    r
}

/// `b` without trailing newlines.
pub open spec fn trim_newlines(b: Seq<u8>) -> Seq<u8>
    decreases b.len(),
{
    if b.len() > 0 && b.last() == 10u8 {
        trim_newlines(b.drop_last())
    } else {
        b
    }
}

/// The bytes of `\n... (truncated)`.
pub open spec fn truncated_mark() -> Seq<u8> {
    seq![10u8, 46u8, 46u8, 46u8, 32u8, 40u8, 116u8, 114u8, 117u8, 110u8, 99u8, 97u8, 116u8, 101u8, 100u8, 41u8]
}

/// A step's captured output as shown: trailing newlines dropped, and past
/// 4096 bytes cut with a truncation mark.
pub open spec fn shown_output(b: Seq<u8>) -> Seq<u8> {
    let t = trim_newlines(b);
    if t.len() > 4096 {
        t.subrange(0, 4096) + truncated_mark()
    } else {
        t
    }
}

/// The output of a step as it is shown.
pub fn step_output(buf: Vec<u8>) -> (r: Vec<u8>)
    ensures
        r@ == shown_output(buf@),
{
    let ghost orig = buf@;
    let mut buf = buf;
    while buf.len() > 0 && buf[buf.len() - 1] == 10u8
        invariant
            trim_newlines(buf@) == trim_newlines(orig),
        decreases buf.len(),
    {
        let ghost b = buf@;
        buf.pop();
        assert(buf@ =~= b.drop_last());
    }
    assert(trim_newlines(buf@) == buf@);
    if buf.len() > 4096 {
        buf.truncate(4096);
        let mark: [u8; 16] = [10u8, 46u8, 46u8, 46u8, 32u8, 40u8, 116u8, 114u8, 117u8, 110u8, 99u8, 97u8, 116u8, 101u8, 100u8, 41u8];
        let ghost head = buf@;
        let mut i: usize = 0;
        while i < 16
            invariant
                i <= 16,
                mark@ == truncated_mark(),
                buf@ == head + truncated_mark().subrange(0, i as int),
            decreases 16 - i,
        {
            buf.push(mark[i]);
            assert(truncated_mark().subrange(0, i + 1) =~= truncated_mark().subrange(0, i as int).push(mark@[i as int]));
            i += 1;
        }
        assert(truncated_mark().subrange(0, 16) =~= truncated_mark());
    }
    buf
}

/// What running a step gave: its result and its captured output.
pub type StepRun = (Result<(), Error>, Vec<u8>);

/// What the executor shows after a step: its output (which the caller ends
/// with a newline when it is not empty) and, for a failure,
/// `failed: <id>: <error>`.
#[derive(Debug)]
pub struct StepReport {
    pub output: Vec<u8>,
    pub failed_line: Option<String>,
}

/// The record of step `k` given what running it gave.
pub open spec fn record_of(id: Seq<char>, skipped: bool, run: Option<StepRun>, res: StepResult, rep: StepReport) -> bool {
    &&& res.id@ == id
    &&& if skipped {
        res.status == StepStatus::Skipped && res.err is None && rep.output@.len() == 0 && rep.failed_line is None
    } else {
        run matches Some((r, out)) && rep.output@ == shown_output(out@) && (match r {
            Ok(()) => res.status == StepStatus::Success && res.err is None && rep.failed_line is None,
            Err(e) => res.status == StepStatus::Failed && res.err == Some(e) && (rep.failed_line matches Some(l)
                && l@ == "failed: "@ + id + ": "@ + message_of(e)),
        })
    }
}

/// Runs the steps in order through `run` (given each step's index), except
/// the skipped ones, which never run: `run` need accept only the indices of
/// steps that are not skipped. A failure does not stop later steps.
/// Returns each step's result and what is shown after it.
pub fn execute_steps<F: Fn(usize) -> StepRun>(steps: &Vec<Step>, skip: &Vec<String>, run: F) -> (r: (Vec<StepResult>, Vec<StepReport>))
    requires
        forall|k: int|
            0 <= k < steps@.len() && !string_views(skip@).contains(#[trigger] steps@[k].id@) ==> call_requires(
                run,
                (k as usize,),
            ),
    ensures
        r.0@.len() == steps@.len(),
        r.1@.len() == steps@.len(),
        forall|k: int| 0 <= k < steps@.len() ==> {
            let skipped = string_views(skip@).contains(#[trigger] steps@[k].id@);
            &&& skipped ==> record_of(steps@[k].id@, true, None, r.0@[k], r.1@[k])
            &&& !skipped ==> exists|out: StepRun| call_ensures(run, (k as usize,), out)
                && record_of(steps@[k].id@, false, Some(out), r.0@[k], r.1@[k])
        },
{
    let mut results: Vec<StepResult> = Vec::new();
    let mut reports: Vec<StepReport> = Vec::new();
    let ghost mut outs: Seq<Option<StepRun>> = seq![];
    let mut i: usize = 0;
    while i < steps.len()
        invariant
            i <= steps@.len(),
            results@.len() == i,
            reports@.len() == i,
            outs.len() == i,
            forall|k: int|
                0 <= k < steps@.len() && !string_views(skip@).contains(#[trigger] steps@[k].id@) ==> call_requires(
                    run,
                    (k as usize,),
                ),
            forall|k: int| 0 <= k < i ==> {
                let skipped = string_views(skip@).contains(#[trigger] steps@[k].id@);
                &&& skipped ==> record_of(steps@[k].id@, true, None, results@[k], reports@[k])
                &&& !skipped ==> (outs[k] matches Some(o) && call_ensures(run, (k as usize,), o)
                    && record_of(steps@[k].id@, false, outs[k], results@[k], reports@[k]))
            },
        decreases steps.len() - i,
    {
        let id = steps[i].id.clone();
        if contains_str(skip, &steps[i].id) {
            results.push(StepResult { id, status: StepStatus::Skipped, err: None });
            reports.push(StepReport { output: Vec::new(), failed_line: None });
            proof {
                outs = outs.push(None);
            }
        } else {
            let out = run(i);
            let ghost got = out;
            let (res, buf) = out;
            let shown = step_output(buf);
            match res {
                Ok(()) => {
                    results.push(StepResult { id, status: StepStatus::Success, err: None });
                    reports.push(StepReport { output: shown, failed_line: None });
                },
                Err(e) => {
                    let mut t: Vec<char> = Vec::new();
                    push_str(&mut t, "failed: ");
                    let ic = chars_of(steps[i].id.as_str());
                    push_all(&mut t, ic.as_slice());
                    push_str(&mut t, ": ");
                    let m = e.message();
                    let mc = chars_of(m.as_str());
                    push_all(&mut t, mc.as_slice());
                    results.push(StepResult { id, status: StepStatus::Failed, err: Some(e) });
                    reports.push(StepReport { output: shown, failed_line: Some(string_of(t.as_slice())) });
                },
            }
            proof {
                outs = outs.push(Some(got));
            }
        }
        i += 1;
    }
    assert forall|k: int| 0 <= k < steps@.len() implies {
        let skipped = string_views(skip@).contains(#[trigger] steps@[k].id@);
        &&& skipped ==> record_of(steps@[k].id@, true, None, results@[k], reports@[k])
        &&& !skipped ==> exists|out: StepRun| call_ensures(run, (k as usize,), out)
            && record_of(steps@[k].id@, false, Some(out), results@[k], reports@[k])
    } by {
        let skipped = string_views(skip@).contains(steps@[k].id@);
        if !skipped {
            let o = outs[k]->Some_0;
            assert(call_ensures(run, (k as usize,), o) && record_of(steps@[k].id@, false, Some(o), results@[k], reports@[k]));
        }
    }
    (results, reports)
}

/// The failures joined: `optimize step <id>: <error>` per failed step, one
/// per line.
pub open spec fn failure_lines(rs: Seq<StepResult>) -> Seq<Seq<char>>
    decreases rs.len(),
{
    if rs.len() == 0 {
        seq![]
    } else {
        failure_lines(rs.drop_last()) + match rs.last().err {
            Some(e) => if rs.last().status == StepStatus::Failed {
                seq!["optimize step "@ + rs.last().id@ + ": "@ + message_of(e)]
            } else {
                seq![]
            },
            None => seq![],
        }
    }
}

/// The error of the failed steps, if any.
pub fn step_errors(results: &[StepResult]) -> (r: Result<(), Error>)
    ensures
        failure_lines(results@).len() == 0 ==> r is Ok,
        failure_lines(results@).len() > 0 ==> (r matches Err(Error::Msg(m)) && m@ == crate::status::proc::join_lines(failure_lines(results@))),
{
    let mut errs: Vec<Vec<char>> = Vec::new();
    let mut i: usize = 0;
    while i < results.len()
        invariant
            i <= results@.len(),
            crate::text::views(errs@) == failure_lines(results@.subrange(0, i as int)),
        decreases results.len() - i,
    {
        assert(results@.subrange(0, i + 1).drop_last() =~= results@.subrange(0, i as int));
        let r = &results[i];
        match &r.err {
            Some(e) => {
                if r.status == StepStatus::Failed {
                    let mut t: Vec<char> = Vec::new();
                    push_str(&mut t, "optimize step ");
                    let ic = chars_of(r.id.as_str());
                    push_all(&mut t, ic.as_slice());
                    push_str(&mut t, ": ");
                    let m = e.message();
                    let mc = chars_of(m.as_str());
                    push_all(&mut t, mc.as_slice());
                    let ghost before = crate::text::views(errs@);
                    errs.push(t);
                    assert(crate::text::views(errs@) =~= before.push(t@));
                }
            },
            None => {},
        }
        i += 1;
    }
    assert(results@.subrange(0, i as int) =~= results@);
    match crate::status::proc::join_errors(&errs) {
        None => Ok(()),
        Some(e) => Err(e),
    }
}

/// How many results have the given status.
pub open spec fn count_status(rs: Seq<StepResult>, s: StepStatus) -> nat {
    rs.filter(|r: StepResult| r.status == s).len()
}

/// `Optimization complete — S succeeded, F failed, K skipped`.
pub fn summary(results: &[StepResult]) -> (r: String)
    ensures
        r@ == "Optimization complete — "@ + dec(count_status(results@, StepStatus::Success)) + " succeeded, "@
            + dec(count_status(results@, StepStatus::Failed)) + " failed, "@ + dec(
            count_status(results@, StepStatus::Skipped),
        ) + " skipped"@,
{
    let mut s: u64 = 0;
    let mut f: u64 = 0;
    let mut k: u64 = 0;
    let mut i: usize = 0;
    while i < results.len()
        invariant
            i <= results@.len(),
            s == count_status(results@.subrange(0, i as int), StepStatus::Success),
            f == count_status(results@.subrange(0, i as int), StepStatus::Failed),
            k == count_status(results@.subrange(0, i as int), StepStatus::Skipped),
            s + f + k == i,
        decreases results.len() - i,
    {
        proof {
            reveal(Seq::filter);
            assert(results@.subrange(0, i + 1).drop_last() =~= results@.subrange(0, i as int));
        }
        match results[i].status {
            StepStatus::Success => s += 1,
            StepStatus::Failed => f += 1,
            StepStatus::Skipped => k += 1,
        }
        i += 1;
    }
    assert(results@.subrange(0, i as int) =~= results@);
    let mut t: Vec<char> = Vec::new();
    push_str(&mut t, "Optimization complete — ");
    let a = fmt_u64(s);
    push_all(&mut t, a.as_slice());
    push_str(&mut t, " succeeded, ");
    let b = fmt_u64(f);
    push_all(&mut t, b.as_slice());
    push_str(&mut t, " failed, ");
    let c = fmt_u64(k);
    push_all(&mut t, c.as_slice());
    push_str(&mut t, " skipped");
    string_of(t.as_slice())
}

/// The index of the step with id `id`, or the error for an unknown step.
pub fn find_step(steps: &Vec<Step>, id: &str) -> (r: Result<usize, Error>)
    ensures
        match r {
            Ok(k) => k < steps@.len() && steps@[k as int].id@ == id@ && forall|j: int| 0 <= j < k ==> steps@[j].id@ != id@,
            Err(e) => (forall|j: int| 0 <= j < steps@.len() ==> steps@[j].id@ != id@) && e is Msg && message_of(e)
                == "unknown optimize step: "@ + id@,
        },
{
    let ic = chars_of(id);
    let mut i: usize = 0;
    while i < steps.len()
        invariant
            i <= steps@.len(),
            ic@ == id@,
            forall|j: int| 0 <= j < i ==> steps@[j].id@ != id@,
        decreases steps.len() - i,
    {
        let c = chars_of(steps[i].id.as_str());
        if crate::text::eq(c.as_slice(), ic.as_slice()) {
            return Ok(i);
        }
        i += 1;
    }
    let mut t: Vec<char> = Vec::new();
    push_str(&mut t, "unknown optimize step: ");
    push_all(&mut t, ic.as_slice());
    Err(Error::Msg(string_of(t.as_slice())))
}

/// Whether step `id` is skipped when run alone: an unknown step is an
/// error, an invalid skip list (the command line's `cli`, then the
/// configured `config_steps`) is its error, and otherwise the step is
/// skipped exactly when the list names it.
pub fn step_skipped(steps: &Vec<Step>, id: &str, cli: &Vec<String>, config_steps: &Vec<String>) -> (r: Result<
    bool,
    Error,
>)
    ensures
        (forall|j: int| 0 <= j < steps@.len() ==> steps@[j].id@ != id@) ==> (r matches Err(e) && e is Msg
            && message_of(e) == "unknown optimize step: "@ + id@),
        (exists|j: int| 0 <= j < steps@.len() && steps@[j].id@ == id@) ==> match first_unknown(
            merged(string_views(cli@), string_views(config_steps@)),
        ) {
            Some(x) => r matches Err(Error::Msg(m)) && m@ == "unknown optimize skip ID: "@ + x,
            None => r == Ok::<bool, Error>(merged(string_views(cli@), string_views(config_steps@)).contains(id@)),
        },
{
    if let Err(e) = find_step(steps, id) {
        return Err(e);
    }
    let skip = resolve_skip(cli, config_steps)?;
    let target = String::from_str(id);
    Ok(contains_str(&skip, &target))
}

} // verus!
