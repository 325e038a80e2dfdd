//! The plain (non-interactive) clean run: what a scan adds to the run, the
//! size table, the notes and summaries, and the error of failed targets.

use vstd::prelude::*;
use super::{CleanTarget, ScanResult};
use crate::error::{Error, message_of};
use crate::runtext::Run;
use crate::size::{human, human_size};
use crate::text::{chars_of, concat, left_aligned, push_all, push_left, push_str, string_of, string_views};
use crate::fmt::{dec, fmt_u64};

verus! {

/// The scan error of target `id`: `scan <id>: <error>`.
pub open spec fn scan_error_text(id: Seq<char>, e: Error) -> Seq<char> {
    "scan "@ + id + ": "@ + message_of(e)
}

/// The preview error of target `id`: `preview <id>: <error>`.
pub open spec fn preview_error_text(id: Seq<char>, e: Error) -> Seq<char> {
    "preview "@ + id + ": "@ + message_of(e)
}

fn prefixed_error(head: &str, id: &String, e: &Error) -> (r: Error)
    ensures
        r matches Error::Msg(m) && m@ == head@ + id@ + ": "@ + message_of(*e),
{
    let mut t = chars_of(head);
    let ic = chars_of(id.as_str());
    push_all(&mut t, ic.as_slice());
    push_str(&mut t, ": ");
    let m = e.message();
    let mc = chars_of(m.as_str());
    push_all(&mut t, mc.as_slice());
    Error::Msg(string_of(t.as_slice()))
}

/// Records one target's scan: the result always keeps the size found; a
/// failed scan adds its error and no items; a good one adds its size to the
/// total and, when the target has a preview, its items, or the preview's
/// error (and no items) when that failed.
pub fn record_scan(
    results: &mut Vec<ScanResult>,
    total: &mut i64,
    errs: &mut Vec<Error>,
    target: CleanTarget,
    size: i64,
    err: Option<Error>,
    preview: Option<(Vec<String>, Option<Error>)>,
)
    requires
        err is None ==> i64::MIN <= *old(total) + size <= i64::MAX,
    ensures
        final(results)@.len() == old(results)@.len() + 1,
        final(results)@.drop_last() == old(results)@,
        final(results)@.last().target == target,
        final(results)@.last().size == size,
        match err {
            Some(e) => {
                &&& final(results)@.last().items@.len() == 0
                &&& *final(total) == *old(total)
                &&& final(errs)@.len() == old(errs)@.len() + 1
                &&& final(errs)@.drop_last() == old(errs)@
                &&& final(errs)@.last() is Msg
                &&& message_of(final(errs)@.last()) == scan_error_text(target.id@, e)
            },
            None => {
                &&& *final(total) == *old(total) + size
                &&& match preview {
                    Some((items, Some(pe))) => {
                        &&& final(results)@.last().items@.len() == 0
                        &&& final(errs)@.len() == old(errs)@.len() + 1
                        &&& final(errs)@.drop_last() == old(errs)@
                        &&& final(errs)@.last() is Msg
                        &&& message_of(final(errs)@.last()) == preview_error_text(target.id@, pe)
                    },
                    Some((items, None)) => final(results)@.last().items == items && final(errs)@ == old(errs)@,
                    None => final(results)@.last().items@.len() == 0 && final(errs)@ == old(errs)@,
                }
            },
        },
{
    let mut items: Vec<String> = Vec::new();
    match &err {
        Some(e) => {
            errs.push(prefixed_error("scan ", &target.id, e));
        },
        None => {
            *total = *total + size;
            match preview {
                Some((its, perr)) => match &perr {
                    Some(pe) => {
                        errs.push(prefixed_error("preview ", &target.id, pe));
                    },
                    None => {
                        items = its;
                    },
                },
                None => {},
            }
        },
    }
    let ghost before = results@;
    results.push(ScanResult { target, size, items });
    assert(results@.drop_last() =~= before);
}

/// A line of the run: indented, then a newline.
pub open spec fn run_line(t: Seq<char>) -> Seq<char> {
    "  "@ + t + "\n"@
}

/// A scanned target's table rows: its label in a column of forty and its
/// size, then each preview item.
pub open spec fn result_rows(r: ScanResult) -> Seq<char> {
    run_line(left_aligned(r.target.label@, 40) + " "@ + human(r.size as int)) + concat(
        string_views(r.items@).map_values(|it: Seq<char>| run_line("  - "@ + it)),
    )
}

/// The size table: each target's rows, a rule of fifty dashes, and the
/// space that can be freed.
pub open spec fn table_text(results: Seq<ScanResult>, total: i64) -> Seq<char> {
    concat(results.map_values(|r: ScanResult| result_rows(r))) + run_line(Seq::new(50, |i: int| '-')) + run_line(
        "Potential space to free: "@ + human(total as int),
    )
}

fn push_result_rows(r: &mut Run, res: &ScanResult)
    ensures
        final(r).out@ == old(r).out@ + result_rows(*res),
{
    let ghost base = r.out@;
    let mut t: Vec<char> = Vec::new();
    let l = chars_of(res.target.label.as_str());
    push_left(&mut t, l.as_slice(), 40);
    push_str(&mut t, " ");
    let h = human_size(res.size);
    let hc = chars_of(h.as_str());
    push_all(&mut t, hc.as_slice());
    r.line(string_of(t.as_slice()).as_str());
    let ghost head = r.out@;
    let ghost f = |it: Seq<char>| run_line("  - "@ + it);
    let mut i: usize = 0;
    while i < res.items.len()
        invariant
            i <= res.items@.len(),
            f == (|it: Seq<char>| run_line("  - "@ + it)),
            r.out@ == head + concat(string_views(res.items@).subrange(0, i as int).map_values(f)),
        decreases res.items.len() - i,
    {
        let mut it = chars_of("  - ");
        let ic = chars_of(res.items[i].as_str());
        push_all(&mut it, ic.as_slice());
        r.line(string_of(it.as_slice()).as_str());
        proof {
            let s = string_views(res.items@).subrange(0, i + 1).map_values(f);
            assert(s.drop_last() =~= string_views(res.items@).subrange(0, i as int).map_values(f));
            assert(s.last() == f(res.items@[i as int]@));
        }
        i += 1;
    }
    assert(string_views(res.items@).subrange(0, i as int) =~= string_views(res.items@));
    assert(r.out@ =~= base + result_rows(*res));
}

/// Appends the size table of the scanned targets.
pub fn push_scan_table(r: &mut Run, results: &[ScanResult], total: i64)
    ensures
        final(r).out@ == old(r).out@ + table_text(results@, total),
{
    let ghost base = r.out@;
    let mut i: usize = 0;
    while i < results.len()
        invariant
            i <= results@.len(),
            r.out@ == base + concat(results@.subrange(0, i as int).map_values(|x: ScanResult| result_rows(x))),
        decreases results.len() - i,
    {
        push_result_rows(r, &results[i]);
        proof {
            let s = results@.subrange(0, i + 1).map_values(|x: ScanResult| result_rows(x));
            assert(s.drop_last() =~= results@.subrange(0, i as int).map_values(|x: ScanResult| result_rows(x)));
        }
        i += 1;
    }
    assert(results@.subrange(0, i as int) =~= results@);
    let mut rule: Vec<char> = Vec::new();
    let mut k: usize = 0;
    while k < 50
        invariant
            k <= 50,
            rule@ == Seq::new(k as nat, |j: int| '-'),
        decreases 50 - k,
    {
        rule.push('-');
        assert(rule@ =~= Seq::new((k + 1) as nat, |j: int| '-'));
        k += 1;
    }
    r.line(string_of(rule.as_slice()).as_str());
    let mut t = chars_of("Potential space to free: ");
    let h = human_size(total);
    let hc = chars_of(h.as_str());
    push_all(&mut t, hc.as_slice());
    r.line(string_of(t.as_slice()).as_str());
    assert(r.out@ =~= base + table_text(results@, total));
}

/// Appends the notes of a dry run.
pub fn push_dry_run_notes(r: &mut Run)
    ensures
        final(r).out@ == old(r).out@ + run_line("This is a DRY RUN. No files will be deleted."@) + run_line(
            "Validating the exact cleanup actions without changing data."@,
        ),
{
    r.faint("This is a DRY RUN. No files will be deleted.");
    r.faint("Validating the exact cleanup actions without changing data.");
}

/// Appends the notes of a run that was not confirmed.
pub fn push_abort_notes(r: &mut Run)
    ensures
        final(r).out@ == old(r).out@ + run_line("Non-interactive: pass --yes to confirm, or --dry-run to preview."@)
            + run_line("Aborted."@),
{
    r.faint("Non-interactive: pass --yes to confirm, or --dry-run to preview.");
    r.faint("Aborted.");
}

fn sized(head: &str, bytes: i64, tail: &str) -> (s: String)
    ensures
        s@ == head@ + human(bytes as int) + tail@,
{
    let mut t = chars_of(head);
    let h = human_size(bytes);
    let hc = chars_of(h.as_str());
    push_all(&mut t, hc.as_slice());
    push_str(&mut t, tail);
    string_of(t.as_slice())
}

/// `Dry run — <total> reclaimable`.
pub fn dry_run_summary(total: i64) -> (s: String)
    ensures
        s@ == "Dry run — "@ + human(total as int) + " reclaimable"@,
{
    sized("Dry run — ", total, " reclaimable")
}

/// `All done — freed <freed>`, the summary line of a run.
pub fn done_summary(freed: i64) -> (s: String)
    ensures
        s@ == "All done — freed "@ + human(freed as int),
{
    let s = sized("All done — freed ", freed, "");
    proof {
        reveal_strlit("");
    }
    assert(s@ =~= "All done — freed "@ + human(freed as int));
    s
}

/// `Freed <freed>`, what a run reports back.
pub fn freed_text(freed: i64) -> (s: String)
    ensures
        s@ == "Freed "@ + human(freed as int),
{
    let s = sized("Freed ", freed, "");
    proof {
        reveal_strlit("");
    }
    assert(s@ =~= "Freed "@ + human(freed as int));
    s
}

/// `<n> clean target(s) failed`.
pub fn failed_targets_error(n: u64) -> (e: Error)
    ensures
        e matches Error::Msg(m) && m@ == dec(n as nat) + " clean target(s) failed"@,
{
    let mut t = fmt_u64(n);
    push_str(&mut t, " clean target(s) failed");
    Error::Msg(string_of(t.as_slice()))
}

} // verus!
