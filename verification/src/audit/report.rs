//! The text of `mu audit --report`.

use vstd::prelude::*;
use super::findings::{Finding, severity_text};
use super::scan::Report;
use crate::fmt::fmt_i64;
use crate::size::{human, human_size};
use crate::text::{chars_of, concat, left_aligned, push_all, push_left, push_str, string_of, string_views};

verus! {

/// The tag after a finding: recommended (selected by default), opt-in, a
/// guide (not selectable), or none.
pub open spec fn finding_tag(f: Finding) -> Seq<char> {
    if f.selectable && f.default_selected {
        " [recommended]"@
    } else if f.opt_in {
        " [opt-in]"@
    } else if !f.selectable {
        " [guide]"@
    } else {
        seq![]
    }
}

/// A finding's lines: the badge in a column of eight, the title, the size
/// when there is one, the tag; then the detail, when there is one.
pub open spec fn finding_text(f: Finding) -> Seq<char> {
    "  • "@ + left_aligned(severity_text(f.severity), 8) + " "@ + f.title@ + size_part(f) + finding_tag(f) + "\n"@
        + detail_part(f)
}

/// Two spaces and the size, for a finding with bytes.
pub open spec fn size_part(f: Finding) -> Seq<char> {
    if f.bytes > 0 {
        "  "@ + human(f.bytes as int)
    } else {
        seq![]
    }
}

/// The indented detail line, for a finding with a detail.
pub open spec fn detail_part(f: Finding) -> Seq<char> {
    if f.detail@.len() > 0 {
        "           "@ + f.detail@ + "\n"@
    } else {
        seq![]
    }
}

/// The scan warnings block: a heading, each warning and scan error as a
/// bullet, a blank line; nothing when there are none.
pub open spec fn warnings_text(r: Report) -> Seq<char> {
    let all = string_views(r.warnings@) + string_views(r.scan_errors@);
    if all.len() == 0 {
        seq![]
    } else {
        "  Scan warnings:\n"@ + concat(all.map_values(|w: Seq<char>| "  • "@ + w + "\n"@)) + "\n"@
    }
}

/// The report as `mu audit --report` prints it: the health score, the free
/// share of `/`, what can be reclaimed, the warnings; then either the note
/// that nothing was found, or the findings, the recommended commands and
/// the pointer to the interactive audit.
pub open spec fn report_text(r: Report) -> Seq<char> {
    "\n📋 Audit report\n\n"@ + "  Health score:     "@ + crate::fmt::dec_int(r.health as int) + "/100\n"@
        + "  Disk / free:      "@ + r.disk_free_pct_text@ + "%\n"@ + "  Reclaimable:      "@ + human(
        r.reclaimable_bytes as int,
    ) + "\n"@ + "\n"@ + warnings_text(r) + if r.findings@.len() == 0 {
        "  ✅ No issues found. System looks clean.\n\n"@
    } else {
        "  Findings:\n"@ + concat(r.findings@.map_values(|f: Finding| finding_text(f))) + "\n"@
            + "  Recommended commands:\n"@ + concat(
            string_views(r.recommended_commands@).map_values(|c: Seq<char>| "    "@ + c + "\n"@),
        ) + "\n"@ + "  Run `mu audit` (interactive) to select and apply fixes.\n"@ + "\n"@
    }
}

fn push_size(t: &mut Vec<char>, f: &Finding)
    ensures
        final(t)@ == old(t)@ + size_part(*f),
{
    if f.bytes > 0 {
        push_str(t, "  ");
        let h = human_size(f.bytes);
        let hc = chars_of(h.as_str());
        push_all(t, hc.as_slice());
    } else {
        assert(old(t)@ + size_part(*f) =~= old(t)@);
    }
}

fn push_tag(t: &mut Vec<char>, f: &Finding)
    ensures
        final(t)@ == old(t)@ + finding_tag(*f),
{
    if f.selectable && f.default_selected {
        push_str(t, " [recommended]");
    } else if f.opt_in {
        push_str(t, " [opt-in]");
    } else if !f.selectable {
        push_str(t, " [guide]");
    } else {
        assert(old(t)@ + finding_tag(*f) =~= old(t)@);
    }
}

fn push_detail(t: &mut Vec<char>, f: &Finding)
    ensures
        final(t)@ == old(t)@ + detail_part(*f),
{
    let d = chars_of(f.detail.as_str());
    if d.len() > 0 {
        push_str(t, "           ");
        push_all(t, d.as_slice());
        push_str(t, "\n");
    } else {
        assert(old(t)@ + detail_part(*f) =~= old(t)@);
    }
}

fn push_finding(t: &mut Vec<char>, f: &Finding)
    ensures
        final(t)@ == old(t)@ + finding_text(*f),
{
    let ghost base = t@;
    push_str(t, "  • ");
    let b = chars_of(f.severity.as_str());
    push_left(t, b.as_slice(), 8);
    push_str(t, " ");
    let title = chars_of(f.title.as_str());
    push_all(t, title.as_slice());
    let ghost a = t@;
    push_size(t, f);
    push_tag(t, f);
    push_str(t, "\n");
    push_detail(t, f);
    assert(a == base + "  • "@ + left_aligned(severity_text(f.severity), 8) + " "@ + f.title@);
    assert(t@ =~= base + finding_text(*f));
}

/// Appends each text of `v`, framed by `head` and `tail`.
fn push_each(t: &mut Vec<char>, v: &Vec<String>, head: &str, tail: &str)
    ensures
        final(t)@ == old(t)@ + concat(string_views(v@).map_values(|w: Seq<char>| head@ + w + tail@)),
{
    let ghost base = t@;
    let ghost f = |w: Seq<char>| head@ + w + tail@;
    let mut i: usize = 0;
    while i < v.len()
        invariant
            i <= v@.len(),
            f == (|w: Seq<char>| head@ + w + tail@),
            t@ == base + concat(string_views(v@).subrange(0, i as int).map_values(f)),
        decreases v.len() - i,
    {
        push_str(t, head);
        let c = chars_of(v[i].as_str());
        push_all(t, c.as_slice());
        push_str(t, tail);
        proof {
            let s = string_views(v@).subrange(0, i + 1).map_values(f);
            assert(s.drop_last() =~= string_views(v@).subrange(0, i as int).map_values(f));
            assert(s.last() == f(v@[i as int]@));
        }
        i += 1;
    }
    assert(string_views(v@).subrange(0, i as int) =~= string_views(v@));
}

/// The `--report` text of an audit report.
pub fn human_report(r: &Report) -> (s: String)
    ensures
        s@ == report_text(*r),
{
    let mut t: Vec<char> = Vec::new();
    push_str(&mut t, "\n📋 Audit report\n\n");
    push_str(&mut t, "  Health score:     ");
    let h = fmt_i64(r.health);
    push_all(&mut t, h.as_slice());
    push_str(&mut t, "/100\n");
    push_str(&mut t, "  Disk / free:      ");
    let d = chars_of(r.disk_free_pct_text.as_str());
    push_all(&mut t, d.as_slice());
    push_str(&mut t, "%\n");
    push_str(&mut t, "  Reclaimable:      ");
    let rb = human_size(r.reclaimable_bytes);
    let rc = chars_of(rb.as_str());
    push_all(&mut t, rc.as_slice());
    push_str(&mut t, "\n");
    push_str(&mut t, "\n");
    let ghost head = t@;
    if r.warnings.len() > 0 || r.scan_errors.len() > 0 {
        push_str(&mut t, "  Scan warnings:\n");
        let ghost mid = t@;
        push_each(&mut t, &r.warnings, "  • ", "\n");
        push_each(&mut t, &r.scan_errors, "  • ", "\n");
        proof {
            lemma_concat_append(
                string_views(r.warnings@).map_values(|w: Seq<char>| "  • "@ + w + "\n"@),
                string_views(r.scan_errors@).map_values(|w: Seq<char>| "  • "@ + w + "\n"@),
            );
            assert((string_views(r.warnings@) + string_views(r.scan_errors@)).map_values(
                |w: Seq<char>| "  • "@ + w + "\n"@,
            ) =~= string_views(r.warnings@).map_values(|w: Seq<char>| "  • "@ + w + "\n"@) + string_views(
                r.scan_errors@,
            ).map_values(|w: Seq<char>| "  • "@ + w + "\n"@));
        }
        push_str(&mut t, "\n");
    }
    assert(t@ =~= head + warnings_text(*r));
    let ghost head2 = t@;
    if r.findings.len() == 0 {
        push_str(&mut t, "  ✅ No issues found. System looks clean.\n\n");
    } else {
        push_str(&mut t, "  Findings:\n");
        let ghost base = t@;
        let mut i: usize = 0;
        while i < r.findings.len()
            invariant
                i <= r.findings@.len(),
                t@ == base + concat(r.findings@.subrange(0, i as int).map_values(|f: Finding| finding_text(f))),
            decreases r.findings.len() - i,
        {
            push_finding(&mut t, &r.findings[i]);
            proof {
                let s = r.findings@.subrange(0, i + 1).map_values(|f: Finding| finding_text(f));
                assert(s.drop_last() =~= r.findings@.subrange(0, i as int).map_values(|f: Finding| finding_text(f)));
            }
            i += 1;
        }
        assert(r.findings@.subrange(0, i as int) =~= r.findings@);
        push_str(&mut t, "\n");
        push_str(&mut t, "  Recommended commands:\n");
        push_each(&mut t, &r.recommended_commands, "    ", "\n");
        push_str(&mut t, "\n");
        push_str(&mut t, "  Run `mu audit` (interactive) to select and apply fixes.\n");
        push_str(&mut t, "\n");
    }
    assert(t@ =~= report_text(*r));
    string_of(t.as_slice())
}

/// The concatenation of two sequences of texts is the concatenation of
/// each.
pub proof fn lemma_concat_append(a: Seq<Seq<char>>, b: Seq<Seq<char>>)
    ensures
        concat(a + b) == concat(a) + concat(b),
    decreases b.len(),
{
    if b.len() == 0 {
        assert(a + b =~= a);
    } else {
        lemma_concat_append(a, b.drop_last());
        assert((a + b).drop_last() =~= a + b.drop_last());
    }
}

} // verus!
