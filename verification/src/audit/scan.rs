//! The audit rules: from a snapshot of target sizes and health signals to
//! the findings shown, in display order.

use vstd::prelude::*;
use super::findings::{
    Finding, FindingView, Severity, exit_code_of, finding_views, lemma_sorted_covers, recommended, recommended_commands, sort_findings,
    stable_sorted_by,
};
use crate::fmt::{dec, dec_int, fmt_i64, fmt_u64};
use crate::text::{chars_of, eq_str, push_all, push_str, string_of, string_views};

verus! {

/// 500 MiB.
pub const BYTES_500_MIB: i64 = 524288000;
/// 2 GiB.
pub const BYTES_2_GIB: i64 = 2147483648;
/// 1 GiB.
pub const BYTES_1_GIB: i64 = 1073741824;

/// One clean category's scanned size.
#[derive(Debug, Clone)]
pub struct TargetSize {
    pub id: String,
    pub label: String,
    pub bytes: i64,
    pub opt_in: bool,
    pub requires_sudo: bool,
}

/// What the audit rules read of a system snapshot. The percentages are
/// measured as floating-point numbers; the rules read only how they compare
/// with their thresholds and the free-disk figure rounded to a whole number.
#[derive(Debug, Clone)]
pub struct Snapshot {
    pub targets: Vec<TargetSize>,
    pub health: i64,
    /// The root filesystem's free percentage, rounded to no decimals.
    pub disk_free_pct_text: String,
    /// The root filesystem is under 10% free.
    pub disk_free_below_10: bool,
    /// The root filesystem is under 20% free.
    pub disk_free_below_20: bool,
    /// Available memory is above 0% and under 10%.
    pub mem_low: bool,
    /// Swap is more than 50% used.
    pub swap_heavy: bool,
    pub journal_bytes: i64,
    pub apt_autoremove_n: u64,
    pub scan_errors: Vec<String>,
    pub warnings: Vec<String>,
    /// Whether the root-disk figure was measured at all.
    pub root_disk_available: bool,
}

/// A finding view with the fields that most findings leave empty.
pub open spec fn fv(
    id: Seq<char>,
    severity: Severity,
    title: Seq<char>,
    detail: Seq<char>,
    bytes: i64,
    action: Seq<char>,
    opt_in: bool,
    selectable: bool,
    default_selected: bool,
) -> FindingView {
    FindingView { id, severity, title, detail, bytes, action, opt_in, selectable, default_selected }
}

pub open spec fn disk_critical(s: Snapshot) -> bool {
    s.root_disk_available && s.disk_free_below_10
}

pub open spec fn disk_warning(s: Snapshot) -> bool {
    s.root_disk_available && s.disk_free_below_20 && !disk_critical(s)
}

/// The disk-pressure finding, if the root filesystem is low on space.
pub open spec fn disk_findings(s: Snapshot) -> Seq<FindingView> {
    if disk_critical(s) {
        seq![fv("health:disk-root"@, Severity::Critical, "Root filesystem almost full"@,
            "/ is only "@ + s.disk_free_pct_text@ + "% free. Free space soon to avoid system issues."@,
            0, "none"@, false, false, false)]
    } else if disk_warning(s) {
        seq![fv("health:disk-root"@, Severity::Warning, "Root filesystem low on space"@,
            "/ is "@ + s.disk_free_pct_text@ + "% free. Cleaning caches and packages is recommended."@,
            0, "none"@, false, false, false)]
    } else {
        seq![]
    }
}

/// Whether a target becomes a finding: it has reclaimable bytes, or it is
/// the autoremove target and apt reports removable packages.
pub open spec fn shown(t: TargetSize, s: Snapshot) -> bool {
    !(t.bytes <= 0 && !(t.id@ == "kernels"@ && s.apt_autoremove_n > 0))
}

/// The severity of a target finding: 2 GiB or more is a warning, and under
/// disk pressure so is 500 MiB or more for a target that is not opt-in.
pub open spec fn target_severity(t: TargetSize, press: bool) -> Severity {
    if t.bytes >= BYTES_2_GIB {
        Severity::Warning
    } else if press && !t.opt_in && t.bytes >= BYTES_500_MIB {
        Severity::Warning
    } else {
        Severity::Info
    }
}

/// Whether a target finding is preselected: an opt-in target when included;
/// another at 500 MiB or more, or with any bytes under disk pressure.
pub open spec fn target_selected(t: TargetSize, press: bool, inc: Seq<Seq<char>>) -> bool {
    if t.opt_in {
        inc.contains(t.id@)
    } else {
        t.bytes >= BYTES_500_MIB || (press && t.bytes > 0)
    }
}

pub open spec fn target_detail(t: TargetSize) -> Seq<char> {
    "Estimated reclaimable: space under "@ + t.label@ + "."@ + (if t.requires_sudo {
        " Requires sudo."@
    } else {
        seq![]
    }) + (if t.opt_in {
        " Opt-in category — not selected by default."@
    } else {
        seq![]
    })
}

pub open spec fn target_finding(t: TargetSize, press: bool, inc: Seq<Seq<char>>) -> FindingView {
    fv("clean:"@ + t.id@, target_severity(t, press), t.label@, target_detail(t), t.bytes,
        "clean:"@ + t.id@, t.opt_in, true, target_selected(t, press, inc))
}

/// The findings of the targets, in order.
pub open spec fn target_findings(ts: Seq<TargetSize>, s: Snapshot, inc: Seq<Seq<char>>) -> Seq<FindingView>
    decreases ts.len(),
{
    if ts.len() == 0 {
        seq![]
    } else {
        target_findings(ts.drop_last(), s, inc) + if shown(ts.last(), s) {
            seq![target_finding(ts.last(), disk_critical(s) || disk_warning(s), inc)]
        } else {
            seq![]
        }
    }
}

/// Whether a shown target has the given id.
pub open spec fn emitted(ts: Seq<TargetSize>, s: Snapshot, id: Seq<char>) -> bool {
    exists|k: int| 0 <= k < ts.len() && shown(#[trigger] ts[k], s) && ts[k].id@ == id
}

/// A journal finding when no journal target was shown and the journal is large.
pub open spec fn journal_findings(s: Snapshot) -> Seq<FindingView> {
    if emitted(s.targets@, s, "journal-logs"@) {
        seq![]
    } else if s.journal_bytes >= BYTES_1_GIB {
        seq![fv("clean:journal-logs"@, Severity::Warning, "Journal logs are large"@,
            "systemd journal exceeds 1 GiB. Vacuuming frees space (keeps recent logs."@,
            s.journal_bytes, "clean:journal-logs"@, false, true, true)]
    } else if s.journal_bytes >= BYTES_500_MIB {
        seq![fv("clean:journal-logs"@, Severity::Info, "Journal logs moderately large"@,
            "Consider vacuuming journal to ~500M."@, s.journal_bytes, "clean:journal-logs"@, false,
            true, false)]
    } else {
        seq![]
    }
}

/// A journal finding of 1 GiB or more is a warning, preselected unless opt-in.
pub open spec fn boost(f: FindingView) -> FindingView {
    if f.id == "clean:journal-logs"@ && f.bytes >= BYTES_1_GIB {
        FindingView {
            severity: Severity::Warning,
            default_selected: if !f.opt_in { true } else { f.default_selected },
            ..f
        }
    } else {
        f
    }
}

/// A finding for auto-removable packages when apt reports some and no
/// kernels target was shown.
pub open spec fn kernel_findings(s: Snapshot) -> Seq<FindingView> {
    if s.apt_autoremove_n > 0 && !emitted(s.targets@, s, "kernels"@) {
        seq![fv("clean:kernels"@, Severity::Info, "Unused packages can be removed"@,
            "apt reports "@ + dec(s.apt_autoremove_n as nat)
                + " auto-removable package(s). Uses apt autoremove --purge policy."@, 0,
            "clean:kernels"@, false, true, disk_critical(s) || disk_warning(s))]
    } else {
        seq![]
    }
}

/// The cache refresh, always offered and never preselected.
pub open spec fn cache_finding() -> FindingView {
    fv("optimize:caches"@, Severity::Info, "Refresh icon/font/MIME caches"@,
        "Low priority maintenance; rarely frees disk space."@, 0, "optimize:caches"@, false, true,
        false)
}

/// A finding on the health score when it is 60 or lower.
pub open spec fn score_findings(s: Snapshot) -> Seq<FindingView> {
    if s.health < 40 {
        seq![fv("health:score"@, Severity::Warning,
            "System health score is low ("@ + dec_int(s.health as int) + "/100)"@,
            "Score weights CPU, RAM, disk free, and swap. Freeing disk often helps most."@, 0,
            "none"@, false, false, false)]
    } else if s.health <= 60 {
        seq![fv("health:score"@, Severity::Info,
            "System health score is moderate ("@ + dec_int(s.health as int) + "/100)"@,
            "No critical health issue; cleanup may still reclaim space."@, 0, "none"@, false, false,
            false)]
    } else {
        seq![]
    }
}

/// Findings on low memory and heavy swap use.
pub open spec fn memory_findings(s: Snapshot) -> Seq<FindingView> {
    (if s.mem_low {
        seq![fv("health:ram"@, Severity::Info, "Low available memory"@,
            "Close heavy apps. Cleaning disk does not reliably free RAM."@, 0, "none"@, false, false,
            false)]
    } else {
        seq![]
    }) + (if s.swap_heavy {
        seq![fv("health:swap"@, Severity::Info, "Heavy swap usage"@,
            "System is paging to disk. Freeing RAM (close apps) helps more than cache cleanup."@, 0,
            "none"@, false, false, false)]
    } else {
        seq![]
    })
}

/// The findings after the clean targets: autoremovable packages, the cache
/// refresh, the health score, memory and swap.
pub open spec fn later_findings(s: Snapshot) -> Seq<FindingView> {
    kernel_findings(s) + seq![cache_finding()] + score_findings(s) + memory_findings(s)
}

/// All findings of a snapshot before they are put in display order.
pub open spec fn rule_findings(s: Snapshot, inc: Seq<Seq<char>>) -> Seq<FindingView> {
    (disk_findings(s) + target_findings(s.targets@, s, inc) + journal_findings(s)).map_values(
        |f: FindingView| boost(f),
    ) + later_findings(s)
}

proof fn lemma_targets_not_critical(ts: Seq<TargetSize>, s: Snapshot, inc: Seq<Seq<char>>)
    ensures
        forall|i: int| 0 <= i < target_findings(ts, s, inc).len() ==> (#[trigger] target_findings(ts, s, inc)[i]).severity
            != Severity::Critical,
    decreases ts.len(),
{
    if ts.len() > 0 {
        lemma_targets_not_critical(ts.drop_last(), s, inc);
    }
}

proof fn lemma_targets_opt_in(ts: Seq<TargetSize>, s: Snapshot, inc: Seq<Seq<char>>)
    ensures
        forall|i: int| 0 <= i < target_findings(ts, s, inc).len() && (#[trigger] target_findings(ts, s, inc)[i]).opt_in
            && target_findings(ts, s, inc)[i].default_selected ==> exists|j: int|
                0 <= j < ts.len() && target_findings(ts, s, inc)[i].id == "clean:"@ + (#[trigger] ts[j]).id@
                    && inc.contains(ts[j].id@),
    decreases ts.len(),
{
    if ts.len() > 0 {
        let p = ts.drop_last();
        lemma_targets_opt_in(p, s, inc);
        let tf = target_findings(ts, s, inc);
        let pf = target_findings(p, s, inc);
        assert forall|i: int| 0 <= i < tf.len() && (#[trigger] tf[i]).opt_in && tf[i].default_selected implies exists|j: int|
            0 <= j < ts.len() && tf[i].id == "clean:"@ + (#[trigger] ts[j]).id@ && inc.contains(ts[j].id@) by {
            if i < pf.len() {
                assert(tf[i] == pf[i]);
                let j = choose|j: int| 0 <= j < p.len() && pf[i].id == "clean:"@ + (#[trigger] p[j]).id@ && inc.contains(p[j].id@);
                assert(ts[j] == p[j]);
            } else {
                assert(ts[ts.len() - 1] == ts.last());
            }
        }
    }
}

/// Without a measurement of the root filesystem, no finding the rules
/// produce is critical.
pub proof fn law_no_critical_without_root_disk(s: Snapshot, inc: Seq<Seq<char>>)
    requires
        !s.root_disk_available,
    ensures
        forall|i: int| 0 <= i < rule_findings(s, inc).len() ==> (#[trigger] rule_findings(s, inc)[i]).severity
            != Severity::Critical,
{
    lemma_targets_not_critical(s.targets@, s, inc);
    let pre = disk_findings(s) + target_findings(s.targets@, s, inc) + journal_findings(s);
    assert(disk_findings(s) =~= Seq::<FindingView>::empty());
    assert forall|i: int| 0 <= i < pre.len() implies (#[trigger] pre[i]).severity != Severity::Critical by {
        if i >= target_findings(s.targets@, s, inc).len() {
        }
    }
}

/// A finding of an opt-in target is preselected only when the target's id
/// was included: every preselected opt-in finding names an included target.
pub proof fn law_opt_in_needs_include(s: Snapshot, inc: Seq<Seq<char>>)
    ensures
        forall|i: int|
            0 <= i < rule_findings(s, inc).len() && (#[trigger] rule_findings(s, inc)[i]).opt_in && rule_findings(
                s,
                inc,
            )[i].default_selected ==> exists|j: int|
                0 <= j < s.targets@.len() && rule_findings(s, inc)[i].id == "clean:"@ + (#[trigger] s.targets@[j]).id@
                    && inc.contains(s.targets@[j].id@),
{
    lemma_targets_opt_in(s.targets@, s, inc);
    let tf = target_findings(s.targets@, s, inc);
    let d = disk_findings(s);
    let pre = d + tf + journal_findings(s);
    let r = rule_findings(s, inc);
    assert forall|i: int| 0 <= i < r.len() && (#[trigger] r[i]).opt_in && r[i].default_selected implies exists|j: int|
        0 <= j < s.targets@.len() && r[i].id == "clean:"@ + (#[trigger] s.targets@[j]).id@ && inc.contains(
            s.targets@[j].id@,
        ) by {
        if i < pre.len() {
            assert(r[i] == boost(pre[i]));
            if i >= d.len() && i < d.len() + tf.len() {
                assert(pre[i] == tf[i - d.len()]);
            }
        }
    }
}

proof fn lemma_targets_from(ts: Seq<TargetSize>, s: Snapshot, inc: Seq<Seq<char>>)
    ensures
        forall|i: int| 0 <= i < target_findings(ts, s, inc).len() ==> exists|j: int|
            0 <= j < ts.len() && #[trigger] target_findings(ts, s, inc)[i] == target_finding(
                ts[j],
                disk_critical(s) || disk_warning(s),
                inc,
            ),
    decreases ts.len(),
{
    if ts.len() > 0 {
        let p = ts.drop_last();
        lemma_targets_from(p, s, inc);
        let press = disk_critical(s) || disk_warning(s);
        let tf = target_findings(ts, s, inc);
        let pf = target_findings(p, s, inc);
        assert forall|i: int| 0 <= i < tf.len() implies exists|j: int|
            0 <= j < ts.len() && #[trigger] tf[i] == target_finding(ts[j], press, inc) by {
            if i < pf.len() {
                assert(tf[i] == pf[i]);
                let j = choose|j: int| 0 <= j < p.len() && #[trigger] pf[i] == target_finding(p[j], press, inc);
                assert(ts[j] == p[j]);
            } else {
                assert(ts[ts.len() - 1] == ts.last());
            }
        }
    }
}

/// Every text that starts with `clean:` differs from the fixed ids and
/// actions that start otherwise.
proof fn lemma_clean_prefixed(x: Seq<char>)
    ensures
        "clean:"@ + x != "optimize:caches"@,
        "clean:"@ + x != "optimize:journal"@,
        "clean:"@ + x != "optimize:apt"@,
        "clean:"@ + x != "health:disk-root"@,
{
    reveal_strlit("clean:");
    reveal_strlit("optimize:caches");
    reveal_strlit("optimize:journal");
    reveal_strlit("optimize:apt");
    reveal_strlit("health:disk-root");
    assert(("clean:"@ + x)[0] == 'c');
}

/// A finding that is not the cache refresh, not the root-disk finding, not
/// opt-in, and whose action optimizes neither the journal nor apt.
spec fn plain_finding(f: FindingView) -> bool {
    &&& f.id != "optimize:caches"@
    &&& f.id != "health:disk-root"@
    &&& f.action != "optimize:journal"@
    &&& f.action != "optimize:apt"@
    &&& !f.opt_in
}

spec fn all_plain(fs: Seq<FindingView>) -> bool {
    forall|i: int| 0 <= i < fs.len() ==> plain_finding(#[trigger] fs[i])
}

proof fn lemma_later_shape(s: Snapshot) -> (kn: int)
    ensures
        0 <= kn < later_findings(s).len(),
        later_findings(s)[kn] == cache_finding(),
        forall|i: int| 0 <= i < later_findings(s).len() && i != kn ==> plain_finding(#[trigger] later_findings(s)[i]),
{
    reveal_strlit("optimize:caches");
    reveal_strlit("optimize:journal");
    reveal_strlit("optimize:apt");
    reveal_strlit("health:disk-root");
    reveal_strlit("health:score");
    reveal_strlit("health:ram");
    reveal_strlit("health:swap");
    reveal_strlit("clean:kernels");
    reveal_strlit("none");
    let lf = later_findings(s);
    let kp = kernel_findings(s);
    let rest = score_findings(s) + memory_findings(s);
    let kn = kp.len() as int;
    assert(lf =~= kp + seq![cache_finding()] + rest);
    assert(all_plain(kp)) by {
        if kp.len() > 0 {
            assert(kp[0].id == "clean:kernels"@ && kp[0].action == "clean:kernels"@);
            assert(plain_finding(kp[0]));
        }
    }
    assert(all_plain(score_findings(s))) by {
        let sf = score_findings(s);
        if sf.len() > 0 {
            assert(sf[0].id == "health:score"@ && sf[0].action == "none"@ && !sf[0].opt_in);
            assert(plain_finding(sf[0]));
        }
    }
    assert(all_plain(memory_findings(s))) by {
        let mf = memory_findings(s);
        assert forall|i: int| 0 <= i < mf.len() implies plain_finding(#[trigger] mf[i]) by {
            assert(mf[i].action == "none"@ && !mf[i].opt_in);
            assert(mf[i].id == "health:ram"@ || mf[i].id == "health:swap"@);
        }
    }
    assert(all_plain(rest)) by {
        assert forall|i: int| 0 <= i < rest.len() implies plain_finding(#[trigger] rest[i]) by {
            if i < score_findings(s).len() {
                assert(rest[i] == score_findings(s)[i]);
            } else {
                assert(rest[i] == memory_findings(s)[i - score_findings(s).len()]);
            }
        }
    }
    assert forall|i: int| 0 <= i < lf.len() && i != kn implies plain_finding(#[trigger] lf[i]) by {
        if i < kn {
            assert(lf[i] == kp[i]);
        } else {
            assert(lf[i] == rest[i - kn - 1]);
        }
    }
    kn
}

/// What the law below says of one finding other than the cache refresh.
spec fn shape_ok(s: Snapshot, inc: Seq<Seq<char>>, f: FindingView) -> bool {
    &&& f.id != "optimize:caches"@
    &&& f.id == "health:disk-root"@ ==> s.root_disk_available && (s.disk_free_below_10 || s.disk_free_below_20)
    &&& f.action != "optimize:journal"@ && f.action != "optimize:apt"@
    &&& f.opt_in ==> exists|j: int|
        0 <= j < s.targets@.len() && (#[trigger] s.targets@[j]).opt_in && f.id == "clean:"@ + s.targets@[j].id@ && (
        f.default_selected <==> inc.contains(s.targets@[j].id@))
}

proof fn lemma_pre_shape(s: Snapshot, inc: Seq<Seq<char>>, i: int)
    requires
        0 <= i < (disk_findings(s) + target_findings(s.targets@, s, inc) + journal_findings(s)).len(),
    ensures
        shape_ok(s, inc, boost((disk_findings(s) + target_findings(s.targets@, s, inc) + journal_findings(s))[i])),
{
    reveal_strlit("optimize:caches");
    reveal_strlit("optimize:journal");
    reveal_strlit("optimize:apt");
    reveal_strlit("health:disk-root");
    reveal_strlit("clean:journal-logs");
    reveal_strlit("none");
    let ts = s.targets@;
    let press = disk_critical(s) || disk_warning(s);
    let d = disk_findings(s);
    let tf = target_findings(ts, s, inc);
    let jf = journal_findings(s);
    let pre = d + tf + jf;
    let f = boost(pre[i]);
    assert(f.id == pre[i].id && f.action == pre[i].action && f.opt_in == pre[i].opt_in);
    assert(f.opt_in ==> f.default_selected == pre[i].default_selected);
    if i < d.len() {
        assert(pre[i] == d[i]);
        assert(d[i].id == "health:disk-root"@ && d[i].action == "none"@ && !d[i].opt_in);
        assert(disk_critical(s) || disk_warning(s));
        assert("health:disk-root"@.len() == 16 && "optimize:caches"@.len() == 15);
        assert("none"@.len() == 4 && "optimize:journal"@.len() == 16 && "optimize:apt"@.len() == 12);
        assert(shape_ok(s, inc, f));
    } else if i < d.len() + tf.len() {
        lemma_targets_from(ts, s, inc);
        assert(pre[i] == tf[i - d.len()]);
        let j = choose|j: int| 0 <= j < ts.len() && #[trigger] tf[i - d.len()] == target_finding(ts[j], press, inc);
        lemma_clean_prefixed(ts[j].id@);
        assert(f.id == "clean:"@ + ts[j].id@ && f.action == "clean:"@ + ts[j].id@);
        assert(f.opt_in ==> ts[j].opt_in && (f.default_selected <==> inc.contains(ts[j].id@)));
        assert(shape_ok(s, inc, f));
    } else {
        assert(pre[i] == jf[i - d.len() - tf.len()]);
        assert(jf[i - d.len() - tf.len()].id == "clean:journal-logs"@);
        assert(jf[i - d.len() - tf.len()].action == "clean:journal-logs"@);
        assert(!jf[i - d.len() - tf.len()].opt_in);
        assert("clean:journal-logs"@.len() == 18 && "optimize:caches"@.len() == 15);
        assert("health:disk-root"@.len() == 16 && "optimize:journal"@.len() == 16 && "optimize:apt"@.len() == 12);
        assert(shape_ok(s, inc, f));
    }
}

/// What every snapshot's findings share: exactly one cache-refresh finding,
/// selectable, informational and not preselected; a root-disk finding only
/// when the root filesystem was measured and is under 20% free (its flag
/// for under 10% or for under 20% is set); no action that optimizes the
/// journal or apt; and each opt-in finding belongs to an opt-in target and
/// is preselected exactly when that target was included.
pub proof fn law_findings_shape(s: Snapshot, inc: Seq<Seq<char>>)
    ensures
        exists|c: int|
            0 <= c < rule_findings(s, inc).len() && rule_findings(s, inc)[c].id == "optimize:caches"@
                && rule_findings(s, inc)[c].severity == Severity::Info && rule_findings(s, inc)[c].selectable
                && !rule_findings(s, inc)[c].default_selected && forall|i: int|
                0 <= i < rule_findings(s, inc).len() && (#[trigger] rule_findings(s, inc)[i]).id
                    == "optimize:caches"@ ==> i == c,
        forall|i: int|
            0 <= i < rule_findings(s, inc).len() && (#[trigger] rule_findings(s, inc)[i]).id == "health:disk-root"@
                ==> s.root_disk_available && (s.disk_free_below_10 || s.disk_free_below_20),
        forall|i: int|
            0 <= i < rule_findings(s, inc).len() ==> (#[trigger] rule_findings(s, inc)[i]).action
                != "optimize:journal"@ && rule_findings(s, inc)[i].action != "optimize:apt"@,
        forall|i: int|
            0 <= i < rule_findings(s, inc).len() && (#[trigger] rule_findings(s, inc)[i]).opt_in ==> exists|j: int|
                0 <= j < s.targets@.len() && (#[trigger] s.targets@[j]).opt_in && rule_findings(s, inc)[i].id
                    == "clean:"@ + s.targets@[j].id@ && (rule_findings(s, inc)[i].default_selected
                    <==> inc.contains(s.targets@[j].id@)),
{
    let ts = s.targets@;
    let pre = disk_findings(s) + target_findings(ts, s, inc) + journal_findings(s);
    let lf = later_findings(s);
    let r = rule_findings(s, inc);
    let kn = lemma_later_shape(s);
    let c = pre.len() + kn;
    assert(r[c] == lf[kn]);
    reveal_strlit("optimize:caches");
    reveal_strlit("optimize:journal");
    reveal_strlit("optimize:apt");
    reveal_strlit("health:disk-root");
    assert("health:disk-root"@.len() == 16 && "optimize:caches"@.len() == 15);
    assert("optimize:journal"@.len() == 16 && "optimize:apt"@.len() == 12);
    assert forall|i: int| 0 <= i < r.len() implies {
        &&& (#[trigger] r[i]).id == "optimize:caches"@ ==> i == c
        &&& r[i].id == "health:disk-root"@ ==> s.root_disk_available && (s.disk_free_below_10 || s.disk_free_below_20)
        &&& r[i].action != "optimize:journal"@ && r[i].action != "optimize:apt"@
        &&& r[i].opt_in ==> exists|j: int|
            0 <= j < ts.len() && (#[trigger] ts[j]).opt_in && r[i].id == "clean:"@ + ts[j].id@ && (r[i].default_selected
                <==> inc.contains(ts[j].id@))
    } by {
        if i < pre.len() {
            assert(r[i] == boost(pre[i]));
            lemma_pre_shape(s, inc, i);
            assert(shape_ok(s, inc, r[i]));
        } else {
            assert(r[i] == lf[i - pre.len()]);
            if i != c {
                assert(plain_finding(lf[i - pre.len()]));
            } else {
                assert(r[i] == cache_finding());
            }
        }
    }
}

fn mk(
    id: String,
    severity: Severity,
    title: String,
    detail: String,
    bytes: i64,
    action: String,
    opt_in: bool,
    selectable: bool,
    default_selected: bool,
) -> (f: Finding)
    ensures
        f@ == fv(id@, severity, title@, detail@, bytes, action@, opt_in, selectable, default_selected),
{
    Finding { id, severity, title, detail, bytes, action, opt_in, selectable, default_selected }
}

fn s(lit: &str) -> (r: String)
    ensures
        r@ == lit@,
{
    String::from_str(lit)
}

fn cat3(a: &str, b: &String, c: &str) -> (r: String)
    ensures
        r@ == a@ + b@ + c@,
{
    let mut t: Vec<char> = Vec::new();
    push_str(&mut t, a);
    let bc = chars_of(b.as_str());
    push_all(&mut t, bc.as_slice());
    push_str(&mut t, c);
    string_of(t.as_slice())
}

fn contains_string(v: &[String], x: &String) -> (b: bool)
    ensures
        b == string_views(v@).contains(x@),
{
    let ghost vv = string_views(v@);
    let xc = chars_of(x.as_str());
    let mut i: usize = 0;
    while i < v.len()
        invariant
            i <= v@.len(),
            vv == string_views(v@),
            xc@ == x@,
            forall|j: int| 0 <= j < i ==> vv[j] != x@,
        decreases v.len() - i,
    {
        let c = chars_of(v[i].as_str());
        if crate::text::eq(c.as_slice(), xc.as_slice()) {
            assert(vv[i as int] == x@);
            return true;
        }
        i += 1;
    }
    false
}

fn target_finding_of(t: &TargetSize, press: bool, inc: &[String]) -> (f: Finding)
    ensures
        f@ == target_finding(*t, press, string_views(inc@)),
{
    let sev = if t.bytes >= BYTES_2_GIB {
        Severity::Warning
    } else if press && !t.opt_in && t.bytes >= BYTES_500_MIB {
        Severity::Warning
    } else {
        Severity::Info
    };
    let sel = if t.opt_in {
        contains_string(inc, &t.id)
    } else {
        t.bytes >= BYTES_500_MIB || (press && t.bytes > 0)
    };
    let mut d: Vec<char> = Vec::new();
    push_str(&mut d, "Estimated reclaimable: space under ");
    let lc = chars_of(t.label.as_str());
    push_all(&mut d, lc.as_slice());
    push_str(&mut d, ".");
    let ghost d1 = d@;
    if t.requires_sudo {
        push_str(&mut d, " Requires sudo.");
    }
    let ghost d2 = d@;
    if t.opt_in {
        push_str(&mut d, " Opt-in category — not selected by default.");
    }
    assert(d@ =~= target_detail(*t));
    let id = cat3("clean:", &t.id, "");
    let action = cat3("clean:", &t.id, "");
    proof {
        reveal_strlit("");
    }
    assert(id@ =~= "clean:"@ + t.id@);
    assert(action@ =~= "clean:"@ + t.id@);
    mk(id, sev, t.label.clone(), string_of(d.as_slice()), t.bytes, action, t.opt_in, true, sel)
}

fn boost_in_place(fs: &mut Vec<Finding>)
    ensures
        finding_views(final(fs)@) == finding_views(old(fs)@).map_values(|f: FindingView| boost(f)),
{
    let ghost orig = finding_views(fs@);
    let mut i: usize = 0;
    while i < fs.len()
        invariant
            i <= fs@.len(),
            orig.len() == fs@.len(),
            forall|k: int| 0 <= k < i ==> (#[trigger] fs@[k])@ == boost(orig[k]),
            forall|k: int| i <= k < fs@.len() ==> (#[trigger] fs@[k])@ == orig[k],
        decreases fs.len() - i,
    {
        let idc = chars_of(fs[i].id.as_str());
        if eq_str(idc.as_slice(), "clean:journal-logs") && fs[i].bytes >= BYTES_1_GIB {
            let mut f = fs.remove(i);
            f.severity = Severity::Warning;
            if !f.opt_in {
                f.default_selected = true;
            }
            fs.insert(i, f);
        }
        i += 1;
    }
    assert(finding_views(fs@) =~= orig.map_values(|f: FindingView| boost(f)));
}

fn push_disk(fs: &mut Vec<Finding>, snap: &Snapshot)
    requires
        old(fs)@.len() == 0,
    ensures
        finding_views(final(fs)@) == disk_findings(*snap),
{
    let critical = snap.root_disk_available && snap.disk_free_below_10;
    let warning = snap.root_disk_available && snap.disk_free_below_20 && !critical;
    if critical {
        fs.push(mk(s("health:disk-root"), Severity::Critical, s("Root filesystem almost full"),
            cat3("/ is only ", &snap.disk_free_pct_text, "% free. Free space soon to avoid system issues."),
            0, s("none"), false, false, false));
    } else if warning {
        fs.push(mk(s("health:disk-root"), Severity::Warning, s("Root filesystem low on space"),
            cat3("/ is ", &snap.disk_free_pct_text, "% free. Cleaning caches and packages is recommended."),
            0, s("none"), false, false, false));
    }
    assert(finding_views(fs@) =~= disk_findings(*snap));
}

fn push_targets(fs: &mut Vec<Finding>, snap: &Snapshot, press: bool, include_preselect: &[String]) -> (r: (bool, bool))
    requires
        press == (disk_critical(*snap) || disk_warning(*snap)),
    ensures
        finding_views(final(fs)@) == finding_views(old(fs)@) + target_findings(snap.targets@, *snap, string_views(include_preselect@)),
        r.0 == emitted(snap.targets@, *snap, "kernels"@),
        r.1 == emitted(snap.targets@, *snap, "journal-logs"@),
{
    let ghost inc = string_views(include_preselect@);
    let ghost dpart = finding_views(fs@);
    let mut kernels_seen = false;
    let mut journal_seen = false;
    let ghost ts = snap.targets@;
    let mut i: usize = 0;
    while i < snap.targets.len()
        invariant
            i <= ts.len(),
            ts == snap.targets@,
            press == (disk_critical(*snap) || disk_warning(*snap)),
            inc == string_views(include_preselect@),
            finding_views(fs@) == dpart + target_findings(ts.subrange(0, i as int), *snap, inc),
            kernels_seen == emitted(ts.subrange(0, i as int), *snap, "kernels"@),
            journal_seen == emitted(ts.subrange(0, i as int), *snap, "journal-logs"@),
        decreases snap.targets.len() - i,
    {
        let t = &snap.targets[i];
        let ghost pre = ts.subrange(0, i as int);
        let ghost nxt = ts.subrange(0, i + 1);
        assert(nxt.drop_last() =~= pre);
        assert(nxt.last() == *t);
        let idc = chars_of(t.id.as_str());
        let is_kernels = eq_str(idc.as_slice(), "kernels");
        let is_journal = eq_str(idc.as_slice(), "journal-logs");
        let show = !(t.bytes <= 0 && !(is_kernels && snap.apt_autoremove_n > 0));
        proof {
            assert forall|id: Seq<char>| #[trigger] emitted(nxt, *snap, id) == (emitted(pre, *snap, id)
                || (shown(*t, *snap) && t.id@ == id)) by {
                if emitted(pre, *snap, id) {
                    let k = choose|k: int| 0 <= k < pre.len() && shown(#[trigger] pre[k], *snap) && pre[k].id@ == id;
                    assert(nxt[k] == pre[k]);
                }
                if shown(*t, *snap) && t.id@ == id {
                    assert(nxt[i as int] == *t);
                }
                if emitted(nxt, *snap, id) {
                    let k = choose|k: int| 0 <= k < nxt.len() && shown(#[trigger] nxt[k], *snap) && nxt[k].id@ == id;
                    if k < i {
                        assert(pre[k] == nxt[k]);
                    }
                }
            }
        }
        if show {
            if is_kernels {
                kernels_seen = true;
            }
            if is_journal {
                journal_seen = true;
            }
            let ghost before = finding_views(fs@);
            fs.push(target_finding_of(t, press, include_preselect));
            assert(finding_views(fs@) =~= before.push(target_finding(*t, press, inc)));
            assert(dpart + target_findings(nxt, *snap, inc) =~= before.push(target_finding(*t, press, inc)));
        } else {
            assert(target_findings(nxt, *snap, inc) =~= target_findings(pre, *snap, inc));
        }
        i += 1;
    }
    assert(ts.subrange(0, i as int) =~= ts);
    (kernels_seen, journal_seen)
}

fn push_journal(fs: &mut Vec<Finding>, snap: &Snapshot, journal_seen: bool)
    requires
        journal_seen == emitted(snap.targets@, *snap, "journal-logs"@),
    ensures
        finding_views(final(fs)@) == finding_views(old(fs)@) + journal_findings(*snap),
{
    let ghost tpart = finding_views(fs@);
    if !journal_seen && snap.journal_bytes >= BYTES_1_GIB {
        fs.push(mk(s("clean:journal-logs"), Severity::Warning, s("Journal logs are large"),
            s("systemd journal exceeds 1 GiB. Vacuuming frees space (keeps recent logs."),
            snap.journal_bytes, s("clean:journal-logs"), false, true, true));
    } else if !journal_seen && snap.journal_bytes >= BYTES_500_MIB {
        fs.push(mk(s("clean:journal-logs"), Severity::Info, s("Journal logs moderately large"),
            s("Consider vacuuming journal to ~500M."), snap.journal_bytes, s("clean:journal-logs"),
            false, true, false));
    }
    assert(finding_views(fs@) =~= tpart + journal_findings(*snap));
}

fn health_title(lead: &str, health: i64) -> (r: String)
    ensures
        r@ == lead@ + dec_int(health as int) + "/100)"@,
{
    let h = fmt_i64(health);
    let mut t: Vec<char> = Vec::new();
    push_str(&mut t, lead);
    push_all(&mut t, h.as_slice());
    push_str(&mut t, "/100)");
    string_of(t.as_slice())
}

fn push_later(fs: &mut Vec<Finding>, snap: &Snapshot, press: bool, kernels_seen: bool)
    requires
        press == (disk_critical(*snap) || disk_warning(*snap)),
        kernels_seen == emitted(snap.targets@, *snap, "kernels"@),
    ensures
        finding_views(final(fs)@) == finding_views(old(fs)@) + later_findings(*snap),
{
    let ghost bpart = finding_views(fs@);
    if snap.apt_autoremove_n > 0 && !kernels_seen {
        let mut d: Vec<char> = Vec::new();
        push_str(&mut d, "apt reports ");
        let n = fmt_u64(snap.apt_autoremove_n);
        push_all(&mut d, n.as_slice());
        push_str(&mut d, " auto-removable package(s). Uses apt autoremove --purge policy.");
        fs.push(mk(s("clean:kernels"), Severity::Info, s("Unused packages can be removed"),
            string_of(d.as_slice()), 0, s("clean:kernels"), false, true, press));
    }
    let ghost apart = finding_views(fs@);
    fs.push(mk(s("optimize:caches"), Severity::Info, s("Refresh icon/font/MIME caches"),
        s("Low priority maintenance; rarely frees disk space."), 0, s("optimize:caches"), false,
        true, false));
    let ghost cpart = finding_views(fs@);
    if snap.health < 40 {
        fs.push(mk(s("health:score"), Severity::Warning, health_title("System health score is low (", snap.health),
            s("Score weights CPU, RAM, disk free, and swap. Freeing disk often helps most."), 0,
            s("none"), false, false, false));
    } else if snap.health <= 60 {
        fs.push(mk(s("health:score"), Severity::Info, health_title("System health score is moderate (", snap.health),
            s("No critical health issue; cleanup may still reclaim space."), 0, s("none"), false,
            false, false));
    }
    let ghost hpart = finding_views(fs@);
    if snap.mem_low {
        fs.push(mk(s("health:ram"), Severity::Info, s("Low available memory"),
            s("Close heavy apps. Cleaning disk does not reliably free RAM."), 0, s("none"), false,
            false, false));
    }
    let ghost mpart = finding_views(fs@);
    if snap.swap_heavy {
        fs.push(mk(s("health:swap"), Severity::Info, s("Heavy swap usage"),
            s("System is paging to disk. Freeing RAM (close apps) helps more than cache cleanup."),
            0, s("none"), false, false, false));
    }
    assert(finding_views(fs@) =~= bpart + later_findings(*snap));
}

/// Without a root-disk measurement no finding in display order is critical.
proof fn lemma_sorted_not_critical(snap: Snapshot, inc: Seq<Seq<char>>, u: Seq<Finding>, r: Seq<Finding>, perm: Seq<int>)
    requires
        finding_views(u) == rule_findings(snap, inc),
        stable_sorted_by(u, r, perm),
        !snap.root_disk_available,
    ensures
        forall|k: int| 0 <= k < r.len() ==> (#[trigger] r[k]).severity != Severity::Critical,
{
    let rf = rule_findings(snap, inc);
    law_no_critical_without_root_disk(snap, inc);
    assert forall|k: int| 0 <= k < r.len() implies (#[trigger] r[k]).severity != Severity::Critical by {
        assert(finding_views(u)[perm[k]] == u[perm[k]]@);
        assert(r[k]@ == rf[perm[k]]);
    }
}

/// The root-disk finding at pressure: critical when the measured root
/// filesystem is under 10% free, a warning when it is under 20% free but
/// not under 10%.
pub proof fn law_disk_pressure_reported(s: Snapshot, inc: Seq<Seq<char>>)
    ensures
        s.root_disk_available && s.disk_free_below_10 ==> exists|i: int|
            0 <= i < rule_findings(s, inc).len() && (#[trigger] rule_findings(s, inc)[i]).id == "health:disk-root"@
                && rule_findings(s, inc)[i].severity == Severity::Critical,
        s.root_disk_available && s.disk_free_below_20 && !s.disk_free_below_10 ==> exists|i: int|
            0 <= i < rule_findings(s, inc).len() && (#[trigger] rule_findings(s, inc)[i]).id == "health:disk-root"@
                && rule_findings(s, inc)[i].severity == Severity::Warning,
{
    reveal_strlit("health:disk-root");
    reveal_strlit("clean:journal-logs");
    assert("health:disk-root"@.len() != "clean:journal-logs"@.len());
    let pre = disk_findings(s) + target_findings(s.targets@, s, inc) + journal_findings(s);
    let r = rule_findings(s, inc);
    if s.root_disk_available && (s.disk_free_below_10 || s.disk_free_below_20) {
        assert(pre[0] == disk_findings(s)[0]);
        assert(r[0] == boost(pre[0]));
    }
}

/// Disk pressure reaches the report's exit code: the root-disk finding is
/// among the findings in display order, and the exit code is 2 when the
/// measured root filesystem is under 10% free and at least 1 when it is
/// under 20% free.
pub proof fn law_disk_pressure_exit_code(s: Snapshot, inc: Seq<Seq<char>>, u: Seq<Finding>, r: Seq<Finding>, perm: Seq<int>)
    requires
        finding_views(u) == rule_findings(s, inc),
        stable_sorted_by(u, r, perm),
    ensures
        disk_reported(s, r),
{
    law_disk_pressure_reported(s, inc);
    let rf = rule_findings(s, inc);
    if s.root_disk_available && (s.disk_free_below_10 || s.disk_free_below_20) {
        let sev = if s.disk_free_below_10 { Severity::Critical } else { Severity::Warning };
        let i = choose|i: int| 0 <= i < rf.len() && (#[trigger] rf[i]).id == "health:disk-root"@ && rf[i].severity == sev;
        lemma_sorted_covers(u, r, perm, i);
        let k = choose|k: int| 0 <= k < r.len() && perm[k] == i;
        assert(finding_views(u)[i] == u[i]@);
        assert(r[k]@ == rf[i]);
        assert(r[k].id@ == "health:disk-root"@ && r[k].severity == sev);
    }
}

/// The root-disk finding and the exit code at disk pressure.
pub open spec fn disk_reported(s: Snapshot, r: Seq<Finding>) -> bool {
    &&& s.root_disk_available && s.disk_free_below_10 ==> (exists|k: int|
        0 <= k < r.len() && (#[trigger] r[k]).id@ == "health:disk-root"@ && r[k].severity == Severity::Critical)
        && exit_code_of(r) == 2
    &&& s.root_disk_available && s.disk_free_below_20 && !s.disk_free_below_10 ==> (exists|k: int|
        0 <= k < r.len() && (#[trigger] r[k]).id@ == "health:disk-root"@ && r[k].severity == Severity::Warning)
        && exit_code_of(r) >= 1
}

/// The findings `r` of a snapshot have the shape that the law
/// `law_findings_shape` states of the rules' findings.
pub open spec fn findings_shaped(snap: Snapshot, inc: Seq<Seq<char>>, r: Seq<Finding>) -> bool {
    &&& exists|c: int|
        0 <= c < r.len() && r[c].id@ == "optimize:caches"@ && r[c].severity == Severity::Info && r[c].selectable
            && !r[c].default_selected && forall|k: int|
            0 <= k < r.len() && (#[trigger] r[k]).id@ == "optimize:caches"@ ==> k == c
    &&& forall|k: int|
        0 <= k < r.len() && (#[trigger] r[k]).id@ == "health:disk-root"@ ==> snap.root_disk_available && (
        snap.disk_free_below_10 || snap.disk_free_below_20)
    &&& forall|k: int|
        0 <= k < r.len() ==> (#[trigger] r[k]).action@ != "optimize:journal"@ && r[k].action@ != "optimize:apt"@
    &&& forall|k: int| 0 <= k < r.len() && (#[trigger] r[k]).opt_in ==> exists|j: int|
        0 <= j < snap.targets@.len() && (#[trigger] snap.targets@[j]).opt_in && r[k].id@ == "clean:"@
            + snap.targets@[j].id@ && (r[k].default_selected <==> inc.contains(snap.targets@[j].id@))
}

/// The shape of the findings carries over to their display order.
proof fn lemma_sorted_shape(snap: Snapshot, inc: Seq<Seq<char>>, u: Seq<Finding>, r: Seq<Finding>, perm: Seq<int>)
    requires
        finding_views(u) == rule_findings(snap, inc),
        stable_sorted_by(u, r, perm),
    ensures
        findings_shaped(snap, inc, r),
{
    let rf = rule_findings(snap, inc);
    law_findings_shape(snap, inc);
    assert forall|k: int| 0 <= k < r.len() implies (#[trigger] r[k])@ == rf[perm[k]] by {
        assert(finding_views(u)[perm[k]] == u[perm[k]]@);
    }
    let c0 = choose|c: int|
        0 <= c < rf.len() && rf[c].id == "optimize:caches"@ && rf[c].severity == Severity::Info && rf[c].selectable
            && !rf[c].default_selected && forall|i: int| 0 <= i < rf.len() && (#[trigger] rf[i]).id == "optimize:caches"@ ==> i == c;
    lemma_sorted_covers(u, r, perm, c0);
    let c = choose|k: int| 0 <= k < r.len() && perm[k] == c0;
    assert(r[c]@ == rf[c0]);
    assert forall|k: int| 0 <= k < r.len() && (#[trigger] r[k]).id@ == "optimize:caches"@ implies k == c by {
        assert(r[k]@ == rf[perm[k]]);
        assert(perm[k] == c0);
    }
    assert forall|k: int| 0 <= k < r.len() implies {
        &&& (#[trigger] r[k]).id@ == "health:disk-root"@ ==> snap.root_disk_available && (snap.disk_free_below_10
            || snap.disk_free_below_20)
        &&& r[k].action@ != "optimize:journal"@ && r[k].action@ != "optimize:apt"@
        &&& r[k].opt_in ==> exists|j: int|
            0 <= j < snap.targets@.len() && (#[trigger] snap.targets@[j]).opt_in && r[k].id@ == "clean:"@
                + snap.targets@[j].id@ && (r[k].default_selected <==> inc.contains(snap.targets@[j].id@))
    } by {
        assert(r[k]@ == rf[perm[k]]);
    }
}

/// The findings of a snapshot in display order. `include_preselect` lists
/// opt-in clean ids to preselect.
pub fn build_findings(snap: &Snapshot, include_preselect: &[String]) -> (r: Vec<Finding>)
    ensures
        exists|u: Seq<Finding>, perm: Seq<int>|
            finding_views(u) == rule_findings(*snap, string_views(include_preselect@))
                && stable_sorted_by(u, r@, perm),
        !snap.root_disk_available ==> forall|k: int| 0 <= k < r@.len() ==> (#[trigger] r@[k]).severity
            != Severity::Critical,
        findings_shaped(*snap, string_views(include_preselect@), r@),
        disk_reported(*snap, r@),
{
    let ghost inc = string_views(include_preselect@);
    let critical = snap.root_disk_available && snap.disk_free_below_10;
    let warning = snap.root_disk_available && snap.disk_free_below_20 && !critical;
    let press = critical || warning;
    let mut fs: Vec<Finding> = Vec::new();
    push_disk(&mut fs, snap);
    let (kernels_seen, journal_seen) = push_targets(&mut fs, snap, press, include_preselect);
    push_journal(&mut fs, snap, journal_seen);
    boost_in_place(&mut fs);
    push_later(&mut fs, snap, press, kernels_seen);
    assert(finding_views(fs@) =~= rule_findings(*snap, inc));
    let ghost u = fs@;
    sort_findings(&mut fs);
    proof {
        let perm = choose|perm: Seq<int>| stable_sorted_by(u, fs@, perm);
        lemma_sorted_shape(*snap, inc, u, fs@, perm);
        law_disk_pressure_exit_code(*snap, inc, u, fs@, perm);
        if !snap.root_disk_available {
            lemma_sorted_not_critical(*snap, inc, u, fs@, perm);
        }
    }
    fs
}

/// An audit report: the health score, the root filesystem's free
/// percentage (as text, rounded to no decimals), what the selectable clean
/// findings would reclaim, the findings in display order, the commands to
/// run next, and the snapshot's warnings and scan errors.
#[derive(Debug)]
pub struct Report {
    pub health: i64,
    pub disk_free_pct_text: String,
    pub reclaimable_bytes: i64,
    pub findings: Vec<Finding>,
    pub recommended_commands: Vec<String>,
    pub warnings: Vec<String>,
    pub scan_errors: Vec<String>,
}

/// `n` held to the range of `i64`.
pub open spec fn clamp64(n: int) -> i64 {
    if n > i64::MAX {
        i64::MAX
    } else if n < i64::MIN {
        i64::MIN
    } else {
        n as i64
    }
}

/// Whether a finding counts toward what can be reclaimed: selectable, with
/// a clean action.
pub open spec fn reclaims(f: Finding) -> bool {
    f.selectable && "clean:"@.len() <= f.action@.len() && f.action@.subrange(0, "clean:"@.len() as int) == "clean:"@
}

/// The bytes of the reclaiming findings among the first `k`.
pub open spec fn reclaim_sum(fs: Seq<Finding>, k: int) -> int
    decreases k,
{
    if k <= 0 || k > fs.len() {
        0
    } else {
        reclaim_sum(fs, k - 1) + if reclaims(fs[k - 1]) { fs[k - 1].bytes as int } else { 0 }
    }
}

proof fn lemma_reclaim_sum_bound(fs: Seq<Finding>, k: int)
    requires
        0 <= k <= fs.len(),
    ensures
        -k * 0x8000_0000_0000_0000 <= reclaim_sum(fs, k) <= k * 0x8000_0000_0000_0000,
    decreases k,
{
    if k > 0 {
        lemma_reclaim_sum_bound(fs, k - 1);
    }
}

/// What the selectable clean findings reclaim, held to the range of `i64`.
pub fn reclaimable(fs: &[Finding]) -> (r: i64)
    ensures
        r == clamp64(reclaim_sum(fs@, fs@.len() as int)),
{
    let mut total: i128 = 0;
    let mut i: usize = 0;
    let n = fs.len();
    while i < n
        invariant
            n == fs@.len(),
            i <= fs@.len(),
            total == reclaim_sum(fs@, i as int),
        decreases fs.len() - i,
    {
        proof {
            lemma_reclaim_sum_bound(fs@, i as int);
            assert(i < 0x1_0000_0000_0000_0000);
            assert(-(i as int) * 0x8000_0000_0000_0000 >= -0x1_0000_0000_0000_0000 * 0x8000_0000_0000_0000) by (nonlinear_arith)
                requires i < 0x1_0000_0000_0000_0000;
            assert((i as int) * 0x8000_0000_0000_0000 <= 0x1_0000_0000_0000_0000 * 0x8000_0000_0000_0000) by (nonlinear_arith)
                requires i < 0x1_0000_0000_0000_0000;
        }
        let f = &fs[i];
        let a = chars_of(f.action.as_str());
        let p = chars_of("clean:");
        if f.selectable && crate::text::starts_with(a.as_slice(), p.as_slice()) {
            total = total + f.bytes as i128;
        }
        i += 1;
    }
    if total > i64::MAX as i128 {
        i64::MAX
    } else if total < i64::MIN as i128 {
        i64::MIN
    } else {
        total as i64
    }
}

/// A copy of each string.
fn copy_strings(v: &Vec<String>) -> (r: Vec<String>)
    ensures
        r@ == v@,
{
    let mut r: Vec<String> = Vec::new();
    let mut i: usize = 0;
    while i < v.len()
        invariant
            i <= v@.len(),
            r@ == v@.subrange(0, i as int),
        decreases v.len() - i,
    {
        r.push(v[i].clone());
        assert(r@ =~= v@.subrange(0, i + 1));
        i += 1;
    }
    assert(v@.subrange(0, i as int) =~= v@);
    r
}

/// The full report of a snapshot: its findings in display order, what
/// they reclaim, the recommended commands, and the snapshot's health,
/// free-disk figure, warnings and scan errors.
pub fn build_report(snap: &Snapshot, include_preselect: &[String]) -> (rep: Report)
    ensures
        exists|u: Seq<Finding>, perm: Seq<int>|
            finding_views(u) == rule_findings(*snap, string_views(include_preselect@))
                && stable_sorted_by(u, rep.findings@, perm),
        rep.reclaimable_bytes == clamp64(reclaim_sum(rep.findings@, rep.findings@.len() as int)),
        !snap.root_disk_available ==> super::findings::exit_code_of(rep.findings@) != 2,
        disk_reported(*snap, rep.findings@),
        string_views(rep.recommended_commands@) == recommended(rep.findings@),
        rep.health == snap.health,
        rep.disk_free_pct_text == snap.disk_free_pct_text,
        rep.warnings@ == snap.warnings@,
        rep.scan_errors@ == snap.scan_errors@,
{
    let fs = build_findings(snap, include_preselect);
    let reclaim = reclaimable(fs.as_slice());
    let cmds = recommended_commands(fs.as_slice());
    let ghost fv = fs@;
    let rep = Report {
        health: snap.health,
        disk_free_pct_text: snap.disk_free_pct_text.clone(),
        reclaimable_bytes: reclaim,
        findings: fs,
        recommended_commands: cmds,
        warnings: copy_strings(&snap.warnings),
        scan_errors: copy_strings(&snap.scan_errors),
    };
    assert(rep.findings@ == fv);
    proof {
        if !snap.root_disk_available {
            assert(!exists|k: int| 0 <= k < fv.len() && fv[k].severity == Severity::Critical);
        }
    }
    rep
}

impl Default for Snapshot {
    /// An empty snapshot: no targets, nothing measured, the free-disk figure
    /// zero.
    fn default() -> (s: Snapshot)
        ensures
            s.targets@.len() == 0 && s.health == 0 && s.disk_free_pct_text@ == "0"@,
            s.disk_free_below_10 && s.disk_free_below_20 && !s.mem_low && !s.swap_heavy,
            s.journal_bytes == 0 && s.apt_autoremove_n == 0,
            s.scan_errors@.len() == 0 && s.warnings@.len() == 0 && !s.root_disk_available,
    {
        Snapshot {
            targets: Vec::new(),
            health: 0,
            disk_free_pct_text: String::from_str("0"),
            disk_free_below_10: true,
            disk_free_below_20: true,
            mem_low: false,
            swap_heavy: false,
            journal_bytes: 0,
            apt_autoremove_n: 0,
            scan_errors: Vec::new(),
            warnings: Vec::new(),
            root_disk_available: false,
        }
    }
}

impl Default for Report {
    /// An empty report: health and the free-disk figure zero, nothing found.
    fn default() -> (r: Report)
        ensures
            r.health == 0 && r.disk_free_pct_text@ == "0"@ && r.reclaimable_bytes == 0,
            r.findings@.len() == 0 && r.recommended_commands@.len() == 0,
            r.warnings@.len() == 0 && r.scan_errors@.len() == 0,
    {
        Report {
            health: 0,
            disk_free_pct_text: String::from_str("0"),
            reclaimable_bytes: 0,
            findings: Vec::new(),
            recommended_commands: Vec::new(),
            warnings: Vec::new(),
            scan_errors: Vec::new(),
        }
    }
}

} // verus!
