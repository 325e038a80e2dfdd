//! Audit findings: severities, the order findings are shown in, the exit
//! code a report maps to, remediation actions, and the commands a report
//! recommends.

use vstd::prelude::*;
use crate::text::{chars_of, eq_str, find_char, find_from, lemma_find_from, push_all, push_str, slice_of, string_of};

verus! {

/// How urgent a finding is.
#[derive(Debug, Clone, Copy, PartialEq, Eq, Structural)]
pub enum Severity {
    Critical,
    Warning,
    Info,
}

impl Severity {
    /// The badge text of the severity.
    pub fn as_str(self) -> (s: &'static str)
        ensures
            s@ == severity_text(self),
    {
        match self {
            Severity::Critical => "critical",
            Severity::Warning => "warning",
            Severity::Info => "info",
        }
    }
}

/// The badge text of a severity.
pub open spec fn severity_text(s: Severity) -> Seq<char> {
    match s {
        Severity::Critical => "critical"@,
        Severity::Warning => "warning"@,
        Severity::Info => "info"@,
    }
}

/// Rank of a severity; higher is more urgent.
pub open spec fn rank(s: Severity) -> int {
    match s {
        Severity::Critical => 3,
        Severity::Warning => 2,
        Severity::Info => 1,
    }
}

fn severity_rank(s: Severity) -> (r: i32)
    ensures
        r == rank(s),
{
    match s {
        Severity::Critical => 3,
        Severity::Warning => 2,
        Severity::Info => 1,
    }
}

/// One audit result with an optional remediation action.
#[derive(Debug, Clone)]
pub struct Finding {
    pub id: String,
    pub severity: Severity,
    pub title: String,
    pub detail: String,
    pub bytes: i64,
    /// `clean:<id>`, `optimize:<id>` or `none`.
    pub action: String,
    pub opt_in: bool,
    pub selectable: bool,
    pub default_selected: bool,
}

/// The abstract value of a [`Finding`].
pub struct FindingView {
    pub id: Seq<char>,
    pub severity: Severity,
    pub title: Seq<char>,
    pub detail: Seq<char>,
    pub bytes: i64,
    pub action: Seq<char>,
    pub opt_in: bool,
    pub selectable: bool,
    pub default_selected: bool,
}

impl View for Finding {
    type V = FindingView;

    open spec fn view(&self) -> FindingView {
        FindingView {
            id: self.id@,
            severity: self.severity,
            title: self.title@,
            detail: self.detail@,
            bytes: self.bytes,
            action: self.action@,
            opt_in: self.opt_in,
            selectable: self.selectable,
            default_selected: self.default_selected,
        }
    }
}

impl Finding {
    /// A field-by-field copy.
    pub fn copy(&self) -> (f: Finding)
        ensures
            f == *self,
    {
        Finding {
            id: self.id.clone(),
            severity: self.severity,
            title: self.title.clone(),
            detail: self.detail.clone(),
            bytes: self.bytes,
            action: self.action.clone(),
            opt_in: self.opt_in,
            selectable: self.selectable,
            default_selected: self.default_selected,
        }
    }
}

/// A copy of each finding.
pub fn copy_findings(fs: &[Finding]) -> (r: Vec<Finding>)
    ensures
        r@ == fs@,
{
    let mut r: Vec<Finding> = Vec::new();
    let mut i: usize = 0;
    while i < fs.len()
        invariant
            i <= fs@.len(),
            r@ == fs@.subrange(0, i as int),
        decreases fs.len() - i,
    {
        r.push(fs[i].copy());
        assert(r@ =~= fs@.subrange(0, i + 1));
        i += 1;
    }
    assert(fs@.subrange(0, i as int) =~= fs@);
    r
}

/// The views of a sequence of findings.
pub open spec fn finding_views(fs: Seq<Finding>) -> Seq<FindingView> {
    fs.map_values(|f: Finding| f@)
}

impl Default for Finding {
    fn default() -> (f: Finding)
        ensures
            f.id@.len() == 0 && f.title@.len() == 0 && f.detail@.len() == 0 && f.action@.len() == 0,
            f.severity == Severity::Info,
            f.bytes == 0,
            !f.opt_in && !f.selectable && !f.default_selected,
    {
        Finding {
            id: String::new(),
            severity: Severity::Info,
            title: String::new(),
            detail: String::new(),
            bytes: 0,
            action: String::new(),
            opt_in: false,
            selectable: false,
            default_selected: false,
        }
    }
}

// ---------------------------------------------------------------------------
// Order of findings
// ---------------------------------------------------------------------------

/// Length of the common prefix of `a` and `b` from `i` on.
pub open spec fn cpl(a: Seq<char>, b: Seq<char>, i: int) -> int
    decreases a.len() - i,
{
    if 0 <= i < a.len() && i < b.len() && a[i] == b[i] {
        cpl(a, b, i + 1)
    } else {
        i
    }
}

/// Byte-wise (equivalently, code-point-wise) string order: `a < b`.
pub open spec fn id_lt(a: Seq<char>, b: Seq<char>) -> bool {
    let k = cpl(a, b, 0);
    (k == a.len() && k < b.len()) || (k < a.len() && k < b.len() && a[k] < b[k])
}

pub proof fn lemma_cpl(a: Seq<char>, b: Seq<char>, i: int)
    requires
        0 <= i <= a.len(),
        i <= b.len(),
    ensures
        i <= cpl(a, b, i) <= a.len(),
        cpl(a, b, i) <= b.len(),
        forall|j: int| i <= j < cpl(a, b, i) ==> a[j] == b[j],
        cpl(a, b, i) < a.len() && cpl(a, b, i) < b.len() ==> a[cpl(a, b, i)] != b[cpl(a, b, i)],
    decreases a.len() - i,
{
    if i < a.len() && i < b.len() && a[i] == b[i] {
        lemma_cpl(a, b, i + 1);
    }
}

/// The common prefix length is the only index with its two properties.
pub proof fn lemma_cpl_unique(a: Seq<char>, b: Seq<char>, m: int)
    requires
        0 <= m <= a.len(),
        m <= b.len(),
        forall|j: int| 0 <= j < m ==> a[j] == b[j],
        m == a.len() || m == b.len() || a[m] != b[m],
    ensures
        cpl(a, b, 0) == m,
{
    lemma_cpl(a, b, 0);
    let k = cpl(a, b, 0);
    if k < m {
        assert(a[k] == b[k]);
    } else if k > m {
        assert(a[m] == b[m]);
    }
}

pub proof fn lemma_id_lt_irreflexive(a: Seq<char>)
    ensures
        !id_lt(a, a),
{
    lemma_cpl_unique(a, a, a.len() as int);
}

pub proof fn lemma_id_lt_total(a: Seq<char>, b: Seq<char>)
    ensures
        a == b || id_lt(a, b) || id_lt(b, a),
{
    lemma_cpl(a, b, 0);
    lemma_cpl(b, a, 0);
    let k = cpl(a, b, 0);
    assert forall|j: int| 0 <= j < k implies b[j] == a[j] by {}
    lemma_cpl_unique(b, a, k);
    if k == a.len() && k == b.len() {
        assert(a =~= b);
    } else if k < a.len() && k < b.len() {
        assert(a[k] != b[k]);
    }
}

pub proof fn lemma_id_lt_transitive(a: Seq<char>, b: Seq<char>, c: Seq<char>)
    requires
        id_lt(a, b),
        id_lt(b, c),
    ensures
        id_lt(a, c),
{
    lemma_cpl(a, b, 0);
    lemma_cpl(b, c, 0);
    let k1 = cpl(a, b, 0);
    let k2 = cpl(b, c, 0);
    if k1 < k2 {
        assert forall|j: int| 0 <= j < k1 implies a[j] == c[j] by {
            assert(b[j] == c[j]);
        }
        if k1 < a.len() {
            assert(b[k1] == c[k1]);
        }
        lemma_cpl_unique(a, c, k1);
    } else if k1 > k2 {
        assert forall|j: int| 0 <= j < k2 implies a[j] == c[j] by {
            assert(a[j] == b[j]);
        }
        assert(a[k2] == b[k2]);
        lemma_cpl_unique(a, c, k2);
    } else {
        assert forall|j: int| 0 <= j < k1 implies a[j] == c[j] by {
            assert(a[j] == b[j]);
        }
        lemma_cpl_unique(a, c, k1);
    }
}

pub proof fn lemma_id_lt_asymmetric(a: Seq<char>, b: Seq<char>)
    ensures
        !(id_lt(a, b) && id_lt(b, a)),
{
    if id_lt(a, b) && id_lt(b, a) {
        lemma_id_lt_transitive(a, b, a);
        lemma_id_lt_irreflexive(a);
    }
}

/// Whether a finding carries a remediation action.
pub open spec fn actionable(action: Seq<char>) -> bool {
    action.len() > 0 && action != "none"@
}

/// `x` is shown before `y`: more severe first, then larger, then actionable
/// first, then by id.
pub open spec fn before(x: Finding, y: Finding) -> bool {
    ||| rank(x.severity) > rank(y.severity)
    ||| rank(x.severity) == rank(y.severity) && x.bytes > y.bytes
    ||| rank(x.severity) == rank(y.severity) && x.bytes == y.bytes && actionable(x.action@)
        && !actionable(y.action@)
    ||| rank(x.severity) == rank(y.severity) && x.bytes == y.bytes && actionable(x.action@)
        == actionable(y.action@) && id_lt(x.id@, y.id@)
}

/// Neither finding is shown before the other.
pub open spec fn same_key(x: Finding, y: Finding) -> bool {
    rank(x.severity) == rank(y.severity) && x.bytes == y.bytes && actionable(x.action@)
        == actionable(y.action@) && x.id@ == y.id@
}

pub proof fn lemma_before_order(x: Finding, y: Finding, z: Finding)
    ensures
        !before(x, x),
        before(x, y) ==> !before(y, x),
        before(x, y) && before(y, z) ==> before(x, z),
        !before(x, y) && !before(y, x) <==> same_key(x, y),
        same_key(x, y) ==> (before(x, z) <==> before(y, z)),
        same_key(x, y) ==> (before(z, x) <==> before(z, y)),
{
    lemma_id_lt_irreflexive(x.id@);
    lemma_id_lt_asymmetric(x.id@, y.id@);
    lemma_id_lt_total(x.id@, y.id@);
    if id_lt(x.id@, y.id@) && id_lt(y.id@, z.id@) {
        lemma_id_lt_transitive(x.id@, y.id@, z.id@);
    }
}

/// The findings are in display order.
pub open spec fn in_order(s: Seq<Finding>) -> bool {
    forall|k: int, l: int| 0 <= k < l < s.len() ==> !before(#[trigger] s[l], #[trigger] s[k])
}

/// `b` is `a` reordered by the index map `perm` into display order, keeping
/// the original order of findings that compare equal.
pub open spec fn stable_sorted_by(a: Seq<Finding>, b: Seq<Finding>, perm: Seq<int>) -> bool {
    &&& b.len() == a.len()
    &&& perm.len() == a.len()
    &&& forall|k: int| 0 <= k < b.len() ==> 0 <= #[trigger] perm[k] < a.len() && b[k] == a[perm[k]]
    &&& forall|k: int, l: int| 0 <= k < l < b.len() ==> #[trigger] perm[k] != #[trigger] perm[l]
    &&& in_order(b)
    &&& forall|k: int, l: int|
        0 <= k < l < b.len() && same_key(#[trigger] b[k], #[trigger] b[l]) ==> perm[k] < perm[l]
}

/// A stable sort leaves out no finding: every index of the input is the
/// source of some position of the output.
pub proof fn lemma_sorted_covers(a: Seq<Finding>, b: Seq<Finding>, perm: Seq<int>, v: int)
    requires
        stable_sorted_by(a, b, perm),
        0 <= v < a.len(),
    ensures
        exists|k: int| 0 <= k < b.len() && perm[k] == v,
{
    let n = a.len() as int;
    assert(perm.no_duplicates()) by {
        assert forall|i: int, j: int| 0 <= i < perm.len() && 0 <= j < perm.len() && i != j implies perm[i] != perm[j] by {
            if i < j {
                assert(perm[i] != perm[j]);
            } else {
                assert(perm[j] != perm[i]);
            }
        }
    }
    perm.unique_seq_to_set();
    vstd::set_lib::lemma_int_range(0, n);
    let range = vstd::set_lib::set_int_range(0, n);
    let hit = perm.to_set();
    assert(hit.subset_of(range)) by {
        assert forall|x: int| hit.contains(x) implies range.contains(x) by {
            let k = choose|k: int| 0 <= k < perm.len() && perm[k] == x;
            assert(0 <= perm[k] < n);
        }
    }
    if !hit.contains(v) {
        assert(hit.subset_of(range.remove(v)));
        vstd::set_lib::lemma_len_subset(hit, range.remove(v));
        assert(false);
    }
    let k = choose|k: int| 0 <= k < perm.len() && perm[k] == v;
    assert(0 <= k < b.len() && perm[k] == v);
}

/// Character-wise comparison of two ids.
pub(crate) fn id_less(a: &[char], b: &[char]) -> (r: bool)
    ensures
        r == id_lt(a@, b@),
{
    let mut i: usize = 0;
    while i < a.len() && i < b.len() && a[i] == b[i]
        invariant
            i <= a@.len(),
            i <= b@.len(),
            cpl(a@, b@, 0) == cpl(a@, b@, i as int),
        decreases a.len() - i,
    {
        i += 1;
    }
    if i == a.len() {
        i < b.len()
    } else if i == b.len() {
        false
    } else {
        a[i] < b[i]
    }
}

fn is_actionable(action: &String) -> (r: bool)
    ensures
        r == actionable(action@),
{
    let c = chars_of(action.as_str());
    c.len() > 0 && !eq_str(c.as_slice(), "none")
}

fn shown_before(x: &Finding, y: &Finding) -> (r: bool)
    ensures
        r == before(*x, *y),
{
    let rx = severity_rank(x.severity);
    let ry = severity_rank(y.severity);
    if rx != ry {
        return rx > ry;
    }
    if x.bytes != y.bytes {
        return x.bytes > y.bytes;
    }
    let ax = is_actionable(&x.action);
    let ay = is_actionable(&y.action);
    if ax != ay {
        return ax;
    }
    let ix = chars_of(x.id.as_str());
    let iy = chars_of(y.id.as_str());
    id_less(ix.as_slice(), iy.as_slice())
}

/// Sorts findings into display order: severity descending, bytes
/// descending, actionable findings first, then id ascending; findings that
/// compare equal keep their order.
pub fn sort_findings(fs: &mut Vec<Finding>)
    ensures
        exists|perm: Seq<int>| stable_sorted_by(old(fs)@, final(fs)@, perm),
{
    let mut input: Vec<Finding> = Vec::new();
    std::mem::swap(&mut input, fs);
    let ghost orig = input@;
    let ghost n = orig.len();
    let mut out: Vec<Finding> = Vec::new();
    let ghost mut perm: Seq<int> = seq![];
    let ghost mut i: int = 0;
    while input.len() > 0
        invariant
            0 <= i <= n,
            n == orig.len(),
            input@ == orig.subrange(i, n as int),
            out@.len() == i,
            perm.len() == i,
            forall|k: int| 0 <= k < i ==> 0 <= #[trigger] perm[k] < i && out@[k] == orig[perm[k]],
            forall|k: int, l: int| 0 <= k < l < i ==> #[trigger] perm[k] != #[trigger] perm[l],
            in_order(out@),
            forall|k: int, l: int|
                0 <= k < l < i && same_key(#[trigger] out@[k], #[trigger] out@[l]) ==> perm[k]
                    < perm[l],
        decreases input.len(),
    {
        let x = input.remove(0);
        assert(x == orig[i]);
        let mut p: usize = 0;
        while p < out.len() && !shown_before(&x, &out[p])
            invariant
                p <= out@.len(),
                forall|k: int| 0 <= k < p ==> !before(x, #[trigger] out@[k]),
            decreases out.len() - p,
        {
            p += 1;
        }
        let ghost s = out@;
        proof {
            assert forall|k: int, l: int| 0 <= k < l < s.len() + 1 implies !before(
                #[trigger] s.insert(p as int, x)[l],
                #[trigger] s.insert(p as int, x)[k],
            ) by {
                let t = s.insert(p as int, x);
                if k < p && l == p {
                } else if k == p && l > p {
                    lemma_before_order(t[l], x, s[p as int]);
                    if l - 1 > p {
                        assert(!before(s[l - 1], s[p as int]));
                    }
                    lemma_before_order(s[p as int], s[p as int], s[p as int]);
                } else if k < p && l < p {
                    assert(t[k] == s[k] && t[l] == s[l]);
                } else if k < p && l > p {
                    assert(t[k] == s[k] && t[l] == s[l - 1]);
                } else {
                    assert(t[k] == s[k - 1] && t[l] == s[l - 1]);
                }
            }
            let np = perm.insert(p as int, i);
            let t = s.insert(p as int, x);
            assert forall|k: int| 0 <= k < i + 1 implies 0 <= #[trigger] np[k] < i + 1 && t[k]
                == orig[np[k]] by {
                if k < p {
                    assert(np[k] == perm[k]);
                } else if k > p {
                    assert(np[k] == perm[k - 1]);
                }
            }
            assert forall|k: int, l: int| 0 <= k < l < i + 1 implies #[trigger] np[k]
                != #[trigger] np[l] by {
                if k != p && l != p {
                    let kk = if k < p { k } else { k - 1 };
                    let ll = if l < p { l } else { l - 1 };
                    assert(np[k] == perm[kk] && np[l] == perm[ll]);
                } else if k == p {
                    assert(np[l] == perm[l - 1]);
                } else {
                    assert(np[k] == perm[k]);
                }
            }
            assert forall|k: int, l: int|
                0 <= k < l < i + 1 && same_key(#[trigger] t[k], #[trigger] t[l]) implies np[k]
                < np[l] by {
                if k != p && l != p {
                    let kk = if k < p { k } else { k - 1 };
                    let ll = if l < p { l } else { l - 1 };
                    assert(np[k] == perm[kk] && np[l] == perm[ll]);
                    assert(t[k] == s[kk] && t[l] == s[ll]);
                } else if k == p {
                    assert(np[l] == perm[l - 1]);
                    assert(t[l] == s[l - 1]);
                    lemma_before_order(x, s[l - 1], s[p as int]);
                    if l - 1 > p {
                        assert(!before(s[l - 1], s[p as int]));
                    }
                    lemma_before_order(s[p as int], s[p as int], s[p as int]);
                } else {
                    assert(np[k] == perm[k]);
                }
            }
            perm = np;
            i = i + 1;
        }
        out.insert(p, x);
        assert(input@ =~= orig.subrange(i, n as int));
    }
    proof {
        assert(stable_sorted_by(orig, out@, perm));
    }
    *fs = out;
}

// ---------------------------------------------------------------------------
// Severity summary
// ---------------------------------------------------------------------------

/// The highest severity among findings, `None` for none.
pub fn max_severity(fs: &[Finding]) -> (r: Option<Severity>)
    ensures
        r is None <==> fs@.len() == 0,
        r matches Some(s) ==> (exists|k: int| 0 <= k < fs@.len() && fs@[k].severity == s) && (
        forall|k: int| 0 <= k < fs@.len() ==> rank(#[trigger] fs@[k].severity) <= rank(s)),
{
    let mut max: Option<Severity> = None;
    let mut max_r: i32 = 0;
    let mut i: usize = 0;
    while i < fs.len()
        invariant
            i <= fs@.len(),
            max is None <==> i == 0,
            max is None ==> max_r == 0,
            max matches Some(s) ==> max_r == rank(s) && (exists|k: int|
                0 <= k < i && fs@[k].severity == s) && (forall|k: int|
                0 <= k < i ==> rank(#[trigger] fs@[k].severity) <= rank(s)),
        decreases fs.len() - i,
    {
        let r = severity_rank(fs[i].severity);
        if r > max_r {
            max_r = r;
            max = Some(fs[i].severity);
        }
        i += 1;
    }
    max
}

/// The exit code a report maps to: 2 with a critical finding, 1 with a
/// warning, 0 otherwise.
pub open spec fn exit_code_of(fs: Seq<Finding>) -> i32 {
    if exists|k: int| 0 <= k < fs.len() && fs[k].severity == Severity::Critical {
        2
    } else if exists|k: int| 0 <= k < fs.len() && fs[k].severity == Severity::Warning {
        1
    } else {
        0
    }
}

/// The report's exit code: 0 when clean or info only, 1 with a warning,
/// 2 with a critical finding.
pub fn exit_code_for_report(fs: &[Finding]) -> (c: i32)
    ensures
        c == exit_code_of(fs@),
{
    match max_severity(fs) {
        Some(Severity::Critical) => 2,
        Some(Severity::Warning) => {
            assert(!exists|k: int| 0 <= k < fs@.len() && fs@[k].severity == Severity::Critical) by {
                if exists|k: int| 0 <= k < fs@.len() && fs@[k].severity == Severity::Critical {
                    let k = choose|k: int| 0 <= k < fs@.len() && fs@[k].severity == Severity::Critical;
                    assert(rank(fs@[k].severity) <= 2);
                }
            }
            1
        },
        _ => {
            assert(!exists|k: int| 0 <= k < fs@.len() && fs@[k].severity != Severity::Info) by {
                if exists|k: int| 0 <= k < fs@.len() && fs@[k].severity != Severity::Info {
                    let k = choose|k: int| 0 <= k < fs@.len() && fs@[k].severity != Severity::Info;
                    assert(rank(fs@[k].severity) <= 1);
                }
            }
            0
        },
    }
}

// ---------------------------------------------------------------------------
// Actions
// ---------------------------------------------------------------------------

/// The kind and id of an action: `clean:user-cache` is `("clean",
/// "user-cache")`; empty or `none` is `("none", "")`; without a colon the
/// whole action is the kind.
pub open spec fn action_parts(a: Seq<char>) -> (Seq<char>, Seq<char>) {
    if a.len() == 0 || a == "none"@ {
        ("none"@, seq![])
    } else {
        let k = find_from(a, ':', 0);
        if k < a.len() {
            (a.subrange(0, k), a.subrange(k + 1, a.len() as int))
        } else {
            (a, seq![])
        }
    }
}

/// Splits an action into its kind and id.
pub fn parse_action(action: &str) -> (r: (String, String))
    ensures
        (r.0@, r.1@) == action_parts(action@),
{
    let a = chars_of(action);
    if a.len() == 0 || eq_str(a.as_slice(), "none") {
        proof {
            reveal_strlit("");
        }
        return (String::from_str("none"), String::new());
    }
    let k = find_char(a.as_slice(), ':', 0);
    if k < a.len() {
        let kind = slice_of(a.as_slice(), 0, k);
        let id = slice_of(a.as_slice(), k + 1, a.len());
        (string_of(kind.as_slice()), string_of(id.as_slice()))
    } else {
        (String::from_str(action), String::new())
    }
}

/// Whether some finding asks to clean a named target.
pub open spec fn wants_clean(fs: Seq<Finding>) -> bool {
    exists|k: int| 0 <= k < fs.len() && action_parts(#[trigger] fs[k].action@).0 == "clean"@
        && action_parts(fs[k].action@).1.len() > 0
}

/// Whether some finding asks for the `apt` optimize step.
pub open spec fn wants_apt(fs: Seq<Finding>) -> bool {
    exists|k: int| 0 <= k < fs.len() && action_parts(#[trigger] fs[k].action@).0 == "optimize"@
        && action_parts(fs[k].action@).1 == "apt"@
}

/// Whether a finding's action id goes into `--include`: opt-in findings
/// that are selected by default and carry an action with an id.
pub open spec fn includes(f: Finding) -> bool {
    f.opt_in && f.default_selected && actionable(f.action@) && action_parts(f.action@).1.len() > 0
}

/// The ids for `--include`, in order, repeats kept.
pub open spec fn include_ids(fs: Seq<Finding>) -> Seq<Seq<char>>
    decreases fs.len(),
{
    if fs.len() == 0 {
        seq![]
    } else {
        include_ids(fs.drop_last()) + if includes(fs.last()) {
            seq![action_parts(fs.last().action@).1]
        } else {
            seq![]
        }
    }
}

/// Each element at its first occurrence only.
pub open spec fn dedup(s: Seq<Seq<char>>) -> Seq<Seq<char>>
    decreases s.len(),
{
    if s.len() == 0 {
        seq![]
    } else if s.drop_last().contains(s.last()) {
        dedup(s.drop_last())
    } else {
        dedup(s.drop_last()).push(s.last())
    }
}

/// The elements joined by commas.
pub open spec fn join_commas(s: Seq<Seq<char>>) -> Seq<char>
    decreases s.len(),
{
    if s.len() == 0 {
        seq![]
    } else if s.len() == 1 {
        s[0]
    } else {
        join_commas(s.drop_last()) + ","@ + s.last()
    }
}

/// The commands a report recommends.
pub open spec fn recommended(fs: Seq<Finding>) -> Seq<Seq<char>> {
    let inc = dedup(include_ids(fs));
    let clean = if wants_clean(fs) {
        seq![
            "mu clean --dry-run"@,
            if inc.len() == 0 {
                "mu clean"@
            } else {
                "mu clean --include="@ + join_commas(inc)
            },
        ]
    } else {
        seq![]
    };
    let apt = if wants_apt(fs) {
        seq!["mu optimize --dry-run"@, "mu optimize"@]
    } else {
        seq![]
    };
    if clean.len() + apt.len() == 0 {
        seq!["mu status"@]
    } else {
        clean + apt
    }
}

/// Whether some finding's action is exactly `optimize:apt`.
pub open spec fn has_apt_action(fs: Seq<Finding>) -> bool {
    exists|k: int| 0 <= k < fs.len() && (#[trigger] fs[k]).action@ == "optimize:apt"@
}

/// An action splits into `optimize` and `apt` exactly when it is
/// `optimize:apt`.
proof fn lemma_apt_action(a: Seq<char>)
    ensures
        action_parts(a) == ("optimize"@, "apt"@) <==> a == "optimize:apt"@,
{
    reveal_strlit("optimize:apt");
    reveal_strlit("optimize");
    reveal_strlit("apt");
    reveal_strlit("none");
    if a.len() > 0 {
        crate::text::lemma_find_from(a, ':', 0);
    }
    let k = find_from(a, ':', 0);
    if a == "optimize:apt"@ {
        assert(a[8] == ':');
        assert(k == 8) by {
            if k > 8 {
                assert(a[8] != ':');
            }
            if k < 8 {
                assert(a[k] == ':');
            }
        }
        assert(a.subrange(0, 8) =~= "optimize"@);
        assert(a.subrange(9, 12) =~= "apt"@);
    }
    if action_parts(a) == ("optimize"@, "apt"@) {
        assert(a.len() > 0 && a != "none"@) by {
            if a.len() == 0 || a == "none"@ {
                assert(action_parts(a).0 == "none"@);
                assert("none"@[0] != "optimize"@[0]);
            }
        }
        if k < a.len() {
            assert(a =~= a.subrange(0, k) + seq![':'] + a.subrange(k + 1, a.len() as int));
            assert(a =~= "optimize:apt"@);
        } else {
            assert(action_parts(a).1.len() == 0);
        }
    }
}

/// What the recommended commands are: never empty; a dry-run clean exactly
/// when some finding asks to clean a named target, followed by the clean
/// itself (with `--include` for the preselected opt-in targets); the
/// optimize dry run and run exactly when some finding's action is
/// `optimize:apt`; and `mu status` alone when neither holds.
pub proof fn law_recommended_commands(fs: Seq<Finding>)
    ensures
        recommended(fs).len() > 0,
        recommended(fs).contains("mu clean --dry-run"@) <==> wants_clean(fs),
        wants_clean(fs) ==> recommended(fs)[0] == "mu clean --dry-run"@ && recommended(fs)[1] == (if dedup(
            include_ids(fs),
        ).len() == 0 {
            "mu clean"@
        } else {
            "mu clean --include="@ + join_commas(dedup(include_ids(fs)))
        }),
        recommended(fs).contains("mu optimize --dry-run"@) <==> has_apt_action(fs),
        recommended(fs).contains("mu optimize"@) <==> has_apt_action(fs),
        !wants_clean(fs) && !has_apt_action(fs) ==> recommended(fs) == seq!["mu status"@],
{
    reveal_strlit("mu clean --dry-run");
    reveal_strlit("mu clean");
    reveal_strlit("mu clean --include=");
    reveal_strlit("mu optimize --dry-run");
    reveal_strlit("mu optimize");
    reveal_strlit("mu status");
    assert(wants_apt(fs) <==> has_apt_action(fs)) by {
        if wants_apt(fs) {
            let k = choose|k: int| 0 <= k < fs.len() && action_parts(#[trigger] fs[k].action@).0 == "optimize"@
                && action_parts(fs[k].action@).1 == "apt"@;
            lemma_apt_action(fs[k].action@);
        }
        if has_apt_action(fs) {
            let k = choose|k: int| 0 <= k < fs.len() && (#[trigger] fs[k]).action@ == "optimize:apt"@;
            lemma_apt_action(fs[k].action@);
        }
    }
    let inc = dedup(include_ids(fs));
    let cmd: Seq<char> = if inc.len() == 0 {
        "mu clean"@
    } else {
        "mu clean --include="@ + join_commas(inc)
    };
    assert(cmd[3] == 'c' && cmd.len() >= 8 && (cmd.len() == 8 || cmd[11] == 'i'));
    let r = recommended(fs);
    let dry = "mu clean --dry-run"@;
    let od = "mu optimize --dry-run"@;
    let o = "mu optimize"@;
    let st = "mu status"@;
    assert(dry[3] == 'c' && od[3] == 'o' && o[3] == 'o' && st[3] == 's' && dry[11] == 'd');
    assert(dry != cmd);
    assert(o != cmd && od != cmd);
    if wants_clean(fs) {
        assert(r.contains(dry)) by {
            assert(r[0] == dry);
        }
    }
    if has_apt_action(fs) {
        let base: Seq<Seq<char>> = if wants_clean(fs) { seq![dry, cmd] } else { seq![] };
        assert(r =~= base + seq![od, o]);
        assert(r[base.len() as int] == od && r[base.len() + 1int] == o);
    }
}

fn contains_id(v: &Vec<Vec<char>>, x: &Vec<char>) -> (b: bool)
    ensures
        b == crate::text::views(v@).contains(x@),
{
    let ghost vs = crate::text::views(v@);
    let mut i: usize = 0;
    while i < v.len()
        invariant
            i <= v@.len(),
            vs == crate::text::views(v@),
            forall|k: int| 0 <= k < i ==> vs[k] != x@,
        decreases v.len() - i,
    {
        if crate::text::eq(v[i].as_slice(), x.as_slice()) {
            assert(vs[i as int] == x@);
            return true;
        }
        i += 1;
    }
    false
}

/// `input` with repeats dropped, first occurrences kept in order.
pub fn unique(input: &Vec<Vec<char>>) -> (r: Vec<Vec<char>>)
    ensures
        crate::text::views(r@) == dedup(crate::text::views(input@)),
{
    let ghost iv = crate::text::views(input@);
    let mut out: Vec<Vec<char>> = Vec::new();
    let mut i: usize = 0;
    while i < input.len()
        invariant
            i <= input@.len(),
            iv == crate::text::views(input@),
            crate::text::views(out@) == dedup(iv.subrange(0, i as int)),
            forall|x: Seq<char>| crate::text::views(out@).contains(x) <==> iv.subrange(0, i as int).contains(x),
        decreases input.len() - i,
    {
        let ghost pre = iv.subrange(0, i as int);
        let ghost nxt = iv.subrange(0, i + 1);
        assert(nxt.drop_last() =~= pre);
        assert(nxt.last() == input@[i as int]@);
        let seen = contains_id(&out, &input[i]);
        if !seen {
            let ghost before = crate::text::views(out@);
            out.push(input[i].clone());
            assert(crate::text::views(out@) =~= before.push(input@[i as int]@));
            assert forall|x: Seq<char>| crate::text::views(out@).contains(x) <==> nxt.contains(x) by {
                if nxt.contains(x) {
                    let k = choose|k: int| 0 <= k < nxt.len() && nxt[k] == x;
                    if k < i {
                        assert(pre[k] == x);
                        assert(before.contains(x));
                        let j = choose|j: int| 0 <= j < before.len() && before[j] == x;
                        assert(crate::text::views(out@)[j] == x);
                    } else {
                        assert(crate::text::views(out@)[before.len() as int] == x);
                    }
                }
                if crate::text::views(out@).contains(x) {
                    let j = choose|j: int| 0 <= j < crate::text::views(out@).len() && crate::text::views(out@)[j] == x;
                    if j < before.len() {
                        assert(before[j] == x);
                        assert(before.contains(x));
                        assert(pre.contains(x));
                        let k = choose|k: int| 0 <= k < pre.len() && pre[k] == x;
                        assert(nxt[k] == x);
                    } else {
                        assert(nxt[i as int] == x);
                    }
                }
            }
        } else {
            assert forall|x: Seq<char>| crate::text::views(out@).contains(x) <==> nxt.contains(x) by {
                if nxt.contains(x) {
                    let k = choose|k: int| 0 <= k < nxt.len() && nxt[k] == x;
                    if k < i {
                        assert(pre[k] == x);
                    }
                }
                if pre.contains(x) {
                    let k = choose|k: int| 0 <= k < pre.len() && pre[k] == x;
                    assert(nxt[k] == x);
                }
            }
        }
        i += 1;
    }
    assert(iv.subrange(0, i as int) =~= iv);
    out
}

/// The suggested commands for a set of findings: a clean dry run and a
/// clean (with `--include` for recommended opt-in targets) when some
/// finding names a clean target, the optimize pair for `optimize:apt`, and
/// `mu status` when nothing else applies.
pub fn recommended_commands(fs: &[Finding]) -> (r: Vec<String>)
    ensures
        crate::text::string_views(r@) == recommended(fs@),
{
    let mut clean = false;
    let mut apt = false;
    let mut inc: Vec<Vec<char>> = Vec::new();
    let mut i: usize = 0;
    while i < fs.len()
        invariant
            i <= fs@.len(),
            clean == wants_clean(fs@.subrange(0, i as int)),
            apt == wants_apt(fs@.subrange(0, i as int)),
            crate::text::views(inc@) == include_ids(fs@.subrange(0, i as int)),
        decreases fs.len() - i,
    {
        let ghost pre = fs@.subrange(0, i as int);
        let ghost nxt = fs@.subrange(0, i + 1);
        assert(nxt.drop_last() =~= pre);
        let f = &fs[i];
        assert(nxt.last() == *f);
        let (kind, id) = parse_action(f.action.as_str());
        let kc = chars_of(kind.as_str());
        let ic = chars_of(id.as_str());
        let is_clean = eq_str(kc.as_slice(), "clean") && ic.len() > 0;
        let is_apt = eq_str(kc.as_slice(), "optimize") && eq_str(ic.as_slice(), "apt");
        assert(is_clean == (action_parts(f.action@).0 == "clean"@ && action_parts(f.action@).1.len() > 0));
        proof {
            if is_clean {
                assert(nxt[i as int] == *f);
            }
            if clean {
                let k = choose|k: int| 0 <= k < pre.len() && action_parts(#[trigger] pre[k].action@).0 == "clean"@
                    && action_parts(pre[k].action@).1.len() > 0;
                assert(nxt[k] == pre[k]);
            }
            if wants_clean(nxt) {
                let k = choose|k: int| 0 <= k < nxt.len() && action_parts(#[trigger] nxt[k].action@).0 == "clean"@
                    && action_parts(nxt[k].action@).1.len() > 0;
                if k < i {
                    assert(pre[k] == nxt[k]);
                }
            }
            if apt {
                let k = choose|k: int| 0 <= k < pre.len() && action_parts(#[trigger] pre[k].action@).0 == "optimize"@
                    && action_parts(pre[k].action@).1 == "apt"@;
                assert(nxt[k] == pre[k]);
            }
            if is_apt {
                assert(nxt[i as int] == *f);
            }
            if wants_apt(nxt) {
                let k = choose|k: int| 0 <= k < nxt.len() && action_parts(#[trigger] nxt[k].action@).0 == "optimize"@
                    && action_parts(nxt[k].action@).1 == "apt"@;
                if k < i {
                    assert(pre[k] == nxt[k]);
                }
            }
        }
        clean = clean || is_clean;
        apt = apt || is_apt;
        let act = is_actionable(&f.action);
        if f.opt_in && f.default_selected && act && ic.len() > 0 {
            let ghost before = crate::text::views(inc@);
            inc.push(ic);
            assert(crate::text::views(inc@) =~= before.push(action_parts(f.action@).1));
        }
        i += 1;
    }
    assert(fs@.subrange(0, i as int) =~= fs@);
    let mut cmds: Vec<String> = Vec::new();
    if clean {
        cmds.push(String::from_str("mu clean --dry-run"));
        let u = unique(&inc);
        if u.len() == 0 {
            cmds.push(String::from_str("mu clean"));
        } else {
            let mut line: Vec<char> = Vec::new();
            push_str(&mut line, "mu clean --include=");
            let ghost uv = crate::text::views(u@);
            let mut j: usize = 0;
            let mut joined: Vec<char> = Vec::new();
            while j < u.len()
                invariant
                    j <= u@.len(),
                    uv == crate::text::views(u@),
                    joined@ == join_commas(uv.subrange(0, j as int)),
                decreases u.len() - j,
            {
                let ghost prev = joined@;
                if j > 0 {
                    joined.push(',');
                }
                push_all(&mut joined, u[j].as_slice());
                assert(uv.subrange(0, j + 1).drop_last() =~= uv.subrange(0, j as int));
                proof {
                    reveal_strlit(",");
                    if j > 0 {
                        assert(joined@ =~= prev + ","@ + uv[j as int]);
                    } else {
                        assert(joined@ =~= uv[j as int]);
                    }
                }
                j += 1;
            }
            assert(uv.subrange(0, j as int) =~= uv);
            push_all(&mut line, joined.as_slice());
            cmds.push(string_of(line.as_slice()));
        }
    }
    if apt {
        cmds.push(String::from_str("mu optimize --dry-run"));
        cmds.push(String::from_str("mu optimize"));
    }
    if cmds.len() == 0 {
        cmds.push(String::from_str("mu status"));
    }
    assert(crate::text::string_views(cmds@) =~= recommended(fs@));
    cmds
}

} // verus!
