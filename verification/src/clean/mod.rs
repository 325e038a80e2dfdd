//! Clean targets: the catalog of cleaning categories, the options of
//! `mu clean`, and which targets a run enables.

pub mod flow;
pub mod plain;
pub mod scan_docker;
pub mod scan_kernels;
pub mod scan_snap;
pub mod targets;

use vstd::prelude::*;
use crate::error::Error;
use crate::text::{chars_of, push_all, push_str, string_of, string_views};

verus! {

/// One cleaning category. Scanning and executing it touch the system and
/// are done by the caller; the library decides with what is here.
#[derive(Debug, Clone)]
pub struct CleanTarget {
    pub id: String,
    pub label: String,
    pub requires_sudo: bool,
    /// Only enabled when its id is given to `--include`.
    pub opt_in: bool,
}

/// One scanned target.
#[derive(Debug, Clone)]
pub struct ScanResult {
    pub target: CleanTarget,
    pub size: i64,
    pub items: Vec<String>,
}

/// The options of `mu clean`.
#[derive(Debug, Clone)]
pub struct Options {
    pub dry_run: bool,
    pub debug: bool,
    /// Opt-in category ids.
    pub include_ids: Vec<String>,
    /// Skip the confirmation prompt.
    pub auto_yes: bool,
}

impl Default for Options {
    fn default() -> (o: Options)
        ensures
            !o.dry_run && !o.debug && o.include_ids@.len() == 0 && !o.auto_yes,
    {
        Options { dry_run: false, debug: false, include_ids: Vec::new(), auto_yes: false }
    }
}

fn target(id: &str, label: &str, requires_sudo: bool, opt_in: bool) -> (t: CleanTarget)
    ensures
        t.id@ == id@ && t.label@ == label@ && t.requires_sudo == requires_sudo && t.opt_in == opt_in,
{
    CleanTarget { id: String::from_str(id), label: String::from_str(label), requires_sudo, opt_in }
}

/// The built-in targets in display order, each id with whether it is
/// opt-in (`docker` only when the Docker socket is present).
pub open spec fn catalog(docker: bool) -> Seq<(Seq<char>, bool)> {
    seq![("user-cache"@, false), ("thumbnails"@, false), ("font-cache"@, false), ("apt-cache"@, false),
        ("journal-logs"@, false), ("snap"@, false), ("kernels"@, false), ("browser-cache"@, true)]
        + if docker {
        seq![("docker"@, true)]
    } else {
        seq![]
    }
}

/// The id and opt-in flag of each target.
pub open spec fn target_keys(ts: Seq<CleanTarget>) -> Seq<(Seq<char>, bool)> {
    ts.map_values(|t: CleanTarget| (t.id@, t.opt_in))
}

/// The built-in targets in display order; `docker_present` says whether the
/// Docker socket exists.
pub fn all_targets(docker_present: bool) -> (v: Vec<CleanTarget>)
    ensures
        target_keys(v@) == catalog(docker_present),
{
    let mut v = Vec::new();
    v.push(target("user-cache", "User Cache (~/.cache)", false, false));
    v.push(target("thumbnails", "Thumbnail Cache", false, false));
    v.push(target("font-cache", "Font Cache (all users)", true, false));
    v.push(target("apt-cache", "APT Package Cache", true, false));
    v.push(target("journal-logs", "Journal Logs", true, false));
    v.push(target("snap", "Snap Disabled Revisions", true, false));
    v.push(target("kernels", "APT Autoremove Candidates", true, false));
    v.push(target("browser-cache", "Browser Caches (Chrome/Firefox/VSCode)", false, true));
    if docker_present {
        v.push(target("docker", "Docker Build Cache", false, true));
    }
    assert(target_keys(v@) =~= catalog(docker_present));
    v
}

/// Index of the first target at or after `i` with id `id` (or the length).
pub open spec fn find_target_from(ts: Seq<CleanTarget>, id: Seq<char>, i: int) -> int
    decreases ts.len() - i,
{
    if 0 <= i < ts.len() && ts[i].id@ != id {
        find_target_from(ts, id, i + 1)
    } else {
        i
    }
}

/// Index of the first target with id `id` (or the length).
pub open spec fn find_target(ts: Seq<CleanTarget>, id: Seq<char>) -> int {
    find_target_from(ts, id, 0)
}

pub proof fn lemma_find_target(ts: Seq<CleanTarget>, id: Seq<char>, i: int)
    requires
        0 <= i <= ts.len(),
    ensures
        i <= find_target_from(ts, id, i) <= ts.len(),
        find_target_from(ts, id, i) < ts.len() ==> ts[find_target_from(ts, id, i)].id@ == id,
        forall|j: int| i <= j < find_target_from(ts, id, i) ==> ts[j].id@ != id,
    decreases ts.len() - i,
{
    if i < ts.len() && ts[i].id@ != id {
        lemma_find_target(ts, id, i + 1);
    }
}

/// The first include id that is unknown or names a target that is not
/// opt-in, with the error it gives; `None` when all are valid.
pub open spec fn include_error(all: Seq<CleanTarget>, inc: Seq<Seq<char>>) -> Option<Seq<char>>
    decreases inc.len(),
{
    if inc.len() == 0 {
        None
    } else {
        match include_error(all, inc.drop_last()) {
            Some(e) => Some(e),
            None => {
                let id = inc.last();
                let k = find_target(all, id);
                if k >= all.len() {
                    Some("unknown clean include ID: "@ + id)
                } else if !all[k].opt_in {
                    Some("clean include ID is not opt-in: "@ + id)
                } else {
                    None
                }
            },
        }
    }
}

/// Whether `id` names an opt-in target of `all` (the first target so named).
pub open spec fn names_opt_in(all: Seq<CleanTarget>, id: Seq<char>) -> bool {
    find_target(all, id) < all.len() && all[find_target(all, id)].opt_in
}

/// The include ids are refused exactly when one of them does not name an
/// opt-in target; the error names the first such id, as unknown when no
/// target has that id and as not opt-in otherwise.
pub proof fn law_include_error(all: Seq<CleanTarget>, inc: Seq<Seq<char>>)
    ensures
        include_error(all, inc) is None <==> forall|i: int| 0 <= i < inc.len() ==> names_opt_in(all, #[trigger] inc[i]),
        include_error(all, inc) matches Some(e) ==> exists|i: int|
            0 <= i < inc.len() && !names_opt_in(all, #[trigger] inc[i]) && (forall|j: int|
                0 <= j < i ==> names_opt_in(all, #[trigger] inc[j])) && e == (if find_target(all, inc[i]) >= all.len() {
                "unknown clean include ID: "@ + inc[i]
            } else {
                "clean include ID is not opt-in: "@ + inc[i]
            }),
    decreases inc.len(),
{
    if inc.len() > 0 {
        let p = inc.drop_last();
        law_include_error(all, p);
        let n = inc.len() - 1;
        assert(inc[n] == inc.last());
        assert forall|i: int| 0 <= i < p.len() implies p[i] == inc[i] by {}
        match include_error(all, p) {
            Some(e) => {
                let i = choose|i: int|
                    0 <= i < p.len() && !names_opt_in(all, #[trigger] p[i]) && (forall|j: int|
                        0 <= j < i ==> names_opt_in(all, #[trigger] p[j])) && e == (if find_target(all, p[i]) >= all.len() {
                        "unknown clean include ID: "@ + p[i]
                    } else {
                        "clean include ID is not opt-in: "@ + p[i]
                    });
                assert(inc[i] == p[i]);
                assert forall|j: int| 0 <= j < i implies names_opt_in(all, #[trigger] inc[j]) by {
                    assert(inc[j] == p[j]);
                }
            },
            None => {
                assert forall|j: int| 0 <= j < n implies names_opt_in(all, #[trigger] inc[j]) by {
                    assert(inc[j] == p[j]);
                }
            },
        }
    }
}

/// The targets a run enables: every target that is not opt-in, and the
/// opt-in ones whose id is included, in catalog order.
pub open spec fn enabled(all: Seq<CleanTarget>, inc: Seq<Seq<char>>) -> Seq<CleanTarget> {
    all.filter(|t: CleanTarget| !t.opt_in || inc.contains(t.id@))
}

/// A run enables exactly the targets of the catalog that are not opt-in,
/// and the opt-in ones whose id was included.
pub proof fn law_enabled_targets(all: Seq<CleanTarget>, inc: Seq<Seq<char>>)
    ensures
        forall|t: CleanTarget| #[trigger] enabled(all, inc).contains(t) <==> all.contains(t) && (!t.opt_in || inc.contains(t.id@)),
{
    let pred = |t: CleanTarget| !t.opt_in || inc.contains(t.id@);
    assert forall|t: CleanTarget| #[trigger] enabled(all, inc).contains(t) <==> all.contains(t) && (!t.opt_in || inc.contains(t.id@)) by {
        if enabled(all, inc).contains(t) {
            all.lemma_filter_contains_rev(pred, t);
            let k = choose|k: int| 0 <= k < all.filter(pred).len() && all.filter(pred)[k] == t;
            all.lemma_filter_pred(pred, k);
        }
        if all.contains(t) && pred(t) {
            let k = choose|k: int| 0 <= k < all.len() && all[k] == t;
            all.lemma_filter_contains(pred, k);
        }
    }
}

fn index_of(all: &[CleanTarget], id: &[char]) -> (k: usize)
    ensures
        k == find_target(all@, id@),
{
    proof {
        lemma_find_target(all@, id@, 0);
    }
    let mut k: usize = 0;
    while k < all.len()
        invariant
            k <= all@.len(),
            forall|j: int| 0 <= j < k ==> all@[j].id@ != id@,
            0 <= find_target(all@, id@) <= all@.len(),
            find_target(all@, id@) < all@.len() ==> all@[find_target(all@, id@)].id@ == id@,
            forall|j: int| 0 <= j < find_target(all@, id@) ==> all@[j].id@ != id@,
        decreases all.len() - k,
    {
        let c = chars_of(all[k].id.as_str());
        if crate::text::eq(c.as_slice(), id) {
            return k;
        }
        k += 1;
    }
    k
}

fn included(inc: &[String], id: &[char]) -> (b: bool)
    ensures
        b == string_views(inc@).contains(id@),
{
    let ghost iv = string_views(inc@);
    let mut i: usize = 0;
    while i < inc.len()
        invariant
            i <= inc@.len(),
            iv == string_views(inc@),
            forall|j: int| 0 <= j < i ==> iv[j] != id@,
        decreases inc.len() - i,
    {
        let c = chars_of(inc[i].as_str());
        if crate::text::eq(c.as_slice(), id) {
            assert(iv[i as int] == id@);
            return true;
        }
        i += 1;
    }
    false
}

/// Validates the include ids against the targets `all` and returns the
/// targets a run enables. An unknown id, or one whose target is not
/// opt-in, is an error (the first such id in order).
pub fn resolve_targets(all: &[CleanTarget], include_ids: &[String]) -> (r: Result<
    Vec<CleanTarget>,
    Error,
>)
    ensures
        match include_error(all@, string_views(include_ids@)) {
            Some(e) => r matches Err(Error::Msg(m)) && m@ == e,
            None => r matches Ok(v) && v@ == enabled(all@, string_views(include_ids@)),
        },
{
    let ghost iv = string_views(include_ids@);
    let mut i: usize = 0;
    while i < include_ids.len()
        invariant
            i <= include_ids@.len(),
            iv == string_views(include_ids@),
            include_error(all@, iv.subrange(0, i as int)) is None,
        decreases include_ids.len() - i,
    {
        assert(iv.subrange(0, i + 1).drop_last() =~= iv.subrange(0, i as int));
        let id = chars_of(include_ids[i].as_str());
        let k = index_of(all, id.as_slice());
        if k >= all.len() {
            let mut t: Vec<char> = Vec::new();
            push_str(&mut t, "unknown clean include ID: ");
            push_all(&mut t, id.as_slice());
            proof {
                lemma_include_error_prefix(all@, iv, i + 1);
            }
            return Err(Error::Msg(string_of(t.as_slice())));
        }
        if !all[k].opt_in {
            let mut t: Vec<char> = Vec::new();
            push_str(&mut t, "clean include ID is not opt-in: ");
            push_all(&mut t, id.as_slice());
            proof {
                lemma_include_error_prefix(all@, iv, i + 1);
            }
            return Err(Error::Msg(string_of(t.as_slice())));
        }
        i += 1;
    }
    assert(iv.subrange(0, i as int) =~= iv);
    let mut out: Vec<CleanTarget> = Vec::new();
    let mut j: usize = 0;
    while j < all.len()
        invariant
            j <= all@.len(),
            iv == string_views(include_ids@),
            out@ == enabled(all@.subrange(0, j as int), iv),
        decreases all.len() - j,
    {
        let t = &all[j];
        let id = chars_of(t.id.as_str());
        let keep = !t.opt_in || included(include_ids, id.as_slice());
        let ghost pre = all@.subrange(0, j as int);
        assert(all@.subrange(0, j + 1) =~= pre.push(*t));
        proof {
            reveal(Seq::filter);
            assert(pre.push(*t).drop_last() =~= pre);
        }
        if keep {
            out.push(t.clone_target());
        }
        j += 1;
    }
    assert(all@.subrange(0, j as int) =~= all@);
    Ok(out)
}

/// An error found among the first `n` include ids is the error of all of them.
pub proof fn lemma_include_error_prefix(all: Seq<CleanTarget>, inc: Seq<Seq<char>>, n: int)
    requires
        0 <= n <= inc.len(),
        include_error(all, inc.subrange(0, n)) is Some,
    ensures
        include_error(all, inc) == include_error(all, inc.subrange(0, n)),
    decreases inc.len() - n,
{
    if n < inc.len() {
        assert(inc.subrange(0, n + 1).drop_last() =~= inc.subrange(0, n));
        lemma_include_error_prefix(all, inc, n + 1);
    } else {
        assert(inc.subrange(0, n) =~= inc);
    }
}

impl CleanTarget {
    /// A field-by-field copy.
    pub fn clone_target(&self) -> (t: CleanTarget)
        ensures
            t == *self,
    {
        CleanTarget {
            id: self.id.clone(),
            label: self.label.clone(),
            requires_sudo: self.requires_sudo,
            opt_in: self.opt_in,
        }
    }
}


// ---------------------------------------------------------------------------
// Numbers in tool output
// ---------------------------------------------------------------------------

/// The end of the run of ASCII digits starting at `j`.
pub open spec fn digit_run(s: Seq<char>, j: int) -> int
    decreases s.len() - j,
{
    if 0 <= j < s.len() && '0' <= s[j] <= '9' {
        digit_run(s, j + 1)
    } else {
        j
    }
}

/// Whether `w` starts `s` from `i`, ignoring ASCII case in `s`.
pub open spec fn starts_word_at(s: Seq<char>, i: int, w: Seq<char>) -> bool {
    0 <= i && i + w.len() <= s.len() && crate::clean::scan_kernels::ascii_lower(s.subrange(i, i + w.len())) == w
}

/// The length of the float at the start of `s` (the `%f` operand of a scanf-style reader): an
/// optional sign, then `infinity`, `inf` or `nan` in any case, or digits
/// with an optional fraction (at least one digit in all) and an exponent
/// that is taken only when digits follow `e[+-]`.
pub open spec fn float_len(s: Seq<char>) -> Option<int> {
    let i: int = if s.len() > 0 && (s[0] == '+' || s[0] == '-') { 1 } else { 0 };
    if starts_word_at(s, i, "infinity"@) {
        Some(i + 8)
    } else if starts_word_at(s, i, "inf"@) {
        Some(i + 3)
    } else if starts_word_at(s, i, "nan"@) {
        Some(i + 3)
    } else {
        let j = digit_run(s, i);
        let int_digits = j - i;
        let dot = j < s.len() && s[j] == '.';
        let k = if dot { digit_run(s, j + 1) } else { j };
        let frac_digits = if dot { k - j - 1 } else { 0 };
        if int_digits == 0 && frac_digits == 0 {
            None
        } else {
            let j2 = if dot { k } else { j };
            if j2 < s.len() && (s[j2] == 'e' || s[j2] == 'E') {
                let e0 = if j2 + 1 < s.len() && (s[j2 + 1] == '+' || s[j2 + 1] == '-') { j2 + 2 } else { j2 + 1 };
                let e1 = digit_run(s, e0);
                if e1 > e0 { Some(e1) } else { Some(j2) }
            } else {
                Some(j2)
            }
        }
    }
}

fn digit_run_exec(s: &[char], j: usize) -> (k: usize)
    requires
        j <= s@.len(),
    ensures
        k as int == digit_run(s@, j as int),
        j <= k <= s@.len(),
{
    let mut k = j;
    while k < s.len() && '0' <= s[k] && s[k] <= '9'
        invariant
            j <= k <= s@.len(),
            digit_run(s@, j as int) == digit_run(s@, k as int),
        decreases s.len() - k,
    {
        k += 1;
    }
    k
}

fn starts_word(s: &[char], i: usize, w: &str) -> (b: bool)
    requires
        i <= s@.len(),
    ensures
        b == starts_word_at(s@, i as int, w@),
{
    let wc = chars_of(w);
    if wc.len() > s.len() - i {
        return false;
    }
    let part = crate::text::slice_of(s, i, i + wc.len());
    let low = crate::clean::scan_kernels::lower_ascii(part.as_slice());
    crate::text::eq(low.as_slice(), wc.as_slice())
}

/// The length of the float token at the start of `s`, if there is one.
pub fn float_prefix(s: &[char]) -> (r: Option<usize>)
    ensures
        match float_len(s@) {
            None => r is None,
            Some(n) => r == Some(n as usize),
        },
{
    let i: usize = if s.len() > 0 && (s[0] == '+' || s[0] == '-') { 1 } else { 0 };
    if starts_word(s, i, "infinity") {
        return Some(i + 8);
    }
    if starts_word(s, i, "inf") {
        return Some(i + 3);
    }
    if starts_word(s, i, "nan") {
        return Some(i + 3);
    }
    let j = digit_run_exec(s, i);
    let dot = j < s.len() && s[j] == '.';
    let k = if dot { digit_run_exec(s, j + 1) } else { j };
    let int_digits = j - i;
    let frac_digits = if dot { k - j - 1 } else { 0 };
    if int_digits == 0 && frac_digits == 0 {
        return None;
    }
    let j2 = if dot { k } else { j };
    if j2 < s.len() && (s[j2] == 'e' || s[j2] == 'E') {
        let e0 = if j2 + 1 < s.len() && (s[j2 + 1] == '+' || s[j2 + 1] == '-') { j2 + 2 } else { j2 + 1 };
        let e1 = digit_run_exec(s, e0);
        if e1 > e0 {
            return Some(e1);
        }
    }
    Some(j2)
}

/// Leading whitespace skipped, then a float and a whitespace-free word, as
/// `Sscanf("%f%s")` reads them: the float's text, the word, and how many of
/// the two were read (0, 1 or 2).
pub open spec fn scan_number_word(input: Seq<char>) -> (Seq<char>, Seq<char>, nat) {
    let rest = crate::text::trim_start(input);
    match float_len(rest) {
        None => (Seq::empty(), Seq::empty(), 0),
        Some(n) => {
            let after = crate::text::trim_start(rest.subrange(n, rest.len() as int));
            let unit = after.subrange(0, crate::text::word_end(after, 0));
            if unit.len() == 0 {
                (rest.subrange(0, n), Seq::empty(), 1)
            } else {
                (rest.subrange(0, n), unit, 2)
            }
        }
    }
}

proof fn lemma_float_len_bound(s: Seq<char>)
    ensures
        float_len(s) matches Some(n) ==> 0 < n <= s.len(),
{
    reveal_strlit("infinity");
    reveal_strlit("inf");
    reveal_strlit("nan");
    let i: int = if s.len() > 0 && (s[0] == '+' || s[0] == '-') { 1 } else { 0 };
    lemma_digit_run(s, i);
    let j = digit_run(s, i);
    if j < s.len() && s[j] == '.' {
        lemma_digit_run(s, j + 1);
        let k = digit_run(s, j + 1);
        if k < s.len() && (s[k] == 'e' || s[k] == 'E') {
            let e0 = if k + 1 < s.len() && (s[k + 1] == '+' || s[k + 1] == '-') { k + 2 } else { k + 1 };
            lemma_digit_run(s, e0);
        }
    } else if j < s.len() && (s[j] == 'e' || s[j] == 'E') {
        let e0 = if j + 1 < s.len() && (s[j + 1] == '+' || s[j + 1] == '-') { j + 2 } else { j + 1 };
        lemma_digit_run(s, e0);
    }
}

proof fn lemma_digit_run(s: Seq<char>, j: int)
    ensures
        j <= digit_run(s, j),
        0 <= j <= s.len() ==> digit_run(s, j) <= s.len(),
    decreases s.len() - j,
{
    if 0 <= j < s.len() && '0' <= s[j] <= '9' {
        lemma_digit_run(s, j + 1);
    }
}

fn skip_ws_exec(s: &[char], i: usize) -> (k: usize)
    requires
        i <= s@.len(),
    ensures
        k as int == crate::text::skip_ws(s@, i as int),
        i <= k <= s@.len(),
{
    let mut k = i;
    while k < s.len() && crate::text::is_whitespace(s[k])
        invariant
            i <= k <= s@.len(),
            crate::text::skip_ws(s@, i as int) == crate::text::skip_ws(s@, k as int),
        decreases s.len() - k,
    {
        k += 1;
    }
    k
}

fn word_end_exec(s: &[char], i: usize) -> (k: usize)
    requires
        i <= s@.len(),
    ensures
        k as int == crate::text::word_end(s@, i as int),
        i <= k <= s@.len(),
{
    let mut k = i;
    while k < s.len() && !crate::text::is_whitespace(s[k])
        invariant
            i <= k <= s@.len(),
            crate::text::word_end(s@, i as int) == crate::text::word_end(s@, k as int),
        decreases s.len() - k,
    {
        k += 1;
    }
    k
}

/// Reads a float and a word as `Sscanf("%f%s")` does: the float's text,
/// the word, and how many of the two were read. The caller converts the
/// float's text to a number.
pub fn scan_f_s(input: &str) -> (r: (String, String, usize))
    ensures
        (r.0@, r.1@, r.2 as nat) == scan_number_word(input@),
{
    let c = chars_of(input);
    let a = skip_ws_exec(c.as_slice(), 0);
    let rest = crate::text::slice_of(c.as_slice(), a, c.len());
    assert(rest@ == crate::text::trim_start(input@));
    proof {
        lemma_float_len_bound(rest@);
    }
    match float_prefix(rest.as_slice()) {
        None => (String::new(), String::new(), 0),
        Some(n) => {
            let num = crate::text::slice_of(rest.as_slice(), 0, n);
            let tail = crate::text::slice_of(rest.as_slice(), n, rest.len());
            let b = skip_ws_exec(tail.as_slice(), 0);
            let after = crate::text::slice_of(tail.as_slice(), b, tail.len());
            let e = word_end_exec(after.as_slice(), 0);
            let unit = crate::text::slice_of(after.as_slice(), 0, e);
            if unit.len() == 0 {
                (string_of(num.as_slice()), String::new(), 1)
            } else {
                (string_of(num.as_slice()), string_of(unit.as_slice()), 2)
            }
        },
    }
}

} // verus!
