//! Lexical path rules: cleaning a path to its shortest lexical equivalent,
//! which paths are protected system locations, containment, the parent
//! directory of a path, and the lexical checks of cleanup roots and the
//! candidates under them.

use vstd::prelude::*;
use crate::error::Error;
use crate::text::{chars_of, debug_quote, debug_repr, eq, eq_str, push_all, push_str, split, split_on, starts_with, string_of, views};

verus! {

/// The elements of a path that name something: empty and `.` elements dropped.
pub open spec fn named_parts(parts: Seq<Seq<char>>) -> Seq<Seq<char>> {
    parts.filter(|x: Seq<char>| x.len() > 0 && x != "."@)
}

/// `..` elements applied: each removes the element before it; at the start
/// of a rooted path it is dropped, at the start of a relative one it stays.
pub open spec fn resolve(parts: Seq<Seq<char>>, rooted: bool) -> Seq<Seq<char>>
    decreases parts.len(),
{
    if parts.len() == 0 {
        seq![]
    } else {
        let st = resolve(parts.drop_last(), rooted);
        let p = parts.last();
        if p == ".."@ {
            if st.len() > 0 && st.last() != ".."@ {
                st.drop_last()
            } else if rooted {
                st
            } else {
                st.push(p)
            }
        } else {
            st.push(p)
        }
    }
}

/// The elements joined by `/`.
pub open spec fn join_slash(s: Seq<Seq<char>>) -> Seq<char>
    decreases s.len(),
{
    if s.len() == 0 {
        seq![]
    } else if s.len() == 1 {
        s[0]
    } else {
        join_slash(s.drop_last()) + "/"@ + s.last()
    }
}

/// The shortest path lexically equal to `p`.
pub open spec fn clean(p: Seq<char>) -> Seq<char> {
    let rooted = p.len() > 0 && p[0] == '/';
    let body = join_slash(resolve(named_parts(split(p, '/')), rooted));
    if rooted {
        "/"@ + body
    } else if body.len() == 0 {
        "."@
    } else {
        body
    }
}

/// Cleans a path lexically: repeated separators and `.` elements go, `..`
/// removes the element before it (and is dropped at the root), and the
/// empty path becomes `.`.
pub fn clean_path(p: &str) -> (r: Vec<char>)
    ensures
        r@ == clean(p@),
{
    let c = chars_of(p);
    let rooted = c.len() > 0 && c[0] == '/';
    let parts = split_on(c.as_slice(), '/');
    let ghost pv = views(parts@);
    let mut st: Vec<Vec<char>> = Vec::new();
    let mut i: usize = 0;
    while i < parts.len()
        invariant
            i <= parts@.len(),
            pv == views(parts@),
            views(st@) == resolve(named_parts(pv.subrange(0, i as int)), rooted),
        decreases parts.len() - i,
    {
        let part = &parts[i];
        let ghost pre = pv.subrange(0, i as int);
        let ghost nxt = pv.subrange(0, i + 1);
        assert(nxt =~= pre.push(part@));
        proof {
            reveal(Seq::filter);
            assert(nxt.drop_last() =~= pre);
        }
        if part.len() > 0 && !eq_str(part.as_slice(), ".") {
            let ghost np = named_parts(nxt);
            assert(np =~= named_parts(pre).push(part@));
            assert(np.drop_last() =~= named_parts(pre));
            if eq_str(part.as_slice(), "..") {
                let top_is_up = st.len() > 0 && eq_str(st[st.len() - 1].as_slice(), "..");
                if st.len() > 0 && !top_is_up {
                    let ghost before = views(st@);
                    st.pop();
                    assert(views(st@) =~= before.drop_last());
                } else if !rooted {
                    let ghost before = views(st@);
                    st.push(part.clone());
                    assert(views(st@) =~= before.push(part@));
                }
            } else {
                let ghost before = views(st@);
                st.push(part.clone());
                assert(views(st@) =~= before.push(part@));
            }
        } else {
            assert(named_parts(nxt) =~= named_parts(pre));
        }
        i += 1;
    }
    assert(pv.subrange(0, i as int) =~= pv);
    let ghost sv = views(st@);
    let mut body: Vec<char> = Vec::new();
    let mut j: usize = 0;
    while j < st.len()
        invariant
            j <= st@.len(),
            sv == views(st@),
            body@ == join_slash(sv.subrange(0, j as int)),
        decreases st.len() - j,
    {
        let ghost prev = body@;
        if j > 0 {
            body.push('/');
        }
        crate::text::push_all(&mut body, st[j].as_slice());
        assert(sv.subrange(0, j + 1).drop_last() =~= sv.subrange(0, j as int));
        proof {
            reveal_strlit("/");
            if j > 0 {
                assert(body@ =~= prev + "/"@ + sv[j as int]);
            } else {
                assert(body@ =~= sv[j as int]);
            }
        }
        j += 1;
    }
    assert(sv.subrange(0, j as int) =~= sv);
    if rooted {
        let mut r: Vec<char> = Vec::new();
        r.push('/');
        crate::text::push_all(&mut r, body.as_slice());
        proof {
            reveal_strlit("/");
        }
        assert(r@ =~= "/"@ + body@);
        r
    } else if body.len() == 0 {
        proof {
            reveal_strlit(".");
        }
        let mut r: Vec<char> = Vec::new();
        r.push('.');
        assert(r@ =~= "."@);
        r
    } else {
        body
    }
}

/// Whether a clean path `c` lies at or under the clean path `p`, element by
/// element.
pub open spec fn under(c: Seq<char>, p: Seq<char>) -> bool {
    c == p || (p == "/"@ && c.len() > 0 && c[0] == '/') || (p != "/"@ && p != "."@ && p.len() + 1
        <= c.len() && c.subrange(0, p.len() as int) == p && c[p.len() as int] == '/')
}

fn is_under(c: &[char], p: &[char]) -> (b: bool)
    ensures
        b == under(c@, p@),
{
    if crate::text::eq(c, p) {
        return true;
    }
    if eq_str(p, "/") {
        return c.len() > 0 && c[0] == '/';
    }
    if eq_str(p, ".") {
        return false;
    }
    if p.len() < c.len() && starts_with(c, p) {
        return c[p.len()] == '/';
    }
    false
}

/// The protected system locations.
pub open spec fn protected_prefixes() -> Seq<Seq<char>> {
    seq!["/boot"@, "/etc"@, "/usr"@, "/lib"@, "/lib64"@, "/bin"@, "/sbin"@, "/proc"@, "/sys"@,
        "/dev"@, "/run"@]
}

/// A path is protected when, cleaned, it is the root or lies at or under a
/// protected system location.
pub open spec fn protected(p: Seq<char>) -> bool {
    let c = clean(p);
    c == "/"@ || exists|k: int| 0 <= k < protected_prefixes().len() && under(c, protected_prefixes()[k])
}

/// Whether a path is protected from cleanup.
pub fn is_protected(path: &str) -> (b: bool)
    ensures
        b == protected(path@),
{
    let c = clean_path(path);
    if eq_str(c.as_slice(), "/") {
        return true;
    }
    let mut v: Vec<&'static str> = Vec::new();
    v.push("/boot");
    v.push("/etc");
    v.push("/usr");
    v.push("/lib");
    v.push("/lib64");
    v.push("/bin");
    v.push("/sbin");
    v.push("/proc");
    v.push("/sys");
    v.push("/dev");
    v.push("/run");
    let ghost pp = protected_prefixes();
    assert(v@.map_values(|s: &'static str| s@) =~= pp);
    let mut i: usize = 0;
    while i < v.len()
        invariant
            i <= v@.len(),
            v@.map_values(|s: &'static str| s@) == pp,
            pp == protected_prefixes(),
            c@ == clean(path@),
            forall|k: int| 0 <= k < i ==> !under(c@, pp[k]),
        decreases v.len() - i,
    {
        let pc = chars_of(v[i]);
        assert(pc@ == pp[i as int]);
        if is_under(c.as_slice(), pc.as_slice()) {
            return true;
        }
        i += 1;
    }
    false
}

/// Whether `child` lies strictly inside `parent`, after cleaning both.
pub open spec fn contains_path(parent: Seq<char>, child: Seq<char>) -> bool {
    clean(child) != clean(parent) && under(clean(child), clean(parent))
}

/// Containment is strict: no path contains itself, and of two paths at
/// most one contains the other.
pub proof fn law_contains_strict(a: Seq<char>, b: Seq<char>)
    ensures
        !contains_path(a, a),
        contains_path(a, b) ==> !contains_path(b, a),
{
    reveal_strlit("/");
    reveal_strlit(".");
}

/// Whether `child` is strictly inside `parent` (lexically, after cleaning);
/// never when they are equal or `child` escapes.
pub fn path_contains(parent: &str, child: &str) -> (b: bool)
    ensures
        b == contains_path(parent@, child@),
{
    let p = clean_path(parent);
    let c = clean_path(child);
    !crate::text::eq(c.as_slice(), p.as_slice()) && is_under(c.as_slice(), p.as_slice())
}

/// `s` without trailing separators and trailing `.` elements, never
/// shorter than `lo`.
pub open spec fn trim_back(s: Seq<char>, lo: int) -> Seq<char>
    decreases s.len(),
{
    if s.len() > lo && s.len() > 0 && s.last() == '/' {
        trim_back(s.drop_last(), lo)
    } else if s.len() >= 2 && s.len() >= lo + 2 && s.last() == '.' && s[s.len() - 2] == '/' {
        trim_back(s.drop_last(), lo)
    } else {
        s
    }
}

/// Index of the last `/` before `end`, or -1.
pub open spec fn last_slash(s: Seq<char>, end: int) -> int
    decreases end,
{
    if end <= 0 {
        -1
    } else if s[end - 1] == '/' {
        end - 1
    } else {
        last_slash(s, end - 1)
    }
}

/// The parent directory of a path: the path without its last element (and
/// the separators before it); `/` for the root and `.` for a bare name.
pub open spec fn parent_dir(p: Seq<char>) -> Seq<char> {
    let lo: int = if p.len() > 0 && p[0] == '/' { 1 } else { 0 };
    let t = trim_back(p, lo);
    let fallback = if lo == 1 { "/"@ } else { "."@ };
    if t.len() == 0 || t == "/"@ || t == "."@ {
        fallback
    } else {
        let k = last_slash(t, t.len() as int);
        let u = if k < 0 { seq![] } else if k == 0 { "/"@ } else { trim_back(t.subrange(0, k), lo) };
        if u.len() == 0 {
            fallback
        } else {
            u
        }
    }
}

fn trim_back_exec(s: &[char], hi: usize, lo: usize) -> (e: usize)
    requires
        hi <= s@.len(),
        lo <= 1,
    ensures
        e <= hi,
        s@.subrange(0, e as int) == trim_back(s@.subrange(0, hi as int), lo as int),
{
    let mut e = hi;
    while (e > lo && e > 0 && s[e - 1] == '/') || (e >= 2 && e - 2 >= lo && s[e - 1] == '.' && s[e - 2] == '/')
        invariant
            e <= hi <= s@.len(),
            lo <= 1,
            trim_back(s@.subrange(0, hi as int), lo as int) == trim_back(s@.subrange(0, e as int), lo as int),
        decreases e,
    {
        assert(s@.subrange(0, e as int).drop_last() =~= s@.subrange(0, e - 1));
        e -= 1;
    }
    e
}

/// The parent directory of `p` (`/` for the root, `.` for a bare name).
pub fn dir(p: &str) -> (r: String)
    ensures
        r@ == parent_dir(p@),
{
    let c = chars_of(p);
    let lo: usize = if c.len() > 0 && c[0] == '/' { 1 } else { 0 };
    let t = trim_back_exec(c.as_slice(), c.len(), lo);
    assert(c@.subrange(0, c@.len() as int) =~= c@);
    let tv = crate::text::slice_of(c.as_slice(), 0, t);
    proof {
        reveal_strlit("/");
        reveal_strlit(".");
    }
    let fallback = if lo == 1 { "/" } else { "." };
    if t == 0 || eq_str(tv.as_slice(), "/") || eq_str(tv.as_slice(), ".") {
        return String::from_str(fallback);
    }
    let mut k = t;
    while k > 0 && tv[k - 1] != '/'
        invariant
            k <= t == tv@.len(),
            last_slash(tv@, t as int) == last_slash(tv@, k as int),
        decreases k,
    {
        k -= 1;
    }
    if k == 0 {
        return String::from_str(fallback);
    }
    let ks = k - 1;
    assert(last_slash(tv@, t as int) == ks);
    if ks == 0 {
        return String::from_str("/");
    }
    let e = trim_back_exec(tv.as_slice(), ks, lo);
    if e == 0 {
        return String::from_str(fallback);
    }
    let u = crate::text::slice_of(tv.as_slice(), 0, e);
    string_of(u.as_slice())
}

/// Why a cleanup root is refused before the filesystem is asked: it is
/// not absolute, or cleaned it is `/` or a protected location.
pub open spec fn root_error(root: Seq<char>) -> Option<Seq<char>> {
    if root.len() == 0 || root[0] != '/' {
        Some("cleanup root must be absolute: "@ + debug_repr(root))
    } else if clean(root) == "/"@ || protected(clean(root)) {
        Some("unsafe cleanup root: "@ + clean(root))
    } else {
        None
    }
}

/// Checks a cleanup root lexically; returns it cleaned.
pub fn check_cleanup_root(root: &str) -> (r: Result<String, Error>)
    ensures
        match root_error(root@) {
            Some(m) => r matches Err(Error::Msg(t)) && t@ == m,
            None => r matches Ok(c) && c@ == clean(root@),
        },
{
    let rc = chars_of(root);
    if rc.len() == 0 || rc[0] != '/' {
        let mut t = chars_of("cleanup root must be absolute: ");
        let q = debug_quote(root);
        let qc = chars_of(q.as_str());
        push_all(&mut t, qc.as_slice());
        return Err(Error::Msg(string_of(t.as_slice())));
    }
    let c = clean_path(root);
    let cs = string_of(c.as_slice());
    if eq_str(c.as_slice(), "/") || is_protected(cs.as_str()) {
        let mut t = chars_of("unsafe cleanup root: ");
        push_all(&mut t, c.as_slice());
        return Err(Error::Msg(string_of(t.as_slice())));
    }
    Ok(cs)
}

/// Why a cleaned cleanup root is refused next to the home directory: the
/// home directory is unknown, or the root is home or one of its ancestors.
pub open spec fn home_error(clean_root: Seq<char>, home: Seq<char>) -> Option<Seq<char>> {
    if home.len() == 0 {
        Some("resolve home directory: HOME is not set"@)
    } else if clean_root == clean(home) || contains_path(clean_root, clean(home)) {
        Some("cleanup root must not be home or its ancestor: "@ + clean_root)
    } else {
        None
    }
}

/// Refuses a cleaned cleanup root that is the home directory or holds it.
pub fn check_root_not_home(clean_root: &str, home: &str) -> (r: Result<(), Error>)
    ensures
        match home_error(clean_root@, home@) {
            Some(m) => r matches Err(Error::Msg(t)) && t@ == m,
            None => r is Ok,
        },
{
    let hc = chars_of(home);
    if hc.len() == 0 {
        return Err(Error::Msg(String::from_str("resolve home directory: HOME is not set")));
    }
    let h = clean_path(home);
    let hs = string_of(h.as_slice());
    let rc = chars_of(clean_root);
    if eq(rc.as_slice(), h.as_slice()) || path_contains(clean_root, hs.as_str()) {
        let mut t = chars_of("cleanup root must not be home or its ancestor: ");
        push_all(&mut t, rc.as_slice());
        return Err(Error::Msg(string_of(t.as_slice())));
    }
    Ok(())
}

/// Why a cleanup candidate is refused before the filesystem is asked: it
/// is not absolute, or cleaned it is the root itself or outside it.
pub open spec fn candidate_error(clean_root: Seq<char>, candidate: Seq<char>) -> Option<Seq<char>> {
    if candidate.len() == 0 || candidate[0] != '/' {
        Some("cleanup candidate must be absolute: "@ + debug_repr(candidate))
    } else if clean(candidate) == clean_root || !contains_path(clean_root, clean(candidate)) {
        Some("cleanup candidate "@ + clean(candidate) + " is outside root "@ + clean_root)
    } else {
        None
    }
}

/// Checks a cleanup candidate against its cleaned root; returns it cleaned.
pub fn check_cleanup_candidate(clean_root: &str, candidate: &str) -> (r: Result<String, Error>)
    ensures
        match candidate_error(clean_root@, candidate@) {
            Some(m) => r matches Err(Error::Msg(t)) && t@ == m,
            None => r matches Ok(c) && c@ == clean(candidate@),
        },
{
    let cc = chars_of(candidate);
    if cc.len() == 0 || cc[0] != '/' {
        let mut t = chars_of("cleanup candidate must be absolute: ");
        let q = debug_quote(candidate);
        let qc = chars_of(q.as_str());
        push_all(&mut t, qc.as_slice());
        return Err(Error::Msg(string_of(t.as_slice())));
    }
    let c = clean_path(candidate);
    let cs = string_of(c.as_slice());
    let rc = chars_of(clean_root);
    if eq(c.as_slice(), rc.as_slice()) || !path_contains(clean_root, cs.as_str()) {
        let mut t = chars_of("cleanup candidate ");
        push_all(&mut t, c.as_slice());
        push_str(&mut t, " is outside root ");
        push_all(&mut t, rc.as_slice());
        return Err(Error::Msg(string_of(t.as_slice())));
    }
    Ok(cs)
}

/// The cleanup guards: a protected location (or `/`) is never accepted as
/// a cleanup root; an accepted candidate lies strictly inside its root; and
/// an accepted root neither is the home directory nor holds it.
pub proof fn law_cleanup_guards(root: Seq<char>, candidate: Seq<char>, home: Seq<char>)
    ensures
        root.len() > 0 && root[0] == '/' && (clean(root) == "/"@ || protected(clean(root))) ==> root_error(root) is Some,
        root_error(root) is None ==> !protected(clean(root)) && clean(root) != "/"@,
        candidate_error(clean(root), candidate) is None ==> contains_path(clean(root), clean(candidate)) && clean(
            candidate,
        ) != clean(root),
        home_error(clean(root), home) is None ==> clean(root) != clean(home) && !contains_path(clean(root), clean(home)),
{
}

} // verus!
