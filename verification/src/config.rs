//! The whitelist: protected paths, cache skip patterns and optimize skips,
//! with the validation and merging of a user's override over the defaults.
//! Reading and decoding `config.toml` happens at the edge; what is decided
//! here is whether an override is acceptable and what the merged policy is.

use vstd::prelude::*;
use crate::error::Error;
use crate::glob::{glob, glob_match_chars};
use crate::paths::{clean, clean_path, contains_path, is_protected, path_contains, protected};
use crate::text::{chars_of, debug_quote, debug_repr, string_of, string_views, trim, trimmed};

verus! {

/// Path protection rules and skip lists.
#[derive(Debug)]
pub struct Whitelist {
    pub protected_paths: ProtectedPaths,
    pub cache_skip: CacheSkip,
    pub optimize_skip: OptimizeSkip,
}

/// `[protected_paths]`.
#[derive(Debug)]
pub struct ProtectedPaths {
    pub system: Vec<String>,
    pub protect_running_kernel: bool,
}

/// `[cache_skip]` — globs relative to the cache root.
#[derive(Debug)]
pub struct CacheSkip {
    pub dirs: Vec<String>,
}

/// `[optimize_skip]` — step IDs always skipped by `mu optimize`.
#[derive(Debug)]
pub struct OptimizeSkip {
    pub steps: Vec<String>,
}

impl Default for Whitelist {
    fn default() -> (w: Self)
        ensures
            w.protected_paths.system@.len() == 0,
            !w.protected_paths.protect_running_kernel,
            w.cache_skip.dirs@.len() == 0,
            w.optimize_skip.steps@.len() == 0,
    {
        Whitelist {
            protected_paths: ProtectedPaths { system: Vec::new(), protect_running_kernel: false },
            cache_skip: CacheSkip { dirs: Vec::new() },
            optimize_skip: OptimizeSkip { steps: Vec::new() },
        }
    }
}

/// A Unix path is absolute when it starts with `/`.
pub open spec fn is_absolute(p: Seq<char>) -> bool {
    p.len() > 0 && p[0] == '/'
}

/// A trimmed cache-skip pattern must stay below the cache root.
pub open spec fn stays_relative(t: Seq<char>) -> bool {
    &&& t.len() > 0
    &&& !is_absolute(t)
    &&& t != ".."@
    &&& !(t.len() >= 3 && t.subrange(0, 3) == "../"@)
}

/// The message for the first protected path (from index `i`) that is not
/// absolute.
pub open spec fn protected_error(sys: Seq<Seq<char>>, i: int) -> Option<Seq<char>>
    decreases sys.len() - i,
{
    if i < 0 || i >= sys.len() {
        None
    } else if !is_absolute(sys[i]) {
        Some("protected path must be absolute: "@ + debug_repr(sys[i]))
    } else {
        protected_error(sys, i + 1)
    }
}

/// The message for the first cache-skip pattern (from index `i`) that
/// escapes the cache root or is malformed.
pub open spec fn skip_error(dirs: Seq<Seq<char>>, i: int) -> Option<Seq<char>>
    decreases dirs.len() - i,
{
    if i < 0 || i >= dirs.len() {
        None
    } else if !stays_relative(trim(dirs[i])) {
        Some("cache_skip pattern must stay relative to the cache root: "@ + debug_repr(trim(dirs[i])))
    } else if glob(trim(dirs[i]), trim(dirs[i])) is Err {
        Some("invalid cache_skip pattern "@ + debug_repr(trim(dirs[i])))
    } else {
        skip_error(dirs, i + 1)
    }
}

/// Why a user override is rejected, if it is.
pub open spec fn override_error(w: Whitelist) -> Option<Seq<char>> {
    match protected_error(string_views(w.protected_paths.system@), 0) {
        Some(m) => Some(m),
        None => skip_error(string_views(w.cache_skip.dirs@), 0),
    }
}

fn is_absolute_chars(p: &[char]) -> (b: bool)
    ensures
        b == is_absolute(p@),
{
    p.len() > 0 && p[0] == '/'
}

fn stays_relative_chars(t: &[char]) -> (b: bool)
    ensures
        b == stays_relative(t@),
{
    let dd = chars_of("..");
    let dds = chars_of("../");
    proof {
        reveal_strlit("..");
        reveal_strlit("../");
    }
    let is_dd = crate::text::eq(t, dd.as_slice());
    let starts = crate::text::starts_with(t, dds.as_slice());
    t.len() > 0 && !is_absolute_chars(t) && !is_dd && !starts
}

/// Checks a user override: every protected path is absolute, and every
/// cache-skip pattern (trimmed) is a well-formed glob relative to the cache
/// root. The first offending entry decides the message.
pub fn validate_whitelist_override(w: &Whitelist) -> (r: Result<(), Error>)
    ensures
        match override_error(*w) {
            None => r is Ok,
            Some(m) => r matches Err(Error::Msg(s)) && s@ == m,
        },
{
    let sys = &w.protected_paths.system;
    let ghost sv = string_views(sys@);
    let mut i: usize = 0;
    while i < sys.len()
        invariant
            i <= sys@.len(),
            sv == string_views(sys@),
            sv == string_views(w.protected_paths.system@),
            protected_error(sv, 0) == protected_error(sv, i as int),
        decreases sys.len() - i,
    {
        let p = chars_of(sys[i].as_str());
        assert(sv[i as int] == p@);
        if !is_absolute_chars(p.as_slice()) {
            let mut m = String::from_str("protected path must be absolute: ");
            let q = debug_quote(sys[i].as_str());
            m.append(q.as_str());
            return Err(Error::Msg(m));
        }
        i += 1;
    }
    let dirs = &w.cache_skip.dirs;
    let ghost dv = string_views(dirs@);
    let mut k: usize = 0;
    while k < dirs.len()
        invariant
            k <= dirs@.len(),
            dv == string_views(dirs@),
            protected_error(sv, 0) is None,
            override_error(*w) == skip_error(dv, k as int),
            sv == string_views(w.protected_paths.system@),
            dv == string_views(w.cache_skip.dirs@),
        decreases dirs.len() - k,
    {
        let raw = chars_of(dirs[k].as_str());
        assert(dv[k as int] == raw@);
        let t = trimmed(raw.as_slice());
        let ts = string_of(t.as_slice());
        if !stays_relative_chars(t.as_slice()) {
            let mut m = String::from_str("cache_skip pattern must stay relative to the cache root: ");
            let q = debug_quote(ts.as_str());
            m.append(q.as_str());
            return Err(Error::Msg(m));
        }
        if glob_match_chars(t.as_slice(), t.as_slice()).is_err() {
            let mut m = String::from_str("invalid cache_skip pattern ");
            let q = debug_quote(ts.as_str());
            m.append(q.as_str());
            return Err(Error::Msg(m));
        }
        k += 1;
    }
    Ok(())
}

/// Applies a validated user override on top of the defaults: protected
/// paths and cache-skip patterns are appended, a non-empty optimize skip
/// list replaces the default one, and the running-kernel protection of the
/// defaults is kept. An invalid override is rejected and nothing is merged.
pub fn merge_whitelist(base: Whitelist, over: Whitelist) -> (r: Result<Whitelist, Error>)
    ensures
        match override_error(over) {
            Some(m) => r matches Err(Error::Msg(s)) && s@ == m,
            None => r matches Ok(w) && {
                &&& w.protected_paths.system@ == base.protected_paths.system@
                    + over.protected_paths.system@
                &&& w.protected_paths.protect_running_kernel
                    == base.protected_paths.protect_running_kernel
                &&& w.cache_skip.dirs@ == base.cache_skip.dirs@ + over.cache_skip.dirs@
                &&& w.optimize_skip.steps@ == if over.optimize_skip.steps@.len() > 0 {
                    over.optimize_skip.steps@
                } else {
                    base.optimize_skip.steps@
                }
            },
        },
{
    match validate_whitelist_override(&over) {
        Err(e) => {
            return Err(e);
        },
        Ok(()) => {},
    }
    let mut wl = base;
    let Whitelist { protected_paths, cache_skip, optimize_skip } = over;
    let mut sys = protected_paths.system;
    let mut dirs = cache_skip.dirs;
    wl.protected_paths.system.append(&mut sys);
    wl.cache_skip.dirs.append(&mut dirs);
    if optimize_skip.steps.len() > 0 {
        wl.optimize_skip.steps = optimize_skip.steps;
    }
    Ok(wl)
}

/// A path may not be deleted when it is a protected system location, when
/// it is one of the configured protected paths, or when it lies inside one
/// of them other than the root (all compared after cleaning).
pub open spec fn whitelisted(path: Seq<char>, system: Seq<Seq<char>>) -> bool {
    protected(path) || exists|i: int|
        0 <= i < system.len() && (clean(#[trigger] system[i]) == clean(path) || (clean(system[i]) != "/"@
            && contains_path(system[i], path)))
}

/// Whether deleting `path` is refused by the built-in protected locations
/// or the whitelist's protected paths.
pub fn is_whitelisted(path: &str, wl: &Whitelist) -> (b: bool)
    ensures
        b == whitelisted(path@, string_views(wl.protected_paths.system@)),
{
    if is_protected(path) {
        return true;
    }
    let ghost sys = string_views(wl.protected_paths.system@);
    let c = clean_path(path);
    let mut i: usize = 0;
    while i < wl.protected_paths.system.len()
        invariant
            i <= sys.len(),
            sys == string_views(wl.protected_paths.system@),
            c@ == clean(path@),
            forall|k: int| 0 <= k < i ==> !(clean(#[trigger] sys[k]) == clean(path@) || (clean(sys[k]) != "/"@
                && contains_path(sys[k], path@))),
        decreases sys.len() - i,
    {
        let s = wl.protected_paths.system[i].as_str();
        assert(sys[i as int] == s@);
        let sc = clean_path(s);
        if crate::text::eq(sc.as_slice(), c.as_slice()) {
            return true;
        }
        if !crate::text::eq_str(sc.as_slice(), "/") && path_contains(s, path) {
            return true;
        }
        i += 1;
    }
    false
}

} // verus!
