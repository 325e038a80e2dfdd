//! The audit: findings about the system, their order and exit codes, the
//! options of `mu audit`, and the results of applying findings.

pub mod apply;
pub mod findings;
pub mod model;
pub mod report;
pub mod scan;

pub use apply::{ApplyResult, count_apply_errors};
pub use findings::{
    Finding, Severity, exit_code_for_report, max_severity, parse_action, recommended_commands,
    sort_findings,
};

use vstd::prelude::*;
use crate::clean::{CleanTarget, include_error, resolve_targets};
use crate::error::Error;
use crate::fmt::fmt_i64;
use crate::text::{push_all, push_str, string_of, string_views};

verus! {

/// The options of `mu audit`.
#[derive(Debug, Clone)]
pub struct Options {
    pub report: bool,
    pub json: bool,
    pub dry_run: bool,
    pub debug: bool,
    /// Opt-in clean ids to preselect (`--include`).
    pub include_ids: Vec<String>,
}

impl Default for Options {
    fn default() -> (o: Options)
        ensures
            !o.report && !o.json && !o.dry_run && !o.debug && o.include_ids@.len() == 0,
    {
        Options { report: false, json: false, dry_run: false, debug: false, include_ids: Vec::new() }
    }
}

/// The exit code a report asks for, carried as an error.
#[derive(Debug)]
pub struct ExitError {
    pub code: i32,
}

impl ExitError {
    /// The exit code.
    pub fn exit_code(&self) -> (c: i32)
        ensures
            c == self.code,
    {
        self.code
    }

    /// `audit findings require exit code <code>`.
    pub fn message(&self) -> (s: String)
        ensures
            s@ == "audit findings require exit code "@ + crate::fmt::dec_int(self.code as int),
    {
        let mut t: Vec<char> = Vec::new();
        push_str(&mut t, "audit findings require exit code ");
        let d = fmt_i64(self.code as i64);
        push_all(&mut t, d.as_slice());
        string_of(t.as_slice())
    }
}

/// The error of conflicting audit options, if any.
pub open spec fn options_error(o: Options, all: Seq<CleanTarget>) -> Option<Seq<char>> {
    if o.report && o.json {
        Some("--report and --json are mutually exclusive"@)
    } else if o.dry_run && (o.report || o.json) {
        Some("--dry-run is only valid for the interactive audit workflow"@)
    } else if o.include_ids@.len() > 0 {
        include_error(all, string_views(o.include_ids@))
    } else {
        None
    }
}

/// The audit options are refused exactly when `--report` and `--json` are
/// both given, when `--dry-run` comes with either, or when an include id
/// does not name an opt-in clean target; each with its own message, the
/// include error naming the first bad id.
pub proof fn law_audit_options(o: Options, all: Seq<CleanTarget>)
    ensures
        options_error(o, all) is Some <==> (o.report && o.json) || (o.dry_run && (o.report || o.json)) || exists|i: int|
            0 <= i < o.include_ids@.len() && !crate::clean::names_opt_in(all, #[trigger] o.include_ids@[i]@),
        o.report && o.json ==> options_error(o, all) == Some("--report and --json are mutually exclusive"@),
        !(o.report && o.json) && o.dry_run && (o.report || o.json) ==> options_error(o, all) == Some(
            "--dry-run is only valid for the interactive audit workflow"@,
        ),
        !(o.report || o.json) ==> options_error(o, all) == crate::clean::include_error(all, string_views(o.include_ids@)),
{
    let inc = string_views(o.include_ids@);
    crate::clean::law_include_error(all, inc);
    assert forall|i: int| 0 <= i < o.include_ids@.len() implies inc[i] == (#[trigger] o.include_ids@[i])@ by {}
    if o.include_ids@.len() == 0 {
        assert(inc.len() == 0);
        assert(crate::clean::include_error(all, inc) is None);
    }
    if exists|i: int| 0 <= i < o.include_ids@.len() && !crate::clean::names_opt_in(all, #[trigger] o.include_ids@[i]@) {
        let i = choose|i: int| 0 <= i < o.include_ids@.len() && !crate::clean::names_opt_in(all, #[trigger] o.include_ids@[i]@);
        assert(!crate::clean::names_opt_in(all, inc[i]));
    }
    if crate::clean::include_error(all, inc) is Some {
        let i = choose|i: int| 0 <= i < inc.len() && !crate::clean::names_opt_in(all, #[trigger] inc[i]);
        assert(inc[i] == o.include_ids@[i]@);
    }
}

/// Checks the audit options: `--report` and `--json` exclude each other,
/// `--dry-run` belongs to the interactive workflow, and every include id
/// must name an opt-in clean target among `all`.
pub fn validate_options(opts: &Options, all: &[CleanTarget]) -> (r: Result<(), Error>)
    ensures
        match options_error(*opts, all@) {
            Some(e) => r matches Err(Error::Msg(m)) && m@ == e,
            None => r is Ok,
        },
{
    if opts.report && opts.json {
        return Err(Error::Msg(String::from_str("--report and --json are mutually exclusive")));
    }
    if opts.dry_run && (opts.report || opts.json) {
        return Err(Error::Msg(String::from_str("--dry-run is only valid for the interactive audit workflow")));
    }
    if opts.include_ids.len() > 0 {
        match resolve_targets(all, opts.include_ids.as_slice()) {
            Err(e) => return Err(e),
            Ok(_) => {},
        }
    }
    Ok(())
}

} // verus!
