//! The command-line grammar of `mu`: argv is resolved into a subcommand
//! with its flag values, or into text to print (help, version, completion
//! scripts, errors) with an exit code. Flags follow POSIX/GNU-style parsing rules
//! (interspersed flags, `--name=value`, shorthand clusters, `--` ends flags)
//! and subcommands are found from the first non-flag argument.

use vstd::prelude::*;
use crate::fmt::{dec, fmt_u128, fmt_u64};
use crate::text::{
    chars_of, contains_char, debug_quote, debug_repr, eq_str, find_char, find_from, lowercase,
    push_all, push_str, slice_of, string_of, string_views, to_lower, views,
};

verus! {

/// The version string printed by `mu --version`.
pub const MU_VERSION: &'static str = "dev";

// Help text, byte for byte.
pub const ROOT_HELP: &'static str = "\
mu (Mole Ubuntu) — safe, fast system cleaner and optimizer.

Run without arguments to open the interactive TUI menu.
All destructive commands support --dry-run for safe previewing.

Usage:
  mu [flags]
  mu [command]

Available Commands:
  audit       Diagnose cleanup issues and apply recommended fixes
  clean       Free disk space by removing caches, logs, and old packages
  completion  Generate the autocompletion script for the specified shell
  help        Help about any command
  optimize    Run system maintenance: apt autoremove, journal vacuum, cache refresh
  status      Live system dashboard: CPU, RAM, disk, network, health score
  uninstall   Remove apps and all their config, cache, and data remnants

Flags:
      --debug     Enable verbose debug logging
  -h, --help      help for mu
  -v, --version   version for mu

Use \"mu [command] --help\" for more information about a command.
";

pub const AUDIT_HELP: &'static str = "\
Scan the system for reclaimable space and health pressure, then
guide you through applying safe fixes (clean targets and optimize steps).

Interactive (default on a TTY):
  scan → select findings → confirm → apply → re-score

Scripting:
  mu audit --report     human-readable report (exit 1=warning, 2=critical)
  mu audit --json       structured JSON report
  mu audit --dry-run    wizard/report apply path without making changes

Opt-in clean categories (browser-cache, docker) appear in the audit but are
not selected unless listed in --include.

Usage:
  mu audit [flags]

Flags:
      --dry-run           Preview apply actions without making changes
  -h, --help              help for audit
      --include strings   Pre-select opt-in clean categories (e.g. browser-cache)
      --json              Print JSON findings and exit
      --report            Print findings and exit (no apply)

Global Flags:
      --debug   Enable verbose debug logging
";

pub const CLEAN_HELP: &'static str = "\
Scan and remove:
  • User cache (~/.cache)
  • APT package cache
  • Snap disabled revisions
  • Journal logs (older than 30 days)
  • Complete APT-policy autoremove candidate set
  • Browser caches (Chrome, Firefox, VSCode)
  • Thumbnail cache
  • Docker build cache (if Docker is installed)

Use --dry-run to preview what would be removed without making changes.
Use --include=browser-cache to enable opt-in categories.
Use --yes to skip the confirmation prompt (for scripting).

Usage:
  mu clean [flags]

Flags:
      --dry-run           Preview actions without making changes
  -h, --help              help for clean
      --include strings   Opt-in categories (e.g. browser-cache)
  -y, --yes               Skip confirmation prompt

Global Flags:
      --debug   Enable verbose debug logging
";

pub const OPTIMIZE_HELP: &'static str = "\
Runs the following maintenance tasks:
  1. apt-get update && apt-get autoremove --purge
  2. journalctl --vacuum-size=500M
  3. update-mime-database, fc-cache

Use --dry-run to see what would run without executing.
Use --skip to exclude specific steps (e.g. --skip=apt,journal).
Use --yes to skip the confirmation prompt (for scripting).

Usage:
  mu optimize [flags]

Flags:
      --dry-run        Preview actions without making changes
  -h, --help           help for optimize
      --skip strings   Steps to skip (apt, journal, caches)
  -y, --yes            Skip confirmation prompt

Global Flags:
      --debug   Enable verbose debug logging
";

pub const STATUS_HELP: &'static str = "\
Displays a real-time system health dashboard with visual metric bars.

  • Aggregate CPU usage
  • RAM and swap usage
  • Disk usage for mounted filesystems (used % bars)
  • Network I/O rates (active interfaces)
  • Computed health score (0-100)

Use --json to output a structured JSON snapshot and exit.
When piped (stdout is not a terminal), JSON is used automatically.
Press q or Ctrl+C to exit the dashboard.

Usage:
  mu status [flags]

Flags:
  -h, --help   help for status
      --json   Output JSON snapshot and exit

Global Flags:
      --debug   Enable verbose debug logging
";

pub const UNINSTALL_HELP: &'static str = "\
Interactively select installed packages to remove.
Shows estimated disk usage per package including remnants in:
  ~/.config/<app>  ~/.local/share/<app>  ~/.cache/<app>

Executes: apt purge <pkg> + remnant cleanup.
Use --dry-run to preview without removing anything.

Usage:
  mu uninstall [flags]

Flags:
      --dry-run   Preview actions without making changes
  -h, --help      help for uninstall

Global Flags:
      --debug   Enable verbose debug logging
";

/// Cobra's "usage" template — shown on errors and `help <bogus>`. Same as
/// ROOT_HELP but without the `-h`/`-v` flag lines (the usage template
/// omits the help/version flags that HelpTemplate includes).
pub const ROOT_USAGE: &'static str = "\
Usage:
  mu [flags]
  mu [command]

Available Commands:
  audit       Diagnose cleanup issues and apply recommended fixes
  clean       Free disk space by removing caches, logs, and old packages
  completion  Generate the autocompletion script for the specified shell
  help        Help about any command
  optimize    Run system maintenance: apt autoremove, journal vacuum, cache refresh
  status      Live system dashboard: CPU, RAM, disk, network, health score
  uninstall   Remove apps and all their config, cache, and data remnants

Flags:
      --debug   Enable verbose debug logging

Use \"mu [command] --help\" for more information about a command.
";

pub const COMPLETION_HELP: &'static str = "\
Generate the autocompletion script for mu for the specified shell.
See each sub-command's help for details on how to use the generated script.

Usage:
  mu completion [command]

Available Commands:
  bash        Generate the autocompletion script for bash
  fish        Generate the autocompletion script for fish
  powershell  Generate the autocompletion script for powershell
  zsh         Generate the autocompletion script for zsh

Flags:
  -h, --help   help for completion

Global Flags:
      --debug   Enable verbose debug logging

Use \"mu completion [command] --help\" for more information about a command.
";

pub const COMPLETION_BASH_HELP: &'static str = "\
Generate the autocompletion script for the bash shell.

This script depends on the 'bash-completion' package.
If it is not installed already, you can install it via your OS's package manager.

To load completions in your current shell session:

	source <(mu completion bash)

To load completions for every new session, execute once:

#### Linux:

	mu completion bash > /etc/bash_completion.d/mu

#### macOS:

	mu completion bash > $(brew --prefix)/etc/bash_completion.d/mu

You will need to start a new shell for this setup to take effect.

Usage:
  mu completion bash

Flags:
  -h, --help              help for bash
      --no-descriptions   disable completion descriptions

Global Flags:
      --debug   Enable verbose debug logging
";

pub const COMPLETION_ZSH_HELP: &'static str = "\
Generate the autocompletion script for the zsh shell.

If shell completion is not already enabled in your environment you will need
to enable it.  You can execute the following once:

	echo \"autoload -U compinit; compinit\" >> ~/.zshrc

To load completions in your current shell session:

	source <(mu completion zsh)

To load completions for every new session, execute once:

#### Linux:

	mu completion zsh > \"${fpath[1]}/_mu\"

#### macOS:

	mu completion zsh > $(brew --prefix)/share/zsh/site-functions/_mu

You will need to start a new shell for this setup to take effect.

Usage:
  mu completion zsh [flags]

Flags:
  -h, --help              help for zsh
      --no-descriptions   disable completion descriptions

Global Flags:
      --debug   Enable verbose debug logging
";

pub const COMPLETION_FISH_HELP: &'static str = "\
Generate the autocompletion script for the fish shell.

To load completions in your current shell session:

	mu completion fish | source

To load completions for every new session, execute once:

	mu completion fish > ~/.config/fish/completions/mu.fish

You will need to start a new shell for this setup to take effect.

Usage:
  mu completion fish [flags]

Flags:
  -h, --help              help for fish
      --no-descriptions   disable completion descriptions

Global Flags:
      --debug   Enable verbose debug logging
";

pub const COMPLETION_POWERSHELL_HELP: &'static str = "\
Generate the autocompletion script for powershell.

To load completions in your current shell session:

	mu completion powershell | Out-String | Invoke-Expression

To load completions for every new session, add the output of the above command
to your powershell profile.

Usage:
  mu completion powershell [flags]

Flags:
  -h, --help              help for powershell
      --no-descriptions   disable completion descriptions

Global Flags:
      --debug   Enable verbose debug logging
";

pub const HELP_HELP: &'static str = "\
Help provides help for any command in the application.
Simply type mu help [path to command] for full details.

Usage:
  mu help [command] [flags]

Flags:
  -h, --help   help for help

Global Flags:
      --debug   Enable verbose debug logging
";


/// The completion script printed by `mu completion bash`.
pub const COMPLETION_SCRIPT_BASH: &'static str = "# bash completion for mu\n\
_mu() {\n\
    local cmds=\"audit clean optimize status uninstall\"\n\
    COMPREPLY=( $(compgen -W \"$cmds\" -- \"${COMP_WORDS[COMP_CWORD]}\") )\n\
}\n\
complete -F _mu mu\n";

/// The completion script printed by `mu completion zsh`.
pub const COMPLETION_SCRIPT_ZSH: &'static str = "#compdef mu\n\
_mu() {\n\
    local cmds=(audit clean optimize status uninstall)\n\
    _describe 'command' cmds\n\
}\n\
compdef _mu mu\n";

/// The completion script printed by `mu completion fish`.
pub const COMPLETION_SCRIPT_FISH: &'static str = "# fish completion for mu\n\
complete -c mu -f -a \"audit clean optimize status uninstall\"\n";

/// The completion script printed by `mu completion powershell`.
pub const COMPLETION_SCRIPT_POWERSHELL: &'static str = "# powershell completion for mu\n\
Register-ArgumentCompleter -Native -CommandName mu -ScriptBlock {\n\
    param($wordToComplete, $commandAst, $cursorPosition)\n\
    @('audit clean optimize status uninstall' -split ' ') | Where-Object { $_ -like \"$wordToComplete*\" } |\n\
        ForEach-Object { [System.Management.Automation.CompletionResult]::new($_, $_, 'ParameterValue', $_) }\n\
}\n";

/// One flag of a command's flag set.
pub struct FlagSpec {
    pub long: &'static str,
    pub short: Option<char>,
    pub takes_value: bool,
    /// The name the flag parser uses in error text: `-y, --yes` when a shorthand
    /// exists, else `--long`.
    pub display: &'static str,
}

pub open spec fn spec_flag(
    long: &'static str,
    short: Option<char>,
    takes_value: bool,
    display: &'static str,
) -> FlagSpec {
    FlagSpec { long, short, takes_value, display }
}

pub open spec fn f_debug() -> FlagSpec {
    spec_flag("debug", None, false, "--debug")
}

pub open spec fn f_help() -> FlagSpec {
    spec_flag("help", Some('h'), false, "-h, --help")
}

pub open spec fn f_version() -> FlagSpec {
    spec_flag("version", Some('v'), false, "-v, --version")
}

pub open spec fn f_dry_run() -> FlagSpec {
    spec_flag("dry-run", None, false, "--dry-run")
}

pub open spec fn f_yes() -> FlagSpec {
    spec_flag("yes", Some('y'), false, "-y, --yes")
}

pub open spec fn f_json() -> FlagSpec {
    spec_flag("json", None, false, "--json")
}

pub open spec fn f_report() -> FlagSpec {
    spec_flag("report", None, false, "--report")
}

pub open spec fn f_include() -> FlagSpec {
    spec_flag("include", None, true, "--include")
}

pub open spec fn f_skip() -> FlagSpec {
    spec_flag("skip", None, true, "--skip")
}

pub open spec fn f_nodesc() -> FlagSpec {
    spec_flag("no-descriptions", None, false, "--no-descriptions")
}

/// The flags of the root command.
pub open spec fn root_flags() -> Seq<FlagSpec> {
    seq![f_debug(), f_help(), f_version()]
}

/// The flags of `help` and of `completion`.
pub open spec fn help_flags() -> Seq<FlagSpec> {
    seq![f_debug(), f_help()]
}

/// The flags of `completion <shell>`.
pub open spec fn shell_flags() -> Seq<FlagSpec> {
    seq![f_debug(), f_help(), f_nodesc()]
}

/// The flag set of a real subcommand (empty for anything else).
pub open spec fn cmd_flags(name: Seq<char>) -> Seq<FlagSpec> {
    if name == "status"@ {
        seq![f_debug(), f_help(), f_json()]
    } else if name == "clean"@ {
        seq![f_debug(), f_help(), f_dry_run(), f_yes(), f_include()]
    } else if name == "optimize"@ {
        seq![f_debug(), f_help(), f_dry_run(), f_yes(), f_skip()]
    } else if name == "audit"@ {
        seq![f_debug(), f_help(), f_dry_run(), f_json(), f_report(), f_include()]
    } else if name == "uninstall"@ {
        seq![f_debug(), f_help(), f_dry_run()]
    } else {
        seq![]
    }
}

fn mk_flag(long: &'static str, short: Option<char>, takes_value: bool, display: &'static str) -> (f: FlagSpec)
    ensures
        f == spec_flag(long, short, takes_value, display),
{
    FlagSpec { long, short, takes_value, display }
}

fn debug_flag() -> (f: FlagSpec)
    ensures
        f == f_debug(),
{
    mk_flag("debug", None, false, "--debug")
}

fn help_flag() -> (f: FlagSpec)
    ensures
        f == f_help(),
{
    mk_flag("help", Some('h'), false, "-h, --help")
}

fn flagset_root() -> (v: Vec<FlagSpec>)
    ensures
        v@ == root_flags(),
{
    let mut v = Vec::new();
    v.push(debug_flag());
    v.push(help_flag());
    v.push(mk_flag("version", Some('v'), false, "-v, --version"));
    assert(v@ =~= root_flags());
    v
}

fn flagset_help() -> (v: Vec<FlagSpec>)
    ensures
        v@ == help_flags(),
{
    let mut v = Vec::new();
    v.push(debug_flag());
    v.push(help_flag());
    assert(v@ =~= help_flags());
    v
}

fn flagset_shell() -> (v: Vec<FlagSpec>)
    ensures
        v@ == shell_flags(),
{
    let mut v = Vec::new();
    v.push(debug_flag());
    v.push(help_flag());
    v.push(mk_flag("no-descriptions", None, false, "--no-descriptions"));
    assert(v@ =~= shell_flags());
    v
}

/// The flag set of a real subcommand.
fn cmd_flagset(name: &[char]) -> (v: Vec<FlagSpec>)
    ensures
        v@ == cmd_flags(name@),
{
    let mut v = Vec::new();
    if eq_str(name, "status") {
        v.push(debug_flag());
        v.push(help_flag());
        v.push(mk_flag("json", None, false, "--json"));
    } else if eq_str(name, "clean") {
        v.push(debug_flag());
        v.push(help_flag());
        v.push(mk_flag("dry-run", None, false, "--dry-run"));
        v.push(mk_flag("yes", Some('y'), false, "-y, --yes"));
        v.push(mk_flag("include", None, true, "--include"));
    } else if eq_str(name, "optimize") {
        v.push(debug_flag());
        v.push(help_flag());
        v.push(mk_flag("dry-run", None, false, "--dry-run"));
        v.push(mk_flag("yes", Some('y'), false, "-y, --yes"));
        v.push(mk_flag("skip", None, true, "--skip"));
    } else if eq_str(name, "audit") {
        v.push(debug_flag());
        v.push(help_flag());
        v.push(mk_flag("dry-run", None, false, "--dry-run"));
        v.push(mk_flag("json", None, false, "--json"));
        v.push(mk_flag("report", None, false, "--report"));
        v.push(mk_flag("include", None, true, "--include"));
    } else if eq_str(name, "uninstall") {
        v.push(debug_flag());
        v.push(help_flag());
        v.push(mk_flag("dry-run", None, false, "--dry-run"));
    }
    assert(v@ =~= cmd_flags(name@));
    v
}

// ---------------------------------------------------------------------------
// Command candidates
// ---------------------------------------------------------------------------

/// Whether the token starts with `--`.
pub open spec fn is_long(s: Seq<char>) -> bool {
    s.len() >= 2 && s[0] == '-' && s[1] == '-'
}

/// The argv indices of tokens that could name a command: empty tokens are
/// dropped, `--` stops the scan, an unregistered long flag without `=`
/// (anything but `--debug`) eats the next token, and a two-byte short flag
/// eats the next token.
pub open spec fn cands_from(a: Seq<Seq<char>>, i: int) -> Seq<int>
    decreases a.len() - i,
{
    if i < 0 || i >= a.len() {
        seq![]
    } else if a[i] == "--"@ {
        seq![]
    } else if a[i].len() == 0 {
        cands_from(a, i + 1)
    } else if is_long(a[i]) {
        let long = a[i].subrange(2, a[i].len() as int);
        if !long.contains('=') && long != "debug"@ && i + 1 < a.len() {
            cands_from(a, i + 2)
        } else {
            cands_from(a, i + 1)
        }
    } else if a[i][0] == '-' {
        if a[i].len() == 2 && (a[i][1] as u32) < 128 && i + 1 < a.len() {
            cands_from(a, i + 2)
        } else {
            cands_from(a, i + 1)
        }
    } else {
        seq![i] + cands_from(a, i + 1)
    }
}

/// `stripFlags`' candidates for the whole argv.
pub open spec fn candidates(a: Seq<Seq<char>>) -> Seq<int> {
    cands_from(a, 0)
}

pub proof fn lemma_cands_bounds(a: Seq<Seq<char>>, i: int)
    ensures
        forall|k: int| 0 <= k < cands_from(a, i).len() ==> i <= #[trigger] cands_from(a, i)[k] < a.len(),
    decreases a.len() - i,
{
    if i < 0 || i >= a.len() {
    } else if a[i] == "--"@ {
    } else if a[i].len() == 0 {
        lemma_cands_bounds(a, i + 1);
        assert(cands_from(a, i) == cands_from(a, i + 1));
    } else if is_long(a[i]) {
        let long = a[i].subrange(2, a[i].len() as int);
        if !long.contains('=') && long != "debug"@ && i + 1 < a.len() {
            lemma_cands_bounds(a, i + 2);
            assert(cands_from(a, i) == cands_from(a, i + 2));
        } else {
            lemma_cands_bounds(a, i + 1);
            assert(cands_from(a, i) == cands_from(a, i + 1));
        }
    } else if a[i][0] == '-' {
        if a[i].len() == 2 && (a[i][1] as u32) < 128 && i + 1 < a.len() {
            lemma_cands_bounds(a, i + 2);
            assert(cands_from(a, i) == cands_from(a, i + 2));
        } else {
            lemma_cands_bounds(a, i + 1);
            assert(cands_from(a, i) == cands_from(a, i + 1));
        }
    } else {
        lemma_cands_bounds(a, i + 1);
        let c = cands_from(a, i);
        assert forall|k: int| 0 <= k < c.len() implies i <= #[trigger] c[k] < a.len() by {
            if k > 0 {
                assert(c[k] == cands_from(a, i + 1)[k - 1]);
            }
        }
    }
}

/// The character views of an argv.
pub open spec fn argv(args: Seq<String>) -> Seq<Seq<char>> {
    string_views(args)
}

/// The arguments left once flags are stripped: indices of command candidates.
pub fn command_candidates(args: &[String]) -> (r: Vec<usize>)
    ensures
        r@.map_values(|k: usize| k as int) == candidates(argv(args@)),
{
    let ghost a = argv(args@);
    let mut out: Vec<usize> = Vec::new();
    let mut i: usize = 0;
    while i < args.len()
        invariant
            a == argv(args@),
            a.len() == args@.len(),
            i <= args@.len(),
            out@.map_values(|k: usize| k as int) + cands_from(a, i as int) == candidates(a),
        decreases args.len() - i,
    {
        let s = chars_of(args[i].as_str());
        assert(s@ == a[i as int]);
        if eq_str(s.as_slice(), "--") {
            assert(cands_from(a, i as int) =~= Seq::<int>::empty());
            assert(out@.map_values(|k: usize| k as int) =~= candidates(a));
            return out;
        }
        if s.len() == 0 {
            i += 1;
        } else if s.len() >= 2 && s[0] == '-' && s[1] == '-' {
            let long = slice_of(s.as_slice(), 2, s.len());
            let has_eq = contains_char(long.as_slice(), '=');
            let is_debug = eq_str(long.as_slice(), "debug");
            i += 1;
            if !has_eq && !is_debug && i < args.len() {
                i += 1;
            }
        } else if s[0] == '-' {
            let short_byte = s.len() == 2 && (s[1] as u32) < 128;
            i += 1;
            if short_byte && i < args.len() {
                i += 1;
            }
        } else {
            let ghost before = out@.map_values(|k: usize| k as int);
            out.push(i);
            assert(out@.map_values(|k: usize| k as int) =~= before.push(i as int));
            assert(cands_from(a, i as int) =~= seq![i as int] + cands_from(a, i + 1));
            i += 1;
        }
    }
    assert(cands_from(a, i as int) =~= Seq::<int>::empty());
    assert(out@.map_values(|k: usize| k as int) =~= candidates(a));
    out
}

// ---------------------------------------------------------------------------
// Flag values
// ---------------------------------------------------------------------------

/// `strconv.ParseBool`.
pub open spec fn flag_bool(v: Seq<char>) -> Option<bool> {
    if v == "1"@ || v == "t"@ || v == "T"@ || v == "TRUE"@ || v == "true"@ || v == "True"@ {
        Some(true)
    } else if v == "0"@ || v == "f"@ || v == "F"@ || v == "FALSE"@ || v == "false"@ || v
        == "False"@ {
        Some(false)
    } else {
        None
    }
}

/// `strconv.ParseBool` over characters.
pub fn parse_flag_bool(v: &[char]) -> (r: Option<bool>)
    ensures
        r == flag_bool(v@),
{
    if eq_str(v, "1") || eq_str(v, "t") || eq_str(v, "T") || eq_str(v, "TRUE") || eq_str(v, "true")
        || eq_str(v, "True") {
        Some(true)
    } else if eq_str(v, "0") || eq_str(v, "f") || eq_str(v, "F") || eq_str(v, "FALSE") || eq_str(
        v,
        "false",
    ) || eq_str(v, "False") {
        Some(false)
    } else {
        None
    }
}

/// One step of a CSV reader reading a single record from index `k`.
pub open spec fn csv_from(
    s: Seq<char>,
    k: int,
    out: Seq<Seq<char>>,
    field: Seq<char>,
    inq: bool,
) -> Result<Seq<Seq<char>>, Seq<char>>
    decreases s.len() - k,
{
    if k < 0 || k >= s.len() {
        if inq {
            Err(
                "parse error on line 1, column "@ + dec((s.len() + 1) as nat)
                    + ": extraneous or missing \" in quoted-field"@,
            )
        } else {
            Ok(out.push(field))
        }
    } else if inq {
        if s[k] == '"' {
            if k + 1 < s.len() && s[k + 1] == '"' {
                csv_from(s, k + 2, out, field.push('"'), true)
            } else {
                csv_from(s, k + 1, out, field, false)
            }
        } else {
            csv_from(s, k + 1, out, field.push(s[k]), true)
        }
    } else if s[k] == ',' {
        csv_from(s, k + 1, out.push(field), seq![], false)
    } else if s[k] == '"' && field.len() == 0 {
        csv_from(s, k + 1, out, field, true)
    } else if s[k] == '"' {
        Err(
            "parse error on line 1, column "@ + dec((k + 1) as nat)
                + ": bare \" in non-quoted-field"@,
        )
    } else {
        csv_from(s, k + 1, out, field.push(s[k]), false)
    }
}

/// A flag value read as one CSV record (`--include=a,b` gives `a`, `b`);
/// the empty value gives no entries.
pub open spec fn csv(s: Seq<char>) -> Result<Seq<Seq<char>>, Seq<char>> {
    if s.len() == 0 {
        Ok(seq![])
    } else {
        csv_from(s, 0, seq![], seq![], false)
    }
}

/// A CSV single-record read, with the reader's error text.
pub fn csv_parse(s: &[char]) -> (r: Result<Vec<Vec<char>>, Vec<char>>)
    ensures
        match r {
            Ok(v) => csv(s@) == Ok::<Seq<Seq<char>>, Seq<char>>(views(v@)),
            Err(e) => csv(s@) == Err::<Seq<Seq<char>>, Seq<char>>(e@),
        },
{
    let mut out: Vec<Vec<char>> = Vec::new();
    if s.len() == 0 {
        assert(views(out@) =~= Seq::<Seq<char>>::empty());
        return Ok(out);
    }
    let mut field: Vec<char> = Vec::new();
    let mut in_quotes = false;
    let mut k: usize = 0;
    assert(views(out@) =~= Seq::<Seq<char>>::empty());
    assert(field@ =~= Seq::<char>::empty());
    while k < s.len()
        invariant
            k <= s@.len(),
            s@.len() > 0,
            csv(s@) == csv_from(s@, k as int, views(out@), field@, in_quotes),
        decreases s.len() - k,
    {
        let c = s[k];
        if in_quotes {
            if c == '"' {
                if k + 1 < s.len() && s[k + 1] == '"' {
                    field.push('"');
                    k += 1;
                } else {
                    in_quotes = false;
                }
            } else {
                field.push(c);
            }
        } else if c == ',' {
            let f = field;
            field = Vec::new();
            let ghost before = views(out@);
            out.push(f);
            assert(views(out@) =~= before.push(f@));
        } else if c == '"' && field.len() == 0 {
            in_quotes = true;
        } else if c == '"' {
            let mut e: Vec<char> = Vec::new();
            push_str(&mut e, "parse error on line 1, column ");
            let col = fmt_u64((k + 1) as u64);
            push_all(&mut e, col.as_slice());
            push_str(&mut e, ": bare \" in non-quoted-field");
            return Err(e);
        } else {
            field.push(c);
        }
        k += 1;
    }
    if in_quotes {
        let mut e: Vec<char> = Vec::new();
        push_str(&mut e, "parse error on line 1, column ");
        let col = fmt_u128((s.len() as u128) + 1);
        push_all(&mut e, col.as_slice());
        push_str(&mut e, ": extraneous or missing \" in quoted-field");
        return Err(e);
    }
    let ghost before = views(out@);
    out.push(field);
    assert(views(out@) =~= before.push(field@));
    Ok(out)
}

// ---------------------------------------------------------------------------
// Parse outcome
// ---------------------------------------------------------------------------

/// A parsed subcommand with its flag values, ready to dispatch.
pub enum Command {
    Status { json: bool },
    Clean { dry_run: bool, include_ids: Vec<String>, yes: bool },
    Optimize { dry_run: bool, skip: Vec<String>, yes: bool },
    Audit { report: bool, json: bool, dry_run: bool, include_ids: Vec<String> },
    Uninstall { dry_run: bool },
}

/// The parsed result of argv: run a command, or print text and exit.
pub enum Outcome {
    /// Run a real subcommand with its parsed flags.
    Run { debug: bool, cmd: Command },
    /// Print text to stdout and exit 0.
    Stdout(String),
    /// Print text to stderr and exit with the given code.
    Stderr { text: String, code: i32 },
    /// No subcommand: run the interactive menu.
    Tui { debug: bool },
}

/// The abstract value of a [`Command`].
pub enum CommandV {
    Status(bool),
    Clean(bool, Seq<Seq<char>>, bool),
    Optimize(bool, Seq<Seq<char>>, bool),
    Audit(bool, bool, bool, Seq<Seq<char>>),
    Uninstall(bool),
}

/// The abstract value of an [`Outcome`].
pub enum OutcomeV {
    Run(bool, CommandV),
    Stdout(Seq<char>),
    Stderr(Seq<char>, i32),
    Tui(bool),
}

impl View for Command {
    type V = CommandV;

    open spec fn view(&self) -> CommandV {
        match self {
            Command::Status { json } => CommandV::Status(*json),
            Command::Clean { dry_run, include_ids, yes } => CommandV::Clean(
                *dry_run,
                string_views(include_ids@),
                *yes,
            ),
            Command::Optimize { dry_run, skip, yes } => CommandV::Optimize(
                *dry_run,
                string_views(skip@),
                *yes,
            ),
            Command::Audit { report, json, dry_run, include_ids } => CommandV::Audit(
                *report,
                *json,
                *dry_run,
                string_views(include_ids@),
            ),
            Command::Uninstall { dry_run } => CommandV::Uninstall(*dry_run),
        }
    }
}

impl View for Outcome {
    type V = OutcomeV;

    open spec fn view(&self) -> OutcomeV {
        match self {
            Outcome::Run { debug, cmd } => OutcomeV::Run(*debug, cmd@),
            Outcome::Stdout(t) => OutcomeV::Stdout(t@),
            Outcome::Stderr { text, code } => OutcomeV::Stderr(text@, *code),
            Outcome::Tui { debug } => OutcomeV::Tui(*debug),
        }
    }
}

/// A parse error: the text on stderr, exit code 1.
pub fn perr(text: Vec<char>) -> (o: Outcome)
    ensures
        o@ == OutcomeV::Stderr(text@, 1),
{
    Outcome::Stderr { text: string_of(text.as_slice()), code: 1 }
}

// ---------------------------------------------------------------------------
// Flag parsing
// ---------------------------------------------------------------------------

/// The flag values gathered so far: positionals, the value of each bool
/// flag by its index in the flag set, and the values of value-taking flags
/// tagged with the flag's index, in order of appearance.
#[verifier::ext_equal]
pub struct PState {
    pub pos: Seq<Seq<char>>,
    pub bools: Seq<Option<bool>>,
    pub vals: Seq<(int, Seq<char>)>,
}

/// The state before any argument: every flag unset.
pub open spec fn pstate_init(n: nat) -> PState {
    PState { pos: seq![], bools: Seq::new(n, |i: int| None), vals: seq![] }
}

pub open spec fn with_bool(st: PState, idx: int, b: bool) -> PState {
    PState { bools: st.bools.update(idx, Some(b)), ..st }
}

pub open spec fn with_vals(st: PState, idx: int, recs: Seq<Seq<char>>) -> PState {
    PState { vals: st.vals + recs.map_values(|r: Seq<char>| (idx, r)), ..st }
}

/// Index of the first flag with long name `name` at or after `j`, or -1.
pub open spec fn find_long_from(sp: Seq<FlagSpec>, name: Seq<char>, j: int) -> int
    decreases sp.len() - j,
{
    if j < 0 || j >= sp.len() {
        -1
    } else if sp[j].long@ == name {
        j
    } else {
        find_long_from(sp, name, j + 1)
    }
}

/// Index of the first flag with shorthand `c` at or after `j`, or -1.
pub open spec fn find_short_from(sp: Seq<FlagSpec>, c: char, j: int) -> int
    decreases sp.len() - j,
{
    if j < 0 || j >= sp.len() {
        -1
    } else if sp[j].short == Some(c) {
        j
    } else {
        find_short_from(sp, c, j + 1)
    }
}

pub proof fn lemma_find_long(sp: Seq<FlagSpec>, name: Seq<char>, j: int)
    requires
        0 <= j,
    ensures
        -1 <= find_long_from(sp, name, j) < sp.len(),
        find_long_from(sp, name, j) >= 0 ==> find_long_from(sp, name, j) >= j,
    decreases sp.len() - j,
{
    if j < sp.len() && sp[j].long@ != name {
        lemma_find_long(sp, name, j + 1);
    }
}

pub proof fn lemma_find_short(sp: Seq<FlagSpec>, c: char, j: int)
    requires
        0 <= j,
    ensures
        -1 <= find_short_from(sp, c, j) < sp.len(),
    decreases sp.len() - j,
{
    if j < sp.len() && sp[j].short != Some(c) {
        lemma_find_short(sp, c, j + 1);
    }
}

/// `invalid argument "v" for "<flag>" flag: strconv.ParseBool ...`.
pub open spec fn bad_bool(v: Seq<char>, f: FlagSpec) -> Seq<char> {
    "invalid argument \""@ + v + "\" for \""@ + f.display@ + "\" flag: strconv.ParseBool: parsing \""@
        + v + "\": invalid syntax\n"@
}

/// `invalid argument "v" for "<flag>" flag: <csv error>`.
pub open spec fn bad_value(v: Seq<char>, f: FlagSpec, e: Seq<char>) -> Seq<char> {
    "invalid argument \""@ + v + "\" for \""@ + f.display@ + "\" flag: "@ + e + "\n"@
}

/// The flag parse of `a[i..]` over the flag set `sp`, starting from state
/// `st`: the final state, or the text of the first error.
pub open spec fn fp(a: Seq<Seq<char>>, sp: Seq<FlagSpec>, i: int, st: PState) -> Result<
    PState,
    Seq<char>,
>
    decreases a.len() - i, 1int, 0int,
{
    if i < 0 || i >= a.len() {
        Ok(st)
    } else if a[i] == "--"@ {
        Ok(PState { pos: st.pos + a.subrange(i + 1, a.len() as int), ..st })
    } else if is_long(a[i]) {
        let s = a[i];
        let body = s.subrange(2, s.len() as int);
        if body.len() == 0 || body[0] == '-' || body[0] == '=' {
            Err("bad flag syntax: "@ + s + "\n"@)
        } else {
            let eq = find_from(body, '=', 0);
            let name = body.subrange(0, eq);
            let idx = find_long_from(sp, name, 0);
            if idx < 0 || idx >= sp.len() {
                Err("unknown flag: --"@ + name + "\n"@)
            } else if sp[idx].takes_value {
                if eq < body.len() {
                    let v = body.subrange(eq + 1, body.len() as int);
                    match csv(v) {
                        Ok(recs) => fp(a, sp, i + 1, with_vals(st, idx, recs)),
                        Err(e) => Err(bad_value(v, sp[idx], e)),
                    }
                } else if i + 1 >= a.len() {
                    Err("flag needs an argument: --"@ + name + "\n"@)
                } else {
                    let v = a[i + 1];
                    match csv(v) {
                        Ok(recs) => fp(a, sp, i + 2, with_vals(st, idx, recs)),
                        Err(e) => Err(bad_value(v, sp[idx], e)),
                    }
                }
            } else if eq < body.len() {
                let v = body.subrange(eq + 1, body.len() as int);
                match flag_bool(v) {
                    Some(b) => fp(a, sp, i + 1, with_bool(st, idx, b)),
                    None => Err(bad_bool(v, sp[idx])),
                }
            } else {
                fp(a, sp, i + 1, with_bool(st, idx, true))
            }
        }
    } else if a[i].len() > 1 && a[i][0] == '-' {
        cluster(a, sp, i, 0, st)
    } else {
        fp(a, sp, i + 1, PState { pos: st.pos.push(a[i]), ..st })
    }
}

/// The shorthand cluster `-abc` of `a[i]`, from its `k`-th letter on.
pub open spec fn cluster(a: Seq<Seq<char>>, sp: Seq<FlagSpec>, i: int, k: int, st: PState) -> Result<
    PState,
    Seq<char>,
>
    decreases a.len() - i, 0int, a[i].len() - k,
{
    if i < 0 || i >= a.len() || k < 0 || a[i].len() < 1 {
        Ok(st)
    } else {
        let cl = a[i].subrange(1, a[i].len() as int);
        if k >= cl.len() {
            fp(a, sp, i + 1, st)
        } else {
            let c = cl[k];
            let idx = find_short_from(sp, c, 0);
            let rest = cl.subrange(k + 1, cl.len() as int);
            if idx < 0 || idx >= sp.len() {
                Err("unknown shorthand flag: '"@ + seq![c] + "' in -"@ + cl.subrange(
                    k,
                    cl.len() as int,
                ) + "\n"@)
            } else if sp[idx].takes_value {
                if rest.len() > 0 {
                    let v = if rest[0] == '=' {
                        rest.subrange(1, rest.len() as int)
                    } else {
                        rest
                    };
                    match csv(v) {
                        Ok(recs) => fp(a, sp, i + 1, with_vals(st, idx, recs)),
                        Err(e) => Err(bad_value(v, sp[idx], e)),
                    }
                } else if i + 1 >= a.len() {
                    Err("flag needs an argument: '"@ + seq![c] + "' in -"@ + seq![c] + "\n"@)
                } else {
                    let v = a[i + 1];
                    match csv(v) {
                        Ok(recs) => fp(a, sp, i + 2, with_vals(st, idx, recs)),
                        Err(e) => Err(bad_value(v, sp[idx], e)),
                    }
                }
            } else if rest.len() > 1 && rest[0] == '=' {
                let v = rest.subrange(1, rest.len() as int);
                match flag_bool(v) {
                    Some(b) => fp(a, sp, i + 1, with_bool(st, idx, b)),
                    None => Err(bad_bool(v, sp[idx])),
                }
            } else {
                cluster(a, sp, i, k + 1, with_bool(st, idx, true))
            }
        }
    }
}

/// The flag parse of the whole argv over the flag set `sp`.
pub open spec fn flag_scan(a: Seq<Seq<char>>, sp: Seq<FlagSpec>) -> Result<PState, Seq<char>> {
    fp(a, sp, 0, pstate_init(sp.len()))
}

/// Flag values in order of appearance, for the flag at index `idx`.
pub open spec fn select(v: Seq<(int, Seq<char>)>, idx: int) -> Seq<Seq<char>>
    decreases v.len(),
{
    if v.len() == 0 {
        seq![]
    } else {
        select(v.drop_last(), idx) + if v.last().0 == idx {
            seq![v.last().1]
        } else {
            seq![]
        }
    }
}

/// The parsed value of one bool flag, by long name (unset reads false).
pub open spec fn get_bool(sp: Seq<FlagSpec>, st: PState, long: Seq<char>) -> bool {
    let idx = find_long_from(sp, long, 0);
    0 <= idx < st.bools.len() && st.bools[idx] == Some(true)
}

/// The parsed values of one value-taking flag, by long name.
pub open spec fn get_vals(sp: Seq<FlagSpec>, st: PState, long: Seq<char>) -> Seq<Seq<char>> {
    let idx = find_long_from(sp, long, 0);
    if idx < 0 {
        seq![]
    } else {
        select(st.vals, idx)
    }
}

/// The result of a flag parse.
pub struct Parsed {
    pub positionals: Vec<String>,
    /// The value of each bool flag, by its index in the flag set.
    pub bools: Vec<Option<bool>>,
    /// Values of value-taking flags, tagged with the flag's index.
    pub values: Vec<(usize, String)>,
}

impl View for Parsed {
    type V = PState;

    open spec fn view(&self) -> PState {
        PState {
            pos: string_views(self.positionals@),
            bools: self.bools@,
            vals: self.values@.map_values(|p: (usize, String)| (p.0 as int, p.1@)),
        }
    }
}

fn find_long(sp: &[FlagSpec], name: &[char]) -> (r: Option<usize>)
    ensures
        match r {
            Some(j) => j as int == find_long_from(sp@, name@, 0) && j < sp@.len(),
            None => find_long_from(sp@, name@, 0) == -1,
        },
{
    let mut j: usize = 0;
    while j < sp.len()
        invariant
            j <= sp@.len(),
            find_long_from(sp@, name@, 0) == find_long_from(sp@, name@, j as int),
        decreases sp.len() - j,
    {
        if eq_str(name, sp[j].long) {
            return Some(j);
        }
        j += 1;
    }
    None
}

fn find_short(sp: &[FlagSpec], c: char) -> (r: Option<usize>)
    ensures
        match r {
            Some(j) => j as int == find_short_from(sp@, c, 0) && j < sp@.len(),
            None => find_short_from(sp@, c, 0) == -1,
        },
{
    let mut j: usize = 0;
    while j < sp.len()
        invariant
            j <= sp@.len(),
            find_short_from(sp@, c, 0) == find_short_from(sp@, c, j as int),
        decreases sp.len() - j,
    {
        if sp[j].short == Some(c) {
            return Some(j);
        }
        j += 1;
    }
    None
}

fn bad_bool_text(v: &[char], f: &FlagSpec) -> (t: Vec<char>)
    ensures
        t@ == bad_bool(v@, *f),
{
    let mut t = Vec::new();
    push_str(&mut t, "invalid argument \"");
    push_all(&mut t, v);
    push_str(&mut t, "\" for \"");
    push_str(&mut t, f.display);
    push_str(&mut t, "\" flag: strconv.ParseBool: parsing \"");
    push_all(&mut t, v);
    push_str(&mut t, "\": invalid syntax\n");
    t
}

fn bad_value_text(v: &[char], f: &FlagSpec, e: &[char]) -> (t: Vec<char>)
    ensures
        t@ == bad_value(v@, *f, e@),
{
    let mut t = Vec::new();
    push_str(&mut t, "invalid argument \"");
    push_all(&mut t, v);
    push_str(&mut t, "\" for \"");
    push_str(&mut t, f.display);
    push_str(&mut t, "\" flag: ");
    push_all(&mut t, e);
    push_str(&mut t, "\n");
    t
}

/// Records the CSV records of a value for flag `idx`, or the error text.
fn take_value(p: &mut Parsed, idx: usize, v: &[char], f: &FlagSpec) -> (r: Result<(), Vec<char>>)
    ensures
        match csv(v@) {
            Ok(recs) => r is Ok && final(p)@ == with_vals(old(p)@, idx as int, recs),
            Err(e) => r matches Err(t) && t@ == bad_value(v@, *f, e),
        },
{
    match csv_parse(v) {
        Err(e) => Err(bad_value_text(v, f, e.as_slice())),
        Ok(recs) => {
            let ghost rv = views(recs@);
            let mut j: usize = 0;
            while j < recs.len()
                invariant
                    j <= recs@.len(),
                    rv == views(recs@),
                    p@ == with_vals(old(p)@, idx as int, rv.subrange(0, j as int)),
                decreases recs.len() - j,
            {
                let ghost before = p@;
                let s = string_of(recs[j].as_slice());
                assert(s@ == rv[j as int]);
                p.values.push((idx, s));
                assert(p@.vals =~= before.vals.push((idx as int, rv[j as int])));
                assert(rv.subrange(0, j + 1) =~= rv.subrange(0, j as int).push(rv[j as int]));
                assert(rv.subrange(0, j + 1).map_values(|r: Seq<char>| (idx as int, r)) =~= rv.subrange(0, j as int).map_values(|r: Seq<char>| (idx as int, r)).push((idx as int, rv[j as int])));
                assert(p@ =~= with_vals(old(p)@, idx as int, rv.subrange(0, j + 1)));
                j += 1;
            }
            assert(rv.subrange(0, j as int) =~= rv);
            Ok(())
        },
    }
}

/// Flag parsing: interspersed flags and positionals over the flag set
/// `specs`; the first error wins.
pub fn flag_parse(args: &[String], specs: &[FlagSpec]) -> (r: Result<Parsed, Outcome>)
    ensures
        match flag_scan(argv(args@), specs@) {
            Ok(st) => r matches Ok(p) && p@ == st && p.bools@.len() == specs@.len(),
            Err(t) => r matches Err(o) && o@ == OutcomeV::Stderr(t, 1),
        },
{
    let ghost a = argv(args@);
    let ghost sp = specs@;
    let mut bools: Vec<Option<bool>> = Vec::new();
    let mut j: usize = 0;
    while j < specs.len()
        invariant
            j <= specs@.len(),
            bools@ == Seq::new(j as nat, |i: int| None::<bool>),
        decreases specs.len() - j,
    {
        bools.push(None);
        assert(bools@ =~= Seq::new((j + 1) as nat, |i: int| None::<bool>));
        j += 1;
    }
    let mut p = Parsed { positionals: Vec::new(), bools, values: Vec::new() };
    assert(p@.pos =~= pstate_init(specs@.len()).pos);
    assert(p@.vals =~= pstate_init(specs@.len()).vals);
    assert(p@ =~= pstate_init(specs@.len()));
    let mut i: usize = 0;
    while i < args.len()
        invariant
            a == argv(args@),
            a.len() == args@.len(),
            sp == specs@,
            i <= args@.len(),
            p.bools@.len() == specs@.len(),
            flag_scan(a, sp) == fp(a, sp, i as int, p@),
        decreases args.len() - i,
    {
        let s = chars_of(args[i].as_str());
        assert(s@ == a[i as int]);
        if eq_str(s.as_slice(), "--") {
            let mut k = i + 1;
            let mut rest: Vec<String> = Vec::new();
            while k < args.len()
                invariant
                    i < k <= args@.len(),
                    a == argv(args@),
                    a.len() == args@.len(),
                    string_views(rest@) == a.subrange(i + 1, k as int),
                decreases args.len() - k,
            {
                let ghost old_rest = string_views(rest@);
                let x = args[k].clone();
                assert(x@ == a[k as int]);
                rest.push(x);
                assert(string_views(rest@) =~= old_rest.push(a[k as int]));
                assert(a.subrange(i + 1, k + 1) =~= a.subrange(i + 1, k as int).push(a[k as int]));
                k += 1;
            }
            let ghost before = p@;
            p.positionals.append(&mut rest);
            assert(p@ =~= PState { pos: before.pos + a.subrange(i + 1, a.len() as int), ..before });
            return Ok(p);
        }
        if s.len() >= 2 && s[0] == '-' && s[1] == '-' {
            let body = slice_of(s.as_slice(), 2, s.len());
            if body.len() == 0 || body[0] == '-' || body[0] == '=' {
                let mut t = Vec::new();
                push_str(&mut t, "bad flag syntax: ");
                push_all(&mut t, s.as_slice());
                push_str(&mut t, "\n");
                return Err(perr(t));
            }
            let eq = find_char(body.as_slice(), '=', 0);
            let name = slice_of(body.as_slice(), 0, eq);
            let found = find_long(specs, name.as_slice());
            let idx = match found {
                None => {
                    let mut t = Vec::new();
                    push_str(&mut t, "unknown flag: --");
                    push_all(&mut t, name.as_slice());
                    push_str(&mut t, "\n");
                    return Err(perr(t));
                },
                Some(x) => x,
            };
            if specs[idx].takes_value {
                let v;
                if eq < body.len() {
                    v = slice_of(body.as_slice(), eq + 1, body.len());
                    i += 1;
                } else {
                    if i + 1 >= args.len() {
                        let mut t = Vec::new();
                        push_str(&mut t, "flag needs an argument: --");
                        push_all(&mut t, name.as_slice());
                        push_str(&mut t, "\n");
                        return Err(perr(t));
                    }
                    v = chars_of(args[i + 1].as_str());
                    i += 2;
                }
                match take_value(&mut p, idx, v.as_slice(), &specs[idx]) {
                    Err(t) => {
                        return Err(perr(t));
                    },
                    Ok(()) => {},
                }
            } else {
                if eq < body.len() {
                    let v = slice_of(body.as_slice(), eq + 1, body.len());
                    match parse_flag_bool(v.as_slice()) {
                        None => {
                            return Err(perr(bad_bool_text(v.as_slice(), &specs[idx])));
                        },
                        Some(b) => {
                            p.bools.set(idx, Some(b));
                        },
                    }
                } else {
                    p.bools.set(idx, Some(true));
                }
                i += 1;
            }
        } else if s.len() > 1 && s[0] == '-' {
            let cl = slice_of(s.as_slice(), 1, s.len());
            let mut k: usize = 0;
            let mut next = i + 1;
            let mut done = false;
            while !done && k < cl.len()
                invariant
                    a == argv(args@),
                    a.len() == args@.len(),
                    sp == specs@,
                    i < args@.len(),
                    !done ==> next == i + 1,
                    cl@ == a[i as int].subrange(1, a[i as int].len() as int),
                    a[i as int].len() > 1,
                    k <= cl@.len(),
                    p.bools@.len() == specs@.len(),
                    !done ==> flag_scan(a, sp) == cluster(a, sp, i as int, k as int, p@),
                    done ==> i + 1 <= next <= args@.len() && flag_scan(a, sp) == fp(a, sp, next as int, p@),
                decreases cl.len() - k, if done { 0int } else { 1int },
            {
                let c = cl[k];
                let found = find_short(specs, c);
                let idx = match found {
                    None => {
                        let mut t = Vec::new();
                        push_str(&mut t, "unknown shorthand flag: '");
                        t.push(c);
                        push_str(&mut t, "' in -");
                        let tail = slice_of(cl.as_slice(), k, cl.len());
                        push_all(&mut t, tail.as_slice());
                        push_str(&mut t, "\n");
                        assert(t@ =~= "unknown shorthand flag: '"@ + seq![c] + "' in -"@ + cl@.subrange(k as int, cl@.len() as int) + "\n"@);
                        return Err(perr(t));
                    },
                    Some(x) => x,
                };
                let rest = slice_of(cl.as_slice(), k + 1, cl.len());
                if specs[idx].takes_value {
                    let v;
                    if rest.len() > 0 {
                        if rest[0] == '=' {
                            v = slice_of(rest.as_slice(), 1, rest.len());
                        } else {
                            v = rest;
                        }
                    } else {
                        if i + 1 >= args.len() {
                            let mut t = Vec::new();
                            push_str(&mut t, "flag needs an argument: '");
                            t.push(c);
                            push_str(&mut t, "' in -");
                            t.push(c);
                            push_str(&mut t, "\n");
                            assert(t@ =~= "flag needs an argument: '"@ + seq![c] + "' in -"@ + seq![c] + "\n"@);
                            return Err(perr(t));
                        }
                        v = chars_of(args[i + 1].as_str());
                        next = i + 2;
                    }
                    match take_value(&mut p, idx, v.as_slice(), &specs[idx]) {
                        Err(t) => {
                            return Err(perr(t));
                        },
                        Ok(()) => {},
                    }
                    done = true;
                } else if rest.len() > 1 && rest[0] == '=' {
                    let v = slice_of(rest.as_slice(), 1, rest.len());
                    match parse_flag_bool(v.as_slice()) {
                        None => {
                            return Err(perr(bad_bool_text(v.as_slice(), &specs[idx])));
                        },
                        Some(b) => {
                            p.bools.set(idx, Some(b));
                        },
                    }
                    done = true;
                } else {
                    p.bools.set(idx, Some(true));
                    k += 1;
                }
            }
            i = next;
        } else {
            let ghost before = p@;
            assert(a[i as int] == args@[i as int]@);
            p.positionals.push(args[i].clone());
            assert(p@ =~= PState { pos: before.pos.push(a[i as int]), ..before });
            i += 1;
        }
    }
    Ok(p)
}

// ---------------------------------------------------------------------------
// Reading flag values
// ---------------------------------------------------------------------------

/// `Parsed::get` — a bool flag's value by long name (unset reads false).
pub fn pget(p: &Parsed, specs: &[FlagSpec], long: &str) -> (b: bool)
    requires
        p.bools@.len() == specs@.len(),
    ensures
        b == get_bool(specs@, p@, long@),
{
    let name = chars_of(long);
    match find_long(specs, name.as_slice()) {
        None => false,
        Some(j) => p.bools[j] == Some(true),
    }
}

/// `Parsed::vals` — a value-taking flag's values by long name.
pub fn pvals(p: &Parsed, specs: &[FlagSpec], long: &str) -> (v: Vec<String>)
    ensures
        string_views(v@) == get_vals(specs@, p@, long@),
{
    let name = chars_of(long);
    let mut out: Vec<String> = Vec::new();
    match find_long(specs, name.as_slice()) {
        None => {
            assert(string_views(out@) =~= Seq::<Seq<char>>::empty());
            out
        },
        Some(idx) => {
            let ghost all = p@.vals;
            let mut j: usize = 0;
            assert(string_views(out@) =~= select(all.subrange(0, 0), idx as int));
            while j < p.values.len()
                invariant
                    j <= p.values@.len(),
                    all == p@.vals,
                    all.len() == p.values@.len(),
                    string_views(out@) == select(all.subrange(0, j as int), idx as int),
                decreases p.values.len() - j,
            {
                let ghost before = string_views(out@);
                assert(all.subrange(0, j + 1).drop_last() =~= all.subrange(0, j as int));
                if p.values[j].0 == idx {
                    out.push(p.values[j].1.clone());
                    assert(string_views(out@) =~= before.push(all[j as int].1));
                } else {
                    assert(string_views(out@) =~= before);
                }
                assert(select(all.subrange(0, j + 1), idx as int) =~= select(
                    all.subrange(0, j as int),
                    idx as int,
                ) + if all[j as int].0 == idx as int {
                    seq![all[j as int].1]
                } else {
                    seq![]
                });
                j += 1;
            }
            assert(all.subrange(0, j as int) =~= all);
            out
        },
    }
}

// ---------------------------------------------------------------------------
// Help topics and suggestions
// ---------------------------------------------------------------------------

/// The real subcommands (everything but `help` and `completion`).
pub open spec fn is_real(name: Seq<char>) -> bool {
    name == "audit"@ || name == "clean"@ || name == "optimize"@ || name == "status"@ || name
        == "uninstall"@
}

/// The shells `completion` knows.
pub open spec fn is_shell_name(s: Seq<char>) -> bool {
    s == "bash"@ || s == "zsh"@ || s == "fish"@ || s == "powershell"@
}

/// The help text of a real subcommand.
pub open spec fn cmd_help_text(name: Seq<char>) -> Seq<char> {
    if name == "audit"@ {
        AUDIT_HELP@
    } else if name == "clean"@ {
        CLEAN_HELP@
    } else if name == "optimize"@ {
        OPTIMIZE_HELP@
    } else if name == "status"@ {
        STATUS_HELP@
    } else if name == "uninstall"@ {
        UNINSTALL_HELP@
    } else {
        seq![]
    }
}

/// The help text of `completion <shell>` (the parent's for anything else).
pub open spec fn shell_help_text(shell: Seq<char>) -> Seq<char> {
    if shell == "bash"@ {
        COMPLETION_BASH_HELP@
    } else if shell == "zsh"@ {
        COMPLETION_ZSH_HELP@
    } else if shell == "fish"@ {
        COMPLETION_FISH_HELP@
    } else if shell == "powershell"@ {
        COMPLETION_POWERSHELL_HELP@
    } else {
        COMPLETION_HELP@
    }
}

/// The completion script of a shell (the parent's help for anything else).
pub open spec fn completion_text(shell: Seq<char>) -> Seq<char> {
    if shell == "bash"@ {
        COMPLETION_SCRIPT_BASH@
    } else if shell == "zsh"@ {
        COMPLETION_SCRIPT_ZSH@
    } else if shell == "fish"@ {
        COMPLETION_SCRIPT_FISH@
    } else if shell == "powershell"@ {
        COMPLETION_SCRIPT_POWERSHELL@
    } else {
        COMPLETION_HELP@
    }
}

fn is_real_cmd(name: &[char]) -> (b: bool)
    ensures
        b == is_real(name@),
{
    eq_str(name, "audit") || eq_str(name, "clean") || eq_str(name, "optimize") || eq_str(
        name,
        "status",
    ) || eq_str(name, "uninstall")
}

/// Whether `s` names a completion shell.
pub fn is_shell(s: &[char]) -> (b: bool)
    ensures
        b == is_shell_name(s@),
{
    eq_str(s, "bash") || eq_str(s, "zsh") || eq_str(s, "fish") || eq_str(s, "powershell")
}

/// Per-command help text for the real commands.
pub fn cmd_help(name: &[char]) -> (r: Option<&'static str>)
    ensures
        is_real(name@) ==> (r matches Some(t) && t@ == cmd_help_text(name@)),
        !is_real(name@) ==> r is None,
{
    if eq_str(name, "audit") {
        Some(AUDIT_HELP)
    } else if eq_str(name, "clean") {
        Some(CLEAN_HELP)
    } else if eq_str(name, "optimize") {
        Some(OPTIMIZE_HELP)
    } else if eq_str(name, "status") {
        Some(STATUS_HELP)
    } else if eq_str(name, "uninstall") {
        Some(UNINSTALL_HELP)
    } else {
        None
    }
}

/// Per-shell help text.
pub fn shell_help(shell: &[char]) -> (t: &'static str)
    ensures
        t@ == shell_help_text(shell@),
{
    if eq_str(shell, "bash") {
        COMPLETION_BASH_HELP
    } else if eq_str(shell, "zsh") {
        COMPLETION_ZSH_HELP
    } else if eq_str(shell, "fish") {
        COMPLETION_FISH_HELP
    } else if eq_str(shell, "powershell") {
        COMPLETION_POWERSHELL_HELP
    } else {
        COMPLETION_HELP
    }
}

/// The completion script for a shell.
pub fn completion_script(shell: &[char]) -> (t: String)
    ensures
        t@ == completion_text(shell@),
{
    if eq_str(shell, "bash") {
        String::from_str(COMPLETION_SCRIPT_BASH)
    } else if eq_str(shell, "zsh") {
        String::from_str(COMPLETION_SCRIPT_ZSH)
    } else if eq_str(shell, "fish") {
        String::from_str(COMPLETION_SCRIPT_FISH)
    } else if eq_str(shell, "powershell") {
        String::from_str(COMPLETION_SCRIPT_POWERSHELL)
    } else {
        String::from_str(COMPLETION_HELP)
    }
}

/// `strconv.Quote`-style quoting of one help topic: in backquotes when it
/// holds no backquote and no `\r`, else as a Rust debug string.
pub open spec fn go_quoted(s: Seq<char>) -> Seq<char> {
    if !s.contains('`') && !s.contains('\r') {
        "`"@ + s + "`"@
    } else {
        debug_repr(s)
    }
}

/// Quotes one help topic.
pub fn go_quote(s: &str) -> (r: Vec<char>)
    ensures
        r@ == go_quoted(s@),
{
    let c = chars_of(s);
    if !contains_char(c.as_slice(), '`') && !contains_char(c.as_slice(), '\r') {
        let mut r = Vec::new();
        r.push('`');
        push_all(&mut r, c.as_slice());
        r.push('`');
        assert(r@ =~= "`"@ + s@ + "`"@) by {
            reveal_strlit("`");
        }
        r
    } else {
        let q = debug_quote(s);
        chars_of(q.as_str())
    }
}

/// The topics, each quoted, separated by single spaces.
pub open spec fn quoted_topics(t: Seq<Seq<char>>) -> Seq<char>
    decreases t.len(),
{
    if t.len() == 0 {
        seq![]
    } else if t.len() == 1 {
        go_quoted(t[0])
    } else {
        quoted_topics(t.drop_last()) + " "@ + go_quoted(t.last())
    }
}

/// `mu help <bogus>`: `Unknown help topic [...]` and the root usage on
/// stderr, exit code 0.
pub open spec fn unknown_topic(t: Seq<Seq<char>>) -> OutcomeV {
    OutcomeV::Stderr("Unknown help topic ["@ + quoted_topics(t) + "]\n"@ + ROOT_USAGE@, 0)
}

/// The unknown-help-topic outcome.
pub fn unknown_help_topic(topics: &[String]) -> (o: Outcome)
    ensures
        o@ == unknown_topic(string_views(topics@)),
{
    let ghost tv = string_views(topics@);
    let mut q: Vec<char> = Vec::new();
    let mut i: usize = 0;
    while i < topics.len()
        invariant
            i <= topics@.len(),
            tv == string_views(topics@),
            q@ == quoted_topics(tv.subrange(0, i as int)),
        decreases topics.len() - i,
    {
        let one = go_quote(topics[i].as_str());
        let ghost before = q@;
        if i > 0 {
            q.push(' ');
        }
        push_all(&mut q, one.as_slice());
        assert(tv.subrange(0, i + 1).drop_last() =~= tv.subrange(0, i as int));
        proof {
            reveal_strlit(" ");
            if i > 0 {
                assert(q@ =~= before + " "@ + go_quoted(tv[i as int]));
            } else {
                assert(q@ =~= go_quoted(tv[i as int]));
            }
        }
        i += 1;
    }
    assert(tv.subrange(0, i as int) =~= tv);
    let mut text: Vec<char> = Vec::new();
    push_str(&mut text, "Unknown help topic [");
    push_all(&mut text, q.as_slice());
    push_str(&mut text, "]\n");
    push_str(&mut text, ROOT_USAGE);
    Outcome::Stderr { text: string_of(text.as_slice()), code: 0 }
}

/// Edit distance (insert, delete, substitute; each costs 1).
pub open spec fn ld(a: Seq<char>, b: Seq<char>) -> nat
    decreases a.len() + b.len(),
{
    if a.len() == 0 {
        b.len()
    } else if b.len() == 0 {
        a.len()
    } else {
        let sub = ld(a.drop_last(), b.drop_last()) + if a.last() == b.last() {
            0nat
        } else {
            1nat
        };
        let del = ld(a.drop_last(), b) + 1;
        let ins = ld(a, b.drop_last()) + 1;
        if sub <= del && sub <= ins {
            sub
        } else if del <= ins {
            del
        } else {
            ins
        }
    }
}

pub proof fn lemma_ld_bound(a: Seq<char>, b: Seq<char>)
    ensures
        ld(a, b) <= a.len() + b.len(),
    decreases a.len() + b.len(),
{
    if a.len() > 0 && b.len() > 0 {
        lemma_ld_bound(a.drop_last(), b.drop_last());
    }
}

fn min3(x: u128, y: u128, z: u128) -> (m: u128)
    ensures
        m == if x <= y && x <= z {
            x
        } else if y <= z {
            y
        } else {
            z
        },
{
    if x <= y && x <= z {
        x
    } else if y <= z {
        y
    } else {
        z
    }
}

/// Levenshtein distance of two character sequences.
pub fn levenshtein(a: &[char], b: &[char]) -> (d: u128)
    ensures
        d == ld(a@, b@),
{
    let mut prev: Vec<u128> = Vec::new();
    prev.push(0);
    let mut j: usize = 0;
    while j < b.len()
        invariant
            j <= b@.len(),
            b@.len() == b.len(),
            prev@.len() == j + 1,
            forall|t: int| 0 <= t <= j ==> prev@[t] == ld(a@.subrange(0, 0), b@.subrange(0, t)),
        decreases b.len() - j,
    {
        j += 1;
        prev.push(j as u128);
    }
    let mut i: usize = 0;
    while i < a.len()
        invariant
            i <= a@.len(),
            b@.len() == b.len(),
            prev@.len() == b@.len() + 1,
            forall|t: int|
                0 <= t <= b@.len() ==> prev@[t] == ld(a@.subrange(0, i as int), b@.subrange(0, t)),
        decreases a.len() - i,
    {
        let ghost ai = a@.subrange(0, i as int);
        let ghost ai1 = a@.subrange(0, i + 1);
        assert(ai1.drop_last() =~= ai);
        let mut cur: Vec<u128> = Vec::new();
        cur.push((i + 1) as u128);
        let mut k: usize = 0;
        while k < b.len()
            invariant
                i < a@.len(),
                k <= b@.len(),
                b@.len() == b.len(),
                prev@.len() == b@.len() + 1,
                cur@.len() == k + 1,
                ai == a@.subrange(0, i as int),
                ai1 == a@.subrange(0, i + 1),
                ai1.drop_last() == ai,
                forall|t: int| 0 <= t <= b@.len() ==> prev@[t] == ld(ai, b@.subrange(0, t)),
                forall|t: int| 0 <= t <= k ==> cur@[t] == ld(ai1, b@.subrange(0, t)),
            decreases b.len() - k,
        {
            let ghost bk = b@.subrange(0, k as int);
            let ghost bk1 = b@.subrange(0, k + 1);
            assert(bk1.drop_last() =~= bk);
            proof {
                lemma_ld_bound(ai, bk);
                lemma_ld_bound(ai, bk1);
                lemma_ld_bound(ai1, bk);
            }
            let cost: u128 = if a[i] != b[k] {
                1
            } else {
                0
            };
            let v = min3(prev[k] + cost, prev[k + 1] + 1, cur[k] + 1);
            cur.push(v);
            k += 1;
        }
        prev = cur;
        i += 1;
    }
    assert(a@.subrange(0, a@.len() as int) =~= a@);
    assert(b@.subrange(0, b@.len() as int) =~= b@);
    prev[b.len()]
}

/// The commands suggested for a typo, in registration order.
pub open spec fn suggest_commands() -> Seq<Seq<char>> {
    seq!["audit"@, "clean"@, "uninstall"@, "optimize"@, "status"@, "completion"@]
}

/// Whether `c` is suggested for the mistyped `tok`: edit distance at most 2
/// or a (case-insensitive) prefix.
pub open spec fn suggests(tok: Seq<char>, c: Seq<char>) -> bool {
    ld(lowercase(tok), lowercase(c)) <= 2 || (lowercase(tok).len() <= lowercase(c).len()
        && lowercase(c).subrange(0, lowercase(tok).len() as int) == lowercase(tok))
}

/// The suggestions among `cs`, in order.
pub open spec fn suggestions(tok: Seq<char>, cs: Seq<Seq<char>>) -> Seq<Seq<char>>
    decreases cs.len(),
{
    if cs.len() == 0 {
        seq![]
    } else {
        suggestions(tok, cs.drop_last()) + if suggests(tok, cs.last()) {
            seq![cs.last()]
        } else {
            seq![]
        }
    }
}

/// `\tname\n` for each suggestion.
pub open spec fn suggestion_lines(s: Seq<Seq<char>>) -> Seq<char>
    decreases s.len(),
{
    if s.len() == 0 {
        seq![]
    } else {
        suggestion_lines(s.drop_last()) + "\t"@ + s.last() + "\n"@
    }
}

/// `unknown command "X" for "mu"`, with `Did you mean this?` suggestions.
pub open spec fn unknown_cmd(tok: Seq<char>) -> OutcomeV {
    let sugg = suggestions(tok, suggest_commands());
    OutcomeV::Stderr(
        "unknown command \""@ + tok + "\" for \"mu\"\n"@ + if sugg.len() > 0 {
            "\nDid you mean this?\n"@ + suggestion_lines(sugg) + "\n"@
        } else {
            seq![]
        },
        1,
    )
}

fn suggest_list() -> (v: Vec<&'static str>)
    ensures
        v@.map_values(|s: &'static str| s@) == suggest_commands(),
{
    let mut v = Vec::new();
    v.push("audit");
    v.push("clean");
    v.push("uninstall");
    v.push("optimize");
    v.push("status");
    v.push("completion");
    assert(v@.map_values(|s: &'static str| s@) =~= suggest_commands());
    v
}

/// The unknown-command outcome for `tok`.
pub fn unknown_command(tok: &str) -> (o: Outcome)
    ensures
        o@ == unknown_cmd(tok@),
{
    let lt_s = to_lower(tok);
    let lt = chars_of(lt_s.as_str());
    let cands = suggest_list();
    let ghost cv = cands@.map_values(|s: &'static str| s@);
    let mut lines: Vec<char> = Vec::new();
    let mut n: usize = 0;
    let ghost mut sugg: Seq<Seq<char>> = seq![];
    let mut i: usize = 0;
    while i < cands.len()
        invariant
            i <= cands@.len(),
            cv == cands@.map_values(|s: &'static str| s@),
            cv == suggest_commands(),
            lt@ == lowercase(tok@),
            sugg == suggestions(tok@, cv.subrange(0, i as int)),
            lines@ == suggestion_lines(sugg),
            n == sugg.len(),
            n <= i,
        decreases cands.len() - i,
    {
        let c = cands[i];
        let lc_s = to_lower(c);
        let lc = chars_of(lc_s.as_str());
        let d = levenshtein(lt.as_slice(), lc.as_slice());
        let pre = crate::text::starts_with(lc.as_slice(), lt.as_slice());
        assert(cv.subrange(0, i + 1).drop_last() =~= cv.subrange(0, i as int));
        assert(cv[i as int] == c@);
        if d <= 2 || pre {
            lines.push('\t');
            let cc = chars_of(c);
            push_all(&mut lines, cc.as_slice());
            lines.push('\n');
            proof {
                let old_sugg = sugg;
                sugg = sugg.push(c@);
                assert(sugg.drop_last() =~= old_sugg);
                reveal_strlit("\t");
                reveal_strlit("\n");
                assert(lines@ =~= suggestion_lines(old_sugg) + "\t"@ + c@ + "\n"@);
            }
            n += 1;
        }
        i += 1;
    }
    assert(cv.subrange(0, i as int) =~= cv);
    let mut text: Vec<char> = Vec::new();
    push_str(&mut text, "unknown command \"");
    let tc = chars_of(tok);
    push_all(&mut text, tc.as_slice());
    push_str(&mut text, "\" for \"mu\"\n");
    let ghost head = text@;
    proof {
        reveal_strlit("unknown command \"");
        reveal_strlit("\" for \"mu\"\n");
        assert(head =~= "unknown command \""@ + tok@ + "\" for \"mu\"\n"@);
    }
    if n > 0 {
        push_str(&mut text, "\nDid you mean this?\n");
        push_all(&mut text, lines.as_slice());
        push_str(&mut text, "\n");
        assert(text@ =~= head + ("\nDid you mean this?\n"@ + suggestion_lines(sugg) + "\n"@));
    } else {
        assert(text@ =~= head + Seq::<char>::empty());
    }
    Outcome::Stderr { text: string_of(text.as_slice()), code: 1 }
}

// ---------------------------------------------------------------------------
// Dispatch
// ---------------------------------------------------------------------------

/// The root command: flags parse first, then `--help` beats `--version`,
/// and with neither the interactive menu runs.
pub open spec fn root_outcome(a: Seq<Seq<char>>) -> OutcomeV {
    match flag_scan(a, root_flags()) {
        Err(t) => OutcomeV::Stderr(t, 1),
        Ok(st) => if get_bool(root_flags(), st, "help"@) {
            OutcomeV::Stdout(ROOT_HELP@)
        } else if get_bool(root_flags(), st, "version"@) {
            OutcomeV::Stdout("mu version "@ + MU_VERSION@ + "\n"@)
        } else {
            OutcomeV::Tui(get_bool(root_flags(), st, "debug"@))
        },
    }
}

/// The command a real subcommand runs with, from its parsed flags.
pub open spec fn command_of(name: Seq<char>, st: PState) -> CommandV {
    let sp = cmd_flags(name);
    if name == "status"@ {
        CommandV::Status(get_bool(sp, st, "json"@))
    } else if name == "clean"@ {
        CommandV::Clean(get_bool(sp, st, "dry-run"@), get_vals(sp, st, "include"@), get_bool(sp, st, "yes"@))
    } else if name == "optimize"@ {
        CommandV::Optimize(get_bool(sp, st, "dry-run"@), get_vals(sp, st, "skip"@), get_bool(sp, st, "yes"@))
    } else if name == "audit"@ {
        CommandV::Audit(
            get_bool(sp, st, "report"@),
            get_bool(sp, st, "json"@),
            get_bool(sp, st, "dry-run"@),
            get_vals(sp, st, "include"@),
        )
    } else {
        CommandV::Uninstall(get_bool(sp, st, "dry-run"@))
    }
}

/// A real subcommand: its flags parse, `--help` prints its help, else it runs.
pub open spec fn sub_outcome(name: Seq<char>, a: Seq<Seq<char>>) -> OutcomeV {
    match flag_scan(a, cmd_flags(name)) {
        Err(t) => OutcomeV::Stderr(t, 1),
        Ok(st) => if get_bool(cmd_flags(name), st, "help"@) {
            OutcomeV::Stdout(cmd_help_text(name))
        } else {
            OutcomeV::Run(get_bool(cmd_flags(name), st, "debug"@), command_of(name, st))
        },
    }
}

/// `mu help [topics]`: the first command candidate among the topics picks
/// the help shown; a topic that names no command is reported.
pub open spec fn help_outcome(a: Seq<Seq<char>>) -> OutcomeV {
    match flag_scan(a, help_flags()) {
        Err(t) => OutcomeV::Stderr(t, 1),
        Ok(st) => {
            let pos = st.pos;
            let c = candidates(pos);
            if get_bool(help_flags(), st, "help"@) {
                OutcomeV::Stdout(HELP_HELP@)
            } else if c.len() == 0 {
                OutcomeV::Stdout(ROOT_HELP@)
            } else {
                let t = pos[c[0]];
                if t == "help"@ {
                    OutcomeV::Stdout(HELP_HELP@)
                } else if t == "completion"@ {
                    let rest = pos.subrange(c[0] + 1, pos.len() as int);
                    let inner = candidates(rest);
                    if inner.len() > 0 && is_shell_name(rest[inner[0]]) {
                        OutcomeV::Stdout(shell_help_text(rest[inner[0]]))
                    } else {
                        OutcomeV::Stdout(COMPLETION_HELP@)
                    }
                } else if is_real(t) {
                    OutcomeV::Stdout(cmd_help_text(t))
                } else {
                    unknown_topic(pos)
                }
            }
        },
    }
}

/// `mu completion [shell] [flags]`.
pub open spec fn completion_outcome(a: Seq<Seq<char>>) -> OutcomeV {
    let c = candidates(a);
    if c.len() > 0 && is_shell_name(a[c[0]]) {
        let shell = a[c[0]];
        match flag_scan(a.remove(c[0]), shell_flags()) {
            Err(t) => OutcomeV::Stderr(t, 1),
            Ok(st) => if get_bool(shell_flags(), st, "help"@) {
                OutcomeV::Stdout(shell_help_text(shell))
            } else if st.pos.len() > 0 {
                OutcomeV::Stderr(
                    "unknown command \""@ + st.pos[0] + "\" for \"mu completion "@ + shell + "\"\n"@,
                    1,
                )
            } else {
                OutcomeV::Stdout(completion_text(shell))
            },
        }
    } else {
        match flag_scan(a, help_flags()) {
            Err(t) => OutcomeV::Stderr(t, 1),
            Ok(st) => OutcomeV::Stdout(COMPLETION_HELP@),
        }
    }
}

/// What argv (without the program name) resolves to: the first command
/// candidate picks the subcommand and is taken out of the arguments it gets.
pub open spec fn parse_spec(a: Seq<Seq<char>>) -> OutcomeV {
    let c = candidates(a);
    if c.len() > 0 {
        let t = a[c[0]];
        let rest = a.remove(c[0]);
        if t == "help"@ {
            help_outcome(rest)
        } else if t == "completion"@ {
            completion_outcome(rest)
        } else if is_real(t) {
            sub_outcome(t, rest)
        } else {
            unknown_cmd(t)
        }
    } else {
        root_outcome(a)
    }
}

/// A copy of `args` without the element at `k`.
fn without(args: &[String], k: usize) -> (r: Vec<String>)
    requires
        k < args@.len(),
    ensures
        argv(r@) == argv(args@).remove(k as int),
{
    let ghost a = argv(args@);
    let mut r: Vec<String> = Vec::new();
    let mut i: usize = 0;
    while i < args.len()
        invariant
            k < args@.len(),
            i <= args@.len(),
            a == argv(args@),
            a.len() == args@.len(),
            argv(r@) == (if i <= k {
                a.subrange(0, i as int)
            } else {
                a.subrange(0, k as int) + a.subrange(k + 1, i as int)
            }),
        decreases args.len() - i,
    {
        let ghost before = argv(r@);
        if i != k {
            let x = args[i].clone();
            r.push(x);
            assert(argv(r@) =~= before.push(a[i as int]));
        }
        proof {
            if i < k {
                assert(a.subrange(0, i + 1) =~= a.subrange(0, i as int).push(a[i as int]));
            } else if i == k {
                assert(a.subrange(k + 1, i + 1) =~= Seq::<Seq<char>>::empty());
                assert(a.subrange(0, k as int) + a.subrange(k + 1, i + 1) =~= a.subrange(0, i as int));
            } else {
                assert(a.subrange(k + 1, i + 1) =~= a.subrange(k + 1, i as int).push(a[i as int]));
            }
        }
        i += 1;
    }
    assert(a.remove(k as int) =~= a.subrange(0, k as int) + a.subrange(k + 1, a.len() as int));
    r
}

/// A copy of `args[from..]`.
fn tail(args: &[String], from: usize) -> (r: Vec<String>)
    requires
        from <= args@.len(),
    ensures
        argv(r@) == argv(args@).subrange(from as int, args@.len() as int),
{
    let ghost a = argv(args@);
    let mut r: Vec<String> = Vec::new();
    let mut i: usize = from;
    while i < args.len()
        invariant
            from <= i <= args@.len(),
            a == argv(args@),
            a.len() == args@.len(),
            argv(r@) == a.subrange(from as int, i as int),
        decreases args.len() - i,
    {
        let ghost before = argv(r@);
        r.push(args[i].clone());
        assert(argv(r@) =~= before.push(a[i as int]));
        assert(a.subrange(from as int, i + 1) =~= a.subrange(from as int, i as int).push(a[i as int]));
        i += 1;
    }
    r
}

/// The root command.
pub fn exec_root(args: &[String]) -> (o: Outcome)
    ensures
        o@ == root_outcome(argv(args@)),
{
    let specs = flagset_root();
    match flag_parse(args, specs.as_slice()) {
        Err(o) => o,
        Ok(p) => {
            if pget(&p, specs.as_slice(), "help") {
                Outcome::Stdout(String::from_str(ROOT_HELP))
            } else if pget(&p, specs.as_slice(), "version") {
                let mut t: Vec<char> = Vec::new();
                push_str(&mut t, "mu version ");
                push_str(&mut t, MU_VERSION);
                push_str(&mut t, "\n");
                Outcome::Stdout(string_of(t.as_slice()))
            } else {
                Outcome::Tui { debug: pget(&p, specs.as_slice(), "debug") }
            }
        },
    }
}

/// A real subcommand with its arguments.
pub fn exec_subcommand(name: &[char], args: &[String]) -> (o: Outcome)
    requires
        is_real(name@),
    ensures
        o@ == sub_outcome(name@, argv(args@)),
{
    let specs = cmd_flagset(name);
    let sp = specs.as_slice();
    let p = match flag_parse(args, sp) {
        Ok(p) => p,
        Err(o) => return o,
    };
    if pget(&p, sp, "help") {
        let h = cmd_help(name);
        return match h {
            Some(t) => Outcome::Stdout(String::from_str(t)),
            None => Outcome::Stdout(String::new()),
        };
    }
    let cmd = if eq_str(name, "status") {
        Command::Status { json: pget(&p, sp, "json") }
    } else if eq_str(name, "clean") {
        Command::Clean {
            dry_run: pget(&p, sp, "dry-run"),
            include_ids: pvals(&p, sp, "include"),
            yes: pget(&p, sp, "yes"),
        }
    } else if eq_str(name, "optimize") {
        Command::Optimize {
            dry_run: pget(&p, sp, "dry-run"),
            skip: pvals(&p, sp, "skip"),
            yes: pget(&p, sp, "yes"),
        }
    } else if eq_str(name, "audit") {
        Command::Audit {
            report: pget(&p, sp, "report"),
            json: pget(&p, sp, "json"),
            dry_run: pget(&p, sp, "dry-run"),
            include_ids: pvals(&p, sp, "include"),
        }
    } else {
        Command::Uninstall { dry_run: pget(&p, sp, "dry-run") }
    };
    Outcome::Run { debug: pget(&p, sp, "debug"), cmd }
}

/// `mu help [topics]`.
pub fn exec_help(args: &[String]) -> (o: Outcome)
    ensures
        o@ == help_outcome(argv(args@)),
{
    let specs = flagset_help();
    let sp = specs.as_slice();
    let p = match flag_parse(args, sp) {
        Ok(p) => p,
        Err(o) => return o,
    };
    let ghost pos = p@.pos;
    assert(argv(p.positionals@) == pos);
    if pget(&p, sp, "help") {
        return Outcome::Stdout(String::from_str(HELP_HELP));
    }
    let cands = command_candidates(p.positionals.as_slice());
    proof {
        lemma_cands_bounds(pos, 0);
    }
    if cands.len() == 0 {
        return Outcome::Stdout(String::from_str(ROOT_HELP));
    }
    let j = cands[0];
    assert(cands@.map_values(|k: usize| k as int)[0] == j as int);
    assert(cands_from(pos, 0)[0] == j as int);
    assert(j < pos.len());
    assert(pos.len() == p.positionals@.len());
    let npos = p.positionals.len();
    assert(j < npos);
    let t = chars_of(p.positionals[j].as_str());
    if eq_str(t.as_slice(), "help") {
        Outcome::Stdout(String::from_str(HELP_HELP))
    } else if eq_str(t.as_slice(), "completion") {
        let rest = tail(p.positionals.as_slice(), j + 1);
        let ghost rv = argv(rest@);
        let inner = command_candidates(rest.as_slice());
        proof {
            lemma_cands_bounds(rv, 0);
        }
        if inner.len() > 0 {
            let k = inner[0];
            assert(inner@.map_values(|x: usize| x as int)[0] == k as int);
            let sh = chars_of(rest[k].as_str());
            if is_shell(sh.as_slice()) {
                return Outcome::Stdout(String::from_str(shell_help(sh.as_slice())));
            }
        }
        Outcome::Stdout(String::from_str(COMPLETION_HELP))
    } else if is_real_cmd(t.as_slice()) {
        match cmd_help(t.as_slice()) {
            Some(h) => Outcome::Stdout(String::from_str(h)),
            None => Outcome::Stdout(String::new()),
        }
    } else {
        unknown_help_topic(p.positionals.as_slice())
    }
}

/// `mu completion [shell]`.
pub fn exec_completion(args: &[String]) -> (o: Outcome)
    ensures
        o@ == completion_outcome(argv(args@)),
{
    let ghost a = argv(args@);
    let cands = command_candidates(args);
    proof {
        lemma_cands_bounds(a, 0);
    }
    if cands.len() > 0 {
        let j = cands[0];
        assert(cands@.map_values(|k: usize| k as int)[0] == j as int);
        let shell = chars_of(args[j].as_str());
        if is_shell(shell.as_slice()) {
            let rest = without(args, j);
            let specs = flagset_shell();
            let sp = specs.as_slice();
            let p = match flag_parse(rest.as_slice(), sp) {
                Ok(p) => p,
                Err(o) => return o,
            };
            if pget(&p, sp, "help") {
                return Outcome::Stdout(String::from_str(shell_help(shell.as_slice())));
            }
            if p.positionals.len() > 0 {
                let x = chars_of(p.positionals[0].as_str());
                let mut t: Vec<char> = Vec::new();
                push_str(&mut t, "unknown command \"");
                push_all(&mut t, x.as_slice());
                push_str(&mut t, "\" for \"mu completion ");
                push_all(&mut t, shell.as_slice());
                push_str(&mut t, "\"\n");
                return perr(t);
            }
            return Outcome::Stdout(completion_script(shell.as_slice()));
        }
    }
    let specs = flagset_help();
    match flag_parse(args, specs.as_slice()) {
        Err(o) => o,
        Ok(_) => Outcome::Stdout(String::from_str(COMPLETION_HELP)),
    }
}

/// Resolves argv (without the program name) to what `mu` does.
pub fn parse(args: &[String]) -> (o: Outcome)
    ensures
        o@ == parse_spec(argv(args@)),
{
    let ghost a = argv(args@);
    let cands = command_candidates(args);
    proof {
        lemma_cands_bounds(a, 0);
    }
    if cands.len() > 0 {
        let i0 = cands[0];
        assert(cands@.map_values(|k: usize| k as int)[0] == i0 as int);
        let rest = without(args, i0);
        let t = chars_of(args[i0].as_str());
        if eq_str(t.as_slice(), "help") {
            exec_help(rest.as_slice())
        } else if eq_str(t.as_slice(), "completion") {
            exec_completion(rest.as_slice())
        } else if is_real_cmd(t.as_slice()) {
            exec_subcommand(t.as_slice(), rest.as_slice())
        } else {
            unknown_command(args[i0].as_str())
        }
    } else {
        exec_root(args)
    }
}

} // verus!
