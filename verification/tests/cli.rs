use mu::cli::{
    AUDIT_HELP, CLEAN_HELP, COMPLETION_BASH_HELP, COMPLETION_HELP, HELP_HELP, Command, OPTIMIZE_HELP, Outcome, ROOT_HELP, ROOT_USAGE, STATUS_HELP,
    UNINSTALL_HELP, parse,
};

const EXPECTED_ROOT_HELP: &str = "\
mu (Mole Ubuntu) — safe, fast system cleaner and optimizer.

Run without arguments to open the interactive TUI menu.
All destructive commands support --dry-run for safe previewing.

Usage:
  mu [flags]
  mu [command]

Available Commands:
  audit       Diagnose cleanup issues and apply recommended fixes
  clean       Free disk space by removing caches, logs, and old packages
  completion  Generate the autocompletion script for the specified shell
  help        Help about any command
  optimize    Run system maintenance: apt autoremove, journal vacuum, cache refresh
  status      Live system dashboard: CPU, RAM, disk, network, health score
  uninstall   Remove apps and all their config, cache, and data remnants

Flags:
      --debug     Enable verbose debug logging
  -h, --help      help for mu
  -v, --version   version for mu

Use \"mu [command] --help\" for more information about a command.
";

const EXPECTED_AUDIT_HELP: &str = "\
Scan the system for reclaimable space and health pressure, then
guide you through applying safe fixes (clean targets and optimize steps).

Interactive (default on a TTY):
  scan → select findings → confirm → apply → re-score

Scripting:
  mu audit --report     human-readable report (exit 1=warning, 2=critical)
  mu audit --json       structured JSON report
  mu audit --dry-run    wizard/report apply path without making changes

Opt-in clean categories (browser-cache, docker) appear in the audit but are
not selected unless listed in --include.

Usage:
  mu audit [flags]

Flags:
      --dry-run           Preview apply actions without making changes
  -h, --help              help for audit
      --include strings   Pre-select opt-in clean categories (e.g. browser-cache)
      --json              Print JSON findings and exit
      --report            Print findings and exit (no apply)

Global Flags:
      --debug   Enable verbose debug logging
";

const EXPECTED_CLEAN_HELP: &str = "\
Scan and remove:
  • User cache (~/.cache)
  • APT package cache
  • Snap disabled revisions
  • Journal logs (older than 30 days)
  • Complete APT-policy autoremove candidate set
  • Browser caches (Chrome, Firefox, VSCode)
  • Thumbnail cache
  • Docker build cache (if Docker is installed)

Use --dry-run to preview what would be removed without making changes.
Use --include=browser-cache to enable opt-in categories.
Use --yes to skip the confirmation prompt (for scripting).

Usage:
  mu clean [flags]

Flags:
      --dry-run           Preview actions without making changes
  -h, --help              help for clean
      --include strings   Opt-in categories (e.g. browser-cache)
  -y, --yes               Skip confirmation prompt

Global Flags:
      --debug   Enable verbose debug logging
";

const EXPECTED_OPTIMIZE_HELP: &str = "\
Runs the following maintenance tasks:
  1. apt-get update && apt-get autoremove --purge
  2. journalctl --vacuum-size=500M
  3. update-mime-database, fc-cache

Use --dry-run to see what would run without executing.
Use --skip to exclude specific steps (e.g. --skip=apt,journal).
Use --yes to skip the confirmation prompt (for scripting).

Usage:
  mu optimize [flags]

Flags:
      --dry-run        Preview actions without making changes
  -h, --help           help for optimize
      --skip strings   Steps to skip (apt, journal, caches)
  -y, --yes            Skip confirmation prompt

Global Flags:
      --debug   Enable verbose debug logging
";

const EXPECTED_STATUS_HELP: &str = "\
Displays a real-time system health dashboard with visual metric bars.

  • Aggregate CPU usage
  • RAM and swap usage
  • Disk usage for mounted filesystems (used % bars)
  • Network I/O rates (active interfaces)
  • Computed health score (0-100)

Use --json to output a structured JSON snapshot and exit.
When piped (stdout is not a terminal), JSON is used automatically.
Press q or Ctrl+C to exit the dashboard.

Usage:
  mu status [flags]

Flags:
  -h, --help   help for status
      --json   Output JSON snapshot and exit

Global Flags:
      --debug   Enable verbose debug logging
";

const EXPECTED_UNINSTALL_HELP: &str = "\
Interactively select installed packages to remove.
Shows estimated disk usage per package including remnants in:
  ~/.config/<app>  ~/.local/share/<app>  ~/.cache/<app>

Executes: apt purge <pkg> + remnant cleanup.
Use --dry-run to preview without removing anything.

Usage:
  mu uninstall [flags]

Flags:
      --dry-run   Preview actions without making changes
  -h, --help      help for uninstall

Global Flags:
      --debug   Enable verbose debug logging
";

fn args(slice: &[&str]) -> Vec<String> {
    slice.iter().map(|s| String::from(*s)).collect()
}

#[test]
fn version_long() {
    match parse(&args(&["--version"])) {
        Outcome::Stdout(t) => assert!(t.starts_with("mu version ")),
        _ => panic!("expected Stdout"),
    }
}

#[test]
fn version_short() {
    match parse(&args(&["-v"])) {
        Outcome::Stdout(t) => assert!(t.starts_with("mu version ")),
        _ => panic!("expected Stdout"),
    }
}

#[test]
fn version_with_trailing_arg() {
    match parse(&args(&["--version", "foo"])) {
        Outcome::Stdout(t) => assert!(t.starts_with("mu version ")),
        _ => panic!("expected Stdout"),
    }
}

#[test]
fn version_not_on_subcommand() {
    match parse(&args(&["status", "--version"])) {
        Outcome::Stderr { text, code } => {
            assert_eq!(text, "unknown flag: --version\n");
            assert_eq!(code, 1);
        }
        _ => panic!("expected Stderr"),
    }
}

#[test]
fn version_short_not_on_subcommand() {
    match parse(&args(&["status", "-v"])) {
        Outcome::Stderr { text, code } => {
            assert_eq!(text, "unknown shorthand flag: 'v' in -v\n");
            assert_eq!(code, 1);
        }
        _ => panic!("expected Stderr"),
    }
}

#[test]
fn unknown_command_version() {
    match parse(&args(&["version"])) {
        Outcome::Stderr { text, code } => {
            assert_eq!(text, "unknown command \"version\" for \"mu\"\n");
            assert_eq!(code, 1);
        }
        _ => panic!("expected Stderr"),
    }
}

#[test]
fn unknown_command_foo() {
    match parse(&args(&["foo"])) {
        Outcome::Stderr { text, code } => {
            assert_eq!(text, "unknown command \"foo\" for \"mu\"\n");
            assert_eq!(code, 1);
        }
        _ => panic!("expected Stderr"),
    }
}

#[test]
fn unknown_flag_at_root() {
    match parse(&args(&["--bogus"])) {
        Outcome::Stderr { text, code } => {
            assert_eq!(text, "unknown flag: --bogus\n");
            assert_eq!(code, 1);
        }
        _ => panic!("expected Stderr"),
    }
}

#[test]
fn unknown_flag_on_subcommand() {
    match parse(&args(&["status", "--bogus"])) {
        Outcome::Stderr { text, code } => {
            assert_eq!(text, "unknown flag: --bogus\n");
            assert_eq!(code, 1);
        }
        _ => panic!("expected Stderr"),
    }
}

#[test]
fn missing_flag_value() {
    match parse(&args(&["clean", "--include"])) {
        Outcome::Stderr { text, code } => {
            assert_eq!(text, "flag needs an argument: --include\n");
            assert_eq!(code, 1);
        }
        _ => panic!("expected Stderr"),
    }
}

#[test]
fn positional_args_ignored() {
    match parse(&args(&["status", "foo"])) {
        Outcome::Run { cmd, .. } => match cmd {
            Command::Status { json } => assert!(!json),
            _ => panic!("expected Status"),
        },
        _ => panic!("expected Run"),
    }
}

#[test]
fn clean_positional_ignored() {
    match parse(&args(&["clean", "extra", "args", "--dry-run"])) {
        Outcome::Run { cmd, .. } => match cmd {
            Command::Clean { dry_run, .. } => assert!(dry_run),
            _ => panic!("expected Clean"),
        },
        _ => panic!("expected Run"),
    }
}

#[test]
fn help_root() {
    match parse(&args(&["--help"])) {
        Outcome::Stdout(t) => assert_eq!(t, ROOT_HELP),
        _ => panic!("expected Stdout"),
    }
}

#[test]
fn help_short() {
    match parse(&args(&["-h"])) {
        Outcome::Stdout(t) => assert_eq!(t, ROOT_HELP),
        _ => panic!("expected Stdout"),
    }
}

#[test]
fn help_command() {
    match parse(&args(&["help"])) {
        Outcome::Stdout(t) => assert_eq!(t, ROOT_HELP),
        _ => panic!("expected Stdout"),
    }
}

#[test]
fn help_subcommand() {
    match parse(&args(&["help", "status"])) {
        Outcome::Stdout(t) => assert_eq!(t, STATUS_HELP),
        _ => panic!("expected Stdout"),
    }
}

#[test]
fn help_subcommand_via_flag() {
    match parse(&args(&["status", "--help"])) {
        Outcome::Stdout(t) => assert_eq!(t, STATUS_HELP),
        _ => panic!("expected Stdout"),
    }
}

#[test]
fn help_bogus() {
    match parse(&args(&["help", "bogus"])) {
        Outcome::Stderr { text, code } => {
            assert_eq!(code, 0);
            assert!(text.starts_with("Unknown help topic [`bogus`]"));
            assert!(text.contains(ROOT_USAGE));
        }
        _ => panic!("expected Stderr"),
    }
}

#[test]
fn completion_no_arg() {
    match parse(&args(&["completion"])) {
        Outcome::Stdout(t) => assert_eq!(t, COMPLETION_HELP),
        _ => panic!("expected Stdout"),
    }
}

#[test]
fn completion_bogus() {
    match parse(&args(&["completion", "xyz"])) {
        Outcome::Stdout(t) => assert_eq!(t, COMPLETION_HELP),
        _ => panic!("expected Stdout"),
    }
}

#[test]
fn completion_bash() {
    match parse(&args(&["completion", "bash"])) {
        Outcome::Stdout(t) => assert!(t.contains("# bash completion for mu")),
        _ => panic!("expected Stdout"),
    }
}

#[test]
fn no_args_tui() {
    match parse(&[]) {
        Outcome::Tui { .. } => {}
        _ => panic!("expected Tui"),
    }
}

#[test]
fn debug_before_subcommand() {
    match parse(&args(&["--debug", "status"])) {
        Outcome::Run { debug, .. } => assert!(debug),
        _ => panic!("expected Run"),
    }
}

#[test]
fn debug_after_subcommand() {
    match parse(&args(&["status", "--debug"])) {
        Outcome::Run { debug, .. } => assert!(debug),
        _ => panic!("expected Run"),
    }
}

#[test]
fn debug_eq_true_at_root() {
    match parse(&args(&["--debug=true", "status"])) {
        Outcome::Run { debug, .. } => assert!(debug),
        _ => panic!("expected Run"),
    }
}

#[test]
fn debug_eq_false_at_root() {
    match parse(&args(&["--debug=false", "status"])) {
        Outcome::Run { debug, .. } => assert!(!debug),
        _ => panic!("expected Run"),
    }
}

#[test]
fn bool_flag_eq_false_on_subcommand() {
    match parse(&args(&["clean", "--dry-run=false"])) {
        Outcome::Run { cmd, .. } => match cmd {
            Command::Clean { dry_run, .. } => assert!(!dry_run),
            _ => panic!("expected Clean"),
        },
        _ => panic!("expected Run"),
    }
}

#[test]
fn bool_flag_eq_true_on_subcommand() {
    match parse(&args(&["clean", "--dry-run=true"])) {
        Outcome::Run { cmd, .. } => match cmd {
            Command::Clean { dry_run, .. } => assert!(dry_run),
            _ => panic!("expected Clean"),
        },
        _ => panic!("expected Run"),
    }
}

#[test]
fn bool_flag_invalid_value_errors() {
    // Oracle: `invalid argument "x" for "--dry-run" flag:
    // strconv.ParseBool: parsing "x": invalid syntax`, exit 1.
    match parse(&args(&["clean", "--dry-run=x"])) {
        Outcome::Stderr { text, code } => {
            assert_eq!(code, 1);
            assert_eq!(
                text,
                "invalid argument \"x\" for \"--dry-run\" flag: strconv.ParseBool: parsing \"x\": invalid syntax\n"
            );
        }
        _ => panic!("expected Stderr"),
    }
    // Shorthand-bearing flags print `-y, --yes`.
    match parse(&args(&["clean", "--yes=x"])) {
        Outcome::Stderr { text, code } => {
            assert_eq!(code, 1);
            assert!(text.contains("\"-y, --yes\""), "{text}");
        }
        _ => panic!("expected Stderr"),
    }
    // Root --debug=x errors the same way.
    match parse(&args(&["--debug=x", "status"])) {
        Outcome::Stderr { text, code } => {
            assert_eq!(code, 1);
            assert!(text.contains("\"--debug\""), "{text}");
        }
        _ => panic!("expected Stderr"),
    }
    // Full ParseBool set accepted.
    match parse(&args(&["clean", "--dry-run=t"])) {
        Outcome::Run { cmd, .. } => match cmd {
            Command::Clean { dry_run, .. } => assert!(dry_run),
            _ => panic!("expected Clean"),
        },
        _ => panic!("expected Run"),
    }
    match parse(&args(&["clean", "--dry-run=F"])) {
        Outcome::Run { cmd, .. } => match cmd {
            Command::Clean { dry_run, .. } => assert!(!dry_run),
            _ => panic!("expected Clean"),
        },
        _ => panic!("expected Run"),
    }
}

#[test]
fn debug_eq_after_subcommand() {
    match parse(&args(&["status", "--debug=false"])) {
        Outcome::Run { debug, .. } => assert!(!debug),
        _ => panic!("expected Run"),
    }
    match parse(&args(&["status", "--debug=true"])) {
        Outcome::Run { debug, .. } => assert!(debug),
        _ => panic!("expected Run"),
    }
    match parse(&args(&["status", "--debug=x"])) {
        Outcome::Stderr { code, .. } => assert_eq!(code, 1),
        _ => panic!("expected Stderr"),
    }
}

#[test]
fn dashdash_root_is_positional_not_subcommand() {
    // Cobra: `--` terminates flag parsing — trailing tokens are
    // POSITIONAL args to root, never resolved as subcommands.
    // `mu -- status` runs the root TUI, not the status command.
    match parse(&args(&["--", "status"])) {
        Outcome::Tui { debug } => assert!(!debug),
        _ => panic!("expected Tui"),
    }
    match parse(&args(&["--"])) {
        Outcome::Tui { .. } => {}
        _ => panic!("expected Tui"),
    }
    match parse(&args(&["--debug", "--", "status"])) {
        Outcome::Tui { debug } => assert!(debug),
        _ => panic!("expected Tui"),
    }
    // Subcommand-level `--` still breaks flag parsing normally.
    match parse(&args(&["clean", "--", "--dry-run"])) {
        Outcome::Run { cmd, .. } => match cmd {
            Command::Clean { dry_run, .. } => assert!(!dry_run),
            _ => panic!("expected Clean"),
        },
        _ => panic!("expected Run"),
    }
}

#[test]
fn help_debug_eq_value() {
    match parse(&args(&["help", "--debug=false"])) {
        Outcome::Stdout(t) => assert_eq!(t, ROOT_HELP),
        _ => panic!("expected Stdout"),
    }
    match parse(&args(&["help", "--debug=x"])) {
        Outcome::Stderr { code, .. } => assert_eq!(code, 1),
        _ => panic!("expected Stderr"),
    }
}

#[test]
fn unregistered_root_flags_eat_next_token() {
    // stripFlags: `--version`/`-h`/`--bogus` are NOT registered at Find
    // time → they consume the next token as a "value", so `status` is
    // never resolved — root executes and its flagset parses everything.
    match parse(&args(&["--version", "status"])) {
        Outcome::Stdout(t) => assert!(t.starts_with("mu version "), "{t}"),
        _ => panic!("expected Stdout"),
    }
    match parse(&args(&["-h", "status"])) {
        Outcome::Stdout(t) => assert_eq!(t, ROOT_HELP),
        _ => panic!("expected Stdout"),
    }
    match parse(&args(&["--bogus", "status"])) {
        Outcome::Stderr { text, code } => {
            assert_eq!(code, 1);
            assert_eq!(text, "unknown flag: --bogus\n");
        }
        _ => panic!("expected Stderr"),
    }
}

#[test]
fn flag_errors_beat_help_and_version() {
    match parse(&args(&["--version", "--bogus"])) {
        Outcome::Stderr { text, code } => {
            assert_eq!(code, 1);
            assert_eq!(text, "unknown flag: --bogus\n");
        }
        _ => panic!("expected Stderr"),
    }
    match parse(&args(&["status", "--help", "--bogus"])) {
        Outcome::Stderr { code, .. } => assert_eq!(code, 1),
        _ => panic!("expected Stderr"),
    }
    match parse(&args(&["status", "-hj"])) {
        Outcome::Stderr { text, code } => {
            assert_eq!(code, 1);
            assert_eq!(text, "unknown shorthand flag: 'j' in -j\n");
        }
        _ => panic!("expected Stderr"),
    }
}

#[test]
fn help_beats_version() {
    match parse(&args(&["-vh"])) {
        Outcome::Stdout(t) => assert_eq!(t, ROOT_HELP),
        _ => panic!("expected Stdout"),
    }
    match parse(&args(&["-hv"])) {
        Outcome::Stdout(t) => assert_eq!(t, ROOT_HELP),
        _ => panic!("expected Stdout"),
    }
    match parse(&args(&["--version", "--help"])) {
        Outcome::Stdout(t) => assert_eq!(t, ROOT_HELP),
        _ => panic!("expected Stdout"),
    }
}

#[test]
fn unknown_command_suggestions() {
    match parse(&args(&["clea"])) {
        Outcome::Stderr { text, code } => {
            assert_eq!(code, 1);
            assert_eq!(
                text,
                "unknown command \"clea\" for \"mu\"\n\nDid you mean this?\n\tclean\n\n"
            );
        }
        _ => panic!("expected Stderr"),
    }
    // Multiple matches keep "Did you mean this?" + AddCommand order.
    match parse(&args(&["c"])) {
        Outcome::Stderr { text, .. } => {
            assert!(text.contains("\tclean\n\tcompletion\n"), "{text}");
        }
        _ => panic!("expected Stderr"),
    }
    // `help` is lazily registered — never suggested.
    match parse(&args(&["hlp"])) {
        Outcome::Stderr { text, .. } => {
            assert!(!text.contains("Did you mean"), "{text}");
        }
        _ => panic!("expected Stderr"),
    }
}

#[test]
fn dash_and_empty_arg_handling() {
    // `-` is a flag token → `status` still resolves as the command.
    match parse(&args(&["-", "status"])) {
        Outcome::Run { cmd, .. } => match cmd {
            Command::Status { .. } => {}
            _ => panic!("expected Status"),
        },
        _ => panic!("expected Run"),
    }
    // `""` is dropped entirely — `status` resolves through it.
    match parse(&args(&["", "status"])) {
        Outcome::Run { .. } => {}
        _ => panic!("expected Run"),
    }
    // Bare `-` → root TUI.
    match parse(&args(&["-"])) {
        Outcome::Tui { .. } => {}
        _ => panic!("expected Tui"),
    }
}

#[test]
fn bad_flag_syntax_and_eq_errors() {
    for arg in ["---x", "--=x"] {
        match parse(&args(&[arg])) {
            Outcome::Stderr { text, code } => {
                assert_eq!(code, 1);
                assert_eq!(text, format!("bad flag syntax: {arg}\n"));
            }
            _ => panic!("expected Stderr for {arg}"),
        }
    }
    // Unknown-flag messages strip the `=value`.
    match parse(&args(&["--bogus=x"])) {
        Outcome::Stderr { text, .. } => assert_eq!(text, "unknown flag: --bogus\n"),
        _ => panic!("expected Stderr"),
    }
    match parse(&args(&["status", "--bogus=x"])) {
        Outcome::Stderr { text, .. } => assert_eq!(text, "unknown flag: --bogus\n"),
        _ => panic!("expected Stderr"),
    }
}

#[test]
fn shorthand_bool_eq_value() {
    match parse(&args(&["clean", "-y=false", "--dry-run"])) {
        Outcome::Run { cmd, .. } => match cmd {
            Command::Clean { dry_run, yes, .. } => {
                assert!(dry_run);
                assert!(!yes);
            }
            _ => panic!("expected Clean"),
        },
        _ => panic!("expected Run"),
    }
    // `-y=` alone: `=` becomes the next shorthand char → unknown.
    match parse(&args(&["clean", "-y="])) {
        Outcome::Stderr { text, code } => {
            assert_eq!(code, 1);
            assert_eq!(text, "unknown shorthand flag: '=' in -=\n");
        }
        _ => panic!("expected Stderr"),
    }
    match parse(&args(&["clean", "-y=x"])) {
        Outcome::Stderr { text, code } => {
            assert_eq!(code, 1);
            assert!(text.contains("\"-y, --yes\""), "{text}");
        }
        _ => panic!("expected Stderr"),
    }
}

#[test]
fn help_and_completion_flag_parsing() {
    match parse(&args(&["help", "--bogus"])) {
        Outcome::Stderr { text, code } => {
            assert_eq!(code, 1);
            assert_eq!(text, "unknown flag: --bogus\n");
        }
        _ => panic!("expected Stderr"),
    }
    match parse(&args(&["completion", "--bogus"])) {
        Outcome::Stderr { code, .. } => assert_eq!(code, 1),
        _ => panic!("expected Stderr"),
    }
    // `help -- status` → `--` ends flags → topic resolves via Find.
    match parse(&args(&["help", "--", "status"])) {
        Outcome::Stdout(t) => assert_eq!(t, STATUS_HELP),
        _ => panic!("expected Stdout"),
    }
    // Extra positional on a shell subcommand → NoArgs error.
    match parse(&args(&["completion", "bash", "extra"])) {
        Outcome::Stderr { text, code } => {
            assert_eq!(code, 1);
            assert_eq!(
                text,
                "unknown command \"extra\" for \"mu completion bash\"\n"
            );
        }
        _ => panic!("expected Stderr"),
    }
    // Non-shell topic → parent's own help.
    match parse(&args(&["completion", "bogus"])) {
        Outcome::Stdout(t) => assert_eq!(t, COMPLETION_HELP),
        _ => panic!("expected Stdout"),
    }
}

#[test]
fn help_multi_topic_and_nested_resolution() {
    match parse(&args(&["help", "bogus", "extra"])) {
        Outcome::Stderr { text, code } => {
            assert_eq!(code, 0);
            assert!(
                text.starts_with("Unknown help topic [`bogus` `extra`]"),
                "{text}"
            );
        }
        _ => panic!("expected Stderr"),
    }
    // `help completion bash` resolves the shell's own help.
    match parse(&args(&["help", "completion", "bash"])) {
        Outcome::Stdout(t) => assert_eq!(t, COMPLETION_BASH_HELP),
        _ => panic!("expected Stdout"),
    }
    match parse(&args(&["completion", "bash", "-h"])) {
        Outcome::Stdout(t) => assert_eq!(t, COMPLETION_BASH_HELP),
        _ => panic!("expected Stdout"),
    }
}

#[test]
fn help_help_flag() {
    // `mu help --help` → help command's own help (not root help).
    match parse(&args(&["help", "--help"])) {
        Outcome::Stdout(t) => assert_eq!(t, HELP_HELP),
        _ => panic!("expected Stdout"),
    }
}

#[test]
fn help_help_topic() {
    // `mu help help` → help command's own help.
    match parse(&args(&["help", "help"])) {
        Outcome::Stdout(t) => assert_eq!(t, HELP_HELP),
        _ => panic!("expected Stdout"),
    }
}

#[test]
fn include_comma_split() {
    match parse(&args(&["clean", "--include=browser-cache,docker"])) {
        Outcome::Run { cmd, .. } => match cmd {
            Command::Clean { include_ids, .. } => {
                assert_eq!(include_ids, vec!["browser-cache", "docker"]);
            }
            _ => panic!("expected Clean"),
        },
        _ => panic!("expected Run"),
    }
}

#[test]
fn yes_short_flag() {
    match parse(&args(&["clean", "-y"])) {
        Outcome::Run { cmd, .. } => match cmd {
            Command::Clean { yes, .. } => assert!(yes),
            _ => panic!("expected Clean"),
        },
        _ => panic!("expected Run"),
    }
}

#[test]
fn golden_root_help_byte_exact() {
    assert_eq!(ROOT_HELP, EXPECTED_ROOT_HELP);
}

#[test]
fn golden_audit_help_byte_exact() {
    assert_eq!(AUDIT_HELP, EXPECTED_AUDIT_HELP);
}

#[test]
fn golden_clean_help_byte_exact() {
    assert_eq!(CLEAN_HELP, EXPECTED_CLEAN_HELP);
}

#[test]
fn golden_optimize_help_byte_exact() {
    assert_eq!(
        OPTIMIZE_HELP,
        EXPECTED_OPTIMIZE_HELP
    );
}

#[test]
fn golden_status_help_byte_exact() {
    assert_eq!(STATUS_HELP, EXPECTED_STATUS_HELP);
}

#[test]
fn golden_uninstall_help_byte_exact() {
    assert_eq!(
        UNINSTALL_HELP,
        EXPECTED_UNINSTALL_HELP
    );
}
