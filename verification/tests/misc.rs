use mu::config::{CacheSkip, OptimizeSkip, ProtectedPaths, Whitelist, merge_whitelist};
use mu::error::Error;
use mu::glob::glob_match;
use mu::oplog::{local_stamp, log_line, rfc3339_text};
use mu::optimize::{
    Step, StepStatus, all_steps, execute_steps, plan_lines, resolve_skip, step_errors, step_ids, step_skipped, summary,
};
use mu::paths::{check_cleanup_candidate, check_cleanup_root, check_root_not_home, is_protected, path_contains};
use mu::runtext::Run;
use mu::size::{human_kb, human_size};
use mu::trash::{mount_point_in, percent_encode_path, trash_info_text, unescape_mount};

fn step(id: &str) -> Step {
    Step { id: id.to_string(), desc: id.to_string() }
}

#[test]
fn glob_match_basics() {
    assert_eq!(glob_match("go-build", "go-build"), Ok(true));
    assert_eq!(glob_match("go-*", "go-build"), Ok(true));
    assert_eq!(glob_match("*", "a/b"), Ok(false));
    assert_eq!(glob_match("*/startupCache", "ff/startupCache"), Ok(true));
    assert_eq!(glob_match("mozilla/*/startupCache", "mozilla/a/startupCache"), Ok(true));
    assert_eq!(glob_match("Session*", "Session Restore"), Ok(true));
    assert_eq!(glob_match("[abc]", "b"), Ok(true));
    assert_eq!(glob_match("[!abc]", "d"), Ok(false));
    assert_eq!(glob_match("[!abc]", "!"), Ok(true));
    assert_eq!(glob_match("[^abc]", "d"), Ok(true));
    assert_eq!(glob_match("[a-]", "-"), Err(()));
    assert_eq!(glob_match("[a\\-c]", "-"), Ok(true));
    assert_eq!(glob_match("[abc", "x"), Err(()));
    assert_eq!(glob_match("a\\", "a"), Err(()));
}

#[test]
fn step_ids_match_go_order() {
    assert_eq!(step_ids(), vec!["apt", "journal", "caches"]);
}

#[test]
fn executor_records_failed_and_successful_steps() {
    let steps = vec![step("bad"), step("good")];
    let (results, reports) = execute_steps(&steps, &Vec::new(), |k: usize| {
        if k == 0 {
            (Err(Error::Msg("blocked".to_string())), Vec::new())
        } else {
            (Ok(()), Vec::new())
        }
    });
    assert_eq!(results.len(), 2);
    assert_eq!(results[0].status, StepStatus::Failed);
    assert_eq!(results[1].status, StepStatus::Success);
    let text: String = reports.iter().filter_map(|r| r.failed_line.clone()).collect::<Vec<_>>().join("\n");
    assert!(text.contains("failed: bad: blocked"), "failed line missing: {text:?}");
    let err = step_errors(&results).expect_err("expected aggregate error");
    assert!(err.message().contains("blocked"), "got {}", err.message());
    assert_eq!(err.message(), "optimize step bad: blocked");
}

#[test]
fn executor_records_skipped_step() {
    let steps = vec![step("apt")];
    let (results, _) = execute_steps(&steps, &vec!["apt".to_string()], |_k: usize| -> (Result<(), Error>, Vec<u8>) {
        panic!("skipped step must not run")
    });
    assert_eq!(results[0].status, StepStatus::Skipped);
}

#[test]
fn is_protected_system_paths() {
    let cases: &[(&str, bool)] = &[
        ("/", true),
        ("/boot", true),
        ("/boot/grub/grub.cfg", true),
        ("/etc", true),
        ("/etc/ssh/sshd_config", true),
        ("/usr", true),
        ("/usr/bin/ls", true),
        ("/proc/1/cmdline", true),
        ("/sys/class/net", true),
        ("/tmp/mu-test", false),
        ("/home/user/.cache/foo", false),
        ("/var/cache/apt", false),
        ("/run/docker.sock", true),
    ];
    for (path, want) in cases {
        assert_eq!(is_protected(path), *want, "is_protected({path:?})");
    }
}

#[test]
fn path_contains_semantics() {
    assert!(path_contains("/a", "/a/b"));
    assert!(path_contains("/a", "/a/b/c"));
    assert!(!path_contains("/a", "/a"));
    assert!(!path_contains("/a", "/ab"));
    assert!(!path_contains("/a/b", "/a"));
    assert!(!path_contains("/a", "/a/../b"));
}

#[test]
fn human_size_formatting() {
    assert_eq!(human_size(1024), "1.0 KB");
    assert_eq!(human_kb(1024), "1.0 MB");
    assert_eq!(human_kb(1024 * 1024), "1.0 GB");
    assert_eq!(human_size(202_498_651), "193.1 MB");
    assert_eq!(human_size(1_395_864_371), "1.3 GB");
    assert_eq!(human_size(2_738_284), "2.6 MB");
    assert_eq!(human_size(512), "512 B");
    assert_eq!(human_size(0), "0 B");
}

#[test]
fn run_plain_rendering() {
    let mut r = Run::new();
    r.section("Scanning system");
    r.line(&format!("{:<40} {}", "User cache", "1.2 GB"));
    r.faint("This is a DRY RUN");
    r.summary("Potential space to free: 1.2 GB");
    r.spinner("Cleaning User cache", || Ok(())).unwrap();
    let out = r.text();
    let want = format!(
        "\n  Scanning system\n  {:<40} 1.2 GB\n  This is a DRY RUN\n\n  Potential space to free: 1.2 GB\n  Cleaning User cache...\n",
        "User cache"
    );
    assert_eq!(out, want);
    assert!(!out.contains('\x1b'), "unexpected ANSI in {out:?}");
}

#[test]
fn run_spinner_runs_fn() {
    let mut ran = false;
    let mut r = Run::new();
    r.spinner("Working", || -> Result<(), Error> {
        ran = true;
        Ok(())
    })
    .expect("spinner returned unexpected error");
    assert!(ran, "spinner did not run the work function");
    assert_eq!(r.text(), "  Working...\n");
}

#[test]
fn run_spinner_propagates_error() {
    let mut r = Run::new();
    let got = r.spinner("Working", || -> Result<(), Error> { Err(Error::Msg("boom".to_string())) });
    assert_eq!(got.unwrap_err().message(), "boom");
}

#[test]
fn percent_encoding_matches_path_escape() {
    assert_eq!(percent_encode_path(b"/home/u/a b.txt"), "%2Fhome%2Fu%2Fa%20b.txt");
    assert_eq!(percent_encode_path(b"A-z_0.~$&+:=@"), "A-z_0.~$&+:=@");
    assert_eq!(percent_encode_path(&[0xff, b'\\']), "%FF%5C");
}

#[test]
fn unescape_mount_replaces_in_turn() {
    assert_eq!(unescape_mount("/mnt/a\\040b"), "/mnt/a b");
    assert_eq!(unescape_mount("\\134040"), "\\040");
}

#[test]
fn mount_point_is_longest_holder() {
    let info = "36 25 8:1 / / rw - ext4 /dev/root rw\n\
                37 25 8:2 / /home rw - ext4 /dev/home rw\n\
                38 25 8:3 / /home/u/my\\040disk rw - ext4 /dev/d rw\n\
                short line\n";
    assert_eq!(mount_point_in(info, "/home/u/file").unwrap(), "/home");
    assert_eq!(mount_point_in(info, "/home/u/my disk/x").unwrap(), "/home/u/my disk");
    assert_eq!(mount_point_in(info, "/etc/passwd").unwrap(), "/");
    assert_eq!(mount_point_in("", "/x").unwrap_err().message(), "no mount point found for /x");
}

#[test]
fn rfc3339_format_shape() {
    let s = rfc3339_text(2026, 9, 15, 7, 31, 45, 7 * 3600);
    assert_eq!(s, "2026-09-15T07:31:45+07:00");
    assert!(s.len() >= 20, "unexpected stamp {s:?}");
    assert!(s.contains('T'));
    assert_eq!(rfc3339_text(2026, 1, 2, 3, 4, 5, 0), "2026-01-02T03:04:05Z");
    assert_eq!(rfc3339_text(2026, 1, 2, 3, 4, 5, -(5 * 3600 + 30 * 60)), "2026-01-02T03:04:05-05:30");
    assert_eq!(local_stamp(2026, 1, 2, 3, 4, 5), "2026-01-02T03:04:05");
}

#[test]
fn log_line_aligns_columns() {
    assert_eq!(log_line("T", "clean", "success", "user-cache"), "T  clean         success   user-cache\n");
}

fn err_text<T: std::fmt::Debug>(r: Result<T, Error>) -> String {
    match r {
        Err(e) => e.message(),
        Ok(v) => panic!("expected an error, got {v:?}"),
    }
}

#[test]
fn cleanup_root_must_be_absolute_and_unprotected() {
    assert_eq!(err_text(check_cleanup_root("relative/dir")), "cleanup root must be absolute: \"relative/dir\"");
    assert_eq!(err_text(check_cleanup_root("")), "cleanup root must be absolute: \"\"");
    assert_eq!(err_text(check_cleanup_root("/")), "unsafe cleanup root: /");
    assert_eq!(err_text(check_cleanup_root("/usr/../")), "unsafe cleanup root: /");
    assert!(check_cleanup_root("/etc").is_err());
    assert_eq!(check_cleanup_root("/home/u/.cache/").unwrap(), "/home/u/.cache");
}

#[test]
fn cleanup_root_must_not_hold_home() {
    assert!(check_root_not_home("/home/u/.cache", "/home/u").is_ok());
    assert_eq!(
        err_text(check_root_not_home("/home/u", "/home/u/")),
        "cleanup root must not be home or its ancestor: /home/u"
    );
    assert_eq!(
        err_text(check_root_not_home("/home", "/home/u")),
        "cleanup root must not be home or its ancestor: /home"
    );
    assert_eq!(err_text(check_root_not_home("/home/u/.cache", "")), "resolve home directory: HOME is not set");
}

#[test]
fn cleanup_candidate_stays_inside_root() {
    assert_eq!(check_cleanup_candidate("/home/u/.cache", "/home/u/.cache/pip/").unwrap(), "/home/u/.cache/pip");
    assert_eq!(
        err_text(check_cleanup_candidate("/home/u/.cache", "/home/u/.cache/../.ssh")),
        "cleanup candidate /home/u/.ssh is outside root /home/u/.cache"
    );
    assert_eq!(
        err_text(check_cleanup_candidate("/home/u/.cache", "/home/u/.cache")),
        "cleanup candidate /home/u/.cache is outside root /home/u/.cache"
    );
    assert_eq!(err_text(check_cleanup_candidate("/home/u/.cache", "pip")), "cleanup candidate must be absolute: \"pip\"");
}

#[test]
fn trash_info_text_encodes_path() {
    assert_eq!(
        trash_info_text(b"/tmp/a b", "2024-01-02T03:04:05"),
        "[Trash Info]\nPath=%2Ftmp%2Fa%20b\nDeletionDate=2024-01-02T03:04:05\n"
    );
}

#[test]
fn protected_locations_are_never_cleanup_roots() {
    for root in ["/", "/boot", "/etc/", "/usr/share", "/lib64/x/..", "/proc/1", "/sys", "/dev/shm", "/run/user"] {
        assert!(check_cleanup_root(root).is_err(), "{root} must be refused");
    }
    assert!(check_cleanup_root("/home/u/.cache").is_ok());
}

#[test]
fn run_error_messages() {
    let nf = mu::runner::RunError::NotFound("snap".to_string());
    assert_eq!(nf.message(), "exec: \"snap\": executable file not found in $PATH");
    let sp = mu::runner::RunError::Spawn("permission denied".to_string());
    assert_eq!(sp.message(), "failed to start command: permission denied");
    let out = mu::runner::Output { exit_code: 100, ..Default::default() };
    assert_eq!(mu::runner::RunError::Failed(out).message(), "exit status 100");
    let killed = mu::runner::Output { exit_code: -1, signal: Some(9), ..Default::default() };
    assert_eq!(mu::runner::RunError::Failed(killed).message(), "signal: killed");
    let t = mu::runner::RunError::Timeout(
        mu::runner::Elapsed::from_parts(30, 0).unwrap(),
        mu::runner::Output::default(),
    );
    assert_eq!(t.message(), "command timed out after 30s");
    let t = mu::runner::RunError::Timeout(
        mu::runner::Elapsed::from_parts(1, 500_000_000).unwrap(),
        mu::runner::Output::default(),
    );
    assert_eq!(t.message(), "command timed out after 1.5s");
    let t = mu::runner::RunError::Timeout(
        mu::runner::Elapsed::from_parts(0, 200_000_000).unwrap(),
        mu::runner::Output::default(),
    );
    assert_eq!(t.message(), "command timed out after 200ms");
    assert!(mu::runner::Elapsed::from_parts(1, 1_000_000_000).is_none());
}

#[test]
fn exit_signals_read_by_name() {
    let term = mu::runner::Output { exit_code: -1, signal: Some(15), ..Default::default() };
    assert_eq!(mu::runner::describe_exit(&term), "signal: terminated");
    let hup = mu::runner::Output { exit_code: -1, signal: Some(1), ..Default::default() };
    assert_eq!(mu::runner::describe_exit(&hup), "signal: hangup");
    let sys = mu::runner::Output { exit_code: -1, signal: Some(31), ..Default::default() };
    assert_eq!(mu::runner::describe_exit(&sys), "signal: bad system call");
    let odd = mu::runner::Output { exit_code: -1, signal: Some(99), ..Default::default() };
    assert_eq!(mu::runner::describe_exit(&odd), "signal: unknown signal");
    let none = mu::runner::Output { exit_code: -1, signal: None, ..Default::default() };
    assert_eq!(mu::runner::describe_exit(&none), "signal: unknown signal");
    assert_eq!(mu::runner::exit_signal_name(Some(0)), "unknown signal");
    assert_eq!(mu::runner::exit_signal_name(Some(2)), "interrupt");
    assert_eq!(mu::runner::describe_exit(&mu::runner::Output::default()), "exit status 0");
}

fn strings(v: &[&str]) -> Vec<String> {
    v.iter().map(|s| s.to_string()).collect()
}

#[test]
fn run_rejects_unknown_skip() {
    let err = resolve_skip(&strings(&["unknown"]), &Vec::new()).expect_err("expected unknown skip error");
    assert!(err.message().contains("unknown optimize skip ID"), "got {}", err.message());
    let err = resolve_skip(&Vec::new(), &strings(&["bogus"])).expect_err("configured ids are checked too");
    assert_eq!(err.message(), "unknown optimize skip ID: bogus");
    assert_eq!(resolve_skip(&strings(&["caches"]), &strings(&["apt", "caches"])).unwrap(), strings(&["caches", "apt"]));
}

#[test]
fn run_step_unknown() {
    let err = step_skipped(&all_steps(), "nope", &Vec::new(), &Vec::new()).expect_err("expected error for unknown step");
    assert!(err.message().contains("unknown optimize step"), "got {}", err.message());
    assert_eq!(err.message(), "unknown optimize step: nope");
}

#[test]
fn run_step_skips_configured_step() {
    assert!(step_skipped(&all_steps(), "apt", &Vec::new(), &strings(&["apt"])).expect("RunStep"));
    assert!(!step_skipped(&all_steps(), "journal", &Vec::new(), &strings(&["apt"])).expect("RunStep"));
    assert!(step_skipped(&all_steps(), "apt", &Vec::new(), &strings(&["bogus"])).is_err(), "an invalid policy fails closed");
}

#[test]
fn run_all_skipped_completes() {
    let steps = all_steps();
    let skip = resolve_skip(&strings(&["apt", "journal", "caches"]), &Vec::new()).unwrap();
    let ran = std::cell::Cell::new(0);
    let (results, _) = execute_steps(&steps, &skip, |_k: usize| {
        ran.set(ran.get() + 1);
        (Ok(()), Vec::new())
    });
    assert_eq!(summary(&results), "Optimization complete — 0 succeeded, 0 failed, 3 skipped");
    assert_eq!(ran.get(), 0, "skipped steps must not run");
}

#[test]
fn run_returns_error_after_independent_step_failure() {
    let steps = all_steps();
    let skip = resolve_skip(&strings(&["apt", "journal"]), &Vec::new()).unwrap();
    let (results, reports) = execute_steps(&steps, &skip, |_k: usize| {
        (Err(Error::Msg("cache refresh failed".to_string())), b"some output\n".to_vec())
    });
    let err = step_errors(&results).expect_err("expected optimize failure");
    assert!(err.message().contains("cache refresh failed"), "got {}", err.message());
    assert_eq!(err.message(), "optimize step caches: cache refresh failed");
    assert_eq!(reports[2].failed_line.as_deref(), Some("failed: caches: cache refresh failed"));
    assert_eq!(reports[2].output, b"some output".to_vec(), "trailing newlines are dropped");
}

#[test]
fn run_dry_run_prints_plan_and_executes_nothing() {
    let skip = resolve_skip(&strings(&["journal"]), &Vec::new()).unwrap();
    let plan = plan_lines(&all_steps(), &skip);
    let text = format!("\n  Optimize plan\n{}\n  Dry run — nothing executed.\n", plan.join("\n"));
    assert_eq!(
        text,
        "\n  Optimize plan\n  [run]   apt-get update && apt-get autoremove --purge\n  [skip]  journalctl --vacuum-size=500M\n  [run]   update icon/mime/font caches\n  Dry run — nothing executed.\n"
    );
}

fn whitelist(system: &[&str], dirs: &[&str], steps: &[&str]) -> Whitelist {
    Whitelist {
        protected_paths: ProtectedPaths { system: strings(system), protect_running_kernel: false },
        cache_skip: CacheSkip { dirs: strings(dirs) },
        optimize_skip: OptimizeSkip { steps: strings(steps) },
    }
}

fn defaults() -> Whitelist {
    let mut w = whitelist(&["/", "/boot", "/etc"], &["go-build"], &[]);
    w.protected_paths.protect_running_kernel = true;
    w
}

#[test]
fn load_whitelist_user_override() {
    let wl = merge_whitelist(defaults(), whitelist(&[], &[], &["apt"])).expect("load with override");
    assert_eq!(wl.optimize_skip.steps, vec!["apt".to_string()]);
    assert!(wl.protected_paths.protect_running_kernel);
    let wl = merge_whitelist(defaults(), whitelist(&["/data"], &["my-app/*"], &[])).expect("additive merge");
    assert_eq!(wl.protected_paths.system, strings(&["/", "/boot", "/etc", "/data"]));
    assert_eq!(wl.cache_skip.dirs, strings(&["go-build", "my-app/*"]));
}

#[test]
fn load_whitelist_rejects_unknown_and_invalid() {
    let err = merge_whitelist(defaults(), whitelist(&["relative"], &[], &[])).expect_err("relative path");
    assert_eq!(err.message(), "protected path must be absolute: \"relative\"");
    let err = merge_whitelist(defaults(), whitelist(&[], &["../outside"], &[])).expect_err("escaping skip");
    assert_eq!(err.message(), "cache_skip pattern must stay relative to the cache root: \"../outside\"");
    let err = merge_whitelist(defaults(), whitelist(&[], &["[abc"], &[])).expect_err("bad glob");
    assert_eq!(err.message(), "invalid cache_skip pattern \"[abc\"");
    assert!(merge_whitelist(defaults(), whitelist(&[], &["/abs"], &[])).is_err());
    assert!(merge_whitelist(defaults(), whitelist(&[], &[" "], &[])).is_err());
}

#[test]
fn mount_point_parsing_and_shared_trash() {
    let info = "22 1 8:1 / / rw,relatime - ext4 /dev/sda1 rw\n\
                30 22 0:20 / /mnt/with\\040space rw - tmpfs tmpfs rw\n\
                31 22 0:21 / /mnt rw - tmpfs tmpfs rw\n";
    // Longest prefix wins.
    assert_eq!(mount_point_in(info, "/mnt/sub/file").unwrap(), "/mnt");
    // \040 decodes to a space.
    assert_eq!(mount_point_in(info, "/mnt/with space/x").unwrap(), "/mnt/with space");
    // /nomount is covered by the root mount.
    assert_eq!(mount_point_in(info, "/nomount").unwrap(), "/");
}

#[test]
fn literal_patterns_match_only_themselves() {
    assert_eq!(glob_match("go-build", "go-build"), Ok(true));
    assert_eq!(glob_match("go-build", "go-builds"), Ok(false));
    assert_eq!(glob_match("a/b", "a/b"), Ok(true));
    assert_eq!(glob_match("", ""), Ok(true));
    assert_eq!(glob_match("", "x"), Ok(false));
}

#[test]
fn slash_free_patterns_never_match_slashes() {
    for p in ["*", "a*", "?/x", "*b", "[a/]b", "\\a*"] {
        if !p.contains('/') {
            for n in ["a/b", "ab/", "/ab", "a//b"] {
                assert_ne!(glob_match(p, n), Ok(true), "{p} {n}");
            }
        }
    }
    assert_eq!(glob_match("a*", "ab"), Ok(true));
}

#[test]
fn command_line_skips_join_the_configured_ones() {
    assert_eq!(step_skipped(&all_steps(), "journal", &strings(&["journal"]), &strings(&["apt"])).ok(), Some(true));
    assert_eq!(step_skipped(&all_steps(), "apt", &strings(&["journal"]), &strings(&["apt"])).ok(), Some(true));
    assert_eq!(step_skipped(&all_steps(), "caches", &strings(&["journal"]), &strings(&["apt"])).ok(), Some(false));
    let err = step_skipped(&all_steps(), "caches", &strings(&["bogus"]), &Vec::new()).expect_err("unknown skip id");
    assert_eq!(err.message(), "unknown optimize skip ID: bogus");
}

#[test]
fn whitelisted_paths_are_refused() {
    let wl = whitelist(&["/", "/srv/data/"], &[], &[]);
    assert!(mu::config::is_whitelisted("/srv/data", &wl));
    assert!(mu::config::is_whitelisted("/srv/./data/x/../y", &wl));
    assert!(!mu::config::is_whitelisted("/srv/datax", &wl));
    assert!(!mu::config::is_whitelisted("/home/u/.cache/x", &wl), "the root protects only itself");
    assert!(mu::config::is_whitelisted("/", &wl));
    assert!(mu::config::is_whitelisted("/etc/passwd", &wl));
    assert!(!mu::config::is_whitelisted("/srv/data", &whitelist(&[], &[], &[])));
}
