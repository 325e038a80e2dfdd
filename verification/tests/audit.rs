use mu::audit::apply::{ApplyResult, StepKind, finish_step, plan_apply};
use mu::audit::findings::{
    Finding, Severity, exit_code_for_report, max_severity, parse_action, recommended_commands, sort_findings,
};
use mu::audit::model::{AuditModel, Cmd, Msg, Phase, new_audit_model};
use mu::audit::scan::{
    BYTES_1_GIB, BYTES_2_GIB, BYTES_500_MIB, Report, Snapshot, TargetSize, build_findings, build_report,
};
use mu::audit::report::human_report;
use mu::audit::{ExitError, Options, validate_options};
use mu::clean::all_targets;
use mu::error::Error;

fn finding(id: &str, severity: Severity, bytes: i64) -> Finding {
    Finding { id: id.to_string(), severity, bytes, ..Finding::default() }
}

fn target(id: &str, label: &str, bytes: i64, opt_in: bool) -> TargetSize {
    TargetSize { id: id.to_string(), label: label.to_string(), bytes, opt_in, requires_sudo: false }
}

/// A snapshot whose free-disk figures come from a measured percentage.
fn with_disk(mut s: Snapshot, pct: f64) -> Snapshot {
    s.disk_free_pct_text = format!("{:.0}", pct);
    s.disk_free_below_10 = pct < 10.0;
    s.disk_free_below_20 = pct < 20.0;
    s
}

fn find<'a>(fs: &'a [Finding], id: &str) -> Option<&'a Finding> {
    fs.iter().find(|f| f.id == id)
}

#[test]
fn sort_findings_orders_by_severity_then_bytes() {
    let mut fs = vec![
        finding("a", Severity::Info, 100),
        finding("b", Severity::Critical, 10),
        finding("c", Severity::Warning, 50),
        finding("d", Severity::Warning, 200),
    ];
    sort_findings(&mut fs);
    assert_eq!(fs[0].id, "b", "expected critical first");
    assert_eq!(fs[1].id, "d", "expected larger warning second");
    assert_eq!(fs[2].id, "c", "expected smaller warning third");
}

#[test]
fn exit_code_for_report_maps_max_severity() {
    assert_eq!(exit_code_for_report(&[]), 0, "empty should be 0");
    assert_eq!(exit_code_for_report(&[finding("x", Severity::Info, 0)]), 0, "info only → 0");
    assert_eq!(exit_code_for_report(&[finding("x", Severity::Warning, 0)]), 1, "warning → 1");
    assert_eq!(exit_code_for_report(&[finding("x", Severity::Critical, 0)]), 2, "critical → 2");
}

#[test]
fn parse_action_splits_kind_and_id() {
    let (k, id) = parse_action("clean:user-cache");
    assert_eq!((k.as_str(), id.as_str()), ("clean", "user-cache"));
    let (k, id) = parse_action("none");
    assert_eq!((k.as_str(), id.as_str()), ("none", ""));
}

#[test]
fn max_severity_picks_highest() {
    assert_eq!(
        max_severity(&[finding("a", Severity::Info, 0), finding("b", Severity::Warning, 0)]),
        Some(Severity::Warning)
    );
}

#[test]
fn exit_error_carries_report_code() {
    let err = ExitError { code: 2 };
    assert_eq!(err.exit_code(), 2, "exit code mapping failed: {}", err.message());
}

#[test]
fn build_findings_large_user_cache() {
    let snap = with_disk(
        Snapshot {
            targets: vec![target("user-cache", "User Cache", 3 * BYTES_2_GIB / 2, false)],
            health: 80,
            ..Snapshot::default()
        },
        50.0,
    );
    let fs = build_findings(&snap, &[]);
    let found = find(&fs, "clean:user-cache").expect("expected clean:user-cache finding");
    assert_eq!(found.severity, Severity::Warning, "severity={:?} want warning", found.severity);
    assert!(found.default_selected, "expected default selected for large non-opt-in cache");
}

#[test]
fn build_findings_browser_opt_in() {
    let snap = with_disk(
        Snapshot {
            targets: vec![target("browser-cache", "Browser", 2 * BYTES_1_GIB, true)],
            health: 80,
            ..Snapshot::default()
        },
        50.0,
    );
    let fs = build_findings(&snap, &[]);
    let found = find(&fs, "clean:browser-cache").expect("expected browser finding");
    assert!(!found.default_selected, "opt-in must not be default selected without --include");
    let fs2 = build_findings(&snap, &["browser-cache".to_string()]);
    let found2 = find(&fs2, "clean:browser-cache").unwrap();
    assert!(found2.default_selected, "expected default selected when --include=browser-cache");
}

#[test]
fn build_findings_disk_critical_selects_clean() {
    let snap = with_disk(
        Snapshot {
            targets: vec![target("thumbnails", "Thumbs", 100 * 1024 * 1024, false)],
            health: 30,
            root_disk_available: true,
            ..Snapshot::default()
        },
        8.0,
    );
    let fs = build_findings(&snap, &[]);
    let disk = find(&fs, "health:disk-root");
    let thumbs = find(&fs, "clean:thumbnails");
    assert!(matches!(disk, Some(d) if d.severity == Severity::Critical), "expected critical disk finding, got {disk:?}");
    assert!(matches!(thumbs, Some(t) if t.default_selected), "expected thumbnails selected under disk pressure, got {thumbs:?}");
}

#[test]
fn build_findings_journal_dedupe() {
    let snap = with_disk(
        Snapshot {
            targets: vec![target("journal-logs", "Journal", 2 * BYTES_1_GIB, false)],
            journal_bytes: 2 * BYTES_1_GIB,
            health: 70,
            ..Snapshot::default()
        },
        40.0,
    );
    let fs = build_findings(&snap, &[]);
    let mut n = 0;
    for f in &fs {
        if f.id == "clean:journal-logs" || f.action == "optimize:journal" {
            n += 1;
            assert_ne!(f.action, "optimize:journal", "should not emit optimize:journal when clean:journal-logs exists");
        }
    }
    assert_eq!(n, 1, "expected exactly 1 journal finding, got {n}");
}

#[test]
fn build_findings_empty_healthy() {
    let snap = with_disk(Snapshot { health: 90, ..Snapshot::default() }, 60.0);
    let fs = build_findings(&snap, &[]);
    for f in &fs {
        assert!(!f.default_selected, "nothing should be default selected on healthy empty system: {}", f.id);
    }
}

#[test]
fn build_report_reclaimable() {
    let snap = with_disk(
        Snapshot {
            targets: vec![target("user-cache", "Cache", BYTES_500_MIB, false)],
            health: 75,
            ..Snapshot::default()
        },
        40.0,
    );
    let rep = build_report(&snap, &[]);
    assert!(rep.reclaimable_bytes >= BYTES_500_MIB, "reclaimable={} want >= {BYTES_500_MIB}", rep.reclaimable_bytes);
    assert!(!rep.recommended_commands.is_empty(), "expected recommended commands");
}

#[test]
fn build_findings_deduplicates_apt_autoremove_action() {
    let snap = with_disk(
        Snapshot {
            targets: vec![target("kernels", "APT Autoremove Candidates", 100, false)],
            apt_autoremove_n: 3,
            health: 80,
            ..Snapshot::default()
        },
        50.0,
    );
    let findings = build_findings(&snap, &[]);
    let mut count = 0;
    for finding in &findings {
        if finding.action == "clean:kernels" || finding.action == "optimize:apt" {
            count += 1;
            assert_eq!(finding.action, "clean:kernels", "non-canonical APT action: {finding:?}");
        }
    }
    assert_eq!(count, 1, "expected one APT action, got {count}: {findings:?}");
}

#[test]
fn build_report_carries_scan_errors_additively() {
    let report = build_report(
        &with_disk(
            Snapshot { health: 50, scan_errors: vec!["disk unavailable".to_string()], ..Snapshot::default() },
            30.0,
        ),
        &[],
    );
    assert_eq!(report.scan_errors, ["disk unavailable"]);
}

#[test]
fn missing_root_disk_does_not_create_critical_finding() {
    let report = build_report(
        &with_disk(
            Snapshot {
                health: 0,
                scan_errors: vec!["disk: root filesystem metric unavailable".to_string()],
                ..Snapshot::default()
            },
            0.0,
        ),
        &[],
    );
    assert_eq!(report.disk_free_pct_text, "0", "disk_free_pct_root={}", report.disk_free_pct_text);
    for finding in &report.findings {
        assert!(
            finding.id != "health:disk-root" && finding.severity != Severity::Critical,
            "missing metric produced false critical finding: {finding:?}"
        );
    }
    let code = exit_code_for_report(&report.findings);
    assert_ne!(code, 2, "missing metric produced critical exit code {code}");
}

#[test]
fn apply_cannot_report_success_by_interrupting_active_maintenance() {
    let mut m = new_audit_model(Options::default());
    m.phase = Phase::Apply;
    let cmd = m.handle_key("ctrl+c");
    assert!(
        cmd == Cmd::Nothing && !m.done && m.status.contains("cannot be interrupted safely"),
        "unexpected interrupt state: done={} status={:?}",
        m.done,
        m.status
    );
    assert!(m.view().contains("waiting for completion"), "active-operation notice missing: {:?}", m.view());
}

#[test]
fn confirm_lines_expose_armed_button() {
    let mut m = new_audit_model(Options::default());
    m.phase = Phase::Confirm;
    let mut tone_of = |confirm: usize| {
        m.confirm = confirm;
        m.view_confirm_lines()
            .iter()
            .flat_map(|l| l.iter())
            .find(|s| s.text.trim() == "YES")
            .map(|s| s.tone)
    };
    assert_ne!(tone_of(0), tone_of(1), "YES button must render differently when armed");
}

// ---------------------------------------------------------------------------
// The wizard, end to end on concrete values.
// ---------------------------------------------------------------------------

fn wizard_report() -> Report {
    let snap = with_disk(
        Snapshot {
            targets: vec![
                target("user-cache", "User Cache", BYTES_2_GIB, false),
                target("browser-cache", "Browser Cache", BYTES_500_MIB, true),
            ],
            health: 80,
            ..Snapshot::default()
        },
        50.0,
    );
    build_report(&snap, &[])
}

fn scanned_model() -> AuditModel {
    let mut m = new_audit_model(Options::default());
    assert_eq!(m.init(), Cmd::Scan);
    let rep = wizard_report();
    let cmd = m.update(Msg::Scanned { snap: Snapshot::default(), rep });
    assert_eq!(cmd, Cmd::Nothing);
    m
}

#[test]
fn wizard_preselects_defaults_and_lands_on_selectable_row() {
    let m = scanned_model();
    assert_eq!(m.phase, Phase::Findings);
    assert!(m.findings[m.cursor].selectable);
    let selected: Vec<String> = m.selected_findings().iter().map(|f| f.id.clone()).collect();
    assert!(selected.iter().any(|id| id == "clean:user-cache"), "{selected:?}");
    assert!(!m.selected_findings().iter().any(|f| f.id == "clean:browser-cache"), "opt-in preselected");
    assert_eq!(m.count_selected(), 1);
    assert_eq!(m.selected_bytes(), BYTES_2_GIB);
}

#[test]
fn wizard_confirm_defaults_to_no_and_yes_applies() {
    let mut m = scanned_model();
    assert_eq!(m.handle_key("enter"), Cmd::Nothing);
    assert_eq!(m.phase, Phase::Confirm);
    assert_eq!(m.confirm, 1, "confirm must default to NO");
    // NO goes back to the findings.
    assert_eq!(m.handle_key("enter"), Cmd::Nothing);
    assert_eq!(m.phase, Phase::Findings);
    m.handle_key("enter");
    m.handle_key("tab");
    assert_eq!(m.confirm, 0);
    assert_eq!(m.handle_key("enter"), Cmd::Apply);
    assert_eq!(m.phase, Phase::Apply);
    assert!(m.applying);
    let before = Report::default();
    let results = vec![ApplyResult {
        finding_id: "clean:user-cache".to_string(),
        action: "clean:user-cache".to_string(),
        err: Some(Error::Msg("boom".to_string())),
        skipped: false,
    }];
    assert_eq!(m.update(Msg::Applied { results, before }), Cmd::Rescore);
    assert_eq!(m.phase, Phase::Rescore);
    assert!(m.view().contains("  ⚠️  1 action(s) had errors.\n"), "{}", m.view());
    assert_eq!(m.handle_key("q"), Cmd::Quit);
    assert!(m.done);
}

#[test]
fn wizard_enter_without_selection_explains() {
    let mut m = scanned_model();
    // Toggle the preselected row off, then try to continue.
    let cur = m.cursor;
    assert!(m.selected[cur]);
    m.handle_key(" ");
    assert!(!m.selected[cur]);
    assert_eq!(m.handle_key("enter"), Cmd::Nothing);
    assert_eq!(m.phase, Phase::Findings);
    assert_eq!(m.status, "Select at least one finding, or q to quit.");
    assert!(m.view().contains("  Select at least one finding, or q to quit.\n"));
}

#[test]
fn wizard_safe_all_toggles_only_safe_findings() {
    let mut m = scanned_model();
    // Not every safe finding is preselected, so the toggle selects them all.
    m.handle_key("a");
    for (i, f) in m.findings.iter().enumerate() {
        if f.selectable && !f.opt_in {
            assert!(m.selected[i], "{} not selected", f.id);
        } else {
            assert!(!m.selected[i], "{} selected", f.id);
        }
    }
    // Now all of them are, so it clears them.
    m.handle_key("a");
    assert_eq!(m.count_selected(), 0);
}

#[test]
fn wizard_findings_screen_text() {
    let mut m = new_audit_model(Options::default());
    m.update(Msg::Scanned { snap: Snapshot::default(), rep: Report::default() });
    assert_eq!(
        m.view(),
        "\n\n  mu audit — findings\n  Health 0/100  •  Disk / 0% free  •  Reclaimable 0 B\n\n  ✅ No issues found.\n\n\n  q to quit\n"
    );
    assert_eq!(m.view_lines().len(), 9);
}

#[test]
fn human_report_lists_findings_and_commands() {
    let mut f1 = finding("clean:user-cache", Severity::Warning, 3 * 1024 * 1024 * 1024);
    f1.title = "User Cache (~/.cache)".to_string();
    f1.detail = "Estimated reclaimable: space under User Cache (~/.cache).".to_string();
    f1.selectable = true;
    f1.default_selected = true;
    let mut f2 = finding("health:ram", Severity::Info, 0);
    f2.title = "Low available memory".to_string();
    let rep = Report {
        health: 55,
        disk_free_pct_text: "18".to_string(),
        reclaimable_bytes: 3 * 1024 * 1024 * 1024,
        findings: vec![f1, f2],
        recommended_commands: vec!["mu clean --dry-run".to_string()],
        warnings: vec![],
        scan_errors: vec!["journal: boom".to_string()],
    };
    let text = human_report(&rep);
    let want = "\n📋 Audit report\n\n  Health score:     55/100\n  Disk / free:      18%\n  Reclaimable:      3.0 GB\n\n  Scan warnings:\n  • journal: boom\n\n  Findings:\n  • warning  User Cache (~/.cache)  3.0 GB [recommended]\n           Estimated reclaimable: space under User Cache (~/.cache).\n  • info     Low available memory [guide]\n\n  Recommended commands:\n    mu clean --dry-run\n\n  Run `mu audit` (interactive) to select and apply fixes.\n\n";
    assert_eq!(text, want);
}

#[test]
fn human_report_without_findings_says_clean() {
    let rep = Report { health: 90, disk_free_pct_text: "70".to_string(), ..Report::default() };
    let text = human_report(&rep);
    assert_eq!(
        text,
        "\n📋 Audit report\n\n  Health score:     90/100\n  Disk / free:      70%\n  Reclaimable:      0 B\n\n  ✅ No issues found. System looks clean.\n\n"
    );
}

#[test]
fn validate_options_rejects_conflicting_and_meaningless_flags() {
    let all = all_targets(false);
    let cases = [
        Options { report: true, json: true, ..Options::default() },
        Options { report: true, dry_run: true, ..Options::default() },
        Options { json: true, dry_run: true, ..Options::default() },
        Options { include_ids: vec!["unknown".to_string()], ..Options::default() },
    ];
    for options in &cases {
        assert!(validate_options(options, &all).is_err(), "expected options rejection: {options:?}");
    }
    assert_eq!(
        validate_options(&cases[0], &all).unwrap_err().message(),
        "--report and --json are mutually exclusive"
    );
    assert_eq!(
        validate_options(&cases[2], &all).unwrap_err().message(),
        "--dry-run is only valid for the interactive audit workflow"
    );
    assert_eq!(validate_options(&cases[3], &all).unwrap_err().message(), "unknown clean include ID: unknown");
    let ok = Options { include_ids: vec!["browser-cache".to_string()], ..Options::default() };
    assert!(validate_options(&ok, &all).is_ok());
}

#[test]
fn apply_deduplicates_identical_actions() {
    let mk = |id: &str| Finding {
        id: id.to_string(),
        title: id.to_string(),
        action: "unknown:same".to_string(),
        selectable: true,
        ..Finding::default()
    };
    let steps = plan_apply(&[mk("first"), mk("second")]);
    assert_eq!(steps.len(), 2);
    assert!(matches!(&steps[0].kind, StepKind::Unknown(k) if k == "unknown"), "got {:?}", steps[0].kind);
    assert!(matches!(steps[1].kind, StepKind::Skip), "duplicate action was not skipped: {:?}", steps[1].kind);
    let first = finish_step(&steps[0], false, Some(mu::audit::apply::unknown_kind_error(&"unknown".to_string())), true);
    let second = finish_step(&steps[1], false, None, true);
    assert!(first.result.err.is_some() && second.result.skipped, "duplicate action was not skipped");
}

#[test]
fn apply_skips_optimize_step_configured_in_policy() {
    let f = Finding {
        id: "optimize:apt".to_string(),
        title: "Unused packages can be removed".to_string(),
        action: "optimize:apt".to_string(),
        selectable: true,
        ..Finding::default()
    };
    let steps = plan_apply(&[f]);
    assert!(matches!(&steps[0].kind, StepKind::Optimize(id) if id == "apt"));
    let skipped =
        mu::optimize::step_skipped(&mu::optimize::all_steps(), "apt", &Vec::new(), &vec!["apt".to_string()]).expect("policy");
    let report = finish_step(&steps[0], skipped, None, false);
    assert!(report.result.skipped, "expected policy-skipped result");
    assert!(report.result.err.is_none());
    assert_eq!(report.line.as_deref(), Some("  ⏭️ Skipped by optimize policy"));
    assert_eq!(report.outcome, "skipped");
}

#[test]
fn findings_always_offer_one_cache_refresh() {
    let snap = with_disk(
        Snapshot {
            targets: vec![
                target("user-cache", "Cache", BYTES_2_GIB, false),
                target("browser-cache", "Browsers", BYTES_500_MIB, true),
                target("trash", "Trash", 0, false),
            ],
            root_disk_available: true,
            health: 30,
            apt_autoremove_n: 2,
            journal_bytes: BYTES_1_GIB,
            mem_low: true,
            swap_heavy: true,
            ..Snapshot::default()
        },
        5.0,
    );
    for inc in [vec![], vec!["browser-cache".to_string()]] {
        let fs = build_findings(&snap, &inc);
        let caches: Vec<&Finding> = fs.iter().filter(|f| f.id == "optimize:caches").collect();
        assert_eq!(caches.len(), 1);
        assert!(caches[0].selectable && !caches[0].default_selected);
        assert_eq!(caches[0].severity, Severity::Info);
        for f in &fs {
            assert!(f.action != "optimize:journal" && f.action != "optimize:apt", "{f:?}");
            if f.opt_in {
                assert_eq!(f.default_selected, inc.contains(&"browser-cache".to_string()), "{f:?}");
            }
        }
        let disk = find(&fs, "health:disk-root").expect("root disk finding");
        assert_eq!(disk.severity, Severity::Critical);
    }
    let unmeasured = Snapshot { root_disk_available: false, ..snap.clone() };
    assert!(find(&build_findings(&unmeasured, &[]), "health:disk-root").is_none());
}

#[test]
fn recommended_commands_cover_clean_and_apt() {
    let clean = Finding { action: "clean:user-cache".to_string(), ..Finding::default() };
    let opt_in = Finding {
        action: "clean:browser-cache".to_string(),
        opt_in: true,
        default_selected: true,
        ..Finding::default()
    };
    let apt = Finding { action: "optimize:apt".to_string(), ..Finding::default() };
    assert_eq!(recommended_commands(&[]), vec!["mu status".to_string()]);
    assert_eq!(recommended_commands(&[clean.clone()]), vec!["mu clean --dry-run".to_string(), "mu clean".to_string()]);
    assert_eq!(
        recommended_commands(&[clean.clone(), opt_in.clone(), opt_in]),
        vec!["mu clean --dry-run".to_string(), "mu clean --include=browser-cache".to_string()]
    );
    assert_eq!(
        recommended_commands(&[apt.clone(), clean]),
        vec![
            "mu clean --dry-run".to_string(),
            "mu clean".to_string(),
            "mu optimize --dry-run".to_string(),
            "mu optimize".to_string()
        ]
    );
    assert_eq!(recommended_commands(&[apt]), vec!["mu optimize --dry-run".to_string(), "mu optimize".to_string()]);
}

#[test]
fn validate_options_names_first_bad_include() {
    let all = all_targets(false);
    let o = Options {
        include_ids: vec!["browser-cache".to_string(), "user-cache".to_string(), "nope".to_string()],
        ..Options::default()
    };
    assert_eq!(validate_options(&o, &all).unwrap_err().message(), "clean include ID is not opt-in: user-cache");
}
