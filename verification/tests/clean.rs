use mu::clean::scan_docker::{build_cache_size, docker_size_parts};
use mu::clean::scan_kernels::{apt_multiplier, freed_space, parse_autoremove_simulation};
use mu::clean::scan_snap::{du_bytes, parse_disabled_snaps, parse_i64};
use mu::clean::targets::{journal_size_from, parse_journal_disk_usage};
use mu::clean::plain::{
    done_summary, dry_run_summary, failed_targets_error, freed_text, push_abort_notes, push_dry_run_notes,
    push_scan_table, record_scan,
};
use mu::clean::{CleanTarget, ScanResult, all_targets, resolve_targets, scan_f_s};
use mu::error::Error;

const SNAP_LIST_FIXTURE: &str = "Name    Version   Rev   Tracking       Publisher   Notes\n\
core20  20230801  1974  latest/stable  canonical*  base\n\
lxd     5.21.1    27183 latest/stable  canonical*  disabled\n\
firefox 123.0     3440  latest/stable  mozilla*    -\n\
vlc     3.0.20    3078  latest/stable  videolan*   disabled\n";

/// The simulation's packages and freed bytes: the number the line gives
/// times its unit's multiplier, as the program computes it.
fn simulation(output: &str) -> (Vec<String>, i64) {
    let (packages, size) = parse_autoremove_simulation(output);
    let bytes = match size {
        Some((value, scale)) => match value.parse::<f64>() {
            Ok(n) => (n * scale as f64) as i64,
            Err(_) => 0,
        },
        None => 0,
    };
    (packages, bytes)
}

/// A Docker size in bytes, as the program computes it from its parts. The
/// library splits the text into a number and a unit (`docker_size_parts`);
/// scaling the decimal number is floating point, which stays with the
/// program, so this test repeats that last step here.
fn parse_docker_size(s: &str) -> i64 {
    match docker_size_parts(s) {
        Some((num, scale)) => (num.parse::<f64>().unwrap_or(0.0) * scale as f64) as i64,
        None => 0,
    }
}

#[test]
fn parse_autoremove_simulation_uses_only_apt_candidates() {
    let fixture = "The following packages will be REMOVED:\n  linux-image-6.8.0-50-generic linux-modules-6.8.0-50-generic\nRemv linux-image-6.8.0-50-generic [6.8.0-50]\nPurg linux-modules-6.8.0-50-generic [6.8.0-50]\nRemv obsolete-lib [1.0]\nRemv obsolete-lib [1.0]\nAfter this operation, 240 MB disk space will be freed.\n";
    let (packages, bytes) = simulation(fixture);
    assert_eq!(packages, vec!["linux-image-6.8.0-50-generic", "linux-modules-6.8.0-50-generic", "obsolete-lib"]);
    assert!(!packages.iter().any(|p| p == "linux-generic"), "meta-package not selected by APT must be preserved");
    assert_eq!(bytes, 240_000_000, "bytes = {bytes}, want 240000000");
}

#[test]
fn parse_autoremove_simulation_no_candidates() {
    let (packages, bytes) = simulation("0 upgraded, 0 newly installed, 0 to remove.\n");
    assert!(packages.is_empty() && bytes == 0, "got {packages:?} bytes={bytes}");
}

#[test]
fn parse_autoremove_simulation_does_not_treat_additional_usage_as_freed() {
    let (_, bytes) = simulation("After this operation, 10 MB of additional disk space will be used.\n");
    assert_eq!(bytes, 0, "bytes = {bytes}, want 0");
}

#[test]
fn freed_space_reads_value_and_unit() {
    let (v, u) = freed_space("After this operation, 240 MB disk space will be freed.\n").unwrap();
    assert_eq!((v.as_str(), u.as_str()), ("240", "mb"));
    assert_eq!(apt_multiplier("mb"), 1_000_000);
    assert_eq!(apt_multiplier("KB"), 1_000);
    assert_eq!(apt_multiplier("B"), 1);
}

#[test]
fn parse_disabled_snaps_basic() {
    let revs = parse_disabled_snaps(SNAP_LIST_FIXTURE);
    assert_eq!(revs.len(), 2, "expected 2 disabled revisions: {revs:?}");
    assert_eq!(revs[0].name, "lxd");
    assert_eq!(revs[0].revision, "27183");
    assert_eq!(revs[1].name, "vlc");
    assert_eq!(revs[1].revision, "3078");
}

#[test]
fn parse_disabled_snaps_enabled_not_included() {
    let revs = parse_disabled_snaps(SNAP_LIST_FIXTURE);
    for r in &revs {
        assert!(r.name != "core20" && r.name != "firefox", "enabled snap {} should not be in disabled list", r.name);
    }
}

#[test]
fn parse_disabled_snaps_empty() {
    assert_eq!(parse_disabled_snaps("").len(), 0);
}

#[test]
fn parse_disabled_snaps_header_only() {
    let revs = parse_disabled_snaps("Name    Version   Rev   Tracking       Publisher   Notes\n");
    assert_eq!(revs.len(), 0);
}

#[test]
fn parse_docker_sizes() {
    assert_eq!(parse_docker_size("1.5GB"), (1.5 * 1024.0 * 1024.0 * 1024.0) as i64);
    for (input, want) in [("512MB", 512 * 1024 * 1024i64), ("2KB", 2048), ("7B", 7), ("0B", 0), ("bad", 0)] {
        assert_eq!(parse_docker_size(input), want, "parse_docker_size({input:?})");
    }
    assert_eq!(docker_size_parts(" 9GB "), Some(("9".to_string(), 1024 * 1024 * 1024)));
    assert_eq!(docker_size_parts(""), None);
}

#[test]
fn journal_disk_usage_is_read() {
    let out = "Archived and active journals take up 2.0M in the file system.\n";
    assert_eq!(parse_journal_disk_usage(out), Ok(("2.0".to_string(), "M".to_string())));
    let (num, scale) = journal_size_from(out).expect("journal size");
    assert_eq!((num.parse::<f64>().unwrap() * scale as f64) as i64, 2 * 1024 * 1024);
    assert_eq!(parse_journal_disk_usage("unparseable"), Err("input does not match format".to_string()));
    let e = journal_size_from("unparseable").unwrap_err();
    assert_eq!(e.message(), "parse journal disk usage: input does not match format");
    assert_eq!(parse_journal_disk_usage("Archived and active journals take up   "), Err("EOF".to_string()));
    assert_eq!(parse_journal_disk_usage("Archived and active journals take up 12"), Err("EOF".to_string()));
    let e = journal_size_from("Archived and active journals take up 3.5T in the file system.").unwrap_err();
    assert_eq!(e.message(), "unknown journal size unit: \"T\"");
    assert_eq!(
        parse_journal_disk_usage("Archivedandactive journals take up x"),
        Err("strconv.ParseFloat: parsing \"\": invalid syntax".to_string())
    );
}

#[test]
fn scan_f_s_reads_number_then_word() {
    assert_eq!(scan_f_s("  1.5GB rest"), ("1.5".to_string(), "GB".to_string(), 2));
    assert_eq!(scan_f_s("42"), ("42".to_string(), String::new(), 1));
    assert_eq!(scan_f_s("x"), (String::new(), String::new(), 0));
    assert_eq!(scan_f_s("-2e3 kB"), ("-2e3".to_string(), "kB".to_string(), 2));
}

#[test]
fn resolve_targets_rejects_unknown_and_non_opt_in_ids() {
    let all = all_targets(true);
    let err = resolve_targets(&all, &["unknown".to_string()]).err().expect("expected unknown include rejection");
    assert_eq!(err.message(), "unknown clean include ID: unknown");
    let err = resolve_targets(&all, &["user-cache".to_string()]).err().expect("expected non-opt-in include rejection");
    assert_eq!(err.message(), "clean include ID is not opt-in: user-cache");
    let ok = resolve_targets(&all, &["docker".to_string()]).expect("docker is opt-in");
    assert!(ok.iter().any(|t: &CleanTarget| t.id == "docker"));
    assert!(ok.iter().all(|t| !t.opt_in || t.id == "docker"));
}

#[test]
fn parse_autoremove_simulation_additional_usage_is_not_freed() {
    let (_, size) = parse_autoremove_simulation("After this operation, 10 MB of additional disk space will be used.\n");
    assert!(size.is_none());
}

#[test]
fn du_bytes_reads_first_field() {
    assert_eq!(du_bytes("123456\t/var/lib/snapd/snaps/core_1.snap\n"), Some(123456));
    assert_eq!(du_bytes(""), None);
    assert_eq!(du_bytes("abc /x"), None);
    assert_eq!(du_bytes("+7 /x"), Some(7));
}

#[test]
fn parse_i64_matches_std() {
    for s in ["0", "-1", "+5", "-", "+", "", "-+5", "+-5", "9223372036854775807", "9223372036854775808",
              "-9223372036854775808", "-9223372036854775809", "12a", "007"] {
        let c: Vec<char> = s.chars().collect();
        assert_eq!(parse_i64(&c), s.parse::<i64>().ok(), "input {s:?}");
    }
}

fn tgt(id: &str, label: &str) -> CleanTarget {
    CleanTarget { id: id.to_string(), label: label.to_string(), requires_sudo: false, opt_in: false }
}

#[test]
fn plain_scan_records_sizes_items_and_errors() {
    let mut results = Vec::new();
    let mut total = 0i64;
    let mut errs: Vec<Error> = Vec::new();
    record_scan(&mut results, &mut total, &mut errs, tgt("a", "A"), 100, None, None);
    record_scan(
        &mut results,
        &mut total,
        &mut errs,
        tgt("kernels", "K"),
        50,
        None,
        Some((vec!["old-lib".to_string()], None)),
    );
    record_scan(
        &mut results,
        &mut total,
        &mut errs,
        tgt("font-cache", "F"),
        7,
        None,
        Some((vec!["/x".to_string()], Some(Error::Msg("denied".to_string())))),
    );
    record_scan(&mut results, &mut total, &mut errs, tgt("snap", "S"), 9, Some(Error::Msg("boom".to_string())), None);
    assert_eq!(total, 157, "failed scans do not count");
    assert_eq!(results.len(), 4);
    assert_eq!(results[1].items, vec!["old-lib".to_string()]);
    assert!(results[2].items.is_empty(), "a failed preview keeps no rows");
    assert_eq!(results[3].size, 9, "the partial size is kept");
    let texts: Vec<String> = errs.iter().map(|e| e.message()).collect();
    assert_eq!(texts, vec!["preview font-cache: denied".to_string(), "scan snap: boom".to_string()]);
}

#[test]
fn plain_table_lists_targets_and_total() {
    let results = vec![
        ScanResult { target: tgt("user-cache", "User Cache (~/.cache)"), size: 2048, items: vec![] },
        ScanResult { target: tgt("kernels", "APT Autoremove Candidates"), size: 0, items: vec!["old-lib".to_string()] },
    ];
    let mut r = mu::runtext::Run::new();
    push_scan_table(&mut r, &results, 2048);
    let want = format!(
        "  {:<40} 2.0 KB\n  {:<40} 0 B\n    - old-lib\n  {}\n  Potential space to free: 2.0 KB\n",
        "User Cache (~/.cache)",
        "APT Autoremove Candidates",
        "-".repeat(50)
    );
    assert_eq!(r.text(), want);
}

#[test]
fn plain_summaries_and_notes() {
    assert_eq!(dry_run_summary(1536), "Dry run — 1.5 KB reclaimable");
    assert_eq!(done_summary(0), "All done — freed 0 B");
    assert_eq!(freed_text(1048576), "Freed 1.0 MB");
    assert_eq!(failed_targets_error(2).message(), "2 clean target(s) failed");
    let mut r = mu::runtext::Run::new();
    push_dry_run_notes(&mut r);
    push_abort_notes(&mut r);
    assert_eq!(
        r.text(),
        "  This is a DRY RUN. No files will be deleted.\n  Validating the exact cleanup actions without changing data.\n  Non-interactive: pass --yes to confirm, or --dry-run to preview.\n  Aborted.\n"
    );
}

/// The `(Type, Reclaimable)` pairs of the JSON lines of `docker system df`,
/// lines that are not JSON skipped.
fn docker_entries(json_lines: &str) -> Vec<(String, String)> {
    json_lines
        .split('\n')
        .filter_map(|l| serde_json::from_str::<serde_json::Value>(l.trim()).ok())
        .map(|v| {
            let field = |k: &str| v.get(k).and_then(|x| x.as_str()).unwrap_or("").to_string();
            (field("Type"), field("Reclaimable"))
        })
        .collect()
}

#[test]
fn parse_docker_build_cache_sizes() {
    let fixture = "not-json\n{\"Type\":\"Images\",\"TotalCount\":\"4\",\"Active\":\"2\",\"Size\":\"12.3GB\",\"Reclaimable\":\"9GB (73%)\"}\n{\"Type\":\"Build Cache\",\"TotalCount\":\"8\",\"Active\":\"0\",\"Size\":\"1.5GB\",\"Reclaimable\":\"1.5GB\"}\n";
    let got = match build_cache_size(&docker_entries(fixture)) {
        Some((n, k)) => (n.parse::<f64>().unwrap() * k as f64) as i64,
        None => 0,
    };
    assert_eq!(got, (1.5 * 1024.0 * 1024.0 * 1024.0) as i64, "size={got}");
    for (input, want) in [("512MB", 512 * 1024 * 1024i64), ("2KB", 2048), ("7B", 7), ("0B", 0), ("bad", 0)] {
        assert_eq!(parse_docker_size(input), want, "parse_docker_size({input:?})");
    }
}

#[test]
fn build_cache_size_takes_first_build_cache_entry() {
    let e = |t: &str, r: &str| (t.to_string(), r.to_string());
    assert_eq!(build_cache_size(&[]), None);
    assert_eq!(build_cache_size(&[e("Images", "9GB")]), None);
    assert_eq!(
        build_cache_size(&[e("Images", "9GB"), e("Build Cache", "2MB"), e("Build Cache", "5GB")]),
        Some(("2".to_string(), 1024 * 1024))
    );
    assert_eq!(build_cache_size(&[e("Build Cache", "0B"), e("Build Cache", "5GB")]), None);
}

#[test]
fn journal_size_optional_and_parse_errors() {
    // Unparseable output is a parse error; a size with a known unit is read.
    assert!(journal_size_from("unparseable").is_err(), "expected parse error");
    let (num, scale) = journal_size_from("Archived and active journals take up 1.5G in the file system.\n").unwrap();
    assert_eq!((num.as_str(), scale), ("1.5", 1024 * 1024 * 1024));
}
