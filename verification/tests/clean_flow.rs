use mu::clean::flow::{
    Cmd, FlowModel, FlowState, ItemDoneMsg, Key, Msg, RowStatus, RunDispatch, ScanTargetMsg, Scanned, took,
    truncate,
};
use mu::clean::{CleanTarget, Options};
use mu::error::Error;
use mu::tui::line::Tone;

const SIZE_A: i64 = 1 << 20;
const SIZE_B: i64 = 2 << 20;
const SIZE_C: i64 = 4 << 20;

fn fake_targets() -> Vec<CleanTarget> {
    let labels = ["Alpha Cache", "Beta Logs", "Gamma Temp"];
    let ids = ["a", "b", "c"];
    (0..3)
        .map(|i| CleanTarget {
            id: ids[i].to_string(),
            label: labels[i].to_string(),
            requires_sudo: false,
            opt_in: false,
        })
        .collect()
}

fn new_test_flow(opts: Options) -> FlowModel {
    FlowModel::new(opts, fake_targets())
}

fn drive(m: &mut FlowModel, msgs: Vec<Msg>) {
    for msg in msgs {
        m.update(msg);
    }
}

fn scan_msg(idx: usize, size: i64) -> Msg {
    Msg::ScanTarget(ScanTargetMsg { idx, size, items: Vec::new(), err: None, preview_err: None })
}

fn scan_fail(idx: usize) -> Msg {
    Msg::ScanTarget(ScanTargetMsg {
        idx,
        size: 0,
        items: Vec::new(),
        err: Some(Error::Msg("scan boom".to_string())),
        preview_err: None,
    })
}

fn item_done(idx: usize) -> Msg {
    Msg::ItemDone(ItemDoneMsg { idx, err: None })
}

fn scan_all(m: &mut FlowModel) {
    for (i, size) in [SIZE_A, SIZE_B, SIZE_C].iter().enumerate() {
        drive(m, vec![scan_msg(i, *size)]);
    }
    assert_eq!(m.state, FlowState::Summary, "after scan");
}

fn confirm_yes(m: &mut FlowModel) {
    drive(m, vec![Msg::Key(Key::Select), Msg::Key(Key::Flip), Msg::Key(Key::Select)]);
}

fn texts(lines: &[Vec<mu::tui::line::Span>]) -> Vec<String> {
    lines.iter().map(|l| l.iter().map(|s| s.text.as_str()).collect::<String>()).collect()
}

#[test]
fn flow_happy_path() {
    let mut m = new_test_flow(Options::default());
    scan_all(&mut m);
    confirm_yes(&mut m);
    assert_eq!(m.state, FlowState::Running, "after YES");
    assert_eq!(m.rows[0].status, RowStatus::Running);
    drive(&mut m, vec![item_done(0)]);
    assert_eq!(m.rows[0].status, RowStatus::Done, "after item 0");
    assert_eq!(m.rows[1].status, RowStatus::Running, "after item 0");
    drive(&mut m, vec![item_done(1), item_done(2)]);
    assert_eq!(m.state, FlowState::Done);
    assert_eq!(m.summary_out, "Freed 7.0 MB");
}

#[test]
fn flow_decline() {
    let mut m = new_test_flow(Options::default());
    scan_all(&mut m);
    drive(&mut m, vec![Msg::Key(Key::Select)]);
    let cmds = m.update(Msg::Key(Key::Select));
    assert_eq!(m.summary_out, "Aborted.");
    assert_eq!(cmds, vec![Cmd::Quit]);
}

#[test]
fn flow_dry_run_skips_confirm() {
    let mut m = new_test_flow(Options { dry_run: true, ..Options::default() });
    scan_all(&mut m);
    let cmds = m.update(Msg::Key(Key::Select));
    assert_eq!(m.state, FlowState::Running, "dry-run skips confirm");
    assert_eq!(cmds, vec![Cmd::SpinnerTick, Cmd::Run(0)]);
    drive(&mut m, vec![item_done(0), item_done(1), item_done(2)]);
    assert_eq!(m.summary_out, "Dry run — 7.0 MB reclaimable");
}

#[test]
fn flow_auto_yes_skips_confirm() {
    let mut m = new_test_flow(Options { auto_yes: true, ..Options::default() });
    scan_all(&mut m);
    let cmds = m.update(Msg::Key(Key::Select));
    assert_eq!(m.state, FlowState::Running, "--yes skips confirm");
    assert_eq!(cmds, vec![Cmd::SpinnerTick, Cmd::Run(0)]);
    drive(&mut m, vec![item_done(0), item_done(1), item_done(2)]);
    assert_eq!(m.summary_out, "Freed 7.0 MB");
}

#[test]
fn flow_ctrl_c_cancels_after_current() {
    let mut m = new_test_flow(Options::default());
    scan_all(&mut m);
    confirm_yes(&mut m);
    drive(&mut m, vec![item_done(0)]);
    drive(&mut m, vec![Msg::Key(Key::CtrlC)]);
    assert!(m.aborted, "expected aborted after ctrl+c");
    drive(&mut m, vec![item_done(1)]);
    assert_eq!(m.state, FlowState::Done);
    assert_eq!(m.rows[2].status, RowStatus::Skipped);
    assert_eq!(m.summary_out, "Aborted.");
}

#[test]
fn flow_failed_item() {
    let mut m = new_test_flow(Options::default());
    scan_all(&mut m);
    confirm_yes(&mut m);
    drive(&mut m, vec![item_done(0)]);
    drive(&mut m, vec![Msg::ItemDone(ItemDoneMsg { idx: 1, err: Some(Error::Msg("exec boom".to_string())) })]);
    assert_eq!(m.rows[1].status, RowStatus::Failed);
    drive(&mut m, vec![item_done(2)]);
    assert_eq!(m.state, FlowState::Done);
    let err = m.run_err.as_ref().expect("expected runErr");
    assert!(err.message().contains("1 clean target(s) failed"), "runErr = {}, want failure count", err.message());
}

#[test]
fn flow_scan_error_aborts() {
    let mut m = new_test_flow(Options::default());
    drive(&mut m, vec![scan_fail(0), scan_msg(1, SIZE_B), scan_msg(2, SIZE_C)]);
    assert_eq!(m.state, FlowState::Summary);
    assert_eq!(m.scan_errs.len(), 1);
    drive(&mut m, vec![Msg::Key(Key::Select)]);
    assert!(m.run_err.is_some(), "expected runErr after scan failure");
}

#[test]
fn flow_narrow_width() {
    let mut m = new_test_flow(Options::default());
    scan_all(&mut m);
    drive(&mut m, vec![Msg::WindowSize { width: 20 }]);
    assert_eq!(m.width, 20);
    assert!(!m.view_lines(0).is_empty());
    confirm_yes(&mut m);
    assert!(!m.view_lines(0).is_empty());
    drive(&mut m, vec![item_done(0), item_done(1), item_done(2)]);
    assert_eq!(m.state, FlowState::Done);
}

#[test]
fn flow_init_empty_targets() {
    let mut m = new_test_flow(Options::default());
    m.targets = Vec::new();
    assert!(m.init().is_empty(), "empty targets must not start a scan");
    assert_eq!(m.state, FlowState::Done);
    assert_eq!(m.summary_out, "Nothing to clean.");
}

#[test]
fn flow_init_starts_scan() {
    let mut m = new_test_flow(Options::default());
    assert_eq!(
        m.init(),
        vec![Cmd::SpinnerTick, Cmd::Scan(0)],
        "expected the spinner+scan batch cmd for non-empty targets"
    );
}

#[test]
fn quit_abort_reports_scan_errors() {
    let mut m = new_test_flow(Options::default());
    drive(&mut m, vec![scan_fail(0), scan_msg(1, SIZE_B), scan_msg(2, SIZE_C)]);
    let cmds = m.quit_abort();
    assert!(cmds.contains(&Cmd::Quit), "quitAbort must return tea.Quit");
    let err = m.run_err.as_ref().expect("expected joined scan error");
    assert!(err.message().contains("scan boom"), "runErr = {}", err.message());
}

#[test]
fn quit_abort_plain() {
    let mut m = new_test_flow(Options::default());
    let cmds = m.quit_abort();
    assert!(cmds.contains(&Cmd::Quit), "quitAbort must return tea.Quit");
    assert_eq!(m.summary_out, "Aborted.");
}

#[test]
fn view_confirm_state() {
    let mut m = new_test_flow(Options::default());
    scan_all(&mut m);
    drive(&mut m, vec![Msg::Key(Key::Select)]);
    assert_eq!(m.state, FlowState::Confirm);
}

#[test]
fn truncate_unclamped() {
    assert_eq!(truncate("abcdef", 0), "abcdef");
}

#[test]
fn update_spinner_tick_and_unknown_msgs() {
    let mut m = new_test_flow(Options::default());
    let cmds = m.update(Msg::SpinnerTick);
    assert_eq!(cmds, vec![Cmd::SpinnerTick], "visible spinner keeps animating");
    let cmds = m.update(Msg::Noop);
    assert!(cmds.is_empty(), "unknown messages are ignored");
    scan_all(&mut m);
    drive(&mut m, vec![Msg::Key(Key::Select)]);
    let cmds = m.update(Msg::SpinnerTick);
    assert!(cmds.is_empty(), "tick dropped on static screens");
}

#[test]
fn run_dispatch_releases_terminal_only_for_real_sudo_runs() {
    let sudo = CleanTarget { id: "apt".to_string(), label: "APT Cache".to_string(), requires_sudo: true, opt_in: false };
    let plain = CleanTarget { id: "user-cache".to_string(), label: "User cache".to_string(), requires_sudo: false, opt_in: false };
    let m = FlowModel::new(Options::default(), vec![sudo.clone(), plain]);
    assert_eq!(m.run_dispatch(0), RunDispatch::ExecTerminal);
    assert_eq!(m.run_dispatch(1), RunDispatch::Plain);
    let dry = FlowModel::new(Options { dry_run: true, ..Options::default() }, vec![sudo]);
    assert_eq!(dry.run_dispatch(0), RunDispatch::Plain);
}

#[test]
fn truncate_cuts_with_ellipsis() {
    assert_eq!(truncate("abcdef", 4), "abc…");
    assert_eq!(truncate("abcdef", 6), "abcdef");
    assert_eq!(truncate("abcdef", -3), "abcdef");
}

#[test]
fn took_formats_elapsed_seconds() {
    assert_eq!(took(0), "<1s");
    assert_eq!(took(42), "42s");
    assert_eq!(took(125), "2m5s");
}

#[test]
fn scanning_view_shows_progress() {
    let mut m = new_test_flow(Options::default());
    drive(&mut m, vec![scan_msg(0, SIZE_A)]);
    let lines = m.view_lines(0);
    let t = texts(&lines);
    assert_eq!(t[2], "  ⠋ Scanning system  (1 of 3): Beta Logs");
    assert_eq!(lines[2][0].tone, Tone::BoldPrimary);
    assert_eq!(t[5], "  q or ctrl+c: cancel");
}

#[test]
fn summary_view_lays_out_table() {
    let mut m = new_test_flow(Options::default());
    scan_all(&mut m);
    let t = texts(&m.view_lines(0));
    assert_eq!(t[2], "  Scan complete");
    assert_eq!(t[4], "  CATEGORY       SIZE");
    assert_eq!(t[5], "  Alpha Cache  1.0 MB");
    assert_eq!(t[6], "  Beta Logs    2.0 MB");
    assert_eq!(t[7], "  Gamma Temp   4.0 MB");
    assert_eq!(t[8], format!("  {}", "─".repeat(11 + 6 + 2)));
    assert_eq!(t[9], "  Potential space to free:  7.0 MB");
    assert_eq!(t.last().unwrap(), "  Enter: continue  •  q: quit");
}

#[test]
fn confirm_view_arms_no_by_default() {
    let mut m = new_test_flow(Options::default());
    scan_all(&mut m);
    drive(&mut m, vec![Msg::Key(Key::Select)]);
    let lines = m.view_lines(0);
    let t = texts(&lines);
    assert_eq!(t[4], "  3 item(s) — 7.0 MB");
    assert_eq!(lines[6][1].text, " YES ");
    assert_eq!(lines[6][1].tone, Tone::ButtonOff);
    assert_eq!(lines[6][3].tone, Tone::ButtonOn);
}

#[test]
fn running_and_done_views() {
    let mut m = new_test_flow(Options::default());
    scan_all(&mut m);
    confirm_yes(&mut m);
    let t = texts(&m.view_lines(0));
    assert_eq!(t[2], "  Cleaning   1 of 3");
    assert_eq!(t[4], "  ⠋ Cleaning Alpha Cache  1.0 MB");
    assert_eq!(t[5], "  Beta Logs  2.0 MB");
    drive(&mut m, vec![item_done(0)]);
    drive(&mut m, vec![Msg::ItemDone(ItemDoneMsg { idx: 1, err: Some(Error::Msg("exec boom".to_string())) })]);
    drive(&mut m, vec![item_done(2)]);
    let t = texts(&m.view_lines(3));
    assert_eq!(t[4], "  ✗ Freed 5.0 MB — 1 item(s) failed");
    assert_eq!(t[5], "  Took 3s");
    assert_eq!(t[6], "  ✗ Failed Beta Logs — exec boom");
}

#[test]
fn scanned_results_keep_sizes() {
    let mut m = new_test_flow(Options::default());
    scan_all(&mut m);
    let sizes: Vec<i64> = m.results.iter().map(|r: &Scanned| r.size).collect();
    assert_eq!(sizes, vec![SIZE_A, SIZE_B, SIZE_C]);
    assert_eq!(m.total, SIZE_A + SIZE_B + SIZE_C);
}
