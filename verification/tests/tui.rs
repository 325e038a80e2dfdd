use mu::tui::confirm::{Confirm, render_buttons};
use mu::audit::model::key_name;
use mu::clean::flow::{Key as FlowKey, flow_key};
use mu::tui::line::{Span, Tone};
use mu::tui::menu::{HealthSnapshot, MainMenu, menu_items};
use mu::tui::run::RunShell;
use mu::tui::status::{MetricLayout, metric_layout, pad_label, quit_key_event, truncate_width};
use mu::tui::styles::{Hue, health_color, health_label, mark_error, mark_success};
use mu::tui::uninstall::{Package, Phase, PkgItem, UninstallTui, filter_items, parse_dpkg_list, parse_snap_list};
use mu::tui::{Key, KeyEvent, capitalize, is_ctrl_c, result_banner};

fn pkg_item(name: &str) -> PkgItem {
    PkgItem { pkg: Package { name: name.into(), source: "apt".into(), ..Default::default() }, selected: false }
}

/// The text of styled lines, one line per row.
fn content(ls: &[Vec<Span>]) -> String {
    ls.iter().map(|l| l.iter().map(|s| s.text.as_str()).collect::<String>() + "\n").collect()
}

/// The last recorded selection of a key, as a map lookup gives it.
fn selection(tui: &UninstallTui, key: &str) -> Option<bool> {
    tui.selected.iter().rev().find(|(k, _)| k == key).map(|(_, v)| *v)
}

#[test]
fn defaults_to_no() {
    let c = Confirm::new("Remove everything?".to_string());
    assert_eq!(c.cursor, 1);
    assert_eq!(c.result, None);
}

#[test]
fn enter_yes() {
    let mut c = Confirm::new("test".to_string());
    c.cursor = 0;
    assert!(c.handle_key(Key::Enter));
    assert_eq!(c.result, Some(true));
}

#[test]
fn enter_no() {
    let mut c = Confirm::new("test".to_string());
    c.cursor = 1;
    assert!(c.handle_key(Key::Enter));
    assert_eq!(c.result, Some(false));
}

#[test]
fn toggle_left_right() {
    let mut c = Confirm::new("test".to_string());
    assert_eq!(c.cursor, 1);
    c.handle_key(Key::Left);
    assert_eq!(c.cursor, 0);
    c.handle_key(Key::Right);
    assert_eq!(c.cursor, 1);
    c.handle_key(Key::Tab);
    assert_eq!(c.cursor, 0);
}

#[test]
fn quit_returns_false() {
    let mut c = Confirm::new("test".to_string());
    assert!(c.handle_key(Key::Char('q')));
    assert_eq!(c.result, Some(false));
}

#[test]
fn confirm_buttons_are_yes_and_no() {
    assert_eq!(render_buttons(0), ("YES", "NO"));
    assert_eq!(render_buttons(1), ("YES", "NO"));
}

#[test]
fn menu_items_order() {
    let items = menu_items();
    assert_eq!(items.len(), 6);
    assert_eq!(items[0].command, "audit");
    assert_eq!(items[5].command, "quit");
}

#[test]
fn navigate_down_up() {
    let mut m = MainMenu::default();
    assert_eq!(m.cursor, 0);
    m.handle_key(Key::Down);
    assert_eq!(m.cursor, 1);
    m.handle_key(Key::Down);
    assert_eq!(m.cursor, 2);
    m.handle_key(Key::Up);
    assert_eq!(m.cursor, 1);
}

#[test]
fn j_k_navigation() {
    let mut m = MainMenu::default();
    m.handle_key(Key::Char('j'));
    assert_eq!(m.cursor, 1);
    m.handle_key(Key::Char('k'));
    assert_eq!(m.cursor, 0);
}

#[test]
fn numeric_selection() {
    let mut m = MainMenu::default();
    m.handle_key(Key::Char('3'));
    assert_eq!(m.chosen, Some("uninstall"));
}

#[test]
fn enter_selects() {
    let mut m = MainMenu { cursor: 2, ..MainMenu::default() };
    m.handle_key(Key::Enter);
    assert_eq!(m.chosen, Some("uninstall"));
}

#[test]
fn menu_quit_key() {
    let mut m = MainMenu::default();
    assert!(m.handle_key(Key::Char('q')));
    assert_eq!(m.chosen, Some("quit"));
}

#[test]
fn banner_clears_on_key() {
    let mut m = MainMenu::default().with_banner("✅ Done".to_string(), false);
    assert!(!m.handle_key(Key::Down));
    assert!(m.banner.is_empty());
    assert_eq!(m.cursor, 0);
}

#[test]
fn error_banner_shows_hint() {
    let m = MainMenu::default().with_banner("❌ Error".to_string(), true);
    assert!(m.banner_err);
    assert_eq!(m.banner, "❌ Error");
}

#[test]
fn menu_items_count() {
    assert_eq!(menu_items().len(), 6);
}

#[test]
fn capitalize_works() {
    assert_eq!(capitalize("clean"), "Clean");
    assert_eq!(capitalize("optimize"), "Optimize");
    assert_eq!(capitalize(""), "");
}

#[test]
fn is_ctrl_c_detects() {
    let key = KeyEvent { code: Key::Char('c'), ctrl: true, alt: false };
    assert!(is_ctrl_c(&key));
    let key = KeyEvent { code: Key::Char('c'), ctrl: false, alt: false };
    assert!(!is_ctrl_c(&key));
}

#[test]
fn result_banner_marks_outcome() {
    let (text, err) = result_banner("clean", Some("Freed 1.0 MB".to_string()), None);
    assert!(!err);
    assert!(text.contains("Freed 1.0 MB"), "{text}");
    let (text, err) = result_banner("clean", None, Some("boom".to_string()));
    assert!(err);
    assert!(text.contains("boom"), "{text}");
}

#[test]
fn plain_text_output() {
    let mut r = RunShell::new();
    r.section("Scanning".to_string());
    r.line("Found 3 items".to_string());
    r.faint("skipping 1 whitelisted".to_string());
    r.summary("Done: freed 1.2 GB".to_string());
    let text = r.to_plain_text();
    assert!(text.contains("Scanning"));
    assert!(text.contains("Found 3 items"));
    assert!(text.contains("Done: freed 1.2 GB"));
}

#[test]
fn spinner_success() {
    let mut r = RunShell::new();
    r.spinner("Cleaning cache".to_string(), || Ok(()));
    let text = r.to_plain_text();
    assert!(text.contains("✅ Cleaning cache"));
}

#[test]
fn spinner_error() {
    let mut r = RunShell::new();
    r.spinner("Failing task".to_string(), || Err("boom".to_string()));
    let text = r.to_plain_text();
    assert!(text.contains("❌ Failing task"));
}

#[test]
fn pad_label_short() {
    assert_eq!(pad_label("CPU", 8), "CPU     ");
}

#[test]
fn pad_label_exact() {
    assert_eq!(pad_label("Network", 7), "Network");
}

#[test]
fn truncate_width_short() {
    assert_eq!(truncate_width("hello", 10), "hello");
}

#[test]
fn truncate_width_long() {
    let result = truncate_width("hello world", 5);
    assert!(result.ends_with("…"));
    assert!(result.chars().count() <= 5);
}

#[test]
fn health_label_thresholds() {
    assert_eq!(health_label(0), "Poor");
    assert_eq!(health_label(29), "Poor");
    assert_eq!(health_label(30), "Fair");
    assert_eq!(health_label(59), "Fair");
    assert_eq!(health_label(60), "Good");
    assert_eq!(health_label(100), "Good");
}

#[test]
fn marks_prefix_text() {
    assert_eq!(mark_success("ok"), "✓ ok");
    assert_eq!(mark_error("bad"), "✗ bad");
}

#[test]
fn defaults_to_search_no() {
    let tui = UninstallTui::new();
    assert_eq!(tui.phase, Phase::Search);
    assert_eq!(tui.confirm_cursor, 1);
    assert!(!tui.loaded);
}

#[test]
fn filter_items_empty_query() {
    let items = vec![pkg_item("vim")];
    assert!(filter_items(&items, "").is_empty());
}

#[test]
fn filter_items_match() {
    let items = vec![pkg_item("vim"), pkg_item("emacs")];
    let result = filter_items(&items, "vi");
    assert_eq!(result.len(), 1);
    assert_eq!(result[0].pkg.name, "vim");
}

#[test]
fn search_type_appends_query() {
    let mut tui = UninstallTui::new();
    tui.handle_key(Key::Char('v'));
    tui.handle_key(Key::Char('i'));
    tui.handle_key(Key::Char('m'));
    assert_eq!(tui.query, "vim");
}

#[test]
fn backspace_removes_last_char() {
    let mut tui = UninstallTui::new();
    tui.handle_key(Key::Char('v'));
    tui.handle_key(Key::Char('i'));
    tui.handle_key(Key::Backspace);
    assert_eq!(tui.query, "v");
}

#[test]
fn esc_quits_search() {
    let mut tui = UninstallTui::new();
    assert!(tui.handle_key(Key::Esc));
}

#[test]
fn enter_without_selection_stays_in_search() {
    let mut tui = UninstallTui::new();
    tui.handle_key(Key::Enter);
    assert_eq!(tui.phase, Phase::Search);
}

#[test]
fn space_selects_item() {
    let mut tui = UninstallTui::new();
    tui.all_items = vec![pkg_item("vim")];
    tui.items = tui.all_items.clone();
    tui.cursor = 0;
    tui.handle_key(Key::Char(' '));
    assert!(selection(&tui, "apt:vim").unwrap_or(false));
}

#[test]
fn enter_with_selection_goes_to_confirm() {
    let mut tui = UninstallTui::new();
    tui.selected.push(("apt:vim".into(), true));
    tui.handle_key(Key::Enter);
    assert_eq!(tui.phase, Phase::Confirm);
    assert_eq!(tui.confirm_cursor, 1);
}

#[test]
fn confirm_no_returns_to_search() {
    let mut tui = UninstallTui::new();
    tui.phase = Phase::Confirm;
    tui.confirm_cursor = 1;
    tui.handle_key(Key::Enter);
    assert_eq!(tui.phase, Phase::Search);
}

#[test]
fn confirm_yes_goes_to_done() {
    let mut tui = UninstallTui::new();
    tui.phase = Phase::Confirm;
    tui.confirm_cursor = 0;
    assert!(tui.handle_key(Key::Enter));
    assert_eq!(tui.phase, Phase::Done);
}

#[test]
fn confirm_toggle() {
    let mut tui = UninstallTui::new();
    tui.phase = Phase::Confirm;
    assert_eq!(tui.confirm_cursor, 1);
    tui.handle_key(Key::Left);
    assert_eq!(tui.confirm_cursor, 0);
    tui.handle_key(Key::Right);
    assert_eq!(tui.confirm_cursor, 1);
}

#[test]
fn confirm_render_snapshot() {
    let c = Confirm::new("Proceed?".to_string());
    let ls = c.view_lines();
    let text = content(&ls);
    assert!(text.contains("Proceed?"));
    assert!(text.contains("YES"));
    assert!(text.contains("NO"));
    // NO is armed by default.
    assert_eq!(ls[4][3].tone, Tone::ButtonOn);
    assert_eq!(ls[4][1].tone, Tone::ButtonOff);
}

#[test]
fn render_snapshot_loading() {
    let m = MainMenu::default();
    let text = content(&m.view_lines());
    assert!(text.contains("Loading..."));
    assert!(text.contains("Mole Ubuntu"));
}

#[test]
fn render_snapshot_with_data() {
    let snap = HealthSnapshot {
        cpu_pct: "42".to_string(),
        mem_used: 8000000,
        mem_total: 16000000,
        disk_free_pct: "55".to_string(),
    };
    let m = MainMenu::new(0, Some(snap));
    let text = content(&m.view_lines());
    assert!(text.contains("CPU: 42%"));
    assert!(text.contains("Disk /: 55% free"));
}

#[test]
fn render_cursor_highlight() {
    let m = MainMenu::new(1, None);
    let ls = m.view_lines();
    let text = content(&ls);
    assert!(text.contains("▶ Clean"));
    let row = ls.iter().find(|l| l.iter().any(|s| s.text.contains("▶ Clean"))).unwrap();
    assert_eq!(row[0].tone, Tone::BoldPrimary);
}

#[test]
fn render_menu_rows_exact() {
    let m = MainMenu::new(0, None);
    let text = content(&m.view_lines());
    assert!(text.contains("  ▶ Audit          Diagnose cleanup issues and apply recommended fixes\n"));
    assert!(text.contains("    Quit           Exit mu\n"));
    assert!(text.ends_with("  ↑/↓ or j/k to navigate  •  Enter to select  •  q to quit\n"));
}

#[test]
fn render_empty_snapshot_dashes() {
    let snap = HealthSnapshot { cpu_pct: "0".to_string(), mem_used: 0, mem_total: 0, disk_free_pct: "0".to_string() };
    let text = content(&MainMenu::new(0, Some(snap)).view_lines());
    assert!(text.contains("  ---  ---  ---\n"));
}

#[test]
fn render_error_banner_with_hint() {
    let m = MainMenu::default().with_banner("❌ Error".to_string(), true);
    let ls = m.view_lines();
    let text = content(&ls);
    assert!(text.contains("  ❌ Error\n  press any key to continue\n"));
    let row = ls.iter().find(|l| l.iter().any(|s| s.text.contains("❌ Error"))).unwrap();
    assert_eq!(row[0].tone, Tone::Danger);
}

#[test]
fn health_color_thresholds() {
    assert_eq!(health_color(0), Hue::Danger);
    assert_eq!(health_color(29), Hue::Danger);
    assert_eq!(health_color(30), Hue::Amber);
    assert_eq!(health_color(59), Hue::Amber);
    assert_eq!(health_color(60), Hue::Success);
    assert_eq!(health_color(100), Hue::Success);
}

#[test]
fn metric_layout_wide_bar_fits() {
    // 80 columns: label 8, wide text 20 → bar of min(80 - (2 + 8 + 3 + 20), 40) = 40.
    assert_eq!(
        metric_layout(8, "12345678901234567890", "50%", 80),
        MetricLayout::Bar { label_w: 8, bar_w: 40, wide: true }
    );
    // Unknown width counts as 80.
    assert_eq!(metric_layout(8, "x", "x", 0), metric_layout(8, "x", "x", 80));
}

#[test]
fn metric_layout_falls_back_to_short_text() {
    // 20 columns: label 8; the wide text of 10 leaves no bar, the short one of 3 leaves 4.
    assert_eq!(metric_layout(8, "0123456789", "50%", 20), MetricLayout::Bar { label_w: 8, bar_w: 4, wide: false });
    // Same texts: no second try.
    assert_eq!(metric_layout(8, "0123456789", "0123456789", 20), MetricLayout::Text { label_w: 7 });
    // A tiny terminal keeps a label of one.
    assert_eq!(metric_layout(8, "50%", "50%", 4), MetricLayout::Text { label_w: 1 });
}

fn pkg_sized(name: &str, kb: u64) -> PkgItem {
    PkgItem {
        pkg: Package { name: name.into(), source: "apt".into(), version: "1.0".into(), installed_kb: kb, ..Default::default() },
        selected: false,
    }
}

#[test]
fn render_search_snapshot() {
    let tui = UninstallTui::new();
    let text = content(&tui.view_lines());
    assert!(text.contains("mu uninstall"));
    assert!(text.contains("Search:"));
    assert!(text.contains("Type to search"));
}

#[test]
fn render_confirm_snapshot() {
    let mut tui = UninstallTui::new();
    tui.phase = Phase::Confirm;
    tui.selected.push(("apt:vim".into(), true));
    tui.all_items = vec![PkgItem {
        pkg: Package { name: "vim".into(), source: "apt".into(), ..Default::default() },
        selected: true,
    }];
    let text = content(&tui.view_lines());
    assert!(text.contains("Will remove:"));
    assert!(text.contains("vim"));
}

#[test]
fn render_search_rows_and_count() {
    let mut tui = UninstallTui::new();
    tui.loaded = true;
    tui.query = "vi".to_string();
    let mut a = pkg_sized("vim", 2048);
    a.selected = true;
    tui.items = vec![a, pkg_sized("vifm", 1)];
    tui.selected.push(("apt:vim".into(), true));
    tui.selected.push(("apt:vifm".into(), true));
    tui.selected.push(("apt:vifm".into(), false));
    tui.cursor = 1;
    let ls = tui.view_lines();
    let text = content(&ls);
    assert!(text.contains("  mu uninstall  (1 selected)\n"));
    assert!(text.contains("  Search: vi█\n"));
    assert!(text.contains("  ✓ vim [apt] 2.0 MB  1.0\n"));
    assert!(text.contains("  vifm [apt] 1.0 KB  1.0\n"));
    let row = ls.iter().find(|l| l.iter().any(|s| s.text.contains("vifm"))).unwrap();
    assert_eq!(row[0].tone, Tone::Highlight);
}

#[test]
fn render_done_phase() {
    let mut tui = UninstallTui::new();
    tui.phase = Phase::Done;
    assert_eq!(content(&tui.view_lines()), "\n\n  Confirmed. Removing packages...\n\n");
}

#[test]
fn run_render_snapshot() {
    let mut r = RunShell::new();
    r.section("Scanning".to_string());
    r.line("Found 3 items".to_string());
    r.summary("Done".to_string());
    let ls = r.view_lines();
    let text = content(&ls);
    assert!(text.contains("Scanning"));
    assert!(text.contains("Found 3 items"));
    assert!(text.contains("Done"));
    assert_eq!(text, "  Scanning\n  Found 3 items\n  Done\n");
    assert_eq!(ls[0][0].tone, Tone::BoldPrimary);
    assert_eq!(ls[1][0].tone, Tone::Plain);
}

#[test]
fn dpkg_list_rows() {
    let out = "vim\t2:9.1.0016-1ubuntu7\t4012\nbroken-line\n\tno-name\t1\nlibfoo\t1.0\t x \n";
    let pkgs = parse_dpkg_list(out);
    let rows: Vec<(&str, &str, u64, &str)> =
        pkgs.iter().map(|p| (p.name.as_str(), p.version.as_str(), p.installed_kb, p.source.as_str())).collect();
    assert_eq!(rows, vec![("vim", "2:9.1.0016-1ubuntu7", 4012, "apt"), ("libfoo", "1.0", 0, "apt")]);
    assert!(pkgs.iter().all(|p| p.remnants_found.is_empty() && p.remnants_kb == 0));
}

#[test]
fn snap_list_rows_skip_header() {
    let out = "Name      Version    Rev    Tracking       Publisher   Notes\nfirefox   123.0      3440   latest/stable  mozilla*    -\nlonely\n";
    let pkgs = parse_snap_list(out);
    assert_eq!(pkgs.len(), 1);
    assert_eq!((pkgs[0].name.as_str(), pkgs[0].version.as_str(), pkgs[0].source.as_str()), ("firefox", "123.0", "snap"));
    assert!(parse_snap_list("").is_empty());
}

#[test]
fn status_quit_key() {
    assert!(mu::tui::status::quit_key(Key::Char('q')));
    assert!(mu::tui::status::quit_key(Key::Char('Q')));
    assert!(quit_key_event(KeyEvent { code: Key::Char('c'), ctrl: true, alt: false }));
}

#[test]
fn non_quit_key() {
    assert!(!mu::tui::status::quit_key(Key::Char('x')));
    assert!(!mu::tui::status::quit_key(Key::Esc));
    assert!(!quit_key_event(KeyEvent { code: Key::Char('q'), ctrl: false, alt: true }));
}

#[test]
fn flow_keys_map() {
    let ev = |code: Key, ctrl: bool, alt: bool| KeyEvent { code, ctrl, alt };
    assert_eq!(flow_key(ev(Key::Char('c'), true, false)), Some(FlowKey::CtrlC));
    assert_eq!(flow_key(ev(Key::Char('q'), false, false)), Some(FlowKey::Quit));
    assert_eq!(flow_key(ev(Key::Esc, false, false)), Some(FlowKey::Quit));
    assert_eq!(flow_key(ev(Key::Char(' '), false, false)), Some(FlowKey::Select));
    assert_eq!(flow_key(ev(Key::Tab, false, false)), Some(FlowKey::Flip));
    assert_eq!(flow_key(ev(Key::Char('q'), false, true)), None);
    assert_eq!(flow_key(ev(Key::Char('x'), false, false)), None);
}

#[test]
fn wizard_key_names() {
    let ev = |code: Key, ctrl: bool, alt: bool| KeyEvent { code, ctrl, alt };
    assert_eq!(key_name(ev(Key::Char('c'), true, false)).as_deref(), Some("ctrl+c"));
    assert_eq!(key_name(ev(Key::Enter, false, false)).as_deref(), Some("enter"));
    assert_eq!(key_name(ev(Key::BackTab, false, false)).as_deref(), Some("shift+tab"));
    assert_eq!(key_name(ev(Key::Char(' '), false, false)).as_deref(), Some(" "));
    assert_eq!(key_name(ev(Key::Char('a'), false, false)).as_deref(), Some("a"));
    assert_eq!(key_name(ev(Key::Char('q'), true, false)), None);
    assert_eq!(key_name(ev(Key::Esc, false, false)), None);
    assert_eq!(key_name(ev(Key::Char('\u{7}'), false, false)), None);
}

#[test]
fn network_lines_show_active_interfaces_sorted() {
    let rates = vec![
        ("wlan0".to_string(), 2048u64, 0u64),
        ("lo".to_string(), 0u64, 0u64),
        ("eth0".to_string(), 100u64, 1536u64),
    ];
    let lines = mu::tui::status::network_lines(&rates);
    assert_eq!(
        lines,
        vec![
            "  eth0        ↑ 1.5 KB/s  ↓ 100 B/s".to_string(),
            "  wlan0       ↑ 0 B/s  ↓ 2.0 KB/s".to_string(),
        ]
    );
    assert!(mu::tui::status::network_lines(&[("lo".to_string(), 0, 0)]).is_empty());
}

#[test]
fn unavailable_lines_fit_the_width() {
    assert_eq!(mu::tui::status::unavailable_line("cpu: denied", 80), "  Unavailable: cpu: denied");
    assert_eq!(mu::tui::status::unavailable_line("cpu: denied", 10), "  Unavail…");
}
