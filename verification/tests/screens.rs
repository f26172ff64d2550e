use aswitch::account::{
    AccountRecord, AddAccountReport, PluginStatusRow, RemoveAccountReport, StatusReport,
};
use aswitch::cmd::accounts::ListedAccount;
use aswitch::cmd::pick::{print_account_rows, require_accounts};
use aswitch::cmd::print::{
    display_scope, filter_status_report, format_quota_cell, format_usage_cell, is_effective,
    next_refresh, print_add_report, print_current_rows, print_remove_report, print_status_report,
    print_switch_report, AccountCells, MetricTexts, NextRefresh, UsageDisplay,
};
use aswitch::cmd::scope::{EffectiveAccountRecord, ScopeSource};
use aswitch::identity::Identity;
use aswitch::json::Json;
use aswitch::switch::SwitchReport;
use aswitch::text_map::TextMap;
use aswitch::time::Timestamp;
use aswitch::tui::details::{
    account_identity, account_metadata_summary, format_extra_metrics, format_notes,
    format_source_summary, header_selected_line, help_lines, quota_left_badge, quota_left_text,
    quota_usage_color, quota_used_from_summary, shorten_extra_name, status_style, UsageTexts,
};
use aswitch::tui::news::{account_news, load_order, IdentityRow, QuotaEvent};
use aswitch::tui::piece::{badge, bold, detail_line, metric_line, nav_pill, plain, Line, Tone};
use aswitch::tui::screen::{
    quota_readings, quota_reset_summary, AccountQuotaSummary, Key, KeyAction, Panel, Percent,
    PercentSource, Screen,
};
use aswitch::tui::tables::{
    plugin_status, plugins_table, quota_left_cell, quota_reset_cell, switch_layout, Listing,
    SwitchLayout, Width,
};
use aswitch::usage::snapshot::{UsageMetrics, UsageSnapshot, UsageSourceSummary};
use aswitch::usage::{UsageSelection, UsageWindow};

fn moment(secs: i64) -> Timestamp {
    Timestamp { secs, nanos: 0 }
}

fn account(plugin_id: &str, alias: &str, active: bool) -> AccountRecord {
    AccountRecord {
        plugin_id: plugin_id.to_string(),
        alias: alias.to_string(),
        email: Some(format!("{alias}@example.com")),
        org_name: None,
        plan: Some("plus".to_string()),
        added_at: moment(0),
        last_used_at: None,
        active,
    }
}

fn plugin(id: &str, loaded: bool, warnings: Vec<String>) -> PluginStatusRow {
    PluginStatusRow {
        plugin_id: id.to_string(),
        display_name: None,
        version: Some("1.0.0".to_string()),
        source: None,
        loaded,
        active_alias: Some("work".to_string()),
        account_count: 2,
        last_used_at: None,
        warnings,
    }
}

fn screen() -> Screen {
    Screen::start(
        vec![account("codex", "work", true), account("gemini", "home", false)],
        vec![plugin("codex", true, vec![])],
    )
}

fn snapshot() -> UsageSnapshot {
    UsageSnapshot {
        plugin_id: "codex".to_string(),
        alias: "work".to_string(),
        window: UsageWindow::Today,
        source: UsageSelection::Both,
        metrics: UsageMetrics::none(),
        local_metrics: None,
        api_metrics: None,
        quota: TextMap::new(),
        warnings: vec![],
        sources: vec![UsageSourceSummary {
            kind: "local_log".to_string(),
            path_or_url: Some("/logs".to_string()),
            metrics: UsageMetrics::none(),
            quota: TextMap::new(),
            warnings: vec![],
        }],
        cached: true,
    }
}

fn percent(text: &str) -> Option<Percent> {
    Some(Percent {
        text: text.to_string(),
        compact: text.to_string(),
        rest: 0.0f64.to_bits(),
    })
}

fn summary(left: &str, used: f64) -> AccountQuotaSummary {
    AccountQuotaSummary {
        remaining: percent(left),
        used: Some(used.to_bits()),
        reset_time: Some("04-26 03:40".to_string()),
        session_remaining: None,
        weekly_remaining: None,
    }
}

fn texts() -> UsageTexts {
    UsageTexts {
        requests: "2".to_string(),
        tokens_in: "8.5k".to_string(),
        tokens_out: "10".to_string(),
        cost: "$0.10".to_string(),
        quota: "plus".to_string(),
        left: summary("40%", 60.0),
        extra: vec![(
            "cache_read_tokens".to_string(),
            "7".to_string(),
        )],
    }
}

fn words(line: &Line) -> String {
    line.pieces.iter().map(|piece| piece.text.as_str()).collect()
}

// ---------------------------------------------------------------------------------------------
// Keys and news
// ---------------------------------------------------------------------------------------------
#[test]
fn keys_move_the_selection_within_the_list() {
    let mut screen = screen();
    assert!(matches!(screen.handle_key(Key::Up), KeyAction::Nothing));
    assert_eq!(screen.selected, 0);
    assert!(matches!(screen.handle_key(Key::Down), KeyAction::Select));
    assert_eq!(screen.selected, 1);
    assert_eq!(screen.status, "Selected gemini/home.");
    assert!(matches!(screen.handle_key(Key::Char('j')), KeyAction::Nothing));
    assert_eq!(screen.selected, 1);
    match screen.handle_key(Key::Enter) {
        KeyAction::Switch { plugin_id, alias } => {
            assert_eq!((plugin_id.as_str(), alias.as_str()), ("gemini", "home"))
        }
        _ => panic!("a switch was expected"),
    }
}

#[test]
fn windows_and_sources_come_around() {
    let mut screen = screen();
    let (window, source) = (screen.usage_window, screen.usage_source);
    for _ in 0..6 {
        assert!(matches!(
            screen.handle_key(Key::Char('w')),
            KeyAction::Load { refresh: false }
        ));
    }
    for _ in 0..3 {
        screen.handle_key(Key::Char('s'));
    }
    assert_eq!(screen.usage_window, window);
    assert_eq!(screen.usage_source, source);
    assert!(matches!(
        screen.handle_key(Key::Char('R')),
        KeyAction::Load { refresh: true }
    ));
}

#[test]
fn panels_and_help_are_opened_by_keys() {
    let mut screen = screen();
    screen.handle_key(Key::Tab);
    assert_eq!(screen.panel, Panel::Plugins);
    assert_eq!(screen.panel_name(), "Plugins");
    assert_eq!(screen.status, "Switched to Plugins.");
    assert!(matches!(screen.handle_key(Key::Down), KeyAction::Nothing));
    screen.handle_key(Key::Char('1'));
    assert_eq!(screen.panel, Panel::Switch);
    screen.handle_key(Key::Char('?'));
    assert!(screen.help_open);
    screen.handle_key(Key::Char('q'));
    assert!(screen.should_quit);
    assert_eq!(
        screen.shortcut_text(),
        "q quit | ? help | Tab panel | j/k move | Enter switch | w/s/R usage"
    );
}

#[test]
fn news_are_taken_up_until_there_are_no_more() {
    let mut screen = screen();
    screen.handle_key(Key::Char('R'));
    assert!(screen.quota_is_loading());
    assert!(screen.quota_is_loading_for(0));
    assert!(screen.drain(vec![
        QuotaEvent::Identities(vec![IdentityRow {
            plugin_id: "codex".to_string(),
            alias: "work".to_string(),
            email: Some("new@example.com".to_string()),
            org_name: None,
            plan: None,
        }]),
        QuotaEvent::Quota {
            index: 0,
            summary: summary("40%", 60.0),
        },
    ]));
    assert!(!screen.quota_is_loading_for(0));
    assert!(screen.account_quota[0].has_display());
    screen.tick(vec![QuotaEvent::Done]);
    assert!(!screen.quota_is_loading());
    assert_eq!(screen.status, "Usage ready.");
    assert_eq!(screen.selected, 0);
    assert_eq!(load_order(1, 3), vec![1, 0, 2]);
}

#[test]
fn the_usage_of_the_selected_account_alone_is_told() {
    let told = account_news(1, 1, Some((snapshot(), summary("40%", 60.0))));
    assert_eq!(told.len(), 2);
    assert!(matches!(
        &told[0],
        QuotaEvent::SelectedUsage { index: 1, snapshot } if snapshot.alias == "work"
    ));
    assert!(matches!(
        &told[1],
        QuotaEvent::Quota { index: 1, summary } if summary.used == Some(60.0f64.to_bits())
    ));
    let other = account_news(0, 1, Some((snapshot(), summary("40%", 60.0))));
    assert_eq!(other.len(), 1);
    assert!(matches!(
        &other[0],
        QuotaEvent::Quota { index: 0, summary } if summary.has_display()
    ));
    let failed = account_news(1, 1, None);
    assert_eq!(failed.len(), 1);
    assert!(matches!(
        &failed[0],
        QuotaEvent::Quota { index: 1, summary } if !summary.has_display()
    ));
}

// ---------------------------------------------------------------------------------------------
// Allowances
// ---------------------------------------------------------------------------------------------
#[test]
fn an_allowance_is_shown_in_short_and_in_words() {
    let mut both = summary("40%", 60.0);
    both.weekly_remaining = percent("10%");
    assert_eq!(quota_left_text(&both), "40%/10%");
    assert_eq!(quota_left_badge(&both).as_deref(), Some("40% now / 10% wk"));
    assert_eq!(quota_left_text(&summary("40%", 60.0)), "40%/-");
    assert_eq!(
        quota_left_badge(&summary("40%", 60.0)).as_deref(),
        Some("40% left")
    );
    assert_eq!(quota_left_text(&AccountQuotaSummary::unknown()), "-");
    assert_eq!(quota_left_badge(&AccountQuotaSummary::unknown()), None);
    assert!(!AccountQuotaSummary::unknown().has_display());
}

#[test]
fn colours_tell_how_much_is_used() {
    for (used, tone) in [
        (100.0, Tone::Warning),
        (85.0, Tone::Warning),
        (84.9, Tone::AccentSoft),
        (60.0, Tone::AccentSoft),
        (59.9, Tone::Success),
        (0.0, Tone::Success),
        (-5.0, Tone::Success),
        (f64::NAN, Tone::Success),
        (f64::INFINITY, Tone::Warning),
    ] {
        assert_eq!(quota_usage_color(f64::to_bits(used)), tone);
    }
    assert_eq!(quota_left_cell(&summary("1%", 99.0), false).style, bold(Tone::Warning));
    for (rest, tone) in [
        (99.0, Tone::Warning),
        (70.0, Tone::AccentSoft),
        (1.0, Tone::Success),
    ] {
        let mut only_left = AccountQuotaSummary::unknown();
        only_left.remaining = Some(Percent {
            text: "left".to_string(),
            compact: "left".to_string(),
            rest: f64::to_bits(rest),
        });
        assert_eq!(quota_used_from_summary(&only_left), Some(f64::to_bits(rest)));
        assert_eq!(quota_left_cell(&only_left, false).style, bold(tone));
    }
    assert_eq!(quota_used_from_summary(&summary("1%", 99.0)), Some(99.0f64.to_bits()));
    assert_eq!(
        quota_left_cell(&AccountQuotaSummary::unknown(), false).style,
        plain(Tone::Muted)
    );
    assert_eq!(
        quota_reset_cell(&AccountQuotaSummary::unknown(), false).style,
        plain(Tone::Muted)
    );
}

#[test]
fn percentages_are_named_or_what_another_leaves() {
    let mut usage = snapshot();
    usage.quota.insert(
        "used_percent".to_string(),
        Json::parse("30.0").ok().expect("json"),
    );
    usage.quota.insert(
        "session_remaining_percent".to_string(),
        Json::parse("70.0").ok().expect("json"),
    );
    let readings = quota_readings(&usage);
    assert_eq!(readings.used, Some(PercentSource::Is(30.0f64.to_bits())));
    assert_eq!(
        readings.remaining,
        Some(PercentSource::RestOf(30.0f64.to_bits()))
    );
    assert_eq!(
        readings.session_remaining,
        Some(PercentSource::Is(70.0f64.to_bits()))
    );
    assert_eq!(readings.weekly_remaining, None);
    assert_eq!(
        quota_reset_summary("2026-04-26T03:40:00Z", Some("04-26 05:40".to_string())),
        "04-26 05:40"
    );
    assert_eq!(quota_reset_summary("soon", None), "soon");
}

// ---------------------------------------------------------------------------------------------
// Lines and tables
// ---------------------------------------------------------------------------------------------
#[test]
fn pieces_have_their_looks() {
    let piece = badge("x", Tone::Text, Tone::Accent);
    assert_eq!(piece.text, " x ");
    assert!(piece.style.bold);
    assert_eq!(nav_pill("1 Switch", false).style.fg, Some(Tone::Muted));
    assert_eq!(words(&detail_line("Who", "me")), "Who   me");
    assert_eq!(words(&detail_line("Profile", "me")), "Profileme");
    assert_eq!(
        words(&metric_line(("Req", "1"), ("In", "2"), ("Out", "3"))),
        "Req 1 | In 2 | Out 3"
    );
    assert_eq!(status_style("Switch FAILED"), bold(Tone::Warning));
    assert_eq!(status_style("Switched to codex."), bold(Tone::Success));
    assert_eq!(status_style("Usage ready."), plain(Tone::Text));
    assert_eq!(help_lines().len(), 10);
}

#[test]
fn the_selected_account_is_shown_in_the_header() {
    let account = account("codex", "work", true);
    let line = header_selected_line(Some(&account), Some(&summary("10%", 90.0)), 80);
    assert_eq!(
        words(&line),
        " Selected  codex/work  work@example.com  10% left  reset 04-26 03:40"
    );
    assert_eq!(line.pieces[4].style.bg, Some(Tone::Warning));
    assert_eq!(
        words(&header_selected_line(None, None, 80)),
        " Selected  No saved accounts"
    );
    let lines = screen().header(&AccountQuotaSummary::unknown(), 100);
    assert!(words(&lines[0]).starts_with(" ASWITCH   2 accounts  1 live  1 plugins"));
    let footer = screen().footer(100);
    assert!(words(&footer[0]).starts_with("Keys  q quit"));
}

#[test]
fn details_depend_on_the_room_there_is() {
    let mut screen = screen();
    let lines = screen.selection_details(&texts(), "-", 80, 9);
    assert_eq!(words(&lines[0]), "codex/work  ACTIVE ");
    assert_eq!(words(&lines[1]), "Who   work@example.com");
    assert_eq!(words(&lines[2]), "Meta  plus");
    assert_eq!(words(lines.last().expect("line")), "Usage No usage snapshot loaded");

    screen.show_usage(snapshot());
    let lines = screen.selection_details(&texts(), "-", 80, 9);
    assert_eq!(
        words(&lines[4]),
        "Left 40%/- | Reset 04-26 03:40 | Mode both cached"
    );
    assert_eq!(words(&lines[5]), "Req 2 | In 8.5k | Out 10");
    assert_eq!(words(&lines[7]), "Sourcelocal_log /logs");
    assert_eq!(words(&lines[8]), "Extra cache_read 7");

    let lines = screen.selection_details(&texts(), "-", 80, 20);
    assert_eq!(words(&lines[1]), "Email work@example.com");
    assert_eq!(words(&lines[2]), "Plan  plus");
    assert_eq!(words(lines.last().expect("line")), "Notes clean");
}

#[test]
fn details_are_put_in_few_words() {
    let account = account("codex", "work", true);
    assert_eq!(account_identity(&account), "work@example.com");
    assert_eq!(account_metadata_summary(&account, 10), "plus");
    assert_eq!(shorten_extra_name("cache_creation_tokens"), "cache_write");
    assert_eq!(shorten_extra_name("tool_tokens"), "tool tokens");
    let extra: Vec<(String, String)> = ["a", "b", "c"]
        .iter()
        .map(|name| (name.to_string(), "1".to_string()))
        .collect();
    assert_eq!(format_extra_metrics(&extra, 40), "a 1 | b 1");
    assert_eq!(format_extra_metrics(&vec![], 40), "-");
    assert_eq!(format_source_summary(&snapshot().sources, 40), "local_log /logs");
    let two = vec![snapshot().sources.remove(0), snapshot().sources.remove(0)];
    assert_eq!(format_source_summary(&two, 40), "local_log /logs +1");
    assert_eq!(format_notes(&vec!["a".to_string(), "b".to_string()], 40), "a | b");
    assert_eq!(format_notes(&vec![], 40), "clean");
}

#[test]
fn lists_have_fewer_columns_in_little_room() {
    let screen = screen();
    match screen.accounts_table(80) {
        Listing::Table {
            title,
            header,
            widths,
            rows,
            ..
        } => {
            assert_eq!(title, "Accounts 2 saved / 1 live");
            assert_eq!(header.len(), 6);
            assert_eq!(widths[2], Width::Min(14));
            assert_eq!(rows[0].cells[0].text, ">");
            assert_eq!(rows[0].cells[1].text, "codex/work");
            assert_eq!(rows[1].style, plain(Tone::Muted));
        }
        Listing::Note { .. } => panic!("a table was expected"),
    }
    assert!(matches!(
        screen.accounts_table(104),
        Listing::Table { header, .. } if header.len() == 7
    ));
    match Screen::start(vec![], vec![]).accounts_table(80) {
        Listing::Note { text, .. } => assert!(text.contains("aswitch save")),
        Listing::Table { .. } => panic!("a note was expected"),
    }
    assert_eq!(plugin_status(&plugin("a", false, vec![])).text, "missing");
    assert_eq!(
        plugin_status(&plugin("a", true, vec!["w".to_string()])).text,
        "warn"
    );
    match plugins_table(&vec![plugin("a", true, vec![])], 96) {
        Listing::Table { title, rows, .. } => {
            assert_eq!(title, "Plugins 1 discovered / 1 loaded");
            let cells: Vec<&str> = rows[0].cells.iter().map(|c| c.text.as_str()).collect();
            assert_eq!(cells, vec!["a", "a", "work", "2", "-", "1.0.0", "ok"]);
        }
        Listing::Note { .. } => panic!("a table was expected"),
    }
    assert_eq!(switch_layout(118, 10), SwitchLayout::SideBySide);
    assert_eq!(
        switch_layout(80, 18),
        SwitchLayout::Stacked { detail_height: 10 }
    );
    assert_eq!(
        switch_layout(80, 5),
        SwitchLayout::Stacked { detail_height: 9 }
    );
}

// ---------------------------------------------------------------------------------------------
// What commands print
// ---------------------------------------------------------------------------------------------
#[test]
fn saved_accounts_are_listed_with_their_usage() {
    let rows = vec![
        ListedAccount {
            row: 1,
            account: account("codex", "work", true),
        },
        ListedAccount {
            row: 2,
            account: account("gemini", "home", false),
        },
    ];
    let cells = |quota: &str| AccountCells {
        quota: quota.to_string(),
        usage: "-".to_string(),
        weekly_usage: "-".to_string(),
        next_refresh: "now".to_string(),
    };
    let lines = print_account_rows(&rows, &vec![cells("40%"), cells("-")]);
    assert_eq!(lines[0], "Saved accounts: 2");
    assert_eq!(lines[1], "[1] codex/work");
    assert_eq!(lines[2], "    Email: work@example.com");
    assert_eq!(lines[3], "    Quota: 40%");
    assert_eq!(lines[7], "    Active       : yes");
    assert_eq!(lines[8], "");
    assert_eq!(lines[9], "[2] gemini/home");
    assert_eq!(print_account_rows(&vec![], &vec![]), vec!["No saved accounts."]);
    assert!(require_accounts(&rows).is_ok());
    assert!(require_accounts(&vec![]).is_err());
}

#[test]
fn cells_tell_what_is_known() {
    let failed = UsageDisplay {
        snapshot: None,
        failed: true,
    };
    let none = MetricTexts {
        requests: "-".to_string(),
        tokens_in: "-".to_string(),
        tokens_out: "-".to_string(),
        cost: "-".to_string(),
    };
    assert_eq!(format_quota_cell(&failed, "", ""), "error");
    assert_eq!(format_usage_cell(&failed, &none), "error");
    let mut usage = snapshot();
    usage.metrics.requests = Some(2.0f64.to_bits());
    let known = UsageDisplay {
        snapshot: Some(usage),
        failed: false,
    };
    let some = MetricTexts {
        requests: "2".to_string(),
        ..none
    };
    assert_eq!(format_usage_cell(&known, &some), "req 2 | in - | out -");
    assert!(matches!(
        next_refresh(Some(moment(20)), Some(moment(10)), moment(5)),
        NextRefresh::At(t) if t == moment(10)
    ));
    assert!(matches!(
        next_refresh(Some(moment(20)), None, moment(30)),
        NextRefresh::Now
    ));
    assert!(matches!(next_refresh(None, None, moment(0)), NextRefresh::Unknown));
    let targets = vec![("codex".to_string(), "work".to_string())];
    assert!(is_effective(&targets, "codex", "work"));
    assert!(!is_effective(&targets, "codex", "home"));
}

#[test]
fn reports_are_printed_line_by_line() {
    let lines = print_add_report(&AddAccountReport {
        plugin_id: "codex".to_string(),
        alias: "work".to_string(),
        overwritten: false,
        saved_at: moment(0),
        identity: Identity {
            email: Some("work@example.com".to_string()),
            org_name: None,
            plan: None,
            extra: TextMap::new(),
        },
        warnings: vec!["careful".to_string()],
    });
    assert!(lines.iter().any(|line| line.contains("codex/work")));
    assert!(lines.iter().any(|line| line.contains("careful")));
    assert!(!print_switch_report(&SwitchReport {
        plugin_id: "codex".to_string(),
        alias: "work".to_string(),
        previous_active: None,
        switched_at: moment(0),
    })
    .is_empty());
    assert!(!print_remove_report(&RemoveAccountReport {
        plugin_id: "codex".to_string(),
        alias: "work".to_string(),
        removed_backup: true,
        was_active: true,
    })
    .is_empty());
    assert_eq!(display_scope(ScopeSource::Global), "global");
    let rows = vec![EffectiveAccountRecord {
        plugin_id: "codex".to_string(),
        alias: Some("work".to_string()),
        email: None,
        org_name: None,
        plan: None,
        scope: ScopeSource::Local,
        detail: None,
    }];
    assert!(print_current_rows(&rows, true)
        .iter()
        .any(|line| line.contains("codex")));
    let report = StatusReport {
        registry_version: 1,
        last_switch_at: None,
        plugins: vec![plugin("a", true, vec![]), plugin("b", false, vec![])],
        warnings: vec![],
        errors: vec![],
    };
    let report = filter_status_report(report, Some("b"));
    assert_eq!(report.plugins.len(), 1);
    let lines = print_status_report(&report, "-", &vec!["-".to_string()]);
    assert!(lines.iter().any(|line| line.contains('b')));
}
