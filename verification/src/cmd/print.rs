//! What the commands on accounts print.
use vstd::prelude::*;

use super::accounts::{ListedAccount, ListedView};
use super::choice::{display_opt, shown};
use super::scope::{EffectiveAccountRecord, EffectiveView, ScopeSource};
use super::usage::{format_quota, quota_words};
use crate::account::{
    AddAccountReport, PluginStatusError, PluginStatusRow, RemoveAccountReport, StatusReport,
    StatusRowView,
};
use crate::switch::SwitchReport;
use crate::text::{
    contains, copy_all, copy_opt, decimal, decimal_of, has_part, join2, join3, pad_right, padded,
    push_line, same,
};
use crate::time::Timestamp;
use crate::usage::snapshot::{SnapshotView, UsageSnapshot};

verus! {

// ---------------------------------------------------------------------------------------------
// Saving, switching, removing
// ---------------------------------------------------------------------------------------------
/// Some texts with the same words in front.
pub open spec fn prefixed(word: Seq<char>, texts: Seq<Seq<char>>) -> Seq<Seq<char>> {
    texts.map_values(|t: Seq<char>| word + t)
}

/// Adds some texts with the same words in front.
pub fn push_prefixed(lines: &mut Vec<String>, word: &str, texts: &Vec<String>)
    ensures
        final(lines).deep_view() == old(lines).deep_view() + prefixed(word@, texts.deep_view()),
{
    let ghost before = lines.deep_view();
    let ghost all = prefixed(word@, texts.deep_view());
    let mut i: usize = 0;
    assert(before + all.take(0) == before);
    while i < texts.len()
        invariant
            i <= texts@.len(),
            all == prefixed(word@, texts.deep_view()),
            lines.deep_view() == before + all.take(i as int),
        decreases texts@.len() - i,
    {
        assert(texts.deep_view()[i as int] == texts@[i as int]@);
        push_line(lines, join2(word, texts[i].as_str()));
        assert(all.take(i + 1) == all.take(i as int).push(all[i as int]));
        assert(before + all.take(i + 1) == (before + all.take(i as int)).push(all[i as int]));
        i = i + 1;
    }
    assert(all.take(all.len() as int) == all);
}

/// A line with a text, where there is one.
pub open spec fn optional_line(word: Seq<char>, text: Option<Seq<char>>) -> Seq<Seq<char>> {
    match text {
        Some(t) => seq![word + t],
        None => seq![],
    }
}

fn push_optional(lines: &mut Vec<String>, word: &str, text: &Option<String>)
    ensures
        final(lines).deep_view() == old(lines).deep_view() + optional_line(word@, text.deep_view()),
{
    let ghost before = lines.deep_view();
    match text {
        Some(t) => {
            push_line(lines, join2(word, t.as_str()));
            assert(before + seq![word@ + t@] == before.push(word@ + t@));
        },
        None => {
            assert(before + Seq::<Seq<char>>::empty() == before);
        },
    }
}

/// What is printed of an account that was saved.
pub open spec fn add_lines(
    overwritten: bool,
    plugin_id: Seq<char>,
    alias: Seq<char>,
    email: Option<Seq<char>>,
    plan: Option<Seq<char>>,
    warnings: Seq<Seq<char>>,
) -> Seq<Seq<char>> {
    seq![
        (if overwritten {
            "Updated"@
        } else {
            "Saved"@
        }) + " "@ + plugin_id + "/"@ + alias,
    ] + optional_line("email: "@, email) + optional_line("plan: "@, plan) + prefixed(
        "warning: "@,
        warnings,
    )
}

/// What is printed of an account that was saved.
pub fn print_add_report(report: &AddAccountReport) -> (r: Vec<String>)
    ensures
        r.deep_view() == add_lines(
            report.overwritten,
            report.plugin_id@,
            report.alias@,
            report.identity.email.deep_view(),
            report.identity.plan.deep_view(),
            report.warnings.deep_view(),
        ),
{
    let status = if report.overwritten {
        "Updated"
    } else {
        "Saved"
    };
    let mut lines: Vec<String> = Vec::new();
    let first = join3(
        join3(status, " ", report.plugin_id.as_str()).as_str(),
        "/",
        report.alias.as_str(),
    );
    let ghost f = first@;
    push_line(&mut lines, first);
    assert(lines.deep_view() == seq![f]);
    push_optional(&mut lines, "email: ", &report.identity.email);
    push_optional(&mut lines, "plan: ", &report.identity.plan);
    push_prefixed(&mut lines, "warning: ", &report.warnings);
    lines
}

/// What is printed of a switch.
pub fn print_switch_report(report: &SwitchReport) -> (r: Vec<String>)
    ensures
        r.deep_view() == seq![
            "Switched to "@ + report.plugin_id@ + "/"@ + report.alias@,
            "Restart the corresponding client for the new account to take effect."@,
        ],
{
    let mut lines: Vec<String> = Vec::new();
    push_line(
        &mut lines,
        join3(
            join2("Switched to ", report.plugin_id.as_str()).as_str(),
            "/",
            report.alias.as_str(),
        ),
    );
    push_line(
        &mut lines,
        "Restart the corresponding client for the new account to take effect.".to_owned(),
    );
    assert(lines.deep_view() == seq![
        "Switched to "@ + report.plugin_id@ + "/"@ + report.alias@,
        "Restart the corresponding client for the new account to take effect."@,
    ]);
    lines
}

/// What is printed of an account that was removed.
pub fn print_remove_report(report: &RemoveAccountReport) -> (r: Vec<String>)
    ensures
        r.deep_view() == (if report.was_active {
            seq![
                "Removed "@ + report.plugin_id@ + "/"@ + report.alias@,
                "The live credentials remain in the original client location, but the registry no longer tracks them."@,
            ]
        } else {
            seq!["Removed "@ + report.plugin_id@ + "/"@ + report.alias@]
        }),
{
    let mut lines: Vec<String> = Vec::new();
    push_line(
        &mut lines,
        join3(
            join2("Removed ", report.plugin_id.as_str()).as_str(),
            "/",
            report.alias.as_str(),
        ),
    );
    if report.was_active {
        push_line(
            &mut lines,
            "The live credentials remain in the original client location, but the registry no longer tracks them.".to_owned(),
        );
        assert(lines.deep_view() == seq![
            "Removed "@ + report.plugin_id@ + "/"@ + report.alias@,
            "The live credentials remain in the original client location, but the registry no longer tracks them."@,
        ]);
    } else {
        assert(lines.deep_view() == seq!["Removed "@ + report.plugin_id@ + "/"@ + report.alias@]);
    }
    lines
}

// ---------------------------------------------------------------------------------------------
// The accounts in effect
// ---------------------------------------------------------------------------------------------
pub open spec fn scope_word(scope: ScopeSource) -> Seq<char> {
    match scope {
        ScopeSource::Local => "shell"@,
        ScopeSource::Project => "project"@,
        ScopeSource::Global => "global"@,
        ScopeSource::Unset => "-"@,
    }
}

pub fn display_scope(scope: ScopeSource) -> (r: &'static str)
    ensures
        r@ == scope_word(scope),
{
    match scope {
        ScopeSource::Local => "shell",
        ScopeSource::Project => "project",
        ScopeSource::Global => "global",
        ScopeSource::Unset => "-",
    }
}

/// The columns of a line in the list of the accounts in effect.
pub open spec fn current_line(
    plugin: Seq<char>,
    alias: Seq<char>,
    email: Seq<char>,
    org: Seq<char>,
    plan: Seq<char>,
    scope: Seq<char>,
) -> Seq<char> {
    padded(plugin, 16) + " "@ + padded(alias, 16) + " "@ + padded(email, 28) + " "@ + padded(org, 16)
        + " "@ + padded(plan, 8) + " "@ + scope
}

fn write_current_line(plugin: &str, alias: &str, email: &str, org: &str, plan: &str, scope: &str) -> (r:
    String)
    ensures
        r@ == current_line(plugin@, alias@, email@, org@, plan@, scope@),
{
    let a = join3(pad_right(plugin, 16).as_str(), " ", pad_right(alias, 16).as_str());
    let b = join3(a.as_str(), " ", pad_right(email, 28).as_str());
    let c = join3(b.as_str(), " ", pad_right(org, 16).as_str());
    let d = join3(c.as_str(), " ", pad_right(plan, 8).as_str());
    join3(d.as_str(), " ", scope)
}

/// The lines for one account in effect.
pub open spec fn effective_lines(row: EffectiveView, explain: bool) -> Seq<Seq<char>> {
    let line = current_line(
        row.plugin_id,
        shown(row.alias),
        shown(row.email),
        shown(row.org_name),
        shown(row.plan),
        scope_word(row.scope),
    );
    if explain {
        seq![line, "detail ["@ + row.plugin_id + "]: "@ + shown(row.detail)]
    } else {
        seq![line]
    }
}

pub open spec fn effective_body(rows: Seq<EffectiveView>, explain: bool) -> Seq<Seq<char>>
    decreases rows.len(),
{
    if rows.len() == 0 {
        seq![]
    } else {
        effective_body(rows.drop_last(), explain) + effective_lines(rows.last(), explain)
    }
}

/// What is printed of the accounts in effect.
pub fn print_current_rows(rows: &Vec<EffectiveAccountRecord>, explain: bool) -> (r: Vec<String>)
    ensures
        r.deep_view() == (if rows@.len() == 0 {
            seq!["No plugins or active accounts."@]
        } else {
            seq![
                current_line("PLUGIN"@, "ALIAS"@, "EMAIL"@, "ORG"@, "PLAN"@, "SCOPE"@),
            ] + effective_body(rows.deep_view(), explain)
        }),
{
    let mut lines: Vec<String> = Vec::new();
    if rows.len() == 0 {
        push_line(&mut lines, "No plugins or active accounts.".to_owned());
        assert(lines.deep_view() == seq!["No plugins or active accounts."@]);
        return lines;
    }
    push_line(
        &mut lines,
        write_current_line("PLUGIN", "ALIAS", "EMAIL", "ORG", "PLAN", "SCOPE"),
    );
    let ghost head = lines.deep_view();
    assert(head == seq![current_line("PLUGIN"@, "ALIAS"@, "EMAIL"@, "ORG"@, "PLAN"@, "SCOPE"@)]);
    let ghost all = rows.deep_view();
    let mut i: usize = 0;
    assert(head + effective_body(all.take(0), explain) == head);
    while i < rows.len()
        invariant
            i <= rows@.len(),
            all == rows.deep_view(),
            lines.deep_view() == head + effective_body(all.take(i as int), explain),
        decreases rows@.len() - i,
    {
        let row = &rows[i];
        let ghost before = lines.deep_view();
        assert(all.take(i + 1).drop_last() == all.take(i as int));
        assert(all[i as int] == rows@[i as int].deep_view());
        push_line(
            &mut lines,
            write_current_line(
                row.plugin_id.as_str(),
                display_opt(&row.alias).as_str(),
                display_opt(&row.email).as_str(),
                display_opt(&row.org_name).as_str(),
                display_opt(&row.plan).as_str(),
                display_scope(row.scope),
            ),
        );
        if explain {
            push_line(
                &mut lines,
                join3(
                    join2("detail [", row.plugin_id.as_str()).as_str(),
                    "]: ",
                    display_opt(&row.detail).as_str(),
                ),
            );
        }
        assert(lines.deep_view() == before + effective_lines(all[i as int], explain));
        assert(head + effective_body(all.take(i + 1), explain) == (head + effective_body(
            all.take(i as int),
            explain,
        )) + effective_lines(all[i as int], explain));
        i = i + 1;
    }
    assert(all.take(all.len() as int) == all);
    lines
}

// ---------------------------------------------------------------------------------------------
// The state of the program
// ---------------------------------------------------------------------------------------------
/// The rows of one plugin.
pub open spec fn rows_of(rows: Seq<StatusRowView>, plugin_id: Seq<char>) -> Seq<StatusRowView>
    decreases rows.len(),
{
    if rows.len() == 0 {
        seq![]
    } else if rows.last().plugin_id == plugin_id {
        rows_of(rows.drop_last(), plugin_id).push(rows.last())
    } else {
        rows_of(rows.drop_last(), plugin_id)
    }
}

pub open spec fn error_views(errors: Seq<PluginStatusError>) -> Seq<(Seq<char>, Seq<char>)> {
    errors.map_values(|e: PluginStatusError| (e.path@, e.error@))
}

/// The errors whose place speaks of a plugin.
pub open spec fn errors_of(errors: Seq<(Seq<char>, Seq<char>)>, plugin_id: Seq<char>) -> Seq<
    (Seq<char>, Seq<char>),
>
    decreases errors.len(),
{
    if errors.len() == 0 {
        seq![]
    } else if has_part(errors.last().0, plugin_id) {
        errors_of(errors.drop_last(), plugin_id).push(errors.last())
    } else {
        errors_of(errors.drop_last(), plugin_id)
    }
}

/// The state of the program as far as one plugin goes, where one is asked for.
pub fn filter_status_report(report: StatusReport, plugin_filter: Option<&str>) -> (r: StatusReport)
    ensures
        r.registry_version == report.registry_version,
        r.last_switch_at == report.last_switch_at,
        r.warnings.deep_view() == report.warnings.deep_view(),
        match plugin_filter {
            None => r == report,
            Some(plugin_id) => r.plugins.deep_view() == rows_of(
                report.plugins.deep_view(),
                plugin_id@,
            ) && error_views(r.errors@) == errors_of(error_views(report.errors@), plugin_id@),
        },
{
    match plugin_filter {
        None => report,
        Some(plugin_id) => {
            let ghost all = report.plugins.deep_view();
            let mut plugins: Vec<PluginStatusRow> = Vec::new();
            let mut i: usize = 0;
            assert(plugins.deep_view() == rows_of(all.take(0), plugin_id@));
            while i < report.plugins.len()
                invariant
                    i <= report.plugins@.len(),
                    all == report.plugins.deep_view(),
                    plugins.deep_view() == rows_of(all.take(i as int), plugin_id@),
                decreases report.plugins@.len() - i,
            {
                assert(all.take(i + 1).drop_last() == all.take(i as int));
                assert(all[i as int] == report.plugins@[i as int].deep_view());
                if same(report.plugins[i].plugin_id.as_str(), plugin_id) {
                    let ghost before = plugins.deep_view();
                    plugins.push(copy_row(&report.plugins[i]));
                    assert(plugins.deep_view() == before.push(all[i as int]));
                }
                i = i + 1;
            }
            assert(all.take(all.len() as int) == all);
            let ghost bad = error_views(report.errors@);
            let mut errors: Vec<PluginStatusError> = Vec::new();
            let mut k: usize = 0;
            assert(error_views(errors@) == errors_of(bad.take(0), plugin_id@));
            while k < report.errors.len()
                invariant
                    k <= report.errors@.len(),
                    bad == error_views(report.errors@),
                    error_views(errors@) == errors_of(bad.take(k as int), plugin_id@),
                decreases report.errors@.len() - k,
            {
                assert(bad.take(k + 1).drop_last() == bad.take(k as int));
                let e = &report.errors[k];
                if contains(e.path.as_str(), plugin_id) {
                    let ghost before = errors@;
                    errors.push(
                        PluginStatusError { path: e.path.clone(), error: e.error.clone() },
                    );
                    assert(error_views(errors@) == error_views(before).push(bad[k as int]));
                }
                k = k + 1;
            }
            assert(bad.take(bad.len() as int) == bad);
            StatusReport {
                registry_version: report.registry_version,
                last_switch_at: report.last_switch_at,
                plugins,
                warnings: report.warnings,
                errors,
            }
        },
    }
}

fn copy_row(row: &PluginStatusRow) -> (r: PluginStatusRow)
    ensures
        r.deep_view() == row.deep_view(),
{
    PluginStatusRow {
        plugin_id: row.plugin_id.clone(),
        display_name: copy_opt(&row.display_name),
        version: copy_opt(&row.version),
        source: copy_opt(&row.source),
        loaded: row.loaded,
        active_alias: copy_opt(&row.active_alias),
        account_count: row.account_count,
        last_used_at: row.last_used_at,
        warnings: copy_all(&row.warnings),
    }
}

/// The columns of a line in the list of the states of the plugins.
pub open spec fn status_line(
    plugin: Seq<char>,
    status: Seq<char>,
    source: Seq<char>,
    active: Seq<char>,
    count: Seq<char>,
    last_used: Seq<char>,
) -> Seq<char> {
    padded(plugin, 16) + " "@ + padded(status, 8) + " "@ + padded(source, 8) + " "@ + padded(
        active,
        16,
    ) + " "@ + padded(count, 8) + " "@ + last_used
}

fn write_status_line(
    plugin: &str,
    status: &str,
    source: &str,
    active: &str,
    count: &str,
    last_used: &str,
) -> (r: String)
    ensures
        r@ == status_line(plugin@, status@, source@, active@, count@, last_used@),
{
    let a = join3(pad_right(plugin, 16).as_str(), " ", pad_right(status, 8).as_str());
    let b = join3(a.as_str(), " ", pad_right(source, 8).as_str());
    let c = join3(b.as_str(), " ", pad_right(active, 16).as_str());
    let d = join3(c.as_str(), " ", pad_right(count, 8).as_str());
    join3(d.as_str(), " ", last_used)
}

/// The lines for the state of a plugin. `last_used` is when it was last used, as it is shown.
pub open spec fn status_row_lines(row: StatusRowView, last_used: Seq<char>) -> Seq<Seq<char>> {
    seq![
        status_line(
            row.plugin_id,
            if row.loaded {
                "ok"@
            } else {
                "missing"@
            },
            shown(row.source),
            shown(row.active_alias),
            decimal_of(row.account_count),
            last_used,
        ),
    ] + prefixed("warning ["@ + row.plugin_id + "]: "@, row.warnings)
}

/// The lines for the state of a plugin.
pub fn print_status_row(row: &PluginStatusRow, last_used: &str) -> (r: Vec<String>)
    ensures
        r.deep_view() == status_row_lines(row.deep_view(), last_used@),
{
    let mut lines: Vec<String> = Vec::new();
    let first = write_status_line(
        row.plugin_id.as_str(),
        if row.loaded {
            "ok"
        } else {
            "missing"
        },
        display_opt(&row.source).as_str(),
        display_opt(&row.active_alias).as_str(),
        decimal(row.account_count as u64).as_str(),
        last_used,
    );
    let ghost f = first@;
    push_line(&mut lines, first);
    assert(lines.deep_view() == seq![f]);
    push_prefixed(
        &mut lines,
        join3("warning [", row.plugin_id.as_str(), "]: ").as_str(),
        &row.warnings,
    );
    lines
}

pub open spec fn status_body(rows: Seq<StatusRowView>, last_used: Seq<Seq<char>>) -> Seq<Seq<char>>
    decreases rows.len(),
{
    if rows.len() == 0 {
        seq![]
    } else {
        status_body(rows.drop_last(), last_used) + status_row_lines(
            rows.last(),
            last_used[rows.len() - 1],
        )
    }
}

/// A part of a list under a heading, with an empty line in front; nothing where it has no lines.
pub open spec fn section(heading: Seq<char>, body: Seq<Seq<char>>) -> Seq<Seq<char>> {
    if body.len() == 0 {
        seq![]
    } else {
        seq![""@, heading] + body
    }
}

pub open spec fn error_lines(errors: Seq<PluginStatusError>) -> Seq<Seq<char>> {
    errors.map_values(|e: PluginStatusError| "- "@ + e.path@ + ": "@ + e.error@)
}

/// What is printed of the state of the program. The times are given as they are shown.
pub open spec fn status_lines(
    report: StatusReport,
    last_switch: Seq<char>,
    last_used: Seq<Seq<char>>,
) -> Seq<Seq<char>> {
    seq![
        "registry version: "@ + decimal_of(report.registry_version as nat),
        "last switch: "@ + last_switch,
        ""@,
        status_line("PLUGIN"@, "STATUS"@, "SOURCE"@, "ACTIVE"@, "COUNT"@, "LAST_USED"@),
    ] + status_body(report.plugins.deep_view(), last_used) + section(
        "warnings:"@,
        prefixed("- "@, report.warnings.deep_view()),
    ) + section("errors:"@, error_lines(report.errors@))
}

/// What is printed of the state of the program.
pub fn print_status_report(report: &StatusReport, last_switch: &str, last_used: &Vec<String>) -> (r:
    Vec<String>)
    requires
        last_used@.len() == report.plugins@.len(),
    ensures
        r.deep_view() == status_lines(*report, last_switch@, last_used.deep_view()),
{
    let mut lines: Vec<String> = Vec::new();
    push_line(
        &mut lines,
        join2("registry version: ", decimal(report.registry_version as u64).as_str()),
    );
    push_line(&mut lines, join2("last switch: ", last_switch));
    push_line(&mut lines, "".to_owned());
    push_line(
        &mut lines,
        write_status_line("PLUGIN", "STATUS", "SOURCE", "ACTIVE", "COUNT", "LAST_USED"),
    );
    let ghost head = lines.deep_view();
    assert(head == seq![
        "registry version: "@ + decimal_of(report.registry_version as nat),
        "last switch: "@ + last_switch@,
        ""@,
        status_line("PLUGIN"@, "STATUS"@, "SOURCE"@, "ACTIVE"@, "COUNT"@, "LAST_USED"@),
    ]);
    let ghost rows = report.plugins.deep_view();
    let ghost times = last_used.deep_view();
    let mut i: usize = 0;
    assert(head + status_body(rows.take(0), times) == head);
    while i < report.plugins.len()
        invariant
            i <= report.plugins@.len(),
            last_used@.len() == report.plugins@.len(),
            rows == report.plugins.deep_view(),
            times == last_used.deep_view(),
            lines.deep_view() == head + status_body(rows.take(i as int), times),
        decreases report.plugins@.len() - i,
    {
        assert(rows.take(i + 1).drop_last() == rows.take(i as int));
        assert(rows[i as int] == report.plugins@[i as int].deep_view());
        assert(times[i as int] == last_used@[i as int]@);
        let more = print_status_row(&report.plugins[i], last_used[i].as_str());
        crate::text::append_all(&mut lines, &more);
        assert(head + status_body(rows.take(i + 1), times) == (head + status_body(
            rows.take(i as int),
            times,
        )) + status_row_lines(rows[i as int], times[i as int]));
        i = i + 1;
    }
    assert(rows.take(rows.len() as int) == rows);
    let ghost body = lines.deep_view();
    let ghost warned = prefixed("- "@, report.warnings.deep_view());
    if report.warnings.len() > 0 {
        push_line(&mut lines, "".to_owned());
        push_line(&mut lines, "warnings:".to_owned());
        push_prefixed(&mut lines, "- ", &report.warnings);
        assert(lines.deep_view() == body + section("warnings:"@, warned));
    } else {
        assert(body + section("warnings:"@, warned) == body);
    }
    let ghost mid = lines.deep_view();
    let ghost bad = error_lines(report.errors@);
    if report.errors.len() > 0 {
        push_line(&mut lines, "".to_owned());
        push_line(&mut lines, "errors:".to_owned());
        let ghost start = lines.deep_view();
        let mut k: usize = 0;
        assert(start + bad.take(0) == start);
        while k < report.errors.len()
            invariant
                k <= report.errors@.len(),
                bad == error_lines(report.errors@),
                lines.deep_view() == start + bad.take(k as int),
            decreases report.errors@.len() - k,
        {
            let e = &report.errors[k];
            push_line(
                &mut lines,
                join3(join2("- ", e.path.as_str()).as_str(), ": ", e.error.as_str()),
            );
            assert(bad.take(k + 1) == bad.take(k as int).push(bad[k as int]));
            assert(start + bad.take(k + 1) == (start + bad.take(k as int)).push(bad[k as int]));
            k = k + 1;
        }
        assert(bad.take(bad.len() as int) == bad);
        assert(lines.deep_view() == mid + section("errors:"@, bad));
    } else {
        assert(mid + section("errors:"@, bad) == mid);
    }
    lines
}

// ---------------------------------------------------------------------------------------------
// The saved accounts
// ---------------------------------------------------------------------------------------------
/// What is known of the usage of an account: the usage itself, or that it could not be found out.
pub struct UsageDisplay {
    pub snapshot: Option<UsageSnapshot>,
    pub failed: bool,
}

/// An allowance in the list of saved accounts.
pub open spec fn quota_cell(
    snapshot: Option<SnapshotView>,
    failed: bool,
    percent: Seq<char>,
    reset: Seq<char>,
) -> Seq<char> {
    if snapshot is Some && quota_words(snapshot->0.quota, percent, reset) != "-"@ {
        quota_words(snapshot->0.quota, percent, reset)
    } else if failed {
        "error"@
    } else {
        "-"@
    }
}

/// An allowance in the list of saved accounts.
pub fn format_quota_cell(display: &UsageDisplay, percent: &str, reset: &str) -> (r: String)
    ensures
        r@ == quota_cell(display.snapshot.deep_view(), display.failed, percent@, reset@),
{
    match &display.snapshot {
        Some(snapshot) => {
            let words = format_quota(&snapshot.quota, percent, reset);
            if !same(words.as_str(), "-") {
                return words;
            }
        },
        None => {},
    }
    if display.failed {
        "error".to_owned()
    } else {
        "-".to_owned()
    }
}

/// The numbers of a usage as they are shown.
pub struct MetricTexts {
    pub requests: String,
    pub tokens_in: String,
    pub tokens_out: String,
    pub cost: String,
}

/// What was used, in the list of saved accounts.
pub open spec fn usage_cell(
    snapshot: Option<SnapshotView>,
    failed: bool,
    requests: Seq<char>,
    tokens_in: Seq<char>,
    tokens_out: Seq<char>,
) -> Seq<char> {
    match snapshot {
        None => if failed {
            "error"@
        } else {
            "-"@
        },
        Some(s) => if s.metrics.requests is None && s.metrics.tokens_in is None
            && s.metrics.tokens_out is None && s.metrics.cost_usd is None {
            "-"@
        } else {
            "req "@ + requests + " | in "@ + tokens_in + " | out "@ + tokens_out
        },
    }
}

/// What was used, in the list of saved accounts.
pub fn format_usage_cell(display: &UsageDisplay, texts: &MetricTexts) -> (r: String)
    ensures
        r@ == usage_cell(
            display.snapshot.deep_view(),
            display.failed,
            texts.requests@,
            texts.tokens_in@,
            texts.tokens_out@,
        ),
{
    match &display.snapshot {
        None => if display.failed {
            "error".to_owned()
        } else {
            "-".to_owned()
        },
        Some(s) => if s.metrics.requests.is_none() && s.metrics.tokens_in.is_none()
            && s.metrics.tokens_out.is_none() && s.metrics.cost_usd.is_none() {
            "-".to_owned()
        } else {
            join3(
                join3(
                    join2("req ", texts.requests.as_str()).as_str(),
                    " | in ",
                    texts.tokens_in.as_str(),
                ).as_str(),
                " | out ",
                texts.tokens_out.as_str(),
            )
        },
    }
}

/// When the usage in the list of saved accounts is looked up again.
#[derive(Clone, Copy, Debug, PartialEq, Eq, Structural)]
pub enum NextRefresh {
    Unknown,
    Now,
    At(Timestamp),
}

/// The earlier of two times.
pub open spec fn sooner(a: Option<Timestamp>, b: Option<Timestamp>) -> Option<Timestamp> {
    match (a, b) {
        (Some(x), Some(y)) => if crate::time::earlier(y, x) {
            b
        } else {
            a
        },
        (Some(_), None) => a,
        (None, _) => b,
    }
}

/// When the usage is looked up again: at the earlier of two times, or now where that has come.
pub fn next_refresh(current_month: Option<Timestamp>, weekly: Option<Timestamp>, now: Timestamp) -> (r:
    NextRefresh)
    ensures
        r == match sooner(current_month, weekly) {
            None => NextRefresh::Unknown,
            Some(t) => if crate::time::earlier(now, t) {
                NextRefresh::At(t)
            } else {
                NextRefresh::Now
            },
        },
{
    let next: Option<Timestamp> = match current_month {
        Some(x) => match weekly {
            Some(y) => if y.is_before(&x) {
                Some(y)
            } else {
                Some(x)
            },
            None => Some(x),
        },
        None => weekly,
    };
    match next {
        None => NextRefresh::Unknown,
        Some(t) => if now.is_before(&t) {
            NextRefresh::At(t)
        } else {
            NextRefresh::Now
        },
    }
}

/// What is shown of a saved account beside what is saved of it.
pub struct AccountCells {
    pub quota: String,
    pub usage: String,
    pub weekly_usage: String,
    pub next_refresh: String,
}

/// The lines for a saved account.
pub open spec fn saved_lines(
    row: ListedView,
    quota: Seq<char>,
    usage: Seq<char>,
    weekly_usage: Seq<char>,
    next_refresh: Seq<char>,
) -> Seq<Seq<char>> {
    seq![
        "["@ + decimal_of(row.row) + "] "@ + row.account.plugin_id + "/"@ + row.account.alias,
        "    Email: "@ + shown(row.account.email),
        "    Quota: "@ + quota,
        "    Monthly Usage: "@ + usage,
        "    Weekly Usage : "@ + weekly_usage,
        "    Next Refresh : "@ + next_refresh,
        "    Active       : "@ + if row.account.active {
            "yes"@
        } else {
            "-"@
        },
    ]
}

/// The lines for a saved account.
pub fn print_account_row(row: &ListedAccount, cells: &AccountCells) -> (r: Vec<String>)
    ensures
        r.deep_view() == saved_lines(
            row.deep_view(),
            cells.quota@,
            cells.usage@,
            cells.weekly_usage@,
            cells.next_refresh@,
        ),
{
    let mut lines: Vec<String> = Vec::new();
    push_line(
        &mut lines,
        join3(
            join3(
                join2("[", decimal(row.row as u64).as_str()).as_str(),
                "] ",
                row.account.plugin_id.as_str(),
            ).as_str(),
            "/",
            row.account.alias.as_str(),
        ),
    );
    push_line(&mut lines, join2("    Email: ", display_opt(&row.account.email).as_str()));
    push_line(&mut lines, join2("    Quota: ", cells.quota.as_str()));
    push_line(&mut lines, join2("    Monthly Usage: ", cells.usage.as_str()));
    push_line(&mut lines, join2("    Weekly Usage : ", cells.weekly_usage.as_str()));
    push_line(&mut lines, join2("    Next Refresh : ", cells.next_refresh.as_str()));
    push_line(
        &mut lines,
        join2(
            "    Active       : ",
            if row.account.active {
                "yes"
            } else {
                "-"
            },
        ),
    );
    assert(lines.deep_view() == saved_lines(
        row.deep_view(),
        cells.quota@,
        cells.usage@,
        cells.weekly_usage@,
        cells.next_refresh@,
    ));
    lines
}

/// Whether an account is in effect.
pub open spec fn is_target(targets: Seq<(Seq<char>, Seq<char>)>, plugin: Seq<char>, alias: Seq<char>) -> bool {
    targets.contains((plugin, alias))
}

/// Whether an account is in effect.
pub fn is_effective(targets: &Vec<(String, String)>, plugin_id: &str, alias: &str) -> (r: bool)
    ensures
        r == is_target(super::scope::pairs_of(targets@), plugin_id@, alias@),
{
    let ghost all = super::scope::pairs_of(targets@);
    let mut i: usize = 0;
    while i < targets.len()
        invariant
            i <= targets@.len(),
            all == super::scope::pairs_of(targets@),
            forall|k: int| 0 <= k < i ==> #[trigger] all[k] != (plugin_id@, alias@),
        decreases targets@.len() - i,
    {
        assert(all[i as int] == (targets@[i as int].0@, targets@[i as int].1@));
        if same(targets[i].0.as_str(), plugin_id) && same(targets[i].1.as_str(), alias) {
            return true;
        }
        i = i + 1;
    }
    false
}

} // verus!
