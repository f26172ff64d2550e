//! What is printed and asked: the lines of reports, the rows of tables, and how answers are taken.
use vstd::prelude::*;

use crate::account::{StatusReport, StatusRowView};
use crate::cmd::accounts::ListedView;
use crate::cmd::init::{BASH_HOOK, COMMON_SCRIPT, ZSH_HOOK, script_for, shell_name};
use crate::cmd::pick::{
    CellsView, PluginPickView, config_dir_in, pick_keys, pick_labels, pick_of, saved_blocks,
    saved_list,
};
use crate::cmd::plugins::{catalog_line, plugin_file_of, plugin_line};
use crate::cmd::print::{
    add_lines, effective_body, effective_lines, errors_of, is_target, quota_cell, rows_of,
    saved_lines, scope_word, section, sooner, status_body, status_lines, status_row_lines,
    usage_cell,
};
use crate::cmd::prompt::{
    OptionReply, answers_to, cancels, confirmed_by, no_terminal_text, option_lines, option_named,
    option_question, option_reply_to, same_folded,
};
use crate::cmd::scope::{EffectiveView, ScopeSource};
use crate::cmd::session::quoted;
use crate::cmd::usage::{entry_at, main_entries, named_entries, quota_words, simple_at};
use crate::json::JsonView;
use crate::path::joined;
use crate::plugin::Manifest;
use crate::quota::bits_in;
use crate::text::{
    decimal_of, has_part, join_of, lower_of, padded, split_of, strip_prefix_of, trim_of,
    unsigned_of,
};
use crate::text_map::sorted_items;
use crate::time::{Timestamp, earlier};
use crate::usage::snapshot::SnapshotView;
use crate::usage::template::scalar_text;

verus! {

/// A text, or a dash where there is none.
pub open spec fn or_dash(text: Option<Seq<char>>) -> Seq<char> {
    match text {
        Some(t) => t,
        None => "-"@,
    }
}

// ---------------------------------------------------------------------------------------------
// Reports
// ---------------------------------------------------------------------------------------------
/// A saved account is reported with what is known of it, line by line: first that it was saved, or
/// updated where it was there before, then its address and its plan, and each warning.
pub proof fn saving_is_reported_line_by_line(
    there: bool,
    plugin: Seq<char>,
    alias: Seq<char>,
    email: Seq<char>,
    plan: Seq<char>,
    warnings: Seq<Seq<char>>,
)
    ensures
        add_lines(there, plugin, alias, None, None, seq![]).len() == 1,
        add_lines(true, plugin, alias, None, None, seq![])[0] == "Updated"@ + " "@ + plugin + "/"@
            + alias,
        add_lines(false, plugin, alias, None, None, seq![])[0] == "Saved"@ + " "@ + plugin + "/"@
            + alias,
        ({
            let lines = add_lines(there, plugin, alias, Some(email), Some(plan), warnings);
            &&& lines.len() == 3 + warnings.len()
            &&& lines[1] == "email: "@ + email
            &&& lines[2] == "plan: "@ + plan
            &&& forall|i: int|
                0 <= i < warnings.len() ==> lines[3 + i] == "warning: "@ + #[trigger] warnings[i]
        }),
{
}

/// A row tells the plugin, the alias, the address, the organisation, the plan and the scope of an
/// account in their columns, and dashes for what is not known. Its detail comes below where asked for.
pub proof fn a_row_has_its_columns(row: EffectiveView)
    ensures
        ({
            let line = padded(row.plugin_id, 16) + " "@ + padded(or_dash(row.alias), 16) + " "@
                + padded(or_dash(row.email), 28) + " "@ + padded(or_dash(row.org_name), 16) + " "@
                + padded(or_dash(row.plan), 8) + " "@ + scope_word(row.scope);
            &&& effective_lines(row, false) == seq![line]
            &&& effective_lines(row, true).len() == 2
            &&& effective_lines(row, true)[0] == line
            &&& effective_lines(row, true)[1] == "detail ["@ + row.plugin_id + "]: "@ + or_dash(
                row.detail,
            )
        }),
        scope_word(ScopeSource::Local) == "shell"@,
        scope_word(ScopeSource::Project) == "project"@,
        scope_word(ScopeSource::Global) == "global"@,
        scope_word(ScopeSource::Unset) == "-"@,
{
}

/// Rows follow each other as they are given.
pub proof fn rows_follow_each_other(rows: Seq<EffectiveView>, i: int)
    requires
        0 <= i < rows.len(),
    ensures
        effective_body(rows, false).len() == rows.len(),
        effective_body(rows, false)[i] == effective_lines(rows[i], false)[0],
    decreases rows.len(),
{
    let front = rows.drop_last();
    assert(rows.last() == rows[rows.len() - 1]);
    if front.len() > 0 {
        if i < front.len() {
            rows_follow_each_other(front, i);
            assert(front[i] == rows[i]);
        } else {
            rows_follow_each_other(front, 0);
        }
    } else {
        assert(effective_body(front, false).len() == 0);
    }
}

/// A filter keeps the rows of its plugin and the errors of files with its name in their path.
pub proof fn a_filter_keeps_what_is_of_the_plugin(
    rows: Seq<StatusRowView>,
    errors: Seq<(Seq<char>, Seq<char>)>,
    plugin: Seq<char>,
    row: StatusRowView,
    error: (Seq<char>, Seq<char>),
)
    ensures
        rows_of(rows, plugin).contains(row) <==> rows.contains(row) && row.plugin_id == plugin,
        errors_of(errors, plugin).contains(error) <==> errors.contains(error) && has_part(
            error.0,
            plugin,
        ),
    decreases rows.len() + errors.len(),
{
    if rows.len() > 0 {
        let front = rows.drop_last();
        a_filter_keeps_what_is_of_the_plugin(front, errors, plugin, row, error);
        lemma_rows_of(rows, plugin, row);
    } else if errors.len() > 0 {
        let front = errors.drop_last();
        a_filter_keeps_what_is_of_the_plugin(rows, front, plugin, row, error);
        let before = errors_of(front, plugin);
        let all = errors_of(errors, plugin);
        assert(errors[errors.len() - 1] == errors.last());
        if before.contains(error) {
            let k = choose|k: int| 0 <= k < before.len() && before[k] == error;
            assert(all[k] == error);
        }
        if front.contains(error) {
            let k = choose|k: int| 0 <= k < front.len() && front[k] == error;
            assert(errors[k] == error);
        }
        if all.contains(error) {
            let k = choose|k: int| 0 <= k < all.len() && all[k] == error;
            if k < before.len() {
                assert(before[k] == error);
            }
        }
        if errors.contains(error) {
            let k = choose|k: int| 0 <= k < errors.len() && errors[k] == error;
            if k < front.len() {
                assert(front[k] == error);
            } else if has_part(error.0, plugin) {
                assert(all[all.len() - 1] == error);
            }
        }
    }
}

proof fn lemma_rows_of(rows: Seq<StatusRowView>, plugin: Seq<char>, row: StatusRowView)
    ensures
        rows_of(rows, plugin).contains(row) <==> rows.contains(row) && row.plugin_id == plugin,
    decreases rows.len(),
{
    if rows.len() > 0 {
        let front = rows.drop_last();
        lemma_rows_of(front, plugin, row);
        let before = rows_of(front, plugin);
        let all = rows_of(rows, plugin);
        assert(rows[rows.len() - 1] == rows.last());
        if before.contains(row) {
            let k = choose|k: int| 0 <= k < before.len() && before[k] == row;
            assert(all[k] == row);
        }
        if front.contains(row) {
            let k = choose|k: int| 0 <= k < front.len() && front[k] == row;
            assert(rows[k] == row);
        }
        if all.contains(row) {
            let k = choose|k: int| 0 <= k < all.len() && all[k] == row;
            if k < before.len() {
                assert(before[k] == row);
            }
        }
        if rows.contains(row) {
            let k = choose|k: int| 0 <= k < rows.len() && rows[k] == row;
            if k < front.len() {
                assert(front[k] == row);
            } else if row.plugin_id == plugin {
                assert(all[all.len() - 1] == row);
            }
        }
    }
}

/// The status of a plugin tells whether it is loaded, where it is from, which account is active, how
/// many there are and when one was last used, each in its column; each of its warnings comes below.
pub proof fn a_status_row_has_its_columns(row: StatusRowView, last_used: Seq<char>)
    ensures
        ({
            let lines = status_row_lines(row, last_used);
            let word = if row.loaded {
                "ok"@
            } else {
                "missing"@
            };
            &&& lines.len() == 1 + row.warnings.len()
            &&& lines[0] == padded(row.plugin_id, 16) + " "@ + padded(word, 8) + " "@ + padded(
                or_dash(row.source),
                8,
            ) + " "@ + padded(or_dash(row.active_alias), 16) + " "@ + padded(
                decimal_of(row.account_count),
                8,
            ) + " "@ + last_used
            &&& forall|i: int|
                0 <= i < row.warnings.len() ==> lines[1 + i] == "warning ["@ + row.plugin_id
                    + "]: "@ + #[trigger] row.warnings[i]
        }),
{
}

/// A report on the status starts with the version and the last switch. Warnings and errors come at its
/// end, each under a heading, and only where there are any.
pub proof fn a_status_report_has_its_parts(
    report: StatusReport,
    last_switch: Seq<char>,
    last_used: Seq<Seq<char>>,
)
    ensures
        ({
            let lines = status_lines(report, last_switch, last_used);
            &&& lines[0] == "registry version: "@ + decimal_of(report.registry_version as nat)
            &&& lines[1] == "last switch: "@ + last_switch
        }),
        section("warnings:"@, seq![]).len() == 0,
        forall|body: Seq<Seq<char>>|
            body.len() > 0 ==> (#[trigger] section("warnings:"@, body)).len() == body.len() + 2
                && section("warnings:"@, body)[1] == "warnings:"@ && section("warnings:"@, body)[2]
                == body[0],
{
}

/// A saved account is told in seven lines, each with its own.
pub proof fn a_saved_account_has_seven_lines(
    row: ListedView,
    quota: Seq<char>,
    usage: Seq<char>,
    weekly: Seq<char>,
    next: Seq<char>,
)
    ensures
        ({
            let lines = saved_lines(row, quota, usage, weekly, next);
            &&& lines.len() == 7
            &&& lines[0] == "["@ + decimal_of(row.row) + "] "@ + row.account.plugin_id + "/"@
                + row.account.alias
            &&& lines[1] == "    Email: "@ + or_dash(row.account.email)
            &&& lines[2] == "    Quota: "@ + quota
            &&& lines[3] == "    Monthly Usage: "@ + usage
            &&& lines[4] == "    Weekly Usage : "@ + weekly
            &&& lines[5] == "    Next Refresh : "@ + next
            &&& row.account.active ==> lines[6] == "    Active       : "@ + "yes"@
            &&& !row.account.active ==> lines[6] == "    Active       : "@ + "-"@
        }),
{
}

/// A list of saved accounts starts with their number, and there is an empty line between each two.
pub proof fn a_list_starts_with_the_number(rows: Seq<ListedView>, cells: Seq<CellsView>)
    ensures
        rows.len() == 0 ==> saved_list(rows, cells) == seq!["No saved accounts."@],
        rows.len() > 0 ==> saved_list(rows, cells)[0] == "Saved accounts: "@ + decimal_of(rows.len()),
        rows.len() > 0 ==> saved_blocks(rows, cells).len() == 8 * rows.len() - 1,
    decreases rows.len(),
{
    if rows.len() > 0 {
        let front = rows.drop_last();
        a_list_starts_with_the_number(front, cells);
        if front.len() == 0 {
            assert(saved_blocks(front, cells).len() == 0);
        }
    }
}

/// A cell on the allowance shows what is known, an error where the question failed, and a dash where
/// nothing is known.
pub proof fn a_cell_shows_what_is_known(
    s: SnapshotView,
    failed: bool,
    percent: Seq<char>,
    reset: Seq<char>,
)
    ensures
        quota_words(s.quota, percent, reset) != "-"@ ==> quota_cell(Some(s), failed, percent, reset)
            == quota_words(s.quota, percent, reset),
        quota_words(s.quota, percent, reset) == "-"@ ==> quota_cell(Some(s), true, percent, reset)
            == "error"@ && quota_cell(Some(s), false, percent, reset) == "-"@,
        quota_cell(None, true, percent, reset) == "error"@,
        quota_cell(None, false, percent, reset) == "-"@,
{
}

/// A cell on usage shows the requests and the tokens that went in and came out, where any is counted.
pub proof fn a_cell_shows_what_is_counted(
    s: SnapshotView,
    failed: bool,
    requests: Seq<char>,
    tokens_in: Seq<char>,
    tokens_out: Seq<char>,
)
    ensures
        s.metrics.requests is Some || s.metrics.tokens_in is Some || s.metrics.tokens_out is Some
            || s.metrics.cost_usd is Some ==> usage_cell(
            Some(s),
            failed,
            requests,
            tokens_in,
            tokens_out,
        ) == "req "@ + requests + " | in "@ + tokens_in + " | out "@ + tokens_out,
        s.metrics.requests is None && s.metrics.tokens_in is None && s.metrics.tokens_out is None
            && s.metrics.cost_usd is None ==> usage_cell(
            Some(s),
            failed,
            requests,
            tokens_in,
            tokens_out,
        ) == "-"@,
        usage_cell(None, true, requests, tokens_in, tokens_out) == "error"@,
        usage_cell(None, false, requests, tokens_in, tokens_out) == "-"@,
{
}

/// The sooner of two times counts, and the one that is known where only one is.
pub proof fn the_sooner_time_counts(a: Timestamp, b: Timestamp)
    ensures
        earlier(a, b) ==> sooner(Some(a), Some(b)) == Some(a),
        earlier(b, a) ==> sooner(Some(a), Some(b)) == Some(b),
        sooner(Some(a), None) == Some(a),
        sooner(None, Some(b)) == Some(b),
        sooner(None, None) is None,
{
}

/// The allowance is told by what is left and when it ends; by its first three entries where neither is
/// known, and by a dash where nothing is.
pub proof fn the_allowance_is_told_by_what_is_left(
    quota: Map<Seq<char>, JsonView>,
    percent: Seq<char>,
    reset: Seq<char>,
)
    ensures
        quota_words(Map::empty(), percent, reset) == "-"@,
        quota != Map::<Seq<char>, JsonView>::empty() && main_entries(quota, percent, reset).len() > 0
            ==> quota_words(quota, percent, reset) == join_of(
            main_entries(quota, percent, reset),
            ", "@,
        ),
        quota != Map::<Seq<char>, JsonView>::empty() && main_entries(quota, percent, reset).len()
            == 0 && sorted_items(quota).len() >= 3 ==> quota_words(quota, percent, reset)
            == join_of(named_entries(sorted_items(quota).take(3)), ", "@),
        quota != Map::<Seq<char>, JsonView>::empty() && main_entries(quota, percent, reset).len()
            == 0 && sorted_items(quota).len() < 3 ==> quota_words(quota, percent, reset) == join_of(
            named_entries(sorted_items(quota)),
            ", "@,
        ),
        bits_in(entry_at(quota, "remaining_percent"@)) is Some ==> main_entries(
            quota,
            percent,
            reset,
        )[0] == "remaining="@ + percent,
        bits_in(entry_at(quota, "remaining_percent"@)) is None && simple_at(quota, "limit_tokens"@)
            is Some ==> main_entries(quota, percent, reset)[0] == simple_at(
            quota,
            "limit_tokens"@,
        )->0,
        simple_at(quota, "reset_time"@) is Some ==> main_entries(quota, percent, reset).last()
            == "reset="@ + reset,
        bits_in(entry_at(quota, "remaining_percent"@)) is Some && simple_at(quota, "reset_time"@)
            is None ==> main_entries(quota, percent, reset).len() == 1,
{
    let items = sorted_items(quota);
    if items.len() < 3 {
        assert(items.take(items.len() as int) == items);
    }
}

/// A target is one of the accounts in use.
pub proof fn a_target_is_one_of_those_in_use(
    targets: Seq<(Seq<char>, Seq<char>)>,
    plugin: Seq<char>,
    alias: Seq<char>,
)
    ensures
        is_target(targets, plugin, alias) <==> exists|i: int|
            0 <= i < targets.len() && (#[trigger] targets[i]).0 == plugin && targets[i].1 == alias,
{
    if targets.contains((plugin, alias)) {
        let k = choose|k: int| 0 <= k < targets.len() && targets[k] == (plugin, alias);
        assert(targets[k].0 == plugin);
    }
    if exists|i: int|
        0 <= i < targets.len() && (#[trigger] targets[i]).0 == plugin && targets[i].1 == alias {
        let i = choose|i: int|
            0 <= i < targets.len() && (#[trigger] targets[i]).0 == plugin && targets[i].1 == alias;
        assert(targets[i] == (plugin, alias));
    }
}

/// A plugin is told by its id, its version and its file; in the catalog by its columns.
pub proof fn a_plugin_is_told_by_id_and_version(
    word: Seq<char>,
    m: Manifest,
    path: Seq<char>,
    dir: Seq<char>,
    status: Seq<char>,
)
    ensures
        plugin_line(word, m, path) == word + "\t"@ + m.id@ + "\t"@ + m.version@ + "\t"@ + path,
        plugin_file_of(dir, m.id@) == joined(joined(dir, m.id@), "plugin.toml"@),
        catalog_line(m.id@, m.version@, "user"@, status) == padded(m.id@, 16) + " "@ + padded(
            m.version@,
            10,
        ) + " "@ + padded("user"@, 8) + " "@ + status,
{
}

// ---------------------------------------------------------------------------------------------
// Questions
// ---------------------------------------------------------------------------------------------
/// Choices are numbered from one on, and the question says up to which number.
pub proof fn choices_are_numbered_from_one(
    title: Seq<char>,
    prompt: Seq<char>,
    labels: Seq<Seq<char>>,
    i: int,
)
    requires
        0 <= i < labels.len(),
    ensures
        option_lines(labels).len() == labels.len(),
        option_lines(labels)[i] == "  "@ + decimal_of((i + 1) as nat) + ". "@ + labels[i],
        option_question(title, prompt, labels).lines[0] == title,
        option_question(title, prompt, labels).lines[i + 1] == option_lines(labels)[i],
        option_question(title, prompt, labels).prompt == prompt + " [1-"@ + decimal_of(labels.len())
            + " or q]: "@,
    decreases labels.len(),
{
    let front = labels.drop_last();
    if front.len() > 0 {
        if i < front.len() {
            choices_are_numbered_from_one(title, prompt, front, i);
        } else {
            choices_are_numbered_from_one(title, prompt, front, 0);
        }
    } else {
        assert(option_lines(front).len() == 0);
    }
}

/// A choice is made by its number, or by one of its names in either case of their letters; the first
/// choice with the name counts. Nothing typed asks again, and the end of the input gives up.
pub proof fn a_choice_is_made_by_number_or_name(keys: Seq<Seq<Seq<char>>>, line: Seq<char>)
    requires
        keys.len() <= usize::MAX,
    ensures
        option_reply_to(keys, None) == OptionReply::Cancel,
        trim_of(line).len() == 0 ==> option_reply_to(keys, Some(line)) == OptionReply::Again,
        trim_of(line).len() > 0 && cancels(trim_of(line)) ==> option_reply_to(keys, Some(line))
            == OptionReply::Cancel,
        trim_of(line).len() > 0 && !cancels(trim_of(line)) ==> {
            let n = unsigned_of(trim_of(line), usize::MAX as nat);
            let numbered = n is Some && 1 <= n->0 <= keys.len();
            &&& numbered ==> option_reply_to(keys, Some(line)) == OptionReply::Chosen(
                (n->0 - 1) as usize,
            )
            &&& !numbered ==> match option_reply_to(keys, Some(line)) {
                OptionReply::Chosen(i) => {
                    &&& i < keys.len()
                    &&& answers_to(keys[i as int], trim_of(line))
                    &&& forall|j: int|
                        0 <= j < i ==> !answers_to(#[trigger] keys[j], trim_of(line))
                },
                OptionReply::Invalid => forall|j: int|
                    0 <= j < keys.len() ==> !answers_to(#[trigger] keys[j], trim_of(line)),
                _ => false,
            }
        },
{
    lemma_option_named(keys, trim_of(line), 0);
}

proof fn lemma_option_named(keys: Seq<Seq<Seq<char>>>, answer: Seq<char>, from: int)
    requires
        0 <= from,
    ensures
        match option_named(keys, answer, from) {
            Some(i) => from <= i < keys.len() && answers_to(keys[i], answer) && forall|j: int|
                from <= j < i ==> !answers_to(#[trigger] keys[j], answer),
            None => forall|j: int| from <= j < keys.len() ==> !answers_to(#[trigger] keys[j], answer),
        },
    decreases keys.len() - from,
{
    if from < keys.len() && !answers_to(keys[from], answer) {
        lemma_option_named(keys, answer, from + 1);
    }
}

/// Three words give up, in either case of their letters.
pub proof fn three_words_give_up(answer: Seq<char>)
    ensures
        cancels(answer) <==> lower_of(answer) == lower_of("q"@) || lower_of(answer) == lower_of(
            "quit"@,
        ) || lower_of(answer) == lower_of("exit"@),
        forall|keys: Seq<Seq<char>>| #[trigger]
            answers_to(keys, answer) <==> exists|k: int|
                0 <= k < keys.len() && lower_of(#[trigger] keys[k]) == lower_of(answer),
{
    assert forall|keys: Seq<Seq<char>>| #[trigger] answers_to(keys, answer) <==> exists|k: int|
        0 <= k < keys.len() && lower_of(#[trigger] keys[k]) == lower_of(answer) by {
        if answers_to(keys, answer) {
            let k = choose|k: int| 0 <= k < keys.len() && same_folded(#[trigger] keys[k], answer);
            assert(lower_of(keys[k]) == lower_of(answer));
        }
        if exists|k: int| 0 <= k < keys.len() && lower_of(#[trigger] keys[k]) == lower_of(answer) {
            let k = choose|k: int|
                0 <= k < keys.len() && lower_of(#[trigger] keys[k]) == lower_of(answer);
            assert(same_folded(keys[k], answer));
        }
    }
}

/// Only a yes confirms; a no, nothing typed and the end of the input do not, and anything else asks
/// again.
pub proof fn only_a_yes_confirms(line: Seq<char>)
    ensures
        confirmed_by(None) == Some(false),
        trim_of(line).len() == 0 ==> confirmed_by(Some(line)) == Some(false),
        confirmed_by(Some(line)) == Some(true) ==> lower_of(trim_of(line)) == lower_of("y"@)
            || lower_of(trim_of(line)) == lower_of("yes"@),
        confirmed_by(Some(line)) is None ==> lower_of(trim_of(line)) != lower_of("y"@) && lower_of(
            trim_of(line),
        ) != lower_of("yes"@) && lower_of(trim_of(line)) != lower_of("n"@) && lower_of(
            trim_of(line),
        ) != lower_of("no"@),
        trim_of(line).len() > 0 && confirmed_by(Some(line)) == Some(false) ==> lower_of(
            trim_of(line),
        ) == lower_of("n"@) || lower_of(trim_of(line)) == lower_of("no"@),
{
}

/// One plugin is taken without a question; several are asked for, by id and by name; none is an error.
pub proof fn one_plugin_is_taken_without_a_question(names: Seq<(Seq<char>, Seq<char>)>)
    ensures
        names.len() == 0 ==> pick_of(names) is Err,
        names.len() == 1 ==> pick_of(names) == Ok::<PluginPickView, Seq<char>>(
            PluginPickView::Only { plugin_id: names[0].0, line: "plugin: "@ + names[0].0 },
        ),
        names.len() > 1 ==> (pick_of(names) matches Ok(PluginPickView::Ask { question, keys })
            && keys.len() == names.len() && question.lines.len() == names.len() + 1),
        forall|i: int|
            0 <= i < names.len() ==> #[trigger] pick_keys(names)[i] == seq![names[i].0, names[i].1],
        forall|i: int|
            0 <= i < names.len() ==> #[trigger] pick_labels(names)[i] == names[i].0 + " ("@
                + names[i].1 + ")"@,
{
    if names.len() > 1 {
        choices_are_numbered_from_one(
            "Available plugins:"@,
            "Select a plugin"@,
            pick_labels(names),
            0,
        );
    }
}

/// The directory of the settings follows its flag, or stands behind an equals sign; the first one
/// counts.
pub proof fn the_settings_follow_their_flag(args: Seq<Seq<char>>, i: int, value: Seq<char>)
    requires
        0 <= i < args.len(),
    ensures
        args[i] == "--config-dir"@ && i + 1 < args.len() ==> config_dir_in(args, i) == Some(
            args[i + 1],
        ),
        args[i] == "--config-dir"@ && i + 1 == args.len() ==> config_dir_in(args, i) is None,
        args[i] != "--config-dir"@ && strip_prefix_of(args[i], "--config-dir="@) == Some(value)
            ==> config_dir_in(args, i) == Some(value),
        args[i] != "--config-dir"@ && strip_prefix_of(args[i], "--config-dir="@) is None
            ==> config_dir_in(args, i) == config_dir_in(args, i + 1),
        config_dir_in(args, args.len() as int) is None,
{
}

// ---------------------------------------------------------------------------------------------
// Shells
// ---------------------------------------------------------------------------------------------
/// A shell that is named goes before the one in use, which is known by the last part of its path.
pub proof fn a_named_shell_goes_before_the_one_in_use(
    named: Seq<char>,
    path: Seq<char>,
    in_use: Option<Seq<char>>,
)
    ensures
        shell_name(Some(named), in_use) == Some(named),
        split_of(path, '/').last().len() > 0 ==> shell_name(None, Some(path)) == Some(
            split_of(path, '/').last(),
        ),
        split_of(path, '/').last().len() == 0 ==> shell_name(None, Some(path)) is None,
        shell_name(None, None) is None,
{
}

/// Two shells have a script; it names the program and ends with the hook of the shell.
pub proof fn two_shells_have_a_script(shell: Seq<char>, in_use: Option<Seq<char>>, binary: Seq<char>)
    ensures
        ({
            let start = "export ASWITCH_BIN="@ + quoted(binary) + COMMON_SCRIPT@ + "\n"@;
            &&& shell == "zsh"@ ==> script_for(Some(shell), in_use, binary) == Ok::<
                Seq<char>,
                Seq<char>,
            >(start + ZSH_HOOK@)
            &&& shell == "bash"@ ==> script_for(Some(shell), in_use, binary) == Ok::<
                Seq<char>,
                Seq<char>,
            >(start + BASH_HOOK@)
            &&& shell != "zsh"@ && shell != "bash"@ ==> script_for(Some(shell), in_use, binary)
                == Err::<Seq<char>, Seq<char>>(
                "unsupported shell: "@ + shell + "; expected zsh or bash"@,
            )
            &&& script_for(None, None, binary) is Err
        }),
{
    reveal_strlit("zsh");
    reveal_strlit("bash");
    assert("zsh"@.len() == 3 && "bash"@.len() == 4);
}

/// An entry of an allowance is the one under its name; as a text it is there where it is simple.
pub proof fn an_entry_is_the_one_under_its_name(quota: Map<Seq<char>, JsonView>, key: Seq<char>)
    ensures
        quota.contains_key(key) ==> entry_at(quota, key) == Some(quota[key]),
        !quota.contains_key(key) ==> entry_at(quota, key) is None && simple_at(quota, key) is None,
        quota.contains_key(key) ==> simple_at(quota, key) == scalar_text(quota[key]),
{
}

/// Entries are told with their names, in turn; those that are not simple are left out.
pub proof fn simple_entries_are_told(
    items: Seq<(Seq<char>, JsonView)>,
    name: Seq<char>,
    value: JsonView,
)
    ensures
        named_entries(Seq::<(Seq<char>, JsonView)>::empty()).len() == 0,
        scalar_text(value) is None ==> named_entries(items.push((name, value))) == named_entries(items),
        scalar_text(value) matches Some(text) ==> named_entries(items.push((name, value)))
            == named_entries(items).push(name + "="@ + text),
{
    assert(items.push((name, value)).drop_last() == items);
}

/// Without a terminal it is said what needs one, and without plugins where to look for them.
pub proof fn what_is_missing_is_said(action: Seq<char>)
    ensures
        no_terminal_text(action) == action
            + " requires an interactive terminal; provide explicit arguments and try again"@,
        pick_of(Seq::empty()) == Err::<PluginPickView, Seq<char>>(
            "No plugins are loaded; install one or check ~/.aswitch/plugins"@,
        ),
        script_for(None, None, action) == Err::<Seq<char>, Seq<char>>(
            "failed to detect shell; pass `aswitch init zsh` or `aswitch init bash`"@,
        ),
{
}

/// The rows of a report on the status follow each other, each with the time of its last use.
pub proof fn status_rows_follow_each_other(
    rows: Seq<StatusRowView>,
    row: StatusRowView,
    last_used: Seq<Seq<char>>,
)
    requires
        last_used.len() == rows.len() + 1,
    ensures
        status_body(rows.push(row), last_used) == status_body(rows, last_used) + status_row_lines(
            row,
            last_used[rows.len() as int],
        ),
        status_body(Seq::<StatusRowView>::empty(), last_used).len() == 0,
{
    assert(rows.push(row).drop_last() == rows);
}

} // verus!
