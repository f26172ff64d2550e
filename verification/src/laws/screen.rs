//! The screen and the questions: what keys and answers do, what news change, and what is shown where.
use vstd::prelude::*;

use crate::account::{RecordView, StatusRowView};
use crate::cmd::accounts::{ListedView, ResolvedView, grouped};
use crate::cmd::choice::{
    ChoiceView, account_choices, account_keys, account_words, active_among, after_plugin,
    first_turn, next_turn, plugin_words, plugins_of, shown,
};
use crate::cmd::prompt::{OptionReply, confirmed_by, option_reply_to};
use crate::cmd::usage::entry_at;
use crate::json::JsonView;
use crate::quota::bits_in;
use crate::text::{decimal_of, has_part, join_of, lower_of, truncated};
use crate::tui::details::{
    UsageTextsView, active_count, compact_usage, extra_text, extra_words, first_two, help_of, identity_text,
    left_badge, left_text, loaded_count, metadata_text, notes_text, profile_of, selected_line_of,
    selected_quota_of, selection_of, short_name, shortcuts_of, sources_text, spaced, spinner_of,
    status_look, title_of, top_line_of, usage_tone, used_in, wide_usage,
};
use crate::tui::news::{
    EventView, IdentityRowView, account_events, after_event, after_events, after_tick, all_but,
    any_news, identified, identity_of, is_news, is_waiting, load_order_of,
};
use crate::tui::piece::{
    PieceView, Tone, badge_of, badge_style, bold_style, detail_of, metrics_of, nav_pill_of,
    piece_of, plain_style, raw_style,
};
use crate::tui::screen::{
    ActionView, Key, Panel, PercentSource, QuotaView, ScreenView, account_name, after_key,
    first_screen, next_selection, next_window, percent_from, reloading, unknown_quota,
};
use crate::tui::tables::{
    AccountTableLayout, ListingView, Width, account_columns, account_listing, account_row,
    account_widths, is_pending, layout_for, left_cell, pending_of, plugin_columns, plugin_listing, plugin_row,
    plugin_state, plugin_widths, quota_at, reset_cell, selected_look, striped,
};
use crate::usage::snapshot::{SnapshotView, SummaryView};
use crate::usage::{UsageSelection, UsageWindow, selection_name, window_name};

verus! {

// ---------------------------------------------------------------------------------------------
// Choosing an account
// ---------------------------------------------------------------------------------------------
/// An account is chosen only by confirming it. Anything but a yes leaves without one, or asks again.
pub proof fn an_account_is_chosen_by_confirming_it(
    account: ResolvedView,
    rows: Seq<ListedView>,
    line: Option<Seq<char>>,
)
    ensures
        ({
            let (next, question) = next_turn(ChoiceView::Confirm { account }, rows, line);
            &&& confirmed_by(line) == Some(true) ==> next == ChoiceView::Done(Some(account))
            &&& confirmed_by(line) == Some(false) ==> next == ChoiceView::Done(None)
            &&& confirmed_by(line) is None ==> next == (ChoiceView::Confirm { account })
                && question.prompt == "Switch to "@ + account.plugin_id + "/"@ + account.alias
                + "? [y/N]: "@
        }),
{
}

/// A plugin with one account asks for that account at once; one with several asks which.
pub proof fn an_only_account_is_not_asked_for(rows: Seq<ListedView>, plugin: Seq<char>)
    ensures
        ({
            let places = grouped(rows)[plugin];
            let (next, question) = after_plugin(rows, plugin);
            &&& places.len() == 1 ==> (next matches ChoiceView::Confirm { account }
                && account.plugin_id == rows[places[0] as int].account.plugin_id && account.alias
                == rows[places[0] as int].account.alias)
            &&& places.len() != 1 ==> next == (ChoiceView::Account { plugin_id: plugin })
        }),
        plugins_of(rows).len() == 1 ==> first_turn(rows).0 == after_plugin(rows, plugins_of(rows)[0]).0,
        plugins_of(rows).len() != 1 ==> first_turn(rows).0 == ChoiceView::Plugin,
{
}

/// An answer for a plugin goes on with that plugin; one for an account asks to confirm that account.
/// Giving up ends without an account, and other answers leave the question where it is.
pub proof fn an_answer_goes_on_with_what_it_names(
    rows: Seq<ListedView>,
    plugin: Seq<char>,
    line: Option<Seq<char>>,
)
    ensures
        ({
            let places = grouped(rows)[plugin];
            let reply = option_reply_to(account_keys(rows, places), line);
            let next = next_turn(ChoiceView::Account { plugin_id: plugin }, rows, line).0;
            &&& reply matches OptionReply::Chosen(i) ==> (next matches ChoiceView::Confirm {
                account,
            } && account.plugin_id == rows[places[i as int] as int].account.plugin_id
                && account.alias == rows[places[i as int] as int].account.alias)
            &&& reply == OptionReply::Cancel ==> next == ChoiceView::Done(None)
            &&& reply == OptionReply::Again || reply == OptionReply::Invalid ==> next
                == (ChoiceView::Account { plugin_id: plugin })
        }),
        ({
            let reply = option_reply_to(crate::cmd::choice::plugin_keys(rows), line);
            let next = next_turn(ChoiceView::Plugin, rows, line).0;
            &&& reply matches OptionReply::Chosen(i) ==> next == after_plugin(
                rows,
                plugins_of(rows)[i as int],
            ).0
            &&& reply == OptionReply::Cancel ==> next == ChoiceView::Done(None)
            &&& reply == OptionReply::Again || reply == OptionReply::Invalid ==> next
                == ChoiceView::Plugin
        }),
        ({
            let reply = option_reply_to(crate::cmd::choice::plugin_keys(rows), line);
            let question = next_turn(ChoiceView::Plugin, rows, line).1;
            &&& reply == OptionReply::Invalid ==> question.lines == seq!["Invalid input. Try again."@]
            &&& reply == OptionReply::Again ==> question.lines.len() == 0
        }),
{
}

/// An account can be named by its alias or by its full name.
pub proof fn an_account_is_named_by_alias_or_in_full(
    rows: Seq<ListedView>,
    places: Seq<usize>,
    i: int,
)
    requires
        0 <= i < places.len(),
    ensures
        ({
            let account = rows[places[i] as int].account;
            &&& account_keys(rows, places)[i] == seq![
                account.alias,
                account.plugin_id + "/"@ + account.alias,
            ]
            &&& account_choices(rows, places)[i] == account_words(account)
            &&& account.active ==> account_words(account) == account.alias + " [active]"@
                + "  email="@ + shown(account.email) + "  plan="@ + shown(account.plan)
            &&& !account.active ==> account_words(account) == account.alias + ""@ + "  email="@
                + shown(account.email) + "  plan="@ + shown(account.plan)
        }),
{
}

/// The active account of a plugin is the first of its rows that is active.
pub proof fn the_first_active_row_counts(rows: Seq<ListedView>, places: Seq<usize>, from: int)
    requires
        0 <= from,
    ensures
        match active_among(rows, places, from) {
            Some(alias) => exists|i: int|
                from <= i < places.len() && rows[(#[trigger] places[i]) as int].account.active
                    && rows[places[i] as int].account.alias == alias,
            None => forall|i: int|
                from <= i < places.len() ==> !rows[(#[trigger] places[i]) as int].account.active,
        },
        forall|p: Seq<char>| #[trigger]
            plugin_words(rows, p, places) == p + " ("@ + decimal_of(places.len())
                + " accounts, active: "@ + shown(active_among(rows, places, 0)) + ")"@,
    decreases places.len() - from,
{
    if from < places.len() && !rows[places[from] as int].account.active {
        the_first_active_row_counts(rows, places, from + 1);
    }
}

// ---------------------------------------------------------------------------------------------
// Keys
// ---------------------------------------------------------------------------------------------
/// One key leaves, one opens and closes the help, and none of the two does anything else.
pub proof fn two_keys_work_everywhere(s: ScreenView)
    ensures
        after_key(s, Key::Char('q')).0 == (ScreenView { should_quit: true, ..s }),
        after_key(s, Key::Char('q')).1 == ActionView::Nothing,
        after_key(s, Key::Char('?')).0.help_open == !s.help_open,
        after_key(s, Key::Char('?')).0.selected == s.selected,
        after_key(s, Key::Char('?')).0.panel == s.panel,
        after_key(s, Key::Char('?')).0.should_quit == s.should_quit,
        after_key(s, Key::Char('?')).1 == ActionView::Nothing,
        after_key(s, Key::Other) == (s, ActionView::Nothing),
{
}

/// Each panel has its number, and a tab goes to the other one.
pub proof fn panels_are_reached_by_number_and_tab(s: ScreenView)
    ensures
        after_key(s, Key::Char('1')).0.panel == Panel::Switch,
        after_key(s, Key::Char('2')).0.panel == Panel::Plugins,
        s.panel == Panel::Switch ==> after_key(s, Key::Tab).0.panel == Panel::Plugins,
        s.panel == Panel::Plugins ==> after_key(s, Key::Tab).0.panel == Panel::Switch,
        after_key(after_key(s, Key::Tab).0, Key::Tab).0.panel == s.panel,
        after_key(s, Key::Tab).1 == ActionView::Nothing,
        after_key(s, Key::Tab).0.selected == s.selected,
        after_key(s, Key::Char('1')).0.selected == s.selected,
{
}

/// Moving goes one row down or up and stops at the ends; letters and arrows do the same. A move asks
/// for the usage of the row anew.
pub proof fn moving_goes_one_row(s: ScreenView)
    requires
        s.panel == Panel::Switch,
        s.selected < s.accounts.len(),
        s.accounts.len() <= usize::MAX,
    ensures
        after_key(s, Key::Char('j')) == after_key(s, Key::Down),
        after_key(s, Key::Char('k')) == after_key(s, Key::Up),
        s.selected + 1 < s.accounts.len() ==> after_key(s, Key::Down).0.selected == s.selected + 1
            && after_key(s, Key::Down).1 == ActionView::Select && after_key(s, Key::Down).0.usage
            is None,
        s.selected + 1 == s.accounts.len() ==> after_key(s, Key::Down) == (s, ActionView::Nothing),
        s.selected > 0 ==> after_key(s, Key::Up).0.selected == s.selected - 1 && after_key(
            s,
            Key::Up,
        ).1 == ActionView::Select,
        s.selected == 0 ==> after_key(s, Key::Up) == (s, ActionView::Nothing),
        0 < s.selected ==> after_key(after_key(s, Key::Up).0, Key::Down).0.selected == s.selected,
{
}

/// Enter switches to the account of the selected row.
pub proof fn enter_switches_to_the_selected_account(s: ScreenView)
    ensures
        s.panel == Panel::Switch && s.selected < s.accounts.len() ==> after_key(s, Key::Enter).1 == (
        ActionView::Switch {
            plugin_id: s.accounts[s.selected as int].plugin_id,
            alias: s.accounts[s.selected as int].alias,
        }),
        after_key(s, Key::Enter).0 == s,
        s.panel == Panel::Plugins ==> after_key(s, Key::Enter).1 == ActionView::Nothing,
{
}

/// Three keys ask for the usage again: for the next window, from the next source, or afresh. Only the
/// last does not take what is kept.
pub proof fn three_keys_ask_for_usage(s: ScreenView)
    requires
        s.panel == Panel::Switch,
    ensures
        after_key(s, Key::Char('w')).0.usage_window == next_window(s.usage_window),
        after_key(s, Key::Char('w')).0.usage_source == s.usage_source,
        after_key(s, Key::Char('w')).1 == (ActionView::Load { refresh: false }),
        after_key(s, Key::Char('s')).0.usage_source == next_selection(s.usage_source),
        after_key(s, Key::Char('s')).0.usage_window == s.usage_window,
        after_key(s, Key::Char('s')).1 == (ActionView::Load { refresh: false }),
        after_key(s, Key::Char('R')).0.usage_source == s.usage_source,
        after_key(s, Key::Char('R')).0.usage_window == s.usage_window,
        after_key(s, Key::Char('R')).1 == (ActionView::Load { refresh: true }),
        after_key(s, Key::Char('R')).0.usage is None,
{
}

/// On the panel of the plugins, keys for accounts do nothing.
pub proof fn keys_for_accounts_need_their_panel(s: ScreenView, key: Key)
    requires
        s.panel == Panel::Plugins,
        key == Key::Down || key == Key::Up || key == Key::Enter || key == Key::Char('j') || key
            == Key::Char('k') || key == Key::Char('w') || key == Key::Char('s') || key == Key::Char(
            'R',
        ),
    ensures
        after_key(s, key) == (s, ActionView::Nothing),
{
}

/// Windows come in a fixed order.
pub proof fn windows_come_in_order()
    ensures
        next_window(UsageWindow::Today) == UsageWindow::Last24h,
        next_window(UsageWindow::Last24h) == UsageWindow::Last7d,
        next_window(UsageWindow::Last7d) == UsageWindow::CurrentMonth,
        next_window(UsageWindow::CurrentMonth) == UsageWindow::Last30d,
        next_window(UsageWindow::Last30d) == UsageWindow::All,
        next_window(UsageWindow::All) == UsageWindow::Today,
        next_selection(UsageSelection::Local) == UsageSelection::Api,
        next_selection(UsageSelection::Api) == UsageSelection::Both,
        next_selection(UsageSelection::Both) == UsageSelection::Local,
{
}

/// The first screen is on the accounts, at the first of them, for the present month and both sources,
/// and waits for the usage where there is an account.
pub proof fn the_first_screen_waits_for_usage(
    accounts: Seq<RecordView>,
    plugins: Seq<StatusRowView>,
)
    ensures
        ({
            let s = first_screen(accounts, plugins);
            &&& s.panel == Panel::Switch
            &&& s.selected == 0
            &&& s.accounts == accounts
            &&& s.plugins == plugins
            &&& s.usage_window == UsageWindow::CurrentMonth
            &&& s.usage_source == UsageSelection::Both
            &&& s.usage is None
            &&& !s.help_open && !s.should_quit
            &&& is_waiting(s) <==> accounts.len() > 0
            &&& s.account_quota.len() == accounts.len()
            &&& s.spinner_tick == 0
            &&& accounts.len() > 0 ==> s.status
                == "Loading usage in the background. Enter switches; w/s/R update usage."@
            &&& accounts.len() == 0 ==> s.status
                == "Select an account. Enter switches globally; w/s/R update usage."@
        }),
{
}

/// Asking again forgets what was known of every account, and waits for each of them.
pub proof fn asking_again_forgets_what_was_known(s: ScreenView, i: int)
    ensures
        reloading(s).usage is None,
        reloading(s).accounts == s.accounts,
        reloading(s).selected == s.selected,
        reloading(s).account_quota.len() == s.accounts.len(),
        is_waiting(reloading(s)) <==> s.accounts.len() > 0,
        0 <= i < s.accounts.len() ==> reloading(s).account_quota[i] == unknown_quota()
            && reloading(s).loader->0.pending[i] && reloading(s).loader->0.selected_index
            == s.selected,
{
}

// ---------------------------------------------------------------------------------------------
// News
// ---------------------------------------------------------------------------------------------
/// News on who an account belongs to fill what is not known of it, and leave what is.
pub proof fn news_fill_what_is_not_known(account: RecordView, rows: Seq<IdentityRowView>)
    ensures
        ({
            let after = identified(account, rows);
            let found = identity_of(rows, account.plugin_id, account.alias);
            &&& found is None ==> after == account
            &&& account.email is Some ==> after.email == account.email
            &&& account.org_name is Some ==> after.org_name == account.org_name
            &&& account.plan is Some ==> after.plan == account.plan
            &&& found matches Some(row) ==> (account.email is None ==> after.email == row.email) && (
            account.org_name is None ==> after.org_name == row.org_name) && (account.plan is None
                ==> after.plan == row.plan)
            &&& after.plugin_id == account.plugin_id && after.alias == account.alias && after.active
                == account.active && after.added_at == account.added_at
        }),
{
}

/// News on an account are those with its plugin and its alias.
pub proof fn news_are_found_by_plugin_and_alias(
    rows: Seq<IdentityRowView>,
    plugin: Seq<char>,
    alias: Seq<char>,
)
    ensures
        identity_of(rows, plugin, alias) matches Some(row) ==> rows.contains(row) && row.plugin_id
            == plugin && row.alias == alias,
        identity_of(rows, plugin, alias) is None ==> forall|i: int|
            0 <= i < rows.len() ==> !((#[trigger] rows[i]).plugin_id == plugin && rows[i].alias
                == alias),
    decreases rows.len(),
{
    if rows.len() > 0 {
        let front = rows.drop_last();
        assert(rows[rows.len() - 1] == rows.last());
        news_are_found_by_plugin_and_alias(front, plugin, alias);
        if let Some(row) = identity_of(front, plugin, alias) {
            let k = choose|k: int| 0 <= k < front.len() && front[k] == row;
            assert(rows[k] == row);
        }
        if identity_of(rows, plugin, alias) is None {
            assert forall|i: int| 0 <= i < rows.len() implies !((#[trigger] rows[i]).plugin_id
                == plugin && rows[i].alias == alias) by {
                if i < front.len() {
                    assert(front[i] == rows[i]);
                }
            }
        }
    }
}

/// News on the allowance of a row are shown in that row alone, which is then no longer waited for.
pub proof fn news_on_a_row_are_for_that_row(
    s: ScreenView,
    index: usize,
    summary: QuotaView,
    i: int,
)
    requires
        s.loader is Some,
        index < s.account_quota.len(),
        index < s.loader->0.pending.len(),
        0 <= i,
    ensures
        ({
            let after = after_event(s, EventView::Quota { index, summary });
            &&& after.account_quota[index as int] == summary
            &&& !after.loader->0.pending[index as int]
            &&& i != index && i < s.account_quota.len() ==> after.account_quota[i]
                == s.account_quota[i]
            &&& i != index && i < s.loader->0.pending.len() ==> after.loader->0.pending[i]
                == s.loader->0.pending[i]
            &&& after.usage == s.usage && after.accounts == s.accounts && after.selected
                == s.selected
        }),
{
}

/// News on the usage of the row that was asked for are shown; those on another row are passed over.
pub proof fn news_on_usage_are_for_the_row_asked_for(
    s: ScreenView,
    index: usize,
    snapshot: SnapshotView,
)
    requires
        s.loader is Some,
    ensures
        index == s.loader->0.selected_index ==> after_event(
            s,
            EventView::SelectedUsage { index, snapshot },
        ).usage == Some(snapshot) && is_news(s, EventView::SelectedUsage { index, snapshot }),
        index != s.loader->0.selected_index ==> after_event(
            s,
            EventView::SelectedUsage { index, snapshot },
        ) == s && !is_news(s, EventView::SelectedUsage { index, snapshot }),
        after_event(s, EventView::Done).loader->0.finished,
        after_event(s, EventView::Disconnected).loader->0.finished,
        is_news(s, EventView::Done),
        !is_news(s, EventView::Disconnected),
        !is_waiting(after_event(s, EventView::Done)),
{
}

/// News that nobody waits for change nothing.
pub proof fn news_that_nobody_waits_for_change_nothing(s: ScreenView, event: EventView)
    requires
        s.loader is None,
    ensures
        after_event(s, event) == s,
        !is_news(s, event),
{
}

/// Events are taken one after the other.
pub proof fn events_are_taken_in_turn(s: ScreenView, events: Seq<EventView>, event: EventView)
    ensures
        after_events(s, Seq::<EventView>::empty()) == s,
        after_events(s, events.push(event)) == after_event(after_events(s, events), event),
        any_news(s, events.push(event)) <==> any_news(s, events) || is_news(
            after_events(s, events),
            event,
        ),
        !any_news(s, Seq::<EventView>::empty()),
{
    assert(events.push(event).drop_last() == events);
}

/// With each beat the mark of waiting moves on, and the end of waiting is told.
pub proof fn waiting_moves_on_and_ends(s: ScreenView, events: Seq<EventView>)
    requires
        is_waiting(s),
    ensures
        s.spinner_tick < usize::MAX ==> after_tick(s, events).spinner_tick == s.spinner_tick + 1,
        s.spinner_tick == usize::MAX ==> after_tick(s, events).spinner_tick == 0,
        !is_waiting(after_events(s, events)) ==> after_tick(s, events).loader is None && after_tick(
            s,
            events,
        ).status == "Usage ready."@,
        is_waiting(after_events(s, events)) ==> after_tick(s, events).loader is Some,
{
}

proof fn lemma_all_but(skipped: usize, n: nat, i: usize)
    requires
        n <= usize::MAX,
    ensures
        all_but(skipped, n).contains(i) <==> i < n && i != skipped,
        forall|a: int, b: int|
            0 <= a < b < all_but(skipped, n).len() ==> (#[trigger] all_but(skipped, n)[a]) < (
            #[trigger] all_but(skipped, n)[b]),
        forall|a: int|
            0 <= a < all_but(skipped, n).len() ==> (#[trigger] all_but(skipped, n)[a]) < n,
    decreases n,
{
    if n > 0 {
        let before = all_but(skipped, (n - 1) as nat);
        let all = all_but(skipped, n);
        lemma_all_but(skipped, (n - 1) as nat, i);
        if before.contains(i) {
            let k = choose|k: int| 0 <= k < before.len() && before[k] == i;
            assert(all[k] == i);
        }
        if all.contains(i) {
            let k = choose|k: int| 0 <= k < all.len() && all[k] == i;
            if k < before.len() {
                assert(before[k] == i);
            }
        }
        if i == n - 1 && i != skipped {
            assert(all[all.len() - 1] == i);
        }
    }
}

/// Each row is asked for once: the selected one first, and then the others from the top.
pub proof fn the_selected_row_is_asked_for_first(selected: usize, n: nat, i: usize)
    requires
        n <= usize::MAX,
        selected < n,
    ensures
        load_order_of(selected, n)[0] == selected,
        load_order_of(selected, n).contains(i) <==> i < n,
        forall|a: int, b: int|
            1 <= a < b < load_order_of(selected, n).len() ==> (#[trigger] load_order_of(selected, n)[a])
                < (#[trigger] load_order_of(selected, n)[b]),
{
    lemma_all_but(selected, n, i);
    let rest = all_but(selected, n);
    let all = load_order_of(selected, n);
    assert(all == seq![selected] + rest);
    if rest.contains(i) {
        let k = choose|k: int| 0 <= k < rest.len() && rest[k] == i;
        assert(all[k + 1] == i);
    }
    if i == selected {
        assert(all[0] == i);
    }
    if all.contains(i) {
        let k = choose|k: int| 0 <= k < all.len() && all[k] == i;
        if k > 0 {
            assert(rest[k - 1] == i);
        }
    }
    assert forall|a: int, b: int| 1 <= a < b < all.len() implies (#[trigger] all[a]) < (
    #[trigger] all[b]) by {
        assert(all[a] == rest[a - 1] && all[b] == rest[b - 1]);
    }
}

/// What came of a row is told as its allowance, and as usage too where it is the selected one.
pub proof fn the_selected_row_tells_its_usage(
    index: usize,
    selected: usize,
    snapshot: SnapshotView,
    summary: QuotaView,
)
    ensures
        account_events(index, selected, Some((snapshot, summary))).contains(
            EventView::Quota { index, summary },
        ),
        account_events(index, selected, Some((snapshot, summary))).contains(
            EventView::SelectedUsage { index, snapshot },
        ) <==> index == selected,
        account_events(index, selected, None) == seq![
            EventView::Quota { index, summary: unknown_quota() },
        ],
{
    let events = account_events(index, selected, Some((snapshot, summary)));
    assert(events[events.len() - 1] == (EventView::Quota { index, summary }));
    if index == selected {
        assert(events[0] == (EventView::SelectedUsage { index, snapshot }));
    }
}

// ---------------------------------------------------------------------------------------------
// What is shown
// ---------------------------------------------------------------------------------------------
/// A percentage is the one that is given, and the rest of its counterpart where it is not.
pub proof fn a_percentage_may_be_the_rest_of_another(
    quota: Map<Seq<char>, JsonView>,
    key: Seq<char>,
    other: Seq<char>,
)
    ensures
        bits_in(entry_at(quota, key)) matches Some(bits) ==> percent_from(quota, key, other) == Some(
            PercentSource::Is(bits),
        ),
        bits_in(entry_at(quota, key)) is None ==> (bits_in(entry_at(quota, other)) matches Some(bits)
            ==> percent_from(quota, key, other) == Some(PercentSource::RestOf(bits))),
        bits_in(entry_at(quota, key)) is None && bits_in(entry_at(quota, other)) is None
            ==> percent_from(quota, key, other) is None,
{
}

/// What is left now is that of the session, and the whole where there is no session; what is left of
/// the week stands behind it.
pub proof fn what_is_left_now_is_of_the_session(q: QuotaView)
    ensures
        q.session_remaining is Some && q.weekly_remaining is Some ==> left_text(q)
            == q.session_remaining->0.compact + "/"@ + q.weekly_remaining->0.compact && left_badge(q)
            == Some(q.session_remaining->0.text + " now / "@ + q.weekly_remaining->0.text + " wk"@),
        q.session_remaining is None && q.remaining is Some && q.weekly_remaining is Some
            ==> left_text(q) == q.remaining->0.compact + "/"@ + q.weekly_remaining->0.compact,
        q.session_remaining is Some && q.weekly_remaining is None ==> left_text(q)
            == q.session_remaining->0.compact + "/-"@ && left_badge(q) == Some(
            q.session_remaining->0.text + " left"@,
        ),
        q.session_remaining is None && q.remaining is None && q.weekly_remaining is Some
            ==> left_text(q) == "-/"@ + q.weekly_remaining->0.compact && left_badge(q) == Some(
            q.weekly_remaining->0.text + " weekly"@,
        ),
        q.session_remaining is None && q.remaining is None && q.weekly_remaining is None
            ==> left_text(q) == "-"@ && left_badge(q) is None,
{
}

/// What is used warns from eighty-five percent on, and is marked from sixty percent on; less is fine.
/// What is used is given, or is the rest of what is left.
pub proof fn much_use_is_marked(used: u64, q: QuotaView)
    ensures
        used < 0x7ff0_0000_0000_0000 ==> {
            &&& usage_tone(used) == Tone::Warning <==> used >= 0x4055_4000_0000_0000
            &&& usage_tone(used) == Tone::AccentSoft <==> 0x404e_0000_0000_0000 <= used
                < 0x4055_4000_0000_0000
            &&& usage_tone(used) == Tone::Success <==> used < 0x404e_0000_0000_0000
        },
        q.used is Some ==> used_in(q) == q.used,
        q.used is None && q.remaining is Some ==> used_in(q) == Some(q.remaining->0.rest),
        q.used is None && q.remaining is None ==> used_in(q) is None,
{
}

/// An account is known by its address, by its plan where it has none, and by a dash otherwise.
pub proof fn the_address_goes_before_the_plan(account: RecordView, max: nat)
    ensures
        account.email matches Some(e) ==> identity_text(account) == e,
        account.email is None ==> (account.plan matches Some(p) ==> identity_text(account) == p),
        account.email is None && account.plan is None ==> identity_text(account) == "-"@,
        account.plan matches Some(p) ==> metadata_text(account, max) == truncated(p, max),
        account.plan is None ==> metadata_text(account, max) == "-"@,
        account.email is Some && account.plan is Some ==> profile_of(account) == seq![
            detail_of("Email"@, account.email->0),
            detail_of("Plan"@, account.plan->0),
        ],
        account.email is Some && account.plan is None ==> profile_of(account) == seq![
            detail_of("Email"@, account.email->0),
        ],
        account.email is None && account.plan is Some ==> profile_of(account) == seq![
            detail_of("Plan"@, account.plan->0),
        ],
        account.email is None && account.plan is None ==> profile_of(account) == seq![
            detail_of("Profile"@, "No identity metadata"@),
        ],
{
    if let Some(e) = account.email {
        if let Some(p) = account.plan {
            assert(seq![detail_of("Email"@, e)] + seq![detail_of("Plan"@, p)] == seq![
                detail_of("Email"@, e),
                detail_of("Plan"@, p),
            ]);
        } else {
            assert(seq![detail_of("Email"@, e)] + seq![] == seq![detail_of("Email"@, e)]);
        }
    } else if let Some(p) = account.plan {
        assert(Seq::<Seq<PieceView>>::empty() + seq![detail_of("Plan"@, p)] == seq![
            detail_of("Plan"@, p),
        ]);
    }
}

/// The title of an account has its full name, and tells whether it is active.
pub proof fn a_title_tells_whether_it_is_active(account: RecordView)
    ensures
        title_of(account).len() == 3,
        title_of(account)[0].text == account.plugin_id + "/"@ + account.alias,
        account.active ==> title_of(account)[2] == badge_of("ACTIVE"@, Tone::Text, Tone::Success),
        !account.active ==> title_of(account)[2] == badge_of("saved"@, Tone::Text, Tone::Border),
{
}

/// A name is shown with spaces for its underscores, but for two that have short names.
pub proof fn two_names_have_short_forms(name: Seq<char>)
    ensures
        short_name("cache_creation_tokens"@) == "cache_write"@,
        name != "cache_creation_tokens"@ && name == "cache_read_tokens"@ ==> short_name(name)
            == "cache_read"@,
        name != "cache_creation_tokens"@ && name != "cache_read_tokens"@ ==> short_name(name)
            == spaced(name),
        spaced(name).len() == name.len(),
        forall|i: int|
            0 <= i < name.len() ==> (#[trigger] spaced(name)[i]) == if name[i] == '_' {
                ' '
            } else {
                name[i]
            },
{
}

/// Sources are shown by the first of them and the number of the others; notes are shown together.
pub proof fn the_first_source_is_shown(
    sources: Seq<SummaryView>,
    warnings: Seq<Seq<char>>,
    max: nat,
)
    ensures
        sources.len() == 0 ==> sources_text(sources, max) == "-"@,
        sources.len() == 1 && sources[0].path_or_url is Some ==> sources_text(sources, max)
            == truncated(sources[0].kind + " "@ + sources[0].path_or_url->0, max),
        sources.len() == 1 && sources[0].path_or_url is None ==> sources_text(sources, max)
            == truncated(sources[0].kind, max),
        sources.len() > 1 && sources[0].path_or_url is None ==> sources_text(sources, max)
            == truncated(
            sources[0].kind + " +"@ + decimal_of((sources.len() - 1) as nat),
            max,
        ),
        warnings.len() == 0 ==> notes_text(warnings, max) == "clean"@,
        warnings.len() > 0 ==> notes_text(warnings, max) == truncated(
            join_of(warnings, " | "@),
            max,
        ),
{
}

/// Active accounts and loaded plugins are counted one by one.
pub proof fn what_is_active_is_counted(
    accounts: Seq<RecordView>,
    account: RecordView,
    plugins: Seq<StatusRowView>,
    plugin: StatusRowView,
)
    ensures
        active_count(Seq::<RecordView>::empty()) == 0,
        account.active ==> active_count(accounts.push(account)) == active_count(accounts) + 1,
        !account.active ==> active_count(accounts.push(account)) == active_count(accounts),
        loaded_count(Seq::<StatusRowView>::empty()) == 0,
        plugin.loaded ==> loaded_count(plugins.push(plugin)) == loaded_count(plugins) + 1,
        !plugin.loaded ==> loaded_count(plugins.push(plugin)) == loaded_count(plugins),
{
    assert(accounts.push(account).drop_last() == accounts);
    assert(plugins.push(plugin).drop_last() == plugins);
}

/// The top line tells how many accounts there are, how many of them are live, how many plugins are
/// loaded, and which panel is open.
pub proof fn the_top_line_counts(s: ScreenView)
    ensures
        top_line_of(s)[2].text == decimal_of(s.accounts.len()) + " accounts"@,
        top_line_of(s)[4].text == decimal_of(active_count(s.accounts)) + " live"@,
        top_line_of(s)[6].text == decimal_of(loaded_count(s.plugins)) + " plugins"@,
        s.panel == Panel::Switch ==> top_line_of(s)[8] == nav_pill_of("1 Switch"@, true)
            && top_line_of(s)[10] == nav_pill_of("2 Plugins"@, false),
        s.panel == Panel::Plugins ==> top_line_of(s)[8] == nav_pill_of("1 Switch"@, false)
            && top_line_of(s)[10] == nav_pill_of("2 Plugins"@, true),
        !is_waiting(s) ==> top_line_of(s)[12].text == ""@,
        is_waiting(s) ==> top_line_of(s)[12].text == spinner_of(s.spinner_tick)
            + " loading usage\u{2026}"@,
{
}

/// The allowance of the selected row is that of its usage, and that of the row where the usage says
/// nothing.
pub proof fn the_usage_goes_before_the_row(s: ScreenView, of_usage: QuotaView)
    ensures
        s.usage is Some && of_usage != unknown_quota() ==> selected_quota_of(s, of_usage) == Some(
            of_usage,
        ),
        (s.usage is None || of_usage == unknown_quota()) && s.selected < s.account_quota.len()
            && s.account_quota[s.selected as int] != unknown_quota() ==> selected_quota_of(
            s,
            of_usage,
        ) == Some(s.account_quota[s.selected as int]),
        (s.usage is None || of_usage == unknown_quota()) && s.selected >= s.account_quota.len()
            ==> selected_quota_of(s, of_usage) is None,
{
}

/// A message that speaks of a failure warns, one that speaks of a success is marked as such, and the
/// former goes before the latter.
pub proof fn a_failure_goes_before_a_success(message: Seq<char>)
    ensures
        ({
            let m = lower_of(message);
            let bad = has_part(m, "failed"@) || has_part(m, "error"@) || has_part(
                m,
                "unavailable"@,
            );
            let good = has_part(m, "switched"@) || has_part(m, "refreshed"@) || has_part(
                m,
                "selected"@,
            );
            &&& bad ==> status_look(message) == bold_style(Tone::Warning)
            &&& !bad && good ==> status_look(message) == bold_style(Tone::Success)
            &&& !bad && !good ==> status_look(message) == plain_style(Tone::Text)
        }),
{
}

/// Where the table is wide a row has a column for the plugin and one for the alias; where it is not,
/// one for both. The columns are as their headings say.
pub proof fn a_row_shows_its_account(s: ScreenView, i: int)
    requires
        0 <= i < s.accounts.len(),
    ensures
        ({
            let wide = account_row(s, AccountTableLayout::Wide, i);
            let narrow = account_row(s, AccountTableLayout::Compact, i);
            let a = s.accounts[i];
            let waits = is_pending(s, i) && quota_at(s, i) == unknown_quota();
            &&& wide.cells.len() == 7 && account_columns(AccountTableLayout::Wide).len() == 7
            &&& narrow.cells.len() == 6 && account_columns(AccountTableLayout::Compact).len() == 6
            &&& wide.cells[1].text == a.plugin_id && account_columns(AccountTableLayout::Wide)[1]
                == "PLUGIN"@
            &&& wide.cells[2].text == a.alias && account_columns(AccountTableLayout::Wide)[2]
                == "ALIAS"@
            &&& wide.cells[3].text == identity_text(a) && account_columns(
                AccountTableLayout::Wide,
            )[3] == "IDENTITY"@
            &&& narrow.cells[1].text == truncated(a.plugin_id + "/"@ + a.alias, 28)
            &&& narrow.cells[2].text == truncated(identity_text(a), 28)
            &&& a.active ==> wide.cells[6].text == "LIVE"@ && narrow.cells[5].text == "LIVE"@
            &&& !a.active ==> wide.cells[6].text == "saved"@ && narrow.cells[5].text == "saved"@
            &&& !waits ==> wide.cells[4].text == left_text(quota_at(s, i)) && narrow.cells[3].text
                == left_text(quota_at(s, i))
            &&& waits ==> wide.cells[4].text == spinner_of(s.spinner_tick) && wide.cells[5].text
                == "loading"@
            &&& i == s.selected ==> wide.cells[0].text == ">"@ && narrow.cells[0].text == ">"@
            &&& i != s.selected ==> wide.cells[0].text == " "@ && narrow.cells[0].text == " "@
        }),
{
}

/// The tables change their form at their widths, and their titles count what is in them.
pub proof fn tables_change_their_form_at_a_width(
    s: ScreenView,
    plugins: Seq<StatusRowView>,
    width: u16,
)
    ensures
        layout_for(width) == AccountTableLayout::Compact <==> width < 104,
        s.accounts.len() > 0 ==> (account_listing(s, width) matches ListingView::Table {
            title,
            rows,
            header,
            ..
        } && title == "Accounts "@ + decimal_of(s.accounts.len()) + " saved / "@ + decimal_of(
            active_count(s.accounts),
        ) + " live"@ && rows.len() == s.accounts.len() && header == account_columns(
            layout_for(width),
        )),
        s.accounts.len() == 0 ==> account_listing(s, width) is Note,
        plugins.len() > 0 ==> (plugin_listing(plugins, width) matches ListingView::Table {
            title,
            rows,
            header,
            ..
        } && title == "Plugins "@ + decimal_of(plugins.len()) + " discovered / "@ + decimal_of(
            loaded_count(plugins),
        ) + " loaded"@ && rows.len() == plugins.len() && header == plugin_columns(width < 96)),
        plugins.len() == 0 ==> plugin_listing(plugins, width) is Note,
{
}

/// A plugin is missing, or warns, or is fine. Its row shows what its headings say.
pub proof fn a_plugin_row_shows_its_plugin(p: StatusRowView, i: int)
    ensures
        !p.loaded ==> plugin_state(p).text == "missing"@ && plugin_state(p).style == bold_style(
            Tone::Warning,
        ),
        p.loaded && p.warnings.len() > 0 ==> plugin_state(p).text == "warn"@,
        p.loaded && p.warnings.len() == 0 ==> plugin_state(p).text == "ok"@ && plugin_state(p).style
            == bold_style(Tone::Success),
        ({
            let wide = plugin_row(p, false, i).cells;
            let narrow = plugin_row(p, true, i).cells;
            &&& wide.len() == 7 && plugin_columns(false).len() == 7
            &&& narrow.len() == 4 && plugin_columns(true).len() == 4
            &&& wide[0].text == p.plugin_id && plugin_columns(false)[0] == "ID"@
            &&& plugin_columns(false)[1] == "NAME"@
            &&& p.display_name matches Some(name) ==> wide[1].text == name
            &&& p.display_name is None ==> wide[1].text == p.plugin_id
            &&& wide[2].text == shown(p.active_alias) && plugin_columns(false)[2] == "ACTIVE"@
            &&& wide[3].text == decimal_of(p.account_count) && plugin_columns(false)[3] == "ACCTS"@
            &&& wide[4].text == shown(p.source) && plugin_columns(false)[4] == "SOURCE"@
            &&& wide[5].text == shown(p.version) && plugin_columns(false)[5] == "VERSION"@
            &&& wide[6] == plugin_state(p)
            &&& narrow[0].text == p.plugin_id
            &&& narrow[1].text == shown(p.active_alias)
            &&& narrow[2].text == decimal_of(p.account_count)
            &&& narrow[3] == plugin_state(p)
        }),
{
}

/// A text for a cell keeps its text; a badge has a space on both sides.
pub proof fn pieces_keep_their_texts(label: Seq<char>, value: Seq<char>, a: Tone, b: Tone)
    ensures
        piece_of(label, raw_style()).text == label,
        badge_of(label, a, b).text == " "@ + label + " "@,
        badge_of(label, a, b).style.fg == Some(a),
        badge_of(label, a, b).style.bg == Some(b),
        badge_of(label, a, b).style.bold,
        !plain_style(a).bold && plain_style(a).fg == Some(a) && plain_style(a).bg is None,
        bold_style(a).bold && bold_style(a).fg == Some(a) && bold_style(a).bg is None,
        detail_of(label, value)[0].text == crate::text::padded(label, 6),
        detail_of(label, value)[1].text == value,
        nav_pill_of(label, true).style.bg == Some(Tone::SelectedBg),
        nav_pill_of(label, false).style.bg == Some(Tone::HeaderBg),
{
}

/// Usage is shown line by line: what is left and when it ends, the requests and the tokens that went in
/// and came out, the cost, and where it is from. Notes take the place of other metrics where there is
/// little room.
pub proof fn usage_is_shown_line_by_line(
    u: SnapshotView,
    t: UsageTextsView,
    last: Seq<char>,
    width: u16,
)
    requires
        width >= 28,
    ensures
        ({
            let small = compact_usage(u, t, last, width);
            let large = wide_usage(u, t, last, width);
            let tokens = metrics_of(
                ("Req"@, t.requests),
                ("In"@, t.tokens_in),
                ("Out"@, t.tokens_out),
            );
            &&& small.len() == 6
            &&& large.len() == 7
            &&& small[0][1].text == last && large[0][1].text == last
            &&& small[0][3].text == " "@ + window_name(u.window) + " "@
            &&& large[0][3].text == " "@ + window_name(u.window) + " "@
            &&& large[0][5].text == " "@ + selection_name(u.source) + " "@
            &&& u.cached ==> large[0][7].text == " "@ + "cached"@ + " "@
            &&& !u.cached ==> large[0][7].text == " "@ + "live"@ + " "@
            &&& large[1] == metrics_of(
                ("Left"@, left_text(t.left)),
                ("Reset"@, shown(t.left.reset_time)),
                ("Srcs"@, decimal_of(u.sources.len())),
            )
            &&& small[2] == tokens && large[2] == tokens
            &&& small[3] == metrics_of(
                ("Cost"@, t.cost),
                ("Quota"@, truncated(t.quota, (width - 24) as nat)),
                ("Srcs"@, decimal_of(u.sources.len())),
            )
            &&& large[3] == metrics_of(
                ("Cost"@, t.cost),
                ("Quota"@, truncated(t.quota, (width - 28) as nat)),
                ("Mode"@, selection_name(u.source)),
            )
            &&& large[4] == detail_of("Extra"@, extra_text(t.extra, (width - 12) as nat))
            &&& small[4] == detail_of("Source"@, sources_text(u.sources, (width - 12) as nat))
            &&& large[5] == detail_of("Source"@, sources_text(u.sources, (width - 12) as nat))
            &&& large[6] == detail_of("Notes"@, notes_text(u.warnings, (width - 12) as nat))
            &&& u.warnings.len() == 0 ==> small[5] == detail_of(
                "Extra"@,
                extra_text(t.extra, (width - 12) as nat),
            )
            &&& u.warnings.len() > 0 ==> small[5] == detail_of(
                "Notes"@,
                notes_text(u.warnings, (width - 12) as nat),
            )
        }),
{
}

/// A line of three metrics has each value behind its name.
pub proof fn three_metrics_are_on_a_line(
    a: (Seq<char>, Seq<char>),
    b: (Seq<char>, Seq<char>),
    c: (Seq<char>, Seq<char>),
)
    ensures
        metrics_of(a, b, c).len() == 8,
        metrics_of(a, b, c)[0].text == a.0 + " "@ && metrics_of(a, b, c)[1].text == a.1,
        metrics_of(a, b, c)[3].text == b.0 + " "@ && metrics_of(a, b, c)[4].text == b.1,
        metrics_of(a, b, c)[6].text == c.0 + " "@ && metrics_of(a, b, c)[7].text == c.1,
        metrics_of(a, b, c)[2].text == " | "@ && metrics_of(a, b, c)[5].text == " | "@,
{
}

/// The details are of the selected account. Where there is little room they are short, and where no
/// usage is known they say so.
pub proof fn details_are_of_the_selected_account(
    s: ScreenView,
    t: UsageTextsView,
    last: Seq<char>,
    width: u16,
    height: u16,
)
    ensures
        ({
            let lines = selection_of(s, t, last, width, height);
            let a = s.accounts[s.selected as int];
            &&& s.selected >= s.accounts.len() ==> lines.len() == 1 && lines[0][0].text
                == "No saved accounts."@
            &&& s.selected < s.accounts.len() ==> lines[0] == title_of(a)
            &&& s.selected < s.accounts.len() && height <= 10 ==> lines[1] == detail_of(
                "Who"@,
                identity_text(a),
            )
            &&& s.selected < s.accounts.len() && s.usage is None ==> lines.last() == detail_of(
                "Usage"@,
                "No usage snapshot loaded"@,
            )
            &&& s.selected < s.accounts.len() && height > 10 && s.usage is Some ==> lines
                == seq![title_of(a)] + profile_of(a) + wide_usage(s.usage->0, t, last, width)
        }),
{
}

/// The line of the selected account has its name and who it belongs to, then what is left of its
/// allowance, and when that ends.
pub proof fn the_selected_line_tells_what_is_left(a: RecordView, q: QuotaView, max: nat)
    requires
        max >= 18,
    ensures
        ({
            let full = a.plugin_id + "/"@ + a.alias;
            let name = if identity_text(a) != "-"@ {
                full + "  "@ + identity_text(a)
            } else {
                full
            };
            let plain = selected_line_of(Some(a), None, max);
            let line = selected_line_of(Some(a), Some(q), max);
            &&& plain.len() == 3 && plain[2].text == truncated(name, (max - 18) as nat)
            &&& line.subrange(0, 3) == plain
            &&& left_badge(q) matches Some(left) ==> line[4].text == " "@ + left + " "@
            &&& q.reset_time matches Some(t) ==> line.last().text == "reset "@ + t
            &&& left_badge(q) is None && q.reset_time is None ==> line == plain
            &&& selected_line_of(None, None, max)[2].text == "No saved accounts"@
        }),
{
}

/// Other metrics are shown by the first two of them.
pub proof fn two_other_metrics_are_shown(extra: Seq<(Seq<char>, Seq<char>)>, max: nat)
    ensures
        extra.len() == 0 ==> extra_text(extra, max) == "-"@,
        extra.len() == 1 ==> extra_text(extra, max) == truncated(
            short_name(extra[0].0) + " "@ + extra[0].1,
            max,
        ),
        extra.len() >= 2 ==> extra_text(extra, max) == truncated(
            short_name(extra[0].0) + " "@ + extra[0].1 + " | "@ + (short_name(extra[1].0) + " "@
                + extra[1].1),
            max,
        ),
{
    let words = extra_words(extra);
    if extra.len() == 1 {
        assert(join_of(words, " | "@) == words[0]);
    }
    if extra.len() >= 2 {
        let two = first_two(words);
        assert(two.len() == 2 && two[0] == words[0] && two.last() == words[1]);
        assert(two.drop_last().len() == 1 && two.drop_last()[0] == words[0]);
        assert(join_of(two.drop_last(), " | "@) == words[0]);
        assert(join_of(two, " | "@) == words[0] + " | "@ + words[1]);
    }
}

/// The keys that are offered are those of the panel.
pub proof fn the_keys_of_a_panel_are_offered()
    ensures
        shortcuts_of(Panel::Switch)
            == "q quit | ? help | Tab panel | j/k move | Enter switch | w/s/R usage"@,
        shortcuts_of(Panel::Plugins) == "q quit | ? help | Tab panel | 1/2 jump panels"@,
{
}

/// What is left and when it ends are shown in the selected look in the selected row. Elsewhere what is
/// left has the tone of what is used, and what is not known is faint.
pub proof fn cells_look_as_their_row(q: QuotaView)
    ensures
        left_cell(q, true).style == selected_look() && reset_cell(q, true).style == selected_look(),
        left_cell(q, true).text == left_text(q) && left_cell(q, false).text == left_text(q),
        used_in(q) matches Some(used) ==> left_cell(q, false).style == bold_style(usage_tone(used)),
        used_in(q) is None ==> left_cell(q, false).style == plain_style(Tone::Muted),
        q.reset_time is Some ==> reset_cell(q, false).style == plain_style(Tone::Text),
        q.reset_time is None ==> reset_cell(q, false).style == plain_style(Tone::Muted),
        reset_cell(q, true).text == shown(q.reset_time) && reset_cell(q, false).text == shown(
            q.reset_time,
        ),
        selected_look() == badge_style(Tone::SelectedFg, Tone::SelectedBg),
{
}

/// Rows take turns in two tones, but for the selected one.
pub proof fn rows_take_turns_in_two_tones(s: ScreenView, layout: AccountTableLayout, i: int)
    requires
        0 <= i < s.accounts.len(),
    ensures
        i == s.selected ==> account_row(s, layout, i).style == selected_look(),
        i != s.selected && i % 2 == 0 ==> account_row(s, layout, i).style == plain_style(Tone::Text),
        i != s.selected && i % 2 != 0 ==> account_row(s, layout, i).style == plain_style(Tone::Muted),
        striped(2 * i) == plain_style(Tone::Text),
        striped(2 * i + 1) == plain_style(Tone::Muted),
{
}

/// Each key that does something says what it did.
pub proof fn keys_say_what_they_did(s: ScreenView)
    requires
        s.panel == Panel::Switch,
        s.accounts.len() <= usize::MAX,
    ensures
        !s.help_open ==> after_key(s, Key::Char('?')).0.status
            == "Help is open. Press ? to close it."@,
        s.help_open ==> after_key(s, Key::Char('?')).0.status == "Help closed."@,
        after_key(s, Key::Char('1')).0.status == "Switched to Switch."@,
        after_key(s, Key::Char('2')).0.status == "Switched to Plugins."@,
        after_key(s, Key::Tab).0.status == "Switched to "@ + "Plugins"@ + "."@,
        after_key(s, Key::Char('w')).0.status == "Usage window: "@ + window_name(
            next_window(s.usage_window),
        ),
        after_key(s, Key::Char('s')).0.status == "Usage source: "@ + selection_name(
            next_selection(s.usage_source),
        ),
        after_key(s, Key::Char('R')).0.status == "Refreshing usage\u{2026}"@,
        s.selected + 1 < s.accounts.len() ==> after_key(s, Key::Down).0.status == "Selected "@ + (
        s.accounts[s.selected + 1].plugin_id + "/"@ + s.accounts[s.selected + 1].alias) + "."@,
{
}

/// Whether a row is waited for, and what is known of it.
pub proof fn a_row_is_waited_for_where_it_is_pending(s: ScreenView, i: int)
    requires
        0 <= i,
    ensures
        s.loader is None ==> !is_pending(s, i),
        s.loader matches Some(loader) ==> (is_pending(s, i) <==> i < loader.pending.len()
            && loader.pending[i]),
        i < s.account_quota.len() ==> quota_at(s, i) == s.account_quota[i],
        i >= s.account_quota.len() ==> quota_at(s, i) == unknown_quota(),
        is_waiting(s) <==> s.loader is Some && !s.loader->0.finished,
{
}

/// The marks of waiting are ten, and come around.
pub proof fn ten_marks_come_around(tick: usize)
    requires
        tick < 10,
    ensures
        spinner_of(0) == "\u{280b}"@,
        spinner_of(1) == "\u{2819}"@,
        spinner_of(2) == "\u{2839}"@,
        spinner_of(3) == "\u{2838}"@,
        spinner_of(4) == "\u{283c}"@,
        spinner_of(5) == "\u{2834}"@,
        spinner_of(6) == "\u{2826}"@,
        spinner_of(7) == "\u{2827}"@,
        spinner_of(8) == "\u{2807}"@,
        spinner_of(9) == "\u{280f}"@,
        spinner_of((tick + 10) as usize) == spinner_of(tick),
{
}

/// Where no row is selected, all are asked for from the top.
pub proof fn all_rows_are_asked_for_from_the_top(selected: usize, n: nat, i: usize)
    requires
        n <= selected,
    ensures
        load_order_of(selected, n).contains(i) <==> i < n,
        forall|a: int, b: int|
            0 <= a < b < load_order_of(selected, n).len() ==> (#[trigger] load_order_of(selected, n)[a])
                < (#[trigger] load_order_of(selected, n)[b]),
{
    lemma_all_but(selected, n, i);
}

/// Each column has its width, and there are as many widths as columns.
pub proof fn each_column_has_its_width()
    ensures
        account_widths(AccountTableLayout::Compact) == seq![
            Width::Length(2),
            Width::Length(28),
            Width::Min(14),
            Width::Length(11),
            Width::Length(12),
            Width::Length(8),
        ],
        account_widths(AccountTableLayout::Wide) == seq![
            Width::Length(2),
            Width::Length(14),
            Width::Length(16),
            Width::Min(18),
            Width::Length(11),
            Width::Length(12),
            Width::Length(8),
        ],
        plugin_widths(true) == seq![
            Width::Length(16),
            Width::Length(16),
            Width::Length(7),
            Width::Length(10),
        ],
        plugin_widths(false) == seq![
            Width::Length(14),
            Width::Length(22),
            Width::Length(16),
            Width::Length(7),
            Width::Length(10),
            Width::Length(10),
            Width::Length(10),
        ],
{
}

/// An account is told by its full name, where there is one.
pub proof fn an_account_is_told_by_its_full_name(s: ScreenView, i: int)
    ensures
        0 <= i < s.accounts.len() ==> account_name(s, i) == s.accounts[i].plugin_id + "/"@
            + s.accounts[i].alias,
        i < 0 || i >= s.accounts.len() ==> account_name(s, i) == "no account"@,
{
}

/// What is waited for stands out on the line that is selected, and is bold elsewhere.
pub proof fn what_is_waited_for_stands_out(text: Seq<char>, selected: bool)
    ensures
        pending_of(text, selected).text == text,
        pending_of(text, true).style == badge_style(Tone::SelectedFg, Tone::SelectedBg),
        pending_of(text, false).style == bold_style(Tone::AccentSoft),
{
}

/// The help names the keys of each panel under the name of the panel.
pub proof fn the_help_names_the_keys()
    ensures
        help_of().len() == 10,
        help_of()[0][0].text == " "@ + "Global"@ + " "@,
        help_of()[1][0].text == "q quit | ? close help | Tab or 1/2 switch panels"@,
        help_of()[3][0].text == " "@ + "Switch"@ + " "@,
        help_of()[4][0].text == "j/k or Up/Down move selection"@,
        help_of()[5][0].text == "Enter switches the selected account globally"@,
        help_of()[6][0].text
            == "w changes usage window | s changes usage source | R refreshes usage"@,
        help_of()[8][0].text == " "@ + "Plugins"@ + " "@,
        help_of()[9][0].text == "Read-only view of loaded plugin manifests and active aliases"@,
        forall|i: int| 0 <= i < 10 ==> (#[trigger] help_of()[i]).len() == 1,
{
}

} // verus!
