//! Choosing a saved account at the terminal: first the plugin, then the account, then a yes.
use vstd::prelude::*;

use super::accounts::{
    ListedAccount, ListedView, ResolvedAccount, ResolvedView, group_accounts_by_plugin, grouped,
    resolved,
};
use super::prompt::{
    OptionReply, Question, QuestionView, ask_option, confirmed_by, option_prompt, option_question,
    option_reply, option_reply_to, prompt_confirmation, prompt_option,
};
use crate::account::RecordView;
use crate::text::{decimal, decimal_of, join2, join3};
use crate::text_map::{lemma_map_of, sorted_items, sorted_items_exist};

verus! {

/// How far the choice has come: the plugin is asked for, an account of it, or a yes; or it is over,
/// with an account or without.
pub enum Choice {
    Plugin,
    Account { plugin_id: String },
    Confirm { account: ResolvedAccount },
    Done(Option<ResolvedAccount>),
}

pub enum ChoiceView {
    Plugin,
    Account { plugin_id: Seq<char> },
    Confirm { account: ResolvedView },
    Done(Option<ResolvedView>),
}

impl DeepView for Choice {
    type V = ChoiceView;

    open spec fn deep_view(&self) -> ChoiceView {
        match *self {
            Choice::Plugin => ChoiceView::Plugin,
            Choice::Account { plugin_id } => ChoiceView::Account { plugin_id: plugin_id@ },
            Choice::Confirm { account } => ChoiceView::Confirm { account: account.deep_view() },
            Choice::Done(account) => ChoiceView::Done(account.deep_view()),
        }
    }
}

/// A text, or a hyphen in its place.
pub open spec fn shown(value: Option<Seq<char>>) -> Seq<char> {
    match value {
        Some(s) => s,
        None => "-"@,
    }
}

/// A text, or a hyphen in its place.
pub fn display_opt(value: &Option<String>) -> (r: String)
    ensures
        r@ == shown(value.deep_view()),
{
    match value {
        Some(s) => s.clone(),
        None => "-".to_owned(),
    }
}

/// The alias of the first active account among some places.
pub open spec fn active_among(rows: Seq<ListedView>, places: Seq<usize>, i: int) -> Option<Seq<char>>
    decreases places.len() - i,
{
    if i < 0 || i >= places.len() {
        None
    } else if rows[places[i] as int].account.active {
        Some(rows[places[i] as int].account.alias)
    } else {
        active_among(rows, places, i + 1)
    }
}

/// A plugin in words: how many accounts it has, and which one is active.
pub open spec fn plugin_words(rows: Seq<ListedView>, plugin_id: Seq<char>, places: Seq<usize>) -> Seq<
    char,
> {
    plugin_id + " ("@ + decimal_of(places.len()) + " accounts, active: "@ + shown(
        active_among(rows, places, 0),
    ) + ")"@
}

fn plugin_label(rows: &Vec<ListedAccount>, plugin_id: &str, places: &Vec<usize>) -> (r: String)
    requires
        forall|k: int| 0 <= k < places@.len() ==> #[trigger] places@[k] < rows@.len(),
    ensures
        r@ == plugin_words(rows.deep_view(), plugin_id@, places@),
{
    let ghost all = rows.deep_view();
    let mut active: Option<String> = None;
    let mut i: usize = 0;
    while i < places.len() && active.is_none()
        invariant
            i <= places@.len(),
            all == rows.deep_view(),
            forall|k: int| 0 <= k < places@.len() ==> #[trigger] places@[k] < rows@.len(),
            active is None ==> active_among(all, places@, 0) == active_among(
                all,
                places@,
                i as int,
            ),
            active is Some ==> active_among(all, places@, 0) == active.deep_view(),
        decreases places@.len() - i,
    {
        assert(places@[i as int] < rows@.len());
        let at = places[i];
        assert(all[at as int] == rows@[at as int].deep_view());
        if rows[at].account.active {
            active = Some(rows[at].account.alias.clone());
        }
        i = i + 1;
    }
    join2(
        join3(
            join3(plugin_id, " (", decimal(places.len() as u64).as_str()).as_str(),
            " accounts, active: ",
            display_opt(&active).as_str(),
        ).as_str(),
        ")",
    )
}

/// An account in words.
pub open spec fn account_words(account: RecordView) -> Seq<char> {
    account.alias + (if account.active {
        " [active]"@
    } else {
        ""@
    }) + "  email="@ + shown(account.email) + "  plan="@ + shown(account.plan)
}

/// An account in words.
pub fn account_label(row: &ListedAccount) -> (r: String)
    ensures
        r@ == account_words(row.deep_view().account),
{
    let active = if row.account.active {
        " [active]"
    } else {
        ""
    };
    join3(
        join3(
            join2(row.account.alias.as_str(), active).as_str(),
            "  email=",
            display_opt(&row.account.email).as_str(),
        ).as_str(),
        "  plan=",
        display_opt(&row.account.plan).as_str(),
    )
}

/// The plugins that have accounts, in order.
pub open spec fn plugins_of(rows: Seq<ListedView>) -> Seq<Seq<char>> {
    sorted_items(grouped(rows)).map_values(|e: (Seq<char>, Seq<usize>)| e.0)
}

pub open spec fn plugin_choices(rows: Seq<ListedView>) -> Seq<Seq<char>> {
    sorted_items(grouped(rows)).map_values(
        |e: (Seq<char>, Seq<usize>)| plugin_words(rows, e.0, e.1),
    )
}

pub open spec fn plugin_keys(rows: Seq<ListedView>) -> Seq<Seq<Seq<char>>> {
    sorted_items(grouped(rows)).map_values(|e: (Seq<char>, Seq<usize>)| seq![e.0])
}

pub open spec fn account_choices(rows: Seq<ListedView>, places: Seq<usize>) -> Seq<Seq<char>> {
    places.map_values(|at: usize| account_words(rows[at as int].account))
}

pub open spec fn account_keys(rows: Seq<ListedView>, places: Seq<usize>) -> Seq<Seq<Seq<char>>> {
    places.map_values(
        |at: usize|
            seq![
                rows[at as int].account.alias,
                rows[at as int].account.plugin_id + "/"@ + rows[at as int].account.alias,
            ],
    )
}

pub open spec fn confirm_prompt(account: ResolvedView) -> Seq<char> {
    "Switch to "@ + account.plugin_id + "/"@ + account.alias + "? [y/N]: "@
}

/// What follows the choice of a plugin: its only account, or a question for one of them.
pub open spec fn after_plugin(rows: Seq<ListedView>, plugin_id: Seq<char>) -> (
    ChoiceView,
    QuestionView,
) {
    let places = grouped(rows)[plugin_id];
    if places.len() == 1 {
        let account = resolved(rows[places[0] as int].account);
        (
            ChoiceView::Confirm { account },
            QuestionView {
                lines: seq!["Account: "@ + account.plugin_id + "/"@ + account.alias],
                prompt: confirm_prompt(account),
            },
        )
    } else {
        (
            ChoiceView::Account { plugin_id },
            option_question(
                "Available accounts:"@,
                "Select an account"@,
                account_choices(rows, places),
            ),
        )
    }
}

/// How the choice starts: with the only plugin, or with a question for one.
pub open spec fn first_turn(rows: Seq<ListedView>) -> (ChoiceView, QuestionView) {
    let plugins = plugins_of(rows);
    if plugins.len() == 1 {
        let (choice, question) = after_plugin(rows, plugins[0]);
        (
            choice,
            QuestionView {
                lines: seq!["plugin: "@ + plugins[0]] + question.lines,
                prompt: question.prompt,
            },
        )
    } else {
        (
            ChoiceView::Plugin,
            option_question("Available plugins:"@, "Select a plugin"@, plugin_choices(rows)),
        )
    }
}

/// The same question once more, after some words.
pub open spec fn once_more(words: Seq<Seq<char>>, prompt: Seq<char>) -> QuestionView {
    QuestionView { lines: words, prompt }
}

/// Nothing to ask.
pub open spec fn no_question() -> QuestionView {
    QuestionView { lines: seq![], prompt: ""@ }
}

/// How the choice goes on after a line.
pub open spec fn next_turn(choice: ChoiceView, rows: Seq<ListedView>, line: Option<Seq<char>>) -> (
    ChoiceView,
    QuestionView,
) {
    match choice {
        ChoiceView::Plugin => {
            let prompt = option_prompt("Select a plugin"@, plugins_of(rows).len());
            match option_reply_to(plugin_keys(rows), line) {
                OptionReply::Cancel => (ChoiceView::Done(None), no_question()),
                OptionReply::Again => (choice, once_more(seq![], prompt)),
                OptionReply::Invalid => (
                    choice,
                    once_more(seq!["Invalid input. Try again."@], prompt),
                ),
                OptionReply::Chosen(i) => after_plugin(rows, plugins_of(rows)[i as int]),
            }
        },
        ChoiceView::Account { plugin_id } => {
            let places = grouped(rows)[plugin_id];
            let prompt = option_prompt("Select an account"@, places.len());
            match option_reply_to(account_keys(rows, places), line) {
                OptionReply::Cancel => (ChoiceView::Done(None), no_question()),
                OptionReply::Again => (choice, once_more(seq![], prompt)),
                OptionReply::Invalid => (
                    choice,
                    once_more(seq!["Invalid input. Try again."@], prompt),
                ),
                OptionReply::Chosen(i) => {
                    let account = resolved(rows[places[i as int] as int].account);
                    (
                        ChoiceView::Confirm { account },
                        QuestionView { lines: seq![], prompt: confirm_prompt(account) },
                    )
                },
            }
        },
        ChoiceView::Confirm { account } => match confirmed_by(line) {
            Some(true) => (ChoiceView::Done(Some(account)), no_question()),
            Some(false) => (ChoiceView::Done(None), no_question()),
            None => (
                choice,
                once_more(seq!["Please enter y or n."@], confirm_prompt(account)),
            ),
        },
        ChoiceView::Done(_) => (choice, no_question()),
    }
}

// ---------------------------------------------------------------------------------------------
// What holds of a choice
// ---------------------------------------------------------------------------------------------
proof fn lemma_grouped(rows: Seq<ListedView>)
    requires
        rows.len() <= usize::MAX,
    ensures
        forall|p: Seq<char>| #[trigger]
            grouped(rows).contains_key(p) ==> grouped(rows)[p].len() > 0 && (forall|k: int|
                0 <= k < grouped(rows)[p].len() ==> (#[trigger] grouped(rows)[p][k]) < rows.len()
                    && rows[grouped(rows)[p][k] as int].account.plugin_id == p),
    decreases rows.len(),
{
    if rows.len() > 0 {
        let front = rows.drop_last();
        lemma_grouped(front);
        let last = rows.last().account.plugin_id;
        assert forall|p: Seq<char>| #[trigger] grouped(rows).contains_key(p) implies grouped(
            rows,
        )[p].len() > 0 && (forall|k: int|
            0 <= k < grouped(rows)[p].len() ==> (#[trigger] grouped(rows)[p][k]) < rows.len()
                && rows[grouped(rows)[p][k] as int].account.plugin_id == p) by {
            if p != last {
                assert(grouped(front).contains_key(p));
                assert(grouped(rows)[p] == grouped(front)[p]);
                assert forall|k: int| 0 <= k < grouped(rows)[p].len() implies (#[trigger] grouped(
                    rows,
                )[p][k]) < rows.len() && rows[grouped(rows)[p][k] as int].account.plugin_id
                    == p by {
                    let at = grouped(front)[p][k];
                    assert(at < front.len() && front[at as int].account.plugin_id == p);
                }
            } else {
                assert forall|k: int| 0 <= k < grouped(rows)[p].len() implies (#[trigger] grouped(
                    rows,
                )[p][k]) < rows.len() && rows[grouped(rows)[p][k] as int].account.plugin_id
                    == p by {
                    if k < grouped(rows)[p].len() - 1 {
                        assert(grouped(front).contains_key(p));
                        let at = grouped(front)[p][k];
                        assert(grouped(rows)[p][k] == at);
                        assert(at < front.len() && front[at as int].account.plugin_id == p);
                    }
                }
            }
        }
    }
}

/// Whether an account is among the rows.
pub open spec fn is_saved(account: ResolvedView, rows: Seq<ListedView>) -> bool {
    exists|i: int| 0 <= i < rows.len() && resolved(#[trigger] rows[i].account) == account
}

/// Whether a choice speaks of the rows: of a plugin that has accounts, or of an account among them.
pub open spec fn about(choice: ChoiceView, rows: Seq<ListedView>) -> bool {
    match choice {
        ChoiceView::Plugin => true,
        ChoiceView::Account { plugin_id } => grouped(rows).contains_key(plugin_id),
        ChoiceView::Confirm { account } => is_saved(account, rows),
        ChoiceView::Done(Some(account)) => is_saved(account, rows),
        ChoiceView::Done(None) => true,
    }
}

proof fn lemma_grouped_is_finite(rows: Seq<ListedView>)
    ensures
        grouped(rows).dom().finite(),
    decreases rows.len(),
{
    if rows.len() > 0 {
        lemma_grouped_is_finite(rows.drop_last());
    }
}

proof fn lemma_plugins_of(rows: Seq<ListedView>)
    ensures
        forall|i: int|
            0 <= i < plugins_of(rows).len() ==> grouped(rows).contains_key(
                #[trigger] plugins_of(rows)[i],
            ) && grouped(rows)[plugins_of(rows)[i]] == sorted_items(grouped(rows))[i].1,
{
    let items = sorted_items(grouped(rows));
    lemma_grouped_is_finite(rows);
    sorted_items_exist(grouped(rows));
    lemma_map_of(items);
    assert forall|i: int| 0 <= i < plugins_of(rows).len() implies grouped(rows).contains_key(
        #[trigger] plugins_of(rows)[i],
    ) && grouped(rows)[plugins_of(rows)[i]] == items[i].1 by {
        assert(plugins_of(rows)[i] == items[i].0);
    }
}

proof fn lemma_after_plugin(rows: Seq<ListedView>, plugin_id: Seq<char>)
    requires
        rows.len() <= usize::MAX,
        grouped(rows).contains_key(plugin_id),
    ensures
        about(after_plugin(rows, plugin_id).0, rows),
{
    lemma_grouped(rows);
    let places = grouped(rows)[plugin_id];
    let at = places[0];
    assert(at < rows.len());
    assert(resolved(rows[at as int].account) == resolved(rows[at as int].account));
}

/// The choice starts with what is saved.
pub proof fn a_choice_starts_with_saved_accounts(rows: Seq<ListedView>)
    requires
        rows.len() <= usize::MAX,
    ensures
        about(first_turn(rows).0, rows),
{
    lemma_plugins_of(rows);
    if plugins_of(rows).len() == 1 {
        assert(grouped(rows).contains_key(plugins_of(rows)[0]));
        lemma_after_plugin(rows, plugins_of(rows)[0]);
    }
}

proof fn lemma_option_named(keys: Seq<Seq<Seq<char>>>, answer: Seq<char>, i: int)
    ensures
        super::prompt::option_named(keys, answer, i) matches Some(k) ==> i <= k < keys.len(),
    decreases keys.len() - i,
{
    if 0 <= i < keys.len() {
        lemma_option_named(keys, answer, i + 1);
    }
}

/// Whatever is answered, the account that is chosen in the end is a saved one.
pub proof fn a_choice_stays_with_saved_accounts(
    choice: ChoiceView,
    rows: Seq<ListedView>,
    line: Option<Seq<char>>,
)
    requires
        rows.len() <= usize::MAX,
        about(choice, rows),
    ensures
        about(next_turn(choice, rows, line).0, rows),
{
    match choice {
        ChoiceView::Plugin => {
            lemma_plugins_of(rows);
            match option_reply_to(plugin_keys(rows), line) {
                OptionReply::Chosen(i) => {
                    lemma_option_named(
                        plugin_keys(rows),
                        crate::text::trim_of(line->0),
                        0,
                    );
                    assert(grouped(rows).contains_key(plugins_of(rows)[i as int]));
                    lemma_after_plugin(rows, plugins_of(rows)[i as int]);
                },
                _ => {},
            }
        },
        ChoiceView::Account { plugin_id } => {
            lemma_grouped(rows);
            let places = grouped(rows)[plugin_id];
            match option_reply_to(account_keys(rows, places), line) {
                OptionReply::Chosen(i) => {
                    lemma_option_named(
                        account_keys(rows, places),
                        crate::text::trim_of(line->0),
                        0,
                    );
                    let at = grouped(rows)[plugin_id][i as int];
                    assert(at < rows.len());
                    assert(resolved(rows[at as int].account) == resolved(rows[at as int].account));
                },
                _ => {},
            }
        },
        _ => {},
    }
}

// ---------------------------------------------------------------------------------------------
// Making the choice
// ---------------------------------------------------------------------------------------------
pub open spec fn turn_view(turn: (Choice, Question)) -> (ChoiceView, QuestionView) {
    (turn.0.deep_view(), turn.1.deep_view())
}

fn confirm_question(account: &ResolvedAccount) -> (r: String)
    ensures
        r@ == confirm_prompt(account.deep_view()),
{
    join2(
        join3(
            join2("Switch to ", account.plugin_id.as_str()).as_str(),
            "/",
            account.alias.as_str(),
        ).as_str(),
        "? [y/N]: ",
    )
}

fn places_of(rows: &Vec<ListedAccount>, plugin_id: &str) -> (r: Vec<usize>)
    requires
        grouped(rows.deep_view()).contains_key(plugin_id@),
    ensures
        r@ == grouped(rows.deep_view())[plugin_id@],
        r@.len() > 0,
        forall|k: int| 0 <= k < r@.len() ==> #[trigger] r@[k] < rows@.len(),
{
    let count: usize = rows.len();
    proof {
        assert(rows.deep_view().len() == count);
        lemma_grouped(rows.deep_view());
    }
    let mut groups = group_accounts_by_plugin(rows);
    match groups.remove(plugin_id) {
        Some(places) => {
            assert(places.deep_view() == places@);
            assert forall|k: int| 0 <= k < places@.len() implies #[trigger] places@[k] < rows@.len() by {
                assert(grouped(rows.deep_view())[plugin_id@][k] < rows@.len());
            }
            places
        },
        None => Vec::new(),
    }
}

fn account_options(rows: &Vec<ListedAccount>, places: &Vec<usize>) -> (r: (
    Vec<String>,
    Vec<Vec<String>>,
))
    requires
        forall|k: int| 0 <= k < places@.len() ==> #[trigger] places@[k] < rows@.len(),
    ensures
        r.0.deep_view() == account_choices(rows.deep_view(), places@),
        r.1.deep_view() == account_keys(rows.deep_view(), places@),
{
    let ghost all = rows.deep_view();
    let ghost labels_all = account_choices(all, places@);
    let ghost keys_all = account_keys(all, places@);
    let mut labels: Vec<String> = Vec::new();
    let mut keys: Vec<Vec<String>> = Vec::new();
    let mut i: usize = 0;
    while i < places.len()
        invariant
            i <= places@.len(),
            all == rows.deep_view(),
            labels_all == account_choices(all, places@),
            keys_all == account_keys(all, places@),
            forall|k: int| 0 <= k < places@.len() ==> #[trigger] places@[k] < rows@.len(),
            labels.deep_view() == labels_all.take(i as int),
            keys.deep_view() == keys_all.take(i as int),
        decreases places@.len() - i,
    {
        assert(places@[i as int] < rows@.len());
        let at = places[i];
        let row = &rows[at];
        assert(all[at as int] == rows@[at as int].deep_view());
        let ghost labels_before = labels.deep_view();
        let ghost keys_before = keys.deep_view();
        labels.push(account_label(row));
        assert(labels.deep_view() == labels_before.push(labels_all[i as int]));
        let mut names: Vec<String> = Vec::new();
        names.push(row.account.alias.clone());
        names.push(join3(row.account.plugin_id.as_str(), "/", row.account.alias.as_str()));
        assert(names.deep_view() == keys_all[i as int]);
        keys.push(names);
        assert(keys.deep_view() == keys_before.push(keys_all[i as int]));
        assert(labels_all.take(i + 1) == labels_all.take(i as int).push(labels_all[i as int]));
        assert(keys_all.take(i + 1) == keys_all.take(i as int).push(keys_all[i as int]));
        i = i + 1;
    }
    assert(labels_all.take(places@.len() as int) == labels_all);
    assert(keys_all.take(places@.len() as int) == keys_all);
    (labels, keys)
}

fn resolve_row(rows: &Vec<ListedAccount>, at: usize) -> (r: ResolvedAccount)
    requires
        at < rows@.len(),
    ensures
        r.deep_view() == resolved(rows.deep_view()[at as int].account),
{
    assert(rows.deep_view()[at as int] == rows@[at as int].deep_view());
    ResolvedAccount {
        plugin_id: rows[at].account.plugin_id.clone(),
        alias: rows[at].account.alias.clone(),
    }
}

fn choose_account(rows: &Vec<ListedAccount>, plugin_id: &str) -> (r: (Choice, Question))
    requires
        grouped(rows.deep_view()).contains_key(plugin_id@),
    ensures
        turn_view(r) == after_plugin(rows.deep_view(), plugin_id@),
{
    let places = places_of(rows, plugin_id);
    if places.len() == 1 {
        assert(places@[0] < rows@.len());
        let account = resolve_row(rows, places[0]);
        let mut lines: Vec<String> = Vec::new();
        let line = join3(
            join2("Account: ", account.plugin_id.as_str()).as_str(),
            "/",
            account.alias.as_str(),
        );
        let ghost l = line@;
        lines.push(line);
        assert(lines.deep_view() == seq![l]);
        let prompt = confirm_question(&account);
        (Choice::Confirm { account }, Question { lines, prompt })
    } else {
        let (labels, keys) = account_options(rows, &places);
        (
            Choice::Account { plugin_id: plugin_id.to_owned() },
            prompt_option("Available accounts:", "Select an account", &labels),
        )
    }
}

fn plugin_options(rows: &Vec<ListedAccount>) -> (r: (Vec<String>, Vec<Vec<String>>, Vec<String>))
    ensures
        r.0.deep_view() == plugin_choices(rows.deep_view()),
        r.1.deep_view() == plugin_keys(rows.deep_view()),
        r.2.deep_view() == plugins_of(rows.deep_view()),
{
    let groups = group_accounts_by_plugin(rows);
    let n = groups.len();
    let ghost all = rows.deep_view();
    let ghost items = groups.items();
    let ghost labels_all = plugin_choices(all);
    let ghost keys_all = plugin_keys(all);
    let ghost names_all = plugins_of(all);
    let count: usize = rows.len();
    proof {
        assert(all.len() == count);
        lemma_grouped(all);
        lemma_map_of(items);
    }
    let mut labels: Vec<String> = Vec::new();
    let mut keys: Vec<Vec<String>> = Vec::new();
    let mut names: Vec<String> = Vec::new();
    let mut i: usize = 0;
    while i < n
        invariant
            i <= n,
            n == items.len(),
            items == groups.items(),
            items == sorted_items(grouped(all)),
            all == rows.deep_view(),
            labels_all == plugin_choices(all),
            keys_all == plugin_keys(all),
            names_all == plugins_of(all),
            labels.deep_view() == labels_all.take(i as int),
            keys.deep_view() == keys_all.take(i as int),
            names.deep_view() == names_all.take(i as int),
            forall|k: int|
                0 <= k < items.len() ==> grouped(all).contains_key(#[trigger] items[k].0) && grouped(
                    all,
                )[items[k].0] == items[k].1,
            forall|p: Seq<char>| #[trigger]
                grouped(all).contains_key(p) ==> (forall|k: int|
                    0 <= k < grouped(all)[p].len() ==> (#[trigger] grouped(all)[p][k])
                        < all.len()),
        decreases n - i,
    {
        let plugin_id = groups.key_at(i);
        let places = groups.value_at(i);
        assert(grouped(all).contains_key(items[i as int].0));
        assert(places.deep_view() == places@);
        assert forall|k: int| 0 <= k < places@.len() implies #[trigger] places@[k] < rows@.len() by {
            assert(grouped(all)[items[i as int].0][k] < all.len());
        }
        let ghost labels_before = labels.deep_view();
        let ghost keys_before = keys.deep_view();
        let ghost names_before = names.deep_view();
        labels.push(plugin_label(rows, plugin_id.as_str(), places));
        assert(labels.deep_view() == labels_before.push(labels_all[i as int]));
        let mut own: Vec<String> = Vec::new();
        own.push(plugin_id.clone());
        assert(own.deep_view() == keys_all[i as int]);
        keys.push(own);
        assert(keys.deep_view() == keys_before.push(keys_all[i as int]));
        names.push(plugin_id.clone());
        assert(names.deep_view() == names_before.push(names_all[i as int]));
        assert(labels_all.take(i + 1) == labels_all.take(i as int).push(labels_all[i as int]));
        assert(keys_all.take(i + 1) == keys_all.take(i as int).push(keys_all[i as int]));
        assert(names_all.take(i + 1) == names_all.take(i as int).push(names_all[i as int]));
        i = i + 1;
    }
    assert(labels_all.take(n as int) == labels_all);
    assert(keys_all.take(n as int) == keys_all);
    assert(names_all.take(n as int) == names_all);
    (labels, keys, names)
}

/// How the choice among some accounts starts.
pub fn prompt_for_account_from_rows(rows: &Vec<ListedAccount>) -> (r: (Choice, Question))
    ensures
        turn_view(r) == first_turn(rows.deep_view()),
        about(r.0.deep_view(), rows.deep_view()),
{
    let (labels, keys, names) = plugin_options(rows);
    let count: usize = rows.len();
    proof {
        assert(rows.deep_view().len() == count);
        a_choice_starts_with_saved_accounts(rows.deep_view());
        lemma_plugins_of(rows.deep_view());
    }
    if names.len() == 1 {
        assert(names.deep_view()[0] == names@[0]@);
        assert(grouped(rows.deep_view()).contains_key(plugins_of(rows.deep_view())[0]));
        let (choice, question) = choose_account(rows, names[0].as_str());
        let mut lines: Vec<String> = Vec::new();
        let line = join2("plugin: ", names[0].as_str());
        let ghost l = line@;
        lines.push(line);
        assert(lines.deep_view() == seq![l]);
        crate::text::append_all(&mut lines, &question.lines);
        (choice, Question { lines, prompt: question.prompt })
    } else {
        (Choice::Plugin, prompt_option("Available plugins:", "Select a plugin", &labels))
    }
}

fn nothing_to_ask() -> (r: Question)
    ensures
        r.deep_view() == no_question(),
{
    let r = Question { lines: Vec::new(), prompt: "".to_owned() };
    assert(r.deep_view().lines == Seq::<Seq<char>>::empty());
    r
}

fn ask_again(words: Option<&str>, prompt: String) -> (r: Question)
    ensures
        r.deep_view() == once_more(
            match words.deep_view() {
                Some(w) => seq![w],
                None => seq![],
            },
            prompt@,
        ),
{
    let mut lines: Vec<String> = Vec::new();
    match words {
        Some(w) => {
            lines.push(w.to_owned());
            assert(lines.deep_view() == seq![w@]);
        },
        None => {
            assert(lines.deep_view() == Seq::<Seq<char>>::empty());
        },
    }
    Question { lines, prompt }
}

/// How the choice goes on after a line, or after the end of the input.
pub fn next_choice(choice: Choice, rows: &Vec<ListedAccount>, line: Option<&str>) -> (r: (
    Choice,
    Question,
))
    requires
        about(choice.deep_view(), rows.deep_view()),
    ensures
        turn_view(r) == next_turn(choice.deep_view(), rows.deep_view(), line.deep_view()),
        about(r.0.deep_view(), rows.deep_view()),
{
    let count: usize = rows.len();
    proof {
        assert(rows.deep_view().len() == count);
        a_choice_stays_with_saved_accounts(
            choice.deep_view(),
            rows.deep_view(),
            line.deep_view(),
        );
        lemma_plugins_of(rows.deep_view());
    }
    match choice {
        Choice::Plugin => {
            let (labels, keys, names) = plugin_options(rows);
            let prompt = ask_option("Select a plugin", names.len());
            match option_reply(&keys, line) {
                OptionReply::Cancel => (Choice::Done(None), nothing_to_ask()),
                OptionReply::Again => (Choice::Plugin, ask_again(None, prompt)),
                OptionReply::Invalid => (
                    Choice::Plugin,
                    ask_again(Some("Invalid input. Try again."), prompt),
                ),
                OptionReply::Chosen(i) => {
                    assert(names.deep_view()[i as int] == names@[i as int]@);
                    assert(grouped(rows.deep_view()).contains_key(
                        plugins_of(rows.deep_view())[i as int],
                    ));
                    choose_account(rows, names[i].as_str())
                },
            }
        },
        Choice::Account { plugin_id } => {
            let places = places_of(rows, plugin_id.as_str());
            let (labels, keys) = account_options(rows, &places);
            let prompt = ask_option("Select an account", places.len());
            match option_reply(&keys, line) {
                OptionReply::Cancel => (Choice::Done(None), nothing_to_ask()),
                OptionReply::Again => (Choice::Account { plugin_id }, ask_again(None, prompt)),
                OptionReply::Invalid => (
                    Choice::Account { plugin_id },
                    ask_again(Some("Invalid input. Try again."), prompt),
                ),
                OptionReply::Chosen(i) => {
                    assert(places@[i as int] < rows@.len());
                    let account = resolve_row(rows, places[i]);
                    let prompt = confirm_question(&account);
                    (Choice::Confirm { account }, ask_again(None, prompt))
                },
            }
        },
        Choice::Confirm { account } => match prompt_confirmation(line) {
            Some(true) => (Choice::Done(Some(account)), nothing_to_ask()),
            Some(false) => (Choice::Done(None), nothing_to_ask()),
            None => {
                let prompt = confirm_question(&account);
                (Choice::Confirm { account }, ask_again(Some("Please enter y or n."), prompt))
            },
        },
        Choice::Done(account) => (Choice::Done(account), nothing_to_ask()),
    }
}

} // verus!
