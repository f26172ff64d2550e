//! Commands on accounts: which account is meant, which one is in use and from where, and what a
//! project binds.
use vstd::prelude::*;

use crate::account::{CurrentView, RecordView};
use crate::cmd::accounts::{
    ListedView, UsePlanView, UseScope, add_plan, grouped, numbered, qualified, selected, use_plan,
    with_alias,
};
use crate::cmd::login::{
    LoginPlanView, LoginStep, login_plan, login_problem, login_target, merged_alias, step_for,
};
use crate::cmd::project::{
    BindingView, ConfigView, account_lines, binding_lines, bound, bound_of, candidates, cleared,
    first_present,
};
use crate::cmd::scope::{
    EffectiveView, ScopeSource, accounts_in, asked_for, effective_row, effective_rows,
    global_accounts, saved_account, state_of, targets_in,
};
use crate::path::{above, joined};
use crate::text::{decimal_of, split_once_of, text_lt, unsigned_of};
use crate::text_map::{lemma_map_of, map_of, sorted_items, sorted_items_exist};

verus! {

// ---------------------------------------------------------------------------------------------
// Which account is meant
// ---------------------------------------------------------------------------------------------
/// The rows of a list are numbered from one on.
pub proof fn rows_are_numbered_from_one(accounts: Seq<RecordView>)
    ensures
        numbered(accounts).len() == accounts.len(),
        forall|i: int|
            0 <= i < accounts.len() ==> (#[trigger] numbered(accounts)[i]).row == i + 1
                && numbered(accounts)[i].account == accounts[i],
{
}

/// A number means the account of that row, with its plugin and its alias; rows that are not there are
/// refused, and the number zero is by itself.
pub proof fn a_number_means_a_row(
    accounts: Seq<RecordView>,
    selector: Seq<char>,
    hint: Option<Seq<char>>,
)
    requires
        unsigned_of(selector, usize::MAX as nat) is Some,
    ensures
        ({
            let row = unsigned_of(selector, usize::MAX as nat)->0;
            match selected(accounts, selector, hint) {
                Ok(found) => {
                    &&& 1 <= row <= accounts.len()
                    &&& found.plugin_id == accounts[row - 1].plugin_id
                    &&& found.alias == accounts[row - 1].alias
                },
                Err(message) => {
                    &&& row == 0 || row > accounts.len()
                    &&& row == 0 ==> message == "Row numbers start at 1"@
                    &&& row > 0 ==> message == "Row "@ + decimal_of(row) + " does not exist"@
                },
            }
        }),
{
}

/// What stands before the first slash of a text.
pub open spec fn before_slash(s: Seq<char>) -> Seq<char> {
    match split_once_of(s, "/"@) {
        Some((before, _)) => before,
        None => s,
    }
}

/// What stands after the first slash of a text.
pub open spec fn after_slash(s: Seq<char>) -> Seq<char> {
    match split_once_of(s, "/"@) {
        Some((_, after)) => after,
        None => seq![],
    }
}

/// A full name that contradicts the plugin asked for is refused.
pub proof fn a_contradicting_plugin_is_refused(
    accounts: Seq<RecordView>,
    selector: Seq<char>,
    hint: Option<Seq<char>>,
)
    requires
        unsigned_of(selector, usize::MAX as nat) is None,
        split_once_of(selector, "/"@) is Some,
    ensures
        selected(accounts, selector, hint) is Err <==> (hint is Some && hint->0 != before_slash(selector)),
        selected(accounts, selector, hint) matches Ok(found) ==> found.plugin_id == before_slash(selector) && found.alias == after_slash(selector),
        selected(accounts, selector, hint) matches Err(message) ==> message
            == "Conflicting arguments: the positional plugin does not match --plugin"@,
{
}

/// The accounts with an alias are all of those that have it, and only those.
pub proof fn accounts_are_found_by_alias(accounts: Seq<RecordView>, alias: Seq<char>, x: RecordView)
    ensures
        with_alias(accounts, alias).contains(x) <==> (accounts.contains(x) && x.alias == alias),
    decreases accounts.len(),
{
    if accounts.len() > 0 {
        let front = accounts.drop_last();
        let last = accounts.last();
        accounts_are_found_by_alias(front, alias, x);
        let before = with_alias(front, alias);
        let all = with_alias(accounts, alias);
        assert(accounts[accounts.len() - 1] == last);
        if all.contains(x) {
            let k = choose|k: int| 0 <= k < all.len() && all[k] == x;
            if k < before.len() {
                assert(before[k] == x);
            }
        }
        if before.contains(x) {
            let k = choose|k: int| 0 <= k < before.len() && before[k] == x;
            assert(all[k] == x);
        }
        if front.contains(x) {
            let k = choose|k: int| 0 <= k < front.len() && front[k] == x;
            assert(accounts[k] == x);
        }
        if accounts.contains(x) {
            let k = choose|k: int| 0 <= k < accounts.len() && accounts[k] == x;
            if k < front.len() {
                assert(front[k] == x);
            } else if x.alias == alias {
                assert(all[all.len() - 1] == x);
            }
        }
    }
}

/// An alias that no account has is refused as such, one that several have for that reason.
pub proof fn an_unclear_alias_is_refused(
    accounts: Seq<RecordView>,
    alias: Seq<char>,
    hint: Option<Seq<char>>,
)
    requires
        unsigned_of(alias, usize::MAX as nat) is None,
        split_once_of(alias, "/"@) is None,
    ensures
        ({
            let n = with_alias(accounts, alias).len();
            match selected(accounts, alias, hint) {
                Ok(found) => n == 1 && found.alias == alias && found.plugin_id == with_alias(
                    accounts,
                    alias,
                )[0].plugin_id,
                Err(message) => {
                    &&& n != 1
                    &&& n == 0 ==> message == "Account "@ + alias + " does not exist"@
                    &&& n > 1 ==> message == "Alias "@ + alias
                        + " exists under multiple plugins; use <plugin>/<alias>"@
                },
            }
        }),
{
    let found = with_alias(accounts, alias);
    if found.len() == 1 {
        accounts_are_found_by_alias(accounts, alias, found[0]);
        assert(found.contains(found[0]));
    }
}

/// A full name has both of its halves.
pub proof fn a_full_name_has_two_halves(value: Seq<char>)
    ensures
        qualified(value) matches Some((plugin, alias)) ==> plugin.len() > 0 && alias.len() > 0
            && split_once_of(value, "/"@) == Some((plugin, alias)),
        qualified(value) is None <==> (split_once_of(value, "/"@) is None || before_slash(value).len() == 0 || after_slash(value).len() == 0),
{
}

/// Saving takes the plugin and the alias from a full name, and otherwise the plugin asked for and the
/// name as the alias. It is refused where the two plugins differ, and where a program asks without
/// saying both.
pub proof fn saving_takes_the_name_that_is_given(
    target: Option<Seq<char>>,
    plugin: Option<Seq<char>>,
    json: bool,
)
    ensures
        ({
            let full = target is Some && qualified(target->0) is Some;
            let named = qualified(target->0)->0;
            let unsaid = json && (target is None || (plugin is None && !full));
            let differ = full && plugin is Some && plugin->0 != named.0;
            match add_plan(target, plugin, json) {
                Ok(plan) => {
                    &&& !unsaid && !differ
                    &&& full ==> plan.plugin_id == Some(named.0) && plan.alias == Some(named.1)
                    &&& !full ==> plan.plugin_id == plugin && plan.alias == target
                },
                Err(message) => {
                    &&& unsaid || differ
                    &&& unsaid ==> message
                        == "Interactive save does not support --json; pass <plugin>/<alias> or alias --plugin <id>"@
                    &&& !unsaid ==> message
                        == "Conflicting arguments: the positional plugin does not match --plugin"@
                },
            }
        }),
{
}

/// Switching off is for a scope and takes no account; what it lets go of is what belongs to the scope,
/// and a shell lets go by itself. Switching on looks for an account, which a program has to name.
pub proof fn switching_off_is_for_its_scope(
    selector: Option<Seq<char>>,
    plugin: Option<Seq<char>>,
    scope: UseScope,
    json: bool,
)
    ensures
        selector is None && scope == UseScope::Project ==> use_plan(
            selector,
            plugin,
            scope,
            true,
            json,
        ) == Ok::<UsePlanView, Seq<char>>(UsePlanView::ClearProject { plugin }),
        selector is None && scope == UseScope::Global ==> use_plan(
            selector,
            plugin,
            scope,
            true,
            json,
        ) == Ok::<UsePlanView, Seq<char>>(UsePlanView::ClearGlobal { plugin }),
        selector is Some || scope == UseScope::Shell ==> use_plan(
            selector,
            plugin,
            scope,
            true,
            json,
        ) is Err,
        selector is Some ==> use_plan(selector, plugin, scope, true, json) == Err::<
            UsePlanView,
            Seq<char>,
        >("ACCOUNT is not accepted with --off; use --plugin when needed"@),
        selector is Some || !json ==> use_plan(selector, plugin, scope, false, json) == Ok::<
            UsePlanView,
            Seq<char>,
        >(UsePlanView::Find { selector }),
        selector is None && json ==> use_plan(selector, plugin, scope, false, json) == Err::<
            UsePlanView,
            Seq<char>,
        >("Interactive switching does not support --json; pass <plugin>/<alias>"@),
{
}

/// The rows of a plugin are grouped under it, by their places, from the first to the last.
pub proof fn rows_are_grouped_by_plugin(rows: Seq<ListedView>, p: Seq<char>, i: int)
    requires
        rows.len() <= usize::MAX,
    ensures
        grouped(rows).contains_key(p) <==> exists|k: int|
            0 <= k < rows.len() && (#[trigger] rows[k]).account.plugin_id == p,
        0 <= i < rows.len() && rows[i].account.plugin_id == p ==> grouped(rows).contains_key(p)
            && grouped(rows)[p].contains(i as usize),
        grouped(rows).contains_key(p) ==> forall|k: int|
            0 <= k < grouped(rows)[p].len() ==> (#[trigger] grouped(rows)[p][k]) < rows.len()
                && rows[grouped(rows)[p][k] as int].account.plugin_id == p,
        grouped(rows).contains_key(p) ==> forall|k: int, m: int|
            0 <= k < m < grouped(rows)[p].len() ==> (#[trigger] grouped(rows)[p][k]) < (
            #[trigger] grouped(rows)[p][m]),
    decreases rows.len(),
{
    if rows.len() > 0 {
        let front = rows.drop_last();
        let n = front.len() as int;
        rows_are_grouped_by_plugin(front, p, i);
        let before = grouped(front);
        let all = grouped(rows);
        let last = rows.last().account.plugin_id;
        assert(rows[n] == rows.last());
        if before.contains_key(p) {
            let k = choose|k: int|
                0 <= k < front.len() && (#[trigger] front[k]).account.plugin_id == p;
            assert(rows[k].account.plugin_id == p);
            assert forall|k: int| 0 <= k < before[p].len() implies rows[(
            #[trigger] before[p][k]) as int].account.plugin_id == p by {
                assert(front[before[p][k] as int] == rows[before[p][k] as int]);
            }
        }
        if exists|k: int| 0 <= k < rows.len() && (#[trigger] rows[k]).account.plugin_id == p {
            let k = choose|k: int|
                0 <= k < rows.len() && (#[trigger] rows[k]).account.plugin_id == p;
            if k < n {
                assert(front[k] == rows[k]);
            }
        }
        if p == last {
            let places = if before.contains_key(p) {
                before[p]
            } else {
                seq![]
            };
            assert(all[p] == places.push(n as usize));
            if 0 <= i < n && rows[i].account.plugin_id == p {
                assert(front[i] == rows[i]);
                let k = choose|k: int| 0 <= k < places.len() && places[k] == i as usize;
                assert(all[p][k] == i as usize);
            }
            if i == n {
                assert(all[p][places.len() as int] == n as usize);
            }
        } else {
            if 0 <= i < n && rows[i].account.plugin_id == p {
                assert(front[i] == rows[i]);
            }
        }
    }
}

// ---------------------------------------------------------------------------------------------
// Logging in
// ---------------------------------------------------------------------------------------------
/// The plugin of what to log in to.
pub open spec fn plugin_of(named: Option<(Seq<char>, Option<Seq<char>>)>) -> Seq<char> {
    match named {
        Some((plugin, _)) => plugin,
        None => seq![],
    }
}

/// The alias of what to log in to.
pub open spec fn alias_of(named: Option<(Seq<char>, Option<Seq<char>>)>) -> Option<Seq<char>> {
    match named {
        Some((_, alias)) => alias,
        None => None,
    }
}

/// What to log in to is a plugin, or a plugin and an alias, of which neither is empty.
pub proof fn a_login_is_to_a_plugin(value: Seq<char>)
    ensures
        login_target(None) == Ok::<Option<(Seq<char>, Option<Seq<char>>)>, Seq<char>>(None),
        ({
            let halves = split_once_of(value, "/"@);
            match login_target(Some(value)) {
                Ok(named) => {
                    &&& named is Some
                    &&& halves is None ==> plugin_of(named) == value && alias_of(named) is None && value.len()
                        > 0
                    &&& halves is Some ==> plugin_of(named) == before_slash(value) && alias_of(named) == Some(
                        after_slash(value),
                    ) && before_slash(value).len() > 0 && after_slash(value).len() > 0
                },
                Err(message) => {
                    &&& halves is None ==> value.len() == 0 && message == "TARGET must not be empty"@
                    &&& halves is Some ==> (before_slash(value).len() == 0 || after_slash(value).len() == 0)
                        && message == "TARGET must be <plugin> or <plugin>/<alias>"@
                },
            }
        }),
{
}

/// The alias is that of the target or that of the flag; two different ones are refused.
pub proof fn one_alias_is_given(target: Option<Seq<char>>, flag: Option<Seq<char>>)
    ensures
        target is None ==> merged_alias(target, flag) == Ok::<Option<Seq<char>>, Seq<char>>(flag),
        flag is None ==> merged_alias(target, flag) == Ok::<Option<Seq<char>>, Seq<char>>(target),
        target is Some && flag is Some ==> (merged_alias(target, flag) is Err <==> target->0
            != flag->0),
        merged_alias(target, flag) matches Ok(alias) ==> (target is Some ==> alias == target),
        merged_alias(target, flag) matches Err(message) ==> message
            == "Conflicting aliases: TARGET and --as do not match"@,
{
}

/// A program has to name the plugin and the alias; a person may leave out either.
pub proof fn a_program_names_what_it_logs_in_to(
    target: Option<Seq<char>>,
    flag: Option<Seq<char>>,
    json: bool,
)
    ensures
        login_plan(target, flag, json) matches Ok(plan) ==> {
            &&& login_target(target) is Ok
            &&& plan.plugin_id is Some <==> target is Some
            &&& target is Some ==> plan.plugin_id == Some(plugin_of(login_target(target)->Ok_0))
            &&& json ==> plan.plugin_id is Some && plan.alias is Some
            &&& flag is Some ==> plan.alias == flag
            &&& flag is None && target is Some ==> plan.alias == alias_of(login_target(target)->Ok_0)
            &&& flag is None && target is None ==> plan.alias is None
        },
        !json && login_target(target) is Ok && (flag is None || target is None || alias_of(login_target(target)->Ok_0) is None) ==> login_plan(target, flag, json) is Ok,
        json && target is None ==> login_plan(target, flag, json) == Err::<
            LoginPlanView,
            Seq<char>,
        >("Interactive login does not support --json; pass <plugin> or <plugin>/<alias>"@),
{
}

/// A login is over where the marker is there; it fails where the command fails, or where the time runs
/// out, and is waited for otherwise.
pub proof fn a_login_waits_for_its_marker(exited: Option<bool>, late: bool)
    ensures
        step_for(true, exited, late) == LoginStep::AwaitExit,
        step_for(false, Some(false), late) == LoginStep::Failed,
        exited != Some(false) ==> (step_for(false, exited, late) == LoginStep::Sleep <==> !late),
        step_for(false, Some(true), true) == LoginStep::NoMarker,
        step_for(false, None, true) == LoginStep::TimedOut,
{
}

/// What is said of a login that did not work tells which way it did not.
pub proof fn a_failed_login_says_why(plugin: Seq<char>, timeout: nat, status: Seq<char>)
    ensures
        login_problem(LoginStep::Failed, plugin, timeout, status) == Some(
            "login command for "@ + plugin + " exited with status "@ + status,
        ),
        login_problem(LoginStep::TimedOut, plugin, timeout, status) == Some(
            "timed out after "@ + decimal_of(timeout) + "s waiting for login marker for "@ + plugin,
        ),
        login_problem(LoginStep::NoMarker, plugin, timeout, status) == Some(
            "login completed but ready marker did not appear before timeout"@,
        ),
        login_problem(LoginStep::AwaitExit, plugin, timeout, status) is None,
        login_problem(LoginStep::Sleep, plugin, timeout, status) is None,
{
}

// ---------------------------------------------------------------------------------------------
// Which account is in use
// ---------------------------------------------------------------------------------------------
/// What is kept in the environment is read as it was written, and as nothing where it cannot be read.
pub proof fn what_cannot_be_read_is_nothing(text: Seq<char>)
    ensures
        accounts_in(None) == Map::<Seq<char>, Seq<char>>::empty(),
        state_of(text) is None ==> accounts_in(Some(text)) == Map::<Seq<char>, Seq<char>>::empty(),
        state_of(text) matches Some(entries) ==> accounts_in(Some(text)) == map_of(entries),
{
}

/// The scope of a row tells where its alias comes from: the shell before the project before what is
/// active everywhere. Only the first two come with a detail.
pub proof fn a_row_tells_its_scope(
    p: Seq<char>,
    global: Option<Seq<char>>,
    accounts: Seq<RecordView>,
    local: Map<Seq<char>, Seq<char>>,
    project: Map<Seq<char>, Seq<char>>,
    file: Option<Seq<char>>,
)
    ensures
        ({
            let row = effective_row(p, global, accounts, local, project, file);
            &&& row.plugin_id == p
            &&& row.scope == ScopeSource::Local <==> local.contains_key(p)
            &&& row.scope == ScopeSource::Project <==> !local.contains_key(p)
                && project.contains_key(p)
            &&& row.scope == ScopeSource::Global <==> !local.contains_key(p)
                && !project.contains_key(p) && global is Some
            &&& row.scope == ScopeSource::Local ==> row.detail == Some("current shell override"@)
            &&& row.scope == ScopeSource::Project && file is Some ==> row.detail == Some(
                "project file: "@ + file->0,
            )
            &&& row.scope == ScopeSource::Project && file is None ==> row.detail is None
            &&& row.scope == ScopeSource::Global || row.scope == ScopeSource::Unset ==> row.detail
                is None
        }),
{
}

/// A saved account is found by its plugin and its alias, the first that has both.
pub proof fn a_saved_account_is_found(
    accounts: Seq<RecordView>,
    p: Seq<char>,
    alias: Seq<char>,
    from: int,
)
    requires
        0 <= from,
    ensures
        match saved_account(accounts, p, alias, from) {
            Some(found) => exists|i: int|
                from <= i < accounts.len() && #[trigger] accounts[i] == found && found.plugin_id
                    == p && found.alias == alias,
            None => forall|i: int|
                from <= i < accounts.len() ==> !((#[trigger] accounts[i]).plugin_id == p
                    && accounts[i].alias == alias),
        },
    decreases accounts.len() - from,
{
    if from < accounts.len() && !(accounts[from].plugin_id == p && accounts[from].alias == alias) {
        a_saved_account_is_found(accounts, p, alias, from + 1);
    }
}

/// A row tells of the saved account with its alias what is known of it, each in its place, and nothing
/// where no such account is saved.
pub proof fn a_row_tells_of_its_account(
    p: Seq<char>,
    global: Option<Seq<char>>,
    accounts: Seq<RecordView>,
    local: Map<Seq<char>, Seq<char>>,
    project: Map<Seq<char>, Seq<char>>,
    file: Option<Seq<char>>,
)
    ensures
        ({
            let row = effective_row(p, global, accounts, local, project, file);
            &&& row.alias matches Some(alias) ==> match saved_account(accounts, p, alias, 0) {
                Some(saved) => row.email == saved.email && row.org_name == saved.org_name
                    && row.plan == saved.plan,
                None => row.email is None && row.org_name is None && row.plan is None,
            }
            &&& row.alias is None ==> row.email is None && row.org_name is None && row.plan is None
        }),
{
}

/// There is one row for each plugin that is known, in the order of the plugins.
pub proof fn rows_are_in_the_order_of_plugins(
    known: Map<Seq<char>, Option<Seq<char>>>,
    accounts: Seq<RecordView>,
    local: Map<Seq<char>, Seq<char>>,
    project: Map<Seq<char>, Seq<char>>,
    file: Option<Seq<char>>,
    p: Seq<char>,
)
    requires
        known.dom().finite(),
    ensures
        ({
            let rows = effective_rows(known, accounts, local, project, file);
            &&& known.contains_key(p) ==> rows.contains(
                effective_row(p, known[p], accounts, local, project, file),
            )
            &&& forall|i: int|
                0 <= i < rows.len() ==> known.contains_key((#[trigger] rows[i]).plugin_id)
            &&& forall|i: int, j: int|
                0 <= i < j < rows.len() ==> text_lt(
                    (#[trigger] rows[i]).plugin_id,
                    (#[trigger] rows[j]).plugin_id,
                )
        }),
{
    sorted_items_exist(known);
    let items = sorted_items(known);
    lemma_map_of(items);
    let rows = effective_rows(known, accounts, local, project, file);
    if known.contains_key(p) {
        let k = choose|k: int| 0 <= k < items.len() && #[trigger] items[k].0 == p;
        assert(map_of(items)[items[k].0] == items[k].1);
        assert(rows[k] == effective_row(p, known[p], accounts, local, project, file));
    }
    assert forall|i: int| 0 <= i < rows.len() implies known.contains_key(
        (#[trigger] rows[i]).plugin_id,
    ) by {
        assert(map_of(items).contains_key(items[i].0));
    }
    assert forall|i: int, j: int| 0 <= i < j < rows.len() implies text_lt(
        (#[trigger] rows[i]).plugin_id,
        (#[trigger] rows[j]).plugin_id,
    ) by {
        assert(text_lt(items[i].0, items[j].0));
    }
}

/// What is active everywhere is what the last report on a plugin says.
pub proof fn the_last_report_on_a_plugin_counts(
    current: Seq<CurrentView>,
    more: CurrentView,
    p: Seq<char>,
)
    ensures
        global_accounts(current.push(more)).contains_key(more.plugin_id),
        global_accounts(current.push(more))[more.plugin_id] == more.alias,
        p != more.plugin_id ==> (global_accounts(current.push(more)).contains_key(p)
            <==> global_accounts(current).contains_key(p)) && global_accounts(current.push(more))[p]
            == global_accounts(current)[p],
        global_accounts(Seq::<CurrentView>::empty()) == Map::<Seq<char>, Option<Seq<char>>>::empty(),
{
    assert(current.push(more).drop_last() == current);
}

/// The accounts in use are those of the rows that have one, in the order of the rows.
pub proof fn the_accounts_in_use_are_those_of_the_rows(
    rows: Seq<EffectiveView>,
    p: Seq<char>,
    alias: Seq<char>,
)
    ensures
        targets_in(rows).contains((p, alias)) <==> exists|i: int|
            0 <= i < rows.len() && (#[trigger] rows[i]).plugin_id == p && rows[i].alias == Some(
                alias,
            ),
    decreases rows.len(),
{
    if rows.len() > 0 {
        let front = rows.drop_last();
        the_accounts_in_use_are_those_of_the_rows(front, p, alias);
        let before = targets_in(front);
        let all = targets_in(rows);
        let x = (p, alias);
        assert(rows[rows.len() - 1] == rows.last());
        if before.contains(x) {
            let k = choose|k: int| 0 <= k < before.len() && before[k] == x;
            assert(all[k] == x);
            let i = choose|i: int|
                0 <= i < front.len() && (#[trigger] front[i]).plugin_id == p && front[i].alias
                    == Some(alias);
            assert(rows[i] == front[i]);
        }
        if all.contains(x) {
            let k = choose|k: int| 0 <= k < all.len() && all[k] == x;
            if k < before.len() {
                assert(before[k] == x);
            }
        }
        if exists|i: int|
            0 <= i < rows.len() && (#[trigger] rows[i]).plugin_id == p && rows[i].alias == Some(
                alias,
            ) {
            let i = choose|i: int|
                0 <= i < rows.len() && (#[trigger] rows[i]).plugin_id == p && rows[i].alias == Some(
                    alias,
                );
            if i < front.len() {
                assert(front[i] == rows[i]);
            } else {
                assert(all[all.len() - 1] == x);
            }
        }
    }
}

/// A filter asks for the plugin that it names, and no filter asks for all.
pub proof fn a_filter_asks_for_one_plugin(p: Seq<char>, q: Seq<char>)
    ensures
        asked_for(None, p),
        asked_for(Some(q), p) <==> p == q,
{
}

// ---------------------------------------------------------------------------------------------
// What a project binds
// ---------------------------------------------------------------------------------------------
/// The file of a project is looked for in the directory first and then upwards, under one name.
pub proof fn project_files_are_looked_for_upwards(dir: Seq<char>)
    ensures
        candidates(dir).len() == above(dir).len() + 1,
        candidates(dir)[0] == joined(dir, ".aswitch.toml"@),
        forall|i: int|
            0 <= i < above(dir).len() ==> candidates(dir)[i + 1] == joined(
                #[trigger] above(dir)[i],
                ".aswitch.toml"@,
            ),
{
    let dirs = seq![dir] + above(dir);
    assert forall|i: int| 0 <= i < above(dir).len() implies candidates(dir)[i + 1] == joined(
        #[trigger] above(dir)[i],
        ".aswitch.toml"@,
    ) by {
        assert(dirs[i + 1] == above(dir)[i]);
    }
}

/// The first file that is there is taken.
pub proof fn the_first_file_that_is_there_is_taken(files: Seq<Seq<char>>, present: Seq<Seq<char>>)
    ensures
        match first_present(files, present) {
            Some(path) => exists|i: int|
                0 <= i < files.len() && #[trigger] files[i] == path && present.contains(path)
                    && forall|j: int| 0 <= j < i ==> !present.contains(#[trigger] files[j]),
            None => forall|j: int| 0 <= j < files.len() ==> !present.contains(#[trigger] files[j]),
        },
    decreases files.len(),
{
    if files.len() > 0 {
        if present.contains(files[0]) {
            assert(files[0] == first_present(files, present)->0);
        } else {
            let rest = files.drop_first();
            the_first_file_that_is_there_is_taken(rest, present);
            match first_present(rest, present) {
                Some(path) => {
                    let i = choose|i: int|
                        0 <= i < rest.len() && #[trigger] rest[i] == path && present.contains(path)
                            && forall|j: int| 0 <= j < i ==> !present.contains(#[trigger] rest[j]);
                    assert(files[i + 1] == path);
                    assert forall|j: int| 0 <= j < i + 1 implies !present.contains(
                        #[trigger] files[j],
                    ) by {
                        if j > 0 {
                            assert(rest[j - 1] == files[j]);
                        }
                    }
                },
                None => {
                    assert forall|j: int| 0 <= j < files.len() implies !present.contains(
                        #[trigger] files[j],
                    ) by {
                        if j > 0 {
                            assert(rest[j - 1] == files[j]);
                        }
                    }
                },
            }
        }
    }
}

/// Binding writes the present version and adds nothing else.
pub proof fn binding_adds_one_account(
    config: Option<ConfigView>,
    plugin: Seq<char>,
    alias: Seq<char>,
    other: Seq<char>,
)
    ensures
        bound(config, plugin, alias).version == 1,
        bound(config, plugin, alias).accounts.contains_key(other) ==> other == plugin || (config
            is Some && config->0.accounts.contains_key(other)),
{
}

/// Letting go of one plugin keeps the version of the file and the other accounts; a plugin that is not
/// bound is told with the file.
pub proof fn letting_go_keeps_the_others(
    path: Seq<char>,
    config: ConfigView,
    plugin: Seq<char>,
    other: Seq<char>,
)
    ensures
        !config.accounts.contains_key(plugin) ==> cleared(path, config, Some(plugin)) == Err::<
            crate::cmd::project::ClearView,
            Seq<char>,
        >("Plugin "@ + plugin + " is not bound in "@ + path),
        cleared(path, config, Some(plugin)) matches Ok(
            crate::cmd::project::ClearView::Write(after),
        ) ==> after.version == config.version && !after.accounts.contains_key(plugin) && (other
            != plugin ==> (after.accounts.contains_key(other) <==> config.accounts.contains_key(
            other,
        )) && (config.accounts.contains_key(other) ==> after.accounts[other]
            == config.accounts[other])),
        cleared(path, config, Some(plugin)) == Ok::<crate::cmd::project::ClearView, Seq<char>>(
            crate::cmd::project::ClearView::RemoveFile,
        ) && other != plugin ==> !config.accounts.contains_key(other),
{
    if cleared(path, config, Some(plugin)) == Ok::<crate::cmd::project::ClearView, Seq<char>>(
        crate::cmd::project::ClearView::RemoveFile,
    ) && other != plugin && config.accounts.contains_key(other) {
        assert(config.accounts.remove(plugin).contains_key(other));
    }
}

/// A binding is shown with its file and one line for each account, in the order of the plugins.
pub proof fn a_binding_is_shown_line_by_line(
    binding: BindingView,
    path_word: Seq<char>,
    none_word: Seq<char>,
    some_word: Seq<char>,
)
    requires
        binding.accounts.dom().finite(),
    ensures
        ({
            let lines = binding_lines(Some(binding), path_word, none_word, some_word);
            let items = sorted_items(binding.accounts);
            let none = binding.accounts == Map::<Seq<char>, Seq<char>>::empty();
            &&& lines[0] == path_word + binding.path
            &&& none ==> lines.len() == 2 && lines[1] == none_word
            &&& !none ==> lines.len() == items.len() + 2 && lines[1] == some_word
            &&& !none ==> forall|i: int|
                0 <= i < items.len() ==> lines[i + 2] == "- "@ + (#[trigger] items[i]).0 + "/"@
                    + items[i].1
            &&& binding_lines(None, path_word, none_word, some_word) == seq![
                "No project binding found."@,
            ]
        }),
{
    let items = sorted_items(binding.accounts);
    let lines = binding_lines(Some(binding), path_word, none_word, some_word);
    if binding.accounts != Map::<Seq<char>, Seq<char>>::empty() {
        assert forall|i: int| 0 <= i < items.len() implies lines[i + 2] == "- "@ + (
        #[trigger] items[i]).0 + "/"@ + items[i].1 by {
            assert(account_lines(items)[i] == "- "@ + items[i].0 + "/"@ + items[i].1);
        }
    }
}

/// A binding for one plugin holds the account of that plugin alone, where it is bound.
pub proof fn a_filtered_binding_is_for_one_plugin(
    accounts: Map<Seq<char>, Seq<char>>,
    plugin: Seq<char>,
    p: Seq<char>,
)
    ensures
        bound_of(accounts, None) == accounts,
        bound_of(accounts, Some(plugin)).contains_key(p) <==> p == plugin && accounts.contains_key(
            p,
        ),
        bound_of(accounts, Some(plugin)).contains_key(p) ==> bound_of(accounts, Some(plugin))[p]
            == accounts[p],
{
}

} // verus!
