//! Picking saved accounts, and what the commands on them do and print.
use vstd::prelude::*;

use crate::account::{AccountRecord, RecordView, list_accounts, records_of};
use crate::registry::Registry;
use crate::text::{
    copy_opt, decimal, decimal_of, decimal_round_trip, find_from, join3, lemma_find_from, occurs_at,
    parse_usize, same, split_once, split_once_of, unsigned_of,
};
use crate::text_map::{Duplicate, TextMap};

verus! {

/// What to save the live credential as.
pub struct AddArgs {
    pub target: Option<String>,
    pub plugin: Option<String>,
    pub force: bool,
    pub json: bool,
}

/// Which account to switch to, or what to switch off.
pub struct UseArgs {
    pub selector: Option<String>,
    pub plugin: Option<String>,
    pub scope: UseScope,
    pub off: bool,
    pub json: bool,
}

/// What to list.
pub struct ListArgs {
    pub view: ListView,
    pub plugin: Option<String>,
    pub explain: bool,
    pub json: bool,
}

/// Which account to remove.
pub struct RemoveArgs {
    pub selector: String,
    pub plugin: Option<String>,
    pub force: bool,
    pub json: bool,
}

/// How far a switch reaches.
#[derive(Clone, Copy, Debug, PartialEq, Eq, Structural)]
pub enum UseScope {
    Shell,
    Project,
    Global,
}

#[derive(Clone, Copy, Debug, PartialEq, Eq, Structural)]
pub enum ListView {
    Saved,
    Current,
    Project,
    Status,
}

/// Why a command cannot go on, in words.
pub struct CommandError {
    pub message: String,
}

fn refuse(message: &str) -> (r: CommandError)
    ensures
        r.message@ == message@,
{
    CommandError { message: message.to_owned() }
}

/// A saved account with its number in a list.
pub struct ListedAccount {
    pub row: usize,
    pub account: AccountRecord,
}

pub struct ListedView {
    pub row: nat,
    pub account: RecordView,
}

impl DeepView for ListedAccount {
    type V = ListedView;

    open spec fn deep_view(&self) -> ListedView {
        ListedView { row: self.row as nat, account: self.account.deep_view() }
    }
}

/// A plugin and an alias.
pub struct ResolvedAccount {
    pub plugin_id: String,
    pub alias: String,
}

pub struct ResolvedView {
    pub plugin_id: Seq<char>,
    pub alias: Seq<char>,
}

impl DeepView for ResolvedAccount {
    type V = ResolvedView;

    open spec fn deep_view(&self) -> ResolvedView {
        ResolvedView { plugin_id: self.plugin_id@, alias: self.alias@ }
    }
}

/// Accounts with their numbers, from one on.
pub open spec fn numbered(accounts: Seq<RecordView>) -> Seq<ListedView> {
    Seq::new(accounts.len(), |i: int| ListedView { row: (i + 1) as nat, account: accounts[i] })
}

/// Accounts with their numbers, from one on.
pub fn enumerate_accounts(accounts: &Vec<AccountRecord>) -> (r: Vec<ListedAccount>)
    ensures
        r.deep_view() == numbered(accounts.deep_view()),
{
    let ghost all = accounts.deep_view();
    let mut rows: Vec<ListedAccount> = Vec::new();
    let mut i: usize = 0;
    while i < accounts.len()
        invariant
            i <= accounts@.len(),
            all == accounts.deep_view(),
            rows.deep_view() == numbered(all).take(i as int),
        decreases accounts@.len() - i,
    {
        let ghost before = rows.deep_view();
        assert(all[i as int] == accounts@[i as int].deep_view());
        rows.push(ListedAccount { row: i + 1, account: accounts[i].duplicate() });
        assert(rows.deep_view() == before.push(numbered(all)[i as int]));
        assert(numbered(all).take(i + 1) == numbered(all).take(i as int).push(
            numbered(all)[i as int],
        ));
        i = i + 1;
    }
    assert(numbered(all).take(all.len() as int) == numbered(all));
    rows
}

// ---------------------------------------------------------------------------------------------
// Selectors
// ---------------------------------------------------------------------------------------------
/// The accounts with an alias.
pub open spec fn with_alias(accounts: Seq<RecordView>, alias: Seq<char>) -> Seq<RecordView>
    decreases accounts.len(),
{
    if accounts.len() == 0 {
        seq![]
    } else if accounts.last().alias == alias {
        with_alias(accounts.drop_last(), alias).push(accounts.last())
    } else {
        with_alias(accounts.drop_last(), alias)
    }
}

pub open spec fn resolved(account: RecordView) -> ResolvedView {
    ResolvedView { plugin_id: account.plugin_id, alias: account.alias }
}

/// The account that a selector names, or why it names none. A number is that of a row, a text with a
/// slash is a plugin and an alias, and any other text is an alias.
pub open spec fn selected(
    accounts: Seq<RecordView>,
    selector: Seq<char>,
    plugin_hint: Option<Seq<char>>,
) -> Result<ResolvedView, Seq<char>> {
    match unsigned_of(selector, usize::MAX as nat) {
        Some(row) => if row == 0 {
            Err("Row numbers start at 1"@)
        } else if row <= accounts.len() {
            Ok(resolved(accounts[row - 1]))
        } else {
            Err("Row "@ + decimal_of(row) + " does not exist"@)
        },
        None => match split_once_of(selector, "/"@) {
            Some((plugin_id, alias)) => if plugin_hint is Some && plugin_hint != Some(plugin_id) {
                Err("Conflicting arguments: the positional plugin does not match --plugin"@)
            } else {
                Ok(ResolvedView { plugin_id, alias })
            },
            None => {
                let found = with_alias(accounts, selector);
                if found.len() == 0 {
                    Err("Account "@ + selector + " does not exist"@)
                } else if found.len() == 1 {
                    Ok(resolved(found[0]))
                } else {
                    Err(
                        "Alias "@ + selector
                            + " exists under multiple plugins; use <plugin>/<alias>"@,
                    )
                }
            },
        },
    }
}

pub open spec fn selection_view(r: Result<ResolvedAccount, CommandError>) -> Result<
    ResolvedView,
    Seq<char>,
> {
    match r {
        Ok(a) => Ok(a.deep_view()),
        Err(e) => Err(e.message@),
    }
}

fn resolve_record(account: &AccountRecord) -> (r: ResolvedAccount)
    ensures
        r.deep_view() == resolved(account.deep_view()),
{
    ResolvedAccount { plugin_id: account.plugin_id.clone(), alias: account.alias.clone() }
}

fn resolve_alias(accounts: &Vec<AccountRecord>, selector: &str) -> (r: Result<
    ResolvedAccount,
    CommandError,
>)
    ensures
        ({
            let found = with_alias(accounts.deep_view(), selector@);
            selection_view(r) == if found.len() == 0 {
                Err("Account "@ + selector@ + " does not exist"@)
            } else if found.len() == 1 {
                Ok(resolved(found[0]))
            } else {
                Err(
                    "Alias "@ + selector@ + " exists under multiple plugins; use <plugin>/<alias>"@,
                )
            }
        }),
{
    let ghost all = accounts.deep_view();
    let mut found: usize = 0;
    let mut at: usize = 0;
    let mut i: usize = 0;
    while i < accounts.len()
        invariant
            i <= accounts@.len(),
            all == accounts.deep_view(),
            found == with_alias(all.take(i as int), selector@).len(),
            found <= i,
            found == 1 ==> at < i && with_alias(all.take(i as int), selector@)[0] == all[at as int],
        decreases accounts@.len() - i,
    {
        assert(all.take(i + 1).drop_last() == all.take(i as int));
        assert(all[i as int] == accounts@[i as int].deep_view());
        if same(accounts[i].alias.as_str(), selector) {
            found = found + 1;
            at = i;
        }
        i = i + 1;
    }
    assert(all.take(all.len() as int) == all);
    if found == 0 {
        Err(CommandError { message: join3("Account ", selector, " does not exist") })
    } else if found == 1 {
        Ok(resolve_record(&accounts[at]))
    } else {
        Err(
            CommandError {
                message: join3(
                    "Alias ",
                    selector,
                    " exists under multiple plugins; use <plugin>/<alias>",
                ),
            },
        )
    }
}

/// The account that a selector names. `accounts` are those of the plugin of the hint, where there is
/// one.
pub fn resolve_among(
    accounts: &Vec<AccountRecord>,
    selector: &str,
    plugin_hint: Option<&str>,
) -> (r: Result<ResolvedAccount, CommandError>)
    ensures
        selection_view(r) == selected(accounts.deep_view(), selector@, plugin_hint.deep_view()),
{
    match parse_usize(selector) {
        Some(row) => if row == 0 {
            Err(refuse("Row numbers start at 1"))
        } else if row <= accounts.len() {
            assert(accounts.deep_view()[row - 1] == accounts@[row - 1].deep_view());
            Ok(resolve_record(&accounts[row - 1]))
        } else {
            Err(
                CommandError {
                    message: join3("Row ", decimal(row as u64).as_str(), " does not exist"),
                },
            )
        },
        None => match split_once(selector, "/") {
            Some((plugin_id, alias)) => {
                let conflict = match plugin_hint {
                    Some(hint) => !same(hint, plugin_id.as_str()),
                    None => false,
                };
                if conflict {
                    Err(
                        refuse(
                            "Conflicting arguments: the positional plugin does not match --plugin",
                        ),
                    )
                } else {
                    Ok(ResolvedAccount { plugin_id, alias })
                }
            },
            None => resolve_alias(accounts, selector),
        },
    }
}

/// The saved account that a selector names.
pub fn resolve_selector(registry: &Registry, selector: &str, plugin_hint: &Option<String>) -> (r: Result<
    ResolvedAccount,
    CommandError,
>)
    ensures
        selection_view(r) == selected(
            records_of(registry.deep_view(), plugin_hint.deep_view()),
            selector@,
            plugin_hint.deep_view(),
        ),
{
    let accounts = list_accounts(registry, plugin_hint);
    let hint: Option<&str> = match plugin_hint {
        Some(h) => Some(h.as_str()),
        None => None,
    };
    resolve_among(&accounts, selector, hint)
}

/// The number of a row selects the account in it.
pub proof fn a_row_number_selects_its_account(accounts: Seq<RecordView>, row: nat)
    requires
        1 <= row <= accounts.len(),
        row <= usize::MAX,
    ensures
        selected(accounts, decimal_of(row), None) == Ok::<ResolvedView, Seq<char>>(
            resolved(accounts[row - 1]),
        ),
{
    decimal_round_trip(row);
}

/// The name of a plugin without a slash, a slash, and an alias select that account, where the hint
/// does not speak against it.
pub proof fn a_full_name_selects_its_account(
    accounts: Seq<RecordView>,
    plugin_id: Seq<char>,
    alias: Seq<char>,
    plugin_hint: Option<Seq<char>>,
)
    requires
        !plugin_id.contains('/'),
        plugin_hint is None || plugin_hint == Some(plugin_id),
    ensures
        selected(accounts, plugin_id + "/"@ + alias, plugin_hint) == Ok::<ResolvedView, Seq<char>>(
            ResolvedView { plugin_id, alias },
        ),
{
    reveal_strlit("/");
    let s = plugin_id + "/"@ + alias;
    let n = plugin_id.len() as int;
    assert(s[n] == '/');
    assert(unsigned_of(s, usize::MAX as nat) is None) by {
        let digits = if s.len() > 0 && s[0] == '+' {
            s.subrange(1, s.len() as int)
        } else {
            s
        };
        if n > 0 && s[0] == '+' {
            assert(digits[n - 1] == '/');
        } else if n > 0 {
            assert(digits[n] == '/');
        } else {
            assert(digits[0] == '/');
        }
    }
    lemma_find_from(s, "/"@, 0);
    match find_from(s, "/"@, 0) {
        Some(i) => {
            assert(s.subrange(i, i + 1)[0] == s[i]);
            if i < n {
                assert(plugin_id[i] == '/');
                assert(plugin_id.contains('/'));
            }
            assert(s.subrange(n, n + 1) == "/"@);
            assert(occurs_at(s, "/"@, n));
            assert(i == n);
            assert(s.subrange(0, n) == plugin_id);
            assert(s.subrange(n + 1, s.len() as int) == alias);
        },
        None => {
            assert(s.subrange(n, n + 1) == "/"@);
            assert(occurs_at(s, "/"@, n));
        },
    }
}

proof fn lemma_with_alias(accounts: Seq<RecordView>, alias: Seq<char>)
    ensures
        forall|i: int|
            0 <= i < accounts.len() && (#[trigger] accounts[i]).alias == alias ==> with_alias(
                accounts,
                alias,
            ).len() > 0,
        forall|i: int|
            (0 <= i < accounts.len() && (#[trigger] accounts[i]).alias == alias && (forall|j: int|
                0 <= j < accounts.len() && (#[trigger] accounts[j]).alias == alias ==> j == i))
                ==> with_alias(accounts, alias) == seq![accounts[i]],
        forall|i: int, j: int|
            0 <= i < j < accounts.len() && (#[trigger] accounts[i]).alias == alias && (
            #[trigger] accounts[j]).alias == alias ==> with_alias(accounts, alias).len() > 1,
        (forall|i: int| 0 <= i < accounts.len() ==> (#[trigger] accounts[i]).alias != alias)
            ==> with_alias(accounts, alias).len() == 0,
    decreases accounts.len(),
{
    if accounts.len() > 0 {
        let front = accounts.drop_last();
        lemma_with_alias(front, alias);
        assert(forall|i: int| 0 <= i < front.len() ==> (#[trigger] accounts[i]) == front[i]);
        assert forall|i: int|
            (0 <= i < accounts.len() && (#[trigger] accounts[i]).alias == alias && (forall|j: int|
                0 <= j < accounts.len() && (#[trigger] accounts[j]).alias == alias ==> j
                    == i)) implies with_alias(accounts, alias) == seq![accounts[i]] by {
            assert(forall|j: int| 0 <= j < front.len() ==> (#[trigger] front[j]) == accounts[j]);
            if i < front.len() {
                assert(front[i].alias == alias);
                assert(accounts[accounts.len() - 1].alias != alias);
            } else {
                assert(with_alias(front, alias).len() == 0);
                assert(with_alias(accounts, alias) == seq![accounts[i]]);
            }
        }
        assert forall|i: int, j: int|
            0 <= i < j < accounts.len() && (#[trigger] accounts[i]).alias == alias && (
            #[trigger] accounts[j]).alias == alias implies with_alias(accounts, alias).len() > 1 by {
            assert(front[i].alias == alias);
            if j < front.len() {
                assert(front[j].alias == alias);
            }
        }
    }
}

/// An alias that is neither a number nor has a slash selects the only account with it, and none
/// where there are several.
pub proof fn an_alias_selects_its_only_account(
    accounts: Seq<RecordView>,
    place: int,
    plugin_hint: Option<Seq<char>>,
)
    requires
        0 <= place < accounts.len(),
        unsigned_of(accounts[place].alias, usize::MAX as nat) is None,
        !accounts[place].alias.contains('/'),
    ensures
        selected(accounts, accounts[place].alias, plugin_hint) is Ok <==> (forall|j: int|
            0 <= j < accounts.len() && (#[trigger] accounts[j]).alias == accounts[place].alias ==> j
                == place),
        selected(accounts, accounts[place].alias, plugin_hint) matches Ok(found) ==> found
            == resolved(accounts[place]),
{
    reveal_strlit("/");
    let alias = accounts[place].alias;
    lemma_find_from(alias, "/"@, 0);
    match find_from(alias, "/"@, 0) {
        Some(i) => {
            assert(alias.subrange(i, i + 1)[0] == alias[i]);
        },
        None => {},
    }
    lemma_with_alias(accounts, alias);
    if exists|j: int|
        0 <= j < accounts.len() && (#[trigger] accounts[j]).alias == alias && j != place {
        let j = choose|j: int|
            0 <= j < accounts.len() && (#[trigger] accounts[j]).alias == alias && j != place;
        assert(accounts[j].alias == alias && j != place);
    }
}

// ---------------------------------------------------------------------------------------------
// What a command is to do
// ---------------------------------------------------------------------------------------------
/// A plugin and an alias in one text, where neither is empty.
pub open spec fn qualified(value: Seq<char>) -> Option<(Seq<char>, Seq<char>)> {
    match split_once_of(value, "/"@) {
        Some((plugin_id, alias)) => if plugin_id.len() == 0 || alias.len() == 0 {
            None
        } else {
            Some((plugin_id, alias))
        },
        None => None,
    }
}

/// A plugin and an alias in one text, where neither is empty.
pub fn parse_plugin_alias(value: &str) -> (r: Option<(String, String)>)
    ensures
        match r {
            Some((plugin_id, alias)) => qualified(value@) == Some((plugin_id@, alias@)),
            None => qualified(value@) is None,
        },
{
    match split_once(value, "/") {
        Some((plugin_id, alias)) => if plugin_id.as_str().is_empty() || alias.as_str().is_empty() {
            None
        } else {
            Some((plugin_id, alias))
        },
        None => None,
    }
}

/// What an account is saved as, as far as it is known; what is not is asked for.
pub struct AddPlan {
    pub plugin_id: Option<String>,
    pub alias: Option<String>,
}

pub struct AddPlanView {
    pub plugin_id: Option<Seq<char>>,
    pub alias: Option<Seq<char>>,
}

impl DeepView for AddPlan {
    type V = AddPlanView;

    open spec fn deep_view(&self) -> AddPlanView {
        AddPlanView { plugin_id: self.plugin_id.deep_view(), alias: self.alias.deep_view() }
    }
}

/// What an account is saved as, or why it cannot be.
pub open spec fn add_plan(target: Option<Seq<char>>, plugin: Option<Seq<char>>, json: bool) -> Result<
    AddPlanView,
    Seq<char>,
> {
    let full = match target {
        Some(t) => qualified(t),
        None => None,
    };
    if json && (target is None || (plugin is None && full is None)) {
        Err(
            "Interactive save does not support --json; pass <plugin>/<alias> or alias --plugin <id>"@,
        )
    } else {
        match full {
            Some((plugin_id, alias)) => if plugin is Some && plugin != Some(plugin_id) {
                Err("Conflicting arguments: the positional plugin does not match --plugin"@)
            } else {
                Ok(AddPlanView { plugin_id: Some(plugin_id), alias: Some(alias) })
            },
            None => Ok(AddPlanView { plugin_id: plugin, alias: target }),
        }
    }
}

/// What to save an account as.
pub fn add(args: &AddArgs) -> (r: Result<AddPlan, CommandError>)
    ensures
        match r {
            Ok(plan) => add_plan(args.target.deep_view(), args.plugin.deep_view(), args.json) == Ok::<
                AddPlanView,
                Seq<char>,
            >(plan.deep_view()),
            Err(e) => add_plan(args.target.deep_view(), args.plugin.deep_view(), args.json) == Err::<
                AddPlanView,
                Seq<char>,
            >(e.message@),
        },
{
    let full = match &args.target {
        Some(t) => parse_plugin_alias(t.as_str()),
        None => None,
    };
    if args.json && (args.target.is_none() || (args.plugin.is_none() && full.is_none())) {
        return Err(
            refuse(
                "Interactive save does not support --json; pass <plugin>/<alias> or alias --plugin <id>",
            ),
        );
    }
    match full {
        Some((plugin_id, alias)) => {
            let conflict = match &args.plugin {
                Some(plugin) => !same(plugin.as_str(), plugin_id.as_str()),
                None => false,
            };
            if conflict {
                Err(
                    refuse("Conflicting arguments: the positional plugin does not match --plugin"),
                )
            } else {
                Ok(AddPlan { plugin_id: Some(plugin_id), alias: Some(alias) })
            }
        },
        None => Ok(AddPlan { plugin_id: copy_opt(&args.plugin), alias: copy_opt(&args.target) }),
    }
}

/// What switching is to do: forget the accounts of a scope, or find an account, which is asked for
/// where no selector names it.
pub enum UsePlan {
    ClearProject { plugin: Option<String> },
    ClearGlobal { plugin: Option<String> },
    Find { selector: Option<String> },
}

pub enum UsePlanView {
    ClearProject { plugin: Option<Seq<char>> },
    ClearGlobal { plugin: Option<Seq<char>> },
    Find { selector: Option<Seq<char>> },
}

impl DeepView for UsePlan {
    type V = UsePlanView;

    open spec fn deep_view(&self) -> UsePlanView {
        match *self {
            UsePlan::ClearProject { plugin } => UsePlanView::ClearProject {
                plugin: plugin.deep_view(),
            },
            UsePlan::ClearGlobal { plugin } => UsePlanView::ClearGlobal {
                plugin: plugin.deep_view(),
            },
            UsePlan::Find { selector } => UsePlanView::Find { selector: selector.deep_view() },
        }
    }
}

pub open spec fn shell_use_text() -> Seq<char> {
    "Shell scope requires shell integration. Run `eval \"$(aswitch init zsh)\"`, or use `aswitch use --scope project ...` / `aswitch use --scope global ...`."@
}

pub open spec fn shell_off_text() -> Seq<char> {
    "Shell scope off requires shell integration. Run `eval \"$(aswitch init zsh)\"` and retry `aswitch use --off`."@
}

/// Why the scope of a shell cannot be set from outside of it.
pub fn direct_use_requires_shell() -> (r: CommandError)
    ensures
        r.message@ == shell_use_text(),
{
    refuse(
        "Shell scope requires shell integration. Run `eval \"$(aswitch init zsh)\"`, or use `aswitch use --scope project ...` / `aswitch use --scope global ...`.",
    )
}

/// Why the scope of a shell cannot be left from outside of it.
pub fn direct_clear_requires_shell() -> (r: CommandError)
    ensures
        r.message@ == shell_off_text(),
{
    refuse(
        "Shell scope off requires shell integration. Run `eval \"$(aswitch init zsh)\"` and retry `aswitch use --off`.",
    )
}

/// What switching is to do, or why it cannot.
pub open spec fn use_plan(
    selector: Option<Seq<char>>,
    plugin: Option<Seq<char>>,
    scope: UseScope,
    off: bool,
    json: bool,
) -> Result<UsePlanView, Seq<char>> {
    if off {
        if selector is Some {
            Err("ACCOUNT is not accepted with --off; use --plugin when needed"@)
        } else {
            match scope {
                UseScope::Shell => Err(shell_off_text()),
                UseScope::Project => Ok(UsePlanView::ClearProject { plugin }),
                UseScope::Global => Ok(UsePlanView::ClearGlobal { plugin }),
            }
        }
    } else if selector is None && json {
        Err("Interactive switching does not support --json; pass <plugin>/<alias>"@)
    } else {
        Ok(UsePlanView::Find { selector })
    }
}

/// What switching is to do.
pub fn use_account(args: &UseArgs) -> (r: Result<UsePlan, CommandError>)
    ensures
        ({
            let plan = use_plan(
                args.selector.deep_view(),
                args.plugin.deep_view(),
                args.scope,
                args.off,
                args.json,
            );
            match r {
                Ok(p) => plan == Ok::<UsePlanView, Seq<char>>(p.deep_view()),
                Err(e) => plan == Err::<UsePlanView, Seq<char>>(e.message@),
            }
        }),
{
    if args.off {
        if args.selector.is_some() {
            return Err(refuse("ACCOUNT is not accepted with --off; use --plugin when needed"));
        }
        match args.scope {
            UseScope::Shell => Err(direct_clear_requires_shell()),
            UseScope::Project => Ok(UsePlan::ClearProject { plugin: copy_opt(&args.plugin) }),
            UseScope::Global => Ok(UsePlan::ClearGlobal { plugin: copy_opt(&args.plugin) }),
        }
    } else if args.selector.is_none() && args.json {
        Err(refuse("Interactive switching does not support --json; pass <plugin>/<alias>"))
    } else {
        Ok(UsePlan::Find { selector: copy_opt(&args.selector) })
    }
}

/// What is done with the account that was found.
pub enum UseAction {
    Cancelled,
    BindProject { selector: String },
    SwitchGlobal(ResolvedAccount),
}

/// What is done with the account that was found, if one was.
pub fn use_found(scope: UseScope, found: Option<ResolvedAccount>) -> (r: Result<
    UseAction,
    CommandError,
>)
    ensures
        match found {
            None => r matches Ok(UseAction::Cancelled),
            Some(account) => match scope {
                UseScope::Shell => r matches Err(e) && e.message@ == shell_use_text(),
                UseScope::Project => r matches Ok(UseAction::BindProject { selector }) && selector@
                    == account.plugin_id@ + "/"@ + account.alias@,
                UseScope::Global => r matches Ok(UseAction::SwitchGlobal(a)) && a == account,
            },
        },
{
    match found {
        None => Ok(UseAction::Cancelled),
        Some(account) => match scope {
            UseScope::Shell => Err(direct_use_requires_shell()),
            UseScope::Project => Ok(
                UseAction::BindProject {
                    selector: join3(account.plugin_id.as_str(), "/", account.alias.as_str()),
                },
            ),
            UseScope::Global => Ok(UseAction::SwitchGlobal(account)),
        },
    }
}

/// What to list; only the current accounts come with an explanation.
pub fn list(args: &ListArgs) -> (r: Result<ListView, CommandError>)
    ensures
        match r {
            Ok(view) => view == args.view && (args.explain ==> args.view == ListView::Current),
            Err(e) => args.explain && args.view != ListView::Current && e.message@
                == "--explain is only supported with `aswitch ls --view current`"@,
        },
{
    if args.explain && args.view != ListView::Current {
        Err(refuse("--explain is only supported with `aswitch ls --view current`"))
    } else {
        Ok(args.view)
    }
}

// ---------------------------------------------------------------------------------------------
// Choosing an account at the terminal
// ---------------------------------------------------------------------------------------------
/// The places of the accounts of each plugin.
pub open spec fn grouped(rows: Seq<ListedView>) -> Map<Seq<char>, Seq<usize>>
    decreases rows.len(),
{
    if rows.len() == 0 {
        Map::empty()
    } else {
        let before = grouped(rows.drop_last());
        let plugin_id = rows.last().account.plugin_id;
        let places = if before.contains_key(plugin_id) {
            before[plugin_id]
        } else {
            seq![]
        };
        before.insert(plugin_id, places.push((rows.len() - 1) as usize))
    }
}

/// The places of the accounts of each plugin.
pub fn group_accounts_by_plugin(rows: &Vec<ListedAccount>) -> (r: TextMap<Vec<usize>>)
    ensures
        r.deep_view() == grouped(rows.deep_view()),
{
    let ghost all = rows.deep_view();
    let mut groups: TextMap<Vec<usize>> = TextMap::new();
    let mut i: usize = 0;
    while i < rows.len()
        invariant
            i <= rows@.len(),
            all == rows.deep_view(),
            groups.deep_view() == grouped(all.take(i as int)),
        decreases rows@.len() - i,
    {
        assert(all.take(i + 1).drop_last() == all.take(i as int));
        assert(all[i as int] == rows@[i as int].deep_view());
        let plugin_id = rows[i].account.plugin_id.clone();
        let mut places: Vec<usize> = Vec::new();
        match groups.get(plugin_id.as_str()) {
            Some(before) => {
                let mut k: usize = 0;
                while k < before.len()
                    invariant
                        k <= before@.len(),
                        places@ == before@.take(k as int),
                    decreases before@.len() - k,
                {
                    places.push(before[k]);
                    assert(before@.take(k + 1) == before@.take(k as int).push(before@[k as int]));
                    k = k + 1;
                }
                assert(before@.take(before@.len() as int) == before@);
                assert(before.deep_view() == before@);
            },
            None => {},
        }
        let ghost was = places@;
        places.push(i);
        assert(places.deep_view() == was.push(i));
        groups.insert(plugin_id, places);
        i = i + 1;
    }
    assert(all.take(all.len() as int) == all);
    groups
}

} // verus!
