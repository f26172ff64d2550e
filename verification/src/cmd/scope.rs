//! Which account of each plugin is in effect: that of the shell, of the project, or the global one.
use vstd::prelude::*;

use crate::account::{AccountRecord, CurrentAccountRecord, CurrentView, RecordView};
use crate::text::{copy_opt, join2, same};
use crate::text_map::{TextMap, map_of, sorted_items, strictly_sorted};

verus! {

pub const LOCAL_STATE_ENV: &'static str = "ASWITCH_LOCAL_STATE";

pub const PROJECT_STATE_ENV: &'static str = "ASWITCH_PROJECT_STATE";

pub const PROJECT_FILE_ENV: &'static str = "ASWITCH_PROJECT_FILE";

/// Where an account in effect comes from.
#[derive(Clone, Copy, Debug, PartialEq, Eq, Structural)]
pub enum ScopeSource {
    Local,
    Project,
    Global,
    Unset,
}

/// The account of a plugin that is in effect, if there is one.
pub struct EffectiveAccountRecord {
    pub plugin_id: String,
    pub alias: Option<String>,
    pub email: Option<String>,
    pub org_name: Option<String>,
    pub plan: Option<String>,
    pub scope: ScopeSource,
    pub detail: Option<String>,
}

pub struct EffectiveView {
    pub plugin_id: Seq<char>,
    pub alias: Option<Seq<char>>,
    pub email: Option<Seq<char>>,
    pub org_name: Option<Seq<char>>,
    pub plan: Option<Seq<char>>,
    pub scope: ScopeSource,
    pub detail: Option<Seq<char>>,
}

impl DeepView for EffectiveAccountRecord {
    type V = EffectiveView;

    open spec fn deep_view(&self) -> EffectiveView {
        EffectiveView {
            plugin_id: self.plugin_id@,
            alias: self.alias.deep_view(),
            email: self.email.deep_view(),
            org_name: self.org_name.deep_view(),
            plan: self.plan.deep_view(),
            scope: self.scope,
            detail: self.detail.deep_view(),
        }
    }
}

// ---------------------------------------------------------------------------------------------
// The state of a shell
// ---------------------------------------------------------------------------------------------
/// The entries that `serde_json::from_str` reads from a text as a map of texts, in the order of their
/// keys.
pub uninterp spec fn state_of(text: Seq<char>) -> Option<Seq<(Seq<char>, Seq<char>)>>;

pub open spec fn pairs_of(entries: Seq<(String, String)>) -> Seq<(Seq<char>, Seq<char>)> {
    entries.map_values(|e: (String, String)| (e.0@, e.1@))
}

/// `serde_json::from_str` into a map of texts: the entries, in the order of their keys, where the text
/// writes such a map. The outcome depends on the text alone.
#[verifier::external_body]
fn read_entries(text: &str) -> (r: Option<Vec<(String, String)>>)
    ensures
        match r {
            Some(entries) => state_of(text@) == Some(pairs_of(entries@)),
            None => state_of(text@) is None,
        },
{
    serde_json::from_str::<std::collections::BTreeMap<String, String>>(text).ok().map(
        |map| map.into_iter().collect(),
    )
}

/// The text that `serde_json::to_string` writes for a map with the given entries.
pub uninterp spec fn state_text(entries: Seq<(Seq<char>, Seq<char>)>) -> Seq<char>;

/// Whether a text is read as the given entries.
pub open spec fn reads_as(text: Option<Seq<char>>, entries: Seq<(Seq<char>, Seq<char>)>) -> bool {
    match text {
        Some(t) => state_of(t) == Some(entries),
        None => false,
    }
}

/// `serde_json::to_string` of a map with the given entries. The text depends on the entries alone, and
/// entries in the strict order of their keys are read back from it.
#[verifier::external_body]
fn write_entries(entries: Vec<(String, String)>) -> (r: Option<String>)
    ensures
        r.deep_view() == Some(state_text(pairs_of(entries@))),
        strictly_sorted(pairs_of(entries@)) ==> reads_as(r.deep_view(), pairs_of(entries@)),
{
    serde_json::to_string(
        &entries.into_iter().collect::<std::collections::BTreeMap<String, String>>(),
    ).ok()
}

/// The accounts that a text stands for; none where it is no such text.
pub open spec fn accounts_in(text: Option<Seq<char>>) -> Map<Seq<char>, Seq<char>> {
    match text {
        Some(t) => match state_of(t) {
            Some(entries) => map_of(entries),
            None => Map::empty(),
        },
        None => Map::empty(),
    }
}

/// The accounts that the value of an environment variable stands for, by plugin.
pub fn read_state_env(value: &Option<String>) -> (r: TextMap<String>)
    ensures
        r.deep_view() == accounts_in(value.deep_view()),
{
    let mut state: TextMap<String> = TextMap::new();
    match value {
        Some(text) => match read_entries(text.as_str()) {
            Some(entries) => {
                let ghost all = pairs_of(entries@);
                let mut i: usize = 0;
                while i < entries.len()
                    invariant
                        i <= entries@.len(),
                        all == pairs_of(entries@),
                        state.deep_view() == map_of(all.take(i as int)),
                    decreases entries@.len() - i,
                {
                    assert(all.take(i + 1).drop_last() == all.take(i as int));
                    assert(all[i as int] == (entries@[i as int].0@, entries@[i as int].1@));
                    state.insert(entries[i].0.clone(), entries[i].1.clone());
                    i = i + 1;
                }
                assert(all.take(all.len() as int) == all);
            },
            None => {},
        },
        None => {},
    }
    state
}

/// The text for some accounts.
pub fn serialize_state(state: &TextMap<String>) -> (r: String)
    ensures
        r@ == state_text(sorted_items(state.deep_view())),
        accounts_in(Some(r@)) == state.deep_view(),
{
    let n = state.len();
    let ghost items = state.items();
    let mut entries: Vec<(String, String)> = Vec::new();
    let mut i: usize = 0;
    while i < n
        invariant
            i <= n,
            n == items.len(),
            items == state.items(),
            pairs_of(entries@) == items.take(i as int),
        decreases n - i,
    {
        let ghost before = entries@;
        let entry = (state.key_at(i).clone(), state.value_at(i).clone());
        entries.push(entry);
        assert(pairs_of(entries@) == pairs_of(before).push(items[i as int]));
        assert(items.take(i + 1) == items.take(i as int).push(items[i as int]));
        i = i + 1;
    }
    assert(items.take(n as int) == items);
    match write_entries(entries) {
        Some(text) => text,
        None => "".to_owned(),
    }
}

// ---------------------------------------------------------------------------------------------
// The accounts in effect
// ---------------------------------------------------------------------------------------------
/// Whether a plugin is asked for.
pub open spec fn asked_for(filter: Option<Seq<char>>, plugin_id: Seq<char>) -> bool {
    match filter {
        Some(f) => f == plugin_id,
        None => true,
    }
}

fn is_asked_for(filter: Option<&str>, plugin_id: &str) -> (r: bool)
    ensures
        r == asked_for(filter.deep_view(), plugin_id@),
{
    match filter {
        Some(f) => same(f, plugin_id),
        None => true,
    }
}

/// The global accounts, by plugin.
pub open spec fn global_accounts(current: Seq<CurrentView>) -> Map<Seq<char>, Option<Seq<char>>>
    decreases current.len(),
{
    if current.len() == 0 {
        Map::empty()
    } else {
        global_accounts(current.drop_last()).insert(
            current.last().plugin_id,
            current.last().alias,
        )
    }
}

/// The same with some more plugins, those that are asked for; they have no global account.
pub open spec fn with_plugins(
    known: Map<Seq<char>, Option<Seq<char>>>,
    items: Seq<(Seq<char>, Seq<char>)>,
    filter: Option<Seq<char>>,
) -> Map<Seq<char>, Option<Seq<char>>>
    decreases items.len(),
{
    if items.len() == 0 {
        known
    } else {
        let before = with_plugins(known, items.drop_last(), filter);
        if asked_for(filter, items.last().0) && !before.contains_key(items.last().0) {
            before.insert(items.last().0, None)
        } else {
            before
        }
    }
}

fn insert_plugins(
    known: &mut TextMap<Option<String>>,
    state: &TextMap<String>,
    filter: Option<&str>,
)
    ensures
        final(known).deep_view() == with_plugins(
            old(known).deep_view(),
            sorted_items(state.deep_view()),
            filter.deep_view(),
        ),
{
    let ghost start = known.deep_view();
    let n = state.len();
    let ghost items = state.items();
    let mut i: usize = 0;
    while i < n
        invariant
            i <= n,
            n == items.len(),
            items == state.items(),
            known.deep_view() == with_plugins(start, items.take(i as int), filter.deep_view()),
        decreases n - i,
    {
        assert(items.take(i + 1).drop_last() == items.take(i as int));
        let plugin_id = state.key_at(i);
        if is_asked_for(filter, plugin_id.as_str()) && !known.contains_key(plugin_id.as_str()) {
            known.insert(plugin_id.clone(), None);
        }
        i = i + 1;
    }
    assert(items.take(n as int) == items);
}

/// The plugins that an account is in effect for or could be, with their global accounts.
pub open spec fn known_plugins(
    current: Seq<CurrentView>,
    local: Map<Seq<char>, Seq<char>>,
    project: Map<Seq<char>, Seq<char>>,
    filter: Option<Seq<char>>,
) -> Map<Seq<char>, Option<Seq<char>>> {
    with_plugins(
        with_plugins(global_accounts(current), sorted_items(local), filter),
        sorted_items(project),
        filter,
    )
}

/// The first saved account of a plugin with an alias, from `i` on.
pub open spec fn saved_account(
    accounts: Seq<RecordView>,
    plugin_id: Seq<char>,
    alias: Seq<char>,
    i: int,
) -> Option<RecordView>
    decreases accounts.len() - i,
{
    if i < 0 || i >= accounts.len() {
        None
    } else if accounts[i].plugin_id == plugin_id && accounts[i].alias == alias {
        Some(accounts[i])
    } else {
        saved_account(accounts, plugin_id, alias, i + 1)
    }
}

fn find_account<'a>(accounts: &'a Vec<AccountRecord>, plugin_id: &str, alias: &str) -> (r: Option<
    &'a AccountRecord,
>)
    ensures
        r.deep_view() == saved_account(accounts.deep_view(), plugin_id@, alias@, 0),
{
    let ghost all = accounts.deep_view();
    let mut i: usize = 0;
    while i < accounts.len()
        invariant
            i <= accounts@.len(),
            all == accounts.deep_view(),
            saved_account(all, plugin_id@, alias@, 0) == saved_account(
                all,
                plugin_id@,
                alias@,
                i as int,
            ),
        decreases accounts@.len() - i,
    {
        assert(all[i as int] == accounts@[i as int].deep_view());
        if same(accounts[i].plugin_id.as_str(), plugin_id) && same(
            accounts[i].alias.as_str(),
            alias,
        ) {
            return Some(&accounts[i]);
        }
        i = i + 1;
    }
    None
}

/// The account of a plugin that is in effect, where it comes from, and what to say of that: the
/// account of the shell, or else of the project, or else the global one.
pub open spec fn scoped(
    plugin_id: Seq<char>,
    global: Option<Seq<char>>,
    local: Map<Seq<char>, Seq<char>>,
    project: Map<Seq<char>, Seq<char>>,
    project_file: Option<Seq<char>>,
) -> (Option<Seq<char>>, ScopeSource, Option<Seq<char>>) {
    if local.contains_key(plugin_id) {
        (Some(local[plugin_id]), ScopeSource::Local, Some("current shell override"@))
    } else if project.contains_key(plugin_id) {
        (
            Some(project[plugin_id]),
            ScopeSource::Project,
            match project_file {
                Some(path) => Some("project file: "@ + path),
                None => None,
            },
        )
    } else {
        (
            global,
            if global is Some {
                ScopeSource::Global
            } else {
                ScopeSource::Unset
            },
            None,
        )
    }
}

/// What is known of the account of a plugin that is in effect.
pub open spec fn effective_row(
    plugin_id: Seq<char>,
    global: Option<Seq<char>>,
    accounts: Seq<RecordView>,
    local: Map<Seq<char>, Seq<char>>,
    project: Map<Seq<char>, Seq<char>>,
    project_file: Option<Seq<char>>,
) -> EffectiveView {
    let (alias, scope, detail) = scoped(plugin_id, global, local, project, project_file);
    let saved = match alias {
        Some(a) => saved_account(accounts, plugin_id, a, 0),
        None => None,
    };
    EffectiveView {
        plugin_id,
        alias,
        email: match saved {
            Some(s) => s.email,
            None => None,
        },
        org_name: match saved {
            Some(s) => s.org_name,
            None => None,
        },
        plan: match saved {
            Some(s) => s.plan,
            None => None,
        },
        scope,
        detail,
    }
}

fn build_row(
    plugin_id: &str,
    global: &Option<String>,
    accounts: &Vec<AccountRecord>,
    local: &TextMap<String>,
    project: &TextMap<String>,
    project_file: &Option<String>,
) -> (r: EffectiveAccountRecord)
    ensures
        r.deep_view() == effective_row(
            plugin_id@,
            global.deep_view(),
            accounts.deep_view(),
            local.deep_view(),
            project.deep_view(),
            project_file.deep_view(),
        ),
{
    let (alias, scope, detail): (Option<String>, ScopeSource, Option<String>) = match local.get(
        plugin_id,
    ) {
        Some(alias) => (
            Some(alias.clone()),
            ScopeSource::Local,
            Some("current shell override".to_owned()),
        ),
        None => match project.get(plugin_id) {
            Some(alias) => (
                Some(alias.clone()),
                ScopeSource::Project,
                match project_file {
                    Some(path) => Some(join2("project file: ", path.as_str())),
                    None => None,
                },
            ),
            None => (
                copy_opt(global),
                if global.is_some() {
                    ScopeSource::Global
                } else {
                    ScopeSource::Unset
                },
                None,
            ),
        },
    };
    let saved = match &alias {
        Some(a) => find_account(accounts, plugin_id, a.as_str()),
        None => None,
    };
    let (email, org_name, plan): (Option<String>, Option<String>, Option<String>) = match saved {
        Some(s) => (copy_opt(&s.email), copy_opt(&s.org_name), copy_opt(&s.plan)),
        None => (None, None, None),
    };
    EffectiveAccountRecord {
        plugin_id: plugin_id.to_owned(),
        alias,
        email,
        org_name,
        plan,
        scope,
        detail,
    }
}

/// The accounts in effect, in the order of the plugins.
pub open spec fn effective_rows(
    known: Map<Seq<char>, Option<Seq<char>>>,
    accounts: Seq<RecordView>,
    local: Map<Seq<char>, Seq<char>>,
    project: Map<Seq<char>, Seq<char>>,
    project_file: Option<Seq<char>>,
) -> Seq<EffectiveView> {
    sorted_items(known).map_values(
        |e: (Seq<char>, Option<Seq<char>>)|
            effective_row(e.0, e.1, accounts, local, project, project_file),
    )
}

/// The accounts in effect: of one plugin, or of all.
pub fn effective_accounts(
    accounts: &Vec<AccountRecord>,
    current: &Vec<CurrentAccountRecord>,
    local: &TextMap<String>,
    project: &TextMap<String>,
    project_file: &Option<String>,
    plugin_filter: Option<&str>,
) -> (r: Vec<EffectiveAccountRecord>)
    ensures
        r.deep_view() == effective_rows(
            known_plugins(
                current.deep_view(),
                local.deep_view(),
                project.deep_view(),
                plugin_filter.deep_view(),
            ),
            accounts.deep_view(),
            local.deep_view(),
            project.deep_view(),
            project_file.deep_view(),
        ),
{
    let ghost all = current.deep_view();
    let mut known: TextMap<Option<String>> = TextMap::new();
    let mut i: usize = 0;
    while i < current.len()
        invariant
            i <= current@.len(),
            all == current.deep_view(),
            known.deep_view() == global_accounts(all.take(i as int)),
        decreases current@.len() - i,
    {
        assert(all.take(i + 1).drop_last() == all.take(i as int));
        assert(all[i as int] == current@[i as int].deep_view());
        known.insert(current[i].plugin_id.clone(), copy_opt(&current[i].alias));
        i = i + 1;
    }
    assert(all.take(all.len() as int) == all);
    insert_plugins(&mut known, local, plugin_filter);
    insert_plugins(&mut known, project, plugin_filter);

    let n = known.len();
    let ghost items = known.items();
    let ghost rows_all = effective_rows(
        known.deep_view(),
        accounts.deep_view(),
        local.deep_view(),
        project.deep_view(),
        project_file.deep_view(),
    );
    let mut rows: Vec<EffectiveAccountRecord> = Vec::new();
    let mut k: usize = 0;
    while k < n
        invariant
            k <= n,
            n == items.len(),
            items == known.items(),
            items == sorted_items(known.deep_view()),
            rows_all == effective_rows(
                known.deep_view(),
                accounts.deep_view(),
                local.deep_view(),
                project.deep_view(),
                project_file.deep_view(),
            ),
            rows.deep_view() == rows_all.take(k as int),
        decreases n - k,
    {
        let ghost before = rows.deep_view();
        rows.push(
            build_row(
                known.key_at(k).as_str(),
                known.value_at(k),
                accounts,
                local,
                project,
                project_file,
            ),
        );
        assert(rows.deep_view() == before.push(rows_all[k as int]));
        assert(rows_all.take(k + 1) == rows_all.take(k as int).push(rows_all[k as int]));
        k = k + 1;
    }
    assert(rows_all.take(n as int) == rows_all);
    rows
}

/// The plugins and aliases of the rows that have an account.
pub open spec fn targets_in(rows: Seq<EffectiveView>) -> Seq<(Seq<char>, Seq<char>)>
    decreases rows.len(),
{
    if rows.len() == 0 {
        seq![]
    } else {
        match rows.last().alias {
            Some(alias) => targets_in(rows.drop_last()).push((rows.last().plugin_id, alias)),
            None => targets_in(rows.drop_last()),
        }
    }
}

/// The plugins and aliases of the accounts in effect.
pub fn effective_targets(rows: &Vec<EffectiveAccountRecord>) -> (r: Vec<(String, String)>)
    ensures
        pairs_of(r@) == targets_in(rows.deep_view()),
{
    let ghost all = rows.deep_view();
    let mut targets: Vec<(String, String)> = Vec::new();
    let mut i: usize = 0;
    assert(pairs_of(targets@) == targets_in(all.take(0)));
    while i < rows.len()
        invariant
            i <= rows@.len(),
            all == rows.deep_view(),
            pairs_of(targets@) == targets_in(all.take(i as int)),
        decreases rows@.len() - i,
    {
        assert(all.take(i + 1).drop_last() == all.take(i as int));
        assert(all[i as int] == rows@[i as int].deep_view());
        match &rows[i].alias {
            Some(alias) => {
                let ghost before = targets@;
                targets.push((rows[i].plugin_id.clone(), alias.clone()));
                assert(pairs_of(targets@) == pairs_of(before).push(
                    (all[i as int].plugin_id, alias@),
                ));
            },
            None => {},
        }
        i = i + 1;
    }
    assert(all.take(all.len() as int) == all);
    targets
}

/// The account of the shell goes before that of the project, and that of the project before the
/// global one.
pub proof fn the_nearest_scope_wins(
    plugin_id: Seq<char>,
    global: Option<Seq<char>>,
    accounts: Seq<RecordView>,
    local: Map<Seq<char>, Seq<char>>,
    project: Map<Seq<char>, Seq<char>>,
    project_file: Option<Seq<char>>,
)
    ensures
        ({
            let row = effective_row(plugin_id, global, accounts, local, project, project_file);
            &&& local.contains_key(plugin_id) ==> row.alias == Some(local[plugin_id])
            &&& !local.contains_key(plugin_id) && project.contains_key(plugin_id) ==> row.alias
                == Some(project[plugin_id])
            &&& !local.contains_key(plugin_id) && !project.contains_key(plugin_id) ==> row.alias
                == global
            &&& row.scope == ScopeSource::Unset <==> row.alias is None
        }),
{
}

proof fn lemma_with_plugins(
    known: Map<Seq<char>, Option<Seq<char>>>,
    items: Seq<(Seq<char>, Seq<char>)>,
    filter: Option<Seq<char>>,
    p: Seq<char>,
)
    ensures
        with_plugins(known, items, filter).contains_key(p) <==> known.contains_key(p) || (asked_for(
            filter,
            p,
        ) && map_of(items).contains_key(p)),
        known.contains_key(p) ==> with_plugins(known, items, filter)[p] == known[p],
    decreases items.len(),
{
    if items.len() > 0 {
        lemma_with_plugins(known, items.drop_last(), filter, p);
    }
}

/// A plugin has a row where it is among the current ones, or where it is asked for and the shell or
/// the project names an account of it; and no other has.
pub proof fn every_named_plugin_has_a_row(
    current: Seq<CurrentView>,
    local: Map<Seq<char>, Seq<char>>,
    project: Map<Seq<char>, Seq<char>>,
    filter: Option<Seq<char>>,
    p: Seq<char>,
)
    requires
        local.dom().finite(),
        project.dom().finite(),
    ensures
        known_plugins(current, local, project, filter).contains_key(p) <==> global_accounts(
            current,
        ).contains_key(p) || (asked_for(filter, p) && (local.contains_key(p)
            || project.contains_key(p))),
{
    crate::text_map::sorted_items_exist(local);
    crate::text_map::sorted_items_exist(project);
    lemma_with_plugins(global_accounts(current), sorted_items(local), filter, p);
    lemma_with_plugins(
        with_plugins(global_accounts(current), sorted_items(local), filter),
        sorted_items(project),
        filter,
        p,
    );
}

} // verus!
