//! What is asked of the services themselves: whose an account is, and what is left of its allowance.
use vstd::prelude::*;

use super::scope::{EffectiveAccountRecord, EffectiveView};
use crate::account::{AccountRecord, RecordView};
use crate::claude::{Product, backup_prefix_of, plugin_id_of};
use crate::gemini::{CodeAssistView, GEMINI_PLUGIN_ID, GeminiCodeAssistInfo};
use crate::json::{Json, JsonView, field_of, json_of_text, parse_text, text_in};
use crate::quota::{field2, inner_field, text_of};
use crate::text::{Order, copy_opt, has_prefix, order, push_line, same, starts_with, text_lt};
use crate::text_map::{Duplicate, TextMap, sorted_items};

verus! {

// ---------------------------------------------------------------------------------------------
// Whose an account is
// ---------------------------------------------------------------------------------------------
/// Whose the account of the assistant is that is logged in.
pub struct ClaudeCodeInfo {
    pub email: Option<String>,
    pub org_name: Option<String>,
}

pub struct ClaudeInfoView {
    pub email: Option<Seq<char>>,
    pub org_name: Option<Seq<char>>,
}

impl DeepView for ClaudeCodeInfo {
    type V = ClaudeInfoView;

    open spec fn deep_view(&self) -> ClaudeInfoView {
        ClaudeInfoView { email: self.email.deep_view(), org_name: self.org_name.deep_view() }
    }
}

/// The first of two texts, or else the second.
pub open spec fn or_else(a: Option<Seq<char>>, b: Option<Seq<char>>) -> Option<Seq<char>> {
    match a {
        Some(_) => a,
        None => b,
    }
}

fn first_of(a: &Option<String>, b: &Option<String>) -> (r: Option<String>)
    ensures
        r.deep_view() == or_else(a.deep_view(), b.deep_view()),
{
    match a {
        Some(_) => copy_opt(a),
        None => copy_opt(b),
    }
}

/// Whose an account is, where a file of the program that is logged in says so.
pub open spec fn info_in(value: JsonView) -> ClaudeInfoView {
    ClaudeInfoView {
        email: or_else(
            match field2(value, "oauthAccount"@, "emailAddress"@) {
                Some(v) => text_in(v),
                None => None,
            },
            match field_of(value, "userEmail"@) {
                Some(v) => text_in(v),
                None => None,
            },
        ),
        org_name: match field2(value, "oauthAccount"@, "organizationName"@) {
            Some(v) => text_in(v),
            None => None,
        },
    }
}

/// Whose an account is, where a file of the program that is logged in says so.
pub fn claude_info_from_value(value: &Json) -> (r: ClaudeCodeInfo)
    ensures
        r.deep_view() == info_in(value.deep_view()),
{
    let email = text_of(inner_field(value, "oauthAccount", "emailAddress"));
    let other = text_of(value.field("userEmail"));
    ClaudeCodeInfo {
        email: first_of(&email, &other),
        org_name: text_of(inner_field(value, "oauthAccount", "organizationName")),
    }
}

/// Whether something is known.
pub open spec fn says_something(info: ClaudeInfoView) -> bool {
    info.email is Some || info.org_name is Some
}

/// The info in the first of some files that says something.
pub open spec fn first_info(contents: Seq<Seq<char>>, i: int) -> Option<ClaudeInfoView>
    decreases contents.len() - i,
{
    if i < 0 || i >= contents.len() {
        None
    } else {
        match json_of_text(contents[i]) {
            Ok(value) => if says_something(info_in(value)) {
                Some(info_in(value))
            } else {
                first_info(contents, i + 1)
            },
            Err(_) => first_info(contents, i + 1),
        }
    }
}

/// The info in the first of some files that says something.
pub fn latest_claude_backup_info(contents: &Vec<String>) -> (r: Option<ClaudeCodeInfo>)
    ensures
        r.deep_view() == first_info(contents.deep_view(), 0),
{
    let ghost all = contents.deep_view();
    let mut i: usize = 0;
    while i < contents.len()
        invariant
            i <= contents@.len(),
            all == contents.deep_view(),
            first_info(all, 0) == first_info(all, i as int),
        decreases contents@.len() - i,
    {
        assert(all[i as int] == contents@[i as int]@);
        match parse_text(contents[i].as_str()) {
            Ok(value) => {
                let info = claude_info_from_value(&value);
                if info.email.is_some() || info.org_name.is_some() {
                    return Some(info);
                }
            },
            Err(_) => {},
        }
        i = i + 1;
    }
    None
}

/// The names that start with some words.
pub open spec fn names_with(names: Seq<Seq<char>>, start: Seq<char>) -> Map<Seq<char>, u64>
    decreases names.len(),
{
    if names.len() == 0 {
        Map::empty()
    } else if has_prefix(names.last(), start) {
        names_with(names.drop_last(), start).insert(names.last(), 0)
    } else {
        names_with(names.drop_last(), start)
    }
}

/// The files among some that are backups, the last in the order of their names first.
pub open spec fn backups_of(word: Seq<char>, names: Seq<Seq<char>>) -> Seq<Seq<char>> {
    sorted_items(names_with(names, backup_prefix_of(word))).map_values(
        |e: (Seq<char>, u64)| e.0,
    ).reverse()
}

/// The files among those in a directory that are backups, the last in the order of their names first.
pub fn claude_backups(product: &Product, names: &Vec<String>) -> (r: Vec<String>)
    ensures
        r.deep_view() == backups_of(product.word@, names.deep_view()),
{
    let prefix = product.backup_prefix();
    let ghost all = names.deep_view();
    let mut found: TextMap<u64> = TextMap::new();
    let mut i: usize = 0;
    while i < names.len()
        invariant
            i <= names@.len(),
            all == names.deep_view(),
            found.deep_view() == names_with(all.take(i as int), prefix@),
        decreases names@.len() - i,
    {
        assert(all.take(i + 1).drop_last() == all.take(i as int));
        assert(all[i as int] == names@[i as int]@);
        if starts_with(names[i].as_str(), prefix.as_str()) {
            found.insert(names[i].clone(), 0);
        }
        i = i + 1;
    }
    assert(all.take(all.len() as int) == all);
    let keys = found.keys();
    let ghost rising = keys.deep_view();
    let mut out: Vec<String> = Vec::new();
    let mut k: usize = keys.len();
    assert(out.deep_view() == rising.reverse().take(0));
    while k > 0
        invariant
            k <= keys@.len(),
            rising == keys.deep_view(),
            out.deep_view() == rising.reverse().take(keys@.len() - k),
        decreases k,
    {
        let ghost before = out.deep_view();
        let ghost done = keys@.len() - k;
        push_line(&mut out, keys[k - 1].clone());
        assert(rising.reverse()[done] == keys@[k - 1]@);
        assert(rising.reverse().take(done + 1) == rising.reverse().take(done).push(
            rising.reverse()[done],
        ));
        k = k - 1;
    }
    assert(rising.reverse().take(rising.len() as int) == rising.reverse());
    out
}

/// The time and the email in a line of telemetry.
pub open spec fn telemetry_in(value: JsonView) -> Option<(Seq<char>, Seq<char>)> {
    match field_of(value, "event_data"@) {
        Some(event) => match field_of(event, "email"@) {
            Some(JsonView::Text(email)) => {
                let time = or_else(
                    match field_of(event, "client_timestamp"@) {
                        Some(v) => text_in(v),
                        None => None,
                    },
                    match field_of(value, "timestamp"@) {
                        Some(v) => text_in(v),
                        None => None,
                    },
                );
                Some(
                    (
                        match time {
                            Some(t) => t,
                            None => ""@,
                        },
                        email,
                    ),
                )
            },
            _ => None,
        },
        None => None,
    }
}

pub open spec fn pair_view(p: Option<(String, String)>) -> Option<(Seq<char>, Seq<char>)> {
    match p {
        Some((a, b)) => Some((a@, b@)),
        None => None,
    }
}

/// The time and the email in a line of telemetry.
pub fn telemetry_email(value: &Json) -> (r: Option<(String, String)>)
    ensures
        pair_view(r) == telemetry_in(value.deep_view()),
{
    match value.field("event_data") {
        Some(event) => match event.field("email") {
            Some(Json::Text(email)) => {
                let time = text_of(event.field("client_timestamp"));
                let other = text_of(value.field("timestamp"));
                let timestamp = match first_of(&time, &other) {
                    Some(t) => t,
                    None => "".to_owned(),
                };
                Some((timestamp, email.clone()))
            },
            _ => None,
        },
        None => None,
    }
}

/// The time and the email in a line of telemetry, where it holds them.
pub fn claude_telemetry_email_from_line(line: &str) -> (r: Option<(String, String)>)
    ensures
        pair_view(r) == (match json_of_text(line@) {
            Ok(value) => telemetry_in(value),
            Err(_) => None,
        }),
{
    match parse_text(line) {
        Ok(value) => telemetry_email(&value),
        Err(_) => None,
    }
}

/// The time and the email with the greatest time, as texts go; the first of those with the same.
pub open spec fn latest_telemetry(lines: Seq<Seq<char>>) -> Option<(Seq<char>, Seq<char>)>
    decreases lines.len(),
{
    if lines.len() == 0 {
        None
    } else {
        let before = latest_telemetry(lines.drop_last());
        let here = match json_of_text(lines.last()) {
            Ok(value) => telemetry_in(value),
            Err(_) => None,
        };
        match (before, here) {
            (Some((a, _)), Some((b, _))) => if text_lt(a, b) {
                here
            } else {
                before
            },
            (Some(_), None) => before,
            (None, _) => here,
        }
    }
}

/// The email in the latest line of telemetry that holds one.
pub fn latest_claude_telemetry_email(lines: &Vec<String>) -> (r: Option<String>)
    ensures
        r.deep_view() == (match latest_telemetry(lines.deep_view()) {
            Some((_, email)) => Some(email),
            None => None,
        }),
{
    let ghost all = lines.deep_view();
    let mut latest: Option<(String, String)> = None;
    let mut i: usize = 0;
    while i < lines.len()
        invariant
            i <= lines@.len(),
            all == lines.deep_view(),
            pair_view(latest) == latest_telemetry(all.take(i as int)),
        decreases lines@.len() - i,
    {
        assert(all.take(i + 1).drop_last() == all.take(i as int));
        assert(all[i as int] == lines@[i as int]@);
        match claude_telemetry_email_from_line(lines[i].as_str()) {
            Some((timestamp, email)) => {
                let newer = match &latest {
                    Some((current, _)) => matches!(
                        order(current.as_str(), timestamp.as_str()),
                        Order::Before
                    ),
                    None => true,
                };
                if newer {
                    latest = Some((timestamp, email));
                }
            },
            None => {},
        }
        i = i + 1;
    }
    assert(all.take(all.len() as int) == all);
    match latest {
        Some((_, email)) => Some(email),
        None => None,
    }
}

/// Whose the account is that is logged in: what a backup says, or else the email in the telemetry.
pub fn current_claude_info(backup: Option<ClaudeCodeInfo>, telemetry_email: Option<String>) -> (r: Option<
    ClaudeCodeInfo,
>)
    ensures
        r.deep_view() == (match backup.deep_view() {
            Some(info) => if says_something(info) {
                Some(info)
            } else {
                match telemetry_email.deep_view() {
                    Some(email) => Some(ClaudeInfoView { email: Some(email), org_name: None }),
                    None => None,
                }
            },
            None => match telemetry_email.deep_view() {
                Some(email) => Some(ClaudeInfoView { email: Some(email), org_name: None }),
                None => None,
            },
        }),
{
    match backup {
        Some(info) => {
            if info.email.is_some() || info.org_name.is_some() {
                return Some(info);
            }
        },
        None => {},
    }
    match telemetry_email {
        Some(email) => Some(ClaudeCodeInfo { email: Some(email), org_name: None }),
        None => None,
    }
}

// ---------------------------------------------------------------------------------------------
// Filling in whose an account is
// ---------------------------------------------------------------------------------------------
/// Whether a row is one of a plugin with an account in effect.
pub open spec fn in_effect(row: EffectiveView, plugin_id: Seq<char>) -> bool {
    row.plugin_id == plugin_id && row.alias is Some
}

/// Whether one of the rows is one of a plugin with an account in effect.
pub open spec fn any_in_effect(rows: Seq<EffectiveView>, plugin_id: Seq<char>) -> bool {
    exists|i: int| 0 <= i < rows.len() && in_effect(#[trigger] rows[i], plugin_id)
}

/// Whether one of the rows is one of a plugin with an account in effect.
pub fn has_in_effect(rows: &Vec<EffectiveAccountRecord>, plugin_id: &str) -> (r: bool)
    ensures
        r == any_in_effect(rows.deep_view(), plugin_id@),
{
    let ghost all = rows.deep_view();
    let mut i: usize = 0;
    while i < rows.len()
        invariant
            i <= rows@.len(),
            all == rows.deep_view(),
            forall|k: int| 0 <= k < i ==> !in_effect(#[trigger] all[k], plugin_id@),
        decreases rows@.len() - i,
    {
        assert(all[i as int] == rows@[i as int].deep_view());
        if same(rows[i].plugin_id.as_str(), plugin_id) && rows[i].alias.is_some() {
            return true;
        }
        i = i + 1;
    }
    false
}

/// A row with what is known of whose the account is: what is missing of an account of the
/// assistant with the given word, and what a Gemini account has now.
pub open spec fn filled_in(
    word: Seq<char>,
    row: EffectiveView,
    claude: Option<ClaudeInfoView>,
    gemini: Option<CodeAssistView>,
) -> EffectiveView {
    let row = match claude {
        Some(info) => if in_effect(row, plugin_id_of(word)) {
            EffectiveView {
                email: or_else(row.email, info.email),
                org_name: or_else(row.org_name, info.org_name),
                ..row
            }
        } else {
            row
        },
        None => row,
    };
    match gemini {
        Some(info) => if in_effect(row, GEMINI_PLUGIN_ID@) {
            EffectiveView {
                org_name: or_else(info.project_id, row.org_name),
                plan: or_else(info.tier_name, row.plan),
                ..row
            }
        } else {
            row
        },
        None => row,
    }
}

/// The rows with what is known of whose the accounts are.
pub fn enrich_effective_accounts(
    product: &Product,
    rows: &Vec<EffectiveAccountRecord>,
    claude: &Option<ClaudeCodeInfo>,
    gemini: &Option<GeminiCodeAssistInfo>,
) -> (r: Vec<EffectiveAccountRecord>)
    ensures
        r.deep_view() == rows.deep_view().map_values(
            |row: EffectiveView|
                filled_in(product.word@, row, claude.deep_view(), gemini.deep_view()),
        ),
{
    let plugin_id = product.plugin_id();
    let ghost fill = |row: EffectiveView|
        filled_in(product.word@, row, claude.deep_view(), gemini.deep_view());
    let ghost all = rows.deep_view().map_values(fill);
    let mut out: Vec<EffectiveAccountRecord> = Vec::new();
    let mut i: usize = 0;
    while i < rows.len()
        invariant
            i <= rows@.len(),
            plugin_id@ == plugin_id_of(product.word@),
            fill == (|row: EffectiveView|
                filled_in(product.word@, row, claude.deep_view(), gemini.deep_view())),
            all == rows.deep_view().map_values(fill),
            out.deep_view() == all.take(i as int),
        decreases rows@.len() - i,
    {
        let row = &rows[i];
        let mut email = copy_opt(&row.email);
        let mut org_name = copy_opt(&row.org_name);
        let mut plan = copy_opt(&row.plan);
        match claude {
            Some(info) => {
                if same(row.plugin_id.as_str(), plugin_id.as_str()) && row.alias.is_some() {
                    email = first_of(&email, &info.email);
                    org_name = first_of(&org_name, &info.org_name);
                }
            },
            None => {},
        }
        match gemini {
            Some(info) => {
                if same(row.plugin_id.as_str(), GEMINI_PLUGIN_ID) && row.alias.is_some() {
                    org_name = first_of(&info.project_id, &org_name);
                    plan = first_of(&info.tier_name, &plan);
                }
            },
            None => {},
        }
        let ghost before = out.deep_view();
        out.push(
            EffectiveAccountRecord {
                plugin_id: row.plugin_id.clone(),
                alias: copy_opt(&row.alias),
                email,
                org_name,
                plan,
                scope: row.scope,
                detail: copy_opt(&row.detail),
            },
        );
        assert(rows.deep_view()[i as int] == rows@[i as int].deep_view());
        assert(out.deep_view() == before.push(all[i as int]));
        assert(all.take(i + 1) == all.take(i as int).push(all[i as int]));
        i = i + 1;
    }
    assert(all.take(all.len() as int) == all);
    out
}

/// The alias that is in effect in the first row of a plugin, from `i` on.
pub open spec fn alias_in_effect(rows: Seq<EffectiveView>, plugin_id: Seq<char>, i: int) -> Option<
    Seq<char>,
>
    decreases rows.len() - i,
{
    if i < 0 || i >= rows.len() {
        None
    } else if rows[i].plugin_id == plugin_id {
        rows[i].alias
    } else {
        alias_in_effect(rows, plugin_id, i + 1)
    }
}

/// The alias that is in effect in the first row of a plugin.
pub fn find_alias_in_effect(rows: &Vec<EffectiveAccountRecord>, plugin_id: &str) -> (r: Option<
    String,
>)
    ensures
        r.deep_view() == alias_in_effect(rows.deep_view(), plugin_id@, 0),
{
    let ghost all = rows.deep_view();
    let mut i: usize = 0;
    while i < rows.len()
        invariant
            i <= rows@.len(),
            all == rows.deep_view(),
            alias_in_effect(all, plugin_id@, 0) == alias_in_effect(all, plugin_id@, i as int),
        decreases rows@.len() - i,
    {
        assert(all[i as int] == rows@[i as int].deep_view());
        if same(rows[i].plugin_id.as_str(), plugin_id) {
            return copy_opt(&rows[i].alias);
        }
        i = i + 1;
    }
    None
}

/// The places of the accounts of a plugin.
pub open spec fn places_of(rows: Seq<RecordView>, plugin_id: Seq<char>) -> Seq<int>
    decreases rows.len(),
{
    if rows.len() == 0 {
        seq![]
    } else if rows.last().plugin_id == plugin_id {
        places_of(rows.drop_last(), plugin_id).push(rows.len() - 1)
    } else {
        places_of(rows.drop_last(), plugin_id)
    }
}

/// The place of the first account of a plugin with an alias, from `i` on.
pub open spec fn place_named(
    rows: Seq<RecordView>,
    plugin_id: Seq<char>,
    alias: Seq<char>,
    i: int,
) -> Option<int>
    decreases rows.len() - i,
{
    if i < 0 || i >= rows.len() {
        None
    } else if rows[i].plugin_id == plugin_id && rows[i].alias == alias {
        Some(i)
    } else {
        place_named(rows, plugin_id, alias, i + 1)
    }
}

fn find_place(rows: &Vec<AccountRecord>, plugin_id: &str, alias: &str) -> (r: Option<usize>)
    ensures
        match r {
            Some(at) => at < rows@.len() && place_named(rows.deep_view(), plugin_id@, alias@, 0)
                == Some(at as int),
            None => place_named(rows.deep_view(), plugin_id@, alias@, 0) is None,
        },
{
    let ghost all = rows.deep_view();
    let mut i: usize = 0;
    while i < rows.len()
        invariant
            i <= rows@.len(),
            all == rows.deep_view(),
            place_named(all, plugin_id@, alias@, 0) == place_named(
                all,
                plugin_id@,
                alias@,
                i as int,
            ),
        decreases rows@.len() - i,
    {
        assert(all[i as int] == rows@[i as int].deep_view());
        if same(rows[i].plugin_id.as_str(), plugin_id) && same(rows[i].alias.as_str(), alias) {
            return Some(i);
        }
        i = i + 1;
    }
    None
}

/// The saved account of a plugin that is logged in: the one in effect, or else the only one there is.
pub open spec fn claude_place(
    plugin_id: Seq<char>,
    rows: Seq<RecordView>,
    effective: Seq<EffectiveView>,
) -> Option<int> {
    match alias_in_effect(effective, plugin_id, 0) {
        Some(alias) => place_named(rows, plugin_id, alias, 0),
        None => {
            let places = places_of(rows, plugin_id);
            if places.len() == 1 {
                Some(places[0])
            } else {
                None
            }
        },
    }
}

fn find_claude_place(
    plugin_id: &str,
    rows: &Vec<AccountRecord>,
    effective: &Vec<EffectiveAccountRecord>,
) -> (r: Option<usize>)
    ensures
        match r {
            Some(at) => at < rows@.len() && claude_place(
                plugin_id@,
                rows.deep_view(),
                effective.deep_view(),
            ) == Some(at as int),
            None => claude_place(plugin_id@, rows.deep_view(), effective.deep_view()) is None,
        },
{
    match find_alias_in_effect(effective, plugin_id) {
        Some(alias) => find_place(rows, plugin_id, alias.as_str()),
        None => {
            let ghost all = rows.deep_view();
            let mut found: usize = 0;
            let mut at: usize = 0;
            let mut i: usize = 0;
            while i < rows.len()
                invariant
                    i <= rows@.len(),
                    all == rows.deep_view(),
                    found <= i,
                    found == places_of(all.take(i as int), plugin_id@).len(),
                    found == 1 ==> at < i && places_of(all.take(i as int), plugin_id@)[0]
                        == at,
                decreases rows@.len() - i,
            {
                assert(all.take(i + 1).drop_last() == all.take(i as int));
                assert(all[i as int] == rows@[i as int].deep_view());
                if same(rows[i].plugin_id.as_str(), plugin_id) {
                    found = found + 1;
                    at = i;
                }
                i = i + 1;
            }
            assert(all.take(all.len() as int) == all);
            if found == 1 {
                Some(at)
            } else {
                None
            }
        },
    }
}

/// The saved account that is logged in to Gemini: the one in effect.
pub open spec fn gemini_place(rows: Seq<RecordView>, effective: Seq<EffectiveView>) -> Option<int> {
    match alias_in_effect(effective, GEMINI_PLUGIN_ID@, 0) {
        Some(alias) => place_named(rows, GEMINI_PLUGIN_ID@, alias, 0),
        None => None,
    }
}

/// The saved accounts with what is known of whose they are.
pub open spec fn saved_filled_in(
    word: Seq<char>,
    rows: Seq<RecordView>,
    effective: Seq<EffectiveView>,
    claude: Option<ClaudeInfoView>,
    gemini: Option<CodeAssistView>,
) -> Seq<RecordView> {
    let rows = match (claude, claude_place(plugin_id_of(word), rows, effective)) {
        (Some(info), Some(at)) => rows.update(
            at,
            RecordView {
                email: or_else(rows[at].email, info.email),
                org_name: or_else(rows[at].org_name, info.org_name),
                ..rows[at]
            },
        ),
        _ => rows,
    };
    match (gemini, gemini_place(rows, effective)) {
        (Some(info), Some(at)) => rows.update(
            at,
            RecordView {
                org_name: or_else(info.project_id, rows[at].org_name),
                plan: or_else(info.tier_name, rows[at].plan),
                ..rows[at]
            },
        ),
        _ => rows,
    }
}

/// Fills in what is known of whose the saved accounts are.
pub fn enrich_saved_accounts(
    product: &Product,
    rows: &mut Vec<AccountRecord>,
    effective: &Vec<EffectiveAccountRecord>,
    claude: &Option<ClaudeCodeInfo>,
    gemini: &Option<GeminiCodeAssistInfo>,
)
    ensures
        final(rows).deep_view() == saved_filled_in(
            product.word@,
            old(rows).deep_view(),
            effective.deep_view(),
            claude.deep_view(),
            gemini.deep_view(),
        ),
{
    match claude {
        Some(info) => match find_claude_place(product.plugin_id().as_str(), rows, effective) {
            Some(at) => {
                let ghost before = rows.deep_view();
                assert(before[at as int] == rows@[at as int].deep_view());
                let mut row = rows[at].duplicate();
                row.email = first_of(&row.email, &info.email);
                row.org_name = first_of(&row.org_name, &info.org_name);
                let ghost v = row.deep_view();
                rows.set(at, row);
                assert(rows.deep_view() == before.update(at as int, v));
            },
            None => {},
        },
        None => {},
    }
    let current = find_alias_in_effect(effective, GEMINI_PLUGIN_ID);
    match gemini {
        Some(info) => match current {
            Some(alias) => match find_place(rows, GEMINI_PLUGIN_ID, alias.as_str()) {
                Some(at) => {
                    let ghost before = rows.deep_view();
                    assert(before[at as int] == rows@[at as int].deep_view());
                    let mut row = rows[at].duplicate();
                    row.org_name = first_of(&info.project_id, &row.org_name);
                    row.plan = first_of(&info.tier_name, &row.plan);
                    let ghost v = row.deep_view();
                    rows.set(at, row);
                    assert(rows.deep_view() == before.update(at as int, v));
                },
                None => {},
            },
            None => {},
        },
        None => {},
    }
}

} // verus!
