//! What is asked live: who an account belongs to, which provider is asked in which order, and how
//! long an answer is kept.
use vstd::prelude::*;

use crate::account::RecordView;
use crate::claude::{backup_prefix_of, log_hint_of, oauth_text, session_hint_of, usage_command_of};
use crate::cmd::live::{
    ClaudeInfoView, alias_in_effect, any_in_effect, backups_of, filled_in, first_info, in_effect,
    info_in, latest_telemetry, names_with, place_named, places_of, saved_filled_in, telemetry_in,
};
use crate::cmd::probe::{
    CODEX_LOCAL_LOG_HINT, LIVE_CACHE_FILE, LIVE_CACHE_FRESH_SECS, LIVE_CACHE_RATE_LIMITED_SECS,
    ApiOutcome, ClaudeSource, CurrentGemini, GeminiOutcome, Provider, after_api,
    after_current_gemini, after_gemini, api_warning, claude_kind, claude_next, claude_place,
    from_place, new_entries, plan_in, provider_of, speaks_of_rate, still_kept, with_cache,
    with_last_warning, with_quota_source, with_warning,
};
use crate::cmd::scope::EffectiveView;
use crate::gemini::CodeAssistView;
use crate::json::{JsonView, field_of, json_of_text};
use crate::quota::field2;
use crate::text::{has_part, has_prefix, lower_of, text_lt};
use crate::text_map::{lemma_map_of, map_of, sorted_items, sorted_items_exist};
use crate::time::{Timestamp, span};
use crate::usage::snapshot::{SnapshotView, SummaryView};

verus! {

// ---------------------------------------------------------------------------------------------
// Who an account belongs to
// ---------------------------------------------------------------------------------------------
/// The text of a field, where it is one.
pub open spec fn text_at(field: Option<JsonView>) -> Option<Seq<char>> {
    match field {
        Some(JsonView::Text(s)) => Some(s),
        _ => None,
    }
}

/// The address of an account is that of its login, and that of the user where there is none; its
/// organisation is that of its login.
pub proof fn the_login_goes_before_the_user(value: JsonView)
    ensures
        text_at(field2(value, "oauthAccount"@, "emailAddress"@)) is Some ==> info_in(value).email
            == text_at(field2(value, "oauthAccount"@, "emailAddress"@)),
        text_at(field2(value, "oauthAccount"@, "emailAddress"@)) is None ==> info_in(value).email
            == text_at(field_of(value, "userEmail"@)),
        info_in(value).org_name == text_at(field2(value, "oauthAccount"@, "organizationName"@)),
{
}

/// What a text says of an account, where it says anything.
pub open spec fn said_by(text: Seq<char>) -> Option<ClaudeInfoView> {
    match json_of_text(text) {
        Ok(value) => if info_in(value).email is Some || info_in(value).org_name is Some {
            Some(info_in(value))
        } else {
            None
        },
        Err(_) => None,
    }
}

/// Of several backups the first that says anything counts.
pub proof fn the_first_backup_that_says_anything_counts(contents: Seq<Seq<char>>, from: int)
    requires
        0 <= from,
    ensures
        match first_info(contents, from) {
            Some(info) => exists|i: int|
                from <= i < contents.len() && #[trigger] said_by(contents[i]) == Some(info)
                    && forall|j: int| from <= j < i ==> #[trigger] said_by(contents[j]) is None,
            None => forall|j: int|
                from <= j < contents.len() ==> #[trigger] said_by(contents[j]) is None,
        },
    decreases contents.len() - from,
{
    if from < contents.len() {
        if said_by(contents[from]) is None {
            the_first_backup_that_says_anything_counts(contents, from + 1);
            if let Some(info) = first_info(contents, from + 1) {
                let i = choose|i: int|
                    from + 1 <= i < contents.len() && #[trigger] said_by(contents[i]) == Some(info)
                        && forall|j: int|
                        from + 1 <= j < i ==> #[trigger] said_by(contents[j]) is None;
                assert(said_by(contents[i]) == Some(info));
                assert forall|j: int| from <= j < i implies #[trigger] said_by(contents[j])
                    is None by {
                }
            }
        } else {
            assert(said_by(contents[from]) == first_info(contents, from));
        }
    }
}

proof fn lemma_names_with(names: Seq<Seq<char>>, start: Seq<char>)
    ensures
        names_with(names, start).dom().finite(),
        forall|x: Seq<char>| #[trigger]
            names_with(names, start).contains_key(x) <==> names.contains(x) && has_prefix(x, start),
    decreases names.len(),
{
    if names.len() > 0 {
        let front = names.drop_last();
        lemma_names_with(front, start);
        assert forall|x: Seq<char>| #[trigger] names_with(names, start).contains_key(x)
            <==> names.contains(x) && has_prefix(x, start) by {
            assert(names_with(front, start).contains_key(x) <==> front.contains(x) && has_prefix(
                x,
                start,
            ));
            if names.contains(x) {
                let k = choose|k: int| 0 <= k < names.len() && names[k] == x;
                if k < front.len() {
                    assert(front[k] == x);
                }
            }
            if front.contains(x) {
                let k = choose|k: int| 0 <= k < front.len() && front[k] == x;
                assert(names[k] == x);
            }
            assert(names[names.len() - 1] == names.last());
        }
    }
}

/// The backups of a product are the files that start as its backups do, the last name first.
pub proof fn the_last_backup_comes_first(word: Seq<char>, names: Seq<Seq<char>>, x: Seq<char>)
    ensures
        backups_of(word, names).contains(x) <==> names.contains(x) && has_prefix(
            x,
            "."@ + word + ".json.backup."@,
        ),
        forall|i: int, j: int|
            0 <= i < j < backups_of(word, names).len() ==> text_lt(
                #[trigger] backups_of(word, names)[j],
                #[trigger] backups_of(word, names)[i],
            ),
{
    let start = backup_prefix_of(word);
    let m = names_with(names, start);
    lemma_names_with(names, start);
    sorted_items_exist(m);
    let items = sorted_items(m);
    lemma_map_of(items);
    let keys = items.map_values(|e: (Seq<char>, u64)| e.0);
    let all = backups_of(word, names);
    let n = items.len() as int;
    assert forall|i: int| 0 <= i < n implies #[trigger] all[i] == items[n - 1 - i].0 by {
        assert(all[i] == keys[n - 1 - i]);
    }
    if all.contains(x) {
        let k = choose|k: int| 0 <= k < all.len() && all[k] == x;
        assert(map_of(items).contains_key(items[n - 1 - k].0));
    }
    if m.contains_key(x) {
        let k = choose|k: int| 0 <= k < items.len() && #[trigger] items[k].0 == x;
        assert(all[n - 1 - k] == x);
    }
    assert forall|i: int, j: int| 0 <= i < j < all.len() implies text_lt(
        #[trigger] all[j],
        #[trigger] all[i],
    ) by {
        assert(text_lt(items[n - 1 - j].0, items[n - 1 - i].0));
    }
}

/// An event tells an address, and the time of the client or else its own.
pub proof fn an_event_tells_an_address(value: JsonView)
    ensures
        telemetry_in(value) matches Some((time, email)) ==> {
            let event = field_of(value, "event_data"@);
            &&& event is Some
            &&& field_of(event->0, "email"@) == Some(JsonView::Text(email))
            &&& text_at(field_of(event->0, "client_timestamp"@)) matches Some(t) ==> time == t
            &&& text_at(field_of(event->0, "client_timestamp"@)) is None ==> (text_at(
                field_of(value, "timestamp"@),
            ) matches Some(t) ==> time == t)
        },
        field_of(value, "event_data"@) is Some && (field_of(
            field_of(value, "event_data"@)->0,
            "email"@,
        ) matches Some(JsonView::Text(_))) ==> telemetry_in(value) is Some,
{
}

/// The event that a line tells of.
pub open spec fn event_in(line: Seq<char>) -> Option<(Seq<char>, Seq<char>)> {
    match json_of_text(line) {
        Ok(value) => telemetry_in(value),
        Err(_) => None,
    }
}

/// Of several events the latest counts.
pub proof fn the_latest_event_counts(lines: Seq<Seq<char>>)
    ensures
        latest_telemetry(lines) matches Some(event) ==> exists|i: int|
            0 <= i < lines.len() && #[trigger] event_in(lines[i]) == Some(event),
        forall|i: int|
            0 <= i < lines.len() ==> (#[trigger] event_in(lines[i]) matches Some((time, _))
                ==> latest_telemetry(lines) matches Some((last, _)) && !text_lt(last, time)),
    decreases lines.len(),
{
    if lines.len() > 0 {
        let front = lines.drop_last();
        the_latest_event_counts(front);
        let n = front.len() as int;
        assert(lines[n] == lines.last());
        if let Some(event) = latest_telemetry(lines) {
            if latest_telemetry(front) == Some(event) {
                let i = choose|i: int|
                    0 <= i < front.len() && #[trigger] event_in(front[i]) == Some(event);
                assert(event_in(lines[i]) == Some(event));
            } else {
                assert(event_in(lines[n]) == Some(event));
            }
            crate::text::lemma_text_lt_irreflexive(event.0);
        }
        assert forall|i: int| 0 <= i < lines.len() implies (#[trigger] event_in(lines[i]) matches Some(
            (time, _),
        ) ==> latest_telemetry(lines) matches Some((last, _)) && !text_lt(last, time)) by {
            if let Some((time, _)) = event_in(lines[i]) {
                if i < n {
                    assert(event_in(front[i]) is Some);
                    let a = (latest_telemetry(front)->0).0;
                    let b = (latest_telemetry(lines)->0).0;
                    if text_lt(b, time) && a != b {
                        crate::text::lemma_text_lt_transitive(a, b, time);
                    }
                }
            }
        }
    }
}

/// What is known live of the one provider fills what is not known of its row, and leaves what is. What
/// is known live of the other goes before what was saved. Rows of other plugins, and rows without an
/// account, stay.
pub proof fn live_knowledge_fills_the_rows(
    word: Seq<char>,
    row: EffectiveView,
    info: ClaudeInfoView,
    gemini: CodeAssistView,
)
    ensures
        row.alias is None ==> filled_in(word, row, Some(info), Some(gemini)) == row,
        row.plugin_id != word + "-code"@ ==> filled_in(word, row, Some(info), None) == row,
        row.plugin_id != "gemini"@ ==> filled_in(word, row, None, Some(gemini)) == row,
        row.alias is Some && row.plugin_id == word + "-code"@ ==> {
            let after = filled_in(word, row, Some(info), None);
            &&& row.email is Some ==> after.email == row.email
            &&& row.email is None ==> after.email == info.email
            &&& row.org_name is Some ==> after.org_name == row.org_name
            &&& row.org_name is None ==> after.org_name == info.org_name
            &&& after.plan == row.plan && after.alias == row.alias && after.plugin_id
                == row.plugin_id && after.scope == row.scope && after.detail == row.detail
        },
        row.alias is Some && row.plugin_id == "gemini"@ ==> {
            let after = filled_in(word, row, None, Some(gemini));
            &&& gemini.project_id is Some ==> after.org_name == gemini.project_id
            &&& gemini.project_id is None ==> after.org_name == row.org_name
            &&& gemini.tier_name is Some ==> after.plan == gemini.tier_name
            &&& gemini.tier_name is None ==> after.plan == row.plan
            &&& after.email == row.email && after.alias == row.alias && after.plugin_id
                == row.plugin_id && after.scope == row.scope && after.detail == row.detail
        },
        filled_in(word, row, None, None) == row,
{
}

/// The alias in use of a plugin is that of its first row.
pub proof fn the_alias_in_use_is_that_of_the_first_row(
    rows: Seq<EffectiveView>,
    plugin: Seq<char>,
    from: int,
)
    requires
        0 <= from,
    ensures
        forall|i: int|
            from <= i < rows.len() && (#[trigger] rows[i]).plugin_id == plugin && (forall|j: int|
                from <= j < i ==> (#[trigger] rows[j]).plugin_id != plugin) ==> alias_in_effect(
                rows,
                plugin,
                from,
            ) == rows[i].alias,
        (forall|j: int| from <= j < rows.len() ==> (#[trigger] rows[j]).plugin_id != plugin)
            ==> alias_in_effect(rows, plugin, from) is None,
    decreases rows.len() - from,
{
    if from < rows.len() && rows[from].plugin_id != plugin {
        the_alias_in_use_is_that_of_the_first_row(rows, plugin, from + 1);
    }
    if from < rows.len() && rows[from].plugin_id == plugin {
        assert(alias_in_effect(rows, plugin, from) == rows[from].alias);
        assert forall|i: int|
            from <= i < rows.len() && (#[trigger] rows[i]).plugin_id == plugin && (forall|j: int|
                from <= j < i ==> (#[trigger] rows[j]).plugin_id != plugin) implies alias_in_effect(
            rows,
            plugin,
            from,
        ) == rows[i].alias by {
            if i > from {
                assert(rows[from].plugin_id != plugin);
            }
        }
    }
}

/// The place of a saved account is the first with its plugin and its alias.
pub proof fn a_saved_account_has_its_place(
    rows: Seq<RecordView>,
    plugin: Seq<char>,
    alias: Seq<char>,
    from: int,
)
    requires
        0 <= from,
    ensures
        match place_named(rows, plugin, alias, from) {
            Some(i) => from <= i < rows.len() && rows[i].plugin_id == plugin && rows[i].alias
                == alias,
            None => forall|j: int|
                from <= j < rows.len() ==> !((#[trigger] rows[j]).plugin_id == plugin
                    && rows[j].alias == alias),
        },
    decreases rows.len() - from,
{
    if from < rows.len() && !(rows[from].plugin_id == plugin && rows[from].alias == alias) {
        a_saved_account_has_its_place(rows, plugin, alias, from + 1);
    }
}

/// The places of a plugin are all those of its accounts.
pub proof fn a_plugin_has_all_its_places(rows: Seq<RecordView>, plugin: Seq<char>, i: int)
    ensures
        places_of(rows, plugin).contains(i) <==> 0 <= i < rows.len() && rows[i].plugin_id == plugin,
    decreases rows.len(),
{
    if rows.len() > 0 {
        let front = rows.drop_last();
        a_plugin_has_all_its_places(front, plugin, i);
        let before = places_of(front, plugin);
        let all = places_of(rows, plugin);
        if before.contains(i) {
            let k = choose|k: int| 0 <= k < before.len() && before[k] == i;
            assert(all[k] == i);
        }
        if all.contains(i) {
            let k = choose|k: int| 0 <= k < all.len() && all[k] == i;
            if k < before.len() {
                assert(before[k] == i);
            }
        }
        if i == rows.len() - 1 && rows[i].plugin_id == plugin {
            assert(all[all.len() - 1] == i);
        }
    }
}

/// What is known live of the one provider fills what is not known of the saved account that is in use;
/// where none is in use, of the only one there is. No account is added or taken, and the plan, the
/// alias and the times stay.
pub proof fn live_knowledge_fills_one_saved_account(
    word: Seq<char>,
    rows: Seq<RecordView>,
    effective: Seq<EffectiveView>,
    info: ClaudeInfoView,
    i: int,
)
    requires
        0 <= i < rows.len(),
    ensures
        ({
            let after = saved_filled_in(word, rows, effective, Some(info), None);
            let meant = crate::cmd::live::claude_place(word + "-code"@, rows, effective) == Some(i);
            &&& after.len() == rows.len()
            &&& !meant ==> after[i] == rows[i]
            &&& meant && rows[i].email is Some ==> after[i].email == rows[i].email
            &&& meant && rows[i].email is None ==> after[i].email == info.email
            &&& meant && rows[i].org_name is Some ==> after[i].org_name == rows[i].org_name
            &&& meant && rows[i].org_name is None ==> after[i].org_name == info.org_name
            &&& after[i].plan == rows[i].plan && after[i].alias == rows[i].alias
                && after[i].plugin_id == rows[i].plugin_id && after[i].active == rows[i].active
                && after[i].added_at == rows[i].added_at && after[i].last_used_at
                == rows[i].last_used_at
        }),
        ({
            let alias = alias_in_effect(effective, word + "-code"@, 0);
            let places = places_of(rows, word + "-code"@);
            &&& alias is Some ==> crate::cmd::live::claude_place(word + "-code"@, rows, effective)
                == place_named(rows, word + "-code"@, alias->0, 0)
            &&& alias is None && places.len() == 1 ==> crate::cmd::live::claude_place(
                word + "-code"@,
                rows,
                effective,
            ) == Some(places[0])
            &&& alias is None && places.len() != 1 ==> crate::cmd::live::claude_place(
                word + "-code"@,
                rows,
                effective,
            ) is None
        }),
{
    let p = word + "-code"@;
    if let Some(at) = crate::cmd::live::claude_place(p, rows, effective) {
        match alias_in_effect(effective, p, 0) {
            Some(alias) => {
                a_saved_account_has_its_place(rows, p, alias, 0);
            },
            None => {
                a_plugin_has_all_its_places(rows, p, at);
                assert(places_of(rows, p).contains(places_of(rows, p)[0]));
            },
        }
    }
}

/// What is known live of the other provider goes before what was saved of its account in use.
pub proof fn live_knowledge_goes_before_what_was_saved(
    word: Seq<char>,
    rows: Seq<RecordView>,
    effective: Seq<EffectiveView>,
    info: CodeAssistView,
    i: int,
)
    requires
        0 <= i < rows.len(),
    ensures
        ({
            let after = saved_filled_in(word, rows, effective, None, Some(info));
            let alias = alias_in_effect(effective, "gemini"@, 0);
            let meant = alias is Some && place_named(rows, "gemini"@, alias->0, 0) == Some(i);
            &&& after.len() == rows.len()
            &&& !meant ==> after[i] == rows[i]
            &&& meant && info.project_id is Some ==> after[i].org_name == info.project_id
            &&& meant && info.project_id is None ==> after[i].org_name == rows[i].org_name
            &&& meant && info.tier_name is Some ==> after[i].plan == info.tier_name
            &&& meant && info.tier_name is None ==> after[i].plan == rows[i].plan
            &&& after[i].email == rows[i].email && after[i].alias == rows[i].alias
        }),
{
    if let Some(alias) = alias_in_effect(effective, "gemini"@, 0) {
        a_saved_account_has_its_place(rows, "gemini"@, alias, 0);
    }
}

// ---------------------------------------------------------------------------------------------
// Which provider is asked
// ---------------------------------------------------------------------------------------------
/// Three plugins have a provider that can be asked.
pub proof fn three_plugins_have_a_provider(word: Seq<char>, plugin: Seq<char>)
    ensures
        plugin == "gemini"@ ==> provider_of(word, plugin) == Some(Provider::Gemini),
        plugin == "codex"@ ==> provider_of(word, plugin) == Some(Provider::Codex),
        plugin == word + "-code"@ && plugin != "gemini"@ && plugin != "codex"@ ==> provider_of(
            word,
            plugin,
        ) == Some(Provider::Claude),
        plugin != "gemini"@ && plugin != "codex"@ && plugin != word + "-code"@ ==> provider_of(
            word,
            plugin,
        ) is None,
{
    reveal_strlit("gemini");
    reveal_strlit("codex");
    assert("gemini"@[0] == 'g' && "codex"@[0] == 'c');
}

/// An answer is kept for as many seconds as it says, and not where it is from the future by a second or
/// more. An ordinary one is kept for a minute, one that was refused for too many requests for five.
pub proof fn an_answer_is_kept_for_its_time(saved: Timestamp, ttl_s: u64, now: Timestamp)
    ensures
        still_kept(saved, ttl_s, now) && span(saved, now) >= 0 ==> span(saved, now) < ttl_s
            * 1_000_000_000,
        0 <= span(saved, now) < ttl_s * 1_000_000_000 ==> still_kept(saved, ttl_s, now),
        span(saved, now) <= -1_000_000_000 ==> !still_kept(saved, ttl_s, now),
        -1_000_000_000 < span(saved, now) < 0 ==> (still_kept(saved, ttl_s, now) <==> ttl_s > 0),
        LIVE_CACHE_FRESH_SECS == 60,
        LIVE_CACHE_RATE_LIMITED_SECS == 300,
        LIVE_CACHE_FILE@ == "live_quota.json"@,
        CODEX_LOCAL_LOG_HINT@ == "~/.codex/sessions/**/*.jsonl"@,
{
}

/// A warning speaks of too many requests where it has the word in it, in either case of its letters.
pub proof fn a_warning_speaks_of_the_rate(warnings: Seq<Seq<char>>)
    ensures
        speaks_of_rate(warnings) <==> exists|i: int|
            0 <= i < warnings.len() && has_part(lower_of(#[trigger] warnings[i]), "rate"@),
{
}

/// What is kept is put back as it was: its entries go before those that were there, and its sources and
/// warnings come behind.
pub proof fn what_was_kept_is_put_back(
    s: SnapshotView,
    quota: Map<Seq<char>, JsonView>,
    sources: Seq<SummaryView>,
    warnings: Seq<Seq<char>>,
    key: Seq<char>,
)
    ensures
        ({
            let after = with_cache(s, quota, sources, warnings);
            &&& quota.contains_key(key) ==> after.quota.contains_key(key) && after.quota[key]
                == quota[key]
            &&& !quota.contains_key(key) ==> (after.quota.contains_key(key)
                <==> s.quota.contains_key(key)) && (s.quota.contains_key(key) ==> after.quota[key]
                == s.quota[key])
            &&& after.sources == s.sources + sources
            &&& after.warnings == s.warnings + warnings
        }),
{
}

/// What came in since a mark is what stands behind it, and the entries that were not there.
pub proof fn what_came_in_stands_behind_the_mark(
    before: Seq<Seq<char>>,
    more: Seq<Seq<char>>,
    quota: Map<Seq<char>, JsonView>,
    keys: Seq<Seq<char>>,
    key: Seq<char>,
)
    ensures
        from_place(before + more, before.len() as int) == more,
        new_entries(quota, keys).contains_key(key) <==> quota.contains_key(key) && !keys.contains(
            key,
        ),
        new_entries(quota, keys).contains_key(key) ==> new_entries(quota, keys)[key] == quota[key],
{
    assert((before + more).subrange(before.len() as int, (before + more).len() as int) == more);
}

/// A source that says something is entered with where it is from, and its entries go before those that
/// were there; one that says nothing changes nothing.
pub proof fn a_source_is_entered_with_its_place(
    s: SnapshotView,
    kind: Seq<char>,
    place: Seq<char>,
    quota: Map<Seq<char>, JsonView>,
    key: Seq<char>,
)
    ensures
        ({
            let after = with_quota_source(s, kind, place, quota);
            let none = Map::<Seq<char>, JsonView>::empty();
            &&& quota == none ==> after == s
            &&& quota != none ==> after.sources.len() == s.sources.len() + 1
                && after.sources.last().kind == kind && after.sources.last().path_or_url == Some(
                place,
            ) && after.sources.last().quota == quota && after.sources.last().warnings.len() == 0
            &&& quota.contains_key(key) ==> after.quota.contains_key(key) && after.quota[key]
                == quota[key]
            &&& !quota.contains_key(key) && s.quota.contains_key(key) ==> after.quota[key]
                == s.quota[key]
            &&& after.warnings == s.warnings
            &&& after.metrics == s.metrics && after.alias == s.alias && after.plugin_id == s.plugin_id
        }),
{
}

/// The last warning is given only where nothing is known of the allowance.
pub proof fn the_last_warning_is_for_what_is_not_known(s: SnapshotView, warning: Seq<char>)
    ensures
        s.quota == Map::<Seq<char>, JsonView>::empty() ==> with_last_warning(s, Some(warning)).warnings
            == s.warnings.push(warning),
        s.quota != Map::<Seq<char>, JsonView>::empty() ==> with_last_warning(s, Some(warning)) == s,
        with_last_warning(s, None) == s,
        with_warning(s, warning).warnings == s.warnings.push(warning),
        with_warning(s, warning).quota == s.quota,
        with_warning(s, warning).sources == s.sources,
{
}

/// A provider that could not be asked is warned about, and one that answered is entered.
pub proof fn only_an_answer_is_entered(
    s: SnapshotView,
    name: Seq<char>,
    kind: Seq<char>,
    url: Seq<char>,
    outcome: ApiOutcome,
)
    ensures
        outcome matches ApiOutcome::Quota(quota) ==> after_api(s, kind, url, outcome)
            == with_quota_source(s, kind, url, quota.deep_view()) && api_warning(name, outcome)
            is None,
        !(outcome is Quota) ==> after_api(s, kind, url, outcome) == s && api_warning(name, outcome)
            is Some,
        outcome matches ApiOutcome::NoCredential { message } ==> api_warning(name, outcome) == Some(
            "failed to load saved "@ + name + " credentials: "@ + message@,
        ),
        outcome matches ApiOutcome::Failed { message, .. } ==> api_warning(name, outcome) == Some(
            "failed to fetch live "@ + name + " quota: "@ + message@,
        ),
{
}

/// After the provider itself its command is asked, then what it wrote of a limit, then what it wrote of
/// its session. The command is left out where the provider had too many requests. Nothing more is asked
/// once something is known, nor for an account that is not in use.
pub proof fn sources_are_asked_in_turn(known: bool, in_use: bool, limited: bool, after: ClaudeSource)
    ensures
        known || !in_use ==> claude_next(after, known, in_use, limited) is None,
        claude_next(ClaudeSource::Api, false, true, false) == Some(ClaudeSource::Cli),
        claude_next(ClaudeSource::Api, false, true, true) == Some(ClaudeSource::Hint),
        claude_next(ClaudeSource::Cli, false, true, limited) == Some(ClaudeSource::Hint),
        claude_next(ClaudeSource::Hint, false, true, limited) == Some(ClaudeSource::Session),
        claude_next(ClaudeSource::Session, false, true, limited) is None,
{
}

/// Each source has its kind and its place.
pub proof fn each_source_has_its_kind_and_place(word: Seq<char>)
    ensures
        claude_kind(ClaudeSource::Api) == "claude_api"@,
        claude_kind(ClaudeSource::Cli) == "claude_cli"@,
        claude_kind(ClaudeSource::Hint) == "claude_local_hint"@,
        claude_kind(ClaudeSource::Session) == "claude_local_session"@,
        claude_place(word, ClaudeSource::Api) == "https://api.anthropic.com/api/oauth/usage"@,
        claude_place(word, ClaudeSource::Cli) == usage_command_of(word),
        claude_place(word, ClaudeSource::Hint) == log_hint_of(word),
        claude_place(word, ClaudeSource::Session) == session_hint_of(word),
{
}

/// The plan of a credential is its subscription, and its tier where there is none.
pub proof fn the_plan_of_a_credential_is_its_subscription(credential: JsonView)
    ensures
        oauth_text(credential, "subscriptionType"@) is Some ==> plan_in(credential) == oauth_text(
            credential,
            "subscriptionType"@,
        ),
        oauth_text(credential, "subscriptionType"@) is None ==> plan_in(credential) == oauth_text(
            credential,
            "rateLimitTier"@,
        ),
{
}

/// Where the credential that was saved does not work for the account in use, the present one is asked
/// for; for another account it is warned about at once.
pub proof fn the_present_credential_is_asked_for_the_account_in_use(
    s: SnapshotView,
    message: String,
)
    ensures
        after_gemini(s, GeminiOutcome::Failed { message }, true) == (s, Some(message@)),
        after_gemini(s, GeminiOutcome::NoCredential { message }, true) == (s, Some(message@)),
        after_gemini(s, GeminiOutcome::Failed { message }, false) == (
            with_warning(s, "failed to fetch live Gemini quota: "@ + message@),
            None::<Seq<char>>,
        ),
        after_gemini(s, GeminiOutcome::NoCredential { message }, false) == (
            with_warning(s, "failed to load saved Gemini credentials: "@ + message@),
            None::<Seq<char>>,
        ),
        after_gemini(s, GeminiOutcome::NoProject, true) == after_gemini(
            s,
            GeminiOutcome::NoProject,
            false,
        ),
        after_gemini(s, GeminiOutcome::NoProject, true).0.warnings.len() == s.warnings.len() + 1,
{
}

/// Where the present credential does not work either, both causes are told.
pub proof fn both_causes_are_told(s: SnapshotView, cause: Seq<char>, message: String)
    ensures
        after_current_gemini(s, cause, CurrentGemini::Failed { message }) == with_warning(
            s,
            "failed to fetch live Gemini quota from saved credentials: "@ + cause
                + "; current Gemini quota probe also failed: "@ + message@,
        ),
        after_current_gemini(s, cause, CurrentGemini::Unavailable) == with_warning(
            s,
            "failed to fetch live Gemini quota from saved credentials: "@ + cause
                + "; current Gemini credentials are unavailable"@,
        ),
{
}

/// An account is in use where a row of its plugin has one.
pub proof fn an_account_is_in_use_where_a_row_has_one(rows: Seq<EffectiveView>, plugin: Seq<char>)
    ensures
        any_in_effect(rows, plugin) <==> exists|i: int|
            0 <= i < rows.len() && (#[trigger] rows[i]).plugin_id == plugin && rows[i].alias is Some,
{
    if any_in_effect(rows, plugin) {
        let i = choose|i: int| 0 <= i < rows.len() && in_effect(#[trigger] rows[i], plugin);
        assert(rows[i].plugin_id == plugin && rows[i].alias is Some);
    }
    if exists|i: int|
        0 <= i < rows.len() && (#[trigger] rows[i]).plugin_id == plugin && rows[i].alias is Some {
        let i = choose|i: int|
            0 <= i < rows.len() && (#[trigger] rows[i]).plugin_id == plugin && rows[i].alias is Some;
        assert(in_effect(rows[i], plugin));
    }
}

} // verus!
