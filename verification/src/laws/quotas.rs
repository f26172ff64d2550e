//! What providers say of an allowance: which requests are made, how answers are read, and what of
//! several readings counts.
use vstd::prelude::*;

use crate::claude::{
    CLAUDE_CLIENT_ID, CLAUDE_SCOPES, CLAUDE_USAGE_URL, MERIDIEM_PATTERN, OUTPUT_RESET_PATTERN,
    PERCENT_PATTERN, RESET_PATTERN, SESSION_BLOCK_HOURS, SESSION_NANOS, SESSION_SECONDS,
    ClaudeErrorView, HintView, PrintedPercentView, Session, TokenRecord, backup_prefix_of, by_time,
    clock_of, collapsed, ends_in_calendar, expiry_edit, first_text, hint_in, hour_of, is_control,
    last_session, latest_hint, lifetime, limit_of, log_hint_of, meridiem_of, message_text,
    oauth_text, percent_of, plan_of, plugin_id_of, printed_entries, printed_in, record_in,
    records_in, refresh_outcome, refresh_url_of, reset_in, running_session, session_after,
    session_hint_of, tokens_at, total_tokens, usage_command_of, window_at, with_printed,
    within_session, without_joiners,
};
use crate::codex::{
    CODEX_CLIENT_ID, CODEX_PLUGIN_ID, CODEX_REFRESH_URL, CODEX_USAGE_URL, CodexErrorView,
    LimitLineView, api_window, hex_digit, is_plain, later_text, latest_line, limits_in, log_window,
    number_in, percent_encoded, refresh_form, refresh_time_edit, renewed, reset_of, second_text,
    token_text, unsigned_text, usage_headers, whole_field, whole_in, with_balance,
};
use crate::gemini::{
    CODE_ASSIST_ENDPOINT, GEMINI_PLUGIN_ID, count_number, fractions_in, info_body, info_in,
    latest_reset_in, method_headers, quota_entries,
};
use crate::json::{JsonView, NumberView, field_of, json_of_text, text_in};
use crate::pattern::groups_of;
use crate::quota::{
    EditValueView, EditView, HttpReply, WindowView, all_used, at_most, bits_in, edited,
    edited_by, field2, filled_text, not_empty, nothing_left, order_key, with_main, with_text, with_window,
};
use crate::text::{has_part, is_space, lower_of, text_lt, unsigned_of};
use crate::time::{Timestamp, earlier, rfc3339_instant, rfc3339_of, span};
use crate::usage::filter::decimal_number;

verus! {

// ---------------------------------------------------------------------------------------------
// Readings in general
// ---------------------------------------------------------------------------------------------
/// An empty text counts as none, and so does a value that is not a text.
pub proof fn an_empty_text_counts_as_none(text: Seq<char>, value: JsonView)
    ensures
        not_empty(Some(text)) is Some <==> text.len() > 0,
        not_empty(Some(text)) is Some ==> not_empty(Some(text))->0 == text,
        not_empty(None) is None,
        filled_text(None) is None,
        filled_text(Some(JsonView::Text(text))) == not_empty(Some(text)),
        !(value is Text) ==> filled_text(Some(value)) is None,
        bits_in(Some(value)) is Some ==> value is Number,
        bits_in(None) is None,
{
}

/// Nothing left is nothing, all used is a hundred.
pub proof fn whole_allowances_are_nothing_and_a_hundred()
    ensures
        nothing_left().whole == Some(0i64),
        all_used().whole == Some(100i64),
{
}

/// A window puts what is left and what is used under its own name, and its end where it has one.
/// Entries under other names stay.
pub proof fn a_window_is_put_under_its_name(
    quota: Map<Seq<char>, JsonView>,
    prefix: Seq<char>,
    w: WindowView,
    key: Seq<char>,
)
    ensures
        ({
            let after = with_window(quota, prefix, Some(w));
            &&& after.contains_key(prefix + "_remaining_percent"@) && after[prefix
                + "_remaining_percent"@] == JsonView::Number(w.remaining)
            &&& after.contains_key(prefix + "_used_percent"@) && after[prefix + "_used_percent"@]
                == JsonView::Number(w.used)
            &&& w.reset_time matches Some(t) ==> after.contains_key(prefix + "_reset_time"@)
                && after[prefix + "_reset_time"@] == JsonView::Text(t)
            &&& key != prefix + "_remaining_percent"@ && key != prefix + "_used_percent"@ && (
            w.reset_time is None || key != prefix + "_reset_time"@) ==> (after.contains_key(key)
                <==> quota.contains_key(key)) && after[key] == quota[key]
            &&& with_window(quota, prefix, None) == quota
        }),
{
    reveal_strlit("_remaining_percent");
    reveal_strlit("_used_percent");
    reveal_strlit("_reset_time");
    let a = prefix + "_remaining_percent"@;
    let b = prefix + "_used_percent"@;
    let c = prefix + "_reset_time"@;
    assert(a.len() == prefix.len() + 18 && b.len() == prefix.len() + 13 && c.len() == prefix.len()
        + 11);
}

/// The main entries are those of the window with less left, of the week where they are even, and tell
/// which window it is.
pub proof fn the_main_entries_are_of_the_tighter_window(
    quota: Map<Seq<char>, JsonView>,
    session: Option<WindowView>,
    weekly: Option<WindowView>,
)
    requires
        session is Some || weekly is Some,
    ensures
        ({
            let week = weekly is Some && (session is None || at_most(
                weekly->0.remaining,
                session->0.remaining,
            ));
            let w = if week {
                weekly->0
            } else {
                session->0
            };
            let after = with_main(quota, session, weekly);
            &&& after.contains_key("remaining_percent"@) && after["remaining_percent"@]
                == JsonView::Number(w.remaining)
            &&& after.contains_key("used_percent"@) && after["used_percent"@] == JsonView::Number(
                w.used,
            )
            &&& w.reset_time matches Some(t) ==> after.contains_key("reset_time"@)
                && after["reset_time"@] == JsonView::Text(t)
            &&& after.contains_key("quota_scope"@)
            &&& week ==> after["quota_scope"@] == JsonView::Text("weekly"@)
            &&& !week ==> after["quota_scope"@] == JsonView::Text("session"@)
            &&& with_main(quota, None, None) == quota
        }),
{
    reveal_strlit("remaining_percent");
    reveal_strlit("used_percent");
    reveal_strlit("reset_time");
    reveal_strlit("quota_scope");
    assert("remaining_percent"@.len() == 17 && "used_percent"@.len() == 12 && "reset_time"@.len()
        == 10 && "quota_scope"@.len() == 11);
}

/// A text is entered under its name where there is one.
pub proof fn a_text_is_entered_where_there_is_one(
    quota: Map<Seq<char>, JsonView>,
    name: Seq<char>,
    text: Seq<char>,
)
    ensures
        with_text(quota, name, None) == quota,
        with_text(quota, name, Some(text)) == quota.insert(name, JsonView::Text(text)),
{
}

// ---------------------------------------------------------------------------------------------
// A provider with a session of some hours
// ---------------------------------------------------------------------------------------------
/// What belongs to a product is named after it.
pub proof fn what_belongs_to_a_product_is_named_after_it(word: Seq<char>)
    ensures
        plugin_id_of(word) == word + "-code"@,
        refresh_url_of(word) == "https://platform."@ + word + ".com/v1/oauth/token"@,
        backup_prefix_of(word) == "."@ + word + ".json.backup."@,
        usage_command_of(word) == word + " /usage"@,
        log_hint_of(word) == "~/."@ + word + "/projects/**/*.jsonl"@,
        session_hint_of(word) == "~/."@ + word + "/projects/**/*.jsonl (session block)"@,
        CLAUDE_USAGE_URL@ == "https://api.anthropic.com/api/oauth/usage"@,
        CLAUDE_CLIENT_ID@ == "9d1c250a-e61b-44d9-88ed-5944d1962f5e"@,
        CLAUDE_SCOPES@ == "user:profile user:inference user:sessions:claude_code"@,
{
}

/// A session is five hours, in hours, in seconds and in nanoseconds.
pub proof fn a_session_is_five_hours()
    ensures
        SESSION_BLOCK_HOURS == 5,
        SESSION_SECONDS == 5 * 60 * 60,
        SESSION_NANOS == 5 * 60 * 60 * 1_000_000_000,
{
}

/// An answer counts as it is. A refusal asks for a login where its number is one of those for it, says
/// how long to wait where there were too many requests, and is told with its text otherwise.
pub proof fn a_refusal_is_told_by_its_number(
    code: u16,
    retry_after: Option<String>,
    body: String,
    message: String,
    url: Seq<char>,
    login: Set<u16>,
)
    ensures
        ({
            let told = crate::claude::reply_outcome(
                HttpReply::Status { code, retry_after, body },
                url,
                login,
            );
            &&& told is Err
            &&& told == Err::<JsonView, ClaudeErrorView>(ClaudeErrorView::AuthenticationRequired)
                <==> login.contains(code)
            &&& !login.contains(code) && code == 429 && retry_after is Some ==> told == Err::<
                JsonView,
                ClaudeErrorView,
            >(
                ClaudeErrorView::RateLimited {
                    retry_after: " (retry after "@ + retry_after->0@ + "s)"@,
                },
            )
            &&& !login.contains(code) && code == 429 && retry_after is None ==> told == Err::<
                JsonView,
                ClaudeErrorView,
            >(ClaudeErrorView::RateLimited { retry_after: ""@ })
            &&& !login.contains(code) && code != 429 ==> told == Err::<JsonView, ClaudeErrorView>(
                ClaudeErrorView::ApiRequest { url, message: body@ },
            )
        }),
        crate::claude::reply_outcome(HttpReply::NoJson(message), url, login) == Err::<
            JsonView,
            ClaudeErrorView,
        >(ClaudeErrorView::ApiRequest { url, message: message@ }),
        crate::claude::reply_outcome(HttpReply::Transport(message), url, login) == Err::<
            JsonView,
            ClaudeErrorView,
        >(ClaudeErrorView::ApiRequest { url, message: message@ }),
        ({
            let told = crate::codex::reply_outcome(
                HttpReply::Status { code, retry_after, body },
                url,
                login,
            );
            &&& login.contains(code) ==> told == Err::<JsonView, CodexErrorView>(
                CodexErrorView::AuthenticationRequired,
            )
            &&& !login.contains(code) ==> told == Err::<JsonView, CodexErrorView>(
                CodexErrorView::ApiRequest { url, message: body@ },
            )
        }),
        crate::codex::reply_outcome(HttpReply::NoJson(message), url, login) == Err::<
            JsonView,
            CodexErrorView,
        >(CodexErrorView::ApiRequest { url, message: message@ }),
        crate::codex::reply_outcome(HttpReply::Transport(message), url, login) == Err::<
            JsonView,
            CodexErrorView,
        >(CodexErrorView::ApiRequest { url, message: message@ }),
{
}

/// Renewed credentials last from now on for as many seconds as the answer says, in milliseconds, where
/// they said so before.
pub proof fn renewed_credentials_last_from_now(
    credentials: JsonView,
    refreshed: JsonView,
    now_ms: i64,
    seconds: i64,
)
    requires
        lifetime(refreshed) == Some(seconds),
        i64::MIN <= now_ms + 1000 * seconds <= i64::MAX,
    ensures
        ({
            let edits = expiry_edit(credentials, refreshed, now_ms);
            &&& field2(credentials, "claudeAiOauth"@, "expiresAt"@) is None ==> edits.len() == 0
            &&& field2(credentials, "claudeAiOauth"@, "expiresAt"@) is Some ==> edits.len() == 1
                && edits[0].outer == Some("claudeAiOauth"@) && edits[0].field == "expiresAt"@
                && edits[0].value == EditValueView::Integer((now_ms + 1000 * seconds) as i64)
        }),
{
}

/// Credentials are renewed exactly where the answer has a token in it.
pub proof fn credentials_are_renewed_by_a_token(
    word: Seq<char>,
    credentials: JsonView,
    refreshed: JsonView,
    now_ms: i64,
    now: Timestamp,
)
    ensures
        refresh_outcome(word, credentials, refreshed, now_ms) is Ok <==> filled_text(
            field_of(refreshed, "access_token"@),
        ) is Some,
        crate::codex::refresh_outcome(credentials, refreshed, now) is Ok <==> filled_text(
            field_of(refreshed, "access_token"@),
        ) is Some,
        refresh_outcome(word, credentials, refreshed, now_ms) matches Err(e) ==> e
            == (ClaudeErrorView::ApiRequest {
            url: "https://platform."@ + word + ".com/v1/oauth/token"@,
            message: "refresh response did not contain access_token"@,
        }),
{
}

/// A window is read from the entry of its name: what is used, and when it ends.
pub proof fn a_window_is_read_from_its_entry(value: JsonView, name: Seq<char>)
    ensures
        window_at(value, name) matches Some(w) ==> field_of(value, name) is Some && bits_in(
            field_of(field_of(value, name)->0, "utilization"@),
        ) == Some(w.used_bits) && w.reset_time == filled_text(
            field_of(field_of(value, name)->0, "resets_at"@),
        ),
        window_at(value, name) is None <==> field_of(value, name) is None || bits_in(
            field_of(field_of(value, name)->0, "utilization"@),
        ) is None,
{
}

/// The plan is the subscription, and the tier where there is none.
pub proof fn the_subscription_goes_before_the_tier(
    subscription: Option<Seq<char>>,
    tier: Option<Seq<char>>,
)
    ensures
        subscription matches Some(s) && s.len() > 0 ==> plan_of(subscription, tier) == subscription,
        (subscription is None || subscription->0.len() == 0) && tier is Some && tier->0.len() > 0
            ==> plan_of(subscription, tier) == tier,
        plan_of(subscription, tier) is None <==> (subscription is None || subscription->0.len() == 0)
            && (tier is None || tier->0.len() == 0),
{
}

/// A record joins the running session where it comes within five hours of the last one and of the
/// start; its tokens are added. Otherwise it starts a session at its full hour with its own tokens.
pub proof fn a_record_joins_the_running_session(s: Session, record: TokenRecord)
    ensures
        ({
            let joins = span(s.last, record.at) <= 18_000_000_000_000 && span(s.start, record.at)
                <= 18_000_000_000_000;
            let after = session_after(Some(s), record);
            &&& after.last == record.at
            &&& joins ==> after.start == s.start && (s.tokens + record.tokens <= u64::MAX
                ==> after.tokens == s.tokens + record.tokens)
            &&& !joins ==> after.start == hour_of(record.at) && after.tokens == record.tokens
            &&& session_after(None, record) == (Session {
                start: hour_of(record.at),
                tokens: record.tokens,
                last: record.at,
            })
        }),
{
}

/// A session starts at a full hour that is no more than an hour before its first record.
pub proof fn a_session_starts_at_a_full_hour(t: Timestamp)
    requires
        -9_000_000_000_000 < t.secs,
    ensures
        hour_of(t).secs as int % 3600 == 0,
        hour_of(t).secs <= t.secs < hour_of(t).secs + 3600,
        hour_of(t).nanos == 0,
{
}

/// A session runs until five hours after its start, and only then is it told.
pub proof fn a_session_runs_for_five_hours(records: Seq<TokenRecord>, now: Timestamp)
    requires
        last_session(records) matches Some(s) && s.start.secs + 18_000 <= i64::MAX,
    ensures
        ({
            let s = last_session(records)->0;
            let end = Timestamp { secs: (s.start.secs + 18_000) as i64, nanos: s.start.nanos };
            &&& running_session(records, now) is Some <==> earlier(now, end)
            &&& running_session(records, now) matches Some(block) ==> block.end == end
                && block.tokens_used == s.tokens
        }),
{
}

/// The tokens of a record are those that went in, came out, and were kept or taken from what was kept.
pub proof fn all_four_counts_are_tokens(usage: JsonView)
    ensures
        ({
            let sum = tokens_at(usage, "input_tokens"@) + tokens_at(usage, "output_tokens"@)
                + tokens_at(usage, "cache_creation_input_tokens"@) + tokens_at(
                usage,
                "cache_read_input_tokens"@,
            );
            &&& sum <= u64::MAX ==> total_tokens(usage) == sum
            &&& sum > u64::MAX ==> total_tokens(usage) == u64::MAX
        }),
        forall|key: Seq<char>, n: NumberView|
            field_of(usage, key) == Some(JsonView::Number(n)) && n.unsigned is Some ==> #[trigger] tokens_at(
                usage,
                key,
            ) == (#[trigger] n.unsigned)->0,
        forall|key: Seq<char>| field_of(usage, key) is None ==> #[trigger] tokens_at(usage, key) == 0,
{
}

/// A line counts as a record where an assistant speaks, at a time, with tokens.
pub proof fn records_are_of_the_assistant(value: JsonView)
    ensures
        record_in(value) matches Some(record) ==> {
            &&& field_of(value, "type"@) == Some(JsonView::Text("assistant"@))
            &&& field_of(value, "timestamp"@) is Some
            &&& field_of(value, "timestamp"@)->0 is Text
            &&& rfc3339_instant(field_of(value, "timestamp"@)->0->Text_0) == Some(record.at)
            &&& field2(value, "message"@, "usage"@) is Some
            &&& record.tokens == total_tokens(field2(value, "message"@, "usage"@)->0)
        },
        field_of(value, "type"@) == Some(JsonView::Text("assistant"@)) && (field_of(
            value,
            "timestamp"@,
        ) matches Some(JsonView::Text(time)) && rfc3339_instant(time) is Some) && field2(
            value,
            "message"@,
            "usage"@,
        ) is Some ==> record_in(value) is Some,
{
}

/// Lines are read one after the other; those that are no records are passed over.
pub proof fn lines_are_read_in_turn(lines: Seq<Seq<char>>, line: Seq<char>)
    ensures
        records_in(Seq::<Seq<char>>::empty()).len() == 0,
        ({
            let record = match json_of_text(line) {
                Ok(value) => record_in(value),
                Err(_) => None,
            };
            &&& record is Some ==> records_in(lines.push(line)) == records_in(lines).push(record->0)
            &&& record is None ==> records_in(lines.push(line)) == records_in(lines)
        }),
{
    assert(lines.push(line).drop_last() == lines);
}

/// A plan has its limit whatever the case of its letters and however its words are joined.
pub proof fn a_plan_has_its_limit(plan: Seq<char>)
    ensures
        ({
            let name = without_joiners(lower_of(plan));
            &&& limit_of(Some(plan)) == Some(19_000u64) <==> name == "pro"@
            &&& limit_of(Some(plan)) == Some(88_000u64) <==> name == "max"@ || name == "max5"@ || name
                == "max5x"@
            &&& limit_of(Some(plan)) == Some(220_000u64) <==> name == "max20"@ || name == "max20x"@
            &&& limit_of(Some(plan)) is Some ==> limit_of(Some(plan)) == Some(19_000u64) || limit_of(
                Some(plan),
            ) == Some(88_000u64) || limit_of(Some(plan)) == Some(220_000u64)
            &&& limit_of(None) is None
        }),
        forall|i: int|
            0 <= i < without_joiners(plan).len() ==> (#[trigger] without_joiners(plan)[i]) != '_'
                && without_joiners(plan)[i] != '-' && without_joiners(plan)[i] != ' ',
{
    reveal_strlit("pro");
    reveal_strlit("max");
    reveal_strlit("max5");
    reveal_strlit("max5x");
    reveal_strlit("max20");
    reveal_strlit("max20x");
    assert("pro"@.len() == 3 && "max"@.len() == 3 && "max5"@.len() == 4 && "max5x"@.len() == 5
        && "max20"@.len() == 5 && "max20x"@.len() == 6);
    assert("pro"@[0] == 'p' && "max"@[0] == 'm' && "max5x"@[3] == '5' && "max20"@[3] == '2');
    let kept = without_joiners(plan);
    assert forall|i: int| 0 <= i < kept.len() implies (#[trigger] kept[i]) != '_' && kept[i] != '-'
        && kept[i] != ' ' by {
        plan.lemma_filter_pred(|c: char| !crate::claude::is_joiner(c), i);
    }
}

/// A time of day with its half has an hour from zero to twenty-three: twelve is the start of its half,
/// and the second half is twelve hours later.
pub proof fn the_second_half_of_the_day_is_later(groups: Seq<Option<Seq<char>>>)
    ensures
        clock_of(groups) matches Some(t) ==> {
            let hour = unsigned_of(groups[1]->0, u32::MAX as nat)->0;
            &&& groups.len() > 3 && groups[1] is Some && groups[3] is Some
            &&& lower_of(groups[3]->0) == "pm"@ ==> t.hour == hour % 12 + 12
            &&& lower_of(groups[3]->0) != "pm"@ ==> t.hour == hour % 12
            &&& groups[2] is None ==> t.minute == 0
            &&& groups[2] matches Some(m) ==> unsigned_of(m, u32::MAX as nat) == Some(
                t.minute as nat,
            )
            &&& t.minute < 60
        },
{
}

/// A line tells of a limit where it has a time and a text, and either its error or the text speaks of
/// the limit.
pub proof fn a_line_tells_of_a_limit(value: JsonView)
    ensures
        hint_in(value) matches Some(hint) ==> {
            &&& field_of(value, "timestamp"@) == Some(JsonView::Text(hint.timestamp))
            &&& message_text(value) is Some
            &&& hint.reset == reset_in(message_text(value)->0)
            &&& field_of(value, "error"@) == Some(JsonView::Text("rate_limit"@)) || has_part(
                lower_of(message_text(value)->0),
                "hit your limit"@,
            )
        },
        (field_of(value, "timestamp"@) matches Some(JsonView::Text(_))) && message_text(value)
            is Some && (field_of(value, "error"@) == Some(JsonView::Text("rate_limit"@))
            || has_part(lower_of(message_text(value)->0), "hit your limit"@)) ==> hint_in(value)
            is Some,
{
}

/// The text of a message is the first one among its parts.
pub proof fn the_first_text_of_a_message_counts(items: Seq<JsonView>, from: int)
    requires
        0 <= from,
    ensures
        match first_text(items, from) {
            Some(text) => exists|i: int|
                from <= i < items.len() && field_of(#[trigger] items[i], "text"@) == Some(
                    JsonView::Text(text),
                ) && forall|j: int|
                    from <= j < i ==> !(field_of(#[trigger] items[j], "text"@) matches Some(
                        JsonView::Text(_),
                    )),
            None => forall|j: int|
                from <= j < items.len() ==> !(field_of(#[trigger] items[j], "text"@) matches Some(
                    JsonView::Text(_),
                )),
        },
    decreases items.len() - from,
{
    if from < items.len() && !(field_of(items[from], "text"@) matches Some(JsonView::Text(_))) {
        the_first_text_of_a_message_counts(items, from + 1);
        if let Some(text) = first_text(items, from + 1) {
            let i = choose|i: int|
                from + 1 <= i < items.len() && field_of(#[trigger] items[i], "text"@) == Some(
                    JsonView::Text(text),
                ) && forall|j: int|
                    from + 1 <= j < i ==> !(field_of(#[trigger] items[j], "text"@) matches Some(
                        JsonView::Text(_),
                    ));
            assert(field_of(items[i], "text"@) == Some(JsonView::Text(text)));
            assert forall|j: int| from <= j < i implies !(field_of(
                #[trigger] items[j],
                "text"@,
            ) matches Some(JsonView::Text(_))) by {
            }
        }
    } else if from < items.len() {
        assert(field_of(items[from], "text"@) == Some(
            JsonView::Text(first_text(items, from)->0),
        ));
    }
}

/// What a line tells of a limit.
pub open spec fn told_by(line: Seq<char>) -> Option<HintView> {
    match json_of_text(line) {
        Ok(value) => hint_in(value),
        Err(_) => None,
    }
}

/// Of several lines that tell of a limit the latest counts.
pub proof fn the_latest_word_on_a_limit_counts(lines: Seq<Seq<char>>)
    ensures
        latest_hint(lines) matches Some(hint) ==> exists|i: int|
            0 <= i < lines.len() && #[trigger] told_by(lines[i]) == Some(hint),
        forall|i: int|
            0 <= i < lines.len() ==> (#[trigger] told_by(lines[i]) matches Some(other)
                ==> latest_hint(lines) is Some && !text_lt(
                latest_hint(lines)->0.timestamp,
                other.timestamp,
            )),
    decreases lines.len(),
{
    if lines.len() > 0 {
        let front = lines.drop_last();
        the_latest_word_on_a_limit_counts(front);
        let n = front.len() as int;
        assert(lines[n] == lines.last());
        if let Some(hint) = latest_hint(lines) {
            if latest_hint(front) == Some(hint) {
                let i = choose|i: int|
                    0 <= i < front.len() && #[trigger] told_by(front[i]) == Some(hint);
                assert(told_by(lines[i]) == Some(hint));
            } else {
                assert(told_by(lines[n]) == Some(hint));
            }
            crate::text::lemma_text_lt_irreflexive(hint.timestamp);
        }
        assert forall|i: int| 0 <= i < lines.len() implies (#[trigger] told_by(
            lines[i],
        ) matches Some(other) ==> latest_hint(lines) is Some && !text_lt(
            latest_hint(lines)->0.timestamp,
            other.timestamp,
        )) by {
            if let Some(other) = told_by(lines[i]) {
                if i < n {
                    assert(told_by(front[i]) == Some(other));
                    let a = latest_hint(front)->0.timestamp;
                    let b = latest_hint(lines)->0.timestamp;
                    if text_lt(b, other.timestamp) && a != b {
                        crate::text::lemma_text_lt_transitive(a, b, other.timestamp);
                    }
                }
            }
        }
    }
}

/// A word on a limit holds for the five hours after it.
pub proof fn a_word_on_a_limit_holds_for_five_hours(time: Seq<char>, now: Timestamp)
    ensures
        within_session(time, now) <==> rfc3339_instant(time) is Some && span(
            rfc3339_instant(time)->0,
            now,
        ) <= 18_000_000_000_000,
{
}

/// What a terminal shows has no control characters and no white space left in it.
pub proof fn what_is_shown_has_no_space_left(raw: Seq<char>)
    ensures
        forall|i: int|
            0 <= i < collapsed(raw).len() ==> !is_space(#[trigger] collapsed(raw)[i])
                && !is_control(collapsed(raw)[i]),
{
    let kept = crate::claude::stripped(
        crate::claude::STRAY_PATTERN@,
        crate::claude::stripped(
            crate::claude::CSI_PATTERN@,
            crate::claude::stripped(crate::claude::OSC_PATTERN@, raw),
        ),
    );
    assert forall|i: int| 0 <= i < collapsed(raw).len() implies !is_space(
        #[trigger] collapsed(raw)[i],
    ) && !is_control(collapsed(raw)[i]) by {
        kept.lemma_filter_pred(|c: char| crate::claude::shows(c), i);
    }
}

/// A printed percentage is of what is used or of what is left, as the word with it says, and the other
/// of the two is the rest.
pub proof fn a_printed_percentage_says_what_it_is_of(
    value: NumberView,
    word: Seq<char>,
    rest: NumberView,
)
    ensures
        ({
            let q = with_printed(
                Map::empty(),
                Some(PrintedPercentView { value: Some(value), word }),
                rest,
            );
            &&& word == "used"@ ==> q["used_percent"@] == JsonView::Number(value)
                && q["remaining_percent"@] == JsonView::Number(rest)
            &&& word == "left"@ ==> q["remaining_percent"@] == JsonView::Number(value)
                && q["used_percent"@] == JsonView::Number(rest)
            &&& word != "used"@ && word != "left"@ ==> q == Map::<Seq<char>, JsonView>::empty()
            &&& with_printed(Map::empty(), None, rest) == Map::<Seq<char>, JsonView>::empty()
        }),
{
    reveal_strlit("used");
    reveal_strlit("left");
    reveal_strlit("used_percent");
    reveal_strlit("remaining_percent");
    assert("used"@[0] == 'u' && "left"@[0] == 'l');
    assert("used_percent"@.len() == 12 && "remaining_percent"@.len() == 17);
}

// ---------------------------------------------------------------------------------------------
// A provider with tokens in a file
// ---------------------------------------------------------------------------------------------
/// Where the provider is asked, and as whom.
pub proof fn the_provider_is_asked_at_its_address()
    ensures
        CODEX_PLUGIN_ID@ == "codex"@,
        CODEX_USAGE_URL@ == "https://chatgpt.com/backend-api/wham/usage"@,
        CODEX_REFRESH_URL@ == "https://auth.openai.com/oauth/token"@,
        CODEX_CLIENT_ID@ == "app_EMoamEEZ73f0CkXaXp7hrann"@,
        GEMINI_PLUGIN_ID@ == "gemini"@,
        CODE_ASSIST_ENDPOINT@ == "https://cloudcode-pa.googleapis.com/v1internal"@,
{
}

/// A request carries the token, and the account where it is known.
pub proof fn a_request_carries_the_token(token: Seq<char>, account: Option<Seq<char>>)
    ensures
        usage_headers(token, account)[0] == ("Authorization"@, "Bearer "@ + token),
        usage_headers(token, account)[1] == ("Accept"@, "application/json"@),
        usage_headers(token, account)[2] == ("User-Agent"@, "aswitch"@),
        account is None ==> usage_headers(token, account).len() == 3,
        account matches Some(id) ==> usage_headers(token, account).len() == 4 && usage_headers(
            token,
            account,
        )[3] == ("ChatGPT-Account-Id"@, id),
        method_headers(token).contains(("Authorization"@, "Bearer "@ + token)),
        method_headers(token).contains(("Content-Type"@, "application/json"@)),
        method_headers(token).len() == 2,
{
    assert(method_headers(token)[0] == ("Content-Type"@, "application/json"@));
    assert(method_headers(token)[1] == ("Authorization"@, "Bearer "@ + token));
}

/// The value of a hexadecimal digit.
pub open spec fn hex_value(c: char) -> int {
    if '0' <= c <= '9' {
        c as int - '0' as int
    } else {
        c as int - 'A' as int + 10
    }
}

/// In a form, letters, digits and four marks stand for themselves; any other byte is written as a
/// percent sign and the two digits of its number, of which the higher one comes first.
pub proof fn a_byte_is_written_as_itself_or_as_its_number(bytes: Seq<u8>, b: u8)
    ensures
        percent_encoded(Seq::<u8>::empty()).len() == 0,
        is_plain(b) ==> percent_encoded(bytes.push(b)) == percent_encoded(bytes).push(b as char),
        !is_plain(b) ==> {
            let after = percent_encoded(bytes.push(b));
            let n = percent_encoded(bytes).len() as int;
            &&& after.len() == n + 3
            &&& after.subrange(0, n) == percent_encoded(bytes)
            &&& after[n] == '%'
            &&& hex_value(after[n + 1]) * 16 + hex_value(after[n + 2]) == b
        },
        is_plain(b) <==> (0x30 <= b <= 0x39) || (0x41 <= b <= 0x5a) || (0x61 <= b <= 0x7a) || b
            == 0x2d || b == 0x5f || b == 0x2e || b == 0x7e,
{
    assert(bytes.push(b).drop_last() == bytes);
    let after = percent_encoded(bytes.push(b));
    let n = percent_encoded(bytes).len() as int;
    if !is_plain(b) {
        assert(after[n + 1] == hex_digit((b / 16) as u8));
        assert(after[n + 2] == hex_digit((b % 16) as u8));
        assert(after.subrange(0, n) == percent_encoded(bytes));
    }
}

/// The form for new tokens names the client and carries the old token.
pub proof fn the_form_carries_the_old_token(token: Seq<char>)
    ensures
        refresh_form(token) == "grant_type=refresh_token&client_id="@
            + "app_EMoamEEZ73f0CkXaXp7hrann"@ + "&refresh_token="@ + percent_encoded(
            vstd::utf8::encode_utf8(token),
        ),
{
}

/// The time of renewal is noted where one was noted before.
pub proof fn the_time_of_renewal_is_noted(credentials: JsonView, now: Timestamp)
    ensures
        field_of(credentials, "last_refresh"@) is None ==> refresh_time_edit(credentials, now).len()
            == 0,
        field_of(credentials, "last_refresh"@) is Some && rfc3339_of(now.secs, now.nanos) is Some
            ==> refresh_time_edit(credentials, now) == seq![
            EditView {
                outer: None,
                field: "last_refresh"@,
                value: EditValueView::Text(rfc3339_of(now.secs, now.nanos)->0),
            },
        ],
{
}

/// A window ends at the second that is given for it, and only where none is given after the seconds
/// that are left.
pub proof fn a_given_end_goes_before_the_time_left(window: JsonView, now: Timestamp)
    ensures
        whole_field(window, "reset_at"@) matches Some(secs) ==> reset_of(window, now)
            == second_text(secs),
        whole_field(window, "reset_at"@) is None ==> (whole_field(
            window,
            "reset_after_seconds"@,
        ) matches Some(secs) ==> reset_of(window, now) == later_text(now, secs)),
        whole_field(window, "reset_at"@) is None && whole_field(window, "reset_after_seconds"@)
            is None ==> reset_of(window, now) is None,
        second_text(None) is None,
        later_text(now, None) is None,
{
}

/// A number is a number or a text that writes one; a text that is no number is none.
pub proof fn numbers_may_be_written_as_texts(value: JsonView)
    ensures
        number_in(value) is Some ==> value is Number || value is Text,
        value matches JsonView::Text(s) ==> number_in(value) == decimal_number(s),
        value matches JsonView::Number(n) ==> number_in(value) == decimal_number(n.text),
        whole_in(value) is Some <==> number_in(value) is Some,
        number_in(value) matches Some(Some(n)) ==> whole_in(value) == Some(n.whole),
{
}

/// A window of an answer is read under the limits, with what is used and when it ends.
pub proof fn a_window_is_read_under_the_limits(value: JsonView, name: Seq<char>, now: Timestamp)
    ensures
        api_window(value, name, now) matches Some(w) ==> {
            let entry = field2(value, "rate_limit"@, name);
            &&& entry is Some
            &&& bits_in(field_of(entry->0, "used_percent"@)) == Some(w.used_bits)
            &&& w.reset_time == reset_of(entry->0, now)
        },
        api_window(value, name, now) is None <==> field2(value, "rate_limit"@, name) is None
            || bits_in(field_of(field2(value, "rate_limit"@, name)->0, "used_percent"@)) is None,
        log_window(value, name) matches Some(w) ==> field_of(value, name) is Some && bits_in(
            field_of(field_of(value, name)->0, "used_percent"@),
        ) == Some(w.used_bits),
{
}

/// The balance is entered where the answer has one.
pub proof fn the_balance_is_entered(quota: Map<Seq<char>, JsonView>, value: JsonView)
    ensures
        field2(value, "credits"@, "balance"@) is None ==> with_balance(quota, value) == quota,
        field2(value, "credits"@, "balance"@) matches Some(v) ==> (number_in(v) matches Some(Some(n))
            ==> with_balance(quota, value) == quota.insert(
            "credits_balance"@,
            JsonView::Number(n),
        )),
{
}

/// A line of a log tells of the limits where it is an event that counts tokens; the first window is
/// that of the session, the second that of the week.
pub proof fn events_that_count_tokens_tell_of_limits(value: JsonView)
    ensures
        limits_in(value) matches Some(line) ==> {
            let limits = field2(value, "payload"@, "rate_limits"@);
            &&& field_of(value, "type"@) == Some(JsonView::Text("event_msg"@))
            &&& field2(value, "payload"@, "type"@) == Some(JsonView::Text("token_count"@))
            &&& field_of(value, "timestamp"@) == Some(JsonView::Text(line.timestamp))
            &&& limits is Some
            &&& line.session == log_window(limits->0, "primary"@)
            &&& line.weekly == log_window(limits->0, "secondary"@)
            &&& field2(value, "payload"@, "plan_type"@) is None ==> line.plan is None
            &&& field2(value, "payload"@, "plan_type"@) matches Some(v) ==> line.plan == text_in(v)
        },
        field_of(value, "type"@) == Some(JsonView::Text("event_msg"@)) && field2(
            value,
            "payload"@,
            "type"@,
        ) == Some(JsonView::Text("token_count"@)) && (field_of(value, "timestamp"@) matches Some(
            JsonView::Text(_),
        )) && field2(value, "payload"@, "rate_limits"@) is Some ==> limits_in(value) is Some,
{
}

/// The limits that a line tells of.
pub open spec fn limits_told_by(line: Seq<char>) -> Option<LimitLineView> {
    match json_of_text(line) {
        Ok(value) => limits_in(value),
        Err(_) => None,
    }
}

/// Of several lines that tell of limits the latest counts.
pub proof fn the_latest_limits_count(lines: Seq<Seq<char>>)
    ensures
        latest_line(lines) matches Some(told) ==> exists|i: int|
            0 <= i < lines.len() && #[trigger] limits_told_by(lines[i]) == Some(told),
        forall|i: int|
            0 <= i < lines.len() ==> (#[trigger] limits_told_by(lines[i]) matches Some(other)
                ==> latest_line(lines) is Some && !text_lt(
                latest_line(lines)->0.timestamp,
                other.timestamp,
            )),
    decreases lines.len(),
{
    if lines.len() > 0 {
        let front = lines.drop_last();
        the_latest_limits_count(front);
        let n = front.len() as int;
        assert(lines[n] == lines.last());
        if let Some(told) = latest_line(lines) {
            if latest_line(front) == Some(told) {
                let i = choose|i: int|
                    0 <= i < front.len() && #[trigger] limits_told_by(front[i]) == Some(told);
                assert(limits_told_by(lines[i]) == Some(told));
            } else {
                assert(limits_told_by(lines[n]) == Some(told));
            }
            crate::text::lemma_text_lt_irreflexive(told.timestamp);
        }
        assert forall|i: int| 0 <= i < lines.len() implies (#[trigger] limits_told_by(
            lines[i],
        ) matches Some(other) ==> latest_line(lines) is Some && !text_lt(
            latest_line(lines)->0.timestamp,
            other.timestamp,
        )) by {
            if let Some(other) = limits_told_by(lines[i]) {
                if i < n {
                    assert(limits_told_by(front[i]) == Some(other));
                    let a = latest_line(front)->0.timestamp;
                    let b = latest_line(lines)->0.timestamp;
                    if text_lt(b, other.timestamp) && a != b {
                        crate::text::lemma_text_lt_transitive(a, b, other.timestamp);
                    }
                }
            }
        }
    }
}

// ---------------------------------------------------------------------------------------------
// A provider with buckets
// ---------------------------------------------------------------------------------------------
/// The project is the one that the answer names, and the tier is the one that is paid for, or the
/// present one where none is.
pub proof fn the_paid_tier_goes_before_the_present_one(value: JsonView)
    ensures
        filled_text(field2(value, "paidTier"@, "name"@)) is Some ==> info_in(value).tier_name
            == filled_text(field2(value, "paidTier"@, "name"@)),
        filled_text(field2(value, "paidTier"@, "name"@)) is None ==> info_in(value).tier_name
            == filled_text(field2(value, "currentTier"@, "name"@)),
        field_of(value, "cloudaicompanionProject"@) is None ==> info_in(value).project_id is None,
        field_of(value, "cloudaicompanionProject"@) matches Some(v) ==> info_in(value).project_id
            == text_in(v),
{
}

/// What is left of a bucket, where it says so.
pub open spec fn left_of(bucket: JsonView) -> Option<u64> {
    bits_in(field_of(bucket, "remainingFraction"@))
}

/// Exactly the buckets that say what is left of them are counted.
pub proof fn buckets_that_say_what_is_left_count(buckets: Seq<JsonView>, bits: u64)
    ensures
        fractions_in(buckets).contains(bits) <==> exists|i: int|
            0 <= i < buckets.len() && #[trigger] left_of(buckets[i]) == Some(bits),
    decreases buckets.len(),
{
    if buckets.len() > 0 {
        let front = buckets.drop_last();
        buckets_that_say_what_is_left_count(front, bits);
        let before = fractions_in(front);
        let all = fractions_in(buckets);
        assert(buckets[buckets.len() - 1] == buckets.last());
        if before.contains(bits) {
            let k = choose|k: int| 0 <= k < before.len() && before[k] == bits;
            assert(all[k] == bits);
            let i = choose|i: int|
                0 <= i < front.len() && #[trigger] left_of(front[i]) == Some(bits);
            assert(left_of(buckets[i]) == Some(bits));
        }
        if all.contains(bits) {
            let k = choose|k: int| 0 <= k < all.len() && all[k] == bits;
            if k < before.len() {
                assert(before[k] == bits);
            } else {
                assert(left_of(buckets[buckets.len() - 1]) == Some(bits));
            }
        }
        if exists|i: int| 0 <= i < buckets.len() && #[trigger] left_of(buckets[i]) == Some(bits) {
            let i = choose|i: int|
                0 <= i < buckets.len() && #[trigger] left_of(buckets[i]) == Some(bits);
            if i < front.len() {
                assert(left_of(front[i]) == Some(bits));
            } else {
                assert(all[all.len() - 1] == bits);
            }
        }
    }
}

/// Whether a bucket that counts ends at a time.
pub open spec fn ends_at(bucket: JsonView, time: Seq<char>) -> bool {
    left_of(bucket) is Some && field_of(bucket, "resetTime"@) == Some(JsonView::Text(time))
}

/// The end of the allowance is the latest end of the buckets that count.
pub proof fn the_latest_end_of_a_bucket_counts(buckets: Seq<JsonView>)
    ensures
        latest_reset_in(buckets) matches Some(time) ==> exists|i: int|
            0 <= i < buckets.len() && ends_at(#[trigger] buckets[i], time),
        forall|i: int, time: Seq<char>|
            0 <= i < buckets.len() && #[trigger] ends_at(buckets[i], time) ==> latest_reset_in(
                buckets,
            ) is Some && !text_lt(latest_reset_in(buckets)->0, time),
    decreases buckets.len(),
{
    if buckets.len() > 0 {
        let front = buckets.drop_last();
        let n = front.len() as int;
        the_latest_end_of_a_bucket_counts(front);
        assert(buckets[n] == buckets.last());
        if let Some(time) = latest_reset_in(buckets) {
            if latest_reset_in(front) == Some(time) {
                let i = choose|i: int| 0 <= i < front.len() && ends_at(#[trigger] front[i], time);
                assert(ends_at(buckets[i], time));
            } else {
                assert(ends_at(buckets[n], time));
            }
            crate::text::lemma_text_lt_irreflexive(time);
        }
        assert forall|i: int, time: Seq<char>|
            0 <= i < buckets.len() && #[trigger] ends_at(buckets[i], time) implies latest_reset_in(
            buckets,
        ) is Some && !text_lt(latest_reset_in(buckets)->0, time) by {
            if i < n {
                assert(ends_at(front[i], time));
                let a = latest_reset_in(front)->0;
                let b = latest_reset_in(buckets)->0;
                if text_lt(b, time) && a != b {
                    crate::text::lemma_text_lt_transitive(a, b, time);
                }
            }
        }
    }
}

/// The allowance tells the project and the plan, and of the buckets how many there are, what is left and
/// used of them, and when they end.
pub proof fn the_allowance_tells_of_the_buckets(
    project: Seq<char>,
    tier: Option<Seq<char>>,
    count: u64,
    end: Option<Seq<char>>,
    left: NumberView,
    used: NumberView,
)
    ensures
        ({
            let q = quota_entries(project, tier, Some((count, end)), Some((left, used)));
            &&& q["project_id"@] == JsonView::Text(project)
            &&& q["bucket_count"@] == JsonView::Number(count_number(count))
            &&& q["remaining_percent"@] == JsonView::Number(left)
            &&& q["used_percent"@] == JsonView::Number(used)
            &&& q.contains_key("plan"@) <==> tier is Some && tier->0.len() > 0
            &&& q.contains_key("plan"@) ==> q["plan"@] == JsonView::Text(tier->0)
            &&& q.contains_key("reset_time"@) <==> end is Some
            &&& end is Some ==> q["reset_time"@] == JsonView::Text(end->0)
        }),
        quota_entries(project, None, None, Some((left, used))) == Map::<
            Seq<char>,
            JsonView,
        >::empty().insert("project_id"@, JsonView::Text(project)),
{
    reveal_strlit("project_id");
    reveal_strlit("plan");
    reveal_strlit("bucket_count");
    reveal_strlit("remaining_percent");
    reveal_strlit("used_percent");
    reveal_strlit("reset_time");
    assert("project_id"@.len() == 10 && "plan"@.len() == 4 && "bucket_count"@.len() == 12
        && "remaining_percent"@.len() == 17 && "used_percent"@.len() == 12 && "reset_time"@.len()
        == 10);
    assert("project_id"@[0] == 'p' && "reset_time"@[0] == 'r' && "bucket_count"@[0] == 'b'
        && "used_percent"@[0] == 'u');
}

/// Control characters are those below the space and those between the two ranges of letters.
pub proof fn control_characters_are_in_two_ranges(c: char)
    ensures
        is_control(c) <==> (c as int) < 0x20 || 0x7f <= c as int <= 0x9f,
{
}

/// The time of day in a message is the one behind the word for it; a printed percentage has its number
/// and its word in small letters.
pub proof fn a_printed_percentage_has_its_number_and_word(groups: Seq<Option<Seq<char>>>)
    ensures
        percent_of(groups) matches Some(p) ==> groups.len() > 2 && groups[1] is Some && groups[2]
            is Some && decimal_number(groups[1]->0) == Some(p.value) && p.word == lower_of(
            groups[2]->0,
        ),
        groups.len() > 2 && groups[1] is Some && groups[2] is Some && decimal_number(groups[1]->0)
            is Some ==> percent_of(groups) is Some,
{
}

/// The end of the allowance is entered beside a printed percentage.
pub proof fn the_end_is_entered_beside_the_percentage(rest: NumberView, end: Seq<char>)
    ensures
        printed_entries(None, rest, Some(end)) == Map::<Seq<char>, JsonView>::empty().insert(
            "reset_time"@,
            JsonView::Text(end),
        ),
        printed_entries(None, rest, None) == Map::<Seq<char>, JsonView>::empty(),
{
}

/// What identifies the program to the provider with buckets stays unspecified but for the product.
pub proof fn the_request_for_the_project_names_the_product()
    ensures
        info_body().len() == 3,
        forall|i: int|
            0 <= i < 3 ==> (#[trigger] info_body()[i]).outer == Some("metadata"@),
        info_body()[0].field == "ideType"@ && info_body()[0].value == "IDE_UNSPECIFIED"@,
        info_body()[1].field == "platform"@ && info_body()[1].value == "PLATFORM_UNSPECIFIED"@,
        info_body()[2].field == "pluginType"@ && info_body()[2].value == "GEMINI"@,
{
}

/// A token of a credential is a text under its field that is not empty.
pub proof fn a_token_is_a_text_that_is_not_empty(credential: JsonView, field: Seq<char>, t: Seq<char>)
    ensures
        token_text(credential, field) == Some(t) <==> t.len() > 0 && field2(
            credential,
            "tokens"@,
            field,
        ) == Some(JsonView::Text(t)),
        oauth_text(credential, field) == Some(t) <==> t.len() > 0 && field2(
            credential,
            "claudeAiOauth"@,
            field,
        ) == Some(JsonView::Text(t)),
{
}

/// A field of a field is looked up step by step.
pub proof fn a_field_of_a_field_is_looked_up(value: JsonView, a: Seq<char>, b: Seq<char>)
    ensures
        field_of(value, a) is None ==> field2(value, a, b) is None,
        field_of(value, a) matches Some(inner) ==> field2(value, a, b) == field_of(inner, b),
{
}

/// A text that is not a number counts as zero where it says so, and otherwise there is no whole number.
pub proof fn a_sign_comes_off_what_is_no_number(s: Seq<char>)
    ensures
        number_in(JsonView::Text(s)) == Some(None::<NumberView>) ==> whole_in(JsonView::Text(s))
            == Some(if lower_of(unsigned_text(s)) == "nan"@ {
            Some(0i64)
        } else {
            None
        }),
        s.len() == 0 || (s[0] != '+' && s[0] != '-') ==> unsigned_text(s) == s,
        s.len() > 0 && (s[0] == '+' || s[0] == '-') ==> unsigned_text(s) == s.subrange(
            1,
            s.len() as int,
        ),
{
    reveal_strlit("+");
    reveal_strlit("-");
    assert("+"@ == seq!['+']);
    assert("-"@ == seq!['-']);
    if s.len() > 0 {
        assert(s.subrange(0, 1) == seq![s[0]]);
        if s[0] == '+' {
            assert(s.subrange(0, 1) == "+"@);
        } else {
            assert(s.subrange(0, 1)[0] != '+');
            if s[0] == '-' {
                assert(s.subrange(0, 1) == "-"@);
            } else {
                assert(s.subrange(0, 1)[0] != '-');
            }
        }
    }
}

/// Of two numbers the smaller is told by the order of their bits, which is reversed for those below
/// zero.
pub proof fn numbers_are_compared_by_their_bits(a: u64, b: u64)
    ensures
        a < 0x8000_0000_0000_0000 && b < 0x8000_0000_0000_0000 ==> (order_key(a) <= order_key(b)
            <==> a <= b),
        a >= 0x8000_0000_0000_0000 && b >= 0x8000_0000_0000_0000 ==> (order_key(a) <= order_key(b)
            <==> b <= a),
        a >= 0x8000_0000_0000_0000 && b < 0x8000_0000_0000_0000 ==> order_key(a) <= order_key(b),
{
}

/// Records are taken one after the other, each into the session that runs then.
pub proof fn records_are_taken_in_turn(records: Seq<TokenRecord>, record: TokenRecord)
    ensures
        last_session(Seq::<TokenRecord>::empty()) is None,
        last_session(records.push(record)) == Some(session_after(last_session(records), record)),
{
    assert(records.push(record).drop_last() == records);
}

/// A session fits where its end, five hours after its start, is in the calendar.
pub proof fn a_session_fits_where_its_end_does(records: Seq<TokenRecord>)
    ensures
        last_session(by_time(records)) is None ==> ends_in_calendar(records),
        last_session(by_time(records)) matches Some(s) ==> (ends_in_calendar(records) <==> s.start.secs
            + 18_000 <= 8_210_266_876_799),
{
}

/// The text of a message is looked for in the list of its contents, from the first on.
pub proof fn a_message_has_its_text_in_its_contents(value: JsonView)
    ensures
        field2(value, "message"@, "content"@) matches Some(JsonView::Array { items, .. })
            ==> message_text(value) == first_text(items, 0),
        !(field2(value, "message"@, "content"@) matches Some(JsonView::Array { .. }))
            ==> message_text(value) is None,
{
}

/// What tells the time of day in a message is the part that the pattern for it finds.
pub proof fn a_time_of_day_is_what_the_pattern_finds(text: Seq<char>)
    ensures
        groups_of(RESET_PATTERN@, text) is None ==> reset_in(text) is None,
        groups_of(RESET_PATTERN@, text) matches Some(groups) ==> (groups.len() > 1 && groups[1]
            is Some ==> reset_in(text) == meridiem_of(groups[1]->0)) && (groups.len() <= 1
            || groups[1] is None ==> reset_in(text) is None),
        groups_of(MERIDIEM_PATTERN@, text) is None ==> meridiem_of(text) is None,
        groups_of(MERIDIEM_PATTERN@, text) matches Some(groups) ==> meridiem_of(text) == clock_of(
            groups,
        ),
        clock_of(seq![]) is None,
{
}

/// What is printed of an allowance has a percentage and an end where the patterns for them find one;
/// nothing is known of what shows nothing.
pub proof fn what_shows_nothing_tells_nothing(shown: Seq<char>)
    ensures
        shown.len() == 0 ==> printed_in(shown) is None,
        shown.len() > 0 && groups_of(PERCENT_PATTERN@, shown) is None && groups_of(
            OUTPUT_RESET_PATTERN@,
            shown,
        ) is None ==> (printed_in(shown) matches Some(p) && p.percent is None && p.reset is None),
        printed_in(shown) matches Some(p) ==> (groups_of(PERCENT_PATTERN@, shown) matches Some(
            groups,
        ) ==> p.percent is Some && p.percent == percent_of(groups)),
        printed_in(shown) matches Some(p) ==> (groups_of(OUTPUT_RESET_PATTERN@, shown) matches Some(
            groups,
        ) ==> groups.len() > 1 && groups[1] is Some && p.reset == meridiem_of(groups[1]->0)),
{
}

/// The seconds that are left count from now on, as far as the calendar goes.
pub proof fn the_time_left_counts_from_now(now: Timestamp, secs: i64)
    requires
        now.nanos < 1_000_000_000,
    ensures
        -8_334_601_228_800 <= now.secs + secs <= 8_210_266_876_799 ==> later_text(now, Some(secs))
            == rfc3339_of((now.secs + secs) as i64, now.nanos),
        now.secs + secs < -8_334_601_228_800 || now.secs + secs > 8_210_266_876_799 ==> later_text(
            now,
            Some(secs),
        ) is None,
        -8_334_601_228_800 <= secs <= 8_210_266_876_799 ==> second_text(Some(secs)) == rfc3339_of(
            secs,
            0,
        ),
        secs < -8_334_601_228_800 || secs > 8_210_266_876_799 ==> second_text(Some(secs)) is None,
{
}

/// One number is at most another where both are known and the order says so, equal ones included.
pub proof fn equal_numbers_are_at_most_each_other(a: NumberView, b: NumberView)
    ensures
        a.bits is None || b.bits is None ==> !at_most(a, b),
        a.bits is Some && a.bits == b.bits ==> at_most(a, b),
        a.bits is Some && b.bits is Some && order_key(a.bits->0) < order_key(b.bits->0) ==> at_most(
            a,
            b,
        ) && !at_most(b, a),
{
}

/// Changes to a credential are made one after the other, and without any it stays as it is.
pub proof fn changes_are_made_one_after_the_other(
    credentials: JsonView,
    edits: Seq<EditView>,
    edit: EditView,
)
    ensures
        edited(credentials, Seq::<EditView>::empty()) == credentials,
        edited(credentials, edits.push(edit)) == edited_by(edited(credentials, edits), edit),
{
    assert(edits.push(edit).drop_last() == edits);
}

/// A token is replaced by a new one that is not empty, where there was one; else it stays.
pub proof fn a_token_stays_where_none_is_sent(
    credentials: JsonView,
    refreshed: JsonView,
    field: Seq<char>,
)
    ensures
        field_of(refreshed, field) is None ==> renewed(credentials, refreshed, field) == token_text(
            credentials,
            field,
        ),
        field2(credentials, "tokens"@, field) is None ==> renewed(credentials, refreshed, field)
            == token_text(credentials, field),
        field2(credentials, "tokens"@, field) is Some ==> (field_of(refreshed, field) matches Some(
            JsonView::Text(text),
        ) ==> text.len() > 0 ==> renewed(credentials, refreshed, field) == Some(text)),
{
}

} // verus!
