//! The allowance of an account of a coding assistant with sessions: what its service says, what its
//! terminal program prints, and what its session logs show. What the assistant is called is given.
use vstd::prelude::*;

use crate::json::{
    Json, JsonView, Number, NumberView, field_of, json_of_bytes, json_of_text, lemma_views_of, parse_bytes,
    parse_text, text_in, view_of,
};
use crate::pattern::{captures, group, group_of, groups_of, without_matches, without_matches_of};
use crate::quota::{
    CredentialEdit, EditValue, EditValueView, EditView, HttpReply, HttpRequest, WindowQuota,
    WindowReading, ReadingView, a_text_edit_is_read_back, all_used, an_inner_edit_is_read_back,
    bits_in, bits_of, edited, edits_are_made_in_order, field2, filled, filled_text,
    header_pairs, hundred_percent, inner_field, insert_main_window, insert_text, insert_window,
    not_empty, nothing_left, push_text_edit, text_edit, text_of, with_main, with_text, with_window,
    zero_percent,
};
use crate::text::{
    Order, ascii_lower, chars_of, contains, has_part, join2, join3, lower_of, order, parse_u64,
    same, text_lt, unsigned_of, whitespace, is_space, string_of,
};
use crate::text_map::{Duplicate, TextMap};
use crate::time::{
    LAST_SECOND, Timestamp, earlier, in_calendar, nanos_between, parse_rfc3339, remainder,
    rfc3339_instant, rfc3339_of, shift, shifted, span, write_rfc3339,
};
use crate::usage::filter::{decimal_number, number_of_decimal};

verus! {

/// What the assistant is called: the word in the names of its command, its files and its addresses, and
/// the name in messages.
pub struct Product {
    pub word: String,
    pub title: String,
}

pub open spec fn plugin_id_of(word: Seq<char>) -> Seq<char> {
    word + "-code"@
}

pub open spec fn refresh_url_of(word: Seq<char>) -> Seq<char> {
    "https://platform."@ + word + ".com/v1/oauth/token"@
}

pub open spec fn backup_prefix_of(word: Seq<char>) -> Seq<char> {
    "."@ + word + ".json.backup."@
}

pub open spec fn usage_command_of(word: Seq<char>) -> Seq<char> {
    word + " /usage"@
}

pub open spec fn log_hint_of(word: Seq<char>) -> Seq<char> {
    "~/."@ + word + "/projects/**/*.jsonl"@
}

pub open spec fn session_hint_of(word: Seq<char>) -> Seq<char> {
    "~/."@ + word + "/projects/**/*.jsonl (session block)"@
}

impl Product {
    /// The id of the plugin of the assistant.
    pub fn plugin_id(&self) -> (r: String)
        ensures
            r@ == plugin_id_of(self.word@),
    {
        join2(self.word.as_str(), "-code")
    }

    /// Where new tokens are asked for.
    pub fn refresh_url(&self) -> (r: String)
        ensures
            r@ == refresh_url_of(self.word@),
    {
        join3("https://platform.", self.word.as_str(), ".com/v1/oauth/token")
    }

    /// What the names of the backups of its settings start with.
    pub fn backup_prefix(&self) -> (r: String)
        ensures
            r@ == backup_prefix_of(self.word@),
    {
        join3(".", self.word.as_str(), ".json.backup.")
    }

    /// What is typed to have the usage printed.
    pub fn usage_command(&self) -> (r: String)
        ensures
            r@ == usage_command_of(self.word@),
    {
        join2(self.word.as_str(), " /usage")
    }

    /// Where the session logs are.
    pub fn log_hint(&self) -> (r: String)
        ensures
            r@ == log_hint_of(self.word@),
    {
        join3("~/.", self.word.as_str(), "/projects/**/*.jsonl")
    }

    /// What a session that was pieced together from the logs is said to come from.
    pub fn session_hint(&self) -> (r: String)
        ensures
            r@ == session_hint_of(self.word@),
    {
        join3("~/.", self.word.as_str(), "/projects/**/*.jsonl (session block)")
    }
}

pub const CLAUDE_USAGE_URL: &'static str = "https://api.anthropic.com/api/oauth/usage";

pub const CLAUDE_CLIENT_ID: &'static str = "9d1c250a-e61b-44d9-88ed-5944d1962f5e";

pub const CLAUDE_SCOPES: &'static str = "user:profile user:inference user:sessions:claude_code";

/// How long a session lasts, in hours.
pub const SESSION_BLOCK_HOURS: i64 = 5;

/// How long a session lasts, in seconds.
pub const SESSION_SECONDS: i64 = 18_000;

/// How long a session lasts, in nanoseconds.
pub const SESSION_NANOS: i128 = 18_000_000_000_000;

/// What a service said of an allowance, and the credential as it stands after a refresh.
pub struct ClaudeQuotaProbe {
    pub quota: TextMap<Json>,
    pub updated_credentials: Option<Vec<u8>>,
}

pub enum ClaudeError {
    ParseCredentials,
    MissingAccessToken,
    MissingRefreshToken,
    RateLimited { retry_after: String },
    AuthenticationRequired,
    ApiRequest { url: String, message: String },
}

pub enum ClaudeErrorView {
    ParseCredentials,
    MissingAccessToken,
    MissingRefreshToken,
    RateLimited { retry_after: Seq<char> },
    AuthenticationRequired,
    ApiRequest { url: Seq<char>, message: Seq<char> },
}

impl DeepView for ClaudeError {
    type V = ClaudeErrorView;

    open spec fn deep_view(&self) -> ClaudeErrorView {
        match *self {
            ClaudeError::ParseCredentials => ClaudeErrorView::ParseCredentials,
            ClaudeError::MissingAccessToken => ClaudeErrorView::MissingAccessToken,
            ClaudeError::MissingRefreshToken => ClaudeErrorView::MissingRefreshToken,
            ClaudeError::RateLimited { retry_after } => ClaudeErrorView::RateLimited {
                retry_after: retry_after@,
            },
            ClaudeError::AuthenticationRequired => ClaudeErrorView::AuthenticationRequired,
            ClaudeError::ApiRequest { url, message } => ClaudeErrorView::ApiRequest {
                url: url@,
                message: message@,
            },
        }
    }
}

impl ClaudeErrorView {
    /// The error in words; `title` is what the assistant is called.
    pub open spec fn text(self, title: Seq<char>) -> Seq<char> {
        match self {
            ClaudeErrorView::ParseCredentials => "failed to parse "@ + title + " credentials"@,
            ClaudeErrorView::MissingAccessToken => title
                + " credentials do not contain an access token"@,
            ClaudeErrorView::MissingRefreshToken => title
                + " credentials do not contain a refresh token"@,
            ClaudeErrorView::RateLimited { retry_after } => title + " usage API is rate limited"@
                + retry_after,
            ClaudeErrorView::AuthenticationRequired => title + " authentication is required"@,
            ClaudeErrorView::ApiRequest { url, message } => title + " API request to "@ + url
                + " failed: "@ + message,
        }
    }
}

impl ClaudeError {
    /// The error in words; `title` is what the assistant is called.
    pub fn message(&self, title: &str) -> (r: String)
        ensures
            r@ == self.deep_view().text(title@),
    {
        match self {
            ClaudeError::ParseCredentials => join3("failed to parse ", title, " credentials"),
            ClaudeError::MissingAccessToken => join2(
                title,
                " credentials do not contain an access token",
            ),
            ClaudeError::MissingRefreshToken => join2(
                title,
                " credentials do not contain a refresh token",
            ),
            ClaudeError::RateLimited { retry_after } => join3(
                title,
                " usage API is rate limited",
                retry_after.as_str(),
            ),
            ClaudeError::AuthenticationRequired => join2(title, " authentication is required"),
            ClaudeError::ApiRequest { url, message } => join3(
                join3(title, " API request to ", url.as_str()).as_str(),
                " failed: ",
                message.as_str(),
            ),
        }
    }
}

// ---------------------------------------------------------------------------------------------
// Asking the service
// ---------------------------------------------------------------------------------------------
/// A text inside the part of a credential that holds the tokens, where it is there and not empty.
pub open spec fn oauth_text(credentials: JsonView, field: Seq<char>) -> Option<Seq<char>> {
    filled_text(field2(credentials, "claudeAiOauth"@, field))
}

/// The request for the state of the allowance; it needs an access token.
pub fn usage_request(credentials: &Json) -> (r: Result<HttpRequest, ClaudeError>)
    ensures
        match oauth_text(credentials.deep_view(), "accessToken"@) {
            Some(token) => r matches Ok(request) && request.url@ == CLAUDE_USAGE_URL@
                && header_pairs(request.headers@) == seq![
                ("Authorization"@, "Bearer "@ + token),
                ("Accept"@, "application/json"@),
                ("Content-Type"@, "application/json"@),
                ("anthropic-beta"@, "oauth-2025-04-20"@),
                ("User-Agent"@, "aswitch"@),
            ],
            None => r matches Err(e) && e.deep_view() == ClaudeErrorView::MissingAccessToken,
        },
{
    match filled(inner_field(credentials, "claudeAiOauth", "accessToken")) {
        Some(token) => {
            let mut headers: Vec<(String, String)> = Vec::new();
            headers.push(("Authorization".to_owned(), join2("Bearer ", token.as_str())));
            headers.push(("Accept".to_owned(), "application/json".to_owned()));
            headers.push(("Content-Type".to_owned(), "application/json".to_owned()));
            headers.push(("anthropic-beta".to_owned(), "oauth-2025-04-20".to_owned()));
            headers.push(("User-Agent".to_owned(), "aswitch".to_owned()));
            assert(header_pairs(headers@) == seq![
                ("Authorization"@, "Bearer "@ + token@),
                ("Accept"@, "application/json"@),
                ("Content-Type"@, "application/json"@),
                ("anthropic-beta"@, "oauth-2025-04-20"@),
                ("User-Agent"@, "aswitch"@),
            ]);
            Ok(HttpRequest { url: CLAUDE_USAGE_URL.to_owned(), headers })
        },
        None => Err(ClaudeError::MissingAccessToken),
    }
}

/// How long to wait, in the words of an error.
pub open spec fn retry_text(retry_after: Option<Seq<char>>) -> Seq<char> {
    match retry_after {
        Some(v) => " (retry after "@ + v + "s)"@,
        None => ""@,
    }
}

fn retry_words(retry_after: &Option<String>) -> (r: String)
    ensures
        r@ == retry_text(retry_after.deep_view()),
{
    match retry_after {
        Some(v) => join3(" (retry after ", v.as_str(), "s)"),
        None => "".to_owned(),
    }
}

/// What a request came to: a value, or an error. `login` are the statuses that ask for a new login.
pub open spec fn reply_outcome(reply: HttpReply, url: Seq<char>, login: Set<u16>) -> Result<
    JsonView,
    ClaudeErrorView,
> {
    match reply {
        HttpReply::Value(value) => Ok(value.deep_view()),
        HttpReply::NoJson(message) => Err(
            ClaudeErrorView::ApiRequest { url, message: message@ },
        ),
        HttpReply::Transport(message) => Err(
            ClaudeErrorView::ApiRequest { url, message: message@ },
        ),
        HttpReply::Status { code, retry_after, body } => if login.contains(code) {
            Err(ClaudeErrorView::AuthenticationRequired)
        } else if code == 429 {
            Err(ClaudeErrorView::RateLimited { retry_after: retry_text(retry_after.deep_view()) })
        } else {
            Err(ClaudeErrorView::ApiRequest { url, message: body@ })
        },
    }
}

pub open spec fn outcome_view(r: Result<Json, ClaudeError>) -> Result<JsonView, ClaudeErrorView> {
    match r {
        Ok(v) => Ok(v.deep_view()),
        Err(e) => Err(e.deep_view()),
    }
}

fn read_reply(reply: HttpReply, url: &str, login: u16, also_login: u16) -> (r: Result<
    Json,
    ClaudeError,
>)
    ensures
        outcome_view(r) == reply_outcome(reply, url@, set![login, also_login]),
{
    match reply {
        HttpReply::Value(value) => Ok(value),
        HttpReply::NoJson(message) => Err(
            ClaudeError::ApiRequest { url: url.to_owned(), message },
        ),
        HttpReply::Transport(message) => Err(
            ClaudeError::ApiRequest { url: url.to_owned(), message },
        ),
        HttpReply::Status { code, retry_after, body } => if code == login || code == also_login {
            Err(ClaudeError::AuthenticationRequired)
        } else if code == 429 {
            Err(ClaudeError::RateLimited { retry_after: retry_words(&retry_after) })
        } else {
            Err(ClaudeError::ApiRequest { url: url.to_owned(), message: body })
        },
    }
}

/// What the service said of the allowance.
pub fn read_usage_reply(reply: HttpReply) -> (r: Result<Json, ClaudeError>)
    ensures
        outcome_view(r) == reply_outcome(reply, CLAUDE_USAGE_URL@, set![401u16, 403u16]),
{
    read_reply(reply, CLAUDE_USAGE_URL, 401, 403)
}

/// What the service said to a request for new tokens.
pub fn read_refresh_reply(product: &Product, reply: HttpReply) -> (r: Result<Json, ClaudeError>)
    ensures
        outcome_view(r) == reply_outcome(
            reply,
            refresh_url_of(product.word@),
            set![400u16, 401u16],
        ),
{
    read_reply(reply, product.refresh_url().as_str(), 400, 401)
}

/// The fields of a request for new tokens; it needs a refresh token.
pub fn refresh_fields(credentials: &Json) -> (r: Result<Vec<(String, String)>, ClaudeError>)
    ensures
        match oauth_text(credentials.deep_view(), "refreshToken"@) {
            Some(token) => r matches Ok(fields) && header_pairs(fields@) == seq![
                ("grant_type"@, "refresh_token"@),
                ("refresh_token"@, token),
                ("client_id"@, CLAUDE_CLIENT_ID@),
                ("scope"@, CLAUDE_SCOPES@),
            ],
            None => r matches Err(e) && e.deep_view() == ClaudeErrorView::MissingRefreshToken,
        },
{
    match filled(inner_field(credentials, "claudeAiOauth", "refreshToken")) {
        Some(token) => {
            let ghost t = token@;
            let mut fields: Vec<(String, String)> = Vec::new();
            fields.push(("grant_type".to_owned(), "refresh_token".to_owned()));
            fields.push(("refresh_token".to_owned(), token));
            fields.push(("client_id".to_owned(), CLAUDE_CLIENT_ID.to_owned()));
            fields.push(("scope".to_owned(), CLAUDE_SCOPES.to_owned()));
            assert(header_pairs(fields@) == seq![
                ("grant_type"@, "refresh_token"@),
                ("refresh_token"@, t),
                ("client_id"@, CLAUDE_CLIENT_ID@),
                ("scope"@, CLAUDE_SCOPES@),
            ]);
            Ok(fields)
        },
        None => Err(ClaudeError::MissingRefreshToken),
    }
}

/// The number of seconds after which new tokens expire.
pub open spec fn lifetime(refreshed: JsonView) -> Option<i64> {
    match field_of(refreshed, "expires_in"@) {
        Some(JsonView::Number(n)) => n.signed,
        _ => None,
    }
}

fn lifetime_of(refreshed: &Json) -> (r: Option<i64>)
    ensures
        r == lifetime(refreshed.deep_view()),
{
    match refreshed.field("expires_in") {
        Some(Json::Number(n)) => n.signed,
        _ => None,
    }
}

/// The change of the time at which the tokens expire, in milliseconds since 1970.
pub open spec fn expiry_edit(credentials: JsonView, refreshed: JsonView, now_ms: i64) -> Seq<
    EditView,
> {
    match (field2(credentials, "claudeAiOauth"@, "expiresAt"@), lifetime(refreshed)) {
        (Some(_), Some(seconds)) => if i64::MIN <= now_ms + seconds * 1000 <= i64::MAX {
            seq![
                EditView {
                    outer: Some("claudeAiOauth"@),
                    field: "expiresAt"@,
                    value: EditValueView::Integer((now_ms + seconds * 1000) as i64),
                },
            ]
        } else {
            seq![]
        },
        _ => seq![],
    }
}

/// What new tokens change in a credential, or that there are none. An expiry that is no time is left
/// as it was.
pub open spec fn refresh_outcome(
    word: Seq<char>,
    credentials: JsonView,
    refreshed: JsonView,
    now_ms: i64,
) -> Result<Seq<EditView>, ClaudeErrorView> {
    match filled_text(field_of(refreshed, "access_token"@)) {
        None => Err(
            ClaudeErrorView::ApiRequest {
                url: refresh_url_of(word),
                message: "refresh response did not contain access_token"@,
            },
        ),
        Some(token) => Ok(
            text_edit(credentials, "claudeAiOauth"@, "accessToken"@, Some(token)) + text_edit(
                credentials,
                "claudeAiOauth"@,
                "refreshToken"@,
                filled_text(field_of(refreshed, "refresh_token"@)),
            ) + expiry_edit(credentials, refreshed, now_ms),
        ),
    }
}

/// What new tokens change in a credential.
pub fn refresh_edits(product: &Product, credentials: &Json, refreshed: &Json, now_ms: i64) -> (r:
    Result<Vec<CredentialEdit>, ClaudeError>)
    ensures
        match r {
            Ok(edits) => refresh_outcome(
                product.word@,
                credentials.deep_view(),
                refreshed.deep_view(),
                now_ms,
            ) == Ok::<Seq<EditView>, ClaudeErrorView>(edits.deep_view()),
            Err(e) => refresh_outcome(
                product.word@,
                credentials.deep_view(),
                refreshed.deep_view(),
                now_ms,
            ) == Err::<Seq<EditView>, ClaudeErrorView>(e.deep_view()),
        },
{
    match filled(refreshed.field("access_token")) {
        None => Err(
            ClaudeError::ApiRequest {
                url: product.refresh_url(),
                message: "refresh response did not contain access_token".to_owned(),
            },
        ),
        Some(token) => {
            let ghost c = credentials.deep_view();
            let ghost t = token@;
            let mut edits: Vec<CredentialEdit> = Vec::new();
            push_text_edit(&mut edits, credentials, "claudeAiOauth", "accessToken", Some(token));
            assert(Seq::<EditView>::empty() + text_edit(
                c,
                "claudeAiOauth"@,
                "accessToken"@,
                Some(t),
            ) == text_edit(c, "claudeAiOauth"@, "accessToken"@, Some(t)));
            push_text_edit(
                &mut edits,
                credentials,
                "claudeAiOauth",
                "refreshToken",
                filled(refreshed.field("refresh_token")),
            );
            let ghost before = edits.deep_view();
            assert(before + Seq::<EditView>::empty() == before);
            let has_slot = inner_field(credentials, "claudeAiOauth", "expiresAt").is_some();
            match lifetime_of(refreshed) {
                Some(seconds) => if has_slot {
                    let at: i128 = now_ms as i128 + seconds as i128 * 1000;
                    if i64::MIN as i128 <= at && at <= i64::MAX as i128 {
                        edits.push(
                            CredentialEdit {
                                outer: Some("claudeAiOauth".to_owned()),
                                field: "expiresAt".to_owned(),
                                value: EditValue::Integer(at as i64),
                            },
                        );
                        assert(edits.deep_view() == before + expiry_edit(
                            c,
                            refreshed.deep_view(),
                            now_ms,
                        ));
                    }
                },
                None => {},
            }
            Ok(edits)
        },
    }
}

/// New tokens take the place of the old ones: the next request carries the new access token, and a
/// later refresh the new refresh token, where there is one and a place for it. Nothing else in the
/// credential changes but the time at which the tokens expire.
pub proof fn new_tokens_are_used(
    word: Seq<char>,
    credentials: JsonView,
    refreshed: JsonView,
    now_ms: i64,
    edits: Seq<EditView>,
)
    requires
        refresh_outcome(word, credentials, refreshed, now_ms) == Ok::<
            Seq<EditView>,
            ClaudeErrorView,
        >(edits),
    ensures
        ({
            let after = edited(credentials, edits);
            let new_refresh = filled_text(field_of(refreshed, "refresh_token"@));
            let renewed = new_refresh is Some && field2(
                credentials,
                "claudeAiOauth"@,
                "refreshToken"@,
            ) is Some;
            &&& field2(credentials, "claudeAiOauth"@, "accessToken"@) is Some ==> oauth_text(
                after,
                "accessToken"@,
            ) is Some && oauth_text(after, "accessToken"@) == filled_text(
                field_of(refreshed, "access_token"@),
            )
            &&& oauth_text(after, "refreshToken"@) == if renewed {
                new_refresh
            } else {
                oauth_text(credentials, "refreshToken"@)
            }
            &&& forall|b: Seq<char>|
                b != "accessToken"@ && b != "refreshToken"@ && b != "expiresAt"@
                    ==> #[trigger] field2(after, "claudeAiOauth"@, b) == field2(
                    credentials,
                    "claudeAiOauth"@,
                    b,
                )
            &&& forall|a: Seq<char>|
                a != "claudeAiOauth"@ ==> #[trigger] field_of(after, a) == field_of(credentials, a)
        }),
{
    reveal_strlit("accessToken");
    reveal_strlit("refreshToken");
    reveal_strlit("expiresAt");
    let outer = "claudeAiOauth"@;
    let new_access = filled_text(field_of(refreshed, "access_token"@));
    let new_refresh = filled_text(field_of(refreshed, "refresh_token"@));
    let first = text_edit(credentials, outer, "accessToken"@, new_access);
    let second = text_edit(credentials, outer, "refreshToken"@, new_refresh);
    let third = expiry_edit(credentials, refreshed, now_ms);
    assert("accessToken"@.len() == 11 && "refreshToken"@.len() == 12 && "expiresAt"@.len() == 9);
    edits_are_made_in_order(credentials, first + second, third);
    edits_are_made_in_order(credentials, first, second);
    let one = edited(credentials, first);
    a_text_edit_is_read_back(credentials, credentials, outer, "accessToken"@, new_access);
    assert(field2(one, outer, "refreshToken"@) == field2(credentials, outer, "refreshToken"@));
    assert(field2(one, outer, "expiresAt"@) == field2(credentials, outer, "expiresAt"@));
    let two = edited(one, second);
    a_text_edit_is_read_back(credentials, one, outer, "refreshToken"@, new_refresh);
    assert(field2(two, outer, "accessToken"@) == field2(one, outer, "accessToken"@));
    assert(field2(two, outer, "expiresAt"@) == field2(one, outer, "expiresAt"@));
    let after = edited(two, third);
    if third.len() > 0 {
        an_inner_edit_is_read_back(two, outer, "expiresAt"@, third[0].value);
        assert(third == seq![third[0]]);
    }
    assert(field2(after, outer, "accessToken"@) == field2(two, outer, "accessToken"@));
    assert(field2(after, outer, "refreshToken"@) == field2(two, outer, "refreshToken"@));
    assert forall|b: Seq<char>|
        b != "accessToken"@ && b != "refreshToken"@ && b != "expiresAt"@ implies #[trigger] field2(
        after,
        outer,
        b,
    ) == field2(credentials, outer, b) by {
        assert(field2(two, outer, b) == field2(one, outer, b));
        assert(field2(one, outer, b) == field2(credentials, outer, b));
    }
    assert forall|a: Seq<char>| a != outer implies #[trigger] field_of(after, a) == field_of(
        credentials,
        a,
    ) by {
        assert(field_of(two, a) == field_of(one, a));
        assert(field_of(one, a) == field_of(credentials, a));
    }
}

/// Where a question for the allowance stands: the service is to be asked, new tokens are to be
/// fetched, or it is over.
pub enum QuotaFetch {
    Ask { refreshed: bool },
    Refresh,
    Done(Result<Json, ClaudeError>),
}

/// How to start.
pub fn begin_fetch() -> (r: QuotaFetch)
    ensures
        r == (QuotaFetch::Ask { refreshed: false }),
{
    QuotaFetch::Ask { refreshed: false }
}

/// What to do after the service was asked: where it wants a new login, new tokens are fetched, once.
pub fn after_asking(refreshed: bool, outcome: Result<Json, ClaudeError>) -> (r: QuotaFetch)
    ensures
        r == if outcome matches Err(ClaudeError::AuthenticationRequired) && !refreshed {
            QuotaFetch::Refresh
        } else {
            QuotaFetch::Done(outcome)
        },
{
    match outcome {
        Err(ClaudeError::AuthenticationRequired) => if refreshed {
            QuotaFetch::Done(Err(ClaudeError::AuthenticationRequired))
        } else {
            QuotaFetch::Refresh
        },
        other => QuotaFetch::Done(other),
    }
}

/// What to do after new tokens were asked for: ask the service again, or give up.
pub fn after_refreshing(failure: Option<ClaudeError>) -> (r: QuotaFetch)
    ensures
        r == match failure {
            None => QuotaFetch::Ask { refreshed: true },
            Some(e) => QuotaFetch::Done(Err(e)),
        },
{
    match failure {
        None => QuotaFetch::Ask { refreshed: true },
        Some(e) => QuotaFetch::Done(Err(e)),
    }
}

// ---------------------------------------------------------------------------------------------
// The answer of the service
// ---------------------------------------------------------------------------------------------
/// The windows that the service speaks of.
pub struct ClaudeReadings {
    pub session: Option<WindowReading>,
    pub weekly: Option<WindowReading>,
    pub sonnet: Option<WindowReading>,
    pub opus: Option<WindowReading>,
}

pub struct ClaudeWindows {
    pub session: Option<WindowQuota>,
    pub weekly: Option<WindowQuota>,
    pub sonnet: Option<WindowQuota>,
    pub opus: Option<WindowQuota>,
}

/// A window: it needs a number for how much is used.
pub open spec fn window_at(value: JsonView, name: Seq<char>) -> Option<ReadingView> {
    match field_of(value, name) {
        Some(w) => match bits_in(field_of(w, "utilization"@)) {
            Some(used_bits) => Some(
                ReadingView { used_bits, reset_time: filled_text(field_of(w, "resets_at"@)) },
            ),
            None => None,
        },
        None => None,
    }
}

fn read_window(value: &Json, name: &str) -> (r: Option<WindowReading>)
    ensures
        r.deep_view() == window_at(value.deep_view(), name@),
{
    match value.field(name) {
        Some(w) => match bits_of(w.field("utilization")) {
            Some(used_bits) => Some(
                WindowReading { used_bits, reset_time: filled(w.field("resets_at")) },
            ),
            None => None,
        },
        None => None,
    }
}

/// The windows in an answer of the service.
pub fn usage_windows(value: &Json) -> (r: ClaudeReadings)
    ensures
        r.session.deep_view() == window_at(value.deep_view(), "five_hour"@),
        r.weekly.deep_view() == window_at(value.deep_view(), "seven_day"@),
        r.sonnet.deep_view() == window_at(value.deep_view(), "seven_day_sonnet"@),
        r.opus.deep_view() == window_at(value.deep_view(), "seven_day_opus"@),
{
    ClaudeReadings {
        session: read_window(value, "five_hour"),
        weekly: read_window(value, "seven_day"),
        sonnet: read_window(value, "seven_day_sonnet"),
        opus: read_window(value, "seven_day_opus"),
    }
}

/// The plan: what is subscribed to, or else the tier of the limits.
pub open spec fn plan_of(subscription: Option<Seq<char>>, tier: Option<Seq<char>>) -> Option<
    Seq<char>,
> {
    match not_empty(subscription) {
        Some(p) => Some(p),
        None => not_empty(tier),
    }
}

/// The quota that the windows in an answer of the service make.
pub fn quota_from_usage_response(
    windows: &ClaudeWindows,
    subscription_type: &Option<String>,
    rate_limit_tier: &Option<String>,
) -> (r: TextMap<Json>)
    ensures
        r.deep_view() == ({
            let q = with_text(
                Map::empty(),
                "plan"@,
                plan_of(subscription_type.deep_view(), rate_limit_tier.deep_view()),
            );
            let q = with_window(q, "session"@, windows.session.deep_view());
            let q = with_window(q, "weekly"@, windows.weekly.deep_view());
            let q = with_window(q, "sonnet"@, windows.sonnet.deep_view());
            let q = with_window(q, "opus"@, windows.opus.deep_view());
            with_main(q, windows.session.deep_view(), windows.weekly.deep_view())
        }),
{
    let mut quota: TextMap<Json> = TextMap::new();
    let named = match subscription_type {
        Some(s) => !s.as_str().is_empty(),
        None => false,
    };
    if named {
        insert_text(&mut quota, "plan", subscription_type);
    } else {
        let tiered = match rate_limit_tier {
            Some(s) => !s.as_str().is_empty(),
            None => false,
        };
        if tiered {
            insert_text(&mut quota, "plan", rate_limit_tier);
        }
    }
    insert_window(&mut quota, "session", &windows.session);
    insert_window(&mut quota, "weekly", &windows.weekly);
    insert_window(&mut quota, "sonnet", &windows.sonnet);
    insert_window(&mut quota, "opus", &windows.opus);
    insert_main_window(&mut quota, &windows.session, &windows.weekly);
    quota
}

/// The plan that a credential names: what is subscribed to, and the tier of the limits.
pub fn credential_plan(credentials: &Json) -> (r: (Option<String>, Option<String>))
    ensures
        r.0.deep_view() == (match field2(
            credentials.deep_view(),
            "claudeAiOauth"@,
            "subscriptionType"@,
        ) {
            Some(v) => text_in(v),
            None => None,
        }),
        r.1.deep_view() == (match field2(
            credentials.deep_view(),
            "claudeAiOauth"@,
            "rateLimitTier"@,
        ) {
            Some(v) => text_in(v),
            None => None,
        }),
{
    (
        text_of(inner_field(credentials, "claudeAiOauth", "subscriptionType")),
        text_of(inner_field(credentials, "claudeAiOauth", "rateLimitTier")),
    )
}

/// The credential that bytes hold, if they hold one.
pub fn parse_credentials(bytes: &[u8]) -> (r: Result<Json, ClaudeError>)
    ensures
        match json_of_bytes(bytes@) {
            Ok(v) => r matches Ok(value) && value.deep_view() == v,
            Err(_) => r matches Err(e) && e.deep_view() == ClaudeErrorView::ParseCredentials,
        },
{
    match parse_bytes(bytes) {
        Ok(value) => Ok(value),
        Err(_) => Err(ClaudeError::ParseCredentials),
    }
}

// ---------------------------------------------------------------------------------------------
// Sessions
// ---------------------------------------------------------------------------------------------
/// The tokens that an answer took, and when it came.
#[derive(Clone, Copy)]
pub struct TokenRecord {
    pub at: Timestamp,
    pub tokens: u64,
}

/// A session that runs: when it ends, and the tokens that it took so far.
pub struct SessionBlock {
    pub end: Timestamp,
    pub tokens_used: u64,
}

/// A session as far as the records go: when it started, the tokens that it took, and when the last of
/// its answers came.
pub struct Session {
    pub start: Timestamp,
    pub tokens: u64,
    pub last: Timestamp,
}

/// The start of the hour.
pub open spec fn hour_of(t: Timestamp) -> Timestamp {
    Timestamp { secs: (t.secs - t.secs as int % 3600) as i64, nanos: 0 }
}

/// The start of the hour.
pub fn floor_to_hour_utc(t: Timestamp) -> (r: Timestamp)
    requires
        in_calendar(t),
    ensures
        r == hour_of(t),
        in_calendar(r),
        r.secs <= t.secs < r.secs + 3600,
{
    let secs: i64 = t.secs - remainder(t.secs, 3600);
    Timestamp { secs, nanos: 0 }
}

pub open spec fn saturating_sum(a: u64, b: u64) -> u64 {
    if a + b <= u64::MAX {
        (a + b) as u64
    } else {
        u64::MAX
    }
}

/// The session after one more record. A record starts a new one where there is none, where it comes
/// more than a session's length after the last one, and where the session has run for longer than
/// that.
pub open spec fn session_after(session: Option<Session>, record: TokenRecord) -> Session {
    let fresh = Session { start: hour_of(record.at), tokens: record.tokens, last: record.at };
    match session {
        None => fresh,
        Some(s) => if span(s.last, record.at) > SESSION_NANOS || span(s.start, record.at)
            > SESSION_NANOS {
            fresh
        } else {
            Session {
                start: s.start,
                tokens: saturating_sum(s.tokens, record.tokens),
                last: record.at,
            }
        },
    }
}

/// The last session of a list of records.
pub open spec fn last_session(records: Seq<TokenRecord>) -> Option<Session>
    decreases records.len(),
{
    if records.len() == 0 {
        None
    } else {
        Some(session_after(last_session(records.drop_last()), records.last()))
    }
}

/// The end of a session.
pub open spec fn end_of(session: Session) -> Timestamp {
    Timestamp { secs: (session.start.secs + SESSION_SECONDS) as i64, nanos: session.start.nanos }
}

/// The last session of a list of records, where it has not ended.
pub open spec fn running_session(records: Seq<TokenRecord>, now: Timestamp) -> Option<SessionBlock> {
    match last_session(records) {
        None => None,
        Some(s) => if earlier(now, end_of(s)) {
            Some(SessionBlock { end: end_of(s), tokens_used: s.tokens })
        } else {
            None
        },
    }
}

fn find_last_session(records: &Vec<TokenRecord>) -> (r: Option<Session>)
    requires
        forall|i: int| 0 <= i < records@.len() ==> in_calendar(#[trigger] records@[i].at),
    ensures
        r == last_session(records@),
        r matches Some(s) ==> in_calendar(s.start),
{
    let mut session: Option<Session> = None;
    let mut i: usize = 0;
    while i < records.len()
        invariant
            i <= records@.len(),
            session == last_session(records@.take(i as int)),
            session matches Some(s) ==> in_calendar(s.start),
            forall|i: int| 0 <= i < records@.len() ==> in_calendar(#[trigger] records@[i].at),
        decreases records@.len() - i,
    {
        let record = records[i];
        assert(records@.take(i + 1).drop_last() == records@.take(i as int));
        assert(in_calendar(records@[i as int].at));
        let next = match session {
            None => Session {
                start: floor_to_hour_utc(record.at),
                tokens: record.tokens,
                last: record.at,
            },
            Some(s) => if nanos_between(s.last, record.at) > SESSION_NANOS || nanos_between(
                s.start,
                record.at,
            ) > SESSION_NANOS {
                Session {
                    start: floor_to_hour_utc(record.at),
                    tokens: record.tokens,
                    last: record.at,
                }
            } else {
                Session {
                    start: s.start,
                    tokens: s.tokens.saturating_add(record.tokens),
                    last: record.at,
                }
            },
        };
        session = Some(next);
        i += 1;
    }
    assert(records@.take(records@.len() as int) == records@);
    session
}

/// The last session of a list of records, where it has not ended.
pub fn active_session_block(records: &Vec<TokenRecord>, now: Timestamp) -> (r: Option<SessionBlock>)
    requires
        forall|i: int| 0 <= i < records@.len() ==> in_calendar(#[trigger] records@[i].at),
    ensures
        r == running_session(records@, now),
{
    match find_last_session(records) {
        None => None,
        Some(s) => {
            let end = Timestamp { secs: s.start.secs + SESSION_SECONDS, nanos: s.start.nanos };
            if now.is_before(&end) {
                Some(SessionBlock { end, tokens_used: s.tokens })
            } else {
                None
            }
        },
    }
}

/// Whether a list of records is in the order of time.
pub open spec fn in_order(records: Seq<TokenRecord>) -> bool {
    forall|i: int, j: int|
        0 <= i < j < records.len() ==> !earlier(#[trigger] records[j].at, #[trigger] records[i].at)
}

/// The last session of records in order starts at a full hour and holds the last record: the record
/// comes no earlier than the start, and within the length of a session after it.
pub proof fn the_last_record_lies_in_its_session(records: Seq<TokenRecord>)
    requires
        records.len() > 0,
        in_order(records),
        forall|i: int| 0 <= i < records.len() ==> in_calendar(#[trigger] records[i].at),
    ensures
        last_session(records) matches Some(s) && s.last == records.last().at && !earlier(
            records.last().at,
            s.start,
        ) && span(s.start, records.last().at) <= SESSION_NANOS && s.start.nanos == 0
            && s.start.secs as int % 3600 == 0,
    decreases records.len(),
{
    let front = records.drop_last();
    let last = records.last().at;
    assert(in_calendar(records[records.len() - 1].at));
    if front.len() > 0 {
        assert forall|i: int, j: int| 0 <= i < j < front.len() implies !earlier(
            #[trigger] front[j].at,
            #[trigger] front[i].at,
        ) by {
            assert(!earlier(records[j].at, records[i].at));
        }
        assert forall|i: int| 0 <= i < front.len() implies in_calendar(#[trigger] front[i].at) by {
            assert(in_calendar(records[i].at));
        }
        the_last_record_lies_in_its_session(front);
        assert(!earlier(records[records.len() - 1].at, records[records.len() - 2].at));
    }
}

/// The place for a record among records in order: behind all that do not come later.
pub open spec fn place_of(records: Seq<TokenRecord>, at: Timestamp) -> int
    decreases records.len(),
{
    if records.len() == 0 {
        0
    } else if earlier(at, records.last().at) {
        place_of(records.drop_last(), at)
    } else {
        records.len() as int
    }
}

/// Records in the order of time; those of one time stay as they were.
pub open spec fn by_time(records: Seq<TokenRecord>) -> Seq<TokenRecord>
    decreases records.len(),
{
    if records.len() == 0 {
        seq![]
    } else {
        let front = by_time(records.drop_last());
        front.insert(place_of(front, records.last().at), records.last())
    }
}

proof fn lemma_place_of(records: Seq<TokenRecord>, at: Timestamp)
    requires
        in_order(records),
    ensures
        0 <= place_of(records, at) <= records.len(),
        forall|i: int|
            place_of(records, at) <= i < records.len() ==> earlier(at, #[trigger] records[i].at),
        forall|i: int| 0 <= i < place_of(records, at) ==> !earlier(at, #[trigger] records[i].at),
    decreases records.len(),
{
    if records.len() > 0 && earlier(at, records.last().at) {
        let front = records.drop_last();
        assert(in_order(front)) by {
            assert forall|i: int, j: int| 0 <= i < j < front.len() implies !earlier(
                #[trigger] front[j].at,
                #[trigger] front[i].at,
            ) by {
                assert(!earlier(records[j].at, records[i].at));
            }
        }
        lemma_place_of(front, at);
        assert forall|i: int| place_of(records, at) <= i < records.len() implies earlier(
            at,
            #[trigger] records[i].at,
        ) by {
            if i < front.len() {
                assert(records[i] == front[i]);
            }
        }
        assert forall|i: int| 0 <= i < place_of(records, at) implies !earlier(
            at,
            #[trigger] records[i].at,
        ) by {
            assert(records[i] == front[i]);
        }
    } else if records.len() > 0 {
        assert forall|i: int| 0 <= i < records.len() implies !earlier(
            at,
            #[trigger] records[i].at,
        ) by {
            if i < records.len() - 1 {
                assert(!earlier(records[records.len() - 1].at, records[i].at));
            }
        }
    }
}

/// Putting records in order gives the same records, in order.
pub proof fn sorting_keeps_the_records(records: Seq<TokenRecord>)
    ensures
        in_order(by_time(records)),
        by_time(records).to_multiset() == records.to_multiset(),
        by_time(records).len() == records.len(),
    decreases records.len(),
{
    if records.len() > 0 {
        let front = by_time(records.drop_last());
        let r = records.last();
        sorting_keeps_the_records(records.drop_last());
        lemma_place_of(front, r.at);
        let k = place_of(front, r.at);
        let all = front.insert(k, r);
        assert forall|i: int, j: int| 0 <= i < j < all.len() implies !earlier(
            #[trigger] all[j].at,
            #[trigger] all[i].at,
        ) by {
            if i < k && j > k {
                assert(all[i] == front[i] && all[j] == front[j - 1]);
                assert(!earlier(front[j - 1].at, front[i].at));
            } else if j < k {
                assert(!earlier(front[j].at, front[i].at));
            } else if i > k {
                assert(!earlier(front[j - 1].at, front[i - 1].at));
            } else if j == k {
                assert(!earlier(r.at, front[i].at));
            } else {
                assert(all[j] == front[j - 1]);
                assert(earlier(r.at, front[j - 1].at));
            }
        }
        front.insert_ensures(k, r);
        vstd::seq_lib::to_multiset_insert(front, k, r);
        records.drop_last().to_multiset_ensures();
        assert(records.drop_last().push(r) == records);
    } else {
        assert(records == Seq::<TokenRecord>::empty());
    }
}

/// Puts records in the order of time.
pub fn sort_records(records: &Vec<TokenRecord>) -> (r: Vec<TokenRecord>)
    ensures
        r@ == by_time(records@),
{
    let mut sorted: Vec<TokenRecord> = Vec::new();
    let mut i: usize = 0;
    while i < records.len()
        invariant
            i <= records@.len(),
            sorted@ == by_time(records@.take(i as int)),
        decreases records@.len() - i,
    {
        let record = records[i];
        let ghost front = sorted@;
        assert(records@.take(i + 1).drop_last() == records@.take(i as int));
        assert(0 <= place_of(front, record.at) <= front.len()) by {
            sorting_keeps_the_records(records@.take(i as int));
            lemma_place_of(front, record.at);
        }
        let mut k: usize = sorted.len();
        assert(front.take(front.len() as int) == front);
        while k > 0 && record.at.is_before(&sorted[k - 1].at)
            invariant
                k <= sorted@.len(),
                sorted@ == front,
                place_of(front.take(k as int), record.at) == place_of(front, record.at),
            decreases k,
        {
            assert(front.take(k as int).drop_last() == front.take(k - 1));
            k -= 1;
        }
        if k > 0 {
            assert(front.take(k as int).last() == front[k - 1]);
        }
        sorted.insert(k, record);
        i += 1;
    }
    assert(records@.take(records@.len() as int) == records@);
    sorted
}

/// How many tokens a session of a plan may take.
pub open spec fn limit_of(plan: Option<Seq<char>>) -> Option<u64> {
    match plan {
        None => None,
        Some(p) => {
            let name = without_joiners(lower_of(p));
            if name == "pro"@ {
                Some(19_000)
            } else if name == "max"@ || name == "max5"@ || name == "max5x"@ {
                Some(88_000)
            } else if name == "max20"@ || name == "max20x"@ {
                Some(220_000)
            } else {
                None
            }
        },
    }
}

pub open spec fn is_joiner(c: char) -> bool {
    c == '_' || c == '-' || c == ' '
}

/// A text without underscores, hyphens and spaces.
pub open spec fn without_joiners(s: Seq<char>) -> Seq<char> {
    s.filter(|c: char| !is_joiner(c))
}

/// How many tokens a session of a plan may take, where that is known.
pub fn plan_token_limit(plan: Option<&str>) -> (r: Option<u64>)
    ensures
        r == limit_of(plan.deep_view()),
{
    match plan {
        None => None,
        Some(p) => {
            let lower = ascii_lower(p);
            let chars = chars_of(lower.as_str());
            let mut kept: Vec<char> = Vec::new();
            let mut i: usize = 0;
            let ghost keep = |c: char| !is_joiner(c);
            while i < chars.len()
                invariant
                    i <= chars@.len(),
                    keep == (|c: char| !is_joiner(c)),
                    kept@ == chars@.take(i as int).filter(keep),
                decreases chars@.len() - i,
            {
                let c = chars[i];
                proof {
                    reveal(Seq::filter);
                    assert(chars@.take(i + 1).drop_last() == chars@.take(i as int));
                }
                if !(c == '_' || c == '-' || c == ' ') {
                    kept.push(c);
                }
                i += 1;
            }
            assert(chars@.take(chars@.len() as int) == chars@);
            let name = string_of(&kept);
            if same(name.as_str(), "pro") {
                Some(19_000)
            } else if same(name.as_str(), "max") || same(name.as_str(), "max5") || same(
                name.as_str(),
                "max5x",
            ) {
                Some(88_000)
            } else if same(name.as_str(), "max20") || same(name.as_str(), "max20x") {
                Some(220_000)
            } else {
                None
            }
        },
    }
}

/// How much of the session of an account is used: the session, the time at which it ends, and how
/// many tokens its plan allows.
pub struct SessionUse {
    pub tokens_used: u64,
    pub limit: Option<u64>,
    pub reset_time: String,
}

proof fn lemma_session_start(records: Seq<TokenRecord>)
    requires
        forall|i: int| 0 <= i < records.len() ==> in_calendar(#[trigger] records[i].at),
    ensures
        last_session(records) matches Some(s) ==> in_calendar(s.start) && s.start.nanos == 0,
    decreases records.len(),
{
    if records.len() > 0 {
        assert(in_calendar(records[records.len() - 1].at));
        assert forall|i: int| 0 <= i < records.drop_last().len() implies in_calendar(
            #[trigger] records.drop_last()[i].at,
        ) by {
            assert(in_calendar(records[i].at));
        }
        lemma_session_start(records.drop_last());
    }
}

/// Whether the last session of some records ends within the calendar.
pub open spec fn ends_in_calendar(records: Seq<TokenRecord>) -> bool {
    last_session(by_time(records)) matches Some(s) ==> s.start.secs + SESSION_SECONDS
        <= LAST_SECOND
}

proof fn lemma_sorted_in_calendar(records: Seq<TokenRecord>)
    requires
        forall|i: int| 0 <= i < records.len() ==> in_calendar(#[trigger] records[i].at),
    ensures
        forall|i: int|
            0 <= i < by_time(records).len() ==> in_calendar(#[trigger] by_time(records)[i].at),
{
    let sorted = by_time(records);
    sorting_keeps_the_records(records);
    assert forall|i: int| 0 <= i < sorted.len() implies in_calendar(#[trigger] sorted[i].at) by {
        sorted.to_multiset_ensures();
        records.to_multiset_ensures();
        assert(sorted.contains(sorted[i]));
        assert(records.to_multiset().count(sorted[i]) > 0);
        assert(records.contains(sorted[i]));
    }
}

/// Whether the last session of some records ends within the calendar.
pub fn session_fits(records: &Vec<TokenRecord>) -> (r: bool)
    requires
        forall|i: int| 0 <= i < records@.len() ==> in_calendar(#[trigger] records@[i].at),
    ensures
        r == ends_in_calendar(records@),
{
    let sorted = sort_records(records);
    proof {
        lemma_sorted_in_calendar(records@);
        lemma_session_start(sorted@);
    }
    match find_last_session(&sorted) {
        Some(s) => s.start.secs <= LAST_SECOND - SESSION_SECONDS,
        None => true,
    }
}

/// What the records of answers show of the session that runs now. The last session has to end within
/// the calendar.
pub fn session_use(records: &Vec<TokenRecord>, now: Timestamp, plan: Option<&str>) -> (r: Option<
    SessionUse,
>)
    requires
        forall|i: int| 0 <= i < records@.len() ==> in_calendar(#[trigger] records@[i].at),
        ends_in_calendar(records@),
    ensures
        match running_session(by_time(records@), now) {
            Some(block) => r matches Some(u) && u.tokens_used == block.tokens_used && u.limit
                == limit_of(plan.deep_view()) && Some(u.reset_time@) == rfc3339_of(
                block.end.secs,
                block.end.nanos,
            ),
            None => r is None,
        },
{
    let sorted = sort_records(records);
    proof {
        lemma_sorted_in_calendar(records@);
        lemma_session_start(sorted@);
    }
    match active_session_block(&sorted, now) {
        None => None,
        Some(block) => match write_rfc3339(block.end) {
            Some(reset_time) => Some(
                SessionUse {
                    tokens_used: block.tokens_used,
                    limit: plan_token_limit(plan),
                    reset_time,
                },
            ),
            None => None,
        },
    }
}

/// The quota of a session: when it ends, and how much is used and left of it, in percent, where its
/// plan is known.
pub fn build_session_quota(reset_time: &String, percents: &Option<(Number, Number)>) -> (r: TextMap<
    Json,
>)
    ensures
        r.deep_view() == ({
            let q = Map::empty().insert("quota_scope"@, JsonView::Text("session"@)).insert(
                "reset_time"@,
                JsonView::Text(reset_time@),
            ).insert("session_reset_time"@, JsonView::Text(reset_time@));
            match *percents {
                Some((used, left)) => q.insert(
                    "used_percent"@,
                    JsonView::Number(used.deep_view()),
                ).insert("remaining_percent"@, JsonView::Number(left.deep_view())).insert(
                    "session_used_percent"@,
                    JsonView::Number(used.deep_view()),
                ).insert("session_remaining_percent"@, JsonView::Number(left.deep_view())),
                None => q,
            }
        }),
{
    let mut quota: TextMap<Json> = TextMap::new();
    quota.insert("quota_scope".to_owned(), Json::Text("session".to_owned()));
    quota.insert("reset_time".to_owned(), Json::Text(reset_time.clone()));
    quota.insert("session_reset_time".to_owned(), Json::Text(reset_time.clone()));
    match percents {
        Some((used, left)) => {
            quota.insert("used_percent".to_owned(), Json::Number(used.duplicate()));
            quota.insert("remaining_percent".to_owned(), Json::Number(left.duplicate()));
            quota.insert("session_used_percent".to_owned(), Json::Number(used.duplicate()));
            quota.insert("session_remaining_percent".to_owned(), Json::Number(left.duplicate()));
        },
        None => {},
    }
    quota
}

/// The tokens that an answer names under one key.
pub open spec fn tokens_at(usage: JsonView, key: Seq<char>) -> u64 {
    match field_of(usage, key) {
        Some(JsonView::Number(n)) => match n.unsigned {
            Some(t) => t,
            None => 0,
        },
        _ => 0,
    }
}

fn tokens_under(usage: &Json, key: &str) -> (r: u64)
    ensures
        r == tokens_at(usage.deep_view(), key@),
{
    match usage.field(key) {
        Some(Json::Number(n)) => match n.unsigned {
            Some(t) => t,
            None => 0,
        },
        _ => 0,
    }
}

/// All the tokens of an answer.
pub open spec fn total_tokens(usage: JsonView) -> u64 {
    saturating_sum(
        saturating_sum(
            saturating_sum(
                tokens_at(usage, "input_tokens"@),
                tokens_at(usage, "output_tokens"@),
            ),
            tokens_at(usage, "cache_creation_input_tokens"@),
        ),
        tokens_at(usage, "cache_read_input_tokens"@),
    )
}

/// All the tokens of an answer.
pub fn usage_total_tokens(usage: &Json) -> (r: u64)
    ensures
        r == total_tokens(usage.deep_view()),
{
    tokens_under(usage, "input_tokens").saturating_add(
        tokens_under(usage, "output_tokens"),
    ).saturating_add(tokens_under(usage, "cache_creation_input_tokens")).saturating_add(
        tokens_under(usage, "cache_read_input_tokens"),
    )
}

/// The record of an answer in a line of a session log.
pub open spec fn record_in(value: JsonView) -> Option<TokenRecord> {
    if field_of(value, "type"@) == Some(JsonView::Text("assistant"@)) {
        match field_of(value, "timestamp"@) {
            Some(JsonView::Text(time)) => match (
                rfc3339_instant(time),
                field2(value, "message"@, "usage"@),
            ) {
                (Some(at), Some(usage)) => Some(TokenRecord { at, tokens: total_tokens(usage) }),
                _ => None,
            },
            _ => None,
        }
    } else {
        None
    }
}

/// The record of an answer in a line of a session log, where the line holds one.
pub fn parse_assistant_token_record(line: &str) -> (r: Option<TokenRecord>)
    ensures
        r == (match json_of_text(line@) {
            Ok(value) => record_in(value),
            Err(_) => None,
        }),
{
    match parse_text(line) {
        Ok(value) => token_record(&value),
        Err(_) => None,
    }
}

/// The records of answers in the lines of session logs, in their order.
pub open spec fn records_in(lines: Seq<Seq<char>>) -> Seq<TokenRecord>
    decreases lines.len(),
{
    if lines.len() == 0 {
        seq![]
    } else {
        let front = records_in(lines.drop_last());
        match json_of_text(lines.last()) {
            Ok(value) => match record_in(value) {
                Some(record) => front.push(record),
                None => front,
            },
            Err(_) => front,
        }
    }
}

/// The records of answers in the lines of session logs; a line that holds none is passed over.
pub fn session_records(lines: &Vec<String>) -> (r: Vec<TokenRecord>)
    ensures
        r@ == records_in(lines.deep_view()),
{
    let ghost all = lines.deep_view();
    let mut records: Vec<TokenRecord> = Vec::new();
    let mut i: usize = 0;
    while i < lines.len()
        invariant
            i <= lines@.len(),
            all == lines.deep_view(),
            records@ == records_in(all.take(i as int)),
        decreases lines@.len() - i,
    {
        assert(all.take(i + 1).drop_last() == all.take(i as int));
        assert(all[i as int] == lines@[i as int]@);
        match parse_assistant_token_record(lines[i].as_str()) {
            Some(record) => {
                records.push(record);
            },
            None => {},
        }
        i += 1;
    }
    assert(all.take(all.len() as int) == all);
    records
}

/// The record of an answer, where a line of a session log holds one.
pub fn token_record(value: &Json) -> (r: Option<TokenRecord>)
    ensures
        r == record_in(value.deep_view()),
{
    match value.field("type") {
        Some(Json::Text(kind)) => if same(kind.as_str(), "assistant") {
            match value.field("timestamp") {
                Some(Json::Text(time)) => match parse_rfc3339(time.as_str()) {
                    Some(at) => match inner_field(value, "message", "usage") {
                        Some(usage) => Some(TokenRecord { at, tokens: usage_total_tokens(usage) }),
                        None => None,
                    },
                    None => None,
                },
                _ => None,
            }
        } else {
            None
        },
        _ => None,
    }
}

// ---------------------------------------------------------------------------------------------
// Times of day
// ---------------------------------------------------------------------------------------------
/// A time of day: an hour from 0 to 23, and a minute as it is written.
#[derive(Clone, Copy)]
pub struct ClockTime {
    pub hour: u32,
    pub minute: u32,
}

pub const MERIDIEM_PATTERN: &'static str =
    r"(?i)(\d{1,2})(?::(\d{2}))?\s*(am|pm)\s*\(([^)]+)\)";

pub const RESET_PATTERN: &'static str =
    r"(?i)resets?\s*([0-9]{1,2}(?::[0-9]{2})?\s*(?:am|pm)\s*\([^)]+\))";

/// The time of day that the parts of a text like `3:40pm (UTC)` give.
pub open spec fn clock_of(groups: Seq<Option<Seq<char>>>) -> Option<ClockTime> {
    match (group_of(groups, 1), group_of(groups, 3)) {
        (Some(h), Some(meridiem)) => {
            let minute = match group_of(groups, 2) {
                Some(m) => unsigned_of(m, u32::MAX as nat),
                None => Some(0nat),
            };
            match (unsigned_of(h, u32::MAX as nat), minute) {
                (Some(hour), Some(minute)) => if minute < 60 {
                    Some(
                        ClockTime {
                            hour: (hour as int % 12 + if lower_of(meridiem) == "pm"@ {
                                12int
                            } else {
                                0int
                            }) as u32,
                            minute: minute as u32,
                        },
                    )
                } else {
                    None
                },
                _ => None,
            }
        },
        _ => None,
    }
}

fn parse_u32(s: &str) -> (r: Option<u32>)
    ensures
        match r {
            Some(n) => unsigned_of(s@, u32::MAX as nat) == Some(n as nat),
            None => unsigned_of(s@, u32::MAX as nat) is None,
        },
{
    match parse_u64(s) {
        Some(n) => if n <= u32::MAX as u64 {
            Some(n as u32)
        } else {
            None
        },
        None => None,
    }
}

/// The time of day that the parts of a text give.
pub fn clock_time(groups: &Vec<Option<String>>) -> (r: Option<ClockTime>)
    ensures
        r == clock_of(groups.deep_view()),
        r matches Some(t) ==> t.hour < 24 && t.minute < 60,
{
    match (group(groups, 1), group(groups, 3)) {
        (Some(h), Some(meridiem)) => {
            let minute: Option<u32> = match group(groups, 2) {
                Some(m) => parse_u32(m.as_str()),
                None => Some(0),
            };
            match (parse_u32(h.as_str()), minute) {
                (Some(hour), Some(minute)) => {
                    let base: u32 = hour % 12;
                    if minute >= 60 {
                        None
                    } else if same(ascii_lower(meridiem.as_str()).as_str(), "pm") {
                        Some(ClockTime { hour: base + 12, minute })
                    } else {
                        Some(ClockTime { hour: base, minute })
                    }
                },
                _ => None,
            }
        },
        _ => None,
    }
}

/// The time of day in a text like `3:40pm (UTC)`.
pub open spec fn meridiem_of(text: Seq<char>) -> Option<ClockTime> {
    match groups_of(MERIDIEM_PATTERN@, text) {
        Some(groups) => clock_of(groups),
        None => None,
    }
}

/// The time of day in a text like `3:40pm (UTC)`.
pub fn parse_meridiem_reset(value: &str) -> (r: Option<ClockTime>)
    ensures
        r == meridiem_of(value@),
        r matches Some(t) ==> t.hour < 24 && t.minute < 60,
{
    match captures(MERIDIEM_PATTERN, value) {
        Some(groups) => clock_time(&groups),
        None => None,
    }
}

/// The time of day that follows the word `resets` in a text.
pub open spec fn reset_in(text: Seq<char>) -> Option<ClockTime> {
    match groups_of(RESET_PATTERN@, text) {
        Some(groups) => match group_of(groups, 1) {
            Some(time) => meridiem_of(time),
            None => None,
        },
        None => None,
    }
}

/// The time of day that follows the word `resets` in a text.
pub fn parse_reset_from_message(text: &str) -> (r: Option<ClockTime>)
    ensures
        r == reset_in(text@),
        r matches Some(t) ==> t.hour < 24 && t.minute < 60,
{
    match captures(RESET_PATTERN, text) {
        Some(groups) => match group(&groups, 1) {
            Some(time) => parse_meridiem_reset(time.as_str()),
            None => None,
        },
        None => None,
    }
}

/// The next time that a time of day comes: `candidate`, which is that of today, or a day later.
pub fn next_occurrence(candidate: Timestamp, now: Timestamp) -> (r: Timestamp)
    requires
        candidate.secs < i64::MAX - 86_400,
    ensures
        r == if earlier(now, candidate) {
            candidate
        } else {
            shifted(candidate, 86_400)
        },
{
    if now.is_before(&candidate) {
        candidate
    } else {
        shift(candidate, 86_400)
    }
}

// ---------------------------------------------------------------------------------------------
// What session logs say of limits
// ---------------------------------------------------------------------------------------------
/// A line of a session log that says that a limit was hit: when, and when the limit is lifted.
pub struct QuotaHint {
    pub timestamp: String,
    pub reset: Option<ClockTime>,
}

pub struct HintView {
    pub timestamp: Seq<char>,
    pub reset: Option<ClockTime>,
}

impl DeepView for QuotaHint {
    type V = HintView;

    open spec fn deep_view(&self) -> HintView {
        HintView { timestamp: self.timestamp@, reset: self.reset }
    }
}

/// The first text among the items from `i` on.
pub open spec fn first_text(items: Seq<JsonView>, i: int) -> Option<Seq<char>>
    decreases items.len() - i,
{
    if i < 0 || i >= items.len() {
        None
    } else {
        match field_of(items[i], "text"@) {
            Some(JsonView::Text(t)) => Some(t),
            _ => first_text(items, i + 1),
        }
    }
}

/// The text of the message in a line of a session log.
pub open spec fn message_text(value: JsonView) -> Option<Seq<char>> {
    match field2(value, "message"@, "content"@) {
        Some(JsonView::Array { items, .. }) => first_text(items, 0),
        _ => None,
    }
}

fn message_in(value: &Json) -> (r: Option<String>)
    ensures
        r.deep_view() == message_text(value.deep_view()),
{
    match inner_field(value, "message", "content") {
        Some(Json::Array { items, .. }) => {
            let ghost all = crate::json::views_of(items@);
            proof {
                lemma_views_of(items@);
            }
            let mut i: usize = 0;
            while i < items.len()
                invariant
                    i <= items@.len(),
                    all.len() == items@.len(),
                    forall|k: int| 0 <= k < items@.len() ==> #[trigger] all[k] == view_of(items@[k]),
                    message_text(value.deep_view()) == first_text(all, 0),
                    first_text(all, 0) == first_text(all, i as int),
                decreases items@.len() - i,
            {
                assert(all[i as int] == view_of(items@[i as int]));
                match items[i].field("text") {
                    Some(Json::Text(t)) => {
                        return Some(t.clone());
                    },
                    _ => {},
                }
                i += 1;
            }
            None
        },
        _ => None,
    }
}

/// Whether a line speaks of a limit: by its error, or by its text.
pub open spec fn speaks_of_limit(value: JsonView, text: Seq<char>) -> bool {
    field_of(value, "error"@) == Some(JsonView::Text("rate_limit"@)) || has_part(
        lower_of(text),
        "hit your limit"@,
    )
}

/// The hint in a line of a session log.
pub open spec fn hint_in(value: JsonView) -> Option<HintView> {
    match (field_of(value, "timestamp"@), message_text(value)) {
        (Some(JsonView::Text(timestamp)), Some(text)) => if speaks_of_limit(value, text) {
            Some(HintView { timestamp, reset: reset_in(text) })
        } else {
            None
        },
        _ => None,
    }
}

/// The hint in a line of a session log, where it holds one.
pub fn local_quota_hint_from_line(line: &str) -> (r: Option<QuotaHint>)
    ensures
        r.deep_view() == (match json_of_text(line@) {
            Ok(value) => hint_in(value),
            Err(_) => None,
        }),
{
    match parse_text(line) {
        Ok(value) => quota_hint(&value),
        Err(_) => None,
    }
}

/// The hint in a line of a session log, where it holds one.
pub fn quota_hint(value: &Json) -> (r: Option<QuotaHint>)
    ensures
        r.deep_view() == hint_in(value.deep_view()),
{
    match value.field("timestamp") {
        Some(Json::Text(timestamp)) => match message_in(value) {
            Some(text) => {
                let by_error = match value.field("error") {
                    Some(Json::Text(error)) => same(error.as_str(), "rate_limit"),
                    _ => false,
                };
                if by_error || contains(ascii_lower(text.as_str()).as_str(), "hit your limit") {
                    Some(
                        QuotaHint {
                            timestamp: timestamp.clone(),
                            reset: parse_reset_from_message(text.as_str()),
                        },
                    )
                } else {
                    None
                }
            },
            None => None,
        },
        _ => None,
    }
}

/// The hint with the greater time, as texts go; the first of those with the same.
pub open spec fn newer_hint(latest: Option<HintView>, hint: Option<HintView>) -> Option<HintView> {
    match (latest, hint) {
        (Some(a), Some(b)) => if text_lt(a.timestamp, b.timestamp) {
            hint
        } else {
            latest
        },
        (Some(_), None) => latest,
        (None, _) => hint,
    }
}

/// The latest of the hints in the lines of a session log.
pub open spec fn latest_hint(lines: Seq<Seq<char>>) -> Option<HintView>
    decreases lines.len(),
{
    if lines.len() == 0 {
        None
    } else {
        newer_hint(
            latest_hint(lines.drop_last()),
            match json_of_text(lines.last()) {
                Ok(value) => hint_in(value),
                Err(_) => None,
            },
        )
    }
}

/// The latest of the hints in the lines of session logs.
pub fn latest_quota_hint(lines: &Vec<String>) -> (r: Option<QuotaHint>)
    ensures
        r.deep_view() == latest_hint(lines.deep_view()),
{
    let ghost all = lines.deep_view();
    let mut latest: Option<QuotaHint> = None;
    let mut i: usize = 0;
    while i < lines.len()
        invariant
            i <= lines@.len(),
            all == lines.deep_view(),
            latest.deep_view() == latest_hint(all.take(i as int)),
        decreases lines@.len() - i,
    {
        assert(all.take(i + 1).drop_last() == all.take(i as int));
        assert(all[i as int] == lines@[i as int]@);
        match local_quota_hint_from_line(lines[i].as_str()) {
            Some(hint) => {
                let newer = match &latest {
                    Some(current) => matches!(
                        order(current.timestamp.as_str(), hint.timestamp.as_str()),
                        Order::Before
                    ),
                    None => true,
                };
                if newer {
                    latest = Some(hint);
                }
            },
            None => {},
        }
        i += 1;
    }
    assert(all.take(all.len() as int) == all);
    latest
}

/// Whether a time is at most the length of a session ago.
pub open spec fn within_session(timestamp: Seq<char>, now: Timestamp) -> bool {
    match rfc3339_instant(timestamp) {
        Some(at) => span(at, now) <= SESSION_NANOS,
        None => false,
    }
}

/// Whether a time is at most the length of a session ago.
pub fn timestamp_within_session_window(timestamp: &str, now: Timestamp) -> (r: bool)
    ensures
        r == within_session(timestamp@, now),
{
    match parse_rfc3339(timestamp) {
        Some(at) => nanos_between(at, now) <= SESSION_NANOS,
        None => false,
    }
}

/// The latest hint in the lines of session logs, unless it is too old to trust.
pub fn local_quota_hint(lines: &Vec<String>, now: Timestamp) -> (r: Option<QuotaHint>)
    ensures
        r.deep_view() == (match latest_hint(lines.deep_view()) {
            Some(hint) => if within_session(hint.timestamp, now) {
                Some(hint)
            } else {
                None
            },
            None => None,
        }),
{
    match latest_quota_hint(lines) {
        Some(hint) => if timestamp_within_session_window(hint.timestamp.as_str(), now) {
            Some(hint)
        } else {
            None
        },
        None => None,
    }
}

/// The quota of an account whose limit was hit.
pub fn hint_quota(reset_time: &Option<String>) -> (r: TextMap<Json>)
    ensures
        r.deep_view() == with_text(
            Map::empty().insert("remaining_percent"@, JsonView::Number(nothing_left())).insert(
                "used_percent"@,
                JsonView::Number(all_used()),
            ).insert("quota_scope"@, JsonView::Text("session"@)),
            "reset_time"@,
            reset_time.deep_view(),
        ),
{
    let mut quota: TextMap<Json> = TextMap::new();
    quota.insert("remaining_percent".to_owned(), Json::Number(zero_percent()));
    quota.insert("used_percent".to_owned(), Json::Number(hundred_percent()));
    quota.insert("quota_scope".to_owned(), Json::Text("session".to_owned()));
    insert_text(&mut quota, "reset_time", reset_time);
    quota
}

// ---------------------------------------------------------------------------------------------
// What the terminal program prints
// ---------------------------------------------------------------------------------------------
pub const OSC_PATTERN: &'static str = r"\x1b\][^\x07]*(?:\x07|\x1b\\)";

pub const CSI_PATTERN: &'static str = r"\x1b\[[0-9;?]*[ -/]*[@-~]";

pub const STRAY_PATTERN: &'static str = r"\[[<>=0-9;?A-Za-z]+";

pub const PERCENT_PATTERN: &'static str = r"(?i)(\d+(?:\.\d+)?)%(used|left)";

pub const OUTPUT_RESET_PATTERN: &'static str =
    r"(?i)res\w*?([0-9]{1,2}(?::[0-9]{2})?(?:am|pm)\([^)]+\))";

/// A text without the matches of a pattern.
pub open spec fn stripped(pattern: Seq<char>, text: Seq<char>) -> Seq<char> {
    match without_matches_of(pattern, text) {
        Some(s) => s,
        None => text,
    }
}

fn strip_matches(pattern: &str, text: &str) -> (r: String)
    ensures
        r@ == stripped(pattern@, text@),
{
    match without_matches(pattern, text) {
        Some(s) => s,
        None => text.to_owned(),
    }
}

/// Whether a character is a control character.
pub open spec fn is_control(c: char) -> bool {
    c <= '\u{1f}' || ('\u{7f}' <= c && c <= '\u{9f}')
}

/// Whether a character shows: no control character, and no white space.
pub open spec fn shows(c: char) -> bool {
    !is_control(c) && !is_space(c)
}

/// What a terminal shows of a text, without white space.
pub open spec fn collapsed(raw: Seq<char>) -> Seq<char> {
    stripped(
        STRAY_PATTERN@,
        stripped(CSI_PATTERN@, stripped(OSC_PATTERN@, raw)),
    ).filter(|c: char| shows(c))
}

/// What a terminal shows of a text, without white space.
pub fn collapse_terminal_output(raw_output: &str) -> (r: String)
    ensures
        r@ == collapsed(raw_output@),
{
    let text = strip_matches(OSC_PATTERN, raw_output);
    let text = strip_matches(CSI_PATTERN, text.as_str());
    let text = strip_matches(STRAY_PATTERN, text.as_str());
    let chars = chars_of(text.as_str());
    let mut kept: Vec<char> = Vec::new();
    let mut i: usize = 0;
    let ghost keep = |c: char| shows(c);
    while i < chars.len()
        invariant
            i <= chars@.len(),
            keep == (|c: char| shows(c)),
            kept@ == chars@.take(i as int).filter(keep),
        decreases chars@.len() - i,
    {
        let c = chars[i];
        proof {
            reveal(Seq::filter);
            assert(chars@.take(i + 1).drop_last() == chars@.take(i as int));
        }
        let control = c <= '\u{1f}' || ('\u{7f}' <= c && c <= '\u{9f}');
        if !control && !whitespace(c) {
            kept.push(c);
        }
        i += 1;
    }
    assert(chars@.take(chars@.len() as int) == chars@);
    string_of(&kept)
}

/// How much is used or left, in percent, as the program prints it.
pub struct PrintedPercent {
    pub value: Option<Number>,
    pub word: String,
}

pub struct PrintedPercentView {
    pub value: Option<NumberView>,
    pub word: Seq<char>,
}

impl DeepView for PrintedPercent {
    type V = PrintedPercentView;

    open spec fn deep_view(&self) -> PrintedPercentView {
        PrintedPercentView { value: self.value.deep_view(), word: self.word@ }
    }
}

/// What the program prints of an allowance.
pub struct PrintedQuota {
    pub percent: Option<PrintedPercent>,
    pub reset: Option<ClockTime>,
}

pub struct PrintedQuotaView {
    pub percent: Option<PrintedPercentView>,
    pub reset: Option<ClockTime>,
}

impl DeepView for PrintedQuota {
    type V = PrintedQuotaView;

    open spec fn deep_view(&self) -> PrintedQuotaView {
        PrintedQuotaView { percent: self.percent.deep_view(), reset: self.reset }
    }
}

/// A percentage from its parts; none where a part is missing or the first is no number.
pub open spec fn percent_of(groups: Seq<Option<Seq<char>>>) -> Option<PrintedPercentView> {
    match (group_of(groups, 1), group_of(groups, 2)) {
        (Some(number), Some(word)) => match decimal_number(number) {
            Some(value) => Some(PrintedPercentView { value, word: lower_of(word) }),
            None => None,
        },
        _ => None,
    }
}

/// A percentage from its parts.
pub fn printed_percent(groups: &Vec<Option<String>>) -> (r: Option<PrintedPercent>)
    ensures
        r.deep_view() == percent_of(groups.deep_view()),
{
    match (group(groups, 1), group(groups, 2)) {
        (Some(number), Some(word)) => match number_of_decimal(number.as_str()) {
            Some(value) => Some(PrintedPercent { value, word: ascii_lower(word.as_str()) }),
            None => None,
        },
        _ => None,
    }
}

/// What the program prints of an allowance. Nothing is read where it shows nothing, and where a
/// percentage or a time of day stands there in part.
pub open spec fn printed_in(shown: Seq<char>) -> Option<PrintedQuotaView> {
    if shown.len() == 0 {
        None
    } else {
        let percent = match groups_of(PERCENT_PATTERN@, shown) {
            Some(groups) => match percent_of(groups) {
                Some(p) => Some(Some(p)),
                None => None,
            },
            None => Some(None),
        };
        let reset = match groups_of(OUTPUT_RESET_PATTERN@, shown) {
            Some(groups) => match group_of(groups, 1) {
                Some(time) => Some(meridiem_of(time)),
                None => None,
            },
            None => Some(None),
        };
        match (percent, reset) {
            (Some(percent), Some(reset)) => Some(PrintedQuotaView { percent, reset }),
            _ => None,
        }
    }
}

/// What the program prints of an allowance.
pub fn parse_cli_quota_output(raw_output: &str) -> (r: Option<PrintedQuota>)
    ensures
        r.deep_view() == printed_in(collapsed(raw_output@)),
{
    let shown = collapse_terminal_output(raw_output);
    if shown.as_str().is_empty() {
        return None;
    }
    let percent: Option<PrintedPercent> = match captures(PERCENT_PATTERN, shown.as_str()) {
        Some(groups) => match printed_percent(&groups) {
            Some(p) => Some(p),
            None => {
                return None;
            },
        },
        None => None,
    };
    let reset: Option<ClockTime> = match captures(OUTPUT_RESET_PATTERN, shown.as_str()) {
        Some(groups) => match group(&groups, 1) {
            Some(time) => parse_meridiem_reset(time.as_str()),
            None => {
                return None;
            },
        },
        None => None,
    };
    Some(PrintedQuota { percent, reset })
}

/// A number, or nothing where it is not finite.
pub open spec fn number_or_null(n: Option<NumberView>) -> JsonView {
    match n {
        Some(n) => JsonView::Number(n),
        None => JsonView::Null,
    }
}

fn number_json(n: &Option<Number>) -> (r: Json)
    ensures
        r.deep_view() == number_or_null(n.deep_view()),
{
    match n {
        Some(n) => Json::Number(n.duplicate()),
        None => Json::Null,
    }
}

/// The entries for a percentage that the program prints, and for the rest of the whole.
pub open spec fn with_printed(
    quota: Map<Seq<char>, JsonView>,
    percent: Option<PrintedPercentView>,
    rest: NumberView,
) -> Map<Seq<char>, JsonView> {
    match percent {
        Some(p) => if p.word == "used"@ {
            quota.insert("used_percent"@, number_or_null(p.value)).insert(
                "remaining_percent"@,
                JsonView::Number(rest),
            )
        } else if p.word == "left"@ {
            quota.insert("remaining_percent"@, number_or_null(p.value)).insert(
                "used_percent"@,
                JsonView::Number(rest),
            )
        } else {
            quota
        },
        None => quota,
    }
}

/// The quota that the program prints. `rest` is what the percentage leaves of the whole.
pub open spec fn printed_entries(
    percent: Option<PrintedPercentView>,
    rest: NumberView,
    reset_time: Option<Seq<char>>,
) -> Map<Seq<char>, JsonView> {
    with_text(with_printed(Map::empty(), percent, rest), "reset_time"@, reset_time)
}

/// The quota that the program prints; none where it has no entry.
pub fn printed_quota(printed: &PrintedQuota, rest: &Number, reset_time: &Option<String>) -> (r:
    Option<TextMap<Json>>)
    ensures
        ({
            let entries = printed_entries(
                printed.percent.deep_view(),
                rest.deep_view(),
                reset_time.deep_view(),
            );
            match r {
                Some(q) => entries != Map::<Seq<char>, JsonView>::empty() && q.deep_view() == entries,
                None => entries == Map::<Seq<char>, JsonView>::empty(),
            }
        }),
{
    let mut quota: TextMap<Json> = TextMap::new();
    match &printed.percent {
        Some(p) => {
            if same(p.word.as_str(), "used") {
                quota.insert("used_percent".to_owned(), number_json(&p.value));
                quota.insert("remaining_percent".to_owned(), Json::Number(rest.duplicate()));
            } else if same(p.word.as_str(), "left") {
                quota.insert("remaining_percent".to_owned(), number_json(&p.value));
                quota.insert("used_percent".to_owned(), Json::Number(rest.duplicate()));
            }
        },
        None => {},
    }
    insert_text(&mut quota, "reset_time", reset_time);
    if quota.is_empty() {
        None
    } else {
        Some(quota)
    }
}

} // verus!
