//! The allowance of a Codex account: what its service says, and what its session logs show.
use vstd::prelude::*;

use crate::json::{
    Json, JsonView, Number, NumberView, a_changed_field_is_read_back, field_of, json_of_bytes,
    json_of_text, parse_bytes,
    parse_text, text_in,
};
use crate::quota::{
    CredentialEdit, EditValue, EditValueView, EditView, HttpReply, HttpRequest, ReadingView,
    WindowQuota, WindowReading, a_text_edit_is_read_back, bits_in, bits_of, edit_json, edited,
    edits_are_made_in_order, field2, filled, filled_text, header_pairs,
    inner_field, insert_main_window, insert_text, insert_window, push_text_edit, text_edit, text_of,
    with_main, with_text, with_window,
};
use crate::text::{
    Order, ascii_lower, join2, join3, lower_of, order, same, strip_prefix, strip_prefix_of, text_lt,
};
use crate::text_map::TextMap;
use crate::time::{
    FIRST_SECOND, LAST_SECOND, Timestamp, at_second, in_calendar, rfc3339_of, second_of, shift,
    shifted, shifted_secs, write_rfc3339,
};
use crate::usage::filter::{decimal_number, number_of_decimal};

verus! {

pub const CODEX_PLUGIN_ID: &'static str = "codex";

pub const CODEX_USAGE_URL: &'static str = "https://chatgpt.com/backend-api/wham/usage";

pub const CODEX_REFRESH_URL: &'static str = "https://auth.openai.com/oauth/token";

pub const CODEX_CLIENT_ID: &'static str = "app_EMoamEEZ73f0CkXaXp7hrann";

/// What a service said of an allowance, and the credential as it stands after a refresh.
pub struct CodexQuotaProbe {
    pub quota: TextMap<Json>,
    pub updated_credentials: Option<Vec<u8>>,
}

pub enum CodexError {
    ParseCredentials,
    MissingAccessToken,
    MissingRefreshToken,
    ApiRequest { url: String, message: String },
    AuthenticationRequired,
}

pub enum CodexErrorView {
    ParseCredentials,
    MissingAccessToken,
    MissingRefreshToken,
    ApiRequest { url: Seq<char>, message: Seq<char> },
    AuthenticationRequired,
}

impl DeepView for CodexError {
    type V = CodexErrorView;

    open spec fn deep_view(&self) -> CodexErrorView {
        match *self {
            CodexError::ParseCredentials => CodexErrorView::ParseCredentials,
            CodexError::MissingAccessToken => CodexErrorView::MissingAccessToken,
            CodexError::MissingRefreshToken => CodexErrorView::MissingRefreshToken,
            CodexError::ApiRequest { url, message } => CodexErrorView::ApiRequest {
                url: url@,
                message: message@,
            },
            CodexError::AuthenticationRequired => CodexErrorView::AuthenticationRequired,
        }
    }
}

impl CodexErrorView {
    /// The error in words.
    pub open spec fn text(self) -> Seq<char> {
        match self {
            CodexErrorView::ParseCredentials => "failed to parse Codex credentials"@,
            CodexErrorView::MissingAccessToken =>
                "Codex credentials do not contain an access token"@,
            CodexErrorView::MissingRefreshToken =>
                "Codex credentials do not contain a refresh token"@,
            CodexErrorView::ApiRequest { url, message } => "Codex usage API request to "@ + url
                + " failed: "@ + message,
            CodexErrorView::AuthenticationRequired => "Codex authentication is required"@,
        }
    }
}

impl CodexError {
    /// The error in words.
    pub fn message(&self) -> (r: String)
        ensures
            r@ == self.deep_view().text(),
    {
        match self {
            CodexError::ParseCredentials => "failed to parse Codex credentials".to_owned(),
            CodexError::MissingAccessToken =>
                "Codex credentials do not contain an access token".to_owned(),
            CodexError::MissingRefreshToken =>
                "Codex credentials do not contain a refresh token".to_owned(),
            CodexError::ApiRequest { url, message } => join3(
                join2("Codex usage API request to ", url.as_str()).as_str(),
                " failed: ",
                message.as_str(),
            ),
            CodexError::AuthenticationRequired => "Codex authentication is required".to_owned(),
        }
    }
}

/// The credential that bytes hold, if they hold one.
pub fn parse_credentials(bytes: &[u8]) -> (r: Result<Json, CodexError>)
    ensures
        match json_of_bytes(bytes@) {
            Ok(v) => r matches Ok(value) && value.deep_view() == v,
            Err(_) => r matches Err(e) && e.deep_view() == CodexErrorView::ParseCredentials,
        },
{
    match parse_bytes(bytes) {
        Ok(value) => Ok(value),
        Err(_) => Err(CodexError::ParseCredentials),
    }
}

// ---------------------------------------------------------------------------------------------
// Asking the service
// ---------------------------------------------------------------------------------------------
/// A text among the tokens of a credential, where it is there and not empty.
pub open spec fn token_text(credentials: JsonView, field: Seq<char>) -> Option<Seq<char>> {
    filled_text(field2(credentials, "tokens"@, field))
}

/// The access token of a credential.
pub fn access_token(credentials: &Json) -> (r: Result<String, CodexError>)
    ensures
        match token_text(credentials.deep_view(), "access_token"@) {
            Some(token) => r matches Ok(t) && t@ == token,
            None => r matches Err(e) && e.deep_view() == CodexErrorView::MissingAccessToken,
        },
{
    match filled(inner_field(credentials, "tokens", "access_token")) {
        Some(token) => Ok(token),
        None => Err(CodexError::MissingAccessToken),
    }
}

/// The headers of a request for the state of the allowance.
pub open spec fn usage_headers(token: Seq<char>, account_id: Option<Seq<char>>) -> Seq<
    (Seq<char>, Seq<char>),
> {
    let headers = seq![
        ("Authorization"@, "Bearer "@ + token),
        ("Accept"@, "application/json"@),
        ("User-Agent"@, "aswitch"@),
    ];
    match account_id {
        Some(id) => headers.push(("ChatGPT-Account-Id"@, id)),
        None => headers,
    }
}

/// The request for the state of the allowance; it needs an access token.
pub fn usage_request(credentials: &Json) -> (r: Result<HttpRequest, CodexError>)
    ensures
        match token_text(credentials.deep_view(), "access_token"@) {
            Some(token) => r matches Ok(request) && request.url@ == CODEX_USAGE_URL@
                && header_pairs(request.headers@) == usage_headers(
                token,
                token_text(credentials.deep_view(), "account_id"@),
            ),
            None => r matches Err(e) && e.deep_view() == CodexErrorView::MissingAccessToken,
        },
{
    match access_token(credentials) {
        Ok(token) => {
            let mut headers: Vec<(String, String)> = Vec::new();
            headers.push(("Authorization".to_owned(), join2("Bearer ", token.as_str())));
            headers.push(("Accept".to_owned(), "application/json".to_owned()));
            headers.push(("User-Agent".to_owned(), "aswitch".to_owned()));
            assert(header_pairs(headers@) == usage_headers(token@, None));
            let ghost before = headers@;
            match filled(inner_field(credentials, "tokens", "account_id")) {
                Some(id) => {
                    let ghost i = id@;
                    headers.push(("ChatGPT-Account-Id".to_owned(), id));
                    assert(header_pairs(headers@) == header_pairs(before).push(
                        ("ChatGPT-Account-Id"@, i),
                    ));
                },
                None => {},
            }
            Ok(HttpRequest { url: CODEX_USAGE_URL.to_owned(), headers })
        },
        Err(e) => Err(e),
    }
}

/// What a request came to: a value, or an error. `login` are the statuses that ask for a new login.
pub open spec fn reply_outcome(reply: HttpReply, url: Seq<char>, login: Set<u16>) -> Result<
    JsonView,
    CodexErrorView,
> {
    match reply {
        HttpReply::Value(value) => Ok(value.deep_view()),
        HttpReply::NoJson(message) => Err(
            CodexErrorView::ApiRequest { url, message: message@ },
        ),
        HttpReply::Transport(message) => Err(
            CodexErrorView::ApiRequest { url, message: message@ },
        ),
        HttpReply::Status { code, body, .. } => if login.contains(code) {
            Err(CodexErrorView::AuthenticationRequired)
        } else {
            Err(CodexErrorView::ApiRequest { url, message: body@ })
        },
    }
}

pub open spec fn outcome_view(r: Result<Json, CodexError>) -> Result<JsonView, CodexErrorView> {
    match r {
        Ok(v) => Ok(v.deep_view()),
        Err(e) => Err(e.deep_view()),
    }
}

fn read_reply(reply: HttpReply, url: &str, login: u16, also_login: u16) -> (r: Result<
    Json,
    CodexError,
>)
    ensures
        outcome_view(r) == reply_outcome(reply, url@, set![login, also_login]),
{
    match reply {
        HttpReply::Value(value) => Ok(value),
        HttpReply::NoJson(message) => Err(CodexError::ApiRequest { url: url.to_owned(), message }),
        HttpReply::Transport(message) => Err(
            CodexError::ApiRequest { url: url.to_owned(), message },
        ),
        HttpReply::Status { code, body, .. } => if code == login || code == also_login {
            Err(CodexError::AuthenticationRequired)
        } else {
            Err(CodexError::ApiRequest { url: url.to_owned(), message: body })
        },
    }
}

/// What the service said of the allowance.
pub fn read_usage_reply(reply: HttpReply) -> (r: Result<Json, CodexError>)
    ensures
        outcome_view(r) == reply_outcome(reply, CODEX_USAGE_URL@, set![401u16, 403u16]),
{
    read_reply(reply, CODEX_USAGE_URL, 401, 403)
}

/// What the service said to a request for new tokens.
pub fn read_refresh_reply(reply: HttpReply) -> (r: Result<Json, CodexError>)
    ensures
        outcome_view(r) == reply_outcome(reply, CODEX_REFRESH_URL@, set![400u16, 401u16]),
{
    read_reply(reply, CODEX_REFRESH_URL, 400, 401)
}

/// Whether a byte stands for itself in a form: a letter, a digit, or one of `-`, `_`, `.`, `~`.
pub open spec fn is_plain(b: u8) -> bool {
    let c = b as char;
    ('0' <= c <= '9') || ('A' <= c <= 'Z') || ('a' <= c <= 'z') || c == '-' || c == '_' || c == '.'
        || c == '~'
}

/// The hexadecimal digit for a number below sixteen.
pub open spec fn hex_digit(d: u8) -> char {
    if d < 10 {
        ('0' as int + d) as char
    } else {
        ('A' as int + (d - 10)) as char
    }
}

/// Bytes as a form writes them.
pub open spec fn percent_encoded(bytes: Seq<u8>) -> Seq<char>
    decreases bytes.len(),
{
    if bytes.len() == 0 {
        seq![]
    } else {
        let b = bytes.last();
        percent_encoded(bytes.drop_last()) + if is_plain(b) {
            seq![b as char]
        } else {
            seq!['%', hex_digit((b / 16) as u8), hex_digit((b % 16) as u8)]
        }
    }
}

/// `urlencoding::encode`: every byte of the UTF-8 text that is no letter, no digit and none of `-`,
/// `_`, `.`, `~` becomes a percent sign and two upper case hexadecimal digits; the others stay.
#[verifier::external_body]
fn encode_component(text: &str) -> (r: String)
    ensures
        r@ == percent_encoded(vstd::utf8::encode_utf8(text@)),
{
    urlencoding::encode(text).into_owned()
}

/// The form of a request for new tokens.
pub open spec fn refresh_form(token: Seq<char>) -> Seq<char> {
    "grant_type=refresh_token&client_id="@ + CODEX_CLIENT_ID@ + "&refresh_token="@
        + percent_encoded(vstd::utf8::encode_utf8(token))
}

/// The form of a request for new tokens; it needs a refresh token.
pub fn refresh_body(credentials: &Json) -> (r: Result<String, CodexError>)
    ensures
        match token_text(credentials.deep_view(), "refresh_token"@) {
            Some(token) => r matches Ok(body) && body@ == refresh_form(token),
            None => r matches Err(e) && e.deep_view() == CodexErrorView::MissingRefreshToken,
        },
{
    match filled(inner_field(credentials, "tokens", "refresh_token")) {
        Some(token) => Ok(
            join3(
                join2("grant_type=refresh_token&client_id=", CODEX_CLIENT_ID).as_str(),
                "&refresh_token=",
                encode_component(token.as_str()).as_str(),
            ),
        ),
        None => Err(CodexError::MissingRefreshToken),
    }
}

/// The change of the time of the last refresh.
pub open spec fn refresh_time_edit(credentials: JsonView, now: Timestamp) -> Seq<EditView> {
    match (field_of(credentials, "last_refresh"@), rfc3339_of(now.secs, now.nanos)) {
        (Some(_), Some(time)) => seq![
            EditView { outer: None, field: "last_refresh"@, value: EditValueView::Text(time) },
        ],
        _ => seq![],
    }
}

/// What new tokens change in a credential, or that there are none.
pub open spec fn refresh_outcome(
    credentials: JsonView,
    refreshed: JsonView,
    now: Timestamp,
) -> Result<Seq<EditView>, CodexErrorView> {
    match filled_text(field_of(refreshed, "access_token"@)) {
        None => Err(
            CodexErrorView::ApiRequest {
                url: CODEX_REFRESH_URL@,
                message: "refresh response did not contain access_token"@,
            },
        ),
        Some(token) => Ok(
            text_edit(credentials, "tokens"@, "access_token"@, Some(token)) + text_edit(
                credentials,
                "tokens"@,
                "refresh_token"@,
                filled_text(field_of(refreshed, "refresh_token"@)),
            ) + text_edit(
                credentials,
                "tokens"@,
                "id_token"@,
                filled_text(field_of(refreshed, "id_token"@)),
            ) + refresh_time_edit(credentials, now),
        ),
    }
}

/// What new tokens change in a credential.
pub fn refresh_edits(credentials: &Json, refreshed: &Json, now: Timestamp) -> (r: Result<
    Vec<CredentialEdit>,
    CodexError,
>)
    requires
        in_calendar(now),
    ensures
        match r {
            Ok(edits) => refresh_outcome(credentials.deep_view(), refreshed.deep_view(), now) == Ok::<
                Seq<EditView>,
                CodexErrorView,
            >(edits.deep_view()),
            Err(e) => refresh_outcome(credentials.deep_view(), refreshed.deep_view(), now) == Err::<
                Seq<EditView>,
                CodexErrorView,
            >(e.deep_view()),
        },
{
    match filled(refreshed.field("access_token")) {
        None => Err(
            CodexError::ApiRequest {
                url: CODEX_REFRESH_URL.to_owned(),
                message: "refresh response did not contain access_token".to_owned(),
            },
        ),
        Some(token) => {
            let ghost c = credentials.deep_view();
            let ghost t = token@;
            let mut edits: Vec<CredentialEdit> = Vec::new();
            push_text_edit(&mut edits, credentials, "tokens", "access_token", Some(token));
            assert(Seq::<EditView>::empty() + text_edit(c, "tokens"@, "access_token"@, Some(t))
                == text_edit(c, "tokens"@, "access_token"@, Some(t)));
            push_text_edit(
                &mut edits,
                credentials,
                "tokens",
                "refresh_token",
                filled(refreshed.field("refresh_token")),
            );
            push_text_edit(
                &mut edits,
                credentials,
                "tokens",
                "id_token",
                filled(refreshed.field("id_token")),
            );
            let ghost before = edits.deep_view();
            assert(before + Seq::<EditView>::empty() == before);
            if credentials.field("last_refresh").is_some() {
                match write_rfc3339(now) {
                    Some(time) => {
                        edits.push(
                            CredentialEdit {
                                outer: None,
                                field: "last_refresh".to_owned(),
                                value: EditValue::Text(time),
                            },
                        );
                        assert(edits.deep_view() == before + refresh_time_edit(c, now));
                    },
                    None => {},
                }
            }
            Ok(edits)
        },
    }
}

/// A token after a refresh: the new one, where there is one and a place for it, or else the old one.
pub open spec fn renewed(credentials: JsonView, refreshed: JsonView, field: Seq<char>) -> Option<
    Seq<char>,
> {
    let new = filled_text(field_of(refreshed, field));
    if new is Some && field2(credentials, "tokens"@, field) is Some {
        new
    } else {
        token_text(credentials, field)
    }
}

/// New tokens take the place of the old ones: the next request carries the new access token, and a
/// later refresh the new refresh token. Nothing else in the credential changes but the time of the
/// last refresh.
pub proof fn new_tokens_are_used(
    credentials: JsonView,
    refreshed: JsonView,
    now: Timestamp,
    edits: Seq<EditView>,
)
    requires
        refresh_outcome(credentials, refreshed, now) == Ok::<Seq<EditView>, CodexErrorView>(edits),
    ensures
        ({
            let after = edited(credentials, edits);
            &&& field2(credentials, "tokens"@, "access_token"@) is Some ==> token_text(
                after,
                "access_token"@,
            ) is Some && token_text(after, "access_token"@) == filled_text(
                field_of(refreshed, "access_token"@),
            )
            &&& token_text(after, "refresh_token"@) == renewed(
                credentials,
                refreshed,
                "refresh_token"@,
            )
            &&& token_text(after, "id_token"@) == renewed(credentials, refreshed, "id_token"@)
            &&& forall|b: Seq<char>|
                b != "access_token"@ && b != "refresh_token"@ && b != "id_token"@
                    ==> #[trigger] field2(after, "tokens"@, b) == field2(credentials, "tokens"@, b)
            &&& forall|a: Seq<char>|
                a != "tokens"@ && a != "last_refresh"@ ==> #[trigger] field_of(after, a) == field_of(
                    credentials,
                    a,
                )
        }),
{
    reveal_strlit("access_token");
    reveal_strlit("refresh_token");
    reveal_strlit("id_token");
    reveal_strlit("tokens");
    reveal_strlit("last_refresh");
    let outer = "tokens"@;
    let new_access = filled_text(field_of(refreshed, "access_token"@));
    let new_refresh = filled_text(field_of(refreshed, "refresh_token"@));
    let new_id = filled_text(field_of(refreshed, "id_token"@));
    let first = text_edit(credentials, outer, "access_token"@, new_access);
    let second = text_edit(credentials, outer, "refresh_token"@, new_refresh);
    let third = text_edit(credentials, outer, "id_token"@, new_id);
    let fourth = refresh_time_edit(credentials, now);
    assert("access_token"@.len() == 12 && "refresh_token"@.len() == 13 && "id_token"@.len() == 8);
    assert("tokens"@.len() == 6 && "last_refresh"@.len() == 12);
    edits_are_made_in_order(credentials, first + second + third, fourth);
    edits_are_made_in_order(credentials, first + second, third);
    edits_are_made_in_order(credentials, first, second);
    let one = edited(credentials, first);
    a_text_edit_is_read_back(credentials, credentials, outer, "access_token"@, new_access);
    assert(field2(one, outer, "refresh_token"@) == field2(credentials, outer, "refresh_token"@));
    assert(field2(one, outer, "id_token"@) == field2(credentials, outer, "id_token"@));
    let two = edited(one, second);
    a_text_edit_is_read_back(credentials, one, outer, "refresh_token"@, new_refresh);
    assert(field2(two, outer, "access_token"@) == field2(one, outer, "access_token"@));
    assert(field2(two, outer, "id_token"@) == field2(one, outer, "id_token"@));
    let three = edited(two, third);
    a_text_edit_is_read_back(credentials, two, outer, "id_token"@, new_id);
    assert(field2(three, outer, "access_token"@) == field2(two, outer, "access_token"@));
    assert(field2(three, outer, "refresh_token"@) == field2(two, outer, "refresh_token"@));
    let after = edited(three, fourth);
    assert forall|a: Seq<char>| a != "last_refresh"@ implies #[trigger] field_of(after, a)
        == field_of(three, a) by {
        if fourth.len() > 0 {
            let edit = fourth[0];
            assert(fourth.drop_last() == Seq::<EditView>::empty());
            assert(edited(three, fourth.drop_last()) == three);
            a_changed_field_is_read_back(three, edit.field, edit_json(edit.value), a);
        }
    }
    assert(field_of(after, outer) == field_of(three, outer));
    assert forall|b: Seq<char>|
        b != "access_token"@ && b != "refresh_token"@ && b != "id_token"@ implies #[trigger] field2(
        after,
        outer,
        b,
    ) == field2(credentials, outer, b) by {
        assert(field2(three, outer, b) == field2(two, outer, b));
        assert(field2(two, outer, b) == field2(one, outer, b));
        assert(field2(one, outer, b) == field2(credentials, outer, b));
    }
    assert forall|a: Seq<char>| a != outer && a != "last_refresh"@ implies #[trigger] field_of(
        after,
        a,
    ) == field_of(credentials, a) by {
        assert(field_of(three, a) == field_of(two, a));
        assert(field_of(two, a) == field_of(one, a));
        assert(field_of(one, a) == field_of(credentials, a));
    }
}

/// Where a question for the allowance stands: the service is to be asked, new tokens are to be
/// fetched, or it is over.
pub enum QuotaFetch {
    Ask { refreshed: bool },
    Refresh,
    Done(Result<Json, CodexError>),
}

/// How to start.
pub fn begin_fetch() -> (r: QuotaFetch)
    ensures
        r == (QuotaFetch::Ask { refreshed: false }),
{
    QuotaFetch::Ask { refreshed: false }
}

/// What to do after the service was asked: where it wants a new login, new tokens are fetched, once.
pub fn after_asking(refreshed: bool, outcome: Result<Json, CodexError>) -> (r: QuotaFetch)
    ensures
        r == if outcome matches Err(CodexError::AuthenticationRequired) && !refreshed {
            QuotaFetch::Refresh
        } else {
            QuotaFetch::Done(outcome)
        },
{
    match outcome {
        Err(CodexError::AuthenticationRequired) => if refreshed {
            QuotaFetch::Done(Err(CodexError::AuthenticationRequired))
        } else {
            QuotaFetch::Refresh
        },
        other => QuotaFetch::Done(other),
    }
}

/// What to do after new tokens were asked for: ask the service again, or give up.
pub fn after_refreshing(failure: Option<CodexError>) -> (r: QuotaFetch)
    ensures
        r == match failure {
            None => QuotaFetch::Ask { refreshed: true },
            Some(e) => QuotaFetch::Done(Err(e)),
        },
{
    match failure {
        None => QuotaFetch::Ask { refreshed: true },
        Some(e) => QuotaFetch::Done(Err(e)),
    }
}

// ---------------------------------------------------------------------------------------------
// Windows
// ---------------------------------------------------------------------------------------------
/// A text without a sign in front.
pub open spec fn unsigned_text(s: Seq<char>) -> Seq<char> {
    match strip_prefix_of(s, "+"@) {
        Some(t) => t,
        None => match strip_prefix_of(s, "-"@) {
            Some(t) => t,
            None => s,
        },
    }
}

/// The number that a JSON number or a text writes: none where it is none, an inner none where it is
/// not finite.
pub open spec fn number_in(value: JsonView) -> Option<Option<NumberView>> {
    match value {
        JsonView::Number(n) => decimal_number(n.text),
        JsonView::Text(s) => decimal_number(s),
        _ => None,
    }
}

/// The number that a JSON number or a text is.
pub fn number_from_value(value: &Json) -> (r: Option<Option<Number>>)
    ensures
        r.deep_view() == number_in(value.deep_view()),
{
    match value {
        Json::Number(n) => number_of_decimal(n.text.as_str()),
        Json::Text(s) => number_of_decimal(s.as_str()),
        _ => None,
    }
}

/// The whole part of the number that a value is. What is no number at all counts as zero, and an
/// infinite one has no whole part that is a time.
pub open spec fn whole_in(value: JsonView) -> Option<Option<i64>> {
    match number_in(value) {
        None => None,
        Some(Some(n)) => Some(n.whole),
        Some(None) => match value {
            JsonView::Text(s) => if lower_of(unsigned_text(s)) == "nan"@ {
                Some(Some(0))
            } else {
                Some(None)
            },
            _ => Some(None),
        },
    }
}

fn whole_of(value: &Json) -> (r: Option<Option<i64>>)
    ensures
        r == whole_in(value.deep_view()),
{
    match number_from_value(value) {
        None => None,
        Some(Some(n)) => Some(n.whole),
        Some(None) => match value {
            Json::Text(s) => {
                let plain = match strip_prefix(s.as_str(), "+") {
                    Some(t) => t,
                    None => match strip_prefix(s.as_str(), "-") {
                        Some(t) => t,
                        None => s.clone(),
                    },
                };
                if same(ascii_lower(plain.as_str()).as_str(), "nan") {
                    Some(Some(0))
                } else {
                    Some(None)
                }
            },
            _ => Some(None),
        },
    }
}

/// The text for a whole second, where the calendar covers it.
pub open spec fn second_text(secs: Option<i64>) -> Option<Seq<char>> {
    match secs {
        Some(s) => match second_of(s) {
            Some(t) => rfc3339_of(t.secs, t.nanos),
            None => None,
        },
        None => None,
    }
}

/// The text for a whole second, where the calendar covers it.
pub fn unix_seconds_to_rfc3339(secs: Option<i64>) -> (r: Option<String>)
    ensures
        r.deep_view() == second_text(secs),
{
    match secs {
        Some(s) => match at_second(s) {
            Some(t) => write_rfc3339(t),
            None => None,
        },
        None => None,
    }
}

/// The whole number that the field `name` is.
pub open spec fn whole_field(window: JsonView, name: Seq<char>) -> Option<Option<i64>> {
    match field_of(window, name) {
        Some(v) => whole_in(v),
        None => None,
    }
}

fn whole_under(window: &Json, name: &str) -> (r: Option<Option<i64>>)
    ensures
        r == whole_field(window.deep_view(), name@),
{
    match window.field(name) {
        Some(v) => whole_of(v),
        None => None,
    }
}

/// The text for the time some seconds after `now`, where the calendar covers it.
pub open spec fn later_text(now: Timestamp, secs: Option<i64>) -> Option<Seq<char>> {
    match secs {
        Some(s) => if FIRST_SECOND <= shifted_secs(now, s as int) <= LAST_SECOND {
            let at = shifted(now, s as int);
            rfc3339_of(at.secs, at.nanos)
        } else {
            None
        },
        None => None,
    }
}

/// When a window is whole again: at a time that it names, or else after the seconds that it names.
pub open spec fn reset_of(window: JsonView, now: Timestamp) -> Option<Seq<char>> {
    match whole_field(window, "reset_at"@) {
        Some(secs) => second_text(secs),
        None => match whole_field(window, "reset_after_seconds"@) {
            Some(secs) => later_text(now, secs),
            None => None,
        },
    }
}

/// When a window is whole again.
pub fn window_reset_from_api(window: &Json, now: Timestamp) -> (r: Option<String>)
    requires
        in_calendar(now),
    ensures
        r.deep_view() == reset_of(window.deep_view(), now),
{
    match whole_under(window, "reset_at") {
        Some(secs) => unix_seconds_to_rfc3339(secs),
        None => match whole_under(window, "reset_after_seconds") {
            Some(Some(s)) => {
                let leap: i128 = if s < 0 && now.nanos >= 1_000_000_000 {
                    1
                } else {
                    0
                };
                let at: i128 = now.secs as i128 + leap + s as i128;
                if FIRST_SECOND as i128 <= at && at <= LAST_SECOND as i128 {
                    write_rfc3339(shift(now, s))
                } else {
                    None
                }
            },
            _ => None,
        },
    }
}

/// The windows that the service speaks of.
pub struct CodexReadings {
    pub session: Option<WindowReading>,
    pub weekly: Option<WindowReading>,
}

pub struct CodexWindows {
    pub session: Option<WindowQuota>,
    pub weekly: Option<WindowQuota>,
}

/// A window that a service describes: it needs a number for how much is used.
pub open spec fn api_window(value: JsonView, name: Seq<char>, now: Timestamp) -> Option<ReadingView> {
    match field2(value, "rate_limit"@, name) {
        Some(w) => match bits_in(field_of(w, "used_percent"@)) {
            Some(used_bits) => Some(ReadingView { used_bits, reset_time: reset_of(w, now) }),
            None => None,
        },
        None => None,
    }
}

fn read_api_window(value: &Json, name: &str, now: Timestamp) -> (r: Option<WindowReading>)
    requires
        in_calendar(now),
    ensures
        r.deep_view() == api_window(value.deep_view(), name@, now),
{
    match inner_field(value, "rate_limit", name) {
        Some(w) => match bits_of(w.field("used_percent")) {
            Some(used_bits) => Some(
                WindowReading { used_bits, reset_time: window_reset_from_api(w, now) },
            ),
            None => None,
        },
        None => None,
    }
}

/// The windows in an answer of the service.
pub fn usage_windows(value: &Json, now: Timestamp) -> (r: CodexReadings)
    requires
        in_calendar(now),
    ensures
        r.session.deep_view() == api_window(value.deep_view(), "primary_window"@, now),
        r.weekly.deep_view() == api_window(value.deep_view(), "secondary_window"@, now),
{
    CodexReadings {
        session: read_api_window(value, "primary_window", now),
        weekly: read_api_window(value, "secondary_window", now),
    }
}

/// The entry for what is left of a balance; one that is not finite is nothing.
pub open spec fn with_balance(quota: Map<Seq<char>, JsonView>, value: JsonView) -> Map<
    Seq<char>,
    JsonView,
> {
    match field2(value, "credits"@, "balance"@) {
        Some(v) => match number_in(v) {
            Some(Some(n)) => quota.insert("credits_balance"@, JsonView::Number(n)),
            Some(None) => quota.insert("credits_balance"@, JsonView::Null),
            None => quota,
        },
        None => quota,
    }
}

/// The quota that an answer of the service and its windows make.
pub fn quota_from_usage_response(value: &Json, windows: &CodexWindows) -> (r: TextMap<Json>)
    ensures
        r.deep_view() == ({
            let q = with_text(
                Map::empty(),
                "plan"@,
                filled_text(field_of(value.deep_view(), "plan_type"@)),
            );
            let q = with_balance(q, value.deep_view());
            let q = with_window(q, "session"@, windows.session.deep_view());
            let q = with_window(q, "weekly"@, windows.weekly.deep_view());
            with_main(q, windows.session.deep_view(), windows.weekly.deep_view())
        }),
{
    let mut quota: TextMap<Json> = TextMap::new();
    let plan = filled(value.field("plan_type"));
    insert_text(&mut quota, "plan", &plan);
    match inner_field(value, "credits", "balance") {
        Some(v) => match number_from_value(v) {
            Some(Some(n)) => {
                quota.insert("credits_balance".to_owned(), Json::Number(n));
            },
            Some(None) => {
                quota.insert("credits_balance".to_owned(), Json::Null);
            },
            None => {},
        },
        None => {},
    }
    insert_window(&mut quota, "session", &windows.session);
    insert_window(&mut quota, "weekly", &windows.weekly);
    insert_main_window(&mut quota, &windows.session, &windows.weekly);
    quota
}

// ---------------------------------------------------------------------------------------------
// Session logs
// ---------------------------------------------------------------------------------------------
/// A line of a session log that counts tokens: when it was written, the plan, and the windows.
pub struct LimitLine {
    pub timestamp: String,
    pub plan: Option<String>,
    pub session: Option<WindowReading>,
    pub weekly: Option<WindowReading>,
}

pub struct LimitLineView {
    pub timestamp: Seq<char>,
    pub plan: Option<Seq<char>>,
    pub session: Option<ReadingView>,
    pub weekly: Option<ReadingView>,
}

impl DeepView for LimitLine {
    type V = LimitLineView;

    open spec fn deep_view(&self) -> LimitLineView {
        LimitLineView {
            timestamp: self.timestamp@,
            plan: self.plan.deep_view(),
            session: self.session.deep_view(),
            weekly: self.weekly.deep_view(),
        }
    }
}

/// A window that a log describes: it needs a number for how much is used.
pub open spec fn log_window(limits: JsonView, name: Seq<char>) -> Option<ReadingView> {
    match field_of(limits, name) {
        Some(w) => match bits_in(field_of(w, "used_percent"@)) {
            Some(used_bits) => Some(
                ReadingView {
                    used_bits,
                    reset_time: match whole_field(w, "resets_at"@) {
                        Some(secs) => second_text(secs),
                        None => None,
                    },
                },
            ),
            None => None,
        },
        None => None,
    }
}

fn read_log_window(limits: &Json, name: &str) -> (r: Option<WindowReading>)
    ensures
        r.deep_view() == log_window(limits.deep_view(), name@),
{
    match limits.field(name) {
        Some(w) => match bits_of(w.field("used_percent")) {
            Some(used_bits) => {
                let reset_time = match whole_under(w, "resets_at") {
                    Some(secs) => unix_seconds_to_rfc3339(secs),
                    None => None,
                };
                Some(WindowReading { used_bits, reset_time })
            },
            None => None,
        },
        None => None,
    }
}

/// What a line of a session log says of the limits.
pub open spec fn limits_in(value: JsonView) -> Option<LimitLineView> {
    if field_of(value, "type"@) == Some(JsonView::Text("event_msg"@)) && field2(
        value,
        "payload"@,
        "type"@,
    ) == Some(JsonView::Text("token_count"@)) {
        match (field_of(value, "timestamp"@), field2(value, "payload"@, "rate_limits"@)) {
            (Some(JsonView::Text(timestamp)), Some(limits)) => Some(
                LimitLineView {
                    timestamp,
                    plan: match field2(value, "payload"@, "plan_type"@) {
                        Some(v) => text_in(v),
                        None => None,
                    },
                    session: log_window(limits, "primary"@),
                    weekly: log_window(limits, "secondary"@),
                },
            ),
            _ => None,
        }
    } else {
        None
    }
}

fn is_text(value: Option<&Json>, text: &str) -> (r: bool)
    ensures
        r == (value.deep_view() == Some(JsonView::Text(text@))),
{
    match value {
        Some(Json::Text(s)) => same(s.as_str(), text),
        _ => false,
    }
}

/// What a line of a session log says of the limits.
pub fn limit_line(value: &Json) -> (r: Option<LimitLine>)
    ensures
        r.deep_view() == limits_in(value.deep_view()),
{
    if is_text(value.field("type"), "event_msg") && is_text(
        inner_field(value, "payload", "type"),
        "token_count",
    ) {
        match value.field("timestamp") {
            Some(Json::Text(timestamp)) => match inner_field(value, "payload", "rate_limits") {
                Some(limits) => Some(
                    LimitLine {
                        timestamp: timestamp.clone(),
                        plan: text_of(inner_field(value, "payload", "plan_type")),
                        session: read_log_window(limits, "primary"),
                        weekly: read_log_window(limits, "secondary"),
                    },
                ),
                None => None,
            },
            _ => None,
        }
    } else {
        None
    }
}

/// What a line of a session log says of the limits, where it does.
pub fn local_quota_summary_from_line(line: &str) -> (r: Option<LimitLine>)
    ensures
        r.deep_view() == (match json_of_text(line@) {
            Ok(value) => limits_in(value),
            Err(_) => None,
        }),
{
    match parse_text(line) {
        Ok(value) => limit_line(&value),
        Err(_) => None,
    }
}

/// The line with the greater time, as texts go; the first of those with the same.
pub open spec fn newer_line(latest: Option<LimitLineView>, line: Option<LimitLineView>) -> Option<
    LimitLineView,
> {
    match (latest, line) {
        (Some(a), Some(b)) => if text_lt(a.timestamp, b.timestamp) {
            line
        } else {
            latest
        },
        (Some(_), None) => latest,
        (None, _) => line,
    }
}

/// The latest of the lines that speak of the limits.
pub open spec fn latest_line(lines: Seq<Seq<char>>) -> Option<LimitLineView>
    decreases lines.len(),
{
    if lines.len() == 0 {
        None
    } else {
        newer_line(
            latest_line(lines.drop_last()),
            match json_of_text(lines.last()) {
                Ok(value) => limits_in(value),
                Err(_) => None,
            },
        )
    }
}

/// The latest of the lines that speak of the limits.
pub fn latest_limits(lines: &Vec<String>) -> (r: Option<LimitLine>)
    ensures
        r.deep_view() == latest_line(lines.deep_view()),
{
    let ghost all = lines.deep_view();
    let mut latest: Option<LimitLine> = None;
    let mut i: usize = 0;
    while i < lines.len()
        invariant
            i <= lines@.len(),
            all == lines.deep_view(),
            latest.deep_view() == latest_line(all.take(i as int)),
        decreases lines@.len() - i,
    {
        assert(all.take(i + 1).drop_last() == all.take(i as int));
        assert(all[i as int] == lines@[i as int]@);
        match local_quota_summary_from_line(lines[i].as_str()) {
            Some(line) => {
                let newer = match &latest {
                    Some(current) => matches!(
                        order(current.timestamp.as_str(), line.timestamp.as_str()),
                        Order::Before
                    ),
                    None => true,
                };
                if newer {
                    latest = Some(line);
                }
            },
            None => {},
        }
        i += 1;
    }
    assert(all.take(all.len() as int) == all);
    latest
}

/// The quota that a line of a session log and its windows make.
pub fn quota_from_limits(plan: &Option<String>, windows: &CodexWindows) -> (r: TextMap<Json>)
    ensures
        r.deep_view() == ({
            let q = with_text(Map::empty(), "plan"@, plan.deep_view());
            let q = with_window(q, "session"@, windows.session.deep_view());
            let q = with_window(q, "weekly"@, windows.weekly.deep_view());
            with_main(q, windows.session.deep_view(), windows.weekly.deep_view())
        }),
{
    let mut quota: TextMap<Json> = TextMap::new();
    insert_text(&mut quota, "plan", plan);
    insert_window(&mut quota, "session", &windows.session);
    insert_window(&mut quota, "weekly", &windows.weekly);
    insert_main_window(&mut quota, &windows.session, &windows.weekly);
    quota
}

} // verus!
