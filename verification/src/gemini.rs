//! The allowance of a Gemini account, as its service describes it.
use vstd::prelude::*;

use crate::json::{Json, JsonView, Number, NumberView, field_of, lemma_views_of, text_in, view_of};
use crate::path::{join_path, joined};
use crate::paths::PathsError;
use crate::quota::{
    HttpRequest, bits_in, bits_of, field2, filled, filled_text, header_pairs, inner_field,
    insert_text, not_empty, text_of, with_text,
};
use crate::text::{Order, decimal_of, join2, join3, order, text_lt};
use crate::text_map::{Duplicate, TextMap};

verus! {

pub const GEMINI_PLUGIN_ID: &'static str = "gemini";

pub const CODE_ASSIST_ENDPOINT: &'static str = "https://cloudcode-pa.googleapis.com/v1internal";

/// The project of an account and the name of its tier.
pub struct GeminiCodeAssistInfo {
    pub project_id: Option<String>,
    pub tier_name: Option<String>,
}

pub struct CodeAssistView {
    pub project_id: Option<Seq<char>>,
    pub tier_name: Option<Seq<char>>,
}

impl DeepView for GeminiCodeAssistInfo {
    type V = CodeAssistView;

    open spec fn deep_view(&self) -> CodeAssistView {
        CodeAssistView {
            project_id: self.project_id.deep_view(),
            tier_name: self.tier_name.deep_view(),
        }
    }
}

pub enum GeminiError {
    Paths(PathsError),
    ReadCredentials { path: String },
    ParseCredentials,
    MissingAccessToken,
    AccessTokenExpired,
    ApiRequest { url: String, message: String },
}

impl GeminiError {
    /// The error in words.
    pub open spec fn text(&self) -> Seq<char> {
        match *self {
            GeminiError::Paths(_) => "failed to resolve home directory"@,
            GeminiError::ReadCredentials { path } => "failed to read Gemini credentials from "@
                + path@,
            GeminiError::ParseCredentials => "failed to parse Gemini credentials"@,
            GeminiError::MissingAccessToken =>
                "Gemini credentials do not contain an access token"@,
            GeminiError::AccessTokenExpired => "Gemini access token is expired"@,
            GeminiError::ApiRequest { url, message } => "Gemini API request to "@ + url@
                + " failed: "@ + message@,
        }
    }

    /// The error in words.
    pub fn message(&self) -> (r: String)
        ensures
            r@ == self.text(),
    {
        match self {
            GeminiError::Paths(_) => "failed to resolve home directory".to_owned(),
            GeminiError::ReadCredentials { path } => join2(
                "failed to read Gemini credentials from ",
                path.as_str(),
            ),
            GeminiError::ParseCredentials => "failed to parse Gemini credentials".to_owned(),
            GeminiError::MissingAccessToken =>
                "Gemini credentials do not contain an access token".to_owned(),
            GeminiError::AccessTokenExpired => "Gemini access token is expired".to_owned(),
            GeminiError::ApiRequest { url, message } => join3(
                join2("Gemini API request to ", url.as_str()).as_str(),
                " failed: ",
                message.as_str(),
            ),
        }
    }
}

/// Where the credential of the account that is logged in lies: below the directory that the
/// environment names, or else below the home directory.
pub fn current_credentials_path(cli_home: &Option<String>, home: &Option<String>) -> (r: Result<
    String,
    GeminiError,
>)
    ensures
        match (not_empty(cli_home.deep_view()), home.deep_view()) {
            (Some(base), _) => r matches Ok(path) && path@ == joined(
                base,
                ".gemini/oauth_creds.json"@,
            ),
            (None, Some(base)) => r matches Ok(path) && path@ == joined(
                base,
                ".gemini/oauth_creds.json"@,
            ),
            (None, None) => r matches Err(GeminiError::Paths(PathsError::HomeDirectoryUnavailable)),
        },
{
    let named = match cli_home {
        Some(base) => !base.as_str().is_empty(),
        None => false,
    };
    if named {
        match cli_home {
            Some(base) => Ok(join_path(base.as_str(), ".gemini/oauth_creds.json")),
            None => Err(GeminiError::Paths(PathsError::HomeDirectoryUnavailable)),
        }
    } else {
        match home {
            Some(base) => Ok(join_path(base.as_str(), ".gemini/oauth_creds.json")),
            None => Err(GeminiError::Paths(PathsError::HomeDirectoryUnavailable)),
        }
    }
}

/// The access token of a credential, unless it expires within half a minute of `now_ms`, in
/// milliseconds since 1970.
pub fn current_access_token(
    access_token: &Option<String>,
    expiry_date: Option<i64>,
    now_ms: i64,
) -> (r: Result<String, GeminiError>)
    requires
        now_ms <= i64::MAX - 30_000,
    ensures
        match not_empty(access_token.deep_view()) {
            None => r matches Err(GeminiError::MissingAccessToken),
            Some(token) => if expiry_date matches Some(at) && at <= now_ms + 30_000 {
                r matches Err(GeminiError::AccessTokenExpired)
            } else {
                r matches Ok(t) && t@ == token
            },
        },
{
    match access_token {
        Some(token) => if token.as_str().is_empty() {
            Err(GeminiError::MissingAccessToken)
        } else {
            match expiry_date {
                Some(at) => if at <= now_ms + 30_000 {
                    Err(GeminiError::AccessTokenExpired)
                } else {
                    Ok(token.clone())
                },
                None => Ok(token.clone()),
            }
        },
        None => Err(GeminiError::MissingAccessToken),
    }
}

/// A text in the body of a request: at a field name, or at one inside another.
pub struct BodyField {
    pub outer: Option<String>,
    pub field: String,
    pub value: String,
}

pub struct BodyFieldView {
    pub outer: Option<Seq<char>>,
    pub field: Seq<char>,
    pub value: Seq<char>,
}

impl DeepView for BodyField {
    type V = BodyFieldView;

    open spec fn deep_view(&self) -> BodyFieldView {
        BodyFieldView { outer: self.outer.deep_view(), field: self.field@, value: self.value@ }
    }
}

/// A request that sends a JSON object, which holds certain texts and nothing else.
pub struct MethodRequest {
    pub head: HttpRequest,
    pub body: Vec<BodyField>,
}

/// The body of the request for the project and the tier of an account.
pub open spec fn info_body() -> Seq<BodyFieldView> {
    seq![
        BodyFieldView {
            outer: Some("metadata"@),
            field: "ideType"@,
            value: "IDE_UNSPECIFIED"@,
        },
        BodyFieldView {
            outer: Some("metadata"@),
            field: "platform"@,
            value: "PLATFORM_UNSPECIFIED"@,
        },
        BodyFieldView { outer: Some("metadata"@), field: "pluginType"@, value: "GEMINI"@ },
    ]
}

fn metadata_field(field: &str, value: &str) -> (r: BodyField)
    ensures
        r.deep_view() == (BodyFieldView {
            outer: Some("metadata"@),
            field: field@,
            value: value@,
        }),
{
    BodyField {
        outer: Some("metadata".to_owned()),
        field: field.to_owned(),
        value: value.to_owned(),
    }
}

/// The request for the project and the tier of an account.
pub fn info_request(access_token: &str) -> (r: MethodRequest)
    ensures
        r.head.url@ == CODE_ASSIST_ENDPOINT@ + ":"@ + "loadCodeAssist"@,
        header_pairs(r.head.headers@) == method_headers(access_token@),
        r.body.deep_view() == info_body(),
{
    let mut body: Vec<BodyField> = Vec::new();
    body.push(metadata_field("ideType", "IDE_UNSPECIFIED"));
    body.push(metadata_field("platform", "PLATFORM_UNSPECIFIED"));
    body.push(metadata_field("pluginType", "GEMINI"));
    assert(body.deep_view() == info_body());
    MethodRequest { head: method_request("loadCodeAssist", access_token), body }
}

/// The request for what is left of the allowance of a project.
pub fn quota_request(access_token: &str, project_id: &str) -> (r: MethodRequest)
    ensures
        r.head.url@ == CODE_ASSIST_ENDPOINT@ + ":"@ + "retrieveUserQuota"@,
        header_pairs(r.head.headers@) == method_headers(access_token@),
        r.body.deep_view() == seq![
            (BodyFieldView { outer: None, field: "project"@, value: project_id@ }),
        ],
{
    let mut body: Vec<BodyField> = Vec::new();
    body.push(
        BodyField { outer: None, field: "project".to_owned(), value: project_id.to_owned() },
    );
    assert(body.deep_view() == seq![
        BodyFieldView { outer: None, field: "project"@, value: project_id@ },
    ]);
    MethodRequest { head: method_request("retrieveUserQuota", access_token), body }
}

/// The headers of a request to the service.
pub open spec fn method_headers(access_token: Seq<char>) -> Seq<(Seq<char>, Seq<char>)> {
    seq![
        ("Content-Type"@, "application/json"@),
        ("Authorization"@, "Bearer "@ + access_token),
    ]
}

fn method_request(method: &str, access_token: &str) -> (r: HttpRequest)
    ensures
        r.url@ == CODE_ASSIST_ENDPOINT@ + ":"@ + method@,
        header_pairs(r.headers@) == method_headers(access_token@),
{
    let mut headers: Vec<(String, String)> = Vec::new();
    headers.push(("Content-Type".to_owned(), "application/json".to_owned()));
    headers.push(("Authorization".to_owned(), join2("Bearer ", access_token)));
    assert(header_pairs(headers@) == method_headers(access_token@));
    HttpRequest { url: join3(CODE_ASSIST_ENDPOINT, ":", method), headers }
}

/// The project and the tier in an answer of the service: the paid tier, or else the current one.
pub open spec fn info_in(value: JsonView) -> CodeAssistView {
    CodeAssistView {
        project_id: match field_of(value, "cloudaicompanionProject"@) {
            Some(v) => text_in(v),
            None => None,
        },
        tier_name: match filled_text(field2(value, "paidTier"@, "name"@)) {
            Some(name) => Some(name),
            None => filled_text(field2(value, "currentTier"@, "name"@)),
        },
    }
}

/// The project and the tier in an answer of the service.
pub fn code_assist_info(value: &Json) -> (r: GeminiCodeAssistInfo)
    ensures
        r.deep_view() == info_in(value.deep_view()),
{
    let tier_name = match filled(inner_field(value, "paidTier", "name")) {
        Some(name) => Some(name),
        None => filled(inner_field(value, "currentTier", "name")),
    };
    GeminiCodeAssistInfo { project_id: text_of(value.field("cloudaicompanionProject")), tier_name }
}

/// The buckets of an allowance: how many there are, the bits of the fractions that are left of those
/// that name one, and the latest time at which one of these is whole again.
pub struct BucketReading {
    pub count: u64,
    pub fractions: Vec<u64>,
    pub latest_reset: Option<String>,
}

/// The fractions that the first buckets name.
pub open spec fn fractions_in(buckets: Seq<JsonView>) -> Seq<u64>
    decreases buckets.len(),
{
    if buckets.len() == 0 {
        seq![]
    } else {
        match bits_in(field_of(buckets.last(), "remainingFraction"@)) {
            Some(bits) => fractions_in(buckets.drop_last()).push(bits),
            None => fractions_in(buckets.drop_last()),
        }
    }
}

/// The greater of two times, as texts go.
pub open spec fn greater_text(a: Option<Seq<char>>, b: Option<Seq<char>>) -> Option<Seq<char>> {
    match (a, b) {
        (Some(x), Some(y)) => if text_lt(x, y) {
            b
        } else {
            a
        },
        (Some(_), None) => a,
        (None, _) => b,
    }
}

/// The greatest of the times of the buckets that name a fraction.
pub open spec fn latest_reset_in(buckets: Seq<JsonView>) -> Option<Seq<char>>
    decreases buckets.len(),
{
    if buckets.len() == 0 {
        None
    } else {
        let before = latest_reset_in(buckets.drop_last());
        match (
            bits_in(field_of(buckets.last(), "remainingFraction"@)),
            field_of(buckets.last(), "resetTime"@),
        ) {
            (Some(_), Some(JsonView::Text(time))) => greater_text(before, Some(time)),
            _ => before,
        }
    }
}

/// The buckets in an answer of the service, where it has a list of them.
pub fn read_buckets(value: &Json) -> (r: Option<BucketReading>)
    ensures
        match field_of(value.deep_view(), "buckets"@) {
            Some(JsonView::Array { items, .. }) => r matches Some(b) && b.count == items.len()
                && b.fractions@ == fractions_in(items) && b.latest_reset.deep_view()
                == latest_reset_in(items),
            _ => r is None,
        },
{
    match value.field("buckets") {
        Some(Json::Array { items, .. }) => {
            let ghost all = crate::json::views_of(items@);
            proof {
                lemma_views_of(items@);
            }
            let mut fractions: Vec<u64> = Vec::new();
            let mut latest_reset: Option<String> = None;
            let mut i: usize = 0;
            while i < items.len()
                invariant
                    i <= items@.len(),
                    all.len() == items@.len(),
                    forall|k: int| 0 <= k < items@.len() ==> #[trigger] all[k] == view_of(items@[k]),
                    fractions@ == fractions_in(all.take(i as int)),
                    latest_reset.deep_view() == latest_reset_in(all.take(i as int)),
                decreases items@.len() - i,
            {
                assert(all.take(i + 1).drop_last() == all.take(i as int));
                assert(all[i as int] == view_of(items@[i as int]));
                match bits_of(items[i].field("remainingFraction")) {
                    Some(bits) => {
                        fractions.push(bits);
                        match items[i].field("resetTime") {
                            Some(Json::Text(time)) => {
                                let later = match &latest_reset {
                                    Some(current) => matches!(
                                        order(current.as_str(), time.as_str()),
                                        Order::Before
                                    ),
                                    None => true,
                                };
                                if later {
                                    latest_reset = Some(time.clone());
                                }
                            },
                            _ => {},
                        }
                    },
                    None => {},
                }
                i += 1;
            }
            assert(all.take(all.len() as int) == all);
            Some(BucketReading { count: items.len() as u64, fractions, latest_reset })
        },
        _ => None,
    }
}

/// The number that `serde_json::Number::from` makes of a count.
pub uninterp spec fn count_number(n: u64) -> NumberView;

/// `serde_json::Number::from` for a count: the number, which depends on the count alone. It is that
/// count, signed where it is small enough, and written in decimal.
#[verifier::external_body]
fn number_of_count(n: u64) -> (r: Number)
    ensures
        r.deep_view() == count_number(n),
        r.unsigned == Some(n),
        r.signed == (if n <= i64::MAX {
            Some(n as i64)
        } else {
            None
        }),
        r.text@ == decimal_of(n as nat),
{
    let number = serde_json::Number::from(n);
    Number {
        signed: number.as_i64(),
        unsigned: number.as_u64(),
        bits: number.as_f64().map(|x| x.to_bits()),
        whole: number.as_f64().map(|x| x as i64),
        text: number.to_string(),
    }
}

/// The quota of a project: the buckets, and how much is left and used on average, in percent, where
/// one of them names a fraction.
pub open spec fn quota_entries(
    project_id: Seq<char>,
    tier_name: Option<Seq<char>>,
    buckets: Option<(u64, Option<Seq<char>>)>,
    percents: Option<(NumberView, NumberView)>,
) -> Map<Seq<char>, JsonView> {
    let q = with_text(
        Map::empty().insert("project_id"@, JsonView::Text(project_id)),
        "plan"@,
        not_empty(tier_name),
    );
    match buckets {
        None => q,
        Some((count, latest_reset)) => {
            let q = q.insert("bucket_count"@, JsonView::Number(count_number(count)));
            let q = match percents {
                Some((left, used)) => q.insert("remaining_percent"@, JsonView::Number(left)).insert(
                    "used_percent"@,
                    JsonView::Number(used),
                ),
                None => q,
            };
            with_text(q, "reset_time"@, latest_reset)
        },
    }
}

/// The quota of a project.
pub fn quota_from_buckets(
    project_id: &str,
    tier_name: &Option<String>,
    buckets: &Option<BucketReading>,
    percents: &Option<(Number, Number)>,
) -> (r: TextMap<Json>)
    ensures
        r.deep_view() == quota_entries(
            project_id@,
            tier_name.deep_view(),
            match *buckets {
                Some(b) => Some((b.count, b.latest_reset.deep_view())),
                None => None,
            },
            match *percents {
                Some((left, used)) => Some((left.deep_view(), used.deep_view())),
                None => None,
            },
        ),
{
    let mut quota: TextMap<Json> = TextMap::new();
    quota.insert("project_id".to_owned(), Json::Text(project_id.to_owned()));
    let named = match tier_name {
        Some(name) => !name.as_str().is_empty(),
        None => false,
    };
    if named {
        insert_text(&mut quota, "plan", tier_name);
    }
    match buckets {
        None => {},
        Some(b) => {
            quota.insert("bucket_count".to_owned(), Json::Number(number_of_count(b.count)));
            match percents {
                Some((left, used)) => {
                    quota.insert("remaining_percent".to_owned(), Json::Number(left.duplicate()));
                    quota.insert("used_percent".to_owned(), Json::Number(used.duplicate()));
                },
                None => {},
            }
            insert_text(&mut quota, "reset_time", &b.latest_reset);
        },
    }
    quota
}

} // verus!
