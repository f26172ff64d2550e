//! Who an account belongs to, read from its credential by the rules of a plugin.
use vstd::prelude::*;

use crate::json::{
    Json, JsonView, at_pointer, copy_json, get_json_path, json_of_bytes, json_of_text, parse_bytes,
    parse_text,
};
use crate::path::{expand_user_path_from, user_path};
use crate::paths::PathsError;
use crate::plugin::{IdentityExtract, IdentitySource, Manifest, ValueSource};
use crate::text::{Order, join, join2, join3, join_of, order, same, split, split_of, text_lt};
use crate::text_map::{Duplicate, TextMap};

verus! {

/// Who an account belongs to.
pub struct Identity {
    pub email: Option<String>,
    pub org_name: Option<String>,
    pub plan: Option<String>,
    pub extra: TextMap<Json>,
}

pub struct IdentityView {
    pub email: Option<Seq<char>>,
    pub org_name: Option<Seq<char>>,
    pub plan: Option<Seq<char>>,
    pub extra: Map<Seq<char>, JsonView>,
}

impl DeepView for Identity {
    type V = IdentityView;

    open spec fn deep_view(&self) -> IdentityView {
        IdentityView {
            email: self.email.deep_view(),
            org_name: self.org_name.deep_view(),
            plan: self.plan.deep_view(),
            extra: self.extra.deep_view(),
        }
    }
}

/// An identity and what went wrong in finding it.
pub struct IdentityExtraction {
    pub identity: Identity,
    pub warnings: Vec<String>,
}

pub enum IdentityError {
    Paths(PathsError),
}

impl IdentityError {
    /// The error in words.
    pub fn message(&self) -> (r: String)
        ensures
            r@ == "failed to resolve user paths"@,
    {
        "failed to resolve user paths".to_owned()
    }
}

/// Why the payload of a token could not be read.
#[derive(Clone, Copy, Debug, PartialEq, Eq, Structural)]
pub enum JwtDecodeError {
    InvalidFormat,
    Base64,
    Json,
}

impl JwtDecodeError {
    pub open spec fn text(&self) -> Seq<char> {
        match *self {
            JwtDecodeError::InvalidFormat => "jwt must contain three segments"@,
            JwtDecodeError::Base64 => "invalid base64url payload"@,
            JwtDecodeError::Json => "invalid jwt payload json"@,
        }
    }

    /// The error in words.
    pub fn message(&self) -> (r: String)
        ensures
            r@ == self.text(),
    {
        match self {
            JwtDecodeError::InvalidFormat => "jwt must contain three segments".to_owned(),
            JwtDecodeError::Base64 => "invalid base64url payload".to_owned(),
            JwtDecodeError::Json => "invalid jwt payload json".to_owned(),
        }
    }
}

// ---------------------------------------------------------------------------------------------
// Tokens
// ---------------------------------------------------------------------------------------------
/// What the `URL_SAFE_NO_PAD` engine of the base64 crate decodes a text to, where it can.
pub uninterp spec fn base64url_bytes(text: Seq<char>) -> Option<Seq<u8>>;

/// `base64::engine::general_purpose::URL_SAFE_NO_PAD.decode`: the bytes that a text encodes, or
/// none where it is not a valid encoding. The outcome depends on the text alone.
#[verifier::external_body]
fn decode_base64url(text: &str) -> (r: Option<Vec<u8>>)
    ensures
        match r {
            Some(bytes) => base64url_bytes(text@) == Some(bytes@),
            None => base64url_bytes(text@) is None,
        },
{
    base64::Engine::decode(&base64::engine::general_purpose::URL_SAFE_NO_PAD, text).ok()
}

/// The payload of a token: its second part of at least three, base64url decoded, read as JSON.
pub open spec fn jwt_payload(jwt: Seq<char>) -> Result<JsonView, JwtDecodeError> {
    let parts = split_of(jwt, '.');
    if parts.len() < 3 {
        Err(JwtDecodeError::InvalidFormat)
    } else {
        match base64url_bytes(parts[1]) {
            None => Err(JwtDecodeError::Base64),
            Some(bytes) => match json_of_bytes(bytes) {
                Ok(value) => Ok(value),
                Err(_) => Err(JwtDecodeError::Json),
            },
        }
    }
}

/// The payload of a token.
pub fn decode_jwt_payload(jwt: &str) -> (r: Result<Json, JwtDecodeError>)
    ensures
        match r {
            Ok(value) => jwt_payload(jwt@) == Ok::<JsonView, JwtDecodeError>(value.deep_view()),
            Err(e) => jwt_payload(jwt@) == Err::<JsonView, JwtDecodeError>(e),
        },
{
    let parts = split(jwt, '.');
    assert(parts.len() == parts.deep_view().len());
    if parts.len() < 3 {
        return Err(JwtDecodeError::InvalidFormat);
    }
    assert(parts.deep_view()[1] == parts@[1]@);
    match decode_base64url(parts[1].as_str()) {
        None => Err(JwtDecodeError::Base64),
        Some(bytes) => match parse_bytes(bytes.as_slice()) {
            Ok(value) => Ok(value),
            Err(_) => Err(JwtDecodeError::Json),
        },
    }
}

// ---------------------------------------------------------------------------------------------
// Files
// ---------------------------------------------------------------------------------------------
/// What reading a file as text gave.
pub enum FileText {
    Contents(String),
    NotFound,
    Failed(String),
}

pub enum FileTextView {
    Contents(Seq<char>),
    NotFound,
    Failed(Seq<char>),
}

impl DeepView for FileText {
    type V = FileTextView;

    open spec fn deep_view(&self) -> FileTextView {
        match *self {
            FileText::Contents(s) => FileTextView::Contents(s@),
            FileText::NotFound => FileTextView::NotFound,
            FileText::Failed(s) => FileTextView::Failed(s@),
        }
    }
}

/// What reading the file at `path` gave; a file that was not read counts as not found.
pub open spec fn file_at(files: Map<Seq<char>, FileTextView>, path: Seq<char>) -> FileTextView {
    if files.contains_key(path) {
        files[path]
    } else {
        FileTextView::NotFound
    }
}

/// A value that was found, or none, with the warnings of the search.
pub struct Found<T> {
    pub value: Option<T>,
    pub warnings: Seq<Seq<char>>,
}

pub open spec fn nothing<T>() -> Found<T> {
    Found { value: None, warnings: seq![] }
}

pub open spec fn quietly<T>(value: Option<T>) -> Found<T> {
    Found { value, warnings: seq![] }
}

/// The JSON value in the file that `path` names.
pub open spec fn json_file(
    path: Option<Seq<char>>,
    home: Seq<char>,
    files: Map<Seq<char>, FileTextView>,
) -> Found<JsonView> {
    match path {
        None => nothing(),
        Some(p) => {
            let full = user_path(p, home);
            match file_at(files, full) {
                FileTextView::NotFound => nothing(),
                FileTextView::Failed(e) => Found {
                    value: None,
                    warnings: seq!["failed to read json file "@ + full + ": "@ + e],
                },
                FileTextView::Contents(text) => match json_of_text(text) {
                    Ok(value) => quietly(Some(value)),
                    Err(e) => Found {
                        value: None,
                        warnings: seq!["failed to parse json file "@ + full + ": "@ + e],
                    },
                },
            }
        },
    }
}

fn load_json_file(
    path: &Option<String>,
    home_dir: &str,
    files: &TextMap<FileText>,
    warnings: &mut Vec<String>,
) -> (r: Option<Json>)
    ensures
        ({
            let found = json_file(path.deep_view(), home_dir@, files.deep_view());
            &&& r.deep_view() == found.value
            &&& final(warnings).deep_view() == old(warnings).deep_view() + found.warnings
        }),
{
    let ghost before = warnings.deep_view();
    assert(before + Seq::<Seq<char>>::empty() == before);
    match path {
        None => None,
        Some(p) => {
            let full = expand_user_path_from(p.as_str(), home_dir);
            match files.get(full.as_str()) {
                None => None,
                Some(FileText::NotFound) => None,
                Some(FileText::Failed(e)) => {
                    let mut message = join3("failed to read json file ", full.as_str(), ": ");
                    message.append(e.as_str());
                    warnings.push(message);
                    assert(warnings.deep_view() == before + seq![message@]);
                    None
                },
                Some(FileText::Contents(text)) => match parse_text(text.as_str()) {
                    Ok(value) => Some(value),
                    Err(e) => {
                        let mut message = join3("failed to parse json file ", full.as_str(), ": ");
                        message.append(e.as_str());
                        warnings.push(message);
                        assert(warnings.deep_view() == before + seq![message@]);
                        None
                    },
                },
            }
        },
    }
}

// ---------------------------------------------------------------------------------------------
// The rules
// ---------------------------------------------------------------------------------------------
/// A JSON value as text; none for null.
pub open spec fn value_text(value: JsonView) -> Option<Seq<char>> {
    match value {
        JsonView::Null => None,
        JsonView::Text(s) => Some(s),
        JsonView::Bool(b) => Some(
            if b {
                "true"@
            } else {
                "false"@
            },
        ),
        JsonView::Number(n) => Some(n.text),
        JsonView::Array { text, .. } => Some(text),
        JsonView::Object { text, .. } => Some(text),
    }
}

/// A JSON value as text.
pub fn value_to_string(value: &Json) -> (r: Option<String>)
    ensures
        r.deep_view() == value_text(value.deep_view()),
{
    match value {
        Json::Null => None,
        Json::Text(s) => Some(s.clone()),
        Json::Bool(b) => Some(
            if *b {
                "true".to_owned()
            } else {
                "false".to_owned()
            },
        ),
        Json::Number(n) => Some(n.text.clone()),
        Json::Array { text, .. } => Some(text.clone()),
        Json::Object { text, .. } => Some(text.clone()),
    }
}

/// The texts of a rule that apply: those of its main source, or those of its fallback.
pub struct Selected {
    pub source: Option<IdentitySource>,
    pub path: Option<Seq<char>>,
    pub pointer: Option<Seq<char>>,
    pub jwt_from: Option<ValueSource>,
    pub jwt_pointer: Option<Seq<char>>,
    pub claim_pointer: Option<Seq<char>>,
    pub top_keys_from: Option<ValueSource>,
    pub literal: Option<Seq<char>>,
}

pub open spec fn selected(rule: IdentityExtract, fallback: bool) -> Selected {
    if fallback {
        Selected {
            source: rule.fallback_source,
            path: rule.fallback_json_file_path.deep_view(),
            pointer: rule.fallback_json_pointer.deep_view(),
            jwt_from: rule.fallback_jwt_from,
            jwt_pointer: rule.fallback_jwt_json_pointer.deep_view(),
            claim_pointer: rule.fallback_claim_pointer.deep_view(),
            top_keys_from: rule.fallback_json_top_keys_from,
            literal: rule.fallback_literal.deep_view(),
        }
    } else {
        Selected {
            source: Some(rule.source),
            path: rule.json_file_path.deep_view(),
            pointer: rule.json_pointer.deep_view(),
            jwt_from: rule.jwt_from,
            jwt_pointer: rule.jwt_json_pointer.deep_view(),
            claim_pointer: rule.claim_pointer.deep_view(),
            top_keys_from: rule.json_top_keys_from,
            literal: rule.literal.deep_view(),
        }
    }
}

/// The value at an optional pointer into an optional value.
pub open spec fn at_opt(value: Option<JsonView>, pointer: Option<Seq<char>>) -> Option<JsonView> {
    match (value, pointer) {
        (Some(v), Some(p)) => at_pointer(v, p),
        _ => None,
    }
}

/// The JSON value that a source stands for: the credential itself, or a file.
pub open spec fn source_value(
    from: Option<ValueSource>,
    path: Option<Seq<char>>,
    credential: Option<JsonView>,
    home: Seq<char>,
    files: Map<Seq<char>, FileTextView>,
) -> Found<JsonView> {
    match from {
        None => nothing(),
        Some(ValueSource::JsonValue) => quietly(credential),
        Some(ValueSource::JsonFile) => json_file(path, home, files),
    }
}

/// The claim of the token that stands at a pointer.
pub open spec fn jwt_claim(
    s: Selected,
    credential: Option<JsonView>,
    home: Seq<char>,
    files: Map<Seq<char>, FileTextView>,
) -> Found<JsonView> {
    if s.jwt_from is None || s.jwt_pointer is None {
        nothing()
    } else {
        let from = source_value(s.jwt_from, s.path, credential, home, files);
        match at_opt(from.value, s.jwt_pointer) {
            None => Found { value: None, warnings: from.warnings },
            Some(at) => match value_text(at) {
                None => Found { value: None, warnings: from.warnings },
                Some(jwt) => match jwt_payload(jwt) {
                    Ok(payload) => Found {
                        value: at_opt(Some(payload), s.claim_pointer),
                        warnings: from.warnings,
                    },
                    Err(e) => Found {
                        value: None,
                        warnings: from.warnings.push("failed to decode jwt payload: "@ + e.text()),
                    },
                },
            },
        }
    }
}

/// `list`, which is sorted, with `s` behind the texts that do not follow it.
pub open spec fn text_placed(list: Seq<Seq<char>>, s: Seq<char>) -> Seq<Seq<char>>
    decreases list.len(),
{
    if list.len() > 0 && text_lt(s, list.last()) {
        text_placed(list.drop_last(), s).push(list.last())
    } else {
        list.push(s)
    }
}

/// The texts in their order.
pub open spec fn texts_sorted(list: Seq<Seq<char>>) -> Seq<Seq<char>>
    decreases list.len(),
{
    if list.len() == 0 {
        seq![]
    } else {
        text_placed(texts_sorted(list.drop_last()), list.last())
    }
}

/// The keys of an object in their order, with commas between them.
pub open spec fn top_keys(value: JsonView) -> Option<JsonView> {
    match value {
        JsonView::Object { entries, .. } => Some(
            JsonView::Text(
                join_of(texts_sorted(entries.map_values(|e: (Seq<char>, JsonView)| e.0)), ", "@),
            ),
        ),
        _ => None,
    }
}

pub open spec fn json_top_keys(
    s: Selected,
    credential: Option<JsonView>,
    home: Seq<char>,
    files: Map<Seq<char>, FileTextView>,
) -> Found<JsonView> {
    let from = source_value(s.top_keys_from, s.path, credential, home, files);
    Found {
        value: match from.value {
            Some(v) => top_keys(v),
            None => None,
        },
        warnings: from.warnings,
    }
}

/// What a rule finds, by its main source or by its fallback.
pub open spec fn rule_value(
    rule: IdentityExtract,
    fallback: bool,
    credential: Option<JsonView>,
    home: Seq<char>,
    files: Map<Seq<char>, FileTextView>,
) -> Found<JsonView> {
    let s = selected(rule, fallback);
    match s.source {
        None => nothing(),
        Some(IdentitySource::JsonFile) => {
            let file = json_file(s.path, home, files);
            Found { value: at_opt(file.value, s.pointer), warnings: file.warnings }
        },
        Some(IdentitySource::JsonValue) => quietly(at_opt(credential, s.pointer)),
        Some(IdentitySource::JwtClaim) => jwt_claim(s, credential, home, files),
        Some(IdentitySource::JsonTopKeys) => json_top_keys(s, credential, home, files),
        Some(IdentitySource::Literal) => quietly(
            match s.literal {
                Some(text) => Some(JsonView::Text(text)),
                None => None,
            },
        ),
    }
}

/// What a rule finds: by its main source, and where that finds nothing by its fallback.
pub open spec fn rule_outcome(
    rule: IdentityExtract,
    credential: Option<JsonView>,
    home: Seq<char>,
    files: Map<Seq<char>, FileTextView>,
) -> Found<JsonView> {
    let main = rule_value(rule, false, credential, home, files);
    if main.value is Some {
        main
    } else {
        let other = rule_value(rule, true, credential, home, files);
        Found { value: other.value, warnings: main.warnings + other.warnings }
    }
}

/// `identity` with `value` in the field `field`; a field that is not one of the three has its place
/// among the extra values.
pub open spec fn assigned(identity: IdentityView, field: Seq<char>, value: JsonView) -> IdentityView {
    if field == "email"@ {
        IdentityView { email: value_text(value), ..identity }
    } else if field == "org_name"@ {
        IdentityView { org_name: value_text(value), ..identity }
    } else if field == "plan"@ {
        IdentityView { plan: value_text(value), ..identity }
    } else {
        IdentityView { extra: identity.extra.insert(field, value), ..identity }
    }
}

pub open spec fn no_identity() -> IdentityView {
    IdentityView { email: None, org_name: None, plan: None, extra: Map::empty() }
}

/// The identity that the rules find, one after the other, and all their warnings.
pub open spec fn extracted(
    rules: Seq<IdentityExtract>,
    credential: Option<JsonView>,
    home: Seq<char>,
    files: Map<Seq<char>, FileTextView>,
) -> (IdentityView, Seq<Seq<char>>)
    decreases rules.len(),
{
    if rules.len() == 0 {
        (no_identity(), seq![])
    } else {
        let (identity, warnings) = extracted(rules.drop_last(), credential, home, files);
        let found = rule_outcome(rules.last(), credential, home, files);
        (
            match found.value {
                Some(value) => assigned(identity, rules.last().field@, value),
                None => identity,
            },
            warnings + found.warnings,
        )
    }
}

/// The credential as JSON, where it is JSON.
pub open spec fn credential_json(bytes: Seq<u8>) -> Option<JsonView> {
    match json_of_bytes(bytes) {
        Ok(value) => Some(value),
        Err(_) => None,
    }
}

fn pick<'a>(fallback: bool, main: &'a Option<String>, other: &'a Option<String>) -> (r: &'a Option<
    String,
>)
    ensures
        *r == (if fallback {
            *other
        } else {
            *main
        }),
{
    if fallback {
        other
    } else {
        main
    }
}

/// A copy of the value that a source stands for.
fn load_source(
    from: Option<ValueSource>,
    path: &Option<String>,
    credential: &Option<Json>,
    home_dir: &str,
    files: &TextMap<FileText>,
    warnings: &mut Vec<String>,
) -> (r: Option<Json>)
    ensures
        ({
            let found = source_value(
                from,
                path.deep_view(),
                credential.deep_view(),
                home_dir@,
                files.deep_view(),
            );
            &&& r.deep_view() == found.value
            &&& final(warnings).deep_view() == old(warnings).deep_view() + found.warnings
        }),
{
    let ghost before = warnings.deep_view();
    assert(before + Seq::<Seq<char>>::empty() == before);
    match from {
        None => None,
        Some(ValueSource::JsonValue) => credential.duplicate(),
        Some(ValueSource::JsonFile) => load_json_file(path, home_dir, files, warnings),
    }
}

/// A copy of the value at an optional pointer into an optional value.
fn copy_at(value: &Option<Json>, pointer: &Option<String>) -> (r: Option<Json>)
    ensures
        r.deep_view() == at_opt(value.deep_view(), pointer.deep_view()),
{
    match value {
        None => None,
        Some(v) => match pointer {
            None => None,
            Some(p) => match get_json_path(v, p.as_str()) {
                Some(at) => Some(copy_json(at)),
                None => None,
            },
        },
    }
}

fn extract_from_jwt_claim(
    rule: &IdentityExtract,
    fallback: bool,
    credential: &Option<Json>,
    home_dir: &str,
    files: &TextMap<FileText>,
    warnings: &mut Vec<String>,
) -> (r: Option<Json>)
    ensures
        ({
            let found = jwt_claim(
                selected(*rule, fallback),
                credential.deep_view(),
                home_dir@,
                files.deep_view(),
            );
            &&& r.deep_view() == found.value
            &&& final(warnings).deep_view() == old(warnings).deep_view() + found.warnings
        }),
{
    let ghost before = warnings.deep_view();
    assert(before + Seq::<Seq<char>>::empty() == before);
    let from = if fallback {
        rule.fallback_jwt_from
    } else {
        rule.jwt_from
    };
    let pointer = pick(fallback, &rule.jwt_json_pointer, &rule.fallback_jwt_json_pointer);
    if from.is_none() || pointer.is_none() {
        return None;
    }
    let path = pick(fallback, &rule.json_file_path, &rule.fallback_json_file_path);
    let source = load_source(from, path, credential, home_dir, files, warnings);
    let ghost told = warnings.deep_view();
    let at = copy_at(&source, pointer);
    match at {
        None => None,
        Some(value) => match value_to_string(&value) {
            None => None,
            Some(jwt) => match decode_jwt_payload(jwt.as_str()) {
                Ok(payload) => {
                    let claim = pick(fallback, &rule.claim_pointer, &rule.fallback_claim_pointer);
                    copy_at(&Some(payload), claim)
                },
                Err(e) => {
                    let message = join2("failed to decode jwt payload: ", e.message().as_str());
                    warnings.push(message);
                    assert(warnings.deep_view() == told.push(message@));
                    None
                },
            },
        },
    }
}

fn insert_sorted(list: &mut Vec<String>, s: String)
    ensures
        final(list).deep_view() == text_placed(old(list).deep_view(), s@),
{
    let ghost before = list.deep_view();
    let ghost text = s@;
    let mut at: usize = list.len();
    assert(before.take(at as int) == before);
    assert(text_placed(before.take(at as int), text) + before.subrange(
        at as int,
        before.len() as int,
    ) == text_placed(before, text));
    while at > 0 && order(s.as_str(), list[at - 1].as_str()) == Order::Before
        invariant
            at <= list.len(),
            list.deep_view() == before,
            text == s@,
            text_placed(before, text) == text_placed(before.take(at as int), text)
                + before.subrange(at as int, before.len() as int),
        decreases at,
    {
        assert(before[at - 1] == list@[at - 1]@);
        at = at - 1;
        proof {
            let shorter = before.take(at as int);
            assert(before.take(at + 1).drop_last() == shorter);
            assert(text_placed(shorter, text).push(before[at as int]) + before.subrange(
                at + 1,
                before.len() as int,
            ) == text_placed(shorter, text) + before.subrange(at as int, before.len() as int));
        }
    }
    if at > 0 {
        assert(before[at - 1] == list@[at - 1]@);
    }
    list.insert(at, s);
    assert(list.deep_view() == before.take(at as int).push(text) + before.subrange(
        at as int,
        before.len() as int,
    ));
}

/// The keys of an object in their order, with commas between them.
pub fn object_keys(value: &Json) -> (r: Option<Json>)
    ensures
        r.deep_view() == (match top_keys(value.deep_view()) {
            Some(v) => Some(v),
            None => None,
        }),
{
    match value {
        Json::Object { entries, .. } => {
            proof {
                crate::json::lemma_entry_views_of(entries@);
            }
            let ghost all = crate::json::entry_views_of(entries@).map_values(
                |e: (Seq<char>, JsonView)| e.0,
            );
            let mut keys: Vec<String> = Vec::new();
            let mut i: usize = 0;
            assert(keys.deep_view() == texts_sorted(all.take(0)));
            while i < entries.len()
                invariant
                    i <= entries.len(),
                    all.len() == entries.len(),
                    forall|j: int| 0 <= j < entries.len() ==> #[trigger] all[j] == entries@[j].0@,
                    keys.deep_view() == texts_sorted(all.take(i as int)),
                decreases entries.len() - i,
            {
                insert_sorted(&mut keys, entries[i].0.clone());
                i = i + 1;
                assert(all.take(i as int).drop_last() == all.take(i - 1));
                assert(all.take(i as int).last() == all[i - 1]);
            }
            assert(all.take(i as int) == all);
            Some(Json::Text(join(&keys, ", ")))
        },
        _ => None,
    }
}

fn extract_json_top_keys(
    rule: &IdentityExtract,
    fallback: bool,
    credential: &Option<Json>,
    home_dir: &str,
    files: &TextMap<FileText>,
    warnings: &mut Vec<String>,
) -> (r: Option<Json>)
    ensures
        ({
            let found = json_top_keys(
                selected(*rule, fallback),
                credential.deep_view(),
                home_dir@,
                files.deep_view(),
            );
            &&& r.deep_view() == found.value
            &&& final(warnings).deep_view() == old(warnings).deep_view() + found.warnings
        }),
{
    let from = if fallback {
        rule.fallback_json_top_keys_from
    } else {
        rule.json_top_keys_from
    };
    let path = pick(fallback, &rule.json_file_path, &rule.fallback_json_file_path);
    match load_source(from, path, credential, home_dir, files, warnings) {
        Some(value) => object_keys(&value),
        None => None,
    }
}

fn extract_rule_value(
    rule: &IdentityExtract,
    fallback: bool,
    credential: &Option<Json>,
    home_dir: &str,
    files: &TextMap<FileText>,
    warnings: &mut Vec<String>,
) -> (r: Option<Json>)
    ensures
        ({
            let found = rule_value(
                *rule,
                fallback,
                credential.deep_view(),
                home_dir@,
                files.deep_view(),
            );
            &&& r.deep_view() == found.value
            &&& final(warnings).deep_view() == old(warnings).deep_view() + found.warnings
        }),
{
    let ghost before = warnings.deep_view();
    assert(before + Seq::<Seq<char>>::empty() == before);
    let source = if fallback {
        rule.fallback_source
    } else {
        Some(rule.source)
    };
    let pointer = pick(fallback, &rule.json_pointer, &rule.fallback_json_pointer);
    match source {
        None => None,
        Some(IdentitySource::JsonFile) => {
            let path = pick(fallback, &rule.json_file_path, &rule.fallback_json_file_path);
            let file = load_json_file(path, home_dir, files, warnings);
            copy_at(&file, pointer)
        },
        Some(IdentitySource::JsonValue) => copy_at(credential, pointer),
        Some(IdentitySource::JwtClaim) => extract_from_jwt_claim(
            rule,
            fallback,
            credential,
            home_dir,
            files,
            warnings,
        ),
        Some(IdentitySource::JsonTopKeys) => extract_json_top_keys(
            rule,
            fallback,
            credential,
            home_dir,
            files,
            warnings,
        ),
        Some(IdentitySource::Literal) => match pick(
            fallback,
            &rule.literal,
            &rule.fallback_literal,
        ) {
            Some(text) => Some(Json::Text(text.clone())),
            None => None,
        },
    }
}

fn assign_identity_field(identity: &mut Identity, field: &str, value: Json)
    ensures
        final(identity).deep_view() == assigned(
            old(identity).deep_view(),
            field@,
            value.deep_view(),
        ),
{
    if same(field, "email") {
        identity.email = value_to_string(&value);
    } else if same(field, "org_name") {
        identity.org_name = value_to_string(&value);
    } else if same(field, "plan") {
        identity.plan = value_to_string(&value);
    } else {
        identity.extra.insert(field.to_owned(), value);
    }
}

/// The identity that the rules of `manifest` find in a credential and in `files`.
pub fn extract_with_home_dir(
    manifest: &Manifest,
    credential_bytes: &[u8],
    home_dir: &str,
    files: &TextMap<FileText>,
) -> (r: IdentityExtraction)
    ensures
        (r.identity.deep_view(), r.warnings.deep_view()) == extracted(
            manifest.identity_extract@,
            credential_json(credential_bytes@),
            home_dir@,
            files.deep_view(),
        ),
{
    let credential = match parse_bytes(credential_bytes) {
        Ok(value) => Some(value),
        Err(_) => None,
    };
    extract_from(manifest, &credential, home_dir, files)
}

/// The identity that the rules of `manifest` find in a credential that was read as JSON, or could
/// not be, and in `files`.
pub fn extract_from(
    manifest: &Manifest,
    credential: &Option<Json>,
    home_dir: &str,
    files: &TextMap<FileText>,
) -> (r: IdentityExtraction)
    ensures
        (r.identity.deep_view(), r.warnings.deep_view()) == extracted(
            manifest.identity_extract@,
            credential.deep_view(),
            home_dir@,
            files.deep_view(),
        ),
{
    let rules = &manifest.identity_extract;
    let mut identity = Identity {
        email: None,
        org_name: None,
        plan: None,
        extra: TextMap::new(),
    };
    let mut warnings: Vec<String> = Vec::new();
    let mut i: usize = 0;
    assert(warnings.deep_view() == Seq::<Seq<char>>::empty());
    while i < rules.len()
        invariant
            i <= rules.len(),
            *rules == manifest.identity_extract,
            (identity.deep_view(), warnings.deep_view()) == extracted(
                rules@.take(i as int),
                credential.deep_view(),
                home_dir@,
                files.deep_view(),
            ),
        decreases rules.len() - i,
    {
        let ghost before = warnings.deep_view();
        let rule = &rules[i];
        let main = extract_rule_value(rule, false, credential, home_dir, files, &mut warnings);
        let ghost told = warnings.deep_view();
        let value = match main {
            Some(v) => Some(v),
            None => extract_rule_value(rule, true, credential, home_dir, files, &mut warnings),
        };
        match value {
            Some(v) => {
                assign_identity_field(&mut identity, rule.field.as_str(), v);
            },
            None => {},
        }
        i = i + 1;
        proof {
            assert(rules@.take(i as int).drop_last() == rules@.take(i - 1));
            let m = rule_value(*rule, false, credential.deep_view(), home_dir@, files.deep_view());
            let o = rule_value(*rule, true, credential.deep_view(), home_dir@, files.deep_view());
            assert(before + m.warnings + o.warnings == before + (m.warnings + o.warnings));
        }
    }
    assert(rules@.take(i as int) == rules@);
    IdentityExtraction { identity, warnings }
}

/// The identity alone.
pub fn extract(
    manifest: &Manifest,
    credential_bytes: &[u8],
    home_dir: &str,
    files: &TextMap<FileText>,
) -> (r: Identity)
    ensures
        r.deep_view() == extracted(
            manifest.identity_extract@,
            credential_json(credential_bytes@),
            home_dir@,
            files.deep_view(),
        ).0,
{
    extract_with_home_dir(manifest, credential_bytes, home_dir, files).identity
}

/// The files that the rules of `rules` may read.
pub open spec fn files_named(rules: Seq<IdentityExtract>, home: Seq<char>) -> Seq<Seq<char>>
    decreases rules.len(),
{
    if rules.len() == 0 {
        seq![]
    } else {
        let before = files_named(rules.drop_last(), home);
        let main = match rules.last().json_file_path {
            Some(p) => seq![user_path(p@, home)],
            None => seq![],
        };
        let other = match rules.last().fallback_json_file_path {
            Some(p) => seq![user_path(p@, home)],
            None => seq![],
        };
        before + main + other
    }
}

/// The files to read before the identity of an account of `manifest` is extracted.
pub fn identity_files(manifest: &Manifest, home_dir: &str) -> (r: Vec<String>)
    ensures
        r.deep_view() == files_named(manifest.identity_extract@, home_dir@),
{
    let rules = &manifest.identity_extract;
    let mut out: Vec<String> = Vec::new();
    let mut i: usize = 0;
    assert(out.deep_view() == files_named(rules@.take(0), home_dir@));
    while i < rules.len()
        invariant
            i <= rules.len(),
            out.deep_view() == files_named(rules@.take(i as int), home_dir@),
        decreases rules.len() - i,
    {
        let ghost before = out.deep_view();
        match &rules[i].json_file_path {
            Some(p) => {
                let full = expand_user_path_from(p.as_str(), home_dir);
                out.push(full);
                assert(out.deep_view() == before + seq![full@]);
            },
            None => {
                assert(before == before + Seq::<Seq<char>>::empty());
            },
        }
        let ghost middle = out.deep_view();
        match &rules[i].fallback_json_file_path {
            Some(p) => {
                let full = expand_user_path_from(p.as_str(), home_dir);
                out.push(full);
                assert(out.deep_view() == middle + seq![full@]);
            },
            None => {
                assert(middle == middle + Seq::<Seq<char>>::empty());
            },
        }
        i = i + 1;
        assert(rules@.take(i as int).drop_last() == rules@.take(i - 1));
    }
    assert(rules@.take(i as int) == rules@);
    out
}

/// Whether two readings of the files agree on some of them.
pub open spec fn agree_on(
    a: Map<Seq<char>, FileTextView>,
    b: Map<Seq<char>, FileTextView>,
    paths: Seq<Seq<char>>,
) -> bool {
    forall|i: int|
        0 <= i < paths.len() ==> file_at(a, #[trigger] paths[i]) == file_at(b, paths[i])
}

/// Only the files that the rules name matter: where two readings of the files agree on these, the
/// identity and the warnings are the same.
pub proof fn only_named_files_matter(
    rules: Seq<IdentityExtract>,
    credential: Option<JsonView>,
    home: Seq<char>,
    a: Map<Seq<char>, FileTextView>,
    b: Map<Seq<char>, FileTextView>,
)
    requires
        agree_on(a, b, files_named(rules, home)),
    ensures
        extracted(rules, credential, home, a) == extracted(rules, credential, home, b),
    decreases rules.len(),
{
    if rules.len() > 0 {
        let named = files_named(rules, home);
        let before = files_named(rules.drop_last(), home);
        let main = match rules.last().json_file_path {
            Some(p) => seq![user_path(p@, home)],
            None => seq![],
        };
        assert(agree_on(a, b, before)) by {
            assert forall|i: int| 0 <= i < before.len() implies file_at(a, #[trigger] before[i])
                == file_at(b, before[i]) by {
                assert(named[i] == before[i]);
            }
        }
        only_named_files_matter(rules.drop_last(), credential, home, a, b);
        match rules.last().json_file_path {
            Some(p) => {
                assert(named[before.len() as int] == user_path(p@, home));
            },
            None => {},
        }
        match rules.last().fallback_json_file_path {
            Some(p) => {
                assert(named[(before + main).len() as int] == user_path(p@, home));
            },
            None => {},
        }
        let rule = rules.last();
        assert(rule_value(rule, false, credential, home, a) == rule_value(
            rule,
            false,
            credential,
            home,
            b,
        ));
        assert(rule_value(rule, true, credential, home, a) == rule_value(
            rule,
            true,
            credential,
            home,
            b,
        ));
    }
}

} // verus!
