//! `${...}` in the address and the headers of a request.
use vstd::prelude::*;

use super::WindowBounds;
use crate::identity::{Identity, IdentityView, decode_jwt_payload, jwt_payload};
use crate::json::{Json, JsonView, at_pointer, get_json_path, lemma_find_suffix};
use crate::text::{
    chars_of, copy_opt, find_from, lemma_find_from, piece, position, position_char, same,
    string_of, strip_end_of, strip_prefix, strip_prefix_of, strip_start_of, text_of_utf8, trim,
    trim_char, trim_of, utf8_text,
};
use crate::time::{Timestamp, date_of, rfc3339_of, write_date, write_rfc3339};

verus! {

/// What the placeholders of a template stand for.
pub struct TemplateView {
    pub bytes: Seq<u8>,
    pub credential: Option<JsonView>,
    pub identity: IdentityView,
    pub bounds: WindowBounds,
}

/// A JSON text, number or truth value as text.
pub open spec fn scalar_text(value: JsonView) -> Option<Seq<char>> {
    match value {
        JsonView::Text(s) => Some(s),
        JsonView::Number(n) => Some(n.text),
        JsonView::Bool(b) => Some(
            if b {
                "true"@
            } else {
                "false"@
            },
        ),
        _ => None,
    }
}

/// A JSON text, number or truth value as text.
pub fn scalar_to_string(value: &Json) -> (r: Option<String>)
    ensures
        r.deep_view() == scalar_text(value.deep_view()),
{
    match value {
        Json::Text(s) => Some(s.clone()),
        Json::Number(n) => Some(n.text.clone()),
        Json::Bool(b) => Some(
            if *b {
                "true".to_owned()
            } else {
                "false".to_owned()
            },
        ),
        _ => None,
    }
}

/// An optional text, empty where there is none.
pub open spec fn or_empty(s: Option<Seq<char>>) -> Seq<char> {
    match s {
        Some(t) => t,
        None => ""@,
    }
}

fn text_or_empty(s: Option<String>) -> (r: String)
    ensures
        r@ == or_empty(s.deep_view()),
{
    match s {
        Some(t) => t,
        None => "".to_owned(),
    }
}

/// The text at a pointer into a value.
pub open spec fn text_at(value: Option<JsonView>, pointer: Seq<char>) -> Seq<char> {
    match value {
        Some(v) => match at_pointer(v, pointer) {
            Some(inner) => or_empty(scalar_text(inner)),
            None => ""@,
        },
        None => ""@,
    }
}

fn write_at(value: &Json, pointer: &str) -> (r: String)
    ensures
        r@ == text_at(Some(value.deep_view()), pointer@),
{
    match get_json_path(value, pointer) {
        Some(inner) => text_or_empty(scalar_to_string(inner)),
        None => "".to_owned(),
    }
}

/// The credential as one text: the JSON text that it is, or else its bytes as text, without white
/// space and quotes around it.
pub open spec fn raw_credential(bytes: Seq<u8>, credential: Option<JsonView>) -> Option<Seq<char>> {
    match credential {
        Some(JsonView::Text(s)) => Some(s),
        _ => match utf8_text(bytes) {
            Some(s) => Some(strip_end_of(strip_start_of(trim_of(s), '"'), '"')),
            None => None,
        },
    }
}

/// The credential as one text.
pub fn extract_raw_credential_string(credential_bytes: &Vec<u8>, credential: &Option<Json>) -> (r:
    Option<String>)
    ensures
        r.deep_view() == raw_credential(credential_bytes@, credential.deep_view()),
{
    match credential {
        Some(Json::Text(s)) => {
            return Some(s.clone());
        },
        _ => {},
    }
    match text_of_utf8(vstd::slice::slice_to_vec(credential_bytes.as_slice())) {
        Some(s) => Some(trim_char(trim(s.as_str()).as_str(), '"')),
        None => None,
    }
}

/// A claim of the token that the credential is.
pub open spec fn claim_text(t: TemplateView, claim: Seq<char>) -> Seq<char> {
    match raw_credential(t.bytes, t.credential) {
        Some(jwt) => match jwt_payload(jwt) {
            Ok(payload) => text_at(Some(payload), claim),
            Err(_) => ""@,
        },
        None => ""@,
    }
}

/// A field of the account's identity.
pub open spec fn account_text(identity: IdentityView, field: Seq<char>) -> Seq<char> {
    if field == "email"@ {
        or_empty(identity.email)
    } else if field == "org_name"@ {
        or_empty(identity.org_name)
    } else if field == "plan"@ {
        or_empty(identity.plan)
    } else if identity.extra.contains_key(field) {
        or_empty(scalar_text(identity.extra[field]))
    } else {
        ""@
    }
}

pub open spec fn moment_text(t: Option<Timestamp>) -> Seq<char> {
    match t {
        Some(at) => or_empty(rfc3339_of(at.secs, at.nanos)),
        None => ""@,
    }
}

pub open spec fn day_text(t: Option<Timestamp>) -> Seq<char> {
    match t {
        Some(at) => or_empty(date_of(at.secs, at.nanos)),
        None => ""@,
    }
}

/// What stands for a placeholder; nothing for one that is not known.
pub open spec fn placeholder_value(key: Seq<char>, t: TemplateView) -> Seq<char> {
    if strip_prefix_of(key, "cred:"@) is Some {
        text_at(t.credential, strip_prefix_of(key, "cred:"@)->0)
    } else if strip_prefix_of(key, "cred_jwt:"@) is Some {
        claim_text(t, strip_prefix_of(key, "cred_jwt:"@)->0)
    } else if key == "window:from"@ {
        moment_text(t.bounds.from)
    } else if key == "window:to"@ {
        moment_text(t.bounds.to)
    } else if key == "window:from_date"@ {
        day_text(t.bounds.from)
    } else if key == "window:to_date"@ {
        day_text(t.bounds.to)
    } else if strip_prefix_of(key, "account:"@) is Some {
        account_text(t.identity, strip_prefix_of(key, "account:"@)->0)
    } else {
        ""@
    }
}

/// The text that opens a placeholder.
pub open spec fn opening() -> Seq<char> {
    seq!['$', '{']
}

/// A template with every placeholder replaced; an opening without a closing brace stays as it is.
pub open spec fn rendered(s: Seq<char>, t: TemplateView) -> Seq<char>
    decreases s.len(),
{
    proof {
        lemma_find_from(s, opening(), 0);
    }
    match find_from(s, opening(), 0) {
        None => s,
        Some(i) => {
            let rest = s.subrange(i + 2, s.len() as int);
            proof {
                lemma_find_from(rest, seq!['}'], 0);
            }
            match find_from(rest, seq!['}'], 0) {
                None => s,
                Some(j) => s.subrange(0, i) + placeholder_value(rest.subrange(0, j), t) + rendered(
                    rest.subrange(j + 1, rest.len() as int),
                    t,
                ),
            }
        },
    }
}

/// A template without an opening is left as it is.
pub proof fn plain_template_is_unchanged(s: Seq<char>, t: TemplateView)
    requires
        find_from(s, opening(), 0) is None,
    ensures
        rendered(s, t) == s,
{
}

fn write_moment(t: Option<Timestamp>) -> (r: String)
    ensures
        r@ == moment_text(t),
{
    match t {
        Some(at) => text_or_empty(write_rfc3339(at)),
        None => "".to_owned(),
    }
}

fn write_day(t: Option<Timestamp>) -> (r: String)
    ensures
        r@ == day_text(t),
{
    match t {
        Some(at) => text_or_empty(write_date(at)),
        None => "".to_owned(),
    }
}

fn account_value(identity: &Identity, field: &str) -> (r: String)
    ensures
        r@ == account_text(identity.deep_view(), field@),
{
    if same(field, "email") {
        text_or_empty(copy_opt(&identity.email))
    } else if same(field, "org_name") {
        text_or_empty(copy_opt(&identity.org_name))
    } else if same(field, "plan") {
        text_or_empty(copy_opt(&identity.plan))
    } else {
        match identity.extra.get(field) {
            Some(value) => text_or_empty(scalar_to_string(value)),
            None => "".to_owned(),
        }
    }
}

pub open spec fn template_view(
    bytes: Seq<u8>,
    credential: Option<Json>,
    identity: Identity,
    bounds: WindowBounds,
) -> TemplateView {
    TemplateView {
        bytes,
        credential: credential.deep_view(),
        identity: identity.deep_view(),
        bounds,
    }
}

fn resolve_template_value(
    key: &str,
    credential_bytes: &Vec<u8>,
    credential: &Option<Json>,
    identity: &Identity,
    bounds: &WindowBounds,
) -> (r: String)
    ensures
        r@ == placeholder_value(
            key@,
            template_view(credential_bytes@, *credential, *identity, *bounds),
        ),
{
    match strip_prefix(key, "cred:") {
        Some(pointer) => {
            return match credential {
                Some(value) => write_at(value, pointer.as_str()),
                None => "".to_owned(),
            };
        },
        None => {},
    }
    match strip_prefix(key, "cred_jwt:") {
        Some(claim) => {
            return match extract_raw_credential_string(credential_bytes, credential) {
                Some(jwt) => match decode_jwt_payload(jwt.as_str()) {
                    Ok(payload) => write_at(&payload, claim.as_str()),
                    Err(_) => "".to_owned(),
                },
                None => "".to_owned(),
            };
        },
        None => {},
    }
    if same(key, "window:from") {
        return write_moment(bounds.from);
    }
    if same(key, "window:to") {
        return write_moment(bounds.to);
    }
    if same(key, "window:from_date") {
        return write_day(bounds.from);
    }
    if same(key, "window:to_date") {
        return write_day(bounds.to);
    }
    match strip_prefix(key, "account:") {
        Some(field) => account_value(identity, field.as_str()),
        None => "".to_owned(),
    }
}

/// A template with every placeholder replaced.
pub fn expand_template(
    template: &str,
    credential_bytes: &Vec<u8>,
    credential: &Option<Json>,
    identity: &Identity,
    bounds: &WindowBounds,
) -> (r: String)
    ensures
        r@ == rendered(
            template@,
            template_view(credential_bytes@, *credential, *identity, *bounds),
        ),
{
    let ghost t = template_view(credential_bytes@, *credential, *identity, *bounds);
    let open = chars_of("${");
    proof {
        reveal_strlit("${");
        assert(open@ == opening());
    }
    let mut rest = chars_of(template);
    let mut out = String::new();
    assert(out@ + rendered(rest@, t) == rendered(template@, t));
    loop
        invariant
            open@ == opening(),
            t == template_view(credential_bytes@, *credential, *identity, *bounds),
            rendered(template@, t) == out@ + rendered(rest@, t),
        decreases rest.len(),
    {
        match position(&rest, &open, 0) {
            None => {
                out.append(string_of(&rest).as_str());
                return out;
            },
            Some(start) => {
                proof {
                    lemma_find_suffix(rest@, '}', start + 2, 0);
                }
                match position_char(&rest, '}', start + 2) {
                    None => {
                        out.append(string_of(&rest).as_str());
                        return out;
                    },
                    Some(end) => {
                        let ghost tail = rest@.subrange(start + 2, rest@.len() as int);
                        let ghost done = out@;
                        let key = piece(&rest, start + 2, end);
                        assert(tail.subrange(0, end - start - 2) == key@);
                        let head = piece(&rest, 0, start);
                        let value = resolve_template_value(
                            key.as_str(),
                            credential_bytes,
                            credential,
                            identity,
                            bounds,
                        );
                        out.append(head.as_str());
                        out.append(value.as_str());
                        let next = chars_of(piece(&rest, end + 1, rest.len()).as_str());
                        proof {
                            assert(tail.subrange(end - start - 1, tail.len() as int) == next@);
                            let more = rendered(next@, t);
                            assert(done + (head@ + value@ + more) == out@ + more);
                        }
                        rest = next;
                    },
                }
            },
        }
    }
}

} // verus!
