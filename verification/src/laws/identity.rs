//! Who an account belongs to: where each rule of a manifest looks, and which of its finds counts.
use vstd::prelude::*;

use crate::identity::{
    FileTextView, IdentityView, JwtDecodeError, extracted, files_named, jwt_payload, rule_outcome,
    rule_value, text_placed, texts_sorted, top_keys, value_text,
};
use crate::json::{JsonView, at_pointer, json_of_bytes, json_of_text};
use crate::path::user_path;
use crate::plugin::{IdentityExtract, IdentitySource, ValueSource};
use crate::text::{
    join_of, lemma_text_lt_irreflexive, lemma_text_lt_total, lemma_text_lt_transitive, split_of,
    text_lt,
};

verus! {

/// What is at a pointer into a value, where there is a value and a pointer.
pub open spec fn found_at(value: Option<JsonView>, pointer: Option<String>) -> Option<JsonView> {
    if value is Some && pointer is Some {
        at_pointer(value->0, pointer->0@)
    } else {
        None
    }
}

/// What a JSON file of the machine holds, where it can be read.
pub open spec fn held_by(
    path: Option<String>,
    home: Seq<char>,
    files: Map<Seq<char>, FileTextView>,
) -> Option<JsonView> {
    if path is Some && files.contains_key(user_path(path->0@, home)) {
        match files[user_path(path->0@, home)] {
            FileTextView::Contents(text) => match json_of_text(text) {
                Ok(value) => Some(value),
                Err(_) => None,
            },
            _ => None,
        }
    } else {
        None
    }
}

/// The main part of a rule looks where the main part says: in a file at a path, in the credential, in
/// a claim of a token, or at what it is told. The other part of the rule plays no role in it.
pub proof fn the_main_source_is_where_the_rule_says(
    rule: IdentityExtract,
    credential: Option<JsonView>,
    home: Seq<char>,
    files: Map<Seq<char>, FileTextView>,
)
    ensures
        ({
            let main = rule_value(rule, false, credential, home, files);
            &&& rule.source == IdentitySource::JsonValue ==> main.value == found_at(
                credential,
                rule.json_pointer,
            ) && main.warnings.len() == 0
            &&& rule.source == IdentitySource::JsonFile ==> main.value == found_at(
                held_by(rule.json_file_path, home, files),
                rule.json_pointer,
            )
            &&& rule.source == IdentitySource::Literal ==> main.value == (match rule.literal {
                Some(text) => Some(JsonView::Text(text@)),
                None => None,
            }) && main.warnings.len() == 0
            &&& rule.source == IdentitySource::JwtClaim && rule.jwt_from == Some(
                ValueSource::JsonValue,
            ) ==> main.value == claim_of(
                found_at(credential, rule.jwt_json_pointer),
                rule.claim_pointer,
            )
            &&& rule.source == IdentitySource::JwtClaim && rule.jwt_from == Some(
                ValueSource::JsonFile,
            ) ==> main.value == claim_of(
                found_at(held_by(rule.json_file_path, home, files), rule.jwt_json_pointer),
                rule.claim_pointer,
            )
            &&& rule.source == IdentitySource::JwtClaim && rule.jwt_from is None
                ==> main.value is None
        }),
{
}

/// The claim that a pointer leads to in the token that a value is.
pub open spec fn claim_of(token: Option<JsonView>, pointer: Option<String>) -> Option<JsonView> {
    if token is Some && value_text(token->0) is Some {
        match jwt_payload(value_text(token->0)->0) {
            Ok(payload) => found_at(Some(payload), pointer),
            Err(_) => None,
        }
    } else {
        None
    }
}

/// The fallback of a rule looks where the fallback part says, in the same ways; where there is no such
/// part it finds nothing.
pub proof fn the_fallback_is_where_the_rule_says(
    rule: IdentityExtract,
    credential: Option<JsonView>,
    home: Seq<char>,
    files: Map<Seq<char>, FileTextView>,
)
    ensures
        ({
            let other = rule_value(rule, true, credential, home, files);
            &&& rule.fallback_source is None ==> other.value is None && other.warnings.len() == 0
            &&& rule.fallback_source == Some(IdentitySource::JsonValue) ==> other.value == found_at(
                credential,
                rule.fallback_json_pointer,
            ) && other.warnings.len() == 0
            &&& rule.fallback_source == Some(IdentitySource::JsonFile) ==> other.value == found_at(
                held_by(rule.fallback_json_file_path, home, files),
                rule.fallback_json_pointer,
            )
            &&& rule.fallback_source == Some(IdentitySource::Literal) ==> other.value == (
            match rule.fallback_literal {
                Some(text) => Some(JsonView::Text(text@)),
                None => None,
            }) && other.warnings.len() == 0
            &&& rule.fallback_source == Some(IdentitySource::JwtClaim) && rule.fallback_jwt_from
                == Some(ValueSource::JsonValue) ==> other.value == claim_of(
                found_at(credential, rule.fallback_jwt_json_pointer),
                rule.fallback_claim_pointer,
            )
            &&& rule.fallback_source == Some(IdentitySource::JwtClaim) && rule.fallback_jwt_from
                == Some(ValueSource::JsonFile) ==> other.value == claim_of(
                found_at(
                    held_by(rule.fallback_json_file_path, home, files),
                    rule.fallback_jwt_json_pointer,
                ),
                rule.fallback_claim_pointer,
            )
        }),
{
}

/// Where the main source of a rule finds a value, that value counts, with what was said about finding
/// it, and the fallback is not looked at. Only where it finds none does the fallback count.
pub proof fn the_main_source_goes_before_the_fallback(
    rule: IdentityExtract,
    credential: Option<JsonView>,
    home: Seq<char>,
    files: Map<Seq<char>, FileTextView>,
)
    ensures
        ({
            let main = rule_value(rule, false, credential, home, files);
            let other = rule_value(rule, true, credential, home, files);
            let outcome = rule_outcome(rule, credential, home, files);
            &&& main.value is Some ==> outcome.value == main.value && outcome.warnings
                == main.warnings
            &&& main.value is None ==> outcome.value == other.value && outcome.warnings
                == main.warnings + other.warnings
        }),
{
}

/// What the main source of a single rule finds stands in the field of the rule, whatever the fallback
/// finds, and only what finding it warned of is told. What the fallback finds stands there only where
/// the main source finds nothing.
pub proof fn what_is_found_first_stands_in_the_field(
    rule: IdentityExtract,
    credential: Option<JsonView>,
    home: Seq<char>,
    files: Map<Seq<char>, FileTextView>,
)
    ensures
        ({
            let main = rule_value(rule, false, credential, home, files);
            let other = rule_value(rule, true, credential, home, files);
            let (identity, said) = extracted(seq![rule], credential, home, files);
            let field = rule.field@;
            &&& main.value matches Some(v) ==> stands_in(identity, field, v) && said
                == main.warnings
            &&& main.value is None ==> (other.value matches Some(v) ==> stands_in(
                identity,
                field,
                v,
            ))
            &&& main.value is None ==> said == main.warnings + other.warnings
            &&& main.value is None && other.value is None ==> identity == (IdentityView {
                email: None,
                org_name: None,
                plan: None,
                extra: Map::empty(),
            })
        }),
{
    let none = Seq::<IdentityExtract>::empty();
    a_rule_sets_its_field(none, rule, credential, home, files);
    assert(none.push(rule) == seq![rule]);
    assert(extracted(none, credential, home, files).1 == Seq::<Seq<char>>::empty());
    let found = rule_outcome(rule, credential, home, files);
    assert(Seq::<Seq<char>>::empty() + found.warnings == found.warnings);
    if rule.field@ != "email"@ && rule.field@ != "org_name"@ && rule.field@ != "plan"@ {
        if let Some(v) = found.value {
            assert(Map::<Seq<char>, JsonView>::empty().insert(rule.field@, v)[rule.field@] == v);
        }
    }
}

/// Whether an identity holds a value in a field: as a text in one of the three that it has, and as it
/// is under any other name.
pub open spec fn stands_in(identity: IdentityView, field: Seq<char>, value: JsonView) -> bool {
    if field == "email"@ {
        identity.email == value_text(value)
    } else if field == "org_name"@ {
        identity.org_name == value_text(value)
    } else if field == "plan"@ {
        identity.plan == value_text(value)
    } else {
        identity.extra.contains_key(field) && identity.extra[field] == value
    }
}

/// A file that is not there is passed over; one that cannot be read, or is no JSON, is warned about with
/// its path and the cause.
pub proof fn a_file_that_is_not_there_is_passed_over(
    rule: IdentityExtract,
    path: String,
    credential: Option<JsonView>,
    home: Seq<char>,
    files: Map<Seq<char>, FileTextView>,
)
    requires
        rule.source == IdentitySource::JsonFile,
        rule.json_file_path == Some(path),
    ensures
        ({
            let full = user_path(path@, home);
            let main = rule_value(rule, false, credential, home, files);
            &&& !files.contains_key(full) || files[full] is NotFound ==> main.value is None
                && main.warnings.len() == 0
            &&& files.contains_key(full) ==> (files[full] matches FileTextView::Failed(cause)
                ==> main.value is None && main.warnings == seq![
                "failed to read json file "@ + full + ": "@ + cause,
            ])
            &&& files.contains_key(full) ==> (files[full] matches FileTextView::Contents(text) ==> (
            json_of_text(text) matches Err(cause) ==> main.value is None && main.warnings == seq![
                "failed to parse json file "@ + full + ": "@ + cause,
            ]))
            &&& files.contains_key(full) ==> (files[full] matches FileTextView::Contents(text) ==> (
            json_of_text(text) is Ok ==> main.warnings.len() == 0))
        }),
{
}

/// A token that cannot be read is warned about.
pub proof fn a_token_that_cannot_be_read_is_warned_about(
    rule: IdentityExtract,
    credential: Option<JsonView>,
    home: Seq<char>,
    files: Map<Seq<char>, FileTextView>,
    token: Seq<char>,
    cause: JwtDecodeError,
)
    requires
        rule.source == IdentitySource::JwtClaim,
        rule.jwt_from == Some(ValueSource::JsonValue),
        found_at(credential, rule.jwt_json_pointer) == Some(JsonView::Text(token)),
        jwt_payload(token) == Err::<JsonView, JwtDecodeError>(cause),
    ensures
        rule_value(rule, false, credential, home, files).value is None,
        rule_value(rule, false, credential, home, files).warnings == seq![
            "failed to decode jwt payload: "@ + cause.text(),
        ],
{
    assert(Seq::<Seq<char>>::empty().push("failed to decode jwt payload: "@ + cause.text()) == seq![
        "failed to decode jwt payload: "@ + cause.text(),
    ]);
}

proof fn lemma_text_placed(list: Seq<Seq<char>>, s: Seq<char>)
    requires
        forall|i: int, j: int|
            0 <= i < j < list.len() ==> !text_lt(#[trigger] list[j], #[trigger] list[i]),
    ensures
        text_placed(list, s).to_multiset() =~= list.to_multiset().insert(s),
        forall|i: int, j: int|
            0 <= i < j < text_placed(list, s).len() ==> !text_lt(
                #[trigger] text_placed(list, s)[j],
                #[trigger] text_placed(list, s)[i],
            ),
    decreases list.len(),
{
    broadcast use vstd::seq_lib::group_to_multiset_ensures;

    let all = text_placed(list, s);
    if list.len() > 0 && text_lt(s, list.last()) {
        let front = list.drop_last();
        let last = list.last();
        assert forall|i: int, j: int| 0 <= i < j < front.len() implies !text_lt(
            #[trigger] front[j],
            #[trigger] front[i],
        ) by {
            assert(!text_lt(list[j], list[i]));
        }
        lemma_text_placed(front, s);
        let placed = text_placed(front, s);
        assert(front.push(last) == list);
        assert(list.to_multiset() =~= front.to_multiset().insert(last));
        assert(all.to_multiset() =~= placed.to_multiset().insert(last));
        assert forall|i: int, j: int| 0 <= i < j < all.len() implies !text_lt(
            #[trigger] all[j],
            #[trigger] all[i],
        ) by {
            if j < placed.len() {
                assert(!text_lt(placed[j], placed[i]));
            } else {
                assert(placed.to_multiset().contains(placed[i])) by {
                    assert(placed.contains(placed[i]));
                }
                if placed[i] == s {
                    if text_lt(last, s) {
                        lemma_text_lt_transitive(s, last, s);
                        lemma_text_lt_irreflexive(s);
                    }
                } else {
                    assert(front.to_multiset().contains(placed[i]));
                    assert(front.contains(placed[i]));
                    let m = choose|m: int| 0 <= m < front.len() && front[m] == placed[i];
                    assert(!text_lt(list[list.len() - 1], list[m]));
                }
            }
        }
    } else {
        assert forall|i: int, j: int| 0 <= i < j < all.len() implies !text_lt(
            #[trigger] all[j],
            #[trigger] all[i],
        ) by {
            if j < list.len() {
                assert(!text_lt(list[j], list[i]));
            } else if text_lt(s, list[i]) {
                if i < list.len() - 1 {
                    assert(!text_lt(list[list.len() - 1], list[i]));
                    lemma_text_lt_total(list[i], list.last());
                    if list[i] != list.last() {
                        lemma_text_lt_transitive(s, list[i], list.last());
                    }
                }
            }
        }
    }
}

/// The names of an object are told in their order, each of them once, with commas between them; of
/// nothing else are there any.
pub proof fn names_of_an_object_are_told_in_order(
    names: Seq<Seq<char>>,
    entries: Seq<(Seq<char>, JsonView)>,
    text: Seq<char>,
    other: JsonView,
)
    ensures
        texts_sorted(names).to_multiset() =~= names.to_multiset(),
        forall|i: int, j: int|
            0 <= i < j < texts_sorted(names).len() ==> !text_lt(
                #[trigger] texts_sorted(names)[j],
                #[trigger] texts_sorted(names)[i],
            ),
        names == entries.map_values(|e: (Seq<char>, JsonView)| e.0) ==> top_keys(
            JsonView::Object { entries, text },
        ) == Some(JsonView::Text(join_of(texts_sorted(names), ", "@))),
        !(other is Object) ==> top_keys(other) is None,
    decreases names.len(),
{
    broadcast use vstd::seq_lib::group_to_multiset_ensures;

    if names.len() > 0 {
        let front = names.drop_last();
        names_of_an_object_are_told_in_order(front, entries, text, other);
        lemma_text_placed(texts_sorted(front), names.last());
        assert(front.push(names.last()) == names);
    }
}

/// Two rules with the same main part give the same identity and the same warnings wherever that part
/// finds a value, whatever their fallbacks are.
pub proof fn an_unused_fallback_changes_nothing(
    a: IdentityExtract,
    b: IdentityExtract,
    credential: Option<JsonView>,
    home: Seq<char>,
    files: Map<Seq<char>, FileTextView>,
)
    requires
        a.field@ == b.field@,
        a.source == b.source,
        a.json_file_path == b.json_file_path,
        a.json_pointer == b.json_pointer,
        a.jwt_from == b.jwt_from,
        a.jwt_json_pointer == b.jwt_json_pointer,
        a.claim_pointer == b.claim_pointer,
        a.json_top_keys_from == b.json_top_keys_from,
        a.literal == b.literal,
        rule_value(a, false, credential, home, files).value is Some,
    ensures
        extracted(seq![a], credential, home, files) == extracted(seq![b], credential, home, files),
{
    assert(seq![a].drop_last() == Seq::<IdentityExtract>::empty());
    assert(seq![b].drop_last() == Seq::<IdentityExtract>::empty());
    assert(rule_value(a, false, credential, home, files) == rule_value(
        b,
        false,
        credential,
        home,
        files,
    ));
}

/// Each rule in turn sets its field to what it finds, and leaves the other fields, and all of them
/// where it finds nothing. What it warns of is added to the warnings.
pub proof fn a_rule_sets_its_field(
    rules: Seq<IdentityExtract>,
    rule: IdentityExtract,
    credential: Option<JsonView>,
    home: Seq<char>,
    files: Map<Seq<char>, FileTextView>,
)
    ensures
        ({
            let (before, said) = extracted(rules, credential, home, files);
            let (after, now_said) = extracted(rules.push(rule), credential, home, files);
            let found = rule_outcome(rule, credential, home, files);
            let field = rule.field@;
            &&& now_said == said + found.warnings
            &&& found.value is None ==> after == before
            &&& found.value is Some && field == "email"@ ==> after.email == value_text(
                found.value->0,
            )
            &&& found.value is Some && field == "org_name"@ ==> after.org_name == value_text(
                found.value->0,
            )
            &&& found.value is Some && field == "plan"@ ==> after.plan == value_text(
                found.value->0,
            )
            &&& field != "email"@ ==> after.email == before.email
            &&& field != "org_name"@ ==> after.org_name == before.org_name
            &&& field != "plan"@ ==> after.plan == before.plan
            &&& found.value is Some && field != "email"@ && field != "org_name"@ && field
                != "plan"@ ==> after.extra == before.extra.insert(field, found.value->0)
            &&& field == "email"@ || field == "org_name"@ || field == "plan"@ ==> after.extra
                == before.extra
            &&& extracted(Seq::<IdentityExtract>::empty(), credential, home, files).0 == (
            IdentityView { email: None, org_name: None, plan: None, extra: Map::empty() })
        }),
{
    reveal_strlit("email");
    reveal_strlit("org_name");
    reveal_strlit("plan");
    assert("email"@.len() == 5 && "org_name"@.len() == 8 && "plan"@.len() == 4);
    assert(rules.push(rule).drop_last() == rules);
    assert(rules.push(rule).last() == rule);
}

/// The text of a value: a text is itself, a number as it is written, a word is its name, a list or an
/// object its compact text, and null has none.
pub proof fn a_value_has_its_text(value: JsonView)
    ensures
        value_text(value) is None <==> value is Null,
        value matches JsonView::Text(s) ==> value_text(value) == Some(s),
        value matches JsonView::Number(n) ==> value_text(value) == Some(n.text),
        value matches JsonView::Bool(b) ==> value_text(value) == Some(
            if b {
                "true"@
            } else {
                "false"@
            },
        ),
        value matches JsonView::Array { text, .. } ==> value_text(value) == Some(text),
        value matches JsonView::Object { text, .. } ==> value_text(value) == Some(text),
{
}

/// The claims of a token are in the second of its parts; a token has at least three.
pub proof fn claims_are_in_the_second_part(jwt: Seq<char>)
    ensures
        split_of(jwt, '.').len() < 3 ==> jwt_payload(jwt) == Err::<JsonView, JwtDecodeError>(
            JwtDecodeError::InvalidFormat,
        ),
        split_of(jwt, '.').len() >= 3 ==> (match crate::identity::base64url_bytes(
            split_of(jwt, '.')[1],
        ) {
            None => jwt_payload(jwt) == Err::<JsonView, JwtDecodeError>(JwtDecodeError::Base64),
            Some(bytes) => match json_of_bytes(bytes) {
                Ok(value) => jwt_payload(jwt) == Ok::<JsonView, JwtDecodeError>(value),
                Err(_) => jwt_payload(jwt) == Err::<JsonView, JwtDecodeError>(JwtDecodeError::Json),
            },
        }),
{
}

/// The files that identities are looked up in are those that the rules name, in both of their parts.
pub proof fn the_files_that_rules_name_are_read(
    rules: Seq<IdentityExtract>,
    home: Seq<char>,
    path: Seq<char>,
)
    ensures
        files_named(rules, home).contains(path) <==> exists|i: int|
            0 <= i < rules.len() && names_file(#[trigger] rules[i], home, path),
    decreases rules.len(),
{
    if rules.len() > 0 {
        let rest = rules.drop_last();
        let last = rules.last();
        the_files_that_rules_name_are_read(rest, home, path);
        let front = files_named(rest, home);
        let all = files_named(rules, home);
        assert(rules[rules.len() - 1] == last);
        let main = match last.json_file_path {
            Some(p) => seq![user_path(p@, home)],
            None => seq![],
        };
        let other = match last.fallback_json_file_path {
            Some(p) => seq![user_path(p@, home)],
            None => seq![],
        };
        assert(all == front + main + other);
        if exists|i: int| 0 <= i < rest.len() && names_file(#[trigger] rest[i], home, path) {
            let i = choose|i: int| 0 <= i < rest.len() && names_file(#[trigger] rest[i], home, path);
            assert(rules[i] == rest[i]);
            let k = choose|k: int| 0 <= k < front.len() && front[k] == path;
            assert(all[k] == path);
        }
        if names_file(last, home, path) {
            if last.json_file_path is Some && user_path(last.json_file_path->0@, home) == path {
                assert(all[front.len() as int] == path);
            } else {
                assert(all[(front.len() + main.len()) as int] == path);
            }
        }
        if all.contains(path) {
            let k = choose|k: int| 0 <= k < all.len() && all[k] == path;
            if k < front.len() {
                assert(front[k] == path);
                let i = choose|i: int|
                    0 <= i < rest.len() && names_file(#[trigger] rest[i], home, path);
                assert(rules[i] == rest[i]);
            }
        }
        if exists|i: int| 0 <= i < rules.len() && names_file(#[trigger] rules[i], home, path) {
            let i = choose|i: int|
                0 <= i < rules.len() && names_file(#[trigger] rules[i], home, path);
            if i < rest.len() {
                assert(rest[i] == rules[i]);
            }
        }
    }
}

/// Whether one of the parts of a rule names a file.
pub open spec fn names_file(rule: IdentityExtract, home: Seq<char>, path: Seq<char>) -> bool {
    (rule.json_file_path is Some && user_path(rule.json_file_path->0@, home) == path) || (
    rule.fallback_json_file_path is Some && user_path(rule.fallback_json_file_path->0@, home)
        == path)
}

} // verus!
