//! What is left of the allowance of an account.
use vstd::prelude::*;

use crate::json::{
    Json, JsonView, Number, NumberView, a_changed_field_is_read_back, copy_json, field_of, set_field,
    with_field,
};
use crate::text::join2;
use crate::text_map::{Duplicate, TextMap};
use crate::usage::filter::{integer_number, number_of_integer};

verus! {

/// The part of an allowance that a window of time gives: how much of it is left and how much is
/// used, in percent, and when it is whole again.
pub struct WindowQuota {
    pub remaining: Number,
    pub used: Number,
    pub reset_time: Option<String>,
}

pub struct WindowView {
    pub remaining: NumberView,
    pub used: NumberView,
    pub reset_time: Option<Seq<char>>,
}

impl DeepView for WindowQuota {
    type V = WindowView;

    open spec fn deep_view(&self) -> WindowView {
        WindowView {
            remaining: self.remaining.deep_view(),
            used: self.used.deep_view(),
            reset_time: self.reset_time.deep_view(),
        }
    }
}

/// How much of an allowance a service says is used, as the bits of a percentage, and when it is
/// whole again.
pub struct WindowReading {
    pub used_bits: u64,
    pub reset_time: Option<String>,
}

pub struct ReadingView {
    pub used_bits: u64,
    pub reset_time: Option<Seq<char>>,
}

impl DeepView for WindowReading {
    type V = ReadingView;

    open spec fn deep_view(&self) -> ReadingView {
        ReadingView { used_bits: self.used_bits, reset_time: self.reset_time.deep_view() }
    }
}

/// A number by which double precision numbers are ordered as their bits say; the two zeros are the
/// same.
pub open spec fn order_key(bits: u64) -> int {
    if bits < 0x8000_0000_0000_0000 {
        bits as int
    } else {
        -(bits - 0x8000_0000_0000_0000)
    }
}

fn key_of(bits: u64) -> (r: i128)
    ensures
        r == order_key(bits),
{
    if bits < 0x8000_0000_0000_0000 {
        bits as i128
    } else {
        -(bits as i128 - 0x8000_0000_0000_0000)
    }
}

/// Whether the number `a` is at most `b`.
pub open spec fn at_most(a: NumberView, b: NumberView) -> bool {
    match (a.bits, b.bits) {
        (Some(x), Some(y)) => order_key(x) <= order_key(y),
        _ => false,
    }
}

fn is_at_most(a: &Number, b: &Number) -> (r: bool)
    ensures
        r == at_most(a.deep_view(), b.deep_view()),
{
    match a.bits {
        Some(x) => match b.bits {
            Some(y) => key_of(x) <= key_of(y),
            None => false,
        },
        None => false,
    }
}

/// The window that limits an account most: the weekly one, unless more is left of it than of the
/// session's.
pub open spec fn main_window(session: Option<WindowView>, weekly: Option<WindowView>) -> Option<
    (WindowView, Seq<char>),
> {
    match (session, weekly) {
        (Some(s), Some(w)) => if at_most(w.remaining, s.remaining) {
            Some((w, "weekly"@))
        } else {
            Some((s, "session"@))
        },
        (Some(s), None) => Some((s, "session"@)),
        (None, Some(w)) => Some((w, "weekly"@)),
        (None, None) => None,
    }
}

/// The entries that a window adds to a quota.
pub open spec fn with_window(
    quota: Map<Seq<char>, JsonView>,
    prefix: Seq<char>,
    w: Option<WindowView>,
) -> Map<Seq<char>, JsonView> {
    match w {
        None => quota,
        Some(w) => {
            let q = quota.insert(
                prefix + "_remaining_percent"@,
                JsonView::Number(w.remaining),
            ).insert(prefix + "_used_percent"@, JsonView::Number(w.used));
            match w.reset_time {
                Some(t) => q.insert(prefix + "_reset_time"@, JsonView::Text(t)),
                None => q,
            }
        },
    }
}

/// The entries that the window which limits an account most adds to a quota.
pub open spec fn with_main(
    quota: Map<Seq<char>, JsonView>,
    session: Option<WindowView>,
    weekly: Option<WindowView>,
) -> Map<Seq<char>, JsonView> {
    match main_window(session, weekly) {
        None => quota,
        Some((w, scope)) => {
            let q = quota.insert("remaining_percent"@, JsonView::Number(w.remaining)).insert(
                "used_percent"@,
                JsonView::Number(w.used),
            );
            let q = match w.reset_time {
                Some(t) => q.insert("reset_time"@, JsonView::Text(t)),
                None => q,
            };
            q.insert("quota_scope"@, JsonView::Text(scope))
        },
    }
}

/// The entry `name` with a text, where there is one.
pub open spec fn with_text(
    quota: Map<Seq<char>, JsonView>,
    name: Seq<char>,
    text: Option<Seq<char>>,
) -> Map<Seq<char>, JsonView> {
    match text {
        Some(t) => quota.insert(name, JsonView::Text(t)),
        None => quota,
    }
}

/// Adds the entry `name` with a text, where there is one.
pub fn insert_text(quota: &mut TextMap<Json>, name: &str, text: &Option<String>)
    ensures
        final(quota).deep_view() == with_text(old(quota).deep_view(), name@, text.deep_view()),
{
    match text {
        Some(t) => {
            quota.insert(name.to_owned(), Json::Text(t.clone()));
        },
        None => {},
    }
}

/// Adds the entries of a window.
pub fn insert_window(quota: &mut TextMap<Json>, prefix: &str, window: &Option<WindowQuota>)
    ensures
        final(quota).deep_view() == with_window(
            old(quota).deep_view(),
            prefix@,
            window.deep_view(),
        ),
{
    match window {
        None => {},
        Some(w) => {
            quota.insert(
                join2(prefix, "_remaining_percent"),
                Json::Number(w.remaining.duplicate()),
            );
            quota.insert(join2(prefix, "_used_percent"), Json::Number(w.used.duplicate()));
            insert_text(quota, join2(prefix, "_reset_time").as_str(), &w.reset_time);
        },
    }
}

fn insert_scoped(quota: &mut TextMap<Json>, w: &WindowQuota, scope: &str)
    ensures
        final(quota).deep_view() == ({
            let v = w.deep_view();
            let q = old(quota).deep_view().insert(
                "remaining_percent"@,
                JsonView::Number(v.remaining),
            ).insert("used_percent"@, JsonView::Number(v.used));
            let q = match v.reset_time {
                Some(t) => q.insert("reset_time"@, JsonView::Text(t)),
                None => q,
            };
            q.insert("quota_scope"@, JsonView::Text(scope@))
        }),
{
    quota.insert("remaining_percent".to_owned(), Json::Number(w.remaining.duplicate()));
    quota.insert("used_percent".to_owned(), Json::Number(w.used.duplicate()));
    insert_text(quota, "reset_time", &w.reset_time);
    quota.insert("quota_scope".to_owned(), Json::Text(scope.to_owned()));
}

/// Adds the entries of the window which limits an account most.
pub fn insert_main_window(
    quota: &mut TextMap<Json>,
    session: &Option<WindowQuota>,
    weekly: &Option<WindowQuota>,
)
    ensures
        final(quota).deep_view() == with_main(
            old(quota).deep_view(),
            session.deep_view(),
            weekly.deep_view(),
        ),
{
    match session {
        Some(s) => match weekly {
            Some(w) => if is_at_most(&w.remaining, &s.remaining) {
                insert_scoped(quota, w, "weekly");
            } else {
                insert_scoped(quota, s, "session");
            },
            None => {
                insert_scoped(quota, s, "session");
            },
        },
        None => match weekly {
            Some(w) => {
                insert_scoped(quota, w, "weekly");
            },
            None => {},
        },
    }
}

/// The window that a quota names as its scope is not less used than the other one: no more is left
/// of it.
pub proof fn the_main_window_is_the_tightest(session: WindowView, weekly: WindowView)
    requires
        session.remaining.bits is Some,
        weekly.remaining.bits is Some,
    ensures
        main_window(Some(session), Some(weekly)) matches Some((w, _)) && at_most(
            w.remaining,
            session.remaining,
        ) && at_most(w.remaining, weekly.remaining),
{
}

/// A whole percentage from 0 to 100 at either end, as a JSON number.
pub open spec fn nothing_left() -> NumberView {
    NumberView { signed: None, unsigned: None, bits: Some(0), whole: Some(0), text: "0.0"@ }
}

pub open spec fn all_used() -> NumberView {
    NumberView {
        signed: None,
        unsigned: None,
        bits: Some(0x4059_0000_0000_0000),
        whole: Some(100),
        text: "100.0"@,
    }
}

/// Zero percent.
pub fn zero_percent() -> (r: Number)
    ensures
        r.deep_view() == nothing_left(),
{
    Number {
        signed: None,
        unsigned: None,
        bits: Some(0),
        whole: Some(0),
        text: "0.0".to_owned(),
    }
}

/// A hundred percent.
pub fn hundred_percent() -> (r: Number)
    ensures
        r.deep_view() == all_used(),
{
    Number {
        signed: None,
        unsigned: None,
        bits: Some(0x4059_0000_0000_0000),
        whole: Some(100),
        text: "100.0".to_owned(),
    }
}

/// An optional text that is not empty.
pub open spec fn not_empty(s: Option<Seq<char>>) -> Option<Seq<char>> {
    match s {
        Some(t) => if t.len() > 0 {
            s
        } else {
            None
        },
        None => None,
    }
}

/// The text that a value is, where it is one and not empty.
pub open spec fn filled_text(value: Option<JsonView>) -> Option<Seq<char>> {
    match value {
        Some(v) => not_empty(crate::json::text_in(v)),
        None => None,
    }
}

/// The text that a value is, where it is one and not empty.
pub fn filled(value: Option<&Json>) -> (r: Option<String>)
    ensures
        r.deep_view() == filled_text(value.deep_view()),
{
    match value {
        Some(Json::Text(s)) => if s.as_str().is_empty() {
            None
        } else {
            Some(s.clone())
        },
        _ => None,
    }
}

/// The text that a value is, where it is one.
pub fn text_of(value: Option<&Json>) -> (r: Option<String>)
    ensures
        r.deep_view() == (match value.deep_view() {
            Some(v) => crate::json::text_in(v),
            None => None,
        }),
{
    match value {
        Some(Json::Text(s)) => Some(s.clone()),
        _ => None,
    }
}

/// The field `b` of the field `a`.
pub open spec fn field2(value: JsonView, a: Seq<char>, b: Seq<char>) -> Option<JsonView> {
    match field_of(value, a) {
        Some(v) => field_of(v, b),
        None => None,
    }
}

/// The field `b` of the field `a`.
pub fn inner_field<'a>(value: &'a Json, a: &str, b: &str) -> (r: Option<&'a Json>)
    ensures
        r.deep_view() == field2(value.deep_view(), a@, b@),
{
    match value.field(a) {
        Some(v) => v.field(b),
        None => None,
    }
}

/// The bits of the number that a value is, where it is one.
pub open spec fn bits_in(value: Option<JsonView>) -> Option<u64> {
    match value {
        Some(JsonView::Number(n)) => n.bits,
        _ => None,
    }
}

pub fn bits_of(value: Option<&Json>) -> (r: Option<u64>)
    ensures
        r == bits_in(value.deep_view()),
{
    match value {
        Some(Json::Number(n)) => n.bits,
        _ => None,
    }
}

// ---------------------------------------------------------------------------------------------
// Requests
// ---------------------------------------------------------------------------------------------
/// A request to a service.
pub struct HttpRequest {
    pub url: String,
    pub headers: Vec<(String, String)>,
}

/// What came of a request: a JSON value, an answer that is no JSON, a status that is no success, or
/// no answer at all.
pub enum HttpReply {
    Value(Json),
    NoJson(String),
    Status { code: u16, retry_after: Option<String>, body: String },
    Transport(String),
}

/// What a request to change a stored credential changes: the value at two field names, one inside
/// the other, or at one alone.
pub struct CredentialEdit {
    pub outer: Option<String>,
    pub field: String,
    pub value: EditValue,
}

pub enum EditValue {
    Text(String),
    Integer(i64),
}

pub enum EditValueView {
    Text(Seq<char>),
    Integer(i64),
}

pub struct EditView {
    pub outer: Option<Seq<char>>,
    pub field: Seq<char>,
    pub value: EditValueView,
}

impl DeepView for CredentialEdit {
    type V = EditView;

    open spec fn deep_view(&self) -> EditView {
        EditView {
            outer: self.outer.deep_view(),
            field: self.field@,
            value: match self.value {
                EditValue::Text(s) => EditValueView::Text(s@),
                EditValue::Integer(n) => EditValueView::Integer(n),
            },
        }
    }
}

/// The change of a text inside `outer`, where there is something new and a place for it.
pub open spec fn text_edit(
    credentials: JsonView,
    outer: Seq<char>,
    field: Seq<char>,
    text: Option<Seq<char>>,
) -> Seq<EditView> {
    match (field2(credentials, outer, field), text) {
        (Some(_), Some(t)) => seq![
            EditView { outer: Some(outer), field, value: EditValueView::Text(t) },
        ],
        _ => seq![],
    }
}

/// Adds the change of a text inside `outer`, where there is something new and a place for it.
pub fn push_text_edit(
    edits: &mut Vec<CredentialEdit>,
    credentials: &Json,
    outer: &str,
    field: &str,
    text: Option<String>,
)
    ensures
        final(edits).deep_view() == old(edits).deep_view() + text_edit(
            credentials.deep_view(),
            outer@,
            field@,
            text.deep_view(),
        ),
{
    let ghost before = edits.deep_view();
    assert(before + Seq::<EditView>::empty() == before);
    if inner_field(credentials, outer, field).is_some() {
        match text {
            Some(t) => {
                let ghost added = EditView {
                    outer: Some(outer@),
                    field: field@,
                    value: EditValueView::Text(t@),
                };
                edits.push(
                    CredentialEdit {
                        outer: Some(outer.to_owned()),
                        field: field.to_owned(),
                        value: EditValue::Text(t),
                    },
                );
                assert(edits.deep_view() == before + seq![added]);
            },
            None => {},
        }
    }
}

/// The value that a change writes.
pub open spec fn edit_json(value: EditValueView) -> JsonView {
    match value {
        EditValueView::Text(s) => JsonView::Text(s),
        EditValueView::Integer(n) => JsonView::Number(integer_number(n)),
    }
}

/// A credential after one change; where there is no place for it, nothing changes.
pub open spec fn edited_by(credentials: JsonView, edit: EditView) -> JsonView {
    match edit.outer {
        None => with_field(credentials, edit.field, edit_json(edit.value)),
        Some(outer) => match (
            field_of(credentials, outer),
            field2(credentials, outer, edit.field),
        ) {
            (Some(inner), Some(_)) => with_field(
                credentials,
                outer,
                with_field(inner, edit.field, edit_json(edit.value)),
            ),
            _ => credentials,
        },
    }
}

/// A credential after some changes, one after the other.
pub open spec fn edited(credentials: JsonView, edits: Seq<EditView>) -> JsonView
    decreases edits.len(),
{
    if edits.len() == 0 {
        credentials
    } else {
        edited_by(edited(credentials, edits.drop_last()), edits.last())
    }
}

fn apply_edit(credentials: Json, edit: &CredentialEdit) -> (r: Json)
    ensures
        r.deep_view() == edited_by(credentials.deep_view(), edit.deep_view()),
{
    let value = match &edit.value {
        EditValue::Text(s) => Json::Text(s.clone()),
        EditValue::Integer(n) => Json::Number(number_of_integer(*n)),
    };
    match &edit.outer {
        None => set_field(credentials, edit.field.as_str(), value),
        Some(outer) => {
            let inner = match credentials.field(outer.as_str()) {
                Some(inner) => if inner.field(edit.field.as_str()).is_some() {
                    Some(copy_json(inner))
                } else {
                    None
                },
                None => None,
            };
            match inner {
                Some(inner) => {
                    let changed = set_field(inner, edit.field.as_str(), value);
                    set_field(credentials, outer.as_str(), changed)
                },
                None => credentials,
            }
        },
    }
}

/// A credential after some changes, one after the other.
pub fn apply_edits(credentials: Json, edits: &Vec<CredentialEdit>) -> (r: Json)
    ensures
        r.deep_view() == edited(credentials.deep_view(), edits.deep_view()),
{
    let ghost start = credentials.deep_view();
    let ghost all = edits.deep_view();
    let mut changed = credentials;
    let mut i: usize = 0;
    while i < edits.len()
        invariant
            i <= edits@.len(),
            all == edits.deep_view(),
            changed.deep_view() == edited(start, all.take(i as int)),
        decreases edits@.len() - i,
    {
        assert(all.take(i + 1).drop_last() == all.take(i as int));
        assert(all[i as int] == edits@[i as int].deep_view());
        changed = apply_edit(changed, &edits[i]);
        i += 1;
    }
    assert(all.take(all.len() as int) == all);
    changed
}

/// Changes of two lists are made by making those of the first, then those of the second.
pub proof fn edits_are_made_in_order(credentials: JsonView, a: Seq<EditView>, b: Seq<EditView>)
    ensures
        edited(credentials, a + b) == edited(edited(credentials, a), b),
    decreases b.len(),
{
    if b.len() == 0 {
        assert(a + b == a);
    } else {
        edits_are_made_in_order(credentials, a, b.drop_last());
        assert((a + b).drop_last() == a + b.drop_last());
    }
}

/// A change inside `outer` for which there is a place is read back there, and nowhere else is
/// anything changed.
pub proof fn an_inner_edit_is_read_back(
    credentials: JsonView,
    outer: Seq<char>,
    field: Seq<char>,
    value: EditValueView,
)
    requires
        field2(credentials, outer, field) is Some,
    ensures
        ({
            let after = edited(
                credentials,
                seq![(EditView { outer: Some(outer), field, value })],
            );
            &&& field2(after, outer, field) == Some(edit_json(value))
            &&& forall|b: Seq<char>|
                b != field ==> #[trigger] field2(after, outer, b) == field2(credentials, outer, b)
            &&& forall|a: Seq<char>|
                a != outer ==> #[trigger] field_of(after, a) == field_of(credentials, a)
        }),
{
    let edit = EditView { outer: Some(outer), field, value };
    let one = seq![edit];
    assert(one.drop_last() == Seq::<EditView>::empty());
    assert(edited(credentials, one.drop_last()) == credentials);
    let after = edited(credentials, one);
    assert(after == edited_by(credentials, edit));
    let inner = field_of(credentials, outer)->0;
    let changed = with_field(inner, field, edit_json(value));
    a_changed_field_is_read_back(inner, field, edit_json(value), field);
    a_changed_field_is_read_back(credentials, outer, changed, outer);
    assert forall|b: Seq<char>| b != field implies #[trigger] field2(after, outer, b) == field2(
        credentials,
        outer,
        b,
    ) by {
        a_changed_field_is_read_back(inner, field, edit_json(value), b);
    }
    assert forall|a: Seq<char>| a != outer implies #[trigger] field_of(after, a) == field_of(
        credentials,
        a,
    ) by {
        a_changed_field_is_read_back(credentials, outer, changed, a);
    }
}

/// The change of a text inside `outer` is read back there where it is made, and nowhere else is
/// anything changed. `now` may have come from `credentials` by other changes.
pub proof fn a_text_edit_is_read_back(
    credentials: JsonView,
    now: JsonView,
    outer: Seq<char>,
    field: Seq<char>,
    text: Option<Seq<char>>,
)
    requires
        field2(now, outer, field) is Some <==> field2(credentials, outer, field) is Some,
    ensures
        ({
            let after = edited(now, text_edit(credentials, outer, field, text));
            &&& field2(after, outer, field) == (match (field2(now, outer, field), text) {
                (Some(_), Some(t)) => Some(JsonView::Text(t)),
                (kept, _) => kept,
            })
            &&& forall|b: Seq<char>|
                b != field ==> #[trigger] field2(after, outer, b) == field2(now, outer, b)
            &&& forall|a: Seq<char>| a != outer ==> #[trigger] field_of(after, a) == field_of(now, a)
        }),
{
    match (field2(credentials, outer, field), text) {
        (Some(_), Some(t)) => {
            an_inner_edit_is_read_back(now, outer, field, EditValueView::Text(t));
        },
        _ => {},
    }
}

pub open spec fn header_pairs(headers: Seq<(String, String)>) -> Seq<(Seq<char>, Seq<char>)> {
    headers.map_values(|h: (String, String)| (h.0@, h.1@))
}

} // verus!
