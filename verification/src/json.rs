//! JSON values, how they are read from text, and how a place inside one is named.
use vstd::prelude::*;

use crate::text::{
    chars_of, find_from, parse_usize, piece, position_char, same, unsigned_of, lemma_find_from,
};
use crate::text_map::Duplicate;

verus! {

/// A JSON number: as a signed and as an unsigned integer where it is one, as the bits of the double
/// precision number nearest to it, as the whole part of that number, and as it is written.
pub struct Number {
    pub signed: Option<i64>,
    pub unsigned: Option<u64>,
    pub bits: Option<u64>,
    pub whole: Option<i64>,
    pub text: String,
}

/// A JSON value. A list and an object carry their compact text.
pub enum Json {
    Null,
    Bool(bool),
    Number(Number),
    Text(String),
    Array { items: Vec<Json>, text: String },
    Object { entries: Vec<(String, Json)>, text: String },
}

pub struct NumberView {
    pub signed: Option<i64>,
    pub unsigned: Option<u64>,
    pub bits: Option<u64>,
    pub whole: Option<i64>,
    pub text: Seq<char>,
}

/// What a JSON value stands for.
pub enum JsonView {
    Null,
    Bool(bool),
    Number(NumberView),
    Text(Seq<char>),
    Array { items: Seq<JsonView>, text: Seq<char> },
    Object { entries: Seq<(Seq<char>, JsonView)>, text: Seq<char> },
}

impl DeepView for Number {
    type V = NumberView;

    open spec fn deep_view(&self) -> NumberView {
        NumberView {
            signed: self.signed,
            unsigned: self.unsigned,
            bits: self.bits,
            whole: self.whole,
            text: self.text@,
        }
    }
}

pub open spec fn view_of(value: Json) -> JsonView
    decreases value,
{
    match value {
        Json::Null => JsonView::Null,
        Json::Bool(b) => JsonView::Bool(b),
        Json::Number(n) => JsonView::Number(n.deep_view()),
        Json::Text(s) => JsonView::Text(s@),
        Json::Array { items, text } => JsonView::Array { items: views_of(items@), text: text@ },
        Json::Object { entries, text } => JsonView::Object {
            entries: entry_views_of(entries@),
            text: text@,
        },
    }
}

pub open spec fn views_of(items: Seq<Json>) -> Seq<JsonView>
    decreases items,
{
    if items.len() == 0 {
        seq![]
    } else {
        views_of(items.drop_last()).push(view_of(items.last()))
    }
}

pub open spec fn entry_views_of(entries: Seq<(String, Json)>) -> Seq<(Seq<char>, JsonView)>
    decreases entries,
{
    if entries.len() == 0 {
        seq![]
    } else {
        entry_views_of(entries.drop_last()).push((entries.last().0@, view_of(entries.last().1)))
    }
}

impl DeepView for Json {
    type V = JsonView;

    open spec fn deep_view(&self) -> JsonView {
        view_of(*self)
    }
}

pub proof fn lemma_views_of(items: Seq<Json>)
    ensures
        views_of(items).len() == items.len(),
        forall|i: int| 0 <= i < items.len() ==> #[trigger] views_of(items)[i] == view_of(items[i]),
    decreases items.len(),
{
    if items.len() > 0 {
        lemma_views_of(items.drop_last());
    }
}

pub proof fn lemma_entry_views_of(entries: Seq<(String, Json)>)
    ensures
        entry_views_of(entries).len() == entries.len(),
        forall|i: int|
            0 <= i < entries.len() ==> #[trigger] entry_views_of(entries)[i] == (
                entries[i].0@,
                view_of(entries[i].1),
            ),
    decreases entries.len(),
{
    if entries.len() > 0 {
        lemma_entry_views_of(entries.drop_last());
    }
}

impl Duplicate for Number {
    fn duplicate(&self) -> (r: Self) {
        Number {
            signed: self.signed,
            unsigned: self.unsigned,
            bits: self.bits,
            whole: self.whole,
            text: self.text.clone(),
        }
    }
}

/// A copy of `value`.
pub fn copy_json(value: &Json) -> (r: Json)
    ensures
        r.deep_view() == value.deep_view(),
    decreases value,
{
    match value {
        Json::Null => Json::Null,
        Json::Bool(b) => Json::Bool(*b),
        Json::Number(n) => Json::Number(n.duplicate()),
        Json::Text(s) => Json::Text(s.clone()),
        Json::Array { items, text } => {
            let mut out: Vec<Json> = Vec::new();
            let mut i: usize = 0;
            while i < items.len()
                invariant
                    i <= items.len(),
                    views_of(out@) == views_of(items@.take(i as int)),
                    value matches Json::Array { items: all, text: t } && *items == all,
                decreases items.len() - i,
            {
                assert(decreases_to!(value => items@[i as int]));
                let ghost before = out@;
                out.push(copy_json(&items[i]));
                i = i + 1;
                assert(out@.drop_last() == before);
                assert(items@.take(i as int).drop_last() == items@.take(i - 1));
            }
            assert(items@.take(i as int) == items@);
            Json::Array { items: out, text: text.clone() }
        },
        Json::Object { entries, text } => {
            let mut out: Vec<(String, Json)> = Vec::new();
            let mut i: usize = 0;
            while i < entries.len()
                invariant
                    i <= entries.len(),
                    entry_views_of(out@) == entry_views_of(entries@.take(i as int)),
                    value matches Json::Object { entries: all, text: t } && *entries == all,
                decreases entries.len() - i,
            {
                assert(decreases_to!(value => entries@[i as int].1));
                let ghost before = out@;
                out.push((entries[i].0.clone(), copy_json(&entries[i].1)));
                i = i + 1;
                assert(out@.drop_last() == before);
                assert(entries@.take(i as int).drop_last() == entries@.take(i - 1));
            }
            assert(entries@.take(i as int) == entries@);
            Json::Object { entries: out, text: text.clone() }
        },
    }
}

impl Duplicate for Json {
    fn duplicate(&self) -> (r: Self) {
        copy_json(self)
    }
}

// ---------------------------------------------------------------------------------------------
// Reading text
// ---------------------------------------------------------------------------------------------
/// `serde_json::Value`, which only the functions that read text see.
#[verifier::external_type_specification]
#[verifier::external_body]
pub struct ExValue(serde_json::Value);

/// What `serde_json::from_str` makes of a text: the value, or the message of its error.
pub uninterp spec fn json_of_text(text: Seq<char>) -> Result<JsonView, Seq<char>>;

/// What `serde_json::from_slice` makes of bytes: the value, or the message of its error.
pub uninterp spec fn json_of_bytes(bytes: Seq<u8>) -> Result<JsonView, Seq<char>>;

/// A number that a `serde_json::Value` holds as a number of this library: what its `as_i64`, `as_u64`
/// and `as_f64` give, and how it is written. Nothing is claimed of the result.
#[verifier::external_body]
fn number_of(value: &serde_json::Value) -> Number {
    Number {
        signed: value.as_i64(),
        unsigned: value.as_u64(),
        bits: value.as_f64().map(|x| x.to_bits()),
        whole: value.as_f64().map(|x| x as i64),
        text: value.to_string(),
    }
}

/// A `serde_json::Value` as a value of this library, variant by variant; the texts are what
/// `serde_json` writes for the list or object. Nothing is claimed of the result.
#[verifier::external_body]
fn json_of(value: &serde_json::Value) -> Json {
    match value {
        serde_json::Value::Null => Json::Null,
        serde_json::Value::Bool(b) => Json::Bool(*b),
        serde_json::Value::Number(_) => Json::Number(number_of(value)),
        serde_json::Value::String(s) => Json::Text(s.clone()),
        serde_json::Value::Array(items) => Json::Array {
            items: items.iter().map(json_of).collect(),
            text: value.to_string(),
        },
        serde_json::Value::Object(map) => Json::Object {
            entries: map.iter().map(|(k, v)| (k.clone(), json_of(v))).collect(),
            text: value.to_string(),
        },
    }
}

/// `serde_json::from_str`: the value that a text writes, or the message of the error. The outcome
/// depends on the text alone.
#[verifier::external_body]
pub(crate) fn parse_text(text: &str) -> (r: Result<Json, String>)
    ensures
        match r {
            Ok(value) => json_of_text(text@) == Ok::<JsonView, Seq<char>>(value.deep_view()),
            Err(message) => json_of_text(text@) == Err::<JsonView, Seq<char>>(message@),
        },
{
    match serde_json::from_str::<serde_json::Value>(text) {
        Ok(value) => Ok(json_of(&value)),
        Err(error) => Err(error.to_string()),
    }
}

/// `serde_json::from_slice`: the value that the bytes of a text write, or the message of the error.
/// The outcome depends on the bytes alone.
#[verifier::external_body]
pub(crate) fn parse_bytes(bytes: &[u8]) -> (r: Result<Json, String>)
    ensures
        match r {
            Ok(value) => json_of_bytes(bytes@) == Ok::<JsonView, Seq<char>>(value.deep_view()),
            Err(message) => json_of_bytes(bytes@) == Err::<JsonView, Seq<char>>(message@),
        },
{
    match serde_json::from_slice::<serde_json::Value>(bytes) {
        Ok(value) => Ok(json_of(&value)),
        Err(error) => Err(error.to_string()),
    }
}

// ---------------------------------------------------------------------------------------------
// Looking inside a value
// ---------------------------------------------------------------------------------------------
/// The value of the first entry whose key is `name`.
pub open spec fn entry_of(entries: Seq<(Seq<char>, JsonView)>, name: Seq<char>) -> Option<JsonView>
    decreases entries.len(),
{
    if entries.len() == 0 {
        None
    } else if entries[0].0 == name {
        Some(entries[0].1)
    } else {
        entry_of(entries.drop_first(), name)
    }
}

/// The field `name` of an object.
pub open spec fn field_of(value: JsonView, name: Seq<char>) -> Option<JsonView> {
    match value {
        JsonView::Object { entries, .. } => entry_of(entries, name),
        _ => None,
    }
}

/// The item of a list at `i`.
pub open spec fn item_of(value: JsonView, i: nat) -> Option<JsonView> {
    match value {
        JsonView::Array { items, .. } => if i < items.len() {
            Some(items[i as int])
        } else {
            None
        },
        _ => None,
    }
}

impl Json {
    pub fn field(&self, name: &str) -> (r: Option<&Json>)
        ensures
            r.deep_view() == field_of(self.deep_view(), name@),
    {
        match self {
            Json::Object { entries, .. } => {
                let ghost all = entry_views_of(entries@);
                proof {
                    lemma_entry_views_of(entries@);
                }
                assert(all.subrange(0, all.len() as int) == all);
                let mut i: usize = 0;
                while i < entries.len()
                    invariant
                        i <= entries.len(),
                        all.len() == entries.len(),
                        field_of(self.deep_view(), name@) == entry_of(all, name@),
                        forall|j: int|
                            0 <= j < entries.len() ==> #[trigger] all[j] == (
                                entries@[j].0@,
                                view_of(entries@[j].1),
                            ),
                        entry_of(all, name@) == entry_of(
                            all.subrange(i as int, all.len() as int),
                            name@,
                        ),
                    decreases entries.len() - i,
                {
                    assert(all.subrange(i as int, all.len() as int)[0] == all[i as int]);
                    if same(entries[i].0.as_str(), name) {
                        return Some(&entries[i].1);
                    }
                    assert(all.subrange(i as int, all.len() as int).drop_first() == all.subrange(
                        i + 1,
                        all.len() as int,
                    ));
                    i = i + 1;
                }
                None
            },
            _ => None,
        }
    }

    pub fn item(&self, i: usize) -> (r: Option<&Json>)
        ensures
            r.deep_view() == item_of(self.deep_view(), i as nat),
    {
        match self {
            Json::Array { items, .. } => {
                proof {
                    lemma_views_of(items@);
                }
                if i < items.len() {
                    Some(&items[i])
                } else {
                    None
                }
            },
            _ => None,
        }
    }

    /// The value that a text writes, or what is wrong with the text.
    pub fn parse(text: &str) -> (r: Result<Json, String>)
        ensures
            match r {
                Ok(value) => json_of_text(text@) == Ok::<JsonView, Seq<char>>(value.deep_view()),
                Err(message) => json_of_text(text@) == Err::<JsonView, Seq<char>>(message@),
            },
    {
        parse_text(text)
    }
}

/// The text of a JSON string.
pub open spec fn text_in(value: JsonView) -> Option<Seq<char>> {
    match value {
        JsonView::Text(s) => Some(s),
        _ => None,
    }
}

/// One step of a path into a JSON value.
pub enum Segment {
    Field(String),
    Index(usize),
}

pub enum SegmentView {
    Field(Seq<char>),
    Index(nat),
}

impl DeepView for Segment {
    type V = SegmentView;

    open spec fn deep_view(&self) -> SegmentView {
        match *self {
            Segment::Field(s) => SegmentView::Field(s@),
            Segment::Index(i) => SegmentView::Index(i as nat),
        }
    }
}

/// The first position from `i` on that holds a dot or an opening bracket; the end where none does.
pub open spec fn field_end(s: Seq<char>, i: int) -> int
    decreases s.len() - i,
{
    if i >= s.len() || s[i] == '.' || s[i] == '[' {
        i
    } else {
        field_end(s, i + 1)
    }
}

/// The steps that a pointer such as `a.b[0].c` names. A step into a list is a number in brackets,
/// and the dot behind a closing bracket may be left out. None where a field name is empty, a
/// bracket is not closed, or what stands in brackets is no number.
pub open spec fn segments_of(s: Seq<char>) -> Option<Seq<SegmentView>>
    decreases s.len(),
{
    proof {
        lemma_field_end(s, 0);
        lemma_find_from(s, seq![']'], field_end(s, 0) + 1);
    }
    let k = field_end(s, 0);
    let field = SegmentView::Field(s.subrange(0, k));
    if k >= s.len() {
        Some(if s.len() > 0 {
            seq![SegmentView::Field(s)]
        } else {
            seq![]
        })
    } else if s[k] == '.' {
        if k == 0 {
            None
        } else {
            prepend(seq![field], segments_of(s.subrange(k + 1, s.len() as int)))
        }
    } else {
        match find_from(s, seq![']'], k + 1) {
            None => None,
            Some(close) => match unsigned_of(s.subrange(k + 1, close), usize::MAX as nat) {
                None => None,
                Some(n) => {
                    let head = if k > 0 {
                        seq![field, SegmentView::Index(n)]
                    } else {
                        seq![SegmentView::Index(n)]
                    };
                    let next = if close + 1 < s.len() && s[close + 1] == '.' {
                        close + 2
                    } else {
                        close + 1
                    };
                    if close < s.len() {
                        prepend(head, segments_of(s.subrange(next, s.len() as int)))
                    } else {
                        None
                    }
                },
            },
        }
    }
}

pub open spec fn prepend(head: Seq<SegmentView>, tail: Option<Seq<SegmentView>>) -> Option<
    Seq<SegmentView>,
> {
    match tail {
        Some(t) => Some(head + t),
        None => None,
    }
}

pub proof fn lemma_field_end(s: Seq<char>, i: int)
    requires
        0 <= i,
    ensures
        i <= field_end(s, i),
        i <= s.len() ==> field_end(s, i) <= s.len(),
        i > s.len() ==> field_end(s, i) == i,
    decreases s.len() - i,
{
    if i < s.len() && s[i] != '.' && s[i] != '[' {
        lemma_field_end(s, i + 1);
    }
}

/// The value that the steps lead to.
pub open spec fn walk(value: JsonView, segments: Seq<SegmentView>) -> Option<JsonView>
    decreases segments.len(),
{
    if segments.len() == 0 {
        Some(value)
    } else {
        let next = match segments[0] {
            SegmentView::Field(name) => field_of(value, name),
            SegmentView::Index(i) => item_of(value, i),
        };
        match next {
            Some(inner) => walk(inner, segments.drop_first()),
            None => None,
        }
    }
}

/// The value at `pointer`: the whole value for an empty pointer, the field of that very name where
/// there is one, otherwise the value that the steps of the pointer lead to.
pub open spec fn at_pointer(value: JsonView, pointer: Seq<char>) -> Option<JsonView> {
    if pointer.len() == 0 {
        Some(value)
    } else {
        match field_of(value, pointer) {
            Some(exact) => Some(exact),
            None => match segments_of(pointer) {
                Some(segments) => walk(value, segments),
                None => None,
            },
        }
    }
}

/// The steps that a pointer names.
#[verifier::spinoff_prover]
#[verifier::rlimit(60)]
pub fn parse_pointer(pointer: &str) -> (r: Option<Vec<Segment>>)
    ensures
        r.deep_view() == segments_of(pointer@),
{
    let chars = chars_of(pointer);
    let n = chars.len();
    let mut out: Vec<Segment> = Vec::new();
    let mut start: usize = 0;
    assert(chars@.subrange(0, n as int) == chars@);
    assert(out.deep_view() == Seq::<SegmentView>::empty());
    proof {
        if segments_of(pointer@) is Some {
            assert(out.deep_view() + segments_of(pointer@)->0 == segments_of(pointer@)->0);
        }
    }
    loop
        invariant_except_break
            n == chars.len(),
            start <= n,
            segments_of(pointer@) == prepend(
                out.deep_view(),
                segments_of(chars@.subrange(start as int, n as int)),
            ),
        ensures
            segments_of(pointer@) == Some(out.deep_view()),
        decreases n - start,
    {
        let ghost rest = chars@.subrange(start as int, n as int);
        let mut k: usize = start;
        while k < n && chars[k] != '.' && chars[k] != '['
            invariant
                start <= k <= n,
                n == chars.len(),
                rest == chars@.subrange(start as int, n as int),
                field_end(rest, 0) == field_end(rest, k - start),
            decreases n - k,
        {
            k = k + 1;
        }
        let ghost done = out.deep_view();
        if k == n {
            if start < n {
                let field = piece(&chars, start, n);
                out.push(Segment::Field(field));
                assert(out.deep_view() == done + seq![SegmentView::Field(rest)]);
            } else {
                assert(out.deep_view() == done + seq![]);
            }
            break;
        }
        let field = piece(&chars, start, k);
        assert(rest.subrange(0, k - start) == field@);
        if chars[k] == '.' {
            if k == start {
                return None;
            }
            out.push(Segment::Field(field));
            proof {
                let next = rest.subrange(k - start + 1, rest.len() as int);
                assert(next == chars@.subrange(k + 1, n as int));
                assert(out.deep_view() == done.push(SegmentView::Field(field@)));
                if segments_of(next) is Some {
                    assert(done + (seq![SegmentView::Field(field@)] + segments_of(next)->0)
                        == out.deep_view() + segments_of(next)->0);
                }
            }
            start = k + 1;
        } else {
            proof {
                lemma_find_suffix(chars@, ']', start as int, k + 1 - start);
                assert(chars@.subrange(start as int, chars@.len() as int) == rest);
            }
            match position_char(&chars, ']', k + 1) {
                None => {
                    return None;
                },
                Some(close) => {
                    let inside = piece(&chars, k + 1, close);
                    assert(rest.subrange(k - start + 1, close - start) == inside@);
                    match parse_usize(inside.as_str()) {
                        None => {
                            return None;
                        },
                        Some(index) => {
                            let ghost head = if k > start {
                                seq![SegmentView::Field(field@), SegmentView::Index(index as nat)]
                            } else {
                                seq![SegmentView::Index(index as nat)]
                            };
                            if k > start {
                                out.push(Segment::Field(field));
                            }
                            out.push(Segment::Index(index));
                            assert(out.deep_view() == done + head);
                            let next: usize = if close + 1 < n && chars[close + 1] == '.' {
                                close + 2
                            } else {
                                close + 1
                            };
                            proof {
                                let tail = rest.subrange(next - start, rest.len() as int);
                                assert(tail == chars@.subrange(next as int, n as int));
                                if segments_of(tail) is Some {
                                    assert(done + (head + segments_of(tail)->0) == out.deep_view()
                                        + segments_of(tail)->0);
                                }
                            }
                            start = next;
                        },
                    }
                },
            }
        }
    }
    Some(out)
}

/// Searching in a suffix finds what searching in the whole finds.
pub proof fn lemma_find_suffix(s: Seq<char>, c: char, start: int, i: int)
    requires
        0 <= start <= s.len(),
        0 <= i,
    ensures
        match find_from(s, seq![c], start + i) {
            Some(k) => find_from(s.subrange(start, s.len() as int), seq![c], i) == Some(k - start),
            None => find_from(s.subrange(start, s.len() as int), seq![c], i) is None,
        },
    decreases s.len() - i,
{
    let rest = s.subrange(start, s.len() as int);
    if start + i + 1 <= s.len() {
        assert(rest.subrange(i, i + 1) == s.subrange(start + i, start + i + 1));
        lemma_find_suffix(s, c, start, i + 1);
    }
}

/// The value at `pointer`.
pub fn get_json_path<'a>(value: &'a Json, pointer: &str) -> (r: Option<&'a Json>)
    ensures
        r.deep_view() == at_pointer(value.deep_view(), pointer@),
{
    if pointer.is_empty() {
        return Some(value);
    }
    match value.field(pointer) {
        Some(exact) => {
            return Some(exact);
        },
        None => {},
    }
    match parse_pointer(pointer) {
        None => None,
        Some(segments) => {
            let ghost all = segments.deep_view();
            let mut current = value;
            let mut i: usize = 0;
            assert(all.subrange(0, all.len() as int) == all);
            while i < segments.len()
                invariant
                    i <= segments.len(),
                    all == segments.deep_view(),
                    at_pointer(value.deep_view(), pointer@) == walk(value.deep_view(), all),
                    walk(value.deep_view(), all) == walk(
                        current.deep_view(),
                        all.subrange(i as int, all.len() as int),
                    ),
                decreases segments.len() - i,
            {
                let ghost rest = all.subrange(i as int, all.len() as int);
                assert(rest[0] == segments@[i as int].deep_view());
                assert(rest.drop_first() == all.subrange(i + 1, all.len() as int));
                let next = match &segments[i] {
                    Segment::Field(name) => current.field(name.as_str()),
                    Segment::Index(index) => current.item(*index),
                };
                match next {
                    Some(inner) => {
                        current = inner;
                    },
                    None => {
                        return None;
                    },
                }
                i = i + 1;
            }
            Some(current)
        },
    }
}

// ---------------------------------------------------------------------------------------------
// Changing a value
// ---------------------------------------------------------------------------------------------
/// The compact text that `serde_json` writes for the object with certain entries.
pub uninterp spec fn object_text(entries: Seq<(Seq<char>, JsonView)>) -> Seq<char>;

/// A value of this library as a `serde_json::Value`, variant by variant; a number is the one that its
/// text writes. Nothing is claimed of the result.
#[verifier::external_body]
fn value_of(value: &Json) -> serde_json::Value {
    match value {
        Json::Null => serde_json::Value::Null,
        Json::Bool(b) => serde_json::Value::Bool(*b),
        Json::Number(n) => serde_json::from_str(&n.text).unwrap_or_default(),
        Json::Text(s) => serde_json::Value::String(s.clone()),
        Json::Array { items, .. } => serde_json::Value::Array(items.iter().map(value_of).collect()),
        Json::Object { entries, .. } => serde_json::Value::Object(
            entries.iter().map(|(k, v)| (k.clone(), value_of(v))).collect(),
        ),
    }
}

/// `serde_json::Value::to_string` for an object: its compact text, which depends on the entries alone.
#[verifier::external_body]
fn write_object(entries: &Vec<(String, Json)>) -> (r: String)
    ensures
        r@ == object_text(entry_views_of(entries@)),
{
    let map = entries.iter().map(|(k, v)| (k.clone(), value_of(v))).collect();
    serde_json::Value::Object(map).to_string()
}

/// Entries with another value in the first whose key is `name`.
pub open spec fn with_entry(
    entries: Seq<(Seq<char>, JsonView)>,
    name: Seq<char>,
    value: JsonView,
) -> Seq<(Seq<char>, JsonView)>
    decreases entries.len(),
{
    if entries.len() == 0 {
        entries
    } else if entries[0].0 == name {
        entries.update(0, (name, value))
    } else {
        seq![entries[0]] + with_entry(entries.drop_first(), name, value)
    }
}

/// An object with another value in its field `name`; a value without that field as it is.
pub open spec fn with_field(value: JsonView, name: Seq<char>, inner: JsonView) -> JsonView {
    match value {
        JsonView::Object { entries, .. } => if entry_of(entries, name) is Some {
            let changed = with_entry(entries, name, inner);
            JsonView::Object { entries: changed, text: object_text(changed) }
        } else {
            value
        },
        _ => value,
    }
}

proof fn lemma_with_entry(
    entries: Seq<(Seq<char>, JsonView)>,
    name: Seq<char>,
    value: JsonView,
    other: Seq<char>,
)
    ensures
        entry_of(entries, name) is Some ==> entry_of(with_entry(entries, name, value), name) == Some(
            value,
        ),
        other != name ==> entry_of(with_entry(entries, name, value), other) == entry_of(
            entries,
            other,
        ),
    decreases entries.len(),
{
    if entries.len() > 0 {
        let changed = with_entry(entries, name, value);
        let rest = entries.drop_first();
        if entries[0].0 == name {
            assert(changed.drop_first() == rest);
        } else {
            lemma_with_entry(rest, name, value, other);
            assert(changed.drop_first() == with_entry(rest, name, value));
        }
    }
}

/// A field that is changed holds its new value, and the other fields hold what they held.
pub proof fn a_changed_field_is_read_back(
    value: JsonView,
    name: Seq<char>,
    inner: JsonView,
    other: Seq<char>,
)
    ensures
        field_of(value, name) is Some ==> field_of(with_field(value, name, inner), name) == Some(
            inner,
        ),
        other != name ==> field_of(with_field(value, name, inner), other) == field_of(value, other),
{
    match value {
        JsonView::Object { entries, .. } => {
            lemma_with_entry(entries, name, inner, other);
        },
        _ => {},
    }
}

proof fn lemma_entry_at(
    entries: Seq<(Seq<char>, JsonView)>,
    name: Seq<char>,
    value: JsonView,
    at: int,
)
    requires
        0 <= at <= entries.len(),
        forall|j: int| 0 <= j < at ==> (#[trigger] entries[j]).0 != name,
        at < entries.len() ==> entries[at].0 == name,
    ensures
        entry_of(entries, name) is Some <==> at < entries.len(),
        at < entries.len() ==> with_entry(entries, name, value) == entries.update(
            at,
            (name, value),
        ),
    decreases entries.len(),
{
    if entries.len() > 0 && at > 0 {
        let rest = entries.drop_first();
        assert(entries[0].0 != name);
        assert forall|j: int| 0 <= j < at - 1 implies (#[trigger] rest[j]).0 != name by {
            assert(rest[j] == entries[j + 1]);
        }
        lemma_entry_at(rest, name, value, at - 1);
        if at < entries.len() {
            assert(seq![entries[0]] + rest.update(at - 1, (name, value)) == entries.update(
                at,
                (name, value),
            ));
        }
    }
}

/// An object with another value in its field `name`; a value without that field as it is.
pub fn set_field(value: Json, name: &str, inner: Json) -> (r: Json)
    ensures
        r.deep_view() == with_field(value.deep_view(), name@, inner.deep_view()),
{
    match value {
        Json::Object { entries, text } => {
            let ghost all = entry_views_of(entries@);
            let ghost new = inner.deep_view();
            proof {
                lemma_entry_views_of(entries@);
            }
            let mut entries = entries;
            let ghost before = entries@;
            let mut i: usize = 0;
            while i < entries.len() && !same(entries[i].0.as_str(), name)
                invariant
                    i <= entries@.len(),
                    entries@ == before,
                    all.len() == before.len(),
                    forall|j: int|
                        0 <= j < before.len() ==> #[trigger] all[j] == (
                            before[j].0@,
                            view_of(before[j].1),
                        ),
                    forall|j: int| 0 <= j < i ==> (#[trigger] all[j]).0 != name@,
                decreases entries@.len() - i,
            {
                assert(all[i as int].0 == entries@[i as int].0@);
                i += 1;
            }
            if i < entries.len() {
                assert(all[i as int].0 == entries@[i as int].0@);
                entries.set(i, (name.to_owned(), inner));
                proof {
                    lemma_entry_at(all, name@, new, i as int);
                    lemma_entry_views_of(entries@);
                    assert(entry_views_of(entries@) == all.update(i as int, (name@, new)));
                }
                let text = write_object(&entries);
                Json::Object { entries, text }
            } else {
                proof {
                    lemma_entry_at(all, name@, new, i as int);
                }
                Json::Object { entries, text }
            }
        },
        other => other,
    }
}

} // verus!
