//! The conditions by which a usage source picks its records.
use vstd::prelude::*;

use crate::json::{Json, JsonView, NumberView, Number, at_pointer, get_json_path};
use crate::text::{
    chars_of, ends_with, has_prefix, has_suffix, matches_at, occurs_at, parse_i64, piece, same,
    signed_decimal_of, signed_of, starts_with, trim, trim_of,
};

verus! {

// ---------------------------------------------------------------------------------------------
// Splitting outside of quotes
// ---------------------------------------------------------------------------------------------
pub open spec fn is_quote(c: char) -> bool {
    c == '\'' || c == '"'
}

/// The quote that is open behind `c`, where `open` was open before it.
pub open spec fn quote_after(open: Option<char>, c: char) -> Option<char> {
    if open == Some(c) {
        None
    } else if open is None {
        Some(c)
    } else {
        open
    }
}

/// The first position from `i` on, outside of quotes, at which `token` stands.
pub open spec fn unquoted(s: Seq<char>, token: Seq<char>, i: int, open: Option<char>) -> Option<int>
    decreases s.len() - i,
{
    if i >= s.len() {
        None
    } else if is_quote(s[i]) {
        unquoted(s, token, i + 1, quote_after(open, s[i]))
    } else if open is None && occurs_at(s, token, i) {
        Some(i)
    } else {
        unquoted(s, token, i + 1, open)
    }
}

pub proof fn lemma_unquoted(s: Seq<char>, token: Seq<char>, i: int, open: Option<char>)
    requires
        0 <= i,
    ensures
        unquoted(s, token, i, open) matches Some(k) ==> i <= k < s.len() && occurs_at(s, token, k),
    decreases s.len() - i,
{
    if i < s.len() {
        if is_quote(s[i]) {
            lemma_unquoted(s, token, i + 1, quote_after(open, s[i]));
        } else if !(open is None && occurs_at(s, token, i)) {
            lemma_unquoted(s, token, i + 1, open);
        }
    }
}

/// The parts of `s` between the occurrences of `token` outside of quotes, trimmed.
pub open spec fn parts_of(s: Seq<char>, token: Seq<char>) -> Seq<Seq<char>>
    decreases s.len(),
{
    proof {
        lemma_unquoted(s, token, 0, None);
    }
    match unquoted(s, token, 0, None) {
        Some(k) => if token.len() > 0 {
            seq![trim_of(s.subrange(0, k))] + parts_of(
                s.subrange(k + token.len(), s.len() as int),
                token,
            )
        } else {
            seq![trim_of(s)]
        },
        None => seq![trim_of(s)],
    }
}

/// The two sides of the first `token` outside of quotes, trimmed.
pub open spec fn sides_of(s: Seq<char>, token: Seq<char>) -> Option<(Seq<char>, Seq<char>)> {
    match unquoted(s, token, 0, None) {
        Some(k) => Some(
            (
                trim_of(s.subrange(0, k)),
                trim_of(s.subrange(k + token.len(), s.len() as int)),
            ),
        ),
        None => None,
    }
}

fn find_unquoted(chars: &Vec<char>, token: &Vec<char>) -> (r: Option<usize>)
    ensures
        match r {
            Some(k) => unquoted(chars@, token@, 0, None) == Some(k as int) && k + token.len()
                <= chars.len() && k < chars.len(),
            None => unquoted(chars@, token@, 0, None) is None,
        },
{
    let mut open: Option<char> = None;
    let mut i: usize = 0;
    while i < chars.len()
        invariant
            i <= chars.len(),
            unquoted(chars@, token@, 0, None) == unquoted(chars@, token@, i as int, open),
        decreases chars.len() - i,
    {
        let c = chars[i];
        if c == '\'' || c == '"' {
            open = match open {
                Some(q) => if q == c {
                    None
                } else {
                    Some(q)
                },
                None => Some(c),
            };
        } else if open.is_none() && matches_at(chars, token, i) {
            return Some(i);
        }
        i = i + 1;
    }
    None
}

/// The parts of `expr` between the occurrences of `token` outside of quotes, trimmed.
pub fn split_expression(expr: &str, token: &str) -> (r: Vec<String>)
    requires
        token@.len() > 0,
    ensures
        r.deep_view() == parts_of(expr@, token@),
{
    let t = chars_of(token);
    let mut rest = chars_of(expr);
    let mut out: Vec<String> = Vec::new();
    assert(out.deep_view() + parts_of(rest@, t@) == parts_of(expr@, token@));
    loop
        invariant
            t@ == token@,
            t.len() > 0,
            parts_of(expr@, token@) == out.deep_view() + parts_of(rest@, token@),
        decreases rest.len(),
    {
        let ghost before = out.deep_view();
        match find_unquoted(&rest, &t) {
            Some(k) => {
                let part = trim(piece(&rest, 0, k).as_str());
                out.push(part);
                let next = chars_of(piece(&rest, k + t.len(), rest.len()).as_str());
                proof {
                    assert(out.deep_view() == before.push(part@));
                    let more = parts_of(next@, token@);
                    assert(before + (seq![part@] + more) == out.deep_view() + more);
                }
                rest = next;
            },
            None => {
                let part = trim(crate::text::string_of(&rest).as_str());
                out.push(part);
                assert(out.deep_view() == before + seq![part@]);
                return out;
            },
        }
    }
}

/// The two sides of the first `token` outside of quotes, trimmed.
pub fn split_condition(expr: &str, token: &str) -> (r: Option<(String, String)>)
    ensures
        match r {
            Some((a, b)) => sides_of(expr@, token@) == Some((a@, b@)),
            None => sides_of(expr@, token@) is None,
        },
{
    let chars = chars_of(expr);
    let t = chars_of(token);
    match find_unquoted(&chars, &t) {
        Some(k) => Some(
            (
                trim(piece(&chars, 0, k).as_str()),
                trim(piece(&chars, k + t.len(), chars.len()).as_str()),
            ),
        ),
        None => None,
    }
}

// ---------------------------------------------------------------------------------------------
// Literals
// ---------------------------------------------------------------------------------------------
/// The right side of a condition.
pub enum Literal {
    Text(String),
    Bool(bool),
    Null,
    Number(Number),
}

pub enum LiteralView {
    Text(Seq<char>),
    Bool(bool),
    Null,
    Number(NumberView),
}

impl DeepView for Literal {
    type V = LiteralView;

    open spec fn deep_view(&self) -> LiteralView {
        match *self {
            Literal::Text(s) => LiteralView::Text(s@),
            Literal::Bool(b) => LiteralView::Bool(b),
            Literal::Null => LiteralView::Null,
            Literal::Number(n) => LiteralView::Number(n.deep_view()),
        }
    }
}

/// The number that `serde_json::Number::from` makes of an integer.
pub uninterp spec fn integer_number(n: i64) -> NumberView;

/// `serde_json::Number::from` for an integer: the number, which depends on the integer alone. It is
/// that integer, unsigned where it is not negative, and written in decimal.
#[verifier::external_body]
pub(crate) fn number_of_integer(n: i64) -> (r: Number)
    ensures
        r.deep_view() == integer_number(n),
        r.signed == Some(n),
        r.unsigned == (if n >= 0 {
            Some(n as u64)
        } else {
            None
        }),
        r.text@ == signed_decimal_of(n as int),
{
    let number = serde_json::Number::from(n);
    Number {
        signed: number.as_i64(),
        unsigned: number.as_u64(),
        bits: number.as_f64().map(|x| x.to_bits()),
        whole: number.as_f64().map(|x| x as i64),
        text: number.to_string(),
    }
}

/// The number that a text writes in decimal notation, as `serde_json::Number::from_f64` makes it of
/// what std reads from the text: none where it is no number, and an inner none where it is not
/// finite.
pub uninterp spec fn decimal_number(text: Seq<char>) -> Option<Option<NumberView>>;

/// `serde_json::Number::from_f64` of what `str::parse` reads from a text: the number that the text
/// writes, if it does and if it is finite. The outcome depends on the text alone. Such a number is
/// kept in double precision and is never an integer.
#[verifier::external_body]
pub(crate) fn number_of_decimal(text: &str) -> (r: Option<Option<Number>>)
    ensures
        r.deep_view() == decimal_number(text@),
        r matches Some(Some(n)) ==> n.signed is None && n.unsigned is None && n.bits is Some
            && n.whole is Some,
{
    text.parse().ok().map(
        |x| serde_json::Number::from_f64(x).map(
            |number| Number {
                signed: number.as_i64(),
                unsigned: number.as_u64(),
                bits: number.as_f64().map(|x| x.to_bits()),
                whole: number.as_f64().map(|x| x as i64),
                text: number.to_string(),
            },
        ),
    )
}

/// Whether `s` both begins and ends with the quote `c`.
pub open spec fn quoted_with(s: Seq<char>, c: Seq<char>) -> bool {
    has_prefix(s, c) && has_suffix(s, c)
}

/// Whether a literal is written as a quoted text; a lone quote is not.
pub open spec fn quoted(s: Seq<char>) -> bool {
    s.len() >= 2 && (quoted_with(s, "'"@) || quoted_with(s, "\""@))
}

/// The literal that a text writes: a quoted text, one of three words, an integer, another number, or
/// else the text itself.
pub open spec fn literal_of(text: Seq<char>) -> LiteralView {
    let s = trim_of(text);
    if quoted(s) {
        LiteralView::Text(s.subrange(1, s.len() - 1))
    } else if s == "true"@ {
        LiteralView::Bool(true)
    } else if s == "false"@ {
        LiteralView::Bool(false)
    } else if s == "null"@ {
        LiteralView::Null
    } else {
        match signed_of(s) {
            Some(n) => LiteralView::Number(integer_number(n as i64)),
            None => match decimal_number(s) {
                Some(Some(number)) => LiteralView::Number(number),
                Some(None) => LiteralView::Null,
                None => LiteralView::Text(s),
            },
        }
    }
}

/// The literal that a text writes.
pub fn parse_literal(value: &str) -> (r: Literal)
    ensures
        r.deep_view() == literal_of(value@),
{
    let trimmed = trim(value);
    let s = trimmed.as_str();
    let chars = chars_of(s);
    if chars.len() >= 2 && ((starts_with(s, "'") && ends_with(s, "'")) || (starts_with(s, "\"")
        && ends_with(s, "\""))) {
        return Literal::Text(piece(&chars, 1, chars.len() - 1));
    }
    if same(s, "true") {
        return Literal::Bool(true);
    }
    if same(s, "false") {
        return Literal::Bool(false);
    }
    if same(s, "null") {
        return Literal::Null;
    }
    match parse_i64(s) {
        Some(n) => Literal::Number(number_of_integer(n)),
        None => match number_of_decimal(s) {
            Some(Some(number)) => Literal::Number(number),
            Some(None) => Literal::Null,
            None => Literal::Text(trimmed),
        },
    }
}

// ---------------------------------------------------------------------------------------------
// Conditions
// ---------------------------------------------------------------------------------------------
/// Whether the bits are those of zero, with either sign.
pub open spec fn zero_bits(bits: u64) -> bool {
    bits == 0 || bits == 0x8000_0000_0000_0000
}

/// Whether the bits are those of no number at all.
pub open spec fn nan_bits(bits: u64) -> bool {
    bits % 0x8000_0000_0000_0000 > 0x7ff0_0000_0000_0000
}

/// Whether two double precision numbers are equal, by their bits.
pub open spec fn same_number(a: Option<u64>, b: Option<u64>) -> bool {
    match (a, b) {
        (Some(x), Some(y)) => (x == y && !nan_bits(x)) || (zero_bits(x) && zero_bits(y)),
        (None, None) => true,
        _ => false,
    }
}

fn equal_numbers(a: Option<u64>, b: Option<u64>) -> (r: bool)
    ensures
        r == same_number(a, b),
{
    match a {
        Some(x) => match b {
            Some(y) => {
                let nan = x % 0x8000_0000_0000_0000 > 0x7ff0_0000_0000_0000;
                let zeros = (x == 0 || x == 0x8000_0000_0000_0000) && (y == 0 || y
                    == 0x8000_0000_0000_0000);
                (x == y && !nan) || zeros
            },
            None => false,
        },
        None => b.is_none(),
    }
}

/// Whether a value of a record equals a literal; values of different kinds never do.
pub open spec fn equals(left: JsonView, right: LiteralView) -> bool {
    match (left, right) {
        (JsonView::Text(a), LiteralView::Text(b)) => a == b,
        (JsonView::Number(a), LiteralView::Number(b)) => same_number(a.bits, b.bits),
        (JsonView::Bool(a), LiteralView::Bool(b)) => a == b,
        (JsonView::Null, LiteralView::Null) => true,
        _ => false,
    }
}

/// Whether a value of a record equals a literal.
pub fn values_equal(left: &Json, right: &Literal) -> (r: bool)
    ensures
        r == equals(left.deep_view(), right.deep_view()),
{
    match left {
        Json::Text(a) => match right {
            Literal::Text(b) => same(a.as_str(), b.as_str()),
            _ => false,
        },
        Json::Number(a) => match right {
            Literal::Number(b) => equal_numbers(a.bits, b.bits),
            _ => false,
        },
        Json::Bool(a) => match right {
            Literal::Bool(b) => *a == *b,
            _ => false,
        },
        Json::Null => match right {
            Literal::Null => true,
            _ => false,
        },
        _ => false,
    }
}

/// The value at a pointer into a record; null where there is none.
pub open spec fn value_at(record: JsonView, pointer: Seq<char>) -> JsonView {
    match at_pointer(record, pointer) {
        Some(value) => value,
        None => JsonView::Null,
    }
}

/// Whether a record meets one condition: an empty one always holds, `a == b` and `a != b` compare a
/// value of the record with a literal, and any other names a value that has to be true.
pub open spec fn meets(condition: Seq<char>, record: JsonView) -> bool {
    let s = trim_of(condition);
    if s.len() == 0 {
        true
    } else {
        match sides_of(s, "=="@) {
            Some((left, right)) => equals(value_at(record, left), literal_of(right)),
            None => match sides_of(s, "!="@) {
                Some((left, right)) => !equals(value_at(record, left), literal_of(right)),
                None => at_pointer(record, s) == Some(JsonView::Bool(true)),
            },
        }
    }
}

/// Whether a record meets all of the conditions from `i` on.
pub open spec fn meets_all(conditions: Seq<Seq<char>>, i: int, record: JsonView) -> bool
    decreases conditions.len() - i,
{
    i >= conditions.len() || (meets(conditions[i], record) && meets_all(
        conditions,
        i + 1,
        record,
    ))
}

/// Whether a record meets one of the alternatives from `i` on.
pub open spec fn meets_any(alternatives: Seq<Seq<char>>, i: int, record: JsonView) -> bool
    decreases alternatives.len() - i,
{
    i < alternatives.len() && (meets_all(parts_of(alternatives[i], "&&"@), 0, record) || meets_any(
        alternatives,
        i + 1,
        record,
    ))
}

/// Whether a record passes a filter: one of the alternatives between `||` holds, in which all of the
/// conditions between `&&` hold.
pub open spec fn passes_filter(filter: Option<Seq<char>>, record: JsonView) -> bool {
    match filter {
        None => true,
        Some(f) => meets_any(parts_of(f, "||"@), 0, record),
    }
}

fn compare_condition(left: &str, right: &str, equal: bool, record: &Json) -> (r: bool)
    ensures
        r == (equals(value_at(record.deep_view(), left@), literal_of(right@)) == equal),
{
    let literal = parse_literal(right);
    let same = match get_json_path(record, left) {
        Some(value) => values_equal(value, &literal),
        None => values_equal(&Json::Null, &literal),
    };
    same == equal
}

fn eval_condition(expr: &str, record: &Json) -> (r: bool)
    ensures
        r == meets(expr@, record.deep_view()),
{
    let trimmed = trim(expr);
    let s = trimmed.as_str();
    if s.is_empty() {
        return true;
    }
    match split_condition(s, "==") {
        Some((left, right)) => {
            return compare_condition(left.as_str(), right.as_str(), true, record);
        },
        None => {},
    }
    match split_condition(s, "!=") {
        Some((left, right)) => {
            return compare_condition(left.as_str(), right.as_str(), false, record);
        },
        None => {},
    }
    match get_json_path(record, s) {
        Some(Json::Bool(b)) => *b,
        _ => false,
    }
}

fn eval_and_expression(expr: &str, record: &Json) -> (r: bool)
    ensures
        r == meets_all(parts_of(expr@, "&&"@), 0, record.deep_view()),
{
    proof {
        reveal_strlit("&&");
    }
    let parts = split_expression(expr, "&&");
    let ghost all = parts.deep_view();
    let mut i: usize = 0;
    while i < parts.len()
        invariant
            i <= parts.len(),
            all == parts.deep_view(),
            all == parts_of(expr@, "&&"@),
            meets_all(all, 0, record.deep_view()) == meets_all(all, i as int, record.deep_view()),
        decreases parts.len() - i,
    {
        assert(all[i as int] == parts@[i as int]@);
        if !eval_condition(parts[i].as_str(), record) {
            return false;
        }
        i = i + 1;
    }
    true
}

/// Whether a record passes a filter.
pub fn matches_record_filter(filter: &Option<String>, record: &Json) -> (r: bool)
    ensures
        r == passes_filter(filter.deep_view(), record.deep_view()),
{
    match filter {
        None => true,
        Some(f) => {
            proof {
                reveal_strlit("||");
            }
            let parts = split_expression(f.as_str(), "||");
            let ghost all = parts.deep_view();
            let mut i: usize = 0;
            while i < parts.len()
                invariant
                    i <= parts.len(),
                    all == parts.deep_view(),
                    all == parts_of(f@, "||"@),
                    filter == Some(*f),
                    meets_any(all, 0, record.deep_view()) == meets_any(
                        all,
                        i as int,
                        record.deep_view(),
                    ),
                decreases parts.len() - i,
            {
                assert(all[i as int] == parts@[i as int]@);
                if eval_and_expression(parts[i].as_str(), record) {
                    return true;
                }
                i = i + 1;
            }
            false
        },
    }
}

/// A filter of one alternative and one condition passes what meets the condition.
pub proof fn a_single_condition_decides(filter: Seq<char>, record: JsonView)
    requires
        unquoted(filter, "||"@, 0, None) is None,
        unquoted(trim_of(filter), "&&"@, 0, None) is None,
    ensures
        passes_filter(Some(filter), record) == meets(trim_of(trim_of(filter)), record),
{
    reveal_strlit("||");
    reveal_strlit("&&");
    let alternatives = parts_of(filter, "||"@);
    assert(alternatives == seq![trim_of(filter)]);
    let conditions = parts_of(alternatives[0], "&&"@);
    assert(conditions == seq![trim_of(trim_of(filter))]);
    reveal_with_fuel(meets_any, 2);
    reveal_with_fuel(meets_all, 2);
}

} // verus!
