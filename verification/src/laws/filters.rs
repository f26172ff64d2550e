//! Filters: where a filter is cut into conditions, what quotes hide, and what a literal stands for.
use vstd::prelude::*;

use crate::laws::texts::trimming_takes_the_space_off_both_ends;
use crate::text::{find_from, is_space, lemma_find_from, occurs_at, signed_of, trim_of};
use crate::usage::filter::{
    LiteralView, decimal_number, integer_number, is_quote, literal_of, parts_of, quote_after,
    quoted, same_number, sides_of, unquoted,
};

verus! {

/// Whether a text has no quotes in it.
pub open spec fn has_no_quotes(s: Seq<char>) -> bool {
    forall|i: int| 0 <= i < s.len() ==> (#[trigger] s[i]) != '\'' && s[i] != '"'
}

proof fn lemma_unquoted_is_found(s: Seq<char>, token: Seq<char>, i: int)
    requires
        has_no_quotes(s),
        token.len() > 0,
        0 <= i,
    ensures
        unquoted(s, token, i, None) == find_from(s, token, i),
    decreases s.len() - i,
{
    if i < s.len() {
        assert(s[i] != '\'' && s[i] != '"');
        if !occurs_at(s, token, i) {
            lemma_unquoted_is_found(s, token, i + 1);
            if i + token.len() > s.len() {
                lemma_find_from(s, token, i + 1);
                if let Some(k) = find_from(s, token, i + 1) {
                    assert(occurs_at(s, token, k));
                }
            }
        }
    }
}

/// Without quotes a text is cut at the first place of the token, and the space around both sides goes.
pub proof fn a_text_without_quotes_is_cut_at_the_token(
    s: Seq<char>,
    left: Seq<char>,
    token: Seq<char>,
    right: Seq<char>,
)
    requires
        s == left + token + right,
        has_no_quotes(s),
        token.len() > 0,
        find_from(s, token, 0) == Some(left.len() as int),
    ensures
        sides_of(s, token) == Some((trim_of(left), trim_of(right))),
        parts_of(s, token) == seq![trim_of(left)] + parts_of(right, token),
{
    lemma_unquoted_is_found(s, token, 0);
    let k = left.len() as int;
    assert(s.subrange(0, k) == left);
    assert(s.subrange(k + token.len(), s.len() as int) == right);
}

/// A text without the token is one part, and has no sides.
pub proof fn a_text_without_the_token_is_one_part(s: Seq<char>, token: Seq<char>)
    requires
        has_no_quotes(s),
        token.len() > 0,
        find_from(s, token, 0) is None,
    ensures
        sides_of(s, token) is None,
        parts_of(s, token) == seq![trim_of(s)],
{
    lemma_unquoted_is_found(s, token, 0);
}

proof fn lemma_inside_quotes(s: Seq<char>, token: Seq<char>, q: char, i: int, end: int)
    requires
        0 < i <= end,
        end == s.len() - 1,
        is_quote(q),
        s[end] == q,
        forall|k: int| i <= k < end ==> #[trigger] s[k] != q,
    ensures
        unquoted(s, token, i, Some(q)) is None,
    decreases end - i,
{
    if i < end {
        assert(s[i] != q);
        lemma_inside_quotes(s, token, q, i + 1, end);
        assert(quote_after(Some(q), s[i]) == Some(q));
    } else {
        assert(quote_after(Some(q), s[i]) is None);
        assert(unquoted(s, token, i + 1, None) is None);
    }
}

/// What stands in quotes is not cut: a text in quotes of one kind is one part, whatever is in it but
/// that kind of quote.
pub proof fn what_is_quoted_is_not_cut(inner: Seq<char>, q: char, token: Seq<char>)
    requires
        q == '\'' || q == '"',
        !inner.contains(q),
    ensures
        sides_of(seq![q] + inner + seq![q], token) is None,
        parts_of(seq![q] + inner + seq![q], token) == seq![trim_of(seq![q] + inner + seq![q])],
{
    let s = seq![q] + inner + seq![q];
    let end = s.len() - 1;
    assert forall|k: int| 1 <= k < end implies #[trigger] s[k] != q by {
        assert(s[k] == inner[k - 1]);
        if s[k] == q {
            assert(inner.contains(inner[k - 1]));
        }
    }
    lemma_inside_quotes(s, token, q, 1, end);
    assert(s[0] == q);
    assert(quote_after(None, q) == Some(q));
}

proof fn lemma_nothing_to_trim(s: Seq<char>)
    requires
        s.len() > 0,
        !is_space(s[0]),
        !is_space(s.last()),
    ensures
        trim_of(s) == s,
{
    let (i, j) = trimming_takes_the_space_off_both_ends(s);
    if i > 0 {
        assert(is_space(s[0]));
    }
    if j < s.len() {
        assert(is_space(s[s.len() - 1]));
    }
    assert(s.subrange(0, s.len() as int) == s);
}

/// A literal in quotes of either kind stands for what is between them.
pub proof fn a_quoted_literal_is_its_inside(inner: Seq<char>, q: char)
    requires
        q == '\'' || q == '"',
    ensures
        literal_of(seq![q] + inner + seq![q]) == LiteralView::Text(inner),
{
    let s = seq![q] + inner + seq![q];
    lemma_nothing_to_trim(s);
    quotes_stand_on_both_sides(s);
    assert(s.subrange(1, s.len() - 1) == inner);
}

/// A text is quoted where the same quote stands at its beginning and at its end, and these are two.
pub proof fn quotes_stand_on_both_sides(s: Seq<char>)
    ensures
        quoted(s) <==> s.len() >= 2 && s[0] == s.last() && (s[0] == '\'' || s[0] == '"'),
{
    reveal_strlit("'");
    reveal_strlit("\"");
    assert("'"@ == seq!['\'']);
    assert("\""@ == seq!['"']);
    if s.len() >= 2 {
        assert(s.subrange(0, 1) == seq![s[0]]);
        assert(s.subrange(s.len() - 1, s.len() as int) == seq![s.last()]);
        assert(seq![s[0]][0] == s[0]);
        assert(seq![s.last()][0] == s.last());
        assert(seq!['\''][0] == '\'');
        assert(seq!['"'][0] == '"');
    }
}

/// Three words stand for what they say, a whole number for itself, a decimal one for what it writes, and
/// anything else for its text.
pub proof fn a_plain_literal_is_a_word_a_number_or_a_text(text: Seq<char>)
    ensures
        ({
            let s = trim_of(text);
            &&& !quoted(s) && s == "true"@ ==> literal_of(text) == LiteralView::Bool(true)
            &&& !quoted(s) && s != "true"@ && s == "false"@ ==> literal_of(text)
                == LiteralView::Bool(false)
            &&& !quoted(s) && s != "true"@ && s != "false"@ && s == "null"@ ==> literal_of(text)
                == LiteralView::Null
            &&& !quoted(s) && s != "true"@ && s != "false"@ && s != "null"@ ==> match signed_of(s) {
                Some(n) => literal_of(text) == LiteralView::Number(integer_number(n as i64)),
                None => match decimal_number(s) {
                    Some(Some(number)) => literal_of(text) == LiteralView::Number(number),
                    Some(None) => literal_of(text) == LiteralView::Null,
                    None => literal_of(text) == LiteralView::Text(s),
                },
            }
        }),
{
}

/// Numbers are the same where their bits are. The two zeros are the same, and what is no number is not
/// even the same as itself.
pub proof fn numbers_are_the_same_by_their_bits(x: u64, y: u64)
    ensures
        same_number(None, None),
        !same_number(Some(x), None),
        !same_number(None, Some(y)),
        same_number(Some(0), Some(0x8000_0000_0000_0000)),
        x != y && x != 0 && x != 0x8000_0000_0000_0000 ==> !same_number(Some(x), Some(y)),
        x <= 0x7ff0_0000_0000_0000 ==> same_number(Some(x), Some(x)),
        0x8000_0000_0000_0000 <= x <= 0xfff0_0000_0000_0000 ==> same_number(Some(x), Some(x)),
        0x7ff0_0000_0000_0000 < x < 0x8000_0000_0000_0000 ==> !same_number(Some(x), Some(x)),
        0xfff0_0000_0000_0000 < x ==> !same_number(Some(x), Some(x)),
        same_number(Some(x), Some(y)) == same_number(Some(y), Some(x)),
{
    assert(x < 0x8000_0000_0000_0000 ==> x % 0x8000_0000_0000_0000 == x);
    assert(x >= 0x8000_0000_0000_0000 ==> x % 0x8000_0000_0000_0000 == x - 0x8000_0000_0000_0000);
}

} // verus!
