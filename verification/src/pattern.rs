//! Regular expressions.
use vstd::prelude::*;

verus! {

/// The groups that `regex::Regex::captures` gives for a pattern and a text: that of the whole match
/// first. There are none where the pattern is no regular expression or does not match.
pub uninterp spec fn groups_of(pattern: Seq<char>, text: Seq<char>) -> Option<
    Seq<Option<Seq<char>>>,
>;

/// `regex::Regex::captures` on a text, with the regular expression that `regex::Regex::new` makes of
/// `pattern`: what each group matched. The outcome depends on the pattern and the text alone.
#[verifier::external_body]
pub(crate) fn captures(pattern: &str, text: &str) -> (r: Option<Vec<Option<String>>>)
    ensures
        r.deep_view() == groups_of(pattern@, text@),
{
    let regex = regex::Regex::new(pattern).ok()?;
    let found = regex.captures(text)?;
    Some(found.iter().map(|group| group.map(|m| m.as_str().to_string())).collect())
}

/// What `regex::Regex::replace_all` leaves of a text when every match of a pattern is taken out. There
/// is none where the pattern is no regular expression.
pub uninterp spec fn without_matches_of(pattern: Seq<char>, text: Seq<char>) -> Option<Seq<char>>;

/// `regex::Regex::replace_all` on a text with an empty replacement, with the regular expression that
/// `regex::Regex::new` makes of `pattern`. The outcome depends on the pattern and the text alone.
#[verifier::external_body]
pub(crate) fn without_matches(pattern: &str, text: &str) -> (r: Option<String>)
    ensures
        r.deep_view() == without_matches_of(pattern@, text@),
{
    let regex = regex::Regex::new(pattern).ok()?;
    Some(regex.replace_all(text, "").into_owned())
}

/// What the group `i` matched.
pub open spec fn group_of(groups: Seq<Option<Seq<char>>>, i: int) -> Option<Seq<char>> {
    if 0 <= i < groups.len() {
        groups[i]
    } else {
        None
    }
}

/// What the group `i` matched.
pub fn group(groups: &Vec<Option<String>>, i: usize) -> (r: Option<String>)
    ensures
        r.deep_view() == group_of(groups.deep_view(), i as int),
{
    if i < groups.len() {
        assert(groups.deep_view()[i as int] == groups@[i as int].deep_view());
        match &groups[i] {
            Some(s) => Some(s.clone()),
            None => None,
        }
    } else {
        None
    }
}

} // verus!
