//! An allowance in words.
use vstd::prelude::*;

use crate::json::{Json, JsonView};
use crate::quota::{bits_in, bits_of};
use crate::text::{join, join2, join3, join_of, push_line};
use crate::text_map::{TextMap, sorted_items};
use crate::usage::template::{scalar_text, scalar_to_string};

verus! {

/// The value of an entry.
pub open spec fn entry_at(quota: Map<Seq<char>, JsonView>, key: Seq<char>) -> Option<JsonView> {
    if quota.contains_key(key) {
        Some(quota[key])
    } else {
        None
    }
}

/// The value of an entry.
pub fn entry<'a>(quota: &'a TextMap<Json>, key: &str) -> (r: Option<&'a Json>)
    ensures
        r.deep_view() == entry_at(quota.deep_view(), key@),
{
    quota.get(key)
}

/// A text, number or truth value in an entry, as text.
pub open spec fn simple_at(quota: Map<Seq<char>, JsonView>, key: Seq<char>) -> Option<Seq<char>> {
    match entry_at(quota, key) {
        Some(v) => scalar_text(v),
        None => None,
    }
}

/// A text, number or truth value in an entry, as text.
pub fn simple_entry(quota: &TextMap<Json>, key: &str) -> (r: Option<String>)
    ensures
        r.deep_view() == simple_at(quota.deep_view(), key@),
{
    match entry(quota, key) {
        Some(v) => scalar_to_string(v),
        None => None,
    }
}

/// The entries that are texts, numbers or truth values, with their keys.
pub open spec fn named_entries(items: Seq<(Seq<char>, JsonView)>) -> Seq<Seq<char>>
    decreases items.len(),
{
    if items.len() == 0 {
        seq![]
    } else {
        match scalar_text(items.last().1) {
            Some(v) => named_entries(items.drop_last()).push(items.last().0 + "="@ + v),
            None => named_entries(items.drop_last()),
        }
    }
}

/// What is left of an allowance, and when it is whole again.
pub open spec fn main_entries(quota: Map<Seq<char>, JsonView>, percent: Seq<char>, reset: Seq<char>) -> Seq<
    Seq<char>,
> {
    let left = if bits_in(entry_at(quota, "remaining_percent"@)) is Some {
        seq!["remaining="@ + percent]
    } else {
        match simple_at(quota, "limit_tokens"@) {
            Some(v) => seq![v],
            None => seq![],
        }
    };
    if simple_at(quota, "reset_time"@) is Some {
        left.push("reset="@ + reset)
    } else {
        left
    }
}

/// The smaller of two numbers.
pub open spec fn at_most_of(n: nat, max: nat) -> nat {
    if n <= max {
        n
    } else {
        max
    }
}

/// An allowance in words: what is left of it and when it is whole again, or else up to three of its
/// entries. `percent` is how much is left, and `reset` when it is whole again, as they are shown.
pub open spec fn quota_words(quota: Map<Seq<char>, JsonView>, percent: Seq<char>, reset: Seq<char>) -> Seq<
    char,
> {
    if quota == Map::<Seq<char>, JsonView>::empty() {
        "-"@
    } else {
        let main = main_entries(quota, percent, reset);
        if main.len() > 0 {
            join_of(main, ", "@)
        } else {
            let items = sorted_items(quota);
            join_of(named_entries(items.take(at_most_of(items.len(), 3) as int)), ", "@)
        }
    }
}

/// An allowance in words.
pub fn format_quota(quota: &TextMap<Json>, percent: &str, reset: &str) -> (r: String)
    ensures
        r@ == quota_words(quota.deep_view(), percent@, reset@),
{
    if quota.is_empty() {
        return "-".to_owned();
    }
    let mut items: Vec<String> = Vec::new();
    assert(items.deep_view() == Seq::<Seq<char>>::empty());
    if bits_of(entry(quota, "remaining_percent")).is_some() {
        push_line(&mut items, join2("remaining=", percent));
        assert(items.deep_view() == seq!["remaining="@ + percent@]);
    } else {
        match simple_entry(quota, "limit_tokens") {
            Some(v) => {
                let ghost w = v@;
                push_line(&mut items, v);
                assert(items.deep_view() == seq![w]);
            },
            None => {},
        }
    }
    if simple_entry(quota, "reset_time").is_some() {
        push_line(&mut items, join2("reset=", reset));
    }
    assert(items.deep_view() == main_entries(quota.deep_view(), percent@, reset@));
    assert(items.deep_view().len() == items@.len());
    if items.len() == 0 {
        let n = quota.len();
        let ghost all = quota.items();
        let count: usize = if n <= 3 {
            n
        } else {
            3
        };
        let mut i: usize = 0;
        assert(items.deep_view() == named_entries(all.take(0)));
        while i < count
            invariant
                i <= count,
                count <= n,
                n == all.len(),
                all == quota.items(),
                items.deep_view() == named_entries(all.take(i as int)),
            decreases count - i,
        {
            assert(all.take(i + 1).drop_last() == all.take(i as int));
            match scalar_to_string(quota.value_at(i)) {
                Some(v) => {
                    push_line(&mut items, join3(quota.key_at(i).as_str(), "=", v.as_str()));
                },
                None => {},
            }
            i = i + 1;
        }
    }
    join(&items, ", ")
}

} // verus!
