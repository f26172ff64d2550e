//! Records of usage: what a record adds to which metric, how files of records are read, and how the
//! request to a provider is filled in.
use vstd::prelude::*;

use crate::identity::jwt_payload;
use crate::json::{JsonView, json_of_text};
use crate::plugin::UsageSource;
use crate::text::{
    find_from, lemma_find_from, occurs_at, strip_end_of, strip_start_of, trim_of, utf8_text,
};
use crate::text_map::{lemma_map_of, map_of, sorted_items, sorted_items_exist};
use crate::time::{Timestamp, date_of, rfc3339_of};
use crate::usage::records::{
    MetricUpdate, UpdateView, counts, document_updates, lines_updates, reads_as, record_updates,
    update_for, updates_for,
};
use crate::usage::snapshot::{
    CollectedView, SummaryView, any_usage, has_kind, no_metrics, summaries_of,
};
use crate::usage::template::{
    TemplateView, claim_text, day_text, moment_text, opening, placeholder_value, raw_credential,
    rendered, scalar_text, text_at,
};
use crate::usage::{UsageError, WindowBounds};

verus! {

proof fn lemma_updates_for(items: Seq<(Seq<char>, Seq<char>)>, record: JsonView, u: UpdateView)
    ensures
        updates_for(items, record).contains(u) <==> exists|i: int|
            0 <= i < items.len() && (#[trigger] items[i]).0 == u.name && update_for(
                items[i].1,
                record,
            ) == Some(u.amount),
    decreases items.len(),
{
    if items.len() > 0 {
        let front = items.drop_last();
        lemma_updates_for(front, record, u);
        let before = updates_for(front, record);
        let all = updates_for(items, record);
        assert(items[items.len() - 1] == items.last());
        if before.contains(u) {
            let k = choose|k: int| 0 <= k < before.len() && before[k] == u;
            assert(all[k] == u);
            let i = choose|i: int|
                0 <= i < front.len() && (#[trigger] front[i]).0 == u.name && update_for(
                    front[i].1,
                    record,
                ) == Some(u.amount);
            assert(items[i] == front[i]);
        }
        if all.contains(u) {
            let k = choose|k: int| 0 <= k < all.len() && all[k] == u;
            if k < before.len() {
                assert(before[k] == u);
            }
        }
        if exists|i: int|
            0 <= i < items.len() && (#[trigger] items[i]).0 == u.name && update_for(
                items[i].1,
                record,
            ) == Some(u.amount) {
            let i = choose|i: int|
                0 <= i < items.len() && (#[trigger] items[i]).0 == u.name && update_for(
                    items[i].1,
                    record,
                ) == Some(u.amount);
            if i < front.len() {
                assert(front[i] == items[i]);
            } else {
                assert(all[all.len() - 1] == u);
            }
        }
    }
}

/// A record that counts adds to each metric of the source what the rule of that metric finds in it; one
/// that does not count adds nothing.
pub proof fn a_record_adds_to_the_metrics_of_the_source(
    source: UsageSource,
    bounds: WindowBounds,
    record: JsonView,
    u: UpdateView,
)
    requires
        source.metric_map.deep_view().dom().finite(),
    ensures
        ({
            let rules = source.metric_map.deep_view();
            &&& !counts(source, bounds, record) ==> record_updates(source, bounds, record).len() == 0
            &&& counts(source, bounds, record) ==> (record_updates(source, bounds, record).contains(u)
                <==> rules.contains_key(u.name) && update_for(rules[u.name], record) == Some(
                u.amount,
            ))
        }),
{
    let rules = source.metric_map.deep_view();
    sorted_items_exist(rules);
    let items = sorted_items(rules);
    lemma_map_of(items);
    lemma_updates_for(items, record, u);
    if rules.contains_key(u.name) && update_for(rules[u.name], record) == Some(u.amount) {
        let k = choose|k: int| 0 <= k < items.len() && #[trigger] items[k].0 == u.name;
        assert(map_of(items)[items[k].0] == items[k].1);
        assert(items[k].0 == u.name && update_for(items[k].1, record) == Some(u.amount));
    }
    if exists|i: int|
        0 <= i < items.len() && (#[trigger] items[i]).0 == u.name && update_for(items[i].1, record)
            == Some(u.amount) {
        let i = choose|i: int|
            0 <= i < items.len() && (#[trigger] items[i]).0 == u.name && update_for(
                items[i].1,
                record,
            ) == Some(u.amount);
        assert(map_of(items).contains_key(items[i].0));
        assert(map_of(items)[items[i].0] == items[i].1);
    }
}

/// Lines are read one after the other. Empty ones are passed over, each other one is a record, and the
/// first that cannot be read makes the file unreadable, with what was wrong with it.
pub proof fn lines_are_records(
    source: UsageSource,
    bounds: WindowBounds,
    lines: Seq<Seq<char>>,
    line: Seq<char>,
)
    ensures
        ({
            let before = lines_updates(source, bounds, lines);
            let after = lines_updates(source, bounds, lines.push(line));
            &&& before is Err ==> after == before
            &&& before is Ok && trim_of(line).len() == 0 ==> after == before
            &&& before is Ok && trim_of(line).len() > 0 ==> match json_of_text(line) {
                Ok(record) => after == Ok::<Seq<UpdateView>, Seq<char>>(
                    before->Ok_0 + record_updates(source, bounds, record),
                ),
                Err(message) => after == Err::<Seq<UpdateView>, Seq<char>>(message),
            }
        }),
        lines_updates(source, bounds, Seq::<Seq<char>>::empty()) == Ok::<
            Seq<UpdateView>,
            Seq<char>,
        >(seq![]),
{
    assert(lines.push(line).drop_last() == lines);
}

/// A document is a list of records, each of which adds its own, or a single record.
pub proof fn a_document_is_a_list_of_records(
    source: UsageSource,
    bounds: WindowBounds,
    items: Seq<JsonView>,
    item: JsonView,
    text: Seq<char>,
    other: JsonView,
)
    ensures
        document_updates(source, bounds, JsonView::Array { items: items.push(item), text })
            == document_updates(source, bounds, JsonView::Array { items, text }) + record_updates(
            source,
            bounds,
            item,
        ),
        document_updates(source, bounds, JsonView::Array { items: Seq::empty(), text }).len() == 0,
        !(other is Array) ==> document_updates(source, bounds, other) == record_updates(
            source,
            bounds,
            other,
        ),
{
    assert(items.push(item).drop_last() == items);
}

/// A placeholder of a template is replaced by its value; what stands before it stays, and what follows
/// it is treated in the same way.
pub proof fn a_placeholder_of_a_template_is_replaced(
    before: Seq<char>,
    key: Seq<char>,
    after: Seq<char>,
    t: TemplateView,
)
    requires
        !before.contains('$'),
        !key.contains('}'),
    ensures
        rendered(before + seq!['$', '{'] + key + seq!['}'] + after, t) == before + placeholder_value(
            key,
            t,
        ) + rendered(after, t),
{
    let s = before + seq!['$', '{'] + key + seq!['}'] + after;
    let n = before.len() as int;
    lemma_find_from(s, opening(), 0);
    assert(s.subrange(n, n + 2) == opening());
    assert(occurs_at(s, opening(), n));
    let i = find_from(s, opening(), 0)->0;
    if i < n {
        assert(s.subrange(i, i + 2)[0] == '$');
        assert(before[i] == '$');
    }
    assert(i == n);
    let rest = s.subrange(i + 2, s.len() as int);
    assert(rest == key + seq!['}'] + after);
    let m = key.len() as int;
    lemma_find_from(rest, seq!['}'], 0);
    assert(rest.subrange(m, m + 1) == seq!['}']);
    assert(occurs_at(rest, seq!['}'], m));
    let j = find_from(rest, seq!['}'], 0)->0;
    if j < m {
        assert(rest.subrange(j, j + 1)[0] == '}');
        assert(key[j] == '}');
    }
    assert(j == m);
    assert(s.subrange(0, i) == before);
    assert(rest.subrange(0, j) == key);
    assert(rest.subrange(j + 1, rest.len() as int) == after);
}

/// A simple value has a text; a list, an object and null have none.
pub proof fn simple_values_have_texts(value: JsonView)
    ensures
        value matches JsonView::Text(s) ==> scalar_text(value) == Some(s),
        value matches JsonView::Number(n) ==> scalar_text(value) == Some(n.text),
        value == JsonView::Bool(true) ==> scalar_text(value) == Some("true"@),
        value == JsonView::Bool(false) ==> scalar_text(value) == Some("false"@),
        value is Null || value is Array || value is Object ==> scalar_text(value) is None,
{
}

/// The raw credential is the text that it is, and otherwise its bytes as a text, without the space and
/// the quotes around it. A claim is looked up in the token that it is.
pub proof fn the_raw_credential_is_without_quotes(t: TemplateView, text: Seq<char>, claim: Seq<char>)
    ensures
        raw_credential(t.bytes, Some(JsonView::Text(text))) == Some(text),
        utf8_text(t.bytes) is None ==> raw_credential(t.bytes, None) is None,
        utf8_text(t.bytes) matches Some(s) ==> raw_credential(t.bytes, None) == Some(
            strip_end_of(strip_start_of(trim_of(s), '"'), '"'),
        ),
        raw_credential(t.bytes, t.credential) is None ==> claim_text(t, claim) == ""@,
        raw_credential(t.bytes, t.credential) matches Some(jwt) ==> match jwt_payload(jwt) {
            Ok(payload) => claim_text(t, claim) == text_at(Some(payload), claim),
            Err(_) => claim_text(t, claim) == ""@,
        },
{
}

/// Usage was found of a kind where a source of that kind counted anything; the sources are told in the
/// order in which they were asked.
pub proof fn sources_are_told_in_their_order(
    collected: Seq<CollectedView>,
    local: bool,
    kind: Seq<char>,
    sources: Seq<SummaryView>,
)
    ensures
        any_usage(collected, local) <==> exists|i: int|
            0 <= i < collected.len() && (#[trigger] collected[i]).local == local
                && collected[i].summary.metrics != no_metrics(),
        summaries_of(collected).len() == collected.len(),
        forall|i: int|
            0 <= i < collected.len() ==> #[trigger] summaries_of(collected)[i]
                == collected[i].summary,
        has_kind(sources, kind) <==> exists|i: int|
            0 <= i < sources.len() && (#[trigger] sources[i]).kind == kind,
        no_metrics().requests is None && no_metrics().tokens_in is None
            && no_metrics().tokens_out is None && no_metrics().cost_usd is None,
{
}

/// What came of reading a file of records is the updates, or that it is no JSON, with its path and the
/// cause.
pub proof fn an_unreadable_file_is_told_with_its_path(
    r: Result<Vec<MetricUpdate>, UsageError>,
    path: Seq<char>,
    expected: Result<Seq<UpdateView>, Seq<char>>,
)
    requires
        reads_as(r, path, expected),
    ensures
        expected matches Ok(updates) ==> (r matches Ok(given) && given.deep_view() == updates),
        expected matches Err(cause) ==> (r matches Err(UsageError::ParseJson { path: p, message })
            && p@ == path && message@ == cause),
{
}

/// A moment and a day are told where they are known, and by nothing otherwise.
pub proof fn unknown_moments_are_told_by_nothing(at: Timestamp)
    ensures
        moment_text(None) == ""@,
        day_text(None) == ""@,
        rfc3339_of(at.secs, at.nanos) matches Some(text) ==> moment_text(Some(at)) == text,
        date_of(at.secs, at.nanos) matches Some(text) ==> day_text(Some(at)) == text,
{
}

} // verus!
