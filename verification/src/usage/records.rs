//! What the records of a log, or the answer of a provider, say of the usage of an account.
use vstd::prelude::*;

use super::filter::{matches_record_filter, passes_filter};
use super::template::{expand_template, rendered, template_view};
use super::{UsageError, WindowBounds, within};
use crate::identity::Identity;
use crate::json::{
    Json, JsonView, at_pointer, copy_json, get_json_path, json_of_bytes, json_of_text, lemma_views_of,
    parse_bytes, parse_text, views_of,
};
use crate::plugin::{UsageFormat, UsageSource};
use crate::text::{
    join2, lemma_text_lt_irreflexive, parse_i64, same, signed_of, strip_prefix, strip_prefix_of,
    text_lt, trim, trim_of,
};
use crate::text_map::{
    TextMap, lemma_map_of, map_of, sorted_items, sorted_items_exist, strictly_sorted,
};
use crate::time::{Timestamp, at_second, parse_rfc3339, rfc3339_instant, second_of};

verus! {

/// What is added to a metric: one, the double precision number of certain bits, or the number that a
/// text writes, if it does.
pub enum Amount {
    One,
    Bits(u64),
    Text(String),
}

pub enum AmountView {
    One,
    Bits(u64),
    Text(Seq<char>),
}

impl DeepView for Amount {
    type V = AmountView;

    open spec fn deep_view(&self) -> AmountView {
        match *self {
            Amount::One => AmountView::One,
            Amount::Bits(b) => AmountView::Bits(b),
            Amount::Text(s) => AmountView::Text(s@),
        }
    }
}

/// An amount that is added to a metric.
pub struct MetricUpdate {
    pub name: String,
    pub amount: Amount,
}

pub struct UpdateView {
    pub name: Seq<char>,
    pub amount: AmountView,
}

impl DeepView for MetricUpdate {
    type V = UpdateView;

    open spec fn deep_view(&self) -> UpdateView {
        UpdateView { name: self.name@, amount: self.amount.deep_view() }
    }
}

/// A JSON number, or a text that may write one, as an amount.
pub open spec fn amount_of(value: JsonView) -> Option<AmountView> {
    match value {
        JsonView::Number(n) => match n.bits {
            Some(bits) => Some(AmountView::Bits(bits)),
            None => None,
        },
        JsonView::Text(s) => Some(AmountView::Text(s)),
        _ => None,
    }
}

fn value_amount(value: &Json) -> (r: Option<Amount>)
    ensures
        r.deep_view() == amount_of(value.deep_view()),
{
    match value {
        Json::Number(n) => match n.bits {
            Some(bits) => Some(Amount::Bits(bits)),
            None => None,
        },
        Json::Text(s) => Some(Amount::Text(s.clone())),
        _ => None,
    }
}

/// The amount at a pointer into a value.
pub open spec fn amount_at(value: JsonView, pointer: Seq<char>) -> Option<AmountView> {
    match at_pointer(value, pointer) {
        Some(inner) => amount_of(inner),
        None => None,
    }
}

fn read_amount(value: &Json, pointer: &str) -> (r: Option<Amount>)
    ensures
        r.deep_view() == amount_at(value.deep_view(), pointer@),
{
    match get_json_path(value, pointer) {
        Some(inner) => value_amount(inner),
        None => None,
    }
}

// ---------------------------------------------------------------------------------------------
// Records
// ---------------------------------------------------------------------------------------------
/// The time that a value of a record writes: an RFC 3339 text, or a number of seconds.
pub open spec fn time_of(value: JsonView) -> Option<Timestamp> {
    match value {
        JsonView::Text(s) => match rfc3339_instant(s) {
            Some(t) => Some(t),
            None => match signed_of(s) {
                Some(n) => second_of(n as i64),
                None => None,
            },
        },
        JsonView::Number(n) => {
            let exact = match n.signed {
                Some(secs) => second_of(secs),
                None => None,
            };
            if exact is Some {
                exact
            } else {
                match n.whole {
                    Some(secs) => second_of(secs),
                    None => None,
                }
            }
        },
        _ => None,
    }
}

/// The time that a value of a record writes.
pub fn parse_timestamp(value: &Json) -> (r: Option<Timestamp>)
    ensures
        r == time_of(value.deep_view()),
{
    match value {
        Json::Text(s) => match parse_rfc3339(s.as_str()) {
            Some(t) => Some(t),
            None => match parse_i64(s.as_str()) {
                Some(n) => at_second(n),
                None => None,
            },
        },
        Json::Number(n) => {
            let exact = match n.signed {
                Some(secs) => at_second(secs),
                None => None,
            };
            if exact.is_some() {
                exact
            } else {
                match n.whole {
                    Some(secs) => at_second(secs),
                    None => None,
                }
            }
        },
        _ => None,
    }
}

/// What an entry of a metric map adds for a record: `$count` adds one, `$count_if:` adds one where
/// the record passes a filter, and a pointer adds the number that it leads to.
pub open spec fn update_for(expr: Seq<char>, record: JsonView) -> Option<AmountView> {
    if expr == "$count"@ {
        Some(AmountView::One)
    } else {
        match strip_prefix_of(expr, "$count_if:"@) {
            Some(filter) => if passes_filter(Some(filter), record) {
                Some(AmountView::One)
            } else {
                None
            },
            None => amount_at(record, expr),
        }
    }
}

fn metric_amount(expr: &str, record: &Json) -> (r: Option<Amount>)
    ensures
        r.deep_view() == update_for(expr@, record.deep_view()),
{
    if same(expr, "$count") {
        return Some(Amount::One);
    }
    match strip_prefix(expr, "$count_if:") {
        Some(filter) => {
            let filter = Some(filter);
            if matches_record_filter(&filter, record) {
                Some(Amount::One)
            } else {
                None
            }
        },
        None => read_amount(record, expr),
    }
}

/// What the entries of a metric map add for a record, in the order of the metrics.
pub open spec fn updates_for(items: Seq<(Seq<char>, Seq<char>)>, record: JsonView) -> Seq<UpdateView>
    decreases items.len(),
{
    if items.len() == 0 {
        seq![]
    } else {
        let front = updates_for(items.drop_last(), record);
        match update_for(items.last().1, record) {
            Some(amount) => front.push(UpdateView { name: items.last().0, amount }),
            None => front,
        }
    }
}

/// Whether a record counts: its time lies in the window, and it passes the filter of the source.
pub open spec fn counts(source: UsageSource, bounds: WindowBounds, record: JsonView) -> bool {
    match source.timestamp_pointer {
        None => false,
        Some(pointer) => match at_pointer(record, pointer@) {
            None => false,
            Some(value) => match time_of(value) {
                None => false,
                Some(time) => within(bounds, time) && passes_filter(
                    source.record_filter.deep_view(),
                    record,
                ),
            },
        },
    }
}

/// What a record adds to the metrics of a source.
pub open spec fn record_updates(source: UsageSource, bounds: WindowBounds, record: JsonView) -> Seq<
    UpdateView,
> {
    if counts(source, bounds, record) {
        updates_for(sorted_items(source.metric_map.deep_view()), record)
    } else {
        seq![]
    }
}

fn record_counts(source: &UsageSource, bounds: &WindowBounds, record: &Json) -> (r: bool)
    ensures
        r == counts(*source, *bounds, record.deep_view()),
{
    match &source.timestamp_pointer {
        None => false,
        Some(pointer) => match get_json_path(record, pointer.as_str()) {
            None => false,
            Some(value) => match parse_timestamp(value) {
                None => false,
                Some(time) => bounds.contains(time) && matches_record_filter(
                    &source.record_filter,
                    record,
                ),
            },
        },
    }
}

/// Adds what a record adds to the metrics of a source.
pub fn collect_record(
    source: &UsageSource,
    bounds: &WindowBounds,
    record: &Json,
    updates: &mut Vec<MetricUpdate>,
)
    ensures
        final(updates).deep_view() == old(updates).deep_view() + record_updates(
            *source,
            *bounds,
            record.deep_view(),
        ),
{
    let ghost before = updates.deep_view();
    let ghost view = record.deep_view();
    assert(before + Seq::<UpdateView>::empty() == before);
    if !record_counts(source, bounds, record) {
        return;
    }
    let n = source.metric_map.len();
    let ghost items = source.metric_map.items();
    let mut i: usize = 0;
    assert(before + updates_for(items.take(0), view) == before);
    while i < n
        invariant
            i <= n,
            n == items.len(),
            items == source.metric_map.items(),
            view == record.deep_view(),
            updates.deep_view() == before + updates_for(items.take(i as int), view),
        decreases n - i,
    {
        let ghost now = updates.deep_view();
        let name = source.metric_map.key_at(i);
        let expr = source.metric_map.value_at(i);
        assert(items.take(i + 1).drop_last() == items.take(i as int));
        assert(items.take(i + 1).last() == items[i as int]);
        match metric_amount(expr.as_str(), record) {
            Some(amount) => {
                let ghost update = UpdateView { name: name@, amount: amount.deep_view() };
                updates.push(MetricUpdate { name: name.clone(), amount });
                assert(updates.deep_view() == now.push(update));
                assert((before + updates_for(items.take(i as int), view)).push(update) == before
                    + updates_for(items.take(i as int), view).push(update));
            },
            None => {},
        }
        i = i + 1;
    }
    assert(items.take(i as int) == items);
}

/// What the lines of a file add: one JSON record on each line that is not blank, or the message of
/// the first line that cannot be read.
pub open spec fn lines_updates(
    source: UsageSource,
    bounds: WindowBounds,
    lines: Seq<Seq<char>>,
) -> Result<Seq<UpdateView>, Seq<char>>
    decreases lines.len(),
{
    if lines.len() == 0 {
        Ok(seq![])
    } else {
        match lines_updates(source, bounds, lines.drop_last()) {
            Err(message) => Err(message),
            Ok(front) => if trim_of(lines.last()).len() == 0 {
                Ok(front)
            } else {
                match json_of_text(lines.last()) {
                    Ok(record) => Ok(front + record_updates(source, bounds, record)),
                    Err(message) => Err(message),
                }
            },
        }
    }
}

/// Whether reading the file at `path` came out as it should: with the updates, or with the message
/// of what cannot be parsed.
pub open spec fn reads_as(
    r: Result<Vec<MetricUpdate>, UsageError>,
    path: Seq<char>,
    expected: Result<Seq<UpdateView>, Seq<char>>,
) -> bool {
    match r {
        Ok(updates) => expected == Ok::<Seq<UpdateView>, Seq<char>>(updates.deep_view()),
        Err(UsageError::ParseJson { path: p, message }) => p@ == path && expected == Err::<
            Seq<UpdateView>,
            Seq<char>,
        >(message@),
        Err(_) => false,
    }
}

proof fn lemma_lines_error(
    source: UsageSource,
    bounds: WindowBounds,
    lines: Seq<Seq<char>>,
    i: int,
)
    requires
        0 <= i <= lines.len(),
        lines_updates(source, bounds, lines.take(i)) is Err,
    ensures
        lines_updates(source, bounds, lines) == lines_updates(source, bounds, lines.take(i)),
    decreases lines.len(),
{
    if i < lines.len() {
        assert(lines.drop_last().take(i) == lines.take(i));
        lemma_lines_error(source, bounds, lines.drop_last(), i);
    } else {
        assert(lines.take(i) == lines);
    }
}

/// What the lines of the file at `path` add.
pub fn collect_jsonl(
    source: &UsageSource,
    bounds: &WindowBounds,
    path: &str,
    lines: &Vec<String>,
) -> (r: Result<Vec<MetricUpdate>, UsageError>)
    ensures
        reads_as(r, path@, lines_updates(*source, *bounds, lines.deep_view())),
{
    let ghost all = lines.deep_view();
    let mut updates: Vec<MetricUpdate> = Vec::new();
    let mut i: usize = 0;
    assert(updates.deep_view() == Seq::<UpdateView>::empty());
    while i < lines.len()
        invariant
            i <= lines.len(),
            all == lines.deep_view(),
            lines_updates(*source, *bounds, all.take(i as int)) == Ok::<Seq<UpdateView>, Seq<char>>(
                updates.deep_view(),
            ),
        decreases lines.len() - i,
    {
        assert(all[i as int] == lines@[i as int]@);
        assert(all.take(i + 1).drop_last() == all.take(i as int));
        assert(all.take(i + 1).last() == all[i as int]);
        if !trim(lines[i].as_str()).as_str().is_empty() {
            match parse_text(lines[i].as_str()) {
                Ok(record) => {
                    collect_record(source, bounds, &record, &mut updates);
                },
                Err(message) => {
                    proof {
                        lemma_lines_error(*source, *bounds, all, i + 1);
                    }
                    return Err(UsageError::ParseJson { path: path.to_owned(), message });
                },
            }
        }
        i = i + 1;
    }
    assert(all.take(i as int) == all);
    Ok(updates)
}

/// What a list of records adds.
pub open spec fn list_updates(
    source: UsageSource,
    bounds: WindowBounds,
    records: Seq<JsonView>,
) -> Seq<UpdateView>
    decreases records.len(),
{
    if records.len() == 0 {
        seq![]
    } else {
        list_updates(source, bounds, records.drop_last()) + record_updates(
            source,
            bounds,
            records.last(),
        )
    }
}

/// What a JSON document adds: a list of records, or one record.
pub open spec fn document_updates(
    source: UsageSource,
    bounds: WindowBounds,
    document: JsonView,
) -> Seq<UpdateView> {
    match document {
        JsonView::Array { items, .. } => list_updates(source, bounds, items),
        _ => record_updates(source, bounds, document),
    }
}

/// What a JSON document adds.
pub fn collect_document(source: &UsageSource, bounds: &WindowBounds, document: &Json) -> (r: Vec<
    MetricUpdate,
>)
    ensures
        r.deep_view() == document_updates(*source, *bounds, document.deep_view()),
{
    let mut updates: Vec<MetricUpdate> = Vec::new();
    assert(updates.deep_view() == Seq::<UpdateView>::empty());
    match document {
        Json::Array { items, .. } => {
            let ghost all = views_of(items@);
            proof {
                lemma_views_of(items@);
            }
            let mut i: usize = 0;
            while i < items.len()
                invariant
                    i <= items.len(),
                    all.len() == items.len(),
                    forall|j: int| 0 <= j < items.len() ==> #[trigger] all[j] == items@[j].deep_view(),
                    updates.deep_view() == list_updates(*source, *bounds, all.take(i as int)),
                decreases items.len() - i,
            {
                assert(all.take(i + 1).drop_last() == all.take(i as int));
                assert(all.take(i + 1).last() == all[i as int]);
                collect_record(source, bounds, &items[i], &mut updates);
                i = i + 1;
            }
            assert(all.take(i as int) == all);
        },
        _ => {
            collect_record(source, bounds, document, &mut updates);
            assert(Seq::<UpdateView>::empty() + record_updates(
                *source,
                *bounds,
                document.deep_view(),
            ) == record_updates(*source, *bounds, document.deep_view()));
        },
    }
    updates
}

/// What the JSON file at `path` adds.
pub fn collect_json(source: &UsageSource, bounds: &WindowBounds, path: &str, contents: &str) -> (r:
    Result<Vec<MetricUpdate>, UsageError>)
    ensures
        reads_as(
            r,
            path@,
            match json_of_text(contents@) {
                Ok(document) => Ok::<Seq<UpdateView>, Seq<char>>(
                    document_updates(*source, *bounds, document),
                ),
                Err(message) => Err(message),
            },
        ),
{
    match parse_text(contents) {
        Ok(document) => Ok(collect_document(source, bounds, &document)),
        Err(message) => Err(UsageError::ParseJson { path: path.to_owned(), message }),
    }
}

// ---------------------------------------------------------------------------------------------
// What a metric amounts to
// ---------------------------------------------------------------------------------------------
/// What is added to a metric, in order.
pub open spec fn added_to(updates: Seq<UpdateView>, name: Seq<char>) -> Seq<AmountView>
    decreases updates.len(),
{
    if updates.len() == 0 {
        seq![]
    } else if updates.last().name == name {
        added_to(updates.drop_last(), name).push(updates.last().amount)
    } else {
        added_to(updates.drop_last(), name)
    }
}

/// The records that count.
pub open spec fn counted(
    source: UsageSource,
    bounds: WindowBounds,
    records: Seq<JsonView>,
) -> Seq<JsonView>
    decreases records.len(),
{
    if records.len() == 0 {
        seq![]
    } else if counts(source, bounds, records.last()) {
        counted(source, bounds, records.drop_last()).push(records.last())
    } else {
        counted(source, bounds, records.drop_last())
    }
}

/// The amounts at a pointer into records, of those that have one there.
pub open spec fn amounts_of(records: Seq<JsonView>, pointer: Seq<char>) -> Seq<AmountView>
    decreases records.len(),
{
    if records.len() == 0 {
        seq![]
    } else {
        let front = amounts_of(records.drop_last(), pointer);
        match amount_at(records.last(), pointer) {
            Some(amount) => front.push(amount),
            None => front,
        }
    }
}

/// The records on the lines of a file that are not blank, or the message of the first line that
/// cannot be read.
pub open spec fn records_on(lines: Seq<Seq<char>>) -> Result<Seq<JsonView>, Seq<char>>
    decreases lines.len(),
{
    if lines.len() == 0 {
        Ok(seq![])
    } else {
        match records_on(lines.drop_last()) {
            Err(message) => Err(message),
            Ok(front) => if trim_of(lines.last()).len() == 0 {
                Ok(front)
            } else {
                match json_of_text(lines.last()) {
                    Ok(record) => Ok(front.push(record)),
                    Err(message) => Err(message),
                }
            },
        }
    }
}

/// A file of lines adds what the list of the records on its lines adds.
pub proof fn lines_add_what_their_records_add(
    source: UsageSource,
    bounds: WindowBounds,
    lines: Seq<Seq<char>>,
)
    ensures
        lines_updates(source, bounds, lines) == (match records_on(lines) {
            Ok(records) => Ok::<Seq<UpdateView>, Seq<char>>(list_updates(source, bounds, records)),
            Err(message) => Err(message),
        }),
    decreases lines.len(),
{
    if lines.len() > 0 {
        lines_add_what_their_records_add(source, bounds, lines.drop_last());
        match records_on(lines.drop_last()) {
            Ok(front) => match json_of_text(lines.last()) {
                Ok(record) => {
                    assert(front.push(record).drop_last() == front);
                },
                Err(_) => {},
            },
            Err(_) => {},
        }
    }
}

proof fn lemma_added_to_sum(a: Seq<UpdateView>, b: Seq<UpdateView>, name: Seq<char>)
    ensures
        added_to(a + b, name) == added_to(a, name) + added_to(b, name),
    decreases b.len(),
{
    if b.len() == 0 {
        assert(a + b == a);
    } else {
        lemma_added_to_sum(a, b.drop_last(), name);
        assert((a + b).drop_last() == a + b.drop_last());
        assert((a + b).last() == b.last());
    }
}

proof fn lemma_added_by_record(
    items: Seq<(Seq<char>, Seq<char>)>,
    name: Seq<char>,
    record: JsonView,
)
    requires
        strictly_sorted(items),
    ensures
        added_to(updates_for(items, record), name) == (if map_of(items).contains_key(name) {
            match update_for(map_of(items)[name], record) {
                Some(amount) => seq![amount],
                None => seq![],
            }
        } else {
            seq![]
        }),
    decreases items.len(),
{
    lemma_map_of(items);
    if items.len() > 0 {
        let front = items.drop_last();
        assert(strictly_sorted(front));
        lemma_map_of(front);
        lemma_added_by_record(front, name, record);
        let last = items.last();
        assert(items[items.len() - 1] == last);
        if map_of(front).contains_key(last.0) {
            let i = choose|i: int| 0 <= i < front.len() && #[trigger] front[i].0 == last.0;
            assert(text_lt(items[i].0, items[items.len() - 1].0));
            lemma_text_lt_irreflexive(last.0);
        }
        let before = updates_for(front, record);
        match update_for(last.1, record) {
            Some(amount) => {
                let update = UpdateView { name: last.0, amount };
                assert(before.push(update).drop_last() == before);
            },
            None => {},
        }
    }
}

/// A metric that is mapped to `$count` is the number of the records whose time lies in the window
/// and that pass the filter of the source: one is added for each.
pub proof fn a_count_is_the_number_of_records_that_count(
    source: UsageSource,
    bounds: WindowBounds,
    records: Seq<JsonView>,
    name: Seq<char>,
)
    requires
        source.metric_map.deep_view().dom().finite(),
        source.metric_map.deep_view().contains_key(name),
        source.metric_map.deep_view()[name] == "$count"@,
    ensures
        added_to(list_updates(source, bounds, records), name) == Seq::new(
            counted(source, bounds, records).len(),
            |i: int| AmountView::One,
        ),
    decreases records.len(),
{
    let items = sorted_items(source.metric_map.deep_view());
    sorted_items_exist(source.metric_map.deep_view());
    if records.len() > 0 {
        let front = records.drop_last();
        a_count_is_the_number_of_records_that_count(source, bounds, front, name);
        lemma_added_to_sum(
            list_updates(source, bounds, front),
            record_updates(source, bounds, records.last()),
            name,
        );
        lemma_added_by_record(items, name, records.last());
    }
}

/// A metric that is mapped to a pointer is the sum of the amounts at that pointer in the records
/// whose time lies in the window and that pass the filter of the source: they are added in order,
/// and nothing else is.
pub proof fn a_pointer_adds_its_amounts_in_the_records_that_count(
    source: UsageSource,
    bounds: WindowBounds,
    records: Seq<JsonView>,
    name: Seq<char>,
)
    requires
        source.metric_map.deep_view().dom().finite(),
        source.metric_map.deep_view().contains_key(name),
        source.metric_map.deep_view()[name] != "$count"@,
        strip_prefix_of(source.metric_map.deep_view()[name], "$count_if:"@) is None,
    ensures
        added_to(list_updates(source, bounds, records), name) == amounts_of(
            counted(source, bounds, records),
            source.metric_map.deep_view()[name],
        ),
    decreases records.len(),
{
    let items = sorted_items(source.metric_map.deep_view());
    sorted_items_exist(source.metric_map.deep_view());
    if records.len() > 0 {
        let front = records.drop_last();
        a_pointer_adds_its_amounts_in_the_records_that_count(source, bounds, front, name);
        lemma_added_to_sum(
            list_updates(source, bounds, front),
            record_updates(source, bounds, records.last()),
            name,
        );
        lemma_added_by_record(items, name, records.last());
        let before = counted(source, bounds, front);
        assert(before.push(records.last()).drop_last() == before);
    }
}

/// How a file of records is read: line by line, in one piece, or not at all.
pub enum FileRead {
    Lines,
    Whole,
    Skip { warning: String },
}

/// How a file of a source is read; without a format it holds a record in each line.
pub fn file_read(source: &UsageSource, path: &str) -> (r: FileRead)
    ensures
        match source.format {
            None | Some(UsageFormat::Jsonl) => r is Lines,
            Some(UsageFormat::Json) => r is Whole,
            Some(UsageFormat::RegexLines) => r matches FileRead::Skip { warning } && warning@
                == "regex_lines is not yet supported for "@ + path@,
        },
{
    match source.format {
        None | Some(UsageFormat::Jsonl) => FileRead::Lines,
        Some(UsageFormat::Json) => FileRead::Whole,
        Some(UsageFormat::RegexLines) => FileRead::Skip {
            warning: join2("regex_lines is not yet supported for ", path),
        },
    }
}

// ---------------------------------------------------------------------------------------------
// Providers
// ---------------------------------------------------------------------------------------------
/// A request to a provider.
pub struct ApiRequest {
    pub url: String,
    pub headers: Vec<(String, String)>,
}

/// The credential as JSON, where it is JSON.
pub open spec fn credential_value(bytes: Seq<u8>) -> Option<JsonView> {
    match json_of_bytes(bytes) {
        Ok(value) => Some(value),
        Err(_) => None,
    }
}

pub open spec fn header_views(headers: Seq<(String, String)>) -> Seq<(Seq<char>, Seq<char>)> {
    headers.map_values(|h: (String, String)| (h.0@, h.1@))
}

/// The request that a source asks for, with a credential that was read as JSON, or could not be.
pub fn api_request_with(
    source: &UsageSource,
    credential_bytes: &Vec<u8>,
    credential: &Option<Json>,
    identity: &Identity,
    bounds: &WindowBounds,
) -> (r: ApiRequest)
    ensures
        ({
            let t = template_view(credential_bytes@, *credential, *identity, *bounds);
            &&& r.url@ == rendered(
                match source.url {
                    Some(url) => url@,
                    None => ""@,
                },
                t,
            )
            &&& header_views(r.headers@) == sorted_items(source.headers.deep_view()).map_values(
                |h: (Seq<char>, Seq<char>)| (h.0, rendered(h.1, t)),
            )
        }),
{
    let ghost t = template_view(credential_bytes@, *credential, *identity, *bounds);
    let url = match &source.url {
        Some(url) => expand_template(url.as_str(), credential_bytes, credential, identity, bounds),
        None => expand_template("", credential_bytes, credential, identity, bounds),
    };
    let n = source.headers.len();
    let ghost all = source.headers.items().map_values(
        |h: (Seq<char>, Seq<char>)| (h.0, rendered(h.1, t)),
    );
    let mut headers: Vec<(String, String)> = Vec::new();
    let mut i: usize = 0;
    while i < n
        invariant
            i <= n,
            n == source.headers.items().len(),
            t == template_view(credential_bytes@, *credential, *identity, *bounds),
            all == source.headers.items().map_values(
                |h: (Seq<char>, Seq<char>)| (h.0, rendered(h.1, t)),
            ),
            header_views(headers@) == all.take(i as int),
        decreases n - i,
    {
        let ghost before = header_views(headers@);
        let value = expand_template(
            source.headers.value_at(i).as_str(),
            credential_bytes,
            credential,
            identity,
            bounds,
        );
        headers.push((source.headers.key_at(i).clone(), value));
        i = i + 1;
        assert(header_views(headers@) == before.push(all[i - 1]));
        assert(all.take(i as int) == all.take(i - 1).push(all[i - 1]));
    }
    assert(all.take(i as int) == all);
    ApiRequest { url, headers }
}

/// The request that a source asks for.
pub fn api_request(
    source: &UsageSource,
    credential_bytes: &Vec<u8>,
    identity: &Identity,
    bounds: &WindowBounds,
) -> (r: ApiRequest)
    ensures
        ({
            let t = super::template::TemplateView {
                bytes: credential_bytes@,
                credential: credential_value(credential_bytes@),
                identity: identity.deep_view(),
                bounds: *bounds,
            };
            &&& r.url@ == rendered(
                match source.url {
                    Some(url) => url@,
                    None => ""@,
                },
                t,
            )
            &&& header_views(r.headers@) == sorted_items(source.headers.deep_view()).map_values(
                |h: (Seq<char>, Seq<char>)| (h.0, rendered(h.1, t)),
            )
        }),
{
    let credential = match parse_bytes(credential_bytes.as_slice()) {
        Ok(value) => Some(value),
        Err(_) => None,
    };
    api_request_with(source, credential_bytes, &credential, identity, bounds)
}

/// What the answer of a provider says.
pub struct ApiReading {
    pub updates: Vec<MetricUpdate>,
    pub quota: TextMap<Json>,
}

/// The amounts that the pointers lead to, in the order of the metrics.
pub open spec fn amounts_at(items: Seq<(Seq<char>, Seq<char>)>, value: JsonView) -> Seq<UpdateView>
    decreases items.len(),
{
    if items.len() == 0 {
        seq![]
    } else {
        let front = amounts_at(items.drop_last(), value);
        match amount_at(value, items.last().1) {
            Some(amount) => front.push(UpdateView { name: items.last().0, amount }),
            None => front,
        }
    }
}

/// The values that the pointers lead to, by name.
pub open spec fn values_at(items: Seq<(Seq<char>, Seq<char>)>, value: JsonView) -> Map<
    Seq<char>,
    JsonView,
>
    decreases items.len(),
{
    if items.len() == 0 {
        Map::empty()
    } else {
        let front = values_at(items.drop_last(), value);
        match at_pointer(value, items.last().1) {
            Some(inner) => front.insert(items.last().0, inner),
            None => front,
        }
    }
}

/// What the answer of a provider says.
pub fn read_api_value(source: &UsageSource, value: &Json) -> (r: ApiReading)
    ensures
        r.updates.deep_view() == amounts_at(
            sorted_items(source.response_metric_pointer.deep_view()),
            value.deep_view(),
        ),
        r.quota.deep_view() == values_at(
            sorted_items(source.response_quota_pointer.deep_view()),
            value.deep_view(),
        ),
{
    let ghost view = value.deep_view();
    let metrics = &source.response_metric_pointer;
    let n = metrics.len();
    let ghost items = metrics.items();
    let mut updates: Vec<MetricUpdate> = Vec::new();
    let mut i: usize = 0;
    assert(updates.deep_view() == amounts_at(items.take(0), view));
    while i < n
        invariant
            i <= n,
            n == items.len(),
            items == metrics.items(),
            view == value.deep_view(),
            updates.deep_view() == amounts_at(items.take(i as int), view),
        decreases n - i,
    {
        let ghost now = updates.deep_view();
        assert(items.take(i + 1).drop_last() == items.take(i as int));
        assert(items.take(i + 1).last() == items[i as int]);
        match read_amount(value, metrics.value_at(i).as_str()) {
            Some(amount) => {
                let ghost update = UpdateView {
                    name: items[i as int].0,
                    amount: amount.deep_view(),
                };
                updates.push(MetricUpdate { name: metrics.key_at(i).clone(), amount });
                assert(updates.deep_view() == now.push(update));
            },
            None => {},
        }
        i = i + 1;
    }
    assert(items.take(i as int) == items);
    let quotas = &source.response_quota_pointer;
    let m = quotas.len();
    let ghost pointers = quotas.items();
    let mut quota: TextMap<Json> = TextMap::new();
    let mut k: usize = 0;
    while k < m
        invariant
            k <= m,
            m == pointers.len(),
            pointers == quotas.items(),
            view == value.deep_view(),
            quota.deep_view() == values_at(pointers.take(k as int), view),
        decreases m - k,
    {
        assert(pointers.take(k + 1).drop_last() == pointers.take(k as int));
        assert(pointers.take(k + 1).last() == pointers[k as int]);
        match get_json_path(value, quotas.value_at(k).as_str()) {
            Some(inner) => {
                quota.insert(quotas.key_at(k).clone(), copy_json(inner));
            },
            None => {},
        }
        k = k + 1;
    }
    assert(pointers.take(k as int) == pointers);
    ApiReading { updates, quota }
}

/// What the answer of a provider to the request for `url` says.
pub fn read_api_body(source: &UsageSource, url: &str, body: &str) -> (r: Result<
    ApiReading,
    UsageError,
>)
    ensures
        match json_of_text(body@) {
            Ok(value) => {
                &&& r is Ok
                &&& r->Ok_0.updates.deep_view() == amounts_at(
                    sorted_items(source.response_metric_pointer.deep_view()),
                    value,
                )
                &&& r->Ok_0.quota.deep_view() == values_at(
                    sorted_items(source.response_quota_pointer.deep_view()),
                    value,
                )
            },
            Err(message) => r matches Err(UsageError::HttpRequest { url: u, message: m }) && u@
                == url@ && m@ == message,
        },
{
    match parse_text(body) {
        Ok(value) => Ok(read_api_value(source, &value)),
        Err(message) => Err(UsageError::HttpRequest { url: url.to_owned(), message }),
    }
}

} // verus!
