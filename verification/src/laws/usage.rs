//! Usage: which stretch of time is read, which records count, what they add up to, and how long an
//! answer is kept.
use vstd::prelude::*;

use crate::json::{JsonView, at_pointer};
use crate::plugin::{UsageSource, UsageSourceKind};
use crate::text::{strip_prefix_of, trim_of};
use crate::text_map::{lemma_map_of, strictly_sorted};
use crate::time::{
    Timestamp, earlier, in_calendar, later_of, month_start_of, rfc3339_instant, second_of, shifted,
    span, year_month_of,
};
use crate::usage::filter::{
    LiteralView, equals, literal_of, meets, meets_all, meets_any, parts_of, passes_filter, sides_of,
    value_at,
};
use crate::usage::records::{
    AmountView, UpdateView, amount_at, amount_of, amounts_at, counts, record_updates, time_of,
    update_for, values_at,
};
use crate::usage::snapshot::{
    CollectedView, MetricsView, SnapshotView, assembled, metric_in, no_metrics, quota_of,
    with_metric,
};
use crate::usage::template::{TemplateView, account_text, placeholder_value};
use crate::usage::{
    UsageSelection, UsageWindow, WindowBounds, bounds_of, cleared, default_window_name, kept,
    longer, outdated, picks, plan_warnings, readable, selection_for, selection_name,
    selection_named, shortest_ttl, skipped, ttl_for, window_fits, window_for, window_name,
    window_named, within,
};

verus! {

// ---------------------------------------------------------------------------------------------
// Time
// ---------------------------------------------------------------------------------------------
/// Points in time are in the order of their seconds, and within a second of their nanoseconds; of two
/// the later one is the one that is not before the other.
pub proof fn times_are_in_order(a: Timestamp, b: Timestamp)
    ensures
        earlier(a, b) <==> a.secs < b.secs || (a.secs == b.secs && a.nanos < b.nanos),
        earlier(a, b) ==> later_of(Some(a), Some(b)) == Some(b),
        earlier(b, a) ==> later_of(Some(a), Some(b)) == Some(a),
        later_of(Some(a), None) == Some(a),
        later_of(None, Some(b)) == Some(b),
{
}

/// Between two ordinary points in time lie their seconds and nanoseconds, and moving a point by a
/// number of seconds moves it by that many.
pub proof fn a_second_is_a_second(a: Timestamp, b: Timestamp, n: int)
    requires
        a.nanos < 1_000_000_000,
        b.nanos < 1_000_000_000,
        i64::MIN <= a.secs + n <= i64::MAX,
    ensures
        span(a, b) == (b.secs * 1_000_000_000 + b.nanos) - (a.secs * 1_000_000_000 + a.nanos),
        shifted(a, n).secs == a.secs + n,
        shifted(a, n).nanos == a.nanos,
        span(a, shifted(a, n)) == n * 1_000_000_000,
{
}

// ---------------------------------------------------------------------------------------------
// The window
// ---------------------------------------------------------------------------------------------
/// The rolling windows end now and are a day, seven days and thirty days long.
pub proof fn rolling_windows_have_their_length(now: Timestamp)
    requires
        window_fits(UsageWindow::Last30d, now),
        now.nanos < 1_000_000_000,
    ensures
        ({
            let day = bounds_of(UsageWindow::Last24h, now)->0;
            let week = bounds_of(UsageWindow::Last7d, now)->0;
            let month = bounds_of(UsageWindow::Last30d, now)->0;
            &&& bounds_of(UsageWindow::Last24h, now) is Some
            &&& bounds_of(UsageWindow::Last7d, now) is Some
            &&& bounds_of(UsageWindow::Last30d, now) is Some
            &&& day.to == Some(now) && week.to == Some(now) && month.to == Some(now)
            &&& day.from is Some && day.from->0.secs == now.secs - 86_400 && day.from->0.nanos
                == now.nanos
            &&& week.from is Some && week.from->0.secs == now.secs - 7 * 86_400
                && week.from->0.nanos == now.nanos
            &&& month.from is Some && month.from->0.secs == now.secs - 30 * 86_400
                && month.from->0.nanos == now.nanos
        }),
{
}

/// The window of today begins at midnight and is one day long, and now lies in it. The window of all
/// has no ends.
pub proof fn today_is_one_day(now: Timestamp, t: Timestamp)
    requires
        window_fits(UsageWindow::Today, now),
    ensures
        ({
            let today = bounds_of(UsageWindow::Today, now)->0;
            &&& bounds_of(UsageWindow::Today, now) is Some
            &&& today.from is Some && today.to is Some
            &&& today.from->0.secs as int % 86_400 == 0 && today.from->0.nanos == 0
            &&& today.to->0.secs == today.from->0.secs + 86_400 && today.to->0.nanos == 0
            &&& today.from->0.secs <= now.secs < today.to->0.secs
            &&& bounds_of(UsageWindow::All, now) is Some
            &&& within(bounds_of(UsageWindow::All, now)->0, t)
        }),
{
}

/// The window of the current month begins with the month of now and ends where the next one begins,
/// which after December is January of the next year.
pub proof fn the_current_month_is_the_month_of_now(now: Timestamp)
    requires
        in_calendar(now),
        year_month_of(now.secs, now.nanos) is Some,
        1 <= (year_month_of(now.secs, now.nanos)->0).1 <= 12,
        -262_143 <= (year_month_of(now.secs, now.nanos)->0).0 <= 262_142,
    ensures
        ({
            let (year, month) = year_month_of(now.secs, now.nanos)->0;
            let begin = month_start_of(year, month);
            let end = if month == 12 {
                month_start_of((year + 1) as i32, 1)
            } else {
                month_start_of(year, (month + 1) as u32)
            };
            let b = bounds_of(UsageWindow::CurrentMonth, now);
            &&& b is Some <==> begin is Some && end is Some
            &&& b is Some ==> b->0.from == Some(Timestamp { secs: begin->0, nanos: 0 }) && b->0.to
                == Some(Timestamp { secs: end->0, nanos: 0 })
        }),
{
}

/// A point in time lies within bounds from the first of them on and before the second; an end that is
/// missing bounds nothing.
pub proof fn bounds_hold_their_beginning_and_not_their_end(b: WindowBounds, t: Timestamp)
    ensures
        within(b, t) <==> {
            &&& b.from is Some ==> b.from->0.secs < t.secs || (b.from->0.secs == t.secs
                && b.from->0.nanos <= t.nanos)
            &&& b.to is Some ==> t.secs < b.to->0.secs || (t.secs == b.to->0.secs && t.nanos
                < b.to->0.nanos)
        },
{
}

/// The names of the windows and of the selections.
pub proof fn windows_have_their_names()
    ensures
        window_named("today"@) == Some(UsageWindow::Today),
        window_named("last_24h"@) == Some(UsageWindow::Last24h),
        window_named("last_7d"@) == Some(UsageWindow::Last7d),
        window_named("current_month"@) == Some(UsageWindow::CurrentMonth),
        window_named("last_30d"@) == Some(UsageWindow::Last30d),
        window_named("all"@) == Some(UsageWindow::All),
        window_name(UsageWindow::Today) == "today"@,
        window_name(UsageWindow::Last24h) == "last_24h"@,
        window_name(UsageWindow::Last7d) == "last_7d"@,
        window_name(UsageWindow::CurrentMonth) == "current_month"@,
        window_name(UsageWindow::Last30d) == "last_30d"@,
        window_name(UsageWindow::All) == "all"@,
        selection_named("local"@) == Some(UsageSelection::Local),
        selection_named("api"@) == Some(UsageSelection::Api),
        selection_named("both"@) == Some(UsageSelection::Both),
        selection_name(UsageSelection::Local) == "local"@,
        selection_name(UsageSelection::Api) == "api"@,
        selection_name(UsageSelection::Both) == "both"@,
{
    reveal_strlit("today");
    reveal_strlit("last_24h");
    reveal_strlit("last_7d");
    reveal_strlit("current_month");
    reveal_strlit("last_30d");
    reveal_strlit("all");
    reveal_strlit("local");
    reveal_strlit("api");
    reveal_strlit("both");
    assert("today"@.len() == 5 && "last_24h"@.len() == 8 && "last_7d"@.len() == 7);
    assert("current_month"@.len() == 13 && "last_30d"@.len() == 8 && "all"@.len() == 3);
    assert("last_24h"@[5] == '2' && "last_30d"@[5] == '3');
    assert("local"@.len() == 5 && "api"@.len() == 3 && "both"@.len() == 4);
}

/// What is asked for goes before what the sources name, and of these the first that names a window
/// decides; where none does it is the current month. Where no source is asked for, the provider is
/// asked only where there is no log and it can be.
pub proof fn what_is_asked_for_goes_first(
    sources: Seq<UsageSource>,
    window: Option<UsageWindow>,
    selection: Option<UsageSelection>,
)
    ensures
        window is Some ==> window_for(sources, window) == window,
        selection is Some ==> selection_for(sources, selection) == selection->0,
        window is None ==> window_for(sources, window) == window_named(
            default_window_name(sources),
        ),
        (forall|i: int| 0 <= i < sources.len() ==> (#[trigger] sources[i]).default_window is None)
            ==> default_window_name(sources) == "current_month"@,
        forall|i: int|
            0 <= i < sources.len() && (#[trigger] sources[i]).default_window is Some && (forall|
                j: int,
            |
                0 <= j < i ==> (#[trigger] sources[j]).default_window is None)
                ==> default_window_name(sources) == sources[i].default_window->0@,
        selection is None ==> (selection_for(sources, selection) == UsageSelection::Api <==> (
        forall|i: int|
            0 <= i < sources.len() ==> (#[trigger] sources[i]).kind == UsageSourceKind::ProviderApi)
            && sources.len() > 0),
        selection is None ==> selection_for(sources, selection) != UsageSelection::Both,
    decreases sources.len(),
{
    if sources.len() > 0 {
        let rest = sources.drop_first();
        what_is_asked_for_goes_first(rest, window, selection);
        assert(sources[0] == sources[0]);
        if sources[0].default_window is None {
            if forall|i: int|
                0 <= i < sources.len() ==> (#[trigger] sources[i]).default_window is None {
                assert forall|i: int| 0 <= i < rest.len() implies (
                #[trigger] rest[i]).default_window is None by {
                    assert(rest[i] == sources[i + 1]);
                }
            }
            assert forall|i: int|
                0 <= i < sources.len() && (#[trigger] sources[i]).default_window is Some && (forall|
                    j: int,
                |
                    0 <= j < i ==> (
                    #[trigger] sources[j]).default_window is None) implies default_window_name(
                sources,
            ) == sources[i].default_window->0@ by {
                assert(rest[i - 1] == sources[i]);
                assert forall|j: int| 0 <= j < i - 1 implies (
                #[trigger] rest[j]).default_window is None by {
                    assert(rest[j] == sources[j + 1]);
                }
            }
        }
        if selection is None {
            if forall|i: int|
                0 <= i < sources.len() ==> (#[trigger] sources[i]).kind
                    == UsageSourceKind::ProviderApi {
                assert(sources[0].kind == UsageSourceKind::ProviderApi);
            } else {
                let i = choose|i: int|
                    0 <= i < sources.len() && (#[trigger] sources[i]).kind
                        != UsageSourceKind::ProviderApi;
                assert(sources[i].kind == UsageSourceKind::LocalLog);
            }
        }
    }
}

// ---------------------------------------------------------------------------------------------
// The sources
// ---------------------------------------------------------------------------------------------
/// The sources that are picked are exactly those of a kind that the selection takes, each once and in
/// their order.
pub proof fn sources_of_the_selected_kind_are_picked(
    sources: Seq<UsageSource>,
    selection: UsageSelection,
    n: int,
)
    requires
        0 <= n <= sources.len(),
        sources.len() <= usize::MAX,
    ensures
        ({
            let picked = picks(sources, selection, n);
            &&& forall|i: int|
                0 <= i < n ==> (picked.contains(i as usize) <==> {
                    ||| selection == UsageSelection::Both
                    ||| selection == UsageSelection::Local && (#[trigger] sources[i]).kind
                        == UsageSourceKind::LocalLog
                    ||| selection == UsageSelection::Api && sources[i].kind
                        == UsageSourceKind::ProviderApi
                })
            &&& forall|i: int| 0 <= i < picked.len() ==> #[trigger] picked[i] < n
            &&& forall|i: int, j: int|
                0 <= i < j < picked.len() ==> #[trigger] picked[i] < #[trigger] picked[j]
        }),
    decreases n,
{
    if n > 0 {
        sources_of_the_selected_kind_are_picked(sources, selection, n - 1);
        let front = picks(sources, selection, n - 1);
        let picked = picks(sources, selection, n);
        let last = (n - 1) as usize;
        if picked != front {
            assert(picked == front.push(last));
            assert(picked[front.len() as int] == last);
            assert forall|i: int|
                #![trigger sources[i]]
                0 <= i < n - 1 implies (picked.contains(i as usize) <==> front.contains(
                i as usize,
            )) by {
                if front.contains(i as usize) {
                    let k = choose|k: int| 0 <= k < front.len() && front[k] == i as usize;
                    assert(picked[k] == i as usize);
                }
            }
        }
        assert(front.contains(last) ==> false) by {
            if front.contains(last) {
                let k = choose|k: int| 0 <= k < front.len() && front[k] == last;
                assert(front[k] < n - 1);
            }
        }
    }
}

/// What is kept lives as long as the source that asks for the shortest time says, or for 300 seconds
/// where none says anything.
pub proof fn the_shortest_lifetime_counts(sources: Seq<UsageSource>, picked: Seq<usize>)
    requires
        forall|i: int| 0 <= i < picked.len() ==> #[trigger] picked[i] < sources.len(),
    ensures
        forall|i: int|
            0 <= i < picked.len() && sources[(#[trigger] picked[i]) as int].cache_ttl_s is Some
                ==> ttl_for(sources, picked) <= sources[picked[i] as int].cache_ttl_s->0,
        (exists|i: int|
            0 <= i < picked.len() && sources[(#[trigger] picked[i]) as int].cache_ttl_s == Some(
                ttl_for(sources, picked),
            )) || (ttl_for(sources, picked) == 300 && forall|i: int|
            0 <= i < picked.len() ==> sources[(#[trigger] picked[i]) as int].cache_ttl_s is None),
{
    lemma_shortest(sources, picked);
}

proof fn lemma_shortest(sources: Seq<UsageSource>, picked: Seq<usize>)
    ensures
        forall|i: int|
            0 <= i < picked.len() && sources[(#[trigger] picked[i]) as int].cache_ttl_s is Some
                ==> shortest_ttl(sources, picked) is Some && shortest_ttl(sources, picked)->0
                <= sources[picked[i] as int].cache_ttl_s->0,
        shortest_ttl(sources, picked) is Some ==> exists|i: int|
            0 <= i < picked.len() && sources[(#[trigger] picked[i]) as int].cache_ttl_s
                == shortest_ttl(sources, picked),
    decreases picked.len(),
{
    if picked.len() > 0 {
        let rest = picked.drop_last();
        lemma_shortest(sources, rest);
        assert forall|i: int| 0 <= i < rest.len() implies #[trigger] rest[i] == picked[i] by {}
        if shortest_ttl(sources, rest) is Some {
            let k = choose|k: int|
                0 <= k < rest.len() && sources[(#[trigger] rest[k]) as int].cache_ttl_s
                    == shortest_ttl(sources, rest);
            assert(picked[k] == rest[k]);
        }
        assert(picked[picked.len() - 1] == picked.last());
        assert forall|i: int|
            0 <= i < picked.len() && sources[(
            #[trigger] picked[i]) as int].cache_ttl_s is Some implies shortest_ttl(sources, picked)
            is Some && shortest_ttl(sources, picked)->0
            <= sources[picked[i] as int].cache_ttl_s->0 by {
            if i < rest.len() {
                assert(rest[i] == picked[i]);
            }
        }
    }
}

/// The provider is asked only for the account that is active; logs are always read. What is not read
/// is warned about, once for each, and so is that nothing is read at all.
pub proof fn the_provider_is_asked_for_the_active_account(
    sources: Seq<UsageSource>,
    picked: Seq<usize>,
    active: bool,
    warning: Seq<char>,
)
    ensures
        active ==> readable(sources, picked, active) == picked,
        forall|i: int|
            0 <= i < picked.len() ==> (readable(sources, picked, active).contains(
                #[trigger] picked[i],
            ) <==> active || sources[picked[i] as int].kind == UsageSourceKind::LocalLog),
        forall|i: int|
            0 <= i < readable(sources, picked, active).len() ==> picked.contains(
                #[trigger] readable(sources, picked, active)[i],
            ),
        readable(sources, picked, active).len() + skipped(sources, picked, active, warning).len()
            == picked.len(),
        forall|i: int|
            0 <= i < skipped(sources, picked, active, warning).len() ==> #[trigger] skipped(
                sources,
                picked,
                active,
                warning,
            )[i] == warning,
    decreases picked.len(),
{
    if picked.len() > 0 {
        let rest = picked.drop_last();
        let last = picked.last();
        the_provider_is_asked_for_the_active_account(sources, rest, active, warning);
        let front = readable(sources, rest, active);
        let all = readable(sources, picked, active);
        assert forall|i: int| 0 <= i < rest.len() implies #[trigger] rest[i] == picked[i] by {}
        assert(picked[picked.len() - 1] == last);
        let reads = active || sources[last as int].kind == UsageSourceKind::LocalLog;
        if reads {
            assert(all == front.push(last));
            assert(all[front.len() as int] == last);
        } else {
            assert(all == front);
        }
        if active {
            assert(all == picked);
        }
        assert forall|i: int| 0 <= i < picked.len() implies (all.contains(#[trigger] picked[i])
            <==> active || sources[picked[i] as int].kind == UsageSourceKind::LocalLog) by {
            if i < rest.len() {
                assert(front.contains(rest[i]) <==> active || sources[rest[i] as int].kind
                    == UsageSourceKind::LocalLog);
                if front.contains(rest[i]) {
                    let k = choose|k: int| 0 <= k < front.len() && front[k] == rest[i];
                    assert(all[k] == rest[i]);
                }
                if all.contains(rest[i]) && !front.contains(rest[i]) {
                    let k = choose|k: int| 0 <= k < all.len() && all[k] == rest[i];
                    assert(k == front.len());
                }
            } else if !reads && front.contains(last) {
                let k = choose|k: int| 0 <= k < front.len() && front[k] == last;
                assert(rest.contains(front[k]));
                let m = choose|m: int| 0 <= m < rest.len() && rest[m] == last;
                assert(front.contains(rest[m]));
            }
        }
        assert forall|i: int| 0 <= i < all.len() implies picked.contains(#[trigger] all[i]) by {
            if i < front.len() {
                assert(rest.contains(front[i]));
                let m = choose|m: int| 0 <= m < rest.len() && rest[m] == front[i];
                assert(picked[m] == all[i]);
            }
        }
    }
}

/// What is warned about when usage is planned: each source that is passed over, and that none is left.
pub proof fn passing_over_sources_is_warned_about(
    sources: Seq<UsageSource>,
    picked: Seq<usize>,
    active: bool,
    plugin: Seq<char>,
    alias: Seq<char>,
    selection: UsageSelection,
)
    ensures
        ({
            let warnings = plan_warnings(sources, picked, active, plugin, alias, selection);
            let read = readable(sources, picked, active).len() as int;
            let nothing: int = if read == 0 {
                1
            } else {
                0
            };
            &&& warnings.len() == picked.len() - read + nothing
            &&& forall|i: int|
                0 <= i < picked.len() - read ==> #[trigger] warnings[i]
                    == "skipped provider_api for inactive account "@ + plugin + "/"@ + alias
            &&& read == 0 ==> warnings.last() == "plugin "@ + plugin
                + " has no usable usage sources for "@ + selection_name(selection)
        }),
{
    the_provider_is_asked_for_the_active_account(
        sources,
        picked,
        active,
        "skipped provider_api for inactive account "@ + plugin + "/"@ + alias,
    );
}

// ---------------------------------------------------------------------------------------------
// Keeping
// ---------------------------------------------------------------------------------------------
/// Usage that is kept is too old once as many seconds have passed as it is kept for, and not before.
pub proof fn usage_is_too_old_after_its_lifetime(saved_at: Timestamp, ttl_s: u64, now: Timestamp)
    requires
        saved_at.nanos < 1_000_000_000,
        now.nanos < 1_000_000_000,
        0 < ttl_s <= i64::MAX,
    ensures
        outdated(saved_at, ttl_s, now) <==> (now.secs * 1_000_000_000 + now.nanos) - (saved_at.secs
            * 1_000_000_000 + saved_at.nanos) >= ttl_s * 1_000_000_000,
{
}

/// What is kept is used exactly where it is not to be read anew, there is something, and it is not too
/// old; it is then what was kept, in every part, but marked as kept.
pub proof fn what_is_kept_is_used_as_it_is(
    refresh: bool,
    ttl_s: u64,
    now: Timestamp,
    saved_at: Timestamp,
    snapshot: SnapshotView,
)
    ensures
        kept(refresh, ttl_s, now, None) is None,
        kept(refresh, ttl_s, now, Some((saved_at, snapshot))) is Some <==> !refresh && !outdated(
            saved_at,
            ttl_s,
            now,
        ),
        kept(refresh, ttl_s, now, Some((saved_at, snapshot))) matches Some(used) ==> {
            &&& used.cached
            &&& used.plugin_id == snapshot.plugin_id
            &&& used.alias == snapshot.alias
            &&& used.window == snapshot.window
            &&& used.source == snapshot.source
            &&& used.metrics == snapshot.metrics
            &&& used.local_metrics == snapshot.local_metrics
            &&& used.api_metrics == snapshot.api_metrics
            &&& used.quota == snapshot.quota
            &&& used.warnings == snapshot.warnings
            &&& used.sources == snapshot.sources
        },
{
}

/// Of two lifetimes the longer one is not shorter than either, and is one of them.
pub proof fn the_longer_lifetime_is_one_of_them(a: u64, b: u64)
    ensures
        longer(a, b) >= a,
        longer(a, b) >= b,
        longer(a, b) == a || longer(a, b) == b,
{
}

/// Clearing what is kept takes the directory of the named plugin alone, or all of them.
pub proof fn clearing_takes_what_is_named(
    entries: Seq<Seq<char>>,
    filter: Option<Seq<char>>,
    name: Seq<char>,
)
    ensures
        cleared(entries, filter).contains(name) <==> entries.contains(name) && (filter is None
            || filter == Some(name)),
        filter is None ==> cleared(entries, filter) == entries,
    decreases entries.len(),
{
    if entries.len() > 0 {
        let rest = entries.drop_last();
        let last = entries.last();
        clearing_takes_what_is_named(rest, filter, name);
        let front = cleared(rest, filter);
        let all = cleared(entries, filter);
        assert(entries[entries.len() - 1] == last);
        if all != front {
            assert(all[front.len() as int] == last);
        }
        if front.contains(name) {
            let k = choose|k: int| 0 <= k < front.len() && front[k] == name;
            assert(all[k] == name);
        }
        if rest.contains(name) {
            let k = choose|k: int| 0 <= k < rest.len() && rest[k] == name;
            assert(entries[k] == name);
        }
        if entries.contains(name) && name != last {
            let k = choose|k: int| 0 <= k < entries.len() && entries[k] == name;
            assert(rest[k] == name);
        }
        if all.contains(name) && name != last {
            let k = choose|k: int| 0 <= k < all.len() && all[k] == name;
            assert(front[k] == name);
        }
        if filter is None {
            assert(all == entries);
        }
    }
}

// ---------------------------------------------------------------------------------------------
// Records
// ---------------------------------------------------------------------------------------------
/// A record counts exactly where it has a time, at the place that the source names, that lies within
/// the window, and passes the filter of the source.
pub proof fn a_record_counts_by_its_time_and_the_filter(
    source: UsageSource,
    bounds: WindowBounds,
    record: JsonView,
)
    ensures
        counts(source, bounds, record) <==> {
            &&& source.timestamp_pointer is Some
            &&& at_pointer(record, source.timestamp_pointer->0@) is Some
            &&& time_of(at_pointer(record, source.timestamp_pointer->0@)->0) is Some
            &&& within(bounds, time_of(at_pointer(record, source.timestamp_pointer->0@)->0)->0)
            &&& source.record_filter is None || passes_filter(
                Some(source.record_filter->0@),
                record,
            )
        },
        !counts(source, bounds, record) ==> record_updates(source, bounds, record).len() == 0,
{
}

/// The time of a record is written as RFC 3339, or as a number of seconds, as a text or as a number.
pub proof fn a_time_is_a_text_or_a_number(value: JsonView)
    ensures
        value matches JsonView::Text(s) ==> (rfc3339_instant(s) is Some ==> time_of(value)
            == rfc3339_instant(s)),
        value matches JsonView::Number(n) ==> (n.signed is Some && second_of(n.signed->0) is Some
            ==> time_of(value) == Some(Timestamp { secs: n.signed->0, nanos: 0 })),
        value matches JsonView::Number(n) ==> (n.signed is None && n.whole is Some && second_of(
            n.whole->0,
        ) is Some ==> time_of(value) == Some(Timestamp { secs: n.whole->0, nanos: 0 })),
        value is Null || value is Bool || value is Array || value is Object ==> time_of(value)
            is None,
{
}

/// What a record adds to a metric: a number adds itself, a text the number that it writes, and nothing
/// else adds anything.
pub proof fn numbers_and_texts_are_amounts(value: JsonView)
    ensures
        value matches JsonView::Number(n) ==> amount_of(value) == (match n.bits {
            Some(bits) => Some(AmountView::Bits(bits)),
            None => None,
        }),
        value matches JsonView::Text(s) ==> amount_of(value) == Some(AmountView::Text(s)),
        value is Null || value is Bool || value is Array || value is Object ==> amount_of(value)
            is None,
{
}

/// A metric that is mapped to a filter with `$count_if:` gets one for a record that passes the filter,
/// and nothing for another.
pub proof fn a_conditional_count_counts_what_passes(filter: Seq<char>, record: JsonView)
    ensures
        update_for("$count_if:"@ + filter, record) == if passes_filter(Some(filter), record) {
            Some(AmountView::One)
        } else {
            None
        },
{
    reveal_strlit("$count_if:");
    reveal_strlit("$count");
    let expr = "$count_if:"@ + filter;
    assert(expr[6] == '_');
    assert("$count"@.len() == 6);
    assert(expr.len() >= 10);
    assert(expr.subrange(0, 10) =~= "$count_if:"@);
    assert(expr.subrange(10, expr.len() as int) =~= filter);
    assert(strip_prefix_of(expr, "$count_if:"@) == Some(filter));
}

/// What the provider answers is read at the places that the source names: a metric gets the amount at
/// its place, and the allowance holds the values at its places, each under its own name.
pub proof fn an_answer_is_read_at_its_places(
    items: Seq<(Seq<char>, Seq<char>)>,
    value: JsonView,
    i: int,
)
    requires
        strictly_sorted(items),
        0 <= i < items.len(),
    ensures
        at_pointer(value, items[i].1) is Some ==> values_at(items, value).contains_key(items[i].0)
            && values_at(items, value)[items[i].0] == at_pointer(value, items[i].1)->0,
        at_pointer(value, items[i].1) is None ==> !values_at(items, value).contains_key(items[i].0),
        amount_at(value, items[i].1) is Some ==> amounts_at(items, value).contains(
            UpdateView { name: items[i].0, amount: amount_at(value, items[i].1)->0 },
        ),
        amounts_at(items, value).len() <= items.len(),
    decreases items.len(),
{
    let rest = items.drop_last();
    let last = items.len() - 1;
    lemma_map_of(items);
    assert(strictly_sorted(rest)) by {
        assert forall|a: int, b: int| 0 <= a < b < rest.len() implies crate::text::text_lt(
            #[trigger] rest[a].0,
            #[trigger] rest[b].0,
        ) by {
            assert(crate::text::text_lt(items[a].0, items[b].0));
        }
    }
    lemma_amounts_len(rest, value);
    if i < last {
        an_answer_is_read_at_its_places(rest, value, i);
        assert(rest[i] == items[i]);
        assert(crate::text::text_lt(items[i].0, items[last].0));
        crate::text::lemma_text_lt_irreflexive(items[i].0);
        assert(items[i].0 != items[last].0);
        if amount_at(value, items[i].1) is Some {
            let update = UpdateView { name: items[i].0, amount: amount_at(value, items[i].1)->0 };
            let front = amounts_at(rest, value);
            let k = choose|k: int| 0 <= k < front.len() && front[k] == update;
            assert(amounts_at(items, value)[k] == update);
        }
    } else {
        lemma_no_value(rest, value, items[last].0);
        if amount_at(value, items[i].1) is Some {
            let front = amounts_at(rest, value);
            let update = UpdateView { name: items[i].0, amount: amount_at(value, items[i].1)->0 };
            assert(amounts_at(items, value)[front.len() as int] == update);
        }
        assert forall|k: int| 0 <= k < rest.len() implies (#[trigger] rest[k]).0 != items[last].0 by {
            assert(crate::text::text_lt(items[k].0, items[last].0));
            crate::text::lemma_text_lt_irreflexive(items[k].0);
        }
    }
}

proof fn lemma_amounts_len(items: Seq<(Seq<char>, Seq<char>)>, value: JsonView)
    ensures
        amounts_at(items, value).len() <= items.len(),
    decreases items.len(),
{
    if items.len() > 0 {
        lemma_amounts_len(items.drop_last(), value);
    }
}

proof fn lemma_no_value(items: Seq<(Seq<char>, Seq<char>)>, value: JsonView, name: Seq<char>)
    ensures
        (forall|k: int| 0 <= k < items.len() ==> (#[trigger] items[k]).0 != name) ==> !values_at(
            items,
            value,
        ).contains_key(name),
    decreases items.len(),
{
    if items.len() > 0 {
        let rest = items.drop_last();
        lemma_no_value(rest, value, name);
        if forall|k: int| 0 <= k < items.len() ==> (#[trigger] items[k]).0 != name {
            assert forall|k: int| 0 <= k < rest.len() implies (#[trigger] rest[k]).0 != name by {
                assert(rest[k] == items[k]);
            }
            assert(items[items.len() - 1].0 != name);
        }
    }
}

// ---------------------------------------------------------------------------------------------
// Filters
// ---------------------------------------------------------------------------------------------
/// Whether a record meets each of some conditions.
pub open spec fn meets_each(conditions: Seq<Seq<char>>, record: JsonView) -> bool {
    forall|j: int| 0 <= j < conditions.len() ==> meets(#[trigger] conditions[j], record)
}

/// A record passes a filter where it meets each condition of one of the alternatives.
pub proof fn a_filter_is_a_choice_of_conditions(filter: Seq<char>, record: JsonView)
    ensures
        passes_filter(None, record),
        passes_filter(Some(filter), record) <==> exists|i: int|
            0 <= i < parts_of(filter, "||"@).len() && meets_each(
                parts_of(#[trigger] parts_of(filter, "||"@)[i], "&&"@),
                record,
            ),
{
    let alternatives = parts_of(filter, "||"@);
    lemma_meets_any(alternatives, 0, record);
    assert forall|i: int| 0 <= i < alternatives.len() implies (meets_all(
        parts_of(#[trigger] alternatives[i], "&&"@),
        0,
        record,
    ) <==> meets_each(parts_of(alternatives[i], "&&"@), record)) by {
        lemma_meets_all(parts_of(alternatives[i], "&&"@), 0, record);
    }
}

proof fn lemma_meets_all(conditions: Seq<Seq<char>>, i: int, record: JsonView)
    requires
        0 <= i,
    ensures
        meets_all(conditions, i, record) <==> forall|j: int|
            i <= j < conditions.len() ==> meets(#[trigger] conditions[j], record),
    decreases conditions.len() - i,
{
    if i < conditions.len() {
        lemma_meets_all(conditions, i + 1, record);
        if meets_all(conditions, i, record) {
            assert forall|j: int| i <= j < conditions.len() implies meets(
                #[trigger] conditions[j],
                record,
            ) by {}
        }
    }
}

proof fn lemma_meets_any(alternatives: Seq<Seq<char>>, i: int, record: JsonView)
    requires
        0 <= i,
    ensures
        meets_any(alternatives, i, record) <==> exists|j: int|
            i <= j < alternatives.len() && meets_all(
                parts_of(#[trigger] alternatives[j], "&&"@),
                0,
                record,
            ),
    decreases alternatives.len() - i,
{
    if i < alternatives.len() {
        lemma_meets_any(alternatives, i + 1, record);
    }
}

/// A condition with `==` holds where the value of the record equals the literal, one with `!=` where it
/// does not, an empty one always, and any other where the value that it names is true. A value that is
/// not there counts as null.
pub proof fn a_condition_compares_a_value_with_a_literal(condition: Seq<char>, record: JsonView)
    ensures
        ({
            let s = trim_of(condition);
            let same = sides_of(s, "=="@);
            let other = sides_of(s, "!="@);
            &&& s.len() == 0 ==> meets(condition, record)
            &&& s.len() > 0 && same is Some ==> (meets(condition, record) <==> equals(
                value_at(record, (same->0).0),
                literal_of((same->0).1),
            ))
            &&& s.len() > 0 && same is None && other is Some ==> (meets(condition, record)
                <==> !equals(value_at(record, (other->0).0), literal_of((other->0).1)))
            &&& s.len() > 0 && same is None && other is None ==> (meets(condition, record)
                <==> at_pointer(record, s) == Some(JsonView::Bool(true)))
        }),
        at_pointer(record, condition) is None ==> value_at(record, condition) is Null,
        at_pointer(record, condition) is Some ==> value_at(record, condition) == at_pointer(
            record,
            condition,
        )->0,
{
}

/// Values of different kinds are never equal; texts, words and null are equal where they are the same,
/// and numbers where their bits are, but for the two zeros, which are equal, and for what is no number,
/// which equals nothing.
pub proof fn only_values_of_one_kind_are_equal(
    a: Seq<char>,
    b: Seq<char>,
    p: bool,
    q: bool,
    left: JsonView,
)
    ensures
        equals(JsonView::Text(a), LiteralView::Text(b)) <==> a == b,
        equals(JsonView::Bool(p), LiteralView::Bool(q)) <==> p == q,
        equals(JsonView::Null, LiteralView::Null),
        !(left is Text) ==> !equals(left, LiteralView::Text(b)),
        !(left is Bool) ==> !equals(left, LiteralView::Bool(q)),
        !(left is Null) ==> !equals(left, LiteralView::Null),
        left is Array || left is Object ==> forall|l: LiteralView| !#[trigger] equals(left, l),
{
}

// ---------------------------------------------------------------------------------------------
// Templates
// ---------------------------------------------------------------------------------------------
/// The fields of an account have their own names, and so have the ends of the window.
pub proof fn placeholders_have_their_values(t: TemplateView)
    ensures
        t.identity.email is Some ==> account_text(t.identity, "email"@) == t.identity.email->0,
        t.identity.org_name is Some ==> account_text(t.identity, "org_name"@)
            == t.identity.org_name->0,
        t.identity.plan is Some ==> account_text(t.identity, "plan"@) == t.identity.plan->0,
        t.bounds.from is Some && crate::time::rfc3339_of(
            t.bounds.from->0.secs,
            t.bounds.from->0.nanos,
        ) is Some ==> Some(placeholder_value("window:from"@, t)) == crate::time::rfc3339_of(
            t.bounds.from->0.secs,
            t.bounds.from->0.nanos,
        ),
        t.bounds.to is Some && crate::time::rfc3339_of(
            t.bounds.to->0.secs,
            t.bounds.to->0.nanos,
        ) is Some ==> Some(placeholder_value("window:to"@, t)) == crate::time::rfc3339_of(
            t.bounds.to->0.secs,
            t.bounds.to->0.nanos,
        ),
        t.bounds.from is Some && crate::time::date_of(
            t.bounds.from->0.secs,
            t.bounds.from->0.nanos,
        ) is Some ==> Some(placeholder_value("window:from_date"@, t)) == crate::time::date_of(
            t.bounds.from->0.secs,
            t.bounds.from->0.nanos,
        ),
        t.bounds.to is Some && crate::time::date_of(
            t.bounds.to->0.secs,
            t.bounds.to->0.nanos,
        ) is Some ==> Some(placeholder_value("window:to_date"@, t)) == crate::time::date_of(
            t.bounds.to->0.secs,
            t.bounds.to->0.nanos,
        ),
        t.bounds.from is None ==> placeholder_value("window:from"@, t).len() == 0
            && placeholder_value("window:from_date"@, t).len() == 0,
        t.bounds.to is None ==> placeholder_value("window:to"@, t).len() == 0 && placeholder_value(
            "window:to_date"@,
            t,
        ).len() == 0,
{
    reveal_strlit("email");
    reveal_strlit("org_name");
    reveal_strlit("plan");
    reveal_strlit("window:from");
    reveal_strlit("window:to");
    reveal_strlit("window:from_date");
    reveal_strlit("window:to_date");
    reveal_strlit("cred:");
    reveal_strlit("cred_jwt:");
    reveal_strlit("");
    assert("email"@.len() == 5 && "org_name"@.len() == 8 && "plan"@.len() == 4);
    assert("window:from"@.len() == 11 && "window:to"@.len() == 9);
    assert("window:from_date"@.len() == 16 && "window:to_date"@.len() == 14);
    assert("window:from"@[0] == 'w' && "window:to"@[0] == 'w');
    assert("window:from_date"@[0] == 'w' && "window:to_date"@[0] == 'w');
    assert("cred:"@[0] == 'c' && "cred_jwt:"@[0] == 'c');
    lemma_other_start("window:from"@, "cred:"@);
    lemma_other_start("window:to"@, "cred:"@);
    lemma_other_start("window:from_date"@, "cred:"@);
    lemma_other_start("window:to_date"@, "cred:"@);
    lemma_other_start("window:from"@, "cred_jwt:"@);
    lemma_other_start("window:to"@, "cred_jwt:"@);
    lemma_other_start("window:from_date"@, "cred_jwt:"@);
    lemma_other_start("window:to_date"@, "cred_jwt:"@);
}

proof fn lemma_other_start(s: Seq<char>, prefix: Seq<char>)
    requires
        s.len() > 0,
        prefix.len() > 0,
        s[0] != prefix[0],
    ensures
        strip_prefix_of(s, prefix) is None,
{
    if s.len() >= prefix.len() {
        assert(s.subrange(0, prefix.len() as int)[0] == s[0]);
    }
}

// ---------------------------------------------------------------------------------------------
// Putting usage together
// ---------------------------------------------------------------------------------------------
/// The usage of an account is what its logs tell of, where one of them tells of any, and else what its
/// provider tells of. Each of the two is told on its own where it tells of any.
pub proof fn logs_go_before_the_provider(
    plugin_id: Seq<char>,
    alias: Seq<char>,
    window: UsageWindow,
    selection: UsageSelection,
    warnings: Seq<Seq<char>>,
    collected: Seq<CollectedView>,
    local: MetricsView,
    api: MetricsView,
)
    ensures
        ({
            let usage = assembled(
                plugin_id,
                alias,
                window,
                selection,
                warnings,
                collected,
                local,
                api,
            );
            let from_logs = exists|i: int|
                0 <= i < collected.len() && (#[trigger] collected[i]).local
                    && collected[i].summary.metrics != no_metrics();
            let from_provider = exists|i: int|
                0 <= i < collected.len() && !(#[trigger] collected[i]).local
                    && collected[i].summary.metrics != no_metrics();
            &&& usage.plugin_id == plugin_id
            &&& usage.alias == alias
            &&& usage.window == window
            &&& usage.source == selection
            &&& usage.warnings == warnings
            &&& !usage.cached
            &&& usage.metrics == if from_logs {
                local
            } else {
                api
            }
            &&& usage.local_metrics == if from_logs {
                Some(local)
            } else {
                None
            }
            &&& usage.api_metrics == if from_provider {
                Some(api)
            } else {
                None
            }
            &&& usage.sources.len() == collected.len()
            &&& forall|i: int|
                0 <= i < collected.len() ==> #[trigger] usage.sources[i] == collected[i].summary
        }),
{
}

/// The allowance is what the provider says: of what several answers say under one name, the last one
/// counts, and what logs say does not.
pub proof fn the_last_answer_on_the_allowance_counts(
    collected: Seq<CollectedView>,
    i: int,
    name: Seq<char>,
)
    requires
        0 <= i < collected.len(),
        !collected[i].local,
        collected[i].summary.quota.contains_key(name),
        forall|j: int|
            i < j < collected.len() && !(#[trigger] collected[j]).local
                ==> !collected[j].summary.quota.contains_key(name),
    ensures
        quota_of(collected).contains_key(name),
        quota_of(collected)[name] == collected[i].summary.quota[name],
    decreases collected.len(),
{
    let rest = collected.drop_last();
    if i < rest.len() {
        assert forall|j: int| i < j < rest.len() && !(#[trigger] rest[j]).local implies !rest[
            j
        ].summary.quota.contains_key(name) by {
            assert(rest[j] == collected[j]);
        }
        the_last_answer_on_the_allowance_counts(rest, i, name);
        assert(collected[collected.len() - 1] == collected.last());
    }
}

/// A metric has its own place, and what is set there changes no other.
pub proof fn a_metric_has_its_own_place(metrics: MetricsView, bits: u64, other: Seq<char>)
    ensures
        with_metric(metrics, "requests"@, bits).requests == Some(bits),
        with_metric(metrics, "tokens_in"@, bits).tokens_in == Some(bits),
        with_metric(metrics, "tokens_out"@, bits).tokens_out == Some(bits),
        with_metric(metrics, "cost_usd"@, bits).cost_usd == Some(bits),
        metric_in(metrics, "requests"@) == metrics.requests,
        metric_in(metrics, "tokens_in"@) == metrics.tokens_in,
        metric_in(metrics, "tokens_out"@) == metrics.tokens_out,
        metric_in(metrics, "cost_usd"@) == metrics.cost_usd,
        other != "requests"@ && other != "tokens_in"@ && other != "tokens_out"@ && other
            != "cost_usd"@ ==> with_metric(metrics, other, bits).extra == metrics.extra.insert(
            other,
            bits,
        ),
        other != "requests"@ ==> with_metric(metrics, other, bits).requests == metrics.requests,
        other != "tokens_in"@ ==> with_metric(metrics, other, bits).tokens_in == metrics.tokens_in,
        other != "tokens_out"@ ==> with_metric(metrics, other, bits).tokens_out
            == metrics.tokens_out,
        other != "cost_usd"@ ==> with_metric(metrics, other, bits).cost_usd == metrics.cost_usd,
{
    reveal_strlit("requests");
    reveal_strlit("tokens_in");
    reveal_strlit("tokens_out");
    reveal_strlit("cost_usd");
    assert("requests"@.len() == 8 && "tokens_in"@.len() == 9 && "tokens_out"@.len() == 10);
    assert("cost_usd"@.len() == 8 && "cost_usd"@[0] == 'c' && "requests"@[0] == 'r');
}

/// A window fits where the calendar covers its beginning, and that of a day where it covers its end.
pub proof fn a_window_fits_where_the_calendar_covers_it(now: Timestamp)
    requires
        in_calendar(now),
        now.nanos < 1_000_000_000,
    ensures
        window_fits(UsageWindow::Last24h, now) <==> -8_334_601_228_800 <= now.secs - 86_400,
        window_fits(UsageWindow::Last7d, now) <==> -8_334_601_228_800 <= now.secs - 7 * 86_400,
        window_fits(UsageWindow::Last30d, now) <==> -8_334_601_228_800 <= now.secs - 30 * 86_400,
        window_fits(UsageWindow::Today, now) <==> now.secs - now.secs as int % 86_400 + 86_400
            <= 8_210_266_876_799,
        window_fits(UsageWindow::CurrentMonth, now),
        window_fits(UsageWindow::All, now),
{
}

} // verus!
