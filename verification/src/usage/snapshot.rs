//! The usage of an account, put together from what its sources say.
use vstd::prelude::*;

use super::{UsagePlan, UsageSelection, UsageWindow, kept, outdated};
use crate::json::{Json, JsonView};
use crate::plugin::UsageSource;
use crate::text::{copy_all, copy_opt, same};
use crate::text_map::{Duplicate, TextMap};
use crate::time::Timestamp;

verus! {

/// What was used, each as the bits of a double precision number.
pub struct UsageMetrics {
    pub requests: Option<u64>,
    pub tokens_in: Option<u64>,
    pub tokens_out: Option<u64>,
    pub cost_usd: Option<u64>,
    pub extra: TextMap<u64>,
}

pub struct MetricsView {
    pub requests: Option<u64>,
    pub tokens_in: Option<u64>,
    pub tokens_out: Option<u64>,
    pub cost_usd: Option<u64>,
    pub extra: Map<Seq<char>, u64>,
}

impl DeepView for UsageMetrics {
    type V = MetricsView;

    open spec fn deep_view(&self) -> MetricsView {
        MetricsView {
            requests: self.requests,
            tokens_in: self.tokens_in,
            tokens_out: self.tokens_out,
            cost_usd: self.cost_usd,
            extra: self.extra.deep_view(),
        }
    }
}

impl Duplicate for UsageMetrics {
    fn duplicate(&self) -> (r: Self) {
        UsageMetrics {
            requests: self.requests,
            tokens_in: self.tokens_in,
            tokens_out: self.tokens_out,
            cost_usd: self.cost_usd,
            extra: self.extra.duplicate(),
        }
    }
}

/// Nothing used, as far as is known.
pub open spec fn no_metrics() -> MetricsView {
    MetricsView {
        requests: None,
        tokens_in: None,
        tokens_out: None,
        cost_usd: None,
        extra: Map::empty(),
    }
}

impl UsageMetrics {
    /// Nothing used, as far as is known.
    pub fn none() -> (r: Self)
        ensures
            r.deep_view() == no_metrics(),
    {
        UsageMetrics {
            requests: None,
            tokens_in: None,
            tokens_out: None,
            cost_usd: None,
            extra: TextMap::new(),
        }
    }

    /// Whether nothing is known to be used.
    pub fn is_empty(&self) -> (r: bool)
        ensures
            r == (self.deep_view() == no_metrics()),
    {
        self.requests.is_none() && self.tokens_in.is_none() && self.tokens_out.is_none()
            && self.cost_usd.is_none() && self.extra.is_empty()
    }

    /// What is known of the metric `name`.
    pub fn metric(&self, name: &str) -> (r: Option<u64>)
        ensures
            r == metric_in(self.deep_view(), name@),
    {
        if same(name, "requests") {
            self.requests
        } else if same(name, "tokens_in") {
            self.tokens_in
        } else if same(name, "tokens_out") {
            self.tokens_out
        } else if same(name, "cost_usd") {
            self.cost_usd
        } else {
            match self.extra.get(name) {
                Some(bits) => Some(*bits),
                None => None,
            }
        }
    }

    /// Makes `bits` what is known of the metric `name`.
    pub fn set_metric(&mut self, name: &str, bits: u64)
        ensures
            final(self).deep_view() == with_metric(old(self).deep_view(), name@, bits),
    {
        if same(name, "requests") {
            self.requests = Some(bits);
        } else if same(name, "tokens_in") {
            self.tokens_in = Some(bits);
        } else if same(name, "tokens_out") {
            self.tokens_out = Some(bits);
        } else if same(name, "cost_usd") {
            self.cost_usd = Some(bits);
        } else {
            self.extra.insert(name.to_owned(), bits);
        }
    }
}

/// What is known of a metric. Four of them have places of their own.
pub open spec fn metric_in(metrics: MetricsView, name: Seq<char>) -> Option<u64> {
    if name == "requests"@ {
        metrics.requests
    } else if name == "tokens_in"@ {
        metrics.tokens_in
    } else if name == "tokens_out"@ {
        metrics.tokens_out
    } else if name == "cost_usd"@ {
        metrics.cost_usd
    } else if metrics.extra.contains_key(name) {
        Some(metrics.extra[name])
    } else {
        None
    }
}

/// The metrics with something else known of one.
pub open spec fn with_metric(metrics: MetricsView, name: Seq<char>, bits: u64) -> MetricsView {
    if name == "requests"@ {
        MetricsView { requests: Some(bits), ..metrics }
    } else if name == "tokens_in"@ {
        MetricsView { tokens_in: Some(bits), ..metrics }
    } else if name == "tokens_out"@ {
        MetricsView { tokens_out: Some(bits), ..metrics }
    } else if name == "cost_usd"@ {
        MetricsView { cost_usd: Some(bits), ..metrics }
    } else {
        MetricsView { extra: metrics.extra.insert(name, bits), ..metrics }
    }
}

/// A metric that was set is read back, and the others are what they were.
pub proof fn a_metric_is_read_back(metrics: MetricsView, name: Seq<char>, bits: u64)
    ensures
        metric_in(with_metric(metrics, name, bits), name) == Some(bits),
        forall|other: Seq<char>|
            other != name ==> #[trigger] metric_in(with_metric(metrics, name, bits), other)
                == metric_in(metrics, other),
{
    reveal_strlit("requests");
    reveal_strlit("tokens_in");
    reveal_strlit("tokens_out");
    reveal_strlit("cost_usd");
}

/// What one source says.
pub struct UsageSourceSummary {
    pub kind: String,
    pub path_or_url: Option<String>,
    pub metrics: UsageMetrics,
    pub quota: TextMap<Json>,
    pub warnings: Vec<String>,
}

pub struct SummaryView {
    pub kind: Seq<char>,
    pub path_or_url: Option<Seq<char>>,
    pub metrics: MetricsView,
    pub quota: Map<Seq<char>, JsonView>,
    pub warnings: Seq<Seq<char>>,
}

impl DeepView for UsageSourceSummary {
    type V = SummaryView;

    open spec fn deep_view(&self) -> SummaryView {
        SummaryView {
            kind: self.kind@,
            path_or_url: self.path_or_url.deep_view(),
            metrics: self.metrics.deep_view(),
            quota: self.quota.deep_view(),
            warnings: self.warnings.deep_view(),
        }
    }
}

impl Duplicate for UsageSourceSummary {
    fn duplicate(&self) -> (r: Self) {
        UsageSourceSummary {
            kind: self.kind.clone(),
            path_or_url: copy_opt(&self.path_or_url),
            metrics: self.metrics.duplicate(),
            quota: self.quota.duplicate(),
            warnings: copy_all(&self.warnings),
        }
    }
}

/// What the files of a source say. It is known by its path, as the manifest writes it.
pub fn local_summary(source: &UsageSource, metrics: UsageMetrics, warnings: Vec<String>) -> (r:
    UsageSourceSummary)
    ensures
        r.deep_view() == (SummaryView {
            kind: "local_log"@,
            path_or_url: Some(
                match source.path {
                    Some(path) => path@,
                    None => ""@,
                },
            ),
            metrics: metrics.deep_view(),
            quota: Map::empty(),
            warnings: warnings.deep_view(),
        }),
{
    let path: String = match &source.path {
        Some(path) => path.clone(),
        None => "".to_owned(),
    };
    UsageSourceSummary {
        kind: "local_log".to_owned(),
        path_or_url: Some(path),
        metrics,
        quota: TextMap::new(),
        warnings,
    }
}

/// What a provider says. It is known by the address that was asked.
pub fn api_summary(url: String, metrics: UsageMetrics, quota: TextMap<Json>) -> (r:
    UsageSourceSummary)
    ensures
        r.deep_view() == (SummaryView {
            kind: "provider_api"@,
            path_or_url: Some(url@),
            metrics: metrics.deep_view(),
            quota: quota.deep_view(),
            warnings: Seq::empty(),
        }),
{
    let warnings: Vec<String> = Vec::new();
    assert(warnings.deep_view() == Seq::<Seq<char>>::empty());
    UsageSourceSummary {
        kind: "provider_api".to_owned(),
        path_or_url: Some(url),
        metrics,
        quota,
        warnings,
    }
}

/// The usage of an account.
pub struct UsageSnapshot {
    pub plugin_id: String,
    pub alias: String,
    pub window: UsageWindow,
    pub source: UsageSelection,
    pub metrics: UsageMetrics,
    pub local_metrics: Option<UsageMetrics>,
    pub api_metrics: Option<UsageMetrics>,
    pub quota: TextMap<Json>,
    pub warnings: Vec<String>,
    pub sources: Vec<UsageSourceSummary>,
    pub cached: bool,
}

pub struct SnapshotView {
    pub plugin_id: Seq<char>,
    pub alias: Seq<char>,
    pub window: UsageWindow,
    pub source: UsageSelection,
    pub metrics: MetricsView,
    pub local_metrics: Option<MetricsView>,
    pub api_metrics: Option<MetricsView>,
    pub quota: Map<Seq<char>, JsonView>,
    pub warnings: Seq<Seq<char>>,
    pub sources: Seq<SummaryView>,
    pub cached: bool,
}

impl DeepView for UsageSnapshot {
    type V = SnapshotView;

    open spec fn deep_view(&self) -> SnapshotView {
        SnapshotView {
            plugin_id: self.plugin_id@,
            alias: self.alias@,
            window: self.window,
            source: self.source,
            metrics: self.metrics.deep_view(),
            local_metrics: self.local_metrics.deep_view(),
            api_metrics: self.api_metrics.deep_view(),
            quota: self.quota.deep_view(),
            warnings: self.warnings.deep_view(),
            sources: self.sources.deep_view(),
            cached: self.cached,
        }
    }
}

impl Duplicate for UsageSnapshot {
    fn duplicate(&self) -> (r: Self) {
        UsageSnapshot {
            plugin_id: self.plugin_id.clone(),
            alias: self.alias.clone(),
            window: self.window,
            source: self.source,
            metrics: self.metrics.duplicate(),
            local_metrics: self.local_metrics.duplicate(),
            api_metrics: self.api_metrics.duplicate(),
            quota: self.quota.duplicate(),
            warnings: copy_all(&self.warnings),
            sources: self.sources.duplicate(),
            cached: self.cached,
        }
    }
}

/// What a source said, and whether it is a log or the provider.
pub struct Collected {
    pub local: bool,
    pub summary: UsageSourceSummary,
}

pub struct CollectedView {
    pub local: bool,
    pub summary: SummaryView,
}

impl DeepView for Collected {
    type V = CollectedView;

    open spec fn deep_view(&self) -> CollectedView {
        CollectedView { local: self.local, summary: self.summary.deep_view() }
    }
}

/// Whether one of the logs, or of the answers of the provider, tells of usage.
pub open spec fn any_usage(collected: Seq<CollectedView>, local: bool) -> bool {
    exists|i: int|
        0 <= i < collected.len() && (#[trigger] collected[i]).local == local
            && collected[i].summary.metrics != no_metrics()
}

fn tells_of_usage(collected: &Vec<Collected>, local: bool) -> (r: bool)
    ensures
        r == any_usage(collected.deep_view(), local),
{
    let ghost all = collected.deep_view();
    let mut i: usize = 0;
    while i < collected.len()
        invariant
            i <= collected@.len(),
            all == collected.deep_view(),
            forall|k: int|
                0 <= k < i ==> !((#[trigger] all[k]).local == local && all[k].summary.metrics
                    != no_metrics()),
        decreases collected@.len() - i,
    {
        assert(all[i as int] == collected@[i as int].deep_view());
        if collected[i].local == local && !collected[i].summary.metrics.is_empty() {
            return true;
        }
        i = i + 1;
    }
    false
}

/// What the provider said of the allowance; a later answer goes before an earlier one.
pub open spec fn quota_of(collected: Seq<CollectedView>) -> Map<Seq<char>, JsonView>
    decreases collected.len(),
{
    if collected.len() == 0 {
        Map::empty()
    } else if collected.last().local {
        quota_of(collected.drop_last())
    } else {
        quota_of(collected.drop_last()).union_prefer_right(collected.last().summary.quota)
    }
}

pub open spec fn summaries_of(collected: Seq<CollectedView>) -> Seq<SummaryView> {
    collected.map_values(|c: CollectedView| c.summary)
}

/// The usage of an account, put together from what its sources said. `local` and `api` are what the
/// logs and what the provider tell of, added up.
pub open spec fn assembled(
    plugin_id: Seq<char>,
    alias: Seq<char>,
    window: UsageWindow,
    selection: UsageSelection,
    warnings: Seq<Seq<char>>,
    collected: Seq<CollectedView>,
    local: MetricsView,
    api: MetricsView,
) -> SnapshotView {
    SnapshotView {
        plugin_id,
        alias,
        window,
        source: selection,
        metrics: if any_usage(collected, true) {
            local
        } else {
            api
        },
        local_metrics: if any_usage(collected, true) {
            Some(local)
        } else {
            None
        },
        api_metrics: if any_usage(collected, false) {
            Some(api)
        } else {
            None
        },
        quota: quota_of(collected),
        warnings,
        sources: summaries_of(collected),
        cached: false,
    }
}

/// Usage that is put together anew is not marked as kept. Read again while it is not too old, it is
/// the same usage, now marked as kept; asked to be read anew, or read when nothing is kept, it is put
/// together again.
pub proof fn a_second_read_is_the_first_one_kept(
    plugin_id: Seq<char>,
    alias: Seq<char>,
    window: UsageWindow,
    selection: UsageSelection,
    warnings: Seq<Seq<char>>,
    collected: Seq<CollectedView>,
    local: MetricsView,
    api: MetricsView,
    saved_at: Timestamp,
    ttl_s: u64,
    now: Timestamp,
)
    requires
        !outdated(saved_at, ttl_s, now),
    ensures
        ({
            let first = assembled(
                plugin_id,
                alias,
                window,
                selection,
                warnings,
                collected,
                local,
                api,
            );
            &&& kept(false, ttl_s, saved_at, None) is None
            &&& !first.cached
            &&& kept(false, ttl_s, now, Some((saved_at, first))) == Some(
                SnapshotView { cached: true, ..first },
            )
            &&& kept(true, ttl_s, now, Some((saved_at, first))) is None
        }),
{
}

/// The usage of an account, put together from what its sources said.
pub fn assemble_usage(
    plugin_id: &str,
    alias: &str,
    plan: &UsagePlan,
    collected: &Vec<Collected>,
    local: &UsageMetrics,
    api: &UsageMetrics,
) -> (r: UsageSnapshot)
    ensures
        r.deep_view() == assembled(
            plugin_id@,
            alias@,
            plan.window,
            plan.selection,
            plan.warnings.deep_view(),
            collected.deep_view(),
            local.deep_view(),
            api.deep_view(),
        ),
{
    let ghost all = collected.deep_view();
    let mut quota: TextMap<Json> = TextMap::new();
    let mut sources: Vec<UsageSourceSummary> = Vec::new();
    let mut i: usize = 0;
    assert(sources.deep_view() == summaries_of(all).take(0));
    while i < collected.len()
        invariant
            i <= collected@.len(),
            all == collected.deep_view(),
            quota.deep_view() == quota_of(all.take(i as int)),
            sources.deep_view() == summaries_of(all).take(i as int),
        decreases collected@.len() - i,
    {
        assert(all.take(i + 1).drop_last() == all.take(i as int));
        assert(all[i as int] == collected@[i as int].deep_view());
        let ghost before = sources.deep_view();
        if !collected[i].local {
            quota.extend(&collected[i].summary.quota);
        }
        sources.push(collected[i].summary.duplicate());
        assert(sources.deep_view() == before.push(summaries_of(all)[i as int]));
        assert(summaries_of(all).take(i + 1) == summaries_of(all).take(i as int).push(
            summaries_of(all)[i as int],
        ));
        i = i + 1;
    }
    assert(all.take(all.len() as int) == all);
    assert(summaries_of(all).take(all.len() as int) == summaries_of(all));
    let local_any = tells_of_usage(collected, true);
    let api_any = tells_of_usage(collected, false);
    UsageSnapshot {
        plugin_id: plugin_id.to_owned(),
        alias: alias.to_owned(),
        window: plan.window,
        source: plan.selection,
        metrics: if local_any {
            local.duplicate()
        } else {
            api.duplicate()
        },
        local_metrics: if local_any {
            Some(local.duplicate())
        } else {
            None
        },
        api_metrics: if api_any {
            Some(api.duplicate())
        } else {
            None
        },
        quota,
        warnings: copy_all(&plan.warnings),
        sources,
        cached: false,
    }
}

/// Whether a source of a kind has been asked.
pub open spec fn has_kind(sources: Seq<SummaryView>, kind: Seq<char>) -> bool {
    exists|i: int| 0 <= i < sources.len() && (#[trigger] sources[i]).kind == kind
}

impl UsageSnapshot {
    /// Whether a source of a kind has been asked.
    pub fn has_source_kind(&self, kind: &str) -> (r: bool)
        ensures
            r == has_kind(self.deep_view().sources, kind@),
    {
        let ghost all = self.sources.deep_view();
        let mut i: usize = 0;
        while i < self.sources.len()
            invariant
                i <= self.sources@.len(),
                all == self.sources.deep_view(),
                forall|k: int| 0 <= k < i ==> (#[trigger] all[k]).kind != kind@,
            decreases self.sources@.len() - i,
        {
            assert(all[i as int] == self.sources@[i as int].deep_view());
            if same(self.sources[i].kind.as_str(), kind) {
                return true;
            }
            i = i + 1;
        }
        false
    }
}

} // verus!
