//! What is left of an allowance, from the service itself, from its program, and from its logs; and how
//! long an answer is kept.
use vstd::prelude::*;

use crate::claude::{
    CLAUDE_USAGE_URL, Product, log_hint_of, oauth_text, plugin_id_of, session_hint_of,
    usage_command_of,
};
use crate::codex::{CODEX_PLUGIN_ID, CODEX_USAGE_URL};
use crate::gemini::{CODE_ASSIST_ENDPOINT, GEMINI_PLUGIN_ID};
use crate::json::{Json, JsonView, json_of_bytes, parse_bytes};
use crate::path::{join_path, joined};
use crate::paths::AswitchPaths;
use crate::quota::{filled, inner_field};
use crate::text::{
    append_all, ascii_lower, contains, has_part, is_in, join2, join3, lower_of, push_line, same,
};
use crate::text_map::{Duplicate, TextMap, map_of, sorted_items};
use crate::time::{Timestamp, nanos_between, span};
use crate::usage::snapshot::{
    SnapshotView, SummaryView, UsageMetrics, UsageSnapshot, UsageSourceSummary, has_kind, no_metrics,
};

verus! {

pub const CODEX_LOCAL_LOG_HINT: &'static str = "~/.codex/sessions/**/*.jsonl";

// ---------------------------------------------------------------------------------------------
// Whom to ask
// ---------------------------------------------------------------------------------------------
/// A service that can be asked what is left of an allowance.
#[derive(Clone, Copy, Debug, PartialEq, Eq, Structural)]
pub enum Provider {
    Gemini,
    Codex,
    Claude,
}

/// The service that the accounts of a plugin belong to, where it can be asked. The id of the plugin
/// of the assistant is made of its word.
pub open spec fn provider_of(word: Seq<char>, plugin_id: Seq<char>) -> Option<Provider> {
    if plugin_id == GEMINI_PLUGIN_ID@ {
        Some(Provider::Gemini)
    } else if plugin_id == CODEX_PLUGIN_ID@ {
        Some(Provider::Codex)
    } else if plugin_id == plugin_id_of(word) {
        Some(Provider::Claude)
    } else {
        None
    }
}

/// The service that the accounts of a plugin belong to, where it can be asked.
pub fn find_provider(product: &Product, plugin_id: &str) -> (r: Option<Provider>)
    ensures
        r == provider_of(product.word@, plugin_id@),
{
    if same(plugin_id, GEMINI_PLUGIN_ID) {
        Some(Provider::Gemini)
    } else if same(plugin_id, CODEX_PLUGIN_ID) {
        Some(Provider::Codex)
    } else if same(plugin_id, product.plugin_id().as_str()) {
        Some(Provider::Claude)
    } else {
        None
    }
}

// ---------------------------------------------------------------------------------------------
// Keeping an answer
// ---------------------------------------------------------------------------------------------
pub const LIVE_CACHE_FRESH_SECS: u64 = 60;

pub const LIVE_CACHE_RATE_LIMITED_SECS: u64 = 300;

pub const LIVE_CACHE_FILE: &'static str = "live_quota.json";

/// What was asked of a service, and for how long it is kept.
pub struct LiveCache {
    pub saved_at: Timestamp,
    pub ttl_s: u64,
    pub quota: TextMap<Json>,
    pub sources: Vec<UsageSourceSummary>,
    pub warnings: Vec<String>,
}

/// The file that the answer for an account is kept in.
pub fn live_cache_path(paths: &AswitchPaths, plugin_id: &str, alias: &str) -> (r: String)
    ensures
        r@ == joined(
            joined(joined(paths.usage_cache_dir@, plugin_id@), alias@),
            LIVE_CACHE_FILE@,
        ),
{
    join_path(
        join_path(
            join_path(paths.usage_cache_dir.as_str(), plugin_id).as_str(),
            alias,
        ).as_str(),
        LIVE_CACHE_FILE,
    )
}

/// Whether an answer is still kept: it is not from the future, and fewer whole seconds have passed than
/// it is kept for.
pub open spec fn still_kept(saved_at: Timestamp, ttl_s: u64, now: Timestamp) -> bool {
    let n = span(saved_at, now);
    n > -1_000_000_000 && (n < 0 && ttl_s > 0 || n >= 0 && n / 1_000_000_000 < ttl_s)
}

/// Whether an answer is still kept.
pub fn live_cache_is_fresh(saved_at: Timestamp, ttl_s: u64, now: Timestamp) -> (r: bool)
    ensures
        r == still_kept(saved_at, ttl_s, now),
{
    let n: i128 = nanos_between(saved_at, now);
    if n <= -1_000_000_000 {
        false
    } else if n < 0 {
        ttl_s > 0
    } else {
        n / 1_000_000_000 < ttl_s as i128
    }
}

/// A usage with an answer that was kept.
pub open spec fn with_cache(
    snapshot: SnapshotView,
    quota: Map<Seq<char>, JsonView>,
    sources: Seq<SummaryView>,
    warnings: Seq<Seq<char>>,
) -> SnapshotView {
    SnapshotView {
        quota: snapshot.quota.union_prefer_right(quota),
        sources: snapshot.sources + sources,
        warnings: snapshot.warnings + warnings,
        ..snapshot
    }
}

fn append_sources(a: &mut Vec<UsageSourceSummary>, b: &Vec<UsageSourceSummary>)
    ensures
        final(a).deep_view() == old(a).deep_view() + b.deep_view(),
{
    let ghost before = a.deep_view();
    let ghost more = b.deep_view();
    let mut i: usize = 0;
    assert(before + more.take(0) == before);
    while i < b.len()
        invariant
            i <= b@.len(),
            more == b.deep_view(),
            a.deep_view() == before + more.take(i as int),
        decreases b@.len() - i,
    {
        let ghost prev = a.deep_view();
        a.push(b[i].duplicate());
        assert(a.deep_view() == prev.push(more[i as int]));
        assert(more.take(i + 1) == more.take(i as int).push(more[i as int]));
        i = i + 1;
    }
    assert(more.take(more.len() as int) == more);
}

/// Takes up an answer that was kept.
pub fn apply_live_cache(snapshot: &mut UsageSnapshot, cache: &LiveCache)
    ensures
        final(snapshot).deep_view() == with_cache(
            old(snapshot).deep_view(),
            cache.quota.deep_view(),
            cache.sources.deep_view(),
            cache.warnings.deep_view(),
        ),
{
    snapshot.quota.extend(&cache.quota);
    append_sources(&mut snapshot.sources, &cache.sources);
    append_all(&mut snapshot.warnings, &cache.warnings);
}

/// How far a usage had come before a service was asked.
pub struct SnapshotMarks {
    pub sources_len: usize,
    pub warnings_len: usize,
    pub quota_keys: Vec<String>,
}

/// How far a usage has come.
pub fn mark_snapshot(snapshot: &UsageSnapshot) -> (r: SnapshotMarks)
    ensures
        r.sources_len == snapshot.deep_view().sources.len(),
        r.warnings_len == snapshot.deep_view().warnings.len(),
        r.quota_keys.deep_view() == sorted_items(snapshot.deep_view().quota).map_values(
            |e: (Seq<char>, JsonView)| e.0,
        ),
{
    SnapshotMarks {
        sources_len: snapshot.sources.len(),
        warnings_len: snapshot.warnings.len(),
        quota_keys: snapshot.quota.keys(),
    }
}

/// The part of a list from a place on.
pub open spec fn from_place<T>(s: Seq<T>, n: int) -> Seq<T> {
    if n <= s.len() {
        s.subrange(n, s.len() as int)
    } else {
        seq![]
    }
}

/// Whether a warning speaks of a rate.
pub open spec fn speaks_of_rate(warnings: Seq<Seq<char>>) -> bool {
    exists|i: int| 0 <= i < warnings.len() && has_part(lower_of(#[trigger] warnings[i]), "rate"@)
}

fn mentions_rate(warnings: &Vec<String>) -> (r: bool)
    ensures
        r == speaks_of_rate(warnings.deep_view()),
{
    let ghost all = warnings.deep_view();
    let mut i: usize = 0;
    while i < warnings.len()
        invariant
            i <= warnings@.len(),
            all == warnings.deep_view(),
            forall|k: int| 0 <= k < i ==> !has_part(lower_of(#[trigger] all[k]), "rate"@),
        decreases warnings@.len() - i,
    {
        assert(all[i as int] == warnings@[i as int]@);
        if contains(ascii_lower(warnings[i].as_str()).as_str(), "rate") {
            return true;
        }
        i = i + 1;
    }
    false
}

/// The entries with other keys.
pub open spec fn new_entries(quota: Map<Seq<char>, JsonView>, keys: Seq<Seq<char>>) -> Map<
    Seq<char>,
    JsonView,
> {
    quota.restrict(Set::new(|k: Seq<char>| !keys.contains(k)))
}

fn entries_since(quota: &TextMap<Json>, keys: &Vec<String>) -> (r: TextMap<Json>)
    ensures
        r.deep_view() == new_entries(quota.deep_view(), keys.deep_view()),
{
    let ghost old_keys = keys.deep_view();
    let n = quota.len();
    let ghost items = quota.items();
    let mut out: TextMap<Json> = TextMap::new();
    let mut i: usize = 0;
    assert(out.deep_view() =~= new_entries(map_of(items.take(0)), old_keys));
    while i < n
        invariant
            i <= n,
            n == items.len(),
            items == quota.items(),
            old_keys == keys.deep_view(),
            out.deep_view() == new_entries(map_of(items.take(i as int)), old_keys),
        decreases n - i,
    {
        assert(items.take(i + 1).drop_last() == items.take(i as int));
        if !is_in(keys, quota.key_at(i).as_str()) {
            out.insert(quota.key_at(i).clone(), quota.value_at(i).duplicate());
        }
        assert(out.deep_view() =~= new_entries(map_of(items.take(i + 1)), old_keys));
        i = i + 1;
    }
    assert(items.take(n as int) == items);
    out
}

/// What to keep of what a service was asked; nothing where there is nothing new.
pub fn live_cache_since(snapshot: &UsageSnapshot, before: &SnapshotMarks, now: Timestamp) -> (r: Option<
    LiveCache,
>)
    ensures
        ({
            let s = snapshot.deep_view();
            let quota = new_entries(s.quota, before.quota_keys.deep_view());
            let sources = from_place(s.sources, before.sources_len as int);
            let warnings = from_place(s.warnings, before.warnings_len as int);
            match r {
                None => quota == Map::<Seq<char>, JsonView>::empty() && sources.len() == 0
                    && warnings.len() == 0,
                Some(cache) => {
                    &&& !(quota == Map::<Seq<char>, JsonView>::empty() && sources.len() == 0
                        && warnings.len() == 0)
                    &&& cache.saved_at == now
                    &&& cache.ttl_s == (if speaks_of_rate(warnings) {
                        LIVE_CACHE_RATE_LIMITED_SECS
                    } else {
                        LIVE_CACHE_FRESH_SECS
                    })
                    &&& cache.quota.deep_view() == quota
                    &&& cache.sources.deep_view() == sources
                    &&& cache.warnings.deep_view() == warnings
                },
            }
        }),
{
    let ghost s = snapshot.deep_view();
    let quota = entries_since(&snapshot.quota, &before.quota_keys);
    let mut sources: Vec<UsageSourceSummary> = Vec::new();
    let mut i: usize = before.sources_len;
    let ghost from = before.sources_len as int;
    if i <= snapshot.sources.len() {
        assert(sources.deep_view() == s.sources.subrange(from, i as int));
    }
    while i < snapshot.sources.len()
        invariant
            s == snapshot.deep_view(),
            from == before.sources_len,
            from <= i,
            from <= s.sources.len() ==> i <= snapshot.sources@.len() && sources.deep_view()
                == s.sources.subrange(from, i as int),
            from > s.sources.len() ==> sources@.len() == 0,
        decreases snapshot.sources@.len() - i,
    {
        let ghost prev = sources.deep_view();
        sources.push(snapshot.sources[i].duplicate());
        assert(sources.deep_view() == prev.push(s.sources[i as int]));
        assert(s.sources.subrange(from, i + 1) == s.sources.subrange(from, i as int).push(
            s.sources[i as int],
        ));
        i = i + 1;
    }
    assert(sources.deep_view() == from_place(s.sources, from));
    let mut warnings: Vec<String> = Vec::new();
    let mut k: usize = before.warnings_len;
    let ghost start = before.warnings_len as int;
    if k <= snapshot.warnings.len() {
        assert(warnings.deep_view() == s.warnings.subrange(start, k as int));
    }
    while k < snapshot.warnings.len()
        invariant
            s == snapshot.deep_view(),
            start == before.warnings_len,
            start <= k,
            start <= s.warnings.len() ==> k <= snapshot.warnings@.len() && warnings.deep_view()
                == s.warnings.subrange(start, k as int),
            start > s.warnings.len() ==> warnings@.len() == 0,
        decreases snapshot.warnings@.len() - k,
    {
        push_line(&mut warnings, snapshot.warnings[k].clone());
        assert(s.warnings.subrange(start, k + 1) == s.warnings.subrange(start, k as int).push(
            s.warnings[k as int],
        ));
        k = k + 1;
    }
    assert(warnings.deep_view() == from_place(s.warnings, start));
    if quota.is_empty() && sources.len() == 0 && warnings.len() == 0 {
        return None;
    }
    let ttl_s: u64 = if mentions_rate(&warnings) {
        LIVE_CACHE_RATE_LIMITED_SECS
    } else {
        LIVE_CACHE_FRESH_SECS
    };
    Some(LiveCache { saved_at: now, ttl_s, quota, sources, warnings })
}

// ---------------------------------------------------------------------------------------------
// Taking up an answer
// ---------------------------------------------------------------------------------------------
/// A usage with what a source says of the allowance, where it says something.
pub open spec fn with_quota_source(
    snapshot: SnapshotView,
    kind: Seq<char>,
    path_or_url: Seq<char>,
    quota: Map<Seq<char>, JsonView>,
) -> SnapshotView {
    if quota == Map::<Seq<char>, JsonView>::empty() {
        snapshot
    } else {
        SnapshotView {
            quota: snapshot.quota.union_prefer_right(quota),
            sources: snapshot.sources.push(
                SummaryView {
                    kind,
                    path_or_url: Some(path_or_url),
                    metrics: no_metrics(),
                    quota,
                    warnings: seq![],
                },
            ),
            ..snapshot
        }
    }
}

/// Takes up what a source says of the allowance.
pub fn apply_quota_source(
    snapshot: &mut UsageSnapshot,
    kind: &str,
    path_or_url: &str,
    quota: TextMap<Json>,
)
    ensures
        final(snapshot).deep_view() == with_quota_source(
            old(snapshot).deep_view(),
            kind@,
            path_or_url@,
            quota.deep_view(),
        ),
{
    if quota.is_empty() {
        return;
    }
    snapshot.quota.extend(&quota);
    let ghost before = snapshot.sources.deep_view();
    let warnings: Vec<String> = Vec::new();
    assert(warnings.deep_view() == Seq::<Seq<char>>::empty());
    let summary = UsageSourceSummary {
        kind: kind.to_owned(),
        path_or_url: Some(path_or_url.to_owned()),
        metrics: UsageMetrics::none(),
        quota,
        warnings,
    };
    let ghost v = summary.deep_view();
    snapshot.sources.push(summary);
    assert(snapshot.sources.deep_view() == before.push(v));
}

/// A usage with one more warning.
pub open spec fn with_warning(snapshot: SnapshotView, warning: Seq<char>) -> SnapshotView {
    SnapshotView { warnings: snapshot.warnings.push(warning), ..snapshot }
}

fn warn(snapshot: &mut UsageSnapshot, warning: String)
    ensures
        final(snapshot).deep_view() == with_warning(old(snapshot).deep_view(), warning@),
{
    push_line(&mut snapshot.warnings, warning);
}

/// A usage with the warning that was kept back, where nothing is known of the allowance.
pub open spec fn with_last_warning(snapshot: SnapshotView, warning: Option<Seq<char>>) -> SnapshotView {
    match warning {
        Some(w) => if snapshot.quota == Map::<Seq<char>, JsonView>::empty() {
            with_warning(snapshot, w)
        } else {
            snapshot
        },
        None => snapshot,
    }
}

/// Gives the warning that was kept back, where nothing is known of the allowance.
pub fn finish_probe(snapshot: &mut UsageSnapshot, warning: Option<String>)
    ensures
        final(snapshot).deep_view() == with_last_warning(
            old(snapshot).deep_view(),
            warning.deep_view(),
        ),
{
    match warning {
        Some(w) => if snapshot.quota.is_empty() {
            warn(snapshot, w);
        },
        None => {},
    }
}

/// What came of asking a service: the saved credential could not be read, the service did not say, or
/// what it said.
pub enum ApiOutcome {
    NoCredential { message: String },
    Failed { rate_limited: bool, message: String },
    Quota(TextMap<Json>),
}

/// The warning that is kept back after a service was asked.
pub open spec fn api_warning(name: Seq<char>, outcome: ApiOutcome) -> Option<Seq<char>> {
    match outcome {
        ApiOutcome::NoCredential { message } => Some(
            "failed to load saved "@ + name + " credentials: "@ + message@,
        ),
        ApiOutcome::Failed { message, .. } => Some(
            "failed to fetch live "@ + name + " quota: "@ + message@,
        ),
        ApiOutcome::Quota(_) => None,
    }
}

/// A usage after a service was asked.
pub open spec fn after_api(
    snapshot: SnapshotView,
    kind: Seq<char>,
    url: Seq<char>,
    outcome: ApiOutcome,
) -> SnapshotView {
    match outcome {
        ApiOutcome::Quota(quota) => with_quota_source(snapshot, kind, url, quota.deep_view()),
        _ => snapshot,
    }
}

fn take_api_outcome(
    snapshot: &mut UsageSnapshot,
    name: &str,
    kind: &str,
    url: &str,
    outcome: ApiOutcome,
) -> (r: Option<String>)
    ensures
        final(snapshot).deep_view() == after_api(old(snapshot).deep_view(), kind@, url@, outcome),
        r.deep_view() == api_warning(name@, outcome),
{
    match outcome {
        ApiOutcome::NoCredential { message } => Some(
            join3(
                join2("failed to load saved ", name).as_str(),
                " credentials: ",
                message.as_str(),
            ),
        ),
        ApiOutcome::Failed { message, .. } => Some(
            join3(join2("failed to fetch live ", name).as_str(), " quota: ", message.as_str()),
        ),
        ApiOutcome::Quota(quota) => {
            apply_quota_source(snapshot, kind, url, quota);
            None
        },
    }
}

// ---------------------------------------------------------------------------------------------
// The assistant with sessions
// ---------------------------------------------------------------------------------------------
/// The sources of what is left of an allowance of the assistant with sessions, in the order in which they are asked.
#[derive(Clone, Copy, Debug, PartialEq, Eq, Structural)]
pub enum ClaudeSource {
    Api,
    Cli,
    Hint,
    Session,
}

pub open spec fn claude_kind(source: ClaudeSource) -> Seq<char> {
    match source {
        ClaudeSource::Api => "claude_api"@,
        ClaudeSource::Cli => "claude_cli"@,
        ClaudeSource::Hint => "claude_local_hint"@,
        ClaudeSource::Session => "claude_local_session"@,
    }
}

pub open spec fn claude_place(word: Seq<char>, source: ClaudeSource) -> Seq<char> {
    match source {
        ClaudeSource::Api => CLAUDE_USAGE_URL@,
        ClaudeSource::Cli => usage_command_of(word),
        ClaudeSource::Hint => log_hint_of(word),
        ClaudeSource::Session => session_hint_of(word),
    }
}

/// Whether one of the sources has been asked already.
pub fn claude_was_asked(snapshot: &UsageSnapshot) -> (r: bool)
    ensures
        r == exists|source: ClaudeSource|
            has_kind(snapshot.deep_view().sources, #[trigger] claude_kind(source)),
{
    let ghost sources = snapshot.deep_view().sources;
    let api = snapshot.has_source_kind("claude_api");
    let cli = snapshot.has_source_kind("claude_cli");
    let hint = snapshot.has_source_kind("claude_local_hint");
    let session = snapshot.has_source_kind("claude_local_session");
    assert(claude_kind(ClaudeSource::Api) == "claude_api"@);
    assert(claude_kind(ClaudeSource::Cli) == "claude_cli"@);
    assert(claude_kind(ClaudeSource::Hint) == "claude_local_hint"@);
    assert(claude_kind(ClaudeSource::Session) == "claude_local_session"@);
    api || cli || hint || session
}

/// Takes up what the service said, and keeps a warning back.
pub fn take_claude_api(product: &Product, snapshot: &mut UsageSnapshot, outcome: ApiOutcome) -> (r:
    Option<String>)
    ensures
        final(snapshot).deep_view() == after_api(
            old(snapshot).deep_view(),
            claude_kind(ClaudeSource::Api),
            claude_place(product.word@, ClaudeSource::Api),
            outcome,
        ),
        r.deep_view() == api_warning(product.title@, outcome),
{
    take_api_outcome(snapshot, product.title.as_str(), "claude_api", CLAUDE_USAGE_URL, outcome)
}

/// Which source is asked after one: none where something is known of the allowance or where the account
/// is not in effect. The program asks the service too, so it is left out where that refused for now.
pub open spec fn claude_next(
    after: ClaudeSource,
    quota_known: bool,
    is_effective: bool,
    rate_limited: bool,
) -> Option<ClaudeSource> {
    if quota_known || !is_effective {
        None
    } else {
        match after {
            ClaudeSource::Api => if rate_limited {
                Some(ClaudeSource::Hint)
            } else {
                Some(ClaudeSource::Cli)
            },
            ClaudeSource::Cli => Some(ClaudeSource::Hint),
            ClaudeSource::Hint => Some(ClaudeSource::Session),
            ClaudeSource::Session => None,
        }
    }
}

/// Which source is asked after one.
pub fn next_claude_source(
    snapshot: &UsageSnapshot,
    after: ClaudeSource,
    is_effective: bool,
    rate_limited: bool,
) -> (r: Option<ClaudeSource>)
    ensures
        r == claude_next(
            after,
            snapshot.deep_view().quota != Map::<Seq<char>, JsonView>::empty(),
            is_effective,
            rate_limited,
        ),
{
    if !snapshot.quota.is_empty() || !is_effective {
        None
    } else {
        match after {
            ClaudeSource::Api => if rate_limited {
                Some(ClaudeSource::Hint)
            } else {
                Some(ClaudeSource::Cli)
            },
            ClaudeSource::Cli => Some(ClaudeSource::Hint),
            ClaudeSource::Hint => Some(ClaudeSource::Session),
            ClaudeSource::Session => None,
        }
    }
}

/// Takes up what a source other than the service said, if it said something.
pub fn take_claude_source(
    product: &Product,
    snapshot: &mut UsageSnapshot,
    source: ClaudeSource,
    quota: Option<TextMap<Json>>,
)
    ensures
        final(snapshot).deep_view() == match quota.deep_view() {
            Some(q) => with_quota_source(
                old(snapshot).deep_view(),
                claude_kind(source),
                claude_place(product.word@, source),
                q,
            ),
            None => old(snapshot).deep_view(),
        },
{
    match quota {
        Some(q) => match source {
            ClaudeSource::Api => apply_quota_source(snapshot, "claude_api", CLAUDE_USAGE_URL, q),
            ClaudeSource::Cli => apply_quota_source(
                snapshot,
                "claude_cli",
                product.usage_command().as_str(),
                q,
            ),
            ClaudeSource::Hint => apply_quota_source(
                snapshot,
                "claude_local_hint",
                product.log_hint().as_str(),
                q,
            ),
            ClaudeSource::Session => apply_quota_source(
                snapshot,
                "claude_local_session",
                product.session_hint().as_str(),
                q,
            ),
        },
        None => {},
    }
}

/// The plan that a saved credential names.
pub open spec fn plan_in(credential: JsonView) -> Option<Seq<char>> {
    match oauth_text(credential, "subscriptionType"@) {
        Some(p) => Some(p),
        None => oauth_text(credential, "rateLimitTier"@),
    }
}

/// The plan that a saved credential names.
pub fn claude_plan_from_credentials(bytes: &[u8]) -> (r: Option<String>)
    ensures
        r.deep_view() == (match json_of_bytes(bytes@) {
            Ok(credential) => plan_in(credential),
            Err(_) => None,
        }),
{
    match parse_bytes(bytes) {
        Ok(credential) => match filled(
            inner_field(&credential, "claudeAiOauth", "subscriptionType"),
        ) {
            Some(p) => Some(p),
            None => filled(inner_field(&credential, "claudeAiOauth", "rateLimitTier")),
        },
        Err(_) => None,
    }
}

// ---------------------------------------------------------------------------------------------
// Codex
// ---------------------------------------------------------------------------------------------
/// Whether the service or the logs have been asked already.
pub fn codex_was_asked(snapshot: &UsageSnapshot) -> (r: bool)
    ensures
        r == (has_kind(snapshot.deep_view().sources, "codex_api"@) || has_kind(
            snapshot.deep_view().sources,
            "codex_local_log"@,
        )),
{
    snapshot.has_source_kind("codex_api") || snapshot.has_source_kind("codex_local_log")
}

/// Takes up what the service said, and keeps a warning back.
pub fn take_codex_api(snapshot: &mut UsageSnapshot, outcome: ApiOutcome) -> (r: Option<String>)
    ensures
        final(snapshot).deep_view() == after_api(
            old(snapshot).deep_view(),
            "codex_api"@,
            CODEX_USAGE_URL@,
            outcome,
        ),
        r.deep_view() == api_warning("Codex"@, outcome),
{
    take_api_outcome(snapshot, "Codex", "codex_api", CODEX_USAGE_URL, outcome)
}

/// Whether the logs are asked: where nothing is known of the allowance and the account is in effect.
pub fn codex_logs_are_asked(snapshot: &UsageSnapshot, is_effective: bool) -> (r: bool)
    ensures
        r == (snapshot.deep_view().quota == Map::<Seq<char>, JsonView>::empty() && is_effective),
{
    snapshot.quota.is_empty() && is_effective
}

/// Takes up what the logs say, if they say something.
pub fn take_codex_logs(snapshot: &mut UsageSnapshot, quota: Option<TextMap<Json>>)
    ensures
        final(snapshot).deep_view() == match quota.deep_view() {
            Some(q) => with_quota_source(
                old(snapshot).deep_view(),
                "codex_local_log"@,
                CODEX_LOCAL_LOG_HINT@,
                q,
            ),
            None => old(snapshot).deep_view(),
        },
{
    match quota {
        Some(q) => apply_quota_source(snapshot, "codex_local_log", CODEX_LOCAL_LOG_HINT, q),
        None => {},
    }
}

// ---------------------------------------------------------------------------------------------
// Gemini
// ---------------------------------------------------------------------------------------------
/// Whether the service has been asked already.
pub fn gemini_was_asked(snapshot: &UsageSnapshot) -> (r: bool)
    ensures
        r == has_kind(snapshot.deep_view().sources, "gemini_api"@),
{
    snapshot.has_source_kind("gemini_api")
}

/// What came of asking the service with a saved credential: it could not be read, the service did not
/// say, the account has no project, or what the service said.
pub enum GeminiOutcome {
    NoCredential { message: String },
    Failed { message: String },
    NoProject,
    Quota(TextMap<Json>),
}

/// A usage after the service was asked with a saved credential, and why the account that is logged in
/// is asked for instead: it is where the saved one fails and is in effect.
pub open spec fn after_gemini(snapshot: SnapshotView, outcome: GeminiOutcome, is_effective: bool) -> (
    SnapshotView,
    Option<Seq<char>>,
) {
    match outcome {
        GeminiOutcome::NoCredential { message } => if is_effective {
            (snapshot, Some(message@))
        } else {
            (
                with_warning(snapshot, "failed to load saved Gemini credentials: "@ + message@),
                None,
            )
        },
        GeminiOutcome::Failed { message } => if is_effective {
            (snapshot, Some(message@))
        } else {
            (with_warning(snapshot, "failed to fetch live Gemini quota: "@ + message@), None)
        },
        GeminiOutcome::NoProject => (
            with_warning(
                snapshot,
                "Gemini quota is unavailable because the saved Gemini account has no project id"@,
            ),
            None,
        ),
        GeminiOutcome::Quota(quota) => (
            with_quota_source(snapshot, "gemini_api"@, CODE_ASSIST_ENDPOINT@, quota.deep_view()),
            None,
        ),
    }
}

/// Takes up what the service said to a saved credential; returns why the account that is logged in is
/// asked for instead.
pub fn take_gemini_outcome(
    snapshot: &mut UsageSnapshot,
    outcome: GeminiOutcome,
    is_effective: bool,
) -> (r: Option<String>)
    ensures
        after_gemini(old(snapshot).deep_view(), outcome, is_effective) == (
            final(snapshot).deep_view(),
            r.deep_view(),
        ),
{
    match outcome {
        GeminiOutcome::NoCredential { message } => if is_effective {
            Some(message)
        } else {
            warn(
                snapshot,
                join2("failed to load saved Gemini credentials: ", message.as_str()),
            );
            None
        },
        GeminiOutcome::Failed { message } => if is_effective {
            Some(message)
        } else {
            warn(snapshot, join2("failed to fetch live Gemini quota: ", message.as_str()));
            None
        },
        GeminiOutcome::NoProject => {
            warn(
                snapshot,
                "Gemini quota is unavailable because the saved Gemini account has no project id".to_owned(),
            );
            None
        },
        GeminiOutcome::Quota(quota) => {
            apply_quota_source(snapshot, "gemini_api", CODE_ASSIST_ENDPOINT, quota);
            None
        },
    }
}

/// What came of asking the service with the credential of the account that is logged in.
pub enum CurrentGemini {
    Quota(TextMap<Json>),
    Unavailable,
    Failed { message: String },
}

/// A usage after the service was asked with the credential of the account that is logged in.
pub open spec fn after_current_gemini(
    snapshot: SnapshotView,
    cause: Seq<char>,
    outcome: CurrentGemini,
) -> SnapshotView {
    match outcome {
        CurrentGemini::Quota(quota) => with_quota_source(
            snapshot,
            "gemini_api"@,
            CODE_ASSIST_ENDPOINT@,
            quota.deep_view(),
        ),
        CurrentGemini::Unavailable => with_warning(
            snapshot,
            "failed to fetch live Gemini quota from saved credentials: "@ + cause
                + "; current Gemini credentials are unavailable"@,
        ),
        CurrentGemini::Failed { message } => with_warning(
            snapshot,
            "failed to fetch live Gemini quota from saved credentials: "@ + cause
                + "; current Gemini quota probe also failed: "@ + message@,
        ),
    }
}

/// Takes up what the service said to the credential of the account that is logged in. `cause` is why
/// the saved one was of no use.
pub fn take_current_gemini(snapshot: &mut UsageSnapshot, cause: &str, outcome: CurrentGemini)
    ensures
        final(snapshot).deep_view() == after_current_gemini(
            old(snapshot).deep_view(),
            cause@,
            outcome,
        ),
{
    match outcome {
        CurrentGemini::Quota(quota) => {
            apply_quota_source(snapshot, "gemini_api", CODE_ASSIST_ENDPOINT, quota);
        },
        CurrentGemini::Unavailable => {
            warn(
                snapshot,
                join3(
                    "failed to fetch live Gemini quota from saved credentials: ",
                    cause,
                    "; current Gemini credentials are unavailable",
                ),
            );
        },
        CurrentGemini::Failed { message } => {
            warn(
                snapshot,
                join2(
                    join3(
                        "failed to fetch live Gemini quota from saved credentials: ",
                        cause,
                        "; current Gemini quota probe also failed: ",
                    ).as_str(),
                    message.as_str(),
                ),
            );
        },
    }
}

/// What a source says of the allowance is what the usage says from then on; what it does not speak of
/// stays.
pub proof fn a_source_has_the_last_word(
    snapshot: SnapshotView,
    kind: Seq<char>,
    path_or_url: Seq<char>,
    quota: Map<Seq<char>, JsonView>,
    key: Seq<char>,
)
    ensures
        ({
            let after = with_quota_source(snapshot, kind, path_or_url, quota).quota;
            &&& quota.contains_key(key) ==> after.contains_key(key) && after[key] == quota[key]
            &&& !quota.contains_key(key) ==> (after.contains_key(key)
                <==> snapshot.quota.contains_key(key))
            &&& !quota.contains_key(key) && snapshot.quota.contains_key(key) ==> after[key]
                == snapshot.quota[key]
        }),
{
}

} // verus!
