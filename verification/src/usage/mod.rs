//! Reading how much of an account was used.
use vstd::prelude::*;

use self::snapshot::{SnapshotView, UsageSnapshot};
use crate::identity::{Identity, IdentityView};
use crate::path::{join_path, joined};
use crate::paths::{AswitchPaths, PathsError};
use crate::plugin::catalog::ManifestLoadError;
use crate::plugin::{Manifest, UsageSource, UsageSourceKind};
use crate::registry::{
    AccountMetadata, Registry, RegistryError, account_of, active_alias, has_account,
};
use crate::store::{StoreError, StoreResolveError};
use crate::text::{copy_opt, decimal, decimal_of, join2, join3, same};
use crate::text_map::TextMap;
use crate::time::{
    FIRST_SECOND, LAST_SECOND, Timestamp, earlier, in_calendar, month_start, month_start_of,
    nanos_between, shift, shifted, shifted_secs, span, year_and_month, year_month_of,
};

pub mod filter;
pub mod records;
pub mod snapshot;
pub mod template;

verus! {

/// The stretch of time that usage is read for.
#[derive(Clone, Copy, Debug, PartialEq, Eq, Structural)]
pub enum UsageWindow {
    Today,
    Last24h,
    Last7d,
    CurrentMonth,
    Last30d,
    All,
}

/// Which sources usage is read from.
#[derive(Clone, Copy, Debug, PartialEq, Eq, Structural)]
pub enum UsageSelection {
    Local,
    Api,
    Both,
}

/// The ends of a stretch of time: from `from` on, and before `to`.
#[derive(Clone, Copy)]
pub struct WindowBounds {
    pub from: Option<Timestamp>,
    pub to: Option<Timestamp>,
}

/// What usage is asked for.
#[derive(Clone, Copy)]
pub struct CollectUsageOptions {
    pub window: Option<UsageWindow>,
    pub source: Option<UsageSelection>,
    pub refresh: bool,
}

/// Why usage could not be read.
pub enum UsageError {
    Paths(PathsError),
    Registry(RegistryError),
    Manifest(ManifestLoadError),
    StoreResolve(StoreResolveError),
    Store(StoreError),
    AccountNotFound { plugin_id: String, alias: String },
    PluginNotFound { plugin_id: String, path: String },
    InvalidWindow(String),
    InvalidGlobPattern { pattern: String, message: String },
    ReadFile { path: String },
    ParseJson { path: String, message: String },
    HttpRequest { url: String, message: String },
    WriteCache { path: String },
    CreateDirectory { path: String },
    RemovePath { path: String },
}

impl UsageError {
    pub open spec fn text(&self) -> Seq<char> {
        match *self {
            UsageError::Paths(_) => "failed to resolve aswitch paths"@,
            UsageError::Registry(_) => "failed to load or save registry"@,
            UsageError::Manifest(_) => "failed to load plugin manifest"@,
            UsageError::StoreResolve(_) => "failed to resolve credential store"@,
            UsageError::Store(_) => "credential store operation failed"@,
            UsageError::AccountNotFound { plugin_id, alias } => "account "@ + plugin_id@ + "/"@
                + alias@ + " does not exist"@,
            UsageError::PluginNotFound { plugin_id, path } => "plugin "@ + plugin_id@
                + " manifest not found at "@ + path@,
            UsageError::InvalidWindow(window) => "invalid usage window "@ + window@,
            UsageError::InvalidGlobPattern { pattern, message } => "invalid glob pattern "@
                + pattern@ + ": "@ + message@,
            UsageError::ReadFile { path } => "failed to read usage input "@ + path@,
            UsageError::ParseJson { path, message } => "failed to parse usage json from "@ + path@
                + ": "@ + message@,
            UsageError::HttpRequest { url, message } => "http request failed for "@ + url@ + ": "@
                + message@,
            UsageError::WriteCache { path } => "failed to write cache file "@ + path@,
            UsageError::CreateDirectory { path } => "failed to create cache directory "@ + path@,
            UsageError::RemovePath { path } => "failed to remove cache path "@ + path@,
        }
    }

    /// The error in words.
    pub fn message(&self) -> (r: String)
        ensures
            r@ == self.text(),
    {
        match self {
            UsageError::Paths(_) => "failed to resolve aswitch paths".to_owned(),
            UsageError::Registry(_) => "failed to load or save registry".to_owned(),
            UsageError::Manifest(_) => "failed to load plugin manifest".to_owned(),
            UsageError::StoreResolve(_) => "failed to resolve credential store".to_owned(),
            UsageError::Store(_) => "credential store operation failed".to_owned(),
            UsageError::AccountNotFound { plugin_id, alias } => {
                let mut out = join3("account ", plugin_id.as_str(), "/");
                out.append(alias.as_str());
                out.append(" does not exist");
                out
            },
            UsageError::PluginNotFound { plugin_id, path } => {
                let mut out = join3("plugin ", plugin_id.as_str(), " manifest not found at ");
                out.append(path.as_str());
                out
            },
            UsageError::InvalidWindow(window) => join2("invalid usage window ", window.as_str()),
            UsageError::InvalidGlobPattern { pattern, message } => {
                let mut out = join3("invalid glob pattern ", pattern.as_str(), ": ");
                out.append(message.as_str());
                out
            },
            UsageError::ReadFile { path } => join2("failed to read usage input ", path.as_str()),
            UsageError::ParseJson { path, message } => {
                let mut out = join3("failed to parse usage json from ", path.as_str(), ": ");
                out.append(message.as_str());
                out
            },
            UsageError::HttpRequest { url, message } => {
                let mut out = join3("http request failed for ", url.as_str(), ": ");
                out.append(message.as_str());
                out
            },
            UsageError::WriteCache { path } => join2("failed to write cache file ", path.as_str()),
            UsageError::CreateDirectory { path } => join2(
                "failed to create cache directory ",
                path.as_str(),
            ),
            UsageError::RemovePath { path } => join2("failed to remove cache path ", path.as_str()),
        }
    }
}

// ---------------------------------------------------------------------------------------------
// Names
// ---------------------------------------------------------------------------------------------
pub open spec fn window_name(w: UsageWindow) -> Seq<char> {
    match w {
        UsageWindow::Today => "today"@,
        UsageWindow::Last24h => "last_24h"@,
        UsageWindow::Last7d => "last_7d"@,
        UsageWindow::CurrentMonth => "current_month"@,
        UsageWindow::Last30d => "last_30d"@,
        UsageWindow::All => "all"@,
    }
}

pub open spec fn window_named(s: Seq<char>) -> Option<UsageWindow> {
    if s == "today"@ {
        Some(UsageWindow::Today)
    } else if s == "last_24h"@ {
        Some(UsageWindow::Last24h)
    } else if s == "last_7d"@ {
        Some(UsageWindow::Last7d)
    } else if s == "current_month"@ {
        Some(UsageWindow::CurrentMonth)
    } else if s == "last_30d"@ {
        Some(UsageWindow::Last30d)
    } else if s == "all"@ {
        Some(UsageWindow::All)
    } else {
        None
    }
}

pub open spec fn selection_name(s: UsageSelection) -> Seq<char> {
    match s {
        UsageSelection::Local => "local"@,
        UsageSelection::Api => "api"@,
        UsageSelection::Both => "both"@,
    }
}

pub open spec fn selection_named(s: Seq<char>) -> Option<UsageSelection> {
    if s == "local"@ {
        Some(UsageSelection::Local)
    } else if s == "api"@ {
        Some(UsageSelection::Api)
    } else if s == "both"@ {
        Some(UsageSelection::Both)
    } else {
        None
    }
}

impl UsageWindow {
    pub fn parse(value: &str) -> (r: Option<UsageWindow>)
        ensures
            r == window_named(value@),
    {
        if same(value, "today") {
            Some(UsageWindow::Today)
        } else if same(value, "last_24h") {
            Some(UsageWindow::Last24h)
        } else if same(value, "last_7d") {
            Some(UsageWindow::Last7d)
        } else if same(value, "current_month") {
            Some(UsageWindow::CurrentMonth)
        } else if same(value, "last_30d") {
            Some(UsageWindow::Last30d)
        } else if same(value, "all") {
            Some(UsageWindow::All)
        } else {
            None
        }
    }

    pub fn as_str(self) -> (r: &'static str)
        ensures
            r@ == window_name(self),
    {
        match self {
            UsageWindow::Today => "today",
            UsageWindow::Last24h => "last_24h",
            UsageWindow::Last7d => "last_7d",
            UsageWindow::CurrentMonth => "current_month",
            UsageWindow::Last30d => "last_30d",
            UsageWindow::All => "all",
        }
    }
}

impl UsageSelection {
    pub fn parse(value: &str) -> (r: Option<UsageSelection>)
        ensures
            r == selection_named(value@),
    {
        if same(value, "local") {
            Some(UsageSelection::Local)
        } else if same(value, "api") {
            Some(UsageSelection::Api)
        } else if same(value, "both") {
            Some(UsageSelection::Both)
        } else {
            None
        }
    }

    pub fn as_str(self) -> (r: &'static str)
        ensures
            r@ == selection_name(self),
    {
        match self {
            UsageSelection::Local => "local",
            UsageSelection::Api => "api",
            UsageSelection::Both => "both",
        }
    }
}

/// A window is found by its name, and by no other window's name.
pub proof fn window_names_round_trip(w: UsageWindow)
    ensures
        window_named(window_name(w)) == Some(w),
{
    reveal_strlit("today");
    reveal_strlit("last_24h");
    reveal_strlit("last_7d");
    reveal_strlit("current_month");
    reveal_strlit("last_30d");
    reveal_strlit("all");
    assert("today"@.len() == 5 && "last_24h"@.len() == 8 && "last_7d"@.len() == 7);
    assert("current_month"@.len() == 13 && "last_30d"@.len() == 8 && "all"@.len() == 3);
    assert("last_30d"@[5] != "last_24h"@[5]);
}

/// A selection is found by its name, and by no other selection's name.
pub proof fn selection_names_round_trip(s: UsageSelection)
    ensures
        selection_named(selection_name(s)) == Some(s),
{
    reveal_strlit("local");
    reveal_strlit("api");
    reveal_strlit("both");
    assert("local"@.len() == 5 && "api"@.len() == 3 && "both"@.len() == 4);
}

// ---------------------------------------------------------------------------------------------
// Windows
// ---------------------------------------------------------------------------------------------
pub const DAY: i64 = 86_400;

/// The point `days` days before `t`.
pub open spec fn days_before(t: Timestamp, days: int) -> Timestamp {
    shifted(t, -days * DAY)
}

/// The first second of the day of `t`.
pub open spec fn day_start(t: Timestamp) -> int {
    t.secs - t.secs % DAY
}

/// Whether the calendar covers what a window asks for at `now`.
pub open spec fn window_fits(w: UsageWindow, now: Timestamp) -> bool {
    &&& in_calendar(now)
    &&& match w {
        UsageWindow::Today => day_start(now) + DAY <= LAST_SECOND,
        UsageWindow::Last24h => FIRST_SECOND <= shifted_secs(now, -DAY),
        UsageWindow::Last7d => FIRST_SECOND <= shifted_secs(now, -7 * DAY),
        UsageWindow::Last30d => FIRST_SECOND <= shifted_secs(now, -30 * DAY),
        _ => true,
    }
}

/// The month that follows.
pub open spec fn month_after(year: i32, month: u32) -> (i32, u32) {
    if month == 12 {
        ((year + 1) as i32, 1)
    } else {
        (year, (month + 1) as u32)
    }
}

/// The ends of a window at `now`; none where the calendar does not give them.
pub open spec fn bounds_of(w: UsageWindow, now: Timestamp) -> Option<WindowBounds> {
    match w {
        UsageWindow::Today => Some(
            WindowBounds {
                from: Some(Timestamp { secs: day_start(now) as i64, nanos: 0 }),
                to: Some(Timestamp { secs: (day_start(now) + DAY) as i64, nanos: 0 }),
            },
        ),
        UsageWindow::Last24h => Some(
            WindowBounds { from: Some(days_before(now, 1)), to: Some(now) },
        ),
        UsageWindow::Last7d => Some(
            WindowBounds { from: Some(days_before(now, 7)), to: Some(now) },
        ),
        UsageWindow::Last30d => Some(
            WindowBounds { from: Some(days_before(now, 30)), to: Some(now) },
        ),
        UsageWindow::All => Some(WindowBounds { from: None, to: None }),
        UsageWindow::CurrentMonth => match year_month_of(now.secs, now.nanos) {
            None => None,
            Some((year, month)) => {
                let (next_year, next_month) = month_after(year, month);
                match (month_start_of(year, month), month_start_of(next_year, next_month)) {
                    (Some(from), Some(to)) => Some(
                        WindowBounds {
                            from: Some(Timestamp { secs: from, nanos: 0 }),
                            to: Some(Timestamp { secs: to, nanos: 0 }),
                        },
                    ),
                    _ => None,
                }
            },
        },
    }
}

/// Whether a point in time lies within the ends of a window.
pub open spec fn within(b: WindowBounds, t: Timestamp) -> bool {
    &&& b.from matches Some(from) ==> !earlier(t, from)
    &&& b.to matches Some(to) ==> earlier(t, to)
}

impl WindowBounds {
    /// Whether a point in time lies within the ends of the window.
    pub fn contains(&self, timestamp: Timestamp) -> (r: bool)
        ensures
            r == within(*self, timestamp),
    {
        match self.from {
            Some(from) => if timestamp.is_before(&from) {
                return false;
            },
            None => {},
        }
        match self.to {
            Some(to) => timestamp.is_before(&to),
            None => true,
        }
    }
}

fn back(t: Timestamp, days: i64) -> (r: Timestamp)
    requires
        in_calendar(t),
        0 <= days <= 30,
    ensures
        r == days_before(t, days as int),
{
    shift(t, -days * DAY)
}

/// The first and the last second of the month of `now`, where the calendar gives them.
fn month_bounds(now: Timestamp) -> (r: Option<WindowBounds>)
    ensures
        r == bounds_of(UsageWindow::CurrentMonth, now),
{
    match year_and_month(now) {
        None => None,
        Some((year, month)) => {
            let next_year: i32 = if month == 12 {
                year + 1
            } else {
                year
            };
            let next_month: u32 = if month == 12 {
                1
            } else {
                month + 1
            };
            match month_start(year, month) {
                None => None,
                Some(from) => match month_start(next_year, next_month) {
                    None => None,
                    Some(to) => Some(
                        WindowBounds {
                            from: Some(Timestamp { secs: from, nanos: 0 }),
                            to: Some(Timestamp { secs: to, nanos: 0 }),
                        },
                    ),
                },
            }
        },
    }
}

impl UsageWindow {
    /// The ends of the window at `now`.
    pub fn bounds(self, now: Timestamp) -> (r: Result<WindowBounds, UsageError>)
        requires
            window_fits(self, now),
        ensures
            match r {
                Ok(b) => bounds_of(self, now) == Some(b),
                Err(UsageError::InvalidWindow(name)) => bounds_of(self, now) is None && name@
                    == window_name(self),
                Err(_) => false,
            },
    {
        match self {
            UsageWindow::Today => {
                let within_day: i64 = if now.secs >= 0 {
                    now.secs % DAY
                } else {
                    (now.secs + 100_000_000 * DAY) % DAY
                };
                assert(within_day == now.secs % DAY) by {
                    if now.secs < 0 {
                        vstd::arithmetic::div_mod::lemma_mod_multiples_vanish(
                            100_000_000,
                            now.secs as int,
                            DAY as int,
                        );
                        assert(DAY * 100_000_000 + now.secs == now.secs + 100_000_000 * DAY);
                    }
                }
                let from = now.secs - within_day;
                Ok(
                    WindowBounds {
                        from: Some(Timestamp { secs: from, nanos: 0 }),
                        to: Some(Timestamp { secs: from + DAY, nanos: 0 }),
                    },
                )
            },
            UsageWindow::Last24h => Ok(WindowBounds { from: Some(back(now, 1)), to: Some(now) }),
            UsageWindow::Last7d => Ok(WindowBounds { from: Some(back(now, 7)), to: Some(now) }),
            UsageWindow::Last30d => Ok(WindowBounds { from: Some(back(now, 30)), to: Some(now) }),
            UsageWindow::All => Ok(WindowBounds { from: None, to: None }),
            UsageWindow::CurrentMonth => match month_bounds(now) {
                Some(b) => Ok(b),
                None => Err(UsageError::InvalidWindow(self.as_str().to_owned())),
            },
        }
    }
}

/// The last day, the last week and the last thirty days end now, and each holds the one before it:
/// what lies in the shorter window lies in the longer one.
pub proof fn rolling_windows_are_nested(now: Timestamp, t: Timestamp)
    requires
        window_fits(UsageWindow::Last30d, now),
    ensures
        within(bounds_of(UsageWindow::Last24h, now)->0, t) ==> within(
            bounds_of(UsageWindow::Last7d, now)->0,
            t,
        ),
        within(bounds_of(UsageWindow::Last7d, now)->0, t) ==> within(
            bounds_of(UsageWindow::Last30d, now)->0,
            t,
        ),
        within(bounds_of(UsageWindow::Last30d, now)->0, t) ==> within(
            bounds_of(UsageWindow::All, now)->0,
            t,
        ),
        !within(bounds_of(UsageWindow::Last30d, now)->0, now),
{
}

/// The window of today holds the present moment and lasts a day.
pub proof fn today_holds_now(now: Timestamp)
    requires
        window_fits(UsageWindow::Today, now),
    ensures
        within(bounds_of(UsageWindow::Today, now)->0, now),
        bounds_of(UsageWindow::Today, now)->0.to->0.secs == bounds_of(
            UsageWindow::Today,
            now,
        )->0.from->0.secs + DAY,
{
}

// ---------------------------------------------------------------------------------------------
// Sources
// ---------------------------------------------------------------------------------------------
/// Whether one of the sources is of a kind.
pub open spec fn any_of_kind(sources: Seq<UsageSource>, kind: UsageSourceKind) -> bool {
    exists|i: int| 0 <= i < sources.len() && (#[trigger] sources[i]).kind == kind
}

fn has_kind(sources: &Vec<UsageSource>, kind: UsageSourceKind) -> (r: bool)
    ensures
        r == any_of_kind(sources@, kind),
{
    let mut i: usize = 0;
    while i < sources.len()
        invariant
            i <= sources.len(),
            forall|j: int| 0 <= j < i ==> (#[trigger] sources@[j]).kind != kind,
        decreases sources.len() - i,
    {
        if sources[i].kind == kind {
            return true;
        }
        i = i + 1;
    }
    false
}

/// What is asked for, or else local sources where there are any, or else those of the provider.
pub open spec fn selection_for(
    sources: Seq<UsageSource>,
    requested: Option<UsageSelection>,
) -> UsageSelection {
    match requested {
        Some(selection) => selection,
        None => if !any_of_kind(sources, UsageSourceKind::LocalLog) && any_of_kind(
            sources,
            UsageSourceKind::ProviderApi,
        ) {
            UsageSelection::Api
        } else {
            UsageSelection::Local
        },
    }
}

pub fn determine_selection(sources: &Vec<UsageSource>, requested: Option<UsageSelection>) -> (r:
    UsageSelection)
    ensures
        r == selection_for(sources@, requested),
{
    match requested {
        Some(selection) => selection,
        None => if has_kind(sources, UsageSourceKind::LocalLog) {
            UsageSelection::Local
        } else if has_kind(sources, UsageSourceKind::ProviderApi) {
            UsageSelection::Api
        } else {
            UsageSelection::Local
        },
    }
}

/// The first default window that a source names, or the current month.
pub open spec fn default_window_name(sources: Seq<UsageSource>) -> Seq<char>
    decreases sources.len(),
{
    if sources.len() == 0 {
        "current_month"@
    } else {
        match sources[0].default_window {
            Some(name) => name@,
            None => default_window_name(sources.drop_first()),
        }
    }
}

/// The window that is asked for, or else the default one.
pub open spec fn window_for(sources: Seq<UsageSource>, requested: Option<UsageWindow>) -> Option<
    UsageWindow,
> {
    match requested {
        Some(window) => Some(window),
        None => window_named(default_window_name(sources)),
    }
}

fn default_window(sources: &Vec<UsageSource>) -> (r: String)
    ensures
        r@ == default_window_name(sources@),
{
    let ghost all = sources@;
    let mut i: usize = 0;
    assert(all.subrange(0, all.len() as int) == all);
    while i < sources.len()
        invariant
            i <= sources.len(),
            all == sources@,
            default_window_name(all) == default_window_name(
                all.subrange(i as int, all.len() as int),
            ),
        decreases sources.len() - i,
    {
        assert(all.subrange(i as int, all.len() as int)[0] == all[i as int]);
        assert(all.subrange(i as int, all.len() as int).drop_first() == all.subrange(
            i + 1,
            all.len() as int,
        ));
        match &sources[i].default_window {
            Some(name) => {
                return name.clone();
            },
            None => {},
        }
        i = i + 1;
    }
    "current_month".to_owned()
}

pub fn determine_window(sources: &Vec<UsageSource>, requested: Option<UsageWindow>) -> (r: Result<
    UsageWindow,
    UsageError,
>)
    ensures
        match r {
            Ok(window) => window_for(sources@, requested) == Some(window),
            Err(UsageError::InvalidWindow(name)) => window_for(sources@, requested) is None && name@
                == default_window_name(sources@),
            Err(_) => false,
        },
{
    match requested {
        Some(window) => Ok(window),
        None => {
            let name = default_window(sources);
            match UsageWindow::parse(name.as_str()) {
                Some(window) => Ok(window),
                None => Err(UsageError::InvalidWindow(name)),
            }
        },
    }
}

/// Whether a selection takes in a source of a kind.
pub open spec fn takes(selection: UsageSelection, kind: UsageSourceKind) -> bool {
    match selection {
        UsageSelection::Local => kind == UsageSourceKind::LocalLog,
        UsageSelection::Api => kind == UsageSourceKind::ProviderApi,
        UsageSelection::Both => true,
    }
}

/// The positions of the first `n` sources that a selection takes in.
pub open spec fn picks(sources: Seq<UsageSource>, selection: UsageSelection, n: int) -> Seq<usize>
    decreases n,
{
    if n <= 0 {
        seq![]
    } else {
        let front = picks(sources, selection, n - 1);
        if takes(selection, sources[n - 1].kind) {
            front.push((n - 1) as usize)
        } else {
            front
        }
    }
}

/// The positions of the sources that a selection takes in.
pub fn select_sources(sources: &Vec<UsageSource>, selection: UsageSelection) -> (r: Vec<usize>)
    ensures
        r@ == picks(sources@, selection, sources.len() as int),
        forall|i: int| 0 <= i < r.len() ==> #[trigger] r@[i] < sources.len(),
{
    let mut out: Vec<usize> = Vec::new();
    let mut i: usize = 0;
    while i < sources.len()
        invariant
            i <= sources.len(),
            out@ == picks(sources@, selection, i as int),
            forall|j: int| 0 <= j < out.len() ==> #[trigger] out@[j] < i,
        decreases sources.len() - i,
    {
        let wanted = match selection {
            UsageSelection::Local => sources[i].kind == UsageSourceKind::LocalLog,
            UsageSelection::Api => sources[i].kind == UsageSourceKind::ProviderApi,
            UsageSelection::Both => true,
        };
        if wanted {
            out.push(i);
        }
        i = i + 1;
    }
    out
}

/// The shorter of two lifetimes.
pub open spec fn shorter(a: Option<u64>, b: Option<u64>) -> Option<u64> {
    match (a, b) {
        (Some(x), Some(y)) => if y < x {
            b
        } else {
            a
        },
        (Some(_), None) => a,
        (None, _) => b,
    }
}

/// The shortest lifetime that the picked sources name.
pub open spec fn shortest_ttl(sources: Seq<UsageSource>, picked: Seq<usize>) -> Option<u64>
    decreases picked.len(),
{
    if picked.len() == 0 {
        None
    } else {
        shorter(
            shortest_ttl(sources, picked.drop_last()),
            sources[picked.last() as int].cache_ttl_s,
        )
    }
}

/// How long usage is kept, in seconds, where no source says it.
pub const DEFAULT_CACHE_TTL_S: u64 = 300;

/// How long the usage of the picked sources is kept, in seconds.
pub open spec fn ttl_for(sources: Seq<UsageSource>, picked: Seq<usize>) -> u64 {
    match shortest_ttl(sources, picked) {
        Some(ttl) => ttl,
        None => DEFAULT_CACHE_TTL_S,
    }
}

/// How long the usage of the picked sources is kept, in seconds.
pub fn cache_ttl(sources: &Vec<UsageSource>, picked: &Vec<usize>) -> (r: u64)
    requires
        forall|i: int| 0 <= i < picked.len() ==> #[trigger] picked@[i] < sources.len(),
    ensures
        r == ttl_for(sources@, picked@),
{
    let mut ttl: Option<u64> = None;
    let mut i: usize = 0;
    while i < picked.len()
        invariant
            i <= picked.len(),
            forall|j: int| 0 <= j < picked.len() ==> #[trigger] picked@[j] < sources.len(),
            ttl == shortest_ttl(sources@, picked@.take(i as int)),
        decreases picked.len() - i,
    {
        assert(picked@[i as int] < sources.len());
        let next = sources[picked[i]].cache_ttl_s;
        ttl = match ttl {
            Some(x) => match next {
                Some(y) => if y < x {
                    next
                } else {
                    ttl
                },
                None => ttl,
            },
            None => next,
        };
        i = i + 1;
        assert(picked@.take(i as int).drop_last() == picked@.take(i - 1));
        assert(picked@.take(i as int).last() == picked@[i - 1]);
    }
    assert(picked@.take(i as int) == picked@);
    match ttl {
        Some(t) => t,
        None => DEFAULT_CACHE_TTL_S,
    }
}

// ---------------------------------------------------------------------------------------------
// The plan
// ---------------------------------------------------------------------------------------------
/// What is read, and from where.
pub struct UsagePlan {
    pub selection: UsageSelection,
    pub window: UsageWindow,
    pub bounds: WindowBounds,
    pub ttl_s: u64,
    pub identity: Identity,
    pub picked: Vec<usize>,
    pub collected: Vec<usize>,
    pub warnings: Vec<String>,
}

/// Those of the picked sources that are read: the provider is asked about the active account alone.
pub open spec fn readable(sources: Seq<UsageSource>, picked: Seq<usize>, active: bool) -> Seq<usize>
    decreases picked.len(),
{
    if picked.len() == 0 {
        seq![]
    } else {
        let front = readable(sources, picked.drop_last(), active);
        if active || sources[picked.last() as int].kind == UsageSourceKind::LocalLog {
            front.push(picked.last())
        } else {
            front
        }
    }
}

/// A warning for each picked source that is not read.
pub open spec fn skipped(
    sources: Seq<UsageSource>,
    picked: Seq<usize>,
    active: bool,
    warning: Seq<char>,
) -> Seq<Seq<char>>
    decreases picked.len(),
{
    if picked.len() == 0 {
        seq![]
    } else {
        let front = skipped(sources, picked.drop_last(), active, warning);
        if active || sources[picked.last() as int].kind == UsageSourceKind::LocalLog {
            front
        } else {
            front.push(warning)
        }
    }
}

pub open spec fn skip_warning(plugin: Seq<char>, alias: Seq<char>) -> Seq<char> {
    "skipped provider_api for inactive account "@ + plugin + "/"@ + alias
}

/// The warnings of a plan: of each source that is not read, and that none is.
pub open spec fn plan_warnings(
    sources: Seq<UsageSource>,
    picked: Seq<usize>,
    active: bool,
    plugin: Seq<char>,
    alias: Seq<char>,
    selection: UsageSelection,
) -> Seq<Seq<char>> {
    let skips = skipped(sources, picked, active, skip_warning(plugin, alias));
    if readable(sources, picked, active).len() == 0 {
        skips.push(
            "plugin "@ + plugin + " has no usable usage sources for "@ + selection_name(selection),
        )
    } else {
        skips
    }
}

fn identity_from_metadata(metadata: &AccountMetadata) -> (r: Identity)
    ensures
        r.deep_view() == (IdentityView {
            email: metadata.email.deep_view(),
            org_name: metadata.org_name.deep_view(),
            plan: metadata.plan.deep_view(),
            extra: Map::empty(),
        }),
{
    Identity {
        email: copy_opt(&metadata.email),
        org_name: copy_opt(&metadata.org_name),
        plan: copy_opt(&metadata.plan),
        extra: TextMap::new(),
    }
}

/// The saved account whose usage is asked for.
pub fn find_account<'a>(registry: &'a Registry, plugin_id: &str, alias: &str) -> (r: Result<
    &'a AccountMetadata,
    UsageError,
>)
    ensures
        match r {
            Ok(metadata) => account_of(registry.deep_view(), plugin_id@, alias@) == Some(
                metadata.deep_view(),
            ),
            Err(UsageError::AccountNotFound { plugin_id: p, alias: a }) => !has_account(
                registry.deep_view(),
                plugin_id@,
                alias@,
            ) && p@ == plugin_id@ && a@ == alias@,
            Err(_) => false,
        },
{
    match registry.account(plugin_id, alias) {
        Some(metadata) => Ok(metadata),
        None => Err(
            UsageError::AccountNotFound {
                plugin_id: plugin_id.to_owned(),
                alias: alias.to_owned(),
            },
        ),
    }
}

fn filter_readable(
    sources: &Vec<UsageSource>,
    picked: &Vec<usize>,
    active: bool,
    warning: &str,
    warnings: &mut Vec<String>,
) -> (r: Vec<usize>)
    requires
        forall|i: int| 0 <= i < picked.len() ==> #[trigger] picked@[i] < sources.len(),
        old(warnings)@.len() == 0,
    ensures
        r@ == readable(sources@, picked@, active),
        final(warnings).deep_view() == skipped(sources@, picked@, active, warning@),
{
    let mut out: Vec<usize> = Vec::new();
    let mut i: usize = 0;
    assert(warnings.deep_view() == skipped(sources@, picked@.take(0), active, warning@));
    while i < picked.len()
        invariant
            i <= picked.len(),
            forall|j: int| 0 <= j < picked.len() ==> #[trigger] picked@[j] < sources.len(),
            out@ == readable(sources@, picked@.take(i as int), active),
            warnings.deep_view() == skipped(sources@, picked@.take(i as int), active, warning@),
        decreases picked.len() - i,
    {
        let ghost before = warnings.deep_view();
        assert(picked@[i as int] < sources.len());
        assert(picked@.take(i + 1).drop_last() == picked@.take(i as int));
        assert(picked@.take(i + 1).last() == picked@[i as int]);
        if active || sources[picked[i]].kind == UsageSourceKind::LocalLog {
            out.push(picked[i]);
        } else {
            warnings.push(warning.to_owned());
            assert(warnings.deep_view() == before.push(warning@));
        }
        i = i + 1;
    }
    assert(picked@.take(i as int) == picked@);
    out
}

/// What is read of the usage of a saved account, and from where.
pub fn plan_usage(
    registry: &Registry,
    manifest: &Manifest,
    plugin_id: &str,
    alias: &str,
    options: &CollectUsageOptions,
    now: Timestamp,
) -> (r: Result<UsagePlan, UsageError>)
    requires
        account_of(registry.deep_view(), plugin_id@, alias@) is Some ==> (window_for(
            manifest.usage_source@,
            options.window,
        ) matches Some(w) ==> window_fits(w, now)),
    ensures
        ({
            let sources = manifest.usage_source@;
            let account = account_of(registry.deep_view(), plugin_id@, alias@);
            let active = active_alias(registry.deep_view(), plugin_id@) == Some(alias@);
            let selection = selection_for(sources, options.source);
            let window = window_for(sources, options.window);
            let picked = picks(sources, selection, sources.len() as int);
            match r {
                Ok(plan) => {
                    &&& account is Some
                    &&& plan.selection == selection
                    &&& window == Some(plan.window)
                    &&& bounds_of(plan.window, now) == Some(plan.bounds)
                    &&& plan.picked@ == picked
                    &&& plan.ttl_s == ttl_for(sources, picked)
                    &&& plan.identity.email.deep_view() == account->0.email
                    &&& plan.identity.org_name.deep_view() == account->0.org_name
                    &&& plan.identity.plan.deep_view() == account->0.plan
                    &&& plan.identity.extra.deep_view() == Map::<
                        Seq<char>,
                        crate::json::JsonView,
                    >::empty()
                    &&& plan.collected@ == readable(sources, picked, active)
                    &&& plan.warnings.deep_view() == plan_warnings(
                        sources,
                        picked,
                        active,
                        plugin_id@,
                        alias@,
                        selection,
                    )
                },
                Err(UsageError::AccountNotFound { plugin_id: p, alias: a }) => account is None
                    && p@ == plugin_id@ && a@ == alias@,
                Err(UsageError::InvalidWindow(name)) => account is Some && (match window {
                    None => name@ == default_window_name(sources),
                    Some(w) => bounds_of(w, now) is None && name@ == window_name(w),
                }),
                Err(_) => false,
            }
        }),
{
    let metadata = match find_account(registry, plugin_id, alias) {
        Ok(metadata) => metadata,
        Err(e) => {
            return Err(e);
        },
    };
    let sources = &manifest.usage_source;
    let selection = determine_selection(sources, options.source);
    let window = match determine_window(sources, options.window) {
        Ok(window) => window,
        Err(e) => {
            return Err(e);
        },
    };
    let bounds = match window.bounds(now) {
        Ok(bounds) => bounds,
        Err(e) => {
            return Err(e);
        },
    };
    let picked = select_sources(sources, selection);
    let ttl_s = cache_ttl(sources, &picked);
    let active = match registry.active_alias(plugin_id) {
        Some(active) => same(active.as_str(), alias),
        None => false,
    };
    let mut warning = join3("skipped provider_api for inactive account ", plugin_id, "/");
    warning.append(alias);
    let mut warnings: Vec<String> = Vec::new();
    let collected = filter_readable(sources, &picked, active, warning.as_str(), &mut warnings);
    if collected.len() == 0 {
        let ghost before = warnings.deep_view();
        let message = {
            let mut out = join3("plugin ", plugin_id, " has no usable usage sources for ");
            out.append(selection.as_str());
            out
        };
        warnings.push(message);
        assert(warnings.deep_view() == before.push(message@));
    }
    Ok(
        UsagePlan {
            selection,
            window,
            bounds,
            ttl_s,
            identity: identity_from_metadata(metadata),
            picked,
            collected,
            warnings,
        },
    )
}

// ---------------------------------------------------------------------------------------------
// The cache
// ---------------------------------------------------------------------------------------------
/// The file that the usage of an account is kept in; `digest` stands for the sources it was read
/// from.
pub fn cache_path(
    paths: &AswitchPaths,
    plugin_id: &str,
    alias: &str,
    window: UsageWindow,
    selection: UsageSelection,
    digest: u64,
) -> (r: String)
    ensures
        r@ == joined(
            joined(paths.usage_cache_dir@, plugin_id@),
            alias@ + "."@ + window_name(window) + "."@ + selection_name(selection) + "."@
                + decimal_of(digest as nat) + ".json"@,
        ),
{
    let mut name = join3(alias, ".", window.as_str());
    name.append(".");
    name.append(selection.as_str());
    name.append(".");
    name.append(decimal(digest).as_str());
    name.append(".json");
    join_path(join_path(paths.usage_cache_dir.as_str(), plugin_id).as_str(), name.as_str())
}

/// A lifetime in seconds as a signed number of the same size.
pub open spec fn signed_ttl(ttl_s: u64) -> int {
    if ttl_s > i64::MAX {
        ttl_s - 0x1_0000_0000_0000_0000
    } else {
        ttl_s as int
    }
}

/// A lifetime in seconds as a signed number of the same size.
fn ttl_signed(ttl_s: u64) -> (r: i64)
    ensures
        r == signed_ttl(ttl_s),
{
    if ttl_s > i64::MAX as u64 {
        (ttl_s as i128 - 0x1_0000_0000_0000_0000) as i64
    } else {
        ttl_s as i64
    }
}

/// Whether usage that was kept at `saved_at` is too old at `now`: whether as many whole seconds have
/// passed as it is kept for.
pub open spec fn outdated(saved_at: Timestamp, ttl_s: u64, now: Timestamp) -> bool {
    let n = span(saved_at, now);
    let whole = if n >= 0 {
        n / 1_000_000_000
    } else {
        -((-n) / 1_000_000_000)
    };
    whole >= signed_ttl(ttl_s)
}

/// Whether usage that was kept at `saved_at` can still be used at `now`.
pub fn is_fresh(saved_at: Timestamp, ttl_s: u64, now: Timestamp) -> (r: bool)
    ensures
        r == !outdated(saved_at, ttl_s, now),
{
    let n: i128 = nanos_between(saved_at, now);
    let whole: i128 = if n >= 0 {
        n / 1_000_000_000
    } else {
        -((-n) / 1_000_000_000)
    };
    whole < ttl_signed(ttl_s) as i128
}

/// What is used of the usage that was kept, and when: nothing where it is to be read anew or is too
/// old, else what was kept, marked as such.
pub open spec fn kept(
    refresh: bool,
    ttl_s: u64,
    now: Timestamp,
    entry: Option<(Timestamp, SnapshotView)>,
) -> Option<SnapshotView> {
    match entry {
        Some((saved_at, snapshot)) => if !refresh && !outdated(saved_at, ttl_s, now) {
            Some(SnapshotView { cached: true, ..snapshot })
        } else {
            None
        },
        None => None,
    }
}

/// What is used of the usage that was kept, with the time at which it was. Usage is read anew where
/// there is none.
pub fn use_cached(
    refresh: bool,
    ttl_s: u64,
    now: Timestamp,
    entry: Option<(Timestamp, UsageSnapshot)>,
) -> (r: Option<UsageSnapshot>)
    ensures
        r.deep_view() == kept(
            refresh,
            ttl_s,
            now,
            match entry {
                Some((saved_at, snapshot)) => Some((saved_at, snapshot.deep_view())),
                None => None,
            },
        ),
{
    match entry {
        Some((saved_at, snapshot)) => if !refresh && is_fresh(saved_at, ttl_s, now) {
            let mut snapshot = snapshot;
            snapshot.cached = true;
            Some(snapshot)
        } else {
            None
        },
        None => None,
    }
}

/// How old the usage kept for an account is.
pub struct UsageCacheStatus {
    pub path: String,
    pub saved_at: Timestamp,
    pub expires_at: Timestamp,
    pub ttl_s: u64,
    pub fresh: bool,
}

/// The longer of two lifetimes.
pub open spec fn longer(a: u64, b: u64) -> u64 {
    if a > b {
        a
    } else {
        b
    }
}

/// How old the usage is that was kept at `saved_at` for `entry_ttl_s` seconds, where its sources now
/// ask for `ttl_s`: the longer of the two counts.
pub fn cache_status(
    path: &str,
    saved_at: Timestamp,
    entry_ttl_s: u64,
    ttl_s: u64,
    now: Timestamp,
) -> (r: UsageCacheStatus)
    requires
        in_calendar(saved_at),
        FIRST_SECOND <= shifted_secs(saved_at, signed_ttl(longer(entry_ttl_s, ttl_s)))
            <= LAST_SECOND,
    ensures
        r.path@ == path@,
        r.saved_at == saved_at,
        r.ttl_s == longer(entry_ttl_s, ttl_s),
        r.expires_at == shifted(saved_at, signed_ttl(r.ttl_s)),
        r.fresh == earlier(now, r.expires_at),
{
    let longest = if entry_ttl_s > ttl_s {
        entry_ttl_s
    } else {
        ttl_s
    };
    let expires_at = shift(saved_at, ttl_signed(longest));
    UsageCacheStatus {
        path: path.to_owned(),
        saved_at,
        expires_at,
        ttl_s: longest,
        fresh: now.is_before(&expires_at),
    }
}

/// The entries of the cache directory that pass a filter.
pub open spec fn cleared(entries: Seq<Seq<char>>, filter: Option<Seq<char>>) -> Seq<Seq<char>>
    decreases entries.len(),
{
    if entries.len() == 0 {
        seq![]
    } else {
        let front = cleared(entries.drop_last(), filter);
        if filter is None || filter == Some(entries.last()) {
            front.push(entries.last())
        } else {
            front
        }
    }
}

/// The entries of the cache directory that are removed: all, or the one of a plugin.
pub fn clear_cache(entries: &Vec<String>, plugin_filter: &Option<String>) -> (r: Vec<String>)
    ensures
        r.deep_view() == cleared(entries.deep_view(), plugin_filter.deep_view()),
{
    let ghost all = entries.deep_view();
    let ghost filter = plugin_filter.deep_view();
    let mut out: Vec<String> = Vec::new();
    let mut i: usize = 0;
    assert(out.deep_view() == cleared(all.take(0), filter));
    while i < entries.len()
        invariant
            i <= entries.len(),
            all == entries.deep_view(),
            filter == plugin_filter.deep_view(),
            out.deep_view() == cleared(all.take(i as int), filter),
        decreases entries.len() - i,
    {
        let ghost before = out.deep_view();
        assert(all.take(i + 1).drop_last() == all.take(i as int));
        assert(all.take(i + 1).last() == all[i as int]);
        let wanted = match plugin_filter {
            Some(name) => same(name.as_str(), entries[i].as_str()),
            None => true,
        };
        if wanted {
            out.push(entries[i].clone());
            assert(out.deep_view() == before.push(all[i as int]));
        }
        i = i + 1;
    }
    assert(all.take(i as int) == all);
    out
}

} // verus!
