//! The state of the full-screen view, and how keys and news change it.
use vstd::prelude::*;

use crate::account::{AccountRecord, PluginStatusRow, RecordView, StatusRowView};
use crate::json::JsonView;
use crate::quota::{bits_in, bits_of};
use crate::text::{copy_opt, join2, join3, truncate_text, truncated};
use crate::text_map::{Duplicate, TextMap};
use crate::cmd::usage::{entry, entry_at};
use crate::usage::snapshot::{SnapshotView, UsageSnapshot};
use crate::usage::{UsageSelection, UsageWindow, selection_name, window_name};

verus! {

// ---------------------------------------------------------------------------------------------
// What is left of an allowance, as it is shown
// ---------------------------------------------------------------------------------------------
/// A percentage as it is shown, in full and in short. `rest` are the bits of a hundred less it.
pub struct Percent {
    pub text: String,
    pub compact: String,
    pub rest: u64,
}

pub struct PercentView {
    pub text: Seq<char>,
    pub compact: Seq<char>,
    pub rest: u64,
}

impl DeepView for Percent {
    type V = PercentView;

    open spec fn deep_view(&self) -> PercentView {
        PercentView { text: self.text@, compact: self.compact@, rest: self.rest }
    }
}

impl Duplicate for Percent {
    fn duplicate(&self) -> (r: Self) {
        Percent { text: self.text.clone(), compact: self.compact.clone(), rest: self.rest }
    }
}

/// What is left of the allowance of an account. `used` are the bits of how much is used, in percent.
pub struct AccountQuotaSummary {
    pub remaining: Option<Percent>,
    pub used: Option<u64>,
    pub reset_time: Option<String>,
    pub session_remaining: Option<Percent>,
    pub weekly_remaining: Option<Percent>,
}

pub struct QuotaView {
    pub remaining: Option<PercentView>,
    pub used: Option<u64>,
    pub reset_time: Option<Seq<char>>,
    pub session_remaining: Option<PercentView>,
    pub weekly_remaining: Option<PercentView>,
}

impl DeepView for AccountQuotaSummary {
    type V = QuotaView;

    open spec fn deep_view(&self) -> QuotaView {
        QuotaView {
            remaining: self.remaining.deep_view(),
            used: self.used,
            reset_time: self.reset_time.deep_view(),
            session_remaining: self.session_remaining.deep_view(),
            weekly_remaining: self.weekly_remaining.deep_view(),
        }
    }
}

impl Duplicate for AccountQuotaSummary {
    fn duplicate(&self) -> (r: Self) {
        AccountQuotaSummary {
            remaining: self.remaining.duplicate(),
            used: self.used,
            reset_time: copy_opt(&self.reset_time),
            session_remaining: self.session_remaining.duplicate(),
            weekly_remaining: self.weekly_remaining.duplicate(),
        }
    }
}

pub open spec fn unknown_quota() -> QuotaView {
    QuotaView {
        remaining: None,
        used: None,
        reset_time: None,
        session_remaining: None,
        weekly_remaining: None,
    }
}

impl AccountQuotaSummary {
    /// Nothing is known.
    pub fn unknown() -> (r: Self)
        ensures
            r.deep_view() == unknown_quota(),
    {
        AccountQuotaSummary {
            remaining: None,
            used: None,
            reset_time: None,
            session_remaining: None,
            weekly_remaining: None,
        }
    }

    /// Whether there is something to show.
    pub fn has_display(&self) -> (r: bool)
        ensures
            r == (self.deep_view() != unknown_quota()),
    {
        self.remaining.is_some() || self.used.is_some() || self.reset_time.is_some()
            || self.session_remaining.is_some() || self.weekly_remaining.is_some()
    }
}

/// Where a percentage comes from: it is named, or it is what another one leaves of the whole. Both are
/// the bits of a number.
#[derive(Clone, Copy, Debug, PartialEq, Eq, Structural)]
pub enum PercentSource {
    Is(u64),
    RestOf(u64),
}

/// A percentage: the one under a key, or else what the one under another key leaves.
pub open spec fn percent_from(
    quota: Map<Seq<char>, JsonView>,
    key: Seq<char>,
    counterpart: Seq<char>,
) -> Option<PercentSource> {
    match bits_in(entry_at(quota, key)) {
        Some(bits) => Some(PercentSource::Is(bits)),
        None => match bits_in(entry_at(quota, counterpart)) {
            Some(bits) => Some(PercentSource::RestOf(bits)),
            None => None,
        },
    }
}

fn find_percent(quota: &TextMap<crate::json::Json>, key: &str, counterpart: &str) -> (r: Option<
    PercentSource,
>)
    ensures
        r == percent_from(quota.deep_view(), key@, counterpart@),
{
    match bits_of(entry(quota, key)) {
        Some(bits) => Some(PercentSource::Is(bits)),
        None => match bits_of(entry(quota, counterpart)) {
            Some(bits) => Some(PercentSource::RestOf(bits)),
            None => None,
        },
    }
}

/// What a usage says of the allowance.
pub struct QuotaReadings {
    pub remaining: Option<PercentSource>,
    pub used: Option<PercentSource>,
    pub session_remaining: Option<PercentSource>,
    pub weekly_remaining: Option<PercentSource>,
    pub reset_time: Option<String>,
}

/// What a usage says of the allowance.
pub fn quota_readings(snapshot: &UsageSnapshot) -> (r: QuotaReadings)
    ensures
        ({
            let quota = snapshot.deep_view().quota;
            &&& r.remaining == percent_from(quota, "remaining_percent"@, "used_percent"@)
            &&& r.used == percent_from(quota, "used_percent"@, "remaining_percent"@)
            &&& r.session_remaining == percent_from(
                quota,
                "session_remaining_percent"@,
                "session_used_percent"@,
            )
            &&& r.weekly_remaining == percent_from(
                quota,
                "weekly_remaining_percent"@,
                "weekly_used_percent"@,
            )
            &&& r.reset_time.deep_view() == (match entry_at(quota, "reset_time"@) {
                Some(JsonView::Text(t)) => Some(t),
                _ => None,
            })
        }),
{
    let reset_time = match entry(&snapshot.quota, "reset_time") {
        Some(crate::json::Json::Text(t)) => Some(t.clone()),
        _ => None,
    };
    QuotaReadings {
        remaining: find_percent(&snapshot.quota, "remaining_percent", "used_percent"),
        used: find_percent(&snapshot.quota, "used_percent", "remaining_percent"),
        session_remaining: find_percent(
            &snapshot.quota,
            "session_remaining_percent",
            "session_used_percent",
        ),
        weekly_remaining: find_percent(
            &snapshot.quota,
            "weekly_remaining_percent",
            "weekly_used_percent",
        ),
        reset_time,
    }
}

/// A time as it is shown: in local time where it is one, or else as it is written, cut short.
pub fn quota_reset_summary(raw: &str, local: Option<String>) -> (r: String)
    ensures
        r@ == match local.deep_view() {
            Some(t) => t,
            None => truncated(raw@, 18),
        },
{
    match local {
        Some(t) => t,
        None => truncate_text(raw, 18),
    }
}

// ---------------------------------------------------------------------------------------------
// The state
// ---------------------------------------------------------------------------------------------
#[derive(Clone, Copy, Debug, PartialEq, Eq, Structural)]
pub enum Panel {
    Switch,
    Plugins,
}

/// How far the loading of what is left of the allowances has come: which accounts are still waited for,
/// and whether the usage of the selected one is.
pub struct Loader {
    pub pending: Vec<bool>,
    pub selected_index: usize,
    pub selected_pending: bool,
    pub finished: bool,
}

pub struct LoaderView {
    pub pending: Seq<bool>,
    pub selected_index: usize,
    pub selected_pending: bool,
    pub finished: bool,
}

impl DeepView for Loader {
    type V = LoaderView;

    open spec fn deep_view(&self) -> LoaderView {
        LoaderView {
            pending: self.pending@,
            selected_index: self.selected_index,
            selected_pending: self.selected_pending,
            finished: self.finished,
        }
    }
}

/// The state of the full-screen view.
pub struct Screen {
    pub panel: Panel,
    pub accounts: Vec<AccountRecord>,
    pub account_quota: Vec<AccountQuotaSummary>,
    pub selected: usize,
    pub usage_window: UsageWindow,
    pub usage_source: UsageSelection,
    pub usage: Option<UsageSnapshot>,
    pub plugins: Vec<PluginStatusRow>,
    pub status: String,
    pub help_open: bool,
    pub should_quit: bool,
    pub loader: Option<Loader>,
    pub spinner_tick: usize,
}

pub struct ScreenView {
    pub panel: Panel,
    pub accounts: Seq<RecordView>,
    pub account_quota: Seq<QuotaView>,
    pub selected: usize,
    pub usage_window: UsageWindow,
    pub usage_source: UsageSelection,
    pub usage: Option<SnapshotView>,
    pub plugins: Seq<StatusRowView>,
    pub status: Seq<char>,
    pub help_open: bool,
    pub should_quit: bool,
    pub loader: Option<LoaderView>,
    pub spinner_tick: usize,
}

impl DeepView for Screen {
    type V = ScreenView;

    open spec fn deep_view(&self) -> ScreenView {
        ScreenView {
            panel: self.panel,
            accounts: self.accounts.deep_view(),
            account_quota: self.account_quota.deep_view(),
            selected: self.selected,
            usage_window: self.usage_window,
            usage_source: self.usage_source,
            usage: self.usage.deep_view(),
            plugins: self.plugins.deep_view(),
            status: self.status@,
            help_open: self.help_open,
            should_quit: self.should_quit,
            loader: self.loader.deep_view(),
            spinner_tick: self.spinner_tick,
        }
    }
}

/// Nothing is known of the allowances of some accounts.
pub open spec fn unknown_quotas(n: nat) -> Seq<QuotaView> {
    Seq::new(n, |i: int| unknown_quota())
}

fn no_quotas(n: usize) -> (r: Vec<AccountQuotaSummary>)
    ensures
        r.deep_view() == unknown_quotas(n as nat),
{
    let mut out: Vec<AccountQuotaSummary> = Vec::new();
    let mut i: usize = 0;
    while i < n
        invariant
            i <= n,
            out.deep_view() == unknown_quotas(i as nat),
        decreases n - i,
    {
        let ghost before = out.deep_view();
        out.push(AccountQuotaSummary::unknown());
        assert(out.deep_view() == before.push(unknown_quota()));
        assert(unknown_quotas((i + 1) as nat) == unknown_quotas(i as nat).push(unknown_quota()));
        i = i + 1;
    }
    out
}

/// The loading of the allowances of some accounts, as it starts.
pub open spec fn fresh_loader(n: nat, selected: usize) -> LoaderView {
    LoaderView {
        pending: Seq::new(n, |i: int| true),
        selected_index: selected,
        selected_pending: n > 0,
        finished: n == 0,
    }
}

fn start_loader(n: usize, selected: usize) -> (r: Loader)
    ensures
        r.deep_view() == fresh_loader(n as nat, selected),
{
    let mut pending: Vec<bool> = Vec::new();
    let mut i: usize = 0;
    while i < n
        invariant
            i <= n,
            pending@ == Seq::new(i as nat, |k: int| true),
        decreases n - i,
    {
        let ghost before = pending@;
        pending.push(true);
        assert(pending@ == Seq::new((i + 1) as nat, |k: int| true));
        i = i + 1;
    }
    Loader { pending, selected_index: selected, selected_pending: n > 0, finished: n == 0 }
}

/// The state when the full-screen view starts.
pub open spec fn first_screen(accounts: Seq<RecordView>, plugins: Seq<StatusRowView>) -> ScreenView {
    ScreenView {
        panel: Panel::Switch,
        accounts,
        account_quota: unknown_quotas(accounts.len()),
        selected: 0,
        usage_window: UsageWindow::CurrentMonth,
        usage_source: UsageSelection::Both,
        usage: None,
        plugins,
        status: if accounts.len() > 0 {
            "Loading usage in the background. Enter switches; w/s/R update usage."@
        } else {
            "Select an account. Enter switches globally; w/s/R update usage."@
        },
        help_open: false,
        should_quit: false,
        loader: if accounts.len() > 0 {
            Some(fresh_loader(accounts.len(), 0))
        } else {
            None
        },
        spinner_tick: 0,
    }
}

/// The state after what is known of the allowances is forgotten and asked for again.
pub open spec fn reloading(s: ScreenView) -> ScreenView {
    if s.accounts.len() == 0 {
        ScreenView { loader: None, account_quota: seq![], usage: None, ..s }
    } else {
        ScreenView {
            loader: Some(fresh_loader(s.accounts.len(), s.selected)),
            account_quota: unknown_quotas(s.accounts.len()),
            usage: None,
            ..s
        }
    }
}

/// A key of the keyboard.
#[derive(Clone, Copy, Debug, PartialEq, Eq, Structural)]
pub enum Key {
    Char(char),
    Tab,
    Down,
    Up,
    Enter,
    Other,
}

/// What is to be done after a key: nothing, loading what is left of the allowances, the same after the
/// kept usage of the selected account is looked up, or switching to an account.
pub enum KeyAction {
    Nothing,
    Load { refresh: bool },
    Select,
    Switch { plugin_id: String, alias: String },
}

pub enum ActionView {
    Nothing,
    Load { refresh: bool },
    Select,
    Switch { plugin_id: Seq<char>, alias: Seq<char> },
}

impl DeepView for KeyAction {
    type V = ActionView;

    open spec fn deep_view(&self) -> ActionView {
        match *self {
            KeyAction::Nothing => ActionView::Nothing,
            KeyAction::Load { refresh } => ActionView::Load { refresh },
            KeyAction::Select => ActionView::Select,
            KeyAction::Switch { plugin_id, alias } => ActionView::Switch {
                plugin_id: plugin_id@,
                alias: alias@,
            },
        }
    }
}

pub open spec fn next_window(w: UsageWindow) -> UsageWindow {
    match w {
        UsageWindow::Today => UsageWindow::Last24h,
        UsageWindow::Last24h => UsageWindow::Last7d,
        UsageWindow::Last7d => UsageWindow::CurrentMonth,
        UsageWindow::CurrentMonth => UsageWindow::Last30d,
        UsageWindow::Last30d => UsageWindow::All,
        UsageWindow::All => UsageWindow::Today,
    }
}

pub open spec fn next_selection(s: UsageSelection) -> UsageSelection {
    match s {
        UsageSelection::Local => UsageSelection::Api,
        UsageSelection::Api => UsageSelection::Both,
        UsageSelection::Both => UsageSelection::Local,
    }
}

/// The window and the sources come around again.
pub proof fn windows_and_sources_come_around(w: UsageWindow, s: UsageSelection)
    ensures
        next_window(next_window(next_window(next_window(next_window(next_window(w)))))) == w,
        next_selection(next_selection(next_selection(s))) == s,
{
}

pub open spec fn panel_word(panel: Panel) -> Seq<char> {
    match panel {
        Panel::Switch => "Switch"@,
        Panel::Plugins => "Plugins"@,
    }
}

/// An account in words.
pub open spec fn account_name(s: ScreenView, i: int) -> Seq<char> {
    if 0 <= i < s.accounts.len() {
        s.accounts[i].plugin_id + "/"@ + s.accounts[i].alias
    } else {
        "no account"@
    }
}

/// The state once another account is selected.
pub open spec fn selecting(s: ScreenView, i: usize) -> ScreenView {
    reloading(
        ScreenView { selected: i, status: "Selected "@ + account_name(s, i as int) + "."@, ..s },
    )
}

/// The state after a key, and what is to be done.
pub open spec fn after_key(s: ScreenView, key: Key) -> (ScreenView, ActionView) {
    let switching = s.panel == Panel::Switch;
    match key {
        Key::Char(c) => if c == 'q' {
            (ScreenView { should_quit: true, ..s }, ActionView::Nothing)
        } else if c == '?' {
            (
                ScreenView {
                    help_open: !s.help_open,
                    status: if !s.help_open {
                        "Help is open. Press ? to close it."@
                    } else {
                        "Help closed."@
                    },
                    ..s
                },
                ActionView::Nothing,
            )
        } else if c == '1' {
            (
                ScreenView { panel: Panel::Switch, status: "Switched to Switch."@, ..s },
                ActionView::Nothing,
            )
        } else if c == '2' {
            (
                ScreenView { panel: Panel::Plugins, status: "Switched to Plugins."@, ..s },
                ActionView::Nothing,
            )
        } else if switching && c == 'j' {
            moved_down(s)
        } else if switching && c == 'k' {
            moved_up(s)
        } else if switching && c == 'w' {
            (
                reloading(
                    ScreenView {
                        usage_window: next_window(s.usage_window),
                        status: "Usage window: "@ + window_name(next_window(s.usage_window)),
                        ..s
                    },
                ),
                ActionView::Load { refresh: false },
            )
        } else if switching && c == 's' {
            (
                reloading(
                    ScreenView {
                        usage_source: next_selection(s.usage_source),
                        status: "Usage source: "@ + selection_name(next_selection(s.usage_source)),
                        ..s
                    },
                ),
                ActionView::Load { refresh: false },
            )
        } else if switching && c == 'R' {
            (
                reloading(ScreenView { status: "Refreshing usage\u{2026}"@, ..s }),
                ActionView::Load { refresh: true },
            )
        } else {
            (s, ActionView::Nothing)
        },
        Key::Tab => {
            let panel = if switching {
                Panel::Plugins
            } else {
                Panel::Switch
            };
            (
                ScreenView { panel, status: "Switched to "@ + panel_word(panel) + "."@, ..s },
                ActionView::Nothing,
            )
        },
        Key::Down => if switching {
            moved_down(s)
        } else {
            (s, ActionView::Nothing)
        },
        Key::Up => if switching {
            moved_up(s)
        } else {
            (s, ActionView::Nothing)
        },
        Key::Enter => if switching && s.selected < s.accounts.len() {
            (
                s,
                ActionView::Switch {
                    plugin_id: s.accounts[s.selected as int].plugin_id,
                    alias: s.accounts[s.selected as int].alias,
                },
            )
        } else {
            (s, ActionView::Nothing)
        },
        Key::Other => (s, ActionView::Nothing),
    }
}

/// One account further down; the last one is the end.
pub open spec fn moved_down(s: ScreenView) -> (ScreenView, ActionView) {
    if s.accounts.len() > 0 && s.selected != s.accounts.len() - 1 {
        let next = if s.selected + 1 <= s.accounts.len() - 1 {
            (s.selected + 1) as usize
        } else {
            (s.accounts.len() - 1) as usize
        };
        (selecting(s, next), ActionView::Select)
    } else {
        (s, ActionView::Nothing)
    }
}

/// One account further up; the first one is the end.
pub open spec fn moved_up(s: ScreenView) -> (ScreenView, ActionView) {
    if s.selected > 0 {
        (selecting(s, (s.selected - 1) as usize), ActionView::Select)
    } else {
        (s, ActionView::Nothing)
    }
}

/// Whether the selected account is one of the accounts, where there are any.
pub open spec fn selection_in_range(s: ScreenView) -> bool {
    s.accounts.len() > 0 ==> s.selected < s.accounts.len()
}

/// No key selects an account that is not there, and none changes which accounts there are.
pub proof fn keys_keep_the_selection_in_range(s: ScreenView, key: Key)
    requires
        selection_in_range(s),
        s.accounts.len() <= usize::MAX,
    ensures
        selection_in_range(after_key(s, key).0),
        after_key(s, key).0.accounts == s.accounts,
        after_key(s, key).1 matches ActionView::Switch { plugin_id, alias } ==> exists|i: int|
            0 <= i < s.accounts.len() && (#[trigger] s.accounts[i]).plugin_id == plugin_id
                && s.accounts[i].alias == alias,
{
}

impl Screen {
    /// The state when the full-screen view starts.
    pub fn start(accounts: Vec<AccountRecord>, plugins: Vec<PluginStatusRow>) -> (r: Self)
        ensures
            r.deep_view() == first_screen(accounts.deep_view(), plugins.deep_view()),
    {
        let n: usize = accounts.len();
        let loader = if n > 0 {
            Some(start_loader(n, 0))
        } else {
            None
        };
        let status = if n > 0 {
            "Loading usage in the background. Enter switches; w/s/R update usage."
        } else {
            "Select an account. Enter switches globally; w/s/R update usage."
        };
        Screen {
            panel: Panel::Switch,
            accounts,
            account_quota: no_quotas(n),
            selected: 0,
            usage_window: UsageWindow::CurrentMonth,
            usage_source: UsageSelection::Both,
            usage: None,
            plugins,
            status: status.to_owned(),
            help_open: false,
            should_quit: false,
            loader,
            spinner_tick: 0,
        }
    }

    fn reload(&mut self)
        ensures
            final(self).deep_view() == reloading(old(self).deep_view()),
    {
        let n: usize = self.accounts.len();
        self.account_quota = no_quotas(n);
        self.usage = None;
        if n == 0 {
            self.loader = None;
            assert(unknown_quotas(0) == Seq::<QuotaView>::empty());
        } else {
            self.loader = Some(start_loader(n, self.selected));
        }
    }

    fn select(&mut self, i: usize)
        requires
            i < old(self).deep_view().accounts.len(),
        ensures
            final(self).deep_view() == selecting(old(self).deep_view(), i),
    {
        assert(self.accounts.deep_view()[i as int] == self.accounts@[i as int].deep_view());
        let status = join2(
            join3(
                join2("Selected ", self.accounts[i].plugin_id.as_str()).as_str(),
                "/",
                self.accounts[i].alias.as_str(),
            ).as_str(),
            ".",
        );
        assert(status@ == "Selected "@ + account_name(self.deep_view(), i as int) + "."@);
        self.selected = i;
        self.status = status;
        self.reload();
    }

    fn select_any(&mut self, i: usize)
        ensures
            final(self).deep_view() == selecting(old(self).deep_view(), i),
    {
        if i < self.accounts.len() {
            self.select(i);
        } else {
            self.selected = i;
            self.status = join3("Selected ", "no account", ".");
            self.reload();
        }
    }

    fn move_down(&mut self) -> (r: KeyAction)
        ensures
            moved_down(old(self).deep_view()) == (final(self).deep_view(), r.deep_view()),
    {
        let n: usize = self.accounts.len();
        if n > 0 && self.selected != n - 1 {
            let next: usize = if self.selected < n - 1 {
                self.selected + 1
            } else {
                n - 1
            };
            self.select(next);
            KeyAction::Select
        } else {
            KeyAction::Nothing
        }
    }

    fn move_up(&mut self) -> (r: KeyAction)
        ensures
            moved_up(old(self).deep_view()) == (final(self).deep_view(), r.deep_view()),
    {
        if self.selected > 0 {
            let next: usize = self.selected - 1;
            self.select_any(next);
            KeyAction::Select
        } else {
            KeyAction::Nothing
        }
    }

    fn cycle_window(&mut self) -> (r: KeyAction)
        ensures
            (
                reloading(
                    ScreenView {
                        usage_window: next_window(old(self).deep_view().usage_window),
                        status: "Usage window: "@ + window_name(
                            next_window(old(self).deep_view().usage_window),
                        ),
                        ..old(self).deep_view()
                    },
                ),
                ActionView::Load { refresh: false },
            ) == (final(self).deep_view(), r.deep_view()),
    {
        self.usage_window = match self.usage_window {
            UsageWindow::Today => UsageWindow::Last24h,
            UsageWindow::Last24h => UsageWindow::Last7d,
            UsageWindow::Last7d => UsageWindow::CurrentMonth,
            UsageWindow::CurrentMonth => UsageWindow::Last30d,
            UsageWindow::Last30d => UsageWindow::All,
            UsageWindow::All => UsageWindow::Today,
        };
        self.status = join2("Usage window: ", self.usage_window.as_str());
        self.reload();
        KeyAction::Load { refresh: false }
    }

    fn cycle_source(&mut self) -> (r: KeyAction)
        ensures
            (
                reloading(
                    ScreenView {
                        usage_source: next_selection(old(self).deep_view().usage_source),
                        status: "Usage source: "@ + selection_name(
                            next_selection(old(self).deep_view().usage_source),
                        ),
                        ..old(self).deep_view()
                    },
                ),
                ActionView::Load { refresh: false },
            ) == (final(self).deep_view(), r.deep_view()),
    {
        self.usage_source = match self.usage_source {
            UsageSelection::Local => UsageSelection::Api,
            UsageSelection::Api => UsageSelection::Both,
            UsageSelection::Both => UsageSelection::Local,
        };
        self.status = join2("Usage source: ", self.usage_source.as_str());
        self.reload();
        KeyAction::Load { refresh: false }
    }

    fn handle_char(&mut self, c: char) -> (r: KeyAction)
        ensures
            after_key(old(self).deep_view(), Key::Char(c)) == (
                final(self).deep_view(),
                r.deep_view(),
            ),
    {
        let switching = self.panel == Panel::Switch;
        if c == 'q' {
            self.should_quit = true;
            KeyAction::Nothing
        } else if c == '?' {
            self.help_open = !self.help_open;
            self.status = if self.help_open {
                "Help is open. Press ? to close it.".to_owned()
            } else {
                "Help closed.".to_owned()
            };
            KeyAction::Nothing
        } else if c == '1' {
            self.panel = Panel::Switch;
            self.status = "Switched to Switch.".to_owned();
            KeyAction::Nothing
        } else if c == '2' {
            self.panel = Panel::Plugins;
            self.status = "Switched to Plugins.".to_owned();
            KeyAction::Nothing
        } else if switching && c == 'j' {
            self.move_down()
        } else if switching && c == 'k' {
            self.move_up()
        } else if switching && c == 'w' {
            self.cycle_window()
        } else if switching && c == 's' {
            self.cycle_source()
        } else if switching && c == 'R' {
            self.status = "Refreshing usage\u{2026}".to_owned();
            self.reload();
            KeyAction::Load { refresh: true }
        } else {
            KeyAction::Nothing
        }
    }

    /// Answers to a key.
    pub fn handle_key(&mut self, key: Key) -> (r: KeyAction)
        ensures
            after_key(old(self).deep_view(), key) == (final(self).deep_view(), r.deep_view()),
    {
        let switching = self.panel == Panel::Switch;
        match key {
            Key::Char(c) => self.handle_char(c),
            Key::Tab => {
                self.panel = if switching {
                    Panel::Plugins
                } else {
                    Panel::Switch
                };
                self.status = join3("Switched to ", self.panel_name(), ".");
                KeyAction::Nothing
            },
            Key::Down => if switching {
                self.move_down()
            } else {
                KeyAction::Nothing
            },
            Key::Up => if switching {
                self.move_up()
            } else {
                KeyAction::Nothing
            },
            Key::Enter => if switching && self.selected < self.accounts.len() {
                let i = self.selected;
                assert(self.accounts.deep_view()[i as int] == self.accounts@[i as int].deep_view());
                KeyAction::Switch {
                    plugin_id: self.accounts[i].plugin_id.clone(),
                    alias: self.accounts[i].alias.clone(),
                }
            } else {
                KeyAction::Nothing
            },
            Key::Other => KeyAction::Nothing,
        }
    }

    pub fn panel_name(&self) -> (r: &'static str)
        ensures
            r@ == panel_word(self.deep_view().panel),
    {
        match self.panel {
            Panel::Switch => "Switch",
            Panel::Plugins => "Plugins",
        }
    }

    /// Shows the kept usage of the selected account until news of it come.
    pub fn show_usage(&mut self, snapshot: UsageSnapshot)
        ensures
            final(self).deep_view() == (ScreenView {
                usage: Some(snapshot.deep_view()),
                ..old(self).deep_view()
            }),
    {
        self.usage = Some(snapshot);
    }

    /// Takes up the accounts and the plugins as they are after a switch.
    pub fn switched(
        &mut self,
        accounts: Vec<AccountRecord>,
        plugins: Vec<PluginStatusRow>,
        plugin_id: &str,
        alias: &str,
    )
        ensures
            final(self).deep_view() == reloading(
                ScreenView {
                    accounts: accounts.deep_view(),
                    plugins: plugins.deep_view(),
                    status: "Switched to "@ + plugin_id@ + "/"@ + alias@
                        + ". Restart the corresponding client."@,
                    ..old(self).deep_view()
                },
            ),
    {
        self.accounts = accounts;
        self.plugins = plugins;
        self.status = join2(
            join3(join2("Switched to ", plugin_id).as_str(), "/", alias).as_str(),
            ". Restart the corresponding client.",
        );
        self.reload();
    }
}

} // verus!
