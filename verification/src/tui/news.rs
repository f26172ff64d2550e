//! The news that come in while the full-screen view is shown: whose the accounts are, and what is left
//! of their allowances.
use vstd::prelude::*;

use super::screen::{
    AccountQuotaSummary, LoaderView, QuotaView, Screen, ScreenView, unknown_quota,
};
use crate::account::{AccountRecord, RecordView};
use crate::text::{copy_opt, same};
use crate::text_map::Duplicate;
use crate::usage::snapshot::{SnapshotView, UsageSnapshot};

verus! {

/// Whose a saved account is.
pub struct IdentityRow {
    pub plugin_id: String,
    pub alias: String,
    pub email: Option<String>,
    pub org_name: Option<String>,
    pub plan: Option<String>,
}

pub struct IdentityRowView {
    pub plugin_id: Seq<char>,
    pub alias: Seq<char>,
    pub email: Option<Seq<char>>,
    pub org_name: Option<Seq<char>>,
    pub plan: Option<Seq<char>>,
}

impl DeepView for IdentityRow {
    type V = IdentityRowView;

    open spec fn deep_view(&self) -> IdentityRowView {
        IdentityRowView {
            plugin_id: self.plugin_id@,
            alias: self.alias@,
            email: self.email.deep_view(),
            org_name: self.org_name.deep_view(),
            plan: self.plan.deep_view(),
        }
    }
}

/// A piece of news: whose the accounts are, what is left of the allowance of an account, the usage of
/// an account, that all is done, or that no more news can come.
pub enum QuotaEvent {
    Identities(Vec<IdentityRow>),
    Quota { index: usize, summary: AccountQuotaSummary },
    SelectedUsage { index: usize, snapshot: UsageSnapshot },
    Done,
    Disconnected,
}

pub enum EventView {
    Identities(Seq<IdentityRowView>),
    Quota { index: usize, summary: QuotaView },
    SelectedUsage { index: usize, snapshot: SnapshotView },
    Done,
    Disconnected,
}

impl DeepView for QuotaEvent {
    type V = EventView;

    open spec fn deep_view(&self) -> EventView {
        match *self {
            QuotaEvent::Identities(rows) => EventView::Identities(rows.deep_view()),
            QuotaEvent::Quota { index, summary } => EventView::Quota {
                index,
                summary: summary.deep_view(),
            },
            QuotaEvent::SelectedUsage { index, snapshot } => EventView::SelectedUsage {
                index,
                snapshot: snapshot.deep_view(),
            },
            QuotaEvent::Done => EventView::Done,
            QuotaEvent::Disconnected => EventView::Disconnected,
        }
    }
}

/// The last of some rows that speaks of an account.
pub open spec fn identity_of(rows: Seq<IdentityRowView>, plugin_id: Seq<char>, alias: Seq<char>) -> Option<
    IdentityRowView,
>
    decreases rows.len(),
{
    if rows.len() == 0 {
        None
    } else if rows.last().plugin_id == plugin_id && rows.last().alias == alias {
        Some(rows.last())
    } else {
        identity_of(rows.drop_last(), plugin_id, alias)
    }
}

fn find_identity<'a>(rows: &'a Vec<IdentityRow>, plugin_id: &str, alias: &str) -> (r: Option<
    &'a IdentityRow,
>)
    ensures
        r.deep_view() == identity_of(rows.deep_view(), plugin_id@, alias@),
{
    let ghost all = rows.deep_view();
    let mut i: usize = rows.len();
    assert(all.take(all.len() as int) == all);
    while i > 0
        invariant
            i <= rows@.len(),
            all == rows.deep_view(),
            identity_of(all, plugin_id@, alias@) == identity_of(
                all.take(i as int),
                plugin_id@,
                alias@,
            ),
        decreases i,
    {
        assert(all.take(i as int).drop_last() == all.take(i - 1));
        assert(all.take(i as int).last() == rows@[i - 1].deep_view());
        if same(rows[i - 1].plugin_id.as_str(), plugin_id) && same(
            rows[i - 1].alias.as_str(),
            alias,
        ) {
            return Some(&rows[i - 1]);
        }
        i = i - 1;
    }
    None
}

/// What is missing of an account, filled in.
pub open spec fn identified(account: RecordView, rows: Seq<IdentityRowView>) -> RecordView {
    match identity_of(rows, account.plugin_id, account.alias) {
        None => account,
        Some(row) => RecordView {
            email: if account.email is None {
                row.email
            } else {
                account.email
            },
            org_name: if account.org_name is None {
                row.org_name
            } else {
                account.org_name
            },
            plan: if account.plan is None {
                row.plan
            } else {
                account.plan
            },
            ..account
        },
    }
}

pub open spec fn all_identified(accounts: Seq<RecordView>, rows: Seq<IdentityRowView>) -> Seq<RecordView> {
    accounts.map_values(|a: RecordView| identified(a, rows))
}

fn missing_or(own: &Option<String>, other: &Option<String>) -> (r: Option<String>)
    ensures
        r.deep_view() == (if own.deep_view() is None {
            other.deep_view()
        } else {
            own.deep_view()
        }),
{
    match own {
        None => copy_opt(other),
        Some(_) => copy_opt(own),
    }
}

fn identify_accounts(accounts: &Vec<AccountRecord>, rows: &Vec<IdentityRow>) -> (r: Vec<AccountRecord>)
    ensures
        r.deep_view() == all_identified(accounts.deep_view(), rows.deep_view()),
{
    let ghost all = all_identified(accounts.deep_view(), rows.deep_view());
    let mut out: Vec<AccountRecord> = Vec::new();
    let mut i: usize = 0;
    while i < accounts.len()
        invariant
            i <= accounts@.len(),
            all == all_identified(accounts.deep_view(), rows.deep_view()),
            out.deep_view() == all.take(i as int),
        decreases accounts@.len() - i,
    {
        let ghost before = out.deep_view();
        assert(accounts.deep_view()[i as int] == accounts@[i as int].deep_view());
        let mut account = accounts[i].duplicate();
        match find_identity(rows, account.plugin_id.as_str(), account.alias.as_str()) {
            Some(row) => {
                account.email = missing_or(&account.email, &row.email);
                account.org_name = missing_or(&account.org_name, &row.org_name);
                account.plan = missing_or(&account.plan, &row.plan);
            },
            None => {},
        }
        out.push(account);
        assert(out.deep_view() == before.push(all[i as int]));
        assert(all.take(i + 1) == all.take(i as int).push(all[i as int]));
        i = i + 1;
    }
    assert(all.take(all.len() as int) == all);
    out
}

/// A list with another item at a place, where there is such a place.
pub open spec fn replaced<T>(s: Seq<T>, i: int, x: T) -> Seq<T> {
    if 0 <= i < s.len() {
        s.update(i, x)
    } else {
        s
    }
}

/// The state after a piece of news, while it is waited for.
pub open spec fn after_event(s: ScreenView, event: EventView) -> ScreenView {
    match s.loader {
        None => s,
        Some(loader) => match event {
            EventView::Identities(rows) => ScreenView {
                accounts: all_identified(s.accounts, rows),
                ..s
            },
            EventView::Quota { index, summary } => ScreenView {
                account_quota: replaced(s.account_quota, index as int, summary),
                loader: Some(
                    LoaderView { pending: replaced(loader.pending, index as int, false), ..loader },
                ),
                ..s
            },
            EventView::SelectedUsage { index, snapshot } => if index == loader.selected_index {
                ScreenView {
                    usage: Some(snapshot),
                    loader: Some(LoaderView { selected_pending: false, ..loader }),
                    ..s
                }
            } else {
                s
            },
            EventView::Done => ScreenView {
                loader: Some(LoaderView { finished: true, selected_pending: false, ..loader }),
                ..s
            },
            EventView::Disconnected => ScreenView {
                loader: Some(LoaderView { finished: true, selected_pending: false, ..loader }),
                ..s
            },
        },
    }
}

/// Whether a piece of news is to be shown.
pub open spec fn is_news(s: ScreenView, event: EventView) -> bool {
    match s.loader {
        None => false,
        Some(loader) => match event {
            EventView::SelectedUsage { index, .. } => index == loader.selected_index,
            EventView::Disconnected => false,
            _ => true,
        },
    }
}

/// The state after some news.
pub open spec fn after_events(s: ScreenView, events: Seq<EventView>) -> ScreenView
    decreases events.len(),
{
    if events.len() == 0 {
        s
    } else {
        after_event(after_events(s, events.drop_last()), events.last())
    }
}

/// Whether one of some news is to be shown.
pub open spec fn any_news(s: ScreenView, events: Seq<EventView>) -> bool
    decreases events.len(),
{
    if events.len() == 0 {
        false
    } else {
        any_news(s, events.drop_last()) || is_news(
            after_events(s, events.drop_last()),
            events.last(),
        )
    }
}

/// Whether news are waited for.
pub open spec fn is_waiting(s: ScreenView) -> bool {
    s.loader matches Some(loader) && !loader.finished
}

/// The state once the news are no longer waited for.
pub open spec fn settled(s: ScreenView) -> ScreenView {
    if is_waiting(s) {
        s
    } else {
        ScreenView { loader: None, ..s }
    }
}

pub open spec fn next_tick(tick: usize) -> usize {
    if tick == usize::MAX {
        0
    } else {
        (tick + 1) as usize
    }
}

/// The state after some time has passed, in which some news came.
pub open spec fn after_tick(s: ScreenView, events: Seq<EventView>) -> ScreenView {
    let after = settled(after_events(s, events));
    if is_waiting(s) {
        ScreenView {
            spinner_tick: next_tick(s.spinner_tick),
            status: if is_waiting(after) {
                after.status
            } else {
                "Usage ready."@
            },
            ..after
        }
    } else {
        after
    }
}

impl Screen {
    fn take_event(&mut self, event: QuotaEvent) -> (r: bool)
        ensures
            final(self).deep_view() == after_event(old(self).deep_view(), event.deep_view()),
            r == is_news(old(self).deep_view(), event.deep_view()),
    {
        let ghost before = self.deep_view();
        match &mut self.loader {
            None => false,
            Some(loader) => match event {
                QuotaEvent::Identities(rows) => {
                    self.accounts = identify_accounts(&self.accounts, &rows);
                    true
                },
                QuotaEvent::Quota { index, summary } => {
                    let ghost v = summary.deep_view();
                    if index < loader.pending.len() {
                        loader.pending.set(index, false);
                    }
                    if index < self.account_quota.len() {
                        let ghost quotas = self.account_quota.deep_view();
                        self.account_quota.set(index, summary);
                        assert(self.account_quota.deep_view() == quotas.update(index as int, v));
                    }
                    true
                },
                QuotaEvent::SelectedUsage { index, snapshot } => if index == loader.selected_index {
                    loader.selected_pending = false;
                    self.usage = Some(snapshot);
                    true
                } else {
                    false
                },
                QuotaEvent::Done => {
                    loader.finished = true;
                    loader.selected_pending = false;
                    true
                },
                QuotaEvent::Disconnected => {
                    loader.finished = true;
                    loader.selected_pending = false;
                    false
                },
            },
        }
    }

    /// Takes up some news, in the order in which they came; says whether there is something to show.
    pub fn drain(&mut self, events: Vec<QuotaEvent>) -> (r: bool)
        ensures
            final(self).deep_view() == after_events(old(self).deep_view(), events.deep_view()),
            r == any_news(old(self).deep_view(), events.deep_view()),
    {
        let ghost start = self.deep_view();
        let ghost all = events.deep_view();
        let mut rest = events;
        let ghost mut done: int = 0;
        let mut updated = false;
        assert(all.subrange(0, all.len() as int) == all);
        assert(all.take(0) == Seq::<EventView>::empty());
        while rest.len() > 0
            invariant
                0 <= done <= all.len(),
                rest.deep_view() == all.subrange(done, all.len() as int),
                self.deep_view() == after_events(start, all.take(done)),
                updated == any_news(start, all.take(done)),
            decreases rest@.len(),
        {
            let ghost before = rest.deep_view();
            let event = rest.remove(0);
            proof {
                assert(before[0] == event.deep_view());
                assert(rest.deep_view() == before.drop_first());
                assert(all.take(done + 1).drop_last() == all.take(done));
                assert(all.take(done + 1).last() == event.deep_view());
                assert(all.subrange(done, all.len() as int).drop_first() == all.subrange(
                    done + 1,
                    all.len() as int,
                ));
                done = done + 1;
            }
            if self.take_event(event) {
                updated = true;
            }
        }
        assert(rest.deep_view().len() == 0);
        assert(all.take(all.len() as int) == all);
        updated
    }

    /// Whether news are waited for.
    pub fn quota_is_loading(&self) -> (r: bool)
        ensures
            r == is_waiting(self.deep_view()),
    {
        match &self.loader {
            Some(loader) => !loader.finished,
            None => false,
        }
    }

    /// Whether what is left of the allowance of an account is waited for.
    pub fn quota_is_loading_for(&self, index: usize) -> (r: bool)
        ensures
            r == (self.deep_view().loader matches Some(loader) && index < loader.pending.len()
                && loader.pending[index as int]),
    {
        match &self.loader {
            Some(loader) => index < loader.pending.len() && loader.pending[index],
            None => false,
        }
    }

    /// Lets some time pass, in which some news came.
    pub fn tick(&mut self, events: Vec<QuotaEvent>)
        ensures
            final(self).deep_view() == after_tick(old(self).deep_view(), events.deep_view()),
    {
        let was_loading = self.quota_is_loading();
        let ghost before = self.deep_view();
        let ghost all = events.deep_view();
        let _ = self.drain(events);
        if !self.quota_is_loading() {
            self.loader = None;
        }
        proof {
            lemma_events_keep_the_tick(before, all);
        }
        if was_loading {
            self.spinner_tick = if self.spinner_tick == usize::MAX {
                0
            } else {
                self.spinner_tick + 1
            };
            if !self.quota_is_loading() {
                self.status = "Usage ready.".to_owned();
            }
        }
    }
}

proof fn lemma_events_keep_the_tick(s: ScreenView, events: Seq<EventView>)
    ensures
        after_events(s, events).spinner_tick == s.spinner_tick,
    decreases events.len(),
{
    if events.len() > 0 {
        lemma_events_keep_the_tick(s, events.drop_last());
    }
}

/// News never move the selection, and never change how many accounts there are.
pub proof fn news_keep_the_selection(s: ScreenView, events: Seq<EventView>)
    ensures
        after_events(s, events).selected == s.selected,
        after_events(s, events).accounts.len() == s.accounts.len(),
        after_events(s, events).account_quota.len() == s.account_quota.len(),
        after_events(s, events).panel == s.panel,
    decreases events.len(),
{
    if events.len() > 0 {
        news_keep_the_selection(s, events.drop_last());
    }
}

/// The numbers below `n` but one, rising.
pub open spec fn all_but(skipped: usize, n: nat) -> Seq<usize>
    decreases n,
{
    if n == 0 {
        seq![]
    } else if n - 1 == skipped {
        all_but(skipped, (n - 1) as nat)
    } else {
        all_but(skipped, (n - 1) as nat).push((n - 1) as usize)
    }
}

/// The order in which what is left of the allowances is loaded: the selected account first.
pub open spec fn load_order_of(selected: usize, n: nat) -> Seq<usize> {
    if selected < n {
        seq![selected] + all_but(selected, n)
    } else {
        all_but(selected, n)
    }
}

/// The order in which what is left of the allowances is loaded: the selected account first.
pub fn load_order(selected: usize, n: usize) -> (r: Vec<usize>)
    ensures
        r@ == load_order_of(selected, n as nat),
{
    let mut order: Vec<usize> = Vec::new();
    if selected < n {
        order.push(selected);
    }
    let ghost head = order@;
    let mut i: usize = 0;
    while i < n
        invariant
            i <= n,
            order@ == head + all_but(selected, i as nat),
        decreases n - i,
    {
        if i != selected {
            order.push(i);
        }
        assert(order@ == head + all_but(selected, (i + 1) as nat));
        i = i + 1;
    }
    if selected < n {
        assert(head == seq![selected]);
    } else {
        assert(head + all_but(selected, n as nat) == all_but(selected, n as nat));
    }
    order
}

/// The news of an account once its usage was read, with what is left of its allowance, or could not
/// be: the usage itself only where the account is the selected one, and before what is left.
pub open spec fn account_events(
    index: usize,
    selected: usize,
    outcome: Option<(SnapshotView, QuotaView)>,
) -> Seq<EventView> {
    match outcome {
        Some((snapshot, summary)) => if index == selected {
            seq![EventView::SelectedUsage { index, snapshot }, EventView::Quota { index, summary }]
        } else {
            seq![EventView::Quota { index, summary }]
        },
        None => seq![EventView::Quota { index, summary: unknown_quota() }],
    }
}

/// The news of an account once its usage was read, or could not be.
pub fn account_news(
    index: usize,
    selected: usize,
    outcome: Option<(UsageSnapshot, AccountQuotaSummary)>,
) -> (r: Vec<QuotaEvent>)
    ensures
        r.deep_view() == account_events(
            index,
            selected,
            match outcome {
                Some((snapshot, summary)) => Some((snapshot.deep_view(), summary.deep_view())),
                None => None,
            },
        ),
{
    let mut events: Vec<QuotaEvent> = Vec::new();
    match outcome {
        Some((snapshot, summary)) => {
            let ghost usage = snapshot.deep_view();
            let ghost left = summary.deep_view();
            if index == selected {
                events.push(QuotaEvent::SelectedUsage { index, snapshot });
            }
            events.push(QuotaEvent::Quota { index, summary });
            assert(events.deep_view() == account_events(index, selected, Some((usage, left))));
        },
        None => {
            events.push(QuotaEvent::Quota { index, summary: AccountQuotaSummary::unknown() });
            assert(events.deep_view() == account_events(index, selected, None));
        },
    }
    events
}

} // verus!
