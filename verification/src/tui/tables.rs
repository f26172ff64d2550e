//! The lists of the full-screen view: the accounts and the plugins.
use vstd::prelude::*;

use super::details::{
    account_identity, active_count, count_active, count_loaded, identity_text, left_text,
    loaded_count, or_dash, quota_left_text, quota_usage_color, quota_used_from_summary, spinner_of,
    text_or_dash, usage_tone, used_in,
};
use super::piece::{
    Piece, PieceView, Style, Tone, badge_style, bold, bold_style, on_ground, piece_of, plain,
    plain_style, push_piece, raw, raw_style, styled, unstyled,
};
use super::screen::{AccountQuotaSummary, QuotaView, Screen, ScreenView, unknown_quota};
use crate::account::{PluginStatusRow, StatusRowView};
use crate::text::{decimal, decimal_of, join2, join3, push_line, truncate_text, truncated};
use crate::text_map::Duplicate;

verus! {

/// How wide a column is: just so wide, or at least.
#[derive(Clone, Copy, Debug, PartialEq, Eq, Structural)]
pub enum Width {
    Length(u16),
    Min(u16),
}

/// A row of a list.
pub struct TableRow {
    pub cells: Vec<Piece>,
    pub style: Style,
}

pub struct TableRowView {
    pub cells: Seq<PieceView>,
    pub style: Style,
}

impl DeepView for TableRow {
    type V = TableRowView;

    open spec fn deep_view(&self) -> TableRowView {
        TableRowView { cells: self.cells.deep_view(), style: self.style }
    }
}

/// A list: its title, and its columns and rows, or else a note that there is nothing in it.
pub enum Listing {
    Note { title: String, text: String },
    Table {
        title: String,
        header: Vec<String>,
        header_style: Style,
        widths: Vec<Width>,
        rows: Vec<TableRow>,
    },
}

pub enum ListingView {
    Note { title: Seq<char>, text: Seq<char> },
    Table {
        title: Seq<char>,
        header: Seq<Seq<char>>,
        header_style: Style,
        widths: Seq<Width>,
        rows: Seq<TableRowView>,
    },
}

impl DeepView for Listing {
    type V = ListingView;

    open spec fn deep_view(&self) -> ListingView {
        match self {
            Listing::Note { title, text } => ListingView::Note { title: title@, text: text@ },
            Listing::Table { title, header, header_style, widths, rows } => ListingView::Table {
                title: title@,
                header: header.deep_view(),
                header_style: *header_style,
                widths: widths@,
                rows: rows.deep_view(),
            },
        }
    }
}

/// How the names of the columns look.
pub open spec fn header_look() -> Style {
    badge_style(Tone::AccentSoft, Tone::SurfaceAlt)
}

/// How what is selected looks.
pub open spec fn selected_look() -> Style {
    badge_style(Tone::SelectedFg, Tone::SelectedBg)
}

/// How every other row of a list looks.
pub open spec fn striped(index: int) -> Style {
    if index % 2 == 0 {
        plain_style(Tone::Text)
    } else {
        plain_style(Tone::Muted)
    }
}

fn stripe(index: usize) -> (r: Style)
    ensures
        r == striped(index as int),
{
    if index % 2 == 0 {
        plain(Tone::Text)
    } else {
        plain(Tone::Muted)
    }
}

/// Where the two parts of the list of accounts stand.
#[derive(Clone, Copy, Debug, PartialEq, Eq, Structural)]
pub enum SwitchLayout {
    SideBySide,
    Stacked { detail_height: u16 },
}

/// Where the two parts of the list of accounts stand in so much room.
pub fn switch_layout(width: u16, height: u16) -> (r: SwitchLayout)
    ensures
        r == (if width >= 118 {
            SwitchLayout::SideBySide
        } else if height <= 17 {
            SwitchLayout::Stacked { detail_height: 9 }
        } else if height >= 19 {
            SwitchLayout::Stacked { detail_height: 11 }
        } else {
            SwitchLayout::Stacked { detail_height: 10 }
        }),
{
    if width >= 118 {
        return SwitchLayout::SideBySide;
    }
    let rest: u16 = height.saturating_sub(8);
    let detail_height: u16 = if rest < 9 {
        9
    } else if rest > 11 {
        11
    } else {
        rest
    };
    SwitchLayout::Stacked { detail_height }
}

/// Which columns the list of accounts has.
#[derive(Clone, Copy, Debug, PartialEq, Eq, Structural)]
pub enum AccountTableLayout {
    Compact,
    Wide,
}

pub open spec fn layout_for(width: u16) -> AccountTableLayout {
    if width < 104 {
        AccountTableLayout::Compact
    } else {
        AccountTableLayout::Wide
    }
}

/// Which columns the list of accounts has in so much room.
pub fn detect_account_table_layout(width: u16) -> (r: AccountTableLayout)
    ensures
        r == layout_for(width),
{
    if width < 104 {
        AccountTableLayout::Compact
    } else {
        AccountTableLayout::Wide
    }
}

// ---------------------------------------------------------------------------------------------
// Cells
// ---------------------------------------------------------------------------------------------
/// A cell for something that is waited for.
pub open spec fn pending_of(text: Seq<char>, selected: bool) -> PieceView {
    piece_of(
        text,
        if selected {
            selected_look()
        } else {
            bold_style(Tone::AccentSoft)
        },
    )
}

/// A cell for something that is waited for.
pub fn pending_cell(text: &str, selected: bool) -> (r: Piece)
    ensures
        r.deep_view() == pending_of(text@, selected),
{
    styled(
        text,
        if selected {
            on_ground(Tone::SelectedFg, Tone::SelectedBg)
        } else {
            bold(Tone::AccentSoft)
        },
    )
}

/// A cell for what is left of an allowance.
pub open spec fn left_cell(q: QuotaView, selected: bool) -> PieceView {
    piece_of(
        left_text(q),
        if selected {
            selected_look()
        } else {
            match used_in(q) {
                Some(used) => bold_style(usage_tone(used)),
                None => plain_style(Tone::Muted),
            }
        },
    )
}

/// A cell for what is left of an allowance.
pub fn quota_left_cell(summary: &AccountQuotaSummary, selected: bool) -> (r: Piece)
    ensures
        r.deep_view() == left_cell(summary.deep_view(), selected),
{
    Piece {
        text: quota_left_text(summary),
        style: if selected {
            on_ground(Tone::SelectedFg, Tone::SelectedBg)
        } else {
            match quota_used_from_summary(summary) {
                Some(used) => bold(quota_usage_color(used)),
                None => plain(Tone::Muted),
            }
        },
    }
}

/// A cell for when an allowance is renewed.
pub open spec fn reset_cell(q: QuotaView, selected: bool) -> PieceView {
    piece_of(
        or_dash(q.reset_time),
        if selected {
            selected_look()
        } else if q.reset_time is Some {
            plain_style(Tone::Text)
        } else {
            plain_style(Tone::Muted)
        },
    )
}

/// A cell for when an allowance is renewed.
pub fn quota_reset_cell(summary: &AccountQuotaSummary, selected: bool) -> (r: Piece)
    ensures
        r.deep_view() == reset_cell(summary.deep_view(), selected),
{
    Piece {
        text: text_or_dash(&summary.reset_time),
        style: if selected {
            on_ground(Tone::SelectedFg, Tone::SelectedBg)
        } else if summary.reset_time.is_some() {
            plain(Tone::Text)
        } else {
            plain(Tone::Muted)
        },
    }
}

/// How a plugin fares.
pub open spec fn plugin_state(plugin: StatusRowView) -> PieceView {
    if !plugin.loaded {
        piece_of("missing"@, bold_style(Tone::Warning))
    } else if plugin.warnings.len() != 0 {
        piece_of("warn"@, bold_style(Tone::AccentSoft))
    } else {
        piece_of("ok"@, bold_style(Tone::Success))
    }
}

/// How a plugin fares.
pub fn plugin_status(plugin: &PluginStatusRow) -> (r: Piece)
    ensures
        r.deep_view() == plugin_state(plugin.deep_view()),
{
    if !plugin.loaded {
        styled("missing", bold(Tone::Warning))
    } else if plugin.warnings.len() != 0 {
        styled("warn", bold(Tone::AccentSoft))
    } else {
        styled("ok", bold(Tone::Success))
    }
}

// ---------------------------------------------------------------------------------------------
// The accounts
// ---------------------------------------------------------------------------------------------
/// What is known of what is left of the allowance of an account.
pub open spec fn quota_at(s: ScreenView, i: int) -> QuotaView {
    if i < s.account_quota.len() {
        s.account_quota[i]
    } else {
        unknown_quota()
    }
}

/// Whether what is left of the allowance of an account is waited for.
pub open spec fn is_pending(s: ScreenView, i: int) -> bool {
    s.loader matches Some(loader) && i < loader.pending.len() && loader.pending[i]
}

/// The row of an account.
pub open spec fn account_row(s: ScreenView, layout: AccountTableLayout, i: int) -> TableRowView {
    let account = s.accounts[i];
    let selected = i == s.selected;
    let marker = if selected {
        piece_of(">"@, badge_style(Tone::AccentSoft, Tone::SelectedBg))
    } else {
        piece_of(" "@, plain_style(Tone::Border))
    };
    let state = if account.active {
        piece_of("LIVE"@, bold_style(Tone::Success))
    } else {
        piece_of("saved"@, plain_style(Tone::Muted))
    };
    let quota = quota_at(s, i);
    let waits = is_pending(s, i) && quota == unknown_quota();
    let left = if waits {
        pending_of(spinner_of(s.spinner_tick), selected)
    } else {
        left_cell(quota, selected)
    };
    let reset = if waits {
        pending_of("loading"@, selected)
    } else {
        reset_cell(quota, selected)
    };
    TableRowView {
        cells: match layout {
            AccountTableLayout::Compact => seq![
                marker,
                piece_of(
                    truncated(account.plugin_id + "/"@ + account.alias, 28),
                    raw_style(),
                ),
                piece_of(truncated(identity_text(account), 28), raw_style()),
                left,
                reset,
                state,
            ],
            AccountTableLayout::Wide => seq![
                marker,
                piece_of(account.plugin_id, raw_style()),
                piece_of(account.alias, raw_style()),
                piece_of(identity_text(account), raw_style()),
                left,
                reset,
                state,
            ],
        },
        style: if selected {
            selected_look()
        } else {
            striped(i)
        },
    }
}

pub open spec fn account_columns(layout: AccountTableLayout) -> Seq<Seq<char>> {
    match layout {
        AccountTableLayout::Compact => seq![
            ""@,
            "ACCOUNT"@,
            "IDENTITY"@,
            "LEFT now/wk"@,
            "RESET"@,
            "STATE"@,
        ],
        AccountTableLayout::Wide => seq![
            ""@,
            "PLUGIN"@,
            "ALIAS"@,
            "IDENTITY"@,
            "LEFT now/wk"@,
            "RESET"@,
            "STATE"@,
        ],
    }
}

pub open spec fn account_widths(layout: AccountTableLayout) -> Seq<Width> {
    match layout {
        AccountTableLayout::Compact => seq![
            Width::Length(2),
            Width::Length(28),
            Width::Min(14),
            Width::Length(11),
            Width::Length(12),
            Width::Length(8),
        ],
        AccountTableLayout::Wide => seq![
            Width::Length(2),
            Width::Length(14),
            Width::Length(16),
            Width::Min(18),
            Width::Length(11),
            Width::Length(12),
            Width::Length(8),
        ],
    }
}

/// The list of the accounts.
pub open spec fn account_listing(s: ScreenView, width: u16) -> ListingView {
    if s.accounts.len() == 0 {
        ListingView::Note {
            title: "Accounts"@,
            text: "No saved accounts yet. Use `aswitch save` to capture one."@,
        }
    } else {
        let layout = layout_for(width);
        ListingView::Table {
            title: "Accounts "@ + decimal_of(s.accounts.len()) + " saved / "@ + decimal_of(
                active_count(s.accounts),
            ) + " live"@,
            header: account_columns(layout),
            header_style: header_look(),
            widths: account_widths(layout),
            rows: Seq::new(s.accounts.len(), |i: int| account_row(s, layout, i)),
        }
    }
}

fn account_header(layout: AccountTableLayout) -> (r: Vec<String>)
    ensures
        r.deep_view() == account_columns(layout),
{
    let mut names: Vec<String> = Vec::new();
    push_line(&mut names, "".to_owned());
    match layout {
        AccountTableLayout::Compact => {
            push_line(&mut names, "ACCOUNT".to_owned());
        },
        AccountTableLayout::Wide => {
            push_line(&mut names, "PLUGIN".to_owned());
            push_line(&mut names, "ALIAS".to_owned());
        },
    }
    push_line(&mut names, "IDENTITY".to_owned());
    push_line(&mut names, "LEFT now/wk".to_owned());
    push_line(&mut names, "RESET".to_owned());
    push_line(&mut names, "STATE".to_owned());
    assert(names.deep_view() == account_columns(layout));
    names
}

fn account_column_widths(layout: AccountTableLayout) -> (r: Vec<Width>)
    ensures
        r@ == account_widths(layout),
{
    let mut widths: Vec<Width> = Vec::new();
    widths.push(Width::Length(2));
    match layout {
        AccountTableLayout::Compact => {
            widths.push(Width::Length(28));
            widths.push(Width::Min(14));
        },
        AccountTableLayout::Wide => {
            widths.push(Width::Length(14));
            widths.push(Width::Length(16));
            widths.push(Width::Min(18));
        },
    }
    widths.push(Width::Length(11));
    widths.push(Width::Length(12));
    widths.push(Width::Length(8));
    assert(widths@ == account_widths(layout));
    widths
}

impl Screen {
    /// What is known of what is left of the allowance of an account.
    pub fn account_quota_for_row(&self, index: usize) -> (r: AccountQuotaSummary)
        ensures
            r.deep_view() == quota_at(self.deep_view(), index as int),
    {
        if index < self.account_quota.len() {
            assert(self.account_quota.deep_view()[index as int]
                == self.account_quota@[index as int].deep_view());
            self.account_quota[index].duplicate()
        } else {
            AccountQuotaSummary::unknown()
        }
    }

    fn row_of_account(&self, layout: AccountTableLayout, index: usize) -> (r: TableRow)
        requires
            index < self.deep_view().accounts.len(),
        ensures
            r.deep_view() == account_row(self.deep_view(), layout, index as int),
    {
        let account = &self.accounts[index];
        assert(self.deep_view().accounts[index as int] == account.deep_view());
        let selected = index == self.selected;
        let marker = if selected {
            styled(">", on_ground(Tone::AccentSoft, Tone::SelectedBg))
        } else {
            styled(" ", plain(Tone::Border))
        };
        let state = if account.active {
            styled("LIVE", bold(Tone::Success))
        } else {
            styled("saved", plain(Tone::Muted))
        };
        let quota = self.account_quota_for_row(index);
        let waits = self.quota_is_loading_for(index) && !quota.has_display();
        let left = if waits {
            pending_cell(self.spinner_glyph(), selected)
        } else {
            quota_left_cell(&quota, selected)
        };
        let reset = if waits {
            pending_cell("loading", selected)
        } else {
            quota_reset_cell(&quota, selected)
        };
        let mut cells: Vec<Piece> = Vec::new();
        push_piece(&mut cells, marker);
        match layout {
            AccountTableLayout::Compact => {
                let name = join3(account.plugin_id.as_str(), "/", account.alias.as_str());
                push_piece(
                    &mut cells,
                    Piece { text: truncate_text(name.as_str(), 28), style: raw() },
                );
                push_piece(
                    &mut cells,
                    Piece {
                        text: truncate_text(account_identity(account).as_str(), 28),
                        style: raw(),
                    },
                );
            },
            AccountTableLayout::Wide => {
                push_piece(&mut cells, unstyled(account.plugin_id.as_str()));
                push_piece(&mut cells, unstyled(account.alias.as_str()));
                push_piece(&mut cells, unstyled(account_identity(account).as_str()));
            },
        }
        push_piece(&mut cells, left);
        push_piece(&mut cells, reset);
        push_piece(&mut cells, state);
        assert(cells.deep_view() == account_row(self.deep_view(), layout, index as int).cells);
        TableRow {
            cells,
            style: if selected {
                on_ground(Tone::SelectedFg, Tone::SelectedBg)
            } else {
                stripe(index)
            },
        }
    }

    /// The list of the accounts, in so much room.
    pub fn accounts_table(&self, width: u16) -> (r: Listing)
        ensures
            r.deep_view() == account_listing(self.deep_view(), width),
    {
        let ghost s = self.deep_view();
        if self.accounts.len() == 0 {
            return Listing::Note {
                title: "Accounts".to_owned(),
                text: "No saved accounts yet. Use `aswitch save` to capture one.".to_owned(),
            };
        }
        let layout = detect_account_table_layout(width);
        let ghost all = Seq::new(s.accounts.len(), |i: int| account_row(s, layout, i));
        let mut rows: Vec<TableRow> = Vec::new();
        let mut i: usize = 0;
        assert(rows.deep_view() == all.take(0));
        while i < self.accounts.len()
            invariant
                i <= self.accounts@.len(),
                s == self.deep_view(),
                all == Seq::new(s.accounts.len(), |i: int| account_row(s, layout, i)),
                rows.deep_view() == all.take(i as int),
            decreases self.accounts@.len() - i,
        {
            let ghost before = rows.deep_view();
            let row = self.row_of_account(layout, i);
            let ghost v = row.deep_view();
            rows.push(row);
            assert(rows.deep_view() == before.push(v));
            assert(all.take(i + 1) == all.take(i as int).push(all[i as int]));
            i = i + 1;
        }
        assert(all.take(all.len() as int) == all);
        let counted = join3(
            join2("Accounts ", decimal(self.accounts.len() as u64).as_str()).as_str(),
            " saved / ",
            decimal(count_active(&self.accounts) as u64).as_str(),
        );
        Listing::Table {
            title: join2(counted.as_str(), " live"),
            header: account_header(layout),
            header_style: on_ground(Tone::AccentSoft, Tone::SurfaceAlt),
            widths: account_column_widths(layout),
            rows,
        }
    }
}

// ---------------------------------------------------------------------------------------------
// The plugins
// ---------------------------------------------------------------------------------------------
/// The row of a plugin.
pub open spec fn plugin_row(plugin: StatusRowView, compact: bool, i: int) -> TableRowView {
    TableRowView {
        cells: if compact {
            seq![
                piece_of(plugin.plugin_id, raw_style()),
                piece_of(or_dash(plugin.active_alias), raw_style()),
                piece_of(decimal_of(plugin.account_count), raw_style()),
                plugin_state(plugin),
            ]
        } else {
            seq![
                piece_of(plugin.plugin_id, raw_style()),
                piece_of(
                    match plugin.display_name {
                        Some(name) => name,
                        None => plugin.plugin_id,
                    },
                    raw_style(),
                ),
                piece_of(or_dash(plugin.active_alias), raw_style()),
                piece_of(decimal_of(plugin.account_count), raw_style()),
                piece_of(or_dash(plugin.source), raw_style()),
                piece_of(or_dash(plugin.version), raw_style()),
                plugin_state(plugin),
            ]
        },
        style: striped(i),
    }
}

pub open spec fn plugin_columns(compact: bool) -> Seq<Seq<char>> {
    if compact {
        seq!["ID"@, "ACTIVE"@, "ACCTS"@, "STATUS"@]
    } else {
        seq!["ID"@, "NAME"@, "ACTIVE"@, "ACCTS"@, "SOURCE"@, "VERSION"@, "STATUS"@]
    }
}

pub open spec fn plugin_widths(compact: bool) -> Seq<Width> {
    if compact {
        seq![Width::Length(16), Width::Length(16), Width::Length(7), Width::Length(10)]
    } else {
        seq![
            Width::Length(14),
            Width::Length(22),
            Width::Length(16),
            Width::Length(7),
            Width::Length(10),
            Width::Length(10),
            Width::Length(10),
        ]
    }
}

/// The list of the plugins.
pub open spec fn plugin_listing(plugins: Seq<StatusRowView>, width: u16) -> ListingView {
    if plugins.len() == 0 {
        ListingView::Note { title: "Plugins"@, text: "No plugins discovered."@ }
    } else {
        let compact = width < 96;
        ListingView::Table {
            title: "Plugins "@ + decimal_of(plugins.len()) + " discovered / "@ + decimal_of(
                loaded_count(plugins),
            ) + " loaded"@,
            header: plugin_columns(compact),
            header_style: header_look(),
            widths: plugin_widths(compact),
            rows: Seq::new(plugins.len(), |i: int| plugin_row(plugins[i], compact, i)),
        }
    }
}

fn plugin_header(compact: bool) -> (r: Vec<String>)
    ensures
        r.deep_view() == plugin_columns(compact),
{
    let mut names: Vec<String> = Vec::new();
    push_line(&mut names, "ID".to_owned());
    if !compact {
        push_line(&mut names, "NAME".to_owned());
    }
    push_line(&mut names, "ACTIVE".to_owned());
    push_line(&mut names, "ACCTS".to_owned());
    if !compact {
        push_line(&mut names, "SOURCE".to_owned());
        push_line(&mut names, "VERSION".to_owned());
    }
    push_line(&mut names, "STATUS".to_owned());
    assert(names.deep_view() == plugin_columns(compact));
    names
}

fn plugin_column_widths(compact: bool) -> (r: Vec<Width>)
    ensures
        r@ == plugin_widths(compact),
{
    let mut widths: Vec<Width> = Vec::new();
    if compact {
        widths.push(Width::Length(16));
    } else {
        widths.push(Width::Length(14));
        widths.push(Width::Length(22));
    }
    widths.push(Width::Length(16));
    widths.push(Width::Length(7));
    if !compact {
        widths.push(Width::Length(10));
        widths.push(Width::Length(10));
    }
    widths.push(Width::Length(10));
    assert(widths@ == plugin_widths(compact));
    widths
}

fn row_of_plugin(plugin: &PluginStatusRow, compact: bool, index: usize) -> (r: TableRow)
    ensures
        r.deep_view() == plugin_row(plugin.deep_view(), compact, index as int),
{
    let mut cells: Vec<Piece> = Vec::new();
    push_piece(&mut cells, unstyled(plugin.plugin_id.as_str()));
    if !compact {
        match &plugin.display_name {
            Some(name) => {
                push_piece(&mut cells, unstyled(name.as_str()));
            },
            None => {
                push_piece(&mut cells, unstyled(plugin.plugin_id.as_str()));
            },
        }
    }
    push_piece(&mut cells, unstyled(text_or_dash(&plugin.active_alias).as_str()));
    push_piece(&mut cells, unstyled(decimal(plugin.account_count as u64).as_str()));
    if !compact {
        push_piece(&mut cells, unstyled(text_or_dash(&plugin.source).as_str()));
        push_piece(&mut cells, unstyled(text_or_dash(&plugin.version).as_str()));
    }
    push_piece(&mut cells, plugin_status(plugin));
    assert(cells.deep_view() == plugin_row(plugin.deep_view(), compact, index as int).cells);
    TableRow { cells, style: stripe(index) }
}

/// The list of the plugins, in so much room.
pub fn plugins_table(plugins: &Vec<PluginStatusRow>, width: u16) -> (r: Listing)
    ensures
        r.deep_view() == plugin_listing(plugins.deep_view(), width),
{
    if plugins.len() == 0 {
        return Listing::Note {
            title: "Plugins".to_owned(),
            text: "No plugins discovered.".to_owned(),
        };
    }
    let compact = width < 96;
    let ghost given = plugins.deep_view();
    let ghost all = Seq::new(given.len(), |i: int| plugin_row(given[i], compact, i));
    let mut rows: Vec<TableRow> = Vec::new();
    let mut i: usize = 0;
    assert(rows.deep_view() == all.take(0));
    while i < plugins.len()
        invariant
            i <= plugins@.len(),
            given == plugins.deep_view(),
            all == Seq::new(given.len(), |i: int| plugin_row(given[i], compact, i)),
            rows.deep_view() == all.take(i as int),
        decreases plugins@.len() - i,
    {
        let ghost before = rows.deep_view();
        assert(given[i as int] == plugins@[i as int].deep_view());
        let row = row_of_plugin(&plugins[i], compact, i);
        let ghost v = row.deep_view();
        rows.push(row);
        assert(rows.deep_view() == before.push(v));
        assert(all.take(i + 1) == all.take(i as int).push(all[i as int]));
        i = i + 1;
    }
    assert(all.take(all.len() as int) == all);
    let counted = join3(
        join2("Plugins ", decimal(plugins.len() as u64).as_str()).as_str(),
        " discovered / ",
        decimal(count_loaded(plugins) as u64).as_str(),
    );
    Listing::Table {
        title: join2(counted.as_str(), " loaded"),
        header: plugin_header(compact),
        header_style: on_ground(Tone::AccentSoft, Tone::SurfaceAlt),
        widths: plugin_column_widths(compact),
        rows,
    }
}

} // verus!
