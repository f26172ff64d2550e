//! What the full-screen view shows around the lists: the header, the footer, the help, and the selected
//! account.
use vstd::prelude::*;

use super::news::is_waiting;
use super::piece::{
    Line, Piece, PieceView, Style, Tone, badge, badge_of, bold, bold_style, detail_line, detail_of,
    line_of, metric_line, metrics_of, nav_pill, nav_pill_of, piece_of, plain, plain_style, push_piece,
    push_row, raw_style, styled, unstyled,
};
use super::screen::{
    AccountQuotaSummary, Panel, PercentView, QuotaView, Screen, ScreenView, unknown_quota,
};
use crate::account::{AccountRecord, RecordView};
use crate::quota::order_key;
use crate::text::{
    ascii_lower, chars_of, contains, decimal, decimal_of, has_part, join, join2, join3, join_of,
    lower_of, push_line, same, string_of, truncate_text, truncated,
};
use crate::text_map::Duplicate;
use crate::usage::snapshot::{SnapshotView, SummaryView, UsageSnapshot, UsageSourceSummary};
use crate::usage::{selection_name, window_name};

verus! {

// ---------------------------------------------------------------------------------------------
// Allowances
// ---------------------------------------------------------------------------------------------
/// What is left now: of the session, or else at all.
pub open spec fn left_now(q: QuotaView) -> Option<PercentView> {
    match q.session_remaining {
        Some(p) => Some(p),
        None => q.remaining,
    }
}

/// What is left now and in this week, in short.
pub open spec fn left_text(q: QuotaView) -> Seq<char> {
    match (left_now(q), q.weekly_remaining) {
        (Some(n), Some(w)) => n.compact + "/"@ + w.compact,
        (Some(n), None) => n.compact + "/-"@,
        (None, Some(w)) => "-/"@ + w.compact,
        (None, None) => "-"@,
    }
}

/// What is left now and in this week, in short.
pub fn quota_left_text(summary: &AccountQuotaSummary) -> (r: String)
    ensures
        r@ == left_text(summary.deep_view()),
{
    let now = match &summary.session_remaining {
        Some(p) => Some(p),
        None => match &summary.remaining {
            Some(p) => Some(p),
            None => None,
        },
    };
    match now {
        Some(n) => match &summary.weekly_remaining {
            Some(w) => join3(n.compact.as_str(), "/", w.compact.as_str()),
            None => join2(n.compact.as_str(), "/-"),
        },
        None => match &summary.weekly_remaining {
            Some(w) => join2("-/", w.compact.as_str()),
            None => "-".to_owned(),
        },
    }
}

/// What is left now and in this week, in words.
pub open spec fn left_badge(q: QuotaView) -> Option<Seq<char>> {
    match (left_now(q), q.weekly_remaining) {
        (Some(n), Some(w)) => Some(n.text + " now / "@ + w.text + " wk"@),
        (Some(n), None) => Some(n.text + " left"@),
        (None, Some(w)) => Some(w.text + " weekly"@),
        (None, None) => None,
    }
}

/// What is left now and in this week, in words.
pub fn quota_left_badge(summary: &AccountQuotaSummary) -> (r: Option<String>)
    ensures
        r.deep_view() == left_badge(summary.deep_view()),
{
    let now = match &summary.session_remaining {
        Some(p) => Some(p),
        None => match &summary.remaining {
            Some(p) => Some(p),
            None => None,
        },
    };
    match now {
        Some(n) => match &summary.weekly_remaining {
            Some(w) => Some(
                join2(join3(n.text.as_str(), " now / ", w.text.as_str()).as_str(), " wk"),
            ),
            None => Some(join2(n.text.as_str(), " left")),
        },
        None => match &summary.weekly_remaining {
            Some(w) => Some(join2(w.text.as_str(), " weekly")),
            None => None,
        },
    }
}

/// The bits of the percentages from which an allowance is nearly used up, and from which it is well
/// used: 85 and 60.
pub const NEARLY_USED: u64 = 0x4055_4000_0000_0000;

pub const WELL_USED: u64 = 0x404e_0000_0000_0000;

/// Whether the double precision number with these bits is at least the one with those; a value that is
/// no number is not.
pub open spec fn reaches(bits: u64, least: u64) -> bool {
    bits <= 0x7ff0_0000_0000_0000 && order_key(bits) >= order_key(least)
}

/// The colour for how much is used, given as the bits of a percentage.
pub open spec fn usage_tone(used: u64) -> Tone {
    if reaches(used, NEARLY_USED) {
        Tone::Warning
    } else if reaches(used, WELL_USED) {
        Tone::AccentSoft
    } else {
        Tone::Success
    }
}

/// How much of an allowance is used: what the summary says, or else what is beside the rest.
pub open spec fn used_in(q: QuotaView) -> Option<u64> {
    match (q.used, q.remaining) {
        (Some(used), _) => Some(used),
        (None, Some(remaining)) => Some(remaining.rest),
        (None, None) => None,
    }
}

/// How much of an allowance is used.
pub fn quota_used_from_summary(summary: &AccountQuotaSummary) -> (r: Option<u64>)
    ensures
        r == used_in(summary.deep_view()),
{
    match summary.used {
        Some(used) => Some(used),
        None => match &summary.remaining {
            Some(remaining) => Some(remaining.rest),
            None => None,
        },
    }
}

/// The colour for how much is used.
pub fn quota_usage_color(used: u64) -> (r: Tone)
    ensures
        r == usage_tone(used),
{
    let ordered = used <= 0x7ff0_0000_0000_0000;
    if ordered && used >= NEARLY_USED {
        Tone::Warning
    } else if ordered && used >= WELL_USED {
        Tone::AccentSoft
    } else {
        Tone::Success
    }
}

// ---------------------------------------------------------------------------------------------
// Accounts
// ---------------------------------------------------------------------------------------------
/// Whose an account is: its email, or else its plan.
pub open spec fn identity_text(account: RecordView) -> Seq<char> {
    match account.email {
        Some(e) => e,
        None => match account.plan {
            Some(p) => p,
            None => "-"@,
        },
    }
}

/// Whose an account is: its email, or else its plan.
pub fn account_identity(account: &AccountRecord) -> (r: String)
    ensures
        r@ == identity_text(account.deep_view()),
{
    match &account.email {
        Some(e) => e.clone(),
        None => match &account.plan {
            Some(p) => p.clone(),
            None => "-".to_owned(),
        },
    }
}

/// What else is known of an account.
pub open spec fn metadata_text(account: RecordView, max: nat) -> Seq<char> {
    match account.plan {
        Some(p) => truncated(p, max),
        None => "-"@,
    }
}

/// What else is known of an account.
pub fn account_metadata_summary(account: &AccountRecord, max_chars: usize) -> (r: String)
    ensures
        r@ == metadata_text(account.deep_view(), max_chars as nat),
{
    match &account.plan {
        Some(p) => truncate_text(p.as_str(), max_chars),
        None => "-".to_owned(),
    }
}

/// The lines for whose an account is.
pub open spec fn profile_of(account: RecordView) -> Seq<Seq<PieceView>> {
    let email = match account.email {
        Some(e) => seq![detail_of("Email"@, e)],
        None => seq![],
    };
    let plan = match account.plan {
        Some(p) => seq![detail_of("Plan"@, p)],
        None => seq![],
    };
    if (email + plan).len() == 0 {
        seq![detail_of("Profile"@, "No identity metadata"@)]
    } else {
        email + plan
    }
}

fn push_profile(lines: &mut Vec<Line>, account: &AccountRecord)
    ensures
        final(lines).deep_view() == old(lines).deep_view() + profile_of(account.deep_view()),
{
    let ghost before = lines.deep_view();
    match &account.email {
        Some(e) => {
            push_row(lines, detail_line("Email", e.as_str()));
        },
        None => {},
    }
    match &account.plan {
        Some(p) => {
            push_row(lines, detail_line("Plan", p.as_str()));
        },
        None => {},
    }
    if account.email.is_none() && account.plan.is_none() {
        push_row(lines, detail_line("Profile", "No identity metadata"));
    }
    assert(lines.deep_view() == before + profile_of(account.deep_view()));
}

// ---------------------------------------------------------------------------------------------
// The usage of the selected account
// ---------------------------------------------------------------------------------------------
/// A name with spaces for underscores; two names have a short form.
pub open spec fn short_name(name: Seq<char>) -> Seq<char> {
    if name == "cache_creation_tokens"@ {
        "cache_write"@
    } else if name == "cache_read_tokens"@ {
        "cache_read"@
    } else {
        spaced(name)
    }
}

/// A text with spaces for underscores.
pub open spec fn spaced(s: Seq<char>) -> Seq<char> {
    s.map_values(
        |c: char|
            if c == '_' {
                ' '
            } else {
                c
            },
    )
}

/// A name with spaces for underscores; two names have a short form.
pub fn shorten_extra_name(name: &str) -> (r: String)
    ensures
        r@ == short_name(name@),
{
    if same(name, "cache_creation_tokens") {
        return "cache_write".to_owned();
    }
    if same(name, "cache_read_tokens") {
        return "cache_read".to_owned();
    }
    let chars = chars_of(name);
    let mut out: Vec<char> = Vec::new();
    let mut i: usize = 0;
    while i < chars.len()
        invariant
            i <= chars@.len(),
            out@ == spaced(chars@).take(i as int),
        decreases chars@.len() - i,
    {
        let c = if chars[i] == '_' {
            ' '
        } else {
            chars[i]
        };
        out.push(c);
        assert(spaced(chars@).take(i + 1) == spaced(chars@).take(i as int).push(
            spaced(chars@)[i as int],
        ));
        i = i + 1;
    }
    assert(spaced(chars@).take(chars@.len() as int) == spaced(chars@));
    string_of(&out)
}

/// The other things that were used, in words; the amounts are given as they are shown.
pub open spec fn extra_words(extra: Seq<(Seq<char>, Seq<char>)>) -> Seq<Seq<char>> {
    extra.map_values(|e: (Seq<char>, Seq<char>)| short_name(e.0) + " "@ + e.1)
}

pub open spec fn first_two<T>(s: Seq<T>) -> Seq<T> {
    if s.len() <= 2 {
        s
    } else {
        s.take(2)
    }
}

pub open spec fn pairs(extra: Seq<(String, String)>) -> Seq<(Seq<char>, Seq<char>)> {
    extra.map_values(|e: (String, String)| (e.0@, e.1@))
}

/// The first two of the other things that were used.
pub open spec fn extra_text(extra: Seq<(Seq<char>, Seq<char>)>, max: nat) -> Seq<char> {
    if extra.len() == 0 {
        "-"@
    } else {
        truncated(join_of(first_two(extra_words(extra)), " | "@), max)
    }
}

/// The first two of the other things that were used; the amounts are given as they are shown.
pub fn format_extra_metrics(extra: &Vec<(String, String)>, max_chars: usize) -> (r: String)
    ensures
        r@ == extra_text(pairs(extra@), max_chars as nat),
{
    if extra.len() == 0 {
        return "-".to_owned();
    }
    let ghost all = extra_words(pairs(extra@));
    let count: usize = if extra.len() <= 2 {
        extra.len()
    } else {
        2
    };
    let mut items: Vec<String> = Vec::new();
    let mut i: usize = 0;
    assert(items.deep_view() == all.take(0));
    while i < count
        invariant
            i <= count,
            count <= extra@.len(),
            all == extra_words(pairs(extra@)),
            items.deep_view() == all.take(i as int),
        decreases count - i,
    {
        push_line(
            &mut items,
            join3(shorten_extra_name(extra[i].0.as_str()).as_str(), " ", extra[i].1.as_str()),
        );
        assert(all.take(i + 1) == all.take(i as int).push(all[i as int]));
        i = i + 1;
    }
    assert(all.take(count as int) == first_two(all));
    truncate_text(join(&items, " | ").as_str(), max_chars)
}

/// The first of the sources of a usage, and how many others there are.
pub open spec fn sources_text(sources: Seq<SummaryView>, max: nat) -> Seq<char> {
    if sources.len() == 0 {
        "-"@
    } else {
        let first = match sources[0].path_or_url {
            Some(p) => sources[0].kind + " "@ + p,
            None => sources[0].kind,
        };
        truncated(
            if sources.len() > 1 {
                first + " +"@ + decimal_of((sources.len() - 1) as nat)
            } else {
                first
            },
            max,
        )
    }
}

/// The first of the sources of a usage, and how many others there are.
pub fn format_source_summary(sources: &Vec<UsageSourceSummary>, max_chars: usize) -> (r: String)
    ensures
        r@ == sources_text(sources.deep_view(), max_chars as nat),
{
    if sources.len() == 0 {
        return "-".to_owned();
    }
    assert(sources.deep_view()[0] == sources@[0].deep_view());
    let first = match &sources[0].path_or_url {
        Some(p) => join3(sources[0].kind.as_str(), " ", p.as_str()),
        None => sources[0].kind.clone(),
    };
    let text = if sources.len() > 1 {
        join3(first.as_str(), " +", decimal(sources.len() as u64 - 1).as_str())
    } else {
        first
    };
    truncate_text(text.as_str(), max_chars)
}

/// The warnings of a usage.
pub open spec fn notes_text(warnings: Seq<Seq<char>>, max: nat) -> Seq<char> {
    if warnings.len() == 0 {
        "clean"@
    } else {
        truncated(join_of(warnings, " | "@), max)
    }
}

/// The warnings of a usage.
pub fn format_notes(warnings: &Vec<String>, max_chars: usize) -> (r: String)
    ensures
        r@ == notes_text(warnings.deep_view(), max_chars as nat),
{
    if warnings.len() == 0 {
        "clean".to_owned()
    } else {
        truncate_text(join(warnings, " | ").as_str(), max_chars)
    }
}

/// What of a usage is given as it is shown: its numbers, its allowance in words, and what is left of it.
pub struct UsageTexts {
    pub requests: String,
    pub tokens_in: String,
    pub tokens_out: String,
    pub cost: String,
    pub quota: String,
    pub left: AccountQuotaSummary,
    pub extra: Vec<(String, String)>,
}

pub struct UsageTextsView {
    pub requests: Seq<char>,
    pub tokens_in: Seq<char>,
    pub tokens_out: Seq<char>,
    pub cost: Seq<char>,
    pub quota: Seq<char>,
    pub left: QuotaView,
    pub extra: Seq<(Seq<char>, Seq<char>)>,
}

impl DeepView for UsageTexts {
    type V = UsageTextsView;

    open spec fn deep_view(&self) -> UsageTextsView {
        UsageTextsView {
            requests: self.requests@,
            tokens_in: self.tokens_in@,
            tokens_out: self.tokens_out@,
            cost: self.cost@,
            quota: self.quota@,
            left: self.left.deep_view(),
            extra: pairs(self.extra@),
        }
    }
}

/// A width less a margin; none where the margin is wider.
pub open spec fn less(width: u16, margin: int) -> nat {
    if width >= margin {
        (width - margin) as nat
    } else {
        0
    }
}

fn narrowed(width: u16, margin: u16) -> (r: usize)
    ensures
        r == less(width, margin as int),
{
    if width >= margin {
        (width - margin) as usize
    } else {
        0
    }
}

pub open spec fn or_dash(s: Option<Seq<char>>) -> Seq<char> {
    match s {
        Some(t) => t,
        None => "-"@,
    }
}

pub(crate) fn text_or_dash(s: &Option<String>) -> (r: String)
    ensures
        r@ == or_dash(s.deep_view()),
{
    match s {
        Some(t) => t.clone(),
        None => "-".to_owned(),
    }
}

/// The line with the name of an account.
pub open spec fn title_of(account: RecordView) -> Seq<PieceView> {
    seq![
        piece_of(account.plugin_id + "/"@ + account.alias, bold_style(Tone::Text)),
        piece_of(" "@, raw_style()),
        badge_of(
            if account.active {
                "ACTIVE"@
            } else {
                "saved"@
            },
            Tone::Text,
            if account.active {
                Tone::Success
            } else {
                Tone::Border
            },
        ),
    ]
}

fn title_line(account: &AccountRecord) -> (r: Line)
    ensures
        r.deep_view() == title_of(account.deep_view()),
{
    let mut pieces: Vec<Piece> = Vec::new();
    push_piece(
        &mut pieces,
        Piece {
            text: join3(account.plugin_id.as_str(), "/", account.alias.as_str()),
            style: bold(Tone::Text),
        },
    );
    push_piece(&mut pieces, unstyled(" "));
    if account.active {
        push_piece(&mut pieces, badge("ACTIVE", Tone::Text, Tone::Success));
    } else {
        push_piece(&mut pieces, badge("saved", Tone::Text, Tone::Border));
    }
    let r = Line { pieces };
    assert(r.deep_view() == title_of(account.deep_view()));
    r
}

/// The lines for a usage where there is little room.
pub open spec fn compact_usage(
    snapshot: SnapshotView,
    texts: UsageTextsView,
    last_used: Seq<char>,
    width: u16,
) -> Seq<Seq<PieceView>> {
    seq![
        seq![
            piece_of("Last  "@, bold_style(Tone::AccentSoft)),
            piece_of(last_used, plain_style(Tone::Text)),
            piece_of(" "@, raw_style()),
            badge_of(window_name(snapshot.window), Tone::Text, Tone::Border),
        ],
        metrics_of(
            ("Left"@, left_text(texts.left)),
            ("Reset"@, or_dash(texts.left.reset_time)),
            (
                "Mode"@,
                selection_name(snapshot.source) + if snapshot.cached {
                    " cached"@
                } else {
                    ""@
                },
            ),
        ),
        metrics_of(
            ("Req"@, texts.requests),
            ("In"@, texts.tokens_in),
            ("Out"@, texts.tokens_out),
        ),
        metrics_of(
            ("Cost"@, texts.cost),
            ("Quota"@, truncated(texts.quota, less(width, 24))),
            ("Srcs"@, decimal_of(snapshot.sources.len())),
        ),
        detail_of("Source"@, sources_text(snapshot.sources, less(width, 12))),
        if snapshot.warnings.len() == 0 {
            detail_of("Extra"@, extra_text(texts.extra, less(width, 12)))
        } else {
            detail_of("Notes"@, notes_text(snapshot.warnings, less(width, 12)))
        },
    ]
}

fn push_compact_usage(
    lines: &mut Vec<Line>,
    snapshot: &UsageSnapshot,
    texts: &UsageTexts,
    last_used: &str,
    width: u16,
)
    ensures
        final(lines).deep_view() == old(lines).deep_view() + compact_usage(
            snapshot.deep_view(),
            texts.deep_view(),
            last_used@,
            width,
        ),
{
    let ghost before = lines.deep_view();
    let mut pieces: Vec<Piece> = Vec::new();
    push_piece(&mut pieces, styled("Last  ", bold(Tone::AccentSoft)));
    push_piece(&mut pieces, styled(last_used, plain(Tone::Text)));
    push_piece(&mut pieces, unstyled(" "));
    push_piece(&mut pieces, badge(snapshot.window.as_str(), Tone::Text, Tone::Border));
    let first = Line { pieces };
    assert(first.deep_view() == seq![
        piece_of("Last  "@, bold_style(Tone::AccentSoft)),
        piece_of(last_used@, plain_style(Tone::Text)),
        piece_of(" "@, raw_style()),
        badge_of(window_name(snapshot.window), Tone::Text, Tone::Border),
    ]);
    push_row(lines, first);
    let mode = join2(
        snapshot.source.as_str(),
        if snapshot.cached {
            " cached"
        } else {
            ""
        },
    );
    push_row(
        lines,
        metric_line(
            ("Left", quota_left_text(&texts.left).as_str()),
            ("Reset", text_or_dash(&texts.left.reset_time).as_str()),
            ("Mode", mode.as_str()),
        ),
    );
    push_row(
        lines,
        metric_line(
            ("Req", texts.requests.as_str()),
            ("In", texts.tokens_in.as_str()),
            ("Out", texts.tokens_out.as_str()),
        ),
    );
    push_row(
        lines,
        metric_line(
            ("Cost", texts.cost.as_str()),
            ("Quota", truncate_text(texts.quota.as_str(), narrowed(width, 24)).as_str()),
            ("Srcs", decimal(snapshot.sources.len() as u64).as_str()),
        ),
    );
    push_row(
        lines,
        detail_line(
            "Source",
            format_source_summary(&snapshot.sources, narrowed(width, 12)).as_str(),
        ),
    );
    if snapshot.warnings.len() == 0 {
        push_row(
            lines,
            detail_line("Extra", format_extra_metrics(&texts.extra, narrowed(width, 12)).as_str()),
        );
    } else {
        push_row(
            lines,
            detail_line("Notes", format_notes(&snapshot.warnings, narrowed(width, 12)).as_str()),
        );
    }
    assert(lines.deep_view() == before + compact_usage(
        snapshot.deep_view(),
        texts.deep_view(),
        last_used@,
        width,
    ));
}

/// The lines for a usage where there is room.
pub open spec fn wide_usage(
    snapshot: SnapshotView,
    texts: UsageTextsView,
    last_used: Seq<char>,
    width: u16,
) -> Seq<Seq<PieceView>> {
    seq![
        seq![
            piece_of("Last  "@, bold_style(Tone::AccentSoft)),
            piece_of(last_used, plain_style(Tone::Text)),
            piece_of("  "@, raw_style()),
            badge_of(window_name(snapshot.window), Tone::Text, Tone::Border),
            piece_of(" "@, raw_style()),
            badge_of(selection_name(snapshot.source), Tone::Text, Tone::Accent),
            piece_of(" "@, raw_style()),
            if snapshot.cached {
                badge_of("cached"@, Tone::Text, Tone::AccentSoft)
            } else {
                badge_of("live"@, Tone::Text, Tone::Success)
            },
        ],
        metrics_of(
            ("Left"@, left_text(texts.left)),
            ("Reset"@, or_dash(texts.left.reset_time)),
            ("Srcs"@, decimal_of(snapshot.sources.len())),
        ),
        metrics_of(
            ("Req"@, texts.requests),
            ("In"@, texts.tokens_in),
            ("Out"@, texts.tokens_out),
        ),
        metrics_of(
            ("Cost"@, texts.cost),
            ("Quota"@, truncated(texts.quota, less(width, 28))),
            ("Mode"@, selection_name(snapshot.source)),
        ),
        detail_of("Extra"@, extra_text(texts.extra, less(width, 12))),
        detail_of("Source"@, sources_text(snapshot.sources, less(width, 12))),
        detail_of("Notes"@, notes_text(snapshot.warnings, less(width, 12))),
    ]
}

fn push_wide_usage(
    lines: &mut Vec<Line>,
    snapshot: &UsageSnapshot,
    texts: &UsageTexts,
    last_used: &str,
    width: u16,
)
    ensures
        final(lines).deep_view() == old(lines).deep_view() + wide_usage(
            snapshot.deep_view(),
            texts.deep_view(),
            last_used@,
            width,
        ),
{
    let ghost before = lines.deep_view();
    let mut pieces: Vec<Piece> = Vec::new();
    push_piece(&mut pieces, styled("Last  ", bold(Tone::AccentSoft)));
    push_piece(&mut pieces, styled(last_used, plain(Tone::Text)));
    push_piece(&mut pieces, unstyled("  "));
    push_piece(&mut pieces, badge(snapshot.window.as_str(), Tone::Text, Tone::Border));
    push_piece(&mut pieces, unstyled(" "));
    push_piece(&mut pieces, badge(snapshot.source.as_str(), Tone::Text, Tone::Accent));
    push_piece(&mut pieces, unstyled(" "));
    if snapshot.cached {
        push_piece(&mut pieces, badge("cached", Tone::Text, Tone::AccentSoft));
    } else {
        push_piece(&mut pieces, badge("live", Tone::Text, Tone::Success));
    }
    let first = Line { pieces };
    assert(first.deep_view() == wide_usage(
        snapshot.deep_view(),
        texts.deep_view(),
        last_used@,
        width,
    )[0]);
    push_row(lines, first);
    push_row(
        lines,
        metric_line(
            ("Left", quota_left_text(&texts.left).as_str()),
            ("Reset", text_or_dash(&texts.left.reset_time).as_str()),
            ("Srcs", decimal(snapshot.sources.len() as u64).as_str()),
        ),
    );
    push_row(
        lines,
        metric_line(
            ("Req", texts.requests.as_str()),
            ("In", texts.tokens_in.as_str()),
            ("Out", texts.tokens_out.as_str()),
        ),
    );
    push_row(
        lines,
        metric_line(
            ("Cost", texts.cost.as_str()),
            ("Quota", truncate_text(texts.quota.as_str(), narrowed(width, 28)).as_str()),
            ("Mode", snapshot.source.as_str()),
        ),
    );
    push_row(
        lines,
        detail_line("Extra", format_extra_metrics(&texts.extra, narrowed(width, 12)).as_str()),
    );
    push_row(
        lines,
        detail_line(
            "Source",
            format_source_summary(&snapshot.sources, narrowed(width, 12)).as_str(),
        ),
    );
    push_row(
        lines,
        detail_line("Notes", format_notes(&snapshot.warnings, narrowed(width, 12)).as_str()),
    );
    assert(lines.deep_view() == before + wide_usage(
        snapshot.deep_view(),
        texts.deep_view(),
        last_used@,
        width,
    ));
}

/// What is shown of the selected account. `texts` are what of its usage is given as it is shown, and
/// `last_used` is when it was last used.
pub open spec fn selection_of(
    s: ScreenView,
    texts: UsageTextsView,
    last_used: Seq<char>,
    width: u16,
    height: u16,
) -> Seq<Seq<PieceView>> {
    if s.selected < s.accounts.len() {
        let account = s.accounts[s.selected as int];
        if height <= 10 {
            let head = seq![title_of(account), detail_of("Who"@, identity_text(account))];
            let meta = metadata_text(account, less(width, 12));
            let head = if meta != "-"@ {
                head.push(detail_of("Meta"@, meta))
            } else {
                head
            };
            match s.usage {
                Some(snapshot) => head + compact_usage(snapshot, texts, last_used, width),
                None => head + seq![
                    detail_of("Last"@, last_used),
                    detail_of("Usage"@, "No usage snapshot loaded"@),
                ],
            }
        } else {
            let head = seq![title_of(account)] + profile_of(account);
            match s.usage {
                Some(snapshot) => head + wide_usage(snapshot, texts, last_used, width),
                None => head + seq![
                    seq![
                        piece_of("Last  "@, bold_style(Tone::AccentSoft)),
                        piece_of(last_used, plain_style(Tone::Text)),
                    ],
                    detail_of("Usage"@, "No usage snapshot loaded"@),
                ],
            }
        }
    } else {
        seq![seq![piece_of("No saved accounts."@, plain_style(Tone::Muted))]]
    }
}

impl Screen {
    fn compact_details(
        &self,
        texts: &UsageTexts,
        last_used: &str,
        width: u16,
        height: u16,
    ) -> (r: Vec<Line>)
        requires
            self.deep_view().selected < self.deep_view().accounts.len(),
            height <= 10,
        ensures
            r.deep_view() == selection_of(
                self.deep_view(),
                texts.deep_view(),
                last_used@,
                width,
                height,
            ),
    {
        let ghost s = self.deep_view();
        let account = &self.accounts[self.selected];
        let ghost a = account.deep_view();
        assert(s.accounts[s.selected as int] == a);
        let mut lines: Vec<Line> = Vec::new();
        push_row(&mut lines, title_line(account));
        push_row(&mut lines, detail_line("Who", account_identity(account).as_str()));
        assert(lines.deep_view() == seq![title_of(a), detail_of("Who"@, identity_text(a))]);
        let meta = account_metadata_summary(account, narrowed(width, 12));
        if !same(meta.as_str(), "-") {
            push_row(&mut lines, detail_line("Meta", meta.as_str()));
        }
        let ghost head = lines.deep_view();
        match &self.usage {
            Some(snapshot) => {
                push_compact_usage(&mut lines, snapshot, texts, last_used, width);
            },
            None => {
                push_row(&mut lines, detail_line("Last", last_used));
                push_row(&mut lines, detail_line("Usage", "No usage snapshot loaded"));
                assert(lines.deep_view() == head + seq![
                    detail_of("Last"@, last_used@),
                    detail_of("Usage"@, "No usage snapshot loaded"@),
                ]);
            },
        }
        lines
    }

    fn wide_details(&self, texts: &UsageTexts, last_used: &str, width: u16, height: u16) -> (r: Vec<
        Line,
    >)
        requires
            self.deep_view().selected < self.deep_view().accounts.len(),
            height > 10,
        ensures
            r.deep_view() == selection_of(
                self.deep_view(),
                texts.deep_view(),
                last_used@,
                width,
                height,
            ),
    {
        let ghost s = self.deep_view();
        let account = &self.accounts[self.selected];
        let ghost a = account.deep_view();
        assert(s.accounts[s.selected as int] == a);
        let mut lines: Vec<Line> = Vec::new();
        push_row(&mut lines, title_line(account));
        assert(lines.deep_view() == seq![title_of(a)]);
        push_profile(&mut lines, account);
        let ghost head = lines.deep_view();
        match &self.usage {
            Some(snapshot) => {
                push_wide_usage(&mut lines, snapshot, texts, last_used, width);
            },
            None => {
                let mut pieces: Vec<Piece> = Vec::new();
                push_piece(&mut pieces, styled("Last  ", bold(Tone::AccentSoft)));
                push_piece(&mut pieces, styled(last_used, plain(Tone::Text)));
                let first = Line { pieces };
                let ghost f = seq![
                    piece_of("Last  "@, bold_style(Tone::AccentSoft)),
                    piece_of(last_used@, plain_style(Tone::Text)),
                ];
                assert(first.deep_view() == f);
                push_row(&mut lines, first);
                push_row(&mut lines, detail_line("Usage", "No usage snapshot loaded"));
                assert(lines.deep_view() == head + seq![
                    f,
                    detail_of("Usage"@, "No usage snapshot loaded"@),
                ]);
            },
        }
        lines
    }

    /// What is shown of the selected account.
    pub fn selection_details(
        &self,
        texts: &UsageTexts,
        last_used: &str,
        width: u16,
        height: u16,
    ) -> (r: Vec<Line>)
        ensures
            r.deep_view() == selection_of(
                self.deep_view(),
                texts.deep_view(),
                last_used@,
                width,
                height,
            ),
    {
        if self.selected < self.accounts.len() {
            if height <= 10 {
                self.compact_details(texts, last_used, width, height)
            } else {
                self.wide_details(texts, last_used, width, height)
            }
        } else {
            let mut lines: Vec<Line> = Vec::new();
            push_row(&mut lines, line_of(styled("No saved accounts.", plain(Tone::Muted))));
            assert(lines.deep_view() == seq![
                seq![piece_of("No saved accounts."@, plain_style(Tone::Muted))],
            ]);
            lines
        }
    }
}

// ---------------------------------------------------------------------------------------------
// The header
// ---------------------------------------------------------------------------------------------
/// How many accounts are active.
pub open spec fn active_count(accounts: Seq<RecordView>) -> nat
    decreases accounts.len(),
{
    if accounts.len() == 0 {
        0
    } else {
        active_count(accounts.drop_last()) + if accounts.last().active {
            1nat
        } else {
            0nat
        }
    }
}

/// How many accounts are active.
pub fn count_active(accounts: &Vec<AccountRecord>) -> (r: usize)
    ensures
        r == active_count(accounts.deep_view()),
{
    let ghost all = accounts.deep_view();
    let mut n: usize = 0;
    let mut i: usize = 0;
    while i < accounts.len()
        invariant
            i <= accounts@.len(),
            n <= i,
            all == accounts.deep_view(),
            n == active_count(all.take(i as int)),
        decreases accounts@.len() - i,
    {
        assert(all.take(i + 1).drop_last() == all.take(i as int));
        assert(all[i as int] == accounts@[i as int].deep_view());
        if accounts[i].active {
            n = n + 1;
        }
        i = i + 1;
    }
    assert(all.take(all.len() as int) == all);
    n
}

/// How many plugins are loaded.
pub open spec fn loaded_count(plugins: Seq<crate::account::StatusRowView>) -> nat
    decreases plugins.len(),
{
    if plugins.len() == 0 {
        0
    } else {
        loaded_count(plugins.drop_last()) + if plugins.last().loaded {
            1nat
        } else {
            0nat
        }
    }
}

/// How many plugins are loaded.
pub fn count_loaded(plugins: &Vec<crate::account::PluginStatusRow>) -> (r: usize)
    ensures
        r == loaded_count(plugins.deep_view()),
{
    let ghost all = plugins.deep_view();
    let mut n: usize = 0;
    let mut i: usize = 0;
    while i < plugins.len()
        invariant
            i <= plugins@.len(),
            n <= i,
            all == plugins.deep_view(),
            n == loaded_count(all.take(i as int)),
        decreases plugins@.len() - i,
    {
        assert(all.take(i + 1).drop_last() == all.take(i as int));
        assert(all[i as int] == plugins@[i as int].deep_view());
        if plugins[i].loaded {
            n = n + 1;
        }
        i = i + 1;
    }
    assert(all.take(all.len() as int) == all);
    n
}

/// A picture for the time that passes.
pub open spec fn spinner_of(tick: usize) -> Seq<char> {
    let k = tick % 10;
    if k == 0 {
        "\u{280b}"@
    } else if k == 1 {
        "\u{2819}"@
    } else if k == 2 {
        "\u{2839}"@
    } else if k == 3 {
        "\u{2838}"@
    } else if k == 4 {
        "\u{283c}"@
    } else if k == 5 {
        "\u{2834}"@
    } else if k == 6 {
        "\u{2826}"@
    } else if k == 7 {
        "\u{2827}"@
    } else if k == 8 {
        "\u{2807}"@
    } else {
        "\u{280f}"@
    }
}

/// The first line of the header.
pub open spec fn top_line_of(s: ScreenView) -> Seq<PieceView> {
    let gap = piece_of("  "@, raw_style());
    seq![
        badge_of("ASWITCH"@, Tone::Text, Tone::Accent),
        gap,
        piece_of(decimal_of(s.accounts.len()) + " accounts"@, bold_style(Tone::Text)),
        gap,
        piece_of(decimal_of(active_count(s.accounts)) + " live"@, plain_style(Tone::Success)),
        gap,
        piece_of(decimal_of(loaded_count(s.plugins)) + " plugins"@, plain_style(Tone::Muted)),
        piece_of("   "@, raw_style()),
        nav_pill_of("1 Switch"@, s.panel == Panel::Switch),
        piece_of(" "@, raw_style()),
        nav_pill_of("2 Plugins"@, s.panel == Panel::Plugins),
        gap,
        if is_waiting(s) {
            piece_of(
                spinner_of(s.spinner_tick) + " loading usage\u{2026}"@,
                bold_style(Tone::AccentSoft),
            )
        } else {
            piece_of(""@, raw_style())
        },
    ]
}

/// What is known of what is left of the allowance of the selected account: what its usage says, or else
/// what is shown in the list.
pub open spec fn selected_quota_of(s: ScreenView, usage_quota: QuotaView) -> Option<QuotaView> {
    if s.usage is Some && usage_quota != unknown_quota() {
        Some(usage_quota)
    } else if s.selected < s.account_quota.len() && s.account_quota[s.selected as int]
        != unknown_quota() {
        Some(s.account_quota[s.selected as int])
    } else {
        None
    }
}

/// The second line of the header: the selected account.
pub open spec fn selected_line_of(
    account: Option<RecordView>,
    quota: Option<QuotaView>,
    max: nat,
) -> Seq<PieceView> {
    let head = seq![
        badge_of("Selected"@, Tone::Text, Tone::SurfaceAlt),
        piece_of(" "@, raw_style()),
    ];
    match account {
        None => head.push(piece_of("No saved accounts"@, plain_style(Tone::Muted))),
        Some(a) => {
            let name = a.plugin_id + "/"@ + a.alias;
            let name = if identity_text(a) != "-"@ {
                name + "  "@ + identity_text(a)
            } else {
                name
            };
            let line = head.push(
                piece_of(
                    truncated(
                        name,
                        if max >= 18 {
                            (max - 18) as nat
                        } else {
                            0
                        },
                    ),
                    plain_style(Tone::Text),
                ),
            );
            match quota {
                None => line,
                Some(q) => {
                    let line = match left_badge(q) {
                        Some(left) => line.push(piece_of(" "@, raw_style())).push(
                            badge_of(
                                left,
                                Tone::Text,
                                match used_in(q) {
                                    Some(used) => usage_tone(used),
                                    None => Tone::Success,
                                },
                            ),
                        ),
                        None => line,
                    };
                    match q.reset_time {
                        Some(t) => line.push(piece_of(" "@, raw_style())).push(
                            piece_of("reset "@ + t, plain_style(Tone::Muted)),
                        ),
                        None => line,
                    }
                },
            }
        },
    }
}

/// The second line of the header: the selected account.
pub fn header_selected_line(
    account: Option<&AccountRecord>,
    quota: Option<&AccountQuotaSummary>,
    max_chars: usize,
) -> (r: Line)
    ensures
        r.deep_view() == selected_line_of(
            account.deep_view(),
            quota.deep_view(),
            max_chars as nat,
        ),
{
    let mut pieces: Vec<Piece> = Vec::new();
    push_piece(&mut pieces, badge("Selected", Tone::Text, Tone::SurfaceAlt));
    push_piece(&mut pieces, unstyled(" "));
    assert(pieces.deep_view() == seq![
        badge_of("Selected"@, Tone::Text, Tone::SurfaceAlt),
        piece_of(" "@, raw_style()),
    ]);
    match account {
        None => {
            push_piece(&mut pieces, styled("No saved accounts", plain(Tone::Muted)));
        },
        Some(a) => {
            let name = join3(a.plugin_id.as_str(), "/", a.alias.as_str());
            let identity = account_identity(a);
            let name = if !same(identity.as_str(), "-") {
                join3(name.as_str(), "  ", identity.as_str())
            } else {
                name
            };
            let room: usize = if max_chars >= 18 {
                max_chars - 18
            } else {
                0
            };
            push_piece(
                &mut pieces,
                Piece { text: truncate_text(name.as_str(), room), style: plain(Tone::Text) },
            );
            match quota {
                None => {},
                Some(q) => {
                    match quota_left_badge(q) {
                        Some(left) => {
                            let ground = match quota_used_from_summary(q) {
                                Some(used) => quota_usage_color(used),
                                None => Tone::Success,
                            };
                            push_piece(&mut pieces, unstyled(" "));
                            push_piece(&mut pieces, badge(left.as_str(), Tone::Text, ground));
                        },
                        None => {},
                    }
                    match &q.reset_time {
                        Some(t) => {
                            push_piece(&mut pieces, unstyled(" "));
                            push_piece(
                                &mut pieces,
                                Piece {
                                    text: join2("reset ", t.as_str()),
                                    style: plain(Tone::Muted),
                                },
                            );
                        },
                        None => {},
                    }
                },
            }
        },
    }
    Line { pieces }
}

impl Screen {
    /// A picture for the time that passes.
    pub fn spinner_glyph(&self) -> (r: &'static str)
        ensures
            r@ == spinner_of(self.deep_view().spinner_tick),
    {
        let k: usize = self.spinner_tick % 10;
        if k == 0 {
            "\u{280b}"
        } else if k == 1 {
            "\u{2819}"
        } else if k == 2 {
            "\u{2839}"
        } else if k == 3 {
            "\u{2838}"
        } else if k == 4 {
            "\u{283c}"
        } else if k == 5 {
            "\u{2834}"
        } else if k == 6 {
            "\u{2826}"
        } else if k == 7 {
            "\u{2827}"
        } else if k == 8 {
            "\u{2807}"
        } else {
            "\u{280f}"
        }
    }

    fn top_line(&self) -> (r: Line)
        ensures
            r.deep_view() == top_line_of(self.deep_view()),
    {
        let mut pieces: Vec<Piece> = Vec::new();
        push_piece(&mut pieces, badge("ASWITCH", Tone::Text, Tone::Accent));
        push_piece(&mut pieces, unstyled("  "));
        push_piece(
            &mut pieces,
            Piece {
                text: join2(decimal(self.accounts.len() as u64).as_str(), " accounts"),
                style: bold(Tone::Text),
            },
        );
        push_piece(&mut pieces, unstyled("  "));
        push_piece(
            &mut pieces,
            Piece {
                text: join2(decimal(count_active(&self.accounts) as u64).as_str(), " live"),
                style: plain(Tone::Success),
            },
        );
        push_piece(&mut pieces, unstyled("  "));
        push_piece(
            &mut pieces,
            Piece {
                text: join2(decimal(count_loaded(&self.plugins) as u64).as_str(), " plugins"),
                style: plain(Tone::Muted),
            },
        );
        push_piece(&mut pieces, unstyled("   "));
        push_piece(&mut pieces, nav_pill("1 Switch", self.panel == Panel::Switch));
        push_piece(&mut pieces, unstyled(" "));
        push_piece(&mut pieces, nav_pill("2 Plugins", self.panel == Panel::Plugins));
        push_piece(&mut pieces, unstyled("  "));
        if self.quota_is_loading() {
            push_piece(
                &mut pieces,
                Piece {
                    text: join2(self.spinner_glyph(), " loading usage\u{2026}"),
                    style: bold(Tone::AccentSoft),
                },
            );
        } else {
            push_piece(&mut pieces, unstyled(""));
        }
        let r = Line { pieces };
        assert(r.deep_view() == top_line_of(self.deep_view()));
        r
    }

    /// What is known of what is left of the allowance of the selected account. `usage_quota` is what its
    /// usage says.
    pub fn selected_quota_summary(&self, usage_quota: &AccountQuotaSummary) -> (r: Option<
        AccountQuotaSummary,
    >)
        ensures
            r.deep_view() == selected_quota_of(self.deep_view(), usage_quota.deep_view()),
    {
        if self.usage.is_some() && usage_quota.has_display() {
            return Some(usage_quota.duplicate());
        }
        if self.selected < self.account_quota.len() {
            assert(self.account_quota.deep_view()[self.selected as int]
                == self.account_quota@[self.selected as int].deep_view());
            if self.account_quota[self.selected].has_display() {
                return Some(self.account_quota[self.selected].duplicate());
            }
        }
        None
    }

    /// The header.
    pub fn header(&self, usage_quota: &AccountQuotaSummary, width: u16) -> (r: Vec<Line>)
        ensures
            r.deep_view() == ({
                let s = self.deep_view();
                seq![
                    top_line_of(s),
                    selected_line_of(
                        if s.selected < s.accounts.len() {
                            Some(s.accounts[s.selected as int])
                        } else {
                            None
                        },
                        selected_quota_of(s, usage_quota.deep_view()),
                        less(width, 4),
                    ),
                ]
            }),
    {
        let quota = self.selected_quota_summary(usage_quota);
        let quota_ref: Option<&AccountQuotaSummary> = match &quota {
            Some(q) => Some(q),
            None => None,
        };
        let account: Option<&AccountRecord> = if self.selected < self.accounts.len() {
            assert(self.accounts.deep_view()[self.selected as int]
                == self.accounts@[self.selected as int].deep_view());
            Some(&self.accounts[self.selected])
        } else {
            None
        };
        let mut lines: Vec<Line> = Vec::new();
        push_row(&mut lines, self.top_line());
        let second = header_selected_line(account, quota_ref, narrowed(width, 4));
        let ghost v = second.deep_view();
        push_row(&mut lines, second);
        assert(lines.deep_view() == seq![top_line_of(self.deep_view()), v]);
        lines
    }
}

// ---------------------------------------------------------------------------------------------
// The footer and the help
// ---------------------------------------------------------------------------------------------
/// How a message looks: as bad news, as good news, or neither.
pub open spec fn status_look(message: Seq<char>) -> Style {
    let m = lower_of(message);
    if has_part(m, "failed"@) || has_part(m, "error"@) || has_part(m, "unavailable"@) {
        bold_style(Tone::Warning)
    } else if has_part(m, "switched"@) || has_part(m, "refreshed"@) || has_part(m, "selected"@) {
        bold_style(Tone::Success)
    } else {
        plain_style(Tone::Text)
    }
}

/// How a message looks.
pub fn status_style(message: &str) -> (r: Style)
    ensures
        r == status_look(message@),
{
    let lower = ascii_lower(message);
    let m = lower.as_str();
    if contains(m, "failed") || contains(m, "error") || contains(m, "unavailable") {
        bold(Tone::Warning)
    } else if contains(m, "switched") || contains(m, "refreshed") || contains(m, "selected") {
        bold(Tone::Success)
    } else {
        plain(Tone::Text)
    }
}

pub open spec fn shortcuts_of(panel: Panel) -> Seq<char> {
    match panel {
        Panel::Switch => "q quit | ? help | Tab panel | j/k move | Enter switch | w/s/R usage"@,
        Panel::Plugins => "q quit | ? help | Tab panel | 1/2 jump panels"@,
    }
}

impl Screen {
    pub fn shortcut_text(&self) -> (r: &'static str)
        ensures
            r@ == shortcuts_of(self.deep_view().panel),
    {
        match self.panel {
            Panel::Switch => "q quit | ? help | Tab panel | j/k move | Enter switch | w/s/R usage",
            Panel::Plugins => "q quit | ? help | Tab panel | 1/2 jump panels",
        }
    }

    /// The footer.
    pub fn footer(&self, width: u16) -> (r: Vec<Line>)
        ensures
            r.deep_view() == ({
                let s = self.deep_view();
                seq![
                    seq![
                        piece_of("Keys  "@, bold_style(Tone::AccentSoft)),
                        piece_of(shortcuts_of(s.panel), plain_style(Tone::Text)),
                    ],
                    seq![
                        piece_of("Status "@, bold_style(Tone::AccentSoft)),
                        piece_of(truncated(s.status, less(width, 12)), status_look(s.status)),
                    ],
                ]
            }),
    {
        let mut keys: Vec<Piece> = Vec::new();
        push_piece(&mut keys, styled("Keys  ", bold(Tone::AccentSoft)));
        push_piece(&mut keys, styled(self.shortcut_text(), plain(Tone::Text)));
        let mut status: Vec<Piece> = Vec::new();
        push_piece(&mut status, styled("Status ", bold(Tone::AccentSoft)));
        push_piece(
            &mut status,
            Piece {
                text: truncate_text(self.status.as_str(), narrowed(width, 12)),
                style: status_style(self.status.as_str()),
            },
        );
        let first = Line { pieces: keys };
        let second = Line { pieces: status };
        let ghost f = seq![
            piece_of("Keys  "@, bold_style(Tone::AccentSoft)),
            piece_of(shortcuts_of(self.deep_view().panel), plain_style(Tone::Text)),
        ];
        let ghost g = seq![
            piece_of("Status "@, bold_style(Tone::AccentSoft)),
            piece_of(truncated(self.status@, less(width, 12)), status_look(self.status@)),
        ];
        assert(first.deep_view() == f);
        assert(second.deep_view() == g);
        let mut lines: Vec<Line> = Vec::new();
        push_row(&mut lines, first);
        push_row(&mut lines, second);
        assert(lines.deep_view() == seq![f, g]);
        lines
    }
}

/// The lines of the help.
pub open spec fn help_of() -> Seq<Seq<PieceView>> {
    seq![
        seq![badge_of("Global"@, Tone::Text, Tone::Accent)],
        seq![piece_of("q quit | ? close help | Tab or 1/2 switch panels"@, raw_style())],
        seq![piece_of(""@, raw_style())],
        seq![badge_of("Switch"@, Tone::Text, Tone::AccentSoft)],
        seq![piece_of("j/k or Up/Down move selection"@, raw_style())],
        seq![piece_of("Enter switches the selected account globally"@, raw_style())],
        seq![
            piece_of(
                "w changes usage window | s changes usage source | R refreshes usage"@,
                raw_style(),
            ),
        ],
        seq![piece_of(""@, raw_style())],
        seq![badge_of("Plugins"@, Tone::Text, Tone::Border)],
        seq![
            piece_of(
                "Read-only view of loaded plugin manifests and active aliases"@,
                raw_style(),
            ),
        ],
    ]
}

/// The lines of the help.
pub fn help_lines() -> (r: Vec<Line>)
    ensures
        r.deep_view() == help_of(),
{
    let mut lines: Vec<Line> = Vec::new();
    push_row(&mut lines, line_of(badge("Global", Tone::Text, Tone::Accent)));
    push_row(&mut lines, line_of(unstyled("q quit | ? close help | Tab or 1/2 switch panels")));
    push_row(&mut lines, line_of(unstyled("")));
    push_row(&mut lines, line_of(badge("Switch", Tone::Text, Tone::AccentSoft)));
    push_row(&mut lines, line_of(unstyled("j/k or Up/Down move selection")));
    push_row(&mut lines, line_of(unstyled("Enter switches the selected account globally")));
    push_row(
        &mut lines,
        line_of(
            unstyled("w changes usage window | s changes usage source | R refreshes usage"),
        ),
    );
    push_row(&mut lines, line_of(unstyled("")));
    push_row(&mut lines, line_of(badge("Plugins", Tone::Text, Tone::Border)));
    push_row(
        &mut lines,
        line_of(unstyled("Read-only view of loaded plugin manifests and active aliases")),
    );
    assert(lines.deep_view() == help_of());
    lines
}

} // verus!
