//! Pieces of text with a style, and the lines that they make.
use vstd::prelude::*;

use crate::text::{join2, join3, pad_right, padded};

verus! {

/// The part that a colour plays.
#[derive(Clone, Copy, Debug, PartialEq, Eq, Structural)]
pub enum Tone {
    Text,
    Muted,
    Border,
    Accent,
    AccentSoft,
    Success,
    Warning,
    Surface,
    SurfaceAlt,
    HeaderBg,
    SelectedBg,
    SelectedFg,
}

/// How a text looks.
#[derive(Clone, Copy, Debug, PartialEq, Eq, Structural)]
pub struct Style {
    pub fg: Option<Tone>,
    pub bg: Option<Tone>,
    pub bold: bool,
}

/// A text and how it looks.
pub struct Piece {
    pub text: String,
    pub style: Style,
}

pub struct PieceView {
    pub text: Seq<char>,
    pub style: Style,
}

impl DeepView for Piece {
    type V = PieceView;

    open spec fn deep_view(&self) -> PieceView {
        PieceView { text: self.text@, style: self.style }
    }
}

/// A line of pieces.
pub struct Line {
    pub pieces: Vec<Piece>,
}

impl DeepView for Line {
    type V = Seq<PieceView>;

    open spec fn deep_view(&self) -> Seq<PieceView> {
        self.pieces.deep_view()
    }
}

pub open spec fn raw_style() -> Style {
    Style { fg: None, bg: None, bold: false }
}

pub open spec fn plain_style(tone: Tone) -> Style {
    Style { fg: Some(tone), bg: None, bold: false }
}

pub open spec fn bold_style(tone: Tone) -> Style {
    Style { fg: Some(tone), bg: None, bold: true }
}

pub open spec fn badge_style(fg: Tone, bg: Tone) -> Style {
    Style { fg: Some(fg), bg: Some(bg), bold: true }
}

pub fn raw() -> (r: Style)
    ensures
        r == raw_style(),
{
    Style { fg: None, bg: None, bold: false }
}

pub fn plain(tone: Tone) -> (r: Style)
    ensures
        r == plain_style(tone),
{
    Style { fg: Some(tone), bg: None, bold: false }
}

pub fn bold(tone: Tone) -> (r: Style)
    ensures
        r == bold_style(tone),
{
    Style { fg: Some(tone), bg: None, bold: true }
}

/// Bold text on a ground of its own.
pub fn on_ground(fg: Tone, bg: Tone) -> (r: Style)
    ensures
        r == badge_style(fg, bg),
{
    Style { fg: Some(fg), bg: Some(bg), bold: true }
}

pub open spec fn piece_of(text: Seq<char>, style: Style) -> PieceView {
    PieceView { text, style }
}

pub fn styled(text: &str, style: Style) -> (r: Piece)
    ensures
        r.deep_view() == piece_of(text@, style),
{
    Piece { text: text.to_owned(), style }
}

/// A text without a style.
pub fn unstyled(text: &str) -> (r: Piece)
    ensures
        r.deep_view() == piece_of(text@, raw_style()),
{
    Piece { text: text.to_owned(), style: raw() }
}

/// A badge: a text with a space on either side, bold on a ground of its own.
pub open spec fn badge_of(label: Seq<char>, fg: Tone, bg: Tone) -> PieceView {
    piece_of(" "@ + label + " "@, badge_style(fg, bg))
}

/// A badge: a text with a space on either side, bold on a ground of its own.
pub fn badge(label: &str, fg: Tone, bg: Tone) -> (r: Piece)
    ensures
        r.deep_view() == badge_of(label@, fg, bg),
{
    Piece { text: join3(" ", label, " "), style: on_ground(fg, bg) }
}

/// The name of a panel, as a badge where it is the one that is shown.
pub open spec fn nav_pill_of(label: Seq<char>, selected: bool) -> PieceView {
    if selected {
        badge_of(label, Tone::Text, Tone::SelectedBg)
    } else {
        piece_of(
            " "@ + label + " "@,
            Style { fg: Some(Tone::Muted), bg: Some(Tone::HeaderBg), bold: false },
        )
    }
}

/// The name of a panel, as a badge where it is the one that is shown.
pub fn nav_pill(label: &str, selected: bool) -> (r: Piece)
    ensures
        r.deep_view() == nav_pill_of(label@, selected),
{
    if selected {
        badge(label, Tone::Text, Tone::SelectedBg)
    } else {
        Piece {
            text: join3(" ", label, " "),
            style: Style { fg: Some(Tone::Muted), bg: Some(Tone::HeaderBg), bold: false },
        }
    }
}

/// Adds a piece.
pub fn push_piece(pieces: &mut Vec<Piece>, piece: Piece)
    ensures
        final(pieces).deep_view() == old(pieces).deep_view().push(piece.deep_view()),
{
    let ghost before = pieces.deep_view();
    let ghost p = piece.deep_view();
    pieces.push(piece);
    assert(pieces.deep_view() == before.push(p));
}

/// Adds a line.
pub fn push_row(lines: &mut Vec<Line>, line: Line)
    ensures
        final(lines).deep_view() == old(lines).deep_view().push(line.deep_view()),
{
    let ghost before = lines.deep_view();
    let ghost l = line.deep_view();
    lines.push(line);
    assert(lines.deep_view() == before.push(l));
}

/// A line of one piece.
pub fn line_of(piece: Piece) -> (r: Line)
    ensures
        r.deep_view() == seq![piece.deep_view()],
{
    let mut pieces: Vec<Piece> = Vec::new();
    let ghost p = piece.deep_view();
    push_piece(&mut pieces, piece);
    let r = Line { pieces };
    assert(r.deep_view() == seq![p]);
    r
}

/// A line with a label and a value.
pub open spec fn detail_of(label: Seq<char>, value: Seq<char>) -> Seq<PieceView> {
    seq![
        piece_of(padded(label, 6), bold_style(Tone::AccentSoft)),
        piece_of(value, plain_style(Tone::Text)),
    ]
}

/// A line with a label and a value.
pub fn detail_line(label: &str, value: &str) -> (r: Line)
    ensures
        r.deep_view() == detail_of(label@, value@),
{
    let mut pieces: Vec<Piece> = Vec::new();
    push_piece(
        &mut pieces,
        Piece { text: pad_right(label, 6), style: bold(Tone::AccentSoft) },
    );
    push_piece(&mut pieces, styled(value, plain(Tone::Text)));
    let r = Line { pieces };
    assert(r.deep_view() == detail_of(label@, value@));
    r
}

/// A line with three labels and values.
pub open spec fn metrics_of(
    a: (Seq<char>, Seq<char>),
    b: (Seq<char>, Seq<char>),
    c: (Seq<char>, Seq<char>),
) -> Seq<PieceView> {
    let bar = piece_of(" | "@, plain_style(Tone::Border));
    seq![
        piece_of(a.0 + " "@, bold_style(Tone::AccentSoft)),
        piece_of(a.1, plain_style(Tone::Text)),
        bar,
        piece_of(b.0 + " "@, bold_style(Tone::AccentSoft)),
        piece_of(b.1, plain_style(Tone::Text)),
        bar,
        piece_of(c.0 + " "@, bold_style(Tone::AccentSoft)),
        piece_of(c.1, plain_style(Tone::Text)),
    ]
}

fn push_metric(pieces: &mut Vec<Piece>, label: &str, value: &str)
    ensures
        final(pieces).deep_view() == old(pieces).deep_view().push(
            piece_of(label@ + " "@, bold_style(Tone::AccentSoft)),
        ).push(piece_of(value@, plain_style(Tone::Text))),
{
    push_piece(pieces, Piece { text: join2(label, " "), style: bold(Tone::AccentSoft) });
    push_piece(pieces, styled(value, plain(Tone::Text)));
}

/// A line with three labels and values.
pub fn metric_line(a: (&str, &str), b: (&str, &str), c: (&str, &str)) -> (r: Line)
    ensures
        r.deep_view() == metrics_of((a.0@, a.1@), (b.0@, b.1@), (c.0@, c.1@)),
{
    let mut pieces: Vec<Piece> = Vec::new();
    push_metric(&mut pieces, a.0, a.1);
    push_piece(&mut pieces, styled(" | ", plain(Tone::Border)));
    push_metric(&mut pieces, b.0, b.1);
    push_piece(&mut pieces, styled(" | ", plain(Tone::Border)));
    push_metric(&mut pieces, c.0, c.1);
    let r = Line { pieces };
    assert(r.deep_view() == metrics_of((a.0@, a.1@), (b.0@, b.1@), (c.0@, c.1@)));
    r
}

} // verus!
