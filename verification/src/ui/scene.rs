//! What is drawn: areas filled, texts set, covers and bars put in their places.

use vstd::prelude::*;
use crate::text::views;
use crate::theme::Rgb;
use crate::ui::geometry::Rect;

verus! {

/// How a text or an area looks.
#[derive(Debug, Clone, Copy, PartialEq, Eq, Structural)]
pub enum Style {
    /// As the terminal has it.
    Plain,
    /// The background of the theme.
    Base,
    Muted,
    Heading,
    /// The background of what lies on top.
    Element,
    Fg(Rgb),
    Bold(Rgb),
    On { fg: Rgb, bg: Rgb, bold: bool },
    Error,
    /// In bold, from one colour to the other.
    Gradient { from: Rgb, to: Rgb },
}

#[derive(Debug, Clone, Copy, PartialEq, Eq, Structural)]
pub enum Align {
    Left,
    Center,
    Right,
}

/// A piece of text in one style.
#[derive(Debug)]
pub struct Span {
    pub text: String,
    pub style: Style,
}

pub struct SpanView {
    pub text: Seq<char>,
    pub style: Style,
}

impl View for Span {
    type V = SpanView;

    open spec fn view(&self) -> SpanView {
        SpanView { text: self.text@, style: self.style }
    }
}

/// A line of text.
#[derive(Debug)]
pub struct Line {
    pub spans: Vec<Span>,
}

impl View for Line {
    type V = Seq<SpanView>;

    open spec fn view(&self) -> Seq<SpanView> {
        views(self.spans@)
    }
}

/// The cover of the track that plays, or of the one that is selected.
#[derive(Debug, Clone, Copy, PartialEq, Eq, Structural)]
pub enum CoverOf {
    Playing,
    Selected,
}

/// One thing to be drawn. What comes later lies on top.
#[derive(Debug)]
pub enum Draw {
    Fill { rect: Rect, style: Style },
    Clear { rect: Rect },
    Text { rect: Rect, align: Align, style: Style, lines: Vec<Line> },
    /// A border with a title, rounded, on a background.
    Panel { rect: Rect, title: String, border: Style, background: Rgb },
    /// A border with a title, and a text in it.
    Field { rect: Rect, title: String, border: Style, text: String, style: Style },
    Cover { rect: Rect, of: CoverOf },
    /// A bar between two texts, filled as far as the track has come.
    Progress { rect: Rect, left: String, right: String, bar: usize, position: u32, duration: u32 },
    Library { rect: Rect },
    Visualizer { rect: Rect },
}

pub enum DrawView {
    Fill { rect: Rect, style: Style },
    Clear { rect: Rect },
    Text { rect: Rect, align: Align, style: Style, lines: Seq<Seq<SpanView>> },
    Panel { rect: Rect, title: Seq<char>, border: Style, background: Rgb },
    Field { rect: Rect, title: Seq<char>, border: Style, text: Seq<char>, style: Style },
    Cover { rect: Rect, of: CoverOf },
    Progress {
        rect: Rect,
        left: Seq<char>,
        right: Seq<char>,
        bar: int,
        position: int,
        duration: int,
    },
    Library { rect: Rect },
    Visualizer { rect: Rect },
}

impl View for Draw {
    type V = DrawView;

    open spec fn view(&self) -> DrawView {
        match self {
            Draw::Fill { rect, style } => DrawView::Fill { rect: *rect, style: *style },
            Draw::Clear { rect } => DrawView::Clear { rect: *rect },
            Draw::Text { rect, align, style, lines } => DrawView::Text {
                rect: *rect,
                align: *align,
                style: *style,
                lines: views(lines@),
            },
            Draw::Panel { rect, title, border, background } => DrawView::Panel {
                rect: *rect,
                title: title@,
                border: *border,
                background: *background,
            },
            Draw::Field { rect, title, border, text, style } => DrawView::Field {
                rect: *rect,
                title: title@,
                border: *border,
                text: text@,
                style: *style,
            },
            Draw::Cover { rect, of } => DrawView::Cover { rect: *rect, of: *of },
            Draw::Progress { rect, left, right, bar, position, duration } => DrawView::Progress {
                rect: *rect,
                left: left@,
                right: right@,
                bar: *bar as int,
                position: *position as int,
                duration: *duration as int,
            },
            Draw::Library { rect } => DrawView::Library { rect: *rect },
            Draw::Visualizer { rect } => DrawView::Visualizer { rect: *rect },
        }
    }
}

/// A piece of text.
pub open spec fn piece(text: Seq<char>, style: Style) -> SpanView {
    SpanView { text, style }
}

/// A line of one piece.
pub open spec fn line_of(text: Seq<char>, style: Style) -> Seq<SpanView> {
    seq![piece(text, style)]
}

pub fn span(text: String, style: Style) -> (r: Span)
    ensures
        r@ == piece(text@, style),
{
    Span { text, style }
}

pub fn label(text: &str, style: Style) -> (r: Span)
    ensures
        r@ == piece(text@, style),
{
    Span { text: text.to_string(), style }
}

/// A line of one piece.
pub fn line1(a: Span) -> (r: Line)
    ensures
        r@ == seq![a@],
{
    let mut spans: Vec<Span> = Vec::new();
    spans.push(a);
    assert(views(spans@) =~= seq![a@]);
    Line { spans }
}

/// A line of two pieces.
pub fn line2(a: Span, b: Span) -> (r: Line)
    ensures
        r@ == seq![a@, b@],
{
    let mut spans: Vec<Span> = Vec::new();
    spans.push(a);
    spans.push(b);
    assert(views(spans@) =~= seq![a@, b@]);
    Line { spans }
}

/// A line of three pieces.
pub fn line3(a: Span, b: Span, c: Span) -> (r: Line)
    ensures
        r@ == seq![a@, b@, c@],
{
    let mut spans: Vec<Span> = Vec::new();
    spans.push(a);
    spans.push(b);
    spans.push(c);
    assert(views(spans@) =~= seq![a@, b@, c@]);
    Line { spans }
}

/// An empty line.
pub fn blank() -> (r: Line)
    ensures
        r@ == Seq::<SpanView>::empty(),
{
    let spans: Vec<Span> = Vec::new();
    assert(views(spans@) =~= Seq::<SpanView>::empty());
    Line { spans }
}

/// One more line.
pub fn put_line(lines: &mut Vec<Line>, line: Line)
    ensures
        views(final(lines)@) == views(old(lines)@).push(line@),
{
    let ghost before = lines@;
    lines.push(line);
    assert(views(lines@) =~= views(before).push(line@));
}

/// One more piece.
pub fn put_span(spans: &mut Vec<Span>, span: Span)
    ensures
        views(final(spans)@) == views(old(spans)@).push(span@),
{
    let ghost before = spans@;
    spans.push(span);
    assert(views(spans@) =~= views(before).push(span@));
}

/// One more thing to be drawn.
pub fn put(out: &mut Vec<Draw>, draw: Draw)
    ensures
        views(final(out)@) == views(old(out)@).push(draw@),
{
    let ghost before = out@;
    out.push(draw);
    assert(views(out@) =~= views(before).push(draw@));
}

/// More things to be drawn.
pub fn put_all(out: &mut Vec<Draw>, more: Vec<Draw>)
    ensures
        views(final(out)@) == views(old(out)@) + views(more@),
{
    let ghost all = views(out@) + views(more@);
    let mut more = more;
    out.append(&mut more);
    assert(views(out@) =~= all);
}

/// Nothing to be drawn yet.
pub fn nothing() -> (r: Vec<Draw>)
    ensures
        views(r@) == Seq::<DrawView>::empty(),
{
    let r: Vec<Draw> = Vec::new();
    assert(views(r@) =~= Seq::<DrawView>::empty());
    r
}

/// A text of one line.
pub fn text_line(rect: Rect, align: Align, line: Line) -> (r: Draw)
    ensures
        r@ == (DrawView::Text { rect, align, style: Style::Plain, lines: seq![line@] }),
{
    let mut lines: Vec<Line> = Vec::new();
    lines.push(line);
    assert(views(lines@) =~= seq![line@]);
    Draw::Text { rect, align, style: Style::Plain, lines }
}

} // verus!
