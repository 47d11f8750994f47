//! The whole screen.

use vstd::prelude::*;
use crate::app::{App, AppView};
use crate::login_modal::{
    form_view, lay_out_login, render_login_modal, LoginLayout, LoginLayoutView,
};
use crate::models::RightView;
use crate::text::{chars_of, join2, view_opt, views};
use crate::theme::Theme;
use crate::ui::geometry::{least, less, minus, plus, Rect};
use crate::ui::layout::{
    can_be_met, demand, extent, is_met, is_split, need, split, start, Constraint, Direction,
};
use crate::ui::lyrics::{lyrics_view, render_lyrics};
use crate::ui::now_playing::{
    bar_left, bar_rect, bars_noted, caption_fits, has_caption, left_of_bar, lemma_caption_fits,
    now_playing_view, render_now_strip, render_nowplaying_view, shows_caption, strip_view,
};
use crate::ui::overlays::{
    footer_line, footer_view, has_room_for_menu, menu_view, progress_view,
    render_actions_overlay, render_footer, volume_line, volume_rect,
};
use crate::ui::queue::{queue_view, render_queue_view};
use crate::ui::scene::{
    label, line1, line2, nothing, piece, put, put_all, put_span, span, text_line, Align, Draw,
    DrawView, Line, Span, SpanView, Style,
};
use crate::ui::words::lemma_clock_len;

verus! {

// ---------------------------------------------------------------------------
// Dividing the screen
// ---------------------------------------------------------------------------

/// Header, spacer, body, spacer, strip and footer.
pub open spec fn screen_rows() -> Seq<Constraint> {
    seq![
        Constraint::Length(1),
        Constraint::Length(1),
        Constraint::Min(6),
        Constraint::Length(1),
        Constraint::Length(2),
        Constraint::Length(1),
    ]
}

/// The library and the active view.
pub open spec fn body_columns() -> Seq<Constraint> {
    seq![Constraint::Percentage(30), Constraint::Min(24)]
}

/// The cover, the visualizer and a margin.
pub open spec fn playing_rows() -> Seq<Constraint> {
    seq![Constraint::Min(6), Constraint::Length(7), Constraint::Length(2)]
}

/// A title, a subtitle, a spacer and the lyrics.
pub open spec fn lyrics_rows() -> Seq<Constraint> {
    seq![
        Constraint::Length(1),
        Constraint::Length(1),
        Constraint::Length(1),
        Constraint::Min(1),
    ]
}

/// The volume and the progress.
pub open spec fn strip_rows() -> Seq<Constraint> {
    seq![Constraint::Length(1), Constraint::Length(1)]
}

/// Where everything stands.
pub struct ScreenLayout {
    pub rows: Vec<Rect>,
    pub body: Vec<Rect>,
    /// The parts of the active view; none for the queue.
    pub pane: Vec<Rect>,
    pub strip: Vec<Rect>,
    /// Where the login form stands, while it is open.
    pub login: Option<LoginLayout>,
}

pub struct ScreenLayoutView {
    pub rows: Seq<Rect>,
    pub body: Seq<Rect>,
    pub pane: Seq<Rect>,
    pub strip: Seq<Rect>,
    pub login: Option<LoginLayoutView>,
}

impl View for ScreenLayout {
    type V = ScreenLayoutView;

    open spec fn view(&self) -> ScreenLayoutView {
        ScreenLayoutView {
            rows: self.rows@,
            body: self.body@,
            pane: self.pane@,
            strip: self.strip@,
            login: view_opt(self.login),
        }
    }
}

/// The screen without its margin.
pub open spec fn content_area(area: Rect) -> Rect {
    area.without_margin(2, 1)
}

impl ScreenLayoutView {
    /// The parts were made by dividing the screen, the body and the view.
    pub open spec fn is_of(self, a: AppView, area: Rect) -> bool {
        &&& is_split(self.rows, content_area(area), Direction::Vertical, 0, 0, screen_rows())
        &&& is_split(self.body, self.rows[2], Direction::Horizontal, 0, 3, body_columns())
        &&& match a.view {
            RightView::NowPlaying => is_split(
                self.pane,
                self.body[1],
                Direction::Vertical,
                0,
                0,
                playing_rows(),
            ),
            RightView::Lyrics => is_split(
                self.pane,
                self.body[1].without_margin(2, 0),
                Direction::Vertical,
                0,
                0,
                lyrics_rows(),
            ),
            RightView::Queue => self.pane.len() == 0,
        }
        &&& is_split(self.strip, self.rows[4], Direction::Vertical, 0, 0, strip_rows())
        &&& match self.login {
            Some(l) => a.login_modal is Some && l.is_of(area),
            None => a.login_modal is None,
        }
    }
}

/// Divides the screen.
pub fn lay_out(app: &App, area: Rect) -> (r: ScreenLayout)
    ensures
        r@.is_of(app@, area),
        r.login matches Some(l) ==> l@.columns.len() == 3 && l@.fields.len() == 5,
{
    let row_plan = [
        Constraint::Length(1),
        Constraint::Length(1),
        Constraint::Min(6),
        Constraint::Length(1),
        Constraint::Length(2),
        Constraint::Length(1),
    ];
    assert(row_plan@ =~= screen_rows());
    let rows = split(area.inner(2, 1), Direction::Vertical, 0, 0, &row_plan);
    let column_plan = [Constraint::Percentage(30), Constraint::Min(24)];
    assert(column_plan@ =~= body_columns());
    let body = split(rows[2], Direction::Horizontal, 0, 3, &column_plan);
    let pane = match app.view {
        RightView::NowPlaying => {
            let plan = [Constraint::Min(6), Constraint::Length(7), Constraint::Length(2)];
            assert(plan@ =~= playing_rows());
            split(body[1], Direction::Vertical, 0, 0, &plan)
        },
        RightView::Lyrics => {
            let plan = [
                Constraint::Length(1),
                Constraint::Length(1),
                Constraint::Length(1),
                Constraint::Min(1),
            ];
            assert(plan@ =~= lyrics_rows());
            split(body[1].inner(2, 0), Direction::Vertical, 0, 0, &plan)
        },
        RightView::Queue => Vec::new(),
    };
    let strip_plan = [Constraint::Length(1), Constraint::Length(1)];
    assert(strip_plan@ =~= strip_rows());
    let strip = split(rows[4], Direction::Vertical, 0, 0, &strip_plan);
    let login = if app.login_modal.is_some() {
        Some(lay_out_login(area))
    } else {
        None
    };
    ScreenLayout { rows, body, pane, strip, login }
}

// ---------------------------------------------------------------------------
// The header
// ---------------------------------------------------------------------------

/// The name of the player, and what it has to say.
pub open spec fn header_line(a: AppView, theme: Theme) -> Seq<SpanView> {
    let name = piece(
        "\u{FF2D}\u{FF39}\u{FF38}"@,
        Style::Gradient { from: theme.primary, to: theme.accent },
    );
    if a.status.len() == 0 {
        seq![name]
    } else {
        seq![name, piece("   "@ + a.status, Style::Muted)]
    }
}

/// A tab; the one of the active view stands out.
pub open spec fn tab_span(theme: Theme, v: RightView, active: RightView) -> SpanView {
    piece(
        v.name(),
        if v == active {
            Style::Bold(theme.primary)
        } else {
            Style::Muted
        },
    )
}

/// The tabs.
pub open spec fn tab_line(a: AppView, theme: Theme) -> Seq<SpanView> {
    seq![
        piece("←→ "@, Style::Muted),
        tab_span(theme, RightView::NowPlaying, a.view),
        piece(" · "@, Style::Muted),
        tab_span(theme, RightView::Lyrics, a.view),
        piece(" · "@, Style::Muted),
        tab_span(theme, RightView::Queue, a.view),
    ]
}

/// How many columns the tabs take up.
pub open spec fn tabs_width() -> int {
    9int + RightView::NowPlaying.name().len() + RightView::Lyrics.name().len()
        + RightView::Queue.name().len()
}

/// A column further right, at most the last there is.
pub open spec fn further(x: int, by: int) -> int {
    least(x + by, u16::MAX as int)
}

/// Where a tab stands.
pub open spec fn tab_rect(row: Rect, x: int, v: RightView) -> Rect {
    Rect { x: x as u16, y: row.y, width: v.name().len() as u16, height: 1 }
}

/// Where the tabs stand: at the right end of a row.
pub open spec fn tab_rects(row: Rect) -> Seq<(RightView, Rect)> {
    let x0 = further(minus(row.right_edge(), tabs_width()), 3);
    let x1 = further(further(x0, RightView::NowPlaying.name().len() as int), 3);
    let x2 = further(further(x1, RightView::Lyrics.name().len() as int), 3);
    seq![
        (RightView::NowPlaying, tab_rect(row, x0, RightView::NowPlaying)),
        (RightView::Lyrics, tab_rect(row, x1, RightView::Lyrics)),
        (RightView::Queue, tab_rect(row, x2, RightView::Queue)),
    ]
}

proof fn lemma_tab_names()
    ensures
        RightView::NowPlaying.name().len() == 11,
        RightView::Lyrics.name().len() == 6,
        RightView::Queue.name().len() == 5,
{
    reveal_strlit("Now Playing");
    reveal_strlit("Lyrics");
    reveal_strlit("Queue");
}

fn tab_label(theme: Theme, v: RightView, active: RightView) -> (r: Span)
    ensures
        r@ == tab_span(theme, v, active),
{
    label(
        v.label(),
        if v == active {
            Style::Bold(theme.primary)
        } else {
            Style::Muted
        },
    )
}

/// The tabs.
pub fn view_tabs(app: &App, theme: Theme) -> (r: Line)
    ensures
        r@ == tab_line(app@, theme),
{
    let mut spans: Vec<Span> = Vec::new();
    put_span(&mut spans, label("←→ ", Style::Muted));
    put_span(&mut spans, tab_label(theme, RightView::NowPlaying, app.view));
    put_span(&mut spans, label(" · ", Style::Muted));
    put_span(&mut spans, tab_label(theme, RightView::Lyrics, app.view));
    put_span(&mut spans, label(" · ", Style::Muted));
    put_span(&mut spans, tab_label(theme, RightView::Queue, app.view));
    assert(views(spans@) =~= tab_line(app@, theme));
    Line { spans }
}

fn label_width(v: RightView) -> (r: u16)
    ensures
        r == v.name().len(),
{
    proof {
        lemma_tab_names();
    }
    chars_of(v.label()).len() as u16
}

fn place_tabs(row: Rect) -> (r: Vec<(RightView, Rect)>)
    ensures
        r@ == tab_rects(row),
{
    proof {
        lemma_tab_names();
    }
    let w0: u16 = label_width(RightView::NowPlaying);
    let w1: u16 = label_width(RightView::Lyrics);
    let w2: u16 = label_width(RightView::Queue);
    let total: u16 = 3 + w0 + 3 + w1 + 3 + w2;
    let x0: u16 = plus(less(row.right(), total), 3);
    let x1: u16 = plus(plus(x0, w0), 3);
    let x2: u16 = plus(plus(x1, w1), 3);
    let mut tabs: Vec<(RightView, Rect)> = Vec::new();
    tabs.push((RightView::NowPlaying, Rect { x: x0, y: row.y, width: w0, height: 1 }));
    tabs.push((RightView::Lyrics, Rect { x: x1, y: row.y, width: w1, height: 1 }));
    tabs.push((RightView::Queue, Rect { x: x2, y: row.y, width: w2, height: 1 }));
    assert(tabs@ =~= tab_rects(row));
    tabs
}

/// How many characters stand before a piece of a line.
pub open spec fn width_before(line: Seq<SpanView>, k: int) -> int
    decreases k,
{
    if k <= 0 {
        0
    } else {
        width_before(line, k - 1) + line[k - 1].text.len()
    }
}

/// Clicks hit the tabs: in a row that is wide enough, every tab is noted exactly where
/// its label is drawn, the tabs being set at the right end of the row.
pub proof fn law_tabs_are_where_they_are_drawn(a: AppView, theme: Theme, row: Rect, i: int)
    requires
        row.fits(),
        row.width >= tabs_width(),
        0 <= i < 3,
    ensures
        tab_line(a, theme).len() == 6,
        width_before(tab_line(a, theme), 6) == tabs_width(),
        tab_rects(row)[i].1.x == row.x + row.width - tabs_width() + width_before(
            tab_line(a, theme),
            2 * i + 1,
        ),
        tab_rects(row)[i].1.width == tab_line(a, theme)[2 * i + 1].text.len(),
        tab_rects(row)[i].1.x + tab_rects(row)[i].1.width <= row.x + row.width,
{
    lemma_tab_names();
    reveal_strlit("←→ ");
    reveal_strlit(" · ");
    reveal_with_fuel(width_before, 7);
}

// ---------------------------------------------------------------------------
// The screen
// ---------------------------------------------------------------------------

/// The active view.
pub open spec fn active_view(
    a: AppView,
    theme: Theme,
    l: ScreenLayoutView,
    font: (u16, u16),
    now: u64,
) -> Seq<DrawView> {
    match a.view {
        RightView::NowPlaying => now_playing_view(a, theme, l.body[1], l.pane, font),
        RightView::Lyrics => lyrics_view(a, theme, l.body[1], l.pane, now),
        RightView::Queue => queue_view(a, theme, l.body[1]),
    }
}

/// The header with its tabs, and the library.
pub open spec fn upper_part(a: AppView, theme: Theme, area: Rect, l: ScreenLayoutView) -> Seq<
    DrawView,
> {
    seq![
        DrawView::Fill { rect: area, style: Style::Base },
        DrawView::Text {
            rect: l.rows[0],
            align: Align::Left,
            style: Style::Plain,
            lines: seq![header_line(a, theme)],
        },
        DrawView::Text {
            rect: l.rows[0],
            align: Align::Right,
            style: Style::Plain,
            lines: seq![tab_line(a, theme)],
        },
        DrawView::Library { rect: l.body[0] },
    ]
}

/// What lies on top: the action menu, and over it the login form.
pub open spec fn on_top(a: AppView, theme: Theme, area: Rect, l: ScreenLayoutView) -> Seq<DrawView> {
    let menu = match a.actions {
        Some(m) => menu_view(m, theme, content_area(area)),
        None => Seq::empty(),
    };
    let form = match (a.login_modal, l.login) {
        (Some(m), Some(ll)) => form_view(m, theme, ll),
        _ => Seq::empty(),
    };
    menu + form
}

/// Everything that is drawn, from the bottom to the top.
pub open spec fn screen(a: AppView, area: Rect, l: ScreenLayoutView, font: (u16, u16), now: u64) -> Seq<
    DrawView,
> {
    let theme = a.displayed;
    upper_part(a, theme, area, l) + active_view(a, theme, l, font, now) + strip_view(
        a,
        theme,
        l.strip,
        now,
    ) + seq![footer_view(a, theme, l.rows[5])] + on_top(a, theme, area, l)
}

/// The state with the places of the tabs and the bars noted.
pub open spec fn screen_noted(a: AppView, l: ScreenLayoutView, now: u64) -> AppView {
    bars_noted(AppView { tab_rects: tab_rects(l.rows[0]), ..a }, l.strip, now)
}

/// The column in which the progress bar begins can be counted: for certain where the
/// longest time, which takes nine columns with its space, can be.
pub open spec fn bar_fits(a: AppView, area: Rect, now: u64) -> bool {
    content_area(area).x + 9 <= u16::MAX || content_area(area).x + bar_left(a, now) <= u16::MAX
}

/// The rows of what is playing can be counted. From 23 rows on the screen has a
/// place for them; on a smaller one they begin somewhere in it and go on for seven
/// rows.
pub open spec fn caption_has_room(a: AppView, area: Rect) -> bool {
    a.view == RightView::NowPlaying && has_caption(a) ==> area.height >= 23 || content_area(area).y
        + content_area(area).height + 7 <= u16::MAX
}

/// The screen can be drawn: the position of the track can be counted, the screen has
/// edges, what stands in it can be counted, and an open menu has room.
pub open spec fn can_be_drawn(a: AppView, area: Rect, now: u64) -> bool {
    &&& a.clock_ok(now)
    &&& area.fits()
    &&& bar_fits(a, area, now)
    &&& caption_has_room(a, area)
    &&& a.actions matches Some(m) ==> has_room_for_menu(content_area(area), m.items.len() as int)
}

/// The screen can be drawn.
pub fn drawable(app: &App, area: Rect, now: u64) -> (r: bool)
    ensures
        r == can_be_drawn(app@, area, now),
{
    if !app.position_countable(now) {
        return false;
    }
    let inner = area.inner(2, 1);
    let fits = area.x as u32 + area.width as u32 <= u16::MAX as u32 && area.y as u32
        + area.height as u32 <= u16::MAX as u32;
    let bar = inner.x as u32 + left_of_bar(app, now) as u32 <= u16::MAX as u32;
    let caption = app.view != RightView::NowPlaying || !shows_caption(app) || area.height >= 23
        || inner.y as u32 + inner.height as u32 + 7 <= u16::MAX as u32;
    let menu_fits = match &app.actions {
        Some(m) => inner.x as u32 + inner.width as u32 <= u16::MAX as u32 && inner.y as u32
            + inner.height as u32 <= u16::MAX as u32 && inner.height >= 8 && inner.width as u32 * 5
            <= u16::MAX as u32 && m.items.len() % 0x1_0000 + 4 <= u16::MAX as usize,
        None => true,
    };
    fits && bar && caption && menu_fits
}

proof fn lemma_parts_have_room(
    l: ScreenLayoutView,
    a: AppView,
    area: Rect,
    font: (u16, u16),
    now: u64,
)
    requires
        a.clock_ok(now),
        area.fits(),
        bar_fits(a, area, now),
        caption_has_room(a, area),
        l.is_of(a, area),
    ensures
        l.rows.len() == 6,
        l.body.len() == 2,
        l.strip.len() == 2,
        l.body[1].fits(),
        l.strip[1].x + bar_left(a, now) <= u16::MAX,
        a.view == RightView::NowPlaying ==> l.pane.len() == 3 && (has_caption(a) ==> caption_fits(
            l.pane[0],
            font,
        )),
        a.view == RightView::Lyrics ==> l.pane.len() == 4 && l.pane[3].fits(),
{
    let content = content_area(area);
    lemma_clock_len(a.position(now) as u32);
    assert(content.x + content.width <= area.x + area.width);
    assert(content.y + content.height <= area.y + area.height);
    assert(content.without_margin(0, 0) == content);
    assert(l.rows[2].within(content));
    assert(l.rows[4].within(content));
    assert(l.rows[2].without_margin(0, 0) == l.rows[2]);
    assert(l.rows[4].without_margin(0, 0) == l.rows[4]);
    assert(l.body[1].within(l.rows[2]));
    assert(l.strip[1].within(l.rows[4]));
    assert(l.body[1].without_margin(0, 0) == l.body[1]);
    if a.view == RightView::NowPlaying {
        assert(l.pane[0].within(l.body[1]));
        if area.width >= 4 && area.height >= 23 {
            law_rows_of_the_screen(l, a, area);
            reveal_with_fuel(demand, 4);
            let cs = playing_rows();
            assert(cs.drop_last() =~= seq![cs[0], cs[1]]);
            assert(cs.drop_last().drop_last() =~= seq![cs[0]]);
            assert(can_be_met(cs, l.body[1].height as int, 0));
            assert(start(l.pane[0], Direction::Vertical) == l.body[1].y);
        }
        if has_caption(a) {
            lemma_caption_fits(l.pane[0], font);
        }
    }
    if a.view == RightView::Lyrics {
        let inner = l.body[1].without_margin(2, 0);
        assert(inner.x + inner.width <= l.body[1].x + l.body[1].width);
        assert(inner.y + inner.height <= l.body[1].y + l.body[1].height);
        assert(inner.without_margin(0, 0) == inner);
        assert(l.pane[3].within(inner));
    }
}

fn draw_header(app: &App, theme: Theme, row: Rect) -> (r: Draw)
    ensures
        r@ == (DrawView::Text {
            rect: row,
            align: Align::Left,
            style: Style::Plain,
            lines: seq![header_line(app@, theme)],
        }),
{
    let name = label(
        "\u{FF2D}\u{FF39}\u{FF38}",
        Style::Gradient { from: theme.primary, to: theme.accent },
    );
    let line = if app.status.as_str().is_empty() {
        line1(name)
    } else {
        line2(name, span(join2("   ", app.status.as_str()), Style::Muted))
    };
    text_line(row, Align::Left, line)
}

fn draw_view(app: &App, theme: Theme, l: &ScreenLayout, font: (u16, u16), now: u64) -> (r: Vec<Draw>)
    requires
        app@.clock_ok(now),
        l@.body.len() == 2,
        l@.body[1].fits(),
        app@.view == RightView::NowPlaying ==> l@.pane.len() == 3 && (has_caption(app@)
            ==> caption_fits(l@.pane[0], font)),
        app@.view == RightView::Lyrics ==> l@.pane.len() == 4 && l@.pane[3].fits(),
    ensures
        views(r@) == active_view(app@, theme, l@, font, now),
{
    match app.view {
        RightView::NowPlaying => render_nowplaying_view(
            app,
            theme,
            l.body[1],
            l.pane.as_slice(),
            font,
        ),
        RightView::Lyrics => render_lyrics(app, theme, l.body[1], l.pane.as_slice(), now),
        RightView::Queue => render_queue_view(app, theme, l.body[1]),
    }
}

fn draw_on_top(app: &App, theme: Theme, area: Rect, l: &ScreenLayout) -> (r: Vec<Draw>)
    requires
        app@.actions matches Some(m) ==> has_room_for_menu(
            content_area(area),
            m.items.len() as int,
        ),
        l.login matches Some(ll) ==> ll@.columns.len() == 3 && ll@.fields.len() == 5,
    ensures
        views(r@) == on_top(app@, theme, area, l@),
{
    let mut out = nothing();
    if let Some(menu) = &app.actions {
        put_all(&mut out, render_actions_overlay(menu, theme, area.inner(2, 1)));
    }
    if let Some(modal) = &app.login_modal {
        if let Some(login) = &l.login {
            put_all(&mut out, render_login_modal(modal, theme, login));
        }
    }
    assert(views(out@) =~= on_top(app@, theme, area, l@));
    out
}

/// Draws a screen that has been divided. Notes where the tabs and the bars stand.
pub fn draw_screen(app: &mut App, area: Rect, l: &ScreenLayout, font: (u16, u16), now: u64) -> (r: Vec<
    Draw,
>)
    requires
        can_be_drawn(old(app)@, area, now),
        l@.is_of(old(app)@, area),
        l.login matches Some(ll) ==> ll@.columns.len() == 3 && ll@.fields.len() == 5,
    ensures
        views(r@) == screen(old(app)@, area, l@, font, now),
        final(app)@ == screen_noted(old(app)@, l@, now),
{
    let theme = app.displayed;
    proof {
        lemma_parts_have_room(l@, app@, area, font, now);
    }
    let ghost a = app@;
    let mut out = nothing();
    put(&mut out, Draw::Fill { rect: area, style: Style::Base });
    put(&mut out, draw_header(app, theme, l.rows[0]));
    put(&mut out, text_line(l.rows[0], Align::Right, view_tabs(app, theme)));
    put(&mut out, Draw::Library { rect: l.body[0] });
    assert(views(out@) =~= upper_part(a, theme, area, l@));
    put_all(&mut out, draw_view(app, theme, l, font, now));
    let footer = render_footer(app, theme, l.rows[5]);
    let top = draw_on_top(app, theme, area, l);
    app.tab_rects = place_tabs(l.rows[0]);
    let ghost b = app@;
    assert(b == (AppView { tab_rects: tab_rects(l@.rows[0]), ..a }));
    let strip = render_now_strip(app, theme, l.strip.as_slice(), now);
    assert(strip_view(b, theme, l@.strip, now) =~= strip_view(a, theme, l@.strip, now));
    put_all(&mut out, strip);
    put(&mut out, footer);
    put_all(&mut out, top);
    assert(views(out@) =~= screen(a, area, l@, font, now));
    out
}

/// Divides and draws the screen. `font` is the size of a character cell in pixels.
pub fn render(app: &mut App, area: Rect, font: (u16, u16), now: u64) -> (r: Vec<Draw>)
    requires
        can_be_drawn(old(app)@, area, now),
    ensures
        exists|l: ScreenLayoutView|
            {
                &&& #[trigger] l.is_of(old(app)@, area)
                &&& views(r@) == screen(old(app)@, area, l, font, now)
                &&& final(app)@ == screen_noted(old(app)@, l, now)
            },
{
    let l = lay_out(app, area);
    let ghost a = app@;
    let out = draw_screen(app, area, &l, font, now);
    assert(l@.is_of(a, area));
    out
}

/// On a screen of 14 rows or more, everything has its place: the header is in the
/// second row, the footer in the last but one, the strip in the two rows above it,
/// and the body takes what is left.
pub proof fn law_rows_of_the_screen(l: ScreenLayoutView, a: AppView, area: Rect)
    requires
        area.fits(),
        area.width >= 4,
        area.height >= 14,
        l.is_of(a, area),
    ensures
        l.rows.len() == 6,
        l.rows[0].y == area.y + 1,
        l.rows[0].height == 1,
        l.rows[2].y == area.y + 3,
        l.rows[2].height == area.height - 8,
        l.rows[4].y == area.y + area.height - 4,
        l.rows[4].height == 2,
        l.rows[5].y == area.y + area.height - 2,
        l.rows[5].height == 1,
{
    reveal_with_fuel(demand, 7);
    let content = content_area(area);
    let cs = screen_rows();
    let d = Direction::Vertical;
    let h = content.height as int;
    assert(content.without_margin(0, 0) == content);
    assert(cs[2] is Min);
    assert(cs.drop_last() =~= seq![cs[0], cs[1], cs[2], cs[3], cs[4]]);
    assert(cs.drop_last().drop_last() =~= seq![cs[0], cs[1], cs[2], cs[3]]);
    assert(cs.drop_last().drop_last().drop_last() =~= seq![cs[0], cs[1], cs[2]]);
    assert(cs.drop_last().drop_last().drop_last().drop_last() =~= seq![cs[0], cs[1]]);
    assert(cs.drop_last().drop_last().drop_last().drop_last().drop_last() =~= seq![cs[0]]);
    assert(can_be_met(cs, h, 0));
    assert(is_met(cs[0], extent(l.rows[0], d), h));
    assert(is_met(cs[1], extent(l.rows[1], d), h));
    assert(is_met(cs[2], extent(l.rows[2], d), h));
    assert(is_met(cs[3], extent(l.rows[3], d), h));
    assert(is_met(cs[4], extent(l.rows[4], d), h));
    assert(is_met(cs[5], extent(l.rows[5], d), h));
    assert(start(l.rows[0], d) == content.y);
    assert(start(l.rows[1], d) == content.y + 1);
    assert(start(l.rows[2], d) == content.y + 2);
    assert(start(l.rows[3], d) == start(l.rows[2], d) + extent(l.rows[2], d));
    assert(start(l.rows[4], d) == start(l.rows[3], d) + 1);
    assert(start(l.rows[5], d) == start(l.rows[4], d) + 2);
    assert(l.rows.last() == l.rows[5]);
}

/// The tabs are those of the three views, and the one of the active view stands out.
pub proof fn law_active_tab_stands_out(a: AppView, theme: Theme)
    ensures
        ({
            let line = tab_line(a, theme);
            &&& line[1].text == "Now Playing"@ && line[3].text == "Lyrics"@ && line[5].text
                == "Queue"@
            &&& line[1].style == Style::Bold(theme.primary) <==> a.view == RightView::NowPlaying
            &&& line[3].style == Style::Bold(theme.primary) <==> a.view == RightView::Lyrics
            &&& line[5].style == Style::Bold(theme.primary) <==> a.view == RightView::Queue
        }),
{
}

/// The header says what the player has to say.
pub proof fn law_header_says_the_status(a: AppView, theme: Theme)
    ensures
        a.status.len() == 0 ==> header_line(a, theme).len() == 1,
        a.status.len() > 0 ==> header_line(a, theme).len() == 2 && header_line(a, theme)[1].text
            == "   "@ + a.status,
{
}

/// The screen shows the active view in the right part of its body.
pub proof fn law_active_view_is_shown(
    a: AppView,
    theme: Theme,
    l: ScreenLayoutView,
    font: (u16, u16),
    now: u64,
)
    ensures
        a.view == RightView::NowPlaying ==> active_view(a, theme, l, font, now) == now_playing_view(
            a,
            theme,
            l.body[1],
            l.pane,
            font,
        ),
        a.view == RightView::Lyrics ==> active_view(a, theme, l, font, now) == lyrics_view(
            a,
            theme,
            l.body[1],
            l.pane,
            now,
        ),
        a.view == RightView::Queue ==> active_view(a, theme, l, font, now) == queue_view(
            a,
            theme,
            l.body[1],
        ),
{
}

/// The library takes three tenths of the body, rounded, and behind three columns the
/// active view takes the rest.
pub proof fn law_columns_of_the_body(l: ScreenLayoutView, a: AppView, area: Rect)
    requires
        area.fits(),
        area.height >= 14,
        area.width >= 44,
        l.is_of(a, area),
    ensures
        ({
            let whole = area.width - 4;
            let library = l.body[0];
            let view = l.body[1];
            &&& l.body.len() == 2
            &&& library.x == area.x + 2
            &&& -50 <= 100 * library.width - 30 * whole <= 50
            &&& view.x == library.x + library.width + 3
            &&& view.x + view.width == area.x + area.width - 2
            &&& library.y == l.rows[2].y && library.height == l.rows[2].height
            &&& view.y == l.rows[2].y && view.height == l.rows[2].height
        }),
{
    law_rows_of_the_screen(l, a, area);
    reveal_with_fuel(demand, 3);
    let cs = body_columns();
    let d = Direction::Horizontal;
    let content = content_area(area);
    assert(content.without_margin(0, 0) == content);
    assert(l.rows[2].without_margin(0, 0) == l.rows[2]);
    assert(l.rows[2].x == content.x && l.rows[2].width == content.width);
    assert(cs.drop_last() =~= seq![cs[0]]);
    let whole = l.rows[2].width as int;
    assert(demand(cs, whole, 3) == need(cs[0], whole) + 3 + 24);
    assert(can_be_met(cs, whole, 3));
    assert(cs[1] is Min);
    assert(is_met(cs[0], extent(l.body[0], d), whole));
    assert(is_met(cs[1], extent(l.body[1], d), whole));
    assert(start(l.body[0], d) == start(l.rows[2], d));
    assert(start(l.body[1], d) == start(l.body[0], d) + extent(l.body[0], d) + 3);
    assert(l.body.last() == l.body[1]);
}

/// The screen is drawn in the colours that are shown at the time: the header with the
/// tabs at its right, the library, the active view, the strip and the footer; the menu
/// lies over all of these, and the login form over the menu.
pub proof fn law_screen_shows_everything(
    a: AppView,
    area: Rect,
    l: ScreenLayoutView,
    font: (u16, u16),
    now: u64,
)
    ensures
        ({
            let draws = screen(a, area, l, font, now);
            let view = active_view(a, a.displayed, l, font, now);
            let menu = if a.actions is Some {
                menu_view(a.actions->0, a.displayed, content_area(area))
            } else {
                Seq::empty()
            };
            let form = if a.login_modal is Some && l.login is Some {
                form_view(a.login_modal->0, a.displayed, l.login->0)
            } else {
                Seq::empty()
            };
            let n = 4int + view.len();
            &&& draws[0] == (DrawView::Fill { rect: area, style: Style::Base })
            &&& draws[1]->Text_rect == l.rows[0] && draws[1]->Text_align == Align::Left
                && draws[1]->lines[0] == header_line(a, a.displayed)
            &&& draws[2]->Text_rect == l.rows[0] && draws[2]->Text_align == Align::Right
                && draws[2]->lines[0] == tab_line(a, a.displayed)
            &&& draws[3] == (DrawView::Library { rect: l.body[0] })
            &&& draws.subrange(4, n) == view
            &&& draws[n]->Text_rect == l.strip[0] && draws[n]->lines[0] == volume_line(
                a.displayed,
                a.volume,
            )
            &&& draws[n + 1] == progress_view(a, l.strip[1], now)
            &&& draws[n + 2]->Text_rect == l.rows[5] && draws[n + 2]->lines[0] == footer_line(
                a,
                a.displayed,
            )
            &&& draws.skip(n + 3) == menu + form
        }),
{
    let draws = screen(a, area, l, font, now);
    let view = active_view(a, a.displayed, l, font, now);
    let n = 4int + view.len();
    let top = on_top(a, a.displayed, area, l);
    assert(draws.subrange(4, n) =~= view);
    assert(draws.skip(n + 3) =~= top);
}

/// Drawing notes where the tabs and the bars are, and changes nothing else.
pub proof fn law_drawing_notes_places(a: AppView, l: ScreenLayoutView, now: u64)
    ensures
        screen_noted(a, l, now) == (AppView {
            tab_rects: tab_rects(l.rows[0]),
            vol_rect: Some(volume_rect(l.strip[0])),
            bar_rect: Some(bar_rect(a, l.strip[1], now)),
            ..a
        }),
{
}

} // verus!
