//! The view of what is playing, and the strip below it.

use vstd::prelude::*;
use crate::app::{App, AppView};
use crate::models::NowPlayingView;
use crate::text::{chars_of, same, views};
use crate::theme::Theme;
use crate::ui::geometry::{less, minus, most, Rect};
use crate::ui::overlays::{
    clamped, progress_view, render_progress, render_volume, volume_line, volume_rect, volume_view,
};
use crate::ui::scene::{
    label, line1, line_of, nothing, put, put_line, span, Align, CoverOf, Draw, DrawView, Line,
    Style,
};
use crate::ui::words::{center_v, centered, clock, fmt_ms, lemma_clock_len, shortened, truncate};

verus! {

// ---------------------------------------------------------------------------
// Where the cover stands
// ---------------------------------------------------------------------------

/// The size of a character cell in pixels; one at least.
pub open spec fn pixels(n: u16) -> int {
    most(n as int, 1)
}

/// The part of the view above the visualizer, from the fourth row on.
pub open spec fn cover_area(chunk: Rect) -> Rect {
    Rect {
        x: chunk.x,
        y: (chunk.y + 3) as u16,
        width: chunk.width,
        height: minus(chunk.height as int, 3) as u16,
    }
}

/// The width and the height of a cover in cells: square in pixels, between 3 and 14
/// rows high, and no wider than there is room for.
pub open spec fn cover_size(width: int, height: int, cell_w: int, cell_h: int) -> (int, int) {
    let h = clamped(minus(height, 4), 3, 14);
    let w = (h * cell_h / cell_w) % 0x1_0000;
    if w > width {
        (width, (width * cell_w / cell_h) % 0x1_0000)
    } else {
        (w, h)
    }
}

/// Where the cover stands: in the middle, with four rows below it.
pub open spec fn cover_rect(top: Rect, cell_w: int, cell_h: int) -> Rect {
    let (w, h) = cover_size(top.width as int, top.height as int, cell_w, cell_h);
    Rect {
        x: (top.x + minus(top.width as int, w) / 2) as u16,
        y: (top.y + minus(top.height as int, h + 4) / 2) as u16,
        width: w as u16,
        height: h as u16,
    }
}

/// Where the three lines below the cover stand.
pub open spec fn caption_rect(top: Rect, cover: Rect) -> Rect {
    Rect { x: top.x, y: (cover.y + cover.height + 1) as u16, width: top.width, height: 3 }
}

/// A cover is never wider than there is room for, nor higher than 14 rows, nor, from
/// three rows on, higher than there is room for above its caption.
pub proof fn law_covers_are_bounded(width: int, height: int, cell_w: int, cell_h: int)
    requires
        0 <= width <= u16::MAX,
        cell_w >= 1,
        cell_h >= 1,
    ensures
        0 <= cover_size(width, height, cell_w, cell_h).0 <= width,
        0 <= cover_size(width, height, cell_w, cell_h).1 <= 14,
        cover_size(width, height, cell_w, cell_h).1 <= most(height - 4, 3),
{
    let h = clamped(minus(height, 4), 3, 14);
    let x = h * cell_h / cell_w;
    let w = x % 0x1_0000;
    assert(h * cell_h >= 0) by (nonlinear_arith)
        requires
            h >= 3,
            cell_h >= 1,
    ;
    assert(x >= 0) by (nonlinear_arith)
        requires
            x == h * cell_h / cell_w,
            h * cell_h >= 0,
            cell_w >= 1,
    ;
    if w > width {
        assert(x > width);
        let y = width * cell_w / cell_h;
        assert(0 <= y < h) by (nonlinear_arith)
            requires
                x == h * cell_h / cell_w,
                x > width,
                width >= 0,
                cell_w >= 1,
                cell_h >= 1,
                y == width * cell_w / cell_h,
        {
            assert(x * cell_w <= h * cell_h);
            assert((width + 1) * cell_w <= x * cell_w);
            assert(width * cell_w < h * cell_h);
        }
    }
}

/// The rows and columns of a cover and of the lines below it can be counted.
pub open spec fn caption_fits(chunk: Rect, font: (u16, u16)) -> bool {
    let top = cover_area(chunk);
    let (w, h) = cover_size(
        top.width as int,
        top.height as int,
        pixels(font.0),
        pixels(font.1),
    );
    &&& chunk.y + 3 <= u16::MAX
    &&& top.x + minus(top.width as int, w) / 2 <= u16::MAX
    &&& top.y + minus(top.height as int, h + 4) / 2 + h + 1 <= u16::MAX
}

/// Seven more rows are enough for them.
pub proof fn lemma_caption_fits(chunk: Rect, font: (u16, u16))
    requires
        chunk.fits(),
        chunk.y + 7 <= u16::MAX,
    ensures
        caption_fits(chunk, font),
{
    let top = cover_area(chunk);
    law_covers_are_bounded(top.width as int, top.height as int, pixels(font.0), pixels(font.1));
}

/// There are lines below a cover: something plays, or a row that is no heading is
/// selected.
pub open spec fn has_caption(a: AppView) -> bool {
    a.now is Some || (a.selected_item() matches Some(i) && !i.is_header)
}

/// Whether there are lines below a cover.
pub fn shows_caption(app: &App) -> (r: bool)
    ensures
        r == has_caption(app@),
{
    if app.now.is_some() {
        return true;
    }
    match app.selected_item() {
        Some(item) => !item.is_header,
        None => false,
    }
}

/// Where the cover stands, in whole cells. The cell of a character has a size in
/// pixels.
fn place_cover(top: Rect, font: (u16, u16)) -> (r: Rect)
    requires
        ({
            let (w, h) = cover_size(
                top.width as int,
                top.height as int,
                pixels(font.0),
                pixels(font.1),
            );
            &&& top.x + minus(top.width as int, w) / 2 <= u16::MAX
            &&& top.y + minus(top.height as int, h + 4) / 2 <= u16::MAX
        }),
    ensures
        r == cover_rect(top, pixels(font.0), pixels(font.1)),
{
    let fw: u32 = if font.0 > 1 {
        font.0 as u32
    } else {
        1
    };
    let fh: u32 = if font.1 > 1 {
        font.1 as u32
    } else {
        1
    };
    let room: u16 = less(top.height, 4);
    let h0: u16 = if room < 3 {
        3
    } else if room > 14 {
        14
    } else {
        room
    };
    proof {
        law_covers_are_bounded(top.width as int, top.height as int, fw as int, fh as int);
    }
    let ghost (w, h) = cover_size(top.width as int, top.height as int, fw as int, fh as int);
    assert(h0 as u32 * fh <= 14 * 65535) by (nonlinear_arith)
        requires
            h0 <= 14,
            fh <= 65535,
    ;
    let w0: u16 = ((h0 as u32 * fh / fw) % 0x1_0000) as u16;
    let mut art_w: u16 = w0;
    let mut art_h: u16 = h0;
    if w0 > top.width {
        art_w = top.width;
        assert(top.width as u32 * fw <= 65535 * 65535) by (nonlinear_arith)
            requires
                top.width <= 65535,
                fw <= 65535,
        ;
        art_h = ((top.width as u32 * fw / fh) % 0x1_0000) as u16;
    }
    assert(art_w == w && art_h == h);
    Rect {
        x: top.x + less(top.width, art_w) / 2,
        y: top.y + less(top.height, art_h + 4) / 2,
        width: art_w,
        height: art_h,
    }
}

// ---------------------------------------------------------------------------
// The view
// ---------------------------------------------------------------------------

/// Three lines below a cover.
pub open spec fn caption(
    rect: Rect,
    title: Seq<char>,
    title_style: Style,
    second: Seq<char>,
    second_style: Style,
    third: Seq<char>,
) -> DrawView {
    DrawView::Text {
        rect,
        align: Align::Center,
        style: Style::Plain,
        lines: seq![
            line_of(title, title_style),
            line_of(second, second_style),
            line_of(third, Style::Muted),
        ],
    }
}

/// A cover in its place, where there is one.
pub open spec fn cover_draws(rect: Rect, of: CoverOf, shown: bool) -> Seq<DrawView> {
    if shown {
        seq![DrawView::Clear { rect }, DrawView::Cover { rect, of }]
    } else {
        Seq::empty()
    }
}

/// The view while nothing plays: the selected row, or how to begin.
pub open spec fn idle_view(
    a: AppView,
    theme: Theme,
    area: Rect,
    chunks: Seq<Rect>,
    font: (u16, u16),
) -> Seq<DrawView> {
    let top = cover_area(chunks[0]);
    let cover = cover_rect(top, pixels(font.0), pixels(font.1));
    let max = top.width as int;
    match a.selected_item() {
        Some(item) => if item.is_header {
            seq![nothing_playing(area)]
        } else {
            cover_draws(cover, CoverOf::Selected, a.selected_cover == Some(item.uri)).push(
                caption(
                    caption_rect(top, cover),
                    shortened(item.name, max),
                    Style::Bold(theme.text),
                    shortened(item.subtitle, max),
                    Style::Fg(theme.primary),
                    "Press Enter to Play"@,
                ),
            )
        },
        None => seq![nothing_playing(area)],
    }
}

pub open spec fn nothing_playing(area: Rect) -> DrawView {
    DrawView::Text {
        rect: centered(area, 2),
        align: Align::Center,
        style: Style::Muted,
        lines: seq![
            line_of("Nothing playing."@, Style::Plain),
            line_of("Browse ← and press Enter."@, Style::Plain),
        ],
    }
}

/// The view while something plays: its cover, what it is, and the visualizer.
pub open spec fn playing_view(
    n: NowPlayingView,
    theme: Theme,
    chunks: Seq<Rect>,
    font: (u16, u16),
) -> Seq<DrawView> {
    let top = cover_area(chunks[0]);
    let cover = cover_rect(top, pixels(font.0), pixels(font.1));
    let max = top.width as int;
    cover_draws(cover, CoverOf::Playing, n.cover) + seq![
        caption(
            caption_rect(top, cover),
            shortened(n.title, max),
            Style::Bold(theme.text),
            shortened(n.artist, max),
            Style::Fg(theme.primary),
            shortened(n.album, max),
        ),
        DrawView::Visualizer { rect: chunks[1] },
    ]
}

/// The view of what is playing.
pub open spec fn now_playing_view(
    a: AppView,
    theme: Theme,
    area: Rect,
    chunks: Seq<Rect>,
    font: (u16, u16),
) -> Seq<DrawView> {
    match a.now {
        Some(n) => playing_view(n, theme, chunks, font),
        None => idle_view(a, theme, area, chunks, font),
    }
}

fn put_cover(out: &mut Vec<Draw>, rect: Rect, of: CoverOf, shown: bool)
    ensures
        views(final(out)@) == views(old(out)@) + cover_draws(rect, of, shown),
{
    let ghost before = views(out@);
    if shown {
        put(out, Draw::Clear { rect });
        put(out, Draw::Cover { rect, of });
    }
    assert(views(out@) =~= before + cover_draws(rect, of, shown));
}

fn make_caption(rect: Rect, first: Line, second: Line, third: Line) -> (r: Draw)
    ensures
        r@ == (DrawView::Text {
            rect,
            align: Align::Center,
            style: Style::Plain,
            lines: seq![first@, second@, third@],
        }),
{
    let mut lines: Vec<Line> = Vec::new();
    put_line(&mut lines, first);
    put_line(&mut lines, second);
    put_line(&mut lines, third);
    assert(views(lines@) =~= seq![first@, second@, third@]);
    Draw::Text { rect, align: Align::Center, style: Style::Plain, lines }
}

fn say_nothing_playing(area: Rect) -> (r: Draw)
    requires
        area.fits(),
    ensures
        r@ == nothing_playing(area),
{
    let mut lines: Vec<Line> = Vec::new();
    put_line(&mut lines, line1(label("Nothing playing.", Style::Plain)));
    put_line(&mut lines, line1(label("Browse ← and press Enter.", Style::Plain)));
    assert(views(lines@) =~= seq![
        line_of("Nothing playing."@, Style::Plain),
        line_of("Browse ← and press Enter."@, Style::Plain),
    ]);
    Draw::Text { rect: center_v(area, 2), align: Align::Center, style: Style::Muted, lines }
}

/// Where the cover and the lines below it stand.
fn place_caption(chunk: Rect, font: (u16, u16)) -> (r: (Rect, Rect))
    requires
        caption_fits(chunk, font),
    ensures
        r.0 == cover_rect(cover_area(chunk), pixels(font.0), pixels(font.1)),
        r.1 == caption_rect(cover_area(chunk), r.0),
{
    let top = Rect {
        x: chunk.x,
        y: chunk.y + 3,
        width: chunk.width,
        height: less(chunk.height, 3),
    };
    proof {
        law_covers_are_bounded(top.width as int, top.height as int, pixels(font.0), pixels(font.1));
    }
    let cover = place_cover(top, font);
    (cover, Rect { x: top.x, y: cover.y + cover.height + 1, width: top.width, height: 3 })
}

/// The view of what is playing. Its area has been divided into the part with the
/// cover, the visualizer and a margin; `font` is the size of a character cell in
/// pixels.
pub fn render_nowplaying_view(
    app: &App,
    theme: Theme,
    area: Rect,
    chunks: &[Rect],
    font: (u16, u16),
) -> (r: Vec<Draw>)
    requires
        area.fits(),
        chunks@.len() == 3,
        has_caption(app@) ==> caption_fits(chunks@[0], font),
    ensures
        views(r@) == now_playing_view(app@, theme, area, chunks@, font),
{
    let mut out = nothing();
    let max: usize = chunks[0].width as usize;
    match &app.now {
        None => {
            let item = match app.selected_item() {
                Some(item) => item,
                None => {
                    put(&mut out, say_nothing_playing(area));
                    assert(views(out@) =~= seq![nothing_playing(area)]);
                    return out;
                },
            };
            if item.is_header {
                put(&mut out, say_nothing_playing(area));
                assert(views(out@) =~= seq![nothing_playing(area)]);
                return out;
            }
            let shown = match &app.selected_cover {
                Some(uri) => same(uri.as_str(), item.uri.as_str()),
                None => false,
            };
            let (cover, text_rect) = place_caption(chunks[0], font);
            put_cover(&mut out, cover, CoverOf::Selected, shown);
            put(
                &mut out,
                make_caption(
                    text_rect,
                    line1(span(truncate(item.name.as_str(), max), Style::Bold(theme.text))),
                    line1(span(truncate(item.subtitle.as_str(), max), Style::Fg(theme.primary))),
                    line1(label("Press Enter to Play", Style::Muted)),
                ),
            );
            assert(views(out@) =~= idle_view(app@, theme, area, chunks@, font));
            out
        },
        Some(n) => {
            let (cover, text_rect) = place_caption(chunks[0], font);
            put_cover(&mut out, cover, CoverOf::Playing, n.cover);
            put(
                &mut out,
                make_caption(
                    text_rect,
                    line1(span(truncate(n.title.as_str(), max), Style::Bold(theme.text))),
                    line1(span(truncate(n.artist.as_str(), max), Style::Fg(theme.primary))),
                    line1(span(truncate(n.album.as_str(), max), Style::Muted)),
                ),
            );
            put(&mut out, Draw::Visualizer { rect: chunks[1] });
            assert(views(out@) =~= playing_view(n@, theme, chunks@, font));
            out
        },
    }
}

// ---------------------------------------------------------------------------
// The strip
// ---------------------------------------------------------------------------

/// How long the track that plays is; nought where there is none.
pub open spec fn strip_duration(a: AppView) -> u32 {
    match a.now {
        Some(n) => n.duration_ms,
        None => 0,
    }
}

/// How much of the strip lies before its bar.
pub open spec fn bar_left(a: AppView, now: u64) -> nat {
    clock(a.position(now)).len() + 1
}

/// How much of the strip lies before its bar.
pub fn left_of_bar(app: &App, now: u64) -> (r: u16)
    requires
        app@.clock_ok(now),
    ensures
        r == bar_left(app@, now),
        r <= 9,
{
    let position = app.position_ms(now);
    proof {
        lemma_clock_len(position);
    }
    chars_of(fmt_ms(position).as_str()).len() as u16 + 1
}

/// Where the bar of the strip stands: between the two times.
pub open spec fn bar_rect(a: AppView, row: Rect, now: u64) -> Rect {
    let left = bar_left(a, now);
    let right = clock(strip_duration(a) as int).len() + 1;
    Rect {
        x: (row.x + left) as u16,
        y: row.y,
        width: minus(row.width as int, (left + right) as int) as u16,
        height: 1,
    }
}

/// The strip: the volume, and below it the progress.
pub open spec fn strip_view(a: AppView, theme: Theme, rows: Seq<Rect>, now: u64) -> Seq<DrawView> {
    seq![volume_view(theme, a.volume, rows[0]), progress_view(a, rows[1], now)]
}

/// The state with the places of the two bars noted.
pub open spec fn bars_noted(a: AppView, rows: Seq<Rect>, now: u64) -> AppView {
    AppView {
        vol_rect: Some(volume_rect(rows[0])),
        bar_rect: Some(bar_rect(a, rows[1], now)),
        ..a
    }
}

/// The strip below the view. Its area has been divided into two rows. Notes where
/// the volume bar and the progress bar stand.
pub fn render_now_strip(app: &mut App, theme: Theme, rows: &[Rect], now: u64) -> (r: Vec<Draw>)
    requires
        old(app)@.clock_ok(now),
        rows@.len() == 2,
        rows@[1].x + bar_left(old(app)@, now) <= u16::MAX,
    ensures
        views(r@) == strip_view(old(app)@, theme, rows@, now),
        final(app)@ == bars_noted(old(app)@, rows@, now),
{
    let mut out = nothing();
    let (volume, vol_rect) = render_volume(app, theme, rows[0]);
    put(&mut out, volume);
    let duration: u32 = match &app.now {
        Some(n) => n.duration_ms,
        None => 0,
    };
    proof {
        lemma_clock_len(duration);
    }
    let left: u16 = left_of_bar(app, now);
    let right: u16 = chars_of(fmt_ms(duration).as_str()).len() as u16 + 1;
    let bar = Rect {
        x: rows[1].x + left,
        y: rows[1].y,
        width: less(rows[1].width, left + right),
        height: 1,
    };
    let progress = render_progress(app, rows[1], now);
    put(&mut out, progress);
    app.vol_rect = Some(vol_rect);
    app.bar_rect = Some(bar);
    assert(views(out@) =~= strip_view(old(app)@, theme, rows@, now));
    out
}

/// Where the noted bar begins, the bar that is drawn begins, too.
pub proof fn law_noted_bar_is_the_drawn_bar(a: AppView, row: Rect, now: u64)
    requires
        row.x + bar_left(a, now) <= u16::MAX,
        0 <= a.position(now) <= u32::MAX,
        strip_duration(a) > 0,
    ensures
        progress_view(a, row, now) matches DrawView::Progress { left, bar, .. } && bar_rect(
            a,
            row,
            now,
        ).x == row.x + left.len() && bar_rect(a, row, now).width == bar,
{
    reveal_strlit(" ");
    lemma_clock_len(a.position(now) as u32);
    lemma_clock_len(strip_duration(a));
}

/// Below the cover stand the title, the artist and the album of what plays; its cover
/// is drawn exactly if it has one.
pub proof fn law_what_plays_is_shown(
    n: NowPlayingView,
    theme: Theme,
    chunks: Seq<Rect>,
    font: (u16, u16),
)
    ensures
        ({
            let draws = playing_view(n, theme, chunks, font);
            let at = if n.cover {
                2int
            } else {
                0
            };
            let max = chunks[0].width as int;
            &&& draws.len() == at + 2
            &&& n.cover ==> draws[1] is Cover && draws[1]->of == CoverOf::Playing
            &&& draws[at]->lines[0][0].text == shortened(n.title, max)
            &&& draws[at]->lines[1][0].text == shortened(n.artist, max)
            &&& draws[at]->lines[2][0].text == shortened(n.album, max)
            &&& draws[at + 1] == (DrawView::Visualizer { rect: chunks[1] })
        }),
{
}

/// While nothing plays, the selected row is shown, with its cover where that is the
/// one there is; or how to begin.
pub proof fn law_selected_row_is_shown(
    a: AppView,
    theme: Theme,
    area: Rect,
    chunks: Seq<Rect>,
    font: (u16, u16),
)
    requires
        a.now is None,
    ensures
        ({
            let draws = now_playing_view(a, theme, area, chunks, font);
            if a.selected < a.cur_items().len() && !a.cur_items()[a.selected as int].is_header {
                let item = a.cur_items()[a.selected as int];
                let at = if a.selected_cover == Some(item.uri) {
                    2int
                } else {
                    0
                };
                &&& draws.len() == at + 1
                &&& at == 2 ==> draws[1] is Cover && draws[1]->of == CoverOf::Selected
                &&& draws[at]->lines[0][0].text == shortened(item.name, chunks[0].width as int)
                &&& draws[at]->lines[1][0].text == shortened(item.subtitle, chunks[0].width as int)
                &&& draws[at]->lines[2][0].text == "Press Enter to Play"@
            } else {
                draws.len() == 1 && draws[0]->lines[0][0].text == "Nothing playing."@
            }
        }),
{
}

/// A cover that need not be narrowed is square in pixels, but for less than a column.
pub proof fn law_covers_are_square(width: int, height: int, cell_w: int, cell_h: int)
    requires
        width >= 0,
        cell_w >= 1,
        cell_h >= 1,
        14 * cell_h / cell_w <= u16::MAX,
    ensures
        ({
            let (w, h) = cover_size(width, height, cell_w, cell_h);
            w < width ==> w * cell_w <= h * cell_h < (w + 1) * cell_w
        }),
{
    let h = clamped(minus(height, 4), 3, 14);
    let x = h * cell_h / cell_w;
    assert(0 <= x <= 14 * cell_h / cell_w) by (nonlinear_arith)
        requires
            x == h * cell_h / cell_w,
            3 <= h <= 14,
            cell_h >= 1,
            cell_w >= 1,
    ;
    assert(x % 0x1_0000 == x);
    assert(x * cell_w <= h * cell_h < (x + 1) * cell_w) by (nonlinear_arith)
        requires
            x == h * cell_h / cell_w,
            cell_w >= 1,
    ;
}

/// A cover stands in the middle of the view, but for less than a column, and its
/// caption of three rows below it with a row between.
pub proof fn law_covers_stand_in_the_middle(top: Rect, cell_w: int, cell_h: int)
    requires
        top.fits(),
        cell_w >= 1,
        cell_h >= 1,
    ensures
        ({
            let cover = cover_rect(top, cell_w, cell_h);
            let text = caption_rect(top, cover);
            &&& 0 <= (top.x + top.width - (cover.x + cover.width)) - (cover.x - top.x) <= 1
            &&& top.height >= cover.height + 4 ==> 0 <= (top.y + top.height - (cover.y
                + cover.height + 4)) - (cover.y - top.y) <= 1
            &&& top.height >= cover.height + 4 ==> text.y == cover.y + cover.height + 1
            &&& text.x == top.x && text.width == top.width && text.height == 3
        }),
{
    law_covers_are_bounded(top.width as int, top.height as int, cell_w, cell_h);
}

/// Below the view stand the volume and, in the next row, the progress.
pub proof fn law_strip_shows_volume_and_progress(a: AppView, theme: Theme, rows: Seq<Rect>, now: u64)
    ensures
        ({
            let draws = strip_view(a, theme, rows, now);
            &&& draws.len() == 2
            &&& draws[0]->Text_rect == rows[0]
            &&& draws[0]->Text_align == Align::Right
            &&& draws[0]->lines == seq![volume_line(theme, a.volume)]
            &&& draws[1] == progress_view(a, rows[1], now)
            &&& bars_noted(a, rows, now).vol_rect == Some(volume_rect(rows[0]))
            &&& bars_noted(a, rows, now).bar_rect == Some(bar_rect(a, rows[1], now))
        }),
{
}

} // verus!
