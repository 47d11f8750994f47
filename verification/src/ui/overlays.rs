//! Volume bar, footer, progress bar, and action menu overlays.

use vstd::prelude::*;
use crate::app::{enter_label, target_of_row, App, AppView};
use crate::models::{ActionItem, ActionItemView, ActionMenu, ActionMenuView, NowPlayingView};
use crate::text::{chars_of, decimal, join2, join3, views};
use crate::theme::{Rgb, Theme};
use crate::ui::geometry::{less, minus, most, Rect};
use crate::ui::scene::{
    blank, label, line1, line2, line_of, nothing, piece, put, put_line, put_span, span, text_line,
    Align, Draw, DrawView, Line, Span, SpanView, Style,
};
use crate::ui::words::{clock, fmt_ms, number_field, right_aligned, shortened, truncate};

verus! {

// ---------------------------------------------------------------------------
// Volume
// ---------------------------------------------------------------------------

/// The steps of the volume bar.
pub open spec fn volume_steps() -> Seq<Seq<char>> {
    seq!["▁"@, "▂"@, "▃"@, "▄"@, "▅"@, "▆"@, "▇"@, "█"@]
}

/// How many steps are lit.
pub open spec fn steps_lit(volume: u8) -> int {
    (volume * 8 + 50) / 100
}

pub open spec fn step_color(theme: Theme, volume: u8, i: int) -> Rgb {
    if i < steps_lit(volume) {
        theme.primary
    } else {
        theme.border_dimmest
    }
}

/// The volume bar: its steps, and the volume in hundredths.
pub open spec fn volume_line(theme: Theme, volume: u8) -> Seq<SpanView> {
    Seq::new(
        8,
        |i: int| piece(volume_steps()[i], Style::Fg(step_color(theme, volume, i))),
    ).push(piece(" "@ + right_aligned(decimal(volume as nat), 3) + "%"@, Style::Muted))
}

/// Where the steps of the volume bar stand.
pub open spec fn volume_rect(area: Rect) -> Rect {
    Rect { x: minus(area.right_edge(), 13) as u16, y: area.y, width: 8, height: 1 }
}

pub open spec fn volume_view(theme: Theme, volume: u8, area: Rect) -> DrawView {
    DrawView::Text {
        rect: area,
        align: Align::Right,
        style: Style::Plain,
        lines: seq![volume_line(theme, volume)],
    }
}

fn put_step(spans: &mut Vec<Span>, step: &str, theme: Theme, volume: u8, i: u16)
    ensures
        views(final(spans)@) == views(old(spans)@).push(
            piece(step@, Style::Fg(step_color(theme, volume, i as int))),
        ),
{
    let lit: u16 = (volume as u16 * 8 + 50) / 100;
    let color = if i < lit {
        theme.primary
    } else {
        theme.border_dimmest
    };
    put_span(spans, label(step, Style::Fg(color)));
}

/// The volume bar, and where its steps stand.
pub fn render_volume(app: &App, theme: Theme, area: Rect) -> (r: (Draw, Rect))
    ensures
        r.0@ == volume_view(theme, app@.volume, area),
        r.1 == volume_rect(area),
{
    let volume = app.volume;
    let mut spans: Vec<Span> = Vec::new();
    put_step(&mut spans, "▁", theme, volume, 0);
    put_step(&mut spans, "▂", theme, volume, 1);
    put_step(&mut spans, "▃", theme, volume, 2);
    put_step(&mut spans, "▄", theme, volume, 3);
    put_step(&mut spans, "▅", theme, volume, 4);
    put_step(&mut spans, "▆", theme, volume, 5);
    put_step(&mut spans, "▇", theme, volume, 6);
    put_step(&mut spans, "█", theme, volume, 7);
    let figures = join3(" ", number_field(volume as u64, 3).as_str(), "%");
    put_span(&mut spans, span(figures, Style::Muted));
    assert(views(spans@) =~= volume_line(theme, volume));
    (
        text_line(area, Align::Right, Line { spans }),
        Rect { x: less(area.right(), 13), y: area.y, width: 8, height: 1 },
    )
}

/// At no volume no step is lit, at full volume all are, and more volume never
/// lights fewer.
pub proof fn law_volume_bar_follows_the_volume(v: u8, w: u8)
    ensures
        steps_lit(0) == 0,
        steps_lit(100) == 8,
        v <= w ==> steps_lit(v) <= steps_lit(w),
{
}

// ---------------------------------------------------------------------------
// Progress
// ---------------------------------------------------------------------------

/// How long the track is that is shown; one where there is none.
pub open spec fn shown_duration(a: AppView) -> int {
    match a.now {
        Some(n) => most(n.duration_ms as int, 1),
        None => 1,
    }
}

/// The progress bar between the position and the length of the track.
pub open spec fn progress_view(a: AppView, area: Rect, now: u64) -> DrawView {
    let left = clock(a.position(now)) + " "@;
    let right = " "@ + clock(shown_duration(a));
    DrawView::Progress {
        rect: area,
        left,
        right,
        bar: minus(area.width as int, (left.len() + right.len()) as int),
        position: a.position(now),
        duration: shown_duration(a),
    }
}

/// The progress bar. How much of it is filled is the position's share of the
/// duration, which is never nought.
pub fn render_progress(app: &App, area: Rect, now: u64) -> (r: Draw)
    requires
        app@.clock_ok(now),
    ensures
        r@ == progress_view(app@, area, now),
        r matches Draw::Progress { duration, .. } && duration > 0,
{
    let position = app.position_ms(now);
    let duration: u32 = match &app.now {
        Some(n) => if n.duration_ms > 1 {
            n.duration_ms
        } else {
            1
        },
        None => 1,
    };
    let left = join2(fmt_ms(position).as_str(), " ");
    let right = join2(" ", fmt_ms(duration).as_str());
    let left_len: usize = chars_of(left.as_str()).len();
    let right_len: usize = chars_of(right.as_str()).len();
    proof {
        crate::ui::words::lemma_clock_len(position);
        crate::ui::words::lemma_clock_len(duration);
        reveal_strlit(" ");
    }
    let reserve: usize = left_len + right_len;
    let width: usize = area.width as usize;
    let bar: usize = if width > reserve {
        width - reserve
    } else {
        0
    };
    Draw::Progress { rect: area, left, right, bar, position, duration }
}

/// The two times and the bar fill the row, where they fit into it.
pub proof fn law_progress_fills_the_row(a: AppView, area: Rect, now: u64)
    ensures
        progress_view(a, area, now) matches DrawView::Progress { left, right, bar, .. } && (left.len()
            + right.len() <= area.width ==> left.len() + bar + right.len() == area.width),
{
}

// ---------------------------------------------------------------------------
// Footer
// ---------------------------------------------------------------------------

pub open spec fn key(theme: Theme, text: Seq<char>) -> SpanView {
    piece(text, Style::Fg(theme.primary))
}

pub open spec fn hint(text: Seq<char>) -> SpanView {
    piece(text, Style::Muted)
}

/// What Enter does on the selected row.
pub open spec fn enter_does(a: AppView) -> Seq<char> {
    match a.selected_item() {
        Some(i) => if target_of_row(i) is Some {
            "open"@
        } else {
            "select"@
        },
        None => "select"@,
    }
}

/// Something is playing, and not paused.
pub open spec fn is_sounding(a: AppView) -> bool {
    match a.now {
        Some(n) => n.is_playing,
        None => false,
    }
}

/// The keys and what they do.
pub open spec fn footer_line(a: AppView, theme: Theme) -> Seq<SpanView> {
    seq![
        key(theme, "⇥"@),
        hint(" section   "@),
        key(theme, "←→"@),
        hint(" view   "@),
        key(theme, "/"@),
        hint(" search   "@),
        key(theme, "⏎"@),
        hint(" "@ + enter_does(a) + "   "@),
        key(theme, "P"@),
        hint(" play   "@),
        key(theme, "S"@),
        hint(" shuffle   "@),
        key(theme, "␣"@),
        hint(
            if is_sounding(a) {
                " pause   "@
            } else {
                " play    "@
            },
        ),
        key(theme, "n/b"@),
        hint(" skip   "@),
        key(theme, "⇧←→"@),
        hint(" seek   "@),
        key(theme, "o"@),
        hint(" sort   "@),
        key(theme, "+/-"@),
        hint(" vol   "@),
        piece(
            "s"@,
            Style::Fg(
                if a.shuffle {
                    theme.success
                } else {
                    theme.text_muted
                },
            ),
        ),
        hint(" shuffle   "@),
        key(theme, "a"@),
        hint(" actions   "@),
        key(theme, "q"@),
        hint(" quit"@),
    ]
}

pub open spec fn footer_view(a: AppView, theme: Theme, area: Rect) -> DrawView {
    DrawView::Text {
        rect: area,
        align: Align::Center,
        style: Style::Plain,
        lines: seq![footer_line(a, theme)],
    }
}

fn put_pair(spans: &mut Vec<Span>, theme: Theme, key_text: &str, hint_text: &str)
    ensures
        views(final(spans)@) == views(old(spans)@) + seq![
            key(theme, key_text@),
            hint(hint_text@),
        ],
{
    let ghost before = views(spans@);
    put_span(spans, label(key_text, Style::Fg(theme.primary)));
    put_span(spans, label(hint_text, Style::Muted));
    assert(views(spans@) =~= before + seq![key(theme, key_text@), hint(hint_text@)]);
}

/// The keys and what they do.
pub fn render_footer(app: &App, theme: Theme, area: Rect) -> (r: Draw)
    ensures
        r@ == footer_view(app@, theme, area),
{
    let item = app.selected_item();
    let enter = match &item {
        Some(i) => enter_label(Some(i)),
        None => enter_label(None),
    };
    let enter_text = join3(" ", enter, "   ");
    let sounding = match &app.now {
        Some(n) => n.is_playing,
        None => false,
    };
    let mut spans: Vec<Span> = Vec::new();
    put_pair(&mut spans, theme, "⇥", " section   ");
    put_pair(&mut spans, theme, "←→", " view   ");
    put_pair(&mut spans, theme, "/", " search   ");
    put_pair(&mut spans, theme, "⏎", enter_text.as_str());
    put_pair(&mut spans, theme, "P", " play   ");
    put_pair(&mut spans, theme, "S", " shuffle   ");
    put_pair(
        &mut spans,
        theme,
        "␣",
        if sounding {
            " pause   "
        } else {
            " play    "
        },
    );
    put_pair(&mut spans, theme, "n/b", " skip   ");
    put_pair(&mut spans, theme, "⇧←→", " seek   ");
    put_pair(&mut spans, theme, "o", " sort   ");
    put_pair(&mut spans, theme, "+/-", " vol   ");
    put_span(
        &mut spans,
        label(
            "s",
            Style::Fg(
                if app.shuffle {
                    theme.success
                } else {
                    theme.text_muted
                },
            ),
        ),
    );
    put_span(&mut spans, label(" shuffle   ", Style::Muted));
    put_pair(&mut spans, theme, "a", " actions   ");
    put_pair(&mut spans, theme, "q", " quit");
    assert(views(spans@) =~= footer_line(app@, theme));
    text_line(area, Align::Center, Line { spans })
}

// ---------------------------------------------------------------------------
// The action menu
// ---------------------------------------------------------------------------

/// A number between two bounds.
pub open spec fn clamped(n: int, low: int, high: int) -> int {
    if n < low {
        low
    } else if n > high {
        high
    } else {
        n
    }
}

/// A number of entries in 16 bits.
pub open spec fn short_count(n: int) -> int {
    n % 0x1_0000
}

/// There is room for the menu: eight rows at least, and no more columns than can
/// be multiplied by five in 16 bits.
pub open spec fn has_room_for_menu(area: Rect, entries: int) -> bool {
    &&& area.fits()
    &&& area.height >= 8
    &&& area.width * 5 <= u16::MAX
    &&& short_count(entries) + 4 <= u16::MAX
}

/// Where the menu stands: in the middle, half as wide as the area.
pub open spec fn menu_rect(area: Rect, entries: int) -> Rect {
    let w = clamped(area.width * 5 / 10, 28, 52);
    let h = clamped(short_count(entries) + 4, 6, minus(area.height as int, 2));
    Rect {
        x: (area.x + minus(area.width as int, w) / 2) as u16,
        y: (area.y + minus(area.height as int, h) / 2) as u16,
        width: w as u16,
        height: h as u16,
    }
}

/// An entry of the menu; the selected one stands out.
pub open spec fn menu_line(theme: Theme, max: int, item: ActionItemView, selected: bool) -> Seq<
    SpanView,
> {
    let text = shortened(item.label, minus(max, 2));
    if selected {
        seq![piece("› "@, Style::Fg(theme.primary)), piece(text, Style::Bold(theme.text))]
    } else {
        line_of("  "@ + text, Style::Muted)
    }
}

/// The entries of the menu, as many as there is room for.
pub open spec fn menu_lines(menu: ActionMenuView, theme: Theme, max: int, room: int) -> Seq<
    Seq<SpanView>,
> {
    Seq::new(
        (if menu.items.len() < room {
            menu.items.len() as int
        } else {
            room
        }) as nat,
        |i: int| menu_line(theme, max, menu.items[i], i == menu.selected),
    )
}

/// The menu.
pub open spec fn menu_view(menu: ActionMenuView, theme: Theme, area: Rect) -> Seq<DrawView> {
    let rect = menu_rect(area, menu.items.len() as int);
    let inner = rect.without_margin(2, 1);
    let max = inner.width as int;
    seq![
        DrawView::Clear { rect },
        DrawView::Fill { rect, style: Style::Element },
        DrawView::Text {
            rect: inner,
            align: Align::Left,
            style: Style::Plain,
            lines: seq![
                line_of(shortened(menu.title, max), Style::Heading),
                Seq::<SpanView>::empty(),
            ] + menu_lines(menu, theme, max, minus(inner.height as int, 2)),
        },
    ]
}

fn put_entries(
    lines: &mut Vec<Line>,
    items: &Vec<ActionItem>,
    selected: usize,
    theme: Theme,
    max: usize,
    room: usize,
    Ghost(menu): Ghost<ActionMenuView>,
)
    requires
        menu.items == views(items@),
        menu.selected == selected,
    ensures
        views(final(lines)@) == views(old(lines)@) + menu_lines(
            menu,
            theme,
            max as int,
            room as int,
        ),
{
    let ghost before = views(lines@);
    let ghost all = menu_lines(menu, theme, max as int, room as int);
    let width: usize = if max > 2 {
        max - 2
    } else {
        0
    };
    let mut i: usize = 0;
    assert(views(lines@) =~= before + all.take(0));
    while i < items.len() && i < room
        invariant
            menu.items == views(items@),
            menu.selected == selected,
            all == menu_lines(menu, theme, max as int, room as int),
            width == minus(max as int, 2),
            i <= all.len(),
            views(lines@) == before + all.take(i as int),
        decreases items@.len() - i,
    {
        assert(menu.items[i as int] == items@[i as int]@);
        let text = truncate(items[i].label.as_str(), width);
        let line = if i == selected {
            line2(label("› ", Style::Fg(theme.primary)), span(text, Style::Bold(theme.text)))
        } else {
            line1(span(join2("  ", text.as_str()), Style::Muted))
        };
        assert(line@ =~= all[i as int]);
        put_line(lines, line);
        assert(all.take(i + 1) =~= all.take(i as int).push(line@));
        i += 1;
        assert(views(lines@) =~= before + all.take(i as int));
    }
    assert(all.take(i as int) =~= all);
}

fn clamp(n: u16, low: u16, high: u16) -> (r: u16)
    requires
        low <= high,
    ensures
        r == clamped(n as int, low as int, high as int),
{
    if n < low {
        low
    } else if n > high {
        high
    } else {
        n
    }
}

/// The action menu, in the middle of an area.
pub fn render_actions_overlay(menu: &ActionMenu, theme: Theme, area: Rect) -> (r: Vec<Draw>)
    requires
        has_room_for_menu(area, menu@.items.len() as int),
    ensures
        views(r@) == menu_view(menu@, theme, area),
{
    let entries: u16 = (menu.items.len() % 0x1_0000) as u16;
    let w: u16 = clamp(area.width * 5 / 10, 28, 52);
    let h: u16 = clamp(entries + 4, 6, less(area.height, 2));
    let rect = Rect {
        x: area.x + less(area.width, w) / 2,
        y: area.y + less(area.height, h) / 2,
        width: w,
        height: h,
    };
    let inner = rect.inner(2, 1);
    let max: usize = inner.width as usize;
    let room: usize = less(inner.height, 2) as usize;
    let mut lines: Vec<Line> = Vec::new();
    put_line(&mut lines, line1(span(truncate(menu.title.as_str(), max), Style::Heading)));
    put_line(&mut lines, blank());
    assert(views(lines@) =~= seq![
        line_of(shortened(menu@.title, max as int), Style::Heading),
        Seq::<SpanView>::empty(),
    ]);
    put_entries(&mut lines, &menu.items, menu.selected, theme, max, room, Ghost(menu@));
    let mut out = nothing();
    put(&mut out, Draw::Clear { rect });
    put(&mut out, Draw::Fill { rect, style: Style::Element });
    put(&mut out, Draw::Text { rect: inner, align: Align::Left, style: Style::Plain, lines });
    assert(views(out@) =~= menu_view(menu@, theme, area));
    out
}

/// The menu lies on the area that it stands in, where that is 28 columns wide, and
/// its lines fit into it.
pub proof fn law_menu_lies_on_its_area(menu: ActionMenuView, theme: Theme, area: Rect)
    requires
        has_room_for_menu(area, menu.items.len() as int),
        area.width >= 28,
    ensures
        menu_rect(area, menu.items.len() as int).within(area),
        menu_lines(
            menu,
            theme,
            menu_rect(area, menu.items.len() as int).width - 4,
            menu_rect(area, menu.items.len() as int).height - 4,
        ).len() + 2 <= menu_rect(area, menu.items.len() as int).height - 2,
{
}

/// The volume bar has eight steps; as many are lit as the volume has eighths of a
/// hundred, rounded, from the left; behind them stands the volume in figures.
pub proof fn law_volume_bar_shows_the_volume(theme: Theme, volume: u8, i: int)
    requires
        volume <= 100,
    ensures
        ({
            let line = volume_line(theme, volume);
            let lit = steps_lit(volume);
            &&& line.len() == 9
            &&& -50 <= 100 * lit - 8 * volume <= 50
            &&& 0 <= i < lit ==> line[i].style == Style::Fg(theme.primary)
            &&& lit <= i < 8 ==> line[i].style == Style::Fg(theme.border_dimmest)
            &&& line[8].text == " "@ + right_aligned(decimal(volume as nat), 3) + "%"@
        }),
{
}

/// The progress bar stands between how far the track is and how long it is.
pub proof fn law_progress_shows_the_times(a: AppView, n: NowPlayingView, area: Rect, now: u64)
    requires
        a.now == Some(n),
        n.duration_ms > 0,
    ensures
        progress_view(a, area, now) matches DrawView::Progress {
            rect,
            left,
            right,
            position,
            duration,
            ..
        } && rect == area && left == clock(a.position(now)) + " "@ && right == " "@ + clock(
            n.duration_ms as int,
        ) && position == a.position(now) && duration == n.duration_ms,
{
}

/// The footer says what Enter does on the selected row, whether the space bar pauses
/// or plays, and whether shuffling is on.
pub proof fn law_footer_tells_the_state(a: AppView, theme: Theme)
    ensures
        ({
            let line = footer_line(a, theme);
            let opens = a.selected < a.cur_items().len() && !a.cur_items()[a.selected as int].is_track
                && !a.cur_items()[a.selected as int].is_header;
            &&& line.len() == 28
            &&& line[7].text == " "@ + (if opens {
                "open"@
            } else {
                "select"@
            }) + "   "@
            &&& line[13].text == (if a.now is Some && a.now->0.is_playing {
                " pause   "@
            } else {
                " play    "@
            })
            &&& line[22].text == "s"@
            &&& line[22].style == Style::Fg(
                if a.shuffle {
                    theme.success
                } else {
                    theme.text_muted
                },
            )
        }),
{
}

/// The menu shows its title and its entries in their order, as many as there is room
/// for; the selected one is marked.
pub proof fn law_menu_shows_its_entries(menu: ActionMenuView, theme: Theme, area: Rect, i: int)
    ensures
        ({
            let rect = menu_rect(area, menu.items.len() as int);
            let inner = rect.without_margin(2, 1);
            let max = inner.width as int;
            let draws = menu_view(menu, theme, area);
            let lines = draws[2]->lines;
            &&& draws.len() == 3
            &&& draws[2]->Text_rect == inner
            &&& lines[0][0].text == shortened(menu.title, max)
            &&& 0 <= i < menu.items.len() && i < minus(inner.height as int, 2) ==> (if i
                == menu.selected {
                lines[2 + i][0].text == "› "@ && lines[2 + i][1].text == shortened(
                    menu.items[i].label,
                    minus(max, 2),
                )
            } else {
                lines[2 + i].len() == 1 && lines[2 + i][0].text == "  "@ + shortened(
                    menu.items[i].label,
                    minus(max, 2),
                )
            })
        }),
{
}

/// The volume bar is noted where it is drawn: the steps stand before the figures, at
/// the right end of the row.
pub proof fn law_noted_volume_is_the_drawn_volume(theme: Theme, volume: u8, area: Rect)
    requires
        area.fits(),
        area.width >= 13,
        volume <= 100,
    ensures
        ({
            let rect = volume_rect(area);
            let line = volume_line(theme, volume);
            &&& rect.y == area.y && rect.height == 1
            &&& rect.width == 8
            &&& forall|i: int| 0 <= i < 8 ==> (#[trigger] line[i]).text.len() == 1
            &&& rect.x + 8 + line[8].text.len() == area.x + area.width
        }),
{
    reveal_strlit("▁");
    reveal_strlit("▂");
    reveal_strlit("▃");
    reveal_strlit("▄");
    reveal_strlit("▅");
    reveal_strlit("▆");
    reveal_strlit("▇");
    reveal_strlit("█");
    reveal_strlit(" ");
    reveal_strlit("%");
    reveal_with_fuel(decimal, 4);
}

/// The menu stands in the middle of its area, but for less than a cell, and has a row
/// for every entry where there is room.
pub proof fn law_menu_stands_in_the_middle(area: Rect, entries: int)
    requires
        area.fits(),
        area.width >= 52,
        0 <= entries <= 1000,
        entries + 6 <= area.height,
        area.height >= 8,
    ensures
        ({
            let r = menu_rect(area, entries);
            &&& 0 <= (area.x + area.width - (r.x + r.width)) - (r.x - area.x) <= 1
            &&& 0 <= (area.y + area.height - (r.y + r.height)) - (r.y - area.y) <= 1
            &&& r.height == (if entries < 2 {
                6
            } else {
                entries + 4
            })
        }),
{
}

} // verus!
