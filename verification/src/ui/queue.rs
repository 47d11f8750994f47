//! The queue view.

use vstd::prelude::*;
use crate::app::{App, AppView};
use crate::text::{decimal, join2, views};
use crate::theme::Theme;
use crate::ui::geometry::{minus, Rect};
use crate::ui::scene::{
    blank, label, line1, line2, line3, line_of, nothing, piece, put, put_line, span, Align, Draw,
    DrawView, Line, SpanView, Style,
};
use crate::ui::words::{number_field, right_aligned, shortened, truncate};

verus! {

/// What is played from.
pub open spec fn source_lines(a: AppView, theme: Theme, max: int) -> Seq<Seq<SpanView>> {
    if a.source_name.len() == 0 {
        Seq::empty()
    } else {
        seq![
            seq![
                piece("PLAYING FROM  "@, Style::Muted),
                piece(shortened(a.source_name, minus(max, 14)), Style::Bold(theme.primary)),
            ],
            Seq::empty(),
        ]
    }
}

/// What is playing.
pub open spec fn playing_lines(a: AppView, theme: Theme, max: int) -> Seq<Seq<SpanView>> {
    match a.now {
        Some(n) => seq![
            line_of("NOW PLAYING"@, Style::Heading),
            seq![
                piece("   "@, Style::Muted),
                piece(shortened(n.title, minus(max, 3)), Style::Bold(theme.text)),
                piece("  "@ + n.artist, Style::Muted),
            ],
            Seq::empty(),
        ],
        None => Seq::empty(),
    }
}

/// The lines above the queue.
pub open spec fn queue_head(a: AppView, theme: Theme, max: int) -> Seq<Seq<SpanView>> {
    source_lines(a, theme, max) + playing_lines(a, theme, max) + seq![
        line_of("UP NEXT"@, Style::Heading),
        Seq::empty(),
    ]
}

/// The line of a queued track, counted from one.
pub open spec fn queue_line(theme: Theme, max: int, i: int, name: Seq<char>) -> Seq<SpanView> {
    seq![
        piece(right_aligned(decimal((i + 1) as nat), 2) + "  "@, Style::Muted),
        piece(shortened(name, minus(max, 4)), Style::Fg(theme.text)),
    ]
}

/// The lines of the queue, as many as there is room for.
pub open spec fn queue_lines(queue: Seq<Seq<char>>, theme: Theme, max: int, room: int) -> Seq<
    Seq<SpanView>,
> {
    if queue.len() == 0 {
        seq![line_of("queue is empty"@, Style::Muted)]
    } else {
        Seq::new(
            (if queue.len() < room {
                queue.len() as int
            } else {
                room
            }) as nat,
            |i: int| queue_line(theme, max, i, queue[i]),
        )
    }
}

/// The queue view.
pub open spec fn queue_view(a: AppView, theme: Theme, area: Rect) -> Seq<DrawView> {
    let inner = area.without_margin(2, 1);
    let max = inner.width as int;
    let head = queue_head(a, theme, max);
    if inner.height == 0 {
        Seq::empty()
    } else {
        seq![
            DrawView::Text {
                rect: inner,
                align: Align::Left,
                style: Style::Plain,
                lines: head + queue_lines(
                    a.queue,
                    theme,
                    max,
                    minus(inner.height as int, head.len() as int),
                ),
            },
        ]
    }
}

fn less_usize(a: usize, b: usize) -> (r: usize)
    ensures
        r == minus(a as int, b as int),
{
    if a > b {
        a - b
    } else {
        0
    }
}

fn head_lines(app: &App, theme: Theme, max: usize) -> (r: Vec<Line>)
    ensures
        views(r@) == queue_head(app@, theme, max as int),
{
    let mut lines: Vec<Line> = Vec::new();
    assert(views(lines@) =~= Seq::<Seq<SpanView>>::empty());
    if !app.source_name.as_str().is_empty() {
        put_line(
            &mut lines,
            line2(
                label("PLAYING FROM  ", Style::Muted),
                span(
                    truncate(app.source_name.as_str(), less_usize(max, 14)),
                    Style::Bold(theme.primary),
                ),
            ),
        );
        put_line(&mut lines, blank());
    }
    assert(views(lines@) =~= source_lines(app@, theme, max as int));
    if let Some(n) = &app.now {
        put_line(&mut lines, line1(label("NOW PLAYING", Style::Heading)));
        put_line(
            &mut lines,
            line3(
                label("   ", Style::Muted),
                span(truncate(n.title.as_str(), less_usize(max, 3)), Style::Bold(theme.text)),
                span(join2("  ", n.artist.as_str()), Style::Muted),
            ),
        );
        put_line(&mut lines, blank());
    }
    assert(views(lines@) =~= source_lines(app@, theme, max as int) + playing_lines(
        app@,
        theme,
        max as int,
    ));
    put_line(&mut lines, line1(label("UP NEXT", Style::Heading)));
    put_line(&mut lines, blank());
    assert(views(lines@) =~= queue_head(app@, theme, max as int));
    lines
}

fn put_queue(lines: &mut Vec<Line>, queue: &Vec<String>, theme: Theme, max: usize, room: usize)
    ensures
        views(final(lines)@) == views(old(lines)@) + queue_lines(
            views(queue@),
            theme,
            max as int,
            room as int,
        ),
{
    let ghost before = views(lines@);
    let ghost names = views(queue@);
    let ghost all = queue_lines(names, theme, max as int, room as int);
    if queue.len() == 0 {
        put_line(lines, line1(label("queue is empty", Style::Muted)));
        assert(views(lines@) =~= before + all);
        return ;
    }
    let mut i: usize = 0;
    assert(views(lines@) =~= before + all.take(0));
    while i < queue.len() && i < room
        invariant
            queue@.len() > 0,
            names == views(queue@),
            all == queue_lines(names, theme, max as int, room as int),
            i <= all.len(),
            views(lines@) == before + all.take(i as int),
        decreases queue@.len() - i,
    {
        assert(names[i as int] == queue@[i as int]@);
        let line = line2(
            span(join2(number_field(i as u64 + 1, 2).as_str(), "  "), Style::Muted),
            span(truncate(queue[i].as_str(), less_usize(max, 4)), Style::Fg(theme.text)),
        );
        assert(line@ =~= all[i as int]);
        put_line(lines, line);
        assert(all.take(i + 1) =~= all.take(i as int).push(line@));
        i += 1;
        assert(views(lines@) =~= before + all.take(i as int));
    }
    assert(all.take(i as int) =~= all);
}

/// The queue view.
pub fn render_queue_view(app: &App, theme: Theme, area: Rect) -> (r: Vec<Draw>)
    ensures
        views(r@) == queue_view(app@, theme, area),
{
    let inner = area.inner(2, 1);
    let mut out = nothing();
    if inner.height == 0 {
        return out;
    }
    let max: usize = inner.width as usize;
    let mut lines = head_lines(app, theme, max);
    let room: usize = less_usize(inner.height as usize, lines.len());
    put_queue(&mut lines, &app.queue, theme, max, room);
    put(
        &mut out,
        Draw::Text { rect: inner, align: Align::Left, style: Style::Plain, lines },
    );
    assert(views(out@) =~= queue_view(app@, theme, area));
    out
}

/// The lines of the view never need more room than there is, as long as there is
/// room for what stands above the queue and one line more.
pub proof fn law_queue_fits_its_area(a: AppView, theme: Theme, area: Rect)
    requires
        area.without_margin(2, 1).height > queue_head(
            a,
            theme,
            area.without_margin(2, 1).width as int,
        ).len(),
    ensures
        queue_view(a, theme, area).len() == 1,
        queue_view(a, theme, area)[0] matches DrawView::Text { rect, lines, .. } && lines.len()
            <= rect.height,
{
}

/// The queue view: what is played from and what plays, where there are such, then the
/// queue in its order, every track with its number, as many as there is room for; or
/// that the queue is empty.
pub proof fn law_queue_shows_the_queue(a: AppView, theme: Theme, area: Rect, i: int)
    requires
        area.without_margin(2, 1).height > 0,
    ensures
        ({
            let inner = area.without_margin(2, 1);
            let max = inner.width as int;
            let s = if a.source_name.len() > 0 {
                2int
            } else {
                0
            };
            let n = s + if a.now is Some {
                3int
            } else {
                0
            };
            let lines = queue_view(a, theme, area)[0]->lines;
            &&& queue_view(a, theme, area).len() == 1
            &&& queue_view(a, theme, area)[0]->Text_rect == inner
            &&& a.source_name.len() > 0 ==> lines[0][0].text == "PLAYING FROM  "@ && lines[0][1].text
                == shortened(a.source_name, minus(max, 14))
            &&& a.now matches Some(p) ==> lines[s][0].text == "NOW PLAYING"@ && lines[s + 1][1].text
                == shortened(p.title, minus(max, 3)) && lines[s + 1][2].text == "  "@ + p.artist
            &&& lines[n][0].text == "UP NEXT"@
            &&& a.queue.len() == 0 ==> lines.len() == n + 3 && lines[n + 2][0].text
                == "queue is empty"@
            &&& a.queue.len() > 0 ==> lines.len() == n + 2 + if a.queue.len() < minus(
                inner.height as int,
                n + 2,
            ) {
                a.queue.len() as int
            } else {
                minus(inner.height as int, n + 2)
            }
            &&& 0 <= i < a.queue.len() && n + 2 + i < inner.height ==> lines[n + 2 + i][0].text
                == right_aligned(decimal((i + 1) as nat), 2) + "  "@ && lines[n + 2 + i][1].text
                == shortened(a.queue[i], minus(max, 4))
        }),
{
}

} // verus!
