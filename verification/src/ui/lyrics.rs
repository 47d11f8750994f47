//! The lyrics view.

use vstd::prelude::*;
use crate::app::{App, AppView};
use crate::lyrics::view_entries;
use crate::models::NowPlayingView;
use crate::text::{join3, views};
use crate::theme::Theme;
use crate::ui::geometry::{minus, Rect};
use crate::ui::scene::{
    label, line1, line_of, nothing, put, put_line, span, text_line, Align, Draw, DrawView, Line,
    SpanView, Style,
};
use crate::ui::words::{center_v, centered, shortened, truncate};

verus! {

/// The last line whose time has come; the first where none has.
pub open spec fn current_line(lyrics: Seq<(u32, Seq<char>)>, position: int) -> int
    decreases lyrics.len(),
{
    if lyrics.len() == 0 {
        0
    } else if lyrics.last().0 <= position {
        lyrics.len() - 1
    } else {
        current_line(lyrics.drop_last(), position)
    }
}

/// How a line of lyrics looks: the current one stands out, those before it recede.
pub open spec fn lyric_style(theme: Theme, synced: bool, i: int, cur: int) -> Style {
    if synced && i == cur {
        Style::Bold(theme.primary)
    } else if synced && i < cur {
        Style::Fg(theme.border_subtle)
    } else {
        Style::Muted
    }
}

/// A line of lyrics; a note where it is empty.
pub open spec fn lyric_text(text: Seq<char>, max: int) -> Seq<char> {
    if text.len() == 0 {
        "♪︎"@
    } else {
        shortened(text, max)
    }
}

/// The first line that is shown: so many rows before the current one as fill half
/// the height.
pub open spec fn window_start(cur: int, height: int) -> int {
    minus(cur, height / 2)
}

/// The line of lyrics at a place, as it is shown.
pub open spec fn lyric_line(
    lyrics: Seq<(u32, Seq<char>)>,
    theme: Theme,
    synced: bool,
    max: int,
    cur: int,
    i: int,
) -> Seq<SpanView> {
    line_of(lyric_text(lyrics[i].1, max), lyric_style(theme, synced, i, cur))
}

/// The lines that are shown.
pub open spec fn lyric_window(
    lyrics: Seq<(u32, Seq<char>)>,
    theme: Theme,
    synced: bool,
    max: int,
    height: int,
    cur: int,
) -> Seq<Seq<SpanView>> {
    let from = window_start(cur, height);
    let n = if lyrics.len() - from < height {
        lyrics.len() - from
    } else {
        height
    };
    Seq::new(
        (if n > 0 {
            n
        } else {
            0
        }) as nat,
        |k: int| lyric_line(lyrics, theme, synced, max, cur, from + k),
    )
}

/// Which line is the current one.
pub open spec fn cursor(a: AppView, now: u64) -> int {
    if a.lyrics_synced {
        current_line(a.lyrics, a.position(now))
    } else {
        0
    }
}

/// What is said below the title of a track.
pub open spec fn subtitle(n: NowPlayingView) -> Seq<char> {
    if n.album.len() == 0 {
        n.artist
    } else {
        n.artist + " · "@ + n.album
    }
}

/// The title of the track that plays.
pub open spec fn lyrics_head(a: AppView, theme: Theme, max: int, head: Seq<Rect>) -> Seq<DrawView> {
    match a.now {
        Some(n) => seq![
            DrawView::Text {
                rect: head[0],
                align: Align::Center,
                style: Style::Plain,
                lines: seq![line_of(shortened(n.title, max), Style::Bold(theme.text))],
            },
            DrawView::Text {
                rect: head[1],
                align: Align::Center,
                style: Style::Plain,
                lines: seq![line_of(shortened(subtitle(n), max), Style::Muted)],
            },
        ],
        None => Seq::empty(),
    }
}

/// Where the lyrics stand: below the title, or everywhere.
pub open spec fn lyrics_area(a: AppView, inner: Rect, head: Seq<Rect>) -> Rect {
    if a.now is Some {
        head[3]
    } else {
        inner
    }
}

/// The lyrics, or why there are none.
pub open spec fn lyrics_body(a: AppView, theme: Theme, max: int, area: Rect, now: u64) -> DrawView {
    if a.lyrics.len() == 0 {
        DrawView::Text {
            rect: centered(area, 1),
            align: Align::Center,
            style: Style::Muted,
            lines: seq![
                line_of(
                    if a.now is Some {
                        "♪︎  no lyrics for this track"@
                    } else {
                        "♪︎  nothing playing"@
                    },
                    Style::Plain,
                ),
            ],
        }
    } else {
        DrawView::Text {
            rect: area,
            align: Align::Center,
            style: Style::Plain,
            lines: lyric_window(
                a.lyrics,
                theme,
                a.lyrics_synced,
                max,
                area.height as int,
                cursor(a, now),
            ),
        }
    }
}

/// The lyrics view.
pub open spec fn lyrics_view(a: AppView, theme: Theme, area: Rect, head: Seq<Rect>, now: u64) -> Seq<
    DrawView,
> {
    let inner = area.without_margin(2, 0);
    let max = inner.width as int;
    if inner.height == 0 {
        Seq::empty()
    } else {
        lyrics_head(a, theme, max, head).push(
            lyrics_body(a, theme, max, lyrics_area(a, inner, head), now),
        )
    }
}

fn find_current_line(lyrics: &Vec<(u32, String)>, position: u32) -> (r: usize)
    ensures
        r == current_line(view_entries(lyrics@), position as int),
        r <= lyrics@.len(),
{
    let ghost all = view_entries(lyrics@);
    let mut i: usize = lyrics.len();
    assert(all.take(all.len() as int) =~= all);
    while i > 0 && lyrics[i - 1].0 > position
        invariant
            i <= lyrics@.len(),
            all == view_entries(lyrics@),
            current_line(all, position as int) == current_line(all.take(i as int), position as int),
        decreases i,
    {
        proof {
            let t = all.take(i as int);
            assert(t.last() == all[i - 1]);
            assert(t.drop_last() =~= all.take(i - 1));
        }
        i -= 1;
    }
    if i > 0 {
        assert(all.take(i as int).last() == all[i - 1]);
        i - 1
    } else {
        0
    }
}

fn lyric_lines(
    lyrics: &Vec<(u32, String)>,
    theme: Theme,
    synced: bool,
    max: usize,
    height: usize,
    cur: usize,
) -> (r: Vec<Line>)
    ensures
        views(r@) == lyric_window(
            view_entries(lyrics@),
            theme,
            synced,
            max as int,
            height as int,
            cur as int,
        ),
{
    let from: usize = if cur > height / 2 {
        cur - height / 2
    } else {
        0
    };
    let ghost all = view_entries(lyrics@);
    let ghost shown = lyric_window(all, theme, synced, max as int, height as int, cur as int);
    let mut out: Vec<Line> = Vec::new();
    let mut k: usize = 0;
    assert(views(out@) =~= shown.take(0));
    while k < height && from < lyrics.len() && k < lyrics.len() - from
        invariant
            all == view_entries(lyrics@),
            shown == lyric_window(all, theme, synced, max as int, height as int, cur as int),
            from == window_start(cur as int, height as int),
            k <= shown.len(),
            views(out@) == shown.take(k as int),
        decreases height - k,
    {
        let i: usize = from + k;
        let text = &lyrics[i].1;
        let style = if synced && i == cur {
            Style::Bold(theme.primary)
        } else if synced && i < cur {
            Style::Fg(theme.border_subtle)
        } else {
            Style::Muted
        };
        let line = if text.as_str().is_empty() {
            line1(label("♪︎", style))
        } else {
            line1(span(truncate(text.as_str(), max), style))
        };
        proof {
            assert(all[i as int] == (lyrics@[i as int].0, lyrics@[i as int].1@));
            assert(line@ =~= shown[k as int]);
            assert(shown.take(k + 1) =~= shown.take(k as int).push(line@));
        }
        put_line(&mut out, line);
        k += 1;
    }
    assert(k == shown.len());
    assert(shown.take(k as int) =~= shown);
    out
}

/// The lyrics view, whose area below the margin has been divided into a title, a
/// subtitle, a spacer and the rest.
pub fn render_lyrics(app: &App, theme: Theme, area: Rect, head: &[Rect], now: u64) -> (r: Vec<Draw>)
    requires
        app@.clock_ok(now),
        area.fits(),
        app@.now is Some ==> head@.len() == 4 && head@[3].fits(),
    ensures
        views(r@) == lyrics_view(app@, theme, area, head@, now),
{
    let inner = area.inner(2, 0);
    let mut out = nothing();
    if inner.height == 0 {
        return out;
    }
    let max: usize = inner.width as usize;
    let mut lyrics_rect = inner;
    if let Some(n) = &app.now {
        put(
            &mut out,
            text_line(
                head[0],
                Align::Center,
                line1(span(truncate(n.title.as_str(), max), Style::Bold(theme.text))),
            ),
        );
        let sub = if n.album.as_str().is_empty() {
            n.artist.clone()
        } else {
            join3(n.artist.as_str(), " · ", n.album.as_str())
        };
        put(
            &mut out,
            text_line(
                head[1],
                Align::Center,
                line1(span(truncate(sub.as_str(), max), Style::Muted)),
            ),
        );
        lyrics_rect = head[3];
    }
    assert(views(out@) =~= lyrics_head(app@, theme, max as int, head@));
    if app.lyrics.len() == 0 {
        let message = if app.now.is_some() {
            "♪︎  no lyrics for this track"
        } else {
            "♪︎  nothing playing"
        };
        let mut lines: Vec<Line> = Vec::new();
        lines.push(line1(label(message, Style::Plain)));
        assert(views(lines@) =~= seq![line_of(message@, Style::Plain)]);
        put(
            &mut out,
            Draw::Text {
                rect: center_v(lyrics_rect, 1),
                align: Align::Center,
                style: Style::Muted,
                lines,
            },
        );
        return out;
    }
    let position = app.position_ms(now);
    let cur: usize = if app.lyrics_synced {
        find_current_line(&app.lyrics, position)
    } else {
        0
    };
    let lines = lyric_lines(
        &app.lyrics,
        theme,
        app.lyrics_synced,
        max,
        lyrics_rect.height as usize,
        cur,
    );
    put(
        &mut out,
        Draw::Text { rect: lyrics_rect, align: Align::Center, style: Style::Plain, lines },
    );
    out
}

/// Of timed lyrics, the current line is the last whose time has come: its time has
/// come, and that of the next has not.
pub proof fn law_current_line_is_the_last_due(lyrics: Seq<(u32, Seq<char>)>, position: int)
    requires
        lyrics.len() > 0,
    ensures
        ({
            let cur = current_line(lyrics, position);
            &&& 0 <= cur < lyrics.len()
            &&& (exists|i: int| 0 <= i < lyrics.len() && (#[trigger] lyrics[i]).0 <= position)
                ==> lyrics[cur].0 <= position
            &&& forall|i: int| cur < i < lyrics.len() ==> (#[trigger] lyrics[i]).0 > position
        }),
    decreases lyrics.len(),
{
    if lyrics.last().0 > position {
        let front = lyrics.drop_last();
        if front.len() > 0 {
            law_current_line_is_the_last_due(front, position);
            let cur = current_line(lyrics, position);
            if exists|i: int| 0 <= i < lyrics.len() && (#[trigger] lyrics[i]).0 <= position {
                let i = choose|i: int|
                    0 <= i < lyrics.len() && (#[trigger] lyrics[i]).0 <= position;
                assert(front[i].0 <= position);
                assert(front[cur] == lyrics[cur]);
            }
            assert forall|i: int| cur < i < lyrics.len() implies (#[trigger] lyrics[i]).0
                > position by {
                if i < front.len() {
                    assert(front[i].0 > position);
                }
            }
        }
    }
}

/// The current line is always on the screen.
pub proof fn law_current_line_is_shown(
    lyrics: Seq<(u32, Seq<char>)>,
    theme: Theme,
    max: int,
    height: int,
    cur: int,
)
    requires
        0 <= cur < lyrics.len(),
        height > 0,
    ensures
        ({
            let shown = lyric_window(lyrics, theme, true, max, height, cur);
            let at = cur - window_start(cur, height);
            &&& shown.len() <= height
            &&& 0 <= at < shown.len()
            &&& shown[at] == line_of(lyric_text(lyrics[cur].1, max), Style::Bold(theme.primary))
        }),
{
}

/// Where no line is due yet, the first is the current one.
pub proof fn law_before_the_first_line(lyrics: Seq<(u32, Seq<char>)>, position: int)
    requires
        forall|i: int| 0 <= i < lyrics.len() ==> (#[trigger] lyrics[i]).0 > position,
    ensures
        current_line(lyrics, position) == 0,
    decreases lyrics.len(),
{
    if lyrics.len() > 0 {
        assert(lyrics[lyrics.len() - 1].0 > position);
        assert forall|i: int| 0 <= i < lyrics.drop_last().len() implies (
        #[trigger] lyrics.drop_last()[i]).0 > position by {
            assert(lyrics[i].0 > position);
        }
        law_before_the_first_line(lyrics.drop_last(), position);
    }
}

/// The lines on the screen are lines of the lyrics one behind the other, as many as
/// fit: from half the height above the current line, or from the first. An empty line
/// is a note. The current line of timed lyrics is bold, those before it recede.
pub proof fn law_lines_on_the_screen(
    lyrics: Seq<(u32, Seq<char>)>,
    theme: Theme,
    synced: bool,
    max: int,
    height: int,
    cur: int,
    k: int,
)
    requires
        0 <= cur < lyrics.len(),
        height > 0,
    ensures
        ({
            let shown = lyric_window(lyrics, theme, synced, max, height, cur);
            let from = if cur > height / 2 {
                cur - height / 2
            } else {
                0
            };
            &&& shown.len() == (if lyrics.len() - from < height {
                lyrics.len() - from
            } else {
                height
            })
            &&& 0 <= k < shown.len() ==> shown[k].len() == 1 && shown[k][0].text == (
            if lyrics[from + k].1.len() == 0 {
                "♪︎"@
            } else {
                shortened(lyrics[from + k].1, max)
            }) && shown[k][0].style == (if !synced || from + k > cur {
                Style::Muted
            } else if from + k == cur {
                Style::Bold(theme.primary)
            } else {
                Style::Fg(theme.border_subtle)
            })
        }),
{
}

/// The lyrics view follows the position of the track while the lyrics are timed, and
/// stays at their beginning otherwise.
pub proof fn law_lyrics_follow_the_track(a: AppView, now: u64)
    ensures
        a.lyrics_synced ==> cursor(a, now) == current_line(a.lyrics, a.position(now)),
        !a.lyrics_synced ==> cursor(a, now) == 0,
{
}

/// Above the lyrics stand the title of the track, and its artist with its album.
pub proof fn law_lyrics_are_headed(a: AppView, n: NowPlayingView, theme: Theme, max: int, head: Seq<Rect>)
    requires
        a.now == Some(n),
    ensures
        ({
            let draws = lyrics_head(a, theme, max, head);
            &&& draws.len() == 2
            &&& draws[0]->Text_rect == head[0] && draws[1]->Text_rect == head[1]
            &&& draws[0]->lines[0][0].text == shortened(n.title, max)
            &&& n.album.len() == 0 ==> draws[1]->lines[0][0].text == shortened(n.artist, max)
            &&& n.album.len() > 0 ==> draws[1]->lines[0][0].text == shortened(
                n.artist + " · "@ + n.album,
                max,
            )
        }),
{
}

} // verus!
