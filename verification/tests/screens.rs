use smyx::app::App;
use smyx::login_modal::{lay_out_login, render_login_modal, LoginField, LoginModalState};
use smyx::models::{ActionItem, ActionKind, ActionMenu, LibItem, NowPlaying, RightView, Section};
use smyx::theme::{Rgb, Theme};
use smyx::ui::geometry::Rect;
use smyx::ui::lyrics::render_lyrics;
use smyx::ui::now_playing::{render_now_strip, render_nowplaying_view};
use smyx::ui::overlays::{render_actions_overlay, render_footer, render_progress, render_volume};
use smyx::ui::queue::render_queue_view;
use smyx::ui::scene::{Align, CoverOf, Draw, Line, Style};
use smyx::ui::screen::{drawable, lay_out, view_tabs};
use smyx::ui::{center_v, render};

const fn shade(n: u8) -> Rgb {
    Rgb { r: n, g: n, b: n }
}

const THEME: Theme = Theme {
    name: "test",
    background: shade(1),
    text: shade(2),
    text_muted: shade(3),
    primary: shade(4),
    accent: shade(5),
    success: shade(6),
    border_subtle: shade(7),
    border_dimmest: shade(8),
};

fn rect(x: u16, y: u16, width: u16, height: u16) -> Rect {
    Rect { x, y, width, height }
}

fn app() -> App {
    App::new(THEME, None, None, 50)
}

fn playing() -> NowPlaying {
    NowPlaying {
        uri: "subsonic:track:1".to_string(),
        title: "Title".to_string(),
        artist: "Artist".to_string(),
        album: "Album".to_string(),
        duration_ms: 100_000,
        position_ms: 25_000,
        position_at: 0,
        is_playing: false,
        cover: true,
    }
}

fn words(line: &Line) -> String {
    line.spans.iter().map(|s| s.text.as_str()).collect()
}

fn all_words(lines: &[Line]) -> Vec<String> {
    lines.iter().map(words).collect()
}

fn text_of(d: &Draw) -> (Rect, Align, Vec<String>) {
    match d {
        Draw::Text { rect, align, lines, .. } => (*rect, *align, all_words(lines)),
        other => panic!("{other:?}"),
    }
}

#[test]
fn areas_are_cut_down() {
    assert_eq!(rect(0, 0, 10, 10).inner(2, 1), rect(2, 1, 6, 8));
    assert_eq!(rect(0, 0, 3, 10).inner(2, 1), rect(0, 0, 0, 0));
    assert_eq!(rect(5, 5, 4, 2).inner(2, 1), rect(7, 6, 0, 0));
    assert_eq!(rect(1, 1, 10, 5).framed(), rect(2, 2, 8, 3));
    assert_eq!(rect(1, 1, 1, 0).framed(), rect(2, 1, 0, 0));
    assert_eq!(rect(65530, 0, 10, 1).right(), 65535);
    assert_eq!(center_v(rect(0, 10, 5, 7), 2), rect(0, 12, 5, 2));
    assert_eq!(center_v(rect(0, 10, 5, 1), 2), rect(0, 10, 5, 1));
    assert!(rect(1, 2, 3, 4).contains(3, 5));
    assert!(!rect(1, 2, 3, 4).contains(4, 5));
}

#[test]
fn areas_are_cut_down_as_in_ratatui() {
    for r in [rect(0, 0, 10, 10), rect(3, 4, 1, 1), rect(65530, 65530, 5, 5), rect(9, 9, 0, 3)] {
        let theirs = ratatui::layout::Rect { x: r.x, y: r.y, width: r.width, height: r.height };
        for (h, v) in [(0, 0), (1, 1), (2, 1), (2, 0), (40000, 1)] {
            let t = theirs.inner(ratatui::layout::Margin::new(h, v));
            assert_eq!(r.inner(h, v), rect(t.x, t.y, t.width, t.height));
        }
        let t = ratatui::widgets::Block::bordered().inner(theirs);
        assert_eq!(r.framed(), rect(t.x, t.y, t.width, t.height));
        assert_eq!(r.right(), theirs.right());
    }
}

#[test]
fn a_large_screen_has_everything_in_its_place() {
    let a = app();
    let l = lay_out(&a, rect(0, 0, 100, 40));
    assert_eq!(
        l.rows,
        vec![
            rect(2, 1, 96, 1),
            rect(2, 2, 96, 1),
            rect(2, 3, 96, 32),
            rect(2, 35, 96, 1),
            rect(2, 36, 96, 2),
            rect(2, 38, 96, 1),
        ]
    );
    assert_eq!(l.body, vec![rect(2, 3, 29, 32), rect(34, 3, 64, 32)]);
    assert_eq!(l.pane, vec![rect(34, 3, 64, 23), rect(34, 26, 64, 7), rect(34, 33, 64, 2)]);
    assert_eq!(l.strip, vec![rect(2, 36, 96, 1), rect(2, 37, 96, 1)]);
    assert!(l.login.is_none());
}

#[test]
fn the_lyrics_view_is_divided_otherwise() {
    let mut a = app();
    a.view = RightView::Lyrics;
    let l = lay_out(&a, rect(0, 0, 100, 40));
    assert_eq!(
        l.pane,
        vec![rect(36, 3, 60, 1), rect(36, 4, 60, 1), rect(36, 5, 60, 1), rect(36, 6, 60, 29)]
    );
    a.view = RightView::Queue;
    assert!(lay_out(&a, rect(0, 0, 100, 40)).pane.is_empty());
}

#[test]
fn parts_stay_inside_however_small_the_screen() {
    let mut a = app();
    a.login_modal = Some(LoginModalState::default());
    for w in 0..40u16 {
        for h in 0..30u16 {
            for view in RightView::ALL {
                a.view = view;
                let l = lay_out(&a, rect(0, 0, w, h));
                assert_eq!((l.rows.len(), l.body.len(), l.strip.len()), (6, 2, 2));
                let login = l.login.as_ref().unwrap();
                let parts = l.rows.iter().chain(&l.body).chain(&l.pane).chain(&l.strip);
                for p in parts.chain(&login.rows).chain(&login.columns).chain(&login.fields) {
                    assert!(p.x + p.width <= w && p.y + p.height <= h, "{p:?} in {w} x {h}");
                }
            }
        }
    }
}

#[test]
fn the_form_stands_in_the_middle() {
    let l = lay_out_login(rect(0, 0, 100, 40));
    assert_eq!(l.columns[1], rect(20, 11, 60, 18));
    assert_eq!(
        l.fields,
        vec![
            rect(22, 13, 56, 3),
            rect(22, 16, 56, 3),
            rect(22, 19, 56, 3),
            rect(22, 22, 56, 3),
            rect(22, 25, 56, 2),
        ]
    );
}

#[test]
fn the_form_masks_the_password() {
    let l = lay_out_login(rect(0, 0, 100, 40));
    let mut m = LoginModalState::default();
    m.username = "me".to_string();
    m.password = "pä".to_string();
    m.active_field = LoginField::Password;
    let draws = render_login_modal(&m, THEME, &l);
    assert_eq!(draws.len(), 6);
    assert!(matches!(draws[0], Draw::Clear { rect } if rect == l.columns[1]));
    assert!(matches!(&draws[1], Draw::Panel { title, .. } if title == " Navidrome Server Login "));
    match &draws[2] {
        Draw::Field { title, border, text, .. } => {
            assert_eq!(title, " Server IP / URL (e.g. http://localhost:4533) ");
            assert_eq!((text.as_str(), *border), ("http://localhost:4533", Style::Fg(shade(3))));
        }
        other => panic!("{other:?}"),
    }
    match &draws[4] {
        Draw::Field { title, border, text, style, .. } => {
            assert_eq!((title.as_str(), text.as_str()), (" Password ", "***"));
            assert_eq!((*border, *style), (Style::Bold(shade(5)), Style::Fg(shade(2))));
        }
        other => panic!("{other:?}"),
    }
    assert_eq!(text_of(&draws[5]).2, vec!["  [ Connect & Login ]  "]);
    m.is_connecting = true;
    m.active_field = LoginField::Submit;
    m.error_message = Some("oops".to_string());
    let draws = render_login_modal(&m, THEME, &l);
    match &draws[5] {
        Draw::Text { style, lines, .. } => {
            assert_eq!(*style, Style::On { fg: shade(1), bg: shade(5), bold: true });
            assert_eq!(words(&lines[0]), "  Connecting...  ");
        }
        other => panic!("{other:?}"),
    }
    assert_eq!(text_of(&draws[6]), (l.fields[4], Align::Center, vec![" Error: oops".to_string()]));
}

#[test]
fn the_volume_is_shown_in_steps() {
    let mut a = app();
    a.volume = 50;
    let (d, r) = render_volume(&a, THEME, rect(2, 10, 96, 1));
    assert_eq!(r, rect(85, 10, 8, 1));
    match d {
        Draw::Text { align: Align::Right, lines, .. } => {
            assert_eq!(words(&lines[0]), "▁▂▃▄▅▆▇█  50%");
            let lit = lines[0].spans.iter().filter(|s| s.style == Style::Fg(shade(4))).count();
            assert_eq!(lit, 4);
        }
        other => panic!("{other:?}"),
    }
    for (volume, lit) in [(0u8, 0usize), (6, 0), (7, 1), (93, 7), (94, 8), (100, 8), (255, 8)] {
        a.volume = volume;
        let (d, _) = render_volume(&a, THEME, rect(0, 0, 5, 1));
        match d {
            Draw::Text { lines, .. } => {
                let n = lines[0].spans.iter().filter(|s| s.style == Style::Fg(shade(4))).count();
                assert_eq!(n, lit);
            }
            other => panic!("{other:?}"),
        }
    }
}

#[test]
fn the_progress_fills_its_row() {
    let mut a = app();
    match render_progress(&a, rect(0, 0, 50, 1), 0) {
        Draw::Progress { left, right, bar, position, duration, .. } => {
            assert_eq!((left.as_str(), right.as_str()), ("0:00 ", " 0:00"));
            assert_eq!((bar, position, duration), (40, 0, 1));
        }
        other => panic!("{other:?}"),
    }
    a.now = Some(playing());
    match render_progress(&a, rect(0, 0, 50, 1), 0) {
        Draw::Progress { left, right, bar, position, duration, .. } => {
            assert_eq!((left.as_str(), right.as_str()), ("0:25 ", " 1:40"));
            assert_eq!((bar, position, duration), (40, 25_000, 100_000));
        }
        other => panic!("{other:?}"),
    }
    let draws = render_now_strip(&mut a, THEME, &[rect(2, 5, 50, 1), rect(2, 6, 50, 1)], 0);
    assert_eq!(draws.len(), 2);
    assert_eq!(a.bar_rect, Some(rect(7, 6, 40, 1)));
    assert_eq!(a.vol_rect, Some(rect(39, 5, 8, 1)));
}

#[test]
fn the_footer_tells_the_keys() {
    let mut a = app();
    a.library.home = vec![LibItem::ctx("c".into(), "".into(), "u".into())];
    let line = text_of(&render_footer(&a, THEME, rect(0, 0, 9, 1))).2.remove(0);
    assert_eq!(
        line,
        "⇥ section   ←→ view   / search   ⏎ open   P play   S shuffle   ␣ play    n/b skip   \
         ⇧←→ seek   o sort   +/- vol   s shuffle   a actions   q quit"
    );
    a.now = Some(playing());
    a.now.as_mut().unwrap().is_playing = true;
    a.selected = 4;
    let line = text_of(&render_footer(&a, THEME, rect(0, 0, 9, 1))).2.remove(0);
    assert!(line.contains("⏎ select   ") && line.contains("␣ pause   "));
}

fn menu(n: usize) -> ActionMenu {
    ActionMenu {
        title: "Menu".to_string(),
        items: (0..n)
            .map(|i| ActionItem {
                label: format!("entry {i}"),
                kind: ActionKind::CopyLink { uri: String::new() },
            })
            .collect(),
        selected: 1,
    }
}

#[test]
fn the_menu_lies_in_the_middle() {
    let draws = render_actions_overlay(&menu(3), THEME, rect(2, 1, 96, 38));
    let r = rect(26, 16, 48, 7);
    assert!(matches!(draws[0], Draw::Clear { rect } if rect == r));
    assert!(matches!(draws[1], Draw::Fill { rect, style: Style::Element } if rect == r));
    assert_eq!(
        text_of(&draws[2]),
        (
            rect(28, 17, 44, 5),
            Align::Left,
            vec!["Menu".into(), "".into(), "  entry 0".into(), "› entry 1".into(), "  entry 2".into()]
        )
    );
}

#[test]
fn a_long_menu_shows_what_fits() {
    let draws = render_actions_overlay(&menu(30), THEME, rect(0, 0, 20, 8));
    match &draws[2] {
        Draw::Text { rect: r, lines, .. } => {
            assert_eq!(*r, rect(2, 2, 24, 4));
            assert_eq!(lines.len(), 4);
        }
        other => panic!("{other:?}"),
    }
    let draws = render_actions_overlay(&menu(0), THEME, rect(0, 0, 200, 20));
    assert!(matches!(draws[0], Draw::Clear { rect: r } if r == rect(74, 7, 52, 6)));
}

#[test]
fn a_menu_needs_room() {
    let mut a = app();
    a.actions = Some(menu(3));
    assert!(drawable(&a, rect(0, 0, 80, 10), 0));
    assert!(!drawable(&a, rect(0, 0, 80, 9), 0));
    assert!(!drawable(&a, rect(0, 0, 13112, 10), 0));
    a.actions = None;
    assert!(drawable(&a, rect(0, 0, 0, 0), 0));
    assert!(drawable(&a, rect(0, 0, 80, 65535), 0));
    assert!(!drawable(&a, rect(0, 1, 80, 65535), 0));
}

#[test]
fn what_is_drawn_has_to_be_counted() {
    let mut a = app();
    a.now = None;
    a.details.clear();
    a.searching = false;
    a.library.home.clear();
    a.section = Section::Home;
    a.view = RightView::NowPlaying;
    // Nothing is selected, so that there are no lines below a cover.
    assert!(drawable(&a, rect(0, 65515, 80, 20), 0));
    a.library.home = vec![LibItem::track("t".into(), "".into(), "u".into())];
    a.selected = 0;
    assert!(!drawable(&a, rect(0, 65515, 80, 20), 0));
    assert!(drawable(&a, rect(0, 65509, 80, 20), 0));
    assert!(drawable(&a, rect(0, 65512, 80, 23), 0));
    // The bar of the strip begins behind `0:00 `.
    assert!(drawable(&a, rect(65528, 0, 7, 30), 0));
    assert!(!drawable(&a, rect(65529, 0, 6, 30), 0));
}

#[test]
fn the_queue_is_counted() {
    let mut a = app();
    let lines = text_of(&render_queue_view(&a, THEME, rect(0, 0, 30, 12))[0]).2;
    assert_eq!(lines, vec!["UP NEXT", "", "queue is empty"]);
    a.source_name = "A rather long source name".to_string();
    a.now = Some(playing());
    a.queue = (0..12).map(|i| format!("queued {i}")).collect();
    let (r, _, lines) = text_of(&render_queue_view(&a, THEME, rect(0, 0, 30, 14))[0]);
    assert_eq!(r, rect(2, 1, 26, 12));
    assert_eq!(
        lines,
        vec![
            "PLAYING FROM  A rather lo…",
            "",
            "NOW PLAYING",
            "   Title  Artist",
            "",
            "UP NEXT",
            "",
            " 1  queued 0",
            " 2  queued 1",
            " 3  queued 2",
            " 4  queued 3",
            " 5  queued 4",
        ]
    );
    let lines = text_of(&render_queue_view(&a, THEME, rect(0, 0, 30, 60))[0]).2;
    assert_eq!(lines[17], "11  queued 10");
    assert!(render_queue_view(&a, THEME, rect(0, 0, 30, 2)).is_empty());
}

#[test]
fn lyrics_follow_the_track() {
    let mut a = app();
    let area = rect(0, 0, 24, 10);
    let head = [rect(2, 0, 20, 1), rect(2, 1, 20, 1), rect(2, 2, 20, 1), rect(2, 3, 20, 4)];
    let draws = render_lyrics(&a, THEME, area, &head, 0);
    assert_eq!(
        text_of(&draws[0]),
        (rect(2, 4, 20, 1), Align::Center, vec!["♪︎  nothing playing".to_string()])
    );
    a.now = Some(playing());
    let draws = render_lyrics(&a, THEME, area, &head, 0);
    assert_eq!(text_of(&draws[0]).2, vec!["Title"]);
    assert_eq!(text_of(&draws[1]).2, vec!["Artist · Album"]);
    assert_eq!(
        text_of(&draws[2]),
        (rect(2, 4, 20, 1), Align::Center, vec!["♪︎  no lyrics for this track".to_string()])
    );
    a.lyrics = (0..10).map(|i| (i * 5000, if i == 4 { String::new() } else { format!("line {i}") })).collect();
    a.lyrics_synced = true;
    let draws = render_lyrics(&a, THEME, area, &head, 0);
    match &draws[2] {
        Draw::Text { rect, lines, .. } => {
            assert_eq!(*rect, head[3]);
            assert_eq!(all_words(lines), vec!["line 3", "♪︎", "line 5", "line 6"]);
            let styles: Vec<Style> = lines.iter().map(|l| l.spans[0].style).collect();
            assert_eq!(
                styles,
                vec![
                    Style::Fg(shade(7)),
                    Style::Fg(shade(7)),
                    Style::Bold(shade(4)),
                    Style::Muted
                ]
            );
        }
        other => panic!("{other:?}"),
    }
    a.now.as_mut().unwrap().position_ms = 99_000;
    let draws = render_lyrics(&a, THEME, area, &head, 0);
    assert_eq!(text_of(&draws[2]).2, vec!["line 7", "line 8", "line 9"]);
    a.lyrics_synced = false;
    let draws = render_lyrics(&a, THEME, area, &head, 0);
    assert_eq!(text_of(&draws[2]).2, vec!["line 0", "line 1", "line 2", "line 3"]);
    a.now.as_mut().unwrap().album.clear();
    let draws = render_lyrics(&a, THEME, area, &head, 0);
    assert_eq!(text_of(&draws[1]).2, vec!["Artist"]);
    assert!(render_lyrics(&a, THEME, rect(0, 0, 24, 0), &head, 0).is_empty());
}

#[test]
fn before_the_first_line_the_first_is_current() {
    let mut a = app();
    a.lyrics = vec![(5000, "one".to_string()), (6000, "two".to_string())];
    a.lyrics_synced = true;
    let draws = render_lyrics(&a, THEME, rect(0, 0, 24, 4), &[], 0);
    match &draws[0] {
        Draw::Text { lines, .. } => {
            assert_eq!(lines[0].spans[0].style, Style::Bold(shade(4)));
            assert_eq!(lines[1].spans[0].style, Style::Muted);
        }
        other => panic!("{other:?}"),
    }
}

#[test]
fn a_cover_is_square_and_fits() {
    let mut a = app();
    a.now = Some(playing());
    let chunks = [rect(34, 3, 64, 23), rect(34, 26, 64, 7), rect(34, 33, 64, 2)];
    let draws = render_nowplaying_view(&a, THEME, rect(34, 3, 64, 32), &chunks, (10, 20));
    assert_eq!(draws.len(), 4);
    assert!(matches!(draws[0], Draw::Clear { rect: r } if r == rect(52, 7, 28, 14)));
    assert!(matches!(draws[1], Draw::Cover { rect: r, of: CoverOf::Playing } if r == rect(52, 7, 28, 14)));
    assert_eq!(
        text_of(&draws[2]),
        (
            rect(34, 22, 64, 3),
            Align::Center,
            vec!["Title".into(), "Artist".into(), "Album".into()]
        )
    );
    assert!(matches!(draws[3], Draw::Visualizer { rect: r } if r == chunks[1]));
    a.now.as_mut().unwrap().cover = false;
    let narrow = [rect(0, 0, 10, 23), rect(0, 23, 10, 7), rect(0, 30, 10, 2)];
    let draws = render_nowplaying_view(&a, THEME, rect(0, 0, 10, 32), &narrow, (0, 2));
    assert_eq!(draws.len(), 2);
    assert_eq!(text_of(&draws[0]).0, rect(0, 14, 10, 3));
}

#[test]
fn while_nothing_plays_the_selection_is_shown() {
    let mut a = app();
    let area = rect(34, 3, 64, 32);
    let chunks = [rect(34, 3, 64, 23), rect(34, 26, 64, 7), rect(34, 33, 64, 2)];
    let draws = render_nowplaying_view(&a, THEME, area, &chunks, (10, 20));
    assert_eq!(
        text_of(&draws[0]),
        (
            rect(34, 18, 64, 2),
            Align::Center,
            vec!["Nothing playing.".into(), "Browse ← and press Enter.".into()]
        )
    );
    a.library.home = vec![
        LibItem::header("h"),
        LibItem::track("Song".into(), "Singer".into(), "subsonic:track:1".into()),
    ];
    assert_eq!(render_nowplaying_view(&a, THEME, area, &chunks, (10, 20)).len(), 1);
    a.selected = 1;
    let draws = render_nowplaying_view(&a, THEME, area, &chunks, (10, 20));
    assert_eq!(text_of(&draws[0]).2, vec!["Song", "Singer", "Press Enter to Play"]);
    a.selected_cover = Some("subsonic:track:1".to_string());
    let draws = render_nowplaying_view(&a, THEME, area, &chunks, (10, 20));
    assert!(matches!(draws[1], Draw::Cover { of: CoverOf::Selected, .. }));
    assert_eq!(draws.len(), 3);
}

#[test]
fn the_whole_screen_is_drawn_from_bottom_to_top() {
    let mut a = app();
    a.status = "hello".to_string();
    a.actions = Some(menu(2));
    a.login_modal = Some(LoginModalState::default());
    let draws = render(&mut a, rect(0, 0, 100, 40), (10, 20), 0);
    assert!(matches!(draws[0], Draw::Fill { rect: r, style: Style::Base } if r == rect(0, 0, 100, 40)));
    assert_eq!(
        text_of(&draws[1]),
        (rect(2, 1, 96, 1), Align::Left, vec!["ＭＹＸ   hello".to_string()])
    );
    assert_eq!(
        text_of(&draws[2]),
        (rect(2, 1, 96, 1), Align::Right, vec!["←→ Now Playing · Lyrics · Queue".to_string()])
    );
    assert!(matches!(draws[3], Draw::Library { rect: r } if r == rect(2, 3, 29, 32)));
    assert_eq!(draws.len(), 4 + 1 + 2 + 1 + 3 + 6);
    assert!(matches!(draws[6], Draw::Progress { .. }));
    assert!(matches!(draws[12], Draw::Panel { .. }));
    assert_eq!(
        a.tab_rects,
        vec![
            (RightView::NowPlaying, rect(70, 1, 11, 1)),
            (RightView::Lyrics, rect(84, 1, 6, 1)),
            (RightView::Queue, rect(93, 1, 5, 1)),
        ]
    );
    assert_eq!(a.bar_rect, Some(rect(7, 37, 86, 1)));
    assert_eq!(a.vol_rect, Some(rect(85, 36, 8, 1)));
}

#[test]
fn the_tab_of_the_view_stands_out() {
    let mut a = app();
    a.view = RightView::Lyrics;
    let line = view_tabs(&a, THEME);
    let bold: Vec<&str> = line
        .spans
        .iter()
        .filter(|s| s.style == Style::Bold(shade(4)))
        .map(|s| s.text.as_str())
        .collect();
    assert_eq!(bold, vec!["Lyrics"]);
}
