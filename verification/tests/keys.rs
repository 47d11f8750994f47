use smyx::app::App;
use smyx::effects::Effect;
use smyx::events::{
    handle_click, handle_key, has_like, key_acceptable, link_copied, run_action,
};
use smyx::input::{KeyCode, KeyEvent, MediaKey};
use smyx::login_modal::{LoginField, LoginModalAction, LoginModalState};
use smyx::models::{
    ActionKind, Detail, LibItem, NowPlaying, PlaySource, RightView, Section, SortMode,
};
use smyx::subsonic::SubsonicClient;
use smyx::theme::{Rgb, Theme};
use smyx::ui::geometry::Rect;

const C: Rgb = Rgb { r: 1, g: 2, b: 3 };

const fn theme(name: &'static str) -> Theme {
    Theme {
        name,
        background: C,
        text: C,
        text_muted: C,
        primary: C,
        accent: C,
        success: C,
        border_subtle: C,
        border_dimmest: C,
    }
}

const THEMES: [Theme; 2] = [theme("one"), theme("two")];
const MS: u64 = 1_000_000;

fn app() -> App {
    let client = SubsonicClient {
        server_url: "http://s".to_string(),
        username: "u".to_string(),
        password: "p".to_string(),
    };
    let mut a = App::new(THEMES[0], Some(client), None, 50);
    a.library.home = vec![
        LibItem::header("Songs"),
        track("b"),
        track("A"),
        LibItem::ctx("Album".into(), "Someone".into(), "subsonic:album:9".into()),
    ];
    a.library.liked = vec![track("A")];
    a.library.playlists = vec![
        LibItem::ctx("Mix".into(), "".into(), "subsonic:playlist:m:1".into()),
        LibItem::ctx("Odd".into(), "".into(), "no-colon".into()),
    ];
    a.selected = 1;
    a
}

fn track(name: &str) -> LibItem {
    LibItem::track(name.to_string(), format!("by {name}"), format!("subsonic:track:{name}"))
}

fn playing(position_ms: u32) -> NowPlaying {
    NowPlaying {
        uri: "subsonic:track:b".to_string(),
        title: "b".to_string(),
        artist: String::new(),
        album: String::new(),
        duration_ms: 100_000,
        position_ms,
        position_at: 0,
        is_playing: false,
        cover: false,
    }
}

fn press(a: &mut App, code: KeyCode) -> Vec<Effect> {
    let (quit, effects) = handle_key(a, KeyEvent::plain(code), 0, 0, &THEMES);
    assert!(!quit);
    effects
}

fn char(a: &mut App, c: char) -> Vec<Effect> {
    press(a, KeyCode::Char(c))
}

fn shifted(a: &mut App, code: KeyCode) -> Vec<Effect> {
    handle_key(a, KeyEvent { code, control: false, shift: true }, 0, 0, &THEMES).1
}

fn ctrl_c(a: &mut App, now: u64) -> bool {
    let key = KeyEvent { code: KeyCode::Char('c'), control: true, shift: false };
    handle_key(a, key, now, 0, &THEMES).0
}

#[test]
fn ctrl_c_has_to_be_pressed_twice() {
    let mut a = app();
    assert!(!ctrl_c(&mut a, 1000 * MS));
    assert_eq!(a.status, "press Ctrl-C again to quit");
    assert!(ctrl_c(&mut a, 2499 * MS));
    assert!(!ctrl_c(&mut a, 2500 * MS));
    assert_eq!(a.last_ctrl_c, Some(2500 * MS));
    a.login_modal = Some(LoginModalState::default());
    assert!(ctrl_c(&mut a, 2501 * MS));
    let mut b = app();
    assert!(char(&mut b, 'c').is_empty());
    assert!(b.last_ctrl_c.is_none());
}

#[test]
fn q_quits_only_while_browsing() {
    let q = KeyEvent::plain(KeyCode::Char('q'));
    assert!(handle_key(&mut app(), q, 0, 0, &THEMES).0);
    let mut a = app();
    char(&mut a, '/');
    assert!(!handle_key(&mut a, q, 0, 0, &THEMES).0);
    assert_eq!(a.query, "q");
    let mut a = app();
    char(&mut a, 'a');
    assert!(!handle_key(&mut a, q, 0, 0, &THEMES).0);
    assert!(a.actions.is_some());
}

#[test]
fn a_search_is_typed_and_sent() {
    let mut a = app();
    char(&mut a, '/');
    assert!(a.input_mode);
    for c in " abx".chars() {
        char(&mut a, c);
    }
    press(&mut a, KeyCode::Backspace);
    assert_eq!(a.query, " ab");
    let effects = press(&mut a, KeyCode::Enter);
    assert!(matches!(&effects[..], [Effect::Search(q)] if q == "ab"));
    assert!(a.searching && !a.input_mode);
    assert_eq!((a.selected, a.status.as_str()), (0, "searching…"));
    char(&mut a, '/');
    assert_eq!(a.query, "");
    assert!(press(&mut a, KeyCode::Enter).is_empty());
    assert!(!a.input_mode);
    char(&mut a, '/');
    press(&mut a, KeyCode::Backspace);
    press(&mut a, KeyCode::Tab);
    press(&mut a, KeyCode::Esc);
    assert!(!a.input_mode);
    press(&mut a, KeyCode::Esc);
    assert!(!a.searching);
}

#[test]
fn esc_goes_back_to_the_same_row() {
    let mut a = app();
    a.details.push(Detail {
        title: "D".to_string(),
        items: vec![track("x")],
        parent_selected: 3,
    });
    a.selected = 0;
    a.searching = true;
    press(&mut a, KeyCode::Esc);
    assert!(a.details.is_empty() && a.searching);
    assert_eq!(a.selected, 3);
    press(&mut a, KeyCode::Esc);
    assert!(!a.searching);
    assert_eq!(a.selected, 0);
    press(&mut a, KeyCode::Esc);
}

#[test]
fn playback_keys_ask_the_engine() {
    let mut a = app();
    for code in [KeyCode::Char(' '), KeyCode::Char('p'), KeyCode::Media(MediaKey::PlayPause)] {
        assert!(matches!(press(&mut a, code)[..], [Effect::TogglePlay]));
    }
    assert!(matches!(press(&mut a, KeyCode::Media(MediaKey::Stop))[..], [Effect::Stop]));
    for code in [KeyCode::Char('n'), KeyCode::Media(MediaKey::TrackNext)] {
        assert!(matches!(&press(&mut a, code)[..], [Effect::PlayTrack { id, .. }] if id == "b"));
    }
    for code in [KeyCode::Char('b'), KeyCode::Media(MediaKey::TrackPrevious)] {
        assert!(matches!(&press(&mut a, code)[..], [Effect::PlayTrack { id, .. }] if id == "b"));
    }
    assert!(press(&mut a, KeyCode::Media(MediaKey::Other)).is_empty());
    assert!(press(&mut a, KeyCode::Other).is_empty());
}

#[test]
fn the_volume_stays_between_its_bounds() {
    let mut a = app();
    a.volume = 97;
    assert!(matches!(char(&mut a, '+')[..], [Effect::SetVolume(100)]));
    assert!(matches!(char(&mut a, '=')[..], [Effect::SetVolume(100)]));
    assert!(matches!(char(&mut a, '-')[..], [Effect::SetVolume(95)]));
    a.volume = 3;
    assert!(matches!(char(&mut a, '_')[..], [Effect::SetVolume(0)]));
    assert!(matches!(press(&mut a, KeyCode::Media(MediaKey::LowerVolume))[..], [Effect::SetVolume(0)]));
    assert!(matches!(press(&mut a, KeyCode::Media(MediaKey::RaiseVolume))[..], [Effect::SetVolume(5)]));
    a.volume = 250;
    assert!(key_acceptable(&a, KeyEvent::plain(KeyCode::Char('+')), 0, &THEMES));
    assert!(matches!(char(&mut a, '+')[..], [Effect::SetVolume(100)]));
    a.volume = 251;
    assert!(!key_acceptable(&a, KeyEvent::plain(KeyCode::Char('+')), 0, &THEMES));
}

#[test]
fn switches_are_switched() {
    let mut a = app();
    assert!(matches!(char(&mut a, 's')[..], [Effect::SetShuffle(true)]));
    assert!(matches!(char(&mut a, 's')[..], [Effect::SetShuffle(false)]));
    assert!(matches!(char(&mut a, 'R')[..], [Effect::SetRepeat(true)]));
    assert!(matches!(char(&mut a, 'r')[..], [Effect::FetchLibrary]));
    assert_eq!(a.status, "loading library…");
    assert!(matches!(char(&mut a, 'L')[..], [Effect::LoadConfig]));
}

#[test]
fn contexts_are_played_from_the_list() {
    let mut a = app();
    assert!(char(&mut a, 'P').is_empty());
    assert_eq!(a.status, "not a playlist, album, or artist");
    a.selected = 3;
    assert!(matches!(&char(&mut a, 'P')[..], [Effect::PlayContext { shuffle: false, .. }]));
    assert_eq!(a.status, "starting Album…");
    assert!(matches!(&a.source, PlaySource::Context(u) if u == "subsonic:album:9"));
    let effects = char(&mut a, 'S');
    assert!(matches!(
        effects[..],
        [Effect::SetShuffle(true), Effect::PlayContext { shuffle: true, .. }]
    ));
    assert!(a.shuffle);
    a.selected = 99;
    assert!(matches!(char(&mut a, 'S')[..], [Effect::SetShuffle(true)]));
}

#[test]
fn the_list_is_sorted_in_turn() {
    let mut a = app();
    a.selected = 3;
    char(&mut a, 'o');
    assert_eq!(a.sort, SortMode::Title);
    assert_eq!(a.status, "sorted by title");
    let names: Vec<&str> = a.library.home.iter().map(|i| i.name.as_str()).collect();
    assert_eq!(names, vec!["Songs", "A", "Album", "b"]);
    assert_eq!(a.selected, 1);
    char(&mut a, 'o');
    assert_eq!(a.status, "sorted by artist");
    let names: Vec<&str> = a.library.home.iter().map(|i| i.name.as_str()).collect();
    assert_eq!(names, vec!["Songs", "A", "b", "Album"]);
}

#[test]
fn likes_go_to_the_server() {
    let mut a = app();
    assert!(matches!(&char(&mut a, 'l')[..], [Effect::Star(id)] if id == "b"));
    assert_eq!(a.status, "liking b…");
    a.selected = 2;
    assert!(has_like(&a, "subsonic:track:A"));
    assert!(matches!(&char(&mut a, 'l')[..], [Effect::Unstar(id)] if id == "A"));
    assert_eq!(a.status, "unliking A…");
    a.selected = 3;
    assert!(char(&mut a, 'l').is_empty());
    a.selected = 1;
    a.subsonic = None;
    assert!(char(&mut a, 'l').is_empty());
}

#[test]
fn themes_are_changed() {
    let mut a = app();
    char(&mut a, 't');
    assert_eq!((a.target.name, a.status.as_str()), ("two", "theme: two"));
    assert!(a.fade.is_some());
    char(&mut a, 't');
    assert_eq!(a.target.name, "one");
    assert!(!key_acceptable(&a, KeyEvent::plain(KeyCode::Char('t')), 0, &[]));
}

#[test]
fn arrows_change_the_view_and_shifted_ones_seek() {
    let mut a = app();
    press(&mut a, KeyCode::Right);
    assert_eq!(a.view, RightView::Lyrics);
    press(&mut a, KeyCode::Left);
    press(&mut a, KeyCode::Left);
    assert_eq!(a.view, RightView::Queue);
    press(&mut a, KeyCode::BackTab);
    assert_eq!(a.view, RightView::NowPlaying);
    assert!(shifted(&mut a, KeyCode::Right).is_empty());
    a.now = Some(playing(97_000));
    assert!(matches!(shifted(&mut a, KeyCode::Right)[..], [Effect::Seek(100_000)]));
    assert!(matches!(shifted(&mut a, KeyCode::Left)[..], [Effect::Seek(95_000)]));
    assert_eq!(a.view, RightView::NowPlaying);
    a.now.as_mut().unwrap().position_ms = 4_294_967_295;
    a.now.as_mut().unwrap().is_playing = true;
    let key = KeyEvent { code: KeyCode::Left, control: false, shift: true };
    assert!(!key_acceptable(&a, key, 2 * MS, &THEMES));
    assert!(key_acceptable(&a, KeyEvent::plain(KeyCode::Left), 2 * MS, &THEMES));
    assert!(!key_acceptable(&a, KeyEvent::plain(KeyCode::Char('b')), 2 * MS, &THEMES));
}

#[test]
fn sections_are_gone_through() {
    let mut a = app();
    a.searching = true;
    press(&mut a, KeyCode::Tab);
    assert_eq!((a.section, a.searching, a.selected), (Section::Liked, false, 0));
    char(&mut a, '[');
    assert_eq!((a.section, a.selected), (Section::Home, 1));
    char(&mut a, '[');
    assert_eq!(a.section, Section::Recent);
    char(&mut a, ']');
    assert_eq!(a.section, Section::Home);
}

#[test]
fn the_selection_moves() {
    let mut a = app();
    char(&mut a, 'j');
    press(&mut a, KeyCode::Down);
    assert_eq!(a.selected, 3);
    char(&mut a, 'k');
    press(&mut a, KeyCode::Up);
    press(&mut a, KeyCode::Up);
    assert_eq!(a.selected, 1);
    assert!(matches!(&press(&mut a, KeyCode::Enter)[..], [Effect::PlayTrack { id, .. }] if id == "b"));
    a.selected = 3;
    assert!(matches!(
        &press(&mut a, KeyCode::Enter)[..],
        [Effect::FetchDetail { uri, name }] if uri == "subsonic:album:9" && name == "Album"
    ));
}

#[test]
fn the_menu_of_a_track_has_five_entries() {
    let mut a = app();
    char(&mut a, 'a');
    let m = a.actions.as_ref().unwrap();
    let labels: Vec<&str> = m.items.iter().map(|i| i.label.as_str()).collect();
    assert_eq!(
        labels,
        vec!["Like track", "Add to queue", "Add to playlist...", "Play b", "Copy Link"]
    );
    assert_eq!((m.title.as_str(), m.selected), ("b", 0));
    press(&mut a, KeyCode::Up);
    assert_eq!(a.actions.as_ref().unwrap().selected, 0);
    for _ in 0..9 {
        char(&mut a, 'j');
    }
    assert_eq!(a.actions.as_ref().unwrap().selected, 4);
    char(&mut a, 'x');
    char(&mut a, 'k');
    assert_eq!(a.actions.as_ref().unwrap().selected, 3);
    a.status = "something".to_string();
    char(&mut a, 'a');
    assert!(a.actions.is_none() && a.status.is_empty());
    a.selected = 2;
    char(&mut a, 'a');
    assert_eq!(a.actions.as_ref().unwrap().items[0].label, "Unlike track");
}

#[test]
fn the_menu_of_a_context_has_three_entries() {
    let mut a = app();
    a.selected = 3;
    char(&mut a, 'a');
    let m = a.actions.as_ref().unwrap();
    let labels: Vec<&str> = m.items.iter().map(|i| i.label.as_str()).collect();
    assert_eq!(labels, vec!["Open Album", "Play Album", "Copy Link"]);
    assert!(matches!(&press(&mut a, KeyCode::Enter)[..], [Effect::FetchDetail { .. }]));
    assert!(a.actions.is_none());
    a.selected = 0;
    char(&mut a, 'a');
    assert!(a.actions.is_none());
    a.selected = 77;
    char(&mut a, 'a');
    assert!(a.actions.is_none());
}

fn act(a: &mut App, down: usize) -> Vec<Effect> {
    char(a, 'a');
    for _ in 0..down {
        press(a, KeyCode::Down);
    }
    press(a, KeyCode::Enter)
}

#[test]
fn entries_of_the_menu_do_what_they_say() {
    let mut a = app();
    assert!(matches!(&act(&mut a, 0)[..], [Effect::Star(id)] if id == "b"));
    assert_eq!(a.status, "liked track");
    assert!(act(&mut a, 1).is_empty());
    assert_eq!(a.status, "queued: b");
    assert_eq!((a.queue.clone(), a.queue_uris.clone()), (vec!["b".to_string()], vec!["subsonic:track:b".to_string()]));
    assert!(matches!(&act(&mut a, 3)[..], [Effect::PlayContext { uri, .. }] if uri == "subsonic:track:b"));
    assert_eq!(a.source_name, "b");
    assert!(matches!(&act(&mut a, 4)[..], [Effect::CopyLink(uri)] if uri == "subsonic:track:b"));
    link_copied(&mut a, true);
    assert_eq!(a.status, "link copied");
    link_copied(&mut a, false);
    assert_eq!(a.status, "clipboard unavailable");
    a.selected = 2;
    assert!(matches!(&act(&mut a, 0)[..], [Effect::Unstar(id)] if id == "A"));
    assert_eq!(a.status, "unliked track");
    assert!(a.actions.is_none());
}

#[test]
fn a_track_is_added_to_a_playlist() {
    let mut a = app();
    act(&mut a, 2);
    let m = a.actions.as_ref().unwrap();
    assert_eq!(m.title, "Add to playlist");
    let labels: Vec<&str> = m.items.iter().map(|i| i.label.as_str()).collect();
    assert_eq!(labels, vec!["Mix", "Odd"]);
    let effects = press(&mut a, KeyCode::Enter);
    assert!(matches!(
        &effects[..],
        [Effect::AddToPlaylist { playlist_id, song_id }] if playlist_id == "1" && song_id == "b"
    ));
    assert_eq!(a.status, "added track to playlist");
    act(&mut a, 2);
    press(&mut a, KeyCode::Down);
    assert!(matches!(
        &press(&mut a, KeyCode::Enter)[..],
        [Effect::AddToPlaylist { playlist_id, .. }] if playlist_id == "no-colon"
    ));
    a.library.playlists.clear();
    act(&mut a, 2);
    assert!(a.actions.is_none());
    assert_eq!(a.status, "no playlists to add to");
}

#[test]
fn what_is_to_come_next_comes_next() {
    let mut a = app();
    run_action(&mut a, ActionKind::Queue { uri: "subsonic:track:A".to_string() });
    run_action(&mut a, ActionKind::PlayNext { uri: "subsonic:track:far".to_string() });
    assert_eq!(a.status, "queued next: subsonic:track:far");
    assert_eq!(a.queue, vec!["subsonic:track:far".to_string(), "A".to_string()]);
    assert!(matches!(&char(&mut a, 'n')[..], [Effect::PlayTrack { id, .. }] if id == "far"));
    assert!(matches!(&char(&mut a, 'n')[..], [Effect::PlayTrack { id, .. }] if id == "A"));
    assert!(a.queue.is_empty() && a.queue_uris.is_empty());
}

#[test]
fn without_a_server_the_menu_refuses() {
    let mut a = app();
    a.subsonic = None;
    for kind in [
        ActionKind::StarTrack { track_uri: "x".to_string() },
        ActionKind::UnstarTrack { track_uri: "x".to_string() },
        ActionKind::AddToPlaylist { playlist_id: "p".to_string(), track_uri: "x".to_string() },
    ] {
        char(&mut a, 'a');
        a.status.clear();
        assert!(run_action(&mut a, kind).is_empty());
        assert_eq!(a.status, "not connected");
        assert!(a.actions.is_none());
    }
}

#[test]
fn other_entries_close_the_menu() {
    for kind in [
        ActionKind::ToggleLike { id: "1".to_string(), saved: true },
        ActionKind::ToggleFollowArtist { id: "1".to_string(), following: true },
        ActionKind::ToggleSaveAlbum { id: "1".to_string(), saved: true },
        ActionKind::FollowPlaylist { id: "1".to_string() },
    ] {
        let mut a = app();
        char(&mut a, 'a');
        assert!(run_action(&mut a, kind.clone()).is_empty());
        assert!(a.actions.is_none());
    }
}

#[test]
fn an_id_is_taken_from_a_uri_or_is_the_uri() {
    let mut a = app();
    let star = |uri: &str| ActionKind::StarTrack { track_uri: uri.to_string() };
    assert!(matches!(&run_action(&mut a, star("subsonic:track:5"))[..], [Effect::Star(id)] if id == "5"));
    assert!(matches!(&run_action(&mut a, star("bare"))[..], [Effect::Star(id)] if id == "bare"));
}

#[test]
fn the_form_is_filled_in() {
    let mut m = LoginModalState::default();
    assert_eq!(m.server_url, "http://localhost:4533");
    let key = |m: &mut LoginModalState, code| m.handle_key_event(KeyEvent::plain(code));
    key(&mut m, KeyCode::Char('!'));
    assert_eq!(m.server_url, "http://localhost:4533!");
    key(&mut m, KeyCode::Backspace);
    key(&mut m, KeyCode::Tab);
    assert_eq!(m.active_field, LoginField::Username);
    assert!(matches!(key(&mut m, KeyCode::Enter), LoginModalAction::Nothing));
    assert_eq!(m.error_message.as_deref(), Some("Username cannot be empty"));
    key(&mut m, KeyCode::Esc);
    assert!(m.error_message.is_none());
    key(&mut m, KeyCode::Char('m'));
    key(&mut m, KeyCode::Down);
    key(&mut m, KeyCode::Char('x'));
    assert_eq!((m.username.as_str(), m.password.as_str()), ("m", "x"));
    key(&mut m, KeyCode::Up);
    key(&mut m, KeyCode::BackTab);
    key(&mut m, KeyCode::BackTab);
    assert_eq!(m.active_field, LoginField::Submit);
    key(&mut m, KeyCode::Backspace);
    match key(&mut m, KeyCode::Char(' ')) {
        LoginModalAction::Submit(c) => {
            assert_eq!((c.server_url.as_str(), c.username.as_str(), c.password.as_str()), ("http://localhost:4533", "m", "x"));
        }
        LoginModalAction::Nothing => panic!(),
    }
    m.server_url = "  ".to_string();
    assert!(matches!(m.submit(), LoginModalAction::Nothing));
    assert_eq!(m.error_message.as_deref(), Some("Server IP / URL cannot be empty"));
    assert_eq!(m.active_field, LoginField::ServerUrl);
    m.is_connecting = true;
    key(&mut m, KeyCode::Char('z'));
    assert_eq!(m.server_url, "  ");
    for f in [LoginField::ServerUrl, LoginField::Username, LoginField::Password, LoginField::Submit] {
        assert_eq!(f.next().prev(), f);
        assert_eq!(f.next().next().next().next(), f);
    }
}

#[test]
fn the_form_captures_the_keyboard() {
    let mut a = app();
    a.login_modal = Some(LoginModalState::default());
    char(&mut a, 'q');
    assert!(a.login_modal.as_ref().unwrap().server_url.ends_with('q'));
    a.login_modal.as_mut().unwrap().username = "me".to_string();
    let effects = press(&mut a, KeyCode::Enter);
    assert!(matches!(&effects[..], [Effect::Login(c)] if c.username == "me"));
    assert!(a.login_modal.as_ref().unwrap().is_connecting);
    press(&mut a, KeyCode::Esc);
    assert!(a.login_modal.is_none());
    a.subsonic = None;
    a.login_modal = Some(LoginModalState::default());
    press(&mut a, KeyCode::Esc);
    assert!(a.login_modal.is_some());
}

fn clickable() -> App {
    let mut a = app();
    a.tab_rects = vec![
        (RightView::NowPlaying, Rect { x: 10, y: 1, width: 11, height: 1 }),
        (RightView::Lyrics, Rect { x: 24, y: 1, width: 6, height: 1 }),
    ];
    a.lib_rect = Some(Rect { x: 0, y: 5, width: 20, height: 3 });
    a.lib_offset = 1;
    a
}

#[test]
fn tabs_can_be_clicked() {
    let mut a = clickable();
    assert!(handle_click(&mut a, 29, 1, 0).is_empty());
    assert_eq!(a.view, RightView::Lyrics);
    handle_click(&mut a, 30, 1, 0);
    assert_eq!(a.view, RightView::Lyrics);
    handle_click(&mut a, 10, 1, 0);
    assert_eq!(a.view, RightView::NowPlaying);
    assert_eq!(a.selected, 1);
}

#[test]
fn rows_can_be_clicked_and_double_clicked() {
    let mut a = clickable();
    assert!(handle_click(&mut a, 3, 6, 1000 * MS).is_empty());
    assert_eq!(a.selected, 2);
    assert_eq!(a.last_click, Some((6, 1000 * MS)));
    let effects = handle_click(&mut a, 4, 6, 1399 * MS);
    assert!(matches!(&effects[..], [Effect::PlayTrack { id, .. }] if id == "A"));
    assert!(a.last_click.is_none());
    handle_click(&mut a, 4, 6, 2000 * MS);
    assert!(handle_click(&mut a, 4, 6, 2400 * MS).is_empty());
    assert!(handle_click(&mut a, 4, 7, 2401 * MS).is_empty());
    assert_eq!(a.selected, 3);
    assert!(matches!(&handle_click(&mut a, 4, 7, 2402 * MS)[..], [Effect::FetchDetail { .. }]));
    assert!(handle_click(&mut a, 25, 6, 0).is_empty());
    assert_eq!(a.selected, 3);
    a.lib_offset = 0;
    handle_click(&mut a, 4, 5, 0);
    assert_eq!(a.selected, 3);
    a.lib_offset = usize::MAX;
    handle_click(&mut a, 4, 7, 0);
    assert_eq!(a.selected, 3);
}

#[test]
fn clicks_wait_while_something_is_open() {
    let mut a = clickable();
    char(&mut a, '/');
    handle_click(&mut a, 29, 1, 0);
    handle_click(&mut a, 3, 6, 0);
    assert_eq!((a.view, a.selected), (RightView::NowPlaying, 1));
}

#[test]
fn media_keys_do_what_the_letters_do() {
    let groups: [&[KeyCode]; 8] = [
        &[KeyCode::Char(' '), KeyCode::Char('p'), KeyCode::Media(MediaKey::PlayPause)],
        &[KeyCode::Char('n'), KeyCode::Media(MediaKey::TrackNext)],
        &[KeyCode::Char('b'), KeyCode::Media(MediaKey::TrackPrevious)],
        &[KeyCode::Char('+'), KeyCode::Char('='), KeyCode::Media(MediaKey::RaiseVolume)],
        &[KeyCode::Char('-'), KeyCode::Char('_'), KeyCode::Media(MediaKey::LowerVolume)],
        &[KeyCode::Down, KeyCode::Char('j')],
        &[KeyCode::Up, KeyCode::Char('k')],
        &[KeyCode::Tab, KeyCode::Char(']')],
    ];
    for group in groups {
        let mut outcomes = Vec::new();
        for code in group {
            let mut a = app();
            let effects = press(&mut a, *code);
            outcomes.push(format!(
                "{effects:?} {} {} {:?} {:?}",
                a.volume, a.selected, a.section, a.status
            ));
        }
        assert!(outcomes.windows(2).all(|w| w[0] == w[1]), "{outcomes:?}");
    }
}

#[test]
fn only_its_own_keys_change_the_volume() {
    for (code, volume) in [('+', 55), ('=', 55), ('-', 45), ('_', 45), ('s', 50), ('o', 50), ('S', 50)] {
        let mut a = app();
        char(&mut a, code);
        assert_eq!(a.volume, volume, "{code}");
    }
    let mut a = app();
    char(&mut a, '/');
    char(&mut a, '+');
    assert_eq!((a.volume, a.query.as_str()), (50, "+"));
}

#[test]
fn sorting_comes_around_to_the_fetched_list() {
    let mut a = app();
    a.library.home = vec![
        LibItem { order: 0, ..track("c") },
        LibItem { order: 1, ..track("a") },
        LibItem { order: 2, ..track("b") },
    ];
    let fetched = a.library.home.clone();
    char(&mut a, 'o');
    assert_ne!(a.library.home, fetched);
    char(&mut a, 'o');
    char(&mut a, 'o');
    assert_eq!(a.sort, SortMode::Added);
    assert_eq!(a.library.home, fetched);
}
