use smyx::app::{play_item_effects, App};
use smyx::config::NavidromeConfig;
use smyx::effects::Effect;
use smyx::engine::{Engine, EngineEvent, SinkAction};
use smyx::events::{
    advance_fade, apply_meta, cover_arrived, cover_replied, detail_arrived, first_client, handle_engine_event,
    library_arrived, library_done, login_finished, login_outcome, lyrics_arrived, meta_is_current,
    open_login, save_state, search_arrived, start, version_arrived, want_cover,
};
use smyx::models::{
    Activated, LibItem, NowPlaying, PlaySource, SavedState, Section, TrackMeta,
};
use smyx::subsonic::{BytesReply, ClientError, SubsonicClient};
use smyx::theme::{next_theme, Rgb, Theme};

const GREY: Rgb = Rgb { r: 100, g: 100, b: 100 };

const fn theme(name: &'static str, shade: u8) -> Theme {
    let c = Rgb { r: shade, g: shade, b: shade };
    Theme {
        name,
        background: c,
        text: GREY,
        text_muted: GREY,
        primary: c,
        accent: GREY,
        success: GREY,
        border_subtle: GREY,
        border_dimmest: GREY,
    }
}

const NIGHT: Theme = theme("night", 1);
const DAY: Theme = theme("day", 2);

const MS: u64 = 1_000_000;

fn client() -> SubsonicClient {
    SubsonicClient {
        server_url: "http://s".to_string(),
        username: "u".to_string(),
        password: "p".to_string(),
    }
}

fn app() -> App {
    App::new(NIGHT, Some(client()), None, 50)
}

fn track(id: &str) -> LibItem {
    LibItem::track(format!("Track {id}"), format!("Artist {id}"), format!("subsonic:track:{id}"))
}

fn playing(id: &str, position_ms: u32, at: u64) -> NowPlaying {
    NowPlaying {
        uri: format!("subsonic:track:{id}"),
        title: format!("Track {id}"),
        artist: "Artist".to_string(),
        album: "Album".to_string(),
        duration_ms: 200_000,
        position_ms,
        position_at: at,
        is_playing: true,
        cover: false,
    }
}

fn played_id(effects: &[Effect]) -> &str {
    match effects {
        [Effect::PlayTrack { id, .. }] => id,
        other => panic!("{other:?}"),
    }
}

fn with_tracks() -> App {
    let mut a = app();
    a.library.home = vec![
        LibItem::header("Songs"),
        track("1"),
        LibItem::ctx("Album".into(), "".into(), "subsonic:album:9".into()),
        track("2"),
        track("3"),
    ];
    a
}

#[test]
fn a_new_player_is_empty() {
    let a = app();
    assert_eq!(a.volume, 50);
    assert_eq!(a.section, Section::Home);
    assert!(a.cur_items().is_empty());
    assert!(a.now.is_none() && a.fade.is_none() && a.details.is_empty() && a.status.is_empty());
    assert_eq!(a.position_ms(5), 0);
    assert!(a.selected_item().is_none());
}

#[test]
fn the_shown_list_is_the_innermost() {
    let mut a = with_tracks();
    assert_eq!(a.cur_items().len(), 5);
    a.search_results = vec![track("s")];
    a.searching = true;
    assert_eq!(a.cur_items().len(), 1);
    detail_arrived(&mut a, "D".to_string(), vec![LibItem::header("h"), track("d")]);
    assert_eq!(a.cur_items().len(), 2);
    assert_eq!(a.selected, 1);
    assert_eq!(a.details[0].title, "D");
    a.cur_list_mut().push(track("e"));
    assert_eq!(a.details[0].items.len(), 3);
    a.details.clear();
    a.cur_list_mut().clear();
    assert!(a.search_results.is_empty());
    a.searching = false;
    a.cur_list_mut().remove(0);
    assert_eq!(a.library.home.len(), 4);
}

#[test]
fn a_playing_track_moves_on_to_its_end() {
    let mut a = app();
    a.now = Some(playing("1", 1000, 10 * MS));
    assert_eq!(a.position_ms(10 * MS), 1000);
    assert_eq!(a.position_ms(10 * MS + 2_999_999), 1002);
    assert_eq!(a.position_ms(0), 1000);
    assert_eq!(a.position_ms(10_000_000 * MS), 200_000);
    assert!(a.position_countable(10_000_000 * MS));
    assert!(!a.position_countable(4_294_967_000 * MS));
    a.now.as_mut().unwrap().is_playing = false;
    assert_eq!(a.position_ms(10_000_000 * MS), 1000);
    assert!(a.position_countable(4_294_967_000 * MS));
}

#[test]
fn seeking_stays_in_the_track() {
    let mut a = app();
    assert!(a.seek_to(5, 7).is_empty());
    a.now = Some(playing("1", 1000, 0));
    assert!(matches!(a.seek_to(300_000, 7)[..], [Effect::Seek(200_000)]));
    assert_eq!(a.position_ms(7), 200_000);
    assert!(matches!(a.seek_to(4000, 7)[..], [Effect::Seek(4000)]));
    assert!(matches!(a.seek_by(-5000, 7)[..], [Effect::Seek(0)]));
    assert!(matches!(a.seek_by(5000, 7)[..], [Effect::Seek(5000)]));
    assert_eq!(a.now.as_ref().unwrap().position_at, 7);
}

#[test]
fn a_seek_far_ahead_goes_around_in_32_bits() {
    let mut a = app();
    a.now = Some(playing("1", 1000, 0));
    assert!(matches!(a.seek_by(0x1_0000_0000, 0)[..], [Effect::Seek(1000)]));
}

#[test]
fn the_selection_skips_headings() {
    let mut a = with_tracks();
    a.library.home.insert(2, LibItem::header("More"));
    assert_eq!(a.first_selectable(), 1);
    a.selected = 1;
    a.move_sel(1);
    assert_eq!(a.selected, 3);
    a.move_sel(-1);
    assert_eq!(a.selected, 1);
    a.move_sel(-1);
    assert_eq!(a.selected, 1);
    a.move_sel(2);
    assert_eq!(a.selected, 3);
    a.move_sel(100);
    assert_eq!(a.selected, 3);
    a.move_sel(isize::MAX);
    a.move_sel(isize::MIN);
    assert_eq!(a.selected, 3);
    a.selected = 2;
    a.normalize_selection();
    assert_eq!(a.selected, 1);
    a.normalize_selection();
    assert_eq!(a.selected, 1);
}

#[test]
fn a_selection_behind_the_end_moves_back_only() {
    let mut a = with_tracks();
    a.selected = 5;
    a.move_sel(1);
    assert_eq!(a.selected, 5);
    a.move_sel(-1);
    assert_eq!(a.selected, 4);
    a.selected = usize::MAX;
    a.move_sel(2);
    assert_eq!(a.selected, 1);
}

#[test]
fn enter_plays_a_track() {
    let mut a = with_tracks();
    a.selected = 3;
    let (effects, what) = a.activate();
    assert!(matches!(what, Activated::Nothing));
    assert_eq!(played_id(&effects), "2");
    assert!(a.now.is_none());
    a.track_started(
        "subsonic:track:2".to_string(),
        "Track 2".to_string(),
        "Artist 2".to_string(),
        Ok(()),
        77,
    );
    let n = a.now.as_ref().unwrap();
    assert_eq!((n.title.as_str(), n.artist.as_str(), n.album.as_str()), ("Track 2", "Artist 2", ""));
    assert_eq!((n.duration_ms, n.position_ms, n.position_at, n.is_playing), (0, 0, 77, true));
    assert!(a.playback_started);
    assert_eq!(a.status, "Playing Track 2");
}

#[test]
fn a_track_that_fails_says_so() {
    let mut a = with_tracks();
    a.track_started("u".into(), "n".into(), "s".into(), Err("no sound".to_string()), 0);
    assert_eq!(a.status, "Playback error: no sound");
    assert!(a.now.is_none() && !a.playback_started);
    a.play_failed("gone");
    assert_eq!(a.status, "couldn't play: gone");
}

#[test]
fn enter_opens_a_context() {
    let mut a = with_tracks();
    a.selected = 2;
    let (effects, what) = a.activate();
    assert!(effects.is_empty());
    assert!(matches!(what, Activated::Open(uri, name) if uri == "subsonic:album:9" && name == "Album"));
    a.selected = 0;
    let (effects, what) = a.activate();
    assert!(effects.is_empty() && matches!(what, Activated::Nothing));
    a.selected = 99;
    let (effects, what) = a.activate();
    assert!(effects.is_empty() && matches!(what, Activated::Nothing));
}

#[test]
fn a_play_row_plays_its_context() {
    let mut a = app();
    a.shuffle = true;
    a.library.home = vec![LibItem::play("Play".into(), "subsonic:playlist:4".into())];
    let (effects, _) = a.activate();
    assert!(
        matches!(&effects[..], [Effect::PlayContext { uri, shuffle: true }] if uri == "subsonic:playlist:4")
    );
    assert_eq!(a.status, "starting Play…");
    assert_eq!(a.source_name, "Play");
    assert!(matches!(&a.source, PlaySource::Context(u) if u == "subsonic:playlist:4"));
    detail_arrived(
        &mut a,
        "Evening".to_string(),
        vec![LibItem::play("Play".into(), "subsonic:playlist:5".into())],
    );
    a.activate();
    assert_eq!(a.source_name, "Evening");
}

#[test]
fn liked_songs_are_played_together() {
    let mut a = app();
    a.library.home = vec![LibItem::play("Play liked".into(), "myx:action:liked-play".into())];
    let (effects, _) = a.activate();
    assert!(effects.is_empty());
    assert!(matches!(a.source, PlaySource::Nothing));
    a.library.liked = vec![LibItem::header("h"), track("1"), track("2")];
    let (effects, _) = a.activate();
    match &effects[..] {
        [Effect::PlayTracks { uris, shuffle: false }] => {
            assert_eq!(uris, &vec!["subsonic:track:1".to_string(), "subsonic:track:2".to_string()]);
        }
        other => panic!("{other:?}"),
    }
    assert!(matches!(a.source, PlaySource::Liked));
    assert_eq!(a.source_name, "Liked Songs");
    assert_eq!(a.status, "starting Liked Songs…");
}

#[test]
fn only_tracks_of_the_server_are_played() {
    assert!(play_item_effects(&LibItem::track("x".into(), "".into(), "file:x".into())).is_empty());
    let ctx = LibItem::ctx("x".into(), "".into(), "subsonic:track:1".into());
    assert!(app().play_item(&ctx).is_empty());
    assert_eq!(played_id(&app().play_item(&track("7"))), "7");
}

#[test]
fn the_next_track_is_the_one_below() {
    let mut a = with_tracks();
    a.selected = 2;
    assert_eq!(played_id(&a.play_next(0)), "2");
    assert_eq!(a.selected, 3);
    a.now = Some(playing("2", 0, 0));
    assert_eq!(played_id(&a.play_next(0)), "3");
    assert_eq!(a.selected, 4);
    a.now = Some(playing("3", 0, 0));
    assert_eq!(played_id(&a.play_next(0)), "1");
    a.selected = 5;
    a.now = Some(playing("elsewhere", 0, 0));
    assert_eq!(played_id(&a.play_next(0)), "1");
    assert!(app().play_next(0).is_empty());
}

#[test]
fn shuffling_picks_another_track() {
    let mut a = with_tracks();
    a.shuffle = true;
    for nanos in 0..20 {
        a.now = Some(playing("2", 0, 0));
        let effects = a.play_next(nanos);
        assert_eq!(played_id(&effects), if nanos % 2 == 0 { "3" } else { "1" });
    }
    a.library.home = vec![track("1")];
    a.now = Some(playing("1", 0, 0));
    assert_eq!(played_id(&a.play_next(12345)), "1");
}

#[test]
fn the_queue_comes_first() {
    let mut a = with_tracks();
    a.queue = vec!["Track 3".to_string()];
    a.queue_uris = vec!["subsonic:track:3".to_string(), "subsonic:track:x".to_string()];
    match &a.play_next(0)[..] {
        [Effect::PlayTrack { id, name, subtitle, .. }] => {
            assert_eq!((id.as_str(), name.as_str(), subtitle.as_str()), ("3", "Track 3", "Artist 3"));
        }
        other => panic!("{other:?}"),
    }
    assert!(a.queue.is_empty());
    match &a.play_next(0)[..] {
        [Effect::PlayTrack { id, name, subtitle, .. }] => {
            assert_eq!((id.as_str(), name.as_str(), subtitle.as_str()), ("x", "Queued Track", ""));
        }
        other => panic!("{other:?}"),
    }
    assert!(a.queue_uris.is_empty());
    assert_eq!(a.selected, 0);
}

#[test]
fn back_restarts_a_track_that_has_played_a_while() {
    let mut a = with_tracks();
    a.now = Some(playing("2", 3001, 0));
    assert!(matches!(a.play_prev(0)[..], [Effect::Seek(0)]));
    a.now = Some(playing("2", 3000, 0));
    assert_eq!(played_id(&a.play_prev(0)), "1");
    assert_eq!(a.selected, 1);
    a.now = Some(playing("1", 0, 0));
    assert_eq!(played_id(&a.play_prev(0)), "3");
    a.now = None;
    assert_eq!(played_id(&a.play_prev(0)), "1");
    assert!(app().play_prev(0).is_empty());
}

#[test]
fn a_track_change_asks_what_the_track_is() {
    let mut a = app();
    let ev = EngineEvent::TrackChanged { uri: "subsonic:track:5".to_string() };
    let effects = handle_engine_event(&mut a, ev, 0, 0);
    assert!(matches!(&effects[..], [Effect::FetchMeta(id)] if id == "5"));
    assert_eq!(a.pending_meta.as_deref(), Some("subsonic:track:5"));
    assert_eq!(a.status, "loading track…");
    let ev = EngineEvent::TrackChanged { uri: "file:x".to_string() };
    assert!(handle_engine_event(&mut a, ev, 0, 0).is_empty());
    assert_eq!(a.pending_meta.as_deref(), Some("subsonic:track:5"));
}

#[test]
fn the_first_sound_sets_the_engine_up() {
    let mut a = app();
    a.repeat = true;
    a.now = Some(playing("1", 0, 0));
    a.now.as_mut().unwrap().is_playing = false;
    let ev = EngineEvent::Playing { uri: "u".to_string(), position_ms: 9 };
    let effects = handle_engine_event(&mut a, ev.clone(), 33, 0);
    assert!(matches!(
        effects[..],
        [Effect::SetShuffle(false), Effect::SetRepeat(true), Effect::SetVolume(50)]
    ));
    let n = a.now.as_ref().unwrap();
    assert_eq!((n.is_playing, n.position_ms, n.position_at), (true, 9, 33));
    assert!(handle_engine_event(&mut a, ev, 34, 0).is_empty());
    let ev = EngineEvent::Paused { uri: "u".to_string(), position_ms: 10 };
    assert!(handle_engine_event(&mut a, ev, 35, 0).is_empty());
    let n = a.now.as_ref().unwrap();
    assert_eq!((n.is_playing, n.position_ms, n.position_at), (false, 10, 35));
    let ev = EngineEvent::PositionCorrection { uri: "u".to_string(), position_ms: 11 };
    handle_engine_event(&mut a, ev, 36, 0);
    let n = a.now.as_ref().unwrap();
    assert_eq!((n.is_playing, n.position_ms, n.position_at), (false, 11, 36));
    handle_engine_event(&mut a, EngineEvent::Stopped, 37, 0);
    assert!(a.now.is_none() && !a.playback_started);
}

#[test]
fn the_end_of_the_track_leads_to_the_next() {
    let mut a = with_tracks();
    a.now = Some(playing("1", 0, 0));
    let ev = EngineEvent::EndOfTrack { uri: "subsonic:track:2".to_string() };
    assert!(handle_engine_event(&mut a, ev, 0, 0).is_empty());
    let ev = EngineEvent::EndOfTrack { uri: "subsonic:track:1".to_string() };
    assert_eq!(played_id(&handle_engine_event(&mut a, ev, 0, 0)), "2");
}

fn meta(uri: &str, title: &str) -> TrackMeta {
    TrackMeta {
        uri: uri.to_string(),
        title: title.to_string(),
        artist: "A".to_string(),
        album: "B".to_string(),
        duration_ms: 1234,
        image: true,
        theme: Some(DAY),
    }
}

#[test]
fn news_about_a_track_are_taken_over() {
    let mut a = app();
    a.pending_meta = Some("u".to_string());
    a.lyrics = vec![(1, "old".to_string())];
    a.lyrics_synced = true;
    a.status = "loading track…".to_string();
    a.now = Some(playing("1", 77, 5));
    let effects = apply_meta(&mut a, meta("u", "T"), 99);
    match &effects[..] {
        [Effect::FetchLyrics { artist, title, album, duration_ms }] => {
            assert_eq!(
                (artist.as_str(), title.as_str(), album.as_str(), *duration_ms),
                ("A", "T", "B", 1234)
            );
        }
        other => panic!("{other:?}"),
    }
    let n = a.now.as_ref().unwrap();
    assert_eq!((n.uri.as_str(), n.title.as_str(), n.duration_ms), ("u", "T", 1234));
    assert_eq!((n.position_ms, n.position_at, n.is_playing, n.cover), (77, 99, true, true));
    assert!(a.lyrics.is_empty() && !a.lyrics_synced && a.status.is_empty());
    assert_eq!(a.art_dirty, 2);
    assert_eq!(a.target.name, "day");
    let fade = a.fade.unwrap();
    assert_eq!((fade.from.name, fade.to.name, fade.started, fade.duration_ms), ("night", "day", 99, 300));
}

#[test]
fn stale_news_are_ignored() {
    let mut a = app();
    a.pending_meta = Some("other".to_string());
    assert!(apply_meta(&mut a, meta("u", "T"), 99).is_empty());
    assert!(a.now.is_none() && a.fade.is_none());
    assert!(meta_is_current(None, "u"));
    assert!(meta_is_current(Some("u"), "u"));
    assert!(!meta_is_current(Some("v"), "u"));
}

#[test]
fn a_track_without_a_title_has_no_lyrics() {
    let mut a = app();
    a.playback_started = true;
    assert!(apply_meta(&mut a, meta("u", ""), 99).is_empty());
    let n = a.now.as_ref().unwrap();
    assert_eq!((n.position_ms, n.is_playing), (0, true));
}

#[test]
fn a_fade_ends_at_its_target() {
    let mut a = app();
    advance_fade(&mut a, DAY, true);
    assert_eq!(a.displayed.name, "night");
    a.start_fade(DAY, 1);
    advance_fade(&mut a, theme("between", 9), false);
    assert_eq!(a.displayed.name, "between");
    assert!(a.fade.is_some());
    advance_fade(&mut a, theme("between", 9), true);
    assert_eq!(a.displayed.name, "day");
    assert!(a.fade.is_none());
}

#[test]
fn themes_follow_each_other() {
    let themes = [NIGHT, DAY, theme("dusk", 3)];
    assert_eq!(next_theme(&themes, "night").name, "day");
    assert_eq!(next_theme(&themes, "dusk").name, "night");
    assert_eq!(next_theme(&themes, "unknown").name, "day");
    assert_eq!(next_theme(&themes[..1], "night").name, "night");
}

#[test]
fn what_comes_back_is_put_in_its_place() {
    let mut a = app();
    library_arrived(&mut a, Section::Home, vec![LibItem::header("h"), track("1")]);
    assert_eq!(a.selected, 1);
    library_arrived(&mut a, Section::Albums, vec![track("2")]);
    assert_eq!(a.selected, 1);
    a.status = "searching…".to_string();
    search_arrived(&mut a, vec![LibItem::header("Songs"), LibItem::header("Albums"), track("3")]);
    assert!(a.searching && a.status.is_empty());
    assert_eq!(a.selected, 2);
    library_done(&mut a, false);
    assert_eq!(a.status, "library empty or fetch failed");
    library_done(&mut a, true);
    assert!(a.status.is_empty());
    lyrics_arrived(&mut a, vec![(5, "la".to_string())], true);
    assert!(a.lyrics_synced && a.lyrics.len() == 1);
    version_arrived(&mut a, "v2".to_string());
    assert_eq!(a.new_version.as_deref(), Some("v2"));
}

#[test]
fn logging_in_has_two_outcomes() {
    let config = NavidromeConfig::new("host".into(), "me".into(), "pw".into());
    let (c, kept) = login_outcome(config.clone(), Ok(())).unwrap();
    assert_eq!(c.server_url, "http://host");
    assert_eq!(kept, config);
    let e = login_outcome(config.clone(), Err(ClientError::Parse("line 1".to_string()))).unwrap_err();
    assert_eq!(
        e,
        "Login failed: Failed to parse JSON response from Navidrome server: line 1"
    );

    let mut a = App::new(NIGHT, None, None, 0);
    open_login(&mut a, None);
    a.login_modal.as_mut().unwrap().is_connecting = true;
    assert!(login_finished(&mut a, Err("Login failed: x".to_string())).is_empty());
    let m = a.login_modal.as_ref().unwrap();
    assert!(!m.is_connecting);
    assert_eq!(m.error_message.as_deref(), Some("Login failed: x"));
    let effects = login_finished(&mut a, login_outcome(config, Ok(())));
    assert!(matches!(
        effects[..],
        [Effect::SaveConfig(_), Effect::UseClient(_), Effect::FetchLibrary]
    ));
    assert!(a.login_modal.is_none() && a.subsonic.is_some());
    assert_eq!(a.status, "Logged in! Loading library…");
}

#[test]
fn the_form_opens_filled_in() {
    let mut a = app();
    open_login(&mut a, Some(NavidromeConfig::new("host".into(), "me".into(), "pw".into())));
    let m = a.login_modal.as_ref().unwrap();
    assert_eq!(
        (m.server_url.as_str(), m.username.as_str(), m.password.as_str()),
        ("http://host", "me", "pw")
    );
    open_login(&mut a, None);
    let m = a.login_modal.as_ref().unwrap();
    assert_eq!((m.server_url.as_str(), m.username.as_str()), ("http://localhost:4533", ""));
}

#[test]
fn a_cover_is_asked_for_once() {
    let mut a = with_tracks();
    a.selected = 1;
    let effects = want_cover(&mut a);
    assert!(matches!(
        &effects[..],
        [Effect::FetchCover { uri, track_id }] if uri == "subsonic:track:1" && track_id == "1"
    ));
    assert!(want_cover(&mut a).is_empty());
    a.selected = 2;
    assert!(want_cover(&mut a).is_empty());
    a.selected = 3;
    assert_eq!(want_cover(&mut a).len(), 1);
    cover_arrived(&mut a, "subsonic:track:2".to_string());
    assert_eq!(a.selected_cover.as_deref(), Some("subsonic:track:2"));
    a.selected = 4;
    a.now = Some(playing("1", 0, 0));
    assert!(want_cover(&mut a).is_empty());
}

#[test]
fn one_session_continues_the_other() {
    let mut a = with_tracks();
    a.volume = 35;
    a.shuffle = true;
    a.queue = vec!["n".to_string()];
    a.queue_uris = vec!["u".to_string()];
    a.source = PlaySource::Context("c".to_string());
    a.source_name = "C".to_string();
    a.now = Some(playing("1", 1000, 0));
    let s = save_state(&a, 500 * MS);
    let last = s.last_played.as_ref().unwrap();
    assert_eq!((last.uri.as_str(), last.duration_ms, last.position_ms), ("subsonic:track:1", 200_000, 1500));
    let config = NavidromeConfig::new("host".into(), "me".into(), "pw".into());
    let (b, effects) = start(DAY, Some(config), s);
    assert!(matches!(effects[..], [Effect::FetchLibrary]));
    assert_eq!((b.volume, b.shuffle, b.repeat), (35, true, false));
    assert_eq!((b.queue, b.queue_uris), (a.queue, a.queue_uris));
    assert!(matches!(&b.source, PlaySource::Context(c) if c == "c"));
    assert_eq!(b.source_name, "C");
    assert_eq!(b.status, "loading library…");
    assert!(b.login_modal.is_none() && b.now.is_none());
    assert_eq!(b.subsonic.unwrap().server_url, "http://host");
}

#[test]
fn a_first_start_asks_for_a_server() {
    let (a, effects) = start(DAY, None, SavedState::default());
    assert!(effects.is_empty());
    assert!(a.subsonic.is_none());
    assert_eq!(a.login_modal.unwrap().server_url, "http://localhost:4533");
    let c = first_client(&None);
    assert_eq!((c.server_url.as_str(), c.username.as_str()), ("http://localhost:4533", ""));
    let config = NavidromeConfig::new("host".into(), "me".into(), "pw".into());
    assert_eq!(first_client(&Some(config)).username, "me");
}

#[test]
fn the_engine_tells_what_it_does() {
    let mut e = Engine::new(client());
    assert!(e.pause().is_none() && e.resume().is_none());
    let (url, uri) = e.play_track_id("a b");
    assert_eq!(url, "http://s/rest/stream.view?u=u&p=p&v=1.16.1&c=myx&f=json&id=a%20b");
    assert_eq!(uri, "subsonic:track:a b");
    let events = e.stream_started(&uri);
    assert!(matches!(&events[0], EngineEvent::TrackChanged { uri } if uri == "subsonic:track:a b"));
    assert!(matches!(&events[1], EngineEvent::Playing { uri, position_ms: 0 } if uri == "subsonic:track:a b"));
    assert_eq!(events.len(), 2);
    assert!(matches!(e.pause(), Some(EngineEvent::Paused { position_ms: 0, .. })));
    assert!(matches!(e.resume(), Some(EngineEvent::Playing { position_ms: 0, .. })));
    assert!(matches!(e.stop(), EngineEvent::Stopped));
    assert_eq!(Engine::toggle_play(true), SinkAction::Play);
    assert_eq!(Engine::toggle_play(false), SinkAction::Pause);
    assert!(Engine::is_playing(false, false));
    assert!(!Engine::is_playing(true, false));
    assert!(!Engine::is_playing(false, true));
}

#[test]
fn only_a_picture_becomes_the_selected_cover() {
    let mut a = app();
    let text = BytesReply::Response { status: 200, body: Ok(b"text".to_vec()) };
    assert!(!cover_replied(&mut a, "subsonic:track:2".to_string(), text));
    assert!(a.selected_cover.is_none());
    let mut bytes = std::io::Cursor::new(Vec::new());
    image::DynamicImage::new_luma8(1, 1).write_to(&mut bytes, image::ImageFormat::Png).unwrap();
    let reply = BytesReply::Response { status: 200, body: Ok(bytes.into_inner()) };
    assert!(cover_replied(&mut a, "subsonic:track:2".to_string(), reply));
    assert_eq!(a.selected_cover.as_deref(), Some("subsonic:track:2"));
    let failed = BytesReply::Failed("down".to_string());
    assert!(!cover_replied(&mut a, "subsonic:track:3".to_string(), failed));
    assert_eq!(a.selected_cover.as_deref(), Some("subsonic:track:2"));
}
