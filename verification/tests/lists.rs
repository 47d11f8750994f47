use smyx::app::{context_target, enter_label};
use smyx::models::{
    sort_list, LibItem, Library, PlaySource, RightView, SavedState, Section, SortMode,
};
use smyx::sorting::key_precedes;
use smyx::subsonic::{
    AlbumDetailContainer, AlbumDetailData, AlbumList2Container, AlbumList2Data, ArtistIndexItem,
    ArtistsContainer, ArtistsData, BytesReply, HttpReply, PlaylistDetailContainer, PlaylistDetailData,
    PlaylistsContainer, PlaylistsData, Search3Data, SearchResult3Container, Starred2Container,
    Starred2Data, SubsonicAlbum, SubsonicArtist, SubsonicClient, SubsonicPlaylist, SubsonicResponse,
    SubsonicResponseWrapper, SubsonicSong,
};
use smyx::tasks::{
    cover_id, detail_items, detail_target, has_cover, search_results, song_meta, track_meta,
    track_meta_from, DetailReply, DetailTarget, LibraryFetch, LibraryReply, LibraryStep,
};
use smyx::theme::{Rgb, Theme};

fn ok<T>(data: T) -> HttpReply<T> {
    HttpReply::Response {
        status: 200,
        body: Ok(SubsonicResponseWrapper {
            response: SubsonicResponse { status: "ok".to_string(), version: None, error: None, data },
        }),
    }
}

fn failed<T>() -> HttpReply<T> {
    HttpReply::Failed("down".to_string())
}

fn song(id: &str, title: &str, artist: Option<&str>) -> SubsonicSong {
    SubsonicSong {
        id: id.to_string(),
        title: title.to_string(),
        artist: artist.map(|a| a.to_string()),
        album: Some("Album".to_string()),
        duration: Some(61),
        cover_art: None,
    }
}

fn album(id: &str, artist: Option<&str>) -> SubsonicAlbum {
    SubsonicAlbum {
        id: id.to_string(),
        name: format!("Album {id}"),
        artist: artist.map(|a| a.to_string()),
        song_count: None,
        cover_art: None,
    }
}

fn artist(id: &str, albums: Option<u32>) -> SubsonicArtist {
    SubsonicArtist { id: id.to_string(), name: format!("Artist {id}"), album_count: albums }
}

fn track(name: &str, sub: &str) -> LibItem {
    LibItem::track(name.to_string(), sub.to_string(), format!("subsonic:track:{name}"))
}

fn names(items: &[LibItem]) -> Vec<&str> {
    items.iter().map(|i| i.name.as_str()).collect()
}

#[test]
fn test_context_target() {
    let ctx = LibItem::ctx("Playlist".into(), "sub".into(), "subsonic:playlist:1".into());
    assert_eq!(context_target(&ctx), Some(("subsonic:playlist:1".into(), "Playlist".into())));

    let track = LibItem::track("Song".into(), "Artist".into(), "subsonic:track:9".into());
    assert!(context_target(&track).is_none());

    let header = LibItem::header("Section Header");
    assert!(context_target(&header).is_none());
}

#[test]
fn test_enter_label() {
    let ctx = LibItem::ctx("Playlist".into(), "sub".into(), "subsonic:playlist:1".into());
    assert_eq!(enter_label(Some(&ctx)), "open");

    let track = LibItem::track("Song".into(), "Artist".into(), "subsonic:track:9".into());
    assert_eq!(enter_label(Some(&track)), "select");
}

#[test]
fn nothing_and_headings_are_selected_not_opened() {
    assert_eq!(enter_label(None), "select");
    assert_eq!(enter_label(Some(&LibItem::header("H"))), "select");
    assert_eq!(enter_label(Some(&LibItem::play("Play".into(), "u".into()))), "open");
}

#[test]
fn rows_have_their_flags() {
    let t = track("a", "b");
    assert!(t.is_track && !t.is_header && !t.is_play && t.order == 0);
    let h = LibItem::header("H");
    assert!(h.is_header && !h.is_track && !h.is_play && h.uri.is_empty() && h.subtitle.is_empty());
    let p = LibItem::play("P".into(), "u".into());
    assert!(p.is_play && !p.is_track && !p.is_header && p.subtitle.is_empty());
    let c = LibItem::ctx("C".into(), "s".into(), "u".into());
    assert!(!c.is_play && !c.is_track && !c.is_header);
    assert_eq!(c.clone(), c);
}

#[test]
fn tabs_and_sections_go_around() {
    assert_eq!(RightView::NowPlaying.shift(1), RightView::Lyrics);
    assert_eq!(RightView::NowPlaying.shift(-1), RightView::Queue);
    assert_eq!(RightView::Queue.shift(4), RightView::NowPlaying);
    assert_eq!(RightView::Lyrics.shift(isize::MIN), RightView::ALL[((1i128 + isize::MIN as i128).rem_euclid(3)) as usize]);
    assert_eq!(Section::Home.shift(1), Section::Liked);
    assert_eq!(Section::Home.shift(-1), Section::Recent);
    assert_eq!(Section::Recent.shift(1), Section::Home);
    assert_eq!(Section::Albums.shift(-15).shift(15), Section::Albums);
    for (i, s) in Section::ALL.iter().enumerate() {
        assert_eq!(s.index(), i);
        assert_eq!(Section::Home.shift(i as isize), *s);
    }
    let labels: Vec<&str> = Section::ALL.iter().map(|s| s.label()).collect();
    assert_eq!(labels, vec!["Home", "Liked", "Playlists", "Albums", "Artists", "Recent"]);
    let labels: Vec<&str> = RightView::ALL.iter().map(|s| s.label()).collect();
    assert_eq!(labels, vec!["Now Playing", "Lyrics", "Queue"]);
}

#[test]
fn sort_orders_follow_each_other() {
    assert_eq!(SortMode::Added.next(), SortMode::Title);
    assert_eq!(SortMode::Title.next(), SortMode::Artist);
    assert_eq!(SortMode::Artist.next(), SortMode::Added);
    assert_eq!(SortMode::Added.label(), "added");
    assert_eq!(SortMode::Title.label(), "title");
    assert_eq!(SortMode::Artist.label(), "artist");
}

#[test]
fn sorting_pins_what_stands_first() {
    let mut items = vec![
        LibItem::header("Z heading"),
        LibItem::play("Play all".into(), "u".into()),
        track("beta", "x"),
        track("Alpha", "y"),
        LibItem::header("A heading"),
        track("ÄRGER", "a"),
        track("zebra", "B"),
        track("ärger", "b"),
    ];
    sort_list(&mut items, SortMode::Title);
    assert_eq!(
        names(&items),
        vec![
            "Z heading", "Play all", "A heading", "Alpha", "beta", "zebra", "ÄRGER", "ärger",
        ]
    );
    sort_list(&mut items, SortMode::Artist);
    assert_eq!(
        names(&items),
        vec![
            "Z heading", "Play all", "A heading", "ÄRGER", "zebra", "ärger", "beta", "Alpha",
        ]
    );
}

#[test]
fn sorting_by_addition_goes_by_the_number() {
    let mut items: Vec<LibItem> = [3u32, 1, 2, 1]
        .iter()
        .enumerate()
        .map(|(i, n)| LibItem { order: *n, ..track(&format!("t{i}"), "") })
        .collect();
    sort_list(&mut items, SortMode::Added);
    assert_eq!(names(&items), vec!["t1", "t3", "t2", "t0"]);
    let mut none: Vec<LibItem> = vec![];
    sort_list(&mut none, SortMode::Title);
    assert!(none.is_empty());
}

#[test]
fn sorting_agrees_with_the_usual_sort() {
    let words = ["b", "B", "a", "", "Zz", "zZ", "ß", "SS", "Éa", "éA", "İ", "10", "9", "Σ", "ς"];
    let mut items: Vec<LibItem> = words.iter().map(|w| track(w, "")).collect();
    let mut usual = items.clone();
    sort_list(&mut items, SortMode::Title);
    usual.sort_by_key(|i| i.name.to_lowercase());
    assert_eq!(items, usual);
}

#[test]
fn keys_are_compared_like_words() {
    let k = |s: &str| s.chars().map(|c| c as u32).collect::<Vec<u32>>();
    assert!(key_precedes(&k("a"), &k("b")));
    assert!(key_precedes(&k("a"), &k("aa")));
    assert!(!key_precedes(&k("aa"), &k("a")));
    assert!(!key_precedes(&k("a"), &k("a")));
    assert!(key_precedes(&k(""), &k("a")));
}

#[test]
fn sections_hold_their_lists_apart() {
    let mut lib = Library::default();
    for s in Section::ALL {
        assert!(lib.items(s).is_empty());
    }
    lib.set(Section::Albums, vec![track("a", "")]);
    lib.items_mut(Section::Recent).push(track("r", ""));
    assert_eq!(names(lib.items(Section::Albums)), vec!["a"]);
    assert_eq!(names(lib.items(Section::Recent)), vec!["r"]);
    for s in [Section::Home, Section::Liked, Section::Playlists, Section::Artists] {
        assert!(lib.items(s).is_empty());
    }
    let copy = lib.clone();
    assert_eq!(names(copy.items(Section::Albums)), vec!["a"]);
}

#[test]
fn a_first_start_has_nothing_saved() {
    let s = SavedState::load(None);
    assert_eq!(s.volume, 0);
    assert!(!s.shuffle && !s.repeat && s.queue.is_empty() && s.queue_uris.is_empty());
    assert!(s.last_played.is_none());
    assert!(matches!(s.source, PlaySource::Nothing));
    assert!(s.source_name.is_empty());
    let kept = SavedState::load(Some(SavedState { volume: 42, ..SavedState::default() }));
    assert_eq!(kept.volume, 42);
    assert_eq!(SavedState::path(Some("/h")).unwrap(), "/h/.cache/myx/state.json");
    assert!(SavedState::path(None).is_none());
}

#[test]
fn the_library_is_fetched_in_four_steps() {
    let client = SubsonicClient {
        server_url: "http://s".to_string(),
        username: "u".to_string(),
        password: "p".to_string(),
    };
    let mut fetch = LibraryFetch::new(true);
    assert!(fetch.url(&client).unwrap().contains("/getPlaylists.view?"));
    let playlists = PlaylistsData {
        playlists: Some(PlaylistsContainer {
            playlist: vec![
                SubsonicPlaylist {
                    id: "7".to_string(),
                    name: "Mix".to_string(),
                    song_count: Some(12),
                    duration: None,
                },
                SubsonicPlaylist {
                    id: "8".to_string(),
                    name: "None".to_string(),
                    song_count: None,
                    duration: None,
                },
            ],
        }),
    };
    let got = fetch.accept(LibraryReply::Playlists(ok(playlists)));
    assert_eq!(got.len(), 1);
    assert_eq!(got[0].0, Section::Playlists);
    assert_eq!(got[0].1[0].subtitle, "12 tracks");
    assert_eq!(got[0].1[0].uri, "subsonic:playlist:7");
    assert_eq!(got[0].1[1].subtitle, "0 tracks");
    assert!(!got[0].1[0].is_track);

    assert!(fetch.url(&client).unwrap().contains("/getStarred2.view?"));
    let starred = Starred2Data {
        starred2: Some(Starred2Container {
            song: vec![song("1", "One", Some("Her")), song("2", "Two", None)],
            album: vec![],
            artist: vec![],
        }),
    };
    let got = fetch.accept(LibraryReply::Starred(ok(starred)));
    assert_eq!(got.len(), 2);
    assert_eq!((got[0].0, got[1].0), (Section::Home, Section::Liked));
    assert_eq!(got[0].1, got[1].1);
    assert_eq!(got[0].1[0].uri, "subsonic:track:1");
    assert_eq!(got[0].1[0].subtitle, "Her");
    assert_eq!(got[0].1[1].subtitle, "");
    assert!(got[0].1[0].is_track);

    assert!(fetch
        .url(&client)
        .unwrap()
        .ends_with("/getAlbumList2.view?u=u&p=p&v=1.16.1&c=myx&f=json&type=alphabeticalByTitle&size=100"));
    let albums = AlbumList2Data {
        album_list2: Some(AlbumList2Container { album: vec![album("3", Some("Them"))] }),
    };
    let got = fetch.accept(LibraryReply::Albums(ok(albums)));
    assert_eq!(got[0].0, Section::Albums);
    assert_eq!(got[0].1[0].uri, "subsonic:album:3");
    assert_eq!(got[0].1[0].subtitle, "Them");

    assert!(fetch.url(&client).unwrap().contains("/getArtists.view?"));
    let artists = ArtistsData {
        artists: Some(ArtistsContainer {
            index: vec![ArtistIndexItem {
                name: "A".to_string(),
                artist: vec![artist("4", Some(2)), artist("5", None)],
            }],
        }),
    };
    let got = fetch.accept(LibraryReply::Artists(ok(artists)));
    assert_eq!(got[0].0, Section::Artists);
    assert_eq!(got[0].1[0].uri, "subsonic:artist:4");
    assert_eq!(got[0].1[0].subtitle, "2 albums");
    assert_eq!(got[0].1[1].subtitle, "0 albums");

    assert_eq!(fetch, LibraryFetch { next: LibraryStep::Done, got_any: true });
    assert!(fetch.url(&client).is_none());
}

#[test]
fn a_fetch_goes_on_after_a_failure() {
    let mut fetch = LibraryFetch::new(true);
    assert!(fetch.accept(LibraryReply::Playlists(failed())).is_empty());
    assert!(fetch.accept(LibraryReply::Starred(failed())).is_empty());
    assert!(fetch.accept(LibraryReply::Albums(failed())).is_empty());
    assert!(!fetch.got_any);
    assert_eq!(fetch.next, LibraryStep::Artists);
    let got = fetch.accept(LibraryReply::Artists(ok(ArtistsData { artists: None })));
    assert_eq!(got.len(), 1);
    assert!(got[0].1.is_empty());
    assert_eq!(fetch, LibraryFetch { next: LibraryStep::Done, got_any: true });
    assert_eq!(
        LibraryFetch::new(false),
        LibraryFetch { next: LibraryStep::Done, got_any: false }
    );
}

#[test]
fn what_is_found_stands_under_headings() {
    let found = Search3Data {
        search_result3: Some(SearchResult3Container {
            song: vec![song("1", "One", None), song("2", "Two", None)],
            album: vec![],
            artist: vec![artist("4", Some(1))],
        }),
    };
    let rows = search_results(ok(found));
    assert_eq!(names(&rows), vec!["Songs", "One", "Two", "Artists", "Artist 4"]);
    assert!(rows[0].is_header && rows[3].is_header);
    assert_eq!(rows[4].subtitle, "1 albums");
    let found = Search3Data {
        search_result3: Some(SearchResult3Container {
            song: vec![],
            album: vec![album("3", None)],
            artist: vec![],
        }),
    };
    assert_eq!(names(&search_results(ok(found))), vec!["Albums", "Album 3"]);
    assert!(search_results(ok(Search3Data { search_result3: None })).is_empty());
    assert!(search_results(failed()).is_empty());
}

#[test]
fn uris_lead_somewhere() {
    assert!(matches!(detail_target("subsonic:playlist:x:y"), DetailTarget::Playlist(id) if id == "x:y"));
    assert!(matches!(detail_target("subsonic:album:3"), DetailTarget::Album(id) if id == "3"));
    assert!(matches!(detail_target("subsonic:artist:"), DetailTarget::Artist(id) if id.is_empty()));
    assert!(matches!(detail_target("subsonic:track:3"), DetailTarget::Unknown));
}

#[test]
fn details_are_rows() {
    let tracks = PlaylistDetailData {
        playlist: Some(PlaylistDetailContainer { entry: vec![song("1", "One", Some("Her"))] }),
    };
    let rows = detail_items(DetailReply::Playlist(ok(tracks)));
    assert_eq!(rows, vec![LibItem::track("One".into(), "Her".into(), "subsonic:track:1".into())]);
    let tracks =
        AlbumDetailData { album: Some(AlbumDetailContainer { song: vec![song("2", "Two", None)] }) };
    let rows = detail_items(DetailReply::Album(ok(tracks)));
    assert_eq!(rows, vec![LibItem::track("Two".into(), "".into(), "subsonic:track:2".into())]);
    let rows = detail_items(DetailReply::Artist(Some(vec![album("3", Some("Them"))])));
    assert_eq!(rows, vec![LibItem::ctx("Album 3".into(), "Them".into(), "subsonic:album:3".into())]);
    assert!(detail_items(DetailReply::Artist(None)).is_empty());
    assert!(detail_items(DetailReply::Playlist(failed())).is_empty());
    assert!(detail_items(DetailReply::Album(failed())).is_empty());
    assert!(detail_items(DetailReply::Unknown).is_empty());
}

#[test]
fn a_song_is_described() {
    let mut s = song("1", "One", Some("Her"));
    let m = song_meta("1", &Some(s.clone()));
    assert_eq!(
        (m.title.as_str(), m.artist.as_str(), m.album.as_str(), m.duration_ms, m.cover_id.as_str()),
        ("One", "Her", "Album", 61000, "1")
    );
    s.cover_art = Some("c9".to_string());
    s.duration = None;
    let m = song_meta("1", &Some(s.clone()));
    assert_eq!((m.duration_ms, m.cover_id.as_str()), (0, "c9"));
    assert_eq!(cover_id("1", &Some(s)), "c9");
    let m = song_meta("1", &None);
    assert_eq!((m.title.as_str(), m.duration_ms, m.cover_id.as_str()), ("", 0, "1"));
    assert_eq!(cover_id("1", &None), "1");
}

fn orders(items: &[LibItem]) -> Vec<u32> {
    items.iter().map(|i| i.order).collect()
}

#[test]
fn fetched_rows_know_their_place() {
    let playlists = PlaylistsData {
        playlists: Some(PlaylistsContainer {
            playlist: ["c", "a", "b"]
                .iter()
                .map(|n| SubsonicPlaylist {
                    id: n.to_string(),
                    name: n.to_string(),
                    song_count: None,
                    duration: None,
                })
                .collect(),
        }),
    };
    let mut fetch = LibraryFetch::new(true);
    let mut rows = fetch.accept(LibraryReply::Playlists(ok(playlists))).remove(0).1;
    assert_eq!(orders(&rows), vec![0, 1, 2]);
    let fetched = rows.clone();
    for mode in [SortMode::Title, SortMode::Artist, SortMode::Added] {
        sort_list(&mut rows, mode);
        sort_list(&mut rows, SortMode::Added);
        assert_eq!(rows, fetched);
    }
    sort_list(&mut rows, SortMode::Title);
    assert_eq!(names(&rows), vec!["a", "b", "c"]);
    assert_eq!(orders(&rows), vec![1, 2, 0]);
}

#[test]
fn found_rows_are_numbered_through() {
    let found = Search3Data {
        search_result3: Some(SearchResult3Container {
            song: vec![song("1", "One", None), song("2", "Two", None)],
            album: vec![album("3", None)],
            artist: vec![artist("4", None)],
        }),
    };
    let rows = search_results(ok(found));
    assert_eq!(names(&rows), vec!["Songs", "One", "Two", "Albums", "Album 3", "Artists", "Artist 4"]);
    assert_eq!(orders(&rows), vec![0, 1, 2, 3, 4, 5, 6]);
    let tracks = PlaylistDetailData {
        playlist: Some(PlaylistDetailContainer {
            entry: vec![song("9", "Nine", None), song("8", "Eight", None)],
        }),
    };
    assert_eq!(orders(&detail_items(DetailReply::Playlist(ok(tracks)))), vec![0, 1]);
    let albums = vec![album("3", None), album("2", None)];
    assert_eq!(orders(&detail_items(DetailReply::Artist(Some(albums)))), vec![0, 1]);
}

fn png() -> Vec<u8> {
    let mut bytes = std::io::Cursor::new(Vec::new());
    image::DynamicImage::new_rgb8(2, 3).write_to(&mut bytes, image::ImageFormat::Png).unwrap();
    bytes.into_inner()
}

fn cover(status: u16, bytes: Vec<u8>) -> BytesReply {
    BytesReply::Response { status, body: Ok(bytes) }
}

#[test]
fn only_pictures_are_covers() {
    assert!(has_cover(cover(200, png())));
    assert!(!has_cover(cover(404, png())));
    assert!(!has_cover(cover(200, b"no picture".to_vec())));
    assert!(!has_cover(cover(200, png()[..20].to_vec())));
    assert!(!has_cover(cover(200, Vec::new())));
    assert!(!has_cover(BytesReply::Failed("down".to_string())));
    assert!(!has_cover(BytesReply::Response { status: 200, body: Err("cut".to_string()) }));
}

#[test]
fn a_track_has_colours_only_with_a_cover() {
    let grey = Rgb { r: 9, g: 9, b: 9 };
    let theme = Theme {
        name: "album",
        background: grey,
        text: grey,
        text_muted: grey,
        primary: grey,
        accent: grey,
        success: grey,
        border_subtle: grey,
        border_dimmest: grey,
    };
    let s = Some(song("1", "One", Some("Her")));
    let m = track_meta_from("1", &s, cover(200, png()), Some(theme));
    assert_eq!((m.uri.as_str(), m.title.as_str(), m.artist.as_str()), ("subsonic:track:1", "One", "Her"));
    assert_eq!((m.album.as_str(), m.duration_ms, m.image), ("Album", 61000, true));
    assert_eq!(m.theme.map(|t| t.name), Some("album"));
    let m = track_meta_from("1", &s, cover(200, vec![1, 2, 3]), Some(theme));
    assert!(!m.image && m.theme.is_none());
    let m = track_meta("2", &None, true, None);
    assert_eq!((m.uri.as_str(), m.title.as_str(), m.image), ("subsonic:track:2", "", true));
    assert!(m.theme.is_none());
}
