use smyx::config::{lock_path, log_path, NavidromeConfig};
use smyx::subsonic::{
    AlbumDetailContainer, AlbumDetailData, AlbumList2Container, AlbumList2Data, ArtistIndexItem,
    ArtistsContainer, ArtistsData, BytesReply, ClientError, HttpReply, PingData,
    PlaylistDetailContainer, PlaylistDetailData, PlaylistsContainer, PlaylistsData,
    Search3Data, SearchResult3Container, Starred2Container, Starred2Data, SubsonicAlbum,
    SubsonicArtist, SubsonicClient, SubsonicError, SubsonicPlaylist, SubsonicResponse,
    SubsonicResponseWrapper, SubsonicSong,
};
use smyx::tasks::{lyrics_url, urlencode};

fn client() -> SubsonicClient {
    SubsonicClient::new(NavidromeConfig::new(
        "http://localhost:4533".to_string(),
        "admin".to_string(),
        "secret123".to_string(),
    ))
}

fn answered<T>(status: u16, word: &str, error: Option<SubsonicError>, data: T) -> HttpReply<T> {
    HttpReply::Response {
        status,
        body: Ok(SubsonicResponseWrapper {
            response: SubsonicResponse {
                status: word.to_string(),
                version: Some("1.16.1".to_string()),
                error,
                data,
            },
        }),
    }
}

fn ok<T>(data: T) -> HttpReply<T> {
    answered(200, "ok", None, data)
}

fn song(id: &str, title: &str) -> SubsonicSong {
    SubsonicSong {
        id: id.to_string(),
        title: title.to_string(),
        artist: None,
        album: None,
        duration: None,
        cover_art: None,
    }
}

fn album(id: &str) -> SubsonicAlbum {
    SubsonicAlbum {
        id: id.to_string(),
        name: format!("album {id}"),
        artist: None,
        song_count: None,
        cover_art: None,
    }
}

fn artist(id: &str) -> SubsonicArtist {
    SubsonicArtist { id: id.to_string(), name: format!("artist {id}"), album_count: None }
}

#[test]
fn test_normalize_url() {
    assert_eq!(
        NavidromeConfig::normalize_url("192.168.1.100:4533/"),
        "http://192.168.1.100:4533"
    );
    assert_eq!(
        NavidromeConfig::normalize_url("https://music.example.com/"),
        "https://music.example.com"
    );
    assert_eq!(
        NavidromeConfig::normalize_url("  http://localhost:4533  "),
        "http://localhost:4533"
    );
}

#[test]
fn normalizing_takes_all_slashes_and_keeps_inner_ones() {
    assert_eq!(NavidromeConfig::normalize_url("host/music///"), "http://host/music");
    assert_eq!(NavidromeConfig::normalize_url(""), "http:");
    assert_eq!(NavidromeConfig::normalize_url("https://"), "https:");
    let once = NavidromeConfig::normalize_url("\t music.example.com/a/ ");
    assert_eq!(NavidromeConfig::normalize_url(&once), once);
}

#[test]
fn config_trims_the_user_but_not_the_password() {
    let c = NavidromeConfig::new("host/".to_string(), " me ".to_string(), " pw ".to_string());
    assert_eq!(c.server_url, "http://host");
    assert_eq!(c.username, "me");
    assert_eq!(c.password, " pw ");
}

#[test]
fn stored_config_needs_a_user() {
    let stored = |user: &str| {
        Some(NavidromeConfig {
            server_url: "host/".to_string(),
            username: user.to_string(),
            password: String::new(),
        })
    };
    assert!(NavidromeConfig::load(None).is_none());
    assert!(NavidromeConfig::load(stored("")).is_none());
    let c = NavidromeConfig::load(stored("me")).unwrap();
    assert_eq!(c.server_url, "http://host");
    assert_eq!(c.username, "me");
}

#[test]
fn paths_lie_below_the_home_directory() {
    assert_eq!(
        NavidromeConfig::config_path(Some("/home/me")).unwrap(),
        "/home/me/.config/smyx/navidrome.toml"
    );
    assert!(NavidromeConfig::config_path(None).is_none());
    assert_eq!(lock_path(Some("/home/me/")), "/home/me/.cache/smyx/lock");
    assert_eq!(lock_path(None), "/tmp/smyx.lock");
    assert_eq!(log_path(Some("/h"), true).unwrap(), "/h/.cache/myx/myx.log");
    assert!(log_path(Some("/h"), false).is_none());
    assert!(log_path(None, true).is_none());
    let joined = std::path::Path::new("/home/me").join(".config/smyx/navidrome.toml");
    assert_eq!(
        joined.to_str().unwrap(),
        NavidromeConfig::config_path(Some("/home/me")).unwrap()
    );
}

#[test]
fn test_build_url() {
    let config = NavidromeConfig::new(
        "http://localhost:4533".to_string(),
        "admin".to_string(),
        "secret123".to_string(),
    );
    let client = SubsonicClient::new(config);
    let url = client.build_url("ping.view", &[("foo", "bar")]);
    assert!(url.starts_with("http://localhost:4533/rest/ping.view?"));
    assert!(url.contains("u=admin"));
    assert!(url.contains("p=secret123"));
    assert!(url.contains("v=1.16.1"));
    assert!(url.contains("c=myx"));
    assert!(url.contains("f=json"));
    assert!(url.contains("foo=bar"));
}

#[test]
fn urls_are_written_out_in_full() {
    assert_eq!(
        client().build_url("//ping.view", &[]),
        "http://localhost:4533/rest/ping.view?u=admin&p=secret123&v=1.16.1&c=myx&f=json"
    );
    assert_eq!(
        client().search_url("a&b=c"),
        "http://localhost:4533/rest/search3.view?u=admin&p=secret123&v=1.16.1&c=myx&f=json\
         &query=a%26b%3Dc&songCount=50&albumCount=20&artistCount=20"
    );
    assert!(client().album_list_url("newest", 100).ends_with("&type=newest&size=100"));
    assert!(client().ping_url().contains("/rest/ping.view?"));
    assert!(client().playlists_url().contains("/rest/getPlaylists.view?"));
    assert!(client().starred_url().contains("/rest/getStarred2.view?"));
    assert!(client().artists_url().contains("/rest/getArtists.view?"));
    assert!(client().playlist_tracks_url("p 1").ends_with("&id=p%201"));
    assert!(client().album_tracks_url("a1").contains("/rest/getAlbum.view?"));
    assert!(client().cover_art_url("c1").contains("/rest/getCoverArt.view?"));
}

#[test]
fn a_query_can_be_taken_apart_again() {
    let url = client().build_url("x.view", &[("name", "ü & = ? # %41 +"), ("n", "2")]);
    let query = url.split_once('?').unwrap().1;
    let parts: Vec<(&str, &str)> = query.split('&').map(|p| p.split_once('=').unwrap()).collect();
    assert_eq!(parts.len(), 7);
    assert_eq!(parts[5], ("name", "%C3%BC%20%26%20%3D%20%3F%20%23%20%2541%20%2B"));
    assert_eq!(parts[6], ("n", "2"));
}

#[test]
fn test_urlencode() {
    assert_eq!(urlencode("hello world"), "hello%20world");
    assert_eq!(urlencode("abc_123"), "abc_123");
}

#[test]
fn urlencode_writes_bytes_in_upper_case() {
    assert_eq!(urlencode("-_.~AZaz09"), "-_.~AZaz09");
    assert_eq!(urlencode("é/♪"), "%C3%A9%2F%E2%99%AA");
    assert_eq!(urlencode(""), "");
    assert_eq!(urlencode("\u{1}\u{7f}"), "%01%7F");
}

#[test]
fn lyrics_are_asked_for_by_seconds() {
    assert_eq!(
        lyrics_url("A B", "T", "", 83999),
        "https://lrclib.net/api/get?artist_name=A%20B&track_name=T&album_name=&duration=83"
    );
}

#[test]
fn a_ping_needs_an_ok() {
    assert!(SubsonicClient::ping(ok(PingData {})).is_ok());
    let failed: HttpReply<PingData> = HttpReply::Failed("no route".to_string());
    let e = SubsonicClient::ping(failed).unwrap_err();
    assert_eq!(e.message(), "HTTP connection failed: no route");
    assert_eq!(e.full_message(), "HTTP connection failed: no route");
}

#[test]
fn every_error_has_its_words() {
    let status = |n: u16| SubsonicClient::ping(answered(n, "ok", None, PingData {}));
    assert_eq!(status(404).unwrap_err().message(), "HTTP error status: 404");
    assert_eq!(status(300).unwrap_err().message(), "HTTP error status: 300");
    assert_eq!(status(199).unwrap_err().message(), "HTTP error status: 199");
    assert!(status(299).is_ok());

    let garbled: HttpReply<PingData> =
        HttpReply::Response { status: 200, body: Err("expected value".to_string()) };
    let e = SubsonicClient::ping(garbled).unwrap_err();
    assert_eq!(e.message(), "Failed to parse JSON response from Navidrome server");
    assert_eq!(
        e.full_message(),
        "Failed to parse JSON response from Navidrome server: expected value"
    );

    let wrong = SubsonicError { code: 40, message: "Wrong username or password".to_string() };
    let e = SubsonicClient::ping(answered(200, "failed", Some(wrong), PingData {})).unwrap_err();
    assert_eq!(e.message(), "Navidrome auth error (40): Wrong username or password");
    let odd = SubsonicError { code: -7, message: "odd".to_string() };
    let e = SubsonicClient::ping(answered(200, "failed", Some(odd), PingData {})).unwrap_err();
    assert_eq!(e.message(), "Navidrome auth error (-7): odd");
    let least = ClientError::Auth { code: i32::MIN, message: String::new() };
    assert_eq!(least.message(), "Navidrome auth error (-2147483648): ");

    let e = SubsonicClient::ping(answered(200, "busy", None, PingData {})).unwrap_err();
    assert_eq!(e.message(), "Navidrome server returned status: busy");
}

#[test]
fn an_ok_reply_with_an_error_is_still_ok() {
    let error = SubsonicError { code: 1, message: "ignored".to_string() };
    assert!(SubsonicClient::ping(answered(200, "ok", Some(error), PingData {})).is_ok());
}

#[test]
fn replies_give_their_lists() {
    let playlists = PlaylistsData {
        playlists: Some(PlaylistsContainer {
            playlist: vec![SubsonicPlaylist {
                id: "p1".to_string(),
                name: "Mix".to_string(),
                song_count: Some(3),
                duration: None,
            }],
        }),
    };
    assert_eq!(SubsonicClient::get_playlists(ok(playlists)).unwrap()[0].name, "Mix");
    assert!(SubsonicClient::get_playlists(ok(PlaylistsData { playlists: None }))
        .unwrap()
        .is_empty());

    let tracks = PlaylistDetailData {
        playlist: Some(PlaylistDetailContainer { entry: vec![song("1", "one"), song("2", "two")] }),
    };
    assert_eq!(SubsonicClient::get_playlist_tracks(ok(tracks)).unwrap()[1].title, "two");
    assert!(SubsonicClient::get_playlist_tracks(ok(PlaylistDetailData { playlist: None }))
        .unwrap()
        .is_empty());

    let albums =
        AlbumList2Data { album_list2: Some(AlbumList2Container { album: vec![album("a")] }) };
    assert_eq!(SubsonicClient::get_album_list(ok(albums)).unwrap()[0].id, "a");
    assert!(SubsonicClient::get_album_list(ok(AlbumList2Data { album_list2: None }))
        .unwrap()
        .is_empty());

    let tracks =
        AlbumDetailData { album: Some(AlbumDetailContainer { song: vec![song("9", "nine")] }) };
    assert_eq!(SubsonicClient::get_album_tracks(ok(tracks)).unwrap()[0].display_title(), "nine");
    assert!(SubsonicClient::get_album_tracks(ok(AlbumDetailData { album: None }))
        .unwrap()
        .is_empty());
}

#[test]
fn artists_come_letter_by_letter() {
    let data = ArtistsData {
        artists: Some(ArtistsContainer {
            index: vec![
                ArtistIndexItem { name: "A".to_string(), artist: vec![artist("1"), artist("2")] },
                ArtistIndexItem { name: "B".to_string(), artist: vec![] },
                ArtistIndexItem { name: "C".to_string(), artist: vec![artist("3")] },
            ],
        }),
    };
    let ids: Vec<String> =
        SubsonicClient::get_artists(ok(data)).unwrap().into_iter().map(|a| a.id).collect();
    assert_eq!(ids, vec!["1", "2", "3"]);
    assert!(SubsonicClient::get_artists(ok(ArtistsData { artists: None })).unwrap().is_empty());
}

#[test]
fn starred_and_found_come_in_three_lists() {
    let starred = Starred2Data {
        starred2: Some(Starred2Container {
            song: vec![song("1", "one")],
            album: vec![album("a")],
            artist: vec![artist("x"), artist("y")],
        }),
    };
    let (s, a, x) = SubsonicClient::get_starred(ok(starred)).unwrap();
    assert_eq!((s.len(), a.len(), x.len()), (1, 1, 2));
    let (s, a, x) = SubsonicClient::get_starred(ok(Starred2Data { starred2: None })).unwrap();
    assert_eq!((s.len(), a.len(), x.len()), (0, 0, 0));

    let found = Search3Data {
        search_result3: Some(SearchResult3Container {
            song: vec![],
            album: vec![album("a")],
            artist: vec![],
        }),
    };
    let (s, a, x) = SubsonicClient::search(ok(found)).unwrap();
    assert_eq!((s.len(), a.len(), x.len()), (0, 1, 0));
    let (s, a, x) = SubsonicClient::search(ok(Search3Data { search_result3: None })).unwrap();
    assert_eq!((s.len(), a.len(), x.len()), (0, 0, 0));
}

#[test]
fn covers_are_bytes_or_errors() {
    let got = BytesReply::Response { status: 200, body: Ok(vec![1, 2, 3]) };
    assert_eq!(SubsonicClient::get_cover_art(got).unwrap(), vec![1, 2, 3]);
    let e = SubsonicClient::get_cover_art(BytesReply::Failed("down".to_string())).unwrap_err();
    assert_eq!(e.message(), "Failed to fetch cover art: down");
    let e = SubsonicClient::get_cover_art(BytesReply::Response { status: 500, body: Ok(vec![]) })
        .unwrap_err();
    assert_eq!(e.message(), "Failed to fetch cover art: HTTP 500");
    let broken = BytesReply::Response { status: 200, body: Err("cut off".to_string()) };
    assert_eq!(SubsonicClient::get_cover_art(broken).unwrap_err().message(), "cut off");
}

fn text(v: &serde_json::Value) -> Option<String> {
    v.as_str().map(|s| s.to_string())
}

fn number(v: &serde_json::Value) -> Option<u32> {
    v.as_u64().map(|n| n as u32)
}

fn wrapped<T>(json: &str, data: fn(&serde_json::Value) -> T) -> SubsonicResponseWrapper<T> {
    let document: serde_json::Value = serde_json::from_str(json).unwrap();
    let response = &document["subsonic-response"];
    SubsonicResponseWrapper {
        response: SubsonicResponse {
            status: text(&response["status"]).unwrap(),
            version: text(&response["version"]),
            error: None,
            data: data(response),
        },
    }
}

fn playlists_of(response: &serde_json::Value) -> PlaylistsData {
    let list = response["playlists"]["playlist"].as_array().unwrap();
    PlaylistsData {
        playlists: Some(PlaylistsContainer {
            playlist: list
                .iter()
                .map(|p| SubsonicPlaylist {
                    id: text(&p["id"]).unwrap(),
                    name: text(&p["name"]).unwrap(),
                    song_count: number(&p["songCount"]),
                    duration: number(&p["duration"]),
                })
                .collect(),
        }),
    }
}

#[test]
fn test_parse_ping_response() {
    let json_str = r#"{
            "subsonic-response": {
                "status": "ok",
                "version": "1.16.1"
            }
        }"#;
    let wrapper = wrapped(json_str, |_| PingData {});
    assert_eq!(wrapper.response.status, "ok");
    assert_eq!(wrapper.response.version.as_deref(), Some("1.16.1"));
    assert!(SubsonicClient::ping(HttpReply::Response { status: 200, body: Ok(wrapper) }).is_ok());
}

#[test]
fn test_parse_playlists_response() {
    let json_str = r#"{
            "subsonic-response": {
                "status": "ok",
                "playlists": {
                    "playlist": [
                        { "id": "p1", "name": "Chill Vibes", "songCount": 15 }
                    ]
                }
            }
        }"#;
    let wrapper = wrapped(json_str, playlists_of);
    let reply = HttpReply::Response { status: 200, body: Ok(wrapper) };
    let playlists = SubsonicClient::get_playlists(reply).unwrap();
    assert_eq!(playlists.len(), 1);
    assert_eq!(playlists[0].name, "Chill Vibes");
}
