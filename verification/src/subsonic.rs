//! Requests to a Navidrome / OpenSubsonic server and what its replies mean.
//!
//! The server is spoken to with plain password authentication (`u`, `p`).

use vstd::prelude::*;
use crate::config::{NavidromeConfig, NavidromeConfigView};
use vstd::utf8::decode_utf8;
use crate::tasks::{
    law_url_encoding_is_safe, law_url_encoding_reads_back, percent_decoded, url_encoded, urlencode,
};
use crate::text::{
    decimal, decimal_string, find, join2, join3, lemma_find, lemma_find_range, same, trim_start_char,
    trim_start_matches, view_opt,
};

verus! {

pub const SUBSONIC_VERSION: &'static str = "1.16.1";

pub const CLIENT_NAME: &'static str = "myx";

#[derive(Debug)]
pub struct SubsonicClient {
    pub server_url: String,
    pub username: String,
    pub password: String,
}

impl View for SubsonicClient {
    type V = NavidromeConfigView;

    open spec fn view(&self) -> NavidromeConfigView {
        NavidromeConfigView {
            server_url: self.server_url@,
            username: self.username@,
            password: self.password@,
        }
    }
}

impl Clone for SubsonicClient {
    fn clone(&self) -> (r: Self)
        ensures
            r == *self,
    {
        SubsonicClient {
            server_url: self.server_url.clone(),
            username: self.username.clone(),
            password: self.password.clone(),
        }
    }
}

// ---------------------------------------------------------------------------
// Replies
// ---------------------------------------------------------------------------

#[derive(Debug)]
pub struct SubsonicResponseWrapper<T> {
    pub response: SubsonicResponse<T>,
}

#[derive(Debug)]
pub struct SubsonicResponse<T> {
    pub status: String,
    pub version: Option<String>,
    pub error: Option<SubsonicError>,
    pub data: T,
}

#[derive(Debug)]
pub struct SubsonicError {
    pub code: i32,
    pub message: String,
}

#[derive(Debug)]
pub struct PingData {}

#[derive(Debug)]
pub struct SubsonicSong {
    pub id: String,
    pub title: String,
    pub artist: Option<String>,
    pub album: Option<String>,
    pub duration: Option<u32>,
    pub cover_art: Option<String>,
}

pub struct SongView {
    pub id: Seq<char>,
    pub title: Seq<char>,
    pub artist: Option<Seq<char>>,
    pub album: Option<Seq<char>>,
    pub duration: Option<u32>,
    pub cover_art: Option<Seq<char>>,
}

impl View for SubsonicSong {
    type V = SongView;

    open spec fn view(&self) -> SongView {
        SongView {
            id: self.id@,
            title: self.title@,
            artist: view_opt(self.artist),
            album: view_opt(self.album),
            duration: self.duration,
            cover_art: view_opt(self.cover_art),
        }
    }
}

impl Clone for SubsonicSong {
    fn clone(&self) -> (r: Self)
        ensures
            r == *self,
    {
        SubsonicSong {
            id: self.id.clone(),
            title: self.title.clone(),
            artist: self.artist.clone(),
            album: self.album.clone(),
            duration: self.duration,
            cover_art: self.cover_art.clone(),
        }
    }
}

impl SubsonicSong {
    /// The title as it is shown.
    pub fn display_title(&self) -> (r: String)
        ensures
            r@ == self@.title,
    {
        self.title.clone()
    }
}

#[derive(Debug)]
pub struct SubsonicPlaylist {
    pub id: String,
    pub name: String,
    pub song_count: Option<u32>,
    pub duration: Option<u32>,
}

pub struct PlaylistView {
    pub id: Seq<char>,
    pub name: Seq<char>,
    pub song_count: Option<u32>,
    pub duration: Option<u32>,
}

impl View for SubsonicPlaylist {
    type V = PlaylistView;

    open spec fn view(&self) -> PlaylistView {
        PlaylistView {
            id: self.id@,
            name: self.name@,
            song_count: self.song_count,
            duration: self.duration,
        }
    }
}

impl Clone for SubsonicPlaylist {
    fn clone(&self) -> (r: Self)
        ensures
            r == *self,
    {
        SubsonicPlaylist {
            id: self.id.clone(),
            name: self.name.clone(),
            song_count: self.song_count,
            duration: self.duration,
        }
    }
}

#[derive(Debug)]
pub struct SubsonicAlbum {
    pub id: String,
    pub name: String,
    pub artist: Option<String>,
    pub song_count: Option<u32>,
    pub cover_art: Option<String>,
}

pub struct AlbumView {
    pub id: Seq<char>,
    pub name: Seq<char>,
    pub artist: Option<Seq<char>>,
    pub song_count: Option<u32>,
    pub cover_art: Option<Seq<char>>,
}

impl View for SubsonicAlbum {
    type V = AlbumView;

    open spec fn view(&self) -> AlbumView {
        AlbumView {
            id: self.id@,
            name: self.name@,
            artist: view_opt(self.artist),
            song_count: self.song_count,
            cover_art: view_opt(self.cover_art),
        }
    }
}

impl Clone for SubsonicAlbum {
    fn clone(&self) -> (r: Self)
        ensures
            r == *self,
    {
        SubsonicAlbum {
            id: self.id.clone(),
            name: self.name.clone(),
            artist: self.artist.clone(),
            song_count: self.song_count,
            cover_art: self.cover_art.clone(),
        }
    }
}

#[derive(Debug)]
pub struct SubsonicArtist {
    pub id: String,
    pub name: String,
    pub album_count: Option<u32>,
}

pub struct ArtistView {
    pub id: Seq<char>,
    pub name: Seq<char>,
    pub album_count: Option<u32>,
}

impl View for SubsonicArtist {
    type V = ArtistView;

    open spec fn view(&self) -> ArtistView {
        ArtistView { id: self.id@, name: self.name@, album_count: self.album_count }
    }
}

impl Clone for SubsonicArtist {
    fn clone(&self) -> (r: Self)
        ensures
            r == *self,
    {
        SubsonicArtist {
            id: self.id.clone(),
            name: self.name.clone(),
            album_count: self.album_count,
        }
    }
}

#[derive(Debug)]
pub struct PlaylistsData {
    pub playlists: Option<PlaylistsContainer>,
}

#[derive(Debug)]
pub struct PlaylistsContainer {
    pub playlist: Vec<SubsonicPlaylist>,
}

#[derive(Debug)]
pub struct PlaylistDetailData {
    pub playlist: Option<PlaylistDetailContainer>,
}

#[derive(Debug)]
pub struct PlaylistDetailContainer {
    pub entry: Vec<SubsonicSong>,
}

#[derive(Debug)]
pub struct Starred2Data {
    pub starred2: Option<Starred2Container>,
}

#[derive(Debug)]
pub struct Starred2Container {
    pub song: Vec<SubsonicSong>,
    pub album: Vec<SubsonicAlbum>,
    pub artist: Vec<SubsonicArtist>,
}

#[derive(Debug)]
pub struct AlbumList2Data {
    pub album_list2: Option<AlbumList2Container>,
}

#[derive(Debug)]
pub struct AlbumList2Container {
    pub album: Vec<SubsonicAlbum>,
}

#[derive(Debug)]
pub struct AlbumDetailData {
    pub album: Option<AlbumDetailContainer>,
}

#[derive(Debug)]
pub struct AlbumDetailContainer {
    pub song: Vec<SubsonicSong>,
}

#[derive(Debug)]
pub struct ArtistsData {
    pub artists: Option<ArtistsContainer>,
}

#[derive(Debug)]
pub struct ArtistsContainer {
    pub index: Vec<ArtistIndexItem>,
}

#[derive(Debug)]
pub struct ArtistIndexItem {
    pub name: String,
    pub artist: Vec<SubsonicArtist>,
}

#[derive(Debug)]
pub struct Search3Data {
    pub search_result3: Option<SearchResult3Container>,
}

#[derive(Debug)]
pub struct SearchResult3Container {
    pub song: Vec<SubsonicSong>,
    pub album: Vec<SubsonicAlbum>,
    pub artist: Vec<SubsonicArtist>,
}

/// What came back for a request: no answer at all, or a status and a body, which
/// was read as JSON or could not be.
#[derive(Debug)]
pub enum HttpReply<T> {
    Failed(String),
    Response { status: u16, body: Result<SubsonicResponseWrapper<T>, String> },
}

/// What came back for a request of bytes.
#[derive(Debug)]
pub enum BytesReply {
    Failed(String),
    Response { status: u16, body: Result<Vec<u8>, String> },
}

/// Why a request came to nothing.
#[derive(Debug)]
pub enum ClientError {
    Connection(String),
    HttpStatus(u16),
    Parse(String),
    Auth { code: i32, message: String },
    ServerStatus(String),
    CoverConnection(String),
    CoverStatus(u16),
    Read(String),
}

/// A whole number in decimal, with a sign where it is negative.
pub open spec fn signed_decimal(n: int) -> Seq<char> {
    if n < 0 {
        seq!['-'] + decimal((-n) as nat)
    } else {
        decimal(n as nat)
    }
}

fn signed_decimal_string(n: i32) -> (r: String)
    ensures
        r@ == signed_decimal(n as int),
{
    if n < 0 {
        let mut s = String::new();
        s.push('-');
        let m: i64 = -(n as i64);
        let out = s.concat(decimal_string(m as u64).as_str());
        assert(s@ =~= seq!['-']);
        out
    } else {
        decimal_string(n as u64)
    }
}

impl ClientError {
    /// The error in words.
    pub open spec fn text(self) -> Seq<char> {
        match self {
            ClientError::Connection(e) => "HTTP connection failed: "@ + e@,
            ClientError::HttpStatus(status) => "HTTP error status: "@ + decimal(status as nat),
            ClientError::Parse(_) => "Failed to parse JSON response from Navidrome server"@,
            ClientError::Auth { code, message } => "Navidrome auth error ("@ + signed_decimal(
                code as int,
            ) + "): "@ + message@,
            ClientError::ServerStatus(status) => "Navidrome server returned status: "@ + status@,
            ClientError::CoverConnection(e) => "Failed to fetch cover art: "@ + e@,
            ClientError::CoverStatus(status) => "Failed to fetch cover art: HTTP "@ + decimal(
                status as nat,
            ),
            ClientError::Read(e) => e@,
        }
    }

    /// The error in words, with its cause.
    pub open spec fn full_text(self) -> Seq<char> {
        match self {
            ClientError::Parse(cause) => self.text() + ": "@ + cause@,
            _ => self.text(),
        }
    }

    pub fn message(&self) -> (r: String)
        ensures
            r@ == self.text(),
    {
        match self {
            ClientError::Connection(e) => join2("HTTP connection failed: ", e.as_str()),
            ClientError::HttpStatus(status) => join2(
                "HTTP error status: ",
                decimal_string(*status as u64).as_str(),
            ),
            ClientError::Parse(_) => {
                "Failed to parse JSON response from Navidrome server".to_string()
            },
            ClientError::Auth { code, message } => {
                let head = join3(
                    "Navidrome auth error (",
                    signed_decimal_string(*code).as_str(),
                    "): ",
                );
                head.concat(message.as_str())
            },
            ClientError::ServerStatus(status) => join2(
                "Navidrome server returned status: ",
                status.as_str(),
            ),
            ClientError::CoverConnection(e) => join2("Failed to fetch cover art: ", e.as_str()),
            ClientError::CoverStatus(status) => join2(
                "Failed to fetch cover art: HTTP ",
                decimal_string(*status as u64).as_str(),
            ),
            ClientError::Read(e) => e.clone(),
        }
    }

    pub fn full_message(&self) -> (r: String)
        ensures
            r@ == self.full_text(),
    {
        match self {
            ClientError::Parse(cause) => join3(self.message().as_str(), ": ", cause.as_str()),
            _ => self.message(),
        }
    }
}

/// The status codes that mean success.
pub open spec fn is_success(status: u16) -> bool {
    200 <= status < 300
}

/// What a reply means: its data, or why there is none.
pub open spec fn meaning<T>(reply: HttpReply<T>) -> Result<T, ClientError> {
    match reply {
        HttpReply::Failed(e) => Err(ClientError::Connection(e)),
        HttpReply::Response { status, body } => if !is_success(status) {
            Err(ClientError::HttpStatus(status))
        } else {
            match body {
                Err(e) => Err(ClientError::Parse(e)),
                Ok(w) => if w.response.status@ == "ok"@ {
                    Ok(w.response.data)
                } else {
                    match w.response.error {
                        Some(e) => Err(ClientError::Auth { code: e.code, message: e.message }),
                        None => Err(ClientError::ServerStatus(w.response.status)),
                    }
                },
            }
        },
    }
}

/// What a reply of bytes means.
pub open spec fn cover_meaning(reply: BytesReply) -> Result<Vec<u8>, ClientError> {
    match reply {
        BytesReply::Failed(e) => Err(ClientError::CoverConnection(e)),
        BytesReply::Response { status, body } => if !is_success(status) {
            Err(ClientError::CoverStatus(status))
        } else {
            match body {
                Err(e) => Err(ClientError::Read(e)),
                Ok(b) => Ok(b),
            }
        },
    }
}

/// Data are taken from a reply only if the server answered, with a status of
/// success, in JSON, and called its answer `ok`.
pub proof fn law_only_ok_replies_give_data<T>(reply: HttpReply<T>)
    ensures
        meaning(reply) is Ok <==> (reply matches HttpReply::Response { status, body: Ok(w) }
            && is_success(status) && w.response.status@ == "ok"@),
{
}

pub open spec fn playlists_in(data: PlaylistsData) -> Seq<SubsonicPlaylist> {
    match data.playlists {
        Some(c) => c.playlist@,
        None => Seq::empty(),
    }
}

pub open spec fn playlist_tracks_in(data: PlaylistDetailData) -> Seq<SubsonicSong> {
    match data.playlist {
        Some(c) => c.entry@,
        None => Seq::empty(),
    }
}

pub open spec fn album_list_in(data: AlbumList2Data) -> Seq<SubsonicAlbum> {
    match data.album_list2 {
        Some(c) => c.album@,
        None => Seq::empty(),
    }
}

pub open spec fn album_tracks_in(data: AlbumDetailData) -> Seq<SubsonicSong> {
    match data.album {
        Some(c) => c.song@,
        None => Seq::empty(),
    }
}

/// The artists of all letters, one letter after another.
pub open spec fn artists_of(index: Seq<ArtistIndexItem>) -> Seq<SubsonicArtist>
    decreases index.len(),
{
    if index.len() == 0 {
        Seq::empty()
    } else {
        artists_of(index.drop_last()) + index.last().artist@
    }
}

pub open spec fn artists_in(data: ArtistsData) -> Seq<SubsonicArtist> {
    match data.artists {
        Some(c) => artists_of(c.index@),
        None => Seq::empty(),
    }
}

pub open spec fn starred_in(data: Starred2Data) -> (
    Seq<SubsonicSong>,
    Seq<SubsonicAlbum>,
    Seq<SubsonicArtist>,
) {
    match data.starred2 {
        Some(c) => (c.song@, c.album@, c.artist@),
        None => (Seq::empty(), Seq::empty(), Seq::empty()),
    }
}

pub open spec fn found_in(data: Search3Data) -> (
    Seq<SubsonicSong>,
    Seq<SubsonicAlbum>,
    Seq<SubsonicArtist>,
) {
    match data.search_result3 {
        Some(c) => (c.song@, c.album@, c.artist@),
        None => (Seq::empty(), Seq::empty(), Seq::empty()),
    }
}

// ---------------------------------------------------------------------------
// Request URLs
// ---------------------------------------------------------------------------

/// One parameter as it stands in a URL.
pub open spec fn parameter(p: (Seq<char>, Seq<char>)) -> Seq<char> {
    p.0 + seq!['='] + url_encoded(p.1)
}

/// Parameters as they stand in a URL, with `&` between them.
pub open spec fn query_string(params: Seq<(Seq<char>, Seq<char>)>) -> Seq<char>
    decreases params.len(),
{
    if params.len() == 0 {
        Seq::empty()
    } else if params.len() == 1 {
        parameter(params[0])
    } else {
        query_string(params.drop_last()) + seq!['&'] + parameter(params.last())
    }
}

/// The parameters that go with every request.
pub open spec fn auth_params(c: NavidromeConfigView) -> Seq<(Seq<char>, Seq<char>)> {
    seq![
        ("u"@, c.username),
        ("p"@, c.password),
        ("v"@, SUBSONIC_VERSION@),
        ("c"@, CLIENT_NAME@),
        ("f"@, "json"@),
    ]
}

/// The URL of a request.
pub open spec fn request_url(
    c: NavidromeConfigView,
    endpoint: Seq<char>,
    params: Seq<(Seq<char>, Seq<char>)>,
) -> Seq<char> {
    c.server_url + "/rest/"@ + trim_start_char(endpoint, '/') + "?"@ + query_string(
        auth_params(c) + params,
    )
}

/// Names and values as texts.
pub open spec fn pairs(s: Seq<(&str, &str)>) -> Seq<(Seq<char>, Seq<char>)> {
    s.map_values(|p: (&str, &str)| (p.0@, p.1@))
}

/// Appends a parameter to a query.
fn push_parameter(query: &mut String, name: &str, value: &str, Ghost(before): Ghost<
    Seq<(Seq<char>, Seq<char>)>,
>)
    requires
        old(query)@ == query_string(before),
        before.len() > 0,
    ensures
        final(query)@ == query_string(before.push((name@, value@))),
{
    let ghost start = query@;
    query.push('&');
    query.append(name);
    query.push('=');
    query.append(urlencode(value).as_str());
    proof {
        let all = before.push((name@, value@));
        assert(all.drop_last() =~= before);
        assert(query@ =~= start + seq!['&'] + parameter((name@, value@)));
    }
}

impl SubsonicClient {
    pub fn new(config: NavidromeConfig) -> (r: Self)
        ensures
            r@ == config@,
    {
        SubsonicClient {
            server_url: config.server_url,
            username: config.username,
            password: config.password,
        }
    }

    /// Construct a full URL for an OpenSubsonic endpoint with auth query parameters.
    pub fn build_url(&self, endpoint: &str, extra_params: &[(&str, &str)]) -> (r: String)
        ensures
            r@ == request_url(self@, endpoint@, pairs(extra_params@)),
    {
        let clean = trim_start_matches(endpoint, '/');
        let ghost all = auth_params(self@) + pairs(extra_params@);
        let mut query = join3("u", "=", urlencode(self.username.as_str()).as_str());
        proof {
            reveal_strlit("=");
            assert(query@ =~= parameter(("u"@, self@.username)));
            assert(query@ == query_string(all.take(1)));
        }
        push_parameter(&mut query, "p", self.password.as_str(), Ghost(all.take(1)));
        assert(all.take(2) =~= all.take(1).push(all[1]));
        push_parameter(&mut query, "v", SUBSONIC_VERSION, Ghost(all.take(2)));
        assert(all.take(3) =~= all.take(2).push(all[2]));
        push_parameter(&mut query, "c", CLIENT_NAME, Ghost(all.take(3)));
        assert(all.take(4) =~= all.take(3).push(all[3]));
        push_parameter(&mut query, "f", "json", Ghost(all.take(4)));
        assert(all.take(5) =~= all.take(4).push(all[4]));
        let mut i: usize = 0;
        while i < extra_params.len()
            invariant
                i <= extra_params@.len(),
                all == auth_params(self@) + pairs(extra_params@),
                query@ == query_string(all.take(5 + i)),
            decreases extra_params@.len() - i,
        {
            let (name, value) = extra_params[i];
            push_parameter(&mut query, name, value, Ghost(all.take(5 + i)));
            assert(all.take(5 + i + 1) =~= all.take(5 + i).push(all[5 + i]));
            assert(all[5 + i] == pairs(extra_params@)[i as int]);
            i += 1;
        }
        assert(all.take(5 + i) =~= all);
        let base = join3(self.server_url.as_str(), "/rest/", clean.as_str());
        join3(base.as_str(), "?", query.as_str())
    }

    /// A request whose one parameter is an ID.
    pub fn id_url(&self, endpoint: &str, id: &str) -> (r: String)
        ensures
            r@ == request_url(self@, endpoint@, seq![("id"@, id@)]),
    {
        let params = [("id", id)];
        let r = self.build_url(endpoint, &params);
        assert(pairs(params@) =~= seq![("id"@, id@)]);
        r
    }

    /// What a reply means: its data, or why there is none.
    pub fn get_json<T>(reply: HttpReply<T>) -> (r: Result<T, ClientError>)
        ensures
            r == meaning(reply),
    {
        match reply {
            HttpReply::Failed(e) => Err(ClientError::Connection(e)),
            HttpReply::Response { status, body } => {
                if status < 200 || status >= 300 {
                    return Err(ClientError::HttpStatus(status));
                }
                match body {
                    Err(e) => Err(ClientError::Parse(e)),
                    Ok(w) => {
                        let response = w.response;
                        if same(response.status.as_str(), "ok") {
                            Ok(response.data)
                        } else {
                            match response.error {
                                Some(e) => Err(
                                    ClientError::Auth { code: e.code, message: e.message },
                                ),
                                None => Err(ClientError::ServerStatus(response.status)),
                            }
                        }
                    },
                }
            },
        }
    }

    /// The request that tests authentication and connection.
    pub fn ping_url(&self) -> (r: String)
        ensures
            r@ == request_url(self@, "ping.view"@, Seq::empty()),
    {
        let r = self.build_url("ping.view", &[]);
        assert(pairs(Seq::<(&str, &str)>::empty()) =~= Seq::empty());
        r
    }

    /// Test authentication and connection: the server has to answer `ok`.
    pub fn ping(reply: HttpReply<PingData>) -> (r: Result<(), ClientError>)
        ensures
            match meaning(reply) {
                Ok(_) => r is Ok,
                Err(e) => r == Err::<(), ClientError>(e),
            },
    {
        match Self::get_json(reply) {
            Ok(_) => Ok(()),
            Err(e) => Err(e),
        }
    }

    /// The request for all playlists.
    pub fn playlists_url(&self) -> (r: String)
        ensures
            r@ == request_url(self@, "getPlaylists.view"@, Seq::empty()),
    {
        let r = self.build_url("getPlaylists.view", &[]);
        assert(pairs(Seq::<(&str, &str)>::empty()) =~= Seq::empty());
        r
    }

    /// All playlists.
    pub fn get_playlists(reply: HttpReply<PlaylistsData>) -> (r: Result<
        Vec<SubsonicPlaylist>,
        ClientError,
    >)
        ensures
            match meaning(reply) {
                Ok(data) => r is Ok && r->Ok_0@ == playlists_in(data),
                Err(e) => r == Err::<Vec<SubsonicPlaylist>, ClientError>(e),
            },
    {
        match Self::get_json(reply) {
            Ok(data) => match data.playlists {
                Some(c) => Ok(c.playlist),
                None => Ok(Vec::new()),
            },
            Err(e) => Err(e),
        }
    }

    /// The request for the tracks in a playlist.
    pub fn playlist_tracks_url(&self, playlist_id: &str) -> (r: String)
        ensures
            r@ == request_url(self@, "getPlaylist.view"@, seq![("id"@, playlist_id@)]),
    {
        self.id_url("getPlaylist.view", playlist_id)
    }

    /// The tracks in a playlist.
    pub fn get_playlist_tracks(reply: HttpReply<PlaylistDetailData>) -> (r: Result<
        Vec<SubsonicSong>,
        ClientError,
    >)
        ensures
            match meaning(reply) {
                Ok(data) => r is Ok && r->Ok_0@ == playlist_tracks_in(data),
                Err(e) => r == Err::<Vec<SubsonicSong>, ClientError>(e),
            },
    {
        match Self::get_json(reply) {
            Ok(data) => match data.playlist {
                Some(c) => Ok(c.entry),
                None => Ok(Vec::new()),
            },
            Err(e) => Err(e),
        }
    }

    /// The request for what is starred.
    pub fn starred_url(&self) -> (r: String)
        ensures
            r@ == request_url(self@, "getStarred2.view"@, Seq::empty()),
    {
        let r = self.build_url("getStarred2.view", &[]);
        assert(pairs(Seq::<(&str, &str)>::empty()) =~= Seq::empty());
        r
    }

    /// Starred (liked) songs, albums, and artists.
    pub fn get_starred(reply: HttpReply<Starred2Data>) -> (r: Result<
        (Vec<SubsonicSong>, Vec<SubsonicAlbum>, Vec<SubsonicArtist>),
        ClientError,
    >)
        ensures
            match meaning(reply) {
                Ok(data) => r is Ok && (r->Ok_0.0@, r->Ok_0.1@, r->Ok_0.2@) == starred_in(data),
                Err(e) => r == Err::<
                    (Vec<SubsonicSong>, Vec<SubsonicAlbum>, Vec<SubsonicArtist>),
                    ClientError,
                >(e),
            },
    {
        match Self::get_json(reply) {
            Ok(data) => match data.starred2 {
                Some(c) => Ok((c.song, c.album, c.artist)),
                None => Ok((Vec::new(), Vec::new(), Vec::new())),
            },
            Err(e) => Err(e),
        }
    }

    /// The request for a list of albums.
    pub fn album_list_url(&self, list_type: &str, size: usize) -> (r: String)
        ensures
            r@ == request_url(
                self@,
                "getAlbumList2.view"@,
                seq![("type"@, list_type@), ("size"@, decimal(size as nat))],
            ),
    {
        let size_string = decimal_string(size as u64);
        let size_text = size_string.as_str();
        let r = self.build_url("getAlbumList2.view", &[("type", list_type), ("size", size_text)]);
        proof {
            let s = seq![("type", list_type), ("size", size_text)];
            assert(pairs(s) =~= seq![("type"@, list_type@), ("size"@, decimal(size as nat))]);
        }
        r
    }

    /// A list of albums.
    pub fn get_album_list(reply: HttpReply<AlbumList2Data>) -> (r: Result<
        Vec<SubsonicAlbum>,
        ClientError,
    >)
        ensures
            match meaning(reply) {
                Ok(data) => r is Ok && r->Ok_0@ == album_list_in(data),
                Err(e) => r == Err::<Vec<SubsonicAlbum>, ClientError>(e),
            },
    {
        match Self::get_json(reply) {
            Ok(data) => match data.album_list2 {
                Some(c) => Ok(c.album),
                None => Ok(Vec::new()),
            },
            Err(e) => Err(e),
        }
    }

    /// The request for the tracks in an album.
    pub fn album_tracks_url(&self, album_id: &str) -> (r: String)
        ensures
            r@ == request_url(self@, "getAlbum.view"@, seq![("id"@, album_id@)]),
    {
        self.id_url("getAlbum.view", album_id)
    }

    /// The tracks in an album.
    pub fn get_album_tracks(reply: HttpReply<AlbumDetailData>) -> (r: Result<
        Vec<SubsonicSong>,
        ClientError,
    >)
        ensures
            match meaning(reply) {
                Ok(data) => r is Ok && r->Ok_0@ == album_tracks_in(data),
                Err(e) => r == Err::<Vec<SubsonicSong>, ClientError>(e),
            },
    {
        match Self::get_json(reply) {
            Ok(data) => match data.album {
                Some(c) => Ok(c.song),
                None => Ok(Vec::new()),
            },
            Err(e) => Err(e),
        }
    }

    /// The request for all artists.
    pub fn artists_url(&self) -> (r: String)
        ensures
            r@ == request_url(self@, "getArtists.view"@, Seq::empty()),
    {
        let r = self.build_url("getArtists.view", &[]);
        assert(pairs(Seq::<(&str, &str)>::empty()) =~= Seq::empty());
        r
    }

    /// All artists.
    pub fn get_artists(reply: HttpReply<ArtistsData>) -> (r: Result<
        Vec<SubsonicArtist>,
        ClientError,
    >)
        ensures
            match meaning(reply) {
                Ok(data) => r is Ok && r->Ok_0@ == artists_in(data),
                Err(e) => r == Err::<Vec<SubsonicArtist>, ClientError>(e),
            },
    {
        match Self::get_json(reply) {
            Ok(data) => match data.artists {
                Some(c) => Ok(gather_artists(c.index.as_slice())),
                None => Ok(Vec::new()),
            },
            Err(e) => Err(e),
        }
    }

    /// The search request.
    pub fn search_url(&self, query: &str) -> (r: String)
        ensures
            r@ == request_url(
                self@,
                "search3.view"@,
                seq![
                    ("query"@, query@),
                    ("songCount"@, "50"@),
                    ("albumCount"@, "20"@),
                    ("artistCount"@, "20"@),
                ],
            ),
    {
        let r = self.build_url(
            "search3.view",
            &[("query", query), ("songCount", "50"), ("albumCount", "20"), ("artistCount", "20")],
        );
        proof {
            let s = seq![
                ("query", query),
                ("songCount", "50"),
                ("albumCount", "20"),
                ("artistCount", "20"),
            ];
            assert(pairs(s) =~= seq![
                ("query"@, query@),
                ("songCount"@, "50"@),
                ("albumCount"@, "20"@),
                ("artistCount"@, "20"@),
            ]);
        }
        r
    }

    /// Search across songs, albums, and artists.
    pub fn search(reply: HttpReply<Search3Data>) -> (r: Result<
        (Vec<SubsonicSong>, Vec<SubsonicAlbum>, Vec<SubsonicArtist>),
        ClientError,
    >)
        ensures
            match meaning(reply) {
                Ok(data) => r is Ok && (r->Ok_0.0@, r->Ok_0.1@, r->Ok_0.2@) == found_in(data),
                Err(e) => r == Err::<
                    (Vec<SubsonicSong>, Vec<SubsonicAlbum>, Vec<SubsonicArtist>),
                    ClientError,
                >(e),
            },
    {
        match Self::get_json(reply) {
            Ok(data) => match data.search_result3 {
                Some(c) => Ok((c.song, c.album, c.artist)),
                None => Ok((Vec::new(), Vec::new(), Vec::new())),
            },
            Err(e) => Err(e),
        }
    }

    /// The request for cover art by cover art ID or song/album ID.
    pub fn cover_art_url(&self, id: &str) -> (r: String)
        ensures
            r@ == request_url(self@, "getCoverArt.view"@, seq![("id"@, id@)]),
    {
        self.id_url("getCoverArt.view", id)
    }

    /// The bytes of a cover.
    pub fn get_cover_art(reply: BytesReply) -> (r: Result<Vec<u8>, ClientError>)
        ensures
            r == cover_meaning(reply),
    {
        match reply {
            BytesReply::Failed(e) => Err(ClientError::CoverConnection(e)),
            BytesReply::Response { status, body } => {
                if status < 200 || status >= 300 {
                    Err(ClientError::CoverStatus(status))
                } else {
                    match body {
                        Err(e) => Err(ClientError::Read(e)),
                        Ok(b) => Ok(b),
                    }
                }
            },
        }
    }
}

// ---------------------------------------------------------------------------
// Reading a query back
// ---------------------------------------------------------------------------

/// The pieces of a text between the places where `c` stands.
pub open spec fn split_at_each(s: Seq<char>, c: char) -> Seq<Seq<char>>
    decreases s.len(),
    via split_at_each_decreases
{
    let k = find(s, c);
    if k < s.len() {
        seq![s.take(k)] + split_at_each(s.skip(k + 1), c)
    } else {
        seq![s]
    }
}

#[via_fn]
proof fn split_at_each_decreases(s: Seq<char>, c: char) {
    lemma_find_range(s, c);
}

/// A name and a value read from one piece of a query.
pub open spec fn read_parameter(s: Seq<char>) -> (Seq<char>, Seq<char>) {
    let k = find(s, '=');
    (s.take(k), decode_utf8(percent_decoded(s.skip(k + 1))))
}

/// The names and values of a query.
pub open spec fn read_query(s: Seq<char>) -> Seq<(Seq<char>, Seq<char>)> {
    split_at_each(s, '&').map_values(|p: Seq<char>| read_parameter(p))
}

proof fn lemma_split_append(a: Seq<char>, b: Seq<char>, c: char)
    requires
        !b.contains(c),
    ensures
        split_at_each(a + seq![c] + b, c) == split_at_each(a, c).push(b),
    decreases a.len(),
{
    let s = a + seq![c] + b;
    let k = find(a, c);
    lemma_find_range(a, c);
    assert forall|i: int| 0 <= i < k implies s[i] != c by {
        assert(a[i] != c);
    }
    assert(s[k] == c);
    lemma_find(s, c, k);
    lemma_find_absent(b, c);
    if k < a.len() {
        assert(s.take(k) =~= a.take(k));
        assert(s.skip(k + 1) =~= a.skip(k + 1) + seq![c] + b);
        lemma_split_append(a.skip(k + 1), b, c);
        assert(split_at_each(s, c) =~= split_at_each(a, c).push(b));
    } else {
        assert(s.take(k) =~= a);
        assert(s.skip(k + 1) =~= b);
        assert(split_at_each(b, c) == seq![b]);
        assert(split_at_each(a, c) == seq![a]);
        assert(split_at_each(s, c) =~= split_at_each(a, c).push(b));
    }
}

proof fn lemma_find_absent(s: Seq<char>, c: char)
    requires
        !s.contains(c),
    ensures
        find(s, c) == s.len(),
{
    assert forall|i: int| 0 <= i < s.len() implies s[i] != c by {
        assert(s.contains(s[i]));
    }
    lemma_find(s, c, s.len() as int);
}

proof fn lemma_parameter_reads_back(p: (Seq<char>, Seq<char>))
    requires
        !p.0.contains('&'),
        !p.0.contains('='),
    ensures
        !parameter(p).contains('&'),
        read_parameter(parameter(p)) == p,
{
    let s = parameter(p);
    let v = url_encoded(p.1);
    assert forall|i: int| 0 <= i < s.len() implies s[i] != '&' by {
        if i < p.0.len() {
            assert(s[i] == p.0[i]);
            assert(p.0.contains(p.0[i]));
        } else if i > p.0.len() {
            law_url_encoding_is_safe(p.1, i - p.0.len() - 1);
            assert(s[i] == v[i - p.0.len() - 1]);
        }
    }
    assert forall|i: int| 0 <= i < p.0.len() implies s[i] != '=' by {
        assert(p.0.contains(p.0[i]));
    }
    assert(s[p.0.len() as int] == '=');
    lemma_find(s, '=', p.0.len() as int);
    assert(s.take(p.0.len() as int) =~= p.0);
    assert(s.skip(p.0.len() as int + 1) =~= v);
    law_url_encoding_reads_back(p.1);
}

/// The parameters of a request can be read back from its query, whatever their
/// values are: no value runs into its neighbours.
pub proof fn law_query_reads_back(params: Seq<(Seq<char>, Seq<char>)>)
    requires
        params.len() > 0,
        forall|i: int|
            0 <= i < params.len() ==> !(#[trigger] params[i]).0.contains('&') && !params[i].0.contains(
                '=',
            ),
    ensures
        read_query(query_string(params)) == params,
    decreases params.len(),
{
    let p = params.last();
    lemma_parameter_reads_back(p);
    if params.len() == 1 {
        lemma_find_absent(parameter(p), '&');
        assert(read_query(query_string(params)) =~= params);
    } else {
        let front = params.drop_last();
        assert forall|i: int| 0 <= i < front.len() implies !(#[trigger] front[i]).0.contains('&')
            && !front[i].0.contains('=') by {
            assert(front[i] == params[i]);
        }
        law_query_reads_back(front);
        lemma_split_append(query_string(front), parameter(p), '&');
        assert(read_query(query_string(params)) =~= read_query(query_string(front)).push(p));
        assert(params =~= front.push(p));
    }
}

/// The artists of all letters, one letter after another.
fn gather_artists(index: &[ArtistIndexItem]) -> (r: Vec<SubsonicArtist>)
    ensures
        r@ == artists_of(index@),
{
    let mut out: Vec<SubsonicArtist> = Vec::new();
    let mut i: usize = 0;
    assert(artists_of(index@.take(0)) =~= Seq::<SubsonicArtist>::empty());
    while i < index.len()
        invariant
            i <= index@.len(),
            out@ == artists_of(index@.take(i as int)),
        decreases index@.len() - i,
    {
        let mut letter = index[i].artist.clone();
        let ghost before = out@;
        out.append(&mut letter);
        proof {
            assert(index@.take(i + 1).drop_last() =~= index@.take(i as int));
            assert(out@ =~= before + index@[i as int].artist@);
        }
        i += 1;
    }
    assert(index@.take(i as int) =~= index@);
    out
}

// ---------------------------------------------------------------------------
// What requests and replies say
// ---------------------------------------------------------------------------

/// A request goes to the server, below `rest`, to the endpoint without its leading
/// slashes, with the user and the password, the version, the client and the format.
pub proof fn law_requests_are_signed(c: NavidromeConfigView, slashes: Seq<char>, endpoint: Seq<char>)
    requires
        forall|i: int| 0 <= i < slashes.len() ==> #[trigger] slashes[i] == '/',
        endpoint.len() > 0 ==> endpoint[0] != '/',
    ensures
        request_url(c, slashes + endpoint, Seq::empty()) == c.server_url + "/rest/"@ + endpoint
            + "?"@ + (("u"@ + seq!['='] + url_encoded(c.username)) + seq!['&'] + ("p"@ + seq!['=']
            + url_encoded(c.password)) + seq!['&'] + ("v"@ + seq!['='] + url_encoded("1.16.1"@))
            + seq!['&'] + ("c"@ + seq!['='] + url_encoded("myx"@)) + seq!['&'] + ("f"@ + seq!['=']
            + url_encoded("json"@))),
{
    let s = slashes + endpoint;
    let p = crate::text::is_char('/');
    assert forall|i: int| 0 <= i < slashes.len() implies p(#[trigger] s[i]) by {
        assert(slashes[i] == '/');
    }
    crate::text::lemma_skip_while(s, p, slashes.len() as int);
    assert(s.skip(slashes.len() as int) =~= endpoint);
    let all = auth_params(c) + Seq::<(Seq<char>, Seq<char>)>::empty();
    let four = seq![all[0], all[1], all[2], all[3]];
    let three = seq![all[0], all[1], all[2]];
    let two = seq![all[0], all[1]];
    let one = seq![all[0]];
    assert(all.drop_last() =~= four);
    assert(four.drop_last() =~= three);
    assert(three.drop_last() =~= two);
    assert(two.drop_last() =~= one);
    assert(query_string(one) == parameter(all[0]));
    assert(query_string(two) == query_string(one) + seq!['&'] + parameter(all[1]));
    assert(query_string(three) == query_string(two) + seq!['&'] + parameter(all[2]));
    assert(query_string(four) == query_string(three) + seq!['&'] + parameter(all[3]));
    assert(query_string(all) == query_string(four) + seq!['&'] + parameter(all[4]));
}

/// A parameter more stands at the end of a request, by its name and its encoded
/// value.
pub proof fn law_parameters_are_appended(
    c: NavidromeConfigView,
    endpoint: Seq<char>,
    params: Seq<(Seq<char>, Seq<char>)>,
    name: Seq<char>,
    value: Seq<char>,
)
    ensures
        request_url(c, endpoint, params.push((name, value))) == request_url(c, endpoint, params)
            + seq!['&'] + name + seq!['='] + url_encoded(value),
{
    let before = auth_params(c) + params;
    let all = auth_params(c) + params.push((name, value));
    assert(all.drop_last() =~= before);
    assert(all.last() == (name, value));
    assert(request_url(c, endpoint, params.push((name, value))) =~= request_url(
        c,
        endpoint,
        params,
    ) + seq!['&'] + name + seq!['='] + url_encoded(value));
}

/// What a reply means, whatever it is: no answer, a status other than success, no
/// JSON, a refusal with a reason and one without, or data.
pub proof fn law_replies_mean_one_thing<T>(
    e: String,
    status: u16,
    w: SubsonicResponseWrapper<T>,
)
    ensures
        meaning(HttpReply::<T>::Failed(e)) == Err::<T, ClientError>(ClientError::Connection(e)),
        status < 200 || status > 299 ==> meaning(
            HttpReply::<T>::Response { status, body: Ok(w) },
        ) == Err::<T, ClientError>(ClientError::HttpStatus(status)),
        200 <= status <= 299 ==> meaning(HttpReply::<T>::Response { status, body: Err(e) }) == Err::<
            T,
            ClientError,
        >(ClientError::Parse(e)),
        200 <= status <= 299 && w.response.status@ == "ok"@ ==> meaning(
            HttpReply::<T>::Response { status, body: Ok(w) },
        ) == Ok::<T, ClientError>(w.response.data),
        200 <= status <= 299 && w.response.status@ != "ok"@ ==> meaning(
            HttpReply::<T>::Response { status, body: Ok(w) },
        ) == Err::<T, ClientError>(
            match w.response.error {
                Some(x) => ClientError::Auth { code: x.code, message: x.message },
                None => ClientError::ServerStatus(w.response.status),
            },
        ),
{
}

/// What a reply of bytes means: the bytes on success, else why there are none.
pub proof fn law_byte_replies_mean_one_thing(e: String, status: u16, body: Result<Vec<u8>, String>)
    ensures
        cover_meaning(BytesReply::Failed(e)) == Err::<Vec<u8>, ClientError>(
            ClientError::CoverConnection(e),
        ),
        status < 200 || status > 299 ==> cover_meaning(BytesReply::Response { status, body })
            == Err::<Vec<u8>, ClientError>(ClientError::CoverStatus(status)),
        200 <= status <= 299 ==> cover_meaning(BytesReply::Response { status, body }) == match body {
            Ok(b) => Ok::<Vec<u8>, ClientError>(b),
            Err(x) => Err(ClientError::Read(x)),
        },
{
}

/// What is said of each error.
pub proof fn law_errors_in_words(e: String, status: u16, code: i32)
    ensures
        ClientError::Connection(e).full_text() == "HTTP connection failed: "@ + e@,
        ClientError::HttpStatus(status).full_text() == "HTTP error status: "@ + decimal(
            status as nat,
        ),
        ClientError::Parse(e).text() == "Failed to parse JSON response from Navidrome server"@,
        ClientError::Parse(e).full_text()
            == "Failed to parse JSON response from Navidrome server"@ + ": "@ + e@,
        code >= 0 ==> (ClientError::Auth { code, message: e }).full_text()
            == "Navidrome auth error ("@ + decimal(code as nat) + "): "@ + e@,
        code < 0 ==> (ClientError::Auth { code, message: e }).full_text()
            == "Navidrome auth error ("@ + (seq!['-'] + decimal((-code) as nat)) + "): "@ + e@,
        ClientError::ServerStatus(e).full_text() == "Navidrome server returned status: "@ + e@,
        ClientError::CoverConnection(e).full_text() == "Failed to fetch cover art: "@ + e@,
        ClientError::CoverStatus(status).full_text() == "Failed to fetch cover art: HTTP "@
            + decimal(status as nat),
        ClientError::Read(e).full_text() == e@,
{
}

/// The artists of a reply are those of its letters, one letter after another.
pub proof fn law_artists_come_by_letters(index: Seq<ArtistIndexItem>, item: ArtistIndexItem)
    ensures
        artists_of(Seq::<ArtistIndexItem>::empty()).len() == 0,
        artists_of(index.push(item)) == artists_of(index) + item.artist@,
{
    assert(index.push(item).drop_last() =~= index);
}

/// What lists a reply holds: all of what it brought, and nothing where it brought
/// none.
pub proof fn law_lists_in_replies(
    playlists: PlaylistsData,
    playlist: PlaylistDetailData,
    albums: AlbumList2Data,
    album: AlbumDetailData,
    starred: Starred2Data,
    found: Search3Data,
)
    ensures
        playlists.playlists matches Some(c) ==> playlists_in(playlists) == c.playlist@,
        playlists.playlists is None ==> playlists_in(playlists).len() == 0,
        playlist.playlist matches Some(c) ==> playlist_tracks_in(playlist) == c.entry@,
        playlist.playlist is None ==> playlist_tracks_in(playlist).len() == 0,
        albums.album_list2 matches Some(c) ==> album_list_in(albums) == c.album@,
        albums.album_list2 is None ==> album_list_in(albums).len() == 0,
        album.album matches Some(c) ==> album_tracks_in(album) == c.song@,
        album.album is None ==> album_tracks_in(album).len() == 0,
        starred.starred2 matches Some(c) ==> starred_in(starred) == (
            c.song@,
            c.album@,
            c.artist@,
        ),
        starred.starred2 is None ==> starred_in(starred).0.len() == 0,
        found.search_result3 matches Some(c) ==> found_in(found) == (c.song@, c.album@, c.artist@),
        found.search_result3 is None ==> found_in(found).0.len() == 0 && found_in(found).1.len() == 0
            && found_in(found).2.len() == 0,
{
}

} // verus!
