//! What is asked of the server and of the lyrics service in the background, and
//! what the answers turn into.

use vstd::prelude::*;
use vstd::utf8::{decode_utf8, encode_utf8};
use crate::app::TRACK;
use crate::lyrics::{lrc_readable, lrc_text_readable, timed_lines, view_entries};
use crate::models::{
    in_fetch_order, law_added_undoes_sorting, lemma_pinned_range, sorted_list, LibItem, LibItemView,
    Section, SortMode, TrackMeta, TrackMetaView,
};
use crate::subsonic::{
    album_list_in, album_tracks_in, artists_in, cover_meaning, found_in, is_success, meaning, playlist_tracks_in,
    playlists_in, request_url, starred_in, AlbumDetailData, AlbumList2Data, AlbumView, ArtistView,
    ArtistsData, BytesReply, HttpReply, PlaylistDetailData, PlaylistView, PlaylistsData, Search3Data,
    SongView, Starred2Data, SubsonicAlbum, SubsonicArtist, SubsonicClient, SubsonicPlaylist,
    SubsonicSong,
};
use crate::text::{
    after_prefix, decimal, decimal_string, join2, lines, split_lines, string_of, strip_prefix,
    view_opt, views,
};
use crate::theme::Theme;

pub use crate::lyrics::{parse_lrc, parse_lrc_stamp};

verus! {

/// The bytes that stand for themselves in a URL.
pub open spec fn unreserved(b: u8) -> bool {
    ||| 65 <= b <= 90
    ||| 97 <= b <= 122
    ||| 48 <= b <= 57
    ||| b == 45
    ||| b == 95
    ||| b == 46
    ||| b == 126
}

/// A hexadecimal digit, in upper case.
pub open spec fn hex_digit(d: int) -> char {
    if d < 10 {
        (48 + d) as char
    } else {
        (55 + d) as char
    }
}

/// How one byte is written in a URL.
pub open spec fn encoded_byte(b: u8) -> Seq<char> {
    if unreserved(b) {
        seq![b as char]
    } else {
        seq!['%', hex_digit(b as int / 16), hex_digit(b as int % 16)]
    }
}

/// Bytes as they are written in a URL.
pub open spec fn percent_encoded(bytes: Seq<u8>) -> Seq<char>
    decreases bytes.len(),
{
    if bytes.len() == 0 {
        Seq::empty()
    } else {
        percent_encoded(bytes.drop_last()) + encoded_byte(bytes.last())
    }
}

/// A text as it is written in a URL: its UTF-8 bytes, percent-encoded.
pub open spec fn url_encoded(s: Seq<char>) -> Seq<char> {
    percent_encoded(encode_utf8(s))
}

fn hex(d: u8) -> (r: char)
    requires
        d < 16,
    ensures
        r == hex_digit(d as int),
{
    if d < 10 {
        (48 + d) as char
    } else {
        (55 + d) as char
    }
}

/// Percent-encodes everything but letters, digits and `-_.~`.
pub fn urlencode(s: &str) -> (r: String)
    ensures
        r@ == url_encoded(s@),
{
    let bytes = s.as_bytes();
    let mut out = String::new();
    let mut i: usize = 0;
    assert(percent_encoded(bytes@.take(0)) =~= Seq::<char>::empty());
    while i < bytes.len()
        invariant
            i <= bytes@.len(),
            out@ == percent_encoded(bytes@.take(i as int)),
        decreases bytes@.len() - i,
    {
        let b: u8 = bytes[i];
        let ghost before = out@;
        if (65 <= b && b <= 90) || (97 <= b && b <= 122) || (48 <= b && b <= 57) || b == 45 || b == 95
            || b == 46 || b == 126 {
            out.push(b as char);
        } else {
            out.push('%');
            out.push(hex(b / 16));
            out.push(hex(b % 16));
        }
        assert(out@ =~= before + encoded_byte(b));
        assert(bytes@.take(i + 1).drop_last() =~= bytes@.take(i as int));
        i += 1;
    }
    assert(bytes@.take(i as int) =~= bytes@);
    out
}

// ---------------------------------------------------------------------------
// Reading an encoded text back
// ---------------------------------------------------------------------------

/// The value of a hexadecimal digit in upper case.
pub open spec fn hex_value(c: char) -> int {
    if c <= '9' {
        c as int - 48
    } else {
        c as int - 55
    }
}

/// The bytes that an encoded text stands for.
pub open spec fn percent_decoded(s: Seq<char>) -> Seq<u8>
    decreases s.len(),
{
    if s.len() == 0 {
        Seq::empty()
    } else if s.len() >= 3 && s[s.len() - 3] == '%' {
        percent_decoded(s.take(s.len() - 3)).push(
            (hex_value(s[s.len() - 2]) * 16 + hex_value(s[s.len() - 1])) as u8,
        )
    } else {
        percent_decoded(s.drop_last()).push(s.last() as u8)
    }
}

/// `s` is a row of encoded bytes, so that a percent sign is always followed by two
/// digits.
proof fn lemma_no_percent_near_end(bytes: Seq<u8>)
    ensures
        ({
            let s = percent_encoded(bytes);
            &&& s.len() >= 1 ==> s[s.len() - 1] != '%'
            &&& s.len() >= 2 ==> s[s.len() - 2] != '%'
        }),
    decreases bytes.len(),
{
    if bytes.len() > 0 {
        lemma_no_percent_near_end(bytes.drop_last());
    }
}

proof fn lemma_decode_encoded(bytes: Seq<u8>)
    ensures
        percent_decoded(percent_encoded(bytes)) == bytes,
    decreases bytes.len(),
{
    let s = percent_encoded(bytes);
    if bytes.len() > 0 {
        let front = bytes.drop_last();
        let b = bytes.last();
        let f = percent_encoded(front);
        lemma_decode_encoded(front);
        lemma_no_percent_near_end(front);
        if unreserved(b) {
            assert(s.drop_last() =~= f);
            assert(s.last() == b as char);
            if s.len() >= 3 {
                assert(s[s.len() - 3] == f[f.len() - 2]);
            }
        } else {
            assert(s.take(s.len() - 3) =~= f);
            assert(hex_value(hex_digit(b as int / 16)) == b as int / 16);
            assert(hex_value(hex_digit(b as int % 16)) == b as int % 16);
        }
        assert(percent_decoded(s) =~= front.push(b));
        assert(bytes =~= front.push(b));
    } else {
        assert(percent_decoded(s) =~= bytes);
    }
}

/// An encoded text can be read back: nothing of it is lost, and no two texts are
/// written alike.
pub proof fn law_url_encoding_reads_back(s: Seq<char>)
    ensures
        decode_utf8(percent_decoded(url_encoded(s))) == s,
{
    lemma_decode_encoded(encode_utf8(s));
    vstd::utf8::encode_utf8_decode_utf8(s);
}

/// The characters that can occur in an encoded text.
pub open spec fn url_safe(c: char) -> bool {
    c == '%' || (c as u32 <= 255 && unreserved(c as u8))
}

proof fn lemma_percent_encoded_is_safe(bytes: Seq<u8>, i: int)
    requires
        0 <= i < percent_encoded(bytes).len(),
    ensures
        url_safe(percent_encoded(bytes)[i]),
    decreases bytes.len(),
{
    if bytes.len() > 0 {
        let f = percent_encoded(bytes.drop_last());
        if i < f.len() {
            lemma_percent_encoded_is_safe(bytes.drop_last(), i);
        }
    }
}

/// An encoded text holds nothing but letters, digits, `-_.~` and percent signs: in
/// particular no `&`, `=`, `?`, `#` or space, so a value cannot end its parameter.
pub proof fn law_url_encoding_is_safe(s: Seq<char>, i: int)
    requires
        0 <= i < url_encoded(s).len(),
    ensures
        url_safe(url_encoded(s)[i]),
{
    lemma_percent_encoded_is_safe(encode_utf8(s), i);
}

// ---------------------------------------------------------------------------
// Lists
// ---------------------------------------------------------------------------

/// A text, or the empty text where there is none.
pub open spec fn or_empty(s: Option<Seq<char>>) -> Seq<char> {
    match s {
        Some(t) => t,
        None => Seq::empty(),
    }
}

/// A count, or nought where there is none.
pub open spec fn or_nought(n: Option<u32>) -> nat {
    match n {
        Some(k) => k as nat,
        None => 0,
    }
}

fn text_or_empty(s: &Option<String>) -> (r: String)
    ensures
        r@ == or_empty(view_opt(*s)),
{
    match s {
        Some(t) => t.clone(),
        None => String::new(),
    }
}

fn count_text(n: Option<u32>, what: &str) -> (r: String)
    ensures
        r@ == decimal(or_nought(n)) + what@,
{
    let k: u32 = match n {
        Some(k) => k,
        None => 0,
    };
    join2(decimal_string(k as u64).as_str(), what)
}

/// A song as a row.
pub open spec fn song_item(s: SongView) -> LibItemView {
    LibItemView::track(s.title, or_empty(s.artist), "subsonic:track:"@ + s.id)
}

/// A playlist as a row.
pub open spec fn playlist_item(p: PlaylistView) -> LibItemView {
    LibItemView::ctx(
        p.name,
        decimal(or_nought(p.song_count)) + " tracks"@,
        "subsonic:playlist:"@ + p.id,
    )
}

/// An album as a row.
pub open spec fn album_item(a: AlbumView) -> LibItemView {
    LibItemView::ctx(a.name, or_empty(a.artist), "subsonic:album:"@ + a.id)
}

/// An artist as a row.
pub open spec fn artist_item(a: ArtistView) -> LibItemView {
    LibItemView::ctx(
        a.name,
        decimal(or_nought(a.album_count)) + " albums"@,
        "subsonic:artist:"@ + a.id,
    )
}

/// A row at a place of the list that it was fetched in.
pub open spec fn placed(item: LibItemView, place: int) -> LibItemView {
    LibItemView { order: place as u32, ..item }
}

/// Rows numbered through, from a place on.
pub open spec fn numbered(rows: Seq<LibItemView>, from: int) -> Seq<LibItemView> {
    Seq::new(rows.len(), |k: int| placed(rows[k], from + k))
}

pub open spec fn song_items(s: Seq<SubsonicSong>) -> Seq<LibItemView> {
    s.map_values(|x: SubsonicSong| song_item(x@))
}

pub open spec fn playlist_items(s: Seq<SubsonicPlaylist>) -> Seq<LibItemView> {
    s.map_values(|x: SubsonicPlaylist| playlist_item(x@))
}

pub open spec fn album_items(s: Seq<SubsonicAlbum>) -> Seq<LibItemView> {
    s.map_values(|x: SubsonicAlbum| album_item(x@))
}

pub open spec fn artist_items(s: Seq<SubsonicArtist>) -> Seq<LibItemView> {
    s.map_values(|x: SubsonicArtist| artist_item(x@))
}

/// The rows of songs, each with its place among them.
pub open spec fn song_rows(s: Seq<SubsonicSong>) -> Seq<LibItemView> {
    numbered(song_items(s), 0)
}

/// The rows of playlists, each with its place among them.
pub open spec fn playlist_rows(s: Seq<SubsonicPlaylist>) -> Seq<LibItemView> {
    numbered(playlist_items(s), 0)
}

/// The rows of albums, each with its place among them.
pub open spec fn album_rows(s: Seq<SubsonicAlbum>) -> Seq<LibItemView> {
    numbered(album_items(s), 0)
}

/// The rows of artists, each with its place among them.
pub open spec fn artist_rows(s: Seq<SubsonicArtist>) -> Seq<LibItemView> {
    numbered(artist_items(s), 0)
}

/// Fetched rows know the order they came in.
pub proof fn law_fetched_rows_are_in_order(rows: Seq<LibItemView>)
    requires
        rows.len() <= u32::MAX,
    ensures
        in_fetch_order(numbered(rows, 0)),
        forall|k: int| 0 <= k < rows.len() ==> (#[trigger] numbered(rows, 0)[k]).order == k,
{
}

/// A fetched section that was sorted in any order is brought back by "added".
pub proof fn law_fetched_section_comes_back(reply: LibraryReply, i: int, mode: SortMode)
    requires
        reply.sections() matches Some(s) && 0 <= i < s.len() && s[i].1.len() <= u32::MAX,
    ensures
        ({
            let rows = reply.sections()->0[i].1;
            &&& forall|k: int| 0 <= k < rows.len() ==> (#[trigger] rows[k]).order == k
            &&& sorted_list(sorted_list(rows, mode), SortMode::Added) == rows
        }),
{
    let rows = reply.sections()->0[i].1;
    lemma_pinned_range(rows);
    law_added_undoes_sorting(rows, mode);
}

/// Appends a row, with its place in the list.
fn push_row(out: &mut Vec<LibItem>, item: LibItem)
    ensures
        views(final(out)@) == views(old(out)@).push(placed(item@, old(out)@.len() as int)),
        final(out)@.len() == old(out)@.len() + 1,
{
    let ghost before = out@;
    let mut item = item;
    item.order = out.len() as u32;
    out.push(item);
    assert(views(out@) =~= views(before).push(item@));
}

/// Appends a row for each song, numbered on.
pub fn push_songs(out: &mut Vec<LibItem>, songs: &[SubsonicSong])
    ensures
        views(final(out)@) == views(old(out)@) + numbered(
            song_items(songs@),
            old(out)@.len() as int,
        ),
{
    let ghost before = views(out@);
    let ghost rows = numbered(song_items(songs@), out@.len() as int);
    let mut i: usize = 0;
    while i < songs.len()
        invariant
            i <= songs@.len(),
            out@.len() == before.len() + i,
            rows == numbered(song_items(songs@), before.len() as int),
            views(out@) == before + rows.take(i as int),
        decreases songs@.len() - i,
    {
        let x = &songs[i];
        let item = LibItem::track(
            x.display_title(),
            text_or_empty(&x.artist),
            join2("subsonic:track:", x.id.as_str()),
        );
        push_row(out, item);
        i += 1;
        assert(rows.take(i as int) =~= rows.take(i - 1).push(rows[i - 1]));
        assert(rows[i - 1] == placed(item@, before.len() + i - 1));
        assert(views(out@) =~= before + rows.take(i as int));
    }
    assert(rows.take(i as int) =~= rows);
}

/// Appends a row for each playlist, numbered on.
pub fn push_playlists(out: &mut Vec<LibItem>, playlists: &[SubsonicPlaylist])
    ensures
        views(final(out)@) == views(old(out)@) + numbered(
            playlist_items(playlists@),
            old(out)@.len() as int,
        ),
{
    let ghost before = views(out@);
    let ghost rows = numbered(playlist_items(playlists@), out@.len() as int);
    let mut i: usize = 0;
    while i < playlists.len()
        invariant
            i <= playlists@.len(),
            out@.len() == before.len() + i,
            rows == numbered(playlist_items(playlists@), before.len() as int),
            views(out@) == before + rows.take(i as int),
        decreases playlists@.len() - i,
    {
        let x = &playlists[i];
        let item = LibItem::ctx(
            x.name.clone(),
            count_text(x.song_count, " tracks"),
            join2("subsonic:playlist:", x.id.as_str()),
        );
        push_row(out, item);
        i += 1;
        assert(rows.take(i as int) =~= rows.take(i - 1).push(rows[i - 1]));
        assert(rows[i - 1] == placed(item@, before.len() + i - 1));
        assert(views(out@) =~= before + rows.take(i as int));
    }
    assert(rows.take(i as int) =~= rows);
}

/// Appends a row for each album, numbered on.
pub fn push_albums(out: &mut Vec<LibItem>, albums: &[SubsonicAlbum])
    ensures
        views(final(out)@) == views(old(out)@) + numbered(
            album_items(albums@),
            old(out)@.len() as int,
        ),
{
    let ghost before = views(out@);
    let ghost rows = numbered(album_items(albums@), out@.len() as int);
    let mut i: usize = 0;
    while i < albums.len()
        invariant
            i <= albums@.len(),
            out@.len() == before.len() + i,
            rows == numbered(album_items(albums@), before.len() as int),
            views(out@) == before + rows.take(i as int),
        decreases albums@.len() - i,
    {
        let x = &albums[i];
        let item = LibItem::ctx(
            x.name.clone(),
            text_or_empty(&x.artist),
            join2("subsonic:album:", x.id.as_str()),
        );
        push_row(out, item);
        i += 1;
        assert(rows.take(i as int) =~= rows.take(i - 1).push(rows[i - 1]));
        assert(rows[i - 1] == placed(item@, before.len() + i - 1));
        assert(views(out@) =~= before + rows.take(i as int));
    }
    assert(rows.take(i as int) =~= rows);
}

/// Appends a row for each artist, numbered on.
pub fn push_artists(out: &mut Vec<LibItem>, artists: &[SubsonicArtist])
    ensures
        views(final(out)@) == views(old(out)@) + numbered(
            artist_items(artists@),
            old(out)@.len() as int,
        ),
{
    let ghost before = views(out@);
    let ghost rows = numbered(artist_items(artists@), out@.len() as int);
    let mut i: usize = 0;
    while i < artists.len()
        invariant
            i <= artists@.len(),
            out@.len() == before.len() + i,
            rows == numbered(artist_items(artists@), before.len() as int),
            views(out@) == before + rows.take(i as int),
        decreases artists@.len() - i,
    {
        let x = &artists[i];
        let item = LibItem::ctx(
            x.name.clone(),
            count_text(x.album_count, " albums"),
            join2("subsonic:artist:", x.id.as_str()),
        );
        push_row(out, item);
        i += 1;
        assert(rows.take(i as int) =~= rows.take(i - 1).push(rows[i - 1]));
        assert(rows[i - 1] == placed(item@, before.len() + i - 1));
        assert(views(out@) =~= before + rows.take(i as int));
    }
    assert(rows.take(i as int) =~= rows);
}

// ---------------------------------------------------------------------------
// The library
// ---------------------------------------------------------------------------

/// The requests that fill the library, in their order.
#[derive(Debug, Clone, Copy, PartialEq, Eq, Structural)]
pub enum LibraryStep {
    Playlists,
    Starred,
    Albums,
    Artists,
    Done,
}

/// The answer to one of them.
pub enum LibraryReply {
    Playlists(HttpReply<PlaylistsData>),
    Starred(HttpReply<Starred2Data>),
    Albums(HttpReply<AlbumList2Data>),
    Artists(HttpReply<ArtistsData>),
}

impl LibraryReply {
    /// The request that it answers.
    pub open spec fn step(self) -> LibraryStep {
        match self {
            LibraryReply::Playlists(_) => LibraryStep::Playlists,
            LibraryReply::Starred(_) => LibraryStep::Starred,
            LibraryReply::Albums(_) => LibraryStep::Albums,
            LibraryReply::Artists(_) => LibraryStep::Artists,
        }
    }

    /// The sections that it fills; nothing where the request failed. What is
    /// starred is at home, too.
    pub open spec fn sections(self) -> Option<Seq<(Section, Seq<LibItemView>)>> {
        match self {
            LibraryReply::Playlists(r) => match meaning(r) {
                Ok(d) => Some(seq![(Section::Playlists, playlist_rows(playlists_in(d)))]),
                Err(_) => None,
            },
            LibraryReply::Starred(r) => match meaning(r) {
                Ok(d) => Some(
                    seq![
                        (Section::Home, song_rows(starred_in(d).0)),
                        (Section::Liked, song_rows(starred_in(d).0)),
                    ],
                ),
                Err(_) => None,
            },
            LibraryReply::Albums(r) => match meaning(r) {
                Ok(d) => Some(seq![(Section::Albums, album_rows(album_list_in(d)))]),
                Err(_) => None,
            },
            LibraryReply::Artists(r) => match meaning(r) {
                Ok(d) => Some(seq![(Section::Artists, artist_rows(artists_in(d)))]),
                Err(_) => None,
            },
        }
    }
}

/// Lists for sections, as they are.
pub open spec fn view_sections(s: Seq<(Section, Vec<LibItem>)>) -> Seq<
    (Section, Seq<LibItemView>),
> {
    s.map_values(|u: (Section, Vec<LibItem>)| (u.0, views(u.1@)))
}

/// How far a fetch of the library has come, and whether any request succeeded.
#[derive(Debug, Clone, Copy, PartialEq, Eq, Structural)]
pub struct LibraryFetch {
    pub next: LibraryStep,
    pub got_any: bool,
}

impl LibraryFetch {
    /// A fetch that begins; without a server it is over at once.
    pub open spec fn start(connected: bool) -> LibraryFetch {
        LibraryFetch {
            next: if connected {
                LibraryStep::Playlists
            } else {
                LibraryStep::Done
            },
            got_any: false,
        }
    }

    /// A fetch after the next answer.
    pub open spec fn answered(self, ok: bool) -> LibraryFetch {
        LibraryFetch {
            next: match self.next {
                LibraryStep::Playlists => LibraryStep::Starred,
                LibraryStep::Starred => LibraryStep::Albums,
                LibraryStep::Albums => LibraryStep::Artists,
                LibraryStep::Artists => LibraryStep::Done,
                LibraryStep::Done => LibraryStep::Done,
            },
            got_any: self.got_any || ok,
        }
    }

    pub fn new(connected: bool) -> (r: LibraryFetch)
        ensures
            r == LibraryFetch::start(connected),
    {
        if connected {
            LibraryFetch { next: LibraryStep::Playlists, got_any: false }
        } else {
            LibraryFetch { next: LibraryStep::Done, got_any: false }
        }
    }

    /// The URL to be asked next.
    pub fn url(&self, client: &SubsonicClient) -> (r: Option<String>)
        ensures
            r is Some <==> self.next != LibraryStep::Done,
            r matches Some(u) ==> u@ == (match self.next {
                LibraryStep::Playlists => request_url(
                    client@,
                    "getPlaylists.view"@,
                    Seq::empty(),
                ),
                LibraryStep::Starred => request_url(client@, "getStarred2.view"@, Seq::empty()),
                LibraryStep::Albums => request_url(
                    client@,
                    "getAlbumList2.view"@,
                    seq![("type"@, "alphabeticalByTitle"@), ("size"@, decimal(100))],
                ),
                _ => request_url(client@, "getArtists.view"@, Seq::empty()),
            }),
    {
        match self.next {
            LibraryStep::Playlists => Some(client.playlists_url()),
            LibraryStep::Starred => Some(client.starred_url()),
            LibraryStep::Albums => Some(client.album_list_url("alphabeticalByTitle", 100)),
            LibraryStep::Artists => Some(client.artists_url()),
            LibraryStep::Done => None,
        }
    }

    /// Takes the next answer: the sections that it fills.
    pub fn accept(&mut self, reply: LibraryReply) -> (r: Vec<(Section, Vec<LibItem>)>)
        requires
            reply.step() == old(self).next,
        ensures
            *final(self) == old(self).answered(reply.sections() is Some),
            view_sections(r@) == (match reply.sections() {
                Some(s) => s,
                None => Seq::empty(),
            }),
    {
        let mut out: Vec<(Section, Vec<LibItem>)> = Vec::new();
        let mut ok = false;
        match reply {
            LibraryReply::Playlists(reply) => {
                if let Ok(playlists) = SubsonicClient::get_playlists(reply) {
                    let mut items: Vec<LibItem> = Vec::new();
                    push_playlists(&mut items, playlists.as_slice());
                    assert(views(items@) =~= playlist_rows(playlists@));
                    out.push((Section::Playlists, items));
                    ok = true;
                }
                self.next = LibraryStep::Starred;
            },
            LibraryReply::Starred(reply) => {
                if let Ok((songs, _, _)) = SubsonicClient::get_starred(reply) {
                    let mut items: Vec<LibItem> = Vec::new();
                    push_songs(&mut items, songs.as_slice());
                    assert(views(items@) =~= song_rows(songs@));
                    let home = items.clone();
                    assert(views(home@) =~= views(items@));
                    out.push((Section::Home, home));
                    out.push((Section::Liked, items));
                    ok = true;
                }
                self.next = LibraryStep::Albums;
            },
            LibraryReply::Albums(reply) => {
                if let Ok(albums) = SubsonicClient::get_album_list(reply) {
                    let mut items: Vec<LibItem> = Vec::new();
                    push_albums(&mut items, albums.as_slice());
                    assert(views(items@) =~= album_rows(albums@));
                    out.push((Section::Albums, items));
                    ok = true;
                }
                self.next = LibraryStep::Artists;
            },
            LibraryReply::Artists(reply) => {
                if let Ok(artists) = SubsonicClient::get_artists(reply) {
                    let mut items: Vec<LibItem> = Vec::new();
                    push_artists(&mut items, artists.as_slice());
                    assert(views(items@) =~= artist_rows(artists@));
                    out.push((Section::Artists, items));
                    ok = true;
                }
                self.next = LibraryStep::Done;
            },
        }
        self.got_any = self.got_any || ok;
        assert(view_sections(out@) =~= (match reply.sections() {
            Some(s) => s,
            None => Seq::empty(),
        }));
        out
    }
}

/// A fetch is over after four answers, whatever they were, and then says whether
/// any of them was good; without a server it is over at once and got nothing.
pub proof fn law_library_fetch_ends(a: bool, b: bool, c: bool, d: bool)
    ensures
        LibraryFetch::start(true).answered(a).answered(b).answered(c).answered(d) == (LibraryFetch {
            next: LibraryStep::Done,
            got_any: a || b || c || d,
        }),
        LibraryFetch::start(true).answered(a).answered(b).answered(c).next != LibraryStep::Done,
        LibraryFetch::start(false) == (LibraryFetch { next: LibraryStep::Done, got_any: false }),
{
}

// ---------------------------------------------------------------------------
// Search
// ---------------------------------------------------------------------------

/// Rows under a heading; no heading where there are no rows.
pub open spec fn headed(name: Seq<char>, rows: Seq<LibItemView>) -> Seq<LibItemView> {
    if rows.len() == 0 {
        Seq::empty()
    } else {
        seq![LibItemView::header(name)] + rows
    }
}

/// What a search found, song by song, album by album and artist by artist, each
/// kind under its heading, numbered through.
pub open spec fn search_rows(reply: HttpReply<Search3Data>) -> Seq<LibItemView> {
    match meaning(reply) {
        Ok(d) => {
            let found = found_in(d);
            numbered(
                headed("Songs"@, song_items(found.0)) + headed("Albums"@, album_items(found.1))
                    + headed("Artists"@, artist_items(found.2)),
                0,
            )
        },
        Err(_) => Seq::empty(),
    }
}

/// The rows that a search found; none where the request failed.
pub fn search_results(reply: HttpReply<Search3Data>) -> (r: Vec<LibItem>)
    ensures
        views(r@) == search_rows(reply),
{
    let mut out: Vec<LibItem> = Vec::new();
    assert(views(out@) =~= Seq::<LibItemView>::empty());
    if let Ok((songs, albums, artists)) = SubsonicClient::search(reply) {
        let ghost first = headed("Songs"@, song_items(songs@));
        let ghost second = first + headed("Albums"@, album_items(albums@));
        if songs.len() > 0 {
            push_row(&mut out, LibItem::header("Songs"));
            push_songs(&mut out, songs.as_slice());
        }
        assert(views(out@) =~= numbered(first, 0));
        assert(out@.len() == views(out@).len());
        if albums.len() > 0 {
            push_row(&mut out, LibItem::header("Albums"));
            push_albums(&mut out, albums.as_slice());
        }
        assert(views(out@) =~= numbered(second, 0));
        assert(out@.len() == views(out@).len());
        if artists.len() > 0 {
            push_row(&mut out, LibItem::header("Artists"));
            push_artists(&mut out, artists.as_slice());
        }
        assert(views(out@) =~= numbered(second + headed("Artists"@, artist_items(artists@)), 0));
    }
    out
}

// ---------------------------------------------------------------------------
// Details
// ---------------------------------------------------------------------------

/// What a URI leads to, with its ID.
#[derive(Debug)]
pub enum DetailTarget {
    Playlist(String),
    Album(String),
    Artist(String),
    Unknown,
}

pub enum DetailTargetView {
    Playlist(Seq<char>),
    Album(Seq<char>),
    Artist(Seq<char>),
    Unknown,
}

impl View for DetailTarget {
    type V = DetailTargetView;

    open spec fn view(&self) -> DetailTargetView {
        match self {
            DetailTarget::Playlist(id) => DetailTargetView::Playlist(id@),
            DetailTarget::Album(id) => DetailTargetView::Album(id@),
            DetailTarget::Artist(id) => DetailTargetView::Artist(id@),
            DetailTarget::Unknown => DetailTargetView::Unknown,
        }
    }
}

pub open spec fn target_of(uri: Seq<char>) -> DetailTargetView {
    match after_prefix(uri, "subsonic:playlist:"@) {
        Some(id) => DetailTargetView::Playlist(id),
        None => match after_prefix(uri, "subsonic:album:"@) {
            Some(id) => DetailTargetView::Album(id),
            None => match after_prefix(uri, "subsonic:artist:"@) {
                Some(id) => DetailTargetView::Artist(id),
                None => DetailTargetView::Unknown,
            },
        },
    }
}

/// What a URI leads to.
pub fn detail_target(uri: &str) -> (r: DetailTarget)
    ensures
        r@ == target_of(uri@),
{
    match strip_prefix(uri, "subsonic:playlist:") {
        Some(id) => DetailTarget::Playlist(id),
        None => match strip_prefix(uri, "subsonic:album:") {
            Some(id) => DetailTarget::Album(id),
            None => match strip_prefix(uri, "subsonic:artist:") {
                Some(id) => DetailTarget::Artist(id),
                None => DetailTarget::Unknown,
            },
        },
    }
}

/// What was found behind a URI. The albums of an artist are `None` where they
/// could not be had.
pub enum DetailReply {
    Playlist(HttpReply<PlaylistDetailData>),
    Album(HttpReply<AlbumDetailData>),
    Artist(Option<Vec<SubsonicAlbum>>),
    Unknown,
}

/// The rows of a detail view; none where the request failed.
pub open spec fn detail_rows(reply: DetailReply) -> Seq<LibItemView> {
    match reply {
        DetailReply::Playlist(r) => match meaning(r) {
            Ok(d) => song_rows(playlist_tracks_in(d)),
            Err(_) => Seq::empty(),
        },
        DetailReply::Album(r) => match meaning(r) {
            Ok(d) => song_rows(album_tracks_in(d)),
            Err(_) => Seq::empty(),
        },
        DetailReply::Artist(Some(albums)) => album_rows(albums@),
        DetailReply::Artist(None) => Seq::empty(),
        DetailReply::Unknown => Seq::empty(),
    }
}

pub fn detail_items(reply: DetailReply) -> (r: Vec<LibItem>)
    ensures
        views(r@) == detail_rows(reply),
{
    let mut out: Vec<LibItem> = Vec::new();
    match reply {
        DetailReply::Playlist(reply) => {
            if let Ok(songs) = SubsonicClient::get_playlist_tracks(reply) {
                push_songs(&mut out, songs.as_slice());
            }
        },
        DetailReply::Album(reply) => {
            if let Ok(songs) = SubsonicClient::get_album_tracks(reply) {
                push_songs(&mut out, songs.as_slice());
            }
        },
        DetailReply::Artist(Some(albums)) => {
            push_albums(&mut out, albums.as_slice());
        },
        DetailReply::Artist(None) => {},
        DetailReply::Unknown => {},
    }
    assert(views(out@) =~= detail_rows(reply));
    out
}

// ---------------------------------------------------------------------------
// What a song is
// ---------------------------------------------------------------------------

/// What is known of a track that starts to play.
pub struct SongMeta {
    pub title: String,
    pub artist: String,
    pub album: String,
    pub duration_ms: u32,
    pub cover_id: String,
}

pub struct SongMetaView {
    pub title: Seq<char>,
    pub artist: Seq<char>,
    pub album: Seq<char>,
    pub duration_ms: int,
    pub cover_id: Seq<char>,
}

impl View for SongMeta {
    type V = SongMetaView;

    open spec fn view(&self) -> SongMetaView {
        SongMetaView {
            title: self.title@,
            artist: self.artist@,
            album: self.album@,
            duration_ms: self.duration_ms as int,
            cover_id: self.cover_id@,
        }
    }
}

/// The cover of a track: the one that its song names, else the track's own.
pub open spec fn cover_of(track_id: Seq<char>, song: Option<SongView>) -> Seq<char> {
    match song {
        Some(s) => match s.cover_art {
            Some(c) => c,
            None => track_id,
        },
        None => track_id,
    }
}

/// What is known of a track, where the server could tell and where it could not.
pub open spec fn meta_of(track_id: Seq<char>, song: Option<SongView>) -> SongMetaView {
    match song {
        Some(s) => SongMetaView {
            title: s.title,
            artist: or_empty(s.artist),
            album: or_empty(s.album),
            duration_ms: or_nought(s.duration) as int * 1000,
            cover_id: cover_of(track_id, song),
        },
        None => SongMetaView {
            title: Seq::empty(),
            artist: Seq::empty(),
            album: Seq::empty(),
            duration_ms: 0,
            cover_id: track_id,
        },
    }
}

pub fn cover_id(track_id: &str, song: &Option<SubsonicSong>) -> (r: String)
    ensures
        r@ == cover_of(track_id@, view_opt(*song)),
{
    match song {
        Some(s) => match &s.cover_art {
            Some(c) => c.clone(),
            None => track_id.to_string(),
        },
        None => track_id.to_string(),
    }
}

/// What is known of a track. The length of a song in milliseconds has to be a
/// `u32`.
pub fn song_meta(track_id: &str, song: &Option<SubsonicSong>) -> (r: SongMeta)
    requires
        meta_of(track_id@, view_opt(*song)).duration_ms <= u32::MAX,
    ensures
        r@ == meta_of(track_id@, view_opt(*song)),
{
    let cover_id = cover_id(track_id, song);
    match song {
        Some(s) => {
            let seconds: u32 = match s.duration {
                Some(d) => d,
                None => 0,
            };
            SongMeta {
                title: s.display_title(),
                artist: text_or_empty(&s.artist),
                album: text_or_empty(&s.album),
                duration_ms: seconds * 1000,
                cover_id,
            }
        },
        None => SongMeta {
            title: String::new(),
            artist: String::new(),
            album: String::new(),
            duration_ms: 0,
            cover_id,
        },
    }
}

// ---------------------------------------------------------------------------
// Covers
// ---------------------------------------------------------------------------

/// What `image::load_from_memory` says of some bytes: that they are a picture in
/// one of the formats it reads.
pub uninterp spec fn is_picture(bytes: Seq<u8>) -> bool;

/// Whether bytes are a picture: whether `image::load_from_memory` guesses a format
/// and decodes them without an error. The contract claims only that the same bytes
/// always give the same answer; this holds while no decoder is added to those that
/// `image` brings, and the player adds none.
#[verifier::external_body]
fn reads_as_picture(bytes: &[u8]) -> (r: bool)
    ensures
        r == is_picture(bytes@),
{
    image::load_from_memory(bytes).is_ok()
}

/// A reply holds a cover: the request succeeded, and what came is a picture.
pub open spec fn holds_cover(reply: BytesReply) -> bool {
    match cover_meaning(reply) {
        Ok(b) => is_picture(b@),
        Err(_) => false,
    }
}

/// Whether there is a cover in a reply.
pub fn has_cover(reply: BytesReply) -> (r: bool)
    ensures
        r == holds_cover(reply),
{
    match SubsonicClient::get_cover_art(reply) {
        Ok(bytes) => reads_as_picture(bytes.as_slice()),
        Err(_) => false,
    }
}

/// What is known of a track that starts to play, its cover included. Colours are
/// taken only from a cover.
pub open spec fn track_meta_of(
    track_id: Seq<char>,
    song: Option<SongView>,
    has_image: bool,
    theme: Option<Theme>,
) -> TrackMetaView {
    let m = meta_of(track_id, song);
    TrackMetaView {
        uri: TRACK@ + track_id,
        title: m.title,
        artist: m.artist,
        album: m.album,
        duration_ms: m.duration_ms as u32,
        image: has_image,
        theme: if has_image {
            theme
        } else {
            None
        },
    }
}

/// What is known of a track, from what the server says of its song and from whether
/// it has a cover; `theme` are the colours of the cover.
pub fn track_meta(
    track_id: &str,
    song: &Option<SubsonicSong>,
    has_image: bool,
    theme: Option<Theme>,
) -> (r: TrackMeta)
    requires
        meta_of(track_id@, view_opt(*song)).duration_ms <= u32::MAX,
    ensures
        r@ == track_meta_of(track_id@, view_opt(*song), has_image, theme),
{
    let m = song_meta(track_id, song);
    TrackMeta {
        uri: join2(TRACK, track_id),
        title: m.title,
        artist: m.artist,
        album: m.album,
        duration_ms: m.duration_ms,
        image: has_image,
        theme: if has_image {
            theme
        } else {
            None
        },
    }
}

/// What is known of a track, from what the server says of its song and from its
/// reply to the request for the cover.
pub fn track_meta_from(
    track_id: &str,
    song: &Option<SubsonicSong>,
    cover: BytesReply,
    theme: Option<Theme>,
) -> (r: TrackMeta)
    requires
        meta_of(track_id@, view_opt(*song)).duration_ms <= u32::MAX,
    ensures
        r@ == track_meta_of(track_id@, view_opt(*song), holds_cover(cover), theme),
{
    track_meta(track_id, song, has_cover(cover), theme)
}

// ---------------------------------------------------------------------------
// Lyrics
// ---------------------------------------------------------------------------

/// `serde_json::from_slice` on a document, then `Value` indexed by a name and
/// `Value::as_str`: the string that the document holds under that name. `None`
/// where the bytes are no JSON document, where the document is no object or does
/// not hold the name, and where what it holds there is no string.
pub uninterp spec fn json_string(bytes: Seq<u8>, name: Seq<char>) -> Option<Seq<char>>;

/// The string that a JSON document holds under a name. What it is is told by
/// `serde_json`: the text is parsed with `from_slice`, the value is indexed by the
/// name, and read with `as_str`. The contract claims only that the same document
/// and the same name always give the same answer.
#[verifier::external_body]
fn read_json_string(bytes: &[u8], name: &str) -> (r: Option<String>)
    ensures
        view_opt(r) == json_string(bytes@, name@),
{
    let value: serde_json::Value = serde_json::from_slice(bytes).ok()?;
    value[name].as_str().map(|s| s.to_string())
}

/// The request for the lyrics of a track.
pub open spec fn lyrics_request(
    artist: Seq<char>,
    title: Seq<char>,
    album: Seq<char>,
    duration_ms: u32,
) -> Seq<char> {
    "https://lrclib.net/api/get?artist_name="@ + url_encoded(artist) + "&track_name="@ + url_encoded(
        title,
    ) + "&album_name="@ + url_encoded(album) + "&duration="@ + decimal((duration_ms / 1000) as nat)
}

pub fn lyrics_url(artist: &str, title: &str, album: &str, duration_ms: u32) -> (r: String)
    ensures
        r@ == lyrics_request(artist@, title@, album@, duration_ms),
{
    let mut url = "https://lrclib.net/api/get?artist_name=".to_string();
    url.append(urlencode(artist).as_str());
    url.append("&track_name=");
    url.append(urlencode(title).as_str());
    url.append("&album_name=");
    url.append(urlencode(album).as_str());
    url.append("&duration=");
    url.append(decimal_string((duration_ms / 1000) as u64).as_str());
    url
}

/// Lines without a time.
pub open spec fn plain_lines(s: Seq<char>) -> Seq<(u32, Seq<char>)> {
    lines(s).map_values(|l: Seq<char>| (0u32, l))
}

/// A text that is there and is not empty.
pub open spec fn is_given(s: Option<Seq<char>>) -> bool {
    s is Some && s->0.len() > 0
}

/// The lyrics of a track, and whether they are timed: the timed text where there
/// is one, else the plain one.
pub open spec fn lyrics_of(synced: Option<Seq<char>>, plain: Option<Seq<char>>) -> (
    Seq<(u32, Seq<char>)>,
    bool,
) {
    if is_given(synced) {
        (timed_lines(synced->0), true)
    } else if is_given(plain) {
        (plain_lines(plain->0), false)
    } else {
        (Seq::empty(), false)
    }
}

fn unstamped_lines(s: &str) -> (r: Vec<(u32, String)>)
    ensures
        view_entries(r@) == plain_lines(s@),
{
    let split = split_lines(s);
    let mut out: Vec<(u32, String)> = Vec::new();
    let mut i: usize = 0;
    while i < split.len()
        invariant
            i <= split@.len(),
            views(split@) == lines(s@),
            view_entries(out@) == plain_lines(s@).take(i as int),
        decreases split@.len() - i,
    {
        let line = string_of(&split[i], 0, split[i].len());
        let ghost before = out@;
        out.push((0, line));
        proof {
            assert(lines(s@)[i as int] == split@[i as int]@);
            assert(split@[i as int]@.subrange(0, split@[i as int]@.len() as int)
                =~= split@[i as int]@);
            assert(view_entries(out@) =~= view_entries(before).push((0u32, line@)));
            assert(plain_lines(s@).take(i + 1) =~= plain_lines(s@).take(i as int).push(
                (0u32, line@),
            ));
        }
        i += 1;
    }
    assert(plain_lines(s@).take(i as int) =~= plain_lines(s@));
    out
}

/// The lyrics that two texts give, and whether they are timed. The timed text has
/// to be one whose times can be computed.
pub fn choose_lyrics(synced: Option<String>, plain: Option<String>) -> (r: (
    Vec<(u32, String)>,
    bool,
))
    requires
        is_given(view_opt(synced)) ==> lrc_readable(synced->0@),
    ensures
        (view_entries(r.0@), r.1) == lyrics_of(view_opt(synced), view_opt(plain)),
{
    if let Some(text) = synced {
        if !text.as_str().is_empty() {
            return (parse_lrc(text.as_str()), true);
        }
    }
    if let Some(text) = plain {
        if !text.as_str().is_empty() {
            return (unstamped_lines(text.as_str()), false);
        }
    }
    let none: Vec<(u32, String)> = Vec::new();
    assert(view_entries(none@) =~= Seq::empty());
    (none, false)
}

/// The document that a reply brought.
pub open spec fn document(reply: BytesReply) -> Option<Seq<u8>> {
    match reply {
        BytesReply::Response { status, body: Ok(bytes) } => if is_success(status) {
            Some(bytes@)
        } else {
            None
        },
        _ => None,
    }
}

/// The lyrics in a reply of the lyrics service, and whether they are timed. There
/// are none where the request failed. `None` where the times of a timed text are
/// too large to be computed.
pub fn fetch_lyrics_blocking(reply: BytesReply) -> (r: Option<(Vec<(u32, String)>, bool)>)
    ensures
        match document(reply) {
            Some(bytes) => {
                let synced = json_string(bytes, "syncedLyrics"@);
                let plain = json_string(bytes, "plainLyrics"@);
                &&& r is Some <==> (is_given(synced) ==> lrc_readable(synced->0))
                &&& r matches Some(l) ==> (view_entries(l.0@), l.1) == lyrics_of(synced, plain)
            },
            None => r matches Some(l) && l.0@.len() == 0 && !l.1,
        },
{
    match reply {
        BytesReply::Response { status, body: Ok(bytes) } => {
            if status < 200 || status >= 300 {
                return Some((Vec::new(), false));
            }
            let synced = read_json_string(bytes.as_slice(), "syncedLyrics");
            let plain = read_json_string(bytes.as_slice(), "plainLyrics");
            if let Some(text) = &synced {
                if !text.as_str().is_empty() && !lrc_text_readable(text.as_str()) {
                    return None;
                }
            }
            Some(choose_lyrics(synced, plain))
        },
        _ => Some((Vec::new(), false)),
    }
}

// ---------------------------------------------------------------------------
// What is made of answers
// ---------------------------------------------------------------------------

/// Letters, digits and `-_.~` are written in a URL as they are, every other byte as
/// a percent sign and its two hexadecimal digits, high digit first; texts one behind
/// the other are written one behind the other.
pub proof fn law_bytes_in_a_url(bytes: Seq<u8>, b: u8, high: nat, low: nat)
    requires
        b == 16 * high + low,
        low < 16,
    ensures
        percent_encoded(Seq::<u8>::empty()).len() == 0,
        ('a' as u8 <= b <= 'z' as u8) || ('A' as u8 <= b <= 'Z' as u8) || ('0' as u8 <= b
            <= '9' as u8) || b == '-' as u8 || b == '_' as u8 || b == '.' as u8 || b == '~' as u8
            ==> percent_encoded(bytes.push(b)) == percent_encoded(bytes).push(b as char),
        !(('a' as u8 <= b <= 'z' as u8) || ('A' as u8 <= b <= 'Z' as u8) || ('0' as u8 <= b
            <= '9' as u8) || b == '-' as u8 || b == '_' as u8 || b == '.' as u8 || b == '~' as u8)
            ==> percent_encoded(bytes.push(b)) == percent_encoded(bytes) + seq![
            '%',
            "0123456789ABCDEF"@[high as int],
            "0123456789ABCDEF"@[low as int],
        ],
{
    assert(bytes.push(b).drop_last() =~= bytes);
    assert(b as int / 16 == high);
    assert(b as int % 16 == low);
    reveal_strlit("0123456789ABCDEF");
    let digits = "0123456789ABCDEF"@;
    assert(hex_digit(high as int) == digits[high as int]);
    assert(hex_digit(low as int) == digits[low as int]);
    assert(percent_encoded(bytes) + seq![b as char] =~= percent_encoded(bytes).push(b as char));
}

/// Every song, playlist, album and artist has a row, in the order they came in: with
/// its name, with its artist or how much it holds, and with the URI of its ID; a
/// song's row is a track, and none of the rows is a heading or a play row.
pub proof fn law_rows_say_what_came(
    songs: Seq<SubsonicSong>,
    playlists: Seq<SubsonicPlaylist>,
    albums: Seq<SubsonicAlbum>,
    artists: Seq<SubsonicArtist>,
    k: int,
)
    ensures
        song_rows(songs).len() == songs.len(),
        playlist_rows(playlists).len() == playlists.len(),
        album_rows(albums).len() == albums.len(),
        artist_rows(artists).len() == artists.len(),
        0 <= k < songs.len() ==> ({
            let r = song_rows(songs)[k];
            let x = songs[k];
            &&& r.name == x.title@
            &&& r.subtitle == (match x.artist {
                Some(t) => t@,
                None => Seq::empty(),
            })
            &&& r.uri == "subsonic:track:"@ + x.id@
            &&& r.is_track && !r.is_header && !r.is_play
        }),
        0 <= k < playlists.len() ==> ({
            let r = playlist_rows(playlists)[k];
            let x = playlists[k];
            &&& r.name == x.name@
            &&& r.subtitle == decimal(
                match x.song_count {
                    Some(n) => n as nat,
                    None => 0,
                },
            ) + " tracks"@
            &&& r.uri == "subsonic:playlist:"@ + x.id@
            &&& !r.is_track && !r.is_header && !r.is_play
        }),
        0 <= k < albums.len() ==> ({
            let r = album_rows(albums)[k];
            let x = albums[k];
            &&& r.name == x.name@
            &&& r.subtitle == (match x.artist {
                Some(t) => t@,
                None => Seq::empty(),
            })
            &&& r.uri == "subsonic:album:"@ + x.id@
            &&& !r.is_track && !r.is_header && !r.is_play
        }),
        0 <= k < artists.len() ==> ({
            let r = artist_rows(artists)[k];
            let x = artists[k];
            &&& r.name == x.name@
            &&& r.subtitle == decimal(
                match x.album_count {
                    Some(n) => n as nat,
                    None => 0,
                },
            ) + " albums"@
            &&& r.uri == "subsonic:artist:"@ + x.id@
            &&& !r.is_track && !r.is_header && !r.is_play
        }),
{
}

/// Which sections an answer fills: playlists, albums and artists their own, starred
/// songs the liked ones and home; none where the request failed.
pub proof fn law_answers_fill_sections(reply: LibraryReply)
    ensures
        reply matches LibraryReply::Playlists(r) ==> (meaning(r) matches Ok(d)
            ==> reply.sections() == Some(
            seq![(Section::Playlists, playlist_rows(playlists_in(d)))],
        )),
        reply matches LibraryReply::Starred(r) ==> (meaning(r) matches Ok(d) ==> reply.sections()
            == Some(
            seq![
                (Section::Home, song_rows(starred_in(d).0)),
                (Section::Liked, song_rows(starred_in(d).0)),
            ],
        )),
        reply matches LibraryReply::Albums(r) ==> (meaning(r) matches Ok(d) ==> reply.sections()
            == Some(seq![(Section::Albums, album_rows(album_list_in(d)))])),
        reply matches LibraryReply::Artists(r) ==> (meaning(r) matches Ok(d) ==> reply.sections()
            == Some(seq![(Section::Artists, artist_rows(artists_in(d)))])),
        reply matches LibraryReply::Playlists(r) ==> (meaning(r) is Err ==> reply.sections() is None),
        reply matches LibraryReply::Starred(r) ==> (meaning(r) is Err ==> reply.sections() is None),
        reply matches LibraryReply::Albums(r) ==> (meaning(r) is Err ==> reply.sections() is None),
        reply matches LibraryReply::Artists(r) ==> (meaning(r) is Err ==> reply.sections() is None),
{
}

/// What a search found: the heading for the songs and a row for each song, then the
/// albums and the artists in the same way; a kind of which nothing was found has no
/// heading. The rows are those of [`law_rows_say_what_came`] but for their places.
pub proof fn law_found_rows(reply: HttpReply<Search3Data>, d: Search3Data, k: int)
    requires
        meaning(reply) == Ok::<Search3Data, crate::subsonic::ClientError>(d),
    ensures
        ({
            let rows = search_rows(reply);
            let (songs, albums, artists) = found_in(d);
            let a = if songs.len() > 0 {
                songs.len() + 1
            } else {
                0
            };
            let b = a + if albums.len() > 0 {
                albums.len() + 1
            } else {
                0
            };
            &&& rows.len() == b + if artists.len() > 0 {
                artists.len() + 1
            } else {
                0
            }
            &&& songs.len() > 0 ==> rows[0].is_header && rows[0].name == "Songs"@
            &&& albums.len() > 0 ==> rows[a as int].is_header && rows[a as int].name == "Albums"@
            &&& artists.len() > 0 ==> rows[b as int].is_header && rows[b as int].name == "Artists"@
            &&& 0 <= k < songs.len() ==> rows[1 + k] == placed(song_rows(songs)[k], 1 + k)
            &&& 0 <= k < albums.len() ==> rows[a + 1 + k] == placed(
                album_rows(albums)[k],
                a + 1 + k,
            )
            &&& 0 <= k < artists.len() ==> rows[b + 1 + k] == placed(
                artist_rows(artists)[k],
                b + 1 + k,
            )
        }),
{
}

/// A search that failed found nothing.
pub proof fn law_failed_search_finds_nothing(reply: HttpReply<Search3Data>)
    requires
        meaning(reply) is Err,
    ensures
        search_rows(reply).len() == 0,
{
}

/// A URI leads to the playlist, album or artist whose ID stands behind its prefix,
/// and the URI of a track to none of these.
pub proof fn law_uris_lead_to_their_ids(id: Seq<char>)
    ensures
        target_of("subsonic:playlist:"@ + id) == DetailTargetView::Playlist(id),
        target_of("subsonic:album:"@ + id) == DetailTargetView::Album(id),
        target_of("subsonic:artist:"@ + id) == DetailTargetView::Artist(id),
        target_of("subsonic:track:"@ + id) == DetailTargetView::Unknown,
{
    reveal_strlit("subsonic:playlist:");
    reveal_strlit("subsonic:album:");
    reveal_strlit("subsonic:artist:");
    reveal_strlit("subsonic:track:");
    let p = "subsonic:playlist:"@;
    let l = "subsonic:album:"@;
    let r = "subsonic:artist:"@;
    let t = "subsonic:track:"@;
    assert((p + id).take(p.len() as int) =~= p);
    assert((p + id).skip(p.len() as int) =~= id);
    assert((l + id).take(l.len() as int) =~= l);
    assert((l + id).skip(l.len() as int) =~= id);
    assert((r + id).take(r.len() as int) =~= r);
    assert((r + id).skip(r.len() as int) =~= id);
    assert(p[9] == 'p' && l[9] == 'a' && r[9] == 'a' && t[9] == 't');
    assert(l[10] == 'l' && r[10] == 'r');
    if (l + id).len() >= p.len() {
        assert((l + id).take(p.len() as int)[9] == 'a');
    }
    if (r + id).len() >= p.len() {
        assert((r + id).take(p.len() as int)[9] == 'a');
    }
    if (r + id).len() >= l.len() {
        assert((r + id).take(l.len() as int)[10] == 'r');
    }
    if (t + id).len() >= p.len() {
        assert((t + id).take(p.len() as int)[9] == 't');
    }
    if (t + id).len() >= l.len() {
        assert((t + id).take(l.len() as int)[9] == 't');
    }
    if (t + id).len() >= r.len() {
        assert((t + id).take(r.len() as int)[9] == 't');
    }
}

/// A detail shows the tracks of a playlist or an album, or the albums of an artist;
/// nothing where they could not be had.
pub proof fn law_details_show_their_contents(reply: DetailReply)
    ensures
        reply matches DetailReply::Playlist(r) ==> (meaning(r) matches Ok(d) ==> detail_rows(reply)
            == song_rows(playlist_tracks_in(d))),
        reply matches DetailReply::Album(r) ==> (meaning(r) matches Ok(d) ==> detail_rows(reply)
            == song_rows(album_tracks_in(d))),
        reply matches DetailReply::Artist(Some(albums)) ==> detail_rows(reply) == album_rows(albums@),
        reply matches DetailReply::Playlist(r) ==> (meaning(r) is Err ==> detail_rows(reply).len()
            == 0),
        reply matches DetailReply::Album(r) ==> (meaning(r) is Err ==> detail_rows(reply).len() == 0),
        reply is Unknown ==> detail_rows(reply).len() == 0,
        reply matches DetailReply::Artist(None) ==> detail_rows(reply).len() == 0,
{
}

/// What a track is: what the server says of its song, its length in milliseconds;
/// nothing but its ID where the server does not say. Its cover is the one that the
/// song names, else its own.
pub proof fn law_what_a_track_is(track_id: Seq<char>, s: SongView)
    ensures
        meta_of(track_id, Some(s)).title == s.title,
        meta_of(track_id, Some(s)).artist == (match s.artist {
            Some(t) => t,
            None => Seq::empty(),
        }),
        meta_of(track_id, Some(s)).album == (match s.album {
            Some(t) => t,
            None => Seq::empty(),
        }),
        meta_of(track_id, Some(s)).duration_ms == (match s.duration {
            Some(d) => d * 1000,
            None => 0,
        }),
        meta_of(track_id, Some(s)).cover_id == cover_of(track_id, Some(s)),
        cover_of(track_id, Some(s)) == (match s.cover_art {
            Some(c) => c,
            None => track_id,
        }),
        cover_of(track_id, None) == track_id,
        meta_of(track_id, None) == (SongMetaView {
            title: Seq::empty(),
            artist: Seq::empty(),
            album: Seq::empty(),
            duration_ms: 0,
            cover_id: track_id,
        }),
{
}

/// Timed lyrics are shown where there are any, else plain ones, every line at nought,
/// else none.
pub proof fn law_timed_lyrics_come_first(timed: Seq<char>, plain: Seq<char>, i: int)
    requires
        timed.len() > 0,
        plain.len() > 0,
    ensures
        lyrics_of(Some(timed), Some(plain)) == (timed_lines(timed), true),
        lyrics_of(Some(timed), None) == (timed_lines(timed), true),
        !lyrics_of(None, Some(plain)).1,
        lyrics_of(Some(Seq::<char>::empty()), Some(plain)) == lyrics_of(None, Some(plain)),
        lyrics_of(None, Some(plain)).0.len() == lines(plain).len(),
        0 <= i < lines(plain).len() ==> lyrics_of(None, Some(plain)).0[i] == (
            0u32,
            lines(plain)[i],
        ),
        lyrics_of(None, None).0.len() == 0,
        !lyrics_of(None, None).1,
{
}

/// Lyrics are asked for by artist, title and album, encoded, and by whole seconds.
pub proof fn law_lyrics_are_asked_for(
    artist: Seq<char>,
    title: Seq<char>,
    album: Seq<char>,
    seconds: u32,
    rest: u32,
)
    requires
        seconds * 1000 + rest <= u32::MAX,
        rest < 1000,
    ensures
        lyrics_request(artist, title, album, (seconds * 1000 + rest) as u32)
            == "https://lrclib.net/api/get?artist_name="@ + url_encoded(artist) + "&track_name="@
            + url_encoded(title) + "&album_name="@ + url_encoded(album) + "&duration="@ + decimal(
            seconds as nat,
        ),
{
    assert((seconds * 1000 + rest) as u32 / 1000 == seconds);
}

/// Lyrics are read from what a good reply brought, and from no other.
pub proof fn law_lyrics_come_in_good_replies(reply: BytesReply, bytes: Seq<u8>)
    ensures
        document(reply) == Some(bytes) <==> (reply matches BytesReply::Response {
            status,
            body: Ok(b),
        } && 200 <= status <= 299 && b@ == bytes),
{
}

} // verus!
