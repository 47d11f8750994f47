//! What the player asks of the outside world.

use vstd::prelude::*;
use crate::config::{NavidromeConfig, NavidromeConfigView};
use crate::subsonic::SubsonicClient;
use crate::text::views;

verus! {

/// Something to be done outside. What comes of it is handed back to the player
/// where it matters.
#[derive(Debug)]
pub enum Effect {
    /// Play one track. The outcome goes to [`crate::app::App::track_started`].
    PlayTrack { id: String, uri: String, name: String, subtitle: String },
    /// Play tracks, from the first. A failure goes to
    /// [`crate::app::App::play_failed`].
    PlayTracks { uris: Vec<String>, shuffle: bool },
    /// Play a playlist, an album or an artist. A failure goes to
    /// [`crate::app::App::play_failed`].
    PlayContext { uri: String, shuffle: bool },
    Seek(u32),
    TogglePlay,
    Stop,
    SetVolume(u8),
    SetShuffle(bool),
    SetRepeat(bool),
    /// Ask the server for the library.
    FetchLibrary,
    Search(String),
    FetchDetail { uri: String, name: String },
    /// Like a track, then ask for the library again.
    Star(String),
    /// Take a like back, then ask for the library again.
    Unstar(String),
    AddToPlaylist { playlist_id: String, song_id: String },
    /// Try to log in. The outcome goes to [`crate::events::login_finished`].
    Login(NavidromeConfig),
    /// Read the stored configuration for [`crate::events::open_login`].
    LoadConfig,
    /// The outcome goes to [`crate::events::link_copied`].
    CopyLink(String),
    /// Find out what a track is, for [`crate::events::apply_meta`].
    FetchMeta(String),
    FetchLyrics { artist: String, title: String, album: String, duration_ms: u32 },
    /// Get the cover of a track that is only selected, for
    /// [`crate::events::cover_arrived`].
    FetchCover { uri: String, track_id: String },
    SaveConfig(NavidromeConfig),
    UseClient(SubsonicClient),
}

pub enum EffectView {
    PlayTrack { id: Seq<char>, uri: Seq<char>, name: Seq<char>, subtitle: Seq<char> },
    PlayTracks { uris: Seq<Seq<char>>, shuffle: bool },
    PlayContext { uri: Seq<char>, shuffle: bool },
    Seek(u32),
    TogglePlay,
    Stop,
    SetVolume(u8),
    SetShuffle(bool),
    SetRepeat(bool),
    FetchLibrary,
    Search(Seq<char>),
    FetchDetail { uri: Seq<char>, name: Seq<char> },
    Star(Seq<char>),
    Unstar(Seq<char>),
    AddToPlaylist { playlist_id: Seq<char>, song_id: Seq<char> },
    Login(NavidromeConfigView),
    LoadConfig,
    CopyLink(Seq<char>),
    FetchMeta(Seq<char>),
    FetchLyrics { artist: Seq<char>, title: Seq<char>, album: Seq<char>, duration_ms: u32 },
    FetchCover { uri: Seq<char>, track_id: Seq<char> },
    SaveConfig(NavidromeConfigView),
    UseClient(NavidromeConfigView),
}

impl View for Effect {
    type V = EffectView;

    open spec fn view(&self) -> EffectView {
        match self {
            Effect::PlayTrack { id, uri, name, subtitle } => EffectView::PlayTrack {
                id: id@,
                uri: uri@,
                name: name@,
                subtitle: subtitle@,
            },
            Effect::PlayTracks { uris, shuffle } => EffectView::PlayTracks {
                uris: views(uris@),
                shuffle: *shuffle,
            },
            Effect::PlayContext { uri, shuffle } => EffectView::PlayContext {
                uri: uri@,
                shuffle: *shuffle,
            },
            Effect::Seek(p) => EffectView::Seek(*p),
            Effect::TogglePlay => EffectView::TogglePlay,
            Effect::Stop => EffectView::Stop,
            Effect::SetVolume(v) => EffectView::SetVolume(*v),
            Effect::SetShuffle(on) => EffectView::SetShuffle(*on),
            Effect::SetRepeat(on) => EffectView::SetRepeat(*on),
            Effect::FetchLibrary => EffectView::FetchLibrary,
            Effect::Search(q) => EffectView::Search(q@),
            Effect::FetchDetail { uri, name } => EffectView::FetchDetail { uri: uri@, name: name@ },
            Effect::Star(id) => EffectView::Star(id@),
            Effect::Unstar(id) => EffectView::Unstar(id@),
            Effect::AddToPlaylist { playlist_id, song_id } => EffectView::AddToPlaylist {
                playlist_id: playlist_id@,
                song_id: song_id@,
            },
            Effect::Login(c) => EffectView::Login(c@),
            Effect::LoadConfig => EffectView::LoadConfig,
            Effect::CopyLink(uri) => EffectView::CopyLink(uri@),
            Effect::FetchMeta(id) => EffectView::FetchMeta(id@),
            Effect::FetchLyrics { artist, title, album, duration_ms } => EffectView::FetchLyrics {
                artist: artist@,
                title: title@,
                album: album@,
                duration_ms: *duration_ms,
            },
            Effect::FetchCover { uri, track_id } => EffectView::FetchCover {
                uri: uri@,
                track_id: track_id@,
            },
            Effect::SaveConfig(c) => EffectView::SaveConfig(c@),
            Effect::UseClient(c) => EffectView::UseClient(c@),
        }
    }
}

/// Nothing to be done.
pub fn none() -> (r: Vec<Effect>)
    ensures
        views(r@) == Seq::<EffectView>::empty(),
{
    let r: Vec<Effect> = Vec::new();
    assert(views(r@) =~= Seq::<EffectView>::empty());
    r
}

/// One thing to be done.
pub fn one(e: Effect) -> (r: Vec<Effect>)
    ensures
        views(r@) == seq![e@],
{
    let mut r: Vec<Effect> = Vec::new();
    r.push(e);
    assert(views(r@) =~= seq![e@]);
    r
}

/// One more thing to be done after the others.
pub fn and_also(v: &mut Vec<Effect>, e: Effect)
    ensures
        views(final(v)@) == views(old(v)@).push(e@),
{
    let ghost before = v@;
    v.push(e);
    assert(views(v@) =~= views(before).push(e@));
}

} // verus!
