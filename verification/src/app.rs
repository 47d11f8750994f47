//! Application state and navigation.
//!
//! Instants are nanoseconds on a clock that never goes back. What the engine or
//! the server has to do comes back as effects.

use vstd::prelude::*;
use crate::config::NavidromeConfigView;
use crate::effects::{none, one, Effect, EffectView};
use crate::finding::{first, lemma_first, lemma_first_is};
use crate::login_modal::{LoginModalState, LoginModalView};
use crate::lyrics::view_entries;
use crate::models::{
    ActionMenu, ActionMenuView, Activated, ActivatedView, Detail, DetailView, LibItem, LibItemView,
    Library, LibraryView, NowPlaying, NowPlayingView, PlaySource, PlaySourceView, RightView, Section,
    SortMode, FADE_MS,
};
use crate::subsonic::SubsonicClient;
use crate::text::{after_prefix, join2, join3, same, strip_prefix, view_opt, views};
use crate::theme::{Theme, ThemeFade};
use crate::ui::geometry::Rect;

verus! {

/// The URI of the row that plays all liked songs.
pub const LIKED_PLAY: &'static str = "myx:action:liked-play";

/// What the URI of a track begins with.
pub const TRACK: &'static str = "subsonic:track:";

pub struct App {
    pub displayed: Theme,
    pub target: Theme,
    pub fade: Option<ThemeFade>,
    pub now: Option<NowPlaying>,
    pub subsonic: Option<SubsonicClient>,
    pub login_modal: Option<LoginModalState>,
    pub status: String,
    pub library: Library,
    pub section: Section,
    pub selected: usize,
    pub shuffle: bool,
    pub repeat: bool,
    pub volume: u8,
    pub queue: Vec<String>,
    pub queue_uris: Vec<String>,
    pub input_mode: bool,
    pub query: String,
    pub searching: bool,
    pub search_results: Vec<LibItem>,
    pub lyrics: Vec<(u32, String)>,
    pub lyrics_synced: bool,
    pub view: RightView,
    pub details: Vec<Detail>,
    pub actions: Option<ActionMenu>,
    pub pending_meta: Option<String>,
    pub art_dirty: u8,
    pub playback_started: bool,
    pub source: PlaySource,
    pub source_name: String,
    pub sort: SortMode,
    pub bar_rect: Option<Rect>,
    pub scroll_rect: Option<Rect>,
    pub scroll_len: usize,
    pub vol_rect: Option<Rect>,
    pub last_ctrl_c: Option<u64>,
    pub tab_rects: Vec<(RightView, Rect)>,
    pub lib_rect: Option<Rect>,
    pub lib_offset: usize,
    pub last_click: Option<(u16, u64)>,
    /// The track whose cover was last asked for while nothing played.
    pub selected_cover_uri: Option<String>,
    /// The track whose cover there is to show while nothing plays.
    pub selected_cover: Option<String>,
    pub new_version: Option<String>,
}

#[verifier::ext_equal]
pub struct AppView {
    pub displayed: Theme,
    pub target: Theme,
    pub fade: Option<ThemeFade>,
    pub now: Option<NowPlayingView>,
    pub subsonic: Option<NavidromeConfigView>,
    pub login_modal: Option<LoginModalView>,
    pub status: Seq<char>,
    pub library: LibraryView,
    pub section: Section,
    pub selected: usize,
    pub shuffle: bool,
    pub repeat: bool,
    pub volume: u8,
    pub queue: Seq<Seq<char>>,
    pub queue_uris: Seq<Seq<char>>,
    pub input_mode: bool,
    pub query: Seq<char>,
    pub searching: bool,
    pub search_results: Seq<LibItemView>,
    pub lyrics: Seq<(u32, Seq<char>)>,
    pub lyrics_synced: bool,
    pub view: RightView,
    pub details: Seq<DetailView>,
    pub actions: Option<ActionMenuView>,
    pub pending_meta: Option<Seq<char>>,
    pub art_dirty: u8,
    pub playback_started: bool,
    pub source: PlaySourceView,
    pub source_name: Seq<char>,
    pub sort: SortMode,
    pub bar_rect: Option<Rect>,
    pub scroll_rect: Option<Rect>,
    pub scroll_len: usize,
    pub vol_rect: Option<Rect>,
    pub last_ctrl_c: Option<u64>,
    pub tab_rects: Seq<(RightView, Rect)>,
    pub lib_rect: Option<Rect>,
    pub lib_offset: usize,
    pub last_click: Option<(u16, u64)>,
    pub selected_cover_uri: Option<Seq<char>>,
    pub selected_cover: Option<Seq<char>>,
    pub new_version: Option<Seq<char>>,
}

impl View for App {
    type V = AppView;

    open spec fn view(&self) -> AppView {
        AppView {
            displayed: self.displayed,
            target: self.target,
            fade: self.fade,
            now: view_opt(self.now),
            subsonic: view_opt(self.subsonic),
            login_modal: view_opt(self.login_modal),
            status: self.status@,
            library: self.library@,
            section: self.section,
            selected: self.selected,
            shuffle: self.shuffle,
            repeat: self.repeat,
            volume: self.volume,
            queue: views(self.queue@),
            queue_uris: views(self.queue_uris@),
            input_mode: self.input_mode,
            query: self.query@,
            searching: self.searching,
            search_results: views(self.search_results@),
            lyrics: view_entries(self.lyrics@),
            lyrics_synced: self.lyrics_synced,
            view: self.view,
            details: views(self.details@),
            actions: view_opt(self.actions),
            pending_meta: view_opt(self.pending_meta),
            art_dirty: self.art_dirty,
            playback_started: self.playback_started,
            source: self.source@,
            source_name: self.source_name@,
            sort: self.sort,
            bar_rect: self.bar_rect,
            scroll_rect: self.scroll_rect,
            scroll_len: self.scroll_len,
            vol_rect: self.vol_rect,
            last_ctrl_c: self.last_ctrl_c,
            tab_rects: self.tab_rects@,
            lib_rect: self.lib_rect,
            lib_offset: self.lib_offset,
            last_click: self.last_click,
            selected_cover_uri: view_opt(self.selected_cover_uri),
            selected_cover: view_opt(self.selected_cover),
            new_version: view_opt(self.new_version),
        }
    }
}

// ---------------------------------------------------------------------------
// Rows
// ---------------------------------------------------------------------------

/// The row at a place can be selected.
pub open spec fn selectable(items: Seq<LibItemView>) -> spec_fn(int) -> bool {
    |i: int| !items[i].is_header
}

/// The row at a place has a URI.
pub open spec fn uri_at(items: Seq<LibItemView>, uri: Seq<char>) -> spec_fn(int) -> bool {
    |i: int| items[i].uri == uri
}

/// The first row that is no heading; the first of all where all are headings.
pub open spec fn first_row(items: Seq<LibItemView>) -> int {
    let k = first(items.len() as int, selectable(items));
    if k < items.len() {
        k
    } else {
        0
    }
}

/// The nearest row in a direction that is no heading.
pub open spec fn next_row(items: Seq<LibItemView>, i: int, dir: int) -> Option<int>
    decreases
            if dir > 0 {
                items.len() - i
            } else {
                i + 1
            },
{
    let j = i + dir;
    if j < 0 || j >= items.len() {
        None
    } else if !items[j].is_header {
        Some(j)
    } else if dir == 0 {
        None
    } else {
        next_row(items, j, dir)
    }
}

/// A place as a signed number of the same width.
pub open spec fn signed(i: usize) -> int {
    if i <= isize::MAX {
        i as int
    } else {
        i - usize::MAX - 1
    }
}

/// The row with a URI, if there is one: the first.
pub open spec fn item_with(items: Seq<LibItemView>, uri: Seq<char>) -> Option<LibItemView> {
    let k = first(items.len() as int, uri_at(items, uri));
    if k < items.len() {
        Some(items[k])
    } else {
        None
    }
}

/// A track that can be played, not a heading.
pub open spec fn is_track_row(i: LibItemView) -> bool {
    i.is_track && !i.is_header
}

/// The places of the tracks in a list, in order.
pub open spec fn track_places(items: Seq<LibItemView>) -> Seq<int>
    decreases items.len(),
{
    if items.len() == 0 {
        Seq::empty()
    } else {
        let front = track_places(items.drop_last());
        if is_track_row(items.last()) {
            front.push(items.len() - 1)
        } else {
            front
        }
    }
}

/// The track at a place among the tracks has a URI.
pub open spec fn track_is(items: Seq<LibItemView>, tracks: Seq<int>, uri: Seq<char>) -> spec_fn(
    int,
) -> bool {
    |k: int| items[tracks[k]].uri == uri
}

/// The track at a place among the tracks is at a row or below it.
pub open spec fn track_from(tracks: Seq<int>, row: int) -> spec_fn(int) -> bool {
    |k: int| tracks[k] >= row
}

/// The URIs of the tracks in a list, in order.
pub open spec fn track_uris(items: Seq<LibItemView>) -> Seq<Seq<char>>
    decreases items.len(),
{
    if items.len() == 0 {
        Seq::empty()
    } else {
        let front = track_uris(items.drop_last());
        if items.last().is_track {
            front.push(items.last().uri)
        } else {
            front
        }
    }
}

/// Which of `n` tracks follows the `i`th. When shuffling, one of the others,
/// picked by a number that comes from outside.
pub open spec fn place_after(i: int, n: int, shuffle: bool, nanos: int) -> int {
    if shuffle {
        (i + 1 + nanos % (if n - 1 > 1 {
            n - 1
        } else {
            1
        })) % n
    } else {
        (i + 1) % n
    }
}

/// Which of `n` tracks precedes the `i`th.
pub open spec fn place_before(i: int, n: int) -> int {
    if i > 0 {
        i - 1
    } else {
        n - 1
    }
}

/// What has to be done to play a row: something only for a track of the server.
pub open spec fn play_effects(item: LibItemView) -> Seq<EffectView> {
    match after_prefix(item.uri, TRACK@) {
        Some(id) => if item.is_track {
            seq![
                EffectView::PlayTrack {
                    id,
                    uri: item.uri,
                    name: item.name,
                    subtitle: item.subtitle,
                },
            ]
        } else {
            Seq::empty()
        },
        None => Seq::empty(),
    }
}

/// The track behind a queued URI, with what the current list knows of it.
pub open spec fn queued_item(items: Seq<LibItemView>, uri: Seq<char>) -> LibItemView {
    match item_with(items, uri) {
        Some(i) => LibItemView::track(i.name, i.subtitle, uri),
        None => LibItemView::track("Queued Track"@, Seq::empty(), uri),
    }
}

/// What a row leads to: its URI and its name, where it is neither a heading nor a
/// track.
pub open spec fn target_of_row(i: LibItemView) -> Option<(Seq<char>, Seq<char>)> {
    if !i.is_header && !i.is_track {
        Some((i.uri, i.name))
    } else {
        None
    }
}

/// Milliseconds since an instant, as far as they can be counted in 32 bits.
pub open spec fn elapsed_ms(at: u64, now: u64) -> int {
    if now >= at {
        ((now - at) / 1000000) % 0x1_0000_0000
    } else {
        0
    }
}

impl AppView {
    pub open spec fn fresh(
        theme: Theme,
        subsonic: Option<NavidromeConfigView>,
        login_modal: Option<LoginModalView>,
        volume: u8,
    ) -> AppView {
        AppView {
            displayed: theme,
            target: theme,
            fade: None,
            now: None,
            subsonic,
            login_modal,
            status: Seq::empty(),
            library: LibraryView::empty(),
            section: Section::Home,
            selected: 0,
            shuffle: false,
            repeat: false,
            volume,
            queue: Seq::empty(),
            queue_uris: Seq::empty(),
            input_mode: false,
            query: Seq::empty(),
            searching: false,
            search_results: Seq::empty(),
            lyrics: Seq::empty(),
            lyrics_synced: false,
            view: RightView::NowPlaying,
            details: Seq::empty(),
            actions: None,
            pending_meta: None,
            art_dirty: 0,
            playback_started: false,
            source: PlaySourceView::Nothing,
            source_name: Seq::empty(),
            sort: SortMode::Added,
            bar_rect: None,
            scroll_rect: None,
            scroll_len: 0,
            vol_rect: None,
            last_ctrl_c: None,
            tab_rects: Seq::empty(),
            lib_rect: None,
            lib_offset: 0,
            last_click: None,
            selected_cover_uri: None,
            selected_cover: None,
            new_version: None,
        }
    }

    /// The list that is shown: the innermost detail, else what a search found, else
    /// the section.
    pub open spec fn cur_items(self) -> Seq<LibItemView> {
        if self.details.len() > 0 {
            self.details.last().items
        } else if self.searching {
            self.search_results
        } else {
            self.library.get(self.section)
        }
    }

    /// The state with another list in place of the one that is shown.
    pub open spec fn with_cur_items(self, items: Seq<LibItemView>) -> AppView {
        if self.details.len() > 0 {
            AppView {
                details: self.details.drop_last().push(
                    DetailView { items, ..self.details.last() },
                ),
                ..self
            }
        } else if self.searching {
            AppView { search_results: items, ..self }
        } else {
            AppView { library: self.library.with(self.section, items), ..self }
        }
    }

    /// The selected row.
    pub open spec fn selected_item(self) -> Option<LibItemView> {
        if self.selected < self.cur_items().len() {
            Some(self.cur_items()[self.selected as int])
        } else {
            None
        }
    }

    pub open spec fn with_status(self, status: Seq<char>) -> AppView {
        AppView { status, ..self }
    }

    pub open spec fn faded_to(self, to: Theme, now: u64) -> AppView {
        AppView {
            fade: Some(
                ThemeFade { from: self.displayed, to, started: now, duration_ms: FADE_MS },
            ),
            target: to,
            ..self
        }
    }

    /// Where the track that plays would be by now, were it endless.
    pub open spec fn raw_position(self, now: u64) -> int {
        match self.now {
            Some(n) => n.position_ms + (if n.is_playing {
                elapsed_ms(n.position_at, now)
            } else {
                0
            }),
            None => 0,
        }
    }

    /// The position can be counted in 32 bits.
    pub open spec fn clock_ok(self, now: u64) -> bool {
        self.raw_position(now) <= u32::MAX
    }

    /// How far the track that plays has come: at most to its end.
    pub open spec fn position(self, now: u64) -> int {
        match self.now {
            Some(n) => if self.raw_position(now) < n.duration_ms {
                self.raw_position(now)
            } else {
                n.duration_ms as int
            },
            None => 0,
        }
    }

    pub open spec fn seek_to(self, position_ms: int, now: u64) -> (AppView, Seq<EffectView>) {
        match self.now {
            Some(n) => {
                let to = if position_ms < n.duration_ms {
                    position_ms as u32
                } else {
                    n.duration_ms
                };
                (
                    AppView {
                        now: Some(NowPlayingView { position_ms: to, position_at: now, ..n }),
                        ..self
                    },
                    seq![EffectView::Seek(to)],
                )
            },
            None => (self, Seq::empty()),
        }
    }

    pub open spec fn seek_by(self, delta_ms: int, now: u64) -> (AppView, Seq<EffectView>) {
        let to = self.position(now) + delta_ms;
        self.seek_to(
            if to > 0 {
                to % 0x1_0000_0000
            } else {
                0
            },
            now,
        )
    }

    pub open spec fn move_sel(self, dir: int) -> AppView {
        match next_row(self.cur_items(), signed(self.selected), dir) {
            Some(i) => AppView { selected: i as usize, ..self },
            None => self,
        }
    }

    pub open spec fn normalized(self) -> AppView {
        match self.selected_item() {
            Some(i) => if i.is_header {
                AppView { selected: first_row(self.cur_items()) as usize, ..self }
            } else {
                self
            },
            None => self,
        }
    }

    pub open spec fn at_first_row(self) -> AppView {
        AppView { selected: first_row(self.cur_items()) as usize, ..self }
    }

    pub open spec fn play_context_row(self, uri: Seq<char>, name: Seq<char>, shuffle: bool) -> (
        AppView,
        Seq<EffectView>,
    ) {
        (
            AppView {
                status: "starting "@ + name + "…"@,
                source: PlaySourceView::Context(uri),
                source_name: name,
                ..self
            },
            seq![EffectView::PlayContext { uri, shuffle }],
        )
    }

    /// Playing all liked songs; nothing where there are none.
    pub open spec fn play_liked(self) -> (AppView, Seq<EffectView>) {
        let uris = track_uris(self.library.liked);
        if uris.len() == 0 {
            (self, Seq::empty())
        } else {
            (
                AppView {
                    source: PlaySourceView::Liked,
                    source_name: "Liked Songs"@,
                    status: "starting Liked Songs…"@,
                    ..self
                },
                seq![EffectView::PlayTracks { uris, shuffle: self.shuffle }],
            )
        }
    }

    /// What a context row is played as: the detail that it stands in, else itself.
    pub open spec fn context_name(self, item: LibItemView) -> Seq<char> {
        if self.details.len() > 0 {
            self.details.last().title
        } else {
            item.name
        }
    }

    pub open spec fn activate(self) -> (AppView, Seq<EffectView>, ActivatedView) {
        match self.selected_item() {
            None => (self, Seq::empty(), ActivatedView::Nothing),
            Some(item) => if item.is_header {
                (self, Seq::empty(), ActivatedView::Nothing)
            } else if item.is_play {
                let (next, effects) = if item.uri == LIKED_PLAY@ {
                    self.play_liked()
                } else {
                    self.play_context_row(item.uri, self.context_name(item), self.shuffle)
                };
                (next, effects, ActivatedView::Nothing)
            } else if item.is_track {
                (self, play_effects(item), ActivatedView::Nothing)
            } else {
                (self, Seq::empty(), ActivatedView::Open(item.uri, item.name))
            },
        }
    }

    /// Which of the tracks is played next.
    pub open spec fn following_track(self, tracks: Seq<int>, nanos: int) -> int {
        let n = tracks.len() as int;
        let items = self.cur_items();
        let below = first(n, track_from(tracks, self.selected as int));
        let fallback = if below < n {
            below
        } else {
            0
        };
        match self.now {
            Some(playing) => {
                let cur = first(n, track_is(items, tracks, playing.uri));
                if cur < n {
                    place_after(cur, n, self.shuffle, nanos)
                } else {
                    fallback
                }
            },
            None => fallback,
        }
    }

    /// The state and what is to be done when the track at a place among the tracks
    /// is played.
    pub open spec fn play_track_at(self, tracks: Seq<int>, k: int) -> (AppView, Seq<EffectView>) {
        (
            AppView { selected: tracks[k] as usize, ..self },
            play_effects(self.cur_items()[tracks[k]]),
        )
    }

    /// On to the next track: the first of the queue, else the next of the list.
    pub open spec fn play_next(self, nanos: int) -> (AppView, Seq<EffectView>) {
        if self.queue_uris.len() > 0 {
            (
                AppView {
                    queue_uris: self.queue_uris.drop_first(),
                    queue: if self.queue.len() > 0 {
                        self.queue.drop_first()
                    } else {
                        self.queue
                    },
                    ..self
                },
                play_effects(queued_item(self.cur_items(), self.queue_uris[0])),
            )
        } else {
            let tracks = track_places(self.cur_items());
            if tracks.len() == 0 {
                (self, Seq::empty())
            } else {
                self.play_track_at(tracks, self.following_track(tracks, nanos))
            }
        }
    }

    /// Which of the tracks is played when going back.
    pub open spec fn preceding_track(self, tracks: Seq<int>) -> int {
        let n = tracks.len() as int;
        match self.now {
            Some(playing) => {
                let cur = first(n, track_is(self.cur_items(), tracks, playing.uri));
                if cur < n {
                    place_before(cur, n)
                } else {
                    0
                }
            },
            None => 0,
        }
    }

    /// Back: to the start of a track that has played for more than three seconds,
    /// else to the track before.
    pub open spec fn play_prev(self, now: u64) -> (AppView, Seq<EffectView>) {
        if self.position(now) > 3000 {
            self.seek_to(0, now)
        } else {
            let tracks = track_places(self.cur_items());
            if tracks.len() == 0 {
                (self, Seq::empty())
            } else {
                self.play_track_at(tracks, self.preceding_track(tracks))
            }
        }
    }

    /// What came of playing a track.
    pub open spec fn track_started(
        self,
        uri: Seq<char>,
        name: Seq<char>,
        subtitle: Seq<char>,
        outcome: Result<(), Seq<char>>,
        now: u64,
    ) -> AppView {
        match outcome {
            Ok(_) => AppView {
                now: Some(
                    NowPlayingView {
                        uri,
                        title: name,
                        artist: subtitle,
                        album: Seq::empty(),
                        duration_ms: 0,
                        position_ms: 0,
                        position_at: now,
                        is_playing: true,
                        cover: false,
                    },
                ),
                playback_started: true,
                status: "Playing "@ + name,
                ..self
            },
            Err(e) => self.with_status("Playback error: "@ + e),
        }
    }

    pub open spec fn play_selected_context(self, shuffle: bool) -> (AppView, Seq<EffectView>) {
        match self.selected_item() {
            Some(item) => match target_of_row(item) {
                Some((uri, name)) => self.play_context_row(uri, name, shuffle),
                None => (
                    self.with_status("not a playlist, album, or artist"@),
                    Seq::empty(),
                ),
            },
            None => (self, Seq::empty()),
        }
    }
}

// ---------------------------------------------------------------------------
// Facts about rows
// ---------------------------------------------------------------------------

/// The places of the tracks: in the list, in ascending order, each of a track, and
/// none left out.
pub proof fn law_track_places(items: Seq<LibItemView>)
    ensures
        forall|k: int|
            0 <= k < track_places(items).len() ==> 0 <= #[trigger] track_places(items)[k]
                < items.len() && is_track_row(items[track_places(items)[k]]),
        forall|j: int, k: int|
            0 <= j < k < track_places(items).len() ==> #[trigger] track_places(items)[j]
                < #[trigger] track_places(items)[k],
        forall|i: int|
            0 <= i < items.len() && is_track_row(#[trigger] items[i]) ==> track_places(
                items,
            ).contains(i),
    decreases items.len(),
{
    if items.len() > 0 {
        let front = items.drop_last();
        law_track_places(front);
        let p = track_places(front);
        let q = track_places(items);
        assert forall|i: int| 0 <= i < items.len() && is_track_row(#[trigger] items[i]) implies
            q.contains(i) by {
            if i < front.len() {
                assert(is_track_row(front[i]));
                let k = choose|k: int| 0 <= k < p.len() && p[k] == i;
                assert(q[k] == i);
            } else {
                assert(q[q.len() - 1] == i);
            }
        }
        assert forall|k: int| 0 <= k < q.len() implies 0 <= #[trigger] q[k] < items.len()
            && is_track_row(items[q[k]]) by {
            if k < p.len() {
                assert(q[k] == p[k]);
                assert(front[p[k]] == items[p[k]]);
            }
        }
        assert forall|j: int, k: int| 0 <= j < k < q.len() implies #[trigger] q[j]
            < #[trigger] q[k] by {
            assert(q[j] == p[j]);
            if k < p.len() {
                assert(q[k] == p[k]);
            }
        }
    }
}

proof fn lemma_next_row(items: Seq<LibItemView>, i: int, dir: int)
    ensures
        next_row(items, i, dir) matches Some(j) ==> 0 <= j < items.len() && !items[j].is_header,
    decreases
            if dir > 0 {
                items.len() - i
            } else {
                i + 1
            },
{
    let j = i + dir;
    if 0 <= j < items.len() && items[j].is_header && dir != 0 {
        lemma_next_row(items, j, dir);
    }
}

/// Moving the selection never lands on a heading and never leaves the list: it
/// goes to a row that can be selected, or stays.
pub proof fn law_moving_never_selects_a_heading(a: AppView, dir: int)
    requires
        a.cur_items().len() <= usize::MAX,
    ensures
        ({
            let b = a.move_sel(dir);
            ||| b == a
            ||| b.selected < a.cur_items().len() && !a.cur_items()[b.selected as int].is_header
        }),
        a.move_sel(dir).cur_items() == a.cur_items(),
{
    lemma_next_row(a.cur_items(), signed(a.selected), dir);
}

/// After a selection was normalized, it is not on a heading, unless there is
/// nothing else in the list.
pub proof fn law_normalized_selection(a: AppView)
    requires
        a.cur_items().len() <= usize::MAX,
    ensures
        a.normalized().selected_item() matches Some(i) ==> !i.is_header || forall|k: int|
            0 <= k < a.cur_items().len() ==> (#[trigger] a.cur_items()[k]).is_header,
        a.normalized().normalized() == a.normalized(),
{
    let items = a.cur_items();
    lemma_first_is(items.len() as int, selectable(items));
    let k = first(items.len() as int, selectable(items));
    assert(a.normalized().cur_items() == items);
    if k < items.len() {
        assert(selectable(items)(k));
    } else {
        assert forall|j: int| 0 <= j < items.len() implies (#[trigger] items[j]).is_header by {
            assert(!selectable(items)(j));
        }
    }
}

/// When shuffling among two tracks or more, the next track is another one.
pub proof fn law_shuffle_never_repeats(i: int, n: int, nanos: int)
    requires
        0 <= i < n,
        n >= 2,
    ensures
        0 <= place_after(i, n, true, nanos) < n,
        place_after(i, n, true, nanos) != i,
{
    lemma_place_after(i, n, true, nanos);
}

/// When not shuffling, going back undoes going on, and going on goes through all
/// tracks: the next of the last is the first.
pub proof fn law_previous_undoes_next(i: int, n: int, nanos: int)
    requires
        0 <= i < n,
    ensures
        place_before(place_after(i, n, false, nanos), n) == i,
        place_after(place_before(i, n), n, false, nanos) == i,
        i + 1 < n ==> place_after(i, n, false, nanos) == i + 1,
        place_after(n - 1, n, false, nanos) == 0,
{
    lemma_place_after(i, n, false, nanos);
    lemma_place_after(n - 1, n, false, nanos);
    lemma_place_after(place_before(i, n), n, false, nanos);
}

/// How a place after another is reached: by a step, around the end.
proof fn lemma_place_after(i: int, n: int, shuffle: bool, nanos: int)
    requires
        0 <= i < n,
    ensures
        ({
            let m = if n - 1 > 1 {
                n - 1
            } else {
                1
            };
            let step = if shuffle {
                1 + nanos % m
            } else {
                1
            };
            &&& 0 <= nanos % m < m
            &&& 0 < m <= n
            &&& 0 <= place_after(i, n, shuffle, nanos) < n
            &&& i + step < n ==> place_after(i, n, shuffle, nanos) == i + step
            &&& i + step >= n ==> place_after(i, n, shuffle, nanos) == i + step - n
        }),
{
    let m = if n - 1 > 1 {
        n - 1
    } else {
        1
    };
    vstd::arithmetic::div_mod::lemma_mod_bound(nanos, m);
    let step = if shuffle {
        1 + nanos % m
    } else {
        1
    };
    if i + step < n {
        vstd::arithmetic::div_mod::lemma_small_mod((i + step) as nat, n as nat);
    } else {
        vstd::arithmetic::div_mod::lemma_small_mod((i + step - n) as nat, n as nat);
        vstd::arithmetic::div_mod::lemma_mod_sub_multiples_vanish(i + step, n);
    }
}

/// The queue is played from its front, before the list, and nothing else of it
/// moves.
pub proof fn law_queue_is_played_from_the_front(a: AppView, nanos: int)
    requires
        a.queue_uris.len() > 0,
    ensures
        a.play_next(nanos).0.queue_uris == a.queue_uris.drop_first(),
        a.play_next(nanos).0.selected == a.selected,
        a.play_next(nanos).1 == play_effects(queued_item(a.cur_items(), a.queue_uris[0])),
        queued_item(a.cur_items(), a.queue_uris[0]).uri == a.queue_uris[0],
{
}

// ---------------------------------------------------------------------------
// Doing it
// ---------------------------------------------------------------------------

fn first_selectable_row(items: &[LibItem]) -> (r: usize)
    ensures
        r == first_row(views(items@)),
{
    let ghost rows = views(items@);
    let mut i: usize = 0;
    while i < items.len() && items[i].is_header
        invariant
            i <= items@.len(),
            rows == views(items@),
            forall|k: int| 0 <= k < i ==> !#[trigger] selectable(rows)(k),
        decreases items@.len() - i,
    {
        assert(rows[i as int] == items@[i as int]@);
        i += 1;
    }
    proof {
        if i < items@.len() {
            assert(rows[i as int] == items@[i as int]@);
        }
        lemma_first(i as int, rows.len() as int, selectable(rows));
    }
    if i < items.len() {
        i
    } else {
        0
    }
}

/// The first row with a URI; the number of rows where there is none.
pub fn find_uri(items: &[LibItem], uri: &str) -> (r: usize)
    ensures
        r == first(items@.len() as int, uri_at(views(items@), uri@)),
        r <= items@.len(),
{
    let ghost rows = views(items@);
    let mut i: usize = 0;
    while i < items.len() && !same(items[i].uri.as_str(), uri)
        invariant
            i <= items@.len(),
            rows == views(items@),
            forall|k: int| 0 <= k < i ==> !#[trigger] uri_at(rows, uri@)(k),
        decreases items@.len() - i,
    {
        assert(rows[i as int] == items@[i as int]@);
        i += 1;
    }
    proof {
        if i < items@.len() {
            assert(rows[i as int] == items@[i as int]@);
        }
        lemma_first(i as int, rows.len() as int, uri_at(rows, uri@));
    }
    i
}

/// Numbers as whole numbers.
pub open spec fn whole(v: Seq<usize>) -> Seq<int> {
    v.map_values(|x: usize| x as int)
}

fn collect_tracks(items: &[LibItem]) -> (r: Vec<usize>)
    ensures
        whole(r@) == track_places(views(items@)),
{
    let ghost rows = views(items@);
    let mut out: Vec<usize> = Vec::new();
    let mut i: usize = 0;
    assert(whole(out@) =~= track_places(rows.take(0)));
    while i < items.len()
        invariant
            i <= items@.len(),
            rows == views(items@),
            whole(out@) == track_places(rows.take(i as int)),
        decreases items@.len() - i,
    {
        let ghost before = out@;
        proof {
            assert(rows.take(i + 1).drop_last() =~= rows.take(i as int));
            assert(rows.take(i + 1).last() == items@[i as int]@);
        }
        if items[i].is_track && !items[i].is_header {
            out.push(i);
            assert(whole(out@) =~= whole(before).push(i as int));
        }
        i += 1;
    }
    assert(rows.take(i as int) =~= rows);
    out
}

fn collect_track_uris(items: &[LibItem]) -> (r: Vec<String>)
    ensures
        views(r@) == track_uris(views(items@)),
{
    let ghost rows = views(items@);
    let mut out: Vec<String> = Vec::new();
    let mut i: usize = 0;
    assert(views(out@) =~= track_uris(rows.take(0)));
    while i < items.len()
        invariant
            i <= items@.len(),
            rows == views(items@),
            views(out@) == track_uris(rows.take(i as int)),
        decreases items@.len() - i,
    {
        let ghost before = out@;
        proof {
            assert(rows.take(i + 1).drop_last() =~= rows.take(i as int));
            assert(rows.take(i + 1).last() == items@[i as int]@);
        }
        if items[i].is_track {
            let uri = items[i].uri.clone();
            out.push(uri);
            assert(views(out@) =~= views(before).push(uri@));
        }
        i += 1;
    }
    assert(rows.take(i as int) =~= rows);
    out
}

/// The track among the tracks that has a URI; their number where none has.
fn find_track(items: &[LibItem], tracks: &Vec<usize>, uri: &str) -> (r: usize)
    requires
        forall|k: int| 0 <= k < tracks@.len() ==> (#[trigger] tracks@[k]) < items@.len(),
    ensures
        r == first(tracks@.len() as int, track_is(views(items@), whole(tracks@), uri@)),
        r <= tracks@.len(),
{
    let ghost rows = views(items@);
    let ghost places = whole(tracks@);
    let mut k: usize = 0;
    while k < tracks.len() && !same(items[tracks[k]].uri.as_str(), uri)
        invariant
            k <= tracks@.len(),
            rows == views(items@),
            places == whole(tracks@),
            forall|j: int| 0 <= j < tracks@.len() ==> (#[trigger] tracks@[j]) < items@.len(),
            forall|j: int| 0 <= j < k ==> !#[trigger] track_is(rows, places, uri@)(j),
        decreases tracks@.len() - k,
    {
        assert(rows[places[k as int]] == items@[tracks@[k as int] as int]@);
        k += 1;
    }
    proof {
        if k < tracks@.len() {
            assert(rows[places[k as int]] == items@[tracks@[k as int] as int]@);
        }
        lemma_first(k as int, places.len() as int, track_is(rows, places, uri@));
    }
    k
}

/// The first track among the tracks at a row or below it; their number where there
/// is none.
fn find_track_from(tracks: &Vec<usize>, row: usize) -> (r: usize)
    ensures
        r == first(tracks@.len() as int, track_from(whole(tracks@), row as int)),
        r <= tracks@.len(),
{
    let ghost places = whole(tracks@);
    let mut k: usize = 0;
    while k < tracks.len() && tracks[k] < row
        invariant
            k <= tracks@.len(),
            places == whole(tracks@),
            forall|j: int| 0 <= j < k ==> !#[trigger] track_from(places, row as int)(j),
        decreases tracks@.len() - k,
    {
        assert(places[k as int] == tracks@[k as int]);
        k += 1;
    }
    proof {
        if k < tracks@.len() {
            assert(places[k as int] == tracks@[k as int]);
        }
        lemma_first(k as int, places.len() as int, track_from(places, row as int));
    }
    k
}

fn step_after(i: usize, n: usize, shuffle: bool, nanos: usize) -> (r: usize)
    requires
        i < n,
    ensures
        r == place_after(i as int, n as int, shuffle, nanos as int),
        r < n,
{
    let m: usize = if n - 1 > 1 {
        n - 1
    } else {
        1
    };
    let extra: usize = if shuffle {
        nanos % m
    } else {
        0
    };
    proof {
        lemma_place_after(i as int, n as int, shuffle, nanos as int);
    }
    // The step is `1 + extra`, and goes around the end.
    let left: usize = n - i - 1;
    if extra < left {
        i + 1 + extra
    } else {
        extra - left
    }
}

/// What has to be done to play a row.
pub fn play_item_effects(item: &LibItem) -> (r: Vec<Effect>)
    ensures
        views(r@) == play_effects(item@),
{
    match strip_prefix(item.uri.as_str(), TRACK) {
        Some(id) => if item.is_track {
            one(
                Effect::PlayTrack {
                    id,
                    uri: item.uri.clone(),
                    name: item.name.clone(),
                    subtitle: item.subtitle.clone(),
                },
            )
        } else {
            none()
        },
        None => none(),
    }
}

impl App {
    pub fn new(
        initial_theme: Theme,
        subsonic: Option<SubsonicClient>,
        login_modal: Option<LoginModalState>,
        volume: u8,
    ) -> (r: Self)
        ensures
            r@ == AppView::fresh(initial_theme, view_opt(subsonic), view_opt(login_modal), volume),
    {
        let r = App {
            displayed: initial_theme,
            target: initial_theme,
            fade: None,
            now: None,
            subsonic,
            login_modal,
            status: String::new(),
            library: Library::default(),
            section: Section::Home,
            selected: 0,
            shuffle: false,
            repeat: false,
            volume,
            queue: Vec::new(),
            queue_uris: Vec::new(),
            input_mode: false,
            query: String::new(),
            searching: false,
            search_results: Vec::new(),
            lyrics: Vec::new(),
            lyrics_synced: false,
            view: RightView::NowPlaying,
            details: Vec::new(),
            actions: None,
            pending_meta: None,
            art_dirty: 0,
            playback_started: false,
            source: PlaySource::Nothing,
            source_name: String::new(),
            sort: SortMode::Added,
            bar_rect: None,
            scroll_rect: None,
            scroll_len: 0,
            vol_rect: None,
            last_ctrl_c: None,
            tab_rects: Vec::new(),
            lib_rect: None,
            lib_offset: 0,
            last_click: None,
            selected_cover_uri: None,
            selected_cover: None,
            new_version: None,
        };
        assert(r@ =~= AppView::fresh(
            initial_theme,
            view_opt(subsonic),
            view_opt(login_modal),
            volume,
        ));
        r
    }

    pub fn start_fade(&mut self, to: Theme, now: u64)
        ensures
            final(self)@ == old(self)@.faded_to(to, now),
    {
        self.fade = Some(ThemeFade::new(self.displayed, to, now, FADE_MS));
        self.target = to;
    }

    pub fn cur_items(&self) -> (r: &[LibItem])
        ensures
            views(r@) == self@.cur_items(),
    {
        if self.details.len() > 0 {
            self.details[self.details.len() - 1].items.as_slice()
        } else if self.searching {
            self.search_results.as_slice()
        } else {
            self.library.items(self.section)
        }
    }

    pub fn cur_list_mut(&mut self) -> (r: &mut Vec<LibItem>)
        ensures
            views(r@) == old(self)@.cur_items(),
            final(self)@ == old(self)@.with_cur_items(views(final(r)@)),
    {
        if self.details.len() > 0 {
            let last: usize = self.details.len() - 1;
            &mut self.details[last].items
        } else if self.searching {
            &mut self.search_results
        } else {
            self.library.items_mut(self.section)
        }
    }

    /// The selected row.
    pub fn selected_item(&self) -> (r: Option<LibItem>)
        ensures
            view_opt(r) == self@.selected_item(),
    {
        let items = self.cur_items();
        if self.selected < items.len() {
            let item = items[self.selected].clone();
            assert(views(items@)[self.selected as int] == item@);
            Some(item)
        } else {
            None
        }
    }

    /// The position can be counted in 32 bits.
    pub fn position_countable(&self, now: u64) -> (r: bool)
        ensures
            r == self@.clock_ok(now),
    {
        match &self.now {
            Some(n) => {
                let elapsed: u64 = if n.is_playing {
                    elapsed_since(n.position_at, now)
                } else {
                    0
                };
                n.position_ms as u64 + elapsed <= u32::MAX as u64
            },
            None => true,
        }
    }

    pub fn position_ms(&self, now: u64) -> (r: u32)
        requires
            self@.clock_ok(now),
        ensures
            r == self@.position(now),
    {
        match &self.now {
            Some(n) => {
                let elapsed: u64 = if n.is_playing {
                    elapsed_since(n.position_at, now)
                } else {
                    0
                };
                let raw: u32 = n.position_ms + elapsed as u32;
                if raw < n.duration_ms {
                    raw
                } else {
                    n.duration_ms
                }
            },
            None => 0,
        }
    }

    pub fn seek_to(&mut self, position_ms: u32, now: u64) -> (r: Vec<Effect>)
        ensures
            (final(self)@, views(r@)) == old(self)@.seek_to(position_ms as int, now),
    {
        match &mut self.now {
            Some(n) => {
                let to: u32 = if position_ms < n.duration_ms {
                    position_ms
                } else {
                    n.duration_ms
                };
                n.position_ms = to;
                n.position_at = now;
                one(Effect::Seek(to))
            },
            None => none(),
        }
    }

    pub fn seek_by(&mut self, delta_ms: i64, now: u64) -> (r: Vec<Effect>)
        requires
            old(self)@.clock_ok(now),
            i64::MIN <= old(self)@.position(now) + delta_ms <= i64::MAX,
        ensures
            (final(self)@, views(r@)) == old(self)@.seek_by(delta_ms as int, now),
    {
        let cur: i64 = self.position_ms(now) as i64;
        let to: i64 = cur + delta_ms;
        let wrapped: u32 = if to > 0 {
            (to as u64 % 0x1_0000_0000) as u32
        } else {
            0
        };
        self.seek_to(wrapped, now)
    }

    pub fn first_selectable(&self) -> (r: usize)
        ensures
            r == first_row(self@.cur_items()),
    {
        first_selectable_row(self.cur_items())
    }

    /// Moves the selection by steps of `dir` to the next row that is no heading.
    pub fn move_sel(&mut self, dir: isize)
        requires
            dir == 0 ==> !(old(self)@.selected_item() matches Some(i) && i.is_header),
        ensures
            final(self)@ == old(self)@.move_sel(dir as int),
    {
        let items = self.cur_items();
        let n: i128 = items.len() as i128;
        let mut i: i128 = if self.selected <= isize::MAX as usize {
            self.selected as i128
        } else {
            self.selected as i128 - usize::MAX as i128 - 1
        };
        let ghost rows = self@.cur_items();
        let ghost start = i as int;
        assert(start == signed(self.selected));
        loop
            invariant
                rows == views(items@),
                rows == self@.cur_items(),
                n == rows.len(),
                n <= usize::MAX,
                *self == *old(self),
                isize::MIN <= dir <= isize::MAX,
                start == signed(self.selected),
                isize::MIN <= i <= usize::MAX,
                i == start || (0 <= i < n && rows[i as int].is_header && dir != 0),
                dir == 0 ==> !(old(self)@.selected_item() matches Some(item) && item.is_header),
                next_row(rows, start, dir as int) == next_row(rows, i as int, dir as int),
            decreases
                    if dir > 0 {
                        n - i
                    } else {
                        i + 1
                    },
        {
            i = i + dir as i128;
            if i < 0 || i >= n {
                return;
            }
            assert(rows[i as int] == items@[i as int]@);
            if !items[i as usize].is_header {
                self.selected = i as usize;
                return;
            }
        }
    }

    /// A selection on a heading goes to the first row that is none.
    pub fn normalize_selection(&mut self)
        ensures
            final(self)@ == old(self)@.normalized(),
    {
        if let Some(item) = self.selected_item() {
            if item.is_header {
                self.selected = self.first_selectable();
            }
        }
    }

    pub fn play_context_row(&mut self, uri: String, name: String, shuffle: bool) -> (r: Vec<Effect>)
        ensures
            (final(self)@, views(r@)) == old(self)@.play_context_row(uri@, name@, shuffle),
    {
        self.status = join3("starting ", name.as_str(), "…");
        self.source = PlaySource::Context(uri.clone());
        self.source_name = name;
        one(Effect::PlayContext { uri, shuffle })
    }

    /// Playing came to nothing.
    pub fn play_failed(&mut self, error: &str)
        ensures
            final(self)@ == old(self)@.with_status("couldn't play: "@ + error@),
    {
        self.status = join2("couldn't play: ", error);
    }

    /// What Enter does on the selected row.
    pub fn activate(&mut self) -> (r: (Vec<Effect>, Activated))
        ensures
            (final(self)@, views(r.0@), r.1@) == old(self)@.activate(),
    {
        let item = match self.selected_item() {
            Some(item) => item,
            None => {
                return (none(), Activated::Nothing);
            },
        };
        if item.is_header {
            return (none(), Activated::Nothing);
        }
        if item.is_play {
            if same(item.uri.as_str(), LIKED_PLAY) {
                let uris = collect_track_uris(self.library.liked.as_slice());
                if uris.len() == 0 {
                    return (none(), Activated::Nothing);
                }
                self.source = PlaySource::Liked;
                self.source_name = "Liked Songs".to_string();
                self.status = "starting Liked Songs…".to_string();
                return (
                    one(Effect::PlayTracks { uris, shuffle: self.shuffle }),
                    Activated::Nothing,
                );
            }
            let name = if self.details.len() > 0 {
                self.details[self.details.len() - 1].title.clone()
            } else {
                item.name.clone()
            };
            let shuffle = self.shuffle;
            let effects = self.play_context_row(item.uri, name, shuffle);
            return (effects, Activated::Nothing);
        }
        if item.is_track {
            return (play_item_effects(&item), Activated::Nothing);
        }
        match context_target(&item) {
            Some((uri, name)) => (none(), Activated::Open(uri, name)),
            None => (none(), Activated::Nothing),
        }
    }

    /// What has to be done to play a row. What came of it goes to
    /// [`App::track_started`].
    pub fn play_item(&self, item: &LibItem) -> (r: Vec<Effect>)
        ensures
            views(r@) == play_effects(item@),
    {
        play_item_effects(item)
    }

    /// Takes note of what came of playing a track.
    pub fn track_started(
        &mut self,
        uri: String,
        name: String,
        subtitle: String,
        outcome: Result<(), String>,
        now: u64,
    )
        ensures
            final(self)@ == old(self)@.track_started(
                uri@,
                name@,
                subtitle@,
                match outcome {
                    Ok(_) => Ok(()),
                    Err(e) => Err(e@),
                },
                now,
            ),
    {
        match outcome {
            Ok(_) => {
                self.status = join2("Playing ", name.as_str());
                self.now = Some(
                    NowPlaying {
                        uri,
                        title: name,
                        artist: subtitle,
                        album: String::new(),
                        duration_ms: 0,
                        position_ms: 0,
                        position_at: now,
                        is_playing: true,
                        cover: false,
                    },
                );
                self.playback_started = true;
            },
            Err(e) => {
                self.status = join2("Playback error: ", e.as_str());
            },
        }
    }

    /// The first of the queue.
    fn play_queued(&mut self) -> (r: Vec<Effect>)
        requires
            old(self)@.queue_uris.len() > 0,
        ensures
            (final(self)@, views(r@)) == old(self)@.play_next(0),
    {
        let ghost before = *self;
        let uri = self.queue_uris.remove(0);
        if self.queue.len() > 0 {
            let _ = self.queue.remove(0);
        }
        proof {
            assert(views(self.queue_uris@) =~= before@.queue_uris.drop_first());
            if before.queue@.len() > 0 {
                assert(views(self.queue@) =~= before@.queue.drop_first());
            }
            assert(uri@ == before@.queue_uris[0]);
            assert(self@.cur_items() == before@.cur_items());
        }
        let items = self.cur_items();
        let k = find_uri(items, uri.as_str());
        let item = if k < items.len() {
            assert(views(items@)[k as int] == items@[k as int]@);
            LibItem::track(items[k].name.clone(), items[k].subtitle.clone(), uri)
        } else {
            LibItem::track("Queued Track".to_string(), String::new(), uri)
        };
        play_item_effects(&item)
    }

    /// The rows of the tracks in the list that is shown.
    fn tracks(&self) -> (r: Vec<usize>)
        ensures
            whole(r@) == track_places(self@.cur_items()),
            forall|k: int| 0 <= k < r@.len() ==> (#[trigger] r@[k]) < self@.cur_items().len(),
    {
        let items = self.cur_items();
        let tracks = collect_tracks(items);
        proof {
            law_track_places(self@.cur_items());
            assert forall|k: int| 0 <= k < tracks@.len() implies (#[trigger] tracks@[k])
                < items@.len() by {
                assert(whole(tracks@)[k] == tracks@[k]);
            }
        }
        tracks
    }

    /// Which of the tracks is playing; their number where none is.
    fn playing_track(&self, tracks: &Vec<usize>) -> (r: usize)
        requires
            forall|k: int| 0 <= k < tracks@.len() ==> (#[trigger] tracks@[k])
                < self@.cur_items().len(),
        ensures
            r <= tracks@.len(),
            r == (match self@.now {
                Some(playing) => first(
                    tracks@.len() as int,
                    track_is(self@.cur_items(), whole(tracks@), playing.uri),
                ),
                None => tracks@.len() as int,
            }),
    {
        match &self.now {
            Some(playing) => find_track(self.cur_items(), tracks, playing.uri.as_str()),
            None => tracks.len(),
        }
    }

    /// Plays the track at a place among the tracks.
    fn play_track(&mut self, tracks: &Vec<usize>, k: usize) -> (r: Vec<Effect>)
        requires
            k < tracks@.len(),
            tracks@[k as int] < old(self)@.cur_items().len(),
        ensures
            (final(self)@, views(r@)) == old(self)@.play_track_at(whole(tracks@), k as int),
    {
        let at: usize = tracks[k];
        let items = self.cur_items();
        let item = items[at].clone();
        assert(views(items@)[at as int] == item@);
        assert(whole(tracks@)[k as int] == at);
        self.selected = at;
        play_item_effects(&item)
    }

    /// On to the next track. `nanos` picks the track when shuffling.
    pub fn play_next(&mut self, nanos: usize) -> (r: Vec<Effect>)
        ensures
            (final(self)@, views(r@)) == old(self)@.play_next(nanos as int),
    {
        if self.queue_uris.len() > 0 {
            return self.play_queued();
        }
        let tracks = self.tracks();
        assert(whole(tracks@).len() == tracks@.len());
        if tracks.len() == 0 {
            return none();
        }
        let cur = self.playing_track(&tracks);
        let k: usize = if cur < tracks.len() {
            step_after(cur, tracks.len(), self.shuffle, nanos)
        } else {
            let below = find_track_from(&tracks, self.selected);
            if below < tracks.len() {
                below
            } else {
                0
            }
        };
        self.play_track(&tracks, k)
    }

    /// Back to the start of the track, or to the track before.
    pub fn play_prev(&mut self, now: u64) -> (r: Vec<Effect>)
        requires
            old(self)@.clock_ok(now),
        ensures
            (final(self)@, views(r@)) == old(self)@.play_prev(now),
    {
        if self.position_ms(now) > 3000 {
            return self.seek_to(0, now);
        }
        let tracks = self.tracks();
        assert(whole(tracks@).len() == tracks@.len());
        if tracks.len() == 0 {
            return none();
        }
        let cur = self.playing_track(&tracks);
        let k: usize = if cur < tracks.len() {
            if cur > 0 {
                cur - 1
            } else {
                tracks.len() - 1
            }
        } else {
            0
        };
        self.play_track(&tracks, k)
    }
}

fn elapsed_since(at: u64, now: u64) -> (r: u64)
    ensures
        r == elapsed_ms(at, now),
        r <= u32::MAX,
{
    if now >= at {
        ((now - at) / 1000000) % 0x1_0000_0000
    } else {
        0
    }
}

/// What a row leads to: its URI and its name.
pub fn context_target(item: &LibItem) -> (r: Option<(String, String)>)
    ensures
        match r {
            Some((uri, name)) => target_of_row(item@) == Some((uri@, name@)),
            None => target_of_row(item@) is None,
        },
{
    if !item.is_header && !item.is_track {
        Some((item.uri.clone(), item.name.clone()))
    } else {
        None
    }
}

/// What the footer says that Enter does.
pub fn enter_label(item: Option<&LibItem>) -> (r: &'static str)
    ensures
        r@ == (match item {
            Some(i) => if target_of_row(i@) is Some {
                "open"@
            } else {
                "select"@
            },
            None => "select"@,
        }),
{
    match item {
        Some(i) => if !i.is_track && !i.is_header {
            "open"
        } else {
            "select"
        },
        None => "select",
    }
}

/// Plays the playlist, album or artist that is selected.
pub fn play_selected_context(app: &mut App, shuffle: bool) -> (r: Vec<Effect>)
    ensures
        (final(app)@, views(r@)) == old(app)@.play_selected_context(shuffle),
{
    match app.selected_item() {
        Some(item) => match context_target(&item) {
            Some((uri, name)) => app.play_context_row(uri, name, shuffle),
            None => {
                app.status = "not a playlist, album, or artist".to_string();
                none()
            },
        },
        None => none(),
    }
}

} // verus!
