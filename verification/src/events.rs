//! Keyboard, mouse, and engine event processing.

use vstd::prelude::*;
use crate::app::{
    find_uri, item_with, play_selected_context, App, AppView, TRACK,
};
use crate::config::{config_of, NavidromeConfig, NavidromeConfigView};
use crate::effects::{and_also, none, one, Effect, EffectView};
use crate::engine::{EngineEvent, EngineEventView};
use crate::finding::{first, lemma_first};
use crate::input::{KeyCode, KeyEvent, MediaKey};
use crate::login_modal::{
    without_last, LoginModalAction, LoginModalActionView, LoginModalState, LoginModalView,
    DEFAULT_SERVER,
};
use crate::lyrics::view_entries;
use crate::models::{
    sort_list, sorted_list, ActionItem, ActionItemView, ActionKind, ActionKindView, ActionMenu,
    ActionMenuView, Activated, ActivatedView, Detail, DetailView, LastPlayed, LastPlayedView, LibItem,
    LibItemView, NowPlaying, NowPlayingView, RightView, SavedState, SavedStateView, Section,
    TrackMeta, TrackMetaView, ART_REPAINTS,
};
use crate::subsonic::{BytesReply, ClientError, SubsonicClient};
use crate::tasks::{has_cover, holds_cover};
use crate::text::{
    after_last, after_prefix, join2, join3, rest_after_last, same, strip_prefix, trim, trimmed,
    view_opt, views,
};
use crate::theme::{following_theme, next_theme, Theme};
use crate::ui::geometry::Rect;

verus! {

/// How soon a second Ctrl-C has to follow the first, in nanoseconds.
pub const CTRL_C_NANOS: u64 = 1_500_000_000;

/// How soon a second click has to follow the first, in nanoseconds.
pub const DOUBLE_CLICK_NANOS: u64 = 400_000_000;

/// How far an arrow seeks, in milliseconds.
pub const SEEK_STEP_MS: i64 = 5_000;

/// How much a key changes the volume.
pub const VOLUME_STEP: u8 = 5;

// ---------------------------------------------------------------------------
// What keys mean
// ---------------------------------------------------------------------------

/// An instant comes less than a span after another.
pub open spec fn soon_after(before: u64, now: u64, span: u64) -> bool {
    now < before || now - before < span
}

pub open spec fn is_ctrl_c(key: KeyEvent) -> bool {
    key.code == KeyCode::Char('c') && key.control
}

/// A first Ctrl-C arms, a second one soon after quits.
pub open spec fn ctrl_c_quits(a: AppView, now: u64) -> bool {
    match a.last_ctrl_c {
        Some(t) => soon_after(t, now, CTRL_C_NANOS),
        None => false,
    }
}

pub open spec fn armed(a: AppView, now: u64) -> AppView {
    AppView { last_ctrl_c: Some(now), status: "press Ctrl-C again to quit"@, ..a }
}

/// A key while the login form is open. Esc closes it only if there is a server to
/// go back to.
pub open spec fn login_key(a: AppView, modal: LoginModalView, key: KeyEvent) -> (
    AppView,
    Seq<EffectView>,
) {
    if key.code == KeyCode::Esc && a.subsonic is Some {
        (AppView { login_modal: None, ..a }, Seq::empty())
    } else {
        let (m, action) = modal.key(key.code);
        match action {
            LoginModalActionView::Submit(config) => (
                AppView {
                    login_modal: Some(
                        LoginModalView { is_connecting: true, error_message: None, ..m },
                    ),
                    ..a
                },
                seq![EffectView::Login(config)],
            ),
            LoginModalActionView::Nothing => (
                AppView { login_modal: Some(m), ..a },
                Seq::empty(),
            ),
        }
    }
}

/// A key while a search is being typed.
pub open spec fn search_key(a: AppView, code: KeyCode) -> (AppView, Seq<EffectView>) {
    match code {
        KeyCode::Esc => (AppView { input_mode: false, ..a }, Seq::empty()),
        KeyCode::Enter => {
            let q = trimmed(a.query);
            if q.len() == 0 {
                (AppView { input_mode: false, ..a }, Seq::empty())
            } else {
                (
                    AppView {
                        input_mode: false,
                        searching: true,
                        selected: 0,
                        status: "searching…"@,
                        ..a
                    },
                    seq![EffectView::Search(q)],
                )
            }
        },
        KeyCode::Backspace => (AppView { query: without_last(a.query), ..a }, Seq::empty()),
        KeyCode::Char(c) => (AppView { query: a.query.push(c), ..a }, Seq::empty()),
        _ => (a, Seq::empty()),
    }
}

/// The ID of a song: what follows the prefix of its URI, or all of it.
pub open spec fn song_id_of(uri: Seq<char>) -> Seq<char> {
    match after_prefix(uri, TRACK@) {
        Some(id) => id,
        None => uri,
    }
}

/// What a queued track is called: as in the current list, else by its URI.
pub open spec fn queue_label(a: AppView, uri: Seq<char>) -> Seq<char> {
    match item_with(a.cur_items(), uri) {
        Some(i) => i.name,
        None => uri,
    }
}

/// The entry that adds a track to a playlist.
pub open spec fn playlist_choice(track_uri: Seq<char>, p: LibItemView) -> ActionItemView {
    ActionItemView {
        label: p.name,
        kind: ActionKindView::AddToPlaylist { playlist_id: after_last(p.uri, ':'), track_uri },
    }
}

pub open spec fn playlist_choices(
    playlists: Seq<LibItemView>,
    track_uri: Seq<char>,
) -> Seq<ActionItemView> {
    Seq::new(playlists.len(), |i: int| playlist_choice(track_uri, playlists[i]))
}

pub open spec fn closed_menu(a: AppView) -> AppView {
    AppView { actions: None, ..a }
}

/// Something that needs a server: done with one, refused without.
pub open spec fn if_connected(a: AppView, status: Seq<char>, effect: EffectView) -> (
    AppView,
    Seq<EffectView>,
) {
    if a.subsonic is Some {
        (closed_menu(a).with_status(status), seq![effect])
    } else {
        (closed_menu(a).with_status("not connected"@), Seq::empty())
    }
}

/// What an entry of the action menu does.
pub open spec fn action(a: AppView, kind: ActionKindView) -> (AppView, Seq<EffectView>) {
    match kind {
        ActionKindView::AddToPlaylistMenu { track_uri } => {
            let items = playlist_choices(a.library.playlists, track_uri);
            if items.len() == 0 {
                (closed_menu(a).with_status("no playlists to add to"@), Seq::empty())
            } else {
                (
                    AppView {
                        actions: Some(
                            ActionMenuView { title: "Add to playlist"@, items, selected: 0 },
                        ),
                        ..a
                    },
                    Seq::empty(),
                )
            }
        },
        ActionKindView::Play { uri, name } => {
            let (b, effects) = a.play_context_row(uri, name, a.shuffle);
            (closed_menu(b), effects)
        },
        ActionKindView::Open { uri, name } => (
            closed_menu(a),
            seq![EffectView::FetchDetail { uri, name }],
        ),
        ActionKindView::CopyLink { uri } => (closed_menu(a), seq![EffectView::CopyLink(uri)]),
        ActionKindView::Queue { uri } => {
            let label = queue_label(a, uri);
            (
                AppView {
                    queue: a.queue.push(label),
                    queue_uris: a.queue_uris.push(uri),
                    status: "queued: "@ + label,
                    actions: None,
                    ..a
                },
                Seq::empty(),
            )
        },
        ActionKindView::PlayNext { uri } => {
            let label = queue_label(a, uri);
            (
                AppView {
                    queue: seq![label] + a.queue,
                    queue_uris: seq![uri] + a.queue_uris,
                    status: "queued next: "@ + label,
                    actions: None,
                    ..a
                },
                Seq::empty(),
            )
        },
        ActionKindView::AddToPlaylist { playlist_id, track_uri } => if_connected(
            a,
            "added track to playlist"@,
            EffectView::AddToPlaylist { playlist_id, song_id: song_id_of(track_uri) },
        ),
        ActionKindView::StarTrack { track_uri } => if_connected(
            a,
            "liked track"@,
            EffectView::Star(song_id_of(track_uri)),
        ),
        ActionKindView::UnstarTrack { track_uri } => if_connected(
            a,
            "unliked track"@,
            EffectView::Unstar(song_id_of(track_uri)),
        ),
        _ => (closed_menu(a), Seq::empty()),
    }
}

/// A key while the action menu is open.
pub open spec fn action_key(a: AppView, menu: ActionMenuView, code: KeyCode) -> (
    AppView,
    Seq<EffectView>,
) {
    match code {
        KeyCode::Esc | KeyCode::Char('a') => (closed_menu(a).with_status(Seq::empty()), Seq::empty()),
        KeyCode::Up | KeyCode::Char('k') => (
            AppView {
                actions: Some(
                    ActionMenuView {
                        selected: if menu.selected > 0 {
                            (menu.selected - 1) as usize
                        } else {
                            0
                        },
                        ..menu
                    },
                ),
                ..a
            },
            Seq::empty(),
        ),
        KeyCode::Down | KeyCode::Char('j') => (
            AppView {
                actions: Some(
                    ActionMenuView {
                        selected: if menu.selected + 1 < menu.items.len() {
                            (menu.selected + 1) as usize
                        } else if menu.items.len() > 0 {
                            (menu.items.len() - 1) as usize
                        } else {
                            0
                        },
                        ..menu
                    },
                ),
                ..a
            },
            Seq::empty(),
        ),
        KeyCode::Enter => if menu.selected < menu.items.len() {
            action(a, menu.items[menu.selected as int].kind)
        } else {
            (a, Seq::empty())
        },
        _ => (a, Seq::empty()),
    }
}

/// A row is among the liked songs.
pub open spec fn is_liked(a: AppView, uri: Seq<char>) -> bool {
    item_with(a.library.liked, uri) is Some
}

/// The entries of the menu for a row.
pub open spec fn menu_items(a: AppView, item: LibItemView) -> Seq<ActionItemView> {
    let play = ActionItemView {
        label: "Play "@ + item.name,
        kind: ActionKindView::Play { uri: item.uri, name: item.name },
    };
    let copy = ActionItemView {
        label: "Copy Link"@,
        kind: ActionKindView::CopyLink { uri: item.uri },
    };
    if item.is_track {
        seq![
            if is_liked(a, item.uri) {
                ActionItemView {
                    label: "Unlike track"@,
                    kind: ActionKindView::UnstarTrack { track_uri: item.uri },
                }
            } else {
                ActionItemView {
                    label: "Like track"@,
                    kind: ActionKindView::StarTrack { track_uri: item.uri },
                }
            },
            ActionItemView {
                label: "Add to queue"@,
                kind: ActionKindView::Queue { uri: item.uri },
            },
            ActionItemView {
                label: "Add to playlist..."@,
                kind: ActionKindView::AddToPlaylistMenu { track_uri: item.uri },
            },
            play,
            copy,
        ]
    } else {
        seq![
            ActionItemView {
                label: "Open "@ + item.name,
                kind: ActionKindView::Open { uri: item.uri, name: item.name },
            },
            play,
            copy,
        ]
    }
}

/// The state with the menu for the selected row open.
pub open spec fn menu_opened(a: AppView) -> AppView {
    match a.selected_item() {
        Some(item) => if item.is_header {
            a
        } else {
            AppView {
                actions: Some(
                    ActionMenuView { title: item.name, items: menu_items(a, item), selected: 0 },
                ),
                ..a
            }
        },
        None => a,
    }
}

/// Liking the selected track, or taking the like back. It needs a server.
pub open spec fn like(a: AppView) -> (AppView, Seq<EffectView>) {
    match a.selected_item() {
        Some(item) => match after_prefix(item.uri, TRACK@) {
            Some(id) => if item.is_track && a.subsonic is Some {
                if is_liked(a, item.uri) {
                    (
                        a.with_status("unliking "@ + item.name + "…"@),
                        seq![EffectView::Unstar(id)],
                    )
                } else {
                    (a.with_status("liking "@ + item.name + "…"@), seq![EffectView::Star(id)])
                }
            } else {
                (a, Seq::empty())
            },
            None => (a, Seq::empty()),
        },
        None => (a, Seq::empty()),
    }
}

pub open spec fn with_volume(a: AppView, volume: u8) -> (AppView, Seq<EffectView>) {
    (AppView { volume, ..a }, seq![EffectView::SetVolume(volume)])
}

/// Another section, from its first row on.
pub open spec fn section_shifted(a: AppView, delta: int) -> AppView {
    AppView {
        searching: false,
        section: Section::at((a.section.place() + delta) % 6),
        ..a
    }.at_first_row()
}

pub open spec fn view_shifted(a: AppView, delta: int) -> AppView {
    AppView { view: RightView::at((a.view.place() + delta) % 3), ..a }
}

/// The list in its next order, from its first row on.
pub open spec fn resorted(a: AppView) -> AppView {
    let mode = a.sort.following();
    AppView { sort: mode, ..a }.with_cur_items(
        sorted_list(a.cur_items(), mode),
    ).at_first_row().with_status("sorted by "@ + mode.name())
}

/// Out of the innermost detail, else out of the search.
pub open spec fn escaped(a: AppView) -> AppView {
    if a.details.len() > 0 {
        AppView {
            selected: a.details.last().parent_selected,
            details: a.details.drop_last(),
            ..a
        }
    } else if a.searching {
        AppView { searching: false, selected: 0, ..a }
    } else {
        a
    }
}

pub open spec fn entered(a: AppView) -> (AppView, Seq<EffectView>) {
    let (b, effects, what) = a.activate();
    match what {
        ActivatedView::Open(uri, name) => (b, effects.push(EffectView::FetchDetail { uri, name })),
        ActivatedView::Nothing => (b, effects),
    }
}

/// A key while nothing is open that captures the keyboard.
pub open spec fn main_key(
    a: AppView,
    key: KeyEvent,
    now: u64,
    nanos: int,
    themes: Seq<Theme>,
) -> (AppView, Seq<EffectView>) {
    match key.code {
        KeyCode::Char('/') => (
            AppView { input_mode: true, query: Seq::empty(), ..a },
            Seq::empty(),
        ),
        KeyCode::Char('L') => (a, seq![EffectView::LoadConfig]),
        KeyCode::Esc => (escaped(a), Seq::empty()),
        KeyCode::Char(' ') | KeyCode::Char('p') | KeyCode::Media(MediaKey::PlayPause) => (
            a,
            seq![EffectView::TogglePlay],
        ),
        KeyCode::Media(MediaKey::Stop) => (a, seq![EffectView::Stop]),
        KeyCode::Char('n') | KeyCode::Media(MediaKey::TrackNext) => a.play_next(nanos),
        KeyCode::Char('b') | KeyCode::Media(MediaKey::TrackPrevious) => a.play_prev(now),
        KeyCode::Char('+') | KeyCode::Char('=') | KeyCode::Media(MediaKey::RaiseVolume) =>
            with_volume(
            a,
            if a.volume + VOLUME_STEP < 100 {
                (a.volume + VOLUME_STEP) as u8
            } else {
                100
            },
        ),
        KeyCode::Char('-') | KeyCode::Char('_') | KeyCode::Media(MediaKey::LowerVolume) =>
            with_volume(
            a,
            if a.volume > VOLUME_STEP {
                (a.volume - VOLUME_STEP) as u8
            } else {
                0
            },
        ),
        KeyCode::Char('s') => (
            AppView { shuffle: !a.shuffle, ..a },
            seq![EffectView::SetShuffle(!a.shuffle)],
        ),
        KeyCode::Char('P') => a.play_selected_context(false),
        KeyCode::Char('S') => {
            let (b, effects) = (AppView { shuffle: true, ..a }).play_selected_context(true);
            (b, seq![EffectView::SetShuffle(true)] + effects)
        },
        KeyCode::Char('R') => (
            AppView { repeat: !a.repeat, ..a },
            seq![EffectView::SetRepeat(!a.repeat)],
        ),
        KeyCode::Char('r') => (
            a.with_status("loading library…"@),
            seq![EffectView::FetchLibrary],
        ),
        KeyCode::Char('o') => (resorted(a), Seq::empty()),
        KeyCode::Char('a') => (menu_opened(a), Seq::empty()),
        KeyCode::Char('l') => like(a),
        KeyCode::Char('t') => {
            let next = following_theme(themes, a.target.name@);
            (a.with_status("theme: "@ + next.name@).faded_to(next, now), Seq::empty())
        },
        KeyCode::Tab | KeyCode::Char(']') => (section_shifted(a, 1), Seq::empty()),
        KeyCode::Char('[') => (section_shifted(a, -1), Seq::empty()),
        KeyCode::BackTab => (view_shifted(a, 1), Seq::empty()),
        KeyCode::Right => if key.shift {
            a.seek_by(SEEK_STEP_MS as int, now)
        } else {
            (view_shifted(a, 1), Seq::empty())
        },
        KeyCode::Left => if key.shift {
            a.seek_by(-SEEK_STEP_MS, now)
        } else {
            (view_shifted(a, -1), Seq::empty())
        },
        KeyCode::Down | KeyCode::Char('j') => (a.move_sel(1), Seq::empty()),
        KeyCode::Up | KeyCode::Char('k') => (a.move_sel(-1), Seq::empty()),
        KeyCode::Enter => entered(a),
        _ => (a, Seq::empty()),
    }
}

/// What a key does, and whether the player quits: Ctrl-C works from anywhere; then
/// the login form, the action menu and the search line capture what is typed, in
/// this order.
pub open spec fn key_step(
    a: AppView,
    key: KeyEvent,
    now: u64,
    nanos: int,
    themes: Seq<Theme>,
) -> (AppView, Seq<EffectView>, bool) {
    if is_ctrl_c(key) {
        if ctrl_c_quits(a, now) {
            (a, Seq::empty(), true)
        } else {
            (armed(a, now), Seq::empty(), false)
        }
    } else if a.login_modal is Some {
        let (b, effects) = login_key(a, a.login_modal->0, key);
        (b, effects, false)
    } else if a.actions is Some {
        let (b, effects) = action_key(a, a.actions->0, key.code);
        (b, effects, false)
    } else if a.input_mode {
        let (b, effects) = search_key(a, key.code);
        (b, effects, false)
    } else if key.code == KeyCode::Char('q') {
        (a, Seq::empty(), true)
    } else {
        let (b, effects) = main_key(a, key, now, nanos, themes);
        (b, effects, false)
    }
}

/// Nothing captures the keyboard.
pub open spec fn is_browsing(a: AppView) -> bool {
    a.login_modal is None && a.actions is None && !a.input_mode
}

/// A key can be dealt with: the volume can be raised, the position of the track
/// can be counted, there is a theme to change to.
pub open spec fn key_safe(a: AppView, key: KeyEvent, now: u64, themes: Seq<Theme>) -> bool {
    is_browsing(a) && !is_ctrl_c(key) ==> match key.code {
        KeyCode::Char('b') | KeyCode::Media(MediaKey::TrackPrevious) => a.clock_ok(now),
        KeyCode::Left | KeyCode::Right => key.shift ==> a.clock_ok(now),
        KeyCode::Char('+') | KeyCode::Char('=') | KeyCode::Media(MediaKey::RaiseVolume) => a.volume
            + VOLUME_STEP <= u8::MAX,
        KeyCode::Char('t') => themes.len() > 0,
        _ => true,
    }
}

// ---------------------------------------------------------------------------
// Dealing with keys
// ---------------------------------------------------------------------------

fn is_soon_after(before: u64, now: u64, span: u64) -> (r: bool)
    ensures
        r == soon_after(before, now, span),
{
    now < before || now - before < span
}

/// A key can be dealt with.
pub fn key_acceptable(app: &App, key: KeyEvent, now: u64, themes: &[Theme]) -> (r: bool)
    ensures
        r == key_safe(app@, key, now, themes@),
{
    if app.login_modal.is_some() || app.actions.is_some() || app.input_mode {
        return true;
    }
    if key.code == KeyCode::Char('c') && key.control {
        return true;
    }
    match key.code {
        KeyCode::Char('b') | KeyCode::Media(MediaKey::TrackPrevious) => app.position_countable(now),
        KeyCode::Left | KeyCode::Right => !key.shift || app.position_countable(now),
        KeyCode::Char('+') | KeyCode::Char('=') | KeyCode::Media(MediaKey::RaiseVolume) => app.volume
            <= 250,
        KeyCode::Char('t') => themes.len() > 0,
        _ => true,
    }
}

/// What a key does. Says whether the player quits, and what is to be done.
/// `nanos` picks the next track when shuffling.
pub fn handle_key(app: &mut App, key: KeyEvent, now: u64, nanos: usize, themes: &[Theme]) -> (r: (
    bool,
    Vec<Effect>,
))
    requires
        key_safe(old(app)@, key, now, themes@),
    ensures
        (final(app)@, views(r.1@), r.0) == key_step(old(app)@, key, now, nanos as int, themes@),
{
    if key.code == KeyCode::Char('c') && key.control {
        if let Some(t) = app.last_ctrl_c {
            if is_soon_after(t, now, CTRL_C_NANOS) {
                return (true, none());
            }
        }
        app.last_ctrl_c = Some(now);
        app.status = "press Ctrl-C again to quit".to_string();
        return (false, none());
    }
    if app.login_modal.is_some() {
        return (false, handle_login_key(app, key));
    }
    if app.actions.is_some() {
        return (false, handle_action_key(app, key.code));
    }
    if app.input_mode {
        return (false, handle_search_key(app, key.code));
    }
    if key.code == KeyCode::Char('q') {
        return (true, none());
    }
    (false, handle_main_key(app, key, now, nanos, themes))
}

/// A key while the login form is open.
pub fn handle_login_key(app: &mut App, key: KeyEvent) -> (r: Vec<Effect>)
    requires
        old(app)@.login_modal is Some,
    ensures
        (final(app)@, views(r@)) == login_key(old(app)@, old(app)@.login_modal->0, key),
{
    if key.code == KeyCode::Esc && app.subsonic.is_some() {
        app.login_modal = None;
        return none();
    }
    match app.login_modal.take() {
        Some(modal) => {
            let mut modal = modal;
            match modal.handle_key_event(key) {
                LoginModalAction::Submit(config) => {
                    modal.is_connecting = true;
                    modal.error_message = None;
                    app.login_modal = Some(modal);
                    one(Effect::Login(config))
                },
                LoginModalAction::Nothing => {
                    app.login_modal = Some(modal);
                    none()
                },
            }
        },
        None => none(),
    }
}

/// A key while a search is being typed.
pub fn handle_search_key(app: &mut App, code: KeyCode) -> (r: Vec<Effect>)
    ensures
        (final(app)@, views(r@)) == search_key(old(app)@, code),
{
    match code {
        KeyCode::Esc => {
            app.input_mode = false;
        },
        KeyCode::Enter => {
            app.input_mode = false;
            let q = trim(app.query.as_str());
            if !q.as_str().is_empty() {
                app.searching = true;
                app.selected = 0;
                app.status = "searching…".to_string();
                return one(Effect::Search(q));
            }
        },
        KeyCode::Backspace => {
            let _ = app.query.pop();
        },
        KeyCode::Char(c) => {
            app.query.push(c);
        },
        _ => {},
    }
    none()
}

fn song_id(uri: &str) -> (r: String)
    ensures
        r@ == song_id_of(uri@),
{
    match strip_prefix(uri, TRACK) {
        Some(id) => id,
        None => uri.to_string(),
    }
}

fn label_for_queue(app: &App, uri: &str) -> (r: String)
    ensures
        r@ == queue_label(app@, uri@),
{
    let items = app.cur_items();
    let k = find_uri(items, uri);
    if k < items.len() {
        assert(views(items@)[k as int] == items@[k as int]@);
        items[k].name.clone()
    } else {
        uri.to_string()
    }
}

fn choices_of_playlists(playlists: &[LibItem], track_uri: &str) -> (r: Vec<ActionItem>)
    ensures
        views(r@) == playlist_choices(views(playlists@), track_uri@),
{
    let mut out: Vec<ActionItem> = Vec::new();
    let ghost all = playlist_choices(views(playlists@), track_uri@);
    let mut i: usize = 0;
    while i < playlists.len()
        invariant
            i <= playlists@.len(),
            all == playlist_choices(views(playlists@), track_uri@),
            views(out@) == all.take(i as int),
        decreases playlists@.len() - i,
    {
        let p = &playlists[i];
        let item = ActionItem {
            label: p.name.clone(),
            kind: ActionKind::AddToPlaylist {
                playlist_id: rest_after_last(p.uri.as_str(), ':'),
                track_uri: track_uri.to_string(),
            },
        };
        let ghost before = out@;
        out.push(item);
        proof {
            assert(views(playlists@)[i as int] == playlists@[i as int]@);
            assert(views(out@) =~= views(before).push(item@));
            assert(all.take(i + 1) =~= all.take(i as int).push(item@));
        }
        i += 1;
    }
    assert(all.take(i as int) =~= all);
    out
}

/// Opens the menu of playlists that a track can be added to.
fn open_playlist_menu(app: &mut App, track_uri: &str)
    ensures
        (final(app)@, Seq::<EffectView>::empty()) == action(
            old(app)@,
            ActionKindView::AddToPlaylistMenu { track_uri: track_uri@ },
        ),
{
    let items = choices_of_playlists(app.library.playlists.as_slice(), track_uri);
    if items.len() == 0 {
        app.status = "no playlists to add to".to_string();
        app.actions = None;
    } else {
        app.actions = Some(ActionMenu { title: "Add to playlist".to_string(), items, selected: 0 });
    }
}

/// Puts a track at the end of the queue.
pub fn enqueue(app: &mut App, uri: String)
    ensures
        (final(app)@, Seq::<EffectView>::empty()) == action(
            old(app)@,
            ActionKindView::Queue { uri: uri@ },
        ),
{
    let label = label_for_queue(app, uri.as_str());
    app.status = join2("queued: ", label.as_str());
    let ghost before = *app;
    app.queue.push(label);
    app.queue_uris.push(uri);
    app.actions = None;
    assert(views(app.queue@) =~= before@.queue.push(label@));
    assert(views(app.queue_uris@) =~= before@.queue_uris.push(uri@));
}

/// Puts a track at the front of the queue.
pub fn enqueue_next(app: &mut App, uri: String)
    ensures
        (final(app)@, Seq::<EffectView>::empty()) == action(
            old(app)@,
            ActionKindView::PlayNext { uri: uri@ },
        ),
{
    let label = label_for_queue(app, uri.as_str());
    app.status = join2("queued next: ", label.as_str());
    let ghost before = *app;
    app.queue.insert(0, label);
    app.queue_uris.insert(0, uri);
    app.actions = None;
    assert(views(app.queue@) =~= seq![label@] + before@.queue);
    assert(views(app.queue_uris@) =~= seq![uri@] + before@.queue_uris);
}

/// Does something that needs a server.
fn with_server(app: &mut App, status: &str, effect: Effect) -> (r: Vec<Effect>)
    ensures
        (final(app)@, views(r@)) == if_connected(old(app)@, status@, effect@),
{
    app.actions = None;
    if app.subsonic.is_some() {
        app.status = status.to_string();
        one(effect)
    } else {
        app.status = "not connected".to_string();
        none()
    }
}

fn close_menu(app: &mut App)
    ensures
        final(app)@ == closed_menu(old(app)@),
{
    app.actions = None;
}

fn play_from_menu(app: &mut App, uri: String, name: String) -> (r: Vec<Effect>)
    ensures
        (final(app)@, views(r@)) == action(
            old(app)@,
            ActionKindView::Play { uri: uri@, name: name@ },
        ),
{
    let shuffle = app.shuffle;
    let effects = app.play_context_row(uri, name, shuffle);
    close_menu(app);
    effects
}

/// Does what an entry of the action menu stands for.
pub fn run_action(app: &mut App, kind: ActionKind) -> (r: Vec<Effect>)
    ensures
        (final(app)@, views(r@)) == action(old(app)@, kind@),
{
    match kind {
        ActionKind::AddToPlaylistMenu { track_uri } => {
            open_playlist_menu(app, track_uri.as_str());
            none()
        },
        ActionKind::Play { uri, name } => play_from_menu(app, uri, name),
        ActionKind::Open { uri, name } => {
            close_menu(app);
            one(Effect::FetchDetail { uri, name })
        },
        ActionKind::CopyLink { uri } => {
            close_menu(app);
            one(Effect::CopyLink(uri))
        },
        ActionKind::Queue { uri } => {
            enqueue(app, uri);
            none()
        },
        ActionKind::PlayNext { uri } => {
            enqueue_next(app, uri);
            none()
        },
        ActionKind::AddToPlaylist { playlist_id, track_uri } => {
            let song_id = song_id(track_uri.as_str());
            with_server(
                app,
                "added track to playlist",
                Effect::AddToPlaylist { playlist_id, song_id },
            )
        },
        ActionKind::StarTrack { track_uri } => {
            with_server(app, "liked track", Effect::Star(song_id(track_uri.as_str())))
        },
        ActionKind::UnstarTrack { track_uri } => {
            with_server(app, "unliked track", Effect::Unstar(song_id(track_uri.as_str())))
        },
        _ => {
            close_menu(app);
            none()
        },
    }
}

/// A key while the action menu is open.
pub fn handle_action_key(app: &mut App, code: KeyCode) -> (r: Vec<Effect>)
    requires
        old(app)@.actions is Some,
    ensures
        (final(app)@, views(r@)) == action_key(old(app)@, old(app)@.actions->0, code),
{
    match code {
        KeyCode::Esc | KeyCode::Char('a') => {
            app.actions = None;
            app.status.clear();
            return none();
        },
        KeyCode::Up | KeyCode::Char('k') => {
            if let Some(m) = &mut app.actions {
                if m.selected > 0 {
                    m.selected = m.selected - 1;
                }
            }
            return none();
        },
        KeyCode::Down | KeyCode::Char('j') => {
            if let Some(m) = &mut app.actions {
                let last: usize = if m.items.len() > 0 {
                    m.items.len() - 1
                } else {
                    0
                };
                if m.selected < last {
                    m.selected = m.selected + 1;
                } else {
                    m.selected = last;
                }
            }
            return none();
        },
        KeyCode::Enter => {},
        _ => {
            return none();
        },
    }
    let kind = match &app.actions {
        Some(m) => if m.selected < m.items.len() {
            Some(m.items[m.selected].kind.clone())
        } else {
            None
        },
        None => None,
    };
    match kind {
        Some(kind) => run_action(app, kind),
        None => none(),
    }
}

/// A row is among the liked songs.
pub fn has_like(app: &App, uri: &str) -> (r: bool)
    ensures
        r == is_liked(app@, uri@),
{
    find_uri(app.library.liked.as_slice(), uri) < app.library.liked.len()
}

/// Opens the menu for the selected row.
pub fn open_action_menu(app: &mut App)
    ensures
        final(app)@ == menu_opened(old(app)@),
{
    let item = match app.selected_item() {
        Some(item) => item,
        None => {
            return ;
        },
    };
    if item.is_header {
        return ;
    }
    let mut items: Vec<ActionItem> = Vec::new();
    if item.is_track {
        if has_like(app, item.uri.as_str()) {
            items.push(
                ActionItem {
                    label: "Unlike track".to_string(),
                    kind: ActionKind::UnstarTrack { track_uri: item.uri.clone() },
                },
            );
        } else {
            items.push(
                ActionItem {
                    label: "Like track".to_string(),
                    kind: ActionKind::StarTrack { track_uri: item.uri.clone() },
                },
            );
        }
        items.push(
            ActionItem {
                label: "Add to queue".to_string(),
                kind: ActionKind::Queue { uri: item.uri.clone() },
            },
        );
        items.push(
            ActionItem {
                label: "Add to playlist...".to_string(),
                kind: ActionKind::AddToPlaylistMenu { track_uri: item.uri.clone() },
            },
        );
    } else {
        items.push(
            ActionItem {
                label: join2("Open ", item.name.as_str()),
                kind: ActionKind::Open { uri: item.uri.clone(), name: item.name.clone() },
            },
        );
    }
    items.push(
        ActionItem {
            label: join2("Play ", item.name.as_str()),
            kind: ActionKind::Play { uri: item.uri.clone(), name: item.name.clone() },
        },
    );
    items.push(
        ActionItem {
            label: "Copy Link".to_string(),
            kind: ActionKind::CopyLink { uri: item.uri.clone() },
        },
    );
    assert(views(items@) =~= menu_items(app@, item@));
    app.actions = Some(ActionMenu { title: item.name, items, selected: 0 });
}

/// Likes the selected track, or takes the like back.
pub fn toggle_like(app: &mut App) -> (r: Vec<Effect>)
    ensures
        (final(app)@, views(r@)) == like(old(app)@),
{
    let item = match app.selected_item() {
        Some(item) => item,
        None => {
            return none();
        },
    };
    match strip_prefix(item.uri.as_str(), TRACK) {
        Some(id) => {
            if item.is_track && app.subsonic.is_some() {
                if has_like(app, item.uri.as_str()) {
                    app.status = join3("unliking ", item.name.as_str(), "…");
                    one(Effect::Unstar(id))
                } else {
                    app.status = join3("liking ", item.name.as_str(), "…");
                    one(Effect::Star(id))
                }
            } else {
                none()
            }
        },
        None => none(),
    }
}

fn shift_section(app: &mut App, delta: isize)
    requires
        -6 <= delta <= 6,
    ensures
        final(app)@ == section_shifted(old(app)@, delta as int),
{
    app.searching = false;
    app.section = app.section.shift(delta);
    app.selected = app.first_selectable();
}

/// Puts the list that is shown into its next order.
pub fn sort_next(app: &mut App)
    ensures
        final(app)@ == resorted(old(app)@),
{
    app.sort = app.sort.next();
    let mode = app.sort;
    let ghost before = app@;
    let list = app.cur_list_mut();
    let ghost rows = views(list@);
    sort_list(list.as_mut_slice(), mode);
    assert(app@ == before.with_cur_items(sorted_list(rows, mode)));
    app.selected = app.first_selectable();
    app.status = join2("sorted by ", mode.label());
}

/// Opens the search line.
fn begin_search(app: &mut App)
    ensures
        final(app)@ == (AppView { input_mode: true, query: Seq::empty(), ..old(app)@ }),
{
    app.input_mode = true;
    app.query.clear();
}

/// Out of the innermost detail, else out of the search.
pub fn go_back(app: &mut App)
    ensures
        final(app)@ == escaped(old(app)@),
{
    let ghost before = app@;
    match app.details.pop() {
        Some(d) => {
            app.selected = d.parent_selected;
            assert(views(app.details@) =~= before.details.drop_last());
        },
        None => {
            if app.searching {
                app.searching = false;
                app.selected = 0;
            }
        },
    }
}

fn set_volume(app: &mut App, volume: u8) -> (r: Vec<Effect>)
    ensures
        (final(app)@, views(r@)) == with_volume(old(app)@, volume),
{
    app.volume = volume;
    one(Effect::SetVolume(volume))
}

fn toggle_shuffle(app: &mut App) -> (r: Vec<Effect>)
    ensures
        final(app)@ == (AppView { shuffle: !old(app)@.shuffle, ..old(app)@ }),
        views(r@) == seq![EffectView::SetShuffle(!old(app)@.shuffle)],
{
    app.shuffle = !app.shuffle;
    one(Effect::SetShuffle(app.shuffle))
}

fn toggle_repeat(app: &mut App) -> (r: Vec<Effect>)
    ensures
        final(app)@ == (AppView { repeat: !old(app)@.repeat, ..old(app)@ }),
        views(r@) == seq![EffectView::SetRepeat(!old(app)@.repeat)],
{
    app.repeat = !app.repeat;
    one(Effect::SetRepeat(app.repeat))
}

/// Shuffles, and plays the playlist, album or artist that is selected.
fn shuffle_selected(app: &mut App) -> (r: Vec<Effect>)
    ensures
        ({
            let (b, effects) = (AppView { shuffle: true, ..old(app)@ }).play_selected_context(true);
            final(app)@ == b && views(r@) == seq![EffectView::SetShuffle(true)] + effects
        }),
{
    app.shuffle = true;
    let mut effects = one(Effect::SetShuffle(true));
    let mut more = play_selected_context(app, true);
    let ghost all = views(effects@) + views(more@);
    effects.append(&mut more);
    assert(views(effects@) =~= all);
    effects
}

fn reload(app: &mut App) -> (r: Vec<Effect>)
    ensures
        final(app)@ == old(app)@.with_status("loading library…"@),
        views(r@) == seq![EffectView::FetchLibrary],
{
    app.status = "loading library…".to_string();
    one(Effect::FetchLibrary)
}

fn change_theme(app: &mut App, themes: &[Theme], now: u64)
    requires
        themes@.len() > 0,
    ensures
        ({
            let next = following_theme(themes@, old(app)@.target.name@);
            final(app)@ == old(app)@.with_status("theme: "@ + next.name@).faded_to(next, now)
        }),
{
    let next = next_theme(themes, app.target.name);
    app.status = join2("theme: ", next.name);
    app.start_fade(next, now);
}

fn shift_view(app: &mut App, delta: isize)
    requires
        -3 <= delta <= 3,
    ensures
        final(app)@ == view_shifted(old(app)@, delta as int),
{
    app.view = app.view.shift(delta);
}

/// A key while nothing is open that captures the keyboard.
pub fn handle_main_key(
    app: &mut App,
    key: KeyEvent,
    now: u64,
    nanos: usize,
    themes: &[Theme],
) -> (r: Vec<Effect>)
    requires
        is_browsing(old(app)@),
        !is_ctrl_c(key),
        key_safe(old(app)@, key, now, themes@),
    ensures
        (final(app)@, views(r@)) == main_key(old(app)@, key, now, nanos as int, themes@),
{
    match key.code {
        KeyCode::Char('/') => {
            begin_search(app);
            none()
        },
        KeyCode::Char('L') => one(Effect::LoadConfig),
        KeyCode::Esc => {
            go_back(app);
            none()
        },
        KeyCode::Char(' ') | KeyCode::Char('p') | KeyCode::Media(MediaKey::PlayPause) => one(
            Effect::TogglePlay,
        ),
        KeyCode::Media(MediaKey::Stop) => one(Effect::Stop),
        KeyCode::Char('n') | KeyCode::Media(MediaKey::TrackNext) => app.play_next(nanos),
        KeyCode::Char('b') | KeyCode::Media(MediaKey::TrackPrevious) => app.play_prev(now),
        KeyCode::Char('+') | KeyCode::Char('=') | KeyCode::Media(MediaKey::RaiseVolume) => {
            let raised: u8 = app.volume + VOLUME_STEP;
            set_volume(
                app,
                if raised < 100 {
                    raised
                } else {
                    100
                },
            )
        },
        KeyCode::Char('-') | KeyCode::Char('_') | KeyCode::Media(MediaKey::LowerVolume) => {
            let lowered: u8 = if app.volume > VOLUME_STEP {
                app.volume - VOLUME_STEP
            } else {
                0
            };
            set_volume(app, lowered)
        },
        KeyCode::Char('s') => toggle_shuffle(app),
        KeyCode::Char('P') => play_selected_context(app, false),
        KeyCode::Char('S') => shuffle_selected(app),
        KeyCode::Char('R') => toggle_repeat(app),
        KeyCode::Char('r') => reload(app),
        KeyCode::Char('o') => {
            sort_next(app);
            none()
        },
        KeyCode::Char('a') => {
            open_action_menu(app);
            none()
        },
        KeyCode::Char('l') => toggle_like(app),
        KeyCode::Char('t') => {
            change_theme(app, themes, now);
            none()
        },
        KeyCode::Tab | KeyCode::Char(']') => {
            shift_section(app, 1);
            none()
        },
        KeyCode::Char('[') => {
            shift_section(app, -1);
            none()
        },
        KeyCode::BackTab => {
            shift_view(app, 1);
            none()
        },
        KeyCode::Right => {
            if key.shift {
                app.seek_by(SEEK_STEP_MS, now)
            } else {
                shift_view(app, 1);
                none()
            }
        },
        KeyCode::Left => {
            if key.shift {
                app.seek_by(-SEEK_STEP_MS, now)
            } else {
                shift_view(app, -1);
                none()
            }
        },
        KeyCode::Down | KeyCode::Char('j') => {
            app.move_sel(1);
            none()
        },
        KeyCode::Up | KeyCode::Char('k') => {
            app.move_sel(-1);
            none()
        },
        KeyCode::Enter => press_enter(app),
        _ => none(),
    }
}

/// Enter on the selected row.
pub fn press_enter(app: &mut App) -> (r: Vec<Effect>)
    ensures
        (final(app)@, views(r@)) == entered(old(app)@),
{
    let (mut effects, what) = app.activate();
    match what {
        Activated::Open(uri, name) => {
            and_also(&mut effects, Effect::FetchDetail { uri, name });
        },
        Activated::Nothing => {},
    }
    effects
}

// ---------------------------------------------------------------------------
// The mouse
// ---------------------------------------------------------------------------

/// The tab at a place lies under the mouse.
pub open spec fn tab_under(tabs: Seq<(RightView, Rect)>, column: int, row: int) -> spec_fn(
    int,
) -> bool {
    |i: int| tabs[i].1.has_cell(column, row)
}

/// The row of the list under the mouse, counted from the first row of the list.
pub open spec fn row_under(a: AppView, column: int, row: int) -> Option<int> {
    match a.lib_rect {
        Some(rect) => {
            let i = a.lib_offset + row - rect.y;
            if rect.has_cell(column, row) && i < a.cur_items().len() {
                Some(i)
            } else {
                None
            }
        },
        None => None,
    }
}

/// A click repeats the one before it: on the same row, soon after.
pub open spec fn is_double(a: AppView, row: u16, now: u64) -> bool {
    match a.last_click {
        Some((r, t)) => r == row && soon_after(t, now, DOUBLE_CLICK_NANOS),
        None => false,
    }
}

/// What a click does: on a tab it shows the tab's view, on a row it selects the
/// row, and the second of two quick clicks on a row does what Enter does there.
/// While something captures the keyboard, it does nothing.
pub open spec fn click_step(a: AppView, column: u16, row: u16, now: u64) -> (
    AppView,
    Seq<EffectView>,
) {
    let k = first(a.tab_rects.len() as int, tab_under(a.tab_rects, column as int, row as int));
    if !is_browsing(a) {
        (a, Seq::empty())
    } else if k < a.tab_rects.len() {
        (AppView { view: a.tab_rects[k].0, ..a }, Seq::empty())
    } else {
        match row_under(a, column as int, row as int) {
            Some(i) => if a.cur_items()[i].is_header {
                (a, Seq::empty())
            } else if is_double(a, row, now) {
                entered(AppView { selected: i as usize, last_click: None, ..a })
            } else {
                (
                    AppView { selected: i as usize, last_click: Some((row, now)), ..a },
                    Seq::empty(),
                )
            },
            None => (a, Seq::empty()),
        }
    }
}

fn find_tab(tabs: &Vec<(RightView, Rect)>, column: u16, row: u16) -> (r: usize)
    ensures
        r == first(tabs@.len() as int, tab_under(tabs@, column as int, row as int)),
        r <= tabs@.len(),
{
    let ghost p = tab_under(tabs@, column as int, row as int);
    let mut i: usize = 0;
    while i < tabs.len() && !tabs[i].1.contains(column, row)
        invariant
            i <= tabs@.len(),
            p == tab_under(tabs@, column as int, row as int),
            forall|k: int| 0 <= k < i ==> !#[trigger] p(k),
        decreases tabs@.len() - i,
    {
        i += 1;
    }
    proof {
        lemma_first(i as int, tabs@.len() as int, p);
    }
    i
}

fn find_row(app: &App, column: u16, row: u16) -> (r: Option<usize>)
    ensures
        match r {
            Some(i) => row_under(app@, column as int, row as int) == Some(i as int),
            None => row_under(app@, column as int, row as int) is None,
        },
        r matches Some(i) ==> i < app@.cur_items().len(),
{
    match app.lib_rect {
        Some(rect) => {
            if rect.contains(column, row) {
                let n: usize = app.cur_items().len();
                let down: usize = (row - rect.y) as usize;
                if down < n && app.lib_offset < n - down {
                    Some(app.lib_offset + down)
                } else {
                    None
                }
            } else {
                None
            }
        },
        None => None,
    }
}

/// What a click does.
pub fn handle_click(app: &mut App, column: u16, row: u16, now: u64) -> (r: Vec<Effect>)
    ensures
        (final(app)@, views(r@)) == click_step(old(app)@, column, row, now),
{
    if app.login_modal.is_some() || app.actions.is_some() || app.input_mode {
        return none();
    }
    let k = find_tab(&app.tab_rects, column, row);
    if k < app.tab_rects.len() {
        app.view = app.tab_rects[k].0;
        return none();
    }
    let i: usize = match find_row(app, column, row) {
        Some(i) => i,
        None => {
            return none();
        },
    };
    let items = app.cur_items();
    assert(views(items@)[i as int] == items@[i as int]@);
    if items[i].is_header {
        return none();
    }
    let double = match app.last_click {
        Some((r, t)) => r == row && is_soon_after(t, now, DOUBLE_CLICK_NANOS),
        None => false,
    };
    app.selected = i;
    if double {
        app.last_click = None;
        press_enter(app)
    } else {
        app.last_click = Some((row, now));
        none()
    }
}

// ---------------------------------------------------------------------------
// The engine
// ---------------------------------------------------------------------------

/// The track that plays, at a new position.
pub open spec fn repositioned(a: AppView, playing: Option<bool>, position_ms: u32, now: u64) -> AppView {
    match a.now {
        Some(n) => AppView {
            now: Some(
                NowPlayingView {
                    is_playing: match playing {
                        Some(p) => p,
                        None => n.is_playing,
                    },
                    position_ms,
                    position_at: now,
                    ..n
                },
            ),
            ..a
        },
        None => a,
    }
}

/// What an event of the engine does.
pub open spec fn engine_step(a: AppView, ev: EngineEventView, now: u64, nanos: int) -> (
    AppView,
    Seq<EffectView>,
) {
    match ev {
        EngineEventView::TrackChanged { uri } => {
            let b = a.with_status("loading track…"@);
            match after_prefix(uri, TRACK@) {
                Some(id) => (
                    AppView { pending_meta: Some(TRACK@ + id), ..b },
                    seq![EffectView::FetchMeta(id)],
                ),
                None => (b, Seq::empty()),
            }
        },
        EngineEventView::Playing { position_ms, .. } => (
            repositioned(
                AppView { playback_started: true, ..a },
                Some(true),
                position_ms,
                now,
            ),
            if a.playback_started {
                Seq::empty()
            } else {
                seq![
                    EffectView::SetShuffle(a.shuffle),
                    EffectView::SetRepeat(a.repeat),
                    EffectView::SetVolume(a.volume),
                ]
            },
        ),
        EngineEventView::Paused { position_ms, .. } => (
            repositioned(a, Some(false), position_ms, now),
            Seq::empty(),
        ),
        EngineEventView::Stopped => (
            AppView { now: None, playback_started: false, ..a },
            Seq::empty(),
        ),
        EngineEventView::PositionCorrection { position_ms, .. } => (
            repositioned(a, None, position_ms, now),
            Seq::empty(),
        ),
        EngineEventView::EndOfTrack { uri } => match a.now {
            Some(n) => if n.uri == uri {
                a.play_next(nanos)
            } else {
                (a, Seq::empty())
            },
            None => (a, Seq::empty()),
        },
    }
}

fn reposition(app: &mut App, playing: Option<bool>, position_ms: u32, now: u64)
    ensures
        final(app)@ == repositioned(old(app)@, playing, position_ms, now),
{
    if let Some(n) = &mut app.now {
        if let Some(p) = playing {
            n.is_playing = p;
        }
        n.position_ms = position_ms;
        n.position_at = now;
    }
}

fn track_changed(app: &mut App, uri: &str) -> (r: Vec<Effect>)
    ensures
        (final(app)@, views(r@)) == engine_step(
            old(app)@,
            EngineEventView::TrackChanged { uri: uri@ },
            0,
            0,
        ),
{
    app.status = "loading track…".to_string();
    match strip_prefix(uri, TRACK) {
        Some(id) => {
            app.pending_meta = Some(join2(TRACK, id.as_str()));
            one(Effect::FetchMeta(id))
        },
        None => none(),
    }
}

fn started_playing(app: &mut App, position_ms: u32, now: u64) -> (r: Vec<Effect>)
    ensures
        forall|uri: Seq<char>, nanos: int|
            (final(app)@, views(r@)) == #[trigger] engine_step(
                old(app)@,
                EngineEventView::Playing { uri, position_ms },
                now,
                nanos,
            ),
{
    let mut effects = none();
    if !app.playback_started {
        app.playback_started = true;
        and_also(&mut effects, Effect::SetShuffle(app.shuffle));
        and_also(&mut effects, Effect::SetRepeat(app.repeat));
        and_also(&mut effects, Effect::SetVolume(app.volume));
        assert(views(effects@) =~= seq![
            EffectView::SetShuffle(app@.shuffle),
            EffectView::SetRepeat(app@.repeat),
            EffectView::SetVolume(app@.volume),
        ]);
    }
    reposition(app, Some(true), position_ms, now);
    effects
}

fn stopped(app: &mut App)
    ensures
        final(app)@ == (AppView { now: None, playback_started: false, ..old(app)@ }),
{
    app.now = None;
    app.playback_started = false;
}

/// What an event of the engine does. `nanos` picks the next track when shuffling.
pub fn handle_engine_event(app: &mut App, ev: EngineEvent, now: u64, nanos: usize) -> (r: Vec<
    Effect,
>)
    ensures
        (final(app)@, views(r@)) == engine_step(old(app)@, ev@, now, nanos as int),
{
    match ev {
        EngineEvent::TrackChanged { uri } => track_changed(app, uri.as_str()),
        EngineEvent::Playing { uri: _, position_ms } => started_playing(app, position_ms, now),
        EngineEvent::Paused { uri: _, position_ms } => {
            reposition(app, Some(false), position_ms, now);
            none()
        },
        EngineEvent::Stopped => {
            stopped(app);
            none()
        },
        EngineEvent::PositionCorrection { uri: _, position_ms } => {
            reposition(app, None, position_ms, now);
            none()
        },
        EngineEvent::EndOfTrack { uri } => {
            let ended = match &app.now {
                Some(n) => same(n.uri.as_str(), uri.as_str()),
                None => false,
            };
            if ended {
                app.play_next(nanos)
            } else {
                none()
            }
        },
    }
}

// ---------------------------------------------------------------------------
// What a track is
// ---------------------------------------------------------------------------

/// What was found out is about the track that is waited for, or none is.
pub open spec fn is_awaited(pending: Option<Seq<char>>, uri: Seq<char>) -> bool {
    match pending {
        Some(p) => p == uri,
        None => true,
    }
}

/// What was found out about a track, taken over. The position and whether it plays
/// stay as they were.
pub open spec fn meta_applied(a: AppView, meta: TrackMetaView, now: u64) -> (
    AppView,
    Seq<EffectView>,
) {
    if !is_awaited(a.pending_meta, meta.uri) {
        (a, Seq::empty())
    } else {
        let b = AppView {
            art_dirty: ART_REPAINTS,
            status: Seq::empty(),
            lyrics: Seq::empty(),
            lyrics_synced: false,
            now: Some(
                NowPlayingView {
                    uri: meta.uri,
                    title: meta.title,
                    artist: meta.artist,
                    album: meta.album,
                    duration_ms: meta.duration_ms,
                    position_ms: match a.now {
                        Some(n) => n.position_ms,
                        None => 0,
                    },
                    position_at: now,
                    is_playing: match a.now {
                        Some(n) => n.is_playing,
                        None => a.playback_started,
                    },
                    cover: meta.image,
                },
            ),
            ..a
        };
        (
            match meta.theme {
                Some(theme) => b.faded_to(theme, now),
                None => b,
            },
            if meta.title.len() > 0 {
                seq![
                    EffectView::FetchLyrics {
                        artist: meta.artist,
                        title: meta.title,
                        album: meta.album,
                        duration_ms: meta.duration_ms,
                    },
                ]
            } else {
                Seq::empty()
            },
        )
    }
}

/// Whether what was found out about a track is of use: it is, unless another
/// track is waited for.
pub fn meta_is_current(pending: Option<&str>, meta_uri: &str) -> (r: bool)
    ensures
        r == is_awaited(
            match pending {
                Some(p) => Some(p@),
                None => None,
            },
            meta_uri@,
        ),
{
    match pending {
        Some(p) => same(p, meta_uri),
        None => true,
    }
}

/// Takes over what was found out about a track.
pub fn apply_meta(app: &mut App, meta: TrackMeta, now: u64) -> (r: Vec<Effect>)
    ensures
        (final(app)@, views(r@)) == meta_applied(old(app)@, meta@, now),
{
    let pending = match &app.pending_meta {
        Some(p) => Some(p.as_str()),
        None => None,
    };
    if !meta_is_current(pending, meta.uri.as_str()) {
        return none();
    }
    app.art_dirty = ART_REPAINTS;
    app.status.clear();
    app.lyrics = Vec::new();
    app.lyrics_synced = false;
    assert(view_entries(app.lyrics@) =~= Seq::<(u32, Seq<char>)>::empty());
    let effects = if meta.title.as_str().is_empty() {
        none()
    } else {
        one(
            Effect::FetchLyrics {
                artist: meta.artist.clone(),
                title: meta.title.clone(),
                album: meta.album.clone(),
                duration_ms: meta.duration_ms,
            },
        )
    };
    let (position_ms, is_playing): (u32, bool) = match &app.now {
        Some(n) => (n.position_ms, n.is_playing),
        None => (0, app.playback_started),
    };
    app.now = Some(
        NowPlaying {
            uri: meta.uri,
            title: meta.title,
            artist: meta.artist,
            album: meta.album,
            duration_ms: meta.duration_ms,
            position_ms,
            position_at: now,
            is_playing,
            cover: meta.image,
        },
    );
    if let Some(theme) = meta.theme {
        app.start_fade(theme, now);
    }
    effects
}

/// Moves a change of theme on: `current` are its colours by now, `done` says that
/// its time is over.
pub fn advance_fade(app: &mut App, current: Theme, done: bool)
    ensures
        final(app)@ == (match old(app)@.fade {
            Some(_) => if done {
                AppView { displayed: old(app)@.target, fade: None, ..old(app)@ }
            } else {
                AppView { displayed: current, ..old(app)@ }
            },
            None => old(app)@,
        }),
{
    if app.fade.is_some() {
        if done {
            app.displayed = app.target;
            app.fade = None;
        } else {
            app.displayed = current;
        }
    }
}

// ---------------------------------------------------------------------------
// What comes back
// ---------------------------------------------------------------------------

/// The list of a section came.
pub fn library_arrived(app: &mut App, section: Section, items: Vec<LibItem>)
    ensures
        final(app)@ == (AppView {
            library: old(app)@.library.with(section, views(items@)),
            ..old(app)@
        }).normalized(),
{
    app.library.set(section, items);
    app.normalize_selection();
}

/// What a search found came.
pub fn search_arrived(app: &mut App, results: Vec<LibItem>)
    ensures
        final(app)@ == (AppView {
            search_results: views(results@),
            searching: true,
            status: Seq::empty(),
            ..old(app)@
        }).normalized(),
{
    app.search_results = results;
    app.searching = true;
    app.status.clear();
    app.normalize_selection();
}

/// The state with a detail opened.
pub open spec fn detail_opened(a: AppView, title: Seq<char>, items: Seq<LibItemView>) -> AppView {
    AppView {
        details: a.details.push(DetailView { title, items, parent_selected: a.selected }),
        ..a
    }.at_first_row()
}

/// The contents of a playlist, album or artist came.
pub fn detail_arrived(app: &mut App, title: String, items: Vec<LibItem>)
    ensures
        final(app)@ == detail_opened(old(app)@, title@, views(items@)),
{
    let ghost before = app@;
    let parent_selected = app.selected;
    let detail = Detail { title, items, parent_selected };
    app.details.push(detail);
    assert(views(app.details@) =~= before.details.push(detail@));
    app.selected = app.first_selectable();
}

/// The library was fetched, or could not be.
pub fn library_done(app: &mut App, ok: bool)
    ensures
        final(app)@ == old(app)@.with_status(
            if ok {
                Seq::empty()
            } else {
                "library empty or fetch failed"@
            },
        ),
{
    app.status = if ok {
        String::new()
    } else {
        "library empty or fetch failed".to_string()
    };
}

/// Lyrics came.
pub fn lyrics_arrived(app: &mut App, lines: Vec<(u32, String)>, synced: bool)
    ensures
        final(app)@ == (AppView {
            lyrics: view_entries(lines@),
            lyrics_synced: synced,
            ..old(app)@
        }),
{
    app.lyrics = lines;
    app.lyrics_synced = synced;
}

/// What an attempt to log in came to: the client and its configuration, or why
/// there is none.
pub fn login_outcome(config: NavidromeConfig, ping: Result<(), ClientError>) -> (r: Result<
    (SubsonicClient, NavidromeConfig),
    String,
>)
    ensures
        match ping {
            Ok(_) => r matches Ok((client, c)) && client@ == config@ && c == config,
            Err(e) => r matches Err(message) && message@ == "Login failed: "@ + e.full_text(),
        },
{
    match ping {
        Ok(_) => {
            let client = SubsonicClient::new(config.clone());
            Ok((client, config))
        },
        Err(e) => Err(join2("Login failed: ", e.full_message().as_str())),
    }
}

/// The state after an attempt to log in.
pub open spec fn logged_in(
    a: AppView,
    result: Result<(NavidromeConfigView, NavidromeConfigView), Seq<char>>,
) -> (AppView, Seq<EffectView>) {
    match result {
        Ok((client, config)) => (
            AppView {
                subsonic: Some(client),
                login_modal: None,
                status: "Logged in! Loading library…"@,
                ..a
            },
            seq![
                EffectView::SaveConfig(config),
                EffectView::UseClient(client),
                EffectView::FetchLibrary,
            ],
        ),
        Err(message) => (
            match a.login_modal {
                Some(m) => AppView {
                    login_modal: Some(
                        LoginModalView { is_connecting: false, error_message: Some(message), ..m },
                    ),
                    ..a
                },
                None => a,
            },
            Seq::empty(),
        ),
    }
}

/// An attempt to log in is over.
pub fn login_finished(app: &mut App, result: Result<(SubsonicClient, NavidromeConfig), String>) -> (r:
    Vec<Effect>)
    ensures
        (final(app)@, views(r@)) == logged_in(
            old(app)@,
            match result {
                Ok((client, config)) => Ok((client@, config@)),
                Err(message) => Err(message@),
            },
        ),
{
    match result {
        Ok((client, config)) => {
            let mut effects = one(Effect::SaveConfig(config));
            and_also(&mut effects, Effect::UseClient(client.clone()));
            and_also(&mut effects, Effect::FetchLibrary);
            app.subsonic = Some(client);
            app.login_modal = None;
            app.status = "Logged in! Loading library…".to_string();
            assert(views(effects@) =~= seq![
                EffectView::SaveConfig(config@),
                EffectView::UseClient(client@),
                EffectView::FetchLibrary,
            ]);
            effects
        },
        Err(message) => {
            if let Some(m) = &mut app.login_modal {
                m.is_connecting = false;
                m.error_message = Some(message);
            }
            none()
        },
    }
}

/// The configuration that the form starts with where none is stored.
pub open spec fn default_config() -> NavidromeConfigView {
    config_of(DEFAULT_SERVER@, Seq::empty(), Seq::empty())
}

fn make_default_config() -> (r: NavidromeConfig)
    ensures
        r@ == default_config(),
{
    NavidromeConfig::new(DEFAULT_SERVER.to_string(), String::new(), String::new())
}

/// Opens the login form, filled in from the stored configuration.
pub fn open_login(app: &mut App, stored: Option<NavidromeConfig>)
    ensures
        final(app)@ == (AppView {
            login_modal: Some(
                LoginModalView::of_config(
                    match stored {
                        Some(c) => c@,
                        None => default_config(),
                    },
                ),
            ),
            ..old(app)@
        }),
{
    let config = match stored {
        Some(c) => c,
        None => make_default_config(),
    };
    app.login_modal = Some(LoginModalState::from_config(&config));
}

/// A link was copied, or could not be.
pub fn link_copied(app: &mut App, copied: bool)
    ensures
        final(app)@ == old(app)@.with_status(
            if copied {
                "link copied"@
            } else {
                "clipboard unavailable"@
            },
        ),
{
    app.status = if copied {
        "link copied".to_string()
    } else {
        "clipboard unavailable".to_string()
    };
}

/// There is a cover to show for a track that is only selected.
pub fn cover_arrived(app: &mut App, uri: String)
    ensures
        final(app)@ == (AppView { selected_cover: Some(uri@), ..old(app)@ }),
{
    app.selected_cover = Some(uri);
}

/// The server replied to the request for the cover of a selected track. Says whether
/// there is a cover to show.
pub fn cover_replied(app: &mut App, uri: String, reply: BytesReply) -> (r: bool)
    ensures
        r == holds_cover(reply),
        final(app)@ == (if holds_cover(reply) {
            AppView { selected_cover: Some(uri@), ..old(app)@ }
        } else {
            old(app)@
        }),
{
    let found = has_cover(reply);
    if found {
        cover_arrived(app, uri);
    }
    found
}

/// There is a newer version of the player.
pub fn version_arrived(app: &mut App, version: String)
    ensures
        final(app)@ == (AppView { new_version: Some(version@), ..old(app)@ }),
{
    app.new_version = Some(version);
}

/// While nothing plays, the cover of the selected track is asked for, once.
pub open spec fn cover_wanted(a: AppView) -> (AppView, Seq<EffectView>) {
    match a.selected_item() {
        Some(item) => if a.now is None && item.is_track && a.selected_cover_uri != Some(item.uri) {
            (
                AppView { selected_cover_uri: Some(item.uri), ..a },
                match after_prefix(item.uri, TRACK@) {
                    Some(id) => seq![EffectView::FetchCover { uri: item.uri, track_id: id }],
                    None => Seq::empty(),
                },
            )
        } else {
            (a, Seq::empty())
        },
        None => (a, Seq::empty()),
    }
}

/// Asks for the cover of the selected track while nothing plays.
pub fn want_cover(app: &mut App) -> (r: Vec<Effect>)
    ensures
        (final(app)@, views(r@)) == cover_wanted(old(app)@),
{
    if app.now.is_some() {
        return none();
    }
    let item = match app.selected_item() {
        Some(item) => item,
        None => {
            return none();
        },
    };
    if !item.is_track {
        return none();
    }
    let asked = match &app.selected_cover_uri {
        Some(uri) => same(uri.as_str(), item.uri.as_str()),
        None => false,
    };
    if asked {
        return none();
    }
    app.selected_cover_uri = Some(item.uri.clone());
    match strip_prefix(item.uri.as_str(), TRACK) {
        Some(track_id) => one(Effect::FetchCover { uri: item.uri, track_id }),
        None => none(),
    }
}

// ---------------------------------------------------------------------------
// From one session to the next
// ---------------------------------------------------------------------------

/// What is kept for the next session.
pub open spec fn saved(a: AppView, now: u64) -> SavedStateView {
    SavedStateView {
        volume: a.volume,
        shuffle: a.shuffle,
        repeat: a.repeat,
        last_played: match a.now {
            Some(n) => Some(
                LastPlayedView {
                    uri: n.uri,
                    title: n.title,
                    artist: n.artist,
                    album: n.album,
                    duration_ms: n.duration_ms,
                    position_ms: a.position(now) as u32,
                },
            ),
            None => None,
        },
        queue: a.queue,
        queue_uris: a.queue_uris,
        source: a.source,
        source_name: a.source_name,
    }
}

/// What is kept for the next session.
pub fn save_state(app: &App, now: u64) -> (r: SavedState)
    requires
        app@.clock_ok(now),
    ensures
        r@ == saved(app@, now),
{
    let last_played = match &app.now {
        Some(n) => Some(
            LastPlayed {
                uri: n.uri.clone(),
                title: n.title.clone(),
                artist: n.artist.clone(),
                album: n.album.clone(),
                duration_ms: n.duration_ms,
                position_ms: app.position_ms(now),
            },
        ),
        None => None,
    };
    let queue = app.queue.clone();
    let queue_uris = app.queue_uris.clone();
    assert(views(queue@) =~= views(app.queue@));
    assert(views(queue_uris@) =~= views(app.queue_uris@));
    SavedState {
        volume: app.volume,
        shuffle: app.shuffle,
        repeat: app.repeat,
        last_played,
        queue,
        queue_uris,
        source: app.source.clone(),
        source_name: app.source_name.clone(),
    }
}

/// The state at the start, from a configuration and what was kept: without a
/// configuration the login form is open, with one the library is asked for.
pub open spec fn started(theme: Theme, config: Option<NavidromeConfigView>, s: SavedStateView) -> (
    AppView,
    Seq<EffectView>,
) {
    let a = AppView {
        shuffle: s.shuffle,
        repeat: s.repeat,
        queue: s.queue,
        queue_uris: s.queue_uris,
        source: s.source,
        source_name: s.source_name,
        ..AppView::fresh(
            theme,
            config,
            match config {
                Some(_) => None,
                None => Some(LoginModalView::of_config(default_config())),
            },
            s.volume,
        )
    };
    match config {
        Some(_) => (a.with_status("loading library…"@), seq![EffectView::FetchLibrary]),
        None => (a, Seq::empty()),
    }
}

/// Starts from a configuration and what was kept.
pub fn start(theme: Theme, config: Option<NavidromeConfig>, state: SavedState) -> (r: (
    App,
    Vec<Effect>,
))
    ensures
        (r.0@, views(r.1@)) == started(theme, view_opt(config), state@),
{
    let login_modal = match &config {
        Some(_) => None,
        None => Some(LoginModalState::from_config(&make_default_config())),
    };
    let connected = config.is_some();
    let subsonic = match config {
        Some(c) => Some(SubsonicClient::new(c)),
        None => None,
    };
    let mut app = App::new(theme, subsonic, login_modal, state.volume);
    app.shuffle = state.shuffle;
    app.repeat = state.repeat;
    app.queue = state.queue;
    app.queue_uris = state.queue_uris;
    app.source = state.source;
    app.source_name = state.source_name;
    if connected {
        app.status = "loading library…".to_string();
        (app, one(Effect::FetchLibrary))
    } else {
        (app, none())
    }
}

/// The client that the engine begins with: without a configuration, one that has
/// neither a user nor a password.
pub fn first_client(config: &Option<NavidromeConfig>) -> (r: SubsonicClient)
    ensures
        r@ == (match view_opt(*config) {
            Some(c) => c,
            None => default_config(),
        }),
{
    match config {
        Some(c) => SubsonicClient::new(c.clone()),
        None => SubsonicClient::new(make_default_config()),
    }
}

} // verus!
