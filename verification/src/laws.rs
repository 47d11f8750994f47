//! What holds of the player as a whole: across keys, events and sessions.

use vstd::prelude::*;
use crate::app::{
    first_row, play_effects, queued_item, selectable, AppView, TRACK,
};
use crate::config::NavidromeConfigView;
use crate::effects::EffectView;
use crate::engine::EngineEventView;
use crate::events::{
    action, action_key, armed, click_step, cover_wanted, ctrl_c_quits, detail_opened, engine_step,
    entered, escaped, is_awaited, is_browsing, is_ctrl_c, is_double, key_step, main_key, meta_applied,
    resorted, row_under, saved, section_shifted, started, tab_under, CTRL_C_NANOS,
};
use crate::finding::{first, lemma_first_is};
use crate::input::{KeyCode, KeyEvent, MediaKey};
use crate::models::{
    in_fetch_order, law_added_brings_back, law_sorted_list, law_sorting_rearranges, pinned_at_the_top,
    sorted_list, ActionKindView, ActionMenuView, LibItemView, Section, SortMode, TrackMetaView,
};
use crate::subsonic::{BytesReply, SongView};
use crate::tasks::{holds_cover, track_meta_of};
use crate::text::after_prefix;
use crate::theme::Theme;

verus! {

// ---------------------------------------------------------------------------
// Quitting and capturing
// ---------------------------------------------------------------------------

/// The player quits on a second Ctrl-C soon after a first, from anywhere, and on
/// `q` while nothing captures the keyboard; on no other key. A key that quits
/// changes nothing and asks for nothing.
pub proof fn law_what_quits(a: AppView, key: KeyEvent, now: u64, nanos: int, themes: Seq<Theme>)
    ensures
        key_step(a, key, now, nanos, themes).2 <==> (is_ctrl_c(key) && ctrl_c_quits(a, now)) || (
        !is_ctrl_c(key) && is_browsing(a) && key.code == KeyCode::Char('q')),
        key_step(a, key, now, nanos, themes).2 ==> key_step(a, key, now, nanos, themes).0 == a
            && key_step(a, key, now, nanos, themes).1.len() == 0,
{
}

/// Pressing Ctrl-C twice within a second and a half quits, whatever the state and
/// whatever is open.
pub proof fn law_ctrl_c_twice_quits(
    a: AppView,
    key: KeyEvent,
    now: u64,
    later: u64,
    nanos: int,
    themes: Seq<Theme>,
)
    requires
        is_ctrl_c(key),
        now <= later,
        later - now < CTRL_C_NANOS,
    ensures
        ({
            let once = key_step(a, key, now, nanos, themes);
            once.2 || key_step(once.0, key, later, nanos, themes).2
        }),
{
}

/// Once a second and a half has passed, a Ctrl-C counts as a first one again.
pub proof fn law_ctrl_c_is_forgotten(
    a: AppView,
    key: KeyEvent,
    now: u64,
    later: u64,
    nanos: int,
    themes: Seq<Theme>,
)
    requires
        is_ctrl_c(key),
        !key_step(a, key, now, nanos, themes).2,
        later - now >= CTRL_C_NANOS,
    ensures
        ({
            let once = key_step(a, key, now, nanos, themes).0;
            key_step(once, key, later, nanos, themes) == (
                armed(once, later),
                Seq::<EffectView>::empty(),
                false,
            )
        }),
{
}

/// While the login form is open, no key but Ctrl-C does anything outside the form.
pub proof fn law_login_form_captures(
    a: AppView,
    key: KeyEvent,
    now: u64,
    nanos: int,
    themes: Seq<Theme>,
)
    requires
        a.login_modal is Some,
        !is_ctrl_c(key),
    ensures
        ({
            let (b, effects, quits) = key_step(a, key, now, nanos, themes);
            &&& !quits
            &&& b == (AppView { login_modal: b.login_modal, ..a })
            &&& forall|i: int| 0 <= i < effects.len() ==> #[trigger] effects[i] is Login
        }),
{
}

/// While a search is typed, every character goes into the search, the ones that
/// are commands elsewhere too.
pub proof fn law_search_line_captures(
    a: AppView,
    key: KeyEvent,
    c: char,
    now: u64,
    nanos: int,
    themes: Seq<Theme>,
)
    requires
        a.login_modal is None,
        a.actions is None,
        a.input_mode,
        !is_ctrl_c(key),
        key.code == KeyCode::Char(c),
    ensures
        key_step(a, key, now, nanos, themes) == (
            AppView { query: a.query.push(c), ..a },
            Seq::<EffectView>::empty(),
            false,
        ),
{
}

// ---------------------------------------------------------------------------
// Going in and out
// ---------------------------------------------------------------------------

/// Esc after a detail has opened leads back to where one was, to the same row.
pub proof fn law_escape_undoes_opening(a: AppView, title: Seq<char>, items: Seq<LibItemView>)
    ensures
        escaped(detail_opened(a, title, items)) == a,
        detail_opened(a, title, items).cur_items() == items,
{
    let b = detail_opened(a, title, items);
    assert(b.details.drop_last() =~= a.details);
    assert(escaped(b) =~= a);
}

/// The arrows undo each other: right and left, and left and right.
pub proof fn law_arrows_undo(
    a: AppView,
    right: KeyEvent,
    left: KeyEvent,
    now: u64,
    nanos: int,
    themes: Seq<Theme>,
)
    requires
        right.code == KeyCode::Right,
        left.code == KeyCode::Left,
        !right.shift,
        !left.shift,
    ensures
        main_key(main_key(a, right, now, nanos, themes).0, left, now, nanos, themes).0 == a,
        main_key(main_key(a, left, now, nanos, themes).0, right, now, nanos, themes).0 == a,
{
}

/// Going on and back among the sections leads to the same section, at its first
/// row that can be selected.
pub proof fn law_sections_undo(a: AppView)
    requires
        a.details.len() == 0,
        !a.searching,
    ensures
        section_shifted(section_shifted(a, 1), -1) == a.at_first_row(),
        section_shifted(section_shifted(a, -1), 1) == a.at_first_row(),
{
}

/// Sorting keeps every row of the list that is shown, and changes no other list.
pub proof fn law_sorting_keeps_rows(a: AppView)
    ensures
        resorted(a).cur_items() == sorted_list(a.cur_items(), a.sort.following()),
        resorted(a).cur_items().to_multiset() == a.cur_items().to_multiset(),
        a.details.len() > 0 ==> resorted(a).library == a.library && resorted(a).search_results
            == a.search_results,
        a.details.len() == 0 && a.searching ==> resorted(a).library == a.library,
        forall|s: Section|
            s != a.section ==> #[trigger] resorted(a).library.get(s) == a.library.get(s),
{
    law_sorted_list(a.cur_items(), a.sort.following());
}

/// Going through all sort orders, back to "added", brings a fetched list back.
pub proof fn law_sorting_comes_around(a: AppView)
    requires
        a.sort == SortMode::Added,
        in_fetch_order(a.cur_items()),
        pinned_at_the_top(a.cur_items()),
    ensures
        resorted(resorted(resorted(a))).cur_items() == a.cur_items(),
        resorted(resorted(resorted(a))).sort == SortMode::Added,
{
    let s = a.cur_items();
    let b = resorted(a);
    let c = resorted(b);
    law_sorting_keeps_rows(a);
    law_sorting_keeps_rows(b);
    law_sorting_keeps_rows(c);
    law_sorting_rearranges(s, s, SortMode::Title);
    law_sorting_rearranges(b.cur_items(), s, SortMode::Artist);
    law_added_brings_back(c.cur_items(), s);
}

/// In another section, the selection is not on a heading, unless the section has
/// nothing but headings.
pub proof fn law_section_starts_at_a_row(a: AppView, delta: int)
    requires
        section_shifted(a, delta).cur_items().len() <= usize::MAX,
    ensures
        section_shifted(a, delta).selected_item() matches Some(i) ==> !i.is_header || forall|k: int|
            0 <= k < section_shifted(a, delta).cur_items().len() ==> (
            #[trigger] section_shifted(a, delta).cur_items()[k]).is_header,
{
    let b = section_shifted(a, delta);
    let items = b.cur_items();
    let n = items.len() as int;
    lemma_first_is(n, selectable(items));
    assert(b.selected == first_row(items));
    if first(n, selectable(items)) < n {
        assert(selectable(items)(first(n, selectable(items))));
    } else {
        assert forall|k: int| 0 <= k < items.len() implies (#[trigger] items[k]).is_header by {
            assert(!selectable(items)(k));
        }
    }
}

/// The selection in the action menu stays on an entry.
pub proof fn law_menu_selection_stays(a: AppView, menu: ActionMenuView, code: KeyCode)
    requires
        a.actions == Some(menu),
        menu.selected < menu.items.len(),
        code != KeyCode::Enter,
        menu.items.len() <= usize::MAX,
    ensures
        action_key(a, menu, code).0.actions matches Some(m) ==> m.items == menu.items && m.selected
            < m.items.len(),
{
}

// ---------------------------------------------------------------------------
// The queue
// ---------------------------------------------------------------------------

/// Every queued track has a name: the queue's two lists are as long as each other.
pub open spec fn queue_in_step(a: AppView) -> bool {
    a.queue.len() == a.queue_uris.len()
}

proof fn lemma_playing_keeps_step(a: AppView, shuffle: bool, now: u64, nanos: int)
    requires
        queue_in_step(a),
    ensures
        queue_in_step(a.play_next(nanos).0),
        queue_in_step(a.play_prev(now).0),
        queue_in_step(entered(a).0),
        queue_in_step(a.play_selected_context(shuffle).0),
{
}

#[verifier::spinoff_prover]
#[verifier::rlimit(60)]
proof fn lemma_main_key_keeps_step(
    a: AppView,
    key: KeyEvent,
    now: u64,
    nanos: int,
    themes: Seq<Theme>,
)
    requires
        queue_in_step(a),
    ensures
        queue_in_step(main_key(a, key, now, nanos, themes).0),
{
    lemma_playing_keeps_step(a, false, now, nanos);
    lemma_playing_keeps_step(AppView { shuffle: true, ..a }, true, now, nanos);
}

proof fn lemma_action_keeps_step(a: AppView, menu: ActionMenuView, code: KeyCode)
    requires
        queue_in_step(a),
    ensures
        queue_in_step(action_key(a, menu, code).0),
{
}

/// No key brings the queue's two lists out of step.
pub proof fn law_keys_keep_the_queue_in_step(
    a: AppView,
    key: KeyEvent,
    now: u64,
    nanos: int,
    themes: Seq<Theme>,
)
    requires
        queue_in_step(a),
    ensures
        queue_in_step(key_step(a, key, now, nanos, themes).0),
{
    if is_ctrl_c(key) {
    } else if a.login_modal is Some {
        law_login_form_captures(a, key, now, nanos, themes);
    } else if a.actions is Some {
        lemma_action_keeps_step(a, a.actions->0, key.code);
    } else if !a.input_mode {
        lemma_main_key_keeps_step(a, key, now, nanos, themes);
    }
}

/// No event of the engine and no click brings the queue's two lists out of step.
pub proof fn law_events_keep_the_queue_in_step(
    a: AppView,
    ev: EngineEventView,
    column: u16,
    row: u16,
    now: u64,
    nanos: int,
)
    requires
        queue_in_step(a),
    ensures
        queue_in_step(engine_step(a, ev, now, nanos).0),
        queue_in_step(click_step(a, column, row, now).0),
{
    lemma_playing_keeps_step(a, false, now, nanos);
    if let Some(i) = row_under(a, column as int, row as int) {
        lemma_playing_keeps_step(
            AppView { selected: i as usize, last_click: None, ..a },
            false,
            now,
            nanos,
        );
    }
}

/// A track that is to be played next is: skipping on then plays it, and leaves the
/// queue as it was.
pub proof fn law_play_next_plays_next(a: AppView, uri: Seq<char>, nanos: int)
    ensures
        ({
            let b = action(a, ActionKindView::PlayNext { uri }).0;
            let (c, effects) = b.play_next(nanos);
            &&& c.queue_uris == a.queue_uris
            &&& c.queue == a.queue
            &&& effects == play_effects(queued_item(a.cur_items(), uri))
        }),
{
    let b = action(a, ActionKindView::PlayNext { uri }).0;
    assert(b.queue_uris.drop_first() =~= a.queue_uris);
    assert(b.queue.drop_first() =~= a.queue);
    assert(b.cur_items() == a.cur_items());
}

/// Queued tracks are played in the order in which they were queued: a track put at
/// the end comes after all that were there.
pub proof fn law_queue_keeps_its_order(a: AppView, uri: Seq<char>, nanos: int)
    ensures
        ({
            let b = action(a, ActionKindView::Queue { uri }).0;
            &&& b.queue_uris == a.queue_uris.push(uri)
            &&& a.queue_uris.len() == 0 ==> b.play_next(nanos).1 == play_effects(
                queued_item(a.cur_items(), uri),
            )
            &&& a.queue_uris.len() > 0 ==> b.play_next(nanos).1 == a.play_next(nanos).1
                && b.play_next(nanos).0.queue_uris == a.play_next(nanos).0.queue_uris.push(uri)
        }),
{
    let b = action(a, ActionKindView::Queue { uri }).0;
    assert(b.cur_items() == a.cur_items());
    if a.queue_uris.len() > 0 {
        assert(b.queue_uris.drop_first() =~= a.queue_uris.drop_first().push(uri));
        assert(b.queue_uris[0] == a.queue_uris[0]);
    } else {
        assert(b.queue_uris[0] == uri);
    }
}

// ---------------------------------------------------------------------------
// Playing
// ---------------------------------------------------------------------------

/// The keys that play and pause.
pub open spec fn is_play_key(code: KeyCode) -> bool {
    code == KeyCode::Char(' ') || code == KeyCode::Char('p') || code == KeyCode::Media(
        MediaKey::PlayPause,
    )
}

/// The keys that skip on.
pub open spec fn is_next_key(code: KeyCode) -> bool {
    code == KeyCode::Char('n') || code == KeyCode::Media(MediaKey::TrackNext)
}

/// The keys that skip back.
pub open spec fn is_previous_key(code: KeyCode) -> bool {
    code == KeyCode::Char('b') || code == KeyCode::Media(MediaKey::TrackPrevious)
}

/// The keys that raise the volume.
pub open spec fn is_raise_key(code: KeyCode) -> bool {
    code == KeyCode::Char('+') || code == KeyCode::Char('=') || code == KeyCode::Media(
        MediaKey::RaiseVolume,
    )
}

/// The keys that lower the volume.
pub open spec fn is_lower_key(code: KeyCode) -> bool {
    code == KeyCode::Char('-') || code == KeyCode::Char('_') || code == KeyCode::Media(
        MediaKey::LowerVolume,
    )
}

/// The keys that move down.
pub open spec fn is_down_key(code: KeyCode) -> bool {
    code == KeyCode::Down || code == KeyCode::Char('j')
}

/// The keys that move up.
pub open spec fn is_up_key(code: KeyCode) -> bool {
    code == KeyCode::Up || code == KeyCode::Char('k')
}

/// The keys that go on to the next section.
pub open spec fn is_section_key(code: KeyCode) -> bool {
    code == KeyCode::Tab || code == KeyCode::Char(']')
}

/// Two keys stand for the same command.
pub open spec fn mean_the_same(a: KeyCode, b: KeyCode) -> bool {
    ||| is_play_key(a) && is_play_key(b)
    ||| is_next_key(a) && is_next_key(b)
    ||| is_previous_key(a) && is_previous_key(b)
    ||| is_raise_key(a) && is_raise_key(b)
    ||| is_lower_key(a) && is_lower_key(b)
    ||| is_down_key(a) && is_down_key(b)
    ||| is_up_key(a) && is_up_key(b)
    ||| is_section_key(a) && is_section_key(b)
}

/// While nothing captures the keyboard, a media key and every other key for a
/// command does what the command's letter does, and none of them quits.
pub proof fn law_alternative_keys(
    a: AppView,
    one: KeyEvent,
    other: KeyEvent,
    now: u64,
    nanos: int,
    themes: Seq<Theme>,
)
    requires
        is_browsing(a),
        mean_the_same(one.code, other.code),
    ensures
        key_step(a, one, now, nanos, themes) == key_step(a, other, now, nanos, themes),
        !key_step(a, one, now, nanos, themes).2,
{
}

/// The volume never rises above a hundred.
pub proof fn law_volume_is_bounded(
    a: AppView,
    key: KeyEvent,
    now: u64,
    nanos: int,
    themes: Seq<Theme>,
)
    requires
        a.volume <= 100,
    ensures
        key_step(a, key, now, nanos, themes).0.volume <= 100,
{
    law_volume_keys(a, key, now, nanos, themes);
}

proof fn lemma_playing_keeps_the_volume(a: AppView, shuffle: bool, now: u64, nanos: int)
    ensures
        a.play_next(nanos).0.volume == a.volume,
        a.play_prev(now).0.volume == a.volume,
        entered(a).0.volume == a.volume,
        a.play_selected_context(shuffle).0.volume == a.volume,
{
}

#[verifier::spinoff_prover]
#[verifier::rlimit(60)]
proof fn lemma_main_key_keeps_the_volume(
    a: AppView,
    key: KeyEvent,
    now: u64,
    nanos: int,
    themes: Seq<Theme>,
)
    requires
        !is_raise_key(key.code),
        !is_lower_key(key.code),
    ensures
        main_key(a, key, now, nanos, themes).0.volume == a.volume,
{
    lemma_playing_keeps_the_volume(a, false, now, nanos);
    lemma_playing_keeps_the_volume(AppView { shuffle: true, ..a }, true, now, nanos);
}

/// While nothing captures the keyboard, the keys for the volume move it by five, at
/// most to a hundred and at least to nought. No other key changes it, nor does any
/// key while something captures the keyboard.
pub proof fn law_volume_keys(a: AppView, key: KeyEvent, now: u64, nanos: int, themes: Seq<Theme>)
    ensures
        ({
            let volume = key_step(a, key, now, nanos, themes).0.volume;
            if is_browsing(a) && is_raise_key(key.code) {
                volume == (if a.volume + 5 < 100 {
                    a.volume + 5
                } else {
                    100
                })
            } else if is_browsing(a) && is_lower_key(key.code) {
                volume == (if a.volume > 5 {
                    a.volume - 5
                } else {
                    0
                })
            } else {
                volume == a.volume
            }
        }),
{
    if is_ctrl_c(key) {
    } else if a.login_modal is Some {
        law_login_form_captures(a, key, now, nanos, themes);
    } else if is_browsing(a) && !is_raise_key(key.code) && !is_lower_key(key.code) {
        lemma_main_key_keeps_the_volume(a, key, now, nanos, themes);
    }
}

/// The position never lies behind the end of the track, and without a track it is
/// nought.
pub proof fn law_position_lies_in_the_track(a: AppView, now: u64)
    ensures
        0 <= a.position(now),
        a.now matches Some(n) ==> a.position(now) <= n.duration_ms,
        a.now is None ==> a.position(now) == 0,
{
}

/// After a seek the position is what was asked for, or the end of the track.
pub proof fn law_seeking_gets_there(a: AppView, position_ms: u32, now: u64)
    ensures
        a.now matches Some(n) ==> {
            &&& a.seek_to(position_ms as int, now).0.position(now) == (if position_ms
                < n.duration_ms {
                position_ms
            } else {
                n.duration_ms
            })
            &&& a.seek_to(position_ms as int, now).1.len() == 1
        },
        a.now is None ==> a.seek_to(position_ms as int, now).0 == a,
{
}

/// While a track plays, time takes it forward; while it does not, time does not.
pub proof fn law_time_takes_a_track_forward(a: AppView, now: u64, later: u64)
    requires
        now <= later,
        later < 0x1_0000_0000 * 1_000_000,
        a.now matches Some(n) ==> n.position_at <= now,
    ensures
        a.position(now) <= a.position(later),
        (a.now matches Some(n) ==> !n.is_playing) ==> a.position(now) == a.position(later),
{
    if let Some(n) = a.now {
        let d0 = (now - n.position_at) / 1000000;
        let d1 = (later - n.position_at) / 1000000;
        assert(d0 <= d1 < 0x1_0000_0000);
    }
}

/// What is found out about a track that is no longer waited for changes nothing.
pub proof fn law_stale_news_are_ignored(a: AppView, meta: TrackMetaView, now: u64)
    requires
        a.pending_meta matches Some(p) && p != meta.uri,
    ensures
        meta_applied(a, meta, now) == (a, Seq::<EffectView>::empty()),
{
}

/// What a track change asks for is what is then taken over: news about the track
/// that has just changed are never stale.
pub proof fn law_awaited_news_are_taken(a: AppView, id: Seq<char>, now: u64, nanos: int)
    ensures
        ({
            let b = engine_step(
                a,
                EngineEventView::TrackChanged { uri: TRACK@ + id },
                now,
                nanos,
            );
            &&& b.1 == seq![EffectView::FetchMeta(id)]
            &&& is_awaited(b.0.pending_meta, TRACK@ + id)
        }),
{
    let uri = TRACK@ + id;
    assert(uri.take(TRACK@.len() as int) =~= TRACK@);
    assert(uri.skip(TRACK@.len() as int) =~= id);
    assert(after_prefix(uri, TRACK@) == Some(id));
}

/// A track has a cover if and only if the server sent one, and colours of its cover
/// only then.
pub proof fn law_cover_follows_the_reply(
    a: AppView,
    track_id: Seq<char>,
    song: Option<SongView>,
    cover: BytesReply,
    theme: Option<Theme>,
    now: u64,
)
    requires
        is_awaited(a.pending_meta, TRACK@ + track_id),
    ensures
        ({
            let meta = track_meta_of(track_id, song, holds_cover(cover), theme);
            let b = meta_applied(a, meta, now).0;
            &&& b.now matches Some(n) && n.uri == TRACK@ + track_id && n.cover == holds_cover(cover)
            &&& b.target == (match theme {
                Some(t) => if holds_cover(cover) {
                    t
                } else {
                    a.target
                },
                None => a.target,
            })
        }),
{
}

/// Something changes a like or a playlist on the server.
pub open spec fn changes_the_server(e: EffectView) -> bool {
    e is Star || e is Unstar || e is AddToPlaylist
}

/// None of these changes a like or a playlist on the server.
pub open spec fn leaves_the_server(effects: Seq<EffectView>) -> bool {
    forall|i: int| 0 <= i < effects.len() ==> !changes_the_server(#[trigger] effects[i])
}

proof fn lemma_playing_leaves_the_server(a: AppView, shuffle: bool, now: u64, nanos: int)
    ensures
        leaves_the_server(a.play_next(nanos).1),
        leaves_the_server(a.play_prev(now).1),
        leaves_the_server(entered(a).1),
        leaves_the_server(a.play_selected_context(shuffle).1),
{
}

#[verifier::spinoff_prover]
#[verifier::rlimit(60)]
proof fn lemma_main_key_leaves_the_server(
    a: AppView,
    key: KeyEvent,
    now: u64,
    nanos: int,
    themes: Seq<Theme>,
)
    requires
        a.subsonic is None,
    ensures
        leaves_the_server(main_key(a, key, now, nanos, themes).1),
{
    lemma_playing_leaves_the_server(a, false, now, nanos);
    lemma_playing_leaves_the_server(AppView { shuffle: true, ..a }, true, now, nanos);
}

/// Without a server none is changed: a key asks for no like and adds nothing to a
/// playlist.
pub proof fn law_without_a_server_nothing_is_changed(
    a: AppView,
    key: KeyEvent,
    now: u64,
    nanos: int,
    themes: Seq<Theme>,
)
    requires
        a.subsonic is None,
    ensures
        leaves_the_server(key_step(a, key, now, nanos, themes).1),
{
    if !is_ctrl_c(key) && is_browsing(a) {
        lemma_main_key_leaves_the_server(a, key, now, nanos, themes);
    }
}

/// Without a server, an entry of the menu that needs one says so, closes the menu
/// and does nothing else.
pub proof fn law_refused_actions_say_so(a: AppView, kind: ActionKindView)
    requires
        a.subsonic is None,
        kind is StarTrack || kind is UnstarTrack || kind is AddToPlaylist,
    ensures
        action(a, kind) == (
            AppView { actions: None, status: "not connected"@, ..a },
            Seq::<EffectView>::empty(),
        ),
{
}

/// A double click on a row is Enter on that row.
pub proof fn law_double_click_is_enter(a: AppView, column: u16, row: u16, now: u64, i: int)
    requires
        is_browsing(a),
        forall|k: int|
            0 <= k < a.tab_rects.len() ==> !(#[trigger] a.tab_rects[k]).1.has_cell(
                column as int,
                row as int,
            ),
        row_under(a, column as int, row as int) == Some(i),
        !a.cur_items()[i].is_header,
        is_double(a, row, now),
    ensures
        click_step(a, column, row, now) == entered(
            AppView { selected: i as usize, last_click: None, ..a },
        ),
{
    let p = tab_under(a.tab_rects, column as int, row as int);
    lemma_first_is(a.tab_rects.len() as int, p);
    let k = first(a.tab_rects.len() as int, p);
    if k < a.tab_rects.len() {
        assert(p(k));
        assert(!a.tab_rects[k].1.has_cell(column as int, row as int));
    }
}

/// The cover of a selected track is asked for once, not at every turn.
pub proof fn law_cover_is_asked_for_once(a: AppView)
    ensures
        cover_wanted(cover_wanted(a).0) == (cover_wanted(a).0, Seq::<EffectView>::empty()),
{
}

// ---------------------------------------------------------------------------
// Sessions
// ---------------------------------------------------------------------------

/// What one session leaves behind the next begins with: the volume, shuffle and
/// repeat, the queue and what is being played from.
pub proof fn law_sessions_continue(
    a: AppView,
    now: u64,
    theme: Theme,
    config: Option<NavidromeConfigView>,
)
    ensures
        ({
            let b = started(theme, config, saved(a, now)).0;
            &&& b.volume == a.volume
            &&& b.shuffle == a.shuffle
            &&& b.repeat == a.repeat
            &&& b.queue == a.queue
            &&& b.queue_uris == a.queue_uris
            &&& b.source == a.source
            &&& b.source_name == a.source_name
            &&& saved(b, now) == (crate::models::SavedStateView {
                last_played: None,
                ..saved(a, now)
            })
        }),
{
}

/// A start without a stored configuration asks for one; a start with one asks the
/// server for its library.
pub proof fn law_first_start_asks_for_a_server(
    theme: Theme,
    config: Option<NavidromeConfigView>,
    s: crate::models::SavedStateView,
)
    ensures
        started(theme, config, s).0.login_modal is Some <==> config is None,
        started(theme, config, s).0.subsonic == config,
        started(theme, config, s).1.len() == (if config is Some {
            1int
        } else {
            0int
        }),
{
}

/// Two presses of `s`, or of `R`, leave shuffle and repeat as they were.
pub proof fn law_switches_undo(a: AppView, key: KeyEvent, now: u64, nanos: int, themes: Seq<Theme>)
    requires
        key.code == KeyCode::Char('s') || key.code == KeyCode::Char('R'),
    ensures
        main_key(main_key(a, key, now, nanos, themes).0, key, now, nanos, themes).0 == a,
{
}

} // verus!
