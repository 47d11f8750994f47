//! What each key, click and event comes to, said of the state before and after.

use vstd::prelude::*;
use crate::app::{
    law_track_places, selectable, track_from, track_is, track_places, track_uris, uri_at, AppView,
    LIKED_PLAY, TRACK,
};
use crate::config::NavidromeConfigView;
use crate::effects::EffectView;
use crate::engine::EngineEventView;
use crate::events::{
    action, click_step, cover_wanted, engine_step, is_liked, key_step, logged_in, meta_applied, saved,
    tab_under,
};
use crate::finding::{lemma_first, lemma_first_is};
use crate::input::{KeyCode, KeyEvent, MediaKey};
use crate::login_modal::LoginModalView;
use crate::models::{
    ActionKindView, ActionMenuView, LibItemView, NowPlayingView, PlaySourceView, RightView, Section,
    SortMode, TrackMetaView, FADE_MS,
};
use crate::text::{after_prefix, is_blank, white_space};
use crate::theme::{Theme, ThemeFade};
use crate::ui::geometry::Rect;

verus! {

/// Nothing is open that captures the keyboard: no login form, no menu, no search
/// line.
pub open spec fn is_free(a: AppView) -> bool {
    a.login_modal is None && a.actions is None && !a.input_mode
}

// ---------------------------------------------------------------------------
// Searching
// ---------------------------------------------------------------------------

/// Enter on a search line asks the server for the typed text, without the white
/// space at its two ends and with everything between them; nothing is asked where
/// nothing else was typed.
pub proof fn law_search_asks_for_what_was_typed(
    a: AppView,
    key: KeyEvent,
    before: Seq<char>,
    q: Seq<char>,
    after: Seq<char>,
    now: u64,
    nanos: int,
    themes: Seq<Theme>,
)
    requires
        a.login_modal is None,
        a.actions is None,
        a.input_mode,
        key.code == KeyCode::Enter,
        a.query == before + q + after,
        is_blank(before),
        is_blank(after),
        q.len() > 0 ==> !white_space(q[0]) && !white_space(q.last()),
    ensures
        q.len() > 0 ==> key_step(a, key, now, nanos, themes) == (
            AppView {
                input_mode: false,
                searching: true,
                selected: 0,
                status: "searching…"@,
                ..a
            },
            seq![EffectView::Search(q)],
            false,
        ),
        q.len() == 0 ==> key_step(a, key, now, nanos, themes) == (
            AppView { input_mode: false, ..a },
            Seq::<EffectView>::empty(),
            false,
        ),
{
    crate::text::law_trimming_takes_the_ends(before, q, after);
}

/// On a search line, Backspace takes the last character back, Esc leaves the line,
/// and what was typed stays.
pub proof fn law_search_line_is_edited(
    a: AppView,
    key: KeyEvent,
    now: u64,
    nanos: int,
    themes: Seq<Theme>,
)
    requires
        a.login_modal is None,
        a.actions is None,
        a.input_mode,
    ensures
        key.code == KeyCode::Esc ==> key_step(a, key, now, nanos, themes) == (
            AppView { input_mode: false, ..a },
            Seq::<EffectView>::empty(),
            false,
        ),
        key.code == KeyCode::Backspace && a.query.len() > 0 ==> key_step(
            a,
            key,
            now,
            nanos,
            themes,
        ) == (
            AppView { query: a.query.take(a.query.len() - 1), ..a },
            Seq::<EffectView>::empty(),
            false,
        ),
        key.code == KeyCode::Backspace && a.query.len() == 0 ==> key_step(
            a,
            key,
            now,
            nanos,
            themes,
        ) == (a, Seq::<EffectView>::empty(), false),
{
    if a.query.len() > 0 {
        assert(a.query.drop_last() =~= a.query.take(a.query.len() - 1));
    }
}

/// A slash opens an empty search line.
pub proof fn law_slash_opens_the_search_line(
    a: AppView,
    key: KeyEvent,
    now: u64,
    nanos: int,
    themes: Seq<Theme>,
)
    requires
        is_free(a),
        key.code == KeyCode::Char('/'),
    ensures
        key_step(a, key, now, nanos, themes) == (
            AppView { input_mode: true, query: Seq::empty(), ..a },
            Seq::<EffectView>::empty(),
            false,
        ),
{
}

// ---------------------------------------------------------------------------
// Likes
// ---------------------------------------------------------------------------

/// A track is liked exactly if some liked row, at any place, has its URI.
pub proof fn law_likes_are_rows(a: AppView, uri: Seq<char>)
    ensures
        is_liked(a, uri) <==> exists|i: int|
            0 <= i < a.library.liked.len() && (#[trigger] a.library.liked[i]).uri == uri,
{
    let items = a.library.liked;
    let n = items.len() as int;
    let p = uri_at(items, uri);
    lemma_first_is(n, p);
    let k = crate::finding::first(n, p);
    if k < n {
        assert(p(k));
        assert(items[k].uri == uri);
    }
    if exists|i: int| 0 <= i < n && (#[trigger] items[i]).uri == uri {
        let i = choose|i: int| 0 <= i < n && (#[trigger] items[i]).uri == uri;
        assert(p(i));
        if k >= n {
            assert(!p(i));
        }
    }
}

/// Pressing `l` on a track of the server takes the like back exactly if some liked
/// row has its URI, and likes it otherwise; it says so, and changes nothing else.
pub proof fn law_like_key(
    a: AppView,
    key: KeyEvent,
    id: Seq<char>,
    now: u64,
    nanos: int,
    themes: Seq<Theme>,
)
    requires
        is_free(a),
        key.code == KeyCode::Char('l'),
        a.subsonic is Some,
        a.selected < a.cur_items().len(),
        a.cur_items()[a.selected as int].is_track,
        a.cur_items()[a.selected as int].uri == TRACK@ + id,
    ensures
        ({
            let item = a.cur_items()[a.selected as int];
            if exists|i: int|
                0 <= i < a.library.liked.len() && (#[trigger] a.library.liked[i]).uri == item.uri {
                key_step(a, key, now, nanos, themes) == (
                    AppView { status: "unliking "@ + item.name + "…"@, ..a },
                    seq![EffectView::Unstar(id)],
                    false,
                )
            } else {
                key_step(a, key, now, nanos, themes) == (
                    AppView { status: "liking "@ + item.name + "…"@, ..a },
                    seq![EffectView::Star(id)],
                    false,
                )
            }
        }),
{
    let item = a.cur_items()[a.selected as int];
    law_likes_are_rows(a, item.uri);
    lemma_track_uri(id);
}

/// Pressing `l` elsewhere does nothing: without a server, on a row that is no track,
/// and where no row is selected.
pub proof fn law_like_key_elsewhere(
    a: AppView,
    key: KeyEvent,
    now: u64,
    nanos: int,
    themes: Seq<Theme>,
)
    requires
        is_free(a),
        key.code == KeyCode::Char('l'),
        a.subsonic is None || a.selected >= a.cur_items().len()
            || !a.cur_items()[a.selected as int].is_track,
    ensures
        key_step(a, key, now, nanos, themes) == (a, Seq::<EffectView>::empty(), false),
{
}

proof fn lemma_track_uri(id: Seq<char>)
    ensures
        after_prefix(TRACK@ + id, TRACK@) == Some(id),
{
    let uri = TRACK@ + id;
    assert(uri.take(TRACK@.len() as int) =~= TRACK@);
    assert(uri.skip(TRACK@.len() as int) =~= id);
}

// ---------------------------------------------------------------------------
// Skipping
// ---------------------------------------------------------------------------

/// The rows at these places are the tracks of the list: all of them, in their order.
pub open spec fn are_the_tracks(places: Seq<int>, items: Seq<LibItemView>) -> bool {
    &&& forall|k: int|
        0 <= k < places.len() ==> 0 <= #[trigger] places[k] < items.len() && items[places[k]].is_track
            && !items[places[k]].is_header
    &&& forall|j: int, k: int|
        0 <= j < k < places.len() ==> #[trigger] places[j] < #[trigger] places[k]
    &&& forall|i: int|
        0 <= i < items.len() && (#[trigger] items[i]).is_track && !items[i].is_header
            ==> places.contains(i)
}

/// Ascending places of the same rows are the same places.
proof fn lemma_same_places(p: Seq<int>, q: Seq<int>)
    requires
        forall|j: int, k: int| 0 <= j < k < p.len() ==> #[trigger] p[j] < #[trigger] p[k],
        forall|j: int, k: int| 0 <= j < k < q.len() ==> #[trigger] q[j] < #[trigger] q[k],
        forall|x: int| #[trigger] p.contains(x) <==> q.contains(x),
    ensures
        p == q,
    decreases p.len(),
{
    if p.len() == 0 {
        if q.len() > 0 {
            assert(q.contains(q[0]));
            assert(p.contains(q[0]));
        }
        assert(p =~= q);
    } else {
        let x = p.last();
        assert(p.contains(x));
        assert(q.contains(x));
        let y = q.last();
        assert(q.contains(y));
        assert(p.contains(y));
        let i = choose|i: int| 0 <= i < q.len() && q[i] == x;
        let j = choose|j: int| 0 <= j < p.len() && p[j] == y;
        assert(x <= y) by {
            if i < q.len() - 1 {
                assert(q[i] < q[q.len() - 1]);
            }
        }
        assert(y <= x) by {
            if j < p.len() - 1 {
                assert(p[j] < p[p.len() - 1]);
            }
        }
        let p1 = p.drop_last();
        let q1 = q.drop_last();
        assert forall|z: int| #[trigger] p1.contains(z) <==> q1.contains(z) by {
            if p1.contains(z) {
                let k = choose|k: int| 0 <= k < p1.len() && p1[k] == z;
                assert(p[k] == z && p[k] < p[p.len() - 1]);
                assert(p.contains(z));
                let m = choose|m: int| 0 <= m < q.len() && q[m] == z;
                assert(q1[m] == z);
            }
            if q1.contains(z) {
                let k = choose|k: int| 0 <= k < q1.len() && q1[k] == z;
                assert(q[k] == z && q[k] < q[q.len() - 1]);
                assert(q.contains(z));
                assert(p.contains(z));
                let m = choose|m: int| 0 <= m < p.len() && p[m] == z;
                assert(p1[m] == z);
            }
        }
        lemma_same_places(p1, q1);
        assert(p =~= p1.push(x));
        assert(q =~= q1.push(y));
    }
}

proof fn lemma_the_tracks(places: Seq<int>, items: Seq<LibItemView>)
    requires
        are_the_tracks(places, items),
    ensures
        places == track_places(items),
{
    law_track_places(items);
    let q = track_places(items);
    assert forall|x: int| #[trigger] places.contains(x) <==> q.contains(x) by {
        if places.contains(x) {
            let k = choose|k: int| 0 <= k < places.len() && places[k] == x;
            assert(0 <= places[k] < items.len());
            assert(crate::app::is_track_row(items[x]));
        }
        if q.contains(x) {
            let k = choose|k: int| 0 <= k < q.len() && q[k] == x;
            assert(0 <= q[k] < items.len() && crate::app::is_track_row(items[q[k]]));
            assert(items[x].is_track && !items[x].is_header);
        }
    }
    lemma_same_places(places, q);
}

/// The track that plays is the `i`th of the tracks at these places.
pub open spec fn plays_the(a: AppView, places: Seq<int>, i: int) -> bool {
    &&& a.now is Some
    &&& 0 <= i < places.len()
    &&& a.cur_items()[places[i]].uri == a.now->0.uri
    &&& forall|j: int| 0 <= j < i ==> a.cur_items()[#[trigger] places[j]].uri != a.now->0.uri
}

/// What plays is none of the tracks at these places.
pub open spec fn plays_none_of(a: AppView, places: Seq<int>) -> bool {
    a.now is Some ==> forall|j: int|
        0 <= j < places.len() ==> a.cur_items()[#[trigger] places[j]].uri != a.now->0.uri
}

proof fn lemma_playing(a: AppView, places: Seq<int>, i: int)
    requires
        plays_the(a, places, i),
    ensures
        crate::finding::first(
            places.len() as int,
            track_is(a.cur_items(), places, a.now->0.uri),
        ) == i,
{
    let p = track_is(a.cur_items(), places, a.now->0.uri);
    assert forall|j: int| 0 <= j < i implies !#[trigger] p(j) by {
        assert(a.cur_items()[places[j]].uri != a.now->0.uri);
    }
    lemma_first(i, places.len() as int, p);
}

proof fn lemma_playing_none(a: AppView, places: Seq<int>)
    requires
        a.now is Some,
        plays_none_of(a, places),
    ensures
        crate::finding::first(
            places.len() as int,
            track_is(a.cur_items(), places, a.now->0.uri),
        ) == places.len(),
{
    let p = track_is(a.cur_items(), places, a.now->0.uri);
    assert forall|j: int| 0 <= j < places.len() implies !#[trigger] p(j) by {
        assert(a.cur_items()[places[j]].uri != a.now->0.uri);
    }
    lemma_first(places.len() as int, places.len() as int, p);
}

/// A row is asked to be played: a track of the server, by its ID.
pub open spec fn asks_to_play(effects: Seq<EffectView>, item: LibItemView) -> bool {
    forall|id: Seq<char>|
        item.uri == #[trigger] (TRACK@ + id) ==> effects == seq![
            EffectView::PlayTrack { id, uri: item.uri, name: item.name, subtitle: item.subtitle },
        ]
}

proof fn lemma_asks_to_play(item: LibItemView)
    requires
        item.is_track,
    ensures
        asks_to_play(crate::app::play_effects(item), item),
{
    assert forall|id: Seq<char>| item.uri == #[trigger] (TRACK@ + id) implies crate::app::play_effects(
        item,
    ) == seq![
        EffectView::PlayTrack { id, uri: item.uri, name: item.name, subtitle: item.subtitle },
    ] by {
        lemma_track_uri(id);
    }
}

/// With an empty queue and without shuffling, skipping on plays the track that
/// follows the one that plays, the first after the last, whichever row is selected;
/// it becomes the selected one, and nothing else changes.
pub proof fn law_next_follows_what_plays(a: AppView, places: Seq<int>, i: int, nanos: int)
    requires
        a.queue_uris.len() == 0,
        !a.shuffle,
        a.cur_items().len() <= usize::MAX,
        are_the_tracks(places, a.cur_items()),
        plays_the(a, places, i),
    ensures
        ({
            let k = if i + 1 < places.len() {
                places[i + 1]
            } else {
                places[0]
            };
            &&& a.play_next(nanos).0 == (AppView { selected: k as usize, ..a })
            &&& asks_to_play(a.play_next(nanos).1, a.cur_items()[k])
        }),
{
    lemma_the_tracks(places, a.cur_items());
    lemma_playing(a, places, i);
    crate::app::law_previous_undoes_next(i, places.len() as int, nanos);
    let k = if i + 1 < places.len() {
        places[i + 1]
    } else {
        places[0]
    };
    assert(a.cur_items()[k].is_track);
    lemma_asks_to_play(a.cur_items()[k]);
}

/// With an empty queue and shuffling, skipping on plays another of the tracks, if
/// there is another: as many behind the one that plays as the number says, counted
/// around the end.
pub proof fn law_next_shuffles(a: AppView, places: Seq<int>, i: int, nanos: int)
    requires
        a.queue_uris.len() == 0,
        a.shuffle,
        a.cur_items().len() <= usize::MAX,
        are_the_tracks(places, a.cur_items()),
        plays_the(a, places, i),
        nanos >= 0,
    ensures
        exists|k: int|
            {
                &&& 0 <= k < places.len()
                &&& places.len() >= 2 ==> k != i
                &&& k == (i + 1 + (if places.len() >= 2 {
                    nanos % (places.len() - 1)
                } else {
                    0
                })) % places.len() as int
                &&& a.play_next(nanos).0 == (AppView { selected: #[trigger] places[k] as usize, ..a })
                &&& asks_to_play(a.play_next(nanos).1, a.cur_items()[places[k]])
            },
{
    lemma_the_tracks(places, a.cur_items());
    lemma_playing(a, places, i);
    let n = places.len() as int;
    let k = crate::app::place_after(i, n, true, nanos);
    if n >= 2 {
        crate::app::law_shuffle_never_repeats(i, n, nanos);
        assert(n - 1 > 1 || nanos % 1 == 0);
    } else {
        assert(nanos % 1 == 0);
    }
    assert(0 <= k < n) by {
        vstd::arithmetic::div_mod::lemma_mod_bound(
            i + 1 + nanos % (if n - 1 > 1 {
                n - 1
            } else {
                1
            }),
            n,
        );
    }
    assert(a.cur_items()[places[k]].is_track);
    lemma_asks_to_play(a.cur_items()[places[k]]);
}

/// With an empty queue, where nothing of the list plays, skipping on plays the first
/// track at the selected row or below it, or the first of all.
pub proof fn law_next_begins_at_the_selection(a: AppView, places: Seq<int>, i: int, nanos: int)
    requires
        a.queue_uris.len() == 0,
        a.cur_items().len() <= usize::MAX,
        are_the_tracks(places, a.cur_items()),
        plays_none_of(a, places),
        0 <= i <= places.len(),
        places.len() > 0,
        forall|j: int| 0 <= j < i ==> #[trigger] places[j] < a.selected,
        i < places.len() ==> places[i] >= a.selected,
    ensures
        ({
            let k = if i < places.len() {
                places[i]
            } else {
                places[0]
            };
            &&& a.play_next(nanos).0 == (AppView { selected: k as usize, ..a })
            &&& asks_to_play(a.play_next(nanos).1, a.cur_items()[k])
        }),
{
    lemma_the_tracks(places, a.cur_items());
    if a.now is Some {
        lemma_playing_none(a, places);
    }
    let p = track_from(places, a.selected as int);
    assert forall|j: int| 0 <= j < i implies !#[trigger] p(j) by {
        assert(places[j] < a.selected);
    }
    lemma_first(i, places.len() as int, p);
    let k = if i < places.len() {
        places[i]
    } else {
        places[0]
    };
    assert(a.cur_items()[k].is_track);
    lemma_asks_to_play(a.cur_items()[k]);
}

/// Skipping on in a list without tracks does nothing, with an empty queue.
pub proof fn law_next_needs_a_track(a: AppView, nanos: int, now: u64)
    requires
        are_the_tracks(Seq::<int>::empty(), a.cur_items()),
    ensures
        a.queue_uris.len() == 0 ==> a.play_next(nanos) == (a, Seq::<EffectView>::empty()),
        a.position(now) <= 3000 ==> a.play_prev(now) == (a, Seq::<EffectView>::empty()),
{
    lemma_the_tracks(Seq::<int>::empty(), a.cur_items());
}

/// Skipping back goes to the start of a track that has played for more than three
/// seconds. Else it plays the track before the one that plays, the last before the
/// first; or the first of all where nothing of the list plays.
pub proof fn law_previous_precedes_what_plays(a: AppView, places: Seq<int>, i: int, now: u64)
    requires
        a.cur_items().len() <= usize::MAX,
        are_the_tracks(places, a.cur_items()),
        places.len() > 0,
        plays_the(a, places, i) || plays_none_of(a, places),
    ensures
        a.position(now) > 3000 ==> a.play_prev(now).1 == seq![EffectView::Seek(0)]
            && a.play_prev(now).0 == (AppView {
            now: Some(NowPlayingView { position_ms: 0, position_at: now, ..a.now->0 }),
            ..a
        }),
        a.position(now) <= 3000 ==> ({
            let k = if plays_the(a, places, i) {
                if i > 0 {
                    places[i - 1]
                } else {
                    places[places.len() - 1]
                }
            } else {
                places[0]
            };
            &&& a.play_prev(now).0 == (AppView { selected: k as usize, ..a })
            &&& asks_to_play(a.play_prev(now).1, a.cur_items()[k])
        }),
{
    lemma_the_tracks(places, a.cur_items());
    let k = if plays_the(a, places, i) {
        lemma_playing(a, places, i);
        if i > 0 {
            places[i - 1]
        } else {
            places[places.len() - 1]
        }
    } else {
        if a.now is Some {
            lemma_playing_none(a, places);
        }
        places[0]
    };
    assert(a.cur_items()[k].is_track);
    lemma_asks_to_play(a.cur_items()[k]);
}

/// The keys for the next and the previous track skip on and back, and so does the
/// end of the track that plays.
pub proof fn law_skipping_keys(
    a: AppView,
    key: KeyEvent,
    uri: Seq<char>,
    now: u64,
    nanos: int,
    themes: Seq<Theme>,
)
    requires
        is_free(a),
    ensures
        key.code == KeyCode::Char('n') || key.code == KeyCode::Media(MediaKey::TrackNext)
            ==> key_step(a, key, now, nanos, themes) == (
            a.play_next(nanos).0,
            a.play_next(nanos).1,
            false,
        ),
        key.code == KeyCode::Char('b') || key.code == KeyCode::Media(MediaKey::TrackPrevious)
            ==> key_step(a, key, now, nanos, themes) == (
            a.play_prev(now).0,
            a.play_prev(now).1,
            false,
        ),
        engine_step(a, EngineEventView::EndOfTrack { uri }, now, nanos) == if a.now is Some
            && a.now->0.uri == uri {
            a.play_next(nanos)
        } else {
            (a, Seq::<EffectView>::empty())
        },
{
}

/// A queued track is played from the front of the queue: under the name and the
/// artist of the first row with its URI, or as a queued track where there is none.
pub proof fn law_queued_track_is_played(a: AppView, i: int, id: Seq<char>, nanos: int)
    requires
        a.queue_uris.len() > 0,
        a.queue_uris[0] == TRACK@ + id,
        0 <= i <= a.cur_items().len(),
        forall|j: int| 0 <= j < i ==> (#[trigger] a.cur_items()[j]).uri != a.queue_uris[0],
        i < a.cur_items().len() ==> a.cur_items()[i].uri == a.queue_uris[0],
    ensures
        a.play_next(nanos).0 == (AppView {
            queue_uris: a.queue_uris.skip(1),
            queue: if a.queue.len() > 0 {
                a.queue.skip(1)
            } else {
                a.queue
            },
            ..a
        }),
        a.play_next(nanos).1 == seq![
            if i < a.cur_items().len() {
                EffectView::PlayTrack {
                    id,
                    uri: a.queue_uris[0],
                    name: a.cur_items()[i].name,
                    subtitle: a.cur_items()[i].subtitle,
                }
            } else {
                EffectView::PlayTrack {
                    id,
                    uri: a.queue_uris[0],
                    name: "Queued Track"@,
                    subtitle: Seq::empty(),
                }
            },
        ],
{
    let p = uri_at(a.cur_items(), a.queue_uris[0]);
    assert forall|j: int| 0 <= j < i implies !#[trigger] p(j) by {
        assert(a.cur_items()[j].uri != a.queue_uris[0]);
    }
    lemma_first(i, a.cur_items().len() as int, p);
    lemma_track_uri(id);
    assert(a.queue_uris.skip(1) =~= a.queue_uris.drop_first());
    if a.queue.len() > 0 {
        assert(a.queue.skip(1) =~= a.queue.drop_first());
    }
}

// ---------------------------------------------------------------------------
// What is shown, and where the track is
// ---------------------------------------------------------------------------

/// The list that is shown is the innermost detail; without one, what a search found
/// while one is shown; else the list of the section.
pub proof fn law_shown_list(a: AppView)
    ensures
        a.details.len() > 0 ==> a.cur_items() == a.details[a.details.len() - 1].items,
        a.details.len() == 0 && a.searching ==> a.cur_items() == a.search_results,
        a.details.len() == 0 && !a.searching ==> a.cur_items() == match a.section {
            Section::Home => a.library.home,
            Section::Recent => a.library.recent,
            Section::Playlists => a.library.playlists,
            Section::Liked => a.library.liked,
            Section::Albums => a.library.albums,
            Section::Artists => a.library.artists,
        },
{
}

/// While a track plays, its position is the last one known and the milliseconds
/// since then; while it does not, the last one known; never behind its end.
pub proof fn law_position_is_counted(a: AppView, n: NowPlayingView, now: u64)
    requires
        a.now == Some(n),
        n.position_at <= now,
        (now - n.position_at) / 1_000_000 < 0x1_0000_0000,
    ensures
        ({
            let since = if n.is_playing {
                (now - n.position_at) / 1_000_000
            } else {
                0
            };
            a.position(now) == if n.position_ms + since < n.duration_ms {
                n.position_ms + since
            } else {
                n.duration_ms as int
            }
        }),
{
}

// ---------------------------------------------------------------------------
// Simple keys
// ---------------------------------------------------------------------------

/// The keys that ask the engine: play and pause, and stop.
pub proof fn law_playback_keys(
    a: AppView,
    key: KeyEvent,
    now: u64,
    nanos: int,
    themes: Seq<Theme>,
)
    requires
        is_free(a),
    ensures
        key.code == KeyCode::Char(' ') || key.code == KeyCode::Char('p') || key.code
            == KeyCode::Media(MediaKey::PlayPause) ==> key_step(a, key, now, nanos, themes) == (
            a,
            seq![EffectView::TogglePlay],
            false,
        ),
        key.code == KeyCode::Media(MediaKey::Stop) ==> key_step(a, key, now, nanos, themes) == (
            a,
            seq![EffectView::Stop],
            false,
        ),
{
}

/// The switches: `s` turns shuffling on or off, and `R` repeating; the engine hears
/// of it, and nothing else changes.
pub proof fn law_switch_keys(a: AppView, key: KeyEvent, now: u64, nanos: int, themes: Seq<Theme>)
    requires
        is_free(a),
    ensures
        key.code == KeyCode::Char('s') ==> key_step(a, key, now, nanos, themes) == (
            AppView { shuffle: !a.shuffle, ..a },
            seq![EffectView::SetShuffle(!a.shuffle)],
            false,
        ),
        key.code == KeyCode::Char('R') ==> key_step(a, key, now, nanos, themes) == (
            AppView { repeat: !a.repeat, ..a },
            seq![EffectView::SetRepeat(!a.repeat)],
            false,
        ),
{
}

/// The keys for the volume tell the engine what the volume now is.
pub proof fn law_volume_is_told(a: AppView, key: KeyEvent, now: u64, nanos: int, themes: Seq<Theme>)
    requires
        is_free(a),
        a.volume <= 100,
    ensures
        key.code == KeyCode::Char('+') || key.code == KeyCode::Char('=') || key.code
            == KeyCode::Media(MediaKey::RaiseVolume) ==> ({
            let v = if a.volume <= 95 {
                (a.volume + 5) as u8
            } else {
                100u8
            };
            key_step(a, key, now, nanos, themes) == (
                AppView { volume: v, ..a },
                seq![EffectView::SetVolume(v)],
                false,
            )
        }),
        key.code == KeyCode::Char('-') || key.code == KeyCode::Char('_') || key.code
            == KeyCode::Media(MediaKey::LowerVolume) ==> ({
            let v = if a.volume >= 5 {
                (a.volume - 5) as u8
            } else {
                0u8
            };
            key_step(a, key, now, nanos, themes) == (
                AppView { volume: v, ..a },
                seq![EffectView::SetVolume(v)],
                false,
            )
        }),
{
}

/// `r` asks for the library again, and `L` for the stored configuration.
pub proof fn law_asking_keys(a: AppView, key: KeyEvent, now: u64, nanos: int, themes: Seq<Theme>)
    requires
        is_free(a),
    ensures
        key.code == KeyCode::Char('r') ==> key_step(a, key, now, nanos, themes) == (
            AppView { status: "loading library…"@, ..a },
            seq![EffectView::FetchLibrary],
            false,
        ),
        key.code == KeyCode::Char('L') ==> key_step(a, key, now, nanos, themes) == (
            a,
            seq![EffectView::LoadConfig],
            false,
        ),
{
}

/// Right goes from what is playing to the lyrics, from there to the queue and from
/// there back, and so does the shifted tab key; left goes the other way.
pub proof fn law_view_keys(a: AppView, key: KeyEvent, now: u64, nanos: int, themes: Seq<Theme>)
    requires
        is_free(a),
    ensures
        (key.code == KeyCode::Right && !key.shift) || key.code == KeyCode::BackTab ==> key_step(
            a,
            key,
            now,
            nanos,
            themes,
        ) == (
            AppView {
                view: match a.view {
                    RightView::NowPlaying => RightView::Lyrics,
                    RightView::Lyrics => RightView::Queue,
                    RightView::Queue => RightView::NowPlaying,
                },
                ..a
            },
            Seq::<EffectView>::empty(),
            false,
        ),
        key.code == KeyCode::Left && !key.shift ==> key_step(a, key, now, nanos, themes) == (
            AppView {
                view: match a.view {
                    RightView::NowPlaying => RightView::Queue,
                    RightView::Lyrics => RightView::NowPlaying,
                    RightView::Queue => RightView::Lyrics,
                },
                ..a
            },
            Seq::<EffectView>::empty(),
            false,
        ),
{
}

/// Shifted arrows seek by five seconds, at most to the end of the track and at least
/// to its start; the engine hears where to.
pub proof fn law_seek_keys(
    a: AppView,
    key: KeyEvent,
    n: NowPlayingView,
    now: u64,
    nanos: int,
    themes: Seq<Theme>,
)
    requires
        is_free(a),
        a.now == Some(n),
        key.shift,
        key.code == KeyCode::Right || key.code == KeyCode::Left,
        n.duration_ms <= u32::MAX - 5000,
    ensures
        ({
            let from = a.position(now);
            let to = if key.code == KeyCode::Left {
                if from >= 5000 {
                    from - 5000
                } else {
                    0
                }
            } else if from + 5000 < n.duration_ms {
                from + 5000
            } else {
                n.duration_ms as int
            };
            key_step(a, key, now, nanos, themes) == (
                AppView {
                    now: Some(NowPlayingView { position_ms: to as u32, position_at: now, ..n }),
                    ..a
                },
                seq![EffectView::Seek(to as u32)],
                false,
            )
        }),
{
    crate::laws::law_position_lies_in_the_track(a, now);
}

/// Without a track there is nothing to seek in.
pub proof fn law_seek_keys_without_a_track(
    a: AppView,
    key: KeyEvent,
    now: u64,
    nanos: int,
    themes: Seq<Theme>,
)
    requires
        is_free(a),
        a.now is None,
        key.shift,
        key.code == KeyCode::Right || key.code == KeyCode::Left,
    ensures
        key_step(a, key, now, nanos, themes) == (a, Seq::<EffectView>::empty(), false),
{
}

/// The section that follows another.
pub open spec fn section_after(s: Section) -> Section {
    match s {
        Section::Home => Section::Liked,
        Section::Liked => Section::Playlists,
        Section::Playlists => Section::Albums,
        Section::Albums => Section::Artists,
        Section::Artists => Section::Recent,
        Section::Recent => Section::Home,
    }
}

/// The row that a list is entered at: the first that is no heading, or the first of
/// all where there is none.
pub open spec fn is_entry_row(items: Seq<LibItemView>, i: int) -> bool {
    ||| 0 <= i < items.len() && !items[i].is_header && forall|j: int|
        0 <= j < i ==> (#[trigger] items[j]).is_header
    ||| i == 0 && forall|j: int| 0 <= j < items.len() ==> (#[trigger] items[j]).is_header
}

proof fn lemma_entry_row(items: Seq<LibItemView>)
    ensures
        is_entry_row(items, crate::app::first_row(items)),
{
    let p = selectable(items);
    lemma_first_is(items.len() as int, p);
    let k = crate::finding::first(items.len() as int, p);
    if k < items.len() {
        assert(p(k));
    }
    assert forall|j: int| 0 <= j < k implies (#[trigger] items[j]).is_header by {
        assert(!p(j));
    }
}

/// Tab and `]` go to the section that follows, the first after the last, and `[` to
/// the one before; a search that was shown is left, and the list is entered at its
/// first row that is no heading.
pub proof fn law_section_keys(a: AppView, key: KeyEvent, now: u64, nanos: int, themes: Seq<Theme>)
    requires
        is_free(a),
        key.code == KeyCode::Tab || key.code == KeyCode::Char(']') || key.code == KeyCode::Char('['),
    ensures
        ({
            let (b, effects, quits) = key_step(a, key, now, nanos, themes);
            &&& key.code == KeyCode::Char('[') ==> section_after(b.section) == a.section
            &&& key.code != KeyCode::Char('[') ==> b.section == section_after(a.section)
            &&& !b.searching
            &&& b == (AppView {
                section: b.section,
                searching: b.searching,
                selected: b.selected,
                ..a
            })
            &&& b.cur_items().len() <= usize::MAX ==> is_entry_row(
                b.cur_items(),
                b.selected as int,
            )
            &&& effects.len() == 0
            &&& !quits
        }),
{
    let b = key_step(a, key, now, nanos, themes).0;
    lemma_entry_row(b.cur_items());
    assert(b.cur_items() == (AppView { selected: 0, ..b }).cur_items());
}

/// Moving goes to the nearest row in the direction that is no heading.
pub proof fn law_moving_keys(
    a: AppView,
    key: KeyEvent,
    j: int,
    now: u64,
    nanos: int,
    themes: Seq<Theme>,
)
    requires
        is_free(a),
        a.selected < a.cur_items().len() <= isize::MAX,
        0 <= j < a.cur_items().len(),
        !a.cur_items()[j].is_header,
        key.code == KeyCode::Down || key.code == KeyCode::Char('j') ==> a.selected < j && forall|i: int|
            a.selected < i < j ==> (#[trigger] a.cur_items()[i]).is_header,
        key.code == KeyCode::Up || key.code == KeyCode::Char('k') ==> j < a.selected && forall|i: int|
            j < i < a.selected ==> (#[trigger] a.cur_items()[i]).is_header,
    ensures
        key.code == KeyCode::Down || key.code == KeyCode::Char('j') || key.code == KeyCode::Up
            || key.code == KeyCode::Char('k') ==> key_step(a, key, now, nanos, themes) == (
            AppView { selected: j as usize, ..a },
            Seq::<EffectView>::empty(),
            false,
        ),
{
    let items = a.cur_items();
    if key.code == KeyCode::Down || key.code == KeyCode::Char('j') {
        lemma_row_below(items, a.selected as int, j);
    } else if key.code == KeyCode::Up || key.code == KeyCode::Char('k') {
        lemma_row_above(items, a.selected as int, j);
    }
}

proof fn lemma_row_below(items: Seq<LibItemView>, i: int, j: int)
    requires
        0 <= i < j < items.len(),
        !items[j].is_header,
        forall|k: int| i < k < j ==> (#[trigger] items[k]).is_header,
    ensures
        crate::app::next_row(items, i, 1) == Some(j),
    decreases j - i,
{
    if i + 1 < j {
        assert(items[i + 1].is_header);
        lemma_row_below(items, i + 1, j);
    }
}

proof fn lemma_row_above(items: Seq<LibItemView>, i: int, j: int)
    requires
        0 <= j < i < items.len(),
        !items[j].is_header,
        forall|k: int| j < k < i ==> (#[trigger] items[k]).is_header,
    ensures
        crate::app::next_row(items, i, -1) == Some(j),
    decreases i - j,
{
    if j < i - 1 {
        assert(items[i - 1].is_header);
        lemma_row_above(items, i - 1, j);
    }
}

/// Where all rows in the direction are headings, moving changes nothing.
pub proof fn law_moving_stops(a: AppView, key: KeyEvent, now: u64, nanos: int, themes: Seq<Theme>)
    requires
        is_free(a),
        a.selected < a.cur_items().len() <= isize::MAX,
        key.code == KeyCode::Down ==> forall|i: int|
            a.selected < i < a.cur_items().len() ==> (#[trigger] a.cur_items()[i]).is_header,
        key.code == KeyCode::Up ==> forall|i: int|
            0 <= i < a.selected ==> (#[trigger] a.cur_items()[i]).is_header,
    ensures
        key.code == KeyCode::Down || key.code == KeyCode::Up ==> key_step(
            a,
            key,
            now,
            nanos,
            themes,
        ) == (a, Seq::<EffectView>::empty(), false),
{
    if key.code == KeyCode::Down {
        lemma_no_row_below(a.cur_items(), a.selected as int);
    } else if key.code == KeyCode::Up {
        lemma_no_row_above(a.cur_items(), a.selected as int);
    }
}

proof fn lemma_no_row_below(items: Seq<LibItemView>, i: int)
    requires
        0 <= i < items.len(),
        forall|k: int| i < k < items.len() ==> (#[trigger] items[k]).is_header,
    ensures
        crate::app::next_row(items, i, 1) is None,
    decreases items.len() - i,
{
    if i + 1 < items.len() {
        assert(items[i + 1].is_header);
        lemma_no_row_below(items, i + 1);
    }
}

proof fn lemma_no_row_above(items: Seq<LibItemView>, i: int)
    requires
        0 <= i < items.len(),
        forall|k: int| 0 <= k < i ==> (#[trigger] items[k]).is_header,
    ensures
        crate::app::next_row(items, i, -1) is None,
    decreases i,
{
    if i > 0 {
        assert(items[i - 1].is_header);
        lemma_no_row_above(items, i - 1);
    }
}

/// `t` changes to the theme that follows the current one, the first after the last,
/// beginning from the colours that are shown.
pub proof fn law_theme_key(
    a: AppView,
    key: KeyEvent,
    i: int,
    now: u64,
    nanos: int,
    themes: Seq<Theme>,
)
    requires
        is_free(a),
        key.code == KeyCode::Char('t'),
        0 <= i < themes.len(),
        themes[i].name@ == a.target.name@,
        forall|j: int| 0 <= j < i ==> (#[trigger] themes[j]).name@ != a.target.name@,
    ensures
        ({
            let next = if i + 1 < themes.len() {
                themes[i + 1]
            } else {
                themes[0]
            };
            key_step(a, key, now, nanos, themes) == (
                AppView {
                    target: next,
                    fade: Some(
                        ThemeFade { from: a.displayed, to: next, started: now, duration_ms: FADE_MS },
                    ),
                    status: "theme: "@ + next.name@,
                    ..a
                },
                Seq::<EffectView>::empty(),
                false,
            )
        }),
{
    crate::theme::lemma_theme_find(themes, a.target.name@, i);
    if i + 1 < themes.len() {
        vstd::arithmetic::div_mod::lemma_small_mod((i + 1) as nat, themes.len());
    } else {
        vstd::arithmetic::div_mod::lemma_mod_self_0(themes.len() as int);
    }
}

// ---------------------------------------------------------------------------
// Enter, and what plays contexts
// ---------------------------------------------------------------------------

/// Enter on a track asks to play it; on a playlist, album or artist it asks for the
/// contents; on a heading, or where no row is selected, it does nothing.
pub proof fn law_enter_key(
    a: AppView,
    key: KeyEvent,
    now: u64,
    nanos: int,
    themes: Seq<Theme>,
)
    requires
        is_free(a),
        key.code == KeyCode::Enter,
    ensures
        a.selected >= a.cur_items().len() || a.cur_items()[a.selected as int].is_header ==> key_step(
            a,
            key,
            now,
            nanos,
            themes,
        ) == (a, Seq::<EffectView>::empty(), false),
        a.selected < a.cur_items().len() ==> ({
            let item = a.cur_items()[a.selected as int];
            let (b, effects, quits) = key_step(a, key, now, nanos, themes);
            &&& !item.is_header && !item.is_play && item.is_track ==> b == a && asks_to_play(
                effects,
                item,
            )
            &&& !item.is_header && !item.is_play && !item.is_track ==> b == a && effects == seq![
                EffectView::FetchDetail { uri: item.uri, name: item.name },
            ]
            &&& !item.is_header && item.is_play && item.uri != LIKED_PLAY@ ==> ({
                let name = if a.details.len() > 0 {
                    a.details[a.details.len() - 1].title
                } else {
                    item.name
                };
                &&& b == (AppView {
                    status: "starting "@ + name + "…"@,
                    source: PlaySourceView::Context(item.uri),
                    source_name: name,
                    ..a
                })
                &&& effects == seq![
                    EffectView::PlayContext { uri: item.uri, shuffle: a.shuffle },
                ]
            })
            &&& !quits
        }),
{
    if a.selected < a.cur_items().len() {
        let item = a.cur_items()[a.selected as int];
        if item.is_track {
            lemma_asks_to_play(item);
        }
        let effects = key_step(a, key, now, nanos, themes).1;
        if !item.is_header && !item.is_play && !item.is_track {
            assert(effects =~= seq![EffectView::FetchDetail { uri: item.uri, name: item.name }]);
        }
    }
}

/// The URIs of the tracks among rows: one for every track, in their order.
pub proof fn law_track_uris(items: Seq<LibItemView>, item: LibItemView)
    ensures
        track_uris(Seq::<LibItemView>::empty()).len() == 0,
        item.is_track ==> track_uris(items.push(item)) == track_uris(items).push(item.uri),
        !item.is_track ==> track_uris(items.push(item)) == track_uris(items),
{
    assert(items.push(item).drop_last() =~= items);
}

/// Enter on the row for all liked songs plays all tracks among them, in their order;
/// it does nothing where there are none.
pub proof fn law_enter_plays_the_liked(
    a: AppView,
    key: KeyEvent,
    now: u64,
    nanos: int,
    themes: Seq<Theme>,
)
    requires
        is_free(a),
        key.code == KeyCode::Enter,
        a.selected < a.cur_items().len(),
        !a.cur_items()[a.selected as int].is_header,
        a.cur_items()[a.selected as int].is_play,
        a.cur_items()[a.selected as int].uri == LIKED_PLAY@,
    ensures
        ({
            let uris = track_uris(a.library.liked);
            if uris.len() > 0 {
                key_step(a, key, now, nanos, themes) == (
                    AppView {
                        source: PlaySourceView::Liked,
                        source_name: "Liked Songs"@,
                        status: "starting Liked Songs…"@,
                        ..a
                    },
                    seq![EffectView::PlayTracks { uris, shuffle: a.shuffle }],
                    false,
                )
            } else {
                key_step(a, key, now, nanos, themes) == (a, Seq::<EffectView>::empty(), false)
            }
        }),
{
}

/// `P` plays the selected playlist, album or artist, and `S` shuffles it; on a track
/// or a heading they say that it is none of these.
pub proof fn law_context_keys(a: AppView, key: KeyEvent, now: u64, nanos: int, themes: Seq<Theme>)
    requires
        is_free(a),
        a.selected < a.cur_items().len(),
    ensures
        ({
            let item = a.cur_items()[a.selected as int];
            let context = !item.is_header && !item.is_track;
            let started = AppView {
                status: "starting "@ + item.name + "…"@,
                source: PlaySourceView::Context(item.uri),
                source_name: item.name,
                ..a
            };
            let refused = AppView { status: "not a playlist, album, or artist"@, ..a };
            &&& key.code == KeyCode::Char('P') && context ==> key_step(a, key, now, nanos, themes)
                == (started, seq![EffectView::PlayContext { uri: item.uri, shuffle: false }], false)
            &&& key.code == KeyCode::Char('P') && !context ==> key_step(a, key, now, nanos, themes)
                == (refused, Seq::<EffectView>::empty(), false)
            &&& key.code == KeyCode::Char('S') && context ==> key_step(a, key, now, nanos, themes)
                == (
                AppView { shuffle: true, ..started },
                seq![
                    EffectView::SetShuffle(true),
                    EffectView::PlayContext { uri: item.uri, shuffle: true },
                ],
                false,
            )
            &&& key.code == KeyCode::Char('S') && !context ==> key_step(a, key, now, nanos, themes)
                == (
                AppView { shuffle: true, ..refused },
                seq![EffectView::SetShuffle(true)],
                false,
            )
        }),
{
    let item = a.cur_items()[a.selected as int];
    let b = AppView { shuffle: true, ..a };
    assert(b.cur_items() == a.cur_items());
    if key.code == KeyCode::Char('S') {
        let effects = key_step(a, key, now, nanos, themes).1;
        if !item.is_header && !item.is_track {
            assert(effects =~= seq![
                EffectView::SetShuffle(true),
                EffectView::PlayContext { uri: item.uri, shuffle: true },
            ]);
        } else {
            assert(effects =~= seq![EffectView::SetShuffle(true)]);
        }
    }
}

/// Esc leaves the innermost detail for the row it was opened from, else a search,
/// else it does nothing.
pub proof fn law_escape_key(a: AppView, key: KeyEvent, now: u64, nanos: int, themes: Seq<Theme>)
    requires
        is_free(a),
        key.code == KeyCode::Esc,
    ensures
        a.details.len() > 0 ==> key_step(a, key, now, nanos, themes) == (
            AppView {
                details: a.details.take(a.details.len() - 1),
                selected: a.details[a.details.len() - 1].parent_selected,
                ..a
            },
            Seq::<EffectView>::empty(),
            false,
        ),
        a.details.len() == 0 && a.searching ==> key_step(a, key, now, nanos, themes) == (
            AppView { searching: false, selected: 0, ..a },
            Seq::<EffectView>::empty(),
            false,
        ),
        a.details.len() == 0 && !a.searching ==> key_step(a, key, now, nanos, themes) == (
            a,
            Seq::<EffectView>::empty(),
            false,
        ),
{
    if a.details.len() > 0 {
        assert(a.details.drop_last() =~= a.details.take(a.details.len() - 1));
    }
}

/// `o` goes to the next sort order and sorts the list that is shown by it; every
/// other list stays, the list is entered at its first row that is no heading.
pub proof fn law_sort_key(a: AppView, key: KeyEvent, now: u64, nanos: int, themes: Seq<Theme>)
    requires
        is_free(a),
        key.code == KeyCode::Char('o'),
    ensures
        ({
            let (b, effects, quits) = key_step(a, key, now, nanos, themes);
            let mode = match a.sort {
                SortMode::Added => SortMode::Title,
                SortMode::Title => SortMode::Artist,
                SortMode::Artist => SortMode::Added,
            };
            &&& b.sort == mode
            &&& b.cur_items() == crate::models::sorted_list(a.cur_items(), mode)
            &&& b.status == "sorted by "@ + match mode {
                SortMode::Added => "added"@,
                SortMode::Title => "title"@,
                SortMode::Artist => "artist"@,
            }
            &&& b.cur_items().len() <= usize::MAX ==> is_entry_row(
                b.cur_items(),
                b.selected as int,
            )
            &&& b == (AppView {
                sort: b.sort,
                status: b.status,
                selected: b.selected,
                details: b.details,
                search_results: b.search_results,
                library: b.library,
                ..a
            })
            &&& effects.len() == 0
            &&& !quits
        }),
{
    crate::laws::law_sorting_keeps_rows(a);
    let b = key_step(a, key, now, nanos, themes).0;
    lemma_entry_row(b.cur_items());
}

/// Keys that stand for nothing do nothing.
pub proof fn law_other_keys(a: AppView, key: KeyEvent, now: u64, nanos: int, themes: Seq<Theme>)
    requires
        is_free(a),
        key.code == KeyCode::Other || key.code == KeyCode::Backspace || key.code == KeyCode::Media(
            MediaKey::Other,
        ) || (key.code matches KeyCode::Char(c) && !(c == '/' || c == 'L' || c == 'q' || c == ' '
            || c == 'p' || c == 'n' || c == 'b' || c == '+' || c == '=' || c == '-' || c == '_' || c
            == 's' || c == 'P' || c == 'S' || c == 'R' || c == 'r' || c == 'o' || c == 'a' || c
            == 'l' || c == 't' || c == ']' || c == '[' || c == 'j' || c == 'k') && !(c == 'c'
            && key.control)),
    ensures
        key_step(a, key, now, nanos, themes) == (a, Seq::<EffectView>::empty(), false),
{
}

// ---------------------------------------------------------------------------
// The action menu
// ---------------------------------------------------------------------------

/// `a` opens the menu for the selected row: for a track its like, the queue, the
/// playlists, playing it and its link; for another row opening it, playing it and
/// its link; nothing for a heading.
pub proof fn law_menu_key(a: AppView, key: KeyEvent, now: u64, nanos: int, themes: Seq<Theme>)
    requires
        is_free(a),
        key.code == KeyCode::Char('a'),
    ensures
        a.selected >= a.cur_items().len() || a.cur_items()[a.selected as int].is_header ==> key_step(
            a,
            key,
            now,
            nanos,
            themes,
        ) == (a, Seq::<EffectView>::empty(), false),
        a.selected < a.cur_items().len() && !a.cur_items()[a.selected as int].is_header ==> ({
            let item = a.cur_items()[a.selected as int];
            let (b, effects, quits) = key_step(a, key, now, nanos, themes);
            let liked = exists|i: int|
                0 <= i < a.library.liked.len() && (#[trigger] a.library.liked[i]).uri == item.uri;
            &&& b == (AppView { actions: b.actions, ..a })
            &&& effects.len() == 0 && !quits
            &&& b.actions matches Some(m) && m.title == item.name && m.selected == 0 && if item.is_track {
                &&& m.items.len() == 5
                &&& m.items[0].label == (if liked {
                    "Unlike track"@
                } else {
                    "Like track"@
                })
                &&& m.items[0].kind == (if liked {
                    ActionKindView::UnstarTrack { track_uri: item.uri }
                } else {
                    ActionKindView::StarTrack { track_uri: item.uri }
                })
                &&& m.items[1].label == "Add to queue"@
                &&& m.items[1].kind == (ActionKindView::Queue { uri: item.uri })
                &&& m.items[2].label == "Add to playlist..."@
                &&& m.items[2].kind == (ActionKindView::AddToPlaylistMenu { track_uri: item.uri })
                &&& m.items[3].label == "Play "@ + item.name
                &&& m.items[3].kind == (ActionKindView::Play { uri: item.uri, name: item.name })
                &&& m.items[4].label == "Copy Link"@
                &&& m.items[4].kind == (ActionKindView::CopyLink { uri: item.uri })
            } else {
                &&& m.items.len() == 3
                &&& m.items[0].label == "Open "@ + item.name
                &&& m.items[0].kind == (ActionKindView::Open { uri: item.uri, name: item.name })
                &&& m.items[1].label == "Play "@ + item.name
                &&& m.items[1].kind == (ActionKindView::Play { uri: item.uri, name: item.name })
                &&& m.items[2].label == "Copy Link"@
                &&& m.items[2].kind == (ActionKindView::CopyLink { uri: item.uri })
            }
        }),
{
    if a.selected < a.cur_items().len() {
        law_likes_are_rows(a, a.cur_items()[a.selected as int].uri);
    }
}

/// In the menu, up and down move by one entry and stop at the ends, Esc and `a`
/// close it, Enter does what the selected entry stands for, and no other key does
/// anything.
pub proof fn law_keys_in_the_menu(
    a: AppView,
    key: KeyEvent,
    now: u64,
    nanos: int,
    themes: Seq<Theme>,
)
    requires
        a.login_modal is None,
        a.actions is Some,
        a.actions->0.selected < a.actions->0.items.len() <= usize::MAX,
        !(key.code == KeyCode::Char('c') && key.control),
    ensures
        ({
            let m = a.actions->0;
            let (b, effects, quits) = key_step(a, key, now, nanos, themes);
            if key.code == KeyCode::Esc || key.code == KeyCode::Char('a') {
                b == (AppView { actions: None, status: Seq::empty(), ..a }) && effects.len() == 0
            } else if key.code == KeyCode::Up || key.code == KeyCode::Char('k') {
                let to = if m.selected > 0 {
                    m.selected - 1
                } else {
                    0
                };
                b == (AppView {
                    actions: Some(ActionMenuView { selected: to as usize, ..m }),
                    ..a
                }) && effects.len() == 0
            } else if key.code == KeyCode::Down || key.code == KeyCode::Char('j') {
                let to = if m.selected + 1 < m.items.len() {
                    m.selected + 1
                } else {
                    m.selected as int
                };
                b == (AppView {
                    actions: Some(ActionMenuView { selected: to as usize, ..m }),
                    ..a
                }) && effects.len() == 0
            } else if key.code == KeyCode::Enter {
                (b, effects) == action(a, m.items[m.selected as int].kind)
            } else {
                b == a && effects.len() == 0
            }
        }),
        !key_step(a, key, now, nanos, themes).2,
{
}

/// What the entries of the menu do. Those that queue a track give it the name that
/// the first row with its URI has, or its URI.
pub proof fn law_menu_entries(a: AppView, uri: Seq<char>, name: Seq<char>, i: int)
    requires
        0 <= i <= a.cur_items().len(),
        forall|j: int| 0 <= j < i ==> (#[trigger] a.cur_items()[j]).uri != uri,
        i < a.cur_items().len() ==> a.cur_items()[i].uri == uri,
    ensures
        action(a, ActionKindView::Open { uri, name }) == (
            AppView { actions: None, ..a },
            seq![EffectView::FetchDetail { uri, name }],
        ),
        action(a, ActionKindView::CopyLink { uri }) == (
            AppView { actions: None, ..a },
            seq![EffectView::CopyLink(uri)],
        ),
        action(a, ActionKindView::Play { uri, name }) == (
            AppView {
                status: "starting "@ + name + "…"@,
                source: PlaySourceView::Context(uri),
                source_name: name,
                actions: None,
                ..a
            },
            seq![EffectView::PlayContext { uri, shuffle: a.shuffle }],
        ),
        ({
            let label = if i < a.cur_items().len() {
                a.cur_items()[i].name
            } else {
                uri
            };
            &&& action(a, ActionKindView::Queue { uri }) == (
                AppView {
                    queue: a.queue.push(label),
                    queue_uris: a.queue_uris.push(uri),
                    status: "queued: "@ + label,
                    actions: None,
                    ..a
                },
                Seq::<EffectView>::empty(),
            )
            &&& action(a, ActionKindView::PlayNext { uri }) == (
                AppView {
                    queue: seq![label] + a.queue,
                    queue_uris: seq![uri] + a.queue_uris,
                    status: "queued next: "@ + label,
                    actions: None,
                    ..a
                },
                Seq::<EffectView>::empty(),
            )
        }),
{
    let p = uri_at(a.cur_items(), uri);
    assert forall|j: int| 0 <= j < i implies !#[trigger] p(j) by {
        assert(a.cur_items()[j].uri != uri);
    }
    lemma_first(i, a.cur_items().len() as int, p);
}

/// The entries of the menu that need a server: with one, a track is liked, no longer
/// liked, or added to the playlist that was chosen, by its ID.
pub proof fn law_server_entries(a: AppView, playlist_id: Seq<char>, id: Seq<char>)
    requires
        a.subsonic is Some,
    ensures
        action(a, ActionKindView::StarTrack { track_uri: TRACK@ + id }) == (
            AppView { actions: None, status: "liked track"@, ..a },
            seq![EffectView::Star(id)],
        ),
        action(a, ActionKindView::UnstarTrack { track_uri: TRACK@ + id }) == (
            AppView { actions: None, status: "unliked track"@, ..a },
            seq![EffectView::Unstar(id)],
        ),
        action(a, ActionKindView::AddToPlaylist { playlist_id, track_uri: TRACK@ + id }) == (
            AppView { actions: None, status: "added track to playlist"@, ..a },
            seq![EffectView::AddToPlaylist { playlist_id, song_id: id }],
        ),
{
    lemma_track_uri(id);
}

/// The playlists that a track can be added to: all there are, in their order, each
/// by its name and by the part of its URI behind the last colon.
pub proof fn law_playlist_entries(a: AppView, track_uri: Seq<char>, i: int, front: Seq<char>, id: Seq<char>)
    requires
        0 <= i < a.library.playlists.len(),
        a.library.playlists[i].uri == front.push(':') + id,
        forall|j: int| 0 <= j < id.len() ==> #[trigger] id[j] != ':',
    ensures
        ({
            let (b, effects) = action(a, ActionKindView::AddToPlaylistMenu { track_uri });
            &&& effects.len() == 0
            &&& b == (AppView { actions: b.actions, ..a })
            &&& b.actions matches Some(m) && m.title == "Add to playlist"@ && m.selected == 0
                && m.items.len() == a.library.playlists.len() && m.items[i].label
                == a.library.playlists[i].name && m.items[i].kind == (
            ActionKindView::AddToPlaylist { playlist_id: id, track_uri })
        }),
{
    lemma_behind_last(front, id);
}

proof fn lemma_behind_last(front: Seq<char>, id: Seq<char>)
    requires
        forall|j: int| 0 <= j < id.len() ==> #[trigger] id[j] != ':',
    ensures
        crate::text::after_last(front.push(':') + id, ':') == id,
    decreases id.len(),
{
    let s = front.push(':') + id;
    if id.len() > 0 {
        assert(s.last() == id[id.len() - 1]);
        assert(s.drop_last() =~= front.push(':') + id.drop_last());
        assert forall|j: int| 0 <= j < id.drop_last().len() implies #[trigger] id.drop_last()[j]
            != ':' by {
            assert(id[j] != ':');
        }
        lemma_behind_last(front, id.drop_last());
        assert(crate::text::after_last(s, ':') =~= id);
    } else {
        assert(s.last() == ':');
        assert(crate::text::after_last(s, ':') =~= id);
    }
}

/// Without playlists there is none to add to.
pub proof fn law_no_playlist_to_add_to(a: AppView, track_uri: Seq<char>)
    requires
        a.library.playlists.len() == 0,
    ensures
        action(a, ActionKindView::AddToPlaylistMenu { track_uri }) == (
            AppView { actions: None, status: "no playlists to add to"@, ..a },
            Seq::<EffectView>::empty(),
        ),
{
}

// ---------------------------------------------------------------------------
// The engine
// ---------------------------------------------------------------------------

/// A track change asks what the track is, and says that it is being loaded.
pub proof fn law_track_change(a: AppView, id: Seq<char>, now: u64, nanos: int)
    ensures
        engine_step(a, EngineEventView::TrackChanged { uri: TRACK@ + id }, now, nanos) == (
            AppView { status: "loading track…"@, pending_meta: Some(TRACK@ + id), ..a },
            seq![EffectView::FetchMeta(id)],
        ),
{
    lemma_track_uri(id);
}

/// The engine says where the track is and whether it plays: this is what is then
/// known of the track, as of now. The first sound sets the engine's switches and its
/// volume.
pub proof fn law_engine_reports(
    a: AppView,
    n: NowPlayingView,
    uri: Seq<char>,
    position_ms: u32,
    now: u64,
    nanos: int,
)
    requires
        a.now == Some(n),
    ensures
        engine_step(a, EngineEventView::Playing { uri, position_ms }, now, nanos) == (
            AppView {
                playback_started: true,
                now: Some(
                    NowPlayingView { is_playing: true, position_ms, position_at: now, ..n },
                ),
                ..a
            },
            if a.playback_started {
                Seq::<EffectView>::empty()
            } else {
                seq![
                    EffectView::SetShuffle(a.shuffle),
                    EffectView::SetRepeat(a.repeat),
                    EffectView::SetVolume(a.volume),
                ]
            },
        ),
        engine_step(a, EngineEventView::Paused { uri, position_ms }, now, nanos) == (
            AppView {
                now: Some(
                    NowPlayingView { is_playing: false, position_ms, position_at: now, ..n },
                ),
                ..a
            },
            Seq::<EffectView>::empty(),
        ),
        engine_step(a, EngineEventView::PositionCorrection { uri, position_ms }, now, nanos) == (
            AppView {
                now: Some(NowPlayingView { position_ms, position_at: now, ..n }),
                ..a
            },
            Seq::<EffectView>::empty(),
        ),
        engine_step(a, EngineEventView::Stopped, now, nanos) == (
            AppView { now: None, playback_started: false, ..a },
            Seq::<EffectView>::empty(),
        ),
{
}

/// What was found out about the awaited track is shown: what it is called, by whom
/// and on what, how long it is, and its cover; where it is and whether it plays stay;
/// old lyrics go, and new ones are asked for where it has a title.
pub proof fn law_news_are_shown(a: AppView, meta: TrackMetaView, now: u64)
    requires
        a.pending_meta is None || a.pending_meta == Some(meta.uri),
    ensures
        ({
            let (b, effects) = meta_applied(a, meta, now);
            &&& b.now == Some(
                NowPlayingView {
                    uri: meta.uri,
                    title: meta.title,
                    artist: meta.artist,
                    album: meta.album,
                    duration_ms: meta.duration_ms,
                    position_ms: if a.now is Some {
                        a.now->0.position_ms
                    } else {
                        0
                    },
                    position_at: now,
                    is_playing: if a.now is Some {
                        a.now->0.is_playing
                    } else {
                        a.playback_started
                    },
                    cover: meta.image,
                },
            )
            &&& b.status.len() == 0 && b.lyrics.len() == 0 && !b.lyrics_synced
            &&& b == (AppView {
                now: b.now,
                status: b.status,
                lyrics: b.lyrics,
                lyrics_synced: b.lyrics_synced,
                art_dirty: b.art_dirty,
                fade: b.fade,
                target: b.target,
                ..a
            })
            &&& effects == if meta.title.len() > 0 {
                seq![
                    EffectView::FetchLyrics {
                        artist: meta.artist,
                        title: meta.title,
                        album: meta.album,
                        duration_ms: meta.duration_ms,
                    },
                ]
            } else {
                Seq::<EffectView>::empty()
            }
            &&& meta.theme is None ==> b.fade == a.fade && b.target == a.target
            &&& meta.theme matches Some(t) ==> b.target == t && b.fade == Some(
                ThemeFade { from: a.displayed, to: t, started: now, duration_ms: FADE_MS },
            )
        }),
{
}

/// What came of playing a track: it plays, from its start, under the name it was
/// asked for; or it does not, and that is said.
pub proof fn law_what_came_of_playing(
    a: AppView,
    uri: Seq<char>,
    name: Seq<char>,
    subtitle: Seq<char>,
    e: Seq<char>,
    now: u64,
)
    ensures
        a.track_started(uri, name, subtitle, Ok(()), now) == (AppView {
            now: Some(
                NowPlayingView {
                    uri,
                    title: name,
                    artist: subtitle,
                    album: Seq::empty(),
                    duration_ms: 0,
                    position_ms: 0,
                    position_at: now,
                    is_playing: true,
                    cover: false,
                },
            ),
            playback_started: true,
            status: "Playing "@ + name,
            ..a
        }),
        a.track_started(uri, name, subtitle, Err(e), now) == (AppView {
            status: "Playback error: "@ + e,
            ..a
        }),
{
}

// ---------------------------------------------------------------------------
// The mouse, covers, sessions
// ---------------------------------------------------------------------------

/// A click on a tab shows the view of that tab.
pub proof fn law_click_on_a_tab(a: AppView, column: u16, row: u16, now: u64, i: int)
    requires
        is_free(a),
        0 <= i < a.tab_rects.len(),
        ({
            let r = a.tab_rects[i].1;
            r.x <= column < r.x + r.width && r.y <= row < r.y + r.height
        }),
        forall|j: int|
            0 <= j < i ==> ({
                let r = (#[trigger] a.tab_rects[j]).1;
                !(r.x <= column < r.x + r.width && r.y <= row < r.y + r.height)
            }),
    ensures
        click_step(a, column, row, now) == (
            AppView { view: a.tab_rects[i].0, ..a },
            Seq::<EffectView>::empty(),
        ),
{
    let p = tab_under(a.tab_rects, column as int, row as int);
    assert(p(i));
    assert forall|j: int| 0 <= j < i implies !#[trigger] p(j) by {
        let r = a.tab_rects[j].1;
        assert(!(r.x <= column < r.x + r.width && r.y <= row < r.y + r.height));
    }
    lemma_first(i, a.tab_rects.len() as int, p);
}

/// A first click on a row of the list that is no heading selects it: the row as far
/// below the first shown as the click is below the top of the list.
pub proof fn law_click_on_a_row(a: AppView, column: u16, row: u16, now: u64, r: Rect, i: int)
    requires
        is_free(a),
        a.tab_rects.len() == 0,
        a.lib_rect == Some(r),
        r.x <= column < r.x + r.width,
        r.y <= row < r.y + r.height,
        i == a.lib_offset + (row - r.y),
        i < a.cur_items().len() <= usize::MAX,
        !a.cur_items()[i].is_header,
        a.last_click matches Some((last, t)) ==> last != row || now - t >= 400_000_000,
    ensures
        click_step(a, column, row, now) == (
            AppView { selected: i as usize, last_click: Some((row, now)), ..a },
            Seq::<EffectView>::empty(),
        ),
{
}

/// A click beside the tabs and the list, or on a heading, does nothing, and so does
/// any click while something captures the keyboard.
pub proof fn law_click_elsewhere(a: AppView, column: u16, row: u16, now: u64)
    requires
        a.tab_rects.len() == 0,
        !is_free(a) || a.lib_rect is None || ({
            let r = a.lib_rect->0;
            let i = a.lib_offset + (row - r.y);
            ||| !(r.x <= column < r.x + r.width && r.y <= row < r.y + r.height)
            ||| i >= a.cur_items().len()
            ||| a.cur_items()[i].is_header
        }),
    ensures
        click_step(a, column, row, now) == (a, Seq::<EffectView>::empty()),
{
}

/// While nothing plays, the cover of a selected track that was not asked for last is
/// asked for by its ID.
pub proof fn law_selected_cover_is_asked_for(a: AppView, id: Seq<char>)
    requires
        a.now is None,
        a.selected < a.cur_items().len(),
        a.cur_items()[a.selected as int].is_track,
        a.cur_items()[a.selected as int].uri == TRACK@ + id,
        a.selected_cover_uri != Some(TRACK@ + id),
    ensures
        cover_wanted(a) == (
            AppView { selected_cover_uri: Some(TRACK@ + id), ..a },
            seq![EffectView::FetchCover { uri: TRACK@ + id, track_id: id }],
        ),
{
    lemma_track_uri(id);
}

/// While something plays, and on a row that is no track, no cover is asked for.
pub proof fn law_other_covers_are_not_asked_for(a: AppView)
    requires
        a.now is Some || a.selected >= a.cur_items().len()
            || !a.cur_items()[a.selected as int].is_track,
    ensures
        cover_wanted(a) == (a, Seq::<EffectView>::empty()),
{
}

/// What plays is kept for the next session, with where it is.
pub proof fn law_what_plays_is_kept(a: AppView, now: u64)
    ensures
        a.now is None ==> saved(a, now).last_played is None,
        a.now matches Some(n) ==> (saved(a, now).last_played matches Some(l) && l.uri == n.uri
            && l.title == n.title && l.artist == n.artist && l.album == n.album && l.duration_ms
            == n.duration_ms && l.position_ms == a.position(now)),
        saved(a, now).volume == a.volume,
        saved(a, now).shuffle == a.shuffle,
        saved(a, now).repeat == a.repeat,
        saved(a, now).queue == a.queue,
        saved(a, now).queue_uris == a.queue_uris,
        saved(a, now).source == a.source,
        saved(a, now).source_name == a.source_name,
{
    crate::laws::law_position_lies_in_the_track(a, now);
}

/// A login that succeeded is kept and used, closes the form and asks for the library;
/// one that failed says why in the form.
pub proof fn law_login_ends(
    a: AppView,
    client: NavidromeConfigView,
    config: NavidromeConfigView,
    message: Seq<char>,
)
    ensures
        logged_in(a, Ok((client, config))) == (
            AppView {
                subsonic: Some(client),
                login_modal: None,
                status: "Logged in! Loading library…"@,
                ..a
            },
            seq![
                EffectView::SaveConfig(config),
                EffectView::UseClient(client),
                EffectView::FetchLibrary,
            ],
        ),
        a.login_modal is None ==> logged_in(a, Err(message)) == (a, Seq::<EffectView>::empty()),
        a.login_modal matches Some(m) ==> logged_in(a, Err(message)) == (
            AppView {
                login_modal: Some(
                    LoginModalView { is_connecting: false, error_message: Some(message), ..m },
                ),
                ..a
            },
            Seq::<EffectView>::empty(),
        ),
{
}

/// In the login form, Esc goes back to the server that there is; without one it does
/// not close the form. A form that is sent waits for the answer.
pub proof fn law_login_form_keys(
    a: AppView,
    m: LoginModalView,
    key: KeyEvent,
    now: u64,
    nanos: int,
    themes: Seq<Theme>,
)
    requires
        a.login_modal == Some(m),
        !(key.code == KeyCode::Char('c') && key.control),
    ensures
        ({
            let (b, effects, quits) = key_step(a, key, now, nanos, themes);
            &&& !quits
            &&& key.code == KeyCode::Esc && a.subsonic is Some ==> b == (AppView {
                login_modal: None,
                ..a
            }) && effects.len() == 0
            &&& !(key.code == KeyCode::Esc && a.subsonic is Some) ==> b.login_modal is Some
            &&& effects.len() <= 1
            &&& effects.len() == 1 ==> (b.login_modal matches Some(f) && f.is_connecting
                && f.error_message is None)
        }),
{
}

} // verus!
