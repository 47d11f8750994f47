//! Data models and domain types.

use vstd::prelude::*;
use crate::config::{join_path, path_below};
use crate::sorting::{sort_tail, stable_sort};
use crate::theme::Theme;
use crate::text::{chars_of, lowercase, view_opt, views};

verus! {

pub const FADE_MS: u64 = 300;

pub const ART_REPAINTS: u8 = 2;

/// Where the saved state lies below the home directory.
pub const STATE_FILE: &'static str = ".cache/myx/state.json";

// ---------------------------------------------------------------------------
// Views and sections
// ---------------------------------------------------------------------------

/// `isize::rem_euclid`: for a positive divisor, the least nonnegative remainder.
pub assume_specification[ isize::rem_euclid ](x: isize, d: isize) -> (r: isize)
    requires
        d > 0,
    ensures
        r == x as int % d as int,
;

#[derive(Debug, Clone, Copy, PartialEq, Eq, Structural)]
pub enum RightView {
    NowPlaying,
    Lyrics,
    Queue,
}

impl RightView {
    pub const ALL: [RightView; 3] = [RightView::NowPlaying, RightView::Lyrics, RightView::Queue];

    /// The view's place among the tabs.
    pub open spec fn place(self) -> int {
        match self {
            RightView::NowPlaying => 0,
            RightView::Lyrics => 1,
            RightView::Queue => 2,
        }
    }

    /// The view at a place.
    pub open spec fn at(i: int) -> RightView {
        if i == 0 {
            RightView::NowPlaying
        } else if i == 1 {
            RightView::Lyrics
        } else {
            RightView::Queue
        }
    }

    pub open spec fn name(self) -> Seq<char> {
        match self {
            RightView::NowPlaying => "Now Playing"@,
            RightView::Lyrics => "Lyrics"@,
            RightView::Queue => "Queue"@,
        }
    }

    pub fn label(self) -> (r: &'static str)
        ensures
            r@ == self.name(),
    {
        match self {
            RightView::NowPlaying => "Now Playing",
            RightView::Lyrics => "Lyrics",
            RightView::Queue => "Queue",
        }
    }

    /// The view `delta` tabs further, around the end.
    pub fn shift(self, delta: isize) -> (r: RightView)
        requires
            self.place() + delta <= isize::MAX,
        ensures
            r == RightView::at((self.place() + delta) % 3),
    {
        let i: isize = match self {
            RightView::NowPlaying => 0,
            RightView::Lyrics => 1,
            RightView::Queue => 2,
        };
        let to: isize = (i + delta).rem_euclid(3);
        if to == 0 {
            RightView::NowPlaying
        } else if to == 1 {
            RightView::Lyrics
        } else {
            RightView::Queue
        }
    }
}

/// Going some tabs on and the same number back leads to where one was.
pub proof fn law_view_shift_undone(v: RightView, delta: int)
    ensures
        RightView::at((RightView::at((v.place() + delta) % 3).place() - delta) % 3) == v,
{
}

#[derive(Debug, Clone, Copy, PartialEq, Eq, Structural)]
pub enum Section {
    Home,
    Recent,
    Playlists,
    Liked,
    Albums,
    Artists,
}

impl Section {
    pub const ALL: [Section; 6] = [
        Section::Home,
        Section::Liked,
        Section::Playlists,
        Section::Albums,
        Section::Artists,
        Section::Recent,
    ];

    /// The section's place in the list of sections.
    pub open spec fn place(self) -> int {
        match self {
            Section::Home => 0,
            Section::Liked => 1,
            Section::Playlists => 2,
            Section::Albums => 3,
            Section::Artists => 4,
            Section::Recent => 5,
        }
    }

    /// The section at a place.
    pub open spec fn at(i: int) -> Section {
        if i == 0 {
            Section::Home
        } else if i == 1 {
            Section::Liked
        } else if i == 2 {
            Section::Playlists
        } else if i == 3 {
            Section::Albums
        } else if i == 4 {
            Section::Artists
        } else {
            Section::Recent
        }
    }

    pub open spec fn name(self) -> Seq<char> {
        match self {
            Section::Home => "Home"@,
            Section::Recent => "Recent"@,
            Section::Playlists => "Playlists"@,
            Section::Liked => "Liked"@,
            Section::Albums => "Albums"@,
            Section::Artists => "Artists"@,
        }
    }

    pub fn label(self) -> (r: &'static str)
        ensures
            r@ == self.name(),
    {
        match self {
            Section::Home => "Home",
            Section::Recent => "Recent",
            Section::Playlists => "Playlists",
            Section::Liked => "Liked",
            Section::Albums => "Albums",
            Section::Artists => "Artists",
        }
    }

    pub fn index(self) -> (r: usize)
        ensures
            r == self.place(),
    {
        match self {
            Section::Home => 0,
            Section::Liked => 1,
            Section::Playlists => 2,
            Section::Albums => 3,
            Section::Artists => 4,
            Section::Recent => 5,
        }
    }

    /// The section `delta` places further, around the end.
    pub fn shift(self, delta: isize) -> (r: Section)
        requires
            self.place() + delta <= isize::MAX,
        ensures
            r == Section::at((self.place() + delta) % 6),
    {
        let i: isize = self.index() as isize;
        let to: isize = (i + delta).rem_euclid(6);
        if to == 0 {
            Section::Home
        } else if to == 1 {
            Section::Liked
        } else if to == 2 {
            Section::Playlists
        } else if to == 3 {
            Section::Albums
        } else if to == 4 {
            Section::Artists
        } else {
            Section::Recent
        }
    }
}

/// Going some sections on and the same number back leads to where one was.
pub proof fn law_section_shift_undone(s: Section, delta: int)
    ensures
        Section::at((Section::at((s.place() + delta) % 6).place() - delta) % 6) == s,
{
}

/// The lists of all tabs and of all sections are in the order of the places.
pub proof fn law_all_lists_are_in_order(i: int)
    ensures
        0 <= i < 3 ==> RightView::ALL@[i] == RightView::at(i) && RightView::at(i).place() == i,
        0 <= i < 6 ==> Section::ALL@[i] == Section::at(i) && Section::at(i).place() == i,
{
}

// ---------------------------------------------------------------------------
// Library items
// ---------------------------------------------------------------------------

/// A library entry. Behavior on Enter is driven by the flags:
/// header = non-selectable label; track = play as a track list; play = play this
/// URI as a context; otherwise = open (drill into) this context.
#[derive(Debug, PartialEq, Eq)]
pub struct LibItem {
    pub name: String,
    pub subtitle: String,
    pub uri: String,
    pub is_track: bool,
    pub is_header: bool,
    pub is_play: bool,
    /// The position in which it was fetched, for the "added" sort.
    pub order: u32,
}

pub struct LibItemView {
    pub name: Seq<char>,
    pub subtitle: Seq<char>,
    pub uri: Seq<char>,
    pub is_track: bool,
    pub is_header: bool,
    pub is_play: bool,
    pub order: u32,
}

impl View for LibItem {
    type V = LibItemView;

    open spec fn view(&self) -> LibItemView {
        LibItemView {
            name: self.name@,
            subtitle: self.subtitle@,
            uri: self.uri@,
            is_track: self.is_track,
            is_header: self.is_header,
            is_play: self.is_play,
            order: self.order,
        }
    }
}

impl Clone for LibItem {
    fn clone(&self) -> (r: Self)
        ensures
            r == *self,
    {
        LibItem {
            name: self.name.clone(),
            subtitle: self.subtitle.clone(),
            uri: self.uri.clone(),
            is_track: self.is_track,
            is_header: self.is_header,
            is_play: self.is_play,
            order: self.order,
        }
    }
}

impl LibItemView {
    pub open spec fn track(name: Seq<char>, subtitle: Seq<char>, uri: Seq<char>) -> LibItemView {
        LibItemView {
            name,
            subtitle,
            uri,
            is_track: true,
            is_header: false,
            is_play: false,
            order: 0,
        }
    }

    pub open spec fn ctx(name: Seq<char>, subtitle: Seq<char>, uri: Seq<char>) -> LibItemView {
        LibItemView {
            name,
            subtitle,
            uri,
            is_track: false,
            is_header: false,
            is_play: false,
            order: 0,
        }
    }

    pub open spec fn play(name: Seq<char>, uri: Seq<char>) -> LibItemView {
        LibItemView {
            name,
            subtitle: Seq::empty(),
            uri,
            is_track: false,
            is_header: false,
            is_play: true,
            order: 0,
        }
    }

    pub open spec fn header(name: Seq<char>) -> LibItemView {
        LibItemView {
            name,
            subtitle: Seq::empty(),
            uri: Seq::empty(),
            is_track: false,
            is_header: true,
            is_play: false,
            order: 0,
        }
    }
}

impl LibItem {
    pub fn track(name: String, subtitle: String, uri: String) -> (r: Self)
        ensures
            r@ == LibItemView::track(name@, subtitle@, uri@),
    {
        LibItem { name, subtitle, uri, is_track: true, is_header: false, is_play: false, order: 0 }
    }

    pub fn ctx(name: String, subtitle: String, uri: String) -> (r: Self)
        ensures
            r@ == LibItemView::ctx(name@, subtitle@, uri@),
    {
        LibItem { name, subtitle, uri, is_track: false, is_header: false, is_play: false, order: 0 }
    }

    pub fn play(name: String, uri: String) -> (r: Self)
        ensures
            r@ == LibItemView::play(name@, uri@),
    {
        LibItem {
            name,
            subtitle: String::new(),
            uri,
            is_track: false,
            is_header: false,
            is_play: true,
            order: 0,
        }
    }

    pub fn header(name: &str) -> (r: Self)
        ensures
            r@ == LibItemView::header(name@),
    {
        LibItem {
            name: name.to_string(),
            subtitle: String::new(),
            uri: String::new(),
            is_track: false,
            is_header: true,
            is_play: false,
            order: 0,
        }
    }
}

// ---------------------------------------------------------------------------
// Sorting
// ---------------------------------------------------------------------------

/// Sort order for browsable lists.
#[derive(Debug, Clone, Copy, PartialEq, Eq, Structural)]
pub enum SortMode {
    Added,
    Title,
    Artist,
}

impl SortMode {
    pub open spec fn name(self) -> Seq<char> {
        match self {
            SortMode::Added => "added"@,
            SortMode::Title => "title"@,
            SortMode::Artist => "artist"@,
        }
    }

    pub open spec fn following(self) -> SortMode {
        match self {
            SortMode::Added => SortMode::Title,
            SortMode::Title => SortMode::Artist,
            SortMode::Artist => SortMode::Added,
        }
    }

    pub fn label(self) -> (r: &'static str)
        ensures
            r@ == self.name(),
    {
        match self {
            SortMode::Added => "added",
            SortMode::Title => "title",
            SortMode::Artist => "artist",
        }
    }

    pub fn next(self) -> (r: SortMode)
        ensures
            r == self.following(),
    {
        match self {
            SortMode::Added => SortMode::Title,
            SortMode::Title => SortMode::Artist,
            SortMode::Artist => SortMode::Added,
        }
    }
}

/// Three steps through the sort orders lead back to the first, and not fewer.
pub proof fn law_sort_modes_cycle(m: SortMode)
    ensures
        m.following().following().following() == m,
        m.following() != m,
        m.following().following() != m,
{
}

/// The characters of a text as numbers.
pub open spec fn code_points(s: Seq<char>) -> Seq<u32> {
    s.map_values(|c: char| c as u32)
}

/// What a list is sorted by.
pub open spec fn sort_key(mode: SortMode, i: LibItemView) -> Seq<u32> {
    match mode {
        SortMode::Added => seq![i.order],
        SortMode::Title => code_points(lowercase(i.name)),
        SortMode::Artist => code_points(lowercase(i.subtitle)),
    }
}

/// The key of a sort order.
pub open spec fn key_of(mode: SortMode) -> spec_fn(LibItemView) -> Seq<u32> {
    |i: LibItemView| sort_key(mode, i)
}

/// A header or a play row.
pub open spec fn is_pinned(i: LibItemView) -> bool {
    i.is_header || i.is_play
}

/// How many header and play rows a list begins with.
pub open spec fn pinned(s: Seq<LibItemView>) -> int
    decreases s.len(),
{
    if s.len() > 0 && is_pinned(s[0]) {
        1 + pinned(s.drop_first())
    } else {
        0
    }
}

/// A list as it is sorted: the leading header and play rows stay, what follows
/// them is in the order of its keys.
pub open spec fn sorted_list(s: Seq<LibItemView>, mode: SortMode) -> Seq<LibItemView> {
    s.take(pinned(s)) + stable_sort(s.skip(pinned(s)), key_of(mode))
}

pub proof fn lemma_pinned(s: Seq<LibItemView>, k: int)
    requires
        0 <= k <= s.len(),
        forall|i: int| 0 <= i < k ==> is_pinned(#[trigger] s[i]),
        k < s.len() ==> !is_pinned(s[k]),
    ensures
        pinned(s) == k,
    decreases s.len(),
{
    if k > 0 {
        assert(is_pinned(s[0]));
        let t = s.drop_first();
        assert forall|i: int| 0 <= i < k - 1 implies is_pinned(#[trigger] t[i]) by {
            assert(is_pinned(s[i + 1]));
        }
        lemma_pinned(t, k - 1);
    }
}

pub proof fn lemma_pinned_range(s: Seq<LibItemView>)
    ensures
        0 <= pinned(s) <= s.len(),
        forall|i: int| 0 <= i < pinned(s) ==> is_pinned(#[trigger] s[i]),
        pinned(s) < s.len() ==> !is_pinned(s[pinned(s)]),
    decreases s.len(),
{
    if s.len() > 0 && is_pinned(s[0]) {
        let t = s.drop_first();
        lemma_pinned_range(t);
        assert forall|i: int| 0 <= i < pinned(s) implies is_pinned(#[trigger] s[i]) by {
            if i > 0 {
                assert(is_pinned(t[i - 1]));
            }
        }
    }
}

fn code_point_vec(s: &str) -> (r: Vec<u32>)
    ensures
        r@ == code_points(s@),
{
    let v = chars_of(s);
    let mut out: Vec<u32> = Vec::new();
    let mut i: usize = 0;
    while i < v.len()
        invariant
            v@ == s@,
            i <= v@.len(),
            out@ == code_points(v@.take(i as int)),
        decreases v@.len() - i,
    {
        out.push(v[i] as u32);
        i += 1;
        assert(out@ =~= code_points(v@.take(i as int)));
    }
    assert(v@.take(i as int) =~= v@);
    out
}

fn item_key(mode: SortMode, i: &LibItem) -> (r: Vec<u32>)
    ensures
        r@ == sort_key(mode, i@),
{
    match mode {
        SortMode::Added => {
            let mut k: Vec<u32> = Vec::new();
            k.push(i.order);
            assert(k@ =~= seq![i.order]);
            k
        },
        SortMode::Title => code_point_vec(i.name.as_str().to_lowercase().as_str()),
        SortMode::Artist => code_point_vec(i.subtitle.as_str().to_lowercase().as_str()),
    }
}

/// Sort a list in place, keeping leading header/play rows pinned at the top.
pub fn sort_list(items: &mut [LibItem], mode: SortMode)
    ensures
        views(final(items)@) == sorted_list(views(old(items)@), mode),
{
    let ghost all = views(items@);
    let mut pin: usize = 0;
    while pin < items.len() && (items[pin].is_header || items[pin].is_play)
        invariant
            all == views(items@),
            pin <= items@.len(),
            forall|k: int| 0 <= k < pin ==> is_pinned(#[trigger] all[k]),
        decreases items@.len() - pin,
    {
        assert(all[pin as int] == items@[pin as int]@);
        pin += 1;
    }
    proof {
        if pin < items@.len() {
            assert(all[pin as int] == items@[pin as int]@);
        }
        lemma_pinned(all, pin as int);
    }
    let mut keys: Vec<Vec<u32>> = Vec::new();
    let mut i: usize = pin;
    while i < items.len()
        invariant
            pin <= i <= items@.len(),
            keys@.len() == i - pin,
            forall|k: int|
                0 <= k < keys@.len() ==> (#[trigger] keys@[k])@ == sort_key(mode, items@[pin + k]@),
        decreases items@.len() - i,
    {
        keys.push(item_key(mode, &items[i]));
        i += 1;
    }
    let ghost before = items@;
    let ghost key = |x: LibItem| sort_key(mode, x@);
    sort_tail(items, pin, &mut keys, Ghost(key));
    proof {
        let f = |x: LibItem| x@;
        crate::sorting::lemma_sort_map(before.skip(pin as int), key, f, key_of(mode));
        assert(views(before.skip(pin as int)) =~= all.skip(pin as int));
        assert(views(items@) =~= views(before.take(pin as int)) + views(
            stable_sort(before.skip(pin as int), key),
        ));
        assert(views(before.take(pin as int)) =~= all.take(pin as int));
    }
}

/// Sorting a list moves none of the leading header and play rows, loses and adds
/// no item, and leaves the rest in the order of its keys.
pub proof fn law_sorted_list(s: Seq<LibItemView>, mode: SortMode)
    ensures
        sorted_list(s, mode).len() == s.len(),
        sorted_list(s, mode).to_multiset() == s.to_multiset(),
        forall|i: int| 0 <= i < pinned(s) ==> sorted_list(s, mode)[i] == s[i],
        crate::sorting::in_order(sorted_list(s, mode).skip(pinned(s)), key_of(mode)),
{
    lemma_pinned_range(s);
    let n = pinned(s);
    let head = s.take(n);
    let tail = s.skip(n);
    crate::sorting::law_sort_permutes_and_orders(tail, key_of(mode));
    assert(sorted_list(s, mode).skip(n) =~= stable_sort(tail, key_of(mode)));
    vstd::seq_lib::lemma_multiset_commutative(head, tail);
    vstd::seq_lib::lemma_multiset_commutative(head, stable_sort(tail, key_of(mode)));
    assert(s =~= head + tail);
}

/// Texts agree on their first `k` characters, and there the first ends, or goes on
/// with a smaller character than the second.
pub open spec fn agrees_until(s: Seq<char>, t: Seq<char>, k: int) -> bool {
    &&& 0 <= k <= s.len()
    &&& k <= t.len()
    &&& forall|i: int| 0 <= i < k ==> #[trigger] s[i] == t[i]
    &&& k == s.len() || (k < t.len() && (s[k] as u32) < (t[k] as u32))
}

/// A text does not come after another in a dictionary.
pub open spec fn not_after(s: Seq<char>, t: Seq<char>) -> bool {
    exists|k: int| #[trigger] agrees_until(s, t, k)
}

proof fn lemma_not_after(s: Seq<char>, t: Seq<char>)
    requires
        !crate::sorting::precedes(code_points(t), code_points(s)),
    ensures
        not_after(s, t),
    decreases s.len(),
{
    let a = code_points(s);
    let b = code_points(t);
    if s.len() == 0 {
        assert(agrees_until(s, t, 0));
    } else if t.len() == 0 {
        assert(crate::sorting::precedes(b, a));
    } else if s[0] != t[0] {
        vstd::utf8::char_u32_cast(s[0], a[0]);
        vstd::utf8::char_u32_cast(t[0], b[0]);
        assert(agrees_until(s, t, 0));
    } else {
        assert(a.drop_first() =~= code_points(s.drop_first()));
        assert(b.drop_first() =~= code_points(t.drop_first()));
        lemma_not_after(s.drop_first(), t.drop_first());
        let k = choose|k: int| #[trigger] agrees_until(s.drop_first(), t.drop_first(), k);
        assert forall|i: int| 0 <= i < k + 1 implies #[trigger] s[i] == t[i] by {
            if i > 0 {
                assert(s.drop_first()[i - 1] == t.drop_first()[i - 1]);
            }
        }
        if k < s.drop_first().len() {
            assert(s[k + 1] == s.drop_first()[k]);
            assert(t[k + 1] == t.drop_first()[k]);
        }
        assert(agrees_until(s, t, k + 1));
    }
}

/// After sorting, the header and play rows that a list begins with stand where they
/// stood. Of any two rows below them, the earlier was not fetched later, or its whole
/// title, or its whole artist, without regard to case, does not come after that of
/// the later one in a dictionary.
pub proof fn law_rows_stand_in_order(s: Seq<LibItemView>, mode: SortMode, n: int, i: int, j: int)
    requires
        0 <= n <= i <= j < s.len(),
        forall|k: int| 0 <= k < n ==> (#[trigger] s[k]).is_header || s[k].is_play,
        n < s.len() ==> !s[n].is_header && !s[n].is_play,
    ensures
        ({
            let r = sorted_list(s, mode);
            &&& r.len() == s.len()
            &&& r.take(n) == s.take(n)
            &&& r.skip(n).to_multiset() == s.skip(n).to_multiset()
            &&& match mode {
                SortMode::Added => r[i].order <= r[j].order,
                SortMode::Title => not_after(lowercase(r[i].name), lowercase(r[j].name)),
                SortMode::Artist => not_after(lowercase(r[i].subtitle), lowercase(r[j].subtitle)),
            }
        }),
{
    assert forall|k: int| 0 <= k < n implies is_pinned(#[trigger] s[k]) by {
        assert(s[k].is_header || s[k].is_play);
    }
    lemma_pinned(s, n);
    let key = key_of(mode);
    let t = stable_sort(s.skip(n), key);
    crate::sorting::law_sort_permutes_and_orders(s.skip(n), key);
    let r = sorted_list(s, mode);
    assert(r.take(n) =~= s.take(n));
    assert(r.skip(n) =~= t);
    assert(r[i] == t[i - n] && r[j] == t[j - n]);
    if i < j {
        assert(!crate::sorting::precedes(key(t[j - n]), key(t[i - n])));
    } else {
        crate::sorting::lemma_precedes_not_self(key(r[i]));
    }
    match mode {
        SortMode::Added => {
            reveal_with_fuel(crate::sorting::precedes, 2);
            assert(key(r[i]) == seq![r[i].order]);
            assert(key(r[j]) == seq![r[j].order]);
        },
        SortMode::Title => {
            lemma_not_after(lowercase(r[i].name), lowercase(r[j].name));
        },
        SortMode::Artist => {
            lemma_not_after(lowercase(r[i].subtitle), lowercase(r[j].subtitle));
        },
    }
}

/// Every row was fetched after the ones before it.
pub open spec fn in_fetch_order(s: Seq<LibItemView>) -> bool {
    forall|i: int, j: int| 0 <= i < j < s.len() ==> (#[trigger] s[i]).order < (#[trigger] s[j]).order
}

/// Header and play rows stand at the top only.
pub open spec fn pinned_at_the_top(s: Seq<LibItemView>) -> bool {
    forall|i: int| pinned(s) <= i < s.len() ==> !is_pinned(#[trigger] s[i])
}

/// A list is another one with the rows below its pinned rows rearranged.
pub open spec fn is_rearranged(t: Seq<LibItemView>, s: Seq<LibItemView>) -> bool {
    let n = pinned(s);
    &&& t.len() == s.len()
    &&& t.take(n) == s.take(n)
    &&& t.skip(n).to_multiset() == s.skip(n).to_multiset()
}

/// A multiset of rows has only one arrangement in the order of fetching.
proof fn lemma_one_fetch_order(r: Seq<LibItemView>, s: Seq<LibItemView>)
    requires
        in_fetch_order(s),
        crate::sorting::in_order(r, key_of(SortMode::Added)),
        r.to_multiset() == s.to_multiset(),
    ensures
        r == s,
    decreases s.len(),
{
    broadcast use vstd::seq_lib::group_to_multiset_ensures;

    assert(r.to_multiset().len() == r.len());
    assert(s.to_multiset().len() == s.len());
    if s.len() > 0 {
        let n = s.len() - 1;
        assert(s.to_multiset().contains(r[n]));
        assert(s.contains(r[n]));
        let k = choose|k: int| 0 <= k < s.len() && s[k] == r[n];
        assert(r.to_multiset().contains(s[n]));
        assert(r.contains(s[n]));
        let j = choose|j: int| 0 <= j < r.len() && r[j] == s[n];
        if j < n {
            let key = key_of(SortMode::Added);
            assert(!crate::sorting::precedes(key(r[n]), key(r[j])));
            reveal_with_fuel(crate::sorting::precedes, 2);
            assert(k == n);
        }
        assert(r[n] == s[n]);
        assert(r =~= r.drop_last().push(r[n]));
        assert(s =~= s.drop_last().push(s[n]));
        assert(r.drop_last().to_multiset() =~= r.to_multiset().remove(r[n]));
        assert(s.drop_last().to_multiset() =~= s.to_multiset().remove(s[n]));
        lemma_one_fetch_order(r.drop_last(), s.drop_last());
    } else {
        assert(r =~= s);
    }
}

/// Rearranging moves no row to the pinned ones.
proof fn lemma_rearranged_pinned(t: Seq<LibItemView>, s: Seq<LibItemView>)
    requires
        pinned_at_the_top(s),
        is_rearranged(t, s),
    ensures
        pinned(t) == pinned(s),
{
    broadcast use vstd::seq_lib::group_to_multiset_ensures;

    lemma_pinned_range(s);
    let n = pinned(s);
    assert forall|i: int| 0 <= i < n implies is_pinned(#[trigger] t[i]) by {
        assert(t.take(n)[i] == s.take(n)[i]);
        assert(is_pinned(s[i]));
    }
    if n < t.len() {
        assert(t.skip(n)[0] == t[n]);
        assert(t.skip(n).to_multiset().contains(t[n]));
        assert(s.skip(n).contains(t[n]));
        let k = choose|k: int| 0 <= k < s.skip(n).len() && s.skip(n)[k] == t[n];
        assert(!is_pinned(s[n + k]));
    }
    lemma_pinned(t, n);
}

/// However the rows of a fetched list have been rearranged, sorting by "added"
/// brings the fetched list back.
pub proof fn law_added_brings_back(t: Seq<LibItemView>, s: Seq<LibItemView>)
    requires
        in_fetch_order(s),
        pinned_at_the_top(s),
        is_rearranged(t, s),
    ensures
        sorted_list(t, SortMode::Added) == s,
{
    lemma_rearranged_pinned(t, s);
    lemma_pinned_range(s);
    let n = pinned(s);
    let key = key_of(SortMode::Added);
    crate::sorting::law_sort_permutes_and_orders(t.skip(n), key);
    lemma_one_fetch_order(stable_sort(t.skip(n), key), s.skip(n));
    assert(sorted_list(t, SortMode::Added) =~= s.take(n) + s.skip(n));
    assert(s =~= s.take(n) + s.skip(n));
}

/// Sorting only rearranges, and leaves the pinned rows at the top.
pub proof fn law_sorting_rearranges(t: Seq<LibItemView>, s: Seq<LibItemView>, mode: SortMode)
    requires
        pinned_at_the_top(s),
        is_rearranged(t, s),
    ensures
        is_rearranged(sorted_list(t, mode), s),
{
    lemma_rearranged_pinned(t, s);
    lemma_pinned_range(s);
    let n = pinned(s);
    crate::sorting::law_sort_permutes_and_orders(t.skip(n), key_of(mode));
    let u = sorted_list(t, mode);
    assert(u.take(n) =~= t.take(n));
    assert(u.skip(n) =~= stable_sort(t.skip(n), key_of(mode)));
}

/// Sorting a fetched list in any order and then by "added" brings it back.
pub proof fn law_added_undoes_sorting(s: Seq<LibItemView>, mode: SortMode)
    requires
        in_fetch_order(s),
        pinned_at_the_top(s),
    ensures
        sorted_list(sorted_list(s, mode), SortMode::Added) == s,
{
    law_sorting_rearranges(s, s, mode);
    law_added_brings_back(sorted_list(s, mode), s);
}

// ---------------------------------------------------------------------------
// Details and actions
// ---------------------------------------------------------------------------

/// A drill-in detail view (artist / album / playlist contents).
pub struct Detail {
    pub title: String,
    pub items: Vec<LibItem>,
    pub parent_selected: usize,
}

pub struct DetailView {
    pub title: Seq<char>,
    pub items: Seq<LibItemView>,
    pub parent_selected: usize,
}

impl View for Detail {
    type V = DetailView;

    open spec fn view(&self) -> DetailView {
        DetailView {
            title: self.title@,
            items: views(self.items@),
            parent_selected: self.parent_selected,
        }
    }
}

/// What an action-menu entry does when activated.
#[derive(Debug)]
pub enum ActionKind {
    ToggleLike { id: String, saved: bool },
    Queue { uri: String },
    PlayNext { uri: String },
    AddToPlaylistMenu { track_uri: String },
    AddToPlaylist { playlist_id: String, track_uri: String },
    StarTrack { track_uri: String },
    UnstarTrack { track_uri: String },
    ToggleFollowArtist { id: String, following: bool },
    ToggleSaveAlbum { id: String, saved: bool },
    FollowPlaylist { id: String },
    /// The name is carried so that the play path can say what is played.
    Play { uri: String, name: String },
    Open { uri: String, name: String },
    CopyLink { uri: String },
}

pub enum ActionKindView {
    ToggleLike { id: Seq<char>, saved: bool },
    Queue { uri: Seq<char> },
    PlayNext { uri: Seq<char> },
    AddToPlaylistMenu { track_uri: Seq<char> },
    AddToPlaylist { playlist_id: Seq<char>, track_uri: Seq<char> },
    StarTrack { track_uri: Seq<char> },
    UnstarTrack { track_uri: Seq<char> },
    ToggleFollowArtist { id: Seq<char>, following: bool },
    ToggleSaveAlbum { id: Seq<char>, saved: bool },
    FollowPlaylist { id: Seq<char> },
    Play { uri: Seq<char>, name: Seq<char> },
    Open { uri: Seq<char>, name: Seq<char> },
    CopyLink { uri: Seq<char> },
}

impl View for ActionKind {
    type V = ActionKindView;

    open spec fn view(&self) -> ActionKindView {
        match self {
            ActionKind::ToggleLike { id, saved } => ActionKindView::ToggleLike {
                id: id@,
                saved: *saved,
            },
            ActionKind::Queue { uri } => ActionKindView::Queue { uri: uri@ },
            ActionKind::PlayNext { uri } => ActionKindView::PlayNext { uri: uri@ },
            ActionKind::AddToPlaylistMenu { track_uri } => ActionKindView::AddToPlaylistMenu {
                track_uri: track_uri@,
            },
            ActionKind::AddToPlaylist { playlist_id, track_uri } => ActionKindView::AddToPlaylist {
                playlist_id: playlist_id@,
                track_uri: track_uri@,
            },
            ActionKind::StarTrack { track_uri } => ActionKindView::StarTrack {
                track_uri: track_uri@,
            },
            ActionKind::UnstarTrack { track_uri } => ActionKindView::UnstarTrack {
                track_uri: track_uri@,
            },
            ActionKind::ToggleFollowArtist { id, following } => ActionKindView::ToggleFollowArtist {
                id: id@,
                following: *following,
            },
            ActionKind::ToggleSaveAlbum { id, saved } => ActionKindView::ToggleSaveAlbum {
                id: id@,
                saved: *saved,
            },
            ActionKind::FollowPlaylist { id } => ActionKindView::FollowPlaylist { id: id@ },
            ActionKind::Play { uri, name } => ActionKindView::Play { uri: uri@, name: name@ },
            ActionKind::Open { uri, name } => ActionKindView::Open { uri: uri@, name: name@ },
            ActionKind::CopyLink { uri } => ActionKindView::CopyLink { uri: uri@ },
        }
    }
}

impl Clone for ActionKind {
    fn clone(&self) -> (r: Self)
        ensures
            r == *self,
    {
        match self {
            ActionKind::ToggleLike { id, saved } => ActionKind::ToggleLike {
                id: id.clone(),
                saved: *saved,
            },
            ActionKind::Queue { uri } => ActionKind::Queue { uri: uri.clone() },
            ActionKind::PlayNext { uri } => ActionKind::PlayNext { uri: uri.clone() },
            ActionKind::AddToPlaylistMenu { track_uri } => ActionKind::AddToPlaylistMenu {
                track_uri: track_uri.clone(),
            },
            ActionKind::AddToPlaylist { playlist_id, track_uri } => ActionKind::AddToPlaylist {
                playlist_id: playlist_id.clone(),
                track_uri: track_uri.clone(),
            },
            ActionKind::StarTrack { track_uri } => ActionKind::StarTrack {
                track_uri: track_uri.clone(),
            },
            ActionKind::UnstarTrack { track_uri } => ActionKind::UnstarTrack {
                track_uri: track_uri.clone(),
            },
            ActionKind::ToggleFollowArtist { id, following } => ActionKind::ToggleFollowArtist {
                id: id.clone(),
                following: *following,
            },
            ActionKind::ToggleSaveAlbum { id, saved } => ActionKind::ToggleSaveAlbum {
                id: id.clone(),
                saved: *saved,
            },
            ActionKind::FollowPlaylist { id } => ActionKind::FollowPlaylist { id: id.clone() },
            ActionKind::Play { uri, name } => ActionKind::Play {
                uri: uri.clone(),
                name: name.clone(),
            },
            ActionKind::Open { uri, name } => ActionKind::Open {
                uri: uri.clone(),
                name: name.clone(),
            },
            ActionKind::CopyLink { uri } => ActionKind::CopyLink { uri: uri.clone() },
        }
    }
}

pub struct ActionItem {
    pub label: String,
    pub kind: ActionKind,
}

pub struct ActionItemView {
    pub label: Seq<char>,
    pub kind: ActionKindView,
}

impl View for ActionItem {
    type V = ActionItemView;

    open spec fn view(&self) -> ActionItemView {
        ActionItemView { label: self.label@, kind: self.kind@ }
    }
}

pub struct ActionMenu {
    pub title: String,
    pub items: Vec<ActionItem>,
    pub selected: usize,
}

pub struct ActionMenuView {
    pub title: Seq<char>,
    pub items: Seq<ActionItemView>,
    pub selected: usize,
}

impl View for ActionMenu {
    type V = ActionMenuView;

    open spec fn view(&self) -> ActionMenuView {
        ActionMenuView {
            title: self.title@,
            items: views(self.items@),
            selected: self.selected,
        }
    }
}

/// Result of activating (Enter on) a library item.
pub enum Activated {
    Nothing,
    /// Drill into a context (uri, name).
    Open(String, String),
}

pub enum ActivatedView {
    Nothing,
    Open(Seq<char>, Seq<char>),
}

impl View for Activated {
    type V = ActivatedView;

    open spec fn view(&self) -> ActivatedView {
        match self {
            Activated::Nothing => ActivatedView::Nothing,
            Activated::Open(uri, name) => ActivatedView::Open(uri@, name@),
        }
    }
}

// ---------------------------------------------------------------------------
// The library
// ---------------------------------------------------------------------------

pub struct Library {
    pub home: Vec<LibItem>,
    pub recent: Vec<LibItem>,
    pub playlists: Vec<LibItem>,
    pub liked: Vec<LibItem>,
    pub albums: Vec<LibItem>,
    pub artists: Vec<LibItem>,
}

pub struct LibraryView {
    pub home: Seq<LibItemView>,
    pub recent: Seq<LibItemView>,
    pub playlists: Seq<LibItemView>,
    pub liked: Seq<LibItemView>,
    pub albums: Seq<LibItemView>,
    pub artists: Seq<LibItemView>,
}

impl View for Library {
    type V = LibraryView;

    open spec fn view(&self) -> LibraryView {
        LibraryView {
            home: views(self.home@),
            recent: views(self.recent@),
            playlists: views(self.playlists@),
            liked: views(self.liked@),
            albums: views(self.albums@),
            artists: views(self.artists@),
        }
    }
}

impl Clone for Library {
    fn clone(&self) -> (r: Self)
        ensures
            r@ == self@,
    {
        Library {
            home: self.home.clone(),
            recent: self.recent.clone(),
            playlists: self.playlists.clone(),
            liked: self.liked.clone(),
            albums: self.albums.clone(),
            artists: self.artists.clone(),
        }
    }
}

impl Default for Library {
    fn default() -> (r: Self)
        ensures
            r@ == LibraryView::empty(),
    {
        let r = Library {
            home: Vec::new(),
            recent: Vec::new(),
            playlists: Vec::new(),
            liked: Vec::new(),
            albums: Vec::new(),
            artists: Vec::new(),
        };
        assert(views(Seq::<LibItem>::empty()) =~= Seq::<LibItemView>::empty());
        r
    }
}

impl LibraryView {
    pub open spec fn empty() -> LibraryView {
        LibraryView {
            home: Seq::empty(),
            recent: Seq::empty(),
            playlists: Seq::empty(),
            liked: Seq::empty(),
            albums: Seq::empty(),
            artists: Seq::empty(),
        }
    }

    /// The list of a section.
    pub open spec fn get(self, s: Section) -> Seq<LibItemView> {
        match s {
            Section::Home => self.home,
            Section::Recent => self.recent,
            Section::Playlists => self.playlists,
            Section::Liked => self.liked,
            Section::Albums => self.albums,
            Section::Artists => self.artists,
        }
    }

    /// The library with another list in a section.
    pub open spec fn with(self, s: Section, items: Seq<LibItemView>) -> LibraryView {
        match s {
            Section::Home => LibraryView { home: items, ..self },
            Section::Recent => LibraryView { recent: items, ..self },
            Section::Playlists => LibraryView { playlists: items, ..self },
            Section::Liked => LibraryView { liked: items, ..self },
            Section::Albums => LibraryView { albums: items, ..self },
            Section::Artists => LibraryView { artists: items, ..self },
        }
    }
}

/// A section holds what was last put there, and the other sections what they held.
pub proof fn law_library_sections_are_separate(
    lib: LibraryView,
    s: Section,
    t: Section,
    items: Seq<LibItemView>,
)
    ensures
        lib.with(s, items).get(t) == (if s == t {
            items
        } else {
            lib.get(t)
        }),
{
}

impl Library {
    pub fn items(&self, s: Section) -> (r: &[LibItem])
        ensures
            views(r@) == self@.get(s),
    {
        match s {
            Section::Home => self.home.as_slice(),
            Section::Recent => self.recent.as_slice(),
            Section::Playlists => self.playlists.as_slice(),
            Section::Liked => self.liked.as_slice(),
            Section::Albums => self.albums.as_slice(),
            Section::Artists => self.artists.as_slice(),
        }
    }

    pub fn items_mut(&mut self, s: Section) -> (r: &mut Vec<LibItem>)
        ensures
            views(r@) == old(self)@.get(s),
            final(self)@ == old(self)@.with(s, views(final(r)@)),
    {
        match s {
            Section::Home => &mut self.home,
            Section::Recent => &mut self.recent,
            Section::Playlists => &mut self.playlists,
            Section::Liked => &mut self.liked,
            Section::Albums => &mut self.albums,
            Section::Artists => &mut self.artists,
        }
    }

    pub fn set(&mut self, s: Section, items: Vec<LibItem>)
        ensures
            final(self)@ == old(self)@.with(s, views(items@)),
    {
        match s {
            Section::Home => {
                self.home = items;
            },
            Section::Recent => {
                self.recent = items;
            },
            Section::Playlists => {
                self.playlists = items;
            },
            Section::Liked => {
                self.liked = items;
            },
            Section::Albums => {
                self.albums = items;
            },
            Section::Artists => {
                self.artists = items;
            },
        }
    }
}

// ---------------------------------------------------------------------------
// Playback
// ---------------------------------------------------------------------------

/// What is playing. Instants are nanoseconds on a clock that never goes back.
pub struct NowPlaying {
    pub uri: String,
    pub title: String,
    pub artist: String,
    pub album: String,
    pub duration_ms: u32,
    pub position_ms: u32,
    pub position_at: u64,
    pub is_playing: bool,
    /// Whether there is a cover to show.
    pub cover: bool,
}

pub struct NowPlayingView {
    pub uri: Seq<char>,
    pub title: Seq<char>,
    pub artist: Seq<char>,
    pub album: Seq<char>,
    pub duration_ms: u32,
    pub position_ms: u32,
    pub position_at: u64,
    pub is_playing: bool,
    pub cover: bool,
}

impl View for NowPlaying {
    type V = NowPlayingView;

    open spec fn view(&self) -> NowPlayingView {
        NowPlayingView {
            uri: self.uri@,
            title: self.title@,
            artist: self.artist@,
            album: self.album@,
            duration_ms: self.duration_ms,
            position_ms: self.position_ms,
            position_at: self.position_at,
            is_playing: self.is_playing,
            cover: self.cover,
        }
    }
}

/// What was found out about a track that starts to play.
pub struct TrackMeta {
    pub uri: String,
    pub title: String,
    pub artist: String,
    pub album: String,
    pub duration_ms: u32,
    /// Whether there is a cover to show.
    pub image: bool,
    /// The colours of the cover.
    pub theme: Option<Theme>,
}

pub struct TrackMetaView {
    pub uri: Seq<char>,
    pub title: Seq<char>,
    pub artist: Seq<char>,
    pub album: Seq<char>,
    pub duration_ms: u32,
    pub image: bool,
    pub theme: Option<Theme>,
}

impl View for TrackMeta {
    type V = TrackMetaView;

    open spec fn view(&self) -> TrackMetaView {
        TrackMetaView {
            uri: self.uri@,
            title: self.title@,
            artist: self.artist@,
            album: self.album@,
            duration_ms: self.duration_ms,
            image: self.image,
            theme: self.theme,
        }
    }
}

/// What kind of thing is currently playing — persisted so we can resume the real
/// context (and its live queue) on reboot, not just a bare track.
#[derive(Debug)]
pub enum PlaySource {
    Nothing,
    /// Playlist / album / artist URI.
    Context(String),
    /// Seed track URI.
    Radio(String),
    Liked,
}

pub enum PlaySourceView {
    Nothing,
    Context(Seq<char>),
    Radio(Seq<char>),
    Liked,
}

impl View for PlaySource {
    type V = PlaySourceView;

    open spec fn view(&self) -> PlaySourceView {
        match self {
            PlaySource::Nothing => PlaySourceView::Nothing,
            PlaySource::Context(uri) => PlaySourceView::Context(uri@),
            PlaySource::Radio(uri) => PlaySourceView::Radio(uri@),
            PlaySource::Liked => PlaySourceView::Liked,
        }
    }
}

impl Clone for PlaySource {
    fn clone(&self) -> (r: Self)
        ensures
            r == *self,
    {
        match self {
            PlaySource::Nothing => PlaySource::Nothing,
            PlaySource::Context(uri) => PlaySource::Context(uri.clone()),
            PlaySource::Radio(uri) => PlaySource::Radio(uri.clone()),
            PlaySource::Liked => PlaySource::Liked,
        }
    }
}

impl Default for PlaySource {
    fn default() -> (r: Self)
        ensures
            r == PlaySource::Nothing,
    {
        PlaySource::Nothing
    }
}

// ---------------------------------------------------------------------------
// The saved state
// ---------------------------------------------------------------------------

/// Persisted across sessions (~/.cache/myx/state.json).
pub struct SavedState {
    pub volume: u8,
    pub shuffle: bool,
    pub repeat: bool,
    pub last_played: Option<LastPlayed>,
    pub queue: Vec<String>,
    pub queue_uris: Vec<String>,
    pub source: PlaySource,
    pub source_name: String,
}

pub struct SavedStateView {
    pub volume: u8,
    pub shuffle: bool,
    pub repeat: bool,
    pub last_played: Option<LastPlayedView>,
    pub queue: Seq<Seq<char>>,
    pub queue_uris: Seq<Seq<char>>,
    pub source: PlaySourceView,
    pub source_name: Seq<char>,
}

impl View for SavedState {
    type V = SavedStateView;

    open spec fn view(&self) -> SavedStateView {
        SavedStateView {
            volume: self.volume,
            shuffle: self.shuffle,
            repeat: self.repeat,
            last_played: view_opt(self.last_played),
            queue: views(self.queue@),
            queue_uris: views(self.queue_uris@),
            source: self.source@,
            source_name: self.source_name@,
        }
    }
}

pub struct LastPlayed {
    pub uri: String,
    pub title: String,
    pub artist: String,
    pub album: String,
    pub duration_ms: u32,
    pub position_ms: u32,
}

pub struct LastPlayedView {
    pub uri: Seq<char>,
    pub title: Seq<char>,
    pub artist: Seq<char>,
    pub album: Seq<char>,
    pub duration_ms: u32,
    pub position_ms: u32,
}

impl View for LastPlayed {
    type V = LastPlayedView;

    open spec fn view(&self) -> LastPlayedView {
        LastPlayedView {
            uri: self.uri@,
            title: self.title@,
            artist: self.artist@,
            album: self.album@,
            duration_ms: self.duration_ms,
            position_ms: self.position_ms,
        }
    }
}

impl SavedStateView {
    /// The state of a first start.
    pub open spec fn fresh() -> SavedStateView {
        SavedStateView {
            volume: 0,
            shuffle: false,
            repeat: false,
            last_played: None,
            queue: Seq::empty(),
            queue_uris: Seq::empty(),
            source: PlaySourceView::Nothing,
            source_name: Seq::empty(),
        }
    }
}

impl Default for SavedState {
    fn default() -> (r: Self)
        ensures
            r@ == SavedStateView::fresh(),
    {
        let r = SavedState {
            volume: 0,
            shuffle: false,
            repeat: false,
            last_played: None,
            queue: Vec::new(),
            queue_uris: Vec::new(),
            source: PlaySource::Nothing,
            source_name: String::new(),
        };
        assert(views(Seq::<String>::empty()) =~= Seq::<Seq<char>>::empty());
        r
    }
}

impl SavedState {
    /// The file of the saved state, where the home directory is known.
    pub fn path(home: Option<&str>) -> (r: Option<String>)
        ensures
            r is Some <==> home is Some,
            r matches Some(p) ==> p@ == path_below(home->0@, STATE_FILE@),
    {
        match home {
            Some(h) => Some(join_path(h, STATE_FILE)),
            None => None,
        }
    }

    /// The stored state, or that of a first start where none could be read.
    pub fn load(stored: Option<SavedState>) -> (r: SavedState)
        ensures
            stored matches Some(s) ==> r == s,
            stored is None ==> r@ == SavedStateView::fresh(),
    {
        match stored {
            Some(s) => s,
            None => SavedState::default(),
        }
    }
}

} // verus!
