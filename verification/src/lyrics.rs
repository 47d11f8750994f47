//! Timed lyrics in the LRC format: `[mm:ss.xx] text`, one or more stamps a line.

use vstd::prelude::*;
use vstd::utf8::{decode_utf8, encode_utf8, is_char_boundary};
use crate::sorting::{in_order, sort_tail, stable_sort};
use crate::text::{
    chars_of, find, find_from, lines, number, parse_number, skip_while, skip_white_space, split_lines,
    string_of, trim_from, trim_start, trimmed, views, white_space, without_cr,
};

verus! {

// ---------------------------------------------------------------------------
// Stamps
// ---------------------------------------------------------------------------

/// The digits behind the point, filled up with zeros to three characters.
pub open spec fn padded(cs: Seq<char>) -> Seq<char> {
    if cs.len() >= 3 {
        cs
    } else {
        cs + Seq::new((3 - cs.len()) as nat, |i: int| '0')
    }
}

/// Milliseconds behind the point: the number in the first three bytes of the
/// filled-up digits, or zero where those are no number.
pub open spec fn fraction(cs: Seq<char>) -> u32 {
    match number(decode_utf8(encode_utf8(padded(cs)).subrange(0, 3))) {
        Some(n) => n,
        None => 0,
    }
}

/// The parts of a stamp `mm:ss` or `mm:ss.xx`: minutes, seconds, and what stands
/// behind the point (`0` where there is no point).
pub open spec fn stamp_parts(tag: Seq<char>) -> Option<(u32, u32, Seq<char>)> {
    let colon = find(tag, ':');
    if colon >= tag.len() {
        None
    } else {
        let rest = tag.skip(colon + 1);
        let point = find(rest, '.');
        let cs = if point < rest.len() {
            rest.skip(point + 1)
        } else {
            seq!['0']
        };
        match (number(tag.take(colon)), number(rest.take(point))) {
            (Some(mm), Some(ss)) => Some((mm, ss, cs)),
            _ => None,
        }
    }
}

/// The time of a stamp in milliseconds.
pub open spec fn stamp_ms(tag: Seq<char>) -> Option<int> {
    match stamp_parts(tag) {
        Some((mm, ss, cs)) => Some((mm * 60 + ss) * 1000 + fraction(cs)),
        None => None,
    }
}

/// A tag can be read: its time fits in 32 bits, and the third byte of the
/// filled-up fraction ends a character.
pub open spec fn stamp_readable(tag: Seq<char>) -> bool {
    match stamp_parts(tag) {
        Some((mm, ss, cs)) => {
            &&& is_char_boundary(encode_utf8(padded(cs)), 3)
            &&& (mm * 60 + ss) * 1000 + fraction(cs) <= u32::MAX
        },
        None => true,
    }
}

/// The parts of the stamp in `v[from..to]`: minutes, seconds and the filled-up
/// fraction.
fn split_stamp(v: &Vec<char>, from: usize, to: usize) -> (r: Option<(u32, u32, String)>)
    requires
        from <= to <= v@.len(),
    ensures
        match (r, stamp_parts(v@.subrange(from as int, to as int))) {
            (Some(p), Some(q)) => p.0 == q.0 && p.1 == q.1 && p.2@ == padded(q.2),
            (None, None) => true,
            _ => false,
        },
{
    let ghost tag = v@.subrange(from as int, to as int);
    let mut t: Vec<char> = Vec::new();
    let mut i: usize = from;
    while i < to
        invariant
            from <= i <= to <= v@.len(),
            t@ == v@.subrange(from as int, i as int),
        decreases to - i,
    {
        t.push(v[i]);
        i += 1;
        assert(t@ =~= v@.subrange(from as int, i as int));
    }
    assert(t@.skip(0) =~= tag);
    let colon: usize = find_from(&t, 0, ':');
    if colon >= t.len() {
        return None;
    }
    let point: usize = find_from(&t, colon + 1, '.');
    let ghost rest = tag.skip(colon + 1);
    assert(tag.take(colon as int) =~= t@.subrange(0, colon as int));
    assert(rest.take(point - colon - 1) =~= t@.subrange(colon + 1, point as int));
    let mm = match parse_number(&t, 0, colon) {
        Some(n) => n,
        None => {
            return None;
        },
    };
    let ss = match parse_number(&t, colon + 1, point) {
        Some(n) => n,
        None => {
            return None;
        },
    };
    let mut cs = if point < t.len() {
        string_of(&t, point + 1, t.len())
    } else {
        let mut zero = String::new();
        zero.push('0');
        zero
    };
    let ghost raw = cs@;
    proof {
        if point < t@.len() {
            assert(raw =~= rest.skip(point - colon - 1 + 1));
        } else {
            assert(raw =~= seq!['0']);
        }
    }
    let mut n: usize = chars_of(cs.as_str()).len();
    assert(raw =~= raw + Seq::new(0, |k: int| '0'));
    while n < 3
        invariant
            n == cs@.len(),
            raw.len() <= n,
            n > raw.len() ==> n <= 3,
            cs@ == raw + Seq::new((n - raw.len()) as nat, |k: int| '0'),
        decreases 3 - n,
    {
        cs.push('0');
        n += 1;
        assert(cs@ =~= raw + Seq::new((n - raw.len()) as nat, |k: int| '0'));
    }
    assert(cs@ =~= padded(raw));
    Some((mm, ss, cs))
}

/// The number in the first three bytes, or zero.
fn leading_number(p: &String) -> (r: u32)
    requires
        is_char_boundary(encode_utf8(p@), 3),
    ensures
        r == (match number(decode_utf8(encode_utf8(p@).subrange(0, 3))) {
            Some(n) => n,
            None => 0,
        }),
{
    let (head, _tail) = p.as_str().split_at(3);
    let v = chars_of(head);
    proof {
        vstd::utf8::encode_utf8_decode_utf8(head@);
        assert(v@.subrange(0, v@.len() as int) =~= head@);
    }
    match parse_number(&v, 0, v.len()) {
        Some(n) => n,
        None => 0,
    }
}

/// Whether the tag in `v[from..to]` can be read.
fn readable_at(v: &Vec<char>, from: usize, to: usize) -> (r: bool)
    requires
        from <= to <= v@.len(),
    ensures
        r == stamp_readable(v@.subrange(from as int, to as int)),
{
    match split_stamp(v, from, to) {
        Some((mm, ss, cs)) => {
            if !cs.as_str().is_char_boundary(3) {
                return false;
            }
            let ms: u64 = (mm as u64 * 60 + ss as u64) * 1000 + leading_number(&cs) as u64;
            ms <= u32::MAX as u64
        },
        None => true,
    }
}

/// The time of the tag in `v[from..to]`.
fn stamp_at(v: &Vec<char>, from: usize, to: usize) -> (r: Option<u32>)
    requires
        from <= to <= v@.len(),
        stamp_readable(v@.subrange(from as int, to as int)),
    ensures
        match (r, stamp_ms(v@.subrange(from as int, to as int))) {
            (Some(a), Some(b)) => a == b,
            (None, None) => true,
            _ => false,
        },
{
    match split_stamp(v, from, to) {
        Some((mm, ss, cs)) => Some((mm * 60 + ss) * 1000 + leading_number(&cs)),
        None => None,
    }
}

/// Whether `parse_lrc_stamp` can read a tag.
pub fn lrc_stamp_readable(tag: &str) -> (r: bool)
    ensures
        r == stamp_readable(tag@),
{
    let v = chars_of(tag);
    assert(v@.subrange(0, v@.len() as int) =~= tag@);
    readable_at(&v, 0, v.len())
}

/// Reads a stamp `mm:ss` or `mm:ss.xx` as milliseconds.
pub fn parse_lrc_stamp(tag: &str) -> (r: Option<u32>)
    requires
        stamp_readable(tag@),
    ensures
        r is Some <==> stamp_ms(tag@) is Some,
        r matches Some(ms) ==> stamp_ms(tag@) == Some(ms as int),
{
    let v = chars_of(tag);
    assert(v@.subrange(0, v@.len() as int) =~= tag@);
    stamp_at(&v, 0, v.len())
}

// ---------------------------------------------------------------------------
// Lines
// ---------------------------------------------------------------------------

/// A line behind its stamps, with the stamps that were read. Tags that are no
/// stamp are passed over once a stamp has been read; a first tag that is no stamp
/// ends the search.
pub open spec fn scan(rest: Seq<char>, stamps: Seq<u32>) -> (Seq<u32>, Seq<char>)
    decreases rest.len(),
    via scan_decreases
{
    let end = find(rest, ']');
    if rest.len() > 0 && rest[0] == '[' && end < rest.len() {
        let found = match stamp_ms(rest.subrange(1, end)) {
            Some(ms) => stamps.push(ms as u32),
            None => stamps,
        };
        let behind = trim_start(rest.skip(end + 1));
        if found.len() == 0 {
            (found, behind)
        } else {
            scan(behind, found)
        }
    } else {
        (stamps, rest)
    }
}

/// Every tag that `scan` looks at can be read.
pub open spec fn scan_readable(rest: Seq<char>, any: bool) -> bool
    decreases rest.len(),
    via scan_readable_decreases
{
    let end = find(rest, ']');
    if rest.len() > 0 && rest[0] == '[' && end < rest.len() {
        let tag = rest.subrange(1, end);
        let more = any || stamp_ms(tag) is Some;
        &&& stamp_readable(tag)
        &&& more ==> scan_readable(trim_start(rest.skip(end + 1)), more)
    } else {
        true
    }
}

proof fn lemma_trim_start_len(s: Seq<char>)
    ensures
        trim_start(s).len() <= s.len(),
    decreases s.len(),
{
    reveal_with_fuel(crate::text::skip_while, 2);
    if s.len() > 0 {
        lemma_trim_start_len(s.drop_first());
    }
}

#[via_fn]
proof fn scan_decreases(rest: Seq<char>, stamps: Seq<u32>) {
    crate::text::lemma_find_range(rest, ']');
    let end = find(rest, ']');
    if end < rest.len() {
        lemma_trim_start_len(rest.skip(end + 1));
    }
}

#[via_fn]
proof fn scan_readable_decreases(rest: Seq<char>, any: bool) {
    crate::text::lemma_find_range(rest, ']');
    let end = find(rest, ']');
    if end < rest.len() {
        lemma_trim_start_len(rest.skip(end + 1));
    }
}

/// The entries of a line: its text once for every stamp.
pub open spec fn line_entries(line: Seq<char>) -> Seq<(u32, Seq<char>)> {
    let (stamps, rest) = scan(line, Seq::empty());
    stamps.map_values(|ms: u32| (ms, trimmed(rest)))
}

/// The entries of the lines in a row.
pub open spec fn all_entries(ls: Seq<Seq<char>>) -> Seq<(u32, Seq<char>)>
    decreases ls.len(),
{
    if ls.len() == 0 {
        Seq::empty()
    } else {
        all_entries(ls.drop_last()) + line_entries(ls.last())
    }
}

/// The key of an entry: its time.
pub open spec fn entry_time(e: (u32, Seq<char>)) -> Seq<u32> {
    seq![e.0]
}

/// A text's entries in the order of their times.
pub open spec fn timed_lines(lrc: Seq<char>) -> Seq<(u32, Seq<char>)> {
    stable_sort(all_entries(lines(lrc)), |e: (u32, Seq<char>)| entry_time(e))
}

/// Every stamp in a text can be read.
pub open spec fn lrc_readable(lrc: Seq<char>) -> bool {
    forall|i: int| 0 <= i < lines(lrc).len() ==> scan_readable(#[trigger] lines(lrc)[i], false)
}

/// The view of timed lines.
pub open spec fn view_entries(s: Seq<(u32, String)>) -> Seq<(u32, Seq<char>)> {
    s.map_values(|e: (u32, String)| (e.0, e.1@))
}

/// Whether every stamp of a line can be read.
fn line_readable(v: &Vec<char>) -> (r: bool)
    ensures
        r == scan_readable(v@, false),
{
    let mut at: usize = 0;
    let mut any = false;
    assert(v@.skip(0) =~= v@);
    while at < v.len() && v[at] == '['
        invariant
            at <= v@.len(),
            scan_readable(v@, false) == scan_readable(v@.skip(at as int), any),
        decreases v@.len() - at,
    {
        let ghost rest = v@.skip(at as int);
        let end: usize = find_from(v, at, ']');
        if end >= v.len() {
            return true;
        }
        assert(rest[0] == '[');
        assert(v@[end as int] == ']');
        assert(rest.subrange(1, end - at) =~= v@.subrange(at + 1, end as int));
        assert(rest.skip(end - at + 1) =~= v@.skip(end + 1));
        if !readable_at(v, at + 1, end) {
            return false;
        }
        if stamp_at(v, at + 1, end).is_some() {
            any = true;
        }
        if !any {
            return true;
        }
        at = skip_white_space(v, end + 1);
    }
    true
}

/// Whether `parse_lrc` can read a text.
pub fn lrc_text_readable(lrc: &str) -> (r: bool)
    ensures
        r == lrc_readable(lrc@),
{
    let ls = split_lines(lrc);
    let mut i: usize = 0;
    while i < ls.len()
        invariant
            i <= ls@.len(),
            views(ls@) == lines(lrc@),
            forall|k: int| 0 <= k < i ==> scan_readable(#[trigger] lines(lrc@)[k], false),
        decreases ls@.len() - i,
    {
        assert(lines(lrc@)[i as int] == ls@[i as int]@);
        if !line_readable(&ls[i]) {
            return false;
        }
        i += 1;
    }
    true
}

/// Appends the entries of one line.
fn push_line(out: &mut Vec<(u32, String)>, v: &Vec<char>)
    requires
        scan_readable(v@, false),
    ensures
        view_entries(final(out)@) == view_entries(old(out)@) + line_entries(v@),
{
    let mut at: usize = 0;
    let mut stamps: Vec<u32> = Vec::new();
    assert(v@.skip(0) =~= v@);
    let mut open = true;
    while open && at < v.len() && v[at] == '['
        invariant
            at <= v@.len(),
            open ==> scan(v@, Seq::empty()) == scan(v@.skip(at as int), stamps@),
            open ==> scan_readable(v@.skip(at as int), stamps@.len() > 0),
            !open ==> scan(v@, Seq::empty()) == (stamps@, v@.skip(at as int)),
        decreases v@.len() - at, (if open { 1int } else { 0int }),
    {
        let ghost rest = v@.skip(at as int);
        let end: usize = find_from(v, at, ']');
        if end >= v.len() {
            open = false;
        } else {
            assert(rest[0] == '[');
            assert(v@[end as int] == ']');
            assert(rest.subrange(1, end - at) =~= v@.subrange(at + 1, end as int));
            assert(rest.skip(end - at + 1) =~= v@.skip(end + 1));
            if let Some(ms) = stamp_at(v, at + 1, end) {
                stamps.push(ms);
            }
            at = skip_white_space(v, end + 1);
            if stamps.len() == 0 {
                open = false;
            }
        }
    }
    let text = trim_from(v, at);
    let ghost rest = v@.skip(at as int);
    assert(scan(v@, Seq::empty()) == (stamps@, rest));
    let ghost entries = line_entries(v@);
    let ghost before = view_entries(out@);
    let mut i: usize = 0;
    assert(before + entries.take(0) =~= before);
    while i < stamps.len()
        invariant
            i <= stamps@.len(),
            entries.len() == stamps@.len(),
            forall|k: int| 0 <= k < entries.len() ==> #[trigger] entries[k] == (stamps@[k], text@),
            view_entries(out@) == before + entries.take(i as int),
        decreases stamps@.len() - i,
    {
        let ghost so_far = out@;
        let line = text.clone();
        out.push((stamps[i], line));
        proof {
            assert(entries[i as int] == (stamps@[i as int], line@));
            assert(view_entries(out@) =~= view_entries(so_far).push(entries[i as int]));
            assert(entries.take(i + 1) =~= entries.take(i as int).push(entries[i as int]));
        }
        i += 1;
        assert(view_entries(out@) =~= before + entries.take(i as int));
    }
    assert(entries.take(i as int) =~= entries);
}

/// Reads LRC lines `[mm:ss.xx] text` into pairs of time and text, sorted by time.
pub fn parse_lrc(lrc: &str) -> (r: Vec<(u32, String)>)
    requires
        lrc_readable(lrc@),
    ensures
        view_entries(r@) == timed_lines(lrc@),
{
    let ls = split_lines(lrc);
    let mut out: Vec<(u32, String)> = Vec::new();
    let mut i: usize = 0;
    let ghost all = lines(lrc@);
    assert(view_entries(out@) =~= all_entries(all.take(0)));
    while i < ls.len()
        invariant
            i <= ls@.len(),
            views(ls@) == all,
            all == lines(lrc@),
            lrc_readable(lrc@),
            view_entries(out@) == all_entries(all.take(i as int)),
        decreases ls@.len() - i,
    {
        assert(all[i as int] == ls@[i as int]@);
        push_line(&mut out, &ls[i]);
        assert(all.take(i + 1).drop_last() =~= all.take(i as int));
        i += 1;
    }
    assert(all.take(i as int) =~= all);
    let mut keys: Vec<Vec<u32>> = Vec::new();
    let mut k: usize = 0;
    while k < out.len()
        invariant
            k <= out@.len(),
            keys@.len() == k,
            forall|q: int| 0 <= q < k ==> (#[trigger] keys@[q])@ == seq![out@[q].0],
        decreases out@.len() - k,
    {
        let mut key: Vec<u32> = Vec::new();
        key.push(out[k].0);
        assert(key@ =~= seq![out@[k as int].0]);
        keys.push(key);
        k += 1;
    }
    let ghost time = |e: (u32, String)| seq![e.0];
    let ghost unsorted = out@;
    sort_tail(out.as_mut_slice(), 0, &mut keys, Ghost(time));
    proof {
        assert(unsorted.skip(0) =~= unsorted);
        assert(out@ =~= stable_sort(unsorted, time));
        crate::sorting::lemma_sort_map(
            unsorted,
            time,
            |e: (u32, String)| (e.0, e.1@),
            |e: (u32, Seq<char>)| entry_time(e),
        );
    }
    out
}

/// The lines of lyrics come in the order of their times, however the text
/// orders them.
pub proof fn law_lyrics_are_in_time_order(lrc: Seq<char>, i: int, j: int)
    requires
        0 <= i <= j < timed_lines(lrc).len(),
    ensures
        timed_lines(lrc)[i].0 <= timed_lines(lrc)[j].0,
{
    let key = |e: (u32, Seq<char>)| entry_time(e);
    let s = timed_lines(lrc);
    crate::sorting::law_sort_permutes_and_orders(all_entries(lines(lrc)), key);
    if i < j {
        assert(in_order(s, key));
        assert(!crate::sorting::precedes(key(s[j]), key(s[i])));
        reveal_with_fuel(crate::sorting::precedes, 2);
    }
}

/// Sorting the lyrics neither loses a line nor makes one up.
pub proof fn law_lyrics_keep_every_line(lrc: Seq<char>)
    ensures
        timed_lines(lrc).to_multiset() == all_entries(lines(lrc)).to_multiset(),
{
    crate::sorting::law_sort_permutes_and_orders(
        all_entries(lines(lrc)),
        |e: (u32, Seq<char>)| entry_time(e),
    );
}

// ---------------------------------------------------------------------------
// Texts one behind the other
// ---------------------------------------------------------------------------

proof fn lemma_skip_with_cr(s: Seq<char>, p: spec_fn(char) -> bool)
    requires
        p('\r'),
    ensures
        skip_while(s.push('\r'), p) == (if skip_while(s, p).len() == 0 {
            Seq::empty()
        } else {
            skip_while(s, p).push('\r')
        }),
    decreases s.len(),
{
    let t = s.push('\r');
    if s.len() == 0 {
        assert(t.drop_first() =~= Seq::<char>::empty());
        assert(skip_while(t, p) =~= skip_while(t.drop_first(), p));
    } else if p(s[0]) {
        assert(t.drop_first() =~= s.drop_first().push('\r'));
        lemma_skip_with_cr(s.drop_first(), p);
    }
}

/// A carriage return at the end of a text is trimmed away.
proof fn lemma_trimmed_with_cr(s: Seq<char>)
    ensures
        trim_start(s.push('\r')) == (if trim_start(s).len() == 0 {
            Seq::empty()
        } else {
            trim_start(s).push('\r')
        }),
        trimmed(s.push('\r')) == trimmed(s),
{
    lemma_skip_with_cr(s, |c: char| white_space(c));
    let t = trim_start(s);
    if t.len() > 0 {
        assert(t.push('\r').drop_last() =~= t);
    } else {
        assert(t =~= Seq::<char>::empty());
    }
}

/// A carriage return at the end of a line changes neither its stamps nor its text.
proof fn lemma_scan_with_cr(rest: Seq<char>, stamps: Seq<u32>)
    ensures
        scan(rest.push('\r'), stamps).0 == scan(rest, stamps).0,
        trimmed(scan(rest.push('\r'), stamps).1) == trimmed(scan(rest, stamps).1),
    decreases rest.len(),
{
    let longer = rest.push('\r');
    crate::text::lemma_find_range(rest, ']');
    let end = find(rest, ']');
    if end < rest.len() {
        crate::text::lemma_find(longer, ']', end);
        assert(longer.skip(end + 1) =~= rest.skip(end + 1).push('\r'));
        lemma_trimmed_with_cr(rest.skip(end + 1));
        lemma_trim_start_len(rest.skip(end + 1));
        let behind = trim_start(rest.skip(end + 1));
        if rest[0] == '[' {
            assert(longer.subrange(1, end) =~= rest.subrange(1, end));
            if behind.len() == 0 {
                assert(behind =~= Seq::<char>::empty());
            } else {
                let found = match stamp_ms(rest.subrange(1, end)) {
                    Some(ms) => stamps.push(ms as u32),
                    None => stamps,
                };
                lemma_scan_with_cr(behind, found);
                lemma_trimmed_with_cr(behind);
            }
        } else {
            lemma_trimmed_with_cr(rest);
        }
    } else {
        crate::text::lemma_find(longer, ']', longer.len() as int);
        lemma_trimmed_with_cr(rest);
    }
}

proof fn lemma_entries_without_cr(line: Seq<char>)
    ensures
        line_entries(without_cr(line)) == line_entries(line),
{
    if line.len() > 0 && line.last() == '\r' {
        assert(line =~= line.drop_last().push('\r'));
        lemma_scan_with_cr(line.drop_last(), Seq::empty());
        assert(line_entries(line.drop_last()) =~= line_entries(line));
    }
}

proof fn lemma_entries_of_both(x: Seq<Seq<char>>, y: Seq<Seq<char>>)
    ensures
        all_entries(x + y) == all_entries(x) + all_entries(y),
    decreases y.len(),
{
    if y.len() > 0 {
        lemma_entries_of_both(x, y.drop_last());
        assert((x + y).drop_last() =~= x + y.drop_last());
        assert(all_entries(x + y) =~= all_entries(x) + all_entries(y));
    } else {
        assert(x + y =~= x);
        assert(all_entries(x) + all_entries(y) =~= all_entries(x));
    }
}

proof fn lemma_entries_of_one(line: Seq<char>)
    ensures
        all_entries(seq![line]) == line_entries(line),
{
    let one = seq![line];
    assert(one.drop_last() =~= Seq::<Seq<char>>::empty());
    assert(all_entries(one) =~= all_entries(one.drop_last()) + line_entries(one.last()));
    assert(all_entries(one) =~= line_entries(line));
}

/// The entries of two texts with a line feed between them are those of the first
/// and then those of the second.
proof fn lemma_joined_entries(a: Seq<char>, b: Seq<char>)
    ensures
        all_entries(lines(a.push('\n') + b)) == all_entries(lines(a)) + all_entries(lines(b)),
    decreases a.len(),
{
    let s = a.push('\n') + b;
    crate::text::lemma_find_range(a, '\n');
    let k = find(a, '\n');
    crate::text::lemma_find(s, '\n', k);
    if k < a.len() {
        let rest = a.skip(k + 1);
        assert(s.take(k) =~= a.take(k));
        assert(s.skip(k + 1) =~= rest.push('\n') + b);
        lemma_joined_entries(rest, b);
        let head = seq![without_cr(a.take(k))];
        lemma_entries_of_both(head, lines(rest));
        lemma_entries_of_both(head, lines(s.skip(k + 1)));
        assert(all_entries(lines(s)) =~= all_entries(lines(a)) + all_entries(lines(b)));
    } else {
        assert(s.take(k) =~= a);
        assert(s.skip(k + 1) =~= b);
        let head = seq![without_cr(a)];
        lemma_entries_of_both(head, lines(b));
        lemma_entries_of_one(without_cr(a));
        lemma_entries_without_cr(a);
        if a.len() == 0 {
            assert(line_entries(a) =~= all_entries(lines(a)));
        } else {
            lemma_entries_of_one(a);
        }
    }
}

/// The lyrics of two texts with a line feed between them are the lyrics of both, in
/// the order of their times, those of the first before those of the second where
/// times are equal.
pub proof fn law_lyrics_of_joined_texts(a: Seq<char>, b: Seq<char>)
    ensures
        timed_lines(a + "\n"@ + b) == stable_sort(
            timed_lines(a) + timed_lines(b),
            |e: (u32, Seq<char>)| entry_time(e),
        ),
        timed_lines(a + "\n"@ + b).len() == timed_lines(a).len() + timed_lines(b).len(),
{
    reveal_strlit("\n");
    let key = |e: (u32, Seq<char>)| entry_time(e);
    assert(a + "\n"@ + b =~= a.push('\n') + b);
    lemma_joined_entries(a, b);
    crate::sorting::law_sort_of_parts(all_entries(lines(a)), all_entries(lines(b)), key);
    crate::sorting::law_sort_permutes_and_orders(timed_lines(a) + timed_lines(b), key);
}

// ---------------------------------------------------------------------------
// What stamps and lines say
// ---------------------------------------------------------------------------

/// The value of the digit at a place; nought where there is none.
pub open spec fn digit_at(s: Seq<char>, i: int) -> int {
    if i < s.len() {
        s[i] as int - 48
    } else {
        0
    }
}

/// Digits and nothing else.
pub open spec fn all_digits(s: Seq<char>) -> bool {
    forall|i: int| 0 <= i < s.len() ==> '0' <= #[trigger] s[i] <= '9'
}

/// Three digits are read as a number below a thousand.
proof fn lemma_three_digits(t: Seq<char>)
    requires
        t.len() == 3,
        all_digits(t),
    ensures
        number(t) == Some(
            (100 * digit_at(t, 0) + 10 * digit_at(t, 1) + digit_at(t, 2)) as u32,
        ),
{
    let a = (t[0] as int - 48) as nat;
    let b = (t[1] as int - 48) as nat;
    let c = (t[2] as int - 48) as nat;
    let one = seq![t[0]];
    assert(one.drop_last() =~= Seq::<char>::empty());
    assert(crate::text::decimal_value(one.drop_last()) == 0);
    assert(crate::text::unsigned_digits(one) =~= one);
    assert(number(one) == Some(a as u32));
    crate::text::law_digits_count_by_ten(one, b);
    assert(t[1] == (48 + b) as char);
    crate::text::law_digits_count_by_ten(one.push(t[1]), c);
    assert(t =~= one.push(t[1]).push(t[2]));
}

proof fn lemma_fraction_of_digits(cs: Seq<char>)
    requires
        all_digits(cs),
    ensures
        fraction(cs) == 100 * digit_at(cs, 0) + 10 * digit_at(cs, 1) + digit_at(cs, 2),
        is_char_boundary(encode_utf8(padded(cs)), 3),
{
    let p = padded(cs);
    assert(p.len() >= 3);
    assert(all_digits(p));
    assert(vstd::utf8::is_ascii_chars(p));
    vstd::utf8::is_ascii_chars_encode_utf8(p);
    let t = p.take(3);
    assert(vstd::utf8::is_ascii_chars(t));
    vstd::utf8::is_ascii_chars_encode_utf8(t);
    assert forall|i: int| 0 <= i < 3 implies encode_utf8(p)[i] == #[trigger] encode_utf8(t)[i] by {
        assert(p[i] as u8 == encode_utf8(p)[i]);
        assert(t[i] as u8 == encode_utf8(t)[i]);
    }
    assert(encode_utf8(p).subrange(0, 3) =~= encode_utf8(t));
    vstd::utf8::encode_utf8_decode_utf8(t);
    lemma_three_digits(t);
    vstd::utf8::encode_utf8_valid_utf8(p);
    if p.len() > 3 {
        vstd::utf8::is_char_boundary_iff_not_is_continuation_byte(encode_utf8(p), 3);
        assert(p[3] as u8 == encode_utf8(p)[3]);
        assert(48 <= encode_utf8(p)[3] <= 57);
        vstd::utf8::utf8_byte_ranges_bitwise(encode_utf8(p)[3]);
    } else {
        vstd::utf8::is_char_boundary_start_end_of_seq(encode_utf8(p));
    }
}

/// A stamp of minutes, seconds and the digits behind a point is as many
/// milliseconds: sixty thousand for a minute, a thousand for a second, and a
/// hundred, ten and one for the first three digits behind the point.
pub proof fn law_stamps_are_milliseconds(
    mm: Seq<char>,
    ss: Seq<char>,
    f: Seq<char>,
    m: u32,
    s: u32,
)
    requires
        number(mm) == Some(m),
        number(ss) == Some(s),
        all_digits(f),
    ensures
        stamp_ms(mm + seq![':'] + ss + seq!['.'] + f) == Some(
            m * 60000 + s * 1000 + 100 * digit_at(f, 0) + 10 * digit_at(f, 1) + digit_at(f, 2),
        ),
        stamp_ms(mm + seq![':'] + ss) == Some(m * 60000 + s * 1000),
        stamp_readable(mm + seq![':'] + ss + seq!['.'] + f) <==> m * 60000 + s * 1000 + 100
            * digit_at(f, 0) + 10 * digit_at(f, 1) + digit_at(f, 2) <= u32::MAX,
        stamp_readable(mm + seq![':'] + ss) <==> m * 60000 + s * 1000 <= u32::MAX,
{
    crate::text::law_numbers_are_digits(mm);
    crate::text::law_numbers_are_digits(ss);
    let long = mm + seq![':'] + ss + seq!['.'] + f;
    let short = mm + seq![':'] + ss;
    let k = mm.len() as int;
    crate::text::lemma_find(long, ':', k);
    crate::text::lemma_find(short, ':', k);
    assert(long.take(k) =~= mm);
    assert(short.take(k) =~= mm);
    let rest = ss + seq!['.'] + f;
    assert(long.skip(k + 1) =~= rest);
    assert(short.skip(k + 1) =~= ss);
    crate::text::lemma_find(rest, '.', ss.len() as int);
    crate::text::lemma_find(ss, '.', ss.len() as int);
    assert(rest.take(ss.len() as int) =~= ss);
    assert(ss.take(ss.len() as int) =~= ss);
    assert(rest.skip(ss.len() as int + 1) =~= f);
    lemma_fraction_of_digits(f);
    lemma_fraction_of_digits(seq!['0']);
    assert((m * 60 + s) * 1000 == m * 60000 + s * 1000);
}

/// A text that is no stamp has no time: one without a colon, and one whose minutes
/// or seconds are no number.
pub proof fn law_other_tags_are_no_stamps(tag: Seq<char>, k: int)
    requires
        0 <= k <= tag.len(),
        forall|i: int| 0 <= i < k ==> tag[i] != ':',
        k < tag.len() ==> tag[k] == ':',
    ensures
        k == tag.len() ==> stamp_ms(tag) is None,
        k < tag.len() && number(tag.take(k)) is None ==> stamp_ms(tag) is None,
{
    crate::text::lemma_find(tag, ':', k);
}

/// A text of a single line.
pub open spec fn is_one_line(s: Seq<char>) -> bool {
    forall|i: int| 0 <= i < s.len() ==> #[trigger] s[i] != '\n'
}

/// What may stand in a tag.
pub open spec fn is_tag(s: Seq<char>) -> bool {
    forall|i: int| 0 <= i < s.len() ==> #[trigger] s[i] != '\n' && s[i] != ']'
}

/// Words, not a tag, once the space before them is gone.
pub open spec fn begins_with_words(s: Seq<char>) -> bool {
    trim_start(s).len() > 0 ==> trim_start(s)[0] != '['
}

proof fn lemma_entries_of_a_line(line: Seq<char>)
    requires
        is_one_line(line),
        line.len() > 0,
    ensures
        all_entries(lines(line)) == line_entries(line),
{
    crate::text::lemma_find(line, '\n', line.len() as int);
    lemma_entries_of_one(line);
}

proof fn lemma_scan_tag(tag: Seq<char>, rest: Seq<char>, stamps: Seq<u32>)
    requires
        is_tag(tag),
    ensures
        ({
            let found = match stamp_ms(tag) {
                Some(ms) => stamps.push(ms as u32),
                None => stamps,
            };
            scan(seq!['['] + tag + seq![']'] + rest, stamps) == if found.len() == 0 {
                (found, trim_start(rest))
            } else {
                scan(trim_start(rest), found)
            }
        }),
{
    let line = seq!['['] + tag + seq![']'] + rest;
    let end = tag.len() as int + 1;
    crate::text::lemma_find(line, ']', end);
    assert(line.subrange(1, end) =~= tag);
    assert(line.skip(end + 1) =~= rest);
}

proof fn lemma_trimmed_twice(s: Seq<char>)
    ensures
        trimmed(trim_start(s)) == trimmed(s),
        trim_start(trim_start(s)) == trim_start(s),
    decreases s.len(),
{
    if s.len() > 0 && white_space(s[0]) {
        lemma_trimmed_twice(s.drop_first());
        assert(trim_start(s) == trim_start(s.drop_first()));
    }
}

/// A line with one stamp gives one entry: its time and its words, without the space
/// around them.
pub proof fn law_a_stamped_line(tag: Seq<char>, words: Seq<char>, ms: u32)
    requires
        is_tag(tag),
        is_one_line(words),
        begins_with_words(words),
        stamp_ms(tag) == Some(ms as int),
    ensures
        timed_lines(seq!['['] + tag + seq![']'] + words) == seq![(ms, trimmed(words))],
{
    let line = seq!['['] + tag + seq![']'] + words;
    let key = |e: (u32, Seq<char>)| entry_time(e);
    assert(is_one_line(line));
    lemma_entries_of_a_line(line);
    lemma_scan_tag(tag, words, Seq::empty());
    lemma_trimmed_twice(words);
    assert(Seq::<u32>::empty().push(ms) =~= seq![ms]);
    let all = line_entries(line);
    assert(all =~= seq![(ms, trimmed(words))]);
    assert(crate::sorting::in_order(all, key));
    crate::sorting::law_sort_of_sorted(all, key);
}

/// A line with two stamps gives its words at both times, the earlier first.
pub proof fn law_a_line_stamped_twice(
    one: Seq<char>,
    two: Seq<char>,
    words: Seq<char>,
    a: u32,
    b: u32,
)
    requires
        is_tag(one),
        is_tag(two),
        is_one_line(words),
        begins_with_words(words),
        stamp_ms(one) == Some(a as int),
        stamp_ms(two) == Some(b as int),
    ensures
        timed_lines(
            seq!['['] + one + seq![']'] + (seq!['['] + two + seq![']'] + words),
        ) == if a <= b {
            seq![(a, trimmed(words)), (b, trimmed(words))]
        } else {
            seq![(b, trimmed(words)), (a, trimmed(words))]
        },
{
    let rest = seq!['['] + two + seq![']'] + words;
    let line = seq!['['] + one + seq![']'] + rest;
    let key = |e: (u32, Seq<char>)| entry_time(e);
    assert(is_one_line(line));
    lemma_entries_of_a_line(line);
    lemma_scan_tag(one, rest, Seq::empty());
    assert(rest[0] == '[');
    assert(trim_start(rest) =~= rest);
    lemma_scan_tag(two, words, Seq::<u32>::empty().push(a));
    lemma_trimmed_twice(words);
    assert(Seq::<u32>::empty().push(a).push(b) =~= seq![a, b]);
    let x = (a, trimmed(words));
    let y = (b, trimmed(words));
    let all = line_entries(line);
    assert(all =~= seq![x, y]);
    reveal_with_fuel(crate::sorting::precedes, 2);
    if a <= b {
        assert(crate::sorting::in_order(all, key));
        crate::sorting::law_sort_of_sorted(all, key);
    } else {
        reveal_with_fuel(stable_sort, 3);
        reveal_with_fuel(crate::sorting::insert_stable, 3);
        assert(all.drop_last() =~= seq![x]);
        assert(seq![x].drop_last() =~= Seq::<(u32, Seq<char>)>::empty());
        assert(stable_sort(seq![x], key) =~= seq![x]);
        assert(stable_sort(all, key) =~= seq![y, x]);
    }
}

/// A line that does not begin with a tag, or whose first tag is no stamp, gives
/// nothing.
pub proof fn law_other_lines_give_nothing(line: Seq<char>, tag: Seq<char>)
    requires
        is_one_line(line),
    ensures
        line.len() == 0 || line[0] != '[' ==> timed_lines(line).len() == 0,
        is_tag(tag) && stamp_ms(tag) is None ==> timed_lines(
            seq!['['] + tag + seq![']'] + line,
        ).len() == 0,
{
    let key = |e: (u32, Seq<char>)| entry_time(e);
    if line.len() == 0 {
        assert(all_entries(lines(line)).len() == 0);
    } else if line[0] != '[' {
        lemma_entries_of_a_line(line);
        assert(line_entries(line).len() == 0);
    }
    crate::sorting::law_sort_permutes_and_orders(all_entries(lines(line)), key);
    if is_tag(tag) && stamp_ms(tag) is None {
        let tagged = seq!['['] + tag + seq![']'] + line;
        assert(is_one_line(tagged));
        lemma_entries_of_a_line(tagged);
        lemma_scan_tag(tag, line, Seq::empty());
        assert(line_entries(tagged).len() == 0);
        crate::sorting::law_sort_permutes_and_orders(all_entries(lines(tagged)), key);
    }
}

proof fn lemma_scan_keeps_earlier(rest: Seq<char>, s: Seq<u32>, t: Seq<u32>)
    requires
        t.len() > 0,
    ensures
        scan(rest, s + t) == (s + scan(rest, t).0, scan(rest, t).1),
    decreases rest.len(),
{
    crate::text::lemma_find_range(rest, ']');
    let end = find(rest, ']');
    if rest.len() > 0 && rest[0] == '[' && end < rest.len() {
        let behind = trim_start(rest.skip(end + 1));
        lemma_trim_start_len(rest.skip(end + 1));
        match stamp_ms(rest.subrange(1, end)) {
            Some(ms) => {
                assert((s + t).push(ms as u32) =~= s + t.push(ms as u32));
                lemma_scan_keeps_earlier(behind, s, t.push(ms as u32));
            },
            None => {
                lemma_scan_keeps_earlier(behind, s, t);
            },
        }
    }
}

/// A further stamp before a stamped line gives its words once more, at its time.
pub proof fn law_one_more_stamp(tag: Seq<char>, rest: Seq<char>, ms: u32)
    requires
        is_tag(tag),
        is_one_line(rest),
        rest.len() > 0,
        rest[0] == '[',
        stamp_ms(tag) == Some(ms as int),
        timed_lines(rest).len() > 0,
    ensures
        timed_lines(seq!['['] + tag + seq![']'] + rest).to_multiset() == timed_lines(
            rest,
        ).to_multiset().insert((ms, timed_lines(rest)[0].1)),
{
    broadcast use vstd::seq_lib::group_to_multiset_ensures;

    let line = seq!['['] + tag + seq![']'] + rest;
    assert(is_one_line(line));
    lemma_entries_of_a_line(line);
    lemma_entries_of_a_line(rest);
    law_lyrics_keep_every_line(line);
    law_lyrics_keep_every_line(rest);
    let old_entries = line_entries(rest);
    let none = Seq::<u32>::empty();
    let words = trimmed(scan(rest, none).1);
    assert(timed_lines(rest).to_multiset().len() == timed_lines(rest).len());
    assert(old_entries.to_multiset().len() == old_entries.len());
    assert(trim_start(rest) =~= rest);
    lemma_scan_tag(tag, rest, none);
    assert(none.push(ms) =~= seq![ms]);
    let end = find(rest, ']');
    let behind = trim_start(rest.skip(end + 1));
    let m = stamp_ms(rest.subrange(1, end));
    assert(m is Some);
    let first = m->0 as u32;
    assert(none.push(first) =~= seq![first]);
    assert(seq![ms].push(first) =~= seq![ms] + seq![first]);
    lemma_scan_keeps_earlier(behind, seq![ms], seq![first]);
    assert(line_entries(line) =~= seq![(ms, words)] + old_entries);
    vstd::seq_lib::lemma_multiset_commutative(seq![(ms, words)], old_entries);
    assert(seq![(ms, words)] =~= Seq::<(u32, Seq<char>)>::empty().push((ms, words)));
    assert(line_entries(line).to_multiset() =~= old_entries.to_multiset().insert((ms, words)));
    let head = timed_lines(rest)[0];
    assert(timed_lines(rest).to_multiset().contains(head));
    assert(old_entries.contains(head));
    let k = choose|k: int| 0 <= k < old_entries.len() && old_entries[k] == head;
    assert(old_entries[k].1 == words);
}

/// A tag behind a stamp that is none itself is passed over.
pub proof fn law_other_tags_behind_a_stamp(
    tag: Seq<char>,
    other: Seq<char>,
    words: Seq<char>,
    ms: u32,
)
    requires
        is_tag(tag),
        is_tag(other),
        is_one_line(words),
        begins_with_words(words),
        stamp_ms(tag) == Some(ms as int),
        stamp_ms(other) is None,
    ensures
        timed_lines(seq!['['] + tag + seq![']'] + (seq!['['] + other + seq![']'] + words))
            == seq![(ms, trimmed(words))],
{
    let rest = seq!['['] + other + seq![']'] + words;
    let line = seq!['['] + tag + seq![']'] + rest;
    let key = |e: (u32, Seq<char>)| entry_time(e);
    assert(is_one_line(line));
    lemma_entries_of_a_line(line);
    lemma_scan_tag(tag, rest, Seq::empty());
    assert(rest[0] == '[');
    assert(trim_start(rest) =~= rest);
    lemma_scan_tag(other, words, Seq::<u32>::empty().push(ms));
    lemma_trimmed_twice(words);
    assert(Seq::<u32>::empty().push(ms) =~= seq![ms]);
    let all = line_entries(line);
    assert(all =~= seq![(ms, trimmed(words))]);
    assert(crate::sorting::in_order(all, key));
    crate::sorting::law_sort_of_sorted(all, key);
}

} // verus!
