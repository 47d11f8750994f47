//! Strings as sequences of characters.
//!
//! The meaning of every operation is given over `Seq<char>`, the view of a string.

use vstd::prelude::*;

verus! {

/// `String::push` appends one character.
pub assume_specification[ String::push ](s: &mut String, c: char)
    ensures
        final(s)@ == old(s)@.push(c),
;

/// `String::pop` removes the last character and hands it out; an empty string
/// stays empty and gives `None`.
pub assume_specification[ String::pop ](s: &mut String) -> (r: Option<char>)
    ensures
        old(s)@.len() == 0 ==> r is None && final(s)@ == old(s)@,
        old(s)@.len() > 0 ==> r == Some(old(s)@.last()) && final(s)@ == old(s)@.drop_last(),
;

/// `String::clear` leaves the empty string.
pub assume_specification[ String::clear ](s: &mut String)
    ensures
        final(s)@ == Seq::<char>::empty(),
;

/// What `str::to_lowercase` makes of a string: the Unicode lowercase mapping.
pub uninterp spec fn lowercase(s: Seq<char>) -> Seq<char>;

/// `str::to_lowercase` is a function of the string alone.
pub assume_specification[ str::to_lowercase ](s: &str) -> (r: String)
    ensures
        r@ == lowercase(s@),
;

// ---------------------------------------------------------------------------
// Views of lists
// ---------------------------------------------------------------------------

/// The views of the elements of a sequence.
pub open spec fn views<T: View>(s: Seq<T>) -> Seq<T::V> {
    s.map_values(|t: T| t@)
}

/// The view of what an option holds.
pub open spec fn view_opt<T: View>(o: Option<T>) -> Option<T::V> {
    match o {
        Some(t) => Some(t@),
        None => None,
    }
}

/// Appending an element appends its view.
pub broadcast proof fn lemma_views_push<T: View>(s: Seq<T>, t: T)
    ensures
        #[trigger] views(s.push(t)) == views(s).push(t@),
{
    assert(views(s.push(t)) =~= views(s).push(t@));
}

// ---------------------------------------------------------------------------
// Characters and comparisons
// ---------------------------------------------------------------------------

/// The Unicode property `White_Space`.
pub open spec fn white_space(c: char) -> bool {
    let n = c as u32;
    ||| 0x09 <= n <= 0x0d
    ||| n == 0x20
    ||| n == 0x85
    ||| n == 0xa0
    ||| n == 0x1680
    ||| 0x2000 <= n <= 0x200a
    ||| n == 0x2028
    ||| n == 0x2029
    ||| n == 0x202f
    ||| n == 0x205f
    ||| n == 0x3000
}

pub fn is_white_space(c: char) -> (r: bool)
    ensures
        r == white_space(c),
{
    let n: u32 = c as u32;
    (0x09 <= n && n <= 0x0d) || n == 0x20 || n == 0x85 || n == 0xa0 || n == 0x1680 || (0x2000 <= n
        && n <= 0x200a) || n == 0x2028 || n == 0x2029 || n == 0x202f || n == 0x205f || n == 0x3000
}

/// The characters of a string.
pub fn chars_of(s: &str) -> (r: Vec<char>)
    ensures
        r@ == s@,
{
    let mut v: Vec<char> = Vec::new();
    for c in it: s.chars()
        invariant
            v@ == it.seq().take(it.index() as int),
            it.seq() == s@,
    {
        v.push(c);
    }
    v
}

/// The string made of the characters `from..to`.
pub fn string_of(v: &Vec<char>, from: usize, to: usize) -> (r: String)
    requires
        from <= to <= v@.len(),
    ensures
        r@ == v@.subrange(from as int, to as int),
{
    let mut s = String::new();
    let mut i: usize = from;
    while i < to
        invariant
            from <= i <= to <= v@.len(),
            s@ == v@.subrange(from as int, i as int),
        decreases to - i,
    {
        s.push(v[i]);
        i += 1;
        assert(s@ =~= v@.subrange(from as int, i as int));
    }
    s
}

/// Whether two strings are the same.
pub fn same(a: &str, b: &str) -> (r: bool)
    ensures
        r == (a@ == b@),
{
    a.to_owned() == b.to_owned()
}

/// `s` starts with `p`.
pub open spec fn has_prefix(s: Seq<char>, p: Seq<char>) -> bool {
    p.len() <= s.len() && s.take(p.len() as int) == p
}

/// What follows `p` in `s`, if `s` starts with `p`.
pub open spec fn after_prefix(s: Seq<char>, p: Seq<char>) -> Option<Seq<char>> {
    if has_prefix(s, p) {
        Some(s.skip(p.len() as int))
    } else {
        None
    }
}

pub fn starts_with(s: &str, p: &str) -> (r: bool)
    ensures
        r == has_prefix(s@, p@),
{
    let sv = chars_of(s);
    let pv = chars_of(p);
    if pv.len() > sv.len() {
        return false;
    }
    let mut i: usize = 0;
    while i < pv.len()
        invariant
            i <= pv@.len() <= sv@.len(),
            sv@ == s@,
            pv@ == p@,
            forall|k: int| 0 <= k < i ==> sv@[k] == pv@[k],
        decreases pv@.len() - i,
    {
        if sv[i] != pv[i] {
            assert(s@.take(p@.len() as int)[i as int] != p@[i as int]);
            return false;
        }
        i += 1;
    }
    assert(s@.take(p@.len() as int) =~= p@);
    true
}

/// What follows the prefix, if it is there.
pub fn strip_prefix(s: &str, p: &str) -> (r: Option<String>)
    ensures
        view_opt(r) == after_prefix(s@, p@),
{
    if starts_with(s, p) {
        let sv = chars_of(s);
        let n: usize = chars_of(p).len();
        let rest = string_of(&sv, n, sv.len());
        assert(rest@ =~= s@.skip(p@.len() as int));
        Some(rest)
    } else {
        None
    }
}

/// The place of the first `c` in `s`, or the length of `s` where there is none.
pub open spec fn find(s: Seq<char>, c: char) -> int
    decreases s.len(),
{
    if s.len() == 0 || s[0] == c {
        0
    } else {
        1 + find(s.drop_first(), c)
    }
}

/// `find` gives the first place that holds the character.
pub proof fn lemma_find(s: Seq<char>, c: char, k: int)
    requires
        0 <= k <= s.len(),
        k < s.len() ==> s[k] == c,
        forall|i: int| 0 <= i < k ==> s[i] != c,
    ensures
        find(s, c) == k,
    decreases s.len(),
{
    if s.len() > 0 && k > 0 {
        let t = s.drop_first();
        assert forall|i: int| 0 <= i < k - 1 implies t[i] != c by {
            assert(s[i + 1] != c);
        }
        lemma_find(t, c, k - 1);
    }
}

/// The first place at or after `from` that holds `c`, or the length.
pub fn find_from(v: &Vec<char>, from: usize, c: char) -> (r: usize)
    requires
        from <= v@.len(),
    ensures
        from <= r <= v@.len(),
        r == from + find(v@.skip(from as int), c),
        r < v@.len() ==> v@[r as int] == c,
{
    let mut i: usize = from;
    while i < v.len() && v[i] != c
        invariant
            from <= i <= v@.len(),
            forall|k: int| from <= k < i ==> v@[k] != c,
        decreases v@.len() - i,
    {
        i += 1;
    }
    proof {
        lemma_find(v@.skip(from as int), c, i - from);
    }
    i
}

// ---------------------------------------------------------------------------
// Trimming
// ---------------------------------------------------------------------------

/// `s` without the leading characters that satisfy `p`.
pub open spec fn skip_while(s: Seq<char>, p: spec_fn(char) -> bool) -> Seq<char>
    decreases s.len(),
{
    if s.len() > 0 && p(s[0]) {
        skip_while(s.drop_first(), p)
    } else {
        s
    }
}

/// `s` without the trailing characters that satisfy `p`.
pub open spec fn drop_tail_while(s: Seq<char>, p: spec_fn(char) -> bool) -> Seq<char>
    decreases s.len(),
{
    if s.len() > 0 && p(s.last()) {
        drop_tail_while(s.drop_last(), p)
    } else {
        s
    }
}

pub open spec fn trim_start(s: Seq<char>) -> Seq<char> {
    skip_while(s, |c: char| white_space(c))
}

pub open spec fn trim_end(s: Seq<char>) -> Seq<char> {
    drop_tail_while(s, |c: char| white_space(c))
}

/// `s` without leading and trailing white space.
pub open spec fn trimmed(s: Seq<char>) -> Seq<char> {
    trim_end(trim_start(s))
}

/// White space and nothing else.
pub open spec fn is_blank(s: Seq<char>) -> bool {
    forall|i: int| 0 <= i < s.len() ==> white_space(#[trigger] s[i])
}

/// Trimming takes away the white space at both ends and nothing else: what is left
/// begins and ends with something else, or is empty.
pub proof fn law_trimming_takes_the_ends(before: Seq<char>, q: Seq<char>, after: Seq<char>)
    requires
        is_blank(before),
        is_blank(after),
        q.len() > 0 ==> !white_space(q[0]) && !white_space(q.last()),
    ensures
        trimmed(before + q + after) == q,
{
    let p = |c: char| white_space(c);
    let s = before + q + after;
    if q.len() > 0 {
        assert forall|i: int| 0 <= i < before.len() implies p(#[trigger] s[i]) by {
            assert(white_space(before[i]));
        }
        assert(s[before.len() as int] == q[0]);
        lemma_skip_while(s, p, before.len() as int);
        let t = q + after;
        assert(s.skip(before.len() as int) =~= t);
        assert forall|i: int| q.len() <= i < t.len() implies p(#[trigger] t[i]) by {
            assert(white_space(after[i - q.len()]));
        }
        assert(t[q.len() - 1] == q.last());
        lemma_drop_tail_while(t, p, q.len() as int);
        assert(t.take(q.len() as int) =~= q);
    } else {
        assert forall|i: int| 0 <= i < s.len() implies p(#[trigger] s[i]) by {
            if i < before.len() {
                assert(white_space(before[i]));
            } else {
                assert(white_space(after[i - before.len()]));
            }
        }
        lemma_skip_while(s, p, s.len() as int);
        assert(s.skip(s.len() as int) =~= q);
    }
}

/// The characters that are `c`.
pub open spec fn is_char(c: char) -> spec_fn(char) -> bool {
    |x: char| x == c
}

/// `s` without the leading occurrences of `c`.
pub open spec fn trim_start_char(s: Seq<char>, c: char) -> Seq<char> {
    skip_while(s, is_char(c))
}

/// `s` without the trailing occurrences of `c`.
pub open spec fn trim_end_char(s: Seq<char>, c: char) -> Seq<char> {
    drop_tail_while(s, is_char(c))
}

pub proof fn lemma_skip_while(s: Seq<char>, p: spec_fn(char) -> bool, k: int)
    requires
        0 <= k <= s.len(),
        forall|i: int| 0 <= i < k ==> p(#[trigger] s[i]),
        k < s.len() ==> !p(s[k]),
    ensures
        skip_while(s, p) == s.skip(k),
    decreases s.len(),
{
    if k > 0 {
        assert(p(s[0]));
        let t = s.drop_first();
        assert forall|i: int| 0 <= i < k - 1 implies p(#[trigger] t[i]) by {
            assert(p(s[i + 1]));
        }
        lemma_skip_while(t, p, k - 1);
        assert(t.skip(k - 1) =~= s.skip(k));
    } else {
        assert(s.skip(0) =~= s);
    }
}

pub proof fn lemma_drop_tail_while(s: Seq<char>, p: spec_fn(char) -> bool, k: int)
    requires
        0 <= k <= s.len(),
        forall|i: int| k <= i < s.len() ==> p(#[trigger] s[i]),
        k > 0 ==> !p(s[k - 1]),
    ensures
        drop_tail_while(s, p) == s.take(k),
    decreases s.len(),
{
    if k < s.len() {
        assert(p(s[s.len() - 1]));
        let t = s.drop_last();
        assert forall|i: int| k <= i < t.len() implies p(#[trigger] t[i]) by {
            assert(p(s[i]));
        }
        lemma_drop_tail_while(t, p, k);
        assert(t.take(k) =~= s.take(k));
    } else {
        assert(s.take(k) =~= s);
    }
}

/// The first place at or after `from` that holds no white space, or the length.
pub fn skip_white_space(v: &Vec<char>, from: usize) -> (r: usize)
    requires
        from <= v@.len(),
    ensures
        from <= r <= v@.len(),
        v@.skip(r as int) == trim_start(v@.skip(from as int)),
{
    let mut i: usize = from;
    while i < v.len() && is_white_space(v[i])
        invariant
            from <= i <= v@.len(),
            forall|k: int| from <= k < i ==> white_space(#[trigger] v@[k]),
        decreases v@.len() - i,
    {
        i += 1;
    }
    proof {
        let s = v@.skip(from as int);
        lemma_skip_while(s, |c: char| white_space(c), i - from);
        assert(s.skip(i - from) =~= v@.skip(i as int));
    }
    i
}

/// The string made of the characters from `from` on, without the white space
/// around them.
pub fn trim_from(v: &Vec<char>, from: usize) -> (r: String)
    requires
        from <= v@.len(),
    ensures
        r@ == trimmed(v@.skip(from as int)),
{
    let i: usize = skip_white_space(v, from);
    let mut j: usize = v.len();
    while j > i && is_white_space(v[j - 1])
        invariant
            from <= i <= j <= v@.len(),
            forall|k: int| j <= k < v@.len() ==> white_space(#[trigger] v@[k]),
        decreases j,
    {
        j -= 1;
    }
    proof {
        let s = v@.skip(i as int);
        lemma_drop_tail_while(s, |c: char| white_space(c), j - i);
        assert(s.take(j - i) =~= v@.subrange(i as int, j as int));
    }
    string_of(v, i, j)
}

pub fn trim(s: &str) -> (r: String)
    ensures
        r@ == trimmed(s@),
{
    let v = chars_of(s);
    assert(v@.skip(0) =~= s@);
    trim_from(&v, 0)
}

pub fn trim_start_matches(s: &str, c: char) -> (r: String)
    ensures
        r@ == trim_start_char(s@, c),
{
    let v = chars_of(s);
    let mut i: usize = 0;
    while i < v.len() && v[i] == c
        invariant
            0 <= i <= v@.len(),
            forall|k: int| 0 <= k < i ==> #[trigger] v@[k] == c,
        decreases v@.len() - i,
    {
        i += 1;
    }
    proof {
        lemma_skip_while(v@, is_char(c), i as int);
        assert(v@.skip(i as int) =~= v@.subrange(i as int, v@.len() as int));
    }
    string_of(&v, i, v.len())
}

pub fn trim_end_matches(s: &str, c: char) -> (r: String)
    ensures
        r@ == trim_end_char(s@, c),
{
    let v = chars_of(s);
    let mut j: usize = v.len();
    while j > 0 && v[j - 1] == c
        invariant
            0 <= j <= v@.len(),
            forall|k: int| j <= k < v@.len() ==> #[trigger] v@[k] == c,
        decreases j,
    {
        j -= 1;
    }
    proof {
        lemma_drop_tail_while(v@, is_char(c), j as int);
        assert(v@.take(j as int) =~= v@.subrange(0, j as int));
    }
    string_of(&v, 0, j)
}

// ---------------------------------------------------------------------------
// Lines
// ---------------------------------------------------------------------------

/// A line without the carriage return before its line feed.
pub open spec fn without_cr(s: Seq<char>) -> Seq<char> {
    if s.len() > 0 && s.last() == '\r' {
        s.drop_last()
    } else {
        s
    }
}

/// The lines of a text. A line ends at a line feed, or at a carriage return and a
/// line feed; a text that ends in a line feed has no further, empty line.
pub open spec fn lines(s: Seq<char>) -> Seq<Seq<char>>
    decreases s.len(),
    via lines_decreases
{
    if s.len() == 0 {
        Seq::empty()
    } else {
        let k = find(s, '\n');
        if k < s.len() {
            seq![without_cr(s.take(k))] + lines(s.skip(k + 1))
        } else {
            seq![s]
        }
    }
}

pub proof fn lemma_find_range(s: Seq<char>, c: char)
    ensures
        0 <= find(s, c) <= s.len(),
        find(s, c) < s.len() ==> s[find(s, c)] == c,
        forall|i: int| 0 <= i < find(s, c) ==> s[i] != c,
    decreases s.len(),
{
    if s.len() > 0 && s[0] != c {
        let t = s.drop_first();
        lemma_find_range(t, c);
        assert forall|i: int| 0 <= i < find(s, c) implies s[i] != c by {
            if i > 0 {
                assert(t[i - 1] != c);
            }
        }
    }
}

#[via_fn]
proof fn lines_decreases(s: Seq<char>) {
    lemma_find_range(s, '\n');
}

/// Splits a text into its lines.
pub fn split_lines(s: &str) -> (r: Vec<Vec<char>>)
    ensures
        views(r@) == lines(s@),
{
    let v = chars_of(s);
    let mut out: Vec<Vec<char>> = Vec::new();
    let mut i: usize = 0;
    assert(views(out@) =~= Seq::<Seq<char>>::empty());
    assert(v@.skip(0) =~= s@);
    while i < v.len()
        invariant
            v@ == s@,
            i <= v@.len(),
            views(out@) + lines(v@.skip(i as int)) == lines(s@),
        decreases v@.len() - i,
    {
        let ghost rest = v@.skip(i as int);
        let k: usize = find_from(&v, i, '\n');
        let mut end: usize = k;
        if k < v.len() && k > i && v[k - 1] == '\r' {
            end = k - 1;
        }
        let mut line: Vec<char> = Vec::new();
        let mut j: usize = i;
        while j < end
            invariant
                i <= j <= end <= k <= v@.len(),
                line@ == v@.subrange(i as int, j as int),
            decreases end - j,
        {
            line.push(v[j]);
            j += 1;
            assert(line@ =~= v@.subrange(i as int, j as int));
        }
        let ghost before = out@;
        out.push(line);
        proof {
            lemma_views_push(before, line);
            if k < v@.len() {
                assert(rest.take(k - i) =~= v@.subrange(i as int, k as int));
                assert(line@ =~= without_cr(rest.take(k - i)));
                assert(rest.skip(k - i + 1) =~= v@.skip(k + 1));
            } else {
                assert(line@ =~= rest);
                assert(v@.skip(k as int) =~= Seq::<char>::empty());
            }
            assert(views(before).push(line@) + lines(v@.skip(if k < v@.len() { k + 1 } else { k as int }))
                =~= views(before) + lines(rest));
        }
        if k < v.len() {
            i = k + 1;
        } else {
            i = k;
        }
    }
    assert(v@.skip(i as int) =~= Seq::<char>::empty());
    assert(views(out@) =~= lines(s@));
    out
}

// ---------------------------------------------------------------------------
// Numbers
// ---------------------------------------------------------------------------

pub open spec fn is_digit(c: char) -> bool {
    '0' <= c <= '9'
}

/// The character of a digit below ten.
pub open spec fn digit(d: nat) -> char {
    (48 + d) as char
}

/// A number in decimal, without leading zeros.
pub open spec fn decimal(n: nat) -> Seq<char>
    decreases n,
{
    if n < 10 {
        seq![digit(n)]
    } else {
        decimal(n / 10).push(digit(n % 10))
    }
}

/// The number that a sequence of digits writes.
pub open spec fn decimal_value(s: Seq<char>) -> nat
    decreases s.len(),
{
    if s.len() == 0 {
        0
    } else {
        decimal_value(s.drop_last()) * 10 + (s.last() as nat - 48) as nat
    }
}

/// The digits of a number, without the plus sign that may precede them.
pub open spec fn unsigned_digits(s: Seq<char>) -> Seq<char> {
    if s.len() > 0 && s[0] == '+' {
        s.drop_first()
    } else {
        s
    }
}

/// The number that a string writes: one or more digits, possibly after a plus
/// sign, whose value fits in 32 bits.
pub open spec fn number(s: Seq<char>) -> Option<u32> {
    let ds = unsigned_digits(s);
    if ds.len() > 0 && (forall|i: int| 0 <= i < ds.len() ==> is_digit(#[trigger] ds[i]))
        && decimal_value(ds) <= u32::MAX {
        Some(decimal_value(ds) as u32)
    } else {
        None
    }
}

/// A longer sequence of digits never writes a smaller number.
proof fn lemma_decimal_value_grows(s: Seq<char>, k: int)
    requires
        0 <= k <= s.len(),
        forall|i: int| 0 <= i < s.len() ==> is_digit(#[trigger] s[i]),
    ensures
        decimal_value(s.take(k)) <= decimal_value(s),
    decreases s.len() - k,
{
    if k < s.len() {
        lemma_decimal_value_grows(s, k + 1);
        assert(s.take(k + 1).drop_last() =~= s.take(k));
        assert(is_digit(s[k]));
    } else {
        assert(s.take(k) =~= s);
    }
}

/// Reads the characters `from..to` as a number.
pub fn parse_number(v: &Vec<char>, from: usize, to: usize) -> (r: Option<u32>)
    requires
        from <= to <= v@.len(),
    ensures
        r == number(v@.subrange(from as int, to as int)),
{
    let ghost s = v@.subrange(from as int, to as int);
    let mut i: usize = from;
    if from < to && v[from] == '+' {
        i = from + 1;
    }
    let start: usize = i;
    let ghost ds = unsigned_digits(s);
    assert(ds =~= v@.subrange(start as int, to as int));
    if start == to {
        return None;
    }
    let mut n: u32 = 0;
    while i < to
        invariant
            start <= i <= to <= v@.len(),
            ds == v@.subrange(start as int, to as int),
            ds == unsigned_digits(s),
            s == v@.subrange(from as int, to as int),
            n == decimal_value(ds.take(i - start)),
            forall|k: int| 0 <= k < i - start ==> is_digit(#[trigger] ds[k]),
        decreases to - i,
    {
        let c = v[i];
        assert(c == ds[i - start]);
        if c < '0' || c > '9' {
            return None;
        }
        let d: u32 = c as u32 - 48;
        assert(ds.take(i - start + 1).drop_last() =~= ds.take(i - start));
        assert(decimal_value(ds.take(i - start + 1)) == n * 10 + d);
        if n > (u32::MAX - d) / 10 {
            proof {
                if forall|k: int| 0 <= k < ds.len() ==> is_digit(#[trigger] ds[k]) {
                    lemma_decimal_value_grows(ds, i - start + 1);
                }
            }
            return None;
        }
        n = n * 10 + d;
        i += 1;
    }
    assert(ds.take(i - start) =~= ds);
    Some(n)
}

/// Writes a number in decimal.
pub fn decimal_string(n: u64) -> (r: String)
    ensures
        r@ == decimal(n as nat),
    decreases n,
{
    let d: u8 = (n % 10) as u8;
    let c: char = (48 + d) as char;
    let mut s = if n < 10 {
        String::new()
    } else {
        decimal_string(n / 10)
    };
    s.push(c);
    assert(n < 10 ==> s@ =~= seq![digit(n as nat)]);
    s
}

/// Reading back a number that was written gives the number.
pub proof fn law_number_reads_back_decimal(n: u32)
    ensures
        number(decimal(n as nat)) == Some(n),
{
    lemma_decimal_digits(n as nat);
    assert(decimal(n as nat)[0] != '+');
}

/// Digits are read place by place: a digit more at the end counts once, and makes
/// what stands before it count ten times.
pub proof fn law_digits_count_by_ten(s: Seq<char>, d: nat)
    requires
        d < 10,
        number(s) is Some,
        number(s)->0 * 10 + d <= u32::MAX,
    ensures
        number(s.push((48 + d) as char)) == Some((number(s)->0 * 10 + d) as u32),
        number(seq![(48 + d) as char]) == Some(d as u32),
{
    let c = (48 + d) as char;
    let t = s.push(c);
    let ds = unsigned_digits(s);
    assert(unsigned_digits(t) =~= ds.push(c));
    assert(ds.push(c).drop_last() =~= ds);
    assert(decimal_value(ds.push(c)) == decimal_value(ds) * 10 + d);
    assert forall|i: int| 0 <= i < ds.push(c).len() implies is_digit(#[trigger] ds.push(c)[i]) by {
        if i < ds.len() {
            assert(is_digit(ds[i]));
        }
    }
    let one = seq![c];
    assert(one.drop_last() =~= Seq::<char>::empty());
    assert(decimal_value(one.drop_last()) == 0);
    assert(decimal_value(one) == d);
    assert(unsigned_digits(one) =~= one);
}

/// A number is read from digits alone, after a plus sign at most: not from nothing,
/// nor from anything that holds another character.
pub proof fn law_numbers_are_digits(s: Seq<char>)
    requires
        number(s) is Some,
    ensures
        s.len() > 0,
        forall|i: int| 0 < i < s.len() ==> '0' <= #[trigger] s[i] <= '9',
        s[0] != '+' ==> '0' <= s[0] <= '9',
        s[0] == '+' ==> s.len() > 1,
{
    let ds = unsigned_digits(s);
    assert forall|i: int| 0 < i < s.len() implies '0' <= #[trigger] s[i] <= '9' by {
        if s[0] == '+' {
            assert(is_digit(ds[i - 1]));
        } else {
            assert(is_digit(ds[i]));
        }
    }
    if s[0] != '+' {
        assert(is_digit(ds[0]));
    }
}

pub proof fn lemma_decimal_digits(n: nat)
    ensures
        decimal(n).len() > 0,
        forall|i: int| 0 <= i < decimal(n).len() ==> is_digit(#[trigger] decimal(n)[i]),
        decimal_value(decimal(n)) == n,
    decreases n,
{
    if n < 10 {
        assert(decimal(n).drop_last() =~= Seq::<char>::empty());
        assert(decimal_value(Seq::<char>::empty()) == 0);
        assert(decimal_value(decimal(n)) == n);
    } else {
        lemma_decimal_digits(n / 10);
        assert(decimal(n).drop_last() =~= decimal(n / 10));
    }
}

// ---------------------------------------------------------------------------
// Joining
// ---------------------------------------------------------------------------

/// `a` followed by `b`.
pub fn join2(a: &str, b: &str) -> (r: String)
    ensures
        r@ == a@ + b@,
{
    let s = a.to_string();
    s.concat(b)
}

/// `a`, `b` and `c` in a row.
pub fn join3(a: &str, b: &str, c: &str) -> (r: String)
    ensures
        r@ == a@ + b@ + c@,
{
    join2(a, b).concat(c)
}

/// What follows the last `c` in a text; the whole text where there is none.
pub open spec fn after_last(s: Seq<char>, c: char) -> Seq<char>
    decreases s.len(),
{
    if s.len() == 0 || s.last() == c {
        Seq::empty()
    } else {
        after_last(s.drop_last(), c).push(s.last())
    }
}

proof fn lemma_after_last(s: Seq<char>, c: char, k: int)
    requires
        0 <= k <= s.len(),
        k > 0 ==> s[k - 1] == c,
        forall|i: int| k <= i < s.len() ==> s[i] != c,
    ensures
        after_last(s, c) == s.skip(k),
    decreases s.len(),
{
    if k < s.len() {
        lemma_after_last(s.drop_last(), c, k);
        assert(s.drop_last().skip(k).push(s.last()) =~= s.skip(k));
    } else {
        assert(s.skip(k) =~= Seq::<char>::empty());
    }
}

/// What follows the last `c` in a text; the whole text where there is none.
pub fn rest_after_last(s: &str, c: char) -> (r: String)
    ensures
        r@ == after_last(s@, c),
{
    let v = chars_of(s);
    let mut k: usize = v.len();
    while k > 0 && v[k - 1] != c
        invariant
            k <= v@.len(),
            forall|i: int| k <= i < v@.len() ==> v@[i] != c,
        decreases k,
    {
        k -= 1;
    }
    proof {
        lemma_after_last(v@, c, k as int);
        assert(v@.subrange(k as int, v@.len() as int) =~= v@.skip(k as int));
    }
    string_of(&v, k, v.len())
}

// ---------------------------------------------------------------------------
// What lines are
// ---------------------------------------------------------------------------

/// A text is divided at its line feeds, and a carriage return before one goes with
/// it: no text has no lines, a text without a line feed is one line, and what stands
/// before the first line feed is the first line.
pub proof fn law_lines_end_at_line_feeds(s: Seq<char>, t: Seq<char>)
    requires
        forall|i: int| 0 <= i < s.len() ==> #[trigger] s[i] != '\n',
    ensures
        s.len() == 0 ==> lines(s).len() == 0,
        s.len() > 0 ==> lines(s) == seq![s],
        s.len() == 0 || s.last() != '\r' ==> lines(s.push('\n') + t) == seq![s] + lines(t),
        lines(s.push('\r').push('\n') + t) == seq![s] + lines(t),
{
    let k = s.len() as int;
    lemma_find(s, '\n', k);
    let one = s.push('\n') + t;
    lemma_find(one, '\n', k);
    assert(one.take(k) =~= s);
    assert(one.skip(k + 1) =~= t);
    let two = s.push('\r').push('\n') + t;
    lemma_find(two, '\n', k + 1);
    assert(two.take(k + 1) =~= s.push('\r'));
    assert(s.push('\r').drop_last() =~= s);
    assert(two.skip(k + 2) =~= t);
}

/// Digits are written place by place.
pub proof fn law_decimal_digits(n: nat, d: nat)
    requires
        d < 10,
    ensures
        decimal(d) == seq![(48 + d) as char],
        n > 0 ==> decimal(10 * n + d) == decimal(n).push((48 + d) as char),
{
    if n > 0 {
        assert((10 * n + d) / 10 == n);
        assert((10 * n + d) % 10 == d);
    }
}

/// Nothing is left of a text exactly if all of it is white space.
pub proof fn lemma_blank_is_trimmed(s: Seq<char>)
    ensures
        trimmed(s).len() == 0 <==> is_blank(s),
{
    if is_blank(s) {
        law_trimming_takes_the_ends(s, Seq::empty(), Seq::empty());
        assert(s + Seq::<char>::empty() + Seq::<char>::empty() =~= s);
    } else {
        let i = choose|i: int| 0 <= i < s.len() && !white_space(#[trigger] s[i]);
        lemma_trim_keeps(s, i);
    }
}

proof fn lemma_trim_keeps(s: Seq<char>, i: int)
    requires
        0 <= i < s.len(),
        !white_space(s[i]),
    ensures
        trimmed(s).len() > 0,
    decreases s.len(),
{
    let p = |c: char| white_space(c);
    if white_space(s[0]) {
        assert(s.drop_first()[i - 1] == s[i]);
        lemma_trim_keeps(s.drop_first(), i - 1);
    } else {
        lemma_tail_keeps(s, p);
    }
}

proof fn lemma_tail_keeps(s: Seq<char>, p: spec_fn(char) -> bool)
    requires
        s.len() > 0,
        !p(s[0]),
    ensures
        drop_tail_while(s, p).len() > 0,
    decreases s.len(),
{
    if p(s.last()) {
        assert(s.drop_last()[0] == s[0]);
        lemma_tail_keeps(s.drop_last(), p);
    }
}

} // verus!
