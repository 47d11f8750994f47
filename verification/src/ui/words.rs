//! Texts that have to fit their places.

use vstd::prelude::*;
use crate::text::{chars_of, decimal, decimal_string, join2, join3, string_of};
use crate::ui::geometry::{least, minus, Rect};

verus! {

/// A text of at most so many characters: where it is longer, its end is cut off and
/// marked.
pub open spec fn shortened(s: Seq<char>, max: int) -> Seq<char> {
    if s.len() > max {
        s.take(minus(max, 1)) + "…"@
    } else {
        s
    }
}

pub fn truncate(s: &str, max: usize) -> (r: String)
    ensures
        r@ == shortened(s@, max as int),
{
    let v = chars_of(s);
    if v.len() > max {
        let keep: usize = if max > 1 {
            max - 1
        } else {
            0
        };
        let head = string_of(&v, 0, keep);
        assert(head@ =~= s@.take(minus(max as int, 1)));
        head.concat("…")
    } else {
        s.to_string()
    }
}

/// A shortened text has at most the characters that it may have, one at least; a
/// text that fits is not touched, and what is left of a longer one is its
/// beginning.
pub proof fn law_shortened_texts_fit(s: Seq<char>, max: int)
    requires
        max > 0,
    ensures
        shortened(s, max).len() <= max,
        s.len() <= max ==> shortened(s, max) == s,
        s.len() > max ==> shortened(s, max).take(max - 1) == s.take(max - 1),
        s.len() > max ==> shortened(s, max).last() == '…',
        shortened(shortened(s, max), max) == shortened(s, max),
{
    reveal_strlit("…");
    if s.len() > max {
        assert(shortened(s, max).take(max - 1) =~= s.take(max - 1));
    }
}

/// Two digits.
pub open spec fn two_digits(n: nat) -> Seq<char> {
    if n < 10 {
        "0"@ + decimal(n)
    } else {
        decimal(n)
    }
}

/// A time as minutes and seconds.
pub open spec fn clock(ms: int) -> Seq<char> {
    let s = ms / 1000;
    decimal((s / 60) as nat) + ":"@ + two_digits((s % 60) as nat)
}

pub fn fmt_ms(ms: u32) -> (r: String)
    ensures
        r@ == clock(ms as int),
{
    let s: u32 = ms / 1000;
    let minutes = decimal_string((s / 60) as u64);
    let rest: u32 = s % 60;
    let seconds = if rest < 10 {
        join2("0", decimal_string(rest as u64).as_str())
    } else {
        decimal_string(rest as u64)
    };
    join3(minutes.as_str(), ":", seconds.as_str())
}

/// A time takes up at least four and at most eight characters.
pub proof fn lemma_clock_len(ms: u32)
    ensures
        4 <= clock(ms as int).len() <= 8,
{
    reveal_strlit(":");
    reveal_strlit("0");
    reveal_with_fuel(decimal, 6);
    let s = ms as int / 1000;
    assert(s / 60 < 100000);
}

/// A text with spaces before it, up to a width.
pub open spec fn right_aligned(s: Seq<char>, width: int) -> Seq<char> {
    if s.len() >= width {
        s
    } else {
        Seq::new((width - s.len()) as nat, |i: int| ' ') + s
    }
}

/// A number with spaces before it, up to a width.
pub fn number_field(n: u64, width: usize) -> (r: String)
    ensures
        r@ == right_aligned(decimal(n as nat), width as int),
{
    let digits = decimal_string(n);
    let len: usize = chars_of(digits.as_str()).len();
    if len >= width {
        return digits;
    }
    let mut out = String::new();
    let mut i: usize = 0;
    while i < width - len
        invariant
            len < width,
            i <= width - len,
            out@ == Seq::new(i as nat, |k: int| ' '),
        decreases width - len - i,
    {
        let ghost before = out@;
        out.push(' ');
        i += 1;
        assert(out@ =~= Seq::new(i as nat, |k: int| ' '));
    }
    out.concat(digits.as_str())
}

/// An area of a height in the middle of another, as high as the other at most.
pub open spec fn centered(area: Rect, height: int) -> Rect {
    Rect {
        x: area.x,
        y: (area.y + minus(area.height as int, height) / 2) as u16,
        width: area.width,
        height: least(height, area.height as int) as u16,
    }
}

pub fn center_v(area: Rect, height: u16) -> (r: Rect)
    requires
        area.y + minus(area.height as int, height as int) / 2 <= u16::MAX,
    ensures
        r == centered(area, height as int),
{
    let rest: u16 = crate::ui::geometry::less(area.height, height);
    Rect {
        x: area.x,
        y: area.y + rest / 2,
        width: area.width,
        height: if height < area.height {
            height
        } else {
            area.height
        },
    }
}

/// What is centered lies within, and as far from the top as from the bottom, but
/// for an odd row.
pub proof fn law_centered_lies_in_the_middle(area: Rect, height: u16)
    requires
        area.fits(),
    ensures
        ({
            let c = centered(area, height as int);
            let above = c.y - area.y;
            let below = area.y + area.height - (c.y + c.height);
            &&& c.within(area)
            &&& above <= below <= above + 1
        }),
{
}

/// A time is written as its minutes, a colon, and the tens and ones of its seconds;
/// what is less than a second does not show.
pub proof fn law_times_are_minutes_and_seconds(m: nat, tens: nat, ones: nat, rest: nat)
    requires
        tens < 6,
        ones < 10,
        rest < 1000,
    ensures
        clock(((m * 60 + tens * 10 + ones) * 1000 + rest) as int) == decimal(m) + seq![
            ':',
            (48 + tens) as char,
            (48 + ones) as char,
        ],
{
    reveal_strlit(":");
    reveal_strlit("0");
    let s = m * 60 + tens * 10 + ones;
    let ms = s * 1000 + rest;
    assert(ms as int / 1000 == s);
    assert(s as int / 60 == m);
    assert(s as int % 60 == tens * 10 + ones);
    let r = tens * 10 + ones;
    if tens == 0 {
        assert(two_digits(r) =~= seq!['0', (48 + ones) as char]);
    } else {
        crate::text::law_decimal_digits(tens, ones);
        crate::text::law_decimal_digits(0, tens);
        assert(r == 10 * tens + ones);
        assert(two_digits(r) =~= seq![(48 + tens) as char, (48 + ones) as char]);
    }
    assert(clock(ms as int) =~= decimal(m) + seq![
        ':',
        (48 + tens) as char,
        (48 + ones) as char,
    ]);
}

/// A right-aligned text ends in the text, has spaces before it, and is as wide as it
/// has to be.
pub proof fn law_right_aligned_texts(s: Seq<char>, width: int)
    requires
        width >= 0,
    ensures
        right_aligned(s, width).len() == (if s.len() < width {
            width
        } else {
            s.len() as int
        }),
        right_aligned(s, width).skip(right_aligned(s, width).len() - s.len()) == s,
        forall|i: int|
            0 <= i < right_aligned(s, width).len() - s.len() ==> #[trigger] right_aligned(s, width)[i]
                == ' ',
{
    let r = right_aligned(s, width);
    assert(r.skip(r.len() - s.len()) =~= s);
}

/// A text that is too long ends in a mark, and begins as it did.
pub proof fn law_cut_texts(s: Seq<char>, max: nat)
    requires
        s.len() > max > 0,
    ensures
        shortened(s, max as int) == s.take(max - 1).push('…'),
{
    reveal_strlit("…");
    assert(shortened(s, max as int) =~= s.take(max - 1).push('…'));
}

} // verus!
