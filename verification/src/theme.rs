//! Colours, and the change from one set of colours to another.

use vstd::prelude::*;

verus! {

#[derive(Debug, Clone, Copy, PartialEq, Eq, Structural)]
pub struct Rgb {
    pub r: u8,
    pub g: u8,
    pub b: u8,
}

/// The colours of the interface.
#[derive(Debug, Clone, Copy)]
pub struct Theme {
    pub name: &'static str,
    pub background: Rgb,
    pub text: Rgb,
    pub text_muted: Rgb,
    pub primary: Rgb,
    pub accent: Rgb,
    pub success: Rgb,
    pub border_subtle: Rgb,
    pub border_dimmest: Rgb,
}

/// A change of theme under way. The instant is in nanoseconds.
#[derive(Debug, Clone, Copy)]
pub struct ThemeFade {
    pub from: Theme,
    pub to: Theme,
    pub started: u64,
    pub duration_ms: u64,
}

impl ThemeFade {
    pub fn new(from: Theme, to: Theme, started: u64, duration_ms: u64) -> (r: ThemeFade)
        ensures
            r == (ThemeFade { from, to, started, duration_ms }),
    {
        ThemeFade { from, to, started, duration_ms }
    }
}

/// The place of the first theme of that name, or the first place.
pub open spec fn theme_place(themes: Seq<Theme>, name: Seq<char>) -> int {
    let at = theme_find(themes, name);
    if at < themes.len() {
        at
    } else {
        0
    }
}

/// How many themes stand before the first of that name.
pub open spec fn theme_find(themes: Seq<Theme>, name: Seq<char>) -> int
    decreases themes.len(),
{
    if themes.len() == 0 || themes[0].name@ == name {
        0
    } else {
        1 + theme_find(themes.drop_first(), name)
    }
}

/// The theme after the one of that name, around the end.
pub open spec fn following_theme(themes: Seq<Theme>, name: Seq<char>) -> Theme {
    themes[(theme_place(themes, name) + 1) % themes.len() as int]
}

pub proof fn lemma_theme_find(themes: Seq<Theme>, name: Seq<char>, k: int)
    requires
        0 <= k <= themes.len(),
        forall|i: int| 0 <= i < k ==> (#[trigger] themes[i]).name@ != name,
        k < themes.len() ==> themes[k].name@ == name,
    ensures
        theme_find(themes, name) == k,
    decreases themes.len(),
{
    if k > 0 {
        assert(themes[0].name@ != name);
        let rest = themes.drop_first();
        assert forall|i: int| 0 <= i < k - 1 implies (#[trigger] rest[i]).name@ != name by {
            assert(themes[i + 1].name@ != name);
        }
        lemma_theme_find(rest, name, k - 1);
    }
}

/// The theme after the one called `name`, around the end; after an unknown name,
/// the second.
pub fn next_theme(themes: &[Theme], name: &str) -> (r: Theme)
    requires
        themes@.len() > 0,
    ensures
        r == following_theme(themes@, name@),
{
    let mut i: usize = 0;
    while i < themes.len() && !crate::text::same(themes[i].name, name)
        invariant
            i <= themes@.len(),
            forall|k: int| 0 <= k < i ==> (#[trigger] themes@[k]).name@ != name@,
        decreases themes@.len() - i,
    {
        i += 1;
    }
    proof {
        lemma_theme_find(themes@, name@, i as int);
    }
    let at: usize = if i < themes.len() {
        i
    } else {
        0
    };
    if at + 1 < themes.len() {
        assert((at + 1) % themes@.len() as int == at + 1) by {
            vstd::arithmetic::div_mod::lemma_small_mod((at + 1) as nat, themes@.len());
        }
        themes[at + 1]
    } else {
        assert((at + 1) % themes@.len() as int == 0) by {
            vstd::arithmetic::div_mod::lemma_mod_self_0(themes@.len() as int);
        }
        themes[0]
    }
}

} // verus!
