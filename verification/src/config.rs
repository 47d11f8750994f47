//! The server that the player talks to, and under which name and password.

use vstd::prelude::*;
use crate::text::{
    drop_tail_while, has_prefix, is_blank, is_char, join2, starts_with, trim, trim_end_char,
    trim_end_matches, trimmed, white_space,
};

verus! {

/// Where the configuration lies below the home directory.
pub const CONFIG_FILE: &'static str = ".config/smyx/navidrome.toml";

/// Where the lock lies below the home directory, and where without one.
pub const LOCK_FILE: &'static str = ".cache/smyx/lock";

pub const LOCK_FILE_WITHOUT_HOME: &'static str = "/tmp/smyx.lock";

/// Where the log lies below the home directory.
pub const LOG_FILE: &'static str = ".cache/myx/myx.log";

#[derive(Debug, PartialEq, Eq)]
pub struct NavidromeConfig {
    pub server_url: String,
    pub username: String,
    pub password: String,
}

pub struct NavidromeConfigView {
    pub server_url: Seq<char>,
    pub username: Seq<char>,
    pub password: Seq<char>,
}

impl View for NavidromeConfig {
    type V = NavidromeConfigView;

    open spec fn view(&self) -> NavidromeConfigView {
        NavidromeConfigView {
            server_url: self.server_url@,
            username: self.username@,
            password: self.password@,
        }
    }
}

impl Clone for NavidromeConfig {
    fn clone(&self) -> (r: Self)
        ensures
            r == *self,
    {
        NavidromeConfig {
            server_url: self.server_url.clone(),
            username: self.username.clone(),
            password: self.password.clone(),
        }
    }
}

/// A URL names one of the two schemes.
pub open spec fn has_scheme(url: Seq<char>) -> bool {
    has_prefix(url, "http://"@) || has_prefix(url, "https://"@)
}

/// A URL without the white space around it, with a scheme, and without the
/// slashes at its end.
pub open spec fn normal_url(url: Seq<char>) -> Seq<char> {
    let t = trimmed(url);
    trim_end_char(
        if has_scheme(t) {
            t
        } else {
            "http://"@ + t
        },
        '/',
    )
}

/// The configuration that a form's three fields give.
pub open spec fn config_of(
    server_url: Seq<char>,
    username: Seq<char>,
    password: Seq<char>,
) -> NavidromeConfigView {
    NavidromeConfigView {
        server_url: normal_url(server_url),
        username: trimmed(username),
        password,
    }
}

/// A path below a directory: the two with a slash between them, unless the
/// directory is empty or ends in one.
pub open spec fn path_below(dir: Seq<char>, rel: Seq<char>) -> Seq<char> {
    if dir.len() == 0 || dir.last() == '/' {
        dir + rel
    } else {
        dir + seq!['/'] + rel
    }
}

/// Joins a directory and a relative path.
pub fn join_path(dir: &str, rel: &str) -> (r: String)
    ensures
        r@ == path_below(dir@, rel@),
{
    let v = crate::text::chars_of(dir);
    let mut s = dir.to_string();
    if v.len() > 0 && v[v.len() - 1] != '/' {
        s.push('/');
        assert(s@ =~= dir@ + seq!['/']);
    }
    s.concat(rel)
}

/// The file whose lock keeps a second player from starting.
pub fn lock_path(home: Option<&str>) -> (r: String)
    ensures
        r@ == (match home {
            Some(h) => path_below(h@, LOCK_FILE@),
            None => LOCK_FILE_WITHOUT_HOME@,
        }),
{
    match home {
        Some(h) => join_path(h, LOCK_FILE),
        None => LOCK_FILE_WITHOUT_HOME.to_string(),
    }
}

/// The file of the log: none where there is no home directory or no log is wanted.
pub fn log_path(home: Option<&str>, wanted: bool) -> (r: Option<String>)
    ensures
        r is Some <==> wanted && home is Some,
        r matches Some(p) ==> p@ == path_below(home->0@, LOG_FILE@),
{
    match home {
        Some(h) => if wanted {
            Some(join_path(h, LOG_FILE))
        } else {
            None
        },
        None => None,
    }
}

impl NavidromeConfig {
    pub fn new(server_url: String, username: String, password: String) -> (r: Self)
        ensures
            r@ == config_of(server_url@, username@, password@),
            r.password == password,
    {
        NavidromeConfig {
            server_url: Self::normalize_url(server_url.as_str()),
            username: trim(username.as_str()),
            password,
        }
    }

    /// Ensure URL has a scheme (default to `http://`) and no trailing slash.
    pub fn normalize_url(url: &str) -> (r: String)
        ensures
            r@ == normal_url(url@),
    {
        let t = trim(url);
        let prefixed = if !starts_with(t.as_str(), "http://") && !starts_with(
            t.as_str(),
            "https://",
        ) {
            join2("http://", t.as_str())
        } else {
            t
        };
        trim_end_matches(prefixed.as_str(), '/')
    }

    /// The file of the configuration, where the home directory is known.
    pub fn config_path(home: Option<&str>) -> (r: Option<String>)
        ensures
            r is Some <==> home is Some,
            r matches Some(p) ==> p@ == path_below(home->0@, CONFIG_FILE@),
    {
        match home {
            Some(h) => Some(join_path(h, CONFIG_FILE)),
            None => None,
        }
    }

    /// What a stored configuration is worth: its URL is brought into normal form,
    /// and it counts only if it names a server and a user. `parsed` is `None` where
    /// there was no file or it could not be read.
    pub fn load(parsed: Option<NavidromeConfig>) -> (r: Option<NavidromeConfig>)
        ensures
            r is Some <==> (parsed is Some && normal_url(parsed->0.server_url@).len() > 0
                && parsed->0.username@.len() > 0),
            r matches Some(c) ==> c@ == (NavidromeConfigView {
                server_url: normal_url(parsed->0.server_url@),
                ..parsed->0@
            }),
    {
        match parsed {
            Some(cfg) => {
                let server_url = Self::normalize_url(cfg.server_url.as_str());
                if server_url.as_str().is_empty() || cfg.username.as_str().is_empty() {
                    None
                } else {
                    Some(NavidromeConfig { server_url, username: cfg.username, password: cfg.password })
                }
            },
            None => None,
        }
    }
}

proof fn lemma_drop_tail_end(s: Seq<char>, p: spec_fn(char) -> bool)
    ensures
        drop_tail_while(s, p).len() > 0 ==> !p(drop_tail_while(s, p).last()),
        drop_tail_while(s, p).len() <= s.len(),
        drop_tail_while(s, p) == s.take(drop_tail_while(s, p).len() as int),
    decreases s.len(),
{
    if s.len() > 0 && p(s.last()) {
        lemma_drop_tail_end(s.drop_last(), p);
        let k = drop_tail_while(s, p).len() as int;
        assert(s.drop_last().take(k) =~= s.take(k));
    } else {
        assert(s.take(s.len() as int) =~= s);
    }
}

/// A normalized URL never ends in a slash.
pub proof fn law_normal_url_has_no_trailing_slash(url: Seq<char>)
    ensures
        normal_url(url).len() > 0 ==> normal_url(url).last() != '/',
{
    let t = trimmed(url);
    let p = if has_scheme(t) {
        t
    } else {
        "http://"@ + t
    };
    lemma_drop_tail_end(p, is_char('/'));
}

/// A normalized URL names a scheme, as long as more than slashes follows the
/// scheme.
pub proof fn law_normal_url_has_scheme(url: Seq<char>, rest: Seq<char>)
    requires
        ({
            let t = trimmed(url);
            ||| t == "http://"@ + rest
            ||| t == "https://"@ + rest
            ||| !has_scheme(t) && t == rest
        }),
        exists|i: int| 0 <= i < rest.len() && #[trigger] rest[i] != '/',
    ensures
        has_scheme(normal_url(url)),
{
    reveal_strlit("http://");
    reveal_strlit("https://");
    let t = trimmed(url);
    let scheme = if t == "https://"@ + rest {
        "https://"@
    } else {
        "http://"@
    };
    assert(("http://"@ + rest).take(7) =~= "http://"@);
    assert(("https://"@ + rest).take(8) =~= "https://"@);
    let p = scheme + rest;
    assert(p == (if has_scheme(t) {
        t
    } else {
        "http://"@ + t
    }));
    let i = choose|i: int| 0 <= i < rest.len() && #[trigger] rest[i] != '/';
    let at = scheme.len() + i;
    assert(p[at] != '/');
    lemma_keeps(p, is_char('/'), at);
    lemma_drop_tail_end(p, is_char('/'));
    let u = normal_url(url);
    assert(u == p.take(u.len() as int));
    assert(u.take(scheme.len() as int) =~= scheme);
}

/// Dropping a tail keeps everything up to an element that is not dropped.
proof fn lemma_keeps(s: Seq<char>, p: spec_fn(char) -> bool, at: int)
    requires
        0 <= at < s.len(),
        !p(s[at]),
    ensures
        drop_tail_while(s, p).len() > at,
    decreases s.len(),
{
    if p(s.last()) {
        lemma_keeps(s.drop_last(), p, at);
    }
}

/// Normalizing twice is normalizing once, unless the first time leaves no scheme,
/// or white space at the end that only a slash had kept there.
pub proof fn law_normalizing_twice(url: Seq<char>)
    requires
        has_scheme(normal_url(url)),
        !white_space(normal_url(url).last()),
    ensures
        normal_url(normal_url(url)) == normal_url(url),
{
    reveal_strlit("http://");
    reveal_strlit("https://");
    let u = normal_url(url);
    law_normal_url_has_no_trailing_slash(url);
    assert(u.len() > 0);
    assert(u[0] == 'h') by {
        if has_prefix(u, "http://"@) {
            assert(u.take(7)[0] == u[0]);
        } else {
            assert(u.take(8)[0] == u[0]);
        }
    }
    assert(!white_space(u[0]));
    assert(trimmed(u) == u);
}

/// A server is called by what was typed without the space around it and without the
/// slashes at its end, over `http` where no scheme was typed.
pub proof fn law_server_is_what_was_typed(
    before: Seq<char>,
    host: Seq<char>,
    slashes: Seq<char>,
    after: Seq<char>,
)
    requires
        is_blank(before),
        is_blank(after),
        host.len() > 0,
        !white_space(host[0]),
        !white_space(host.last()),
        host.last() != '/',
        forall|i: int| 0 <= i < slashes.len() ==> #[trigger] slashes[i] == '/',
    ensures
        ({
            let t = host + slashes;
            let named = (t.len() >= 7 && t.take(7) == "http://"@) || (t.len() >= 8 && t.take(8)
                == "https://"@);
            normal_url(before + t + after) == if named {
                host
            } else {
                "http://"@ + host
            }
        }),
{
    reveal_strlit("http://");
    reveal_strlit("https://");
    let t = host + slashes;
    assert(t.last() == (if slashes.len() > 0 {
        slashes.last()
    } else {
        host.last()
    }));
    assert(t[0] == host[0]);
    assert(!white_space('/'));
    crate::text::law_trimming_takes_the_ends(before, t, after);
    let p = is_char('/');
    assert forall|i: int| host.len() <= i < t.len() implies p(#[trigger] t[i]) by {
        assert(slashes[i - host.len()] == '/');
    }
    assert(t[host.len() - 1] == host.last());
    crate::text::lemma_drop_tail_while(t, p, host.len() as int);
    assert(t.take(host.len() as int) =~= host);
    let u = "http://"@ + t;
    assert forall|i: int| 7 + host.len() <= i < u.len() implies p(#[trigger] u[i]) by {
        assert(slashes[i - 7 - host.len()] == '/');
    }
    assert(u[7 + host.len() - 1] == host.last());
    crate::text::lemma_drop_tail_while(u, p, 7 + host.len() as int);
    assert(u.take(7 + host.len() as int) =~= "http://"@ + host);
}

/// A user is taken without the space around the name, a password as it was typed.
pub proof fn law_user_and_password(
    server: Seq<char>,
    before: Seq<char>,
    user: Seq<char>,
    after: Seq<char>,
    password: Seq<char>,
)
    requires
        is_blank(before),
        is_blank(after),
        user.len() > 0 ==> !white_space(user[0]) && !white_space(user.last()),
    ensures
        config_of(server, before + user + after, password).username == user,
        config_of(server, before + user + after, password).password == password,
        config_of(server, before + user + after, password).server_url == normal_url(server),
{
    crate::text::law_trimming_takes_the_ends(before, user, after);
}

/// A path lies below a directory with one slash between them.
pub proof fn law_paths_lie_below(dir: Seq<char>, rel: Seq<char>)
    ensures
        path_below(dir.push('/'), rel) == dir + seq!['/'] + rel,
        dir.len() > 0 && dir.last() != '/' ==> path_below(dir, rel) == dir + seq!['/'] + rel,
        path_below(Seq::empty(), rel) == rel,
{
    assert(dir.push('/') + rel =~= dir + seq!['/'] + rel);
    assert(Seq::<char>::empty() + rel =~= rel);
}

} // verus!
