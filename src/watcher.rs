//! The wallpaper watcher's logic: finding the active wallpaper in a
//! hyprpaper-style configuration, resolving its path, and deciding when a
//! change deserves an event.

use vstd::prelude::*;
use crate::text::{
    chars_of, extend_range, extend_str, lines, range_starts_with, skip_ws, skip_ws_back,
    split_lines, starts_with, str_eq, string_of, trim, views,
};

verus! {

/// The text after the first `=` of `s`, if it has one.
pub open spec fn after_first_eq(s: Seq<char>) -> Option<Seq<char>>
    decreases s.len(),
{
    if s.len() == 0 {
        None
    } else if s[0] == '=' {
        Some(s.drop_first())
    } else {
        after_first_eq(s.drop_first())
    }
}

/// The text after the last `,` of `s`; all of `s` when it has none.
pub open spec fn after_last_comma(s: Seq<char>) -> Seq<char>
    decreases s.len(),
{
    if s.len() == 0 {
        s
    } else if s.last() == ',' {
        Seq::empty()
    } else {
        after_last_comma(s.drop_last()).push(s.last())
    }
}

/// The wallpaper path that one configuration line sets, if any: a non-comment
/// line `wallpaper = [monitor,] path`, whose last comma-separated field is the path.
pub open spec fn wallpaper_of_line(l: Seq<char>) -> Option<Seq<char>> {
    let t = trim(l);
    if t.len() == 0 || t[0] == '#' || !starts_with(t, "wallpaper"@) {
        None
    } else {
        match after_first_eq(t.subrange(9, t.len() as int)) {
            None => None,
            Some(after) => {
                let p = trim(after_last_comma(trim(after)));
                if p.len() == 0 {
                    None
                } else {
                    Some(p)
                }
            },
        }
    }
}

/// The path set by the last wallpaper line of `ls`.
pub open spec fn last_wallpaper(ls: Seq<Seq<char>>) -> Option<Seq<char>>
    decreases ls.len(),
{
    if ls.len() == 0 {
        None
    } else {
        match wallpaper_of_line(ls.last()) {
            Some(p) => Some(p),
            None => last_wallpaper(ls.drop_last()),
        }
    }
}

/// Index just past the first `=` in `s[lo..hi]`, if there is one.
fn find_after_eq(s: &Vec<char>, lo: usize, hi: usize) -> (r: Option<usize>)
    requires
        lo <= hi <= s.len(),
    ensures
        match r {
            Some(k) => lo < k <= hi && after_first_eq(s@.subrange(lo as int, hi as int)) == Some(
                s@.subrange(k as int, hi as int),
            ),
            None => after_first_eq(s@.subrange(lo as int, hi as int)) is None,
        },
{
    let mut i = lo;
    while i < hi
        invariant
            lo <= i <= hi <= s.len(),
            after_first_eq(s@.subrange(lo as int, hi as int)) == after_first_eq(
                s@.subrange(i as int, hi as int),
            ),
        decreases hi - i,
    {
        assert(s@.subrange(i as int, hi as int).drop_first() =~= s@.subrange(i + 1, hi as int));
        if s[i] == '=' {
            return Some(i + 1);
        }
        i += 1;
    }
    None
}

/// Start of the text after the last `,` in `s[lo..hi]`.
fn find_after_comma(s: &Vec<char>, lo: usize, hi: usize) -> (k: usize)
    requires
        lo <= hi <= s.len(),
    ensures
        lo <= k <= hi,
        after_last_comma(s@.subrange(lo as int, hi as int)) == s@.subrange(k as int, hi as int),
{
    let mut k = hi;
    while k > lo && s[k - 1] != ','
        invariant
            lo <= k <= hi <= s.len(),
            after_last_comma(s@.subrange(lo as int, hi as int)) == after_last_comma(
                s@.subrange(lo as int, k as int),
            ) + s@.subrange(k as int, hi as int),
        decreases k - lo,
    {
        proof {
            let w = s@.subrange(lo as int, k as int);
            assert(w.drop_last() =~= s@.subrange(lo as int, k - 1));
            assert(after_last_comma(s@.subrange(lo as int, k - 1)) + s@.subrange(k - 1, hi as int)
                =~= after_last_comma(s@.subrange(lo as int, k - 1)).push(w.last()) + s@.subrange(
                k as int,
                hi as int,
            ));
        }
        k -= 1;
    }
    proof {
        let w = s@.subrange(lo as int, k as int);
        assert(after_last_comma(w) =~= Seq::<char>::empty());
        assert(Seq::<char>::empty() + s@.subrange(k as int, hi as int) =~= s@.subrange(
            k as int,
            hi as int,
        ));
    }
    k
}

/// The wallpaper path set by one line, as bounds into it.
fn line_wallpaper(line: &Vec<char>, key: &Vec<char>) -> (r: Option<(usize, usize)>)
    requires
        key@ == "wallpaper"@,
    ensures
        match r {
            Some((a, b)) => a <= b <= line.len() && wallpaper_of_line(line@) == Some(
                line@.subrange(a as int, b as int),
            ),
            None => wallpaper_of_line(line@) is None,
        },
{
    proof {
        reveal_strlit("wallpaper");
    }
    let lo = skip_ws(line, 0, line.len());
    let hi = skip_ws_back(line, lo, line.len());
    let ghost t = line@.subrange(lo as int, hi as int);
    proof {
        assert(line@.subrange(0, line.len() as int) =~= line@);
        assert(line@.subrange(lo as int, line.len() as int).subrange(0, hi - lo) =~= t);
    }
    if lo == hi || line[lo] == '#' || !range_starts_with(line, lo, hi, key) {
        return None;
    }
    assert(t.subrange(9, t.len() as int) =~= line@.subrange(lo + 9, hi as int));
    match find_after_eq(line, lo + 9, hi) {
        None => None,
        Some(e) => {
            let a0 = skip_ws(line, e, hi);
            let b0 = skip_ws_back(line, a0, hi);
            assert(line@.subrange(a0 as int, hi as int).subrange(0, b0 - a0) =~= line@.subrange(
                a0 as int,
                b0 as int,
            ));
            let c = find_after_comma(line, a0, b0);
            let a = skip_ws(line, c, b0);
            let b = skip_ws_back(line, a, b0);
            assert(line@.subrange(a as int, b0 as int).subrange(0, b - a) =~= line@.subrange(
                a as int,
                b as int,
            ));
            if a == b {
                None
            } else {
                Some((a, b))
            }
        },
    }
}

/// Scans a hyprpaper configuration for the last non-comment `wallpaper`
/// line and returns the path it sets, unresolved.
pub fn last_wallpaper_path(content: &str) -> (r: Option<String>)
    ensures
        match r {
            Some(p) => last_wallpaper(lines(content@)) == Some(p@),
            None => last_wallpaper(lines(content@)) is None,
        },
{
    let text = chars_of(content);
    let ls = split_lines(&text);
    let key = chars_of("wallpaper");
    let mut last: Option<String> = None;
    let mut i: usize = 0;
    while i < ls.len()
        invariant
            i <= ls.len(),
            key@ == "wallpaper"@,
            views(ls@) == lines(content@),
            match last {
                Some(p) => last_wallpaper(views(ls@).subrange(0, i as int)) == Some(p@),
                None => last_wallpaper(views(ls@).subrange(0, i as int)) is None,
            },
        decreases ls.len() - i,
    {
        let line = &ls[i];
        proof {
            let next = views(ls@).subrange(0, i + 1);
            assert(next.drop_last() =~= views(ls@).subrange(0, i as int));
            assert(next.last() == line@);
        }
        match line_wallpaper(line, &key) {
            Some((a, b)) => {
                let mut v: Vec<char> = Vec::new();
                extend_range(&mut v, line, a, b);
                assert(v@ =~= line@.subrange(a as int, b as int));
                last = Some(string_of(&v));
            },
            None => {},
        }
        i += 1;
    }
    assert(views(ls@).subrange(0, ls.len() as int) =~= views(ls@));
    last
}


/// `rest` appended to the directory `base` as `Path::join` does: an absolute
/// `rest` replaces `base`, and a separator is added where `base` lacks one.
pub open spec fn path_join(base: Seq<char>, rest: Seq<char>) -> Seq<char> {
    if rest.len() > 0 && rest[0] == '/' {
        rest
    } else if base.len() == 0 || base.last() == '/' {
        base + rest
    } else {
        base + seq!['/'] + rest
    }
}

/// A configured path with a leading `$HOME/` or `~/` taken from the home
/// directory, when one is known.
pub open spec fn resolved(p: Seq<char>, home: Option<Seq<char>>) -> Seq<char> {
    match home {
        Some(h) => if starts_with(p, "$HOME/"@) {
            path_join(h, p.subrange(6, p.len() as int))
        } else if starts_with(p, "~/"@) {
            path_join(h, p.subrange(2, p.len() as int))
        } else {
            p
        },
        None => p,
    }
}

pub(crate) fn join_path(base: &str, rest: &Vec<char>, from: usize) -> (r: String)
    requires
        from <= rest.len(),
    ensures
        r@ == path_join(base@, rest@.subrange(from as int, rest.len() as int)),
{
    let b = chars_of(base);
    let mut out: Vec<char> = Vec::new();
    if !(from < rest.len() && rest[from] == '/') {
        extend_str(&mut out, base);
        if b.len() > 0 && b[b.len() - 1] != '/' {
            out.push('/');
        }
    }
    extend_range(&mut out, rest, from, rest.len());
    string_of(&out)
}

/// Expands a leading `$HOME/` or `~/` of a configured wallpaper path.
pub fn resolve_path(s: &str, home: Option<&str>) -> (r: String)
    ensures
        r@ == resolved(s@, match home {
            Some(h) => Some(h@),
            None => None::<Seq<char>>,
        }),
{
    let v = chars_of(s);
    let home_var = chars_of("$HOME/");
    let tilde = chars_of("~/");
    proof {
        reveal_strlit("$HOME/");
        reveal_strlit("~/");
        assert(v@.subrange(0, v.len() as int) =~= v@);
    }
    match home {
        Some(h) => {
            if range_starts_with(&v, 0, v.len(), &home_var) {
                join_path(h, &v, 6)
            } else if range_starts_with(&v, 0, v.len(), &tilde) {
                join_path(h, &v, 2)
            } else {
                string_of(&v)
            }
        },
        None => string_of(&v),
    }
}

/// The resolved path that a configuration asks for; `None` for a missing file
/// or one without a wallpaper line.
pub open spec fn wanted_path(content: Option<Seq<char>>, home: Option<Seq<char>>) -> Option<
    Seq<char>,
> {
    match content {
        None => None,
        Some(c) => match last_wallpaper(lines(c)) {
            None => None,
            Some(p) => Some(resolved(p, home)),
        },
    }
}

/// The path to decode next: the wanted one, unless it is the last emitted
/// or is being decoded already.
pub open spec fn decide(
    last: Option<Seq<char>>,
    pending: Option<Seq<char>>,
    wanted: Option<Seq<char>>,
) -> Option<Seq<char>> {
    match wanted {
        None => None,
        Some(p) => if last == Some(p) || pending == Some(p) {
            None
        } else {
            Some(p)
        },
    }
}

pub open spec fn opt_view(o: Option<String>) -> Option<Seq<char>> {
    match o {
        Some(s) => Some(s@),
        None => None,
    }
}

pub open spec fn opt_str_view(o: Option<&str>) -> Option<Seq<char>> {
    match o {
        Some(s) => Some(s@),
        None => None,
    }
}

/// Watches one hyprpaper configuration: remembers the last wallpaper it
/// emitted and the one being decoded, and decides, on each change of the
/// file, whether to decode and emit the wallpaper it now names.
pub struct HyprpaperWatcher {
    conf_path: String,
    last_sent: Option<String>,
    in_flight: Option<String>,
}

impl HyprpaperWatcher {
    /// The watched configuration file.
    pub closed spec fn conf(&self) -> Seq<char> {
        self.conf_path@
    }

    /// The path of the last emitted event.
    pub closed spec fn last(&self) -> Option<Seq<char>> {
        opt_view(self.last_sent)
    }

    /// The path being decoded, if any.
    pub closed spec fn pending(&self) -> Option<Seq<char>> {
        opt_view(self.in_flight)
    }

    /// A watcher of `hyprpaper_conf_path` that has emitted nothing yet.
    pub fn new(hyprpaper_conf_path: &str) -> (w: Self)
        ensures
            w.conf() == hyprpaper_conf_path@,
            w.last() is None,
            w.pending() is None,
    {
        HyprpaperWatcher {
            conf_path: string_of(&chars_of(hyprpaper_conf_path)),
            last_sent: None,
            in_flight: None,
        }
    }

    /// The watched configuration file.
    pub fn conf_path(&self) -> (r: &str)
        ensures
            r@ == self.conf(),
    {
        self.conf_path.as_str()
    }

    /// The path of the last emitted event, if any.
    pub fn last_emitted(&self) -> (r: Option<String>)
        ensures
            opt_view(r) == self.last(),
    {
        match &self.last_sent {
            Some(p) => Some(string_of(&chars_of(p.as_str()))),
            None => None,
        }
    }

    /// On start and on each change of the configuration (`content` is `None`
    /// when the file does not exist): the path to decode, if any, which is
    /// then recorded as being decoded.
    pub fn on_config_change(&mut self, content: Option<&str>, home: Option<&str>) -> (r: Option<
        String,
    >)
        ensures
            opt_view(r) == decide(
                old(self).last(),
                old(self).pending(),
                wanted_path(opt_str_view(content), opt_str_view(home)),
            ),
            final(self).conf() == old(self).conf(),
            final(self).last() == old(self).last(),
            final(self).pending() == (if r is Some {
                opt_view(r)
            } else {
                old(self).pending()
            }),
    {
        let c = match content {
            Some(c) => c,
            None => return None,
        };
        let raw = match last_wallpaper_path(c) {
            Some(p) => p,
            None => return None,
        };
        let p = resolve_path(raw.as_str(), home);
        let repeated = match &self.last_sent {
            Some(l) => *l == p,
            None => false,
        };
        let busy = match &self.in_flight {
            Some(l) => *l == p,
            None => false,
        };
        if repeated || busy {
            None
        } else {
            self.in_flight = Some(p.clone());
            Some(p)
        }
    }

    /// After decoding `path`: it is no longer pending; on success it becomes
    /// the last emitted path and is returned as the event to emit, while a
    /// failed decode emits nothing.
    pub fn on_decoded(&mut self, path: &str, decoded: bool) -> (r: Option<String>)
        ensures
            decoded ==> final(self).last() == Some(path@) && opt_view(r) == Some(path@),
            !decoded ==> final(self).last() == old(self).last() && r is None,
            final(self).pending() == (if old(self).pending() == Some(path@) {
                None
            } else {
                old(self).pending()
            }),
            final(self).conf() == old(self).conf(),
    {
        let done = match &self.in_flight {
            Some(l) => str_eq(l.as_str(), path),
            None => false,
        };
        if done {
            self.in_flight = None;
        }
        if decoded {
            self.last_sent = Some(string_of(&chars_of(path)));
            Some(string_of(&chars_of(path)))
        } else {
            None
        }
    }
}

/// Once a wallpaper has been emitted, a configuration naming the same path
/// again leads to no decode and no event; while that path is being decoded,
/// a repeat leads to no second decode (the pending one emits it, see
/// `on_decoded`); a path neither emitted last nor pending is decoded.
pub proof fn lemma_repeat_suppressed(
    w: HyprpaperWatcher,
    content: Option<Seq<char>>,
    home: Option<Seq<char>>,
)
    requires
        wanted_path(content, home) is Some,
    ensures
        wanted_path(content, home) == w.last() ==> decide(
            w.last(),
            w.pending(),
            wanted_path(content, home),
        ) is None,
        wanted_path(content, home) == w.pending() ==> decide(
            w.last(),
            w.pending(),
            wanted_path(content, home),
        ) is None,
        wanted_path(content, home) != w.last() && wanted_path(content, home) != w.pending()
            ==> decide(w.last(), w.pending(), wanted_path(content, home)) == wanted_path(
            content,
            home,
        ),
{
}

} // verus!
