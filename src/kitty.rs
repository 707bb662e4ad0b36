//! Kitty configuration upkeep: the managed `include` line, remote-control
//! settings, and the choice of live sockets to reload.

use vstd::prelude::*;
use crate::text::{
    chars_of, count_lines, extend_chars, extend_range, extend_str, is_ws, lemma_count_after_end,
    lemma_count_fresh, lemma_count_positive, lemma_scan_concat, lemma_scan_line, lemma_trim_first,
    lemma_trim_strip_cr, line_pred, line_scan, lines, range_equals, range_starts_with, skip_ws,
    skip_ws_back, split_lines, starts_with, string_of, strip_cr, trim, trim_end, trim_start, views,
};
use crate::watcher::path_join;

verus! {

/// Name of the generated theme file, next to `kitty.conf`.
pub const THEME_FILE_NAME: &'static str = "colors-generated.conf";

/// The directive that pulls the theme file `name` into `kitty.conf`.
pub open spec fn include_directive(name: Seq<char>) -> Seq<char> {
    "include "@ + name
}

/// Some line of `ls` is exactly `target` once trimmed.
pub open spec fn has_trimmed_line(ls: Seq<Seq<char>>, target: Seq<char>) -> bool {
    exists|i: int| 0 <= i < ls.len() && trim(#[trigger] ls[i]) == target
}

/// Some line of `ls` starts with `p` once trimmed.
pub open spec fn has_line_starting(ls: Seq<Seq<char>>, p: Seq<char>) -> bool {
    exists|i: int| 0 <= i < ls.len() && starts_with(trim(#[trigger] ls[i]), p)
}

/// The socket named by the last `listen_on` line of `ls`, if any.
pub open spec fn listen_target(ls: Seq<Seq<char>>) -> Option<Seq<char>>
    decreases ls.len(),
{
    if ls.len() == 0 {
        None
    } else {
        let t = trim(ls.last());
        if starts_with(t, "listen_on "@) {
            Some(trim(t.subrange(10, t.len() as int)))
        } else {
            listen_target(ls.drop_last())
        }
    }
}

/// Text appended to `kitty.conf` to include the theme file.
pub open spec fn include_block(name: Seq<char>) -> Seq<char> {
    "\n# Automatically included by color-listener\n"@ + include_directive(name) + "\n\n"@
}

/// `kitty.conf` once it includes the theme file `name`.
pub open spec fn with_include(c: Seq<char>, name: Seq<char>) -> Seq<char> {
    if has_trimmed_line(lines(c), include_directive(name)) {
        c
    } else {
        c + include_block(name)
    }
}

/// The socket kitty is told to listen on when the configuration names none.
pub open spec fn default_socket(user: Seq<char>) -> Seq<char> {
    "unix:/tmp/kitty-"@ + user
}

/// Whether `c` is empty or ends with a line break, so that appended text
/// starts a line of its own.
pub open spec fn ends_line(c: Seq<char>) -> bool {
    c.len() == 0 || c.last() == '\n'
}

/// The block that enables remote control.
pub open spec fn allow_block() -> Seq<char> {
    "\n# Enable remote control (added by color-listener)\nallow_remote_control yes\n"@
}

/// The line that makes kitty listen on the default socket.
pub open spec fn listen_line(user: Seq<char>) -> Seq<char> {
    "listen_on "@ + default_socket(user) + "\n"@
}

/// Text appended to `kitty.conf` to enable remote control; each added
/// setting starts a line of its own.
pub open spec fn remote_block(c: Seq<char>, user: Seq<char>) -> Seq<char> {
    let ls = lines(c);
    let has_allow = has_line_starting(ls, "allow_remote_control"@);
    (if has_allow {
        Seq::empty()
    } else {
        allow_block()
    }) + (if listen_target(ls) is Some {
        Seq::empty()
    } else if has_allow && !ends_line(c) {
        seq!['\n'] + listen_line(user)
    } else {
        listen_line(user)
    })
}

/// `kitty.conf` after the include and the remote-control settings are ensured.
pub open spec fn updated_conf(c: Seq<char>, name: Seq<char>, user: Seq<char>) -> Seq<char> {
    let c1 = with_include(c, name);
    c1 + remote_block(c1, user)
}

/// The socket that the updated configuration makes kitty listen on.
pub open spec fn socket_target(c: Seq<char>, name: Seq<char>, user: Seq<char>) -> Seq<char> {
    match listen_target(lines(with_include(c, name))) {
        Some(t) => t,
        None => default_socket(user),
    }
}

/// The new text of `kitty.conf` and the socket it configures.
pub struct ConfUpdate {
    pub contents: String,
    pub socket: String,
}

/// Whether some line of `text`, trimmed, equals `target`.
fn contains_trimmed_line(ls: &Vec<Vec<char>>, target: &Vec<char>) -> (r: bool)
    ensures
        r == has_trimmed_line(views(ls@), target@),
{
    let mut i: usize = 0;
    while i < ls.len()
        invariant
            i <= ls.len(),
            forall|j: int| 0 <= j < i ==> trim(#[trigger] views(ls@)[j]) != target@,
        decreases ls.len() - i,
    {
        let line = &ls[i];
        let lo = skip_ws(line, 0, line.len());
        let hi = skip_ws_back(line, lo, line.len());
        proof {
            assert(line@.subrange(0, line.len() as int) =~= line@);
            assert(line@.subrange(lo as int, line.len() as int).subrange(0, hi - lo)
                =~= line@.subrange(lo as int, hi as int));
            assert(views(ls@)[i as int] == line@);
        }
        if range_equals(line, lo, hi, target) {
            return true;
        }
        i += 1;
    }
    false
}

/// Start and end of the trimmed text of `line`.
fn trimmed_bounds(line: &Vec<char>) -> (b: (usize, usize))
    ensures
        b.0 <= b.1 <= line.len(),
        trim(line@) == line@.subrange(b.0 as int, b.1 as int),
{
    let lo = skip_ws(line, 0, line.len());
    let hi = skip_ws_back(line, lo, line.len());
    assert(line@.subrange(0, line.len() as int) =~= line@);
    assert(line@.subrange(lo as int, line.len() as int).subrange(0, hi - lo) =~= line@.subrange(
        lo as int,
        hi as int,
    ));
    (lo, hi)
}

/// Scans `ls` for an `allow_remote_control` line and the last `listen_on` target.
fn scan_remote(ls: &Vec<Vec<char>>) -> (r: (bool, Option<Vec<char>>))
    ensures
        r.0 == has_line_starting(views(ls@), "allow_remote_control"@),
        listen_target(views(ls@)) == (match r.1 {
            Some(v) => Some(v@),
            None => None::<Seq<char>>,
        }),
{
    let allow = chars_of("allow_remote_control");
    let listen = chars_of("listen_on ");
    proof {
        reveal_strlit("listen_on ");
    }
    let mut has_allow = false;
    let mut socket: Option<Vec<char>> = None;
    let mut i: usize = 0;
    while i < ls.len()
        invariant
            i <= ls.len(),
            allow@ == "allow_remote_control"@,
            listen@ == "listen_on "@,
            listen@.len() == 10,
            has_allow == has_line_starting(views(ls@).subrange(0, i as int), allow@),
            listen_target(views(ls@).subrange(0, i as int)) == (match socket {
                Some(v) => Some(v@),
                None => None::<Seq<char>>,
            }),
        decreases ls.len() - i,
    {
        let line = &ls[i];
        let (lo, hi) = trimmed_bounds(line);
        let ghost pre = views(ls@).subrange(0, i as int);
        let ghost next = views(ls@).subrange(0, i + 1);
        proof {
            assert(next.drop_last() =~= pre);
            assert(next.last() == line@);
        }
        if range_starts_with(line, lo, hi, &allow) {
            has_allow = true;
            assert(next[i as int] == line@);
        } else {
            proof {
                if has_line_starting(next, allow@) {
                    let j = choose|j: int|
                        0 <= j < next.len() && starts_with(trim(#[trigger] next[j]), allow@);
                    assert(j < i ==> pre[j] == next[j]);
                }
                if has_line_starting(pre, allow@) {
                    let j = choose|j: int|
                        0 <= j < pre.len() && starts_with(trim(#[trigger] pre[j]), allow@);
                    assert(next[j] == pre[j]);
                }
            }
        }
        if range_starts_with(line, lo, hi, &listen) {
            let a = skip_ws(line, lo + 10, hi);
            let b = skip_ws_back(line, a, hi);
            let mut v: Vec<char> = Vec::new();
            extend_range(&mut v, line, a, b);
            proof {
                let t = line@.subrange(lo as int, hi as int);
                assert(t.subrange(10, t.len() as int) =~= line@.subrange(lo + 10, hi as int));
                assert(line@.subrange(a as int, hi as int).subrange(0, b - a) =~= line@.subrange(
                    a as int,
                    b as int,
                ));
                assert(v@ =~= line@.subrange(a as int, b as int));
            }
            socket = Some(v);
        }
        i += 1;
    }
    assert(views(ls@).subrange(0, ls.len() as int) =~= views(ls@));
    (has_allow, socket)
}


/// New text of `kitty.conf`: the theme file `include_name` is included once,
/// remote control is allowed, and a socket is configured (a per-user default
/// under `/tmp` when none is). Also returns that socket.
pub fn update_kitty_conf(contents: &str, include_name: &str, user: &str) -> (r: ConfUpdate)
    ensures
        r.contents@ == updated_conf(contents@, include_name@, user@),
        r.socket@ == socket_target(contents@, include_name@, user@),
{
    let mut text = chars_of(contents);
    let mut directive: Vec<char> = Vec::new();
    extend_str(&mut directive, "include ");
    extend_str(&mut directive, include_name);
    let ls = split_lines(&text);
    if !contains_trimmed_line(&ls, &directive) {
        extend_str(&mut text, "\n# Automatically included by color-listener\n");
        extend_chars(&mut text, &directive);
        extend_str(&mut text, "\n\n");
    }
    assert(text@ =~= with_include(contents@, include_name@));
    let ls1 = split_lines(&text);
    let (has_allow, found) = scan_remote(&ls1);
    if !has_allow {
        extend_str(&mut text, "\n# Enable remote control (added by color-listener)\nallow_remote_control yes\n");
    }
    let socket = match found {
        Some(v) => v,
        None => {
            let mut d: Vec<char> = Vec::new();
            extend_str(&mut d, "unix:/tmp/kitty-");
            extend_str(&mut d, user);
            if has_allow && text.len() > 0 && text[text.len() - 1] != '\n' {
                text.push('\n');
            }
            extend_str(&mut text, "listen_on ");
            extend_chars(&mut text, &d);
            extend_str(&mut text, "\n");
            d
        },
    };
    assert(text@ =~= updated_conf(contents@, include_name@, user@));
    ConfUpdate { contents: string_of(&text), socket: string_of(&socket) }
}


/// The character sequences held by a vector of strings.
pub open spec fn string_views(v: Seq<String>) -> Seq<Seq<char>> {
    v.map_values(|x: String| x@)
}

/// `s` with every repeat of an earlier element removed; first occurrences
/// keep their order.
pub open spec fn dedup(s: Seq<Seq<char>>) -> Seq<Seq<char>>
    decreases s.len(),
{
    if s.len() == 0 {
        s
    } else {
        let d = dedup(s.drop_last());
        if d.contains(s.last()) {
            d
        } else {
            d.push(s.last())
        }
    }
}

pub open spec fn no_repeats(s: Seq<Seq<char>>) -> bool {
    forall|i: int, j: int| 0 <= i < j < s.len() ==> s[i] != s[j]
}

/// `dedup` keeps exactly the elements of its argument, each once.
pub proof fn lemma_dedup(s: Seq<Seq<char>>)
    ensures
        forall|x: Seq<char>| dedup(s).contains(x) <==> s.contains(x),
        no_repeats(dedup(s)),
    decreases s.len(),
{
    if s.len() > 0 {
        let p = s.drop_last();
        lemma_dedup(p);
        assert forall|x: Seq<char>| dedup(s).contains(x) <==> s.contains(x) by {
            if s.contains(x) {
                let i = choose|i: int| 0 <= i < s.len() && s[i] == x;
                if i < s.len() - 1 {
                    assert(p[i] == x);
                    assert(p.contains(x));
                }
                if !dedup(p).contains(s.last()) {
                    assert(dedup(s).last() == s.last());
                    if i < s.len() - 1 {
                        let j = choose|j: int| 0 <= j < dedup(p).len() && dedup(p)[j] == x;
                        assert(dedup(s)[j] == x);
                    }
                }
            }
            if dedup(s).contains(x) {
                let j = choose|j: int| 0 <= j < dedup(s).len() && dedup(s)[j] == x;
                if dedup(p).contains(s.last()) || j < dedup(p).len() {
                    assert(dedup(p)[j] == x);
                    assert(dedup(p).contains(x));
                    assert(p.contains(x));
                    let i = choose|i: int| 0 <= i < p.len() && p[i] == x;
                    assert(s[i] == x);
                } else {
                    assert(s[s.len() - 1] == x);
                }
            }
        }
        if !dedup(p).contains(s.last()) {
            assert forall|i: int, j: int| 0 <= i < j < dedup(s).len() implies dedup(s)[i] != dedup(
                s,
            )[j] by {
                if j == dedup(p).len() {
                    assert(dedup(s)[i] == dedup(p)[i]);
                }
            }
        }
    }
}

fn contains_string(v: &Vec<String>, x: &String) -> (r: bool)
    ensures
        r == string_views(v@).contains(x@),
{
    let mut i: usize = 0;
    while i < v.len()
        invariant
            i <= v.len(),
            forall|j: int| 0 <= j < i ==> string_views(v@)[j] != x@,
        decreases v.len() - i,
    {
        if v[i] == *x {
            assert(string_views(v@)[i as int] == x@);
            return true;
        }
        i += 1;
    }
    false
}

/// Removes repeated strings from `v`, keeping the first occurrence of each
/// in the order they first appear.
pub fn dedup_preserve(v: &mut Vec<String>)
    ensures
        string_views(final(v)@) == dedup(string_views(old(v)@)),
        forall|x: Seq<char>| string_views(final(v)@).contains(x) <==> string_views(old(v)@).contains(x),
        no_repeats(string_views(final(v)@)),
{
    let ghost orig = string_views(v@);
    let mut out: Vec<String> = Vec::new();
    let mut i: usize = 0;
    while i < v.len()
        invariant
            i <= v.len(),
            string_views(v@) == orig,
            string_views(out@) == dedup(orig.subrange(0, i as int)),
        decreases v.len() - i,
    {
        let x = &v[i];
        proof {
            let next = orig.subrange(0, i + 1);
            assert(next.drop_last() =~= orig.subrange(0, i as int));
            assert(next.last() == x@);
        }
        if !contains_string(&out, x) {
            let ghost before = out@;
            out.push(x.clone());
            assert(string_views(out@) =~= string_views(before).push(x@));
        }
        i += 1;
    }
    assert(orig.subrange(0, i as int) =~= orig);
    proof {
        lemma_dedup(orig);
    }
    *v = out;
}

/// Where to look for the live sockets of a configured `unix:` target: the
/// directory of its path, and the file name up to its first `-`.
pub struct SocketBase {
    pub dir: String,
    pub prefix: String,
}

/// The part of `s` after its last `/`; all of `s` when it has none.
pub open spec fn after_last_slash(s: Seq<char>) -> Seq<char>
    decreases s.len(),
{
    if s.len() == 0 {
        s
    } else if s.last() == '/' {
        Seq::empty()
    } else {
        after_last_slash(s.drop_last()).push(s.last())
    }
}

/// The part of `s` before its first `-`; all of `s` when it has none.
pub open spec fn before_first_dash(s: Seq<char>) -> Seq<char>
    decreases s.len(),
{
    if s.len() == 0 {
        s
    } else if s[0] == '-' {
        Seq::empty()
    } else {
        seq![s[0]] + before_first_dash(s.drop_first())
    }
}

/// Directory and name prefix of a `unix:/abs/path` target, whose file name
/// must be non-empty; `None` for any other target.
pub open spec fn socket_base_of(t: Seq<char>) -> Option<(Seq<char>, Seq<char>)> {
    if !starts_with(t, "unix:"@) {
        None
    } else {
        let path = t.subrange(5, t.len() as int);
        let name = after_last_slash(path);
        if path.len() == 0 || path[0] != '/' || name.len() == 0 {
            None
        } else {
            let k = path.len() - name.len() - 1;
            let dir = if k == 0 {
                seq!['/']
            } else {
                path.subrange(0, k)
            };
            Some((dir, before_first_dash(name)))
        }
    }
}


/// A file found in a socket directory: its name and whether it is a socket.
pub struct DirEntryInfo {
    pub name: String,
    pub is_socket: bool,
}

/// The `unix:` targets of the sockets among `entries` whose names start
/// with `prefix`, as paths inside `dir`, in listing order.
pub open spec fn socket_variants(
    dir: Seq<char>,
    prefix: Seq<char>,
    entries: Seq<(Seq<char>, bool)>,
) -> Seq<Seq<char>>
    decreases entries.len(),
{
    if entries.len() == 0 {
        Seq::empty()
    } else {
        let rest = socket_variants(dir, prefix, entries.drop_last());
        let (name, is_socket) = entries.last();
        if is_socket && starts_with(name, prefix) {
            rest.push("unix:"@ + path_join(dir, name))
        } else {
            rest
        }
    }
}

pub open spec fn entry_views(v: Seq<DirEntryInfo>) -> Seq<(Seq<char>, bool)> {
    v.map_values(|e: DirEntryInfo| (e.name@, e.is_socket))
}

/// Splits a `unix:/abs/path` socket target into the directory to scan and
/// the file-name prefix its live sockets share; `None` for other targets.
pub fn socket_base(target: &str) -> (r: Option<SocketBase>)
    ensures
        match r {
            Some(b) => socket_base_of(target@) == Some((b.dir@, b.prefix@)),
            None => socket_base_of(target@) is None,
        },
{
    let t = chars_of(target);
    let scheme = chars_of("unix:");
    proof {
        reveal_strlit("unix:");
        assert(t@.subrange(0, t.len() as int) =~= t@);
    }
    if !range_starts_with(&t, 0, t.len(), &scheme) {
        return None;
    }
    let ghost path = t@.subrange(5, t.len() as int);
    if t.len() == 5 || t[5] != '/' {
        return None;
    }
    // The file name: after the last `/`.
    let mut k = t.len();
    while k > 5 && t[k - 1] != '/'
        invariant
            6 <= k <= t.len(),
            t@[5] == '/',
            path == t@.subrange(5, t.len() as int),
            after_last_slash(path) == after_last_slash(t@.subrange(5, k as int)) + t@.subrange(
                k as int,
                t.len() as int,
            ),
        decreases k,
    {
        proof {
            let w = t@.subrange(5, k as int);
            assert(w.drop_last() =~= t@.subrange(5, k - 1));
            assert(after_last_slash(t@.subrange(5, k - 1)) + t@.subrange(k - 1, t.len() as int)
                =~= after_last_slash(t@.subrange(5, k - 1)).push(w.last()) + t@.subrange(
                k as int,
                t.len() as int,
            ));
        }
        k -= 1;
    }
    proof {
        let w = t@.subrange(5, k as int);
        assert(after_last_slash(w) =~= Seq::<char>::empty());
        assert(after_last_slash(path) =~= t@.subrange(k as int, t.len() as int));
    }
    if k == t.len() {
        return None;
    }
    let mut dir: Vec<char> = Vec::new();
    if k - 1 == 5 {
        dir.push('/');
        assert(dir@ =~= seq!['/']);
    } else {
        extend_range(&mut dir, &t, 5, k - 1);
        assert(dir@ =~= path.subrange(0, k - 6));
    }
    // The prefix: the file name up to its first `-`.
    let mut e = k;
    while e < t.len() && t[e] != '-'
        invariant
            k <= e <= t.len(),
            before_first_dash(t@.subrange(k as int, t.len() as int)) == t@.subrange(
                k as int,
                e as int,
            ) + before_first_dash(t@.subrange(e as int, t.len() as int)),
        decreases t.len() - e,
    {
        proof {
            let w = t@.subrange(e as int, t.len() as int);
            assert(w.drop_first() =~= t@.subrange(e + 1, t.len() as int));
            assert(t@.subrange(k as int, e + 1) =~= t@.subrange(k as int, e as int) + seq![w[0]]);
        }
        e += 1;
    }
    proof {
        let w = t@.subrange(e as int, t.len() as int);
        assert(before_first_dash(w) =~= Seq::<char>::empty());
    }
    let mut prefix: Vec<char> = Vec::new();
    extend_range(&mut prefix, &t, k, e);
    assert(prefix@ =~= before_first_dash(after_last_slash(path)));
    Some(SocketBase { dir: string_of(&dir), prefix: string_of(&prefix) })
}

/// The live sockets in a listing of `base.dir` that share `base.prefix`,
/// as `unix:` targets.
pub fn matching_sockets(base: &SocketBase, entries: &Vec<DirEntryInfo>) -> (r: Vec<String>)
    ensures
        string_views(r@) == socket_variants(base.dir@, base.prefix@, entry_views(entries@)),
{
    let prefix = chars_of(base.prefix.as_str());
    let mut out: Vec<String> = Vec::new();
    let mut i: usize = 0;
    while i < entries.len()
        invariant
            i <= entries.len(),
            prefix@ == base.prefix@,
            string_views(out@) == socket_variants(
                base.dir@,
                base.prefix@,
                entry_views(entries@).subrange(0, i as int),
            ),
        decreases entries.len() - i,
    {
        let entry = &entries[i];
        let name = chars_of(entry.name.as_str());
        proof {
            let next = entry_views(entries@).subrange(0, i + 1);
            assert(next.drop_last() =~= entry_views(entries@).subrange(0, i as int));
            assert(next.last() == (entry.name@, entry.is_socket));
            assert(name@.subrange(0, name.len() as int) =~= name@);
        }
        if entry.is_socket && range_starts_with(&name, 0, name.len(), &prefix) {
            let joined = join_dir(base.dir.as_str(), entry.name.as_str());
            let mut v: Vec<char> = Vec::new();
            extend_str(&mut v, "unix:");
            extend_str(&mut v, joined.as_str());
            let ghost before = out@;
            out.push(string_of(&v));
            assert(string_views(out@) =~= string_views(before).push(v@));
        }
        i += 1;
    }
    assert(entry_views(entries@).subrange(0, entries.len() as int) =~= entry_views(entries@));
    out
}

fn join_dir(dir: &str, name: &str) -> (r: String)
    ensures
        r@ == path_join(dir@, name@),
{
    let n = chars_of(name);
    crate::watcher::join_path(dir, &n, 0)
}

/// The sockets to reload, in order: the configured target, then each live
/// variant found, without repeats.
pub fn reload_targets(configured: &str, found: &Vec<String>) -> (r: Vec<String>)
    ensures
        string_views(r@) == dedup(seq![configured@] + string_views(found@)),
{
    let mut v: Vec<String> = Vec::new();
    v.push(string_of(&chars_of(configured)));
    let mut i: usize = 0;
    while i < found.len()
        invariant
            i <= found.len(),
            string_views(v@) == seq![configured@] + string_views(found@).subrange(0, i as int),
        decreases found.len() - i,
    {
        let ghost before = v@;
        let item = found[i].clone();
        assert(item@ == string_views(found@)[i as int]);
        v.push(item);
        assert(string_views(v@) =~= string_views(before).push(item@));
        assert(string_views(found@).subrange(0, i + 1) =~= string_views(found@).subrange(
            0,
            i as int,
        ).push(item@));
        i += 1;
    }
    assert(string_views(found@).subrange(0, i as int) =~= string_views(found@));
    dedup_preserve(&mut v);
    v
}


/// Why a live reload reached no terminal.
#[derive(Debug, Clone, Copy, PartialEq, Eq)]
pub enum ReloadError {
    /// No socket accepted the new colors by either delivery.
    NoSocketAccepted,
}

impl ReloadError {
    /// A one-line description for the operator.
    pub fn message(&self) -> (r: String)
        ensures
            r@ == "no kitty sockets accepted set-colors"@,
    {
        string_of(&chars_of("no kitty sockets accepted set-colors"))
    }
}

/// What the reload loop does next.
#[derive(Debug)]
pub enum ReloadStep {
    /// Ask the terminal at this target to load the theme file by its path.
    ByPath(String),
    /// Ask the terminal at this target again, piping the theme to its input.
    ByStdin(String),
    /// Every target was tried; `Ok` when at least one accepted the colors.
    Done(Result<(), ReloadError>),
}

/// The decisions of a best-effort live reload: each target is tried by path,
/// then by piped input if that fails; the reload succeeds when any target
/// accepted either delivery.
pub struct ReloadSession {
    targets: Vec<String>,
    index: usize,
    fallback: bool,
    delivered: bool,
}

impl ReloadSession {
    pub closed spec fn target_list(&self) -> Seq<Seq<char>> {
        string_views(self.targets@)
    }

    /// The target being tried.
    pub closed spec fn position(&self) -> int {
        self.index as int
    }

    /// Whether the delivery by piped input is the one being tried.
    pub closed spec fn on_fallback(&self) -> bool {
        self.fallback
    }

    /// Whether some target has accepted the colors.
    pub closed spec fn any_delivered(&self) -> bool {
        self.delivered
    }

    pub open spec fn wf(&self) -> bool {
        &&& 0 <= self.position() <= self.target_list().len()
        &&& self.on_fallback() ==> self.position() < self.target_list().len()
    }

    /// Deliveries left to try at most.
    pub open spec fn attempts_left(&self) -> int {
        2 * (self.target_list().len() - self.position()) - (if self.on_fallback() {
            1int
        } else {
            0
        })
    }

    /// A session over `targets` that has tried nothing yet.
    pub fn new(targets: Vec<String>) -> (r: Self)
        ensures
            r.wf(),
            r.target_list() == string_views(targets@),
            r.position() == 0,
            !r.on_fallback(),
            !r.any_delivered(),
    {
        ReloadSession { targets, index: 0, fallback: false, delivered: false }
    }

    /// The delivery to attempt now, or the outcome once all are tried.
    pub fn next_step(&self) -> (r: ReloadStep)
        requires
            self.wf(),
        ensures
            self.position() < self.target_list().len() && !self.on_fallback() ==> (r matches ReloadStep::ByPath(t) && t@ == self.target_list()[self.position()]),
            self.on_fallback() ==> (r matches ReloadStep::ByStdin(t) && t@ == self.target_list()[self.position()]),
            self.position() == self.target_list().len() ==> r == ReloadStep::Done(if self.any_delivered() {
                Ok::<(), ReloadError>(())
            } else {
                Err(ReloadError::NoSocketAccepted)
            }),
    {
        assert(self.targets@.len() == string_views(self.targets@).len());
        if self.index < self.targets.len() {
            let t = self.targets[self.index].clone();
            assert(t@ == self.target_list()[self.position()]);
            if self.fallback {
                ReloadStep::ByStdin(t)
            } else {
                ReloadStep::ByPath(t)
            }
        } else if self.delivered {
            ReloadStep::Done(Ok(()))
        } else {
            ReloadStep::Done(Err(ReloadError::NoSocketAccepted))
        }
    }

    /// Records whether the delivery just attempted was accepted.
    pub fn record(&mut self, accepted: bool)
        requires
            old(self).wf(),
            old(self).position() < old(self).target_list().len(),
        ensures
            final(self).wf(),
            final(self).target_list() == old(self).target_list(),
            final(self).attempts_left() < old(self).attempts_left(),
            final(self).any_delivered() == (old(self).any_delivered() || accepted),
            !old(self).on_fallback() && !accepted ==> final(self).position() == old(self).position()
                && final(self).on_fallback(),
            old(self).on_fallback() || accepted ==> final(self).position() == old(self).position()
                + 1 && !final(self).on_fallback(),
    {
        assert(self.targets@.len() == string_views(self.targets@).len());
        let n = self.targets.len();
        assert(self.index < n);
        if accepted {
            self.delivered = true;
            self.index = self.index + 1;
            self.fallback = false;
        } else if self.fallback {
            self.index = self.index + 1;
            self.fallback = false;
        } else {
            self.fallback = true;
        }
    }
}


/// Lines that, trimmed, are the include directive for `name`.
pub open spec fn include_line(name: Seq<char>) -> spec_fn(Seq<char>) -> bool {
    |l: Seq<char>| trim(l) == include_directive(name)
}

/// Lines that, trimmed, start with `allow_remote_control`.
pub open spec fn allow_line() -> spec_fn(Seq<char>) -> bool {
    |l: Seq<char>| starts_with(trim(l), "allow_remote_control"@)
}

/// A theme file name that fits on one line and survives trimming.
pub open spec fn plain_name(name: Seq<char>) -> bool {
    name.len() > 0 && !is_ws(name.last()) && !name.contains('\n')
}

proof fn lemma_preds(name: Seq<char>)
    requires
        plain_name(name),
    ensures
        line_pred(include_line(name)),
        line_pred(allow_line()),
{
    reveal_strlit("include ");
    reveal_strlit("allow_remote_control");
    assert forall|l: Seq<char>| #[trigger] include_line(name)(strip_cr(l)) == include_line(name)(l) by {
        lemma_trim_strip_cr(l);
    }
    assert forall|l: Seq<char>| #[trigger] allow_line()(strip_cr(l)) == allow_line()(l) by {
        lemma_trim_strip_cr(l);
    }
    assert(trim(Seq::<char>::empty()) == Seq::<char>::empty());
    assert(include_directive(name).len() > 0);
}

/// A one-line text whose first character is neither `i` nor `a` is neither
/// an include line nor an `allow_remote_control` line.
proof fn lemma_other_line(l: Seq<char>, name: Seq<char>)
    requires
        l.len() > 0,
        !is_ws(l[0]),
        l[0] != 'i',
        l[0] != 'a',
    ensures
        !include_line(name)(l),
        !allow_line()(l),
{
    reveal_strlit("include ");
    reveal_strlit("allow_remote_control");
    lemma_trim_first(l);
    assert(include_directive(name)[0] == 'i');
    assert("allow_remote_control"@[0] == 'a');
    if starts_with(trim(l), "allow_remote_control"@) {
        assert(trim(l).subrange(0, 20)[0] == trim(l)[0]);
    }
}

proof fn lemma_no_newline_concat(a: Seq<char>, b: Seq<char>)
    requires
        !a.contains('\n'),
        !b.contains('\n'),
    ensures
        !(a + b).contains('\n'),
{
    if (a + b).contains('\n') {
        let i = choose|i: int| 0 <= i < (a + b).len() && (a + b)[i] == '\n';
        if i < a.len() {
            assert(a[i] == '\n');
        } else {
            assert(b[i - a.len()] == '\n');
        }
    }
}

/// The counts after the include step.
proof fn lemma_include_counts(c: Seq<char>, name: Seq<char>)
    requires
        plain_name(name),
    ensures
        count_lines(lines(c), include_line(name)) > 0 ==> with_include(c, name) == c,
        count_lines(lines(c), include_line(name)) == 0 ==> count_lines(
            lines(with_include(c, name)),
            include_line(name),
        ) == 1,
        count_lines(lines(with_include(c, name)), allow_line()) == count_lines(
            lines(c),
            allow_line(),
        ),
{
    let dir = include_directive(name);
    lemma_preds(name);
    lemma_count_positive(lines(c), include_line(name));
    if !has_trimmed_line(lines(c), dir) {
        let l1 = "# Automatically included by color-listener"@;
        reveal_strlit("# Automatically included by color-listener");
        reveal_strlit("\n# Automatically included by color-listener\n");
        reveal_strlit("\n\n");
        reveal_strlit("include ");
        let y = l1.push('\n') + dir.push('\n') + seq!['\n'];
        assert(include_block(name) =~= seq!['\n'] + y);
        assert(c + include_block(name) =~= c + seq!['\n'] + y);
        assert(!l1.contains('\n'));
        assert(!"include "@.contains('\n'));
        lemma_no_newline_concat("include "@, name);
        lemma_scan_line(l1);
        lemma_scan_line(dir);
        lemma_scan_concat(l1.push('\n'), dir.push('\n'));
        assert(l1.push('\n') + dir.push('\n') + seq!['\n'] =~= (l1.push('\n') + dir.push('\n')).push(
            '\n',
        ));
        crate::text::lemma_scan_newline(l1.push('\n') + dir.push('\n'));
        let ys = line_scan(y).0;
        assert(ys =~= seq![strip_cr(l1), strip_cr(dir), strip_cr(Seq::<char>::empty())]);
        assert(strip_cr(l1) == l1);
        assert(dir.last() == name.last());
        assert(strip_cr(dir) == dir);
        assert(strip_cr(Seq::<char>::empty()) == Seq::<char>::empty());
        lemma_count_fresh(c, y, include_line(name));
        lemma_count_fresh(c, y, allow_line());
        lemma_other_line(l1, name);
        // The directive itself.
        assert(trim(dir) == dir) by {
            assert(!is_ws(dir[0]));
            assert(!is_ws(dir.last()));
        }
        assert(dir[0] == 'i');
        assert(!allow_line()(dir)) by {
            lemma_trim_first(dir);
            reveal_strlit("allow_remote_control");
            assert("allow_remote_control"@[0] == 'a');
            if starts_with(trim(dir), "allow_remote_control"@) {
                assert(trim(dir).subrange(0, 20)[0] == trim(dir)[0]);
            }
        }
        assert(ys.drop_last().drop_last().drop_last() =~= Seq::<Seq<char>>::empty());
        assert(ys.drop_last().drop_last().last() == l1);
        assert(ys.drop_last().last() == dir);
        assert(ys.last() == Seq::<char>::empty());
        assert(include_line(name)(dir));
        assert(!include_line(name)(Seq::<char>::empty()));
        assert(!allow_line()(Seq::<char>::empty()));
        let y1 = ys.drop_last().drop_last();
        assert(count_lines(y1.drop_last(), include_line(name)) == 0);
        assert(count_lines(y1.drop_last(), allow_line()) == 0);
        assert(count_lines(y1, include_line(name)) == 0);
        assert(count_lines(y1, allow_line()) == 0);
        assert(count_lines(ys.drop_last(), include_line(name)) == 1);
        assert(count_lines(ys.drop_last(), allow_line()) == 0);
        assert(count_lines(ys, include_line(name)) == 1);
        assert(count_lines(ys, allow_line()) == 0);
    }
}


/// Lines that, trimmed, start with `listen_on `.
pub open spec fn listen_on_line() -> spec_fn(Seq<char>) -> bool {
    |l: Seq<char>| starts_with(trim(l), "listen_on "@)
}

proof fn lemma_listen_pred()
    ensures
        line_pred(listen_on_line()),
{
    reveal_strlit("listen_on ");
    assert forall|l: Seq<char>| #[trigger] listen_on_line()(strip_cr(l)) == listen_on_line()(l) by {
        lemma_trim_strip_cr(l);
    }
    assert(trim(Seq::<char>::empty()) == Seq::<char>::empty());
}

/// A listen target exists exactly when some line is a `listen_on` line.
proof fn lemma_listen_some(ls: Seq<Seq<char>>)
    ensures
        listen_target(ls) is Some <==> count_lines(ls, listen_on_line()) > 0,
    decreases ls.len(),
{
    if ls.len() > 0 {
        lemma_listen_some(ls.drop_last());
    }
}

proof fn lemma_not_listen(l: Seq<char>)
    requires
        l.len() > 0,
        !is_ws(l[0]),
        l[0] != 'l',
    ensures
        !listen_on_line()(l),
{
    reveal_strlit("listen_on ");
    lemma_trim_first(l);
    if starts_with(trim(l), "listen_on "@) {
        assert(trim(l).subrange(0, 10)[0] == trim(l)[0]);
    }
}

proof fn lemma_listen_l5(user: Seq<char>)
    ensures
        listen_on_line()(strip_cr("listen_on "@ + default_socket(user))),
{
    reveal_strlit("listen_on ");
    reveal_strlit("unix:/tmp/kitty-");
    let l5 = "listen_on "@ + default_socket(user);
    let t = strip_cr(l5);
    assert(t[0] == 'l' && t[10] == 'u' && t.len() > 10) by {
        assert(l5[0] == 'l' && l5[10] == 'u');
        assert(l5.len() > 11);
    }
    lemma_trim_start_id(t);
    lemma_trim_end_prefix(t, 10);
    assert(trim(t).subrange(0, 10) =~= t.subrange(0, 10));
    assert(t.subrange(0, 10) =~= "listen_on "@);
}

proof fn lemma_trim_start_id(s: Seq<char>)
    requires
        s.len() > 0,
        !is_ws(s[0]),
    ensures
        trim_start(s) == s,
{
}

proof fn lemma_trim_end_prefix(s: Seq<char>, k: int)
    requires
        0 <= k < s.len(),
        !is_ws(s[k]),
    ensures
        trim_end(s).len() > k,
        trim_end(s).subrange(0, k + 1) == s.subrange(0, k + 1),
    decreases s.len(),
{
    if is_ws(s.last()) {
        assert(k < s.len() - 1);
        lemma_trim_end_prefix(s.drop_last(), k);
        assert(s.drop_last().subrange(0, k + 1) =~= s.subrange(0, k + 1));
    }
}

/// The counts after the remote-control step.
proof fn lemma_remote_counts(c1: Seq<char>, name: Seq<char>, user: Seq<char>)
    requires
        plain_name(name),
        !user.contains('\n'),
    ensures
        count_lines(lines(c1 + remote_block(c1, user)), include_line(name)) == count_lines(
            lines(c1),
            include_line(name),
        ),
        count_lines(lines(c1 + remote_block(c1, user)), allow_line()) == count_lines(
            lines(c1),
            allow_line(),
        ) + if count_lines(lines(c1), allow_line()) > 0 {
            0nat
        } else {
            1nat
        },
        count_lines(lines(c1 + remote_block(c1, user)), listen_on_line()) == count_lines(
            lines(c1),
            listen_on_line(),
        ) + if listen_target(lines(c1)) is Some {
            0nat
        } else {
            1nat
        },
{
    let inc = include_line(name);
    let allow = allow_line();
    let listen = listen_on_line();
    lemma_preds(name);
    lemma_listen_pred();
    lemma_count_positive(lines(c1), allow);
    reveal_strlit("# Enable remote control (added by color-listener)");
    reveal_strlit("allow_remote_control yes");
    reveal_strlit("\n# Enable remote control (added by color-listener)\nallow_remote_control yes\n");
    reveal_strlit("listen_on ");
    reveal_strlit("unix:/tmp/kitty-");
    reveal_strlit("\n");
    reveal_strlit("include ");
    reveal_strlit("allow_remote_control");
    let l3 = "# Enable remote control (added by color-listener)"@;
    let l4 = "allow_remote_control yes"@;
    let l5 = "listen_on "@ + default_socket(user);
    assert(allow_block() =~= seq!['\n'] + (l3.push('\n') + l4.push('\n')));
    assert(listen_line(user) =~= l5.push('\n'));
    assert(!l3.contains('\n'));
    assert(!l4.contains('\n'));
    assert(!"unix:/tmp/kitty-"@.contains('\n'));
    assert(!"listen_on "@.contains('\n'));
    lemma_no_newline_concat("unix:/tmp/kitty-"@, user);
    lemma_no_newline_concat("listen_on "@, default_socket(user));
    lemma_scan_line(l3);
    lemma_scan_line(l4);
    lemma_scan_line(l5);
    lemma_scan_concat(l3.push('\n'), l4.push('\n'));
    let a = l3.push('\n') + l4.push('\n');
    lemma_scan_concat(a, l5.push('\n'));
    assert(strip_cr(l3) == l3);
    assert(strip_cr(l4) == l4);
    // What each added line matches.
    lemma_other_line(l3, name);
    lemma_other_line(l5, name);
    assert(l5[0] == 'l');
    assert(strip_cr(l5).len() > 0 && strip_cr(l5)[0] == 'l') by {
        if l5.last() == '\r' {
            assert(strip_cr(l5)[0] == l5[0]);
        }
    }
    lemma_other_line(strip_cr(l5), name);
    assert(!inc(l4)) by {
        lemma_trim_first(l4);
        assert(include_directive(name)[0] == 'i');
    }
    assert(allow(l4)) by {
        assert(trim(l4) == l4) by {
            assert(!is_ws(l4[0]));
            assert(!is_ws(l4.last()));
        }
        assert(l4.subrange(0, 20) =~= "allow_remote_control"@);
    }
    let la = line_scan(a).0;
    let lal = line_scan(a + l5.push('\n')).0;
    let ll = line_scan(l5.push('\n')).0;
    assert(la =~= seq![l3, l4]);
    assert(lal =~= seq![l3, l4, strip_cr(l5)]);
    assert(ll =~= seq![strip_cr(l5)]);
    assert(la.drop_last().drop_last() =~= Seq::<Seq<char>>::empty());
    assert(lal.drop_last() =~= la);
    assert(ll.drop_last() =~= Seq::<Seq<char>>::empty());
    assert(la.drop_last().last() == l3);
    assert(la.last() == l4);
    assert(count_lines(la.drop_last().drop_last(), inc) == 0);
    assert(count_lines(la.drop_last().drop_last(), allow) == 0);
    assert(!inc(l3) && !allow(l3));
    assert(count_lines(la.drop_last(), inc) == 0);
    assert(count_lines(la.drop_last(), allow) == 0);
    assert(count_lines(la, inc) == 0);
    assert(count_lines(la, allow) == 1);
    assert(count_lines(lal, inc) == 0);
    assert(count_lines(lal, allow) == 1);
    assert(count_lines(ll, inc) == 0);
    assert(count_lines(ll, allow) == 0);
    lemma_not_listen(l3);
    lemma_not_listen(l4);
    lemma_listen_l5(user);
    assert(count_lines(la.drop_last().drop_last(), listen) == 0);
    assert(!listen(l3) && !listen(l4));
    assert(count_lines(la.drop_last(), listen) == 0);
    assert(count_lines(la, listen) == 0);
    assert(count_lines(lal, listen) == 1);
    assert(count_lines(ll, listen) == 1);
    let ls = lines(c1);
    let has_allow = has_line_starting(ls, "allow_remote_control"@);
    assert(has_allow == (count_lines(ls, allow) > 0));
    let r = remote_block(c1, user);
    if !has_allow {
        if listen_target(ls) is Some {
            assert(c1 + r =~= c1 + seq!['\n'] + a);
            lemma_count_fresh(c1, a, inc);
            lemma_count_fresh(c1, a, allow);
            lemma_count_fresh(c1, a, listen);
        } else {
            assert(c1 + r =~= c1 + seq!['\n'] + (a + l5.push('\n')));
            lemma_count_fresh(c1, a + l5.push('\n'), inc);
            lemma_count_fresh(c1, a + l5.push('\n'), allow);
            lemma_count_fresh(c1, a + l5.push('\n'), listen);
        }
    } else {
        if listen_target(ls) is Some {
            assert(c1 + r =~= c1);
        } else if !ends_line(c1) {
            assert(c1 + r =~= c1 + seq!['\n'] + l5.push('\n'));
            lemma_count_fresh(c1, l5.push('\n'), inc);
            lemma_count_fresh(c1, l5.push('\n'), allow);
            lemma_count_fresh(c1, l5.push('\n'), listen);
        } else {
            assert(c1 + r =~= c1 + l5.push('\n'));
            lemma_count_after_end(c1, l5.push('\n'), inc);
            lemma_count_after_end(c1, l5.push('\n'), allow);
            lemma_count_after_end(c1, l5.push('\n'), listen);
        }
    }
}

/// Updating `kitty.conf` twice leaves exactly one include line for the
/// theme file and exactly one `allow_remote_control` line, when the file
/// held at most one of each to begin with.
pub proof fn lemma_kitty_update_twice(c: Seq<char>, name: Seq<char>, user: Seq<char>)
    requires
        plain_name(name),
        !user.contains('\n'),
        count_lines(lines(c), include_line(name)) <= 1,
        count_lines(lines(c), allow_line()) <= 1,
    ensures
        count_lines(lines(updated_conf(updated_conf(c, name, user), name, user)), include_line(name))
            == 1,
        count_lines(lines(updated_conf(updated_conf(c, name, user), name, user)), allow_line())
            == 1,
{
    lemma_update_counts(c, name, user);
    lemma_update_counts(updated_conf(c, name, user), name, user);
}

/// One update leaves exactly one of each, from at most one of each.
pub proof fn lemma_update_counts(c: Seq<char>, name: Seq<char>, user: Seq<char>)
    requires
        plain_name(name),
        !user.contains('\n'),
        count_lines(lines(c), include_line(name)) <= 1,
        count_lines(lines(c), allow_line()) <= 1,
    ensures
        count_lines(lines(updated_conf(c, name, user)), include_line(name)) == 1,
        count_lines(lines(updated_conf(c, name, user)), allow_line()) == 1,
{
    lemma_include_counts(c, name);
    lemma_remote_counts(with_include(c, name), name, user);
}

/// A second update of `kitty.conf` with the same theme name and user
/// changes nothing: the updated text already includes the theme, allows
/// remote control and names a socket.
pub proof fn lemma_kitty_update_fixed_point(c: Seq<char>, name: Seq<char>, user: Seq<char>)
    requires
        plain_name(name),
        !user.contains('\n'),
    ensures
        updated_conf(updated_conf(c, name, user), name, user) == updated_conf(c, name, user),
{
    let c1 = with_include(c, name);
    let u = updated_conf(c, name, user);
    lemma_include_counts(c, name);
    lemma_remote_counts(c1, name, user);
    lemma_preds(name);
    lemma_listen_some(lines(c1));
    lemma_listen_some(lines(u));
    // The include is in `c` or was appended to it.
    if count_lines(lines(c), include_line(name)) > 0 {
        assert(c1 == c);
    }
    assert(count_lines(lines(c1), include_line(name)) > 0);
    assert(count_lines(lines(u), include_line(name)) > 0);
    lemma_count_positive(lines(u), include_line(name));
    lemma_count_positive(lines(u), allow_line());
    assert(has_trimmed_line(lines(u), include_directive(name))) by {
        let i = choose|i: int| 0 <= i < lines(u).len() && include_line(name)(#[trigger] lines(u)[i]);
        assert(trim(lines(u)[i]) == include_directive(name));
    }
    assert(with_include(u, name) == u);
    assert(count_lines(lines(u), allow_line()) > 0);
    assert(has_line_starting(lines(u), "allow_remote_control"@)) by {
        let i = choose|i: int| 0 <= i < lines(u).len() && allow_line()(#[trigger] lines(u)[i]);
        assert(starts_with(trim(lines(u)[i]), "allow_remote_control"@));
    }
    assert(listen_target(lines(u)) is Some);
    assert(remote_block(u, user) =~= Seq::<char>::empty());
    assert(u + remote_block(u, user) =~= u);
}

} // verus!
