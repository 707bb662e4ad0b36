//! Character-sequence helpers shared by the parsers and renderers: whitespace,
//! trimming, prefixes, line splitting, and moving text between `&str`,
//! `String` and `Vec<char>`.

use vstd::prelude::*;

verus! {

/// Whitespace as `char::is_whitespace` defines it: the Unicode `White_Space` property.
pub open spec fn is_ws(c: char) -> bool {
    ('\t' <= c && c <= '\r') || c == ' ' || c == '\u{85}' || c == '\u{a0}' || c == '\u{1680}'
        || ('\u{2000}' <= c && c <= '\u{200a}') || c == '\u{2028}' || c == '\u{2029}'
        || c == '\u{202f}' || c == '\u{205f}' || c == '\u{3000}'
}

pub fn is_whitespace_char(c: char) -> (r: bool)
    ensures
        r == is_ws(c),
{
    ('\t' <= c && c <= '\r') || c == ' ' || c == '\u{85}' || c == '\u{a0}' || c == '\u{1680}'
        || ('\u{2000}' <= c && c <= '\u{200a}') || c == '\u{2028}' || c == '\u{2029}'
        || c == '\u{202f}' || c == '\u{205f}' || c == '\u{3000}'
}

/// `s` with its leading whitespace removed.
pub open spec fn trim_start(s: Seq<char>) -> Seq<char>
    decreases s.len(),
{
    if s.len() > 0 && is_ws(s[0]) {
        trim_start(s.drop_first())
    } else {
        s
    }
}

/// `s` with its trailing whitespace removed.
pub open spec fn trim_end(s: Seq<char>) -> Seq<char>
    decreases s.len(),
{
    if s.len() > 0 && is_ws(s.last()) {
        trim_end(s.drop_last())
    } else {
        s
    }
}

/// `s` with whitespace removed at both ends.
pub open spec fn trim(s: Seq<char>) -> Seq<char> {
    trim_end(trim_start(s))
}

pub open spec fn starts_with(s: Seq<char>, p: Seq<char>) -> bool {
    p.len() <= s.len() && s.subrange(0, p.len() as int) == p
}

/// Drops the carriage return of a `\r\n` line ending.
pub open spec fn strip_cr(l: Seq<char>) -> Seq<char> {
    if l.len() > 0 && l.last() == '\r' {
        l.drop_last()
    } else {
        l
    }
}

/// Reading `s` left to right: the lines ended by a `\n` so far, and the
/// unfinished text after the last `\n`.
pub open spec fn line_scan(s: Seq<char>) -> (Seq<Seq<char>>, Seq<char>)
    decreases s.len(),
{
    if s.len() == 0 {
        (Seq::empty(), Seq::empty())
    } else {
        let (done, cur) = line_scan(s.drop_last());
        if s.last() == '\n' {
            (done.push(strip_cr(cur)), Seq::empty())
        } else {
            (done, cur.push(s.last()))
        }
    }
}

/// The lines of `s` as `str::lines` yields them: split at `\n` or `\r\n`,
/// with the final line ending optional.
pub open spec fn lines(s: Seq<char>) -> Seq<Seq<char>> {
    let (done, cur) = line_scan(s);
    if cur.len() == 0 {
        done
    } else {
        done.push(cur)
    }
}

/// The character sequences held by a vector of lines.
pub open spec fn views(v: Seq<Vec<char>>) -> Seq<Seq<char>> {
    v.map_values(|l: Vec<char>| l@)
}

/// Relies on `String::push`: appends one character.
#[verifier::external_body]
fn push_char(s: &mut String, c: char)
    ensures
        final(s)@ == old(s)@.push(c),
{
    s.push(c)
}

/// The characters of `s`, in order.
pub fn chars_of(s: &str) -> (r: Vec<char>)
    ensures
        r@ == s@,
{
    let mut r: Vec<char> = Vec::new();
    for c in it: s.chars()
        invariant
            it.seq() == s@,
            r@ == it.seq().subrange(0, it.index() as int),
    {
        r.push(c);
    }
    r
}

/// A `String` holding the characters of `v`.
pub fn string_of(v: &Vec<char>) -> (r: String)
    ensures
        r@ == v@,
{
    let mut r = String::new();
    let mut i: usize = 0;
    while i < v.len()
        invariant
            i <= v.len(),
            r@ == v@.subrange(0, i as int),
        decreases v.len() - i,
    {
        push_char(&mut r, v[i]);
        i += 1;
        assert(r@ =~= v@.subrange(0, i as int));
    }
    assert(v@.subrange(0, v.len() as int) =~= v@);
    r
}

/// Appends the characters of `s` to `out`.
pub fn extend_str(out: &mut Vec<char>, s: &str)
    ensures
        final(out)@ == old(out)@ + s@,
{
    let ghost start = out@;
    for c in it: s.chars()
        invariant
            it.seq() == s@,
            out@ == start + it.seq().subrange(0, it.index() as int),
    {
        out.push(c);
    }
}

/// Appends `s[lo..hi]` to `out`.
pub fn extend_range(out: &mut Vec<char>, s: &Vec<char>, lo: usize, hi: usize)
    requires
        lo <= hi <= s.len(),
    ensures
        final(out)@ == old(out)@ + s@.subrange(lo as int, hi as int),
{
    let ghost start = out@;
    let mut i = lo;
    while i < hi
        invariant
            lo <= i <= hi <= s.len(),
            out@ == start + s@.subrange(lo as int, i as int),
        decreases hi - i,
    {
        out.push(s[i]);
        i += 1;
        assert(out@ =~= start + s@.subrange(lo as int, i as int));
    }
}

/// Appends all of `s` to `out`.
pub fn extend_chars(out: &mut Vec<char>, s: &Vec<char>)
    ensures
        final(out)@ == old(out)@ + s@,
{
    extend_range(out, s, 0, s.len());
    assert(s@.subrange(0, s.len() as int) =~= s@);
}

/// Index of the first character of `s[lo..hi]` that is not whitespace.
pub fn skip_ws(s: &Vec<char>, lo: usize, hi: usize) -> (k: usize)
    requires
        lo <= hi <= s.len(),
    ensures
        lo <= k <= hi,
        trim_start(s@.subrange(lo as int, hi as int)) == s@.subrange(k as int, hi as int),
{
    let mut k = lo;
    while k < hi && is_whitespace_char(s[k])
        invariant
            lo <= k <= hi <= s.len(),
            trim_start(s@.subrange(lo as int, hi as int)) == trim_start(
                s@.subrange(k as int, hi as int),
            ),
        decreases hi - k,
    {
        assert(s@.subrange(k as int, hi as int).drop_first() =~= s@.subrange(
            k + 1,
            hi as int,
        ));
        k += 1;
    }
    k
}

/// End of `s[lo..hi]` once its trailing whitespace is removed.
pub fn skip_ws_back(s: &Vec<char>, lo: usize, hi: usize) -> (k: usize)
    requires
        lo <= hi <= s.len(),
    ensures
        lo <= k <= hi,
        trim_end(s@.subrange(lo as int, hi as int)) == s@.subrange(lo as int, k as int),
{
    let mut k = hi;
    while k > lo && is_whitespace_char(s[k - 1])
        invariant
            lo <= k <= hi <= s.len(),
            trim_end(s@.subrange(lo as int, hi as int)) == trim_end(
                s@.subrange(lo as int, k as int),
            ),
        decreases k - lo,
    {
        assert(s@.subrange(lo as int, k as int).drop_last() =~= s@.subrange(
            lo as int,
            k - 1,
        ));
        k -= 1;
    }
    k
}

/// Whether `s[lo..hi]` starts with `p`.
pub fn range_starts_with(s: &Vec<char>, lo: usize, hi: usize, p: &Vec<char>) -> (r: bool)
    requires
        lo <= hi <= s.len(),
    ensures
        r == starts_with(s@.subrange(lo as int, hi as int), p@),
{
    if p.len() > hi - lo {
        return false;
    }
    let mut i: usize = 0;
    while i < p.len()
        invariant
            i <= p.len() <= hi - lo,
            lo <= hi <= s.len(),
            forall|j: int| 0 <= j < i ==> s@[lo + j] == p@[j],
        decreases p.len() - i,
    {
        if s[lo + i] != p[i] {
            assert(s@.subrange(lo as int, hi as int).subrange(0, p.len() as int)[i as int] != p@[i as int]);
            return false;
        }
        i += 1;
    }
    assert(s@.subrange(lo as int, hi as int).subrange(0, p.len() as int) =~= p@);
    true
}

/// Whether `s[lo..hi]` equals `p`.
pub fn range_equals(s: &Vec<char>, lo: usize, hi: usize, p: &Vec<char>) -> (r: bool)
    requires
        lo <= hi <= s.len(),
    ensures
        r == (s@.subrange(lo as int, hi as int) == p@),
{
    if p.len() != hi - lo {
        return false;
    }
    let b = range_starts_with(s, lo, hi, p);
    proof {
        assert(s@.subrange(lo as int, hi as int).subrange(0, p.len() as int) =~= s@.subrange(
            lo as int,
            hi as int,
        ));
    }
    b
}


/// Splits `s` into lines as `str::lines` does.
pub fn split_lines(s: &Vec<char>) -> (r: Vec<Vec<char>>)
    ensures
        views(r@) == lines(s@),
{
    let mut done: Vec<Vec<char>> = Vec::new();
    let mut cur: Vec<char> = Vec::new();
    let mut i: usize = 0;
    while i < s.len()
        invariant
            i <= s.len(),
            (views(done@), cur@) == line_scan(s@.subrange(0, i as int)),
        decreases s.len() - i,
    {
        let c = s[i];
        proof {
            let t = s@.subrange(0, i + 1);
            assert(t.drop_last() =~= s@.subrange(0, i as int));
            assert(t.last() == c);
        }
        if c == '\n' {
            if cur.len() > 0 && cur[cur.len() - 1] == '\r' {
                cur.pop();
            }
            let ghost before = done@;
            let line = cur;
            done.push(line);
            cur = Vec::new();
            assert(views(done@) =~= views(before).push(line@));
        } else {
            cur.push(c);
        }
        i += 1;
    }
    assert(s@.subrange(0, s.len() as int) =~= s@);
    if cur.len() > 0 {
        let ghost before = done@;
        let ghost last = cur@;
        done.push(cur);
        assert(views(done@) =~= views(before).push(last));
    }
    done
}


/// What `str::to_lowercase` makes of a character sequence.
pub uninterp spec fn lower_of(s: Seq<char>) -> Seq<char>;

/// Relies on `str::to_lowercase`: the Unicode lower-case mapping, which
/// depends on the characters alone.
#[verifier::external_body]
pub(crate) fn lowercase(s: &str) -> (r: String)
    ensures
        r@ == lower_of(s@),
{
    s.to_lowercase()
}

/// Whether two strings hold the same characters.
pub fn str_eq(a: &str, b: &str) -> (r: bool)
    ensures
        r == (a@ == b@),
{
    let x = chars_of(a);
    let y = chars_of(b);
    assert(x@.subrange(0, x.len() as int) =~= x@);
    range_equals(&x, 0, x.len(), &y)
}

/// Reading `s` left to right: the fields ended by a `,` so far, and the
/// field being read.
pub open spec fn comma_scan(s: Seq<char>) -> (Seq<Seq<char>>, Seq<char>)
    decreases s.len(),
{
    if s.len() == 0 {
        (Seq::empty(), Seq::empty())
    } else {
        let (done, cur) = comma_scan(s.drop_last());
        if s.last() == ',' {
            (done.push(cur), Seq::empty())
        } else {
            (done, cur.push(s.last()))
        }
    }
}

/// The fields of `s` as `str::split(',')` yields them: one more than it has commas.
pub open spec fn comma_fields(s: Seq<char>) -> Seq<Seq<char>> {
    let (done, cur) = comma_scan(s);
    done.push(cur)
}

/// Splits `s` at each `,`.
pub fn split_commas(s: &str) -> (r: Vec<Vec<char>>)
    ensures
        views(r@) == comma_fields(s@),
{
    let v = chars_of(s);
    let mut done: Vec<Vec<char>> = Vec::new();
    let mut cur: Vec<char> = Vec::new();
    let mut i: usize = 0;
    while i < v.len()
        invariant
            i <= v.len(),
            (views(done@), cur@) == comma_scan(v@.subrange(0, i as int)),
        decreases v.len() - i,
    {
        let c = v[i];
        proof {
            let t = v@.subrange(0, i + 1);
            assert(t.drop_last() =~= v@.subrange(0, i as int));
            assert(t.last() == c);
        }
        if c == ',' {
            let ghost before = done@;
            let field = cur;
            done.push(field);
            cur = Vec::new();
            assert(views(done@) =~= views(before).push(field@));
        } else {
            cur.push(c);
        }
        i += 1;
    }
    assert(v@.subrange(0, v.len() as int) =~= v@);
    let ghost before = done@;
    let ghost last = cur@;
    done.push(cur);
    assert(views(done@) =~= views(before).push(last));
    done
}


/// How many lines of `ls` satisfy `f`.
pub open spec fn count_lines(ls: Seq<Seq<char>>, f: spec_fn(Seq<char>) -> bool) -> nat
    decreases ls.len(),
{
    if ls.len() == 0 {
        0
    } else {
        count_lines(ls.drop_last(), f) + if f(ls.last()) {
            1nat
        } else {
            0nat
        }
    }
}

/// A line predicate that no empty line meets and that ignores a `\r` ending.
pub open spec fn line_pred(f: spec_fn(Seq<char>) -> bool) -> bool {
    &&& !f(Seq::empty())
    &&& forall|l: Seq<char>| #[trigger] f(strip_cr(l)) == f(l)
}

pub proof fn lemma_count_concat(a: Seq<Seq<char>>, b: Seq<Seq<char>>, f: spec_fn(Seq<char>) -> bool)
    ensures
        count_lines(a + b, f) == count_lines(a, f) + count_lines(b, f),
    decreases b.len(),
{
    if b.len() == 0 {
        assert(a + b =~= a);
    } else {
        lemma_count_concat(a, b.drop_last(), f);
        assert((a + b).drop_last() =~= a + b.drop_last());
    }
}

pub proof fn lemma_count_positive(ls: Seq<Seq<char>>, f: spec_fn(Seq<char>) -> bool)
    ensures
        count_lines(ls, f) > 0 <==> exists|i: int| 0 <= i < ls.len() && f(#[trigger] ls[i]),
    decreases ls.len(),
{
    if ls.len() > 0 {
        let p = ls.drop_last();
        lemma_count_positive(p, f);
        if count_lines(p, f) > 0 {
            let i = choose|i: int| 0 <= i < p.len() && f(#[trigger] p[i]);
            assert(ls[i] == p[i]);
        }
        if exists|i: int| 0 <= i < ls.len() && f(#[trigger] ls[i]) {
            let i = choose|i: int| 0 <= i < ls.len() && f(#[trigger] ls[i]);
            if i < ls.len() - 1 {
                assert(p[i] == ls[i]);
            }
        }
    }
}

pub proof fn lemma_scan_no_newline(s: Seq<char>)
    requires
        !s.contains('\n'),
    ensures
        line_scan(s) == (Seq::<Seq<char>>::empty(), s),
    decreases s.len(),
{
    if s.len() > 0 {
        let p = s.drop_last();
        assert(!p.contains('\n')) by {
            if p.contains('\n') {
                let i = choose|i: int| 0 <= i < p.len() && p[i] == '\n';
                assert(s[i] == '\n');
            }
        }
        lemma_scan_no_newline(p);
        assert(s[s.len() - 1] == s.last());
        assert(p.push(s.last()) =~= s);
    }
}

pub proof fn lemma_scan_concat(a: Seq<char>, b: Seq<char>)
    requires
        line_scan(a).1 == Seq::<char>::empty(),
    ensures
        line_scan(a + b) == (line_scan(a).0 + line_scan(b).0, line_scan(b).1),
    decreases b.len(),
{
    if b.len() == 0 {
        assert(a + b =~= a);
        assert(line_scan(a).0 + line_scan(b).0 =~= line_scan(a).0);
    } else {
        lemma_scan_concat(a, b.drop_last());
        assert((a + b).drop_last() =~= a + b.drop_last());
        assert((a + b).last() == b.last());
        let (bd, bc) = line_scan(b.drop_last());
        assert((line_scan(a).0 + bd).push(strip_cr(bc)) =~= line_scan(a).0 + bd.push(strip_cr(bc)));
    }
}

pub proof fn lemma_scan_newline(a: Seq<char>)
    ensures
        line_scan(a.push('\n')) == (
            line_scan(a).0.push(strip_cr(line_scan(a).1)),
            Seq::<char>::empty(),
        ),
{
    assert(a.push('\n').drop_last() =~= a);
}

/// The scan of one line and its `\n`.
pub proof fn lemma_scan_line(l: Seq<char>)
    requires
        !l.contains('\n'),
    ensures
        line_scan(l.push('\n')) == (seq![strip_cr(l)], Seq::<char>::empty()),
{
    lemma_scan_no_newline(l);
    lemma_scan_newline(l);
    assert(Seq::<Seq<char>>::empty().push(strip_cr(l)) =~= seq![strip_cr(l)]);
}

pub proof fn lemma_ends_line_scan(c: Seq<char>)
    requires
        c.len() == 0 || c.last() == '\n',
    ensures
        line_scan(c).1 == Seq::<char>::empty(),
        lines(c) == line_scan(c).0,
{
}

/// Appending text that starts a new line adds its lines' matches to those of `c`.
pub proof fn lemma_count_fresh(c: Seq<char>, y: Seq<char>, f: spec_fn(Seq<char>) -> bool)
    requires
        line_pred(f),
        line_scan(y).1 == Seq::<char>::empty(),
    ensures
        count_lines(lines(c + seq!['\n'] + y), f) == count_lines(lines(c), f) + count_lines(
            line_scan(y).0,
            f,
        ),
{
    let (d, cur) = line_scan(c);
    lemma_scan_newline(c);
    assert(c + seq!['\n'] =~= c.push('\n'));
    lemma_scan_concat(c.push('\n'), y);
    assert(c + seq!['\n'] + y =~= c.push('\n') + y);
    lemma_count_concat(d.push(strip_cr(cur)), line_scan(y).0, f);
    assert(d.push(strip_cr(cur)).drop_last() =~= d);
    assert(f(strip_cr(cur)) == f(cur));
    if cur.len() == 0 {
        assert(cur =~= Seq::<char>::empty());
    } else {
        assert(d.push(cur).drop_last() =~= d);
    }
}

/// Appending text after a finished line adds its lines' matches to those of `c`.
pub proof fn lemma_count_after_end(c: Seq<char>, y: Seq<char>, f: spec_fn(Seq<char>) -> bool)
    requires
        c.len() == 0 || c.last() == '\n',
        line_scan(y).1 == Seq::<char>::empty(),
    ensures
        count_lines(lines(c + y), f) == count_lines(lines(c), f) + count_lines(line_scan(y).0, f),
{
    lemma_ends_line_scan(c);
    lemma_scan_concat(c, y);
    lemma_count_concat(line_scan(c).0, line_scan(y).0, f);
}

pub proof fn lemma_trim_start_push(s: Seq<char>, c: char)
    ensures
        trim_start(s.push(c)) == if trim_start(s).len() == 0 {
            if is_ws(c) {
                Seq::<char>::empty()
            } else {
                seq![c]
            }
        } else {
            trim_start(s).push(c)
        },
    decreases s.len(),
{
    if s.len() == 0 {
        assert(s.push(c) =~= seq![c]);
        assert(seq![c].drop_first() =~= Seq::<char>::empty());
        assert(trim_start(Seq::<char>::empty()) == Seq::<char>::empty());
        assert(trim_start(s) == s);
    } else {
        assert(s.push(c)[0] == s[0]);
        if is_ws(s[0]) {
            assert(s.push(c).drop_first() =~= s.drop_first().push(c));
            lemma_trim_start_push(s.drop_first(), c);
        }
    }
}

/// Whitespace at the end does not change the trimmed text.
pub proof fn lemma_trim_push_ws(s: Seq<char>, c: char)
    requires
        is_ws(c),
    ensures
        trim(s.push(c)) == trim(s),
{
    lemma_trim_start_push(s, c);
    if trim_start(s).len() > 0 {
        assert(trim_start(s).push(c).drop_last() =~= trim_start(s));
    } else {
        assert(trim_start(s) =~= Seq::<char>::empty());
    }
}

pub proof fn lemma_trim_strip_cr(l: Seq<char>)
    ensures
        trim(strip_cr(l)) == trim(l),
{
    if l.len() > 0 && l.last() == '\r' {
        lemma_trim_push_ws(l.drop_last(), '\r');
        assert(l.drop_last().push('\r') =~= l);
    }
}

pub proof fn lemma_trim_end_first(s: Seq<char>)
    requires
        s.len() > 0,
        !is_ws(s[0]),
    ensures
        trim_end(s).len() > 0,
        trim_end(s)[0] == s[0],
    decreases s.len(),
{
    if is_ws(s.last()) {
        assert(s.len() > 1);
        assert(s.drop_last()[0] == s[0]);
        lemma_trim_end_first(s.drop_last());
    }
}

/// A line that starts with a non-space keeps its first character when trimmed.
pub proof fn lemma_trim_first(l: Seq<char>)
    requires
        l.len() > 0,
        !is_ws(l[0]),
    ensures
        trim(l).len() > 0,
        trim(l)[0] == l[0],
{
    lemma_trim_end_first(l);
}

} // verus!
