//! Characters, whitespace and tokens of mesh text.

use vstd::prelude::*;

verus! {

broadcast use vstd::string::group_string_axioms;

/// Unicode `White_Space`: the characters that separate tokens.
pub open spec fn is_space(c: char) -> bool {
    ||| ('\u{9}' <= c && c <= '\u{d}')
    ||| c == ' '
    ||| c == '\u{85}'
    ||| c == '\u{a0}'
    ||| c == '\u{1680}'
    ||| ('\u{2000}' <= c && c <= '\u{200a}')
    ||| c == '\u{2028}'
    ||| c == '\u{2029}'
    ||| c == '\u{202f}'
    ||| c == '\u{205f}'
    ||| c == '\u{3000}'
}

pub fn space(c: char) -> (r: bool)
    ensures
        r == is_space(c),
{
    ('\u{9}' <= c && c <= '\u{d}') || c == ' ' || c == '\u{85}' || c == '\u{a0}' || c == '\u{1680}'
        || ('\u{2000}' <= c && c <= '\u{200a}') || c == '\u{2028}' || c == '\u{2029}' || c
        == '\u{202f}' || c == '\u{205f}' || c == '\u{3000}'
}

/// The characters of `s`, in order.
pub fn chars_of(s: &str) -> (r: Vec<char>)
    ensures
        r@ == s@,
{
    let mut r: Vec<char> = Vec::new();
    for c in it: s.chars()
        invariant
            r@ == it.seq().take(it.index() as int),
    {
        r.push(c);
    }
    r
}

/// The token being read, if it is not empty, as a list of tokens.
pub open spec fn flush(cur: Seq<char>) -> Seq<Seq<char>> {
    if cur.len() == 0 {
        seq![]
    } else {
        seq![cur]
    }
}

/// The tokens of `cur + s`, where `cur` is the unfinished token that `s`
/// continues.
pub open spec fn tokens_after(s: Seq<char>, cur: Seq<char>) -> Seq<Seq<char>>
    decreases s.len(),
{
    if s.len() == 0 {
        flush(cur)
    } else if is_space(s[0]) {
        flush(cur) + tokens_after(s.drop_first(), seq![])
    } else {
        tokens_after(s.drop_first(), cur.push(s[0]))
    }
}

/// The maximal runs of non-whitespace characters of `s`, in order.
pub open spec fn tokens(s: Seq<char>) -> Seq<Seq<char>> {
    tokens_after(s, seq![])
}

/// The lines of `cur + s`, where `cur` is the start of the line that `s`
/// continues.
pub open spec fn lines_after(s: Seq<char>, cur: Seq<char>) -> Seq<Seq<char>>
    decreases s.len(),
{
    if s.len() == 0 {
        seq![cur]
    } else if s[0] == '\n' {
        seq![cur] + lines_after(s.drop_first(), seq![])
    } else {
        lines_after(s.drop_first(), cur.push(s[0]))
    }
}

/// The pieces of `s` between line feeds; the last may be empty.
pub open spec fn lines(s: Seq<char>) -> Seq<Seq<char>> {
    lines_after(s, seq![])
}

/// A stretch without line feeds joins the line being read.
pub proof fn lemma_lines_stretch(s: Seq<char>, cur: Seq<char>, k: int)
    requires
        0 <= k <= s.len(),
        forall|j: int| 0 <= j < k ==> s[j] != '\n',
    ensures
        lines_after(s, cur) == lines_after(s.skip(k), cur + s.take(k)),
    decreases k,
{
    if k == 0 {
        assert(s.skip(0) =~= s);
        assert(cur + s.take(0) =~= cur);
    } else {
        let r = s.drop_first();
        lemma_lines_stretch(r, cur.push(s[0]), k - 1);
        assert(r.skip(k - 1) =~= s.skip(k));
        assert(cur.push(s[0]) + r.take(k - 1) =~= cur + s.take(k));
    }
}

/// The position of the first line feed in `t[from..]`, or the length of `t`.
pub fn line_end(t: &Vec<char>, from: usize) -> (r: usize)
    requires
        from <= t@.len(),
    ensures
        from <= r <= t@.len(),
        forall|k: int| from <= k < r ==> t@[k] != '\n',
        r < t@.len() ==> t@[r as int] == '\n',
{
    let mut i = from;
    while i < t.len()
        invariant
            from <= i <= t@.len(),
            forall|k: int| from <= k < i ==> t@[k] != '\n',
        decreases t@.len() - i,
    {
        if t[i] == '\n' {
            return i;
        }
        i = i + 1;
    }
    i
}

/// The start and end of each token of `t[lo..hi]`, in order.
pub fn token_bounds(t: &Vec<char>, lo: usize, hi: usize) -> (r: Vec<(usize, usize)>)
    requires
        lo <= hi <= t@.len(),
    ensures
        r@.len() == tokens(t@.subrange(lo as int, hi as int)).len(),
        forall|k: int|
            0 <= k < r@.len() ==> lo <= (#[trigger] r@[k]).0 < r@[k].1 <= hi && t@.subrange(
                r@[k].0 as int,
                r@[k].1 as int,
            ) == tokens(t@.subrange(lo as int, hi as int))[k],
{
    let ghost all = tokens(t@.subrange(lo as int, hi as int));
    let ghost mut done: Seq<Seq<char>> = seq![];
    let mut r: Vec<(usize, usize)> = Vec::new();
    let mut start = lo;
    let mut i = lo;
    assert(t@.subrange(lo as int, hi as int) =~= t@.subrange(i as int, hi as int));
    assert(t@.subrange(start as int, i as int) =~= seq![]);
    assert(done + tokens_after(t@.subrange(i as int, hi as int), t@.subrange(start as int, i as int))
        =~= all);
    while i < hi
        invariant
            lo <= start <= i <= hi <= t@.len(),
            all == tokens(t@.subrange(lo as int, hi as int)),
            all == done + tokens_after(
                t@.subrange(i as int, hi as int),
                t@.subrange(start as int, i as int),
            ),
            done.len() == r@.len(),
            forall|k: int|
                0 <= k < r@.len() ==> lo <= (#[trigger] r@[k]).0 < r@[k].1 <= start && t@.subrange(
                    r@[k].0 as int,
                    r@[k].1 as int,
                ) == done[k],
        decreases hi - i,
    {
        let ghost rest = t@.subrange(i as int, hi as int);
        let ghost cur = t@.subrange(start as int, i as int);
        assert(rest.drop_first() =~= t@.subrange(i + 1, hi as int));
        assert(rest[0] == t@[i as int]);
        if space(t[i]) {
            if start < i {
                r.push((start, i));
                proof {
                    done = done.push(cur);
                }
            }
            proof {
                assert(all == done + tokens_after(t@.subrange(i + 1, hi as int), seq![]));
            }
            start = i + 1;
            assert(t@.subrange(start as int, start as int) =~= seq![]);
        } else {
            assert(cur.push(t@[i as int]) =~= t@.subrange(start as int, i + 1));
        }
        i = i + 1;
    }
    let ghost cur = t@.subrange(start as int, i as int);
    assert(t@.subrange(i as int, hi as int).len() == 0);
    if start < i {
        r.push((start, i));
        proof {
            done = done.push(cur);
        }
    }
    assert(all =~= done);
    r
}

/// Relies on std's `String: FromIterator<char>`: the string holds the given
/// characters, in order.
#[verifier::external_body]
fn string_from_chars(cs: Vec<char>) -> (r: String)
    ensures
        r@ == cs@,
{
    String::from_iter(cs)
}

/// `t[lo..hi]` as a string.
pub fn text_of(t: &Vec<char>, lo: usize, hi: usize) -> (r: String)
    requires
        lo <= hi <= t@.len(),
    ensures
        r@ == t@.subrange(lo as int, hi as int),
{
    let mut cs: Vec<char> = Vec::new();
    let mut i = lo;
    while i < hi
        invariant
            lo <= i <= hi <= t@.len(),
            cs@ == t@.subrange(lo as int, i as int),
        decreases hi - i,
    {
        cs.push(t[i]);
        assert(cs@ =~= t@.subrange(lo as int, i + 1));
        i = i + 1;
    }
    string_from_chars(cs)
}

} // verus!
