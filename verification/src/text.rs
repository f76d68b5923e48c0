//! Character-level text helpers shared by the parsers: splitting on a
//! separator character, splitting on Unicode whitespace, and substring search.
use vstd::prelude::*;

verus! {

/// Pieces already closed by a separator, and the piece still open, after
/// scanning `s` from left to right.
pub open spec fn split_state(s: Seq<char>, sep: char) -> (Seq<Seq<char>>, Seq<char>)
    decreases s.len(),
{
    if s.len() == 0 {
        (Seq::empty(), Seq::empty())
    } else {
        let (done, cur) = split_state(s.drop_last(), sep);
        if s.last() == sep {
            (done.push(cur), Seq::empty())
        } else {
            (done, cur.push(s.last()))
        }
    }
}

/// The pieces of `s` between occurrences of `sep`, as `str::split` with a
/// one-character pattern yields them: there is always at least one piece,
/// and empty pieces are kept.
pub open spec fn split_pieces(s: Seq<char>, sep: char) -> Seq<Seq<char>> {
    split_state(s, sep).0.push(split_state(s, sep).1)
}

/// Unicode `White_Space`, the property that `char::is_whitespace` and
/// `str::split_whitespace` go by.
pub open spec fn is_unicode_whitespace(c: char) -> bool {
    ||| ('\u{9}' <= c && c <= '\u{d}')
    ||| c == ' '
    ||| c == '\u{85}'
    ||| c == '\u{a0}'
    ||| c == '\u{1680}'
    ||| ('\u{2000}' <= c && c <= '\u{200a}')
    ||| c == '\u{2028}'
    ||| c == '\u{2029}'
    ||| c == '\u{202f}'
    ||| c == '\u{205f}'
    ||| c == '\u{3000}'
}

/// Words already closed by whitespace, and the word still open, after
/// scanning `s` from left to right.
pub open spec fn words_state(s: Seq<char>) -> (Seq<Seq<char>>, Seq<char>)
    decreases s.len(),
{
    if s.len() == 0 {
        (Seq::empty(), Seq::empty())
    } else {
        let (done, cur) = words_state(s.drop_last());
        if is_unicode_whitespace(s.last()) {
            if cur.len() > 0 {
                (done.push(cur), Seq::empty())
            } else {
                (done, Seq::empty())
            }
        } else {
            (done, cur.push(s.last()))
        }
    }
}

/// The non-empty runs of non-whitespace characters of `s`, in order, as
/// `str::split_whitespace` yields them.
pub open spec fn words(s: Seq<char>) -> Seq<Seq<char>> {
    if words_state(s).1.len() > 0 {
        words_state(s).0.push(words_state(s).1)
    } else {
        words_state(s).0
    }
}

/// `needle` occurs in `hay` as a contiguous block (the empty needle occurs
/// everywhere).
pub open spec fn contains_seq(hay: Seq<char>, needle: Seq<char>) -> bool {
    exists|i: int| 0 <= i <= hay.len() - needle.len() && #[trigger] hay.subrange(i, i + needle.len()) == needle
}

/// The ranges `r` of `v` hold the pieces `p`: same count, each range inside
/// `v`, and each range's characters equal to the piece.
pub open spec fn ranges_hold(v: Seq<char>, r: Seq<(usize, usize)>, p: Seq<Seq<char>>) -> bool {
    &&& r.len() == p.len()
    &&& forall|k: int| 0 <= k < r.len() ==> (#[trigger] r[k]).0 <= r[k].1 <= v.len()
    &&& forall|k: int| 0 <= k < r.len() ==> #[trigger] v.subrange(r[k].0 as int, r[k].1 as int) == p[k]
}

/// Collects the characters of `s` into a vector, in order.
pub fn chars_of(s: &str) -> (v: Vec<char>)
    ensures
        v@ == s@,
{
    let mut v: Vec<char> = Vec::new();
    for c in it: s.chars()
        invariant
            v@ == it.seq().take(it.index() as int),
    {
        v.push(c);
    }
    assert(v@ =~= s@);
    v
}

/// The ranges of the pieces of `v` between occurrences of `sep`.
pub fn split_ranges(v: &Vec<char>, sep: char) -> (r: Vec<(usize, usize)>)
    ensures
        ranges_hold(v@, r@, split_pieces(v@, sep)),
{
    let mut done: Vec<(usize, usize)> = Vec::new();
    let mut start: usize = 0;
    let mut j: usize = 0;
    while j < v.len()
        invariant
            j <= v.len(),
            start <= j,
            ranges_hold(v@.subrange(0, j as int), done@, split_state(v@.subrange(0, j as int), sep).0),
            v@.subrange(start as int, j as int) == split_state(v@.subrange(0, j as int), sep).1,
        decreases v.len() - j,
    {
        let ghost pre = v@.subrange(0, j as int);
        let ghost next = v@.subrange(0, j + 1);
        assert(next.drop_last() =~= pre);
        assert forall|k: int| 0 <= k < done@.len() implies #[trigger] next.subrange(done@[k].0 as int, done@[k].1 as int)
            == pre.subrange(done@[k].0 as int, done@[k].1 as int) by {
            assert(next.subrange(done@[k].0 as int, done@[k].1 as int) =~= pre.subrange(done@[k].0 as int, done@[k].1 as int));
        }
        if v[j] == sep {
            assert(next.subrange(start as int, j as int) =~= v@.subrange(start as int, j as int));
            done.push((start, j));
            start = j + 1;
        } else {
            assert(v@.subrange(start as int, j + 1) =~= v@.subrange(start as int, j as int).push(v@[j as int]));
        }
        j = j + 1;
    }
    assert(v@.subrange(0, v.len() as int) =~= v@);
    assert forall|k: int| 0 <= k < done@.len() implies #[trigger] v@.subrange(done@[k].0 as int, done@[k].1 as int)
        == split_pieces(v@, sep)[k] by {
        assert(v@.subrange(0, j as int) =~= v@);
    }
    done.push((start, j));
    done
}

/// Whether `c` has the Unicode `White_Space` property.
pub fn is_whitespace(c: char) -> (b: bool)
    ensures
        b == is_unicode_whitespace(c),
{
    ('\u{9}' <= c && c <= '\u{d}') || c == ' ' || c == '\u{85}' || c == '\u{a0}' || c == '\u{1680}'
        || ('\u{2000}' <= c && c <= '\u{200a}') || c == '\u{2028}' || c == '\u{2029}' || c == '\u{202f}'
        || c == '\u{205f}' || c == '\u{3000}'
}

/// The ranges of the whitespace-separated words of `v[lo..hi]`.
pub fn word_ranges(v: &Vec<char>, lo: usize, hi: usize) -> (r: Vec<(usize, usize)>)
    requires
        lo <= hi <= v.len(),
    ensures
        ranges_hold(v@, r@, words(v@.subrange(lo as int, hi as int))),
        forall|k: int| 0 <= k < r@.len() ==> lo <= #[trigger] r@[k].0 && r@[k].1 <= hi,
{
    let mut done: Vec<(usize, usize)> = Vec::new();
    let mut start: usize = lo;
    let mut j: usize = lo;
    while j < hi
        invariant
            lo <= start <= j <= hi <= v.len(),
            ranges_hold(v@, done@, words_state(v@.subrange(lo as int, j as int)).0),
            forall|k: int| 0 <= k < done@.len() ==> lo <= #[trigger] done@[k].0 && done@[k].1 <= j,
            v@.subrange(start as int, j as int) == words_state(v@.subrange(lo as int, j as int)).1,
        decreases hi - j,
    {
        let ghost pre = v@.subrange(lo as int, j as int);
        let ghost next = v@.subrange(lo as int, j + 1);
        assert(next.drop_last() =~= pre);
        if is_whitespace(v[j]) {
            if start < j {
                done.push((start, j));
            }
            start = j + 1;
        } else {
            assert(v@.subrange(start as int, j + 1) =~= v@.subrange(start as int, j as int).push(v@[j as int]));
        }
        j = j + 1;
    }
    if start < hi {
        done.push((start, hi));
    }
    done
}

/// Whether `needle` occurs in `v[lo..hi]`.
pub fn contains_in(v: &Vec<char>, lo: usize, hi: usize, needle: &Vec<char>) -> (b: bool)
    requires
        lo <= hi <= v.len(),
    ensures
        b == contains_seq(v@.subrange(lo as int, hi as int), needle@),
{
    let ghost hay = v@.subrange(lo as int, hi as int);
    let n = needle.len();
    if n > hi - lo {
        return false;
    }
    let mut i: usize = lo;
    while i <= hi - n
        invariant
            lo <= i <= hi - n + 1,
            n == needle@.len(),
            n <= hi - lo,
            hi <= v.len(),
            hay == v@.subrange(lo as int, hi as int),
            forall|t: int| 0 <= t < i - lo ==> #[trigger] hay.subrange(t, t + n) != needle@,
        decreases hi - n + 1 - i,
    {
        let mut k: usize = 0;
        let mut same = true;
        while k < n
            invariant
                k <= n,
                n == needle@.len(),
                i + n <= hi <= v.len(),
                same == (forall|m: int| 0 <= m < k ==> v@[i + m] == needle@[m]),
            decreases n - k,
        {
            if v[i + k] != needle[k] {
                same = false;
            }
            k = k + 1;
        }
        let ghost t = i - lo;
        if same {
            assert(hay.subrange(t, t + n) =~= needle@);
            return true;
        }
        assert(hay.subrange(t, t + n)[0] == v@[i as int]);
        assert(hay.subrange(t, t + n) != needle@) by {
            let m = choose|m: int| 0 <= m < n && v@[i + m] != needle@[m];
            assert(hay.subrange(t, t + n)[m] == v@[i + m]);
        }
        i = i + 1;
    }
    false
}

/// Whether `v[a..b]` is the one character `c`.
pub fn range_is_char(v: &Vec<char>, a: usize, b: usize, c: char) -> (r: bool)
    requires
        a <= b <= v.len(),
    ensures
        r == (v@.subrange(a as int, b as int) == seq![c]),
        r == (b - a == 1 && v@[a as int] == c),
{
    if b - a == 1 && v[a] == c {
        assert(v@.subrange(a as int, b as int) =~= seq![c]);
        true
    } else {
        assert(b - a != 1 ==> v@.subrange(a as int, b as int).len() != seq![c].len());
        assert(b - a == 1 ==> v@.subrange(a as int, b as int)[0] != seq![c][0]);
        false
    }
}

/// A text without `sep` is one open piece.
pub proof fn lemma_split_state_no_sep(s: Seq<char>, sep: char)
    requires
        !s.contains(sep),
    ensures
        split_state(s, sep) == (Seq::<Seq<char>>::empty(), s),
    decreases s.len(),
{
    if s.len() > 0 {
        assert(!s.drop_last().contains(sep)) by {
            if s.drop_last().contains(sep) {
                let i = choose|i: int| 0 <= i < s.drop_last().len() && s.drop_last()[i] == sep;
                assert(s[i] == sep);
            }
        }
        lemma_split_state_no_sep(s.drop_last(), sep);
        assert(s.last() != sep) by {
            assert(s[s.len() - 1] == s.last());
        }
        assert(s.drop_last().push(s.last()) =~= s);
    }
}

/// Splitting `a`, a separator, then `b` gives the pieces of `a` followed by
/// the pieces of `b`.
pub proof fn lemma_split_state_concat(a: Seq<char>, b: Seq<char>, sep: char)
    ensures
        split_state(a.push(sep) + b, sep) == (split_pieces(a, sep) + split_state(b, sep).0, split_state(b, sep).1),
    decreases b.len(),
{
    if b.len() == 0 {
        assert(a.push(sep) + b =~= a.push(sep));
        assert(a.push(sep).drop_last() =~= a);
        assert(split_pieces(a, sep) + Seq::<Seq<char>>::empty() =~= split_pieces(a, sep));
    } else {
        lemma_split_state_concat(a, b.drop_last(), sep);
        assert((a.push(sep) + b).drop_last() =~= a.push(sep) + b.drop_last());
        assert((a.push(sep) + b).last() == b.last());
        let (d, c) = split_state(b.drop_last(), sep);
        if b.last() == sep {
            assert(split_pieces(a, sep) + d.push(c) =~= (split_pieces(a, sep) + d).push(c));
        }
    }
}

/// The pieces of `a`, a separator, then `b`.
pub proof fn lemma_split_pieces_concat(a: Seq<char>, b: Seq<char>, sep: char)
    ensures
        split_pieces(a.push(sep) + b, sep) == split_pieces(a, sep) + split_pieces(b, sep),
{
    lemma_split_state_concat(a, b, sep);
    let (d, c) = split_state(b, sep);
    assert(split_pieces(a, sep) + d.push(c) =~= (split_pieces(a, sep) + d).push(c));
}

/// Whether `v[a..b]` equals `w`.
pub fn range_equals(v: &Vec<char>, a: usize, b: usize, w: &Vec<char>) -> (r: bool)
    requires
        a <= b <= v.len(),
    ensures
        r == (v@.subrange(a as int, b as int) == w@),
{
    if b - a != w.len() {
        assert(v@.subrange(a as int, b as int).len() != w@.len());
        return false;
    }
    let mut k: usize = 0;
    while k < w.len()
        invariant
            k <= w.len(),
            b - a == w.len(),
            b <= v.len(),
            forall|m: int| 0 <= m < k ==> v@[a + m] == w@[m],
        decreases w.len() - k,
    {
        if v[a + k] != w[k] {
            assert(v@.subrange(a as int, b as int)[k as int] != w@[k as int]);
            return false;
        }
        k = k + 1;
    }
    assert(v@.subrange(a as int, b as int) =~= w@);
    true
}

} // verus!
