//! Character-level helpers shared by the matcher, the extractors and the
//! handlers: views of string collections, searching, splitting a path into
//! segments and joining segments back together.

use vstd::prelude::*;
use vstd::string::*;
use vstd::utf8::*;

verus! {

/// The character sequences held by a sequence of strings.
pub open spec fn strings_view(v: Seq<String>) -> Seq<Seq<char>> {
    Seq::new(v.len(), |i: int| v[i]@)
}

/// The character sequences held by a sequence of string pairs.
pub open spec fn pairs_view(v: Seq<(String, String)>) -> Seq<(Seq<char>, Seq<char>)> {
    Seq::new(v.len(), |i: int| (v[i].0@, v[i].1@))
}

/// Position of the first occurrence of `c` in `s`, or `s.len()` when `c`
/// does not occur.
pub open spec fn index_of(s: Seq<char>, c: char) -> nat
    decreases s.len(),
{
    if s.len() == 0 || s[0] == c {
        0
    } else {
        1 + index_of(s.drop_first(), c)
    }
}

/// The segments of a path: the maximal runs of characters other than `/`,
/// in order. Leading, trailing and repeated slashes contribute nothing.
pub open spec fn split_path(s: Seq<char>) -> Seq<Seq<char>>
    decreases s.len(),
{
    if s.len() == 0 {
        Seq::empty()
    } else {
        let n = index_of(s, '/') as int;
        if n >= s.len() {
            seq![s]
        } else if n == 0 {
            split_path(s.skip(1))
        } else {
            seq![s.take(n)] + split_path(s.skip(n + 1))
        }
    }
}

/// Segments written one after another with a single `/` between neighbours.
pub open spec fn join_path(segs: Seq<Seq<char>>) -> Seq<char>
    decreases segs.len(),
{
    if segs.len() == 0 {
        Seq::empty()
    } else if segs.len() == 1 {
        segs[0]
    } else {
        join_path(segs.drop_last()) + seq!['/'] + segs.last()
    }
}

/// A segment as the matcher sees it: not empty and free of `/`.
pub open spec fn is_segment(s: Seq<char>) -> bool {
    s.len() > 0 && forall|i: int| 0 <= i < s.len() ==> s[i] != '/'
}

/// `index_of` is the least position holding `c`, bounded by the length.
pub proof fn lemma_index_of(s: Seq<char>, c: char)
    ensures
        index_of(s, c) <= s.len(),
        forall|j: int| 0 <= j < index_of(s, c) ==> s[j] != c,
        index_of(s, c) < s.len() ==> s[index_of(s, c) as int] == c,
    decreases s.len(),
{
    if s.len() == 0 || s[0] == c {
    } else {
        let t = s.drop_first();
        lemma_index_of(t, c);
        assert forall|j: int| 0 <= j < index_of(s, c) implies s[j] != c by {
            if j > 0 {
                assert(s[j] == t[j - 1]);
            }
        }
        if index_of(s, c) < s.len() {
            assert(s[index_of(s, c) as int] == t[index_of(t, c) as int]);
        }
    }
}

/// Any position `k` that is free of `c` before it, and holds `c` or ends
/// the sequence, is the one `index_of` reports.
pub proof fn lemma_index_of_unique(s: Seq<char>, c: char, k: int)
    requires
        0 <= k <= s.len(),
        forall|j: int| 0 <= j < k ==> s[j] != c,
        k < s.len() ==> s[k] == c,
    ensures
        index_of(s, c) == k,
{
    lemma_index_of(s, c);
    let n = index_of(s, c) as int;
    if n < k {
        assert(s[n] != c);
    } else if k < n {
        assert(s[k] == c);
    }
}

/// Every segment that `split_path` yields is non-empty and free of `/`.
pub proof fn lemma_split_path_segments(s: Seq<char>)
    ensures
        forall|i: int| 0 <= i < split_path(s).len() ==> is_segment(#[trigger] split_path(s)[i]),
    decreases s.len(),
{
    if s.len() == 0 {
    } else {
        lemma_index_of(s, '/');
        let n = index_of(s, '/') as int;
        if n >= s.len() {
            assert(is_segment(s));
        } else if n == 0 {
            lemma_split_path_segments(s.skip(1));
        } else {
            lemma_split_path_segments(s.skip(n + 1));
            assert(is_segment(s.take(n)));
            let rest = split_path(s.skip(n + 1));
            assert forall|i: int| 0 <= i < split_path(s).len() implies is_segment(
                #[trigger] split_path(s)[i],
            ) by {
                if i > 0 {
                    assert(split_path(s)[i] == rest[i - 1]);
                }
            }
        }
    }
}

/// Splitting what `join_path` wrote gives the segments back.
pub proof fn lemma_split_join(segs: Seq<Seq<char>>)
    requires
        forall|i: int| 0 <= i < segs.len() ==> is_segment(#[trigger] segs[i]),
    ensures
        split_path(join_path(segs)) == segs,
    decreases segs.len(),
{
    if segs.len() == 0 {
    } else if segs.len() == 1 {
        let s = segs[0];
        assert(is_segment(s));
        lemma_index_of_unique(s, '/', s.len() as int);
        assert(split_path(s) =~= segs);
    } else {
        let init = segs.drop_last();
        let last = segs.last();
        assert(is_segment(last));
        assert forall|i: int| 0 <= i < init.len() implies is_segment(#[trigger] init[i]) by {
            assert(init[i] == segs[i]);
        }
        lemma_split_join(init);
        lemma_split_append(join_path(init), last);
        assert(init.push(last) =~= segs);
    }
}

/// Appending `/` and one more segment to a path appends that segment to
/// its split.
pub proof fn lemma_split_append(s: Seq<char>, seg: Seq<char>)
    requires
        is_segment(seg),
    ensures
        split_path(s + seq!['/'] + seg) == split_path(s).push(seg),
    decreases s.len(),
{
    let whole = s + seq!['/'] + seg;
    if s.len() == 0 {
        assert(whole[0] == '/');
        assert(whole.skip(1) =~= seg);
        lemma_index_of_unique(seg, '/', seg.len() as int);
        assert(split_path(seg) =~= seq![seg]);
        assert(split_path(whole) =~= Seq::<Seq<char>>::empty().push(seg));
    } else {
        lemma_index_of(s, '/');
        let n = index_of(s, '/') as int;
        assert forall|j: int| 0 <= j < n implies whole[j] != '/' by {
            assert(whole[j] == s[j]);
        }
        if n >= s.len() {
            assert(whole[s.len() as int] == '/');
            lemma_index_of_unique(whole, '/', s.len() as int);
            assert(whole.take(s.len() as int) =~= s);
            assert(whole.skip(s.len() as int + 1) =~= seg);
            lemma_index_of_unique(seg, '/', seg.len() as int);
            assert(split_path(seg) =~= seq![seg]);
            assert(split_path(whole) =~= seq![s].push(seg));
        } else {
            assert(whole[n] == s[n]);
            lemma_index_of_unique(whole, '/', n);
            if n == 0 {
                assert(whole.skip(1) =~= s.skip(1) + seq!['/'] + seg);
                lemma_split_append(s.skip(1), seg);
            } else {
                assert(whole.skip(n + 1) =~= s.skip(n + 1) + seq!['/'] + seg);
                assert(whole.take(n) =~= s.take(n));
                lemma_split_append(s.skip(n + 1), seg);
                assert(split_path(whole) =~= split_path(s).push(seg));
            }
        }
    }
}

/// The characters of `s`, one element each.
pub fn to_chars(s: &str) -> (v: Vec<char>)
    ensures
        v@ == s@,
{
    broadcast use vstd::string::axiom_spec_iter;

    let mut v: Vec<char> = Vec::new();
    for c in it: s.chars()
        invariant
            it.seq() == s@,
            v@ =~= s@.take(it.index()),
    {
        v.push(c);
    }
    assert(s@.take(s@.len() as int) =~= s@);
    v
}

/// Whether two strings hold the same characters.
pub fn str_eq(a: &str, b: &str) -> (r: bool)
    ensures
        r == (a@ == b@),
{
    let x = a.as_bytes();
    let y = b.as_bytes();
    if x.len() != y.len() {
        return false;
    }
    let mut i: usize = 0;
    while i < x.len()
        invariant
            x@ == encode_utf8(a@),
            y@ == encode_utf8(b@),
            x.len() == y.len(),
            i <= x.len(),
            forall|j: int| 0 <= j < i ==> x@[j] == y@[j],
        decreases x.len() - i,
    {
        if x[i] != y[i] {
            return false;
        }
        i = i + 1;
    }
    proof {
        assert(x@ =~= y@);
        encode_utf8_decode_utf8(a@);
        encode_utf8_decode_utf8(b@);
    }
    true
}

/// Position of the first `c` in `chars`, or the length when there is none.
pub fn find_char(chars: &Vec<char>, c: char) -> (k: usize)
    ensures
        k == index_of(chars@, c),
{
    let mut i: usize = 0;
    while i < chars.len()
        invariant
            i <= chars.len(),
            forall|j: int| 0 <= j < i ==> chars@[j] != c,
        decreases chars.len() - i,
    {
        if chars[i] == c {
            proof {
                lemma_index_of_unique(chars@, c, i as int);
            }
            return i;
        }
        i = i + 1;
    }
    proof {
        lemma_index_of_unique(chars@, c, i as int);
    }
    i
}

/// Splits a path on `/` and drops the empty pieces.
pub fn split_segments(path: &str) -> (segs: Vec<String>)
    ensures
        strings_view(segs@) == split_path(path@),
{
    let chars = to_chars(path);
    let n = chars.len();
    let mut segs: Vec<String> = Vec::new();
    let mut start: usize = 0;
    let mut i: usize = 0;
    assert(path@.skip(0) =~= path@);
    assert(strings_view(segs@) =~= Seq::<Seq<char>>::empty());
    while i < n
        invariant
            chars@ == path@,
            n == chars.len(),
            start <= i <= n,
            forall|j: int| start <= j < i ==> chars@[j] != '/',
            split_path(path@) == strings_view(segs@) + split_path(path@.skip(start as int)),
        decreases n - i,
    {
        if chars[i] == '/' {
            let ghost rest = path@.skip(start as int);
            let ghost before = strings_view(segs@);
            proof {
                assert forall|j: int| 0 <= j < i - start implies rest[j] != '/' by {
                    assert(rest[j] == chars@[start + j]);
                }
                assert(rest[i - start] == '/');
                lemma_index_of_unique(rest, '/', i - start);
                assert(rest.skip(i - start + 1) =~= path@.skip(i + 1));
            }
            if i > start {
                let piece = path.substring_char(start, i);
                segs.push(piece.to_owned());
                proof {
                    assert(rest.take(i - start) =~= path@.subrange(start as int, i as int));
                    assert(strings_view(segs@) =~= before.push(piece@));
                    assert(before + (seq![piece@] + split_path(path@.skip(i + 1)))
                        =~= before.push(piece@) + split_path(path@.skip(i + 1)));
                }
            } else {
                assert(rest.skip(1) =~= path@.skip(i + 1));
            }
            start = i + 1;
        }
        i = i + 1;
    }
    let ghost rest = path@.skip(start as int);
    let ghost before = strings_view(segs@);
    if n > start {
        let piece = path.substring_char(start, n);
        segs.push(piece.to_owned());
        proof {
            assert forall|j: int| 0 <= j < rest.len() implies rest[j] != '/' by {
                assert(rest[j] == chars@[start + j]);
            }
            lemma_index_of_unique(rest, '/', rest.len() as int);
            assert(rest =~= path@.subrange(start as int, n as int));
            assert(strings_view(segs@) =~= before.push(piece@));
            assert(before + seq![piece@] =~= before.push(piece@));
        }
    } else {
        assert(rest.len() == 0);
        assert(before + Seq::<Seq<char>>::empty() =~= before);
    }
    segs
}

/// Writes segments one after another with `/` between neighbours.
pub fn join_segments(segs: &Vec<String>, from: usize) -> (out: String)
    requires
        from <= segs.len(),
    ensures
        out@ == join_path(strings_view(segs@).skip(from as int)),
{
    let mut out = String::new();
    let mut i: usize = from;
    let ghost all = strings_view(segs@);
    assert(all.subrange(from as int, from as int) =~= Seq::<Seq<char>>::empty());
    while i < segs.len()
        invariant
            from <= i <= segs.len(),
            all == strings_view(segs@),
            out@ == join_path(all.subrange(from as int, i as int)),
        decreases segs.len() - i,
    {
        let ghost prev = all.subrange(from as int, i as int);
        let ghost next = all.subrange(from as int, i + 1);
        proof {
            assert(next.drop_last() =~= prev);
            assert(next.last() == segs@[i as int]@);
            reveal_strlit("/");
            assert("/"@ =~= seq!['/']);
        }
        if i > from {
            out.append("/");
        } else {
            assert(prev.len() == 0);
        }
        out.append(segs[i].as_str());
        proof {
            if i > from {
                assert(out@ =~= join_path(prev) + seq!['/'] + next.last());
            } else {
                assert(out@ =~= next[0]);
            }
        }
        i = i + 1;
    }
    assert(all.subrange(from as int, segs.len() as int) =~= all.skip(from as int));
    out
}

} // verus!
