//! Splitting text at a separator character, and replacing two-character
//! sequences, by characters.
use vstd::prelude::*;

verus! {

/// `d` is the first occurrence of `c` in `s` at or after `from`.
pub open spec fn first_from(s: Seq<char>, c: char, from: int, d: int) -> bool {
    &&& from <= d < s.len()
    &&& s[d] == c
    &&& forall|k: int| from <= k < d ==> s[k] != c
}

/// Where the piece of `s` that starts at `from` ends: at the next `c`, or
/// at the end of `s`.
pub open spec fn piece_end(s: Seq<char>, c: char, from: int) -> int {
    if exists|d: int| first_from(s, c, from, d) {
        choose|d: int| first_from(s, c, from, d)
    } else {
        s.len() as int
    }
}

/// The pieces of `s` between occurrences of `c` (`str::split` with a
/// character): one more piece than there are occurrences.
pub open spec fn split_on(s: Seq<char>, c: char) -> Seq<Seq<char>>
    decreases s.len(),
{
    if exists|d: int| first_from(s, c, 0, d) {
        let d = choose|d: int| first_from(s, c, 0, d);
        seq![s.take(d)] + split_on(s.skip(d + 1), c)
    } else {
        seq![s]
    }
}

/// `s` with each occurrence of the pair `a b`, scanned from the left and
/// not overlapping, replaced by `with` (`str::replace` with a two-character
/// pattern).
pub open spec fn replace_pair(s: Seq<char>, a: char, b: char, with: Seq<char>) -> Seq<char>
    decreases s.len(),
{
    if s.len() == 0 {
        s
    } else if s.len() >= 2 && s[0] == a && s[1] == b {
        with + replace_pair(s.skip(2), a, b, with)
    } else {
        seq![s[0]] + replace_pair(s.skip(1), a, b, with)
    }
}

pub proof fn lemma_first_unique(s: Seq<char>, c: char, from: int, d1: int, d2: int)
    requires
        first_from(s, c, from, d1),
        first_from(s, c, from, d2),
    ensures
        d1 == d2,
{
    if d1 < d2 {
        assert(s[d1] != c);
    } else if d2 < d1 {
        assert(s[d2] != c);
    }
}

/// The first `c` of `s` at or after `from` is, in the rest of `s` from
/// `from` on, the first `c` of all.
pub proof fn lemma_first_in_rest(s: Seq<char>, c: char, from: int, d: int)
    requires
        0 <= from <= s.len(),
    ensures
        first_from(s, c, from, d) <==> first_from(s.skip(from), c, 0, d - from),
{
    let r = s.skip(from);
    if first_from(s, c, from, d) {
        assert forall|k: int| 0 <= k < d - from implies r[k] != c by {
            assert(r[k] == s[k + from]);
        }
    }
    if first_from(r, c, 0, d - from) {
        assert forall|k: int| from <= k < d implies s[k] != c by {
            assert(r[k - from] == s[k]);
        }
        assert(r[d - from] == s[d]);
    }
}

/// Splitting `x`, `c` and `y` put together at `c` gives the pieces of `x`
/// followed by those of `y`.
pub proof fn lemma_split_concat(x: Seq<char>, c: char, y: Seq<char>)
    ensures
        split_on(x + seq![c] + y, c) == split_on(x, c) + split_on(y, c),
    decreases x.len(),
{
    let s = x + seq![c] + y;
    if exists|d: int| first_from(x, c, 0, d) {
        let d = choose|d: int| first_from(x, c, 0, d);
        assert(first_from(s, c, 0, d));
        let e = choose|e: int| first_from(s, c, 0, e);
        lemma_first_unique(s, c, 0, d, e);
        assert(s.take(d) =~= x.take(d));
        assert(s.skip(d + 1) =~= x.skip(d + 1) + seq![c] + y);
        lemma_split_concat(x.skip(d + 1), c, y);
        assert(split_on(s, c) =~= split_on(x, c) + split_on(y, c));
    } else {
        let n = x.len() as int;
        assert forall|k: int| 0 <= k < n implies s[k] != c by {
            if s[k] == c {
                assert(x[k] == c);
                lemma_some_first(x, c, k);
            }
        }
        assert(first_from(s, c, 0, n));
        let e = choose|e: int| first_from(s, c, 0, e);
        lemma_first_unique(s, c, 0, n, e);
        assert(s.take(n) =~= x);
        assert(s.skip(n + 1) =~= y);
        assert(split_on(s, c) =~= split_on(x, c) + split_on(y, c));
    }
}

/// Where `c` occurs in `s`, it has a first occurrence.
proof fn lemma_some_first(s: Seq<char>, c: char, k: int)
    requires
        0 <= k < s.len(),
        s[k] == c,
    ensures
        exists|d: int| first_from(s, c, 0, d),
    decreases k,
{
    if forall|j: int| 0 <= j < k ==> s[j] != c {
        assert(first_from(s, c, 0, k));
    } else {
        let j = choose|j: int| 0 <= j < k && s[j] == c;
        lemma_some_first(s, c, j);
    }
}

/// The position of the first `c` of `s` at or after `from`, or the length
/// of `s` when there is none.
pub fn find_char(s: &str, len: usize, from: usize, c: char) -> (r: usize)
    requires
        len == s@.len(),
        from <= len,
    ensures
        from <= r <= len,
        r < len ==> first_from(s@, c, from as int, r as int),
        r == len ==> !exists|d: int| first_from(s@, c, from as int, d),
        r == piece_end(s@, c, from as int),
{
    let mut i = from;
    while i < len
        invariant
            from <= i <= len,
            len == s@.len(),
            forall|k: int| from <= k < i ==> s@[k] != c,
        decreases len - i,
    {
        if s.get_char(i) == c {
            proof {
                assert(first_from(s@, c, from as int, i as int));
                let d = choose|d: int| first_from(s@, c, from as int, d);
                lemma_first_unique(s@, c, from as int, d, i as int);
            }
            return i;
        }
        i = i + 1;
    }
    i
}

/// `s` with each pair `a b` replaced by `with` (see [`replace_pair`]).
pub fn replace_pair_in(s: &str, a: char, b: char, with: &str) -> (r: String)
    ensures
        r@ == replace_pair(s@, a, b, with@),
{
    let len = s.unicode_len();
    let mut out = String::new();
    let mut i: usize = 0;
    assert(s@.skip(0) =~= s@);
    while i < len
        invariant
            i <= len,
            len == s@.len(),
            replace_pair(s@, a, b, with@) == out@ + replace_pair(s@.skip(i as int), a, b, with@),
        decreases len - i,
    {
        let rest = Ghost(s@.skip(i as int));
        let c = s.get_char(i);
        if i + 1 < len && c == a && s.get_char(i + 1) == b {
            assert(rest@[0] == a && rest@[1] == b);
            assert(rest@.skip(2) =~= s@.skip(i + 2));
            assert(replace_pair(rest@, a, b, with@) == with@ + replace_pair(rest@.skip(2), a, b, with@));
            out.append(with);
            assert(replace_pair(s@, a, b, with@) == out@ + replace_pair(s@.skip(i + 2), a, b, with@));
            i = i + 2;
        } else {
            let one = s.substring_char(i, i + 1);
            assert(one@ =~= seq![rest@[0]]);
            assert(rest@.skip(1) =~= s@.skip(i + 1));
            assert(replace_pair(rest@, a, b, with@) == seq![rest@[0]] + replace_pair(rest@.skip(1), a, b, with@));
            out.append(one);
            assert(replace_pair(s@, a, b, with@) == out@ + replace_pair(s@.skip(i + 1), a, b, with@));
            i = i + 1;
        }
    }
    assert(s@.skip(len as int) =~= Seq::<char>::empty());
    assert(out@ + Seq::<char>::empty() =~= out@);
    out
}

} // verus!
