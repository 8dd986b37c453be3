//! Order on text: strings compare by the bytes of their UTF-8 encoding,
//! lexicographically, a proper prefix standing before its extensions.

use vstd::prelude::*;
use vstd::utf8::*;
use crate::rank::Rank;

verus! {

/// Lexicographic rank of two byte sequences.
pub open spec fn bytes_rank(a: Seq<u8>, b: Seq<u8>) -> Rank
    decreases a.len(),
{
    if a.len() == 0 {
        if b.len() == 0 {
            Rank::Same
        } else {
            Rank::Before
        }
    } else if b.len() == 0 {
        Rank::After
    } else if a[0] < b[0] {
        Rank::Before
    } else if a[0] > b[0] {
        Rank::After
    } else {
        bytes_rank(a.drop_first(), b.drop_first())
    }
}

/// Rank of two texts: that of their UTF-8 encodings.
#[verifier::opaque]
pub open spec fn text_rank(a: Seq<char>, b: Seq<char>) -> Rank {
    bytes_rank(encode_utf8(a), encode_utf8(b))
}

/// `a` stands before `b` or equals it.
pub open spec fn text_le(a: Seq<char>, b: Seq<char>) -> bool {
    text_rank(a, b) != Rank::After
}

/// Two byte sequences rank `Same` exactly when they are equal.
pub proof fn lemma_bytes_rank_same(a: Seq<u8>, b: Seq<u8>)
    ensures
        bytes_rank(a, b) == Rank::Same <==> a == b,
    decreases a.len(),
{
    if a.len() == 0 || b.len() == 0 {
        if a.len() == 0 && b.len() == 0 {
            assert(a =~= b);
        }
    } else if a[0] == b[0] {
        lemma_bytes_rank_same(a.drop_first(), b.drop_first());
        if a.drop_first() == b.drop_first() {
            assert(a =~= seq![a[0]] + a.drop_first());
            assert(b =~= seq![b[0]] + b.drop_first());
        }
    }
}

/// Swapping the arguments flips the rank.
pub proof fn lemma_bytes_rank_flip(a: Seq<u8>, b: Seq<u8>)
    ensures
        bytes_rank(b, a) == bytes_rank(a, b).flipped(),
    decreases a.len(),
{
    if a.len() != 0 && b.len() != 0 && a[0] == b[0] {
        lemma_bytes_rank_flip(a.drop_first(), b.drop_first());
    }
}

/// The order on byte sequences is transitive, and strictly so as soon as one
/// of the two steps is strict.
pub proof fn lemma_bytes_rank_transitive(a: Seq<u8>, b: Seq<u8>, c: Seq<u8>)
    requires
        bytes_rank(a, b) != Rank::After,
        bytes_rank(b, c) != Rank::After,
    ensures
        bytes_rank(a, c) != Rank::After,
        bytes_rank(a, c) == Rank::Same ==> bytes_rank(a, b) == Rank::Same && bytes_rank(b, c)
            == Rank::Same,
    decreases a.len(),
{
    if a.len() != 0 && b.len() != 0 && c.len() != 0 && a[0] == b[0] && b[0] == c[0] {
        lemma_bytes_rank_transitive(a.drop_first(), b.drop_first(), c.drop_first());
    }
}

/// Two texts rank `Same` exactly when they are equal.
pub proof fn lemma_text_rank_same(a: Seq<char>, b: Seq<char>)
    ensures
        text_rank(a, b) == Rank::Same <==> a == b,
{
    reveal(text_rank);
    lemma_bytes_rank_same(encode_utf8(a), encode_utf8(b));
    encode_utf8_decode_utf8(a);
    encode_utf8_decode_utf8(b);
}

/// Swapping two texts flips their rank.
pub proof fn lemma_text_rank_flip(a: Seq<char>, b: Seq<char>)
    ensures
        text_rank(b, a) == text_rank(a, b).flipped(),
{
    reveal(text_rank);
    lemma_bytes_rank_flip(encode_utf8(a), encode_utf8(b));
}

/// The order on texts is transitive, and strictly so as soon as one of the
/// two steps is strict.
pub proof fn lemma_text_rank_transitive(a: Seq<char>, b: Seq<char>, c: Seq<char>)
    requires
        text_rank(a, b) != Rank::After,
        text_rank(b, c) != Rank::After,
    ensures
        text_rank(a, c) != Rank::After,
        text_rank(a, c) == Rank::Same ==> text_rank(a, b) == Rank::Same && text_rank(b, c)
            == Rank::Same,
{
    reveal(text_rank);
    lemma_bytes_rank_transitive(encode_utf8(a), encode_utf8(b), encode_utf8(c));
}

/// Ranks two strings by their bytes.
pub fn rank_str(a: &str, b: &str) -> (r: Rank)
    ensures
        r == text_rank(a@, b@),
{
    proof {
        reveal(text_rank);
    }
    let x = a.as_bytes();
    let y = b.as_bytes();
    let n = x.len();
    let m = y.len();
    let mut i: usize = 0;
    proof {
        assert(x@.skip(0) =~= x@);
        assert(y@.skip(0) =~= y@);
    }
    while i < n && i < m
        invariant
            text_rank(a@, b@) == bytes_rank(x@, y@),
            n == x@.len(),
            m == y@.len(),
            i <= n,
            i <= m,
            bytes_rank(x@, y@) == bytes_rank(x@.skip(i as int), y@.skip(i as int)),
        decreases n - i,
    {
        let p = x[i];
        let q = y[i];
        proof {
            let xs = x@.skip(i as int);
            let ys = y@.skip(i as int);
            assert(xs[0] == p && ys[0] == q);
            assert(xs.drop_first() =~= x@.skip(i + 1));
            assert(ys.drop_first() =~= y@.skip(i + 1));
        }
        if p < q {
            return Rank::Before;
        }
        if p > q {
            return Rank::After;
        }
        i = i + 1;
    }
    if i < m {
        Rank::Before
    } else if i < n {
        Rank::After
    } else {
        Rank::Same
    }
}

/// Whether two strings hold the same text.
pub fn same_text(a: &str, b: &str) -> (r: bool)
    ensures
        r == (a@ == b@),
{
    proof {
        lemma_text_rank_same(a@, b@);
    }
    rank_str(a, b) == Rank::Same
}

/// The bytes of `needle` stand in `hay` from position `at` on.
pub open spec fn stands_at(hay: Seq<u8>, needle: Seq<u8>, at: int) -> bool {
    &&& 0 <= at
    &&& at + needle.len() <= hay.len()
    &&& forall|t: int| 0 <= t < needle.len() ==> #[trigger] hay[at + t] == needle[t]
}

/// The text `needle` occurs in the text `hay`: the bytes of its encoding
/// stand somewhere in those of `hay`.
pub open spec fn text_mentions(hay: Seq<char>, needle: Seq<char>) -> bool {
    exists|at: int| #[trigger] stands_at(encode_utf8(hay), encode_utf8(needle), at)
}

/// Whether `needle` occurs in `hay`.
pub fn mentions(hay: &str, needle: &str) -> (r: bool)
    ensures
        r == text_mentions(hay@, needle@),
{
    let h = hay.as_bytes();
    let n = needle.as_bytes();
    let hay_len = h.len();
    let needle_len = n.len();
    if needle_len > hay_len {
        return false;
    }
    let last = hay_len - needle_len;
    let mut at: usize = 0;
    while at <= last
        invariant
            h@ == encode_utf8(hay@),
            n@ == encode_utf8(needle@),
            hay_len == h@.len(),
            needle_len == n@.len(),
            last == hay_len - needle_len,
            at <= last + 1,
            forall|k: int| 0 <= k < at ==> !stands_at(h@, n@, k),
        decreases last + 1 - at,
    {
        let mut t: usize = 0;
        while t < needle_len && h[at + t] == n[t]
            invariant
                hay_len == h@.len(),
                needle_len == n@.len(),
                at + needle_len <= hay_len,
                t <= needle_len,
                forall|u: int| 0 <= u < t ==> #[trigger] h@[at + u] == n@[u],
            decreases needle_len - t,
        {
            t = t + 1;
        }
        if t == needle_len {
            assert(stands_at(h@, n@, at as int));
            return true;
        }
        assert(!stands_at(h@, n@, at as int)) by {
            assert(h@[at + t] != n@[t as int]);
        }
        at = at + 1;
    }
    assert forall|k: int| !stands_at(h@, n@, k) by {
        if 0 <= k && k + needle_len <= hay_len {
            assert(k < at);
        }
    }
    false
}

} // verus!
