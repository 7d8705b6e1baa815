//! The byte-wise order by which query parameters and headers are sorted.

use vstd::prelude::*;
use vstd::relations::{sorted_by, total_ordering};
use vstd::utf8::{decode_utf8, encode_utf8, encode_utf8_decode_utf8};

verus! {

/// A name with its value.
pub type Pair = (Seq<char>, Seq<char>);

/// Lexicographic order on byte strings: the first differing byte decides,
/// and a proper prefix comes first.
pub open spec fn bytes_le(a: Seq<u8>, b: Seq<u8>) -> bool
    decreases a.len(),
{
    if a.len() == 0 {
        true
    } else if b.len() == 0 {
        false
    } else if a[0] != b[0] {
        a[0] < b[0]
    } else {
        bytes_le(a.drop_first(), b.drop_first())
    }
}

/// Pairs are ordered by the UTF-8 bytes of the name, and by those of the
/// value where the names are equal.
pub open spec fn pair_le(x: Pair, y: Pair) -> bool {
    if encode_utf8(x.0) == encode_utf8(y.0) {
        bytes_le(encode_utf8(x.1), encode_utf8(y.1))
    } else {
        bytes_le(encode_utf8(x.0), encode_utf8(y.0))
    }
}

/// `pair_le` as a relation.
pub open spec fn pair_order() -> spec_fn(Pair, Pair) -> bool {
    |x: Pair, y: Pair| pair_le(x, y)
}

/// The pairs of `s` in ascending order.
pub open spec fn sorted_pairs(s: Seq<Pair>) -> Seq<Pair> {
    s.sort_by(pair_order())
}

/// Every byte string comes before or equals itself.
pub proof fn lemma_bytes_le_reflexive(a: Seq<u8>)
    ensures
        bytes_le(a, a),
    decreases a.len(),
{
    if a.len() > 0 {
        lemma_bytes_le_reflexive(a.drop_first());
    }
}

/// Two byte strings that each come before or equal the other are equal.
pub proof fn lemma_bytes_le_antisymmetric(a: Seq<u8>, b: Seq<u8>)
    requires
        bytes_le(a, b),
        bytes_le(b, a),
    ensures
        a == b,
    decreases a.len(),
{
    if a.len() > 0 {
        lemma_bytes_le_antisymmetric(a.drop_first(), b.drop_first());
        assert(a =~= seq![a[0]] + a.drop_first());
        assert(b =~= seq![b[0]] + b.drop_first());
    } else {
        assert(a =~= b);
    }
}

/// The byte order carries over a middle term.
pub proof fn lemma_bytes_le_transitive(a: Seq<u8>, b: Seq<u8>, c: Seq<u8>)
    requires
        bytes_le(a, b),
        bytes_le(b, c),
    ensures
        bytes_le(a, c),
    decreases a.len(),
{
    if a.len() > 0 && a[0] == b[0] && b[0] == c[0] {
        lemma_bytes_le_transitive(a.drop_first(), b.drop_first(), c.drop_first());
    }
}

/// Any two byte strings compare one way or the other.
pub proof fn lemma_bytes_le_total(a: Seq<u8>, b: Seq<u8>)
    ensures
        bytes_le(a, b) || bytes_le(b, a),
    decreases a.len(),
{
    if a.len() > 0 && b.len() > 0 && a[0] == b[0] {
        lemma_bytes_le_total(a.drop_first(), b.drop_first());
    }
}

/// Two texts with the same UTF-8 bytes are the same text.
pub proof fn lemma_encode_utf8_injective(a: Seq<char>, b: Seq<char>)
    requires
        encode_utf8(a) == encode_utf8(b),
    ensures
        a == b,
{
    encode_utf8_decode_utf8(a);
    encode_utf8_decode_utf8(b);
    assert(decode_utf8(encode_utf8(a)) == a);
    assert(decode_utf8(encode_utf8(b)) == b);
}

/// The order on pairs is total: any two pairs compare, and two pairs that
/// compare both ways are equal.
pub proof fn lemma_pair_order_total()
    ensures
        total_ordering(pair_order()),
{
    let r = pair_order();
    assert forall|x: Pair| #[trigger] r(x, x) by {
        lemma_bytes_le_reflexive(encode_utf8(x.1));
    }
    assert forall|x: Pair, y: Pair| #[trigger] r(x, y) && #[trigger] r(y, x) implies x == y by {
        if encode_utf8(x.0) == encode_utf8(y.0) {
            lemma_bytes_le_antisymmetric(encode_utf8(x.1), encode_utf8(y.1));
        } else {
            lemma_bytes_le_antisymmetric(encode_utf8(x.0), encode_utf8(y.0));
        }
        lemma_encode_utf8_injective(x.0, y.0);
        lemma_encode_utf8_injective(x.1, y.1);
    }
    assert forall|x: Pair, y: Pair, z: Pair| #[trigger] r(x, y) && #[trigger] r(y, z) implies r(
        x,
        z,
    ) by {
        lemma_pair_le_transitive(x, y, z);
    }
    assert forall|x: Pair, y: Pair| #[trigger] r(x, y) || #[trigger] r(y, x) by {
        lemma_pair_le_total(x, y);
    }
}

/// The order on pairs carries over a middle term.
pub proof fn lemma_pair_le_transitive(x: Pair, y: Pair, z: Pair)
    requires
        pair_le(x, y),
        pair_le(y, z),
    ensures
        pair_le(x, z),
{
    let (xn, yn, zn) = (encode_utf8(x.0), encode_utf8(y.0), encode_utf8(z.0));
    let (xv, yv, zv) = (encode_utf8(x.1), encode_utf8(y.1), encode_utf8(z.1));
    if xn == yn && yn == zn {
        lemma_bytes_le_transitive(xv, yv, zv);
    } else if xn == yn {
    } else if yn == zn {
    } else {
        lemma_bytes_le_transitive(xn, yn, zn);
        if xn == zn {
            lemma_bytes_le_antisymmetric(xn, yn);
        }
    }
}

/// Any two pairs compare one way or the other.
pub proof fn lemma_pair_le_total(x: Pair, y: Pair)
    ensures
        pair_le(x, y) || pair_le(y, x),
{
    lemma_bytes_le_total(encode_utf8(x.0), encode_utf8(y.0));
    lemma_bytes_le_total(encode_utf8(x.1), encode_utf8(y.1));
}

/// What `sorted_pairs` returns: the same pairs, each as often as before, in
/// ascending order. No other sequence has both properties.
pub proof fn lemma_sorted_pairs(s: Seq<Pair>, t: Seq<Pair>)
    ensures
        sorted_by(sorted_pairs(s), pair_order()),
        sorted_pairs(s).to_multiset() == s.to_multiset(),
        sorted_by(t, pair_order()) && t.to_multiset() == s.to_multiset() ==> t == sorted_pairs(s),
{
    lemma_pair_order_total();
    s.lemma_sort_by_ensures(pair_order());
    if sorted_by(t, pair_order()) && t.to_multiset() == s.to_multiset() {
        vstd::seq_lib::lemma_sorted_unique(t, sorted_pairs(s), pair_order());
    }
}

/// Tells whether `a` comes before `b`, or equals it, in byte order.
pub fn bytes_le_exec(a: &[u8], b: &[u8]) -> (r: bool)
    ensures
        r == bytes_le(a@, b@),
{
    let mut i: usize = 0;
    proof {
        assert(a@.skip(0) =~= a@);
        assert(b@.skip(0) =~= b@);
    }
    while i < a.len() && i < b.len()
        invariant
            i <= a.len(),
            i <= b.len(),
            bytes_le(a@, b@) == bytes_le(a@.skip(i as int), b@.skip(i as int)),
        decreases a.len() - i,
    {
        proof {
            assert(a@.skip(i as int).drop_first() =~= a@.skip(i + 1));
            assert(b@.skip(i as int).drop_first() =~= b@.skip(i + 1));
        }
        if a[i] != b[i] {
            return a[i] < b[i];
        }
        i += 1;
    }
    i == a.len()
}

/// Tells whether the pair `(an, av)` comes before `(bn, bv)`, or equals it.
pub fn pair_le_exec(an: &str, av: &str, bn: &str, bv: &str) -> (r: bool)
    ensures
        r == pair_le((an@, av@), (bn@, bv@)),
{
    let forth = bytes_le_exec(an.as_bytes(), bn.as_bytes());
    let back = bytes_le_exec(bn.as_bytes(), an.as_bytes());
    proof {
        if forth && back {
            lemma_bytes_le_antisymmetric(encode_utf8(an@), encode_utf8(bn@));
        }
        if encode_utf8(an@) == encode_utf8(bn@) {
            lemma_bytes_le_reflexive(encode_utf8(an@));
        }
    }
    if forth && back {
        bytes_le_exec(av.as_bytes(), bv.as_bytes())
    } else {
        forth
    }
}

} // verus!
