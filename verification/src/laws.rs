//! What holds of canonical form and signature whatever the order in which a
//! caller lists headers and query parameters, and what the key chain takes
//! from the date.

use vstd::prelude::*;
use vstd::utf8::encode_utf8;
use vstd::seq_lib::{to_multiset_build, to_multiset_contains, to_multiset_len, to_multiset_remove};
use crate::canonical::{
    canonical_header_list, canonical_headers_text, canonical_param_list, canonical_query,
    canonical_request_text, encode_pair, normalize_header, signed_headers_text,
};
use crate::order::{lemma_encode_utf8_injective, lemma_sorted_pairs, sorted_pairs, Pair};
use crate::sign::{request_authorization_text, CredentialModel};

verus! {

/// Two sequences that hold the same items, each as often, still do so after
/// one function is applied to every item of both.
pub proof fn lemma_map_values_permutation<A, B>(a: Seq<A>, b: Seq<A>, f: spec_fn(A) -> B)
    requires
        a.to_multiset() == b.to_multiset(),
    ensures
        a.map_values(f).to_multiset() == b.map_values(f).to_multiset(),
    decreases a.len(),
{
    broadcast use vstd::multiset::group_multiset_axioms;

    to_multiset_len(a);
    to_multiset_len(b);
    if a.len() == 0 {
        assert(a.map_values(f) =~= b.map_values(f));
    } else {
        let x = a.last();
        let a1 = a.drop_last();
        assert(a =~= a1.push(x));
        to_multiset_build(a1, x);
        to_multiset_contains(b, x);
        assert(b.to_multiset().count(x) > 0);
        let j = choose|j: int| 0 <= j < b.len() && b[j] == x;
        let b1 = b.remove(j);
        to_multiset_remove(b, j);
        assert(a1.to_multiset() =~= b1.to_multiset());
        lemma_map_values_permutation(a1, b1, f);
        let ma = a.map_values(f);
        let mb = b.map_values(f);
        assert(ma =~= a1.map_values(f).push(f(x)));
        to_multiset_build(a1.map_values(f), f(x));
        assert(mb.remove(j) =~= b1.map_values(f));
        to_multiset_remove(mb, j);
        to_multiset_contains(mb, f(x));
        assert(mb[j] == f(x));
        assert(mb.contains(f(x)));
        assert(mb.to_multiset() =~= mb.to_multiset().remove(f(x)).insert(f(x)));
        assert(ma.to_multiset() =~= mb.to_multiset());
    }
}

/// Sorting forgets the order in which the pairs were given.
pub proof fn lemma_sorted_pairs_of_permutation(a: Seq<Pair>, b: Seq<Pair>)
    requires
        a.to_multiset() == b.to_multiset(),
    ensures
        sorted_pairs(a) == sorted_pairs(b),
{
    lemma_sorted_pairs(b, sorted_pairs(b));
    lemma_sorted_pairs(a, sorted_pairs(b));
}

/// Header-order invariance: the same headers, listed in any order, give the
/// same canonical headers block and the same signed-headers list.
pub proof fn lemma_header_order_invariance(a: Seq<Pair>, b: Seq<Pair>)
    requires
        a.to_multiset() == b.to_multiset(),
    ensures
        canonical_header_list(a) == canonical_header_list(b),
        canonical_headers_text(a) == canonical_headers_text(b),
        signed_headers_text(a) == signed_headers_text(b),
{
    let f = |h: Pair| normalize_header(h);
    lemma_map_values_permutation(a, b, f);
    lemma_sorted_pairs_of_permutation(a.map_values(f), b.map_values(f));
}

/// Query-order invariance: the same query parameters, listed in any order,
/// give the same canonical query string.
pub proof fn lemma_query_order_invariance(a: Seq<Pair>, b: Seq<Pair>)
    requires
        a.to_multiset() == b.to_multiset(),
    ensures
        canonical_param_list(a) == canonical_param_list(b),
        canonical_query(a) == canonical_query(b),
{
    let f = |p: Pair| encode_pair(p);
    lemma_map_values_permutation(a, b, f);
    lemma_sorted_pairs_of_permutation(a.map_values(f), b.map_values(f));
}

/// A request whose headers and query parameters are listed in another order
/// has the same canonical form and is given the same authorization value,
/// and so the same signature.
pub proof fn lemma_signature_order_invariance(
    credential: CredentialModel,
    method: Seq<char>,
    uri_path: Seq<char>,
    params_a: Seq<Pair>,
    params_b: Seq<Pair>,
    headers_a: Seq<Pair>,
    headers_b: Seq<Pair>,
    payload: Seq<u8>,
    timestamp_full: Seq<char>,
    timestamp_date: Seq<char>,
)
    requires
        params_a.to_multiset() == params_b.to_multiset(),
        headers_a.to_multiset() == headers_b.to_multiset(),
    ensures
        canonical_request_text(method, uri_path, params_a, headers_a, payload)
            == canonical_request_text(method, uri_path, params_b, headers_b, payload),
        request_authorization_text(
            credential,
            method,
            uri_path,
            params_a,
            headers_a,
            payload,
            timestamp_full,
            timestamp_date,
        ) == request_authorization_text(
            credential,
            method,
            uri_path,
            params_b,
            headers_b,
            payload,
            timestamp_full,
            timestamp_date,
        ),
{
    lemma_header_order_invariance(headers_a, headers_b);
    lemma_query_order_invariance(params_a, params_b);
}

/// Two different dates are different data for the first MAC of the key
/// chain, under one and the same key. Whether the two codes differ is for
/// the MAC to answer.
pub proof fn lemma_dates_are_distinct_mac_data(date_a: Seq<char>, date_b: Seq<char>)
    requires
        date_a != date_b,
    ensures
        encode_utf8(date_a) != encode_utf8(date_b),
{
    if encode_utf8(date_a) == encode_utf8(date_b) {
        lemma_encode_utf8_injective(date_a, date_b);
    }
}

} // verus!
