//! The canonical form of a request: the text that signer and service must
//! both arrive at, byte for byte.

use vstd::prelude::*;
use vstd::relations::sorted_by;
use vstd::seq_lib::{to_multiset_build, to_multiset_insert, to_multiset_len};
use vstd::string::StringExecFns;
use crate::encode::{percent_encode, uri_encode};
use crate::hex::{hex, to_hex};
use crate::order::{
    lemma_pair_le_total, lemma_pair_le_transitive, lemma_pair_order_total, lemma_sorted_pairs,
    pair_le, pair_le_exec, pair_order, sorted_pairs, Pair,
};
use crate::primitives::{sha256, sha256_digest};
use crate::text::{
    is_folded, is_squeezed, lemma_lowercase_is_folded, lemma_squeeze_is_squeezed, lowercase,
    squeeze, squeeze_blanks, to_lowercase,
};

verus! {

/// A query parameter with name and value percent-encoded.
pub open spec fn encode_pair(p: Pair) -> Pair {
    (percent_encode(p.0), percent_encode(p.1))
}

/// A header with its name in small letters and its value squeezed.
pub open spec fn normalize_header(h: Pair) -> Pair {
    (lowercase(h.0), squeeze(h.1))
}

/// A header as it stands in a canonical list: no capital letter in the
/// name, nothing to trim or to collapse in the value.
pub open spec fn is_normal_header(h: Pair) -> bool {
    is_folded(h.0) && is_squeezed(h.1)
}

/// `name=value` for each pair, joined by `&`.
pub open spec fn query_text(s: Seq<Pair>) -> Seq<char>
    decreases s.len(),
{
    if s.len() == 0 {
        Seq::empty()
    } else if s.len() == 1 {
        s[0].0 + seq!['='] + s[0].1
    } else {
        query_text(s.drop_last()) + seq!['&'] + s.last().0 + seq!['='] + s.last().1
    }
}

/// `name:value` and a line feed for each pair.
pub open spec fn header_lines(s: Seq<Pair>) -> Seq<char>
    decreases s.len(),
{
    if s.len() == 0 {
        Seq::empty()
    } else {
        header_lines(s.drop_last()) + s.last().0 + seq![':'] + s.last().1 + seq!['\n']
    }
}

/// The names of the pairs, joined by `;`.
pub open spec fn joined_names(s: Seq<Pair>) -> Seq<char>
    decreases s.len(),
{
    if s.len() == 0 {
        Seq::empty()
    } else if s.len() == 1 {
        s[0].0
    } else {
        joined_names(s.drop_last()) + seq![';'] + s.last().0
    }
}

/// The query parameters as they are signed: every name and value
/// percent-encoded, the pairs sorted by encoded name and then by encoded value.
pub open spec fn canonical_param_list(params: Seq<Pair>) -> Seq<Pair> {
    sorted_pairs(params.map_values(|p: Pair| encode_pair(p)))
}

/// The canonical query string. Empty where there are no parameters.
pub open spec fn canonical_query(params: Seq<Pair>) -> Seq<char> {
    query_text(canonical_param_list(params))
}

/// The headers as they are signed: normalised, then sorted by name, and by
/// value where two names are equal.
pub open spec fn canonical_header_list(headers: Seq<Pair>) -> Seq<Pair> {
    sorted_pairs(headers.map_values(|h: Pair| normalize_header(h)))
}

/// The canonical headers block.
pub open spec fn canonical_headers_text(headers: Seq<Pair>) -> Seq<char> {
    header_lines(canonical_header_list(headers))
}

/// The signed-headers list.
pub open spec fn signed_headers_text(headers: Seq<Pair>) -> Seq<char> {
    joined_names(canonical_header_list(headers))
}

/// The payload hash: the SHA-256 digest of the payload in hexadecimal.
pub open spec fn payload_hash_text(payload: Seq<u8>) -> Seq<char> {
    hex(sha256(payload))
}

/// Six parts with one line feed between each two, and none at the end
/// but the one that closes the headers block.
pub open spec fn six_parts(
    method: Seq<char>,
    uri_path: Seq<char>,
    query: Seq<char>,
    headers_block: Seq<char>,
    signed_headers: Seq<char>,
    payload_hash: Seq<char>,
) -> Seq<char> {
    method + seq!['\n'] + uri_path + seq!['\n'] + query + seq!['\n'] + headers_block + seq!['\n']
        + signed_headers + seq!['\n'] + payload_hash
}

/// The canonical request: method, path, query string, headers block,
/// signed-headers list and payload hash.
pub open spec fn canonical_request_text(
    method: Seq<char>,
    uri_path: Seq<char>,
    params: Seq<Pair>,
    headers: Seq<Pair>,
    payload: Seq<u8>,
) -> Seq<char> {
    six_parts(
        method,
        uri_path,
        canonical_query(params),
        canonical_headers_text(headers),
        signed_headers_text(headers),
        payload_hash_text(payload),
    )
}

/// Every header of a canonical list is normal, and the list is in order.
pub proof fn lemma_canonical_header_list(headers: Seq<Pair>)
    ensures
        sorted_by(canonical_header_list(headers), pair_order()),
        canonical_header_list(headers).len() == headers.len(),
        forall|i: int|
            0 <= i < canonical_header_list(headers).len() ==> is_normal_header(
                #[trigger] canonical_header_list(headers)[i],
            ),
{
    let normal = headers.map_values(|h: Pair| normalize_header(h));
    let sorted = canonical_header_list(headers);
    lemma_pair_order_total();
    normal.lemma_sort_by_ensures(pair_order());
    to_multiset_len(normal);
    to_multiset_len(sorted);
    assert forall|i: int| 0 <= i < sorted.len() implies is_normal_header(#[trigger] sorted[i]) by {
        assert(sorted.contains(sorted[i]));
        assert(normal.contains(sorted[i]));
        let k = choose|k: int| 0 <= k < normal.len() && normal[k] == sorted[i];
        lemma_lowercase_is_folded(headers[k].0);
        lemma_squeeze_is_squeezed(headers[k].1);
    }
}

/// Puts the pair `(name, value)` at its place in the sorted `list`.
pub fn insert_sorted(list: &mut Vec<(String, String)>, name: String, value: String)
    requires
        sorted_by(old(list).deep_view(), pair_order()),
    ensures
        sorted_by(final(list).deep_view(), pair_order()),
        final(list).deep_view().to_multiset() == old(list).deep_view().to_multiset().insert(
            (name@, value@),
        ),
{
    let ghost item: Pair = (name@, value@);
    let ghost before = list.deep_view();
    let mut pos: usize = 0;
    let mut searching = true;
    while searching && pos < list.len()
        invariant
            pos <= list.len(),
            list.deep_view() == before,
            item == (name@, value@),
            forall|k: int| 0 <= k < pos ==> pair_le(#[trigger] before[k], item),
            !searching ==> pos < list.len() && !pair_le(before[pos as int], item),
        decreases list.len() - pos + (if searching { 1int } else { 0int }),
    {
        let entry = &list[pos];
        assert(before[pos as int] == (entry.0@, entry.1@));
        if pair_le_exec(entry.0.as_str(), entry.1.as_str(), name.as_str(), value.as_str()) {
            pos += 1;
        } else {
            searching = false;
        }
    }
    list.insert(pos, (name, value));
    proof {
        let after = list.deep_view();
        assert(after =~= before.insert(pos as int, item));
        to_multiset_insert(before, pos as int, item);
        assert forall|i: int, j: int| 0 <= i < j < after.len() implies pair_le(
            after[i],
            after[j],
        ) by {
            if j == pos {
                assert(after[i] == before[i]);
            } else if i == pos {
                assert(after[j] == before[j - 1]);
                lemma_pair_le_total(before[pos as int], item);
                if j - 1 > pos {
                    assert(pair_order()(before[pos as int], before[j - 1]));
                    lemma_pair_le_transitive(item, before[pos as int], before[j - 1]);
                }
            } else {
                let bi = if i < pos { i } else { i - 1 };
                let bj = if j < pos { j } else { j - 1 };
                assert(after[i] == before[bi]);
                assert(after[j] == before[bj]);
                assert(pair_order()(before[bi], before[bj]));
            }
        }
    }
}

/// Encodes the query parameters and sorts them.
pub fn sorted_params(params: &[(&str, &str)]) -> (out: Vec<(String, String)>)
    ensures
        out.deep_view() == canonical_param_list(params.deep_view()),
{
    let ghost encoded = params.deep_view().map_values(|p: Pair| encode_pair(p));
    let mut out: Vec<(String, String)> = Vec::new();
    let mut i: usize = 0;
    assert(out.deep_view() =~= encoded.take(0));
    while i < params.len()
        invariant
            i <= params.len(),
            encoded == params.deep_view().map_values(|p: Pair| encode_pair(p)),
            sorted_by(out.deep_view(), pair_order()),
            out.deep_view().to_multiset() == encoded.take(i as int).to_multiset(),
        decreases params.len() - i,
    {
        let (name, value) = params[i];
        proof {
            assert(encoded[i as int] == (percent_encode(name@), percent_encode(value@)));
            assert(encoded.take(i + 1) =~= encoded.take(i as int).push(encoded[i as int]));
            to_multiset_build(encoded.take(i as int), encoded[i as int]);
        }
        insert_sorted(&mut out, uri_encode(name), uri_encode(value));
        i += 1;
    }
    proof {
        assert(encoded.take(i as int) =~= encoded);
        lemma_sorted_pairs(encoded, out.deep_view());
    }
    out
}

/// Normalises the headers and sorts them.
pub fn sorted_headers(headers: &[(&str, &str)]) -> (out: Vec<(String, String)>)
    ensures
        out.deep_view() == canonical_header_list(headers.deep_view()),
{
    let ghost normal = headers.deep_view().map_values(|h: Pair| normalize_header(h));
    let mut out: Vec<(String, String)> = Vec::new();
    let mut i: usize = 0;
    assert(out.deep_view() =~= normal.take(0));
    while i < headers.len()
        invariant
            i <= headers.len(),
            normal == headers.deep_view().map_values(|h: Pair| normalize_header(h)),
            sorted_by(out.deep_view(), pair_order()),
            out.deep_view().to_multiset() == normal.take(i as int).to_multiset(),
        decreases headers.len() - i,
    {
        let (name, value) = headers[i];
        proof {
            assert(normal[i as int] == (lowercase(name@), squeeze(value@)));
            assert(normal.take(i + 1) =~= normal.take(i as int).push(normal[i as int]));
            to_multiset_build(normal.take(i as int), normal[i as int]);
        }
        insert_sorted(&mut out, to_lowercase(name), squeeze_blanks(value));
        i += 1;
    }
    proof {
        assert(normal.take(i as int) =~= normal);
        lemma_sorted_pairs(normal, out.deep_view());
    }
    out
}

/// Writes the pairs as `name=value`, joined by `&`.
pub fn render_query(list: &Vec<(String, String)>) -> (out: String)
    ensures
        out@ == query_text(list.deep_view()),
{
    let ghost pairs = list.deep_view();
    let mut out = String::new();
    let mut i: usize = 0;
    while i < list.len()
        invariant
            i <= list.len(),
            pairs == list.deep_view(),
            out@ == query_text(pairs.take(i as int)),
        decreases list.len() - i,
    {
        let ghost before = out@;
        proof {
            let next = pairs.take(i + 1);
            assert(next.drop_last() =~= pairs.take(i as int));
            assert(next.last() == (list[i as int].0@, list[i as int].1@));
        }
        if i > 0 {
            out.push('&');
        }
        out.append(list[i].0.as_str());
        out.push('=');
        out.append(list[i].1.as_str());
        proof {
            let (n, v) = (list[i as int].0@, list[i as int].1@);
            if i > 0 {
                assert(out@ =~= before + seq!['&'] + n + seq!['='] + v);
            } else {
                assert(out@ =~= n + seq!['='] + v);
            }
        }
        i += 1;
    }
    assert(pairs.take(i as int) =~= pairs);
    out
}

/// Writes the pairs as lines of `name:value`.
pub fn render_header_lines(list: &Vec<(String, String)>) -> (out: String)
    ensures
        out@ == header_lines(list.deep_view()),
{
    let ghost pairs = list.deep_view();
    let mut out = String::new();
    let mut i: usize = 0;
    while i < list.len()
        invariant
            i <= list.len(),
            pairs == list.deep_view(),
            out@ == header_lines(pairs.take(i as int)),
        decreases list.len() - i,
    {
        let ghost before = out@;
        proof {
            let next = pairs.take(i + 1);
            assert(next.drop_last() =~= pairs.take(i as int));
            assert(next.last() == (list[i as int].0@, list[i as int].1@));
        }
        out.append(list[i].0.as_str());
        out.push(':');
        out.append(list[i].1.as_str());
        out.push('\n');
        assert(out@ =~= before + list[i as int].0@ + seq![':'] + list[i as int].1@ + seq!['\n']);
        i += 1;
    }
    assert(pairs.take(i as int) =~= pairs);
    out
}

/// Writes the names of the pairs, joined by `;`.
pub fn render_names(list: &Vec<(String, String)>) -> (out: String)
    ensures
        out@ == joined_names(list.deep_view()),
{
    let ghost pairs = list.deep_view();
    let mut out = String::new();
    let mut i: usize = 0;
    while i < list.len()
        invariant
            i <= list.len(),
            pairs == list.deep_view(),
            out@ == joined_names(pairs.take(i as int)),
        decreases list.len() - i,
    {
        let ghost before = out@;
        proof {
            let next = pairs.take(i + 1);
            assert(next.drop_last() =~= pairs.take(i as int));
            assert(next.last() == (list[i as int].0@, list[i as int].1@));
        }
        if i > 0 {
            out.push(';');
        }
        out.append(list[i].0.as_str());
        proof {
            if i > 0 {
                assert(out@ =~= before + seq![';'] + list[i as int].0@);
            } else {
                assert(out@ =~= list[i as int].0@);
            }
        }
        i += 1;
    }
    assert(pairs.take(i as int) =~= pairs);
    out
}

/// The canonical query string of `params`.
pub fn canonical_query_string(params: &[(&str, &str)]) -> (out: String)
    ensures
        out@ == canonical_query(params.deep_view()),
{
    let list = sorted_params(params);
    render_query(&list)
}

/// The canonical headers block of `headers`.
pub fn canonical_headers(headers: &[(&str, &str)]) -> (out: String)
    ensures
        out@ == canonical_headers_text(headers.deep_view()),
{
    let list = sorted_headers(headers);
    render_header_lines(&list)
}

/// The signed-headers list of `headers`: the text that the authorization
/// value names the signed headers by.
pub fn signed_headers(headers: &[(&str, &str)]) -> (out: String)
    ensures
        out@ == signed_headers_text(headers.deep_view()),
{
    let list = sorted_headers(headers);
    render_names(&list)
}

/// The payload hash. An empty payload is hashed like any other, so the
/// result always has 64 digits.
pub fn hash_payload(payload: &[u8]) -> (out: String)
    ensures
        out@ == payload_hash_text(payload@),
        out@.len() == 64,
{
    let digest = sha256_digest(payload);
    to_hex(digest.as_slice())
}

/// Writes the six parts of a canonical request.
pub fn join_six(
    method: &str,
    uri_path: &str,
    query: &str,
    headers_block: &str,
    signed_headers: &str,
    payload_hash: &str,
) -> (out: String)
    ensures
        out@ == six_parts(
            method@,
            uri_path@,
            query@,
            headers_block@,
            signed_headers@,
            payload_hash@,
        ),
{
    let mut out = String::from_str(method);
    out.push('\n');
    out.append(uri_path);
    out.push('\n');
    out.append(query);
    out.push('\n');
    out.append(headers_block);
    out.push('\n');
    out.append(signed_headers);
    out.push('\n');
    out.append(payload_hash);
    assert(out@ =~= six_parts(
        method@,
        uri_path@,
        query@,
        headers_block@,
        signed_headers@,
        payload_hash@,
    ));
    out
}

/// A request as it is signed: parameters and headers in canonical order,
/// the payload already hashed, and the two timestamps of one instant.
pub struct SigningRequest {
    pub method: String,
    pub canonical_uri: String,
    /// Name and value percent-encoded.
    pub query_params: Vec<(String, String)>,
    /// Name in small letters, value squeezed.
    pub headers_to_sign: Vec<(String, String)>,
    pub payload_hash: String,
    /// `YYYYMMDDTHHMMSSZ`.
    pub timestamp_full: String,
    /// `YYYYMMDD`.
    pub timestamp_date: String,
}

impl SigningRequest {
    /// Parameters and headers are sorted, and every header is normal.
    pub open spec fn wf(&self) -> bool {
        &&& sorted_by(self.query_params.deep_view(), pair_order())
        &&& sorted_by(self.headers_to_sign.deep_view(), pair_order())
        &&& forall|i: int|
            0 <= i < self.headers_to_sign.deep_view().len() ==> is_normal_header(
                #[trigger] self.headers_to_sign.deep_view()[i],
            )
    }

    /// The canonical request that the fields spell.
    pub open spec fn canonical_text(&self) -> Seq<char> {
        six_parts(
            self.method@,
            self.canonical_uri@,
            query_text(self.query_params.deep_view()),
            header_lines(self.headers_to_sign.deep_view()),
            joined_names(self.headers_to_sign.deep_view()),
            self.payload_hash@,
        )
    }

    /// Takes a request as the caller has it and brings it into order:
    /// encodes and sorts the parameters, normalises and sorts the headers,
    /// hashes the payload.
    pub fn new(
        method: &str,
        uri_path: &str,
        query_params: &[(&str, &str)],
        headers: &[(&str, &str)],
        payload: &[u8],
        timestamp_full: &str,
        timestamp_date: &str,
    ) -> (r: SigningRequest)
        ensures
            r.wf(),
            r.method@ == method@,
            r.canonical_uri@ == uri_path@,
            r.query_params.deep_view() == canonical_param_list(query_params.deep_view()),
            r.headers_to_sign.deep_view() == canonical_header_list(headers.deep_view()),
            r.payload_hash@ == payload_hash_text(payload@),
            r.timestamp_full@ == timestamp_full@,
            r.timestamp_date@ == timestamp_date@,
            r.canonical_text() == canonical_request_text(
                method@,
                uri_path@,
                query_params.deep_view(),
                headers.deep_view(),
                payload@,
            ),
    {
        let query_list = sorted_params(query_params);
        let header_list = sorted_headers(headers);
        proof {
            lemma_sorted_pairs(
                query_params.deep_view().map_values(|p: Pair| encode_pair(p)),
                query_list.deep_view(),
            );
            lemma_canonical_header_list(headers.deep_view());
        }
        SigningRequest {
            method: String::from_str(method),
            canonical_uri: String::from_str(uri_path),
            query_params: query_list,
            headers_to_sign: header_list,
            payload_hash: hash_payload(payload),
            timestamp_full: String::from_str(timestamp_full),
            timestamp_date: String::from_str(timestamp_date),
        }
    }

    /// Writes the canonical request.
    pub fn canonical_request(&self) -> (out: String)
        ensures
            out@ == self.canonical_text(),
    {
        join_six(
            self.method.as_str(),
            self.canonical_uri.as_str(),
            render_query(&self.query_params).as_str(),
            render_header_lines(&self.headers_to_sign).as_str(),
            render_names(&self.headers_to_sign).as_str(),
            self.payload_hash.as_str(),
        )
    }

    /// Writes the signed-headers list.
    pub fn signed_headers(&self) -> (out: String)
        ensures
            out@ == joined_names(self.headers_to_sign.deep_view()),
    {
        render_names(&self.headers_to_sign)
    }
}

/// Puts a request into canonical form.
///
/// The path is taken as it is given: an empty path is the caller's to
/// replace by `/`.
pub fn canonicalize(
    method: &str,
    uri_path: &str,
    query_params: &[(&str, &str)],
    headers: &[(&str, &str)],
    payload: &[u8],
) -> (out: String)
    requires
        uri_path@.len() > 0,
    ensures
        out@ == canonical_request_text(
            method@,
            uri_path@,
            query_params.deep_view(),
            headers.deep_view(),
            payload@,
        ),
{
    let header_list = sorted_headers(headers);
    join_six(
        method,
        uri_path,
        canonical_query_string(query_params).as_str(),
        render_header_lines(&header_list).as_str(),
        render_names(&header_list).as_str(),
        hash_payload(payload).as_str(),
    )
}

} // verus!
