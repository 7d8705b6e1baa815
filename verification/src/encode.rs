//! Percent-encoding of query names and values.

use vstd::prelude::*;
use vstd::utf8::{encode_utf8, is_ascii_chars, is_ascii_chars_encode_utf8};
use crate::hex::{upper_digit, upper_hex_digit};

verus! {

/// Letters, digits, hyphen, underscore, full stop and tilde: the bytes that
/// are written as they are.
pub open spec fn is_unreserved(b: u8) -> bool {
    (0x41 <= b && b <= 0x5a) || (0x61 <= b && b <= 0x7a) || (0x30 <= b && b <= 0x39) || b == 0x2d
        || b == 0x5f || b == 0x2e || b == 0x7e
}

/// An unreserved byte stands for itself; any other byte, the space too,
/// becomes `%` and its two capital hexadecimal digits.
pub open spec fn encode_byte(b: u8) -> Seq<char> {
    if is_unreserved(b) {
        seq![b as char]
    } else {
        seq!['%', upper_hex_digit(b / 16), upper_hex_digit(b % 16)]
    }
}

/// The encodings of the bytes, one after the other.
pub open spec fn percent_encode_bytes(bytes: Seq<u8>) -> Seq<char>
    decreases bytes.len(),
{
    if bytes.len() == 0 {
        Seq::empty()
    } else {
        percent_encode_bytes(bytes.drop_last()) + encode_byte(bytes.last())
    }
}

/// The percent-encoding of the UTF-8 bytes of `s`.
pub open spec fn percent_encode(s: Seq<char>) -> Seq<char> {
    percent_encode_bytes(encode_utf8(s))
}

/// Every character of `s` is an unreserved one.
pub open spec fn is_unreserved_text(s: Seq<char>) -> bool {
    &&& is_ascii_chars(s)
    &&& forall|i: int| #![trigger s[i]] 0 <= i < s.len() ==> is_unreserved(s[i] as u8)
}

/// Bytes that are all unreserved are encoded as the characters they are.
pub proof fn lemma_unreserved_bytes_are_kept(bytes: Seq<u8>)
    requires
        forall|i: int| 0 <= i < bytes.len() ==> is_unreserved(#[trigger] bytes[i]),
    ensures
        percent_encode_bytes(bytes) == Seq::new(bytes.len(), |i: int| bytes[i] as char),
    decreases bytes.len(),
{
    if bytes.len() > 0 {
        let front = bytes.drop_last();
        assert forall|i: int| 0 <= i < front.len() implies is_unreserved(#[trigger] front[i]) by {
            assert(front[i] == bytes[i]);
        }
        lemma_unreserved_bytes_are_kept(front);
        assert(is_unreserved(bytes[bytes.len() - 1]));
        assert(percent_encode_bytes(bytes) =~= Seq::new(bytes.len(), |i: int| bytes[i] as char));
    } else {
        assert(percent_encode_bytes(bytes) =~= Seq::new(bytes.len(), |i: int| bytes[i] as char));
    }
}

/// A text of unreserved characters is its own encoding.
pub proof fn lemma_unreserved_text_is_kept(s: Seq<char>)
    requires
        is_unreserved_text(s),
    ensures
        percent_encode(s) == s,
{
    is_ascii_chars_encode_utf8(s);
    let bytes = encode_utf8(s);
    assert forall|i: int| 0 <= i < bytes.len() implies is_unreserved(#[trigger] bytes[i]) by {
        assert(bytes[i] == s[i] as u8);
    }
    lemma_unreserved_bytes_are_kept(bytes);
    assert(percent_encode(s) =~= s) by {
        assert forall|i: int| 0 <= i < s.len() implies (bytes[i] as char) == s[i] by {
            assert(bytes[i] == s[i] as u8);
            assert('\0' <= s[i] <= '\u{7f}');
        }
    }
}

/// Tells whether `b` is written as it is.
pub fn unreserved(b: u8) -> (r: bool)
    ensures
        r == is_unreserved(b),
{
    (0x41 <= b && b <= 0x5a) || (0x61 <= b && b <= 0x7a) || (0x30 <= b && b <= 0x39) || b == 0x2d
        || b == 0x5f || b == 0x2e || b == 0x7e
}

/// Percent-encodes `s`.
pub fn uri_encode(s: &str) -> (out: String)
    ensures
        out@ == percent_encode(s@),
{
    let bytes = s.as_bytes();
    let mut out = String::new();
    let mut i: usize = 0;
    while i < bytes.len()
        invariant
            i <= bytes.len(),
            out@ == percent_encode_bytes(bytes@.take(i as int)),
        decreases bytes.len() - i,
    {
        let b = bytes[i];
        proof {
            let next = bytes@.take(i + 1);
            assert(next.drop_last() =~= bytes@.take(i as int));
            assert(next.last() == b);
        }
        let ghost before = out@;
        if unreserved(b) {
            out.push(b as char);
            assert(out@ =~= before + encode_byte(b));
        } else {
            out.push('%');
            out.push(upper_digit(b / 16));
            out.push(upper_digit(b % 16));
            assert(out@ =~= before + encode_byte(b));
        }
        i += 1;
    }
    assert(bytes@.take(i as int) =~= bytes@);
    out
}

} // verus!
