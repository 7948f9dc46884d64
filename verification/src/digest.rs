//! SHA-256 digests and hexadecimal notation.

use sha2::Digest;
use vstd::prelude::*;

verus! {

/// The SHA-256 digest of some bytes.
pub uninterp spec fn sha256(data: Seq<u8>) -> Seq<u8>;

/// `Sha256::digest`: the 32 bytes of the digest.
#[verifier::external_body]
pub(crate) fn sha256_digest(data: &[u8]) -> (digest: Vec<u8>)
    ensures
        digest@ == sha256(data@),
        digest@.len() == 32,
{
    sha2::Sha256::digest(data).to_vec()
}

/// A hexadecimal digit, in lower case.
pub open spec fn hex_digit(n: int) -> char {
    if n < 10 {
        ('0' as int + n) as char
    } else {
        ('a' as int + n - 10) as char
    }
}

/// Bytes in hexadecimal notation, two lower case digits each.
pub open spec fn hex_text(data: Seq<u8>) -> Seq<char> {
    Seq::new(
        2 * data.len(),
        |i: int|
            if i % 2 == 0 {
                hex_digit(data[i / 2] as int / 16)
            } else {
                hex_digit(data[i / 2] as int % 16)
            },
    )
}

/// Whether a character is a hexadecimal digit, in either case.
pub open spec fn is_hex_digit(c: char) -> bool {
    '0' <= c <= '9' || 'a' <= c <= 'f' || 'A' <= c <= 'F'
}

/// The value of a hexadecimal digit.
pub open spec fn hex_value(c: char) -> int {
    if '0' <= c <= '9' {
        c as int - '0' as int
    } else if 'a' <= c <= 'f' {
        c as int - 'a' as int + 10
    } else {
        c as int - 'A' as int + 10
    }
}

/// Whether a text spells bytes in hexadecimal notation.
pub open spec fn is_hex(s: Seq<char>) -> bool {
    s.len() % 2 == 0 && forall|i: int| 0 <= i < s.len() ==> is_hex_digit(#[trigger] s[i])
}

/// The bytes that a text spells.
pub open spec fn unhex(s: Seq<char>) -> Seq<u8> {
    Seq::new(s.len() / 2, |i: int| (16 * hex_value(s[2 * i]) + hex_value(s[2 * i + 1])) as u8)
}

/// What is said of a text that does not spell bytes.
pub uninterp spec fn hex_complaint(s: Seq<char>) -> Seq<char>;

/// `hex::decode`: the bytes that the text spells, where it has an even number
/// of hexadecimal digits and nothing else; otherwise the text of the error.
#[verifier::external_body]
pub(crate) fn hex_decode(s: &str) -> (r: Result<Vec<u8>, String>)
    ensures
        r is Ok <==> is_hex(s@),
        r matches Ok(bytes) ==> bytes@ == unhex(s@),
        r matches Err(e) ==> e@ == hex_complaint(s@),
{
    hex::decode(s).map_err(|e| e.to_string())
}

/// `hex::encode`: the bytes in hexadecimal notation, two lower case digits
/// each.
#[verifier::external_body]
pub(crate) fn hex_encode(data: &[u8]) -> (s: String)
    ensures
        s@ == hex_text(data@),
{
    hex::encode(data)
}

/// Whether a character is a hexadecimal digit.
pub(crate) fn char_is_hex(c: char) -> (r: bool)
    ensures
        r == is_hex_digit(c),
{
    ('0' <= c && c <= '9') || ('a' <= c && c <= 'f') || ('A' <= c && c <= 'F')
}

/// Reading what was written in hexadecimal notation gives back the bytes.
pub proof fn law_hex_round_trip(data: Seq<u8>)
    ensures
        is_hex(hex_text(data)),
        unhex(hex_text(data)) == data,
{
    let s = hex_text(data);
    assert forall|i: int| 0 <= i < s.len() implies is_hex_digit(#[trigger] s[i]) by {
        let b = data[i / 2] as int;
        assert(0 <= b / 16 < 16 && 0 <= b % 16 < 16);
    }
    assert forall|i: int| 0 <= i < data.len() implies unhex(s)[i] == data[i] by {
        let b = data[i] as int;
        assert((2 * i) / 2 == i && (2 * i + 1) / 2 == i);
        assert((2 * i) % 2 == 0 && (2 * i + 1) % 2 == 1);
        assert(s[2 * i] == hex_digit(b / 16));
        assert(s[2 * i + 1] == hex_digit(b % 16));
        assert(0 <= b / 16 < 16 && 0 <= b % 16 < 16);
        assert(16 * (b / 16) + b % 16 == b);
    }
    assert(unhex(s) =~= data);
}

/// The short fingerprint of a key: the first eight bytes of its digest.
pub open spec fn short_fingerprint(key: Seq<u8>) -> Seq<char> {
    hex_text(sha256(key).subrange(0, 8))
}

/// The short fingerprint of a key: sixteen hexadecimal digits.
pub fn fingerprint_of_bytes(key: &[u8]) -> (s: String)
    ensures
        s@ == short_fingerprint(key@),
        s@.len() == 16,
        forall|i: int| 0 <= i < 16 ==> is_hex_digit(#[trigger] s@[i]),
{
    let digest = sha256_digest(key);
    let s = hex_encode(vstd::slice::slice_subrange(digest.as_slice(), 0, 8));
    proof {
        law_hex_round_trip(digest@.subrange(0, 8));
    }
    s
}

/// Every byte takes two digits in lower case, the upper half first.
pub proof fn law_hex_layout(data: Seq<u8>, i: int)
    requires
        0 <= i < data.len(),
    ensures
        hex_text(data).len() == 2 * data.len(),
        hex_value(hex_text(data)[2 * i]) == data[i] / 16,
        hex_value(hex_text(data)[2 * i + 1]) == data[i] % 16,
        !('A' <= hex_text(data)[2 * i] <= 'F'),
        !('A' <= hex_text(data)[2 * i + 1] <= 'F'),
{
    assert((2 * i) / 2 == i && (2 * i + 1) / 2 == i);
    assert((2 * i) % 2 == 0 && (2 * i + 1) % 2 == 1);
}

} // verus!
