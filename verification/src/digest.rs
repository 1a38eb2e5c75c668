//! SHA-256 digests in hexadecimal notation.

use crate::text;
use sha2::Digest;
use vstd::prelude::*;

verus! {

/// The SHA-256 digest of some bytes.
pub uninterp spec fn sha256(bytes: Seq<u8>) -> Seq<u8>;

/// `Sha256::digest` of the crate `sha2`: the 32 bytes of the digest.
#[verifier::external_body]
fn sha256_of(bytes: &[u8]) -> (digest: Vec<u8>)
    ensures
        digest@ == sha256(bytes@),
        digest@.len() == 32,
{
    sha2::Sha256::digest(bytes).to_vec()
}

/// The character of a hexadecimal digit, in lower case.
pub open spec fn hex_digit(value: int) -> char {
    if value < 10 {
        (48 + value) as char
    } else {
        (87 + value) as char
    }
}

/// Bytes in hexadecimal notation: two digits for each, the higher one first.
pub open spec fn hex(bytes: Seq<u8>) -> Seq<char> {
    Seq::new(
        2 * bytes.len(),
        |i: int|
            hex_digit(
                if i % 2 == 0 {
                    bytes[i / 2] as int / 16
                } else {
                    bytes[i / 2] as int % 16
                },
            ),
    )
}

/// `hex::encode` of the crate `hex`: two digits for each byte, the higher one first, in
/// lower case.
#[verifier::external_body]
fn hex_text(bytes: &[u8]) -> (text: String)
    ensures
        text@ == hex(bytes@),
{
    hex::encode(bytes)
}

/// A digest in hexadecimal notation.
pub fn digest_text(digest: &[u8]) -> (text: String)
    ensures
        text@ == hex(digest@),
{
    hex_text(digest)
}

/// The SHA-256 digest of some bytes, in hexadecimal notation.
pub fn sha256_hex(bytes: &[u8]) -> (text: String)
    ensures
        text@ == hex(sha256(bytes@)),
        text@.len() == 64,
{
    let digest = sha256_of(bytes);
    digest_text(digest.as_slice())
}

proof fn lemma_hex_digits_differ(a: int, b: int)
    requires
        0 <= a < 16,
        0 <= b < 16,
    ensures
        hex_digit(a) == hex_digit(b) <==> a == b,
        text::is_digit(hex_digit(a)) || 'a' <= hex_digit(a) <= 'f',
{
}

/// Different bytes have different hexadecimal notations, of two lower-case digits for each byte.
pub proof fn law_hexadecimal_tells_bytes_apart(bytes: Seq<u8>, other: Seq<u8>)
    ensures
        hex(bytes).len() == 2 * bytes.len(),
        hex(bytes) == hex(other) <==> bytes == other,
        forall|i: int|
            0 <= i < hex(bytes).len() ==> text::is_digit(#[trigger] hex(bytes)[i]) || 'a' <= hex(
                bytes,
            )[i] <= 'f',
{
    assert forall|i: int| 0 <= i < hex(bytes).len() implies text::is_digit(#[trigger] hex(bytes)[i])
        || 'a' <= hex(bytes)[i] <= 'f' by {
        lemma_hex_digits_differ(bytes[i / 2] as int / 16, 0);
        lemma_hex_digits_differ(bytes[i / 2] as int % 16, 0);
    }
    if hex(bytes) == hex(other) {
        assert(hex(bytes).len() == hex(other).len());
        assert forall|i: int| 0 <= i < bytes.len() implies bytes[i] == other[i] by {
            let (a, b) = (bytes[i] as int, other[i] as int);
            assert((2 * i) / 2 == i && (2 * i) % 2 == 0);
            assert((2 * i + 1) / 2 == i && (2 * i + 1) % 2 == 1);
            assert(hex(bytes)[2 * i] == hex_digit(a / 16));
            assert(hex(other)[2 * i] == hex_digit(b / 16));
            assert(hex(bytes)[2 * i + 1] == hex_digit(a % 16));
            assert(hex(other)[2 * i + 1] == hex_digit(b % 16));
            lemma_hex_digits_differ(a / 16, b / 16);
            lemma_hex_digits_differ(a % 16, b % 16);
        }
        assert(bytes =~= other);
    }
}

} // verus!
