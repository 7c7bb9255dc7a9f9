//! SHA-2 digests and their hexadecimal form.

use vstd::prelude::*;

verus! {

/// The digest that `sha2::Sha224` makes of some bytes.
pub uninterp spec fn sha224(bytes: Seq<u8>) -> Seq<u8>;

/// The digest that `sha2::Sha256` makes of some bytes.
pub uninterp spec fn sha256(bytes: Seq<u8>) -> Seq<u8>;

/// The digest that `sha2::Sha384` makes of some bytes.
pub uninterp spec fn sha384(bytes: Seq<u8>) -> Seq<u8>;

/// The digest that `sha2::Sha512` makes of some bytes.
pub uninterp spec fn sha512(bytes: Seq<u8>) -> Seq<u8>;

/// The lower case hexadecimal digit of a number below 16.
pub open spec fn hex_digit(d: int) -> char {
    if d < 10 {
        (('0' as u32) + d) as char
    } else {
        (('a' as u32) + (d - 10)) as char
    }
}

/// Bytes in hexadecimal: two digits for each, the upper half first.
pub open spec fn hex_text(bytes: Seq<u8>) -> Seq<char> {
    Seq::new(
        (2 * bytes.len()) as nat,
        |i: int|
            if i % 2 == 0 {
                hex_digit(bytes[i / 2] as int / 16)
            } else {
                hex_digit(bytes[i / 2] as int % 16)
            },
    )
}

/// Calls `sha2::Sha224::digest`. The 28 bytes of the digest depend on the bytes alone.
#[verifier::external_body]
pub(crate) fn sha224_of(bytes: &[u8]) -> (r: Vec<u8>)
    ensures
        r@ == sha224(bytes@),
        r@.len() == 28,
{
    <sha2::Sha224 as sha2::Digest>::digest(bytes).to_vec()
}

/// Calls `sha2::Sha256::digest`. The 32 bytes of the digest depend on the bytes alone.
#[verifier::external_body]
pub(crate) fn sha256_of(bytes: &[u8]) -> (r: Vec<u8>)
    ensures
        r@ == sha256(bytes@),
        r@.len() == 32,
{
    <sha2::Sha256 as sha2::Digest>::digest(bytes).to_vec()
}

/// Calls `sha2::Sha384::digest`. The 48 bytes of the digest depend on the bytes alone.
#[verifier::external_body]
pub(crate) fn sha384_of(bytes: &[u8]) -> (r: Vec<u8>)
    ensures
        r@ == sha384(bytes@),
        r@.len() == 48,
{
    <sha2::Sha384 as sha2::Digest>::digest(bytes).to_vec()
}

/// Calls `sha2::Sha512::digest`. The 64 bytes of the digest depend on the bytes alone.
#[verifier::external_body]
pub(crate) fn sha512_of(bytes: &[u8]) -> (r: Vec<u8>)
    ensures
        r@ == sha512(bytes@),
        r@.len() == 64,
{
    <sha2::Sha512 as sha2::Digest>::digest(bytes).to_vec()
}

/// Calls `hex::encode`, which writes two lower case hexadecimal digits for each byte. The text has
/// twice as many characters as there are bytes, which has to be a number that a length can be.
#[verifier::external_body]
pub(crate) fn hex_encode(bytes: &[u8]) -> (r: String)
    requires
        2 * bytes@.len() <= isize::MAX,
    ensures
        r@ == hex_text(bytes@),
{
    hex::encode(bytes)
}

} // verus!
