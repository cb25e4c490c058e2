//! SHA-256 check of a downloaded firmware image against the lower-case hex
//! digest that the manifest lists.
use crate::text::spec_bytes_hex_lower;
use vstd::prelude::*;
use vstd::string::StringExecFns;

verus! {

/// The SHA-256 digest of `data` (as computed by the `sha2` crate).
pub uninterp spec fn spec_sha256(data: Seq<u8>) -> Seq<u8>;

/// `sha2::Sha256::digest`: the SHA-256 digest of `data`, which is 32 bytes long.
#[verifier::external_body]
fn sha256_digest(data: &[u8]) -> (r: Vec<u8>)
    ensures
        r@ == spec_sha256(data@),
        r@.len() == 32,
{
    <sha2::Sha256 as sha2::Digest>::digest(data).to_vec()
}

/// `hex::encode`: each byte as two lower-case hex digits, in order.
#[verifier::external_body]
fn hex_encode(data: &[u8]) -> (r: String)
    ensures
        r@ == spec_bytes_hex_lower(data@),
{
    hex::encode(data)
}

/// The lower-case hex SHA-256 digest of `data`.
pub open spec fn spec_sha256_hex(data: Seq<u8>) -> Seq<char> {
    spec_bytes_hex_lower(spec_sha256(data))
}

/// A digest that differs from the expected one.
#[derive(Debug, Clone, PartialEq, Eq)]
pub struct DigestMismatch {
    pub expected: String,
    pub got: String,
}

/// Returns the lower-case hex SHA-256 digest of `data`.
pub fn sha256_hex(data: &[u8]) -> (r: String)
    ensures
        r@ == spec_sha256_hex(data@),
{
    let hash = sha256_digest(data);
    hex_encode(hash.as_slice())
}

/// Compares the hex digest computed for an image with the expected one:
/// exactly equal text passes; otherwise both are reported.
pub fn compare_digest(hash_hex: String, expected_sha256: &str) -> (r: Result<(), DigestMismatch>)
    ensures
        r is Ok <==> hash_hex@ == expected_sha256@,
        r matches Err(m) ==> m.expected@ == expected_sha256@ && m.got@ == hash_hex@,
{
    let expected = String::from_str(expected_sha256);
    if hash_hex != expected {
        return Err(DigestMismatch { expected, got: hash_hex });
    }
    Ok(())
}

/// Verifies a firmware image against its expected SHA-256 hex digest; the
/// comparison is exact (the digest is computed in lower case).
pub fn check_firmware_sha256(data: &[u8], expected_sha256: &str) -> (r: Result<(), DigestMismatch>)
    ensures
        r is Ok <==> spec_sha256_hex(data@) == expected_sha256@,
        r matches Err(m) ==> m.expected@ == expected_sha256@ && m.got@ == spec_sha256_hex(data@),
{
    let hash_hex = sha256_hex(data);
    compare_digest(hash_hex, expected_sha256)
}

} // verus!
