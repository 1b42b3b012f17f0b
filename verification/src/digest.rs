//! Checksums of downloaded files.
//!
//! The length of a declared digest tells the algorithm: 40 hexadecimal
//! characters are SHA-1, 64 are SHA-256, 128 are SHA-512. The hash
//! functions themselves come from the `sha1` and `sha2` crates and are
//! named here, not restated.

use crate::error::{BuildError, ErrorView};
use sha1::Digest;
use vstd::prelude::*;

verus! {

/// The SHA-1 hash of `data` (`sha1::Sha1`).
pub uninterp spec fn sha1_digest(data: Seq<u8>) -> Seq<u8>;

/// The SHA-256 hash of `data` (`sha2::Sha256`).
pub uninterp spec fn sha256_digest(data: Seq<u8>) -> Seq<u8>;

/// The SHA-512 hash of `data` (`sha2::Sha512`).
pub uninterp spec fn sha512_digest(data: Seq<u8>) -> Seq<u8>;

/// The hexadecimal digit of a value below sixteen, in lower case.
pub open spec fn spec_hex_digit(n: int) -> char {
    if n < 10 {
        ('0' as u8 + n) as char
    } else {
        ('a' as u8 + n - 10) as char
    }
}

/// Two lower-case hexadecimal digits for every byte.
pub open spec fn spec_hex_encode(bytes: Seq<u8>) -> Seq<char>
    decreases bytes.len(),
{
    if bytes.len() == 0 {
        Seq::empty()
    } else {
        spec_hex_encode(bytes.drop_last()) + seq![
            spec_hex_digit(bytes.last() as int / 16),
            spec_hex_digit(bytes.last() as int % 16),
        ]
    }
}

/// Hashes `data` with SHA-1.
///
/// Trusted: stands for `sha1::Sha1::digest`. The contract only names the
/// result; it is a function of the bytes alone.
#[verifier::external_body]
pub(crate) fn sha1_of(data: &[u8]) -> (r: Vec<u8>)
    ensures
        r@ == sha1_digest(data@),
{
    sha1::Sha1::digest(data).as_slice().to_vec()
}

/// Hashes `data` with SHA-256.
///
/// Trusted: stands for `sha2::Sha256::digest`. The contract only names the
/// result; it is a function of the bytes alone.
#[verifier::external_body]
pub(crate) fn sha256_of(data: &[u8]) -> (r: Vec<u8>)
    ensures
        r@ == sha256_digest(data@),
{
    sha2::Sha256::digest(data).as_slice().to_vec()
}

/// Hashes `data` with SHA-512.
///
/// Trusted: stands for `sha2::Sha512::digest`. The contract only names the
/// result; it is a function of the bytes alone.
#[verifier::external_body]
pub(crate) fn sha512_of(data: &[u8]) -> (r: Vec<u8>)
    ensures
        r@ == sha512_digest(data@),
{
    sha2::Sha512::digest(data).as_slice().to_vec()
}

/// Writes bytes as lower-case hexadecimal text.
///
/// Trusted: stands for `hex::encode`, which writes two lower-case
/// hexadecimal digits for every byte, the high half first.
#[verifier::external_body]
pub(crate) fn hex_of(bytes: &Vec<u8>) -> (r: String)
    ensures
        r@ == spec_hex_encode(bytes@),
{
    hex::encode(bytes)
}

/// A hash function for checksums.
#[derive(Debug, Clone, Copy, PartialEq, Eq, Structural)]
pub enum DigestAlgorithm {
    Sha1,
    Sha256,
    Sha512,
}

/// The algorithm whose digest has `len` hexadecimal characters.
pub open spec fn spec_algorithm(len: int) -> Option<DigestAlgorithm> {
    if len == 40 {
        Some(DigestAlgorithm::Sha1)
    } else if len == 64 {
        Some(DigestAlgorithm::Sha256)
    } else if len == 128 {
        Some(DigestAlgorithm::Sha512)
    } else {
        None
    }
}

/// The hash of `data` under an algorithm.
pub open spec fn spec_hash(a: DigestAlgorithm, data: Seq<u8>) -> Seq<u8> {
    match a {
        DigestAlgorithm::Sha1 => sha1_digest(data),
        DigestAlgorithm::Sha256 => sha256_digest(data),
        DigestAlgorithm::Sha512 => sha512_digest(data),
    }
}

/// The checksum of `data` as a digest of `len` characters would state it.
pub open spec fn spec_checksum(data: Seq<u8>, len: int) -> Option<Seq<char>> {
    match spec_algorithm(len) {
        Some(a) => Some(spec_hex_encode(spec_hash(a, data))),
        None => None,
    }
}

impl DigestAlgorithm {
    /// The algorithm for a declared digest of `len` characters.
    pub fn for_length(len: usize) -> (r: Option<DigestAlgorithm>)
        ensures
            r == spec_algorithm(len as int),
    {
        if len == 40 {
            Some(DigestAlgorithm::Sha1)
        } else if len == 64 {
            Some(DigestAlgorithm::Sha256)
        } else if len == 128 {
            Some(DigestAlgorithm::Sha512)
        } else {
            None
        }
    }

    /// The hash of `data`.
    pub fn hash(&self, data: &[u8]) -> (r: Vec<u8>)
        ensures
            r@ == spec_hash(*self, data@),
    {
        match self {
            DigestAlgorithm::Sha1 => sha1_of(data),
            DigestAlgorithm::Sha256 => sha256_of(data),
            DigestAlgorithm::Sha512 => sha512_of(data),
        }
    }
}

/// Computes the checksum of a file from its contents `data`, in the form
/// of a declared digest of `expected_len` characters. Other lengths than 40, 64 and 128 are
/// refused.
pub fn calculate_file_checksum(data: &[u8], expected_len: usize) -> (r: Result<String, BuildError>)
    ensures
        match r {
            Ok(s) => spec_checksum(data@, expected_len as int) == Some(s@),
            Err(e) => spec_checksum(data@, expected_len as int) is None && e@
                == (ErrorView::UnsupportedDigest { length: expected_len }),
        },
{
    match DigestAlgorithm::for_length(expected_len) {
        Some(a) => {
            let h = a.hash(data);
            Ok(hex_of(&h))
        },
        None => Err(BuildError::UnsupportedDigest { length: expected_len }),
    }
}

} // verus!
