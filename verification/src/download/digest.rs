//! Content digests, as lower-case hexadecimal text.

use sha2::Digest;
use vstd::prelude::*;

verus! {

/// The SHA-256 digest of `content`.
pub uninterp spec fn sha256_of(content: Seq<u8>) -> Seq<u8>;

/// `sha2::Sha256::digest` of `content`, as a vector of bytes. The contract
/// only gives the digest its name.
#[verifier::external_body]
fn sha256(content: &[u8]) -> (digest: Vec<u8>)
    ensures
        digest@ == sha256_of(content@),
{
    sha2::Sha256::digest(content).to_vec()
}

/// The lower-case hexadecimal digit of a value below 16.
pub open spec fn hex_digit(nibble: int) -> u8 {
    if nibble < 10 {
        (0x30 + nibble) as u8
    } else {
        (0x61 + nibble - 10) as u8
    }
}

/// The bytes in lower-case hexadecimal, two digits each, high digit first.
pub open spec fn hex_lower(bytes: Seq<u8>) -> Seq<u8> {
    Seq::new(
        2 * bytes.len(),
        |i: int|
            if i % 2 == 0 {
                hex_digit(bytes[i / 2] as int / 16)
            } else {
                hex_digit(bytes[i / 2] as int % 16)
            },
    )
}

/// The digest of `content` as it is written in checksum files.
pub open spec fn sha256_hex_of(content: Seq<u8>) -> Seq<u8> {
    hex_lower(sha256_of(content))
}

fn digit(nibble: u8) -> (d: u8)
    requires
        nibble < 16,
    ensures
        d == hex_digit(nibble as int),
{
    if nibble < 10 {
        0x30 + nibble
    } else {
        0x61 + (nibble - 10)
    }
}

/// Writes `bytes` in lower-case hexadecimal.
pub fn to_hex(bytes: &[u8]) -> (text: Vec<u8>)
    ensures
        text@ == hex_lower(bytes@),
{
    let mut text: Vec<u8> = Vec::new();
    let mut i: usize = 0;
    while i < bytes.len()
        invariant
            i <= bytes.len(),
            text@.len() == 2 * i,
            forall|k: int| 0 <= k < 2 * i ==> text@[k] == hex_lower(bytes@)[k],
        decreases bytes.len() - i,
    {
        let b = bytes[i];
        text.push(digit(b / 16));
        text.push(digit(b % 16));
        i += 1;
    }
    proof {
        assert(text@ =~= hex_lower(bytes@));
    }
    text
}

/// The SHA-256 digest of `content` in lower-case hexadecimal.
pub fn sha256_hex(content: &[u8]) -> (text: Vec<u8>)
    ensures
        text@ == sha256_hex_of(content@),
{
    let digest = sha256(content);
    to_hex(digest.as_slice())
}

} // verus!
