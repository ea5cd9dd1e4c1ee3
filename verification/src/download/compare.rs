//! The decision whether a local file has to be fetched again.

use crate::bytes::bytes_eq;
use crate::download::digest::{sha256_hex, sha256_hex_of};
use vstd::prelude::*;
use vstd::string::StringSliceAdditionalSpecFns;

verus! {

/// What a local file is held against.
#[derive(Clone, Copy, Debug, PartialEq, Eq)]
pub enum RequestCompare<'a> {
    /// The SHA-256 digest of the content in lower-case hexadecimal; `None`
    /// accepts whatever is there.
    Checksum(Option<&'a str>),
    /// The length in bytes and, optionally, the modification time in seconds.
    SizeAndModification(u64, Option<i64>),
}

/// The mathematical value of a `RequestCompare`.
pub ghost enum Expected {
    Checksum(Option<Seq<u8>>),
    SizeAndModification(u64, Option<i64>),
}

impl<'a> View for RequestCompare<'a> {
    type V = Expected;

    open spec fn view(&self) -> Expected {
        match *self {
            RequestCompare::Checksum(Some(digest)) => Expected::Checksum(
                Some(digest.spec_bytes()),
            ),
            RequestCompare::Checksum(None) => Expected::Checksum(None),
            RequestCompare::SizeAndModification(length, mtime) => Expected::SizeAndModification(
                length,
                mtime,
            ),
        }
    }
}

/// What is known of a local file: its length, its modification time in
/// seconds, and its content.
///
/// The content is looked at only where a digest is expected.
#[derive(Clone, Debug, PartialEq, Eq)]
pub struct FileStat {
    pub len: u64,
    pub mtime: i64,
    pub content: Vec<u8>,
}

/// The mathematical value of a `FileStat`.
pub ghost struct Found {
    pub len: u64,
    pub mtime: i64,
    pub content: Seq<u8>,
}

impl View for FileStat {
    type V = Found;

    open spec fn view(&self) -> Found {
        Found { len: self.len, mtime: self.mtime, content: self.content@ }
    }
}

/// The value of an optional reference to a `FileStat`.
pub open spec fn found(local: Option<&FileStat>) -> Option<Found> {
    match local {
        Some(stat) => Some(stat@),
        None => None,
    }
}

/// The content has the expected digest: compared byte for byte, so that the
/// case of the letters counts.
pub open spec fn digest_matches(content: Seq<u8>, digest: Seq<u8>) -> bool {
    sha256_hex_of(content) == digest
}

/// Whether the file has to be fetched.
///
/// A file that is not there is always fetched. With a digest given, the file
/// is fetched unless its content has that digest; with none given, a file
/// that is there is never fetched. With a length given, it is fetched unless
/// its length is that one and its modification time, where one is given too,
/// is exactly that one.
pub open spec fn fetch_required(local: Option<Found>, expected: Expected) -> bool {
    match local {
        None => true,
        Some(stat) => match expected {
            Expected::Checksum(Some(digest)) => !digest_matches(stat.content, digest),
            Expected::Checksum(None) => false,
            Expected::SizeAndModification(length, mtime) => !(stat.len == length && (mtime is None
                || mtime == Some(stat.mtime))),
        },
    }
}

/// Compares the content with the expected digest.
pub fn verify_digest(content: &[u8], digest: &str) -> (r: bool)
    ensures
        r == digest_matches(content@, digest.spec_bytes()),
{
    let actual = sha256_hex(content);
    bytes_eq(actual.as_slice(), digest.as_bytes())
}

/// Decides whether the file has to be fetched.
pub fn requires_fetch(local: Option<&FileStat>, compare: &RequestCompare) -> (r: bool)
    ensures
        r == fetch_required(found(local), compare@),
{
    match local {
        None => true,
        Some(stat) => match compare {
            RequestCompare::Checksum(Some(digest)) => !verify_digest(
                stat.content.as_slice(),
                digest,
            ),
            RequestCompare::Checksum(None) => false,
            RequestCompare::SizeAndModification(length, mtime) => {
                if stat.len == *length {
                    match mtime {
                        Some(modified) => *modified != stat.mtime,
                        None => false,
                    }
                } else {
                    true
                }
            },
        },
    }
}

} // verus!
