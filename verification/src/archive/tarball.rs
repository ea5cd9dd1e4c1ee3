//! The inner tar archives: what they list and what an entry holds.

use crate::bytes::{bytes_eq, copy_range};
use std::io::Read;
use vstd::prelude::*;

verus! {

/// One entry of a tar archive, as far as the index needs it.
#[derive(Clone, Debug, PartialEq, Eq)]
pub struct TarMember {
    pub path: Vec<u8>,
    pub directory: bool,
}

/// The mathematical value of a `TarMember`.
pub ghost struct Listed {
    pub path: Seq<u8>,
    pub directory: bool,
}

impl View for TarMember {
    type V = Listed;

    open spec fn view(&self) -> Listed {
        Listed { path: self.path@, directory: self.directory }
    }
}

/// The values of a sequence of tar members, in order.
pub open spec fn listing_of(members: Seq<TarMember>) -> Seq<Listed> {
    members.map_values(|m: TarMember| m@)
}

/// The entries of the tar archive `tree`, in its order: each one's path and
/// whether it is a directory; or why the archive cannot be listed.
pub uninterp spec fn tar_members(tree: Seq<u8>) -> Result<Seq<Listed>, Seq<char>>;

/// The content of the entry of `tree` at `index`, or why it cannot be had.
pub uninterp spec fn tar_member_data(tree: Seq<u8>, index: nat) -> Result<Seq<u8>, Seq<char>>;

/// Walks `tree` with `tar::Archive::entries` and returns, for each entry,
/// `path_bytes()` and whether the header's entry type is a directory; the
/// first error ends the walk. The contract only gives the outcome its name;
/// the error is the outside error's text.
#[verifier::external_body]
pub(crate) fn list_tar(tree: &[u8]) -> (listing: Result<Vec<TarMember>, String>)
    ensures
        match listing {
            Ok(members) => tar_members(tree@) == Ok::<Seq<Listed>, Seq<char>>(
                listing_of(members@),
            ),
            Err(why) => tar_members(tree@) == Err::<Seq<Listed>, Seq<char>>(why@),
        },
{
    let mut members = Vec::new();
    for entry in tar::Archive::new(tree).entries().map_err(|e| e.to_string())? {
        let entry = entry.map_err(|e| e.to_string())?;
        let directory = entry.header().entry_type().is_dir();
        members.push(TarMember { path: entry.path_bytes().into_owned(), directory });
    }
    Ok(members)
}

/// Walks `tree` with `tar::Archive::entries` to the entry at `index` and
/// reads it to its end. The contract only gives the outcome its name; the
/// error is the outside error's text, or says that the walk ended before
/// `index`.
#[verifier::external_body]
pub(crate) fn read_tar_member(tree: &[u8], index: usize) -> (content: Result<Vec<u8>, String>)
    ensures
        match content {
            Ok(bytes) => tar_member_data(tree@, index as nat) == Ok::<Seq<u8>, Seq<char>>(bytes@),
            Err(why) => tar_member_data(tree@, index as nat) == Err::<Seq<u8>, Seq<char>>(why@),
        },
{
    let mut archive = tar::Archive::new(tree);
    let mut entries = archive.entries().map_err(|e| e.to_string())?;
    let mut entry = entries.nth(index).ok_or(String::from("no such entry"))?.map_err(
        |e| e.to_string(),
    )?;
    let mut bytes = Vec::new();
    entry.read_to_end(&mut bytes).map_err(|e| e.to_string())?;
    Ok(bytes)
}

/// The position of the first entry at or after `from` whose path is exactly
/// `path`, if there is one.
pub open spec fn first_position(listing: Seq<Listed>, path: Seq<u8>, from: int) -> Option<int>
    decreases listing.len() - from,
{
    if from < 0 || from >= listing.len() {
        None
    } else if listing[from].path == path {
        Some(from)
    } else {
        first_position(listing, path, from + 1)
    }
}

/// The paths of the entries that are not directories, in the order of the
/// listing.
pub open spec fn file_paths(listing: Seq<Listed>) -> Seq<Seq<u8>> {
    listing.filter(|m: Listed| !m.directory).map_values(|m: Listed| m.path)
}

/// Finds the first entry whose path is exactly `path`.
pub fn find_entry(listing: &Vec<TarMember>, path: &[u8]) -> (found: Option<usize>)
    ensures
        match found {
            Some(i) => {
                &&& first_position(listing_of(listing@), path@, 0) == Some(i as int)
                &&& i < listing@.len()
                &&& listing@[i as int]@.path == path@
                &&& forall|j: int| 0 <= j < i ==> listing@[j]@.path != path@
            },
            None => {
                &&& first_position(listing_of(listing@), path@, 0) is None
                &&& forall|j: int| 0 <= j < listing@.len() ==> listing@[j]@.path != path@
            },
        },
{
    let mut i: usize = 0;
    let ghost all = listing_of(listing@);
    while i < listing.len()
        invariant
            i <= listing.len(),
            all == listing_of(listing@),
            first_position(all, path@, 0) == first_position(all, path@, i as int),
            forall|j: int| 0 <= j < i ==> listing@[j]@.path != path@,
        decreases listing.len() - i,
    {
        proof {
            assert(all[i as int] == listing@[i as int]@);
        }
        if bytes_eq(listing[i].path.as_slice(), path) {
            return Some(i);
        }
        i += 1;
    }
    None
}

/// Collects the path of every entry that is not a directory. No content is
/// looked at.
pub fn collect_files(listing: &Vec<TarMember>) -> (files: Vec<Vec<u8>>)
    ensures
        files@.map_values(|f: Vec<u8>| f@) == file_paths(listing_of(listing@)),
{
    let mut files: Vec<Vec<u8>> = Vec::new();
    let ghost all = listing_of(listing@);
    let ghost keep = |m: Listed| !m.directory;
    let mut i: usize = 0;
    proof {
        assert(all.take(0) =~= Seq::<Listed>::empty());
        assert(files@.map_values(|f: Vec<u8>| f@) =~= file_paths(all.take(0)));
    }
    while i < listing.len()
        invariant
            i <= listing.len(),
            all == listing_of(listing@),
            files@.map_values(|f: Vec<u8>| f@) == file_paths(all.take(i as int)),
        decreases listing.len() - i,
    {
        let ghost before = files@;
        proof {
            assert(all.take(i + 1).drop_last() =~= all.take(i as int));
            assert(all.take(i + 1).last() == all[i as int]);
            reveal(Seq::filter);
        }
        if !listing[i].directory {
            let path = copy_range(listing[i].path.as_slice(), 0, listing[i].path.len());
            proof {
                assert(path@ =~= all[i as int].path);
            }
            files.push(path);
            proof {
                assert(files@.map_values(|f: Vec<u8>| f@) =~= before.map_values(
                    |f: Vec<u8>| f@,
                ).push(all[i as int].path));
                assert(file_paths(all.take(i + 1)) =~= file_paths(all.take(i as int)).push(
                    all[i as int].path,
                ));
            }
        } else {
            proof {
                assert(file_paths(all.take(i + 1)) =~= file_paths(all.take(i as int)));
            }
        }
        i += 1;
    }
    proof {
        assert(all.take(i as int) =~= all);
    }
    files
}

} // verus!
