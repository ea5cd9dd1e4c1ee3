//! From the package archives of a pool to its index.

use crate::archive::introspect::{introspect, introspected, Failure, IntrospectError};
use crate::index::line::lines_of;
use crate::index::merge::{
    all_claims, contents_of, first_conflict_at, lemma_index_is_unique, merge_entries,
    shares_a_path, Contents, OwnershipConflict,
};
use crate::index::record::{
    in_index_order, ownerships, ContentsEntry, FileOwnershipRecord, Ownership,
};
use vstd::prelude::*;

verus! {

/// Why a pool has no index.
#[derive(Clone, Debug, PartialEq, Eq)]
pub enum BuildError {
    /// The archive at `position` yields no entry.
    Archive { position: usize, cause: IntrospectError },
    /// Two packages claim one path.
    Conflict(OwnershipConflict),
}

/// The bytes of a list of archives.
pub open spec fn archives_of(debs: Seq<Vec<u8>>) -> Seq<Seq<u8>> {
    debs.map_values(|deb: Vec<u8>| deb@)
}

/// The position of the first archive at or after `from` that yields no
/// entry.
pub open spec fn first_failure(debs: Seq<Seq<u8>>, branch: Seq<u8>, from: int) -> Option<int>
    decreases debs.len() - from,
{
    if from < 0 || from >= debs.len() {
        None
    } else if introspected(debs[from], branch) is Err {
        Some(from)
    } else {
        first_failure(debs, branch, from + 1)
    }
}

/// The entries of the archives, one for each, in their order; of use where
/// every archive yields one.
pub open spec fn entries_of(debs: Seq<Seq<u8>>, branch: Seq<u8>) -> Seq<Contents> {
    Seq::new(debs.len(), |i: int| introspected(debs[i], branch)->Ok_0)
}

/// The claims of all the packages of a pool.
pub open spec fn pool_claims(debs: Seq<Seq<u8>>, branch: Seq<u8>) -> Seq<Ownership> {
    all_claims(entries_of(debs, branch))
}

/// `records` is the index of the pool: every claim once, in index order,
/// and no path twice.
pub open spec fn is_index_of(records: Seq<Ownership>, debs: Seq<Seq<u8>>, branch: Seq<u8>) -> bool {
    &&& first_failure(debs, branch, 0) is None
    &&& !shares_a_path(pool_claims(debs, branch))
    &&& in_index_order(records)
    &&& records.to_multiset() == pool_claims(debs, branch).to_multiset()
}

/// A pool has one index, and one serialised form of it: building it again
/// from the same archives gives the same bytes.
pub proof fn lemma_index_is_determined(
    first: Seq<Ownership>,
    second: Seq<Ownership>,
    debs: Seq<Seq<u8>>,
    branch: Seq<u8>,
)
    requires
        is_index_of(first, debs, branch),
        is_index_of(second, debs, branch),
    ensures
        first == second,
        lines_of(first) == lines_of(second),
{
    lemma_index_is_unique(first, second);
}

/// Introspects the archives one after the other; the first that fails ends
/// the work.
pub fn introspect_all(debs: &Vec<Vec<u8>>, branch: &[u8]) -> (entries: Result<
    Vec<ContentsEntry>,
    (usize, IntrospectError),
>)
    ensures
        match entries {
            Ok(list) => {
                &&& first_failure(archives_of(debs@), branch@, 0) is None
                &&& contents_of(list@) == entries_of(archives_of(debs@), branch@)
            },
            Err((position, cause)) => {
                &&& first_failure(archives_of(debs@), branch@, 0) == Some(position as int)
                &&& position < debs@.len()
                &&& introspected(debs@[position as int]@, branch@) == Err::<Contents, Failure>(
                    cause@,
                )
            },
        },
{
    let mut list: Vec<ContentsEntry> = Vec::new();
    let ghost all = archives_of(debs@);
    let mut i: usize = 0;
    while i < debs.len()
        invariant
            i <= debs.len(),
            all == archives_of(debs@),
            list@.len() == i,
            first_failure(all, branch@, 0) == first_failure(all, branch@, i as int),
            forall|j: int|
                0 <= j < i ==> introspected(all[j], branch@) == Ok::<Contents, Failure>(
                    #[trigger] list@[j]@,
                ),
        decreases debs.len() - i,
    {
        proof {
            assert(all[i as int] == debs@[i as int]@);
        }
        match introspect(debs[i].as_slice(), branch) {
            Err(cause) => {
                return Err((i, cause));
            },
            Ok(entry) => {
                list.push(entry);
            },
        }
        i += 1;
    }
    proof {
        assert(contents_of(list@) =~= entries_of(all, branch@));
    }
    Ok(list)
}

/// Builds the index of a pool from the bytes of its package archives.
///
/// Every archive is introspected, in the order given; the first that yields
/// no entry fails the build with its position and the cause. The file lists
/// are then merged. Two claims of one path fail the build; otherwise the
/// result is the index: every claim once, in index order.
pub fn build_index(debs: &Vec<Vec<u8>>, branch: &[u8]) -> (built: Result<
    Vec<FileOwnershipRecord>,
    BuildError,
>)
    ensures
        match built {
            Ok(records) => is_index_of(ownerships(records@), archives_of(debs@), branch@),
            Err(BuildError::Archive { position, cause }) => {
                &&& first_failure(archives_of(debs@), branch@, 0) == Some(position as int)
                &&& position < debs@.len()
                &&& introspected(debs@[position as int]@, branch@) == Err::<Contents, Failure>(
                    cause@,
                )
            },
            Err(BuildError::Conflict(conflict)) => {
                &&& first_failure(archives_of(debs@), branch@, 0) is None
                &&& shares_a_path(pool_claims(archives_of(debs@), branch@))
                &&& exists|s: Seq<Ownership>, k: int|
                    {
                        &&& in_index_order(s)
                        &&& s.to_multiset() == pool_claims(
                            archives_of(debs@),
                            branch@,
                        ).to_multiset()
                        &&& first_conflict_at(s, k)
                        &&& conflict.names(s[k], s[k + 1])
                    }
            },
        },
{
    let entries = match introspect_all(debs, branch) {
        Err((position, cause)) => {
            return Err(BuildError::Archive { position, cause });
        },
        Ok(entries) => entries,
    };
    match merge_entries(&entries) {
        Ok(records) => Ok(records),
        Err(conflict) => Err(BuildError::Conflict(conflict)),
    }
}

} // verus!
