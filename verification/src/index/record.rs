//! Ownership records and the total order they are sorted by.

use crate::bytes::{bytes_eq, bytes_le, lemma_lex_le_antisymmetric, lemma_lex_le_reflexive, lemma_lex_le_total, lemma_lex_le_transitive, lex_le};
use vstd::prelude::*;
use vstd::relations::*;

verus! {

/// What one package archive contributes to the index: its qualified name
/// (`section/package`, or `branch/section/package` off the default branch) and
/// the paths of the files it installs.
#[derive(Clone, Debug, PartialEq, Eq)]
pub struct ContentsEntry {
    pub package: Vec<u8>,
    pub files: Vec<Vec<u8>>,
}

/// One line of the index: a file path and the qualified name of its owner.
#[derive(Clone, Debug, PartialEq, Eq)]
pub struct FileOwnershipRecord {
    pub path: Vec<u8>,
    pub package: Vec<u8>,
}

/// The mathematical value of a `FileOwnershipRecord`.
pub ghost struct Ownership {
    pub path: Seq<u8>,
    pub package: Seq<u8>,
}

impl View for FileOwnershipRecord {
    type V = Ownership;

    open spec fn view(&self) -> Ownership {
        Ownership { path: self.path@, package: self.package@ }
    }
}

/// The values of a sequence of records, in order.
pub open spec fn ownerships(records: Seq<FileOwnershipRecord>) -> Seq<Ownership> {
    records.map_values(|r: FileOwnershipRecord| r@)
}

/// The order of the index: by path, byte-wise; records with one path are
/// ordered among themselves by the owner's name, so that the order is total.
pub open spec fn owner_le(x: Ownership, y: Ownership) -> bool {
    if x.path == y.path {
        lex_le(x.package, y.package)
    } else {
        lex_le(x.path, y.path)
    }
}

/// `owner_le` as a relation value, for the sequence predicates of `vstd`.
pub open spec fn owner_order() -> spec_fn(Ownership, Ownership) -> bool {
    |x: Ownership, y: Ownership| owner_le(x, y)
}

/// `s` is in index order.
pub open spec fn in_index_order(s: Seq<Ownership>) -> bool {
    sorted_by(s, owner_order())
}

pub proof fn lemma_owner_le_reflexive(x: Ownership)
    ensures
        owner_le(x, x),
{
    lemma_lex_le_reflexive(x.package);
}

pub proof fn lemma_owner_le_antisymmetric(x: Ownership, y: Ownership)
    requires
        owner_le(x, y),
        owner_le(y, x),
    ensures
        x == y,
{
    if x.path == y.path {
        lemma_lex_le_antisymmetric(x.package, y.package);
    } else {
        lemma_lex_le_antisymmetric(x.path, y.path);
    }
}

pub proof fn lemma_owner_le_transitive(x: Ownership, y: Ownership, z: Ownership)
    requires
        owner_le(x, y),
        owner_le(y, z),
    ensures
        owner_le(x, z),
{
    if x.path == y.path && y.path == z.path {
        lemma_lex_le_transitive(x.package, y.package, z.package);
    } else if x.path != y.path && y.path != z.path {
        lemma_lex_le_transitive(x.path, y.path, z.path);
        if x.path == z.path {
            lemma_lex_le_antisymmetric(x.path, y.path);
        }
    }
}

pub proof fn lemma_owner_le_total(x: Ownership, y: Ownership)
    ensures
        owner_le(x, y) || owner_le(y, x),
{
    lemma_lex_le_total(x.package, y.package);
    lemma_lex_le_total(x.path, y.path);
}

/// The index order is a total order on ownership values.
pub proof fn lemma_owner_order_total()
    ensures
        total_ordering(owner_order()),
{
    let r = owner_order();
    assert forall|x: Ownership| #[trigger] r(x, x) by {
        lemma_owner_le_reflexive(x);
    }
    assert forall|x: Ownership, y: Ownership| #[trigger] r(x, y) && #[trigger] r(y, x) implies x
        == y by {
        lemma_owner_le_antisymmetric(x, y);
    }
    assert forall|x: Ownership, y: Ownership, z: Ownership| #[trigger]
        r(x, y) && #[trigger] r(y, z) implies r(x, z) by {
        lemma_owner_le_transitive(x, y, z);
    }
    assert forall|x: Ownership, y: Ownership| #[trigger] r(x, y) || #[trigger] r(y, x) by {
        lemma_owner_le_total(x, y);
    }
}

/// Decides the index order on two records.
pub fn record_le(x: &FileOwnershipRecord, y: &FileOwnershipRecord) -> (r: bool)
    ensures
        r == owner_le(x@, y@),
{
    if bytes_eq(x.path.as_slice(), y.path.as_slice()) {
        bytes_le(x.package.as_slice(), y.package.as_slice())
    } else {
        bytes_le(x.path.as_slice(), y.path.as_slice())
    }
}

} // verus!
