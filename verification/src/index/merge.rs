//! Merging the file lists of many packages into one index, and the check
//! that no path has two owners.

use crate::bytes::{
    append_bytes, bytes_eq, copy_range, lemma_lex_le_antisymmetric, lemma_lex_le_reflexive, lex_le,
};
use crate::index::record::{
    in_index_order, lemma_owner_order_total, owner_le, owner_order, ownerships, ContentsEntry,
    FileOwnershipRecord, Ownership,
};
use crate::index::sort::sort_records;
use vstd::prelude::*;
use vstd::seq_lib::*;

verus! {

/// The mathematical value of a `ContentsEntry`.
pub ghost struct Contents {
    pub package: Seq<u8>,
    pub files: Seq<Seq<u8>>,
}

impl View for ContentsEntry {
    type V = Contents;

    open spec fn view(&self) -> Contents {
        Contents { package: self.package@, files: self.files@.map_values(|f: Vec<u8>| f@) }
    }
}

/// The values of a sequence of entries, in order.
pub open spec fn contents_of(entries: Seq<ContentsEntry>) -> Seq<Contents> {
    entries.map_values(|e: ContentsEntry| e@)
}

/// The ownership claims of one package: one for each of its files, in the
/// order of its file list.
pub open spec fn claims_of(e: Contents) -> Seq<Ownership> {
    e.files.map_values(|p: Seq<u8>| Ownership { path: p, package: e.package })
}

/// The claims of all the packages, package after package.
pub open spec fn all_claims(entries: Seq<Contents>) -> Seq<Ownership>
    decreases entries.len(),
{
    if entries.len() == 0 {
        Seq::empty()
    } else {
        all_claims(entries.drop_last()) + claims_of(entries.last())
    }
}

/// Two of the claims, at different positions, name the same path.
pub open spec fn shares_a_path(claims: Seq<Ownership>) -> bool {
    exists|i: int, j: int| 0 <= i < j < claims.len() && claims[i].path == claims[j].path
}

/// The records at `k` and `k + 1` name the same path.
pub open spec fn conflict_at(s: Seq<Ownership>, k: int) -> bool {
    0 <= k && k + 1 < s.len() && s[k].path == s[k + 1].path
}

/// `k` is the first position at which two neighbours name the same path.
pub open spec fn first_conflict_at(s: Seq<Ownership>, k: int) -> bool {
    conflict_at(s, k) && forall|j: int| 0 <= j < k ==> !conflict_at(s, j)
}

/// Two packages that both claim one path.
#[derive(Clone, Debug, PartialEq, Eq)]
pub struct OwnershipConflict {
    pub first: Vec<u8>,
    pub second: Vec<u8>,
    pub path: Vec<u8>,
}

/// The words between the parts of a conflict's message.
pub open spec fn and_text() -> Seq<u8> {
    seq![0x20u8, 0x61u8, 0x6eu8, 0x64u8, 0x20u8]
}

pub open spec fn both_have_text() -> Seq<u8> {
    seq![0x20u8, 0x62u8, 0x6fu8, 0x74u8, 0x68u8, 0x20u8, 0x68u8, 0x61u8, 0x76u8, 0x65u8, 0x20u8]
}

impl OwnershipConflict {
    /// The conflict between the owners of two records with one path.
    pub open spec fn names(self, a: Ownership, b: Ownership) -> bool {
        self.first@ == a.package && self.second@ == b.package && self.path@ == a.path
    }

    /// `<first> and <second> both have <path>`, as bytes.
    pub fn message(&self) -> (text: Vec<u8>)
        ensures
            text@ == self.first@ + and_text() + self.second@ + both_have_text() + self.path@,
    {
        let mut text: Vec<u8> = Vec::new();
        append_bytes(&mut text, self.first.as_slice());
        let and: [u8; 5] = [0x20, 0x61, 0x6e, 0x64, 0x20];
        append_bytes(&mut text, and.as_slice());
        append_bytes(&mut text, self.second.as_slice());
        let both: [u8; 11] = [0x20, 0x62, 0x6f, 0x74, 0x68, 0x20, 0x68, 0x61, 0x76, 0x65, 0x20];
        append_bytes(&mut text, both.as_slice());
        append_bytes(&mut text, self.path.as_slice());
        proof {
            assert(and@ =~= and_text());
            assert(both@ =~= both_have_text());
            assert(text@ =~= self.first@ + and_text() + self.second@ + both_have_text()
                + self.path@);
        }
        text
    }
}

/// In index order, records with one path stand next to each other: if no two
/// neighbours share a path, no two records do.
pub proof fn lemma_neighbours_decide(s: Seq<Ownership>)
    requires
        in_index_order(s),
    ensures
        shares_a_path(s) <==> exists|k: int| conflict_at(s, k),
{
    if shares_a_path(s) {
        let (i, j) = choose|i: int, j: int| 0 <= i < j < s.len() && s[i].path == s[j].path;
        if i + 1 < j {
            assert(owner_order()(s[i], s[i + 1]));
            assert(owner_order()(s[i + 1], s[j]));
            lemma_path_le(s[i], s[i + 1]);
            lemma_path_le(s[i + 1], s[j]);
            lemma_lex_le_antisymmetric(s[i].path, s[i + 1].path);
        }
        assert(conflict_at(s, i));
    }
    if exists|k: int| conflict_at(s, k) {
        let k = choose|k: int| conflict_at(s, k);
        assert(0 <= k < k + 1 < s.len() && s[k].path == s[k + 1].path);
    }
}

/// The index order goes by path first.
pub proof fn lemma_path_le(x: Ownership, y: Ownership)
    requires
        owner_le(x, y),
    ensures
        lex_le(x.path, y.path),
{
    lemma_lex_le_reflexive(x.path);
}

/// Whether two claims share a path does not depend on their order.
pub proof fn lemma_sharing_ignores_order(a: Seq<Ownership>, b: Seq<Ownership>)
    requires
        a.to_multiset() == b.to_multiset(),
    ensures
        shares_a_path(a) == shares_a_path(b),
{
    if shares_a_path(a) {
        lemma_sharing_carries_over(a, b);
    }
    if shares_a_path(b) {
        lemma_sharing_carries_over(b, a);
    }
}

proof fn lemma_sharing_carries_over(a: Seq<Ownership>, b: Seq<Ownership>)
    requires
        a.to_multiset() == b.to_multiset(),
        shares_a_path(a),
    ensures
        shares_a_path(b),
{
    broadcast use group_to_multiset_ensures;

    let (i, j) = choose|i: int, j: int| 0 <= i < j < a.len() && a[i].path == a[j].path;
    if a[i] == a[j] {
        if b.no_duplicates() {
            b.lemma_multiset_has_no_duplicates();
            a.lemma_multiset_has_no_duplicates_conv();
            assert(false);
        }
        let (m, n) = choose|m: int, n: int|
            0 <= m < b.len() && 0 <= n < b.len() && m != n && b[m] == b[n];
        if m < n {
            assert(0 <= m < n < b.len() && b[m].path == b[n].path);
        } else {
            assert(0 <= n < m < b.len() && b[n].path == b[m].path);
        }
    } else {
        assert(a.contains(a[i]));
        assert(a.contains(a[j]));
        assert(b.to_multiset().count(a[i]) > 0);
        assert(b.to_multiset().count(a[j]) > 0);
        assert(b.contains(a[i]));
        assert(b.contains(a[j]));
        let m = choose|m: int| 0 <= m < b.len() && b[m] == a[i];
        let n = choose|n: int| 0 <= n < b.len() && b[n] == a[j];
        if m < n {
            assert(0 <= m < n < b.len() && b[m].path == b[n].path);
        } else {
            assert(0 <= n < m < b.len() && b[n].path == b[m].path);
        }
    }
}

/// Two indexes of the same claims are the same index: a sequence in index
/// order is fixed by what it holds, whatever order the claims came in.
pub proof fn lemma_index_is_unique(a: Seq<Ownership>, b: Seq<Ownership>)
    requires
        in_index_order(a),
        in_index_order(b),
        a.to_multiset() == b.to_multiset(),
    ensures
        a == b,
{
    lemma_owner_order_total();
    lemma_sorted_unique(a, b, owner_order());
}

/// The claims of a list of packages are those of one of them and those of
/// the others.
proof fn lemma_claims_split(entries: Seq<Contents>, at: int)
    requires
        0 <= at < entries.len(),
    ensures
        all_claims(entries).to_multiset() == all_claims(entries.remove(at)).to_multiset().add(
            claims_of(entries[at]).to_multiset(),
        ),
    decreases entries.len(),
{
    let front = entries.drop_last();
    let last = claims_of(entries.last());
    lemma_multiset_commutative(all_claims(front), last);
    if at == entries.len() - 1 {
        assert(entries.remove(at) =~= front);
    } else {
        lemma_claims_split(front, at);
        let others = entries.remove(at);
        assert(others.drop_last() =~= front.remove(at));
        assert(others.last() == entries.last());
        lemma_multiset_commutative(all_claims(front.remove(at)), last);
        assert(all_claims(front.remove(at)).to_multiset().add(
            claims_of(entries[at]).to_multiset(),
        ).add(last.to_multiset()) =~= all_claims(front.remove(at)).to_multiset().add(
            last.to_multiset(),
        ).add(claims_of(entries[at]).to_multiset()));
    }
}

/// The claims of a pool do not depend on the order in which its packages
/// are listed.
pub proof fn lemma_claims_ignore_order(a: Seq<Contents>, b: Seq<Contents>)
    requires
        a.to_multiset() == b.to_multiset(),
    ensures
        all_claims(a).to_multiset() == all_claims(b).to_multiset(),
    decreases a.len(),
{
    broadcast use group_to_multiset_ensures;

    if a.len() == 0 {
        assert(a.to_multiset().len() == 0);
        assert(b.to_multiset().len() == b.len());
        assert(all_claims(a) =~= all_claims(b));
    } else {
        let x = a.last();
        assert(a.contains(x));
        assert(b.to_multiset().count(x) > 0);
        assert(b.contains(x));
        let at = choose|at: int| 0 <= at < b.len() && b[at] == x;
        assert(a.remove(a.len() - 1) =~= a.drop_last());
        assert(a.drop_last().to_multiset() =~= b.remove(at).to_multiset());
        lemma_claims_ignore_order(a.drop_last(), b.remove(at));
        lemma_claims_split(a, a.len() - 1);
        lemma_claims_split(b, at);
    }
}

/// The index of a pool does not depend on the order in which its packages
/// are listed: two lists of the same packages have the same index.
pub proof fn lemma_index_ignores_order(
    first: Seq<Ownership>,
    second: Seq<Ownership>,
    a: Seq<Contents>,
    b: Seq<Contents>,
)
    requires
        a.to_multiset() == b.to_multiset(),
        in_index_order(first),
        first.to_multiset() == all_claims(a).to_multiset(),
        in_index_order(second),
        second.to_multiset() == all_claims(b).to_multiset(),
    ensures
        first == second,
        shares_a_path(all_claims(a)) == shares_a_path(all_claims(b)),
{
    lemma_claims_ignore_order(a, b);
    lemma_index_is_unique(first, second);
    lemma_sharing_ignores_order(all_claims(a), all_claims(b));
}

/// The claims of all the entries as records, entry after entry.
pub fn flatten_entries(entries: &Vec<ContentsEntry>) -> (records: Vec<FileOwnershipRecord>)
    ensures
        ownerships(records@) == all_claims(contents_of(entries@)),
{
    let mut records: Vec<FileOwnershipRecord> = Vec::new();
    let ghost all = contents_of(entries@);
    let mut e: usize = 0;
    proof {
        assert(all.take(0) =~= Seq::<Contents>::empty());
        assert(ownerships(records@) =~= Seq::<Ownership>::empty());
    }
    while e < entries.len()
        invariant
            e <= entries.len(),
            all == contents_of(entries@),
            ownerships(records@) == all_claims(all.take(e as int)),
        decreases entries.len() - e,
    {
        let entry = &entries[e];
        let ghost before = ownerships(records@);
        let mut f: usize = 0;
        while f < entry.files.len()
            invariant
                f <= entry.files.len(),
                ownerships(records@) == before + claims_of(entry@).take(f as int),
            decreases entry.files.len() - f,
        {
            let path = copy_range(entry.files[f].as_slice(), 0, entry.files[f].len());
            let package = copy_range(entry.package.as_slice(), 0, entry.package.len());
            let ghost sofar = records@;
            proof {
                assert(path@ =~= entry.files@[f as int]@);
                assert(package@ =~= entry.package@);
            }
            records.push(FileOwnershipRecord { path, package });
            proof {
                assert(ownerships(records@) =~= ownerships(sofar).push(
                    claims_of(entry@)[f as int],
                ));
                assert(claims_of(entry@).take(f + 1) =~= claims_of(entry@).take(f as int).push(
                    claims_of(entry@)[f as int],
                ));
            }
            f += 1;
        }
        proof {
            assert(claims_of(entry@).take(f as int) =~= claims_of(entry@));
            assert(all.take(e + 1).drop_last() =~= all.take(e as int));
            assert(all.take(e + 1).last() == entry@);
        }
        e += 1;
    }
    proof {
        assert(all.take(e as int) =~= all);
    }
    records
}

/// The first position at which two neighbouring records name the same path.
pub fn find_conflict(records: &Vec<FileOwnershipRecord>) -> (found: Option<usize>)
    ensures
        match found {
            Some(k) => first_conflict_at(ownerships(records@), k as int),
            None => forall|k: int| !conflict_at(ownerships(records@), k),
        },
{
    if records.len() < 2 {
        return None;
    }
    let mut k: usize = 0;
    while k + 1 < records.len()
        invariant
            k + 1 <= records.len(),
            forall|j: int| 0 <= j < k ==> !conflict_at(ownerships(records@), j),
        decreases records.len() - k,
    {
        if bytes_eq(records[k].path.as_slice(), records[k + 1].path.as_slice()) {
            return Some(k);
        }
        k += 1;
    }
    None
}

/// Merges the file lists of the given packages into the index.
///
/// Fails if and only if two claims name one path. Otherwise the result holds
/// every claim once and is in index order. A failure names the first two
/// neighbours with one path in what the index would have been: the least
/// path with more than one claim, and the least two of its owners' names.
pub fn merge_entries(entries: &Vec<ContentsEntry>) -> (merged: Result<
    Vec<FileOwnershipRecord>,
    OwnershipConflict,
>)
    ensures
        merged is Err <==> shares_a_path(all_claims(contents_of(entries@))),
        match merged {
            Ok(records) => {
                &&& in_index_order(ownerships(records@))
                &&& ownerships(records@).to_multiset() == all_claims(
                    contents_of(entries@),
                ).to_multiset()
            },
            Err(conflict) => exists|s: Seq<Ownership>, k: int|
                {
                    &&& in_index_order(s)
                    &&& s.to_multiset() == all_claims(contents_of(entries@)).to_multiset()
                    &&& first_conflict_at(s, k)
                    &&& conflict.names(s[k], s[k + 1])
                },
        },
{
    let records = sort_records(flatten_entries(entries));
    let ghost s = ownerships(records@);
    proof {
        lemma_neighbours_decide(s);
        lemma_sharing_ignores_order(s, all_claims(contents_of(entries@)));
    }
    match find_conflict(&records) {
        None => Ok(records),
        Some(k) => {
            proof {
                assert(conflict_at(s, k as int));
                assert(s.len() == records.len());
            }
            let a = &records[k];
            let b = &records[k + 1];
            let conflict = OwnershipConflict {
                first: copy_range(a.package.as_slice(), 0, a.package.len()),
                second: copy_range(b.package.as_slice(), 0, b.package.len()),
                path: copy_range(a.path.as_slice(), 0, a.path.len()),
            };
            proof {
                assert(conflict.first@ =~= s[k as int].package);
                assert(conflict.second@ =~= s[k + 1].package);
                assert(conflict.path@ =~= s[k as int].path);
                assert(in_index_order(s) && first_conflict_at(s, k as int) && conflict.names(
                    s[k as int],
                    s[k + 1],
                ));
            }
            Err(conflict)
        },
    }
}

} // verus!
