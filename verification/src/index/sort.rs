//! Merge sort of ownership records into index order.

use crate::index::record::{
    in_index_order, lemma_owner_le_total, lemma_owner_le_transitive, owner_le, owner_order,
    ownerships, record_le, FileOwnershipRecord, Ownership,
};
use vstd::multiset::*;
use vstd::prelude::*;
use vstd::relations::*;
use vstd::seq_lib::*;

verus! {

/// `s` is in reverse index order.
spec fn descending(s: Seq<Ownership>) -> bool {
    forall|i: int, j: int| 0 <= i < j < s.len() ==> owner_le(#[trigger] s[j], #[trigger] s[i])
}

/// Every element of `low` is at or before every element of `high`.
spec fn all_le(low: Seq<Ownership>, high: Seq<Ownership>) -> bool {
    forall|i: int, j: int|
        0 <= i < low.len() && 0 <= j < high.len() ==> owner_le(#[trigger] low[i], #[trigger] high[j])
}

proof fn lemma_ownerships_empty(s: Seq<FileOwnershipRecord>)
    requires
        s.len() == 0,
    ensures
        ownerships(s) == Seq::<Ownership>::empty(),
        ownerships(s).to_multiset() == Multiset::<Ownership>::empty(),
{
    assert(ownerships(s) =~= Seq::<Ownership>::empty());
    to_multiset_len(ownerships(s));
    lemma_multiset_empty_len(ownerships(s).to_multiset());
}

proof fn lemma_ownerships_push(s: Seq<FileOwnershipRecord>, x: FileOwnershipRecord)
    ensures
        ownerships(s.push(x)) == ownerships(s).push(x@),
        ownerships(s.push(x)).to_multiset() == ownerships(s).to_multiset().insert(x@),
{
    assert(ownerships(s.push(x)) =~= ownerships(s).push(x@));
    to_multiset_build(ownerships(s), x@);
}

proof fn lemma_ownerships_drop_last(s: Seq<FileOwnershipRecord>)
    requires
        s.len() > 0,
    ensures
        ownerships(s.drop_last()) == ownerships(s).drop_last(),
        ownerships(s).to_multiset() == ownerships(s.drop_last()).to_multiset().insert(s.last()@),
{
    assert(ownerships(s.drop_last()) =~= ownerships(s).drop_last());
    assert(ownerships(s) =~= ownerships(s.drop_last()).push(s.last()@));
    to_multiset_build(ownerships(s.drop_last()), s.last()@);
}

proof fn lemma_ownerships_concat(a: Seq<FileOwnershipRecord>, b: Seq<FileOwnershipRecord>)
    ensures
        ownerships(a + b) == ownerships(a) + ownerships(b),
        ownerships(a + b).to_multiset() == ownerships(a).to_multiset().add(
            ownerships(b).to_multiset(),
        ),
{
    assert(ownerships(a + b) =~= ownerships(a) + ownerships(b));
    lemma_multiset_commutative(ownerships(a), ownerships(b));
}

/// Merges two runs that are each in index order into one.
fn merge_runs(left: Vec<FileOwnershipRecord>, right: Vec<FileOwnershipRecord>) -> (out: Vec<
    FileOwnershipRecord,
>)
    requires
        in_index_order(ownerships(left@)),
        in_index_order(ownerships(right@)),
    ensures
        in_index_order(ownerships(out@)),
        ownerships(out@).to_multiset() == ownerships(left@).to_multiset().add(
            ownerships(right@).to_multiset(),
        ),
{
    let ghost total = ownerships(left@).to_multiset().add(ownerships(right@).to_multiset());
    let mut left = left;
    let mut right = right;
    // The largest records first: both runs are consumed from their ends.
    let mut stack: Vec<FileOwnershipRecord> = Vec::new();
    proof {
        lemma_ownerships_empty(stack@);
        assert(total.add(Multiset::<Ownership>::empty()) =~= total);
    }
    while left.len() > 0 || right.len() > 0
        invariant
            in_index_order(ownerships(left@)),
            in_index_order(ownerships(right@)),
            descending(ownerships(stack@)),
            all_le(ownerships(left@), ownerships(stack@)),
            all_le(ownerships(right@), ownerships(stack@)),
            total == ownerships(left@).to_multiset().add(ownerships(right@).to_multiset()).add(
                ownerships(stack@).to_multiset(),
            ),
        decreases left.len() + right.len(),
    {
        let from_left = if right.len() == 0 {
            true
        } else if left.len() == 0 {
            false
        } else {
            !record_le(&left[left.len() - 1], &right[right.len() - 1])
        };
        let ghost l0 = left@;
        let ghost r0 = right@;
        let ghost s0 = stack@;
        if from_left {
            let x = left.pop().unwrap();
            proof {
                lemma_ownerships_drop_last(l0);
                lemma_ownerships_push(s0, x);
                assert(ownerships(l0.drop_last()).to_multiset().insert(x@).add(
                    ownerships(r0).to_multiset(),
                ).add(ownerships(s0).to_multiset()) =~= ownerships(l0.drop_last()).to_multiset().add(
                    ownerships(r0).to_multiset(),
                ).add(ownerships(s0).to_multiset().insert(x@)));
                assert(x@ == ownerships(l0)[l0.len() - 1]);
                assert forall|j: int| 0 <= j < r0.len() implies owner_le(
                    ownerships(r0)[j],
                    x@,
                ) by {
                    let last = ownerships(r0)[r0.len() - 1];
                    lemma_owner_le_total(x@, last);
                    if j < r0.len() - 1 {
                        assert(owner_order()(ownerships(r0)[j], last));
                        lemma_owner_le_transitive(ownerships(r0)[j], last, x@);
                    }
                }
                assert forall|j: int| 0 <= j < l0.len() - 1 implies owner_le(
                    ownerships(l0)[j],
                    x@,
                ) by {
                    assert(owner_order()(ownerships(l0)[j], ownerships(l0)[l0.len() - 1]));
                }
            }
            stack.push(x);
        } else {
            let x = right.pop().unwrap();
            proof {
                lemma_ownerships_drop_last(r0);
                lemma_ownerships_push(s0, x);
                assert(ownerships(l0).to_multiset().add(
                    ownerships(r0.drop_last()).to_multiset().insert(x@),
                ).add(ownerships(s0).to_multiset()) =~= ownerships(l0).to_multiset().add(
                    ownerships(r0.drop_last()).to_multiset(),
                ).add(ownerships(s0).to_multiset().insert(x@)));
                assert(x@ == ownerships(r0)[r0.len() - 1]);
                assert forall|j: int| 0 <= j < l0.len() implies owner_le(
                    ownerships(l0)[j],
                    x@,
                ) by {
                    let last = ownerships(l0)[l0.len() - 1];
                    if j < l0.len() - 1 {
                        assert(owner_order()(ownerships(l0)[j], last));
                        lemma_owner_le_transitive(ownerships(l0)[j], last, x@);
                    }
                }
                assert forall|j: int| 0 <= j < r0.len() - 1 implies owner_le(
                    ownerships(r0)[j],
                    x@,
                ) by {
                    assert(owner_order()(ownerships(r0)[j], ownerships(r0)[r0.len() - 1]));
                }
            }
            stack.push(x);
        }
    }
    proof {
        lemma_ownerships_empty(left@);
        lemma_ownerships_empty(right@);
        assert(Multiset::<Ownership>::empty().add(Multiset::<Ownership>::empty()).add(
            ownerships(stack@).to_multiset(),
        ) =~= ownerships(stack@).to_multiset());
    }
    let mut out: Vec<FileOwnershipRecord> = Vec::new();
    proof {
        lemma_ownerships_empty(out@);
        assert(Multiset::<Ownership>::empty().add(total) =~= total);
    }
    while stack.len() > 0
        invariant
            descending(ownerships(stack@)),
            in_index_order(ownerships(out@)),
            all_le(ownerships(out@), ownerships(stack@)),
            total == ownerships(out@).to_multiset().add(ownerships(stack@).to_multiset()),
        decreases stack.len(),
    {
        let ghost s0 = stack@;
        let ghost o0 = out@;
        let x = stack.pop().unwrap();
        proof {
            lemma_ownerships_drop_last(s0);
            lemma_ownerships_push(o0, x);
            assert(ownerships(o0).to_multiset().insert(x@).add(
                ownerships(s0.drop_last()).to_multiset(),
            ) =~= ownerships(o0).to_multiset().add(
                ownerships(s0.drop_last()).to_multiset().insert(x@),
            ));
            assert(x@ == ownerships(s0)[s0.len() - 1]);
            assert forall|i: int, j: int| 0 <= i < j < o0.len() + 1 implies owner_order()(
                #[trigger] ownerships(o0.push(x))[i],
                #[trigger] ownerships(o0.push(x))[j],
            ) by {
                if j < o0.len() {
                    assert(owner_order()(ownerships(o0)[i], ownerships(o0)[j]));
                } else {
                    assert(owner_le(ownerships(o0)[i], ownerships(s0)[s0.len() - 1]));
                }
            }
            assert forall|i: int, j: int| 0 <= i < o0.len() + 1 && 0 <= j < s0.len() - 1 implies owner_le(
                #[trigger] ownerships(o0.push(x))[i],
                #[trigger] ownerships(s0.drop_last())[j],
            ) by {
                if i < o0.len() {
                    assert(owner_le(ownerships(o0)[i], ownerships(s0)[j]));
                } else {
                    assert(owner_le(ownerships(s0)[s0.len() - 1], ownerships(s0)[j]));
                }
            }
        }
        out.push(x);
    }
    proof {
        lemma_ownerships_empty(stack@);
        assert(ownerships(out@).to_multiset().add(Multiset::<Ownership>::empty())
            =~= ownerships(out@).to_multiset());
    }
    out
}

/// Sorts the records into index order.
///
/// The result holds exactly the records it was given, each as often as it
/// came, and is in index order; since that order is total, this fixes the
/// result.
pub fn sort_records(records: Vec<FileOwnershipRecord>) -> (out: Vec<FileOwnershipRecord>)
    ensures
        in_index_order(ownerships(out@)),
        ownerships(out@).to_multiset() == ownerships(records@).to_multiset(),
    decreases records.len(),
{
    if records.len() <= 1 {
        return records;
    }
    let mut left = records;
    let ghost whole = left@;
    let mid = left.len() / 2;
    let right = left.split_off(mid);
    proof {
        assert(whole =~= left@ + right@);
        lemma_ownerships_concat(left@, right@);
    }
    let left = sort_records(left);
    let right = sort_records(right);
    merge_runs(left, right)
}

} // verus!
