//! The line format of the contents index.

use crate::bytes::{append_bytes, has_prefix};
use crate::index::record::{ownerships, FileOwnershipRecord, Ownership};
use vstd::prelude::*;

verus! {

/// The two bytes `./` that archives put in front of their paths.
pub open spec fn dot_slash() -> Seq<u8> {
    seq![0x2e, 0x2f]
}

/// The path as the index shows it: without a leading `./`.
pub open spec fn shown_path(path: Seq<u8>) -> Seq<u8> {
    if has_prefix(path, dot_slash()) {
        path.skip(2)
    } else {
        path
    }
}

/// The index line of one record: the shown path, two spaces, the owner's
/// qualified name, a line feed.
pub open spec fn line_of(o: Ownership) -> Seq<u8> {
    shown_path(o.path) + seq![0x20u8, 0x20u8] + o.package + seq![0x0au8]
}

/// The lines of the records, one after the other.
pub open spec fn lines_of(s: Seq<Ownership>) -> Seq<u8>
    decreases s.len(),
{
    if s.len() == 0 {
        Seq::empty()
    } else {
        line_of(s[0]) + lines_of(s.drop_first())
    }
}

/// The lines of a run of records are the line of the first and the lines of
/// the rest.
pub proof fn lemma_lines_of_skip(s: Seq<Ownership>, i: int)
    requires
        0 <= i < s.len(),
    ensures
        lines_of(s.skip(i)) == line_of(s[i]) + lines_of(s.skip(i + 1)),
{
    assert(s.skip(i).drop_first() =~= s.skip(i + 1));
}

/// Whether the path begins with `./`.
fn has_dot_slash(path: &[u8]) -> (r: bool)
    ensures
        r == has_prefix(path@, dot_slash()),
{
    if path.len() >= 2 && path[0] == 0x2e && path[1] == 0x2f {
        proof {
            assert(path@.subrange(0, 2) =~= dot_slash());
        }
        true
    } else {
        proof {
            if path@.len() >= 2 {
                assert(path@.subrange(0, 2)[0] == path@[0]);
                assert(path@.subrange(0, 2)[1] == path@[1]);
            }
        }
        false
    }
}

/// Appends the index line of `record` to `out`.
pub fn push_line(out: &mut Vec<u8>, record: &FileOwnershipRecord)
    ensures
        final(out)@ == old(out)@ + line_of(record@),
{
    let path = record.path.as_slice();
    let from: usize = if has_dot_slash(path) { 2 } else { 0 };
    let shown = vstd::slice::slice_subrange(path, from, path.len());
    proof {
        assert(shown@ =~= shown_path(record@.path));
    }
    let ghost before = out@;
    append_bytes(out, shown);
    out.push(0x20);
    out.push(0x20);
    append_bytes(out, record.package.as_slice());
    out.push(0x0a);
    proof {
        assert(out@ =~= before + line_of(record@));
    }
}

/// The index line of one record.
pub fn serialize_record(record: &FileOwnershipRecord) -> (line: Vec<u8>)
    ensures
        line@ == line_of(record@),
{
    let mut line: Vec<u8> = Vec::new();
    push_line(&mut line, record);
    proof {
        assert(Seq::<u8>::empty() + line_of(record@) =~= line_of(record@));
    }
    line
}

/// The whole index, serialised at once.
pub fn serialize_records(records: &Vec<FileOwnershipRecord>) -> (text: Vec<u8>)
    ensures
        text@ == lines_of(ownerships(records@)),
{
    let mut text: Vec<u8> = Vec::new();
    let ghost all = ownerships(records@);
    let mut k: usize = 0;
    proof {
        assert(all.skip(0) =~= all);
    }
    while k < records.len()
        invariant
            k <= records.len(),
            all == ownerships(records@),
            text@ + lines_of(all.skip(k as int)) == lines_of(all),
        decreases records.len() - k,
    {
        let ghost before = text@;
        push_line(&mut text, &records[k]);
        proof {
            lemma_lines_of_skip(all, k as int);
            assert(all[k as int] == records@[k as int]@);
            assert((before + line_of(all[k as int])) + lines_of(all.skip(k + 1)) =~= before + (
            line_of(all[k as int]) + lines_of(all.skip(k + 1))));
        }
        k += 1;
    }
    proof {
        assert(all.skip(k as int) =~= Seq::<Ownership>::empty());
        assert(text@ + Seq::<u8>::empty() =~= text@);
    }
    text
}

} // verus!
