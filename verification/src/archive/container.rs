//! The outer container of a package archive and the two members looked for
//! in it.

use crate::archive::plain::plain_container;
use crate::bytes::bytes_eq;
use std::io::Read;
use vstd::prelude::*;

verus! {

/// The identifiers of the members of the `ar` archive `deb`, in the order of
/// the archive, up to its end or to the first member that cannot be read.
pub uninterp spec fn ar_member_names(deb: Seq<u8>) -> Seq<Seq<u8>>;

/// The bytes of the member of `deb` at `index`, or why they cannot be had.
pub uninterp spec fn ar_member_data(deb: Seq<u8>, index: nat) -> Result<Seq<u8>, Seq<char>>;

/// The byte strings of a vector of byte vectors.
pub open spec fn byte_strings(v: Seq<Vec<u8>>) -> Seq<Seq<u8>> {
    v.map_values(|name: Vec<u8>| name@)
}

/// Walks `deb` with `ar::Archive::next_entry` until it yields no further
/// member or an error, and returns the identifier of each member's header.
/// The contract only gives that list its name. Containers that do not name
/// their members plainly are left out: on a name that refers into a table of
/// names which does not reach that far, the outside function panics.
#[verifier::external_body]
pub(crate) fn list_members(deb: &[u8]) -> (names: Vec<Vec<u8>>)
    requires
        plain_container(deb@),
    ensures
        byte_strings(names@) == ar_member_names(deb@),
{
    let mut archive = ar::Archive::new(deb);
    let mut names = Vec::new();
    while let Some(Ok(entry)) = archive.next_entry() {
        names.push(entry.header().identifier().to_vec());
    }
    names
}

/// Opens `deb` anew, goes to the member at `index` with
/// `ar::Archive::jump_to_entry` and reads it to its end. The contract only
/// gives the outcome its name; the error is the outside error's text.
/// Containers that do not name their members plainly are left out, as for
/// `list_members`.
#[verifier::external_body]
pub(crate) fn read_member(deb: &[u8], index: usize) -> (data: Result<Vec<u8>, String>)
    requires
        plain_container(deb@),
    ensures
        match data {
            Ok(bytes) => ar_member_data(deb@, index as nat) == Ok::<Seq<u8>, Seq<char>>(bytes@),
            Err(why) => ar_member_data(deb@, index as nat) == Err::<Seq<u8>, Seq<char>>(why@),
        },
{
    let mut archive = ar::Archive::new(std::io::Cursor::new(deb));
    let mut entry = archive.jump_to_entry(index).map_err(|e| e.to_string())?;
    let mut bytes = Vec::new();
    entry.read_to_end(&mut bytes).map_err(|e| e.to_string())?;
    Ok(bytes)
}

/// The compression of a member.
#[derive(Clone, Copy, Debug, PartialEq, Eq, Structural)]
pub enum DecoderVariant {
    Xz,
    Gz,
}

/// Which of the two members a name stands for.
#[derive(Clone, Copy, Debug, PartialEq, Eq, Structural)]
pub enum MemberRole {
    Control,
    Data,
}

/// Where a member stands in the container, and how it is compressed.
#[derive(Clone, Copy, Debug, PartialEq, Eq, Structural)]
pub struct Member {
    pub index: usize,
    pub codec: DecoderVariant,
}

/// The members found so far by a scan.
#[derive(Clone, Copy, Debug, PartialEq, Eq, Structural)]
pub struct Located {
    pub control: Option<Member>,
    pub data: Option<Member>,
}

/// `control.tar.xz`
pub open spec fn control_tar_xz() -> Seq<u8> {
    seq![0x63u8, 0x6f, 0x6e, 0x74, 0x72, 0x6f, 0x6c, 0x2e, 0x74, 0x61, 0x72, 0x2e, 0x78, 0x7a]
}

/// `control.tar.gz`
pub open spec fn control_tar_gz() -> Seq<u8> {
    seq![0x63u8, 0x6f, 0x6e, 0x74, 0x72, 0x6f, 0x6c, 0x2e, 0x74, 0x61, 0x72, 0x2e, 0x67, 0x7a]
}

/// `data.tar.xz`
pub open spec fn data_tar_xz() -> Seq<u8> {
    seq![0x64u8, 0x61, 0x74, 0x61, 0x2e, 0x74, 0x61, 0x72, 0x2e, 0x78, 0x7a]
}

/// `data.tar.gz`
pub open spec fn data_tar_gz() -> Seq<u8> {
    seq![0x64u8, 0x61, 0x74, 0x61, 0x2e, 0x74, 0x61, 0x72, 0x2e, 0x67, 0x7a]
}

/// The role and compression that a member's name stands for: exactly four
/// names are recognised.
pub open spec fn recognised(name: Seq<u8>) -> Option<(MemberRole, DecoderVariant)> {
    if name == control_tar_xz() {
        Some((MemberRole::Control, DecoderVariant::Xz))
    } else if name == control_tar_gz() {
        Some((MemberRole::Control, DecoderVariant::Gz))
    } else if name == data_tar_xz() {
        Some((MemberRole::Data, DecoderVariant::Xz))
    } else if name == data_tar_gz() {
        Some((MemberRole::Data, DecoderVariant::Gz))
    } else {
        None
    }
}

impl Located {
    /// Both members have been found.
    pub open spec fn complete(self) -> bool {
        self.control is Some && self.data is Some
    }

    /// The state after the member at `index` with the name `name` was seen:
    /// a recognised name replaces what was known of its role.
    pub open spec fn noting(self, index: usize, name: Seq<u8>) -> Located {
        match recognised(name) {
            Some((MemberRole::Control, codec)) => Located {
                control: Some(Member { index, codec }),
                data: self.data,
            },
            Some((MemberRole::Data, codec)) => Located {
                control: self.control,
                data: Some(Member { index, codec }),
            },
            None => self,
        }
    }

    /// The state after the names from position `from` on were scanned, one
    /// by one, stopping once both members are found.
    pub open spec fn scanning(self, names: Seq<Seq<u8>>, from: int) -> Located
        decreases names.len() - from,
    {
        if from < 0 || from >= names.len() || from > usize::MAX || self.complete() {
            self
        } else {
            self.noting(from as usize, names[from]).scanning(names, from + 1)
        }
    }
}

/// What a scan of the member names finds.
pub open spec fn located_in(names: Seq<Seq<u8>>) -> Located {
    Located { control: None, data: None }.scanning(names, 0)
}

/// `member` stands in `names` and has a name of the given role, with its
/// codec.
pub open spec fn points_at(member: Option<Member>, names: Seq<Seq<u8>>, role: MemberRole) -> bool {
    match member {
        Some(m) => m.index < names.len() && recognised(names[m.index as int]) == Some(
            (role, m.codec),
        ),
        None => true,
    }
}

impl Located {
    /// Scanning only ever records members that are there, under the role
    /// and codec of their names.
    pub proof fn lemma_scanning_points_at_members(self, names: Seq<Seq<u8>>, from: int)
        requires
            points_at(self.control, names, MemberRole::Control),
            points_at(self.data, names, MemberRole::Data),
        ensures
            points_at(self.scanning(names, from).control, names, MemberRole::Control),
            points_at(self.scanning(names, from).data, names, MemberRole::Data),
        decreases names.len() - from,
    {
        if !(from < 0 || from >= names.len() || from > usize::MAX || self.complete()) {
            self.noting(from as usize, names[from]).lemma_scanning_points_at_members(
                names,
                from + 1,
            );
        }
    }
}

/// The members that a scan finds are members of the container: the control
/// member has one of the two control names, the data member one of the two
/// data names, and each has the codec of its name.
pub proof fn lemma_located_members_are_there(names: Seq<Seq<u8>>)
    ensures
        points_at(located_in(names).control, names, MemberRole::Control),
        points_at(located_in(names).data, names, MemberRole::Data),
{
    Located { control: None, data: None }.lemma_scanning_points_at_members(names, 0);
}

/// Tells which member a name stands for.
pub fn recognise(name: &[u8]) -> (r: Option<(MemberRole, DecoderVariant)>)
    ensures
        r == recognised(name@),
{
    let cx: [u8; 14] = [
        0x63, 0x6f, 0x6e, 0x74, 0x72, 0x6f, 0x6c, 0x2e, 0x74, 0x61, 0x72, 0x2e, 0x78, 0x7a,
    ];
    let cg: [u8; 14] = [
        0x63, 0x6f, 0x6e, 0x74, 0x72, 0x6f, 0x6c, 0x2e, 0x74, 0x61, 0x72, 0x2e, 0x67, 0x7a,
    ];
    let dx: [u8; 11] = [0x64, 0x61, 0x74, 0x61, 0x2e, 0x74, 0x61, 0x72, 0x2e, 0x78, 0x7a];
    let dg: [u8; 11] = [0x64, 0x61, 0x74, 0x61, 0x2e, 0x74, 0x61, 0x72, 0x2e, 0x67, 0x7a];
    proof {
        assert(cx@ =~= control_tar_xz());
        assert(cg@ =~= control_tar_gz());
        assert(dx@ =~= data_tar_xz());
        assert(dg@ =~= data_tar_gz());
    }
    if bytes_eq(name, cx.as_slice()) {
        Some((MemberRole::Control, DecoderVariant::Xz))
    } else if bytes_eq(name, cg.as_slice()) {
        Some((MemberRole::Control, DecoderVariant::Gz))
    } else if bytes_eq(name, dx.as_slice()) {
        Some((MemberRole::Data, DecoderVariant::Xz))
    } else if bytes_eq(name, dg.as_slice()) {
        Some((MemberRole::Data, DecoderVariant::Gz))
    } else {
        None
    }
}

/// Scans the member names once, from the first, and records where the
/// control member and the data member stand and how each is compressed. The
/// scan ends as soon as both are known; until then a later member of a role
/// replaces an earlier one. The members may come in any order.
pub fn locate_members(names: &Vec<Vec<u8>>) -> (found: Located)
    ensures
        found == located_in(byte_strings(names@)),
{
    let mut found = Located { control: None, data: None };
    let mut i: usize = 0;
    let ghost all = byte_strings(names@);
    while i < names.len() && !(found.control.is_some() && found.data.is_some())
        invariant
            i <= names.len(),
            all == byte_strings(names@),
            found.scanning(all, i as int) == located_in(all),
        decreases names.len() - i,
    {
        match recognise(names[i].as_slice()) {
            Some((MemberRole::Control, codec)) => {
                found = Located { control: Some(Member { index: i, codec }), data: found.data };
            },
            Some((MemberRole::Data, codec)) => {
                found = Located { control: found.control, data: Some(Member { index: i, codec }) };
            },
            None => {},
        }
        i += 1;
    }
    found
}

} // verus!
