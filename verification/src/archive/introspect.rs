//! From the bytes of a package archive to its entry in the index.

use crate::archive::codec::{decode, decoded};
use crate::archive::container::{
    ar_member_data, ar_member_names, list_members, locate_members, located_in, read_member, Member,
};
use crate::archive::control::{
    fields_of, qualified, qualified_name, read_fields, FieldValues, NotText,
};
use crate::archive::plain::{names_are_plain, plain_container};
use crate::archive::tarball::{
    collect_files, file_paths, find_entry, first_position, list_tar, read_tar_member,
    tar_member_data, tar_members,
};
use crate::index::merge::Contents;
use crate::index::record::ContentsEntry;
use vstd::prelude::*;

verus! {

/// Why a package archive yields no entry.
#[derive(Clone, Debug, PartialEq, Eq)]
pub enum IntrospectError {
    /// The container holds no control member, or no data member; each flag
    /// says whether that member is the missing one.
    MissingMembers { control: bool, data: bool },
    /// A member of the container cannot be read.
    Container(String),
    /// A member does not decompress.
    Codec(String),
    /// An inner tar archive cannot be read.
    Listing(String),
    /// The control text holds a line that is not UTF-8.
    NotText,
    /// The control text names no package, or no section; each flag says
    /// whether that field is the missing one. Both are missing where the
    /// control member holds no `./control`.
    MissingFields { package: bool, section: bool },
}

/// The mathematical value of an `IntrospectError`.
pub ghost enum Failure {
    MissingMembers { control: bool, data: bool },
    Container(Seq<char>),
    Codec(Seq<char>),
    Listing(Seq<char>),
    NotText,
    MissingFields { package: bool, section: bool },
}

impl View for IntrospectError {
    type V = Failure;

    open spec fn view(&self) -> Failure {
        match *self {
            IntrospectError::MissingMembers { control, data } => Failure::MissingMembers {
                control,
                data,
            },
            IntrospectError::Container(why) => Failure::Container(why@),
            IntrospectError::Codec(why) => Failure::Codec(why@),
            IntrospectError::Listing(why) => Failure::Listing(why@),
            IntrospectError::NotText => Failure::NotText,
            IntrospectError::MissingFields { package, section } => Failure::MissingFields {
                package,
                section,
            },
        }
    }
}

impl IntrospectError {
    /// The archive lacks something it must have, as opposed to being
    /// unreadable.
    pub open spec fn structural(self) -> bool {
        self is MissingMembers || self is MissingFields
    }

    /// Tells a structural error from one of reading.
    pub fn is_structural(&self) -> (r: bool)
        ensures
            r == self.structural(),
    {
        match self {
            IntrospectError::MissingMembers { .. } => true,
            IntrospectError::MissingFields { .. } => true,
            _ => false,
        }
    }
}

/// `./control`
pub open spec fn control_path() -> Seq<u8> {
    seq![0x2eu8, 0x2f, 0x63, 0x6f, 0x6e, 0x74, 0x72, 0x6f, 0x6c]
}

/// The tar archive inside a member: the member's bytes, decompressed.
pub open spec fn unpacked(deb: Seq<u8>, member: Member) -> Result<Seq<u8>, Failure> {
    match ar_member_data(deb, member.index as nat) {
        Err(why) => Err(Failure::Container(why)),
        Ok(packed) => match decoded(member.codec, packed) {
            Err(why) => Err(Failure::Codec(why)),
            Ok(tree) => Ok(tree),
        },
    }
}

/// The content of the first entry of `tree` named `./control`, if it has
/// one.
pub open spec fn control_text(tree: Seq<u8>) -> Result<Option<Seq<u8>>, Failure> {
    match tar_members(tree) {
        Err(why) => Err(Failure::Listing(why)),
        Ok(listing) => match first_position(listing, control_path(), 0) {
            None => Ok(None),
            Some(i) => match tar_member_data(tree, i as nat) {
                Err(why) => Err(Failure::Listing(why)),
                Ok(text) => Ok(Some(text)),
            },
        },
    }
}

/// The qualified name that the fields give, if both are there.
pub open spec fn named(branch: Seq<u8>, fields: FieldValues) -> Result<Seq<u8>, Failure> {
    match (fields.package, fields.section) {
        (Some(package), Some(section)) => Ok(qualified(branch, section, package)),
        _ => Err(
            Failure::MissingFields {
                package: fields.package is None,
                section: fields.section is None,
            },
        ),
    }
}

/// The qualified name of the package whose control archive is `tree`.
pub open spec fn package_name(tree: Seq<u8>, branch: Seq<u8>) -> Result<Seq<u8>, Failure> {
    match control_text(tree) {
        Err(failure) => Err(failure),
        Ok(None) => Err(Failure::MissingFields { package: true, section: true }),
        Ok(Some(text)) => match fields_of(text) {
            Err(_) => Err(Failure::NotText),
            Ok(fields) => named(branch, fields),
        },
    }
}

/// The files of the package whose data archive is `tree`.
pub open spec fn package_files(tree: Seq<u8>) -> Result<Seq<Seq<u8>>, Failure> {
    match tar_members(tree) {
        Err(why) => Err(Failure::Listing(why)),
        Ok(listing) => Ok(file_paths(listing)),
    }
}

/// What is said of a container that does not name its members plainly.
pub open spec fn unsupported_names() -> Seq<char> {
    "member names that refer to a table of names are not supported"@
}

/// What a package archive contributes to the index, or why it contributes
/// nothing. The steps are taken in this order and the first failure is the
/// outcome: see that the container names its members plainly; find the two
/// members; read and decompress the control member; list it and read the
/// fields of `./control`; read and decompress the data member; list it.
pub open spec fn introspected(deb: Seq<u8>, branch: Seq<u8>) -> Result<Contents, Failure> {
    if plain_container(deb) {
        introspected_plain(deb, branch)
    } else {
        Err(Failure::Container(unsupported_names()))
    }
}

/// `introspected` for a container that names its members plainly.
pub open spec fn introspected_plain(deb: Seq<u8>, branch: Seq<u8>) -> Result<Contents, Failure> {
    let found = located_in(ar_member_names(deb));
    match (found.control, found.data) {
        (Some(control), Some(data)) => match unpacked(deb, control) {
            Err(failure) => Err(failure),
            Ok(control_tree) => match package_name(control_tree, branch) {
                Err(failure) => Err(failure),
                Ok(package) => match unpacked(deb, data) {
                    Err(failure) => Err(failure),
                    Ok(data_tree) => match package_files(data_tree) {
                        Err(failure) => Err(failure),
                        Ok(files) => Ok(Contents { package, files }),
                    },
                },
            },
        },
        _ => Err(
            Failure::MissingMembers { control: found.control is None, data: found.data is None },
        ),
    }
}

/// `outcome` is the exec form of `expected`.
pub open spec fn bytes_outcome(outcome: Result<Vec<u8>, IntrospectError>, expected: Result<
    Seq<u8>,
    Failure,
>) -> bool {
    match outcome {
        Ok(bytes) => expected == Ok::<Seq<u8>, Failure>(bytes@),
        Err(e) => expected == Err::<Seq<u8>, Failure>(e@),
    }
}

/// Reads the member out of the container and decompresses it.
fn unpack(deb: &[u8], member: Member) -> (tree: Result<Vec<u8>, IntrospectError>)
    requires
        plain_container(deb@),
    ensures
        bytes_outcome(tree, unpacked(deb@, member)),
{
    match read_member(deb, member.index) {
        Err(why) => Err(IntrospectError::Container(why)),
        Ok(packed) => match decode(member.codec, packed.as_slice()) {
            Err(why) => Err(IntrospectError::Codec(why)),
            Ok(tree) => Ok(tree),
        },
    }
}

/// Reads the package's qualified name out of its control archive.
fn read_package_name(tree: &[u8], branch: &[u8]) -> (name: Result<Vec<u8>, IntrospectError>)
    ensures
        bytes_outcome(name, package_name(tree@, branch@)),
{
    let control: [u8; 9] = [0x2e, 0x2f, 0x63, 0x6f, 0x6e, 0x74, 0x72, 0x6f, 0x6c];
    proof {
        assert(control@ =~= control_path());
    }
    let listing = match list_tar(tree) {
        Err(why) => { return Err(IntrospectError::Listing(why)); },
        Ok(listing) => listing,
    };
    let at = match find_entry(&listing, control.as_slice()) {
        None => {
            return Err(IntrospectError::MissingFields { package: true, section: true });
        },
        Some(at) => at,
    };
    let text = match read_tar_member(tree, at) {
        Err(why) => { return Err(IntrospectError::Listing(why)); },
        Ok(text) => text,
    };
    let fields = match read_fields(text.as_slice()) {
        Err(_) => { return Err(IntrospectError::NotText); },
        Ok(fields) => fields,
    };
    match (fields.package, fields.section) {
        (Some(package), Some(section)) => Ok(
            qualified_name(branch, section.as_slice(), package.as_slice()),
        ),
        (package, section) => Err(
            IntrospectError::MissingFields {
                package: package.is_none(),
                section: section.is_none(),
            },
        ),
    }
}

/// Opens a package archive and returns what it contributes to the index:
/// the package's qualified name and the path of every file, not directory,
/// of its data member.
///
/// `branch` is the branch the package belongs to; `main` is the default
/// branch.
pub fn introspect(deb: &[u8], branch: &[u8]) -> (entry: Result<ContentsEntry, IntrospectError>)
    ensures
        match entry {
            Ok(contents) => introspected(deb@, branch@) == Ok::<Contents, Failure>(contents@),
            Err(e) => introspected(deb@, branch@) == Err::<Contents, Failure>(e@),
        },
{
    if !names_are_plain(deb) {
        return Err(
            IntrospectError::Container(
                "member names that refer to a table of names are not supported".to_owned(),
            ),
        );
    }
    let names = list_members(deb);
    let found = locate_members(&names);
    let (control, data) = match (found.control, found.data) {
        (Some(control), Some(data)) => (control, data),
        (control, data) => {
            return Err(
                IntrospectError::MissingMembers {
                    control: control.is_none(),
                    data: data.is_none(),
                },
            );
        },
    };
    let control_tree = match unpack(deb, control) {
        Err(e) => { return Err(e); },
        Ok(tree) => tree,
    };
    let package = match read_package_name(control_tree.as_slice(), branch) {
        Err(e) => { return Err(e); },
        Ok(package) => package,
    };
    let data_tree = match unpack(deb, data) {
        Err(e) => { return Err(e); },
        Ok(tree) => tree,
    };
    let listing = match list_tar(data_tree.as_slice()) {
        Err(why) => { return Err(IntrospectError::Listing(why)); },
        Ok(listing) => listing,
    };
    let files = collect_files(&listing);
    Ok(ContentsEntry { package, files })
}

} // verus!
