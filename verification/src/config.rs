//! The description of a repository: what it is called, and the packages
//! that go into it.

pub mod direct;
pub mod repos;
pub mod source;
pub mod text;

use crate::bytes::{has_prefix, starts_with};
use crate::config::direct::{Direct, DirectValue};
use crate::config::repos::{Repo, RepoValue};
use crate::config::source::{Source, SourceValue};
use crate::config::text::{find_dot, first_dot, render, str_eq, text_is};
use std::borrow::Cow;
use vstd::prelude::*;
use vstd::string::StringSliceAdditionalSpecFns;
use vstd::utf8::encode_utf8;

verus! {

/// Why a value could not be set.
#[derive(Clone, Copy, Debug, PartialEq, Eq, Structural)]
pub enum ConfigError {
    /// No value goes by the given key.
    InvalidKey,
}

/// What a key stands for.
pub ghost enum Lookup {
    /// Nothing.
    Missing,
    /// A field, with its text.
    Text(Seq<char>),
    /// A whole record or list, which is shown in a readable form that is not
    /// fixed.
    Dump,
}

/// `found` is what a look-up with the outcome `lookup` returns.
pub open spec fn shown(found: Option<Cow<'_, str>>, lookup: Lookup) -> bool {
    match lookup {
        Lookup::Missing => found is None,
        Lookup::Text(text) => found is Some && found->0@ == text,
        Lookup::Dump => found is Some,
    }
}

/// Reading and setting values by key.
pub trait ConfigFetch: Sized {
    /// What `key` stands for.
    spec fn lookup(&self, key: Seq<u8>) -> Lookup;

    /// Setting `key` to `value` turns `self` into `after` and ends with
    /// `result`.
    spec fn updating(
        &self,
        key: Seq<u8>,
        value: Seq<char>,
        after: &Self,
        result: Result<(), ConfigError>,
    ) -> bool;

    /// The value that goes by `key`.
    fn fetch<'a>(&'a self, key: &str) -> (found: Option<Cow<'a, str>>)
        ensures
            shown(found, self.lookup(key.spec_bytes())),
    ;

    /// Sets the value that goes by `key`.
    fn update(&mut self, key: &str, value: String) -> (result: Result<(), ConfigError>)
        ensures
            old(self).updating(key.spec_bytes(), value@, final(self), result),
    ;
}

/// The component that packages belong to where none is named: `main`.
pub fn default_component() -> (component: String)
    ensures
        component@ == "main"@,
{
    "main".to_owned()
}

/// The description of a repository.
#[derive(Clone, Debug, PartialEq, Eq)]
pub struct Config {
    pub archive: String,
    pub version: String,
    pub origin: String,
    pub label: String,
    pub email: String,
    /// Packages which already have the archive format.
    pub direct: Option<Vec<Direct>>,
    /// Projects which are built from source.
    pub source: Option<Vec<Source>>,
    /// Repositories to pull packages from.
    pub repos: Option<Vec<Repo>>,
    pub default_component: String,
}

/// The mathematical value of a `Config`.
pub ghost struct ConfigValue {
    pub archive: Seq<char>,
    pub version: Seq<char>,
    pub origin: Seq<char>,
    pub label: Seq<char>,
    pub email: Seq<char>,
    pub direct: Option<Seq<DirectValue>>,
    pub source: Option<Seq<SourceValue>>,
    pub repos: Option<Seq<RepoValue>>,
    pub default_component: Seq<char>,
}

/// The values of an optional list of packages.
pub open spec fn direct_values(list: Option<Vec<Direct>>) -> Option<Seq<DirectValue>> {
    match list {
        Some(v) => Some(v@.map_values(|d: Direct| d@)),
        None => None,
    }
}

/// The values of an optional list of projects.
pub open spec fn source_values(list: Option<Vec<Source>>) -> Option<Seq<SourceValue>> {
    match list {
        Some(v) => Some(v@.map_values(|s: Source| s@)),
        None => None,
    }
}

/// The values of an optional list of repositories.
pub open spec fn repo_values(list: Option<Vec<Repo>>) -> Option<Seq<RepoValue>> {
    match list {
        Some(v) => Some(v@.map_values(|r: Repo| r@)),
        None => None,
    }
}

impl View for Config {
    type V = ConfigValue;

    open spec fn view(&self) -> ConfigValue {
        ConfigValue {
            archive: self.archive@,
            version: self.version@,
            origin: self.origin@,
            label: self.label@,
            email: self.email@,
            direct: direct_values(self.direct),
            source: source_values(self.source),
            repos: repo_values(self.repos),
            default_component: self.default_component@,
        }
    }
}

/// The name in front of the first full stop of `rest`.
pub open spec fn entry_name(rest: Seq<u8>) -> Seq<u8> {
    rest.take(first_dot(rest))
}

/// What follows the name in `rest`: nothing, or a full stop and the key of a
/// field.
pub open spec fn entry_field(rest: Seq<u8>) -> Seq<u8> {
    rest.skip(first_dot(rest))
}

/// The position of the first package at or after `from` whose name has the
/// bytes `name`.
pub open spec fn first_direct(list: Seq<Direct>, name: Seq<u8>, from: int) -> Option<int>
    decreases list.len() - from,
{
    if from < 0 || from >= list.len() {
        None
    } else if encode_utf8(list[from].name@) == name {
        Some(from)
    } else {
        first_direct(list, name, from + 1)
    }
}

/// The position of the first project at or after `from` whose name has the
/// bytes `name`.
pub open spec fn first_source(list: Seq<Source>, name: Seq<u8>, from: int) -> Option<int>
    decreases list.len() - from,
{
    if from < 0 || from >= list.len() {
        None
    } else if encode_utf8(list[from].name@) == name {
        Some(from)
    } else {
        first_source(list, name, from + 1)
    }
}

/// Finds the first package with the given name.
fn find_direct(list: &Vec<Direct>, name: &[u8]) -> (found: Option<usize>)
    ensures
        match found {
            Some(i) => first_direct(list@, name@, 0) == Some(i as int) && i < list@.len(),
            None => first_direct(list@, name@, 0) is None,
        },
{
    let mut i: usize = 0;
    while i < list.len()
        invariant
            i <= list.len(),
            first_direct(list@, name@, 0) == first_direct(list@, name@, i as int),
        decreases list.len() - i,
    {
        if text_is(list[i].name.as_str(), name) {
            return Some(i);
        }
        i += 1;
    }
    None
}

/// Finds the first project with the given name.
fn find_source(list: &Vec<Source>, name: &[u8]) -> (found: Option<usize>)
    ensures
        match found {
            Some(i) => first_source(list@, name@, 0) == Some(i as int) && i < list@.len(),
            None => first_source(list@, name@, 0) is None,
        },
{
    let mut i: usize = 0;
    while i < list.len()
        invariant
            i <= list.len(),
            first_source(list@, name@, 0) == first_source(list@, name@, i as int),
        decreases list.len() - i,
    {
        if text_is(list[i].name.as_str(), name) {
            return Some(i);
        }
        i += 1;
    }
    None
}

/// What the key `rest` stands for among the packages: `rest` is a name,
/// or a name, a full stop and the key of a field.
pub open spec fn lookup_direct(list: Option<Vec<Direct>>, rest: Seq<u8>) -> Lookup {
    match list {
        None => Lookup::Missing,
        Some(packages) => match first_direct(packages@, entry_name(rest), 0) {
            None => Lookup::Missing,
            Some(i) => if entry_field(rest).len() > 1 {
                packages@[i].lookup(entry_field(rest).skip(1))
            } else {
                Lookup::Dump
            },
        },
    }
}

/// What the key `rest` stands for among the projects.
pub open spec fn lookup_source(list: Option<Vec<Source>>, rest: Seq<u8>) -> Lookup {
    match list {
        None => Lookup::Missing,
        Some(projects) => match first_source(projects@, entry_name(rest), 0) {
            None => Lookup::Missing,
            Some(i) => if entry_field(rest).len() > 1 {
                projects@[i].lookup(entry_field(rest).skip(1))
            } else {
                Lookup::Dump
            },
        },
    }
}

/// Setting the key `rest` among the packages turns `list` into `after`.
pub open spec fn updating_direct(
    list: Option<Vec<Direct>>,
    rest: Seq<u8>,
    value: Seq<char>,
    after: Option<Vec<Direct>>,
    result: Result<(), ConfigError>,
) -> bool {
    match list {
        Some(packages) if first_direct(packages@, entry_name(rest), 0) is Some && entry_field(
            rest,
        ).len() > 1 => {
            let i = first_direct(packages@, entry_name(rest), 0)->0;
            &&& after is Some
            &&& after->0@.len() == packages@.len()
            &&& packages@[i].updating(entry_field(rest).skip(1), value, &after->0@[i], result)
            &&& forall|j: int|
                0 <= j < packages@.len() && j != i ==> (#[trigger] after->0@[j])@ == packages@[j]@
        },
        _ => result is Err && direct_values(after) == direct_values(list),
    }
}

/// Setting the key `rest` among the projects turns `list` into `after`.
pub open spec fn updating_source(
    list: Option<Vec<Source>>,
    rest: Seq<u8>,
    value: Seq<char>,
    after: Option<Vec<Source>>,
    result: Result<(), ConfigError>,
) -> bool {
    match list {
        Some(projects) if first_source(projects@, entry_name(rest), 0) is Some && entry_field(
            rest,
        ).len() > 1 => {
            let i = first_source(projects@, entry_name(rest), 0)->0;
            &&& after is Some
            &&& after->0@.len() == projects@.len()
            &&& projects@[i].updating(entry_field(rest).skip(1), value, &after->0@[i], result)
            &&& forall|j: int|
                0 <= j < projects@.len() && j != i ==> (#[trigger] after->0@[j])@ == projects@[j]@
        },
        _ => result is Err && source_values(after) == source_values(list),
    }
}

/// The bytes of `direct.`, in front of the key of a package.
pub open spec fn direct_prefix() -> Seq<u8> {
    "direct.".spec_bytes()
}

/// The bytes of `source.`, in front of the key of a project.
pub open spec fn source_prefix() -> Seq<u8> {
    "source.".spec_bytes()
}

/// Reads the package that `rest` names, or a field of it.
fn fetch_direct<'a>(list: &'a Option<Vec<Direct>>, rest: &[u8]) -> (found: Option<Cow<'a, str>>)
    ensures
        shown(found, lookup_direct(*list, rest@)),
{
    let dot = find_dot(rest);
    let name = vstd::slice::slice_subrange(rest, 0, dot);
    let field = vstd::slice::slice_subrange(rest, dot, rest.len());
    proof {
        assert(name@ =~= entry_name(rest@));
        assert(field@ =~= entry_field(rest@));
    }
    match list {
        None => None,
        Some(packages) => match find_direct(packages, name) {
            None => None,
            Some(i) => if field.len() > 1 {
                let sub = vstd::slice::slice_subrange(field, 1, field.len());
                proof {
                    assert(sub@ =~= field@.skip(1));
                }
                packages[i].fetch_key(sub)
            } else {
                Some(Cow::Owned(render(&packages[i])))
            },
        },
    }
}

/// Reads the project that `rest` names, or a field of it.
fn fetch_source<'a>(list: &'a Option<Vec<Source>>, rest: &[u8]) -> (found: Option<Cow<'a, str>>)
    ensures
        shown(found, lookup_source(*list, rest@)),
{
    let dot = find_dot(rest);
    let name = vstd::slice::slice_subrange(rest, 0, dot);
    let field = vstd::slice::slice_subrange(rest, dot, rest.len());
    proof {
        assert(name@ =~= entry_name(rest@));
        assert(field@ =~= entry_field(rest@));
    }
    match list {
        None => None,
        Some(projects) => match find_source(projects, name) {
            None => None,
            Some(i) => if field.len() > 1 {
                let sub = vstd::slice::slice_subrange(field, 1, field.len());
                proof {
                    assert(sub@ =~= field@.skip(1));
                }
                projects[i].fetch_key(sub)
            } else {
                Some(Cow::Owned(render(&projects[i])))
            },
        },
    }
}

/// Sets a field of the package that `rest` names.
fn update_direct(list: &mut Option<Vec<Direct>>, rest: &[u8], value: String) -> (result: Result<
    (),
    ConfigError,
>)
    ensures
        updating_direct(*old(list), rest@, value@, *final(list), result),
{
    let dot = find_dot(rest);
    let name = vstd::slice::slice_subrange(rest, 0, dot);
    let field = vstd::slice::slice_subrange(rest, dot, rest.len());
    proof {
        assert(name@ =~= entry_name(rest@));
        assert(field@ =~= entry_field(rest@));
    }
    match list.take() {
        None => Err(ConfigError::InvalidKey),
        Some(mut packages) => {
            let result = match find_direct(&packages, name) {
                Some(i) if field.len() > 1 => {
                    let sub = vstd::slice::slice_subrange(field, 1, field.len());
                    proof {
                        assert(sub@ =~= field@.skip(1));
                    }
                    packages[i].update_key(sub, value)
                },
                _ => Err(ConfigError::InvalidKey),
            };
            *list = Some(packages);
            result
        },
    }
}

/// Sets a field of the project that `rest` names.
fn update_source(list: &mut Option<Vec<Source>>, rest: &[u8], value: String) -> (result: Result<
    (),
    ConfigError,
>)
    ensures
        updating_source(*old(list), rest@, value@, *final(list), result),
{
    let dot = find_dot(rest);
    let name = vstd::slice::slice_subrange(rest, 0, dot);
    let field = vstd::slice::slice_subrange(rest, dot, rest.len());
    proof {
        assert(name@ =~= entry_name(rest@));
        assert(field@ =~= entry_field(rest@));
    }
    match list.take() {
        None => Err(ConfigError::InvalidKey),
        Some(mut projects) => {
            let result = match find_source(&projects, name) {
                Some(i) if field.len() > 1 => {
                    let sub = vstd::slice::slice_subrange(field, 1, field.len());
                    proof {
                        assert(sub@ =~= field@.skip(1));
                    }
                    projects[i].update_key(sub, value)
                },
                _ => Err(ConfigError::InvalidKey),
            };
            *list = Some(projects);
            result
        },
    }
}

impl ConfigFetch for Config {
    /// The fields `archive`, `version`, `origin`, `label` and `email` go by
    /// their names; `direct` is the list of packages; `direct.NAME` is the
    /// package of that name and `direct.NAME.FIELD` a field of it;
    /// `source.NAME` and `source.NAME.FIELD` are the same for projects.
    open spec fn lookup(&self, key: Seq<u8>) -> Lookup {
        if key == "archive".spec_bytes() {
            Lookup::Text(self.archive@)
        } else if key == "version".spec_bytes() {
            Lookup::Text(self.version@)
        } else if key == "origin".spec_bytes() {
            Lookup::Text(self.origin@)
        } else if key == "label".spec_bytes() {
            Lookup::Text(self.label@)
        } else if key == "email".spec_bytes() {
            Lookup::Text(self.email@)
        } else if key == "direct".spec_bytes() {
            Lookup::Dump
        } else if has_prefix(key, direct_prefix()) {
            lookup_direct(self.direct, key.skip(direct_prefix().len() as int))
        } else if has_prefix(key, source_prefix()) {
            lookup_source(self.source, key.skip(source_prefix().len() as int))
        } else {
            Lookup::Missing
        }
    }

    /// The five fields of the record can be set, and the fields of a package
    /// or of a project; any other key is refused and changes nothing.
    open spec fn updating(
        &self,
        key: Seq<u8>,
        value: Seq<char>,
        after: &Self,
        result: Result<(), ConfigError>,
    ) -> bool {
        if key == "archive".spec_bytes() {
            result is Ok && after@ == (ConfigValue { archive: value, ..self@ })
        } else if key == "version".spec_bytes() {
            result is Ok && after@ == (ConfigValue { version: value, ..self@ })
        } else if key == "origin".spec_bytes() {
            result is Ok && after@ == (ConfigValue { origin: value, ..self@ })
        } else if key == "label".spec_bytes() {
            result is Ok && after@ == (ConfigValue { label: value, ..self@ })
        } else if key == "email".spec_bytes() {
            result is Ok && after@ == (ConfigValue { email: value, ..self@ })
        } else if has_prefix(key, direct_prefix()) {
            &&& after@ == (ConfigValue { direct: after@.direct, ..self@ })
            &&& updating_direct(
                self.direct,
                key.skip(direct_prefix().len() as int),
                value,
                after.direct,
                result,
            )
        } else if has_prefix(key, source_prefix()) {
            &&& after@ == (ConfigValue { source: after@.source, ..self@ })
            &&& updating_source(
                self.source,
                key.skip(source_prefix().len() as int),
                value,
                after.source,
                result,
            )
        } else {
            result is Err && after@ == self@
        }
    }

    fn fetch<'a>(&'a self, key: &str) -> (found: Option<Cow<'a, str>>) {
        let key = key.as_bytes();
        let direct = "direct.".as_bytes();
        let source = "source.".as_bytes();
        if text_is("archive", key) {
            Some(Cow::Borrowed(self.archive.as_str()))
        } else if text_is("version", key) {
            Some(Cow::Borrowed(self.version.as_str()))
        } else if text_is("origin", key) {
            Some(Cow::Borrowed(self.origin.as_str()))
        } else if text_is("label", key) {
            Some(Cow::Borrowed(self.label.as_str()))
        } else if text_is("email", key) {
            Some(Cow::Borrowed(self.email.as_str()))
        } else if text_is("direct", key) {
            Some(Cow::Owned(render(&self.direct)))
        } else if starts_with(key, direct) {
            let rest = vstd::slice::slice_subrange(key, direct.len(), key.len());
            proof {
                assert(rest@ =~= key@.skip(direct_prefix().len() as int));
            }
            fetch_direct(&self.direct, rest)
        } else if starts_with(key, source) {
            let rest = vstd::slice::slice_subrange(key, source.len(), key.len());
            proof {
                assert(rest@ =~= key@.skip(source_prefix().len() as int));
            }
            fetch_source(&self.source, rest)
        } else {
            None
        }
    }

    fn update(&mut self, key: &str, value: String) -> (result: Result<(), ConfigError>) {
        let key = key.as_bytes();
        let direct = "direct.".as_bytes();
        let source = "source.".as_bytes();
        if text_is("archive", key) {
            self.archive = value;
            Ok(())
        } else if text_is("version", key) {
            self.version = value;
            Ok(())
        } else if text_is("origin", key) {
            self.origin = value;
            Ok(())
        } else if text_is("label", key) {
            self.label = value;
            Ok(())
        } else if text_is("email", key) {
            self.email = value;
            Ok(())
        } else if starts_with(key, direct) {
            let rest = vstd::slice::slice_subrange(key, direct.len(), key.len());
            proof {
                assert(rest@ =~= key@.skip(direct_prefix().len() as int));
            }
            update_direct(&mut self.direct, rest, value)
        } else if starts_with(key, source) {
            let rest = vstd::slice::slice_subrange(key, source.len(), key.len());
            proof {
                assert(rest@ =~= key@.skip(source_prefix().len() as int));
            }
            update_source(&mut self.source, rest, value)
        } else {
            Err(ConfigError::InvalidKey)
        }
    }
}

impl Config {
    /// One of the ready-made packages, or one of their files, goes by the
    /// name `filename`.
    pub open spec fn has_direct(&self, filename: Seq<char>) -> bool {
        match self@.direct {
            Some(packages) => exists|i: int|
                0 <= i < packages.len() && (#[trigger] packages[i]).goes_by(filename),
            None => false,
        }
    }

    /// One of the projects goes by the name `filename`.
    pub open spec fn has_source(&self, filename: Seq<char>) -> bool {
        match self@.source {
            Some(projects) => exists|i: int|
                0 <= i < projects.len() && (#[trigger] projects[i]).name == filename,
            None => false,
        }
    }

    /// Whether one of the ready-made packages, or one of their files, goes
    /// by the name `filename`.
    pub fn direct_exists(&self, filename: &str) -> (r: bool)
        ensures
            r == self.has_direct(filename@),
    {
        match &self.direct {
            None => false,
            Some(packages) => {
                let mut i: usize = 0;
                while i < packages.len()
                    invariant
                        i <= packages.len(),
                        self.direct == Some(*packages),
                        forall|j: int|
                            0 <= j < i ==> !(#[trigger] self@.direct->0[j]).goes_by(filename@),
                    decreases packages.len() - i,
                {
                    if packages[i].goes_by(filename) {
                        proof {
                            assert(self@.direct->0[i as int].goes_by(filename@));
                        }
                        return true;
                    }
                    i += 1;
                }
                false
            },
        }
    }

    /// Whether one of the projects goes by the name `filename`.
    pub fn source_exists(&self, filename: &str) -> (r: bool)
        ensures
            r == self.has_source(filename@),
    {
        match &self.source {
            None => false,
            Some(projects) => {
                let mut i: usize = 0;
                while i < projects.len()
                    invariant
                        i <= projects.len(),
                        self.source == Some(*projects),
                        forall|j: int|
                            0 <= j < i ==> (#[trigger] self@.source->0[j]).name != filename@,
                    decreases projects.len() - i,
                {
                    if str_eq(projects[i].name.as_str(), filename) {
                        proof {
                            assert(self@.source->0[i as int].name == filename@);
                        }
                        return true;
                    }
                    i += 1;
                }
                false
            },
        }
    }

    /// Whether a package or a project goes by the name `filename`.
    pub fn package_exists(&self, filename: &str) -> (r: bool)
        ensures
            r == (self.has_direct(filename@) || self.has_source(filename@)),
    {
        self.direct_exists(filename) || self.source_exists(filename)
    }
}

} // verus!
