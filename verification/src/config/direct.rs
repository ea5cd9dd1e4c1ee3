//! Packages that are fetched ready-made.

use crate::config::text::{str_eq, text_is};
use crate::config::{shown, ConfigError, ConfigFetch, Lookup};
use std::borrow::Cow;
use vstd::prelude::*;
use vstd::string::StringSliceAdditionalSpecFns;

verus! {

/// One place a package can be fetched from.
#[derive(Clone, Debug, PartialEq, Eq)]
pub struct DirectPath {
    /// The file name to store the package under, where it differs from the
    /// package's name.
    pub name: Option<String>,
    pub url: String,
    /// The digest that the package must have.
    pub checksum: Option<String>,
}

/// A package that already has the archive format.
#[derive(Clone, Debug, PartialEq, Eq)]
pub struct Direct {
    pub name: String,
    pub version: String,
    pub urls: Vec<DirectPath>,
}

/// The text of an optional string.
pub open spec fn optional_text(text: Option<String>) -> Option<Seq<char>> {
    match text {
        Some(s) => Some(s@),
        None => None,
    }
}

/// The mathematical value of a `DirectPath`.
pub ghost struct DirectPathValue {
    pub name: Option<Seq<char>>,
    pub url: Seq<char>,
    pub checksum: Option<Seq<char>>,
}

impl View for DirectPath {
    type V = DirectPathValue;

    open spec fn view(&self) -> DirectPathValue {
        DirectPathValue {
            name: optional_text(self.name),
            url: self.url@,
            checksum: optional_text(self.checksum),
        }
    }
}

/// The mathematical value of a `Direct`.
pub ghost struct DirectValue {
    pub name: Seq<char>,
    pub version: Seq<char>,
    pub urls: Seq<DirectPathValue>,
}

impl View for Direct {
    type V = DirectValue;

    open spec fn view(&self) -> DirectValue {
        DirectValue {
            name: self.name@,
            version: self.version@,
            urls: self.urls@.map_values(|u: DirectPath| u@),
        }
    }
}

impl DirectValue {
    /// The package, or one of its files, goes by the name `filename`.
    pub open spec fn goes_by(self, filename: Seq<char>) -> bool {
        self.name == filename || exists|i: int|
            0 <= i < self.urls.len() && #[trigger] self.urls[i].name == Some(filename)
    }
}

impl Direct {
    /// Whether the package, or one of its files, goes by the name
    /// `filename`.
    pub fn goes_by(&self, filename: &str) -> (r: bool)
        ensures
            r == self@.goes_by(filename@),
    {
        if str_eq(self.name.as_str(), filename) {
            return true;
        }
        let mut i: usize = 0;
        while i < self.urls.len()
            invariant
                i <= self.urls.len(),
                forall|j: int| 0 <= j < i ==> (#[trigger] self@.urls[j]).name != Some(filename@),
            decreases self.urls.len() - i,
        {
            let hit = match &self.urls[i].name {
                Some(name) => str_eq(name.as_str(), filename),
                None => false,
            };
            if hit {
                proof {
                    assert(self@.urls[i as int].name == Some(filename@));
                }
                return true;
            }
            i += 1;
        }
        false
    }
}

impl Direct {
    /// `fetch` for a key that is given as bytes.
    pub fn fetch_key<'a>(&'a self, key: &[u8]) -> (found: Option<Cow<'a, str>>)
        ensures
            shown(found, self.lookup(key@)),
    {
        if text_is("name", key) {
            Some(Cow::Borrowed(self.name.as_str()))
        } else if text_is("version", key) {
            Some(Cow::Borrowed(self.version.as_str()))
        } else {
            None
        }
    }

    /// `update` for a key that is given as bytes.
    pub fn update_key(&mut self, key: &[u8], value: String) -> (result: Result<(), ConfigError>)
        ensures
            old(self).updating(key@, value@, final(self), result),
    {
        if text_is("name", key) {
            self.name = value;
            Ok(())
        } else if text_is("version", key) {
            self.version = value;
            Ok(())
        } else {
            Err(ConfigError::InvalidKey)
        }
    }
}

impl ConfigFetch for Direct {
    open spec fn lookup(&self, key: Seq<u8>) -> Lookup {
        if key == "name".spec_bytes() {
            Lookup::Text(self.name@)
        } else if key == "version".spec_bytes() {
            Lookup::Text(self.version@)
        } else {
            Lookup::Missing
        }
    }

    open spec fn updating(
        &self,
        key: Seq<u8>,
        value: Seq<char>,
        after: &Self,
        result: Result<(), ConfigError>,
    ) -> bool {
        if key == "name".spec_bytes() {
            result is Ok && after@ == (DirectValue { name: value, ..self@ })
        } else if key == "version".spec_bytes() {
            result is Ok && after@ == (DirectValue { version: value, ..self@ })
        } else {
            result is Err && after@ == self@
        }
    }

    fn fetch<'a>(&'a self, key: &str) -> (found: Option<Cow<'a, str>>) {
        self.fetch_key(key.as_bytes())
    }

    fn update(&mut self, key: &str, value: String) -> (result: Result<(), ConfigError>) {
        self.update_key(key.as_bytes(), value)
    }
}

} // verus!
