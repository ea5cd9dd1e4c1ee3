//! Projects that are built from source.

use crate::config::text::text_is;
use crate::config::{shown, ConfigError, ConfigFetch, Lookup};
use std::borrow::Cow;
use vstd::prelude::*;
use vstd::string::StringSliceAdditionalSpecFns;

verus! {

/// A project that is built from source.
#[derive(Clone, Debug, PartialEq, Eq)]
pub struct Source {
    pub name: String,
    pub version: String,
}

/// The mathematical value of a `Source`.
pub ghost struct SourceValue {
    pub name: Seq<char>,
    pub version: Seq<char>,
}

impl View for Source {
    type V = SourceValue;

    open spec fn view(&self) -> SourceValue {
        SourceValue { name: self.name@, version: self.version@ }
    }
}

impl Source {
    /// `fetch` for a key that is given as bytes.
    pub fn fetch_key<'a>(&'a self, key: &[u8]) -> (found: Option<Cow<'a, str>>)
        ensures
            shown(found, self.lookup(key@)),
    {
        if text_is("name", key) {
            Some(Cow::Borrowed(self.name.as_str()))
        } else if text_is("version", key) {
            Some(Cow::Borrowed(self.version.as_str()))
        } else {
            None
        }
    }

    /// `update` for a key that is given as bytes.
    pub fn update_key(&mut self, key: &[u8], value: String) -> (result: Result<(), ConfigError>)
        ensures
            old(self).updating(key@, value@, final(self), result),
    {
        if text_is("name", key) {
            self.name = value;
            Ok(())
        } else if text_is("version", key) {
            self.version = value;
            Ok(())
        } else {
            Err(ConfigError::InvalidKey)
        }
    }
}

impl ConfigFetch for Source {
    open spec fn lookup(&self, key: Seq<u8>) -> Lookup {
        if key == "name".spec_bytes() {
            Lookup::Text(self.name@)
        } else if key == "version".spec_bytes() {
            Lookup::Text(self.version@)
        } else {
            Lookup::Missing
        }
    }

    open spec fn updating(
        &self,
        key: Seq<u8>,
        value: Seq<char>,
        after: &Self,
        result: Result<(), ConfigError>,
    ) -> bool {
        if key == "name".spec_bytes() {
            result is Ok && after@ == (SourceValue { name: value, ..self@ })
        } else if key == "version".spec_bytes() {
            result is Ok && after@ == (SourceValue { version: value, ..self@ })
        } else {
            result is Err && after@ == self@
        }
    }

    fn fetch<'a>(&'a self, key: &str) -> (found: Option<Cow<'a, str>>) {
        self.fetch_key(key.as_bytes())
    }

    fn update(&mut self, key: &str, value: String) -> (result: Result<(), ConfigError>) {
        self.update_key(key.as_bytes(), value)
    }
}

} // verus!
