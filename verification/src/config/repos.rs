//! Repositories that packages are pulled from.

use vstd::prelude::*;

verus! {

/// A repository to pull packages from.
#[derive(Clone, Debug, PartialEq, Eq)]
pub struct Repo {
    pub repo: String,
    pub version: String,
    pub packages: Vec<String>,
}

/// The mathematical value of a `Repo`.
pub ghost struct RepoValue {
    pub repo: Seq<char>,
    pub version: Seq<char>,
    pub packages: Seq<Seq<char>>,
}

impl View for Repo {
    type V = RepoValue;

    open spec fn view(&self) -> RepoValue {
        RepoValue {
            repo: self.repo@,
            version: self.version@,
            packages: self.packages@.map_values(|p: String| p@),
        }
    }
}

} // verus!
