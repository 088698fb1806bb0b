//! The configuration of an index, written once when the registry is set up.

use vstd::prelude::*;
use crate::layout::Registry;
use crate::text::{append_text, trim_end, trimmed_end};

verus! {

/// The configuration of an index.
#[derive(Debug, Clone, PartialEq, Eq)]
pub struct IndexConfig {
    dl: String,
}

/// The template of the address of an archive, for a registry served at
/// `url`: below `crates`, in the directory of the package, the file named by
/// package and version. Slashes at the end of `url` do not count.
pub open spec fn download_template(url: Seq<char>) -> Seq<char> {
    trim_end(url, '/') + "/crates/{crate}/{crate}-{version}.crate"@
}

impl View for IndexConfig {
    type V = Seq<char>;

    closed spec fn view(&self) -> Seq<char> {
        self.dl@
    }
}

impl IndexConfig {
    /// The configuration of a registry that is served at `url`.
    pub fn from_url(url: &str) -> (r: IndexConfig)
        ensures
            r@ == download_template(url@),
    {
        let base = trimmed_end(url, '/');
        IndexConfig { dl: append_text(base.as_str(), "/crates/{crate}/{crate}-{version}.crate") }
    }

    /// The template of the address of an archive.
    pub fn dl(&self) -> (r: &str)
        ensures
            r@ == self@,
    {
        self.dl.as_str()
    }
}

/// A registry that is not set up yet was opened without the address it will
/// be served at.
#[derive(Debug, Clone, Copy, PartialEq, Eq)]
pub struct ConfigError;

impl ConfigError {
    /// The error in words.
    pub fn message(&self) -> (r: String)
        ensures
            r@ == "Provide the URL where the registry will be hosted with the --url flag"@,
    {
        "Provide the URL where the registry will be hosted with the --url flag".to_owned()
    }
}

impl Registry {
    /// Opens the registry at `root`. `configured` says whether the index
    /// already holds its configuration. Where it does, `url` is not looked at
    /// and there is nothing to write. Where it does not, the configuration for
    /// `url` is returned to be written, and a missing `url` is an error.
    pub fn open(root: &str, url: Option<&str>, configured: bool) -> (r: Result<
        (Registry, Option<IndexConfig>),
        ConfigError,
    >)
        ensures
            r is Err <==> !configured && url is None,
            r is Ok ==> (r->Ok_0).0.0@ == root@,
            r is Ok && configured ==> (r->Ok_0).1 is None,
            r is Ok && !configured ==> (r->Ok_0).1 is Some && (r->Ok_0).1->0@ == download_template(
                url->0@,
            ),
    {
        let registry = Registry(root.to_owned());
        if configured {
            return Ok((registry, None));
        }
        match url {
            Some(url) => Ok((registry, Some(IndexConfig::from_url(url)))),
            None => Err(ConfigError),
        }
    }
}

} // verus!
