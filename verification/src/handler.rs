//! Pluggable repository backends.

use vstd::prelude::*;

use crate::package::DebianPackage;
use crate::parse::spec_parse;

verus! {

/// One upstream repository format. A backend supplies the parser for its
/// index format; fetching, schema creation and storing are I/O and live
/// with the runner, which drives them through the fetch scheduler and the
/// sync orchestrator.
pub trait RepositoryHandler {
    type Package;

    /// Parses one decompressed index text into this format's records.
    fn parse_packages(&self, index_data: &str) -> Vec<Self::Package>;
}

/// The Debian backend: the configured index URLs. The database connection
/// belongs to the runner, not to the backend.
#[derive(Debug, Clone)]
pub struct Debian {
    pub repositories: Vec<String>,
}

impl Default for Debian {
    /// The stock configuration: the single well-known stable-release
    /// index URL.
    fn default() -> (r: Self)
        ensures
            r.repositories@.len() == 1,
            r.repositories@[0]@
                == "http://deb.debian.org/debian/dists/stable/main/binary-amd64/Packages.gz"@,
    {
        let mut repositories: Vec<String> = Vec::new();
        repositories.push(
            String::from_str("http://deb.debian.org/debian/dists/stable/main/binary-amd64/Packages.gz"),
        );
        Debian { repositories }
    }
}

impl RepositoryHandler for Debian {
    type Package = DebianPackage;

    /// Debian's flat `Field: value` paragraphs: the verified line scanner.
    fn parse_packages(&self, index_data: &str) -> (r: Vec<DebianPackage>)
        ensures
            r.deep_view() == spec_parse(index_data@),
    {
        crate::parse::parse_packages(index_data)
    }
}

} // verus!
