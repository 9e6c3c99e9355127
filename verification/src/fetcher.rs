//! The remote-acquisition interface: where a module fetched from a Git
//! repository comes from. Cloning, checking out, and consulting registry
//! indexes need the network and a Git client, so they live with the
//! caller; this module holds the data the contract between the two
//! speaks of.

use vstd::prelude::*;

verus! {

/// A repository URL together with the revision to check out.
#[derive(Debug, Clone)]
pub struct RemoteRepositoryResourceLocation {
    pub url: String,
    pub revision: String,
}

impl RemoteRepositoryResourceLocation {
    pub fn new(url: &str, revision: &str) -> (r: Self)
        ensures
            r.url@ == url@,
            r.revision@ == revision@,
    {
        RemoteRepositoryResourceLocation { url: url.to_owned(), revision: revision.to_owned() }
    }
}

} // verus!
