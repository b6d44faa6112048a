//! The negotiated client version.
use vstd::prelude::*;

verus! {

/// The protocol revision that a client announced. Versions compare by
/// their parts, most significant first.
#[derive(Clone, Copy, Debug, PartialEq, Eq, Structural, PartialOrd, Ord, Hash, Default)]
pub struct ClientVersion {
    pub major: u32,
    pub minor: u32,
    pub revision: u32,
    pub patch: u32,
}

impl ClientVersion {
    pub fn new(major: u32, minor: u32, revision: u32, patch: u32) -> (r: ClientVersion)
        ensures
            r == (ClientVersion { major, minor, revision, patch }),
    {
        ClientVersion { major, minor, revision, patch }
    }
}

} // verus!
