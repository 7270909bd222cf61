use vstd::prelude::*;

verus! {

/// Which server identities the client trusts. Trusting any server is a
/// choice the caller has to make explicitly.
pub enum HostKeyPolicy {
    /// Every server key is accepted, without any check.
    AcceptAny,
    /// Only the server key with this fingerprint is accepted.
    Pinned(String),
}

impl HostKeyPolicy {
    /// Whether a server presenting a key with this fingerprint is trusted.
    pub fn accepts(&self, fingerprint: &String) -> (r: bool)
        ensures
            r == match self {
                HostKeyPolicy::AcceptAny => true,
                HostKeyPolicy::Pinned(f) => f@ == fingerprint@,
            },
    {
        match self {
            HostKeyPolicy::AcceptAny => true,
            HostKeyPolicy::Pinned(f) => *f == *fingerprint,
        }
    }
}

} // verus!
