//! Carriers for the anonymous-alias matching corner.

use vstd::prelude::*;

verus! {

/// A new alias.
pub struct CreateAliasRequest {
    pub alias_username: String,
    pub gender: String,
    pub age: i32,
    pub bio: String,
}

/// One alias as discovered.
pub struct AliasDiscovery {
    pub id: String,
    pub alias_username: String,
    pub gender: String,
    pub age: i32,
    pub bio: String,
}

} // verus!
