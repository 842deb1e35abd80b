//! Signed token requests for the realtime broker handshake.

use vstd::prelude::*;

verus! {

/// A signed token request.
pub struct AblyTokenRequest {
    pub key_name: String,
    pub nonce: String,
    pub timestamp: i64,
    pub capability: String,
    pub client_id: String,
    pub mac: String,
}

} // verus!
