//! Carriers for media-upload signing.

use vstd::prelude::*;
use std::collections::BTreeMap;

verus! {

/// Parameters to sign for an upload.
pub struct CloudinarySignatureRequest {
    pub params: BTreeMap<String, String>,
}

/// A signed upload grant.
pub struct CloudinarySignatureResponse {
    pub signature: String,
    pub timestamp: i64,
}

/// An upload slot request.
pub struct R2PresignedUrlRequest {
    pub file_name: String,
    pub content_type: String,
}

/// A presigned upload slot.
pub struct R2PresignedUrlResponse {
    pub url: String,
    pub public_url: String,
}

} // verus!
