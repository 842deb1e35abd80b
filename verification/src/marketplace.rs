//! Carriers for marketplace browsing.

use vstd::prelude::*;

verus! {

/// How a listing is narrowed.
pub struct ItemFilter {
    pub category: Option<String>,
    pub search: Option<String>,
}

} // verus!
