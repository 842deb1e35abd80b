//! Carriers for the mobile-payment status machine.

use vstd::prelude::*;

verus! {

/// What a payment status query reports.
pub struct StkQueryResponse {
    pub response_code: String,
    pub response_description: String,
    pub merchant_request_id: String,
    pub checkout_request_id: String,
    pub result_code: Option<String>,
    pub result_desc: Option<String>,
}

} // verus!
