use vstd::prelude::*;

verus! {

/// One inference log record: the unit that is queued, batched and submitted.
/// Its identity is the pair (wallet address, log id).
#[derive(Debug, Clone)]
pub struct InferenceLog {
    pub wallet_address: String,
    pub log_id: String,
    pub processed: Option<bool>,
    pub timestamp: Option<String>,
}

/// The body of an inbound webhook call: a list of records.
#[derive(Debug)]
pub struct WebhookBody {
    pub logs: Vec<InferenceLog>,
}

/// The reply to a webhook call.
#[derive(Debug)]
pub struct WebhookResponse {
    pub success: bool,
    pub message: String,
    pub count: Option<usize>,
}

} // verus!
