//! The answer of the status endpoint.
use vstd::prelude::*;
use crate::model::AiodeSupporter;

verus! {

/// Whether an identity is in the mirror, and since when.
#[derive(PartialEq, Eq, Structural, Clone, Copy, Debug)]
pub struct CheckIsAiodeSupporterResponse {
    pub is_supporter: bool,
    /// The instant of the record's creation, in milliseconds since the Unix
    /// epoch.
    pub supporter_since: Option<i64>,
}

/// The answer for the result of a point lookup of the identity's record.
pub fn supporter_response(record: Option<AiodeSupporter>) -> (r: CheckIsAiodeSupporterResponse)
    ensures
        r.is_supporter == record.is_some(),
        r.supporter_since == match record {
            Some(s) => Some(s.creation_timestamp),
            None => None::<i64>,
        },
{
    match record {
        Some(s) => CheckIsAiodeSupporterResponse {
            is_supporter: true,
            supporter_since: Some(s.creation_timestamp),
        },
        None => CheckIsAiodeSupporterResponse { is_supporter: false, supporter_since: None },
    }
}

} // verus!
