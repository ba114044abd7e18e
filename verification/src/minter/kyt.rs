//! The know-your-transaction check of a withdrawal address.
use super::types::{BtcAddressCheckStatus, RetrieveBtcError, RetrieveBtcErrorView};
use crate::principal::Principal;
use vstd::prelude::*;
use vstd::string::*;

verus! {

/// What the KYT canister reports of an address.
#[derive(Clone, Debug, PartialEq, Eq)]
pub struct KytResponse {
    /// The identifier of the check with the provider.
    pub external_id: String,
    /// The provider that made the check.
    pub provider: Principal,
    /// How many alerts the check raised.
    pub alert_count: usize,
}

/// Why the KYT canister made no check.
#[derive(Clone, Debug, PartialEq, Eq)]
pub enum KytError {
    TemporarilyUnavailable(String),
}

/// The answer of the KYT canister; the outer error is the text of a failed call.
pub type KytReply = Result<Result<KytResponse, KytError>, String>;

/// What a caller is told when no check was made.
pub open spec fn kyt_refusal(reply: KytReply) -> Option<RetrieveBtcErrorView> {
    match reply {
        Ok(Ok(response)) => None,
        Ok(Err(KytError::TemporarilyUnavailable(reason))) => Some(
            RetrieveBtcErrorView::TemporarilyUnavailable(
                "The KYT provider is temporarily unavailable: "@ + reason@,
            ),
        ),
        Err(call_error) => Some(
            RetrieveBtcErrorView::TemporarilyUnavailable(
                "Failed to call KYT canister: "@ + call_error@,
            ),
        ),
    }
}

/// How a response judges the address: any alert taints it.
pub open spec fn judged(response: KytResponse) -> BtcAddressCheckStatus {
    if response.alert_count > 0 {
        BtcAddressCheckStatus::Tainted
    } else {
        BtcAddressCheckStatus::Clean
    }
}

/// The identifier, the outcome and the provider of the check, or what the caller
/// is told if none was made.
pub fn kyt_check_address(reply: KytReply) -> (r: Result<
    (String, BtcAddressCheckStatus, Principal),
    RetrieveBtcError,
>)
    ensures
        match r {
            Ok((uuid, status, provider)) => reply matches Ok(Ok(response)) && uuid
                == response.external_id && status == judged(response) && provider
                == response.provider,
            Err(error) => kyt_refusal(reply) == Some(error@),
        },
{
    match reply {
        Ok(Ok(response)) => {
            let status = if response.alert_count > 0 {
                BtcAddressCheckStatus::Tainted
            } else {
                BtcAddressCheckStatus::Clean
            };
            Ok((response.external_id, status, response.provider))
        },
        Ok(Err(KytError::TemporarilyUnavailable(reason))) => {
            let mut message = "The KYT provider is temporarily unavailable: ".to_owned();
            message.append(reason.as_str());
            Err(RetrieveBtcError::TemporarilyUnavailable(message))
        },
        Err(call_error) => {
            let mut message = "Failed to call KYT canister: ".to_owned();
            message.append(call_error.as_str());
            Err(RetrieveBtcError::TemporarilyUnavailable(message))
        },
    }
}

} // verus!
