//! The creation of a swap, and how failures are reported to the caller of
//! an endpoint.

use vstd::prelude::*;
use crate::error::SwapError;
use crate::text::same_text;

verus! {

/// Seconds after its creation at which a swap expires.
pub const SWAP_LIFETIME_SECS: i64 = 3600;

/// The state of a swap.
#[derive(Clone, Copy, Debug, PartialEq, Eq, Structural)]
pub enum SwapStatus {
    Waiting,
    Confirming,
    Sending,
    Completed,
    Failed,
    Refunded,
    Expired,
}

/// The endpoints that report failures.
#[derive(Clone, Copy, Debug, PartialEq, Eq, Structural)]
pub enum Endpoint {
    CreateSwap,
    Currencies,
    Providers,
    Rates,
    SwapStatus,
    ValidateAddress,
}

/// A swap as it is first recorded.
pub struct NewSwap {
    /// The identifier under which the swap is stored.
    pub swap_id: String,
    pub status: SwapStatus,
    /// Seconds since the Unix epoch at which the swap expires.
    pub expires_at: i64,
}

/// The state that the provider's word for it stands for; a word that is not
/// known stands for a swap that waits.
pub open spec fn status_of(word: Seq<char>) -> SwapStatus {
    if word == "confirming"@ {
        SwapStatus::Confirming
    } else if word == "sending"@ {
        SwapStatus::Sending
    } else if word == "finished"@ {
        SwapStatus::Completed
    } else if word == "failed"@ || word == "halted"@ {
        SwapStatus::Failed
    } else if word == "refunded"@ {
        SwapStatus::Refunded
    } else if word == "expired"@ {
        SwapStatus::Expired
    } else {
        SwapStatus::Waiting
    }
}

/// The HTTP status with which `endpoint` answers the failure `error`.
pub open spec fn http_status_of(endpoint: Endpoint, error: SwapError) -> u16 {
    match endpoint {
        Endpoint::CreateSwap => if error is AmountOutOfRange || error is InvalidAddress {
            400
        } else {
            500
        },
        Endpoint::Currencies => 500,
        Endpoint::Providers => 500,
        Endpoint::Rates => 502,
        Endpoint::SwapStatus => if error is SwapNotFound {
            404
        } else if error is ExternalApiError || error is RateLimited {
            502
        } else {
            500
        },
        Endpoint::ValidateAddress => if error is InvalidAddress {
            400
        } else if error is ExternalApiError || error is RateLimited {
            502
        } else {
            500
        },
    }
}

/// A text of the `uuid` crate's `Uuid::new_v4`, written by its `Display`
/// impl: a fresh random identifier in the hyphenated form, which has 36
/// characters. Which identifier it is depends on chance. The call panics
/// where the operating system's source of random numbers fails.
#[verifier::external_body]
fn random_id() -> (id: String)
    ensures
        id@.len() == 36,
{
    uuid::Uuid::new_v4().to_string()
}

impl SwapStatus {
    /// The state that the provider's word for it stands for.
    pub fn from_provider(word: &str) -> (status: SwapStatus)
        ensures
            status == status_of(word@),
    {
        if same_text(word, "confirming") {
            SwapStatus::Confirming
        } else if same_text(word, "sending") {
            SwapStatus::Sending
        } else if same_text(word, "finished") {
            SwapStatus::Completed
        } else if same_text(word, "failed") || same_text(word, "halted") {
            SwapStatus::Failed
        } else if same_text(word, "refunded") {
            SwapStatus::Refunded
        } else if same_text(word, "expired") {
            SwapStatus::Expired
        } else {
            SwapStatus::Waiting
        }
    }
}

/// Records a swap that the provider has accepted: under the identifier
/// `swap_id`, in the state that the provider reports, to expire an hour
/// after `created_at`.
pub fn record_swap(swap_id: String, provider_status: &str, created_at: i64) -> (swap: NewSwap)
    requires
        created_at + SWAP_LIFETIME_SECS <= i64::MAX,
    ensures
        swap.swap_id == swap_id,
        swap.status == status_of(provider_status@),
        swap.expires_at == created_at + SWAP_LIFETIME_SECS,
{
    NewSwap {
        swap_id,
        status: SwapStatus::from_provider(provider_status),
        expires_at: created_at + SWAP_LIFETIME_SECS,
    }
}

/// Records a swap that the provider has accepted under a fresh random
/// identifier.
pub fn open_swap(provider_status: &str, created_at: i64) -> (swap: NewSwap)
    requires
        created_at + SWAP_LIFETIME_SECS <= i64::MAX,
    ensures
        swap.swap_id@.len() == 36,
        swap.status == status_of(provider_status@),
        swap.expires_at == created_at + SWAP_LIFETIME_SECS,
{
    record_swap(random_id(), provider_status, created_at)
}

/// The HTTP status with which `endpoint` answers the failure `error`.
pub fn http_status(endpoint: Endpoint, error: &SwapError) -> (code: u16)
    ensures
        code == http_status_of(endpoint, *error),
{
    match endpoint {
        Endpoint::CreateSwap => match error {
            SwapError::AmountOutOfRange { .. } => 400,
            SwapError::InvalidAddress => 400,
            _ => 500,
        },
        Endpoint::Currencies => 500,
        Endpoint::Providers => 500,
        Endpoint::Rates => 502,
        Endpoint::SwapStatus => match error {
            SwapError::SwapNotFound => 404,
            SwapError::ExternalApiError(_) => 502,
            SwapError::RateLimited(_) => 502,
            _ => 500,
        },
        Endpoint::ValidateAddress => match error {
            SwapError::InvalidAddress => 400,
            SwapError::ExternalApiError(_) => 502,
            SwapError::RateLimited(_) => 502,
            _ => 500,
        },
    }
}

} // verus!
