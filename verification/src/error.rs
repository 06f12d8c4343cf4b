//! The failures that the swap operations report.

use vstd::prelude::*;
use vstd::string::StringExecFns;

verus! {

/// Why a swap operation failed.
#[derive(Debug)]
pub enum SwapError {
    ProviderNotFound,
    CurrencyNotFound,
    PairNotAvailable,
    /// The amount lies outside the provider's range; the bounds are held
    /// as decimal text.
    AmountOutOfRange { min: String, max: String },
    InvalidAddress,
    SwapNotFound,
    ProviderUnavailable(String),
    /// The relational store failed.
    DatabaseError(String),
    /// The upstream provider failed with an error that is not retried.
    ExternalApiError(String),
    /// Every attempt at the upstream provider was refused for rate
    /// limiting, and no retry is left.
    RateLimited(String),
    /// The shared cache failed.
    RedisError(String),
}

impl SwapError {
    /// The text of the error.
    pub open spec fn message_text(self) -> Seq<char> {
        match self {
            SwapError::ProviderNotFound => "Provider not found"@,
            SwapError::CurrencyNotFound => "Currency not found"@,
            SwapError::PairNotAvailable => "Trading pair not available"@,
            SwapError::AmountOutOfRange { min, max } => "Amount out of range: min="@ + min@
                + ", max="@ + max@,
            SwapError::InvalidAddress => "Invalid address"@,
            SwapError::SwapNotFound => "Swap not found"@,
            SwapError::ProviderUnavailable(msg) => "Provider unavailable: "@ + msg@,
            SwapError::DatabaseError(msg) => "Database error: "@ + msg@,
            SwapError::ExternalApiError(msg) => "External API error: "@ + msg@,
            SwapError::RateLimited(msg) => "Rate limited: "@ + msg@,
            SwapError::RedisError(msg) => "Redis error: "@ + msg@,
        }
    }

    /// Whether the error ends the operation in progress. A cache failure
    /// never does: the operation goes on without the cache.
    pub open spec fn is_terminal(self) -> bool {
        !(self is RedisError)
    }

    /// The text of the error.
    pub fn message(&self) -> (text: String)
        ensures
            text@ == self.message_text(),
    {
        match self {
            SwapError::ProviderNotFound => String::from_str("Provider not found"),
            SwapError::CurrencyNotFound => String::from_str("Currency not found"),
            SwapError::PairNotAvailable => String::from_str("Trading pair not available"),
            SwapError::AmountOutOfRange { min, max } => {
                let mut text = String::from_str("Amount out of range: min=");
                text.append(min.as_str());
                text.append(", max=");
                text.append(max.as_str());
                text
            },
            SwapError::InvalidAddress => String::from_str("Invalid address"),
            SwapError::SwapNotFound => String::from_str("Swap not found"),
            SwapError::ProviderUnavailable(msg) => String::from_str("Provider unavailable: ").concat(
                msg.as_str(),
            ),
            SwapError::DatabaseError(msg) => String::from_str("Database error: ").concat(
                msg.as_str(),
            ),
            SwapError::ExternalApiError(msg) => String::from_str("External API error: ").concat(
                msg.as_str(),
            ),
            SwapError::RateLimited(msg) => String::from_str("Rate limited: ").concat(msg.as_str()),
            SwapError::RedisError(msg) => String::from_str("Redis error: ").concat(msg.as_str()),
        }
    }

    /// Whether the error ends the operation in progress.
    pub fn ends_operation(&self) -> (terminal: bool)
        ensures
            terminal == self.is_terminal(),
    {
        match self {
            SwapError::RedisError(_) => false,
            _ => true,
        }
    }
}

} // verus!
