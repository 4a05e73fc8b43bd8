use vstd::prelude::*;

verus! {

/// The error taxonomy of the enrichment engine.
///
/// `Transport` and `NoResults` are per-provider failures that the provider
/// chain swallows while it advances to the next provider; `Auth` is a
/// credential failure (a provider re-authenticates exactly once before
/// giving up); `AllProvidersFailed` is the chain's terminal error for one
/// query; `RetryExhausted` is the batch's terminal error after an item has
/// failed all of its attempts, and names the failing title together with
/// the underlying cause.
#[derive(Debug)]
pub enum AppError {
    Transport(String),
    Auth(String),
    NoResults,
    AllProvidersFailed,
    RetryExhausted { title: String, cause: Box<AppError> },
    Parse(String),
}

/// The text `message` produces: a fixed phrase per variant, the payload
/// passed through, and for an exhausted retry the failing title with the
/// cause chain after it.
pub open spec fn spec_message(e: AppError) -> Seq<char>
    decreases e,
{
    match e {
        AppError::Transport(s) => "HTTP request error: "@ + s@,
        AppError::Auth(s) => "Authentication failed: "@ + s@,
        AppError::NoResults => "Metadata lookup failed: no results"@,
        AppError::AllProvidersFailed => "Metadata lookup failed: all providers failed"@,
        AppError::RetryExhausted { title, cause } => "Retries exhausted for "@ + title@ + ": "@
            + spec_message(*cause),
        AppError::Parse(s) => "Parsing error: "@ + s@,
    }
}

impl AppError {
    /// A short human-readable description; the payload strings are
    /// diagnostics and are passed through unchanged.
    pub fn message(&self) -> (r: String)
        ensures
            r@ == spec_message(*self),
        decreases self,
    {
        match self {
            AppError::Transport(s) => {
                let mut m = String::from_str("HTTP request error: ");
                m.append(s.as_str());
                m
            },
            AppError::Auth(s) => {
                let mut m = String::from_str("Authentication failed: ");
                m.append(s.as_str());
                m
            },
            AppError::NoResults => String::from_str("Metadata lookup failed: no results"),
            AppError::AllProvidersFailed => String::from_str(
                "Metadata lookup failed: all providers failed",
            ),
            AppError::RetryExhausted { title, cause } => {
                let mut m = String::from_str("Retries exhausted for ");
                m.append(title.as_str());
                m.append(": ");
                let inner = cause.message();
                m.append(inner.as_str());
                m
            },
            AppError::Parse(s) => {
                let mut m = String::from_str("Parsing error: ");
                m.append(s.as_str());
                m
            },
        }
    }
}

} // verus!
