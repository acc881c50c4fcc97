//! The error taxonomy of the backend interface. Every failure surfaces
//! unchanged to the immediate caller; there are no retries and no silent
//! recovery at this layer.
use vstd::prelude::*;

verus! {

/// What went wrong while answering a backend request.
#[derive(Clone, Copy, Debug, PartialEq, Eq, Structural)]
pub enum ProviderError {
    /// The transport could not reach the backend, or broke mid-request.
    TransportError,
    /// The backend explicitly reported the resource absent.
    NotFound,
    /// The requested operation is not implemented by this backend variant.
    Unsupported,
    /// Malformed or truncated data was met while reading the fixed
    /// metadata header.
    Corrupt,
    /// Any other backend-specific failure.
    GeneralError,
}

impl ProviderError {
    /// A short description of the error, one fixed text per variant.
    pub fn message(&self) -> (r: &'static str)
        ensures
            match self {
                ProviderError::TransportError => r@ == "transport error"@,
                ProviderError::NotFound => r@ == "resource not found"@,
                ProviderError::Unsupported => r@ == "operation not supported"@,
                ProviderError::Corrupt => r@ == "corrupt metadata header"@,
                ProviderError::GeneralError => r@ == "an error occurred"@,
            },
    {
        match self {
            ProviderError::TransportError => "transport error",
            ProviderError::NotFound => "resource not found",
            ProviderError::Unsupported => "operation not supported",
            ProviderError::Corrupt => "corrupt metadata header",
            ProviderError::GeneralError => "an error occurred",
        }
    }
}

} // verus!
