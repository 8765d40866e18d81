//! The bridge's error taxonomy.

use vstd::prelude::*;
use vstd::string::*;

verus! {

/// Every failure the bridge reports to its callers.
#[derive(Clone, Debug, PartialEq, Eq)]
pub enum InternalError {
    /// The initial connect exhausted its retries or failed outright; carries
    /// the joined address string.
    NatsServerConnectionError { address: String },
    /// A publish or subscribe call to the broker failed after a connection
    /// was established.
    NatsOperationError { cause: String },
    /// An envelope could not be encoded or decoded.
    SerdeError { cause: String },
    /// A failure that fits no other kind.
    GenericError { cause: String },
}

impl InternalError {
    /// The human-readable description of the failure.
    pub fn message(&self) -> (r: String)
        ensures
            match self {
                InternalError::NatsServerConnectionError { address } => r@
                    == "Nats server connection failed: "@ + address@,
                InternalError::NatsOperationError { cause } => r@ == "Nats operation failed: "@
                    + cause@,
                InternalError::SerdeError { cause } => r@ == "Failed while ser-de Nats message "@
                    + cause@,
                InternalError::GenericError { cause } => r@ == "Error: "@ + cause@,
            },
    {
        match self {
            InternalError::NatsServerConnectionError { address } => String::from_str(
                "Nats server connection failed: ",
            ).concat(address.as_str()),
            InternalError::NatsOperationError { cause } => String::from_str(
                "Nats operation failed: ",
            ).concat(cause.as_str()),
            InternalError::SerdeError { cause } => String::from_str(
                "Failed while ser-de Nats message ",
            ).concat(cause.as_str()),
            InternalError::GenericError { cause } => String::from_str("Error: ").concat(
                cause.as_str(),
            ),
        }
    }
}

} // verus!
