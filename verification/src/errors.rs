use vstd::prelude::*;

verus! {

/// The error taxonomy of this library. Every fallible step surfaces one
/// distinct, inspectable variant; nothing is silently swallowed.
#[derive(Debug)]
pub enum CreditsError {
    /// A caller-supplied key, address or argument was malformed. Raised
    /// before any cryptographic work.
    InvalidInput(String),
    /// The execution engine rejected an authorization request.
    AuthorizationFailed(String),
    /// A wire payload could not be decoded.
    SerializationError(String),
    /// A network or transport level failure on remote dispatch.
    TransportFailed(String),
    /// The remote service answered with a non-success status; carries the
    /// service's diagnostic text verbatim.
    ExecutionRejected(String),
    /// A fee-table lookup miss: the (program, function) pair is not known.
    UnknownOperation { program_id: String, function_name: String },
}

} // verus!
