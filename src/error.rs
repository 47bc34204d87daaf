use vstd::prelude::*;

verus! {

/// The ways an operation on stored entities can fail.
#[derive(Debug, Clone, Copy, PartialEq, Eq, Structural)]
pub enum StoreError {
    /// The stored bytes do not follow the entity's wire schema.
    Decode,
    /// No record is stored at the key.
    NotFound,
    /// The store itself failed (connection or command).
    Store,
    /// A caller-supplied value breaks a precondition.
    InvalidArgument,
    /// The wallet holds fewer coins than the transfer asks for.
    InsufficientFunds,
    /// The retry budget ran out under contention.
    Timeout,
}

} // verus!
