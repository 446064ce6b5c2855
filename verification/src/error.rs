use vstd::prelude::*;

verus! {

/// The recoverable failures of a send.
#[derive(Clone, Copy, Debug, PartialEq, Eq, Structural)]
pub enum ErrorKind {
    /// The gas budget would be exceeded.
    OutOfGas,
    /// An argument is not allowed (the zero key address, a bad block handle).
    IllegalArgument,
    /// The receiver does not exist or cannot be resolved.
    InvalidReceiver,
    /// The sender's balance does not cover the value.
    InsufficientFunds,
    /// A parameter or result block is not in the expected encoding.
    Serialization,
}

} // verus!
