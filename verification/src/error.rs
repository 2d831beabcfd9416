//! The ways in which an endpoint can fail.

use vstd::prelude::*;

verus! {

/// The error kinds of the protocol. Each is confined to the connection, or
/// to the call, on which it arose.
#[derive(Clone, Copy, Debug, PartialEq, Eq, Structural)]
pub enum CommError {
    /// The listener's address could not be bound.
    BindError,
    /// The connector could not reach its peer.
    ConnectError,
    /// The transport ended inside a frame.
    ShortReadError,
    /// The transport refused a write.
    WriteError,
}

} // verus!
