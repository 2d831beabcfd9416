//! Message framing and processing rules for a request/reply protocol over a
//! stream transport: the message envelope and its two wire forms, the send /
//! receive / process capabilities of an endpoint, the queue that hands
//! messages on in arrival order, and the decisions that a connection
//! handler, a listener and a connector's sender take.
//!
//! Nothing here touches a socket or a thread. The caller reads and writes
//! bytes and reports what happened; every decision on those bytes is taken
//! here.

pub mod error;
pub mod framing;
pub mod message;
pub mod processing;
pub mod queue;
pub mod session;
pub mod varframe;

pub use error::CommError;
pub use message::{Message, MessageType, MSG_SIZE};
pub use processing::CommProcessing;
