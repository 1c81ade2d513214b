//! Reassembly of fragmented WebSocket messages.
//!
//! A [`Fragmented`] session consumes classified messages one at a time,
//! accumulates the fragments of one data message, and hands back the
//! assembled message once its final fragment has been seen.
pub mod error;
pub mod frame;
pub mod laws;
pub mod message;
pub mod session;
pub mod utf8;

pub use error::FragError;
pub use frame::{Frame, OpCode};
pub use message::{Action, Message};
pub use session::Fragmented;

