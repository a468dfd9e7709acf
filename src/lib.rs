//! Discovery-and-link core of a two-machine sync tool: the wire codec,
//! the peer table built from discovery events, the session state machine
//! and the connect retry policy.

mod text;

pub mod advertise;
pub mod connect;
pub mod error;
pub mod message;
pub mod payload;
pub mod peers;
pub mod screenshot;
pub mod session;
