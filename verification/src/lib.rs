//! A minimal single-lease DHCP responder core.
//!
//! The library holds the verified logic of a tool that hands one device a
//! fixed IPv4 address over DHCP and then waits for the lease to complete:
//! the wire codec for the two message exchanges it answers, the responder
//! state machine with its first-writer-wins lease record, the bounded lease
//! wait, and the small pure computations of the surrounding command-line
//! session. Socket, console and process I/O live outside the library and
//! hand it plain values.

pub mod net;
pub mod codec;
pub mod responder;
pub mod waiter;
pub mod session;
