//! A remote filesystem daemon's core: length-prefixed framing of the link to
//! the peer, the request multiplexer that correlates replies with waiting
//! calls, the connection state machine, and the adapter that turns
//! filesystem entry points into requests and replies into filesystem results.
pub mod adapter;
pub mod frame;
pub mod message;
pub mod mux;
