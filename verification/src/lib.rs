//! A single-peer, bidirectional RPC protocol engine over a persistent duplex
//! text-message transport.
//!
//! The library holds the verified core: the message envelope model and its
//! wire codec, the session state with its one-peer exclusivity rule, the
//! pending-request correlation table, the inbound dispatch decisions, and the
//! one-shot shutdown signal. The unverifiable edges (the HTTP listener, the
//! socket upgrade, the async channels and the process bootstrap) live outside
//! the library and drive it with plain values.

pub mod codec;
pub mod dispatch;
pub mod errors;
pub mod messages;
pub mod session;
