//! The engine's error values. Each failure condition of the protocol engine
//! has its own type or variant, so callers can tell a rejected accept from a
//! missing peer from a malformed frame.

use vstd::prelude::*;

verus! {

use vstd::string::StringExecFns;

/// A contentless failure marker, used by the process's top-level wait logic
/// to end the main wait when the shutdown signal fires.
#[derive(Debug)]
pub struct EmptyError {}

/// A second connection attempt was made while a peer is already attached:
/// the exclusivity rule rejects it and mutates nothing.
#[derive(Debug)]
pub struct ConnectionAlreadyInUse;

/// The transport could not supply the connecting peer's address, which the
/// session needs as the peer's identity.
#[derive(Debug)]
pub struct OriginAddressRequired;

/// No peer is attached: nothing can be sent and no local request can be
/// issued. Also used to fail every pending waiter when the peer disconnects.
#[derive(Debug)]
pub struct ClientDisconnectedError {}

impl ClientDisconnectedError {
    /// The human-readable description of this failure.
    pub fn message(&self) -> (r: String)
        ensures
            r@ == "Client disconnected"@,
    {
        String::from_str("Client disconnected")
    }
}

/// Why an accept attempt was rejected before a peer could be installed.
#[derive(Debug)]
pub enum AcceptError {
    AlreadyInUse(ConnectionAlreadyInUse),
    OriginRequired(OriginAddressRequired),
}

/// An inbound text frame was not a well-formed message: it was not valid
/// structured data, its kind or method tag was unrecognized, or it carried a
/// field that its kind does not permit.
#[derive(Debug)]
pub struct DecodeError {}

impl DecodeError {
    /// The diagnostic text reported back to the peer in an error envelope.
    pub fn message(&self) -> (r: String)
        ensures
            r@ == "incorrect input: not a recognized message"@,
    {
        String::from_str("incorrect input: not a recognized message")
    }
}

} // verus!
