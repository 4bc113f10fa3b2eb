//! What can end a session or refuse a message.

use vstd::prelude::*;

verus! {

/// Why a frame, a message or a session failed.
#[derive(PartialEq, Eq, Structural, Debug, Clone, Copy)]
pub enum ProtocolError {
    /// A header carried an unknown type byte.
    MalformedFrame,
    /// A payload could not be read as the message it should hold.
    DecodeFailure,
    /// A response came for a sequence id that no request is waiting on.
    UnknownSequence,
    /// A payload does not fit the 16-bit length of a header.
    PayloadTooLarge,
    /// The next sequence id still belongs to a request in flight.
    SequenceInUse,
    /// A response lacks the body that the request asked for.
    MissingBody,
}

} // verus!
