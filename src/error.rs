use vstd::prelude::*;

verus! {

/// Errors surfaced by the event layer.
#[derive(Debug, Clone, Copy, PartialEq, Eq, Structural)]
pub enum Error {
    /// A broker-only operation on a client, or the reverse.
    IllegalState,
    /// A frame that does not decode.
    MalformedFrame,
    /// A frame whose variant index is not one of the known events.
    UnknownVariant,
    /// An event that must not reach the client receive path.
    UnexpectedEvent,
    /// An encoded event is larger than one message may be.
    MessageTooLarge,
    /// The underlying ring is unavailable.
    TransportFailure,
    /// A worker generation ended without leaving a snapshot.
    SnapshotMissing,
    /// The broker loop ended.
    ShuttingDown,
    /// An execution was asked for an empty input, or a corpus is empty.
    Empty,
    /// A corpus id that names no entry.
    KeyNotFound,
}

} // verus!
