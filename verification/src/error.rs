use vstd::prelude::*;

verus! {

/// Errors surfaced synchronously to the caller. Both are recoverable at the
/// user level: `PoolExhausted` by waiting on outstanding tokens and freeing
/// buffers, `ConnectionNotEstablished` by connecting the descriptor first.
#[derive(Debug, Clone, Copy, PartialEq, Eq, Structural)]
pub enum QueueError {
    /// The fixed-capacity memory pool has no free buffer.
    PoolExhausted,
    /// An operation was issued on a descriptor that was never connected.
    ConnectionNotEstablished,
}

/// Fatal, connection-level failures observed while draining the completion
/// queue. The engine is fail-stop per connection: any of these aborts the
/// connection and is not threaded back through individual tokens.
#[derive(Debug, Clone, Copy, PartialEq, Eq, Structural)]
pub enum FatalError {
    /// A work completion reported a status other than success, or a receive
    /// reported more bytes than the posted buffer holds.
    UnsuccessfulCompletion,
    /// A work completion carried an opcode the engine does not know.
    UnknownOpcode,
    /// A completed work identifier was already present in the completed
    /// store; an engine invariant was violated.
    DuplicateWorkId,
    /// A work completion named an identifier with no pending operation.
    UnknownWorkId,
    /// The peer disconnected in an orderly fashion.
    PeerClosed,
}

} // verus!
