use vstd::prelude::*;

verus! {

/// The failure kinds shared by the codec, the link and the component protocols.
#[derive(Clone, Copy, Debug, PartialEq, Eq, Structural)]
pub enum Error {
    /// The underlying transport failed.
    Io,
    /// A frame arrived whose checksum does not match its contents.
    InvalidCrc,
    /// A frame's checksum matched but the dialect could not parse its payload.
    InvalidPayload,
    /// The link's outgoing side has shut down.
    Closed,
    /// A request ran out of attempts without a matching answer.
    Timeout,
    /// The peer answered in a way the protocol does not allow.
    Protocol,
}

} // verus!
