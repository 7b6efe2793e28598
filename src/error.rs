//! Errors of the network subsystem.
use vstd::prelude::*;

verus! {

/// What can go wrong in the network subsystem.
#[derive(Clone, Copy, Debug, PartialEq, Eq, Structural)]
pub enum NetError {
    /// A device register or DMA operation failed; the NIC is unusable.
    HardwareFault,
    /// A header was shorter than its fixed wire size.
    ProtocolTruncated,
    /// A live socket already has the requested identity tuple.
    DuplicateSocket,
    /// No live socket has the requested identity tuple.
    SocketNotFound,
    /// The NIC refused a frame for transmission.
    TransmitFailure,
}

} // verus!
