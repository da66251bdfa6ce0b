//! The unit of work that moves through the pipeline.

use vstd::prelude::*;

verus! {

/// Mathematical model of a [`Packet`].
#[verifier::ext_equal]
pub struct PacketView {
    /// Instant at which the packet may be transmitted, in nanoseconds on the
    /// pipeline's monotonic clock.
    pub release_time: nat,
    /// The datagram payload.
    pub content: Seq<u8>,
}

/// A received datagram on its way through the pipeline.
#[derive(Debug, PartialEq, Eq)]
pub struct Packet {
    /// Instant at which the packet may be transmitted, in nanoseconds on the
    /// pipeline's monotonic clock.
    pub release_time: u64,
    /// The raw datagram payload.
    pub content: Vec<u8>,
}

impl View for Packet {
    type V = PacketView;

    open spec fn view(&self) -> PacketView {
        PacketView { release_time: self.release_time as nat, content: self.content@ }
    }
}

} // verus!
