//! The listener's decisions: what to make of the outcome of a receive.

use crate::packet::{Packet, PacketView};
use crate::worker::{failure_kind, spec_failure_kind, FailureKind};
use vstd::prelude::*;
use vstd::slice::{slice_subrange, slice_to_vec};

verus! {

/// What the listener does after a receive.
#[derive(Debug)]
pub enum ListenerAction {
    /// Nothing to hand on: receive again.
    Retry,
    /// Push this packet to the delay engine.
    Deliver(Packet),
    /// Publish this error and end the worker.
    Fail(std::io::Error),
}

/// The packet made of the first `received` bytes of the buffer, stamped
/// with `now`.
pub open spec fn spec_packet(buffer: Seq<u8>, received: nat, now: nat) -> PacketView {
    PacketView { release_time: now, content: buffer.take(received as int) }
}

/// The action after a datagram of `received` bytes: one that fills the
/// buffer may have been truncated and is discarded.
pub open spec fn spec_on_datagram(
    action: ListenerAction,
    buffer: Seq<u8>,
    received: nat,
    now: nat,
) -> bool {
    if received >= buffer.len() {
        action is Retry
    } else {
        action matches ListenerAction::Deliver(p) && p@ == spec_packet(buffer, received, now)
    }
}

/// The action after a failed receive of the given kind.
pub open spec fn spec_on_receive_failure(kind: FailureKind, err: std::io::Error) -> ListenerAction {
    if kind.spec_is_transient() {
        ListenerAction::Retry
    } else {
        ListenerAction::Fail(err)
    }
}

/// Empties the receive buffer and refills it with `size` zero bytes.
pub fn reset_buffer(buffer: &mut Vec<u8>, size: usize)
    ensures
        final(buffer)@ == Seq::new(size as nat, |i: int| 0u8),
{
    buffer.clear();
    buffer.resize(size, 0u8);
    assert(buffer@ =~= Seq::new(size as nat, |i: int| 0u8));
}

/// Turns a received datagram into a packet that is released at `now`,
/// unless it fills the buffer.
pub fn packet_from_datagram(buffer: &[u8], received: usize, now: u64) -> (r: Option<Packet>)
    ensures
        match r {
            Some(p) => received < buffer@.len() && p@ == spec_packet(
                buffer@,
                received as nat,
                now as nat,
            ),
            None => received >= buffer@.len(),
        },
{
    if received >= buffer.len() {
        None
    } else {
        let content = slice_to_vec(slice_subrange(buffer, 0, received));
        Some(Packet { release_time: now, content })
    }
}

/// Decides what follows a failed receive, given the kind of the failure.
pub fn on_receive_failure(kind: FailureKind, err: std::io::Error) -> (action: ListenerAction)
    ensures
        action == spec_on_receive_failure(kind, err),
{
    if kind.is_transient() {
        ListenerAction::Retry
    } else {
        ListenerAction::Fail(err)
    }
}

/// Decides what follows a receive into `buffer` that ended at `now`.
///
/// A datagram becomes a packet unless it fills the buffer. A failure is
/// passed over or reported according to its kind, as
/// [`on_receive_failure`] says: a receive that would block or that timed
/// out is passed over, anything else is reported.
pub fn on_receive(
    outcome: Result<usize, std::io::Error>,
    buffer: &[u8],
    now: u64,
) -> (action: ListenerAction)
    ensures
        match outcome {
            Ok(received) => spec_on_datagram(action, buffer@, received as nat, now as nat),
            Err(err) => action == spec_on_receive_failure(spec_failure_kind(err), err),
        },
{
    match outcome {
        Ok(received) => match packet_from_datagram(buffer, received, now) {
            Some(packet) => ListenerAction::Deliver(packet),
            None => ListenerAction::Retry,
        },
        Err(err) => {
            let kind = failure_kind(&err);
            on_receive_failure(kind, err)
        },
    }
}

} // verus!
