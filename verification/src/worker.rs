//! What the three workers share: how a loop goes on, and how socket
//! failures are told apart.

use crate::packet::Packet;
use vstd::prelude::*;

verus! {

/// Longest time, in nanoseconds, that a worker waits on a queue before it
/// looks at the stop request again.
pub const DEFAULT_POLL_INTERVAL_NANOS: u64 = 100_000_000;

/// `std::io::Error`, the failure of a socket operation. Nothing is known
/// of what it holds; it is handed on to whoever reports it.
#[verifier::external_type_specification]
#[verifier::external_body]
pub struct ExIoError(std::io::Error);

/// Whether a worker goes on with its loop.
#[derive(Clone, Copy, Debug, PartialEq, Eq, Structural)]
pub enum Flow {
    /// Run the next iteration.
    Continue,
    /// Leave the loop without reporting an error.
    Stop,
}

impl Flow {
    /// The flow at the top of an iteration: a worker stops as soon as it
    /// sees that a stop was requested, before it waits, receives or sends
    /// anything more.
    pub open spec fn spec_on_stop_flag(stop_requested: bool) -> Flow {
        if stop_requested {
            Flow::Stop
        } else {
            Flow::Continue
        }
    }

    /// The flow after a push to the next stage: a queue whose receiving
    /// side is gone hands the packet back, and the worker stops.
    pub open spec fn spec_on_push(pushed: Result<(), Packet>) -> Flow {
        match pushed {
            Ok(_) => Flow::Continue,
            Err(_) => Flow::Stop,
        }
    }

    /// Decides at the top of an iteration whether the worker goes on.
    pub fn on_stop_flag(stop_requested: bool) -> (flow: Flow)
        ensures
            flow == Flow::spec_on_stop_flag(stop_requested),
    {
        if stop_requested {
            Flow::Stop
        } else {
            Flow::Continue
        }
    }

    /// Decides what follows a push to the next stage's queue. A closed
    /// queue is no error: the worker ends without reporting one.
    pub fn on_push(pushed: Result<(), Packet>) -> (flow: Flow)
        ensures
            flow == Flow::spec_on_push(pushed),
    {
        match pushed {
            Ok(_) => Flow::Continue,
            Err(_) => Flow::Stop,
        }
    }
}

/// What a bounded wait on a queue of packets ended with.
#[derive(Debug)]
pub enum Input {
    /// A packet arrived.
    Packet(Packet),
    /// The wait bound passed without a packet.
    TimedOut,
    /// The sending side of the queue is gone.
    Closed,
}

/// The kinds of socket failure that the workers tell apart.
#[derive(Clone, Copy, Debug, PartialEq, Eq, Structural)]
pub enum FailureKind {
    /// The operation would have blocked.
    WouldBlock,
    /// The operation ran into its timeout.
    TimedOut,
    /// Anything else.
    Other,
}

impl FailureKind {
    /// Backpressure and timeouts pass; the operation is simply tried again.
    pub open spec fn spec_is_transient(self) -> bool {
        self == FailureKind::WouldBlock || self == FailureKind::TimedOut
    }

    /// Whether the failure is recovered by trying again.
    pub fn is_transient(self) -> (b: bool)
        ensures
            b == self.spec_is_transient(),
    {
        match self {
            FailureKind::WouldBlock => true,
            FailureKind::TimedOut => true,
            FailureKind::Other => false,
        }
    }
}

/// The kind that `std::io::Error::kind` reports of the error, sorted into
/// the three kinds that matter here. It is a matter of the error alone;
/// which kind a given error has is not said.
pub uninterp spec fn spec_failure_kind(err: std::io::Error) -> FailureKind;

/// Calls `std::io::Error::kind` and sorts the answer into the three kinds
/// that matter here.
///
/// The only assumption is that the answer depends on the error alone, so
/// that it can be spoken of as [`spec_failure_kind`]. Nothing is assumed
/// about which kind an error has.
#[verifier::external_body]
pub(crate) fn failure_kind(err: &std::io::Error) -> (kind: FailureKind)
    ensures
        kind == spec_failure_kind(*err),
{
    match err.kind() {
        std::io::ErrorKind::WouldBlock => FailureKind::WouldBlock,
        std::io::ErrorKind::TimedOut => FailureKind::TimedOut,
        _ => FailureKind::Other,
    }
}

} // verus!
