//! The forwarder's state and decisions: one packet is held until it has
//! been sent.

use crate::packet::{Packet, PacketView};
use crate::worker::{
    failure_kind, spec_failure_kind, FailureKind, Flow, Input, DEFAULT_POLL_INTERVAL_NANOS,
};
use vstd::prelude::*;

verus! {

/// What the forwarder does next in an iteration.
#[derive(Clone, Copy, Debug, PartialEq, Eq, Structural)]
pub enum ForwarderStep {
    /// No packet is held: wait for one from the delay engine, for no longer
    /// than the given number of nanoseconds.
    Fetch { wait_nanos: u64 },
    /// Send the held packet's payload.
    Send,
}

/// What the forwarder does after a send.
#[derive(Debug)]
pub enum ForwarderAction {
    /// Go on with the next iteration.
    Continue,
    /// Publish this error and end the worker.
    Fail(std::io::Error),
}

/// The next step of a forwarder: fetch when nothing is held, waiting one
/// poll interval at most, else send what is held.
pub open spec fn spec_next_step(held: Option<PacketView>) -> ForwarderStep {
    if held is None {
        ForwarderStep::Fetch { wait_nanos: DEFAULT_POLL_INTERVAL_NANOS }
    } else {
        ForwarderStep::Send
    }
}

/// The action after a failed send of the given kind.
pub open spec fn spec_on_send_failure(kind: FailureKind, err: std::io::Error) -> ForwarderAction {
    if kind.spec_is_transient() {
        ForwarderAction::Continue
    } else {
        ForwarderAction::Fail(err)
    }
}

/// The packet that is being sent, if any.
#[derive(Debug)]
pub struct Forwarder {
    held: Option<Packet>,
}

impl View for Forwarder {
    type V = Option<PacketView>;

    closed spec fn view(&self) -> Option<PacketView> {
        match self.held {
            Some(p) => Some(p@),
            None => None,
        }
    }
}

impl Forwarder {
    /// A forwarder that holds no packet.
    pub fn new() -> (f: Forwarder)
        ensures
            f@ is None,
    {
        Forwarder { held: None }
    }

    /// Fetch when nothing is held, else send what is held. The wait for a
    /// packet is bounded by the poll interval, so that a stop request is
    /// seen even when nothing arrives.
    pub fn next_step(&self) -> (step: ForwarderStep)
        ensures
            step == spec_next_step(self@),
    {
        match self.held {
            Some(_) => ForwarderStep::Send,
            None => ForwarderStep::Fetch { wait_nanos: DEFAULT_POLL_INTERVAL_NANOS },
        }
    }

    /// The payload to send, if a packet is held.
    pub fn payload(&self) -> (r: Option<&Vec<u8>>)
        ensures
            match r {
                Some(bytes) => self@ is Some && bytes@ == self@->Some_0.content,
                None => self@ is None,
            },
    {
        match &self.held {
            Some(p) => Some(&p.content),
            None => None,
        }
    }

    /// Takes what the wait on the delay engine's output ended with: a packet
    /// is held from now on, a timeout changes nothing, and a closed queue
    /// ends the worker.
    pub fn on_fetch(&mut self, fetched: Input) -> (flow: Flow)
        requires
            old(self)@ is None,
        ensures
            match fetched {
                Input::Packet(p) => flow == Flow::Continue && final(self)@ == Some(p@),
                Input::TimedOut => flow == Flow::Continue && final(self)@ is None,
                Input::Closed => flow == Flow::Stop && final(self)@ is None,
            },
    {
        match fetched {
            Input::Packet(p) => {
                self.held = Some(p);
                Flow::Continue
            },
            Input::TimedOut => Flow::Continue,
            Input::Closed => Flow::Stop,
        }
    }

    /// Decides what follows a failed send, given the kind of the failure.
    /// The held packet stays as it is, to be sent again or left behind.
    pub fn on_send_failure(
        &self,
        kind: FailureKind,
        err: std::io::Error,
    ) -> (action: ForwarderAction)
        ensures
            action == spec_on_send_failure(kind, err),
    {
        if kind.is_transient() {
            ForwarderAction::Continue
        } else {
            ForwarderAction::Fail(err)
        }
    }

    /// Decides what follows a send.
    ///
    /// After a success the packet is let go. After a failure it is kept,
    /// unchanged, and the failure is passed over or reported according to
    /// its kind, as [`Forwarder::on_send_failure`] says: backpressure and
    /// timeouts are passed over, anything else is reported.
    pub fn on_send(&mut self, outcome: Result<usize, std::io::Error>) -> (action: ForwarderAction)
        ensures
            match outcome {
                Ok(_) => action is Continue && final(self)@ is None,
                Err(err) => {
                    &&& final(self)@ == old(self)@
                    &&& action == spec_on_send_failure(spec_failure_kind(err), err)
                },
            },
    {
        match outcome {
            Ok(_) => {
                self.held = None;
                ForwarderAction::Continue
            },
            Err(err) => {
                let kind = failure_kind(&err);
                self.on_send_failure(kind, err)
            },
        }
    }
}

} // verus!
