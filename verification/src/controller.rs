//! The controller's decisions: which side a failed start is blamed on, and
//! how a run is judged once the workers have settled.

use vstd::prelude::*;

verus! {

/// Timeout set on both sockets, in nanoseconds, so that a worker blocked on
/// its socket still notices a stop request.
pub const SOCKET_TIMEOUT_NANOS: u64 = 100_000_000;

/// Why the pipeline could not be started.
#[derive(Debug)]
pub enum NewManglerErr {
    /// The socket that listens for incoming packets could not be opened.
    Listener(std::io::Error),
    /// The socket that forwards the mangled packets could not be opened.
    Forwarder(std::io::Error),
}

/// The socket operations of a start, in the order in which they are made.
#[derive(Clone, Copy, Debug, PartialEq, Eq, Structural)]
pub enum SetupStep {
    /// Bind the receiving socket to the listening address.
    BindListener,
    /// Bind the sending socket to an ephemeral port.
    BindForwarder,
    /// Connect the sending socket to the forwarding address.
    ConnectForwarder,
}

/// The error of a start that failed at `step`.
pub open spec fn spec_setup_failure(step: SetupStep, err: std::io::Error) -> NewManglerErr {
    match step {
        SetupStep::BindListener => NewManglerErr::Listener(err),
        SetupStep::BindForwarder => NewManglerErr::Forwarder(err),
        SetupStep::ConnectForwarder => NewManglerErr::Forwarder(err),
    }
}

/// The outcome of a run: the first error a worker reported, or success if
/// all workers ended without one.
pub open spec fn spec_completion<E>(reported: Option<E>) -> Result<(), E> {
    match reported {
        Some(err) => Err(err),
        None => Ok(()),
    }
}

/// Calls `format!` to put `prefix` in front of the error's own text.
///
/// The only assumption is that the result begins with `prefix`; the text
/// that `std::io::Error` prints is left open.
#[verifier::external_body]
fn prefixed(prefix: &str, err: &std::io::Error) -> (text: String)
    ensures
        prefix@.is_prefix_of(text@),
{
    format!("{}{}", prefix, err)
}

impl NewManglerErr {
    /// The underlying socket error.
    pub open spec fn source(&self) -> std::io::Error {
        match *self {
            NewManglerErr::Listener(err) => err,
            NewManglerErr::Forwarder(err) => err,
        }
    }

    /// A line for the user: which socket could not be opened, then the
    /// socket error's own text.
    pub fn message(&self) -> (text: String)
        ensures
            self is Listener ==> "Error opening listener socket: "@.is_prefix_of(text@),
            self is Forwarder ==> "Error opening forwarder socket: "@.is_prefix_of(text@),
    {
        match self {
            NewManglerErr::Listener(err) => prefixed("Error opening listener socket: ", err),
            NewManglerErr::Forwarder(err) => prefixed("Error opening forwarder socket: ", err),
        }
    }
}

/// Blames a failed socket operation on the side it belongs to: the listener
/// for its bind, the forwarder for its bind and its connect.
pub fn setup_failure(step: SetupStep, err: std::io::Error) -> (e: NewManglerErr)
    ensures
        e == spec_setup_failure(step, err),
{
    match step {
        SetupStep::BindListener => NewManglerErr::Listener(err),
        SetupStep::BindForwarder => NewManglerErr::Forwarder(err),
        SetupStep::ConnectForwarder => NewManglerErr::Forwarder(err),
    }
}

/// Judges a run once the error signal has settled: an error that a worker
/// reported is the run's error, and a signal that closed without one means
/// that every worker ended cleanly.
pub fn completion<E>(reported: Option<E>) -> (r: Result<(), E>)
    ensures
        r == spec_completion(reported),
{
    match reported {
        Some(err) => Err(err),
        None => Ok(()),
    }
}

} // verus!
