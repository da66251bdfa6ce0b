//! The delay engine: the state and the decisions of the pipeline's middle
//! stage.
//!
//! The engine owns the release queue and the deadline of its next wake-up.
//! Its caller reads the clock, waits on the input and hands packets on; the
//! engine decides what is dropped, when a packet is due and how long to wait.

use crate::config::{ManglerConfig, LOSS_SCALE};
use crate::packet::{Packet, PacketView};
use crate::policy::{
    delay, delay_in_range, exceeds_payload_limit, is_lost, mangle, spec_mangle, spec_oversize,
};
use crate::queue::{
    due, lemma_insert_sorted, not_due, sorted, spec_insert, views, ReleaseQueue,
};
use crate::random::{thread_rng, uniform_up_to};
use crate::worker::{Flow, Input, DEFAULT_POLL_INTERVAL_NANOS};
use rand::rngs::ThreadRng;
use vstd::prelude::*;

verus! {

/// Mathematical model of a [`DelayEngine`].
#[verifier::ext_equal]
pub struct EngineView {
    /// Pending packets in release order.
    pub pending: Seq<PacketView>,
    /// Deadline of the next wake-up, in nanoseconds on the pipeline's clock.
    pub next_wake: nat,
}

/// A clock reading from which the poll interval can still be counted.
pub open spec fn clock_in_range(now: u64) -> bool {
    now + DEFAULT_POLL_INTERVAL_NANOS <= u64::MAX
}

/// Whether the poll interval can still be counted from the clock reading.
pub fn clock_fits(now: u64) -> (b: bool)
    ensures
        b == clock_in_range(now),
{
    now <= u64::MAX - DEFAULT_POLL_INTERVAL_NANOS
}

/// The engine with `m` queued and the wake-up set to the earliest release.
pub open spec fn spec_schedule(e: EngineView, m: PacketView) -> EngineView {
    let pending = spec_insert(e.pending, m);
    EngineView { pending, next_wake: pending[0].release_time }
}

/// The engine after a packet went through the policy with the given draws.
pub open spec fn spec_accept(
    e: EngineView,
    p: PacketView,
    c: ManglerConfig,
    loss_draw: nat,
    jitter_draw: nat,
) -> EngineView {
    match spec_mangle(p, c, loss_draw, jitter_draw) {
        None => e,
        Some(m) => spec_schedule(e, m),
    }
}

/// `after` is the engine that `before` becomes when the packet goes through
/// the policy with some loss draw below the scale and some jitter draw up
/// to the configured bound.
pub open spec fn spec_handled(
    before: EngineView,
    after: EngineView,
    p: PacketView,
    c: ManglerConfig,
) -> bool {
    exists|loss_draw: nat, jitter_draw: nat|
        loss_draw < LOSS_SCALE && jitter_draw <= c.jitter_nanos && after == #[trigger] spec_accept(
            before,
            p,
            c,
            loss_draw,
            jitter_draw,
        )
}

/// The engine after a wait that ended without a packet.
pub open spec fn spec_timeout(e: EngineView, now: nat) -> EngineView {
    EngineView { pending: e.pending, next_wake: now + DEFAULT_POLL_INTERVAL_NANOS as nat }
}

/// The engine after a drain at `now`.
pub open spec fn spec_drained(e: EngineView, now: nat) -> EngineView {
    EngineView { pending: not_due(e.pending, now), next_wake: e.next_wake }
}

/// Time from `now` to the next wake-up, zero once the deadline has passed.
pub open spec fn spec_wait_bound(e: EngineView, now: nat) -> nat {
    if e.next_wake > now {
        (e.next_wake - now) as nat
    } else {
        0
    }
}

/// An engine that has just been created at `now`.
pub open spec fn spec_new(now: nat) -> EngineView {
    EngineView {
        pending: Seq::<PacketView>::empty(),
        next_wake: now + DEFAULT_POLL_INTERVAL_NANOS as nat,
    }
}

/// The release queue with its wake-up deadline and the source of the random
/// draws.
#[derive(Debug)]
pub struct DelayEngine {
    queue: ReleaseQueue,
    next_wake: u64,
    rng: ThreadRng,
}

impl View for DelayEngine {
    type V = EngineView;

    closed spec fn view(&self) -> EngineView {
        EngineView { pending: self.queue@, next_wake: self.next_wake as nat }
    }
}

impl DelayEngine {
    /// The pending packets are in ascending order of release time.
    pub open spec fn wf(&self) -> bool {
        sorted(self@.pending)
    }

    /// An engine with nothing queued, due to wake one poll interval after
    /// `now`.
    pub fn new(now: u64) -> (e: DelayEngine)
        requires
            clock_in_range(now),
        ensures
            e.wf(),
            e@ == spec_new(now as nat),
    {
        DelayEngine {
            queue: ReleaseQueue::new(),
            next_wake: now + DEFAULT_POLL_INTERVAL_NANOS,
            rng: thread_rng(),
        }
    }

    /// Deadline of the next wake-up.
    pub fn next_wake(&self) -> (t: u64)
        ensures
            t == self@.next_wake,
    {
        self.next_wake
    }

    /// Number of packets waiting for release.
    pub fn pending_len(&self) -> (n: usize)
        ensures
            n == self@.pending.len(),
    {
        self.queue.len()
    }

    /// Release time of the packet that leaves next, if any is pending.
    pub fn earliest_release_time(&self) -> (t: Option<u64>)
        ensures
            match t {
                Some(t) => self@.pending.len() > 0 && t == self@.pending[0].release_time,
                None => self@.pending.len() == 0,
            },
    {
        self.queue.earliest_release_time()
    }

    /// Removes and returns the earliest pending packet if it is due at `now`.
    pub fn pop_due(&mut self, now: u64) -> (r: Option<Packet>)
        requires
            old(self).wf(),
        ensures
            final(self).wf(),
            final(self)@.next_wake == old(self)@.next_wake,
            match r {
                Some(p) => {
                    &&& old(self)@.pending.len() > 0
                    &&& old(self)@.pending[0].release_time <= now
                    &&& p@ == old(self)@.pending[0]
                    &&& final(self)@.pending == old(self)@.pending.drop_first()
                },
                None => {
                    &&& old(self)@.pending.len() == 0 || old(self)@.pending[0].release_time > now
                    &&& final(self)@.pending == old(self)@.pending
                },
            },
    {
        self.queue.pop_due(now)
    }

    /// The drain phase: removes every packet that is due at `now` and
    /// returns them in the order in which they are to be handed on.
    pub fn release_due(&mut self, now: u64) -> (out: Vec<Packet>)
        requires
            old(self).wf(),
        ensures
            final(self).wf(),
            final(self)@ == spec_drained(old(self)@, now as nat),
            views(out@) == due(old(self)@.pending, now as nat),
            sorted(views(out@)),
            forall|i: int| 0 <= i < out@.len() ==> out@[i].release_time <= now,
            forall|i: int|
                0 <= i < final(self)@.pending.len() ==> final(self)@.pending[i].release_time > now,
    {
        self.queue.release_due(now)
    }

    /// How long to wait for input at `now`: the time to the next wake-up,
    /// zero once the deadline has passed.
    pub fn wait_bound(&self, now: u64) -> (wait: u64)
        ensures
            wait == spec_wait_bound(self@, now as nat),
    {
        if self.next_wake > now {
            self.next_wake - now
        } else {
            0
        }
    }

    /// The wait ended without a packet: wake again one poll interval after
    /// `now`.
    pub fn on_timeout(&mut self, now: u64)
        requires
            old(self).wf(),
            clock_in_range(now),
        ensures
            final(self).wf(),
            final(self)@ == spec_timeout(old(self)@, now as nat),
    {
        self.next_wake = now + DEFAULT_POLL_INTERVAL_NANOS;
    }

    /// Queues a packet that has passed the policy and sets the wake-up to
    /// the earliest release time in the queue. With the packet queued there
    /// is such a time, so the poll interval after `now`, which would stand
    /// in for it, never comes to be used.
    pub fn schedule(&mut self, mangled: Packet, now: u64)
        requires
            old(self).wf(),
        ensures
            final(self).wf(),
            final(self)@ == spec_schedule(old(self)@, mangled@),
    {
        self.queue.insert(mangled);
        proof {
            lemma_insert_sorted(old(self)@.pending, mangled@);
        }
        self.next_wake = match self.queue.earliest_release_time() {
            Some(t) => t,
            None => now + DEFAULT_POLL_INTERVAL_NANOS,
        };
    }

    /// Takes a packet through the policy with the given draws, and queues it
    /// unless the policy drops it.
    ///
    /// A dropped packet leaves the engine as it was, wake-up included.
    pub fn accept(
        &mut self,
        packet: Packet,
        config: &ManglerConfig,
        loss_draw: u64,
        jitter_draw: u64,
        now: u64,
    )
        requires
            old(self).wf(),
            spec_mangle(packet@, *config, loss_draw as nat, jitter_draw as nat) is Some
                ==> packet.release_time + config.ping_nanos + jitter_draw <= u64::MAX,
        ensures
            final(self).wf(),
            final(self)@ == spec_accept(
                old(self)@,
                packet@,
                *config,
                loss_draw as nat,
                jitter_draw as nat,
            ),
    {
        match mangle(packet, config, loss_draw, jitter_draw) {
            Some(mangled) => {
                self.schedule(mangled, now);
            },
            None => {},
        }
    }

    /// Takes a packet through the policy, drawing the loss and the jitter at
    /// random.
    ///
    /// No draw is made where the outcome does not depend on it: none for a
    /// packet that is too large, no loss draw at a loss probability of zero,
    /// no jitter draw for a lost packet or a jitter bound of zero. Whatever
    /// is drawn, the engine ends as [`DelayEngine::accept`] leaves it for
    /// some loss draw below [`LOSS_SCALE`] and some jitter draw up to the
    /// configured bound; which draws, and how likely each is, is not said.
    pub fn on_packet(&mut self, packet: Packet, config: &ManglerConfig, now: u64)
        requires
            old(self).wf(),
            !spec_oversize(packet@, *config) ==> delay_in_range(packet@, *config),
        ensures
            final(self).wf(),
            spec_handled(old(self)@, final(self)@, packet@, *config),
    {
        if exceeds_payload_limit(&packet, config) {
            assert(self@ == spec_accept(self@, packet@, *config, 0, 0));
            return ;
        }
        let loss_draw: u64 = if config.loss_ppb != 0 {
            uniform_up_to(&mut self.rng, (LOSS_SCALE - 1) as u64)
        } else {
            0
        };
        assert(self@ == old(self)@);
        if is_lost(config, loss_draw) {
            assert(self@ == spec_accept(self@, packet@, *config, loss_draw as nat, 0));
            return ;
        }
        let jitter_draw: u64 = if config.jitter_nanos != 0 {
            uniform_up_to(&mut self.rng, config.jitter_nanos)
        } else {
            0
        };
        let mangled = delay(packet, config, jitter_draw);
        self.schedule(mangled, now);
        assert(self@ == spec_accept(
            old(self)@,
            packet@,
            *config,
            loss_draw as nat,
            jitter_draw as nat,
        ));
    }

    /// Reacts to the end of a wait on the input: a packet goes through the
    /// policy, a timeout moves the wake-up, and a closed input ends the
    /// worker.
    pub fn on_input(&mut self, input: Input, config: &ManglerConfig, now: u64) -> (flow: Flow)
        requires
            old(self).wf(),
            input is TimedOut ==> clock_in_range(now),
            input matches Input::Packet(p) ==> (!spec_oversize(p@, *config)
                ==> delay_in_range(p@, *config)),
        ensures
            final(self).wf(),
            match input {
                Input::Packet(p) => {
                    &&& flow == Flow::Continue
                    &&& spec_handled(old(self)@, final(self)@, p@, *config)
                },
                Input::TimedOut => {
                    &&& flow == Flow::Continue
                    &&& final(self)@ == spec_timeout(old(self)@, now as nat)
                },
                Input::Closed => {
                    &&& flow == Flow::Stop
                    &&& final(self)@ == old(self)@
                },
            },
    {
        match input {
            Input::Packet(packet) => {
                self.on_packet(packet, config, now);
                Flow::Continue
            },
            Input::TimedOut => {
                self.on_timeout(now);
                Flow::Continue
            },
            Input::Closed => Flow::Stop,
        }
    }
}

} // verus!
