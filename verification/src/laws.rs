//! What holds of the delay engine over whole runs.
//!
//! A run is a sequence of events: a packet arrives and goes through the
//! policy, the wait for input times out, or the engine releases what is due.
//! To the release queue such a run is a sequence of insertions and drains.
//! The laws below speak of the packets that a run releases, first for runs
//! of the queue and then for runs of the engine.

use crate::config::{ManglerConfig, LOSS_SCALE};
use crate::engine::{
    spec_accept, spec_drained, spec_handled, spec_new, spec_schedule, spec_timeout,
    spec_wait_bound, EngineView,
};
use crate::packet::PacketView;
use crate::policy::{spec_delayed, spec_lost, spec_mangle, spec_oversize};
use crate::queue::{
    due, due_len, lemma_due_len_splits, lemma_insert_sorted, lemma_sorted_rest_not_due, not_due,
    sorted, spec_insert,
};
use crate::listener::spec_packet;
use crate::worker::DEFAULT_POLL_INTERVAL_NANOS;
use vstd::multiset::*;
use vstd::prelude::*;
use vstd::seq_lib::*;

verus! {

/// One operation on the release queue.
pub enum QueueOp {
    /// A packet that passed the policy is queued.
    Insert(PacketView),
    /// Every packet that is due at the given instant is released.
    Drain(nat),
    /// The queue is left alone.
    Idle,
}

/// The queue after one operation.
pub open spec fn queue_after(q: Seq<PacketView>, op: QueueOp) -> Seq<PacketView> {
    match op {
        QueueOp::Insert(p) => spec_insert(q, p),
        QueueOp::Drain(now) => not_due(q, now),
        QueueOp::Idle => q,
    }
}

/// The packets that one operation releases, in the order of their release.
pub open spec fn released_by(q: Seq<PacketView>, op: QueueOp) -> Seq<PacketView> {
    match op {
        QueueOp::Insert(_) => Seq::empty(),
        QueueOp::Drain(now) => due(q, now),
        QueueOp::Idle => Seq::empty(),
    }
}

/// The queue after a run of operations.
pub open spec fn run_queue(q: Seq<PacketView>, ops: Seq<QueueOp>) -> Seq<PacketView>
    decreases ops.len(),
{
    if ops.len() == 0 {
        q
    } else {
        run_queue(queue_after(q, ops[0]), ops.drop_first())
    }
}

/// The packets that a run of operations releases, in the order of their
/// release.
pub open spec fn run_released(q: Seq<PacketView>, ops: Seq<QueueOp>) -> Seq<PacketView>
    decreases ops.len(),
{
    if ops.len() == 0 {
        Seq::empty()
    } else {
        released_by(q, ops[0]) + run_released(queue_after(q, ops[0]), ops.drop_first())
    }
}

/// The packets that a run of operations queues.
pub open spec fn run_inserted(ops: Seq<QueueOp>) -> Multiset<PacketView>
    decreases ops.len(),
{
    if ops.len() == 0 {
        Multiset::empty()
    } else {
        match ops[0] {
            QueueOp::Insert(p) => run_inserted(ops.drop_first()).insert(p),
            _ => run_inserted(ops.drop_first()),
        }
    }
}

/// No packet is queued for an instant before `floor`, nor, later in the
/// run, for an instant before a drain that came before it.
pub open spec fn timely(ops: Seq<QueueOp>, floor: nat) -> bool
    decreases ops.len(),
{
    ops.len() == 0 || match ops[0] {
        QueueOp::Insert(p) => p.release_time >= floor && timely(ops.drop_first(), floor),
        QueueOp::Drain(now) => timely(ops.drop_first(), if now > floor { now } else { floor }),
        QueueOp::Idle => timely(ops.drop_first(), floor),
    }
}

/// No entry of `q` is released before `floor`.
pub open spec fn none_before(q: Seq<PacketView>, floor: nat) -> bool {
    forall|i: int| 0 <= i < q.len() ==> q[i].release_time >= floor
}

/// One event in the life of the delay engine.
pub enum EngineOp {
    /// A packet arrives and goes through the policy under the configuration
    /// in force, with the given draws.
    Packet { packet: PacketView, config: ManglerConfig, loss_draw: nat, jitter_draw: nat },
    /// The wait for input ends at the given instant without a packet.
    Timeout(nat),
    /// The engine releases what is due at the given instant.
    Drain(nat),
}

/// The engine after one event.
pub open spec fn engine_after(e: EngineView, op: EngineOp) -> EngineView {
    match op {
        EngineOp::Packet { packet, config, loss_draw, jitter_draw } => spec_accept(
            e,
            packet,
            config,
            loss_draw,
            jitter_draw,
        ),
        EngineOp::Timeout(now) => spec_timeout(e, now),
        EngineOp::Drain(now) => spec_drained(e, now),
    }
}

/// The packets that the engine hands on at one event.
pub open spec fn handed_on_by(e: EngineView, op: EngineOp) -> Seq<PacketView> {
    match op {
        EngineOp::Drain(now) => due(e.pending, now),
        _ => Seq::empty(),
    }
}

/// The engine after a run of events.
pub open spec fn engine_run(e: EngineView, ops: Seq<EngineOp>) -> EngineView
    decreases ops.len(),
{
    if ops.len() == 0 {
        e
    } else {
        engine_run(engine_after(e, ops[0]), ops.drop_first())
    }
}

/// The packets that the engine hands to the forwarder over a run of events,
/// in the order in which it hands them on.
pub open spec fn engine_released(e: EngineView, ops: Seq<EngineOp>) -> Seq<PacketView>
    decreases ops.len(),
{
    if ops.len() == 0 {
        Seq::empty()
    } else {
        handed_on_by(e, ops[0]) + engine_released(engine_after(e, ops[0]), ops.drop_first())
    }
}

/// What an event does to the release queue.
pub open spec fn queue_op(op: EngineOp) -> QueueOp {
    match op {
        EngineOp::Packet { packet, config, loss_draw, jitter_draw } => match spec_mangle(
            packet,
            config,
            loss_draw,
            jitter_draw,
        ) {
            Some(m) => QueueOp::Insert(m),
            None => QueueOp::Idle,
        },
        EngineOp::Timeout(_) => QueueOp::Idle,
        EngineOp::Drain(now) => QueueOp::Drain(now),
    }
}

/// What a run of events does to the release queue.
pub open spec fn queue_ops(ops: Seq<EngineOp>) -> Seq<QueueOp> {
    ops.map_values(|op: EngineOp| queue_op(op))
}

/// The event is the arrival of a packet that the policy keeps and turns
/// into `x`: within the size limit of its configuration, spared by its loss
/// draw, delayed by the ping and its jitter draw.
pub open spec fn kept_as(op: EngineOp, x: PacketView) -> bool {
    &&& op matches EngineOp::Packet { packet, config, loss_draw, jitter_draw }
    &&& !spec_oversize(packet, config)
    &&& !spec_lost(config, loss_draw)
    &&& x == spec_delayed(packet, config, jitter_draw)
}

/// The event is the arrival of a packet with the payload of `x` that is
/// within the size limit of the configuration it meets.
pub open spec fn arrived_within_limit(op: EngineOp, x: PacketView) -> bool {
    &&& op matches EngineOp::Packet { packet, config, .. }
    &&& x.content == packet.content
    &&& packet.content.len() <= config.max_payload_size
}

/// The event, if it is the arrival of a packet, meets a loss probability of
/// one with a loss draw below the scale.
pub open spec fn meets_total_loss(op: EngineOp) -> bool {
    op matches EngineOp::Packet { config, loss_draw, .. } ==> config.loss_ppb == LOSS_SCALE
        && loss_draw < LOSS_SCALE
}

/// The event is the arrival of a packet within the size limit, at a loss
/// probability of zero.
pub open spec fn arrives_lossless(op: EngineOp) -> bool {
    &&& op matches EngineOp::Packet { packet, config, .. }
    &&& config.loss_ppb == 0
    &&& !spec_oversize(packet, config)
}

/// What the policy makes of the packet that arrives with the event, if it
/// keeps it.
pub open spec fn delayed_by(op: EngineOp) -> PacketView {
    match op {
        EngineOp::Packet { packet, config, jitter_draw, .. } => spec_delayed(
            packet,
            config,
            jitter_draw,
        ),
        _ => arbitrary(),
    }
}

/// The event is a drain at or after the release time of `x`.
pub open spec fn drains_at_or_after(op: EngineOp, x: PacketView) -> bool {
    op matches EngineOp::Drain(now) && now >= x.release_time
}

/// An operation leaves an ordered queue ordered.
pub proof fn lemma_queue_after_sorted(q: Seq<PacketView>, op: QueueOp)
    requires
        sorted(q),
    ensures
        sorted(queue_after(q, op)),
{
    match op {
        QueueOp::Insert(p) => {
            lemma_insert_sorted(q, p);
        },
        QueueOp::Drain(now) => {
            lemma_due_len_splits(q, now);
        },
        QueueOp::Idle => {},
    }
}

/// A queue into which a packet was put holds that packet and what it held
/// before, and nothing else.
pub proof fn lemma_insert_contains(q: Seq<PacketView>, p: PacketView)
    ensures
        spec_insert(q, p).contains(p),
        forall|x: PacketView| q.contains(x) ==> #[trigger] spec_insert(q, p).contains(x),
        forall|x: PacketView| #[trigger]
            spec_insert(q, p).contains(x) ==> x == p || q.contains(x),
{
    lemma_due_len_splits(q, p.release_time);
    let at = due_len(q, p.release_time) as int;
    let r = spec_insert(q, p);
    assert(r[at] == p);
    assert forall|x: PacketView| q.contains(x) implies r.contains(x) by {
        let i = choose|i: int| 0 <= i < q.len() && q[i] == x;
        if i < at {
            assert(r[i] == x);
        } else {
            assert(r[i + 1] == x);
        }
    }
    assert forall|x: PacketView| r.contains(x) implies x == p || q.contains(x) by {
        let i = choose|i: int| 0 <= i < r.len() && r[i] == x;
        if i < at {
            assert(q[i] == x);
        } else if i > at {
            assert(q[i - 1] == x);
        }
    }
}

/// Release order of the queue: over a whole run the packets leave in
/// ascending order of release time, provided that no packet is queued for
/// an instant before a drain that has already happened.
pub proof fn lemma_release_order(q: Seq<PacketView>, ops: Seq<QueueOp>, floor: nat)
    requires
        sorted(q),
        none_before(q, floor),
        timely(ops, floor),
    ensures
        sorted(run_released(q, ops)),
        none_before(run_released(q, ops), floor),
    decreases ops.len(),
{
    if ops.len() > 0 {
        let rest = ops.drop_first();
        let next = queue_after(q, ops[0]);
        lemma_queue_after_sorted(q, ops[0]);
        match ops[0] {
            QueueOp::Insert(p) => {
                lemma_insert_sorted(q, p);
                lemma_due_len_splits(q, p.release_time);
                let k = due_len(q, p.release_time) as int;
                assert forall|i: int| 0 <= i < next.len() implies next[i].release_time
                    >= floor by {
                    if i < k {
                        assert(next[i] == q[i]);
                    } else if i > k {
                        assert(next[i] == q[i - 1]);
                    }
                }
                lemma_release_order(next, rest, floor);
                assert(run_released(q, ops) =~= run_released(next, rest));
            },
            QueueOp::Drain(now) => {
                let out = due(q, now);
                let later = run_released(next, rest);
                let bound = if now > floor {
                    now
                } else {
                    floor
                };
                lemma_due_len_splits(q, now);
                lemma_sorted_rest_not_due(q, now);
                assert(none_before(next, bound));
                lemma_release_order(next, rest, bound);
                let all = run_released(q, ops);
                assert(all == out + later);
                assert forall|i: int, j: int| 0 <= i <= j < all.len() implies all[i].release_time
                    <= all[j].release_time by {
                    if j < out.len() {
                        assert(all[i] == q[i] && all[j] == q[j]);
                    } else if i < out.len() {
                        assert(all[i] == q[i]);
                        assert(all[j] == later[j - out.len()]);
                    } else {
                        assert(all[i] == later[i - out.len()]);
                        assert(all[j] == later[j - out.len()]);
                    }
                }
                assert forall|i: int| 0 <= i < all.len() implies all[i].release_time
                    >= floor by {
                    if i < out.len() {
                        assert(all[i] == q[i]);
                    } else {
                        assert(all[i] == later[i - out.len()]);
                    }
                }
            },
            QueueOp::Idle => {
                lemma_release_order(next, rest, floor);
                assert(run_released(q, ops) =~= run_released(next, rest));
            },
        }
    }
}

/// Conservation: a run neither loses nor duplicates a packet. What it
/// releases and what it leaves queued are, counted with multiplicity, what
/// was queued at its start and what it queued. Packets with equal release
/// times are all kept.
pub proof fn lemma_conservation(q: Seq<PacketView>, ops: Seq<QueueOp>)
    ensures
        run_released(q, ops).to_multiset().add(run_queue(q, ops).to_multiset())
            == q.to_multiset().add(run_inserted(ops)),
    decreases ops.len(),
{
    broadcast use vstd::multiset::group_multiset_axioms;

    let left = run_released(q, ops).to_multiset().add(run_queue(q, ops).to_multiset());
    let right = q.to_multiset().add(run_inserted(ops));
    if ops.len() == 0 {
        assert(Seq::<PacketView>::empty().to_multiset() =~= Multiset::empty()) by {
            to_multiset_len(Seq::<PacketView>::empty());
        }
        assert(left =~= right);
    } else {
        let rest = ops.drop_first();
        let next = queue_after(q, ops[0]);
        lemma_conservation(next, rest);
        match ops[0] {
            QueueOp::Insert(p) => {
                lemma_due_len_splits(q, p.release_time);
                to_multiset_insert(q, due_len(q, p.release_time) as int, p);
                assert(run_released(q, ops) =~= run_released(next, rest));
                assert(left =~= right);
            },
            QueueOp::Drain(now) => {
                lemma_due_len_splits(q, now);
                let out = due(q, now);
                let later = run_released(next, rest);
                assert(out + next =~= q);
                lemma_multiset_commutative(out, next);
                lemma_multiset_commutative(out, later);
                let kept = later.to_multiset().add(run_queue(next, rest).to_multiset());
                let owed = next.to_multiset().add(run_inserted(rest));
                assert forall|v: PacketView| left.count(v) == right.count(v) by {
                    assert(kept.count(v) == owed.count(v));
                }
                assert(left =~= right);
            },
            QueueOp::Idle => {
                assert(run_released(q, ops) =~= run_released(next, rest));
                assert(left =~= right);
            },
        }
    }
}

/// No packet is skipped: a packet in the queue is released by the first
/// drain at or after its release time at the latest, whatever is queued or
/// drained before that.
pub proof fn lemma_queued_packet_is_released(
    q: Seq<PacketView>,
    ops: Seq<QueueOp>,
    x: PacketView,
    k: int,
)
    requires
        sorted(q),
        q.contains(x),
        0 <= k < ops.len(),
        ops[k] matches QueueOp::Drain(now) && now >= x.release_time,
    ensures
        run_released(q, ops).contains(x),
    decreases ops.len(),
{
    let rest = ops.drop_first();
    let next = queue_after(q, ops[0]);
    let first = released_by(q, ops[0]);
    let later = run_released(next, rest);
    let i = choose|i: int| 0 <= i < q.len() && q[i] == x;
    lemma_queue_after_sorted(q, ops[0]);
    if ops[0] matches QueueOp::Drain(now) && i < due_len(q, now) {
        let now = ops[0]->Drain_0;
        lemma_due_len_splits(q, now);
        assert(first[i] == x);
        assert((first + later)[i] == x);
    } else {
        assert(next.contains(x)) by {
            match ops[0] {
                QueueOp::Insert(p) => {
                    lemma_insert_contains(q, p);
                },
                QueueOp::Drain(now) => {
                    lemma_due_len_splits(q, now);
                    assert(next[i - due_len(q, now)] == x);
                },
                QueueOp::Idle => {},
            }
        }
        assert(k > 0) by {
            if let QueueOp::Drain(now) = ops[0] {
                lemma_sorted_rest_not_due(q, now);
            }
        }
        assert(rest[k - 1] == ops[k]);
        lemma_queued_packet_is_released(next, rest, x, k - 1);
        let j = choose|j: int| 0 <= j < later.len() && later[j] == x;
        assert((first + later)[first.len() + j] == x);
    }
}

/// A packet that a run queues is released by the first drain at or after
/// its release time that follows in the run, at the latest.
pub proof fn lemma_inserted_packet_is_released(
    q: Seq<PacketView>,
    ops: Seq<QueueOp>,
    x: PacketView,
    i: int,
    k: int,
)
    requires
        sorted(q),
        0 <= i < k < ops.len(),
        ops[i] == QueueOp::Insert(x),
        ops[k] matches QueueOp::Drain(now) && now >= x.release_time,
    ensures
        run_released(q, ops).contains(x),
    decreases ops.len(),
{
    let rest = ops.drop_first();
    let next = queue_after(q, ops[0]);
    let first = released_by(q, ops[0]);
    let later = run_released(next, rest);
    lemma_queue_after_sorted(q, ops[0]);
    assert(rest[k - 1] == ops[k]);
    if i == 0 {
        lemma_insert_contains(q, x);
        lemma_queued_packet_is_released(next, rest, x, k - 1);
    } else {
        assert(rest[i - 1] == ops[i]);
        lemma_inserted_packet_is_released(next, rest, x, i - 1, k - 1);
    }
    let j = choose|j: int| 0 <= j < later.len() && later[j] == x;
    assert((first + later)[first.len() + j] == x);
}

/// Nothing comes out of the queue that did not go in: a packet that a run
/// releases was queued at the start of the run or by the run.
pub proof fn lemma_released_were_queued(q: Seq<PacketView>, ops: Seq<QueueOp>, x: PacketView)
    requires
        run_released(q, ops).contains(x),
    ensures
        q.contains(x) || exists|k: int|
            0 <= k < ops.len() && #[trigger] ops[k] == QueueOp::Insert(x),
    decreases ops.len(),
{
    if ops.len() > 0 {
        let rest = ops.drop_first();
        let next = queue_after(q, ops[0]);
        let first = released_by(q, ops[0]);
        let later = run_released(next, rest);
        let i = choose|i: int| 0 <= i < (first + later).len() && (first + later)[i] == x;
        if i < first.len() {
            assert(first[i] == x);
            if let QueueOp::Drain(now) = ops[0] {
                lemma_due_len_splits(q, now);
                assert(q[i] == x);
            }
        } else {
            assert(later[i - first.len()] == x);
            lemma_released_were_queued(next, rest, x);
            if next.contains(x) {
                match ops[0] {
                    QueueOp::Insert(p) => {
                        lemma_insert_contains(q, p);
                        if x == p {
                            assert(ops[0] == QueueOp::Insert(x));
                        }
                    },
                    QueueOp::Drain(now) => {
                        lemma_due_len_splits(q, now);
                        let j = choose|j: int| 0 <= j < next.len() && next[j] == x;
                        assert(q[due_len(q, now) + j] == x);
                    },
                    QueueOp::Idle => {},
                }
            } else {
                let k = choose|k: int|
                    0 <= k < rest.len() && #[trigger] rest[k] == QueueOp::Insert(x);
                assert(ops[k + 1] == QueueOp::Insert(x));
            }
        }
    }
}

/// A run of the engine is a run of its queue: what the engine hands on and
/// what it keeps pending are what the queue releases and keeps under the
/// queue operations that the events stand for.
pub proof fn lemma_engine_run_is_queue_run(e: EngineView, ops: Seq<EngineOp>)
    ensures
        engine_released(e, ops) == run_released(e.pending, queue_ops(ops)),
        engine_run(e, ops).pending == run_queue(e.pending, queue_ops(ops)),
    decreases ops.len(),
{
    if ops.len() > 0 {
        let rest = ops.drop_first();
        let next = engine_after(e, ops[0]);
        assert(queue_ops(ops)[0] == queue_op(ops[0]));
        assert(queue_ops(ops).drop_first() =~= queue_ops(rest));
        assert(next.pending == queue_after(e.pending, queue_op(ops[0])));
        assert(handed_on_by(e, ops[0]) == released_by(e.pending, queue_op(ops[0])));
        lemma_engine_run_is_queue_run(next, rest);
    }
}

/// Release order: over a whole run the engine hands packets on in ascending
/// order of release time, provided that no packet is queued for an instant
/// before a drain that has already happened.
pub proof fn lemma_engine_release_order(e: EngineView, ops: Seq<EngineOp>, floor: nat)
    requires
        sorted(e.pending),
        none_before(e.pending, floor),
        timely(queue_ops(ops), floor),
    ensures
        sorted(engine_released(e, ops)),
{
    lemma_engine_run_is_queue_run(e, ops);
    lemma_release_order(e.pending, queue_ops(ops), floor);
}

/// Only what passed the policy is forwarded: a packet that the engine hands
/// on was pending at the start of the run, or it is what the policy made of
/// a packet that arrived in the run, that was within the size limit of the
/// configuration it met and that its loss draw spared.
pub proof fn lemma_released_passed_policy(e: EngineView, ops: Seq<EngineOp>, x: PacketView)
    requires
        engine_released(e, ops).contains(x),
    ensures
        e.pending.contains(x) || exists|k: int| 0 <= k < ops.len() && kept_as(#[trigger] ops[k], x),
{
    lemma_engine_run_is_queue_run(e, ops);
    lemma_released_were_queued(e.pending, queue_ops(ops), x);
    if !e.pending.contains(x) {
        let k = choose|k: int|
            0 <= k < queue_ops(ops).len() && #[trigger] queue_ops(ops)[k] == QueueOp::Insert(x);
        assert(queue_op(ops[k]) == QueueOp::Insert(x));
        assert(kept_as(ops[k], x));
    }
}

/// Size limit: a packet whose payload exceeds the limit is dropped whatever
/// is drawn, and leaves the engine as it was.
pub proof fn lemma_oversize_is_dropped(
    e: EngineView,
    p: PacketView,
    c: ManglerConfig,
    loss_draw: nat,
    jitter_draw: nat,
)
    requires
        spec_oversize(p, c),
    ensures
        spec_mangle(p, c, loss_draw, jitter_draw) is None,
        spec_accept(e, p, c, loss_draw, jitter_draw) == e,
{
}

/// Size limit over a run: whatever an engine that started empty hands on
/// has the payload of a packet that arrived within the size limit of the
/// configuration it met.
pub proof fn lemma_oversize_is_never_released(then: nat, ops: Seq<EngineOp>, x: PacketView)
    requires
        engine_released(spec_new(then), ops).contains(x),
    ensures
        exists|k: int| 0 <= k < ops.len() && arrived_within_limit(#[trigger] ops[k], x),
{
    lemma_released_passed_policy(spec_new(then), ops, x);
    let k = choose|k: int| 0 <= k < ops.len() && kept_as(#[trigger] ops[k], x);
    assert(arrived_within_limit(ops[k], x));
}

/// Nothing kept is held back: a packet that the policy keeps is handed on
/// at the first drain at or after its release time that follows, at the
/// latest.
pub proof fn lemma_kept_packet_is_released(
    e: EngineView,
    ops: Seq<EngineOp>,
    i: int,
    k: int,
    x: PacketView,
)
    requires
        sorted(e.pending),
        0 <= i < k < ops.len(),
        kept_as(ops[i], x),
        drains_at_or_after(ops[k], x),
    ensures
        engine_released(e, ops).contains(x),
{
    lemma_engine_run_is_queue_run(e, ops);
    assert(queue_ops(ops)[i] == queue_op(ops[i]));
    assert(queue_ops(ops)[k] == queue_op(ops[k]));
    lemma_inserted_packet_is_released(e.pending, queue_ops(ops), x, i, k);
}

/// No loss: at a loss probability of zero a packet within the size limit is
/// kept whatever is drawn, and the engine hands it on, payload unchanged, at
/// the first drain at or after its release time that follows, at the latest.
pub proof fn lemma_lossless_packet_is_released(
    e: EngineView,
    ops: Seq<EngineOp>,
    i: int,
    k: int,
)
    requires
        sorted(e.pending),
        0 <= i < k < ops.len(),
        arrives_lossless(ops[i]),
        drains_at_or_after(ops[k], delayed_by(ops[i])),
    ensures
        engine_released(e, ops).contains(delayed_by(ops[i])),
        kept_as(ops[i], delayed_by(ops[i])),
        arrived_within_limit(ops[i], delayed_by(ops[i])),
{
    lemma_kept_packet_is_released(e, ops, i, k, delayed_by(ops[i]));
}

/// The event is the arrival, at `arrival`, of the datagram that fills the
/// first `received` bytes of `buffer`, short of the whole buffer and within
/// the size limit, with a loss draw that spares it and a jitter draw within
/// the bound.
pub open spec fn datagram_goes_through(
    op: EngineOp,
    buffer: Seq<u8>,
    received: nat,
    arrival: nat,
) -> bool {
    &&& received < buffer.len()
    &&& op matches EngineOp::Packet { packet, config, loss_draw, jitter_draw }
    &&& packet == spec_packet(buffer, received, arrival)
    &&& received <= config.max_payload_size
    &&& loss_draw >= config.loss_ppb
    &&& jitter_draw <= config.jitter_nanos
}

/// `x` holds exactly the first `received` bytes of `buffer`, and its
/// release time lies between `arrival` plus the ping of the event's
/// configuration and that plus its jitter bound.
pub open spec fn unmodified_in_window(
    op: EngineOp,
    x: PacketView,
    buffer: Seq<u8>,
    received: nat,
    arrival: nat,
) -> bool {
    &&& op matches EngineOp::Packet { config, .. }
    &&& x.content == buffer.take(received as int)
    &&& arrival + config.ping_nanos <= x.release_time <= arrival + config.ping_nanos
        + config.jitter_nanos
}

/// From the socket to the forwarder: a datagram that does not fill the
/// receive buffer, that is within the size limit and that its loss draw
/// spares becomes a packet which the engine hands on with exactly the
/// bytes received, released no earlier than its arrival plus the ping and
/// no later than that plus the jitter bound, at the first drain at or after
/// its release time that follows, at the latest.
pub proof fn lemma_datagram_is_forwarded_unmodified(
    buffer: Seq<u8>,
    received: nat,
    arrival: nat,
    e: EngineView,
    ops: Seq<EngineOp>,
    i: int,
    k: int,
)
    requires
        sorted(e.pending),
        0 <= i < k < ops.len(),
        datagram_goes_through(ops[i], buffer, received, arrival),
        drains_at_or_after(ops[k], delayed_by(ops[i])),
    ensures
        engine_released(e, ops).contains(delayed_by(ops[i])),
        unmodified_in_window(ops[i], delayed_by(ops[i]), buffer, received, arrival),
{
    lemma_kept_packet_is_released(e, ops, i, k, delayed_by(ops[i]));
}

/// Total loss: at a loss probability of one every packet is dropped,
/// whatever is drawn below the scale, and leaves the engine as it was.
pub proof fn lemma_total_loss_drops_all(
    e: EngineView,
    p: PacketView,
    c: ManglerConfig,
    loss_draw: nat,
    jitter_draw: nat,
)
    requires
        c.loss_ppb == LOSS_SCALE,
        loss_draw < LOSS_SCALE,
    ensures
        spec_mangle(p, c, loss_draw, jitter_draw) is None,
        spec_accept(e, p, c, loss_draw, jitter_draw) == e,
{
}

/// Total loss over a run: an engine that started empty and meets a loss
/// probability of one with every packet hands nothing on.
pub proof fn lemma_total_loss_releases_nothing(then: nat, ops: Seq<EngineOp>)
    requires
        forall|k: int| 0 <= k < ops.len() ==> meets_total_loss(#[trigger] ops[k]),
    ensures
        engine_released(spec_new(then), ops).len() == 0,
{
    let released = engine_released(spec_new(then), ops);
    if released.len() > 0 {
        let x = released[0];
        lemma_released_passed_policy(spec_new(then), ops, x);
        let k = choose|k: int| 0 <= k < ops.len() && kept_as(#[trigger] ops[k], x);
        assert(meets_total_loss(ops[k]));
    }
}

/// Release window: a packet that is kept is released no earlier than its
/// arrival plus the ping and no later than that plus the jitter bound, with
/// its payload unchanged.
pub proof fn lemma_release_window(
    p: PacketView,
    c: ManglerConfig,
    loss_draw: nat,
    jitter_draw: nat,
)
    requires
        jitter_draw <= c.jitter_nanos,
        spec_mangle(p, c, loss_draw, jitter_draw) is Some,
    ensures
        spec_mangle(p, c, loss_draw, jitter_draw) matches Some(m) && m.content == p.content
            && p.release_time + c.ping_nanos <= m.release_time <= p.release_time + c.ping_nanos
            + c.jitter_nanos,
{
}

/// `m` has the payload of `p` and a release time inside the window that
/// the configuration gives `p`.
pub open spec fn in_window(m: PacketView, p: PacketView, c: ManglerConfig) -> bool {
    &&& m.content == p.content
    &&& p.release_time + c.ping_nanos <= m.release_time <= p.release_time + c.ping_nanos
        + c.jitter_nanos
}

/// Whatever is drawn for a packet, the engine either stays as it was or
/// gains that packet, payload unchanged, with a release time inside its
/// window. It stays as it was if the packet is too large or the loss
/// probability is one, and gains the packet if the packet is within the
/// limit and the loss probability is zero.
pub proof fn lemma_handled_packet(
    before: EngineView,
    after: EngineView,
    p: PacketView,
    c: ManglerConfig,
)
    requires
        spec_handled(before, after, p, c),
    ensures
        after == before || exists|m: PacketView|
            in_window(m, p, c) && after == #[trigger] spec_schedule(before, m),
        spec_oversize(p, c) || c.loss_ppb == LOSS_SCALE ==> after == before,
        !spec_oversize(p, c) && c.loss_ppb == 0 ==> after.pending.len() == before.pending.len()
            + 1,
{
    let (loss_draw, jitter_draw) = choose|loss_draw: nat, jitter_draw: nat|
        loss_draw < LOSS_SCALE && jitter_draw <= c.jitter_nanos && after == #[trigger] spec_accept(
            before,
            p,
            c,
            loss_draw,
            jitter_draw,
        );
    if let Some(m) = spec_mangle(p, c, loss_draw, jitter_draw) {
        assert(in_window(m, p, c));
        assert(after == spec_schedule(before, m));
        lemma_due_len_splits(before.pending, m.release_time);
    }
}

/// Settings are not applied in retrospect: when a packet is handled under
/// one configuration and the next under another, the first stays queued as
/// the first configuration scheduled it, and the second is queued as the
/// second configuration schedules it.
pub proof fn lemma_update_is_not_retroactive(
    e: EngineView,
    first: PacketView,
    before: ManglerConfig,
    first_loss: nat,
    first_jitter: nat,
    second: PacketView,
    after: ManglerConfig,
    second_loss: nat,
    second_jitter: nat,
)
    ensures
        ({
            let mid = spec_accept(e, first, before, first_loss, first_jitter);
            let end = spec_accept(mid, second, after, second_loss, second_jitter);
            &&& forall|x: PacketView| e.pending.contains(x) ==> end.pending.contains(x)
            &&& spec_mangle(first, before, first_loss, first_jitter) matches Some(m)
                ==> end.pending.contains(m)
            &&& spec_mangle(second, after, second_loss, second_jitter) matches Some(m)
                ==> end.pending.contains(m)
        }),
{
    let mid = spec_accept(e, first, before, first_loss, first_jitter);
    if let Some(m) = spec_mangle(first, before, first_loss, first_jitter) {
        lemma_insert_contains(e.pending, m);
    }
    if let Some(m) = spec_mangle(second, after, second_loss, second_jitter) {
        lemma_insert_contains(mid.pending, m);
    }
}

/// Idle wait: with nothing scheduled since the engine was created or last
/// timed out at `then`, it never waits longer than one poll interval.
pub proof fn lemma_idle_wait_is_bounded(e: EngineView, then: nat, now: nat)
    requires
        now >= then,
    ensures
        spec_wait_bound(spec_new(then), now) <= DEFAULT_POLL_INTERVAL_NANOS,
        spec_wait_bound(spec_timeout(e, then), now) <= DEFAULT_POLL_INTERVAL_NANOS,
{
}

/// Bounded wait: an engine whose wake-up lies no more than one poll
/// interval ahead waits no longer than one poll interval for input, and an
/// engine with a packet scheduled waits no longer than until the earliest
/// release.
pub proof fn lemma_wait_is_bounded(e: EngineView, m: PacketView, now: nat)
    requires
        sorted(e.pending),
    ensures
        e.next_wake <= now + DEFAULT_POLL_INTERVAL_NANOS ==> spec_wait_bound(e, now)
            <= DEFAULT_POLL_INTERVAL_NANOS,
        now + spec_wait_bound(spec_schedule(e, m), now) <= if m.release_time > now {
            m.release_time
        } else {
            now
        },
{
    lemma_insert_sorted(e.pending, m);
    lemma_due_len_splits(e.pending, m.release_time);
}

} // verus!
