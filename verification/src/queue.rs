//! The release queue: pending packets ordered by ascending release time.
//!
//! Entries with equal release times are all retained; among them the one
//! that entered first leaves first.
//!
//! The queue is a deque kept in order, not an ordered set or map. Equal
//! release times then need no second key to stay apart, and where a packet
//! is placed and which packet leaves next is proved here.

use crate::packet::{Packet, PacketView};
use std::collections::VecDeque;
use vstd::prelude::*;

verus! {

/// The models of a sequence of packets, entry by entry.
pub open spec fn views(s: Seq<Packet>) -> Seq<PacketView> {
    s.map_values(|p: Packet| p@)
}

/// `s` is ordered by ascending release time.
pub open spec fn sorted(s: Seq<PacketView>) -> bool {
    forall|i: int, j: int| 0 <= i <= j < s.len() ==> s[i].release_time <= s[j].release_time
}

/// Length of the longest prefix of `s` whose entries are all due at `now`.
pub open spec fn due_len(s: Seq<PacketView>, now: nat) -> nat
    decreases s.len(),
{
    if s.len() == 0 || s[0].release_time > now {
        0
    } else {
        1 + due_len(s.drop_first(), now)
    }
}

/// The entries of `s` that a drain at `now` releases, in release order.
pub open spec fn due(s: Seq<PacketView>, now: nat) -> Seq<PacketView> {
    s.take(due_len(s, now) as int)
}

/// The entries of `s` that a drain at `now` leaves behind.
pub open spec fn not_due(s: Seq<PacketView>, now: nat) -> Seq<PacketView> {
    s.skip(due_len(s, now) as int)
}

/// `s` with `p` placed behind every entry that is released no later than `p`.
pub open spec fn spec_insert(s: Seq<PacketView>, p: PacketView) -> Seq<PacketView> {
    s.insert(due_len(s, p.release_time) as int, p)
}

/// A position that separates due entries from a first not-due entry is the
/// length of the due prefix.
pub proof fn lemma_due_len_is(s: Seq<PacketView>, now: nat, k: int)
    requires
        0 <= k <= s.len(),
        forall|i: int| 0 <= i < k ==> s[i].release_time <= now,
        k < s.len() ==> s[k].release_time > now,
    ensures
        due_len(s, now) == k,
    decreases s.len(),
{
    if k > 0 {
        let t = s.drop_first();
        assert forall|i: int| 0 <= i < k - 1 implies t[i].release_time <= now by {
            assert(t[i] == s[i + 1]);
        }
        if k - 1 < t.len() {
            assert(t[k - 1] == s[k]);
        }
        lemma_due_len_is(t, now, k - 1);
    }
}

/// Every entry of the due prefix is due, and the entry behind it is not.
pub proof fn lemma_due_len_splits(s: Seq<PacketView>, now: nat)
    ensures
        due_len(s, now) <= s.len(),
        forall|i: int| 0 <= i < due_len(s, now) ==> s[i].release_time <= now,
        due_len(s, now) < s.len() ==> s[due_len(s, now) as int].release_time > now,
    decreases s.len(),
{
    if s.len() != 0 && s[0].release_time <= now {
        let t = s.drop_first();
        lemma_due_len_splits(t, now);
        assert forall|i: int| 0 <= i < due_len(s, now) implies s[i].release_time <= now by {
            if i > 0 {
                assert(s[i] == t[i - 1]);
            }
        }
        if due_len(s, now) < s.len() {
            assert(s[due_len(s, now) as int] == t[due_len(t, now) as int]);
        }
    }
}

/// In an ordered sequence nothing behind the due prefix is due.
pub proof fn lemma_sorted_rest_not_due(s: Seq<PacketView>, now: nat)
    requires
        sorted(s),
    ensures
        forall|i: int| due_len(s, now) <= i < s.len() ==> s[i].release_time > now,
{
    lemma_due_len_splits(s, now);
}

/// Placing a packet behind the entries released no later than it keeps the
/// order, and grows the sequence by exactly that packet.
pub proof fn lemma_insert_sorted(s: Seq<PacketView>, p: PacketView)
    requires
        sorted(s),
    ensures
        sorted(spec_insert(s, p)),
        spec_insert(s, p).len() == s.len() + 1,
        spec_insert(s, p)[due_len(s, p.release_time) as int] == p,
{
    let k = due_len(s, p.release_time) as int;
    lemma_due_len_splits(s, p.release_time);
    lemma_sorted_rest_not_due(s, p.release_time);
    let r = spec_insert(s, p);
    assert forall|i: int, j: int| 0 <= i <= j < r.len() implies r[i].release_time
        <= r[j].release_time by {
        if i < k {
            assert(r[i] == s[i]);
        } else if i > k {
            assert(r[i] == s[i - 1]);
        }
        if j < k {
            assert(r[j] == s[j]);
        } else if j > k {
            assert(r[j] == s[j - 1]);
        }
    }
}

/// Pending packets in release order.
#[derive(Debug)]
pub struct ReleaseQueue {
    items: VecDeque<Packet>,
}

impl View for ReleaseQueue {
    type V = Seq<PacketView>;

    closed spec fn view(&self) -> Seq<PacketView> {
        views(self.items@)
    }
}

impl ReleaseQueue {
    /// The queue holds its entries in ascending order of release time.
    pub open spec fn wf(&self) -> bool {
        sorted(self@)
    }

    /// An empty queue.
    pub fn new() -> (q: ReleaseQueue)
        ensures
            q.wf(),
            q@ == Seq::<PacketView>::empty(),
    {
        ReleaseQueue { items: VecDeque::new() }
    }

    /// Number of pending packets.
    pub fn len(&self) -> (n: usize)
        ensures
            n == self@.len(),
    {
        self.items.len()
    }

    /// Whether no packet is pending.
    pub fn is_empty(&self) -> (b: bool)
        ensures
            b == (self@.len() == 0),
    {
        self.items.len() == 0
    }

    /// Release time of the packet that leaves next, if any is pending.
    pub fn earliest_release_time(&self) -> (t: Option<u64>)
        ensures
            match t {
                Some(t) => self@.len() > 0 && t == self@[0].release_time,
                None => self@.len() == 0,
            },
    {
        if self.items.len() > 0 {
            Some(self.items[0].release_time)
        } else {
            None
        }
    }

    /// Number of pending packets released no later than `time`.
    pub fn position_after(&self, time: u64) -> (k: usize)
        requires
            self.wf(),
        ensures
            k == due_len(self@, time as nat),
    {
        let mut lo: usize = 0;
        let mut hi: usize = self.items.len();
        while lo < hi
            invariant
                lo <= hi <= self@.len(),
                self@.len() == self.items@.len(),
                self.wf(),
                forall|i: int| 0 <= i < lo ==> self@[i].release_time <= time,
                forall|i: int| hi <= i < self@.len() ==> self@[i].release_time > time,
            decreases hi - lo,
        {
            let mid: usize = lo + (hi - lo) / 2;
            assert(self@[mid as int] == self.items@[mid as int]@);
            if self.items[mid].release_time <= time {
                lo = mid + 1;
            } else {
                hi = mid;
            }
        }
        proof {
            lemma_due_len_is(self@, time as nat, lo as int);
        }
        lo
    }

    /// Adds a packet behind every pending packet released no later than it.
    pub fn insert(&mut self, packet: Packet)
        requires
            old(self).wf(),
        ensures
            final(self).wf(),
            final(self)@ == spec_insert(old(self)@, packet@),
    {
        let k = self.position_after(packet.release_time);
        proof {
            lemma_insert_sorted(self@, packet@);
            lemma_due_len_splits(self@, packet.release_time as nat);
        }
        let ghost before = self.items@;
        self.items.insert(k, packet);
        assert(views(before.insert(k as int, packet)) =~= views(before).insert(k as int, packet@));
    }

    /// Removes and returns the earliest packet if it is due at `now`.
    pub fn pop_due(&mut self, now: u64) -> (r: Option<Packet>)
        requires
            old(self).wf(),
        ensures
            final(self).wf(),
            match r {
                Some(p) => {
                    &&& old(self)@.len() > 0
                    &&& old(self)@[0].release_time <= now
                    &&& p@ == old(self)@[0]
                    &&& final(self)@ == old(self)@.drop_first()
                },
                None => {
                    &&& old(self)@.len() == 0 || old(self)@[0].release_time > now
                    &&& final(self)@ == old(self)@
                },
            },
    {
        if self.items.len() > 0 && self.items[0].release_time <= now {
            let ghost before = self.items@;
            let r = self.items.pop_front();
            assert(views(before.subrange(1, before.len() as int)) =~= views(before).drop_first());
            r
        } else {
            None
        }
    }

    /// Removes every packet that is due at `now` and returns them in release
    /// order.
    pub fn release_due(&mut self, now: u64) -> (out: Vec<Packet>)
        requires
            old(self).wf(),
        ensures
            final(self).wf(),
            views(out@) == due(old(self)@, now as nat),
            final(self)@ == not_due(old(self)@, now as nat),
            sorted(views(out@)),
            forall|i: int| 0 <= i < out@.len() ==> out@[i].release_time <= now,
            forall|i: int| 0 <= i < final(self)@.len() ==> final(self)@[i].release_time > now,
    {
        let mut out: Vec<Packet> = Vec::new();
        let ghost start = self@;
        loop
            invariant
                self.wf(),
                sorted(start),
                views(out@) + self@ == start,
                forall|i: int| 0 <= i < out@.len() ==> out@[i].release_time <= now,
            ensures
                self.wf(),
                views(out@) + self@ == start,
                forall|i: int| 0 <= i < out@.len() ==> out@[i].release_time <= now,
                self@.len() == 0 || self@[0].release_time > now,
            decreases self@.len(),
        {
            let ghost queue_before = self@;
            let ghost out_before = views(out@);
            match self.pop_due(now) {
                Some(packet) => {
                    out.push(packet);
                    assert(views(out@) =~= out_before.push(packet@));
                    assert(views(out@) + self@ =~= out_before + queue_before);
                },
                None => {
                    break ;
                },
            }
        }
        proof {
            let k = out@.len() as int;
            assert(views(out@).len() == k);
            assert forall|i: int| 0 <= i < k implies start[i].release_time <= now by {
                assert(start[i] == views(out@)[i]);
            }
            if k < start.len() {
                assert(start[k] == self@[0]);
            }
            lemma_due_len_is(start, now as nat, k);
            assert(views(out@) =~= start.take(k));
            assert(self@ =~= start.skip(k));
            lemma_sorted_rest_not_due(start, now as nat);
        }
        out
    }
}

} // verus!
