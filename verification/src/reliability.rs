//! Reliable delivery: reliable packets that were sent are kept until the
//! simulator acknowledges them, and resent, marked as such, when their
//! retransmission timeout expires, at most `MAX_RESEND_COUNT` times.
//!
//! Times are microseconds of a monotonic clock that the caller reads. The
//! retransmission timeout itself comes from the round-trip statistics,
//! which are kept in floating point by the caller.

use crate::buffers::{bytes_mut_as_slice, bytes_mut_contents, bytes_mut_len, bytes_mut_set};
use crate::header::MSG_RESENT;
use bytes::BytesMut;
use std::collections::HashMap;
use vstd::std_specs::iter::IteratorSpec;
use vstd::prelude::*;

verus! {

/// Minimum retransmission timeout: 250 ms, in microseconds.
pub const MIN_RTO: u64 = 250_000;

/// Maximum retransmission timeout: 3 s, in microseconds.
pub const MAX_RTO: u64 = 3_000_000;

/// Retransmission timeout before any round trip was measured: 1 s, in
/// microseconds.
pub const INITIAL_RTO: u64 = 1_000_000;

/// A packet that has been resent this many times is given up.
pub const MAX_RESEND_COUNT: u8 = 5;

/// `BytesMut::clone`: the `bytes` source copies the contents into a new
/// buffer.
pub assume_specification[ <BytesMut as Clone>::clone ](b: &BytesMut) -> (r: BytesMut)
    ensures
        bytes_mut_contents(r) == bytes_mut_contents(*b),
;

/// A packet awaiting acknowledgement.
#[derive(Clone)]
pub struct UnackedPacket {
    /// The serialized packet, ready to resend.
    pub data: BytesMut,
    /// The sequence number from its header.
    pub sequence: u32,
    /// When it was last sent.
    pub last_sent: u64,
    /// How many times it has been resent.
    pub resend_count: u8,
}

/// What an `UnackedPacket` holds, its bytes as a sequence.
pub struct UnackedPacketView {
    pub data: Seq<u8>,
    pub sequence: u32,
    pub last_sent: u64,
    pub resend_count: u8,
}

impl View for UnackedPacket {
    type V = UnackedPacketView;

    open spec fn view(&self) -> UnackedPacketView {
        UnackedPacketView {
            data: bytes_mut_contents(self.data),
            sequence: self.sequence,
            last_sent: self.last_sent,
            resend_count: self.resend_count,
        }
    }
}

/// Time since `since` at `now`, zero if `now` is earlier.
pub open spec fn spec_elapsed(now: u64, since: u64) -> int {
    if now >= since {
        now - since
    } else {
        0
    }
}

/// Whether `p` is due to be resent at `now` under timeout `rto`: it has
/// not used up its resends and the timeout has passed since it was sent.
pub open spec fn spec_due(p: UnackedPacket, now: u64, rto: u64) -> bool {
    p.resend_count < MAX_RESEND_COUNT && spec_elapsed(now, p.last_sent) >= rto
}

/// Packet bytes marked as resent: the `MSG_RESENT` flag set in the flags
/// byte, the first one, and every other byte as it was.
pub open spec fn spec_marked_resent(d: Seq<u8>) -> Seq<u8> {
    if d.len() > 0 {
        d.update(0, d[0] | MSG_RESENT)
    } else {
        d
    }
}

/// `p` after being resent at `now`: its bytes marked as resent, its count
/// raised by one, sent at `now`.
pub open spec fn spec_resent(p: UnackedPacket, now: u64) -> UnackedPacketView {
    UnackedPacketView {
        data: spec_marked_resent(p@.data),
        sequence: p.sequence,
        last_sent: now,
        resend_count: (p.resend_count + 1) as u8,
    }
}

/// Whether `k` is among the first `n` of `s`.
pub open spec fn spec_in_prefix(s: Seq<u32>, n: int, k: u32) -> bool {
    s.take(n).contains(k)
}

proof fn lemma_in_prefix_step(s: Seq<u32>, n: int, k: u32)
    requires
        0 <= n < s.len(),
    ensures
        spec_in_prefix(s, n + 1, k) <==> (spec_in_prefix(s, n, k) || s[n] == k),
{
    let t = s.take(n + 1);
    assert(t == s.take(n).push(s[n]));
    if t.contains(k) {
        let j = choose|j: int| 0 <= j < t.len() && t[j] == k;
        if j < n {
            assert(s.take(n)[j] == k);
        }
    }
    let u = s.take(n);
    if u.contains(k) {
        let j = choose|j: int| 0 <= j < u.len() && u[j] == k;
        assert(t[j] == k);
    }
    if s[n] == k {
        assert(t[n] == k);
    }
}

proof fn lemma_in_prefix_all(s: Seq<u32>, k: u32)
    ensures
        spec_in_prefix(s, s.len() as int, k) <==> s.contains(k),
{
    assert(s.take(s.len() as int) == s);
}

proof fn lemma_not_in_own_prefix(s: Seq<u32>, n: int)
    requires
        0 <= n < s.len(),
        s.no_duplicates(),
    ensures
        !spec_in_prefix(s, n, s[n]),
{
    let u = s.take(n);
    if u.contains(s[n]) {
        let j = choose|j: int| 0 <= j < u.len() && u[j] == s[n];
        assert(s[j] == s[n]);
    }
}

/// What the pending packet `p` becomes when the resends are collected at
/// `now` under `rto`: resent if due, unchanged otherwise.
pub open spec fn spec_after_resend(p: UnackedPacket, now: u64, rto: u64) -> UnackedPacketView {
    if spec_due(p, now, rto) {
        spec_resent(p, now)
    } else {
        p@
    }
}

/// Whether `n` is what the pending packets `m` become when the resends are
/// collected at `now` under `rto`: those resent `MAX_RESEND_COUNT` times
/// are given up, the others kept, resent if due.
pub open spec fn spec_collected(m: Map<u32, UnackedPacket>, n: Map<u32, UnackedPacket>, now: u64, rto: u64) -> bool {
    &&& forall|k: u32| #[trigger] n.contains_key(k) <==> (m.contains_key(k) && m[k].resend_count < MAX_RESEND_COUNT)
    &&& forall|k: u32| #[trigger] n.contains_key(k) ==> n[k]@ == spec_after_resend(m[k], now, rto)
}

/// Every packet in `m` has been resent at most `MAX_RESEND_COUNT` times.
pub open spec fn spec_counts_bounded(m: Map<u32, UnackedPacket>) -> bool {
    forall|k: u32| #[trigger] m.contains_key(k) ==> m[k].resend_count <= MAX_RESEND_COUNT
}

/// Law: recording a packet and then acknowledging it hands that packet
/// back and leaves nothing recorded under its number, whatever was there.
pub proof fn lemma_ack_after_add(pending: Map<u32, UnackedPacket>, sequence: u32, data: BytesMut, now: u64)
    ensures
        ({
            let p = UnackedPacket { data, sequence, last_sent: now, resend_count: 0 };
            let added = pending.insert(sequence, p);
            &&& added.contains_key(sequence)
            &&& added[sequence] == p
            &&& added.remove(sequence) == pending.remove(sequence)
        }),
{
    let p = UnackedPacket { data, sequence, last_sent: now, resend_count: 0 };
    assert(pending.insert(sequence, p).remove(sequence) =~= pending.remove(sequence));
}

/// Law: no packet is resent more than `MAX_RESEND_COUNT` times. Collecting
/// resends keeps every count within that bound, only ever raises a count
/// by one, and gives up a packet once its count has reached it.
pub proof fn lemma_resends_bounded(m: Map<u32, UnackedPacket>, n: Map<u32, UnackedPacket>, now: u64, rto: u64)
    requires
        spec_counts_bounded(m),
        spec_collected(m, n, now, rto),
    ensures
        spec_counts_bounded(n),
        forall|k: u32| #[trigger] n.contains_key(k) ==> {
            let c = n[k].resend_count;
            c == m[k].resend_count || c == m[k].resend_count + 1
        },
        forall|k: u32| #[trigger] m.contains_key(k) && m[k].resend_count == MAX_RESEND_COUNT ==> !n.contains_key(k),
{
    assert forall|k: u32| #[trigger] n.contains_key(k) implies n[k].resend_count <= MAX_RESEND_COUNT && (n[k].resend_count
        == m[k].resend_count || n[k].resend_count == m[k].resend_count + 1) by {
        assert(n[k]@ == spec_after_resend(m[k], now, rto));
    }
}

/// A copy of `p` with its own buffer.
fn copy_packet(p: &UnackedPacket) -> (r: UnackedPacket)
    ensures
        r@ == p@,
{
    UnackedPacket { data: p.data.clone(), sequence: p.sequence, last_sent: p.last_sent, resend_count: p.resend_count }
}

/// The keys of `packets`, each once.
fn pending_sequences(packets: &HashMap<u32, UnackedPacket>) -> (r: Vec<u32>)
    ensures
        r@.no_duplicates(),
        forall|k: u32| r@.contains(k) <==> packets@.contains_key(k),
{
    let ghost keys = vstd::std_specs::hash::spec_keys_iter(packets).remaining();
    let mut r: Vec<u32> = Vec::new();
    for k in it: packets.keys()
        invariant
            it.seq() == keys,
            r@.len() == it.index(),
            forall|j: int| 0 <= j < it.index() ==> r@[j] == *keys[j],
    {
        r.push(*k);
    }
    proof {
        assert(keys.no_duplicates());
        assert(keys.unref().to_set() == packets@.dom());
        assert forall|i: int, j: int| 0 <= i < r@.len() && 0 <= j < r@.len() && i != j implies r@[i] != r@[j] by {
            assert(keys[i] != keys[j]);
        }
        assert forall|k: u32| r@.contains(k) <==> packets@.contains_key(k) by {
            if r@.contains(k) {
                let j = choose|j: int| 0 <= j < r@.len() && r@[j] == k;
                assert(keys.unref()[j] == k);
                assert(keys.unref().to_set().contains(k));
            }
            if packets@.contains_key(k) {
                assert(keys.unref().to_set().contains(k));
                let j = choose|j: int| 0 <= j < keys.unref().len() && keys.unref()[j] == k;
                assert(r@[j] == k);
            }
        }
    }
    r
}

/// Tracks reliable packets that have been sent but not yet acknowledged.
pub struct NeedAcks {
    packets: HashMap<u32, UnackedPacket>,
}

impl NeedAcks {
    /// The packets awaiting acknowledgement, by sequence number.
    pub closed spec fn pending(&self) -> Map<u32, UnackedPacket> {
        self.packets@
    }

    /// Each packet is stored under its own sequence number.
    pub open spec fn wf(&self) -> bool {
        forall|k: u32| #[trigger] self.pending().contains_key(k) ==> self.pending()[k].sequence == k
    }

    /// Nothing awaits acknowledgement.
    pub fn new() -> (r: Self)
        ensures
            r.wf(),
            r.pending() == Map::<u32, UnackedPacket>::empty(),
    {
        NeedAcks { packets: HashMap::new() }
    }

    /// Records a reliable packet sent at `now`; one recorded under the
    /// same sequence number before is replaced.
    pub fn add(&mut self, sequence: u32, data: BytesMut, now: u64)
        requires
            old(self).wf(),
        ensures
            final(self).wf(),
            final(self).pending() == old(self).pending().insert(
                sequence,
                UnackedPacket { data, sequence, last_sent: now, resend_count: 0 },
            ),
    {
        self.packets.insert(sequence, UnackedPacket { data, sequence, last_sent: now, resend_count: 0 });
        assert forall|k: u32| #[trigger] self.pending().contains_key(k) implies self.pending()[k].sequence == k by {
            if k != sequence {
                assert(old(self).pending().contains_key(k));
            }
        }
    }

    /// Removes the packet acknowledged by `sequence` and hands it back, or
    /// `None` when none awaits that acknowledgement.
    pub fn ack(&mut self, sequence: u32) -> (r: Option<UnackedPacket>)
        requires
            old(self).wf(),
        ensures
            final(self).wf(),
            final(self).pending() == old(self).pending().remove(sequence),
            r == (if old(self).pending().contains_key(sequence) {
                Some(old(self).pending()[sequence])
            } else {
                None::<UnackedPacket>
            }),
    {
        let r = self.packets.remove(&sequence);
        assert forall|k: u32| #[trigger] self.pending().contains_key(k) implies self.pending()[k].sequence == k by {
            assert(old(self).pending().contains_key(k));
        }
        r
    }

    /// Acknowledges every sequence number in `sequences`.
    pub fn ack_many(&mut self, sequences: &[u32])
        requires
            old(self).wf(),
        ensures
            final(self).wf(),
            final(self).pending() == old(self).pending().remove_keys(sequences@.to_set()),
    {
        let mut i: usize = 0;
        while i < sequences.len()
            invariant
                i <= sequences.len(),
                self.wf(),
                self.pending() == old(self).pending().remove_keys(sequences@.take(i as int).to_set()),
            decreases sequences.len() - i,
        {
            self.ack(sequences[i]);
            proof {
                let prefix = sequences@.take(i as int);
                assert(sequences@.take(i + 1) == prefix.push(sequences@[i as int]));
                assert(prefix.push(sequences@[i as int]).to_set() == prefix.to_set().insert(sequences@[i as int])) by {
                    assert forall|x: u32| prefix.push(sequences@[i as int]).to_set().contains(x) <==> prefix.to_set().insert(sequences@[i as int]).contains(x) by {
                        if prefix.push(sequences@[i as int]).contains(x) {
                            let j = choose|j: int| 0 <= j < prefix.len() + 1 && prefix.push(sequences@[i as int])[j] == x;
                            if j < prefix.len() {
                                assert(prefix[j] == x);
                            }
                        }
                        if prefix.contains(x) {
                            let j = choose|j: int| 0 <= j < prefix.len() && prefix[j] == x;
                            assert(prefix.push(sequences@[i as int])[j] == x);
                        }
                        if x == sequences@[i as int] {
                            assert(prefix.push(sequences@[i as int])[prefix.len() as int] == x);
                        }
                    }
                }
                assert(self.pending() =~= old(self).pending().remove_keys(sequences@.take(i + 1).to_set()));
            }
            i = i + 1;
        }
        assert(sequences@.take(sequences.len() as int) == sequences@);
    }

    /// Collects the packets due to be resent at `now` under the timeout
    /// `rto`, each as resent (its bytes marked with `MSG_RESENT`, its count
    /// raised by one, sent at `now`), and keeps tracking them so; gives up the packets that were already
    /// resent `MAX_RESEND_COUNT` times. The order of the result is not
    /// fixed.
    pub fn get_resends(&mut self, now: u64, rto: u64) -> (r: Vec<UnackedPacket>)
        requires
            old(self).wf(),
        ensures
            final(self).wf(),
            spec_collected(old(self).pending(), final(self).pending(), now, rto),
            forall|i: int| 0 <= i < r@.len() ==> {
                &&& old(self).pending().contains_key(#[trigger] r@[i].sequence)
                &&& spec_due(old(self).pending()[r@[i].sequence], now, rto)
                &&& r@[i]@ == spec_resent(old(self).pending()[r@[i].sequence], now)
            },
            forall|i: int, j: int| 0 <= i < j < r@.len() ==> r@[i].sequence != r@[j].sequence,
            forall|k: u32| #[trigger] old(self).pending().contains_key(k) && spec_due(old(self).pending()[k], now, rto)
                ==> exists|i: int| 0 <= i < r@.len() && r@[i].sequence == k,
    {
        let keys = pending_sequences(&self.packets);
        let ghost old_map = self.packets@;
        let mut resends: Vec<UnackedPacket> = Vec::new();
        let mut i: usize = 0;
        while i < keys.len()
            invariant
                i <= keys.len(),
                keys@.no_duplicates(),
                forall|k: u32| keys@.contains(k) <==> old_map.contains_key(k),
                old_map == old(self).pending(),
                forall|k: u32| #[trigger] old_map.contains_key(k) ==> old_map[k].sequence == k,
                forall|k: u32| #[trigger] self.packets@.contains_key(k) ==> self.packets@[k].sequence == k,
                forall|k: u32| !old_map.contains_key(k) ==> !#[trigger] self.packets@.contains_key(k),
                forall|k: u32| #[trigger] old_map.contains_key(k) && !spec_in_prefix(keys@, i as int, k)
                    ==> self.packets@.contains_key(k) && self.packets@[k] == old_map[k],
                forall|k: u32| #[trigger] old_map.contains_key(k) && spec_in_prefix(keys@, i as int, k) ==> {
                    &&& (self.packets@.contains_key(k) <==> old_map[k].resend_count < MAX_RESEND_COUNT)
                    &&& self.packets@.contains_key(k) ==> self.packets@[k]@ == spec_after_resend(old_map[k], now, rto)
                },
                forall|j: int| 0 <= j < resends@.len() ==> {
                    &&& old_map.contains_key(#[trigger] resends@[j].sequence)
                    &&& spec_in_prefix(keys@, i as int, resends@[j].sequence)
                    &&& spec_due(old_map[resends@[j].sequence], now, rto)
                    &&& resends@[j]@ == spec_resent(old_map[resends@[j].sequence], now)
                },
                forall|a: int, b: int| 0 <= a < b < resends@.len() ==> resends@[a].sequence != resends@[b].sequence,
                forall|k: u32| #[trigger] old_map.contains_key(k) && spec_in_prefix(keys@, i as int, k)
                    && spec_due(old_map[k], now, rto) ==> exists|j: int| 0 <= j < resends@.len() && resends@[j].sequence == k,
            decreases keys.len() - i,
        {
            let k = keys[i];
            proof {
                assert(keys@.contains(k));
                lemma_not_in_own_prefix(keys@, i as int);
                assert forall|x: u32| #![trigger spec_in_prefix(keys@, i + 1, x)] true implies (spec_in_prefix(keys@, i + 1, x) <==> (spec_in_prefix(keys@, i as int, x) || x == k)) by {
                    lemma_in_prefix_step(keys@, i as int, x);
                }
            }
            let ghost before = self.packets@;
            let ghost resends_before = resends@;
            match self.packets.remove(&k) {
                Some(p) => {
                    if p.resend_count >= MAX_RESEND_COUNT {
                    } else {
                        let elapsed: u64 = if now >= p.last_sent { now - p.last_sent } else { 0 };
                        if elapsed >= rto {
                            let mut data = p.data;
                            if bytes_mut_len(&data) > 0 {
                                let flags = bytes_mut_as_slice(&data)[0];
                                bytes_mut_set(&mut data, 0, flags | MSG_RESENT);
                            }
                            let q = UnackedPacket {
                                data,
                                sequence: p.sequence,
                                last_sent: now,
                                resend_count: p.resend_count + 1,
                            };
                            resends.push(copy_packet(&q));
                            self.packets.insert(k, q);
                        } else {
                            self.packets.insert(k, p);
                        }
                    }
                },
                None => {},
            }
            proof {
                assert forall|j: int| 0 <= j < resends_before.len() implies resends@[j] == resends_before[j] by {}
                assert forall|x: u32| #[trigger] old_map.contains_key(x) && spec_in_prefix(keys@, i + 1, x)
                    && spec_due(old_map[x], now, rto) implies exists|j: int| 0 <= j < resends@.len() && resends@[j].sequence == x by {
                    if x != k {
                        assert(spec_in_prefix(keys@, i as int, x));
                        let j = choose|j: int| 0 <= j < resends_before.len() && resends_before[j].sequence == x;
                        assert(resends@[j].sequence == x);
                    } else {
                        assert(resends@[resends@.len() - 1].sequence == x);
                    }
                }
            }
            i = i + 1;
        }
        proof {
            assert forall|k: u32| #[trigger] old_map.contains_key(k) implies spec_in_prefix(keys@, keys@.len() as int, k) by {
                lemma_in_prefix_all(keys@, k);
            }
            assert(spec_collected(old_map, self.pending(), now, rto));
        }
        resends
    }

    /// Number of packets awaiting acknowledgement.
    pub fn len(&self) -> (r: usize)
        ensures
            r == self.pending().len(),
    {
        self.packets.len()
    }

    /// Whether no packet awaits acknowledgement.
    pub fn is_empty(&self) -> (r: bool)
        ensures
            r == (self.pending() == Map::<u32, UnackedPacket>::empty()),
    {
        let r = self.packets.is_empty();
        proof {
            if r {
                assert(self.pending() =~= Map::<u32, UnackedPacket>::empty());
            } else {
                assert(!self.pending().dom().is_empty());
                let k = choose|k: u32| self.pending().dom().contains(k);
                assert(!Map::<u32, UnackedPacket>::empty().contains_key(k));
            }
        }
        r
    }
}

} // verus!
