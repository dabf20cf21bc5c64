//! The reliability and delivery layer. A shipper owns one connection's
//! sending state: it tags each reliable message with a monotonically
//! increasing identifier, keeps the framed bytes until the matching
//! acknowledgment arrives, and hands them back for retransmission. A sorter
//! owns the receiving side: it acknowledges every reliable datagram but
//! suppresses redelivery of an identifier already handed to the application.

use vstd::prelude::*;
use crate::codec::{build_packet, spec_encode, wf_packet};
use crate::packet::ServerPacket;
use crate::wire::{enc_u64, le_bytes, write_u64, write_u8};

verus! {

/// The wire form of a reliable datagram: the reliability class byte, the
/// 64-bit identifier, then the message bytes.
pub open spec fn reliable_frame(id: u64, body: Seq<u8>) -> Seq<u8> {
    seq![1u8] + enc_u64(id) + body
}

pub struct PacketShipper {
    next_id: u64,
    backed_up: Vec<(u64, Vec<u8>)>,
}

impl PacketShipper {
    /// The identifier the next reliable send will use.
    pub closed spec fn spec_next_id(self) -> u64 {
        self.next_id
    }

    /// The unacknowledged datagrams, oldest first.
    pub closed spec fn pending(self) -> Seq<(u64, Vec<u8>)> {
        self.backed_up@
    }

    /// Pending identifiers are strictly increasing and below the next one,
    /// so no identifier is ever pending twice.
    pub closed spec fn wf(self) -> bool {
        &&& forall|i: int, j: int|
            0 <= i < j < self.backed_up@.len() ==> (#[trigger] self.backed_up@[i].0) < (
            #[trigger] self.backed_up@[j].0)
        &&& forall|i: int|
            0 <= i < self.backed_up@.len() ==> (#[trigger] self.backed_up@[i].0) < self.next_id
    }

    pub fn new() -> (r: PacketShipper)
        ensures
            r.wf(),
            r.spec_next_id() == 0,
            r.pending() == Seq::<(u64, Vec<u8>)>::empty(),
    {
        PacketShipper { next_id: 0, backed_up: Vec::new() }
    }

    /// Frame `packet` reliably under the next identifier and retain it until
    /// acknowledged. The returned datagram is what goes on the wire.
    pub fn send_reliable(&mut self, packet: &ServerPacket) -> (datagram: Vec<u8>)
        requires
            old(self).wf(),
            wf_packet(packet@),
            old(self).spec_next_id() < u64::MAX,
        ensures
            final(self).wf(),
            datagram@ == reliable_frame(old(self).spec_next_id(), spec_encode(packet@)),
            final(self).spec_next_id() == old(self).spec_next_id() + 1,
            final(self).pending().len() == old(self).pending().len() + 1,
            forall|i: int|
                0 <= i < old(self).pending().len() ==> (#[trigger] final(self).pending()[i])
                    == old(self).pending()[i],
            final(self).pending().last().0 == old(self).spec_next_id(),
            final(self).pending().last().1@ == datagram@,
    {
        let mut datagram: Vec<u8> = Vec::new();
        write_u8(&mut datagram, 1);
        proof {
            assert(le_bytes(1nat, 1) == seq![(1nat % 256) as u8] + le_bytes(1nat / 256, 0));
            assert(datagram@ =~= seq![1u8]);
        }
        write_u64(&mut datagram, self.next_id);
        let body = build_packet(packet);
        datagram.extend_from_slice(body.as_slice());
        proof {
            assert(datagram@ =~= reliable_frame(self.next_id, spec_encode(packet@)));
        }
        let copy = datagram.clone();
        proof {
            assert(copy@ == datagram@);
        }
        self.backed_up.push((self.next_id, copy));
        self.next_id = self.next_id + 1;
        datagram
    }

    /// Retire the pending datagram with this identifier, if any; an
    /// acknowledgment for an unknown or already retired identifier is
    /// harmless.
    pub fn acknowledged(&mut self, id: u64) -> (was_pending: bool)
        requires
            old(self).wf(),
        ensures
            final(self).wf(),
            final(self).spec_next_id() == old(self).spec_next_id(),
            forall|i: int|
                0 <= i < final(self).pending().len() ==> (#[trigger] final(self).pending()[i].0)
                    != id,
            was_pending == exists|i: int|
                0 <= i < old(self).pending().len() && (#[trigger] old(self).pending()[i].0) == id,
            was_pending ==> ({
                let j = choose|j: int|
                    0 <= j < old(self).pending().len() && (#[trigger] old(self).pending()[j].0)
                        == id;
                final(self).pending() == old(self).pending().remove(j)
            }),
            !was_pending ==> final(self).pending() == old(self).pending(),
    {
        let ghost s = self.backed_up@;
        let mut i: usize = 0;
        while i < self.backed_up.len()
            invariant
                s == self.backed_up@,
                old(self).wf(),
                s == old(self).backed_up@,
                self.next_id == old(self).next_id,
                i <= s.len(),
                forall|j: int| 0 <= j < i ==> (#[trigger] s[j].0) != id,
            decreases s.len() - i,
        {
            if self.backed_up[i].0 == id {
                self.backed_up.remove(i);
                proof {
                    let t = self.backed_up@;
                    assert(t =~= s.remove(i as int));
                    assert(s[i as int].0 == id);
                    assert forall|a: int| 0 <= a < t.len() implies (#[trigger] t[a]) == (if a
                        < i {
                        s[a]
                    } else {
                        s[a + 1]
                    }) by {
                        assert(t == s.remove(i as int));
                    }
                    assert forall|a: int, b: int| 0 <= a < b < t.len() implies (
                    #[trigger] t[a].0) < (#[trigger] t[b].0) by {
                        let a2 = if a < i {
                            a
                        } else {
                            a + 1
                        };
                        let b2 = if b < i {
                            b
                        } else {
                            b + 1
                        };
                        assert(t[a] == s[a2] && t[b] == s[b2]);
                        assert(s[a2].0 < s[b2].0);
                    }
                    assert forall|a: int| 0 <= a < t.len() implies (#[trigger] t[a].0) != id
                        && t[a].0 < self.next_id by {
                        if a < i {
                            assert(t[a] == s[a]);
                            assert(s[a].0 != id);
                        } else {
                            assert(t[a] == s[a + 1]);
                            assert(s[i as int].0 < s[a + 1].0);
                        }
                    }
                    assert(old(self).pending()[i as int].0 == id);
                    let j = choose|j: int|
                        0 <= j < old(self).pending().len() && (#[trigger] old(
                            self,
                        ).pending()[j].0) == id;
                    assert(j == i) by {
                        if j < i {
                            assert(s[j].0 != id);
                        }
                        if j > i {
                            assert(s[i as int].0 < s[j].0);
                        }
                    };
                    assert(final(self).pending() =~= old(self).pending().remove(j));
                }
                return true;
            }
            i = i + 1;
        }
        false
    }

    /// The retained datagrams, for retransmission until acknowledged.
    pub fn backed_up_packets(&self) -> (r: &Vec<(u64, Vec<u8>)>)
        ensures
            r@ == self.pending(),
    {
        &self.backed_up
    }
}

/// The receiving side's duplicate filter.
pub struct PacketSorter {
    received_ids: Vec<u64>,
}

impl PacketSorter {
    /// The identifiers already handed to the application.
    pub closed spec fn seen(self) -> Set<u64> {
        Set::new(|id: u64| exists|j: int| 0 <= j < self.received_ids@.len() && (#[trigger] self.received_ids@[j]) == id)
    }

    pub fn new() -> (r: PacketSorter)
        ensures
            r.seen() == Set::<u64>::empty(),
    {
        let r = PacketSorter { received_ids: Vec::new() };
        proof {
            assert(r.seen() =~= Set::<u64>::empty());
        }
        r
    }

    /// Handle one inbound reliable identifier: the caller acknowledges it in
    /// every case, and delivers the message to the application exactly when
    /// this returns true, so a retransmitted duplicate is acknowledged again
    /// but never redelivered.
    pub fn receive_reliable(&mut self, id: u64) -> (deliver: bool)
        ensures
            deliver == !old(self).seen().contains(id),
            final(self).seen() == old(self).seen().insert(id),
    {
        let ghost s = self.received_ids@;
        let mut i: usize = 0;
        while i < self.received_ids.len()
            invariant
                s == self.received_ids@,
                i <= s.len(),
                forall|j: int| 0 <= j < i ==> (#[trigger] s[j]) != id,
            decreases s.len() - i,
        {
            if self.received_ids[i] == id {
                proof {
                    assert(old(self).seen().contains(id));
                    assert(final(self).seen() =~= old(self).seen().insert(id));
                }
                return false;
            }
            i = i + 1;
        }
        proof {
            assert(!old(self).seen().contains(id));
        }
        self.received_ids.push(id);
        proof {
            assert forall|x: u64| final(self).seen().contains(x) implies old(self).seen().insert(id).contains(x) by {
                let j = choose|j: int|
                    0 <= j < self.received_ids@.len() && (#[trigger] self.received_ids@[j]) == x;
                if j < s.len() {
                    assert(s[j] == x);
                }
            }
            assert forall|x: u64| old(self).seen().insert(id).contains(x) implies final(self).seen().contains(x) by {
                if x == id {
                    assert(self.received_ids@[s.len() as int] == x);
                } else {
                    let j = choose|j: int| 0 <= j < s.len() && (#[trigger] s[j]) == x;
                    assert(self.received_ids@[j] == x);
                }
            }
            assert(final(self).seen() =~= old(self).seen().insert(id));
        }
        true
    }
}

/// What a run of the duplicate filter delivers: fold `receive_reliable` over
/// the identifiers of an inbound datagram sequence, collecting those handed
/// to the application.
pub open spec fn deliveries(seen: Set<u64>, ids: Seq<u64>) -> Seq<u64>
    decreases ids.len(),
{
    if ids.len() == 0 {
        Seq::empty()
    } else {
        if seen.contains(ids[0]) {
            deliveries(seen, ids.drop_first())
        } else {
            seq![ids[0]] + deliveries(seen.insert(ids[0]), ids.drop_first())
        }
    }
}

pub open spec fn occurs(s: Seq<u64>, id: u64) -> bool {
    exists|j: int| 0 <= j < s.len() && (#[trigger] s[j]) == id
}

pub open spec fn occ_count(s: Seq<u64>, id: u64) -> nat
    decreases s.len(),
{
    if s.len() == 0 {
        0
    } else {
        (if s[0] == id {
            1nat
        } else {
            0nat
        }) + occ_count(s.drop_first(), id)
    }
}

proof fn lemma_occurs_unfold(s: Seq<u64>, id: u64)
    requires
        s.len() > 0,
    ensures
        occurs(s, id) <==> (s[0] == id || occurs(s.drop_first(), id)),
{
    if occurs(s, id) {
        let j = choose|j: int| 0 <= j < s.len() && (#[trigger] s[j]) == id;
        if j > 0 {
            assert(s.drop_first()[j - 1] == id);
        }
    }
    if s.len() > 0 && occurs(s.drop_first(), id) {
        let j = choose|j: int|
            0 <= j < s.drop_first().len() && (#[trigger] s.drop_first()[j]) == id;
        assert(s[j + 1] == id);
    }
}

proof fn lemma_occ_count_zero(s: Seq<u64>, id: u64)
    ensures
        occurs(s, id) <==> occ_count(s, id) > 0,
    decreases s.len(),
{
    if s.len() > 0 {
        lemma_occ_count_zero(s.drop_first(), id);
        lemma_occurs_unfold(s, id);
    }
}

/// Exactly-once delivery: over any inbound identifier sequence — however
/// lossy or duplicating the channel was — an identifier is delivered to the
/// application exactly when it arrives at least once and was not seen
/// before, and it is never delivered twice.
pub proof fn lemma_exactly_once(seen: Set<u64>, ids: Seq<u64>, id: u64)
    ensures
        occurs(deliveries(seen, ids), id) <==> (occurs(ids, id) && !seen.contains(id)),
        occ_count(deliveries(seen, ids), id) <= 1,
    decreases ids.len(),
{
    if ids.len() == 0 {
    } else {
        let first = ids[0];
        let rest = ids.drop_first();
        lemma_occurs_unfold(ids, id);
        if seen.contains(first) {
            lemma_exactly_once(seen, rest, id);
        } else {
            lemma_exactly_once(seen.insert(first), rest, id);
            let d = deliveries(seen, ids);
            let dr = deliveries(seen.insert(first), rest);
            assert(d == seq![first] + dr);
            assert(d.drop_first() =~= dr);
            assert(d[0] == first);
            lemma_occurs_unfold(d, id);
            assert(occ_count(d, id) == (if first == id {
                1nat
            } else {
                0nat
            }) + occ_count(dr, id));
            if first == id {
                assert(!occurs(dr, id));
                lemma_occ_count_zero(dr, id);
            }
        }
    }
}

} // verus!
