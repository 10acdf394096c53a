//! Stateful aggregation: running totals, the protocol tally and the
//! destination-address frequency table, folded over parsed records.

use vstd::prelude::*;
use crate::parser::ParsedRecord;
use crate::rank::{distinct_keys, lemma_permutation_keeps_keys, rank, sorted_desc};
use crate::table::{AddressTable, address_counts, no_counts};

verus! {

/// The sum of all counts stored in a finite map.
pub open spec fn sum_counts(m: Map<u32, u64>) -> int
    decreases m.dom().len(),
    when m.dom().finite()
{
    if m.dom().is_empty() {
        0
    } else {
        let a = m.dom().choose();
        m[a] + sum_counts(m.remove(a))
    }
}

/// Removing one entry takes exactly its count out of the sum.
pub proof fn lemma_sum_remove(m: Map<u32, u64>, a: u32)
    requires
        m.dom().finite(),
        m.dom().contains(a),
    ensures
        sum_counts(m) == sum_counts(m.remove(a)) + m[a],
    decreases m.dom().len(),
{
    assert(!m.dom().is_empty());
    let a0 = m.dom().choose();
    if a0 == a {
    } else {
        lemma_sum_remove(m.remove(a0), a);
        lemma_sum_remove(m.remove(a), a0);
        assert(m.remove(a0).remove(a) =~= m.remove(a).remove(a0));
    }
}

/// A sum of unsigned counts is never negative.
pub proof fn lemma_sum_nonneg(m: Map<u32, u64>)
    requires
        m.dom().finite(),
    ensures
        sum_counts(m) >= 0,
    decreases m.dom().len(),
{
    if m.dom().is_empty() {
    } else {
        let a = m.dom().choose();
        lemma_sum_nonneg(m.remove(a));
    }
}

/// Inserting a value makes the sum that of the rest of the map plus it.
pub proof fn lemma_sum_insert(m: Map<u32, u64>, a: u32, v: u64)
    requires
        m.dom().finite(),
    ensures
        sum_counts(m.insert(a, v)) == sum_counts(m.remove(a)) + v,
{
    lemma_sum_remove(m.insert(a, v), a);
    assert(m.insert(a, v).remove(a) =~= m.remove(a));
}

/// The accumulating analysis result of one pass over the capture.
pub struct Aggregator {
    /// Frames successfully processed so far.
    pub packet_count: u64,
    /// Sum of each processed frame's declared original length.
    pub total_volume: u64,
    /// Frames whose protocol identifier was 17.
    pub udp: u64,
    /// Frames whose protocol identifier was 6.
    pub tcp: u64,
    /// Frames with any other protocol identifier.
    pub other: u64,
    /// Occurrence count per destination address.
    pub freq: AddressTable,
}

impl Aggregator {
    /// The frequency table's contents as a map from address to count.
    pub open spec fn counts(self) -> Map<u32, u64> {
        address_counts(self.freq)
    }

    /// Internal consistency: the packet count equals both the sum of
    /// the three protocol tallies and the sum of all per-address
    /// counts, and every stored count is positive.
    pub open spec fn wf(self) -> bool {
        &&& self.udp + self.tcp + self.other == self.packet_count
        &&& self.counts().dom().finite()
        &&& sum_counts(self.counts()) == self.packet_count
        &&& forall|a: u32|
            self.counts().dom().contains(a) ==> #[trigger] self.counts()[a] >= 1
    }

    /// A fresh, empty aggregate: all counters zero, no addresses seen.
    pub fn new() -> (r: Aggregator)
        ensures
            r.wf(),
            r.packet_count == 0,
            r.total_volume == 0,
            r.udp == 0,
            r.tcp == 0,
            r.other == 0,
            r.counts() == no_counts(),
    {
        let r = Aggregator {
            packet_count: 0,
            total_volume: 0,
            udp: 0,
            tcp: 0,
            other: 0,
            freq: AddressTable::new(),
        };
        proof {
            assert(r.counts().dom() =~= Set::<u32>::empty());
            assert(r.counts().dom().is_empty());
        }
        r
    }

    /// Fold one parsed record into the aggregate: the packet count goes
    /// up by one, the volume by the frame's declared original length,
    /// exactly one protocol bucket by one, and the record's destination
    /// address's count by one (starting at one when first seen).
    pub fn record(&mut self, rec: ParsedRecord, original_length: u32)
        requires
            old(self).wf(),
            old(self).packet_count < u64::MAX,
            old(self).total_volume + original_length <= u64::MAX,
        ensures
            final(self).wf(),
            final(self).packet_count == old(self).packet_count + 1,
            final(self).total_volume == old(self).total_volume + original_length,
            final(self).udp == old(self).udp + (if rec.protocol == 17 { 1int } else { 0int }),
            final(self).tcp == old(self).tcp + (if rec.protocol == 6 { 1int } else { 0int }),
            final(self).other == old(self).other + (
            if rec.protocol != 17 && rec.protocol != 6 { 1int } else { 0int }),
            final(self).counts() == old(self).counts().insert(
                rec.dest_address,
                (if old(self).counts().dom().contains(rec.dest_address) {
                    old(self).counts()[rec.dest_address] + 1
                } else {
                    1
                }) as u64,
            ),
    {
        self.packet_count = self.packet_count + 1;
        self.total_volume = self.total_volume + original_length as u64;
        if rec.protocol == 17 {
            self.udp = self.udp + 1;
        } else if rec.protocol == 6 {
            self.tcp = self.tcp + 1;
        } else {
            self.other = self.other + 1;
        }
        let a = rec.dest_address;
        let ghost m = old(self).counts();
        proof {
            lemma_sum_nonneg(m.remove(a));
            if m.dom().contains(a) {
                lemma_sum_remove(m, a);
            } else {
                assert(m.remove(a) =~= m);
            }
        }
        let new_count: u64 = match self.freq.get(a) {
            Some(c) => c + 1,
            None => 1,
        };
        self.freq.set(a, new_count);
        proof {
            lemma_sum_insert(m, a, new_count);
        }
    }

    /// The Ranked Report: one entry per observed destination address,
    /// carrying its occurrence count, ordered by descending count. The
    /// aggregate itself is left untouched and may keep recording.
    pub fn finalize(&self) -> (r: Vec<(u32, u64)>)
        ensures
            sorted_desc(r@),
            distinct_keys(r@),
            r@.len() == self.counts().dom().len(),
            forall|i: int|
                0 <= i < r@.len() ==> self.counts().contains_pair(
                    (#[trigger] r@[i]).0,
                    r@[i].1,
                ),
            forall|a: u32|
                #[trigger] self.counts().dom().contains(a) ==> exists|i: int|
                    0 <= i < r@.len() && (#[trigger] r@[i]).0 == a,
    {
        let entries = self.freq.entries();
        let r = rank(&entries);
        proof {
            lemma_permutation_keeps_keys(entries@, r@);
            assert forall|a: u32| #[trigger]
                self.counts().dom().contains(a) implies exists|i: int|
                0 <= i < r@.len() && (#[trigger] r@[i]).0 == a by {
                let k = choose|k: int| 0 <= k < entries@.len() && (#[trigger] entries@[k]).0 == a;
                assert(r@.contains(entries@[k]));
                let j = choose|j: int| 0 <= j < r@.len() && r@[j] == entries@[k];
                assert(r@[j].0 == a);
            }
        }
        r
    }
}

} // verus!
