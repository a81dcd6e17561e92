//! An in-memory write-ahead-log manager: an append-only log of framed
//! records — region, assigned sequence number, opaque payload bytes.
//! Sequence numbers are never chosen by the producer: the manager
//! assigns them at append time, consecutively from 1 within each
//! region, and entries of different regions are not ordered relative to
//! each other. Reads are finite and restartable from any
//! previously-observed sequence number.

use vstd::prelude::*;
use vstd::slice::slice_to_vec;

use crate::ids::{RegionId, SequenceNumber};
use crate::log_batch::{LogEntry, LogWriteBatch, Payload, PayloadError};

verus! {

/// One persisted record: the region it belongs to, the sequence number
/// the manager assigned, and the encoded payload bytes.
pub struct WalRecord {
    pub region_id: RegionId,
    pub sequence: SequenceNumber,
    pub bytes: Vec<u8>,
}

/// The records of one region, oldest first.
pub open spec fn region_records(s: Seq<WalRecord>, region_id: RegionId) -> Seq<WalRecord>
    decreases s.len(),
{
    if s.len() == 0 {
        Seq::empty()
    } else {
        let rest = region_records(s.drop_last(), region_id);
        if s.last().region_id == region_id {
            rest.push(s.last())
        } else {
            rest
        }
    }
}

/// The records of a region whose sequence number is at least `start`,
/// oldest first.
pub open spec fn records_from(region: Seq<WalRecord>, start: SequenceNumber) -> Seq<WalRecord>
    decreases region.len(),
{
    if region.len() == 0 {
        Seq::empty()
    } else {
        let rest = records_from(region.drop_last(), start);
        if region.last().sequence >= start {
            rest.push(region.last())
        } else {
            rest
        }
    }
}

/// Appending a record extends its own region's records and no other's.
pub proof fn lemma_region_records_push(s: Seq<WalRecord>, r: WalRecord, region_id: RegionId)
    ensures
        r.region_id == region_id ==> region_records(s.push(r), region_id) == region_records(
            s,
            region_id,
        ).push(r),
        r.region_id != region_id ==> region_records(s.push(r), region_id) == region_records(
            s,
            region_id,
        ),
{
    assert(s.push(r).drop_last() =~= s);
}

/// The filtered read grows exactly with records at or past `start`.
pub proof fn lemma_records_from_push(region: Seq<WalRecord>, r: WalRecord, start: SequenceNumber)
    ensures
        r.sequence >= start ==> records_from(region.push(r), start) == records_from(
            region,
            start,
        ).push(r),
        r.sequence < start ==> records_from(region.push(r), start) == records_from(region, start),
{
    assert(region.push(r).drop_last() =~= region);
}

/// The in-memory log manager. Its view is the whole record log, oldest
/// first; [`region_records`] restricts it to one region.
pub struct WalManager {
    log: Vec<WalRecord>,
}

impl WalManager {
    /// The records stored so far, across all regions, oldest first.
    pub closed spec fn log_view(&self) -> Seq<WalRecord> {
        self.log@
    }

    /// Within every region, sequence numbers are consecutive from 1, in
    /// storage order — the manager assigned them at append time.
    pub open spec fn wf(&self) -> bool {
        forall|region_id: RegionId, i: int|
            0 <= i < region_records(self.log_view(), region_id).len() ==> (#[trigger] region_records(
                self.log_view(),
                region_id,
            )[i]).sequence == i + 1
    }

    /// An empty log.
    pub fn new() -> (r: WalManager)
        ensures
            r.wf(),
            r.log_view() == Seq::<WalRecord>::empty(),
    {
        WalManager { log: Vec::new() }
    }

    /// Number of records a region holds; the next sequence assigned in
    /// the region is one past it.
    pub fn region_count(&self, region_id: RegionId) -> (n: usize)
        ensures
            n == region_records(self.log_view(), region_id).len(),
    {
        let len = self.log.len();
        let mut count: usize = 0;
        let mut i: usize = 0;
        while i < len
            invariant
                i <= len,
                len == self.log_view().len(),
                count == region_records(self.log_view().take(i as int), region_id).len(),
                count <= i,
            decreases len - i,
        {
            proof {
                assert(self.log_view().take(i + 1).drop_last() =~= self.log_view().take(i as int));
                assert(self.log_view().take(i + 1).last() == self.log_view()[i as int]);
            }
            if self.log[i].region_id == region_id {
                count += 1;
            }
            i += 1;
        }
        proof {
            assert(self.log_view().take(len as int) =~= self.log_view());
        }
        count
    }

    /// Append a batch to its region: every payload is encoded, the
    /// records enter the region in batch order with consecutive
    /// sequence numbers, and the assigned sequence of the last entry is
    /// returned (with an empty batch, the last sequence assigned so
    /// far, 0 when the region is empty). The append succeeds whenever
    /// every entry of the batch serializes — in particular always for
    /// an empty batch; if a payload fails to encode, its error is
    /// returned and nothing is appended.
    pub fn append<P: Payload>(&mut self, batch: &LogWriteBatch<P>) -> (r: Result<
        SequenceNumber,
        PayloadError,
    >)
        requires
            old(self).wf(),
            region_records(old(self).log_view(), batch.spec_region_id()).len()
                + batch.entries_view().len() <= u64::MAX,
        ensures
            final(self).wf(),
            (forall|k: int|
                0 <= k < batch.entries_view().len() ==> (#[trigger] batch.entries_view()[k]).payload.encodes())
                ==> r is Ok,
            r is Err ==> exists|k: int|
                0 <= k < batch.entries_view().len() && !(
                #[trigger] batch.entries_view()[k]).payload.encodes(),
            match r {
                Ok(last) => {
                    let pre = region_records(old(self).log_view(), batch.spec_region_id());
                    let post = region_records(final(self).log_view(), batch.spec_region_id());
                    &&& post.len() == pre.len() + batch.entries_view().len()
                    &&& forall|k: int|
                        0 <= k < batch.entries_view().len() ==> (#[trigger] post[pre.len() + k]).bytes@
                            == batch.entries_view()[k].payload.encoding() && post[pre.len()
                            + k].sequence == pre.len() + 1 + k && post[pre.len() + k].region_id
                            == batch.spec_region_id()
                    &&& forall|j: int| 0 <= j < pre.len() ==> post[j] == pre[j]
                    &&& forall|other: RegionId|
                        other != batch.spec_region_id() ==> region_records(
                            final(self).log_view(),
                            other,
                        ) == region_records(old(self).log_view(), other)
                    &&& last == pre.len() + batch.entries_view().len()
                },
                Err(_) => final(self).log_view() == old(self).log_view(),
            },
    {
        let region_id = batch.region_id();
        let count = self.region_count(region_id);
        let n = batch.len();

        // Encode every payload first, so a failure appends nothing.
        let mut encoded: Vec<Vec<u8>> = Vec::new();
        let mut i: usize = 0;
        while i < n
            invariant
                i <= n,
                n == batch.entries_view().len(),
                self == old(self),
                old(self).wf(),
                encoded@.len() == i,
                forall|k: int|
                    0 <= k < i ==> (#[trigger] encoded@[k])@ == batch.entries_view()[k].payload.encoding(),
            decreases n - i,
        {
            let mut buf: Vec<u8> = Vec::new();
            match batch.get(i).payload.encode_to(&mut buf) {
                Ok(()) => {},
                Err(e) => {
                    proof {
                        assert(!batch.entries_view()[i as int].payload.encodes());
                    }
                    return Err(e);
                },
            }
            encoded.push(buf);
            i += 1;
        }

        // Commit the records in batch order.
        let ghost pre = region_records(old(self).log_view(), region_id);
        let ghost enc0 = encoded@;
        let mut k: usize = 0;
        while k < n
            invariant
                k <= n,
                n == batch.entries_view().len(),
                count == pre.len(),
                pre == region_records(old(self).log_view(), region_id),
                count + n <= u64::MAX,
                enc0.len() == n,
                old(self).wf(),
                forall|j: int|
                    0 <= j < n ==> (#[trigger] enc0[j])@ == batch.entries_view()[j].payload.encoding(),
                encoded@ =~= enc0.skip(k as int),
                self.wf(),
                region_records(self.log_view(), region_id).len() == pre.len() + k,
                forall|j: int|
                    0 <= j < pre.len() ==> #[trigger] region_records(self.log_view(), region_id)[j]
                        == pre[j],
                forall|j: int|
                    0 <= j < k ==> (#[trigger] region_records(self.log_view(), region_id)[pre.len()
                        + j]).bytes@ == batch.entries_view()[j].payload.encoding()
                        && region_records(self.log_view(), region_id)[pre.len() + j].sequence
                        == pre.len() + 1 + j && region_records(self.log_view(), region_id)[pre.len()
                        + j].region_id == region_id,
                forall|other: RegionId|
                    other != region_id ==> region_records(self.log_view(), other) == region_records(
                        old(self).log_view(),
                        other,
                    ),
            decreases n - k,
        {
            let bytes = encoded.remove(0);
            proof {
                assert(enc0.skip(k as int)[0] == enc0[k as int]);
                assert(enc0.skip(k as int).remove(0) =~= enc0.skip(k + 1));
            }
            let sequence = (count as u64) + 1 + (k as u64);
            let record = WalRecord { region_id, sequence, bytes };
            let ghost prev_log = self.log_view();
            let ghost rec = record;
            self.log.push(record);
            proof {
                assert(self.log_view() == prev_log.push(rec));
                lemma_region_records_push(prev_log, rec, region_id);
                assert forall|other: RegionId| other != region_id implies region_records(
                    self.log_view(),
                    other,
                ) == region_records(prev_log, other) by {
                    lemma_region_records_push(prev_log, rec, other);
                }
                let prev_region = region_records(prev_log, region_id);
                let region = region_records(self.log_view(), region_id);
                assert(region == prev_region.push(rec));
                assert forall|rid: RegionId, i: int|
                    0 <= i < region_records(self.log_view(), rid).len() implies (
                #[trigger] region_records(self.log_view(), rid)[i]).sequence == i + 1 by {
                    if rid == region_id {
                        if i < prev_region.len() {
                            assert(region[i] == prev_region[i]);
                            assert(prev_region[i].sequence == i + 1);
                        } else {
                            assert(region[i] == rec);
                        }
                    } else {
                        assert(region_records(self.log_view(), rid) == region_records(
                            prev_log,
                            rid,
                        ));
                        assert(region_records(prev_log, rid)[i].sequence == i + 1);
                    }
                }
            }
            k += 1;
        }
        Ok((count as u64) + (n as u64))
    }

    /// Read a region's entries from `start` on: exactly its records
    /// whose sequence is at least `start`, oldest first, each framed as
    /// the assigned sequence with the payload bytes. Restartable: any
    /// previously-observed sequence may serve as `start`; 0 and 1 both
    /// read from the beginning.
    pub fn read(&self, region_id: RegionId, start: SequenceNumber) -> (r: Vec<LogEntry<Vec<u8>>>)
        ensures
            ({
                let expected = records_from(region_records(self.log_view(), region_id), start);
                &&& r@.len() == expected.len()
                &&& forall|k: int|
                    0 <= k < expected.len() ==> (#[trigger] r@[k]).sequence == expected[k].sequence
                        && r@[k].payload@ == expected[k].bytes@
            }),
    {
        let len = self.log.len();
        let mut out: Vec<LogEntry<Vec<u8>>> = Vec::new();
        let mut i: usize = 0;
        while i < len
            invariant
                i <= len,
                len == self.log_view().len(),
                ({
                    let sofar = records_from(
                        region_records(self.log_view().take(i as int), region_id),
                        start,
                    );
                    &&& out@.len() == sofar.len()
                    &&& forall|k: int|
                        0 <= k < sofar.len() ==> (#[trigger] out@[k]).sequence == sofar[k].sequence
                            && out@[k].payload@ == sofar[k].bytes@
                }),
            decreases len - i,
        {
            proof {
                assert(self.log_view().take(i + 1).drop_last() =~= self.log_view().take(i as int));
                assert(self.log_view().take(i + 1).last() == self.log_view()[i as int]);
                let rec = self.log_view()[i as int];
                lemma_region_records_push(
                    self.log_view().take(i as int),
                    rec,
                    region_id,
                );
                if rec.region_id == region_id {
                    lemma_records_from_push(
                        region_records(self.log_view().take(i as int), region_id),
                        rec,
                        start,
                    );
                }
            }
            let record = &self.log[i];
            if record.region_id == region_id && record.sequence >= start {
                let payload = slice_to_vec(record.bytes.as_slice());
                out.push(LogEntry { sequence: record.sequence, payload });
            }
            i += 1;
        }
        proof {
            assert(self.log_view().take(len as int) =~= self.log_view());
        }
        out
    }
}

/// Within a region, stored records are totally ordered by their
/// assigned sequence numbers.
pub proof fn lemma_region_sequences_increasing(wal: WalManager, region_id: RegionId)
    requires
        wal.wf(),
    ensures
        forall|i: int, j: int|
            0 <= i < j < region_records(wal.log_view(), region_id).len()
                ==> (#[trigger] region_records(wal.log_view(), region_id)[i]).sequence < (
            #[trigger] region_records(wal.log_view(), region_id)[j]).sequence,
{
}

} // verus!
