//! The batch buffer.
//!
//! Serialized records pending delivery are held in order, together with a
//! running count and a running total of their byte sizes. An append decides
//! synchronously whether a flush is due: when the count reaches its bound or
//! the total byte size reaches its bound, the whole pending sequence is
//! swapped out for an empty one and handed to the caller as a batch that the
//! caller then owns. The buffer keeps a ghost log of everything ever
//! appended and of every batch ever flushed, and maintains that the flushed
//! batches followed by the pending records are exactly the appended records
//! in order: nothing is lost, nothing is handed out twice.
//!
//! The buffer itself is a plain value; a host that appends from several
//! tasks at once wraps it in a mutual-exclusion lock, so each append (and
//! the flush decision inside it) is atomic and exactly one caller owns each
//! swapped-out batch.

use vstd::prelude::*;
use vstd::string::*;
use vstd::utf8::encode_utf8;

verus! {

/// A flush is due at the latest when this many records are pending.
pub const MAX_BATCH_COUNT: usize = 10;

/// A flush is due at the latest when the pending records' byte sizes reach
/// this total.
pub const MAX_BULK_SIZE_IN_BYTES: usize = 1024 * 1024;

/// The byte size of one serialized record.
pub open spec fn record_bytes(r: Seq<char>) -> nat {
    encode_utf8(r).len()
}

/// The summed byte sizes of a sequence of serialized records.
pub open spec fn total_record_bytes(rs: Seq<Seq<char>>) -> nat
    decreases rs.len(),
{
    if rs.len() == 0 {
        0
    } else {
        total_record_bytes(rs.drop_last()) + record_bytes(rs.last())
    }
}

/// The records of a sequence of flushed batches, in flush order.
pub open spec fn concat_batches(bs: Seq<Seq<Seq<char>>>) -> Seq<Seq<char>>
    decreases bs.len(),
{
    if bs.len() == 0 {
        Seq::<Seq<char>>::empty()
    } else {
        concat_batches(bs.drop_last()) + bs.last()
    }
}

/// Whether appending a record of the given byte size to a buffer with the
/// given pending count and pending byte total makes a flush due.
pub open spec fn flush_due(count: nat, total: nat, rec_bytes: nat) -> bool {
    count + 1 >= MAX_BATCH_COUNT || total + rec_bytes >= MAX_BULK_SIZE_IN_BYTES
}

/// One drained sequence of serialized records, owned by whoever triggered
/// the flush for the duration of one delivery attempt.
pub struct DeliveryBatch {
    pub records: Vec<String>,
}

/// What an append decided: the record was kept for a later flush, or it
/// triggered a flush and the caller now owns the drained batch.
pub enum FlushDecision {
    Keep,
    TriggerFlush(DeliveryBatch),
}

/// The bounded in-memory buffer of serialized records pending delivery.
pub struct BatchBuffer {
    records: Vec<String>,
    total_bytes: usize,
    appended: Ghost<Seq<Seq<char>>>,
    flushed: Ghost<Seq<Seq<Seq<char>>>>,
}

impl BatchBuffer {
    /// The serialized records pending delivery, in append order.
    pub closed spec fn pending(&self) -> Seq<Seq<char>> {
        self.records.deep_view()
    }

    /// The summed byte sizes of the pending records.
    pub closed spec fn pending_bytes(&self) -> nat {
        self.total_bytes as nat
    }

    /// Every record ever appended, in order.
    pub closed spec fn appended_log(&self) -> Seq<Seq<char>> {
        self.appended@
    }

    /// Every batch ever flushed, in flush order.
    pub closed spec fn flushed_batches(&self) -> Seq<Seq<Seq<char>>> {
        self.flushed@
    }

    /// The buffer's invariant: both bounds hold strictly between appends,
    /// the byte counter is exactly the summed size of the pending records,
    /// and the flushed batches followed by the pending records are exactly
    /// the appended records.
    pub closed spec fn wf(&self) -> bool {
        &&& self.records.deep_view().len() < MAX_BATCH_COUNT
        &&& (self.total_bytes as nat) < MAX_BULK_SIZE_IN_BYTES
        &&& self.total_bytes as nat == total_record_bytes(self.records.deep_view())
        &&& concat_batches(self.flushed@) + self.records.deep_view() == self.appended@
    }

    /// A fresh, empty buffer.
    pub fn new() -> (b: BatchBuffer)
        ensures
            b.wf(),
            b.pending() == Seq::<Seq<char>>::empty(),
            b.appended_log() == Seq::<Seq<char>>::empty(),
            b.flushed_batches() == Seq::<Seq<Seq<char>>>::empty(),
    {
        let b = BatchBuffer {
            records: Vec::new(),
            total_bytes: 0,
            appended: Ghost(Seq::empty()),
            flushed: Ghost(Seq::empty()),
        };
        proof {
            assert(b.records.deep_view() =~~= Seq::<Seq<char>>::empty());
            assert(concat_batches(b.flushed@) + b.records.deep_view() =~~= b.appended@);
        }
        b
    }

    /// How many records are pending.
    pub fn pending_count(&self) -> (n: usize)
        ensures
            n == self.pending().len(),
    {
        self.records.len()
    }

    /// Appends one serialized record and decides synchronously whether a
    /// flush is due. When it is, the whole pending sequence — the given
    /// record included — is handed back as a batch in append order and the
    /// buffer starts over empty; otherwise the record is kept. Either way
    /// the record is logged as appended exactly once.
    pub fn append(&mut self, record: String) -> (d: FlushDecision)
        requires
            old(self).wf(),
        ensures
            final(self).wf(),
            final(self).appended_log() == old(self).appended_log().push(record@),
            (match d {
                FlushDecision::Keep => {
                    &&& !flush_due(
                        old(self).pending().len(),
                        old(self).pending_bytes(),
                        record_bytes(record@),
                    )
                    &&& final(self).pending() == old(self).pending().push(record@)
                    &&& final(self).flushed_batches() == old(self).flushed_batches()
                },
                FlushDecision::TriggerFlush(b) => {
                    &&& flush_due(
                        old(self).pending().len(),
                        old(self).pending_bytes(),
                        record_bytes(record@),
                    )
                    &&& b.records.deep_view() == old(self).pending().push(record@)
                    &&& final(self).pending() == Seq::<Seq<char>>::empty()
                    &&& final(self).flushed_batches() == old(self).flushed_batches().push(
                        b.records.deep_view(),
                    )
                },
            }),
    {
        let ghost rv = record@;
        let ghost pending0 = self.records.deep_view();
        let rec_str = record.as_str();
        let len = rec_str.as_bytes().len();
        proof {
            assert(rec_str@ == rv);
            assert(rec_str.spec_bytes() == encode_utf8(rv));
            assert(len == record_bytes(rv));
        }
        let due_count = self.records.len() + 1 >= MAX_BATCH_COUNT;
        let due_bytes = len >= MAX_BULK_SIZE_IN_BYTES - self.total_bytes;
        self.records.push(record);
        self.appended = Ghost(self.appended@.push(rv));
        proof {
            assert(self.records.deep_view() =~~= pending0.push(rv));
            assert(pending0.push(rv).drop_last() =~= pending0);
            assert(total_record_bytes(pending0.push(rv)) == total_record_bytes(pending0)
                + record_bytes(rv));
        }
        if due_count || due_bytes {
            let mut drained: Vec<String> = Vec::new();
            core::mem::swap(&mut drained, &mut self.records);
            self.total_bytes = 0;
            let ghost flushed0 = self.flushed@;
            self.flushed = Ghost(self.flushed@.push(drained.deep_view()));
            proof {
                assert(self.records.deep_view() =~~= Seq::<Seq<char>>::empty());
                assert(drained.deep_view() == pending0.push(rv));
                assert(self.flushed@.drop_last() =~= flushed0);
                assert(concat_batches(self.flushed@) == concat_batches(flushed0)
                    + drained.deep_view());
                assert(concat_batches(self.flushed@) + self.records.deep_view() =~~= self.appended@);
                assert(total_record_bytes(self.records.deep_view()) == 0);
            }
            FlushDecision::TriggerFlush(DeliveryBatch { records: drained })
        } else {
            self.total_bytes = self.total_bytes + len;
            proof {
                assert(concat_batches(self.flushed@) + self.records.deep_view() =~~= self.appended@);
            }
            FlushDecision::Keep
        }
    }
}

/// No record is lost and none is handed out twice: across the life of a
/// buffer, the flushed batches in flush order, followed by what is still
/// pending, are exactly the records that were ever appended, in append
/// order. Every appended record therefore stands in exactly one flushed
/// batch, or still pends — never in two batches and never in none.
pub proof fn lemma_batches_partition_appends(b: &BatchBuffer)
    requires
        b.wf(),
    ensures
        concat_batches(b.flushed_batches()) + b.pending() == b.appended_log(),
{
}

} // verus!
