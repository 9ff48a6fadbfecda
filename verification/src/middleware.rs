//! The verified core of the exchange interceptor.
//!
//! The host's request pipeline captures each exchange — request snapshot,
//! response snapshot, start and end timestamps — and hands it to
//! `LoggingMiddleware::observe`, which builds the telemetry record,
//! serializes it to the wire format, appends it to the batch buffer, and
//! reports whether that append triggered a flush. The host returns the
//! original response to its caller untouched either way, and delivers a
//! triggered batch on a unit of concurrency of its own, off the request
//! path.

use vstd::prelude::*;
use crate::batch::{BatchBuffer, FlushDecision, flush_due, record_bytes};
use crate::json::json_of_record;
use crate::record::{RequestInfo, RequestInfoModel, ResponseInfo, ResponseInfoModel,
    TelemetryRecordModel, build_record, elapsed_millis, schema_version};
use crate::json::encode_record;

verus! {

/// The serialized wire form of the record that observing an exchange with
/// these snapshots and timestamps produces.
pub open spec fn observed_record(
    request: RequestInfoModel,
    response: ResponseInfoModel,
    start_ms: u64,
    end_ms: u64,
) -> Seq<char> {
    json_of_record(
        TelemetryRecordModel {
            version: schema_version(),
            date_created: start_ms,
            execution_time: elapsed_millis(start_ms, end_ms),
            request: request,
            response: response,
        },
    )
}

/// The interceptor's state: the batch buffer all exchanges feed.
pub struct LoggingMiddleware {
    buffer: BatchBuffer,
}

impl LoggingMiddleware {
    /// The buffer's invariant holds.
    pub closed spec fn wf(&self) -> bool {
        self.buffer.wf()
    }

    /// The serialized records pending delivery.
    pub closed spec fn pending(&self) -> Seq<Seq<char>> {
        self.buffer.pending()
    }

    /// The summed byte sizes of the pending records.
    pub closed spec fn pending_bytes(&self) -> nat {
        self.buffer.pending_bytes()
    }

    /// Every serialized record ever appended, in order.
    pub closed spec fn appended_log(&self) -> Seq<Seq<char>> {
        self.buffer.appended_log()
    }

    /// Every batch ever flushed, in flush order.
    pub closed spec fn flushed_batches(&self) -> Seq<Seq<Seq<char>>> {
        self.buffer.flushed_batches()
    }

    /// A fresh interceptor with an empty buffer.
    pub fn new() -> (m: LoggingMiddleware)
        ensures
            m.wf(),
            m.pending() == Seq::<Seq<char>>::empty(),
            m.appended_log() == Seq::<Seq<char>>::empty(),
            m.flushed_batches() == Seq::<Seq<Seq<char>>>::empty(),
    {
        LoggingMiddleware { buffer: BatchBuffer::new() }
    }

    /// Records one completed exchange: builds the telemetry record from the
    /// two snapshots and the timestamps, serializes it, and appends it to
    /// the buffer. Exactly that serialized record is logged as appended, and
    /// the flush decision is the buffer's: the batch handed back on a flush
    /// holds the pending records with this one last, in order.
    pub fn observe(
        &mut self,
        request: RequestInfo,
        response: ResponseInfo,
        start_ms: u64,
        end_ms: u64,
    ) -> (d: FlushDecision)
        requires
            old(self).wf(),
        ensures
            final(self).wf(),
            ({
                let rec = observed_record(request@, response@, start_ms, end_ms);
                &&& final(self).appended_log() == old(self).appended_log().push(rec)
                &&& (match d {
                    FlushDecision::Keep => {
                        &&& !flush_due(
                            old(self).pending().len(),
                            old(self).pending_bytes(),
                            record_bytes(rec),
                        )
                        &&& final(self).pending() == old(self).pending().push(rec)
                        &&& final(self).flushed_batches() == old(self).flushed_batches()
                    },
                    FlushDecision::TriggerFlush(b) => {
                        &&& flush_due(
                            old(self).pending().len(),
                            old(self).pending_bytes(),
                            record_bytes(rec),
                        )
                        &&& b.records.deep_view() == old(self).pending().push(rec)
                        &&& final(self).pending() == Seq::<Seq<char>>::empty()
                        &&& final(self).flushed_batches() == old(self).flushed_batches().push(
                            b.records.deep_view(),
                        )
                    },
                })
            }),
    {
        let ghost reqm = request@;
        let ghost respm = response@;
        let rec = build_record(request, response, start_ms, end_ms);
        let s = encode_record(&rec);
        proof {
            assert(rec@ == (TelemetryRecordModel {
                version: schema_version(),
                date_created: start_ms,
                execution_time: elapsed_millis(start_ms, end_ms),
                request: reqm,
                response: respm,
            }));
            assert(s@ == observed_record(reqm, respm, start_ms, end_ms));
        }
        self.buffer.append(s)
    }
}

/// No observed exchange is lost and none is delivered twice by the
/// interceptor: the batches it handed out for delivery, in order, followed
/// by what still pends in its buffer, are exactly the serialized records of
/// every exchange it observed, in order. Each observed record therefore
/// stands in exactly one handed-out batch, or still pends — never in two
/// batches and never in none.
pub proof fn lemma_observed_records_partition(m: &LoggingMiddleware)
    requires
        m.wf(),
    ensures
        crate::batch::concat_batches(m.flushed_batches()) + m.pending() == m.appended_log(),
{
    crate::batch::lemma_batches_partition_appends(&m.buffer);
}

/// Installed once per server instance; wraps every inbound exchange by
/// handing each to the interceptor state it creates.
pub struct FiretailLogging;

impl Default for FiretailLogging {
    /// The interceptor factory carries no configuration of its own.
    fn default() -> (r: FiretailLogging)
        ensures
            r == (FiretailLogging {  }),
    {
        FiretailLogging
    }
}

impl FiretailLogging {
    /// A fresh interceptor wrapping one service: its buffer starts empty.
    pub fn new_transform(&self) -> (m: LoggingMiddleware)
        ensures
            m.wf(),
            m.pending() == Seq::<Seq<char>>::empty(),
            m.appended_log() == Seq::<Seq<char>>::empty(),
            m.flushed_batches() == Seq::<Seq<Seq<char>>>::empty(),
    {
        LoggingMiddleware::new()
    }
}

} // verus!
