//! Delivery of a flushed batch.
//!
//! A batch is joined into one newline-delimited payload and sent to the
//! ingestion endpoint in a single bulk request. A transient failure — a
//! network error, a timeout, a 429 or a 5xx status — is retried up to a
//! fixed number of additional attempts with exponentially growing backoff;
//! any other failing status is fatal and never retried. After the retries
//! are exhausted the outcome is failure and the batch is discarded. The
//! retry decisions live here as a verified state machine; the host performs
//! the attempts and hands each attempt's outcome back.

use vstd::prelude::*;
use vstd::string::*;
use crate::batch::DeliveryBatch;

verus! {

/// How many additional attempts may follow the first failed one.
pub const MAX_DELIVERY_RETRIES: u64 = 3;

/// The backoff before the first retry, in milliseconds; it doubles with
/// every further retry.
pub const INITIAL_BACKOFF_MILLIS: u64 = 1000;

/// How one delivery attempt ended: the endpoint accepted the batch, the
/// attempt failed in a way a retry may fix, or it failed for good.
#[derive(Clone, Copy, Debug, PartialEq, Eq, Structural)]
pub enum AttemptOutcome {
    Delivered,
    TransientFailure,
    FatalFailure,
}

/// What a whole delivery (first attempt plus retries) came to.
#[derive(Clone, Copy, Debug, PartialEq, Eq, Structural)]
pub enum DeliveryOutcome {
    DeliverySucceeded,
    DeliveryFailed,
}

/// What to do after an attempt: wait that many milliseconds and try again,
/// or stop with the final outcome.
#[derive(Clone, Copy, Debug, PartialEq, Eq, Structural)]
pub enum DeliveryStep {
    RetryAfter(u64),
    Finished(DeliveryOutcome),
}

/// The classification of an HTTP status code at the ingestion endpoint: a
/// 2xx means the batch was accepted; a 429 or any 5xx is transient and worth
/// a retry; every other status is fatal.
pub open spec fn status_class(status: u16) -> AttemptOutcome {
    if 200 <= status && status < 300 {
        AttemptOutcome::Delivered
    } else if status == 429 || (500 <= status && status < 600) {
        AttemptOutcome::TransientFailure
    } else {
        AttemptOutcome::FatalFailure
    }
}

/// Classifies an HTTP status code of a delivery attempt.
pub fn classify_status(status: u16) -> (k: AttemptOutcome)
    ensures
        k == status_class(status),
{
    if 200 <= status && status < 300 {
        AttemptOutcome::Delivered
    } else if status == 429 || (500 <= status && status < 600) {
        AttemptOutcome::TransientFailure
    } else {
        AttemptOutcome::FatalFailure
    }
}

/// The backoff before the retry with the given index: the initial backoff
/// doubled that many times.
pub open spec fn backoff_millis(retries_done: nat) -> nat
    decreases retries_done,
{
    if retries_done == 0 {
        INITIAL_BACKOFF_MILLIS as nat
    } else {
        2 * backoff_millis((retries_done - 1) as nat)
    }
}

/// The retry state of one delivery: how many retries were already spent.
pub struct DeliveryDriver {
    retries_done: u64,
}

impl DeliveryDriver {
    /// How many retries were already spent.
    pub closed spec fn retries(&self) -> u64 {
        self.retries_done
    }

    /// The driver never books more than the allowed retries.
    pub closed spec fn wf(&self) -> bool {
        self.retries_done <= MAX_DELIVERY_RETRIES
    }

    /// A fresh driver for one batch, before its first attempt.
    pub fn new() -> (d: DeliveryDriver)
        ensures
            d.wf(),
            d.retries() == 0,
    {
        DeliveryDriver { retries_done: 0 }
    }

    /// Decides what follows one attempt: success and fatal failure end the
    /// delivery at once with the matching outcome; a transient failure is
    /// retried after an exponentially grown backoff until the retries are
    /// exhausted, and fails the delivery for good after that.
    pub fn next_step(&mut self, outcome: AttemptOutcome) -> (s: DeliveryStep)
        requires
            old(self).wf(),
        ensures
            final(self).wf(),
            (match outcome {
                AttemptOutcome::Delivered => {
                    &&& s == DeliveryStep::Finished(DeliveryOutcome::DeliverySucceeded)
                    &&& final(self).retries() == old(self).retries()
                },
                AttemptOutcome::FatalFailure => {
                    &&& s == DeliveryStep::Finished(DeliveryOutcome::DeliveryFailed)
                    &&& final(self).retries() == old(self).retries()
                },
                AttemptOutcome::TransientFailure => {
                    if old(self).retries() < MAX_DELIVERY_RETRIES {
                        &&& s == DeliveryStep::RetryAfter(
                            backoff_millis(old(self).retries() as nat) as u64,
                        )
                        &&& final(self).retries() == old(self).retries() + 1
                    } else {
                        &&& s == DeliveryStep::Finished(DeliveryOutcome::DeliveryFailed)
                        &&& final(self).retries() == old(self).retries()
                    }
                },
            }),
    {
        match outcome {
            AttemptOutcome::Delivered => DeliveryStep::Finished(
                DeliveryOutcome::DeliverySucceeded,
            ),
            AttemptOutcome::FatalFailure => DeliveryStep::Finished(DeliveryOutcome::DeliveryFailed),
            AttemptOutcome::TransientFailure => {
                if self.retries_done < MAX_DELIVERY_RETRIES {
                    let delay = compute_backoff(self.retries_done);
                    self.retries_done = self.retries_done + 1;
                    DeliveryStep::RetryAfter(delay)
                } else {
                    DeliveryStep::Finished(DeliveryOutcome::DeliveryFailed)
                }
            },
        }
    }
}

/// The backoff before the retry with the given index, in milliseconds.
fn compute_backoff(retries_done: u64) -> (d: u64)
    requires
        retries_done <= MAX_DELIVERY_RETRIES,
    ensures
        d == backoff_millis(retries_done as nat),
{
    proof {
        assert(backoff_millis(0) == 1000);
        assert(backoff_millis(1) == 2000);
        assert(backoff_millis(2) == 4000);
        assert(backoff_millis(3) == 8000);
    }
    let mut d: u64 = INITIAL_BACKOFF_MILLIS;
    let mut i: u64 = 0;
    while i < retries_done
        invariant
            0 <= i <= retries_done,
            retries_done <= 3,
            d == backoff_millis(i as nat),
            d <= 8000,
        decreases retries_done - i,
    {
        proof {
            assert(backoff_millis(0) == 1000);
            assert(backoff_millis(1) == 2000);
            assert(backoff_millis(2) == 4000);
        }
        d = 2 * d;
        i = i + 1;
    }
    d
}

/// A batch's records joined by single newlines, in order.
pub open spec fn newline_joined(rs: Seq<Seq<char>>) -> Seq<char>
    decreases rs.len(),
{
    if rs.len() == 0 {
        Seq::<char>::empty()
    } else if rs.len() == 1 {
        rs[0]
    } else {
        newline_joined(rs.drop_last()) + "\n"@ + rs.last()
    }
}

/// Joins a flushed batch into the newline-delimited payload of one bulk
/// delivery request.
pub fn join_batch_payload(batch: &DeliveryBatch) -> (p: String)
    ensures
        p@ == newline_joined(batch.records.deep_view()),
{
    let ghost dv = batch.records.deep_view();
    let mut p = String::new();
    let mut i: usize = 0;
    proof {
        assert(dv.len() == batch.records@.len());
        assert(dv.subrange(0, 0) =~= Seq::<Seq<char>>::empty());
    }
    while i < batch.records.len()
        invariant
            0 <= i <= batch.records@.len(),
            dv == batch.records.deep_view(),
            dv.len() == batch.records@.len(),
            p@ == newline_joined(dv.subrange(0, i as int)),
        decreases batch.records@.len() - i,
    {
        if i > 0 {
            p.append("\n");
        }
        p.append(batch.records[i].as_str());
        proof {
            let ext = dv.subrange(0, i as int + 1);
            assert(ext.drop_last() =~= dv.subrange(0, i as int));
            assert(ext.last() == dv[i as int]);
            assert(batch.records@[i as int]@ == dv[i as int]);
            if i == 0 {
                assert(newline_joined(ext) == dv[0]);
                assert(p@ =~= newline_joined(ext));
            } else {
                assert(newline_joined(ext) == newline_joined(dv.subrange(0, i as int)) + "\n"@
                    + dv[i as int]);
                assert(p@ =~= newline_joined(ext));
            }
        }
        i += 1;
    }
    proof {
        assert(dv.subrange(0, dv.len() as int) =~= dv);
    }
    p
}

/// The content type of a bulk delivery request: newline-delimited JSON.
pub fn delivery_content_type() -> (s: &'static str)
    ensures
        s@ == "application/nd-json"@,
{
    "application/nd-json"
}

/// The request header that carries the API credential to the ingestion
/// endpoint.
pub fn api_key_header_name() -> (s: &'static str)
    ensures
        s@ == "x-ft-api-key"@,
{
    "x-ft-api-key"
}

} // verus!
