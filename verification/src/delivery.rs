//! The agent's delivery policy: what becomes of a batch once the transport
//! has answered.
//!
//! A tick of the pipeline takes a batch out of the buffer, hands it to the
//! transport, and completes it with whatever came back. Between the two
//! steps the producers go on pushing, so a requeue puts the failed batch in
//! front of what arrived meanwhile.

use vstd::prelude::*;
use vstd::string::StringExecFns;
use crate::buffer::{readmitted, requeued, pushed, overflow_of, SampleBuffer, MAX_BUFFER_SIZE};
use crate::config::Config;
use crate::models::{MetricBatch, MetricInput};

verus! {

/// What one delivery attempt came back with.
#[derive(Debug, PartialEq, Eq, Clone, Copy)]
pub enum TransportResult {
    /// The collector answered, with this status code.
    Status(u16),
    /// No answer: a timeout, a refused connection, a name that did not resolve.
    Failed,
}

/// What becomes of a batch after its delivery attempt.
#[derive(Debug, PartialEq, Eq, Clone, Copy)]
pub enum Disposition {
    /// The collector has the samples: the batch is dropped.
    Delivered,
    /// The collector refused the batch and would refuse it again: dropped.
    Discarded,
    /// The attempt may succeed later: the samples go back into the buffer.
    Requeued,
}

/// Why a delivery attempt did not succeed.
#[derive(Debug, PartialEq, Eq, Clone, Copy)]
pub enum DeliveryError {
    /// The collector refused the batch with a client error. Terminal.
    Rejected(u16),
    /// The collector answered with another status that is no success.
    ServerError(u16),
    /// The transport failed before any answer.
    RequestFailed,
}

/// A status code that accepts the batch.
pub open spec fn is_success(status: u16) -> bool {
    200 <= status <= 299
}

/// A status code that blames the request: trying again cannot help.
pub open spec fn is_client_error(status: u16) -> bool {
    400 <= status <= 499
}

/// The fate that `response` decides for a batch.
pub open spec fn disposition_of(response: TransportResult) -> Disposition {
    match response {
        TransportResult::Status(status) => if is_success(status) {
            Disposition::Delivered
        } else if is_client_error(status) {
            Disposition::Discarded
        } else {
            Disposition::Requeued
        },
        TransportResult::Failed => Disposition::Requeued,
    }
}

/// The error, if any, that `response` is reported as.
pub open spec fn error_of(response: TransportResult) -> Option<DeliveryError> {
    match response {
        TransportResult::Status(status) => if is_success(status) {
            None
        } else if is_client_error(status) {
            Some(DeliveryError::Rejected(status))
        } else {
            Some(DeliveryError::ServerError(status))
        },
        TransportResult::Failed => Some(DeliveryError::RequestFailed),
    }
}

/// The buffer's contents once a batch that met `response` is completed.
pub open spec fn after_response<T>(
    buffered: Seq<T>,
    capacity: nat,
    batch: Seq<T>,
    response: TransportResult,
) -> Seq<T> {
    if disposition_of(response) == Disposition::Requeued {
        requeued(buffered, capacity, batch)
    } else {
        buffered
    }
}

/// Whether `status` accepts what was sent.
pub fn status_is_success(status: u16) -> (success: bool)
    ensures
        success == is_success(status),
{
    200 <= status && status <= 299
}

/// Whether `status` blames the request.
pub fn status_is_client_error(status: u16) -> (client_error: bool)
    ensures
        client_error == is_client_error(status),
{
    400 <= status && status <= 499
}

/// Decides what becomes of a batch that met `response`.
pub fn classify(response: TransportResult) -> (disposition: Disposition)
    ensures
        disposition == disposition_of(response),
{
    match response {
        TransportResult::Status(status) => {
            if status_is_success(status) {
                Disposition::Delivered
            } else if status_is_client_error(status) {
                Disposition::Discarded
            } else {
                Disposition::Requeued
            }
        },
        TransportResult::Failed => Disposition::Requeued,
    }
}

impl DeliveryError {
    /// Whether the next tick may succeed where this attempt failed.
    pub fn is_retryable(&self) -> (retryable: bool)
        ensures
            retryable == !(*self is Rejected),
    {
        match self {
            DeliveryError::Rejected(_) => false,
            DeliveryError::ServerError(_) => true,
            DeliveryError::RequestFailed => true,
        }
    }
}

/// The agent's side of the pipeline: the configuration and the buffer.
pub struct Reporter {
    config: Config,
    buffer: SampleBuffer<MetricInput>,
    in_flight: bool,
}

impl Reporter {
    /// The samples that wait for delivery, oldest first.
    pub closed spec fn buffered(&self) -> Seq<MetricInput> {
        self.buffer@
    }

    /// Whether a batch has been taken and not yet completed.
    pub closed spec fn spec_in_flight(&self) -> bool {
        self.in_flight
    }

    /// The configuration the reporter was made with.
    pub closed spec fn spec_config(&self) -> Config {
        self.config
    }

    /// The reporter's invariant: its buffer is sound and of the usual
    /// capacity.
    pub closed spec fn wf(&self) -> bool {
        &&& self.buffer.wf()
        &&& self.buffer.spec_capacity() == MAX_BUFFER_SIZE
    }

    /// A sound reporter never holds more than the usual capacity.
    pub proof fn lemma_bounded(&self)
        requires
            self.wf(),
        ensures
            self.buffered().len() <= MAX_BUFFER_SIZE,
    {
        self.buffer.lemma_wf_bounds();
    }

    /// A reporter with nothing buffered.
    pub fn new(config: Config) -> (reporter: Self)
        ensures
            reporter.wf(),
            reporter.buffered() == Seq::<MetricInput>::empty(),
            reporter.spec_config() == config,
            !reporter.spec_in_flight(),
    {
        Reporter { config, buffer: SampleBuffer::new(), in_flight: false }
    }

    /// Whether a batch has been taken and not yet completed.
    pub fn in_flight(&self) -> (in_flight: bool)
        ensures
            in_flight == self.spec_in_flight(),
    {
        self.in_flight
    }

    pub fn get_buffer(&self) -> (buffer: &SampleBuffer<MetricInput>)
        ensures
            buffer@ == self.buffered(),
            self.wf() ==> buffer.wf() && buffer.spec_capacity() == MAX_BUFFER_SIZE,
    {
        &self.buffer
    }

    pub fn config(&self) -> (config: &Config)
        ensures
            *config == self.spec_config(),
    {
        &self.config
    }

    /// Buffers one sample. Returns how many old samples had to go to make
    /// room.
    pub fn add_metric(&mut self, metric: MetricInput) -> (dropped: usize)
        requires
            old(self).wf(),
        ensures
            final(self).wf(),
            final(self).spec_config() == old(self).spec_config(),
            final(self).spec_in_flight() == old(self).spec_in_flight(),
            final(self).buffered() == pushed(old(self).buffered(), MAX_BUFFER_SIZE as nat, metric),
            dropped == overflow_of(old(self).buffered().len(), MAX_BUFFER_SIZE as nat),
    {
        self.buffer.push(metric)
    }

    /// Where batches are sent: the collector's ingestion endpoint.
    pub fn report_url(&self) -> (url: String)
        ensures
            url@ == self.spec_config().server_url@ + "/api/report"@,
    {
        self.config.server_url.clone().concat("/api/report")
    }

    /// Starts a delivery attempt: takes everything buffered as one batch
    /// under the agent's name and `version`. With nothing buffered there is
    /// nothing to send, and while an earlier batch is still in flight none
    /// is started: the buffer then stays as it is.
    pub fn take_batch(&mut self, version: &str) -> (batch: Option<MetricBatch>)
        requires
            old(self).wf(),
        ensures
            final(self).wf(),
            final(self).spec_config() == old(self).spec_config(),
            batch is Some <==> old(self).buffered().len() > 0 && !old(self).spec_in_flight(),
            batch is None ==> final(self).buffered() == old(self).buffered() && final(self).spec_in_flight() == old(self).spec_in_flight(),
            batch is Some ==> final(self).buffered() == Seq::<MetricInput>::empty() && final(self).spec_in_flight(),
            batch is Some ==> ({
                let b = batch->Some_0;
                &&& b.metrics@ == old(self).buffered()
                &&& b.hostname@ == old(self).spec_config().hostname@
                &&& b.version is Some
                &&& b.version->Some_0@ == version@
            }),
    {
        if self.in_flight || self.buffer.is_empty() {
            return None;
        }
        let metrics = self.buffer.drain();
        self.in_flight = true;
        Some(
            MetricBatch {
                hostname: self.config.hostname.clone(),
                version: Some(String::from_str(version)),
                metrics,
            },
        )
    }

    /// Puts the samples of a failed batch back in front of the buffer, as far
    /// as they fit. Returns how many are lost.
    pub fn rebuffer_metrics(&mut self, metrics: Vec<MetricInput>) -> (lost: usize)
        requires
            old(self).wf(),
        ensures
            final(self).wf(),
            final(self).spec_config() == old(self).spec_config(),
            final(self).spec_in_flight() == old(self).spec_in_flight(),
            final(self).buffered() == requeued(
                old(self).buffered(),
                MAX_BUFFER_SIZE as nat,
                metrics@,
            ),
            lost == metrics@.len() - readmitted(
                old(self).buffered().len(),
                MAX_BUFFER_SIZE as nat,
                metrics@.len(),
            ),
    {
        self.buffer.requeue(metrics)
    }

    /// Ends a delivery attempt. An accepted batch is dropped and its size
    /// returned. A batch refused with a client error is dropped too, since
    /// sending it again cannot help. After any other answer, or none, the
    /// samples go back into the buffer for the next tick.
    pub fn complete_batch(&mut self, batch: MetricBatch, response: TransportResult) -> (result:
        Result<usize, DeliveryError>)
        requires
            old(self).wf(),
        ensures
            final(self).wf(),
            final(self).spec_config() == old(self).spec_config(),
            !final(self).spec_in_flight(),
            final(self).buffered() == after_response(
                old(self).buffered(),
                MAX_BUFFER_SIZE as nat,
                batch.metrics@,
                response,
            ),
            match error_of(response) {
                None => result == Ok::<usize, DeliveryError>(batch.metrics@.len() as usize),
                Some(e) => result == Err::<usize, DeliveryError>(e),
            },
    {
        let count = batch.metrics.len();
        self.in_flight = false;
        match response {
            TransportResult::Status(status) => {
                match classify(response) {
                    Disposition::Delivered => Ok(count),
                    Disposition::Discarded => Err(DeliveryError::Rejected(status)),
                    Disposition::Requeued => {
                        self.rebuffer_metrics(batch.metrics);
                        Err(DeliveryError::ServerError(status))
                    },
                }
            },
            TransportResult::Failed => {
                self.rebuffer_metrics(batch.metrics);
                Err(DeliveryError::RequestFailed)
            },
        }
    }
}

/// A batch whose delivery failed for a reason that may pass is back in the
/// buffer afterwards, whole and once, ahead of what was pushed meanwhile,
/// wherever the capacity allows it.
pub proof fn lemma_transient_failure_requeues<T>(
    buffered: Seq<T>,
    capacity: nat,
    batch: Seq<T>,
    response: TransportResult,
)
    requires
        disposition_of(response) == Disposition::Requeued,
        buffered.len() + batch.len() <= capacity,
    ensures
        after_response(buffered, capacity, batch, response) == batch + buffered,
{
    assert(batch.take(batch.len() as int) =~= batch);
}

/// Every answer that is neither a success nor a client error, and every
/// transport failure, leads to a requeue; a server error such as 503 is one.
pub proof fn lemma_server_errors_requeue(status: u16)
    requires
        500 <= status <= 599,
    ensures
        disposition_of(TransportResult::Status(status)) == Disposition::Requeued,
        disposition_of(TransportResult::Failed) == Disposition::Requeued,
{
}

/// A batch refused with a client error, such as 401, is discarded: the
/// buffer is as it was, and none of the batch's samples comes back.
pub proof fn lemma_client_error_discards<T>(
    buffered: Seq<T>,
    capacity: nat,
    batch: Seq<T>,
    status: u16,
)
    requires
        is_client_error(status),
    ensures
        disposition_of(TransportResult::Status(status)) == Disposition::Discarded,
        after_response(buffered, capacity, batch, TransportResult::Status(status)) == buffered,
        error_of(TransportResult::Status(status)) == Some(DeliveryError::Rejected(status)),
{
}

} // verus!
