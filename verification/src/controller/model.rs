use crate::cipher::{segment_plaintext, KeyModel};
use crate::error::PipelineError;
use crate::fetch::TaskStatus;
use crate::store::{concat_prefix, empty_slots, present, slots_put, Slots};
use vstd::prelude::*;

verus! {

/// Where one segment stands within a job.
#[derive(Clone, Copy, Debug, PartialEq, Eq, Structural)]
pub enum SegmentStatus {
    /// Not started yet.
    Pending,
    /// Holds a pool slot: its fetch, decryption or write is under way.
    InFlight,
    /// Its data is persisted and counted.
    Completed,
    /// It failed for good, and decided the job.
    Failed,
    /// It settled after the job had failed; its outcome was dropped.
    Discarded,
}

/// The one failure a job reports: the offending segment and what went wrong
/// with it.
#[derive(Clone, Copy, Debug, PartialEq, Eq, Structural)]
pub struct JobFailure {
    pub segment: usize,
    pub cause: PipelineError,
}

/// Reported each time a segment is completed.
#[derive(Clone, Copy, Debug, PartialEq, Eq, Structural)]
pub struct Progress {
    pub index: usize,
    /// Segments completed so far, this one included.
    pub completed: usize,
    pub total: usize,
}

/// How a job ended: every segment as one byte stream, or the failure.
#[derive(Clone, Debug, PartialEq, Eq)]
pub enum JobResult {
    Merged(Vec<u8>),
    Failed(JobFailure),
}

/// What a `JobResult` holds.
pub enum JobResultModel {
    Merged(Seq<u8>),
    Failed(JobFailure),
}

impl View for JobResult {
    type V = JobResultModel;

    open spec fn view(&self) -> JobResultModel {
        match self {
            JobResult::Merged(bytes) => JobResultModel::Merged(bytes@),
            JobResult::Failed(f) => JobResultModel::Failed(*f),
        }
    }
}

/// The state of a job: the pool size, the attempts each segment is allowed,
/// where each segment is to be fetched from and where it stands, the shared
/// key if there is one, how many segments were started, the failure if
/// there is one, and the temporary stores.
pub struct JobModel {
    pub limit: nat,
    pub retries: u8,
    pub uris: Seq<Seq<char>>,
    pub key: Option<KeyModel>,
    pub started: nat,
    pub statuses: Seq<SegmentStatus>,
    pub failure: Option<JobFailure>,
    pub slots: Slots,
}

/// Number of segments in `statuses` that stand at `st`.
pub open spec fn count(statuses: Seq<SegmentStatus>, st: SegmentStatus) -> nat
    decreases statuses.len(),
{
    if statuses.len() == 0 {
        0
    } else {
        count(statuses.drop_last(), st) + if statuses.last() == st {
            1nat
        } else {
            0nat
        }
    }
}

impl JobModel {
    pub open spec fn total(self) -> nat {
        self.statuses.len()
    }

    /// Number of per-segment pipelines under way.
    pub open spec fn in_flight(self) -> nat {
        count(self.statuses, SegmentStatus::InFlight)
    }

    /// Number of segments whose data is persisted.
    pub open spec fn completed(self) -> nat {
        count(self.statuses, SegmentStatus::Completed)
    }

    /// Segment `i` holds a pool slot.
    pub open spec fn is_in_flight(self, i: int) -> bool {
        0 <= i < self.statuses.len() && self.statuses[i] == SegmentStatus::InFlight
    }

    /// What holds of every state a job can reach.
    pub open spec fn inv(self) -> bool {
        &&& self.total() <= usize::MAX
        &&& self.uris.len() == self.total()
        &&& self.slots.len() == self.total()
        &&& self.started <= self.total()
        &&& self.in_flight() <= self.limit
        &&& forall|i: int|
            0 <= i < self.total() ==> ((#[trigger] self.statuses[i] == SegmentStatus::Pending)
                <==> i >= self.started)
        &&& forall|i: int|
            0 <= i < self.total() ==> ((#[trigger] self.statuses[i] == SegmentStatus::Completed)
                <==> present(self.slots, i))
        &&& self.failure is None ==> forall|i: int|
            0 <= i < self.total() ==> (#[trigger] self.statuses[i]) != SegmentStatus::Failed
                && self.statuses[i] != SegmentStatus::Discarded
        &&& self.failure matches Some(f) ==> forall|i: int|
            0 <= i < self.total() ==> ((#[trigger] self.statuses[i] == SegmentStatus::Failed)
                <==> i == f.segment)
    }

    /// A new segment may take a pool slot: the job has not failed, a slot
    /// is free, and a segment is left to start.
    pub open spec fn can_start(self) -> bool {
        &&& self.failure is None
        &&& self.in_flight() < self.limit
        &&& self.started < self.total()
    }

    /// The state after the next segment took a pool slot.
    pub open spec fn start(self) -> JobModel {
        if self.can_start() {
            JobModel {
                started: self.started + 1,
                statuses: self.statuses.update(self.started as int, SegmentStatus::InFlight),
                ..self
            }
        } else {
            self
        }
    }

    /// The state after segment `index` settled with `outcome`: its data, or
    /// why it failed for good. The slot is released either way. Data is
    /// persisted and counted only while the job has not failed; the first
    /// failure decides the job. A segment that holds no slot settles nothing.
    pub open spec fn settle(self, index: int, outcome: Result<Seq<u8>, PipelineError>) -> JobModel {
        if !self.is_in_flight(index) {
            self
        } else if self.failure is Some {
            JobModel { statuses: self.statuses.update(index, SegmentStatus::Discarded), ..self }
        } else {
            match outcome {
                Ok(data) => JobModel {
                    statuses: self.statuses.update(index, SegmentStatus::Completed),
                    slots: slots_put(self.slots, index, data),
                    ..self
                },
                Err(cause) => JobModel {
                    statuses: self.statuses.update(index, SegmentStatus::Failed),
                    failure: Some(JobFailure { segment: index as usize, cause }),
                    ..self
                },
            }
        }
    }

    /// The job's result, once every started segment has settled: the merged
    /// stream when all segments are completed, the failure when one failed.
    /// `None` while segments are pending or in flight.
    pub open spec fn result(self) -> Option<JobResultModel> {
        match self.failure {
            Some(f) => if self.in_flight() == 0 {
                Some(JobResultModel::Failed(f))
            } else {
                None
            },
            None => if self.completed() == self.total() {
                Some(JobResultModel::Merged(concat_prefix(self.slots, self.total() as int)))
            } else {
                None
            },
        }
    }
}

/// A job before its first segment starts.
pub open spec fn initial_job(
    uris: Seq<Seq<char>>,
    key: Option<KeyModel>,
    limit: nat,
    retries: u8,
) -> JobModel {
    JobModel {
        limit,
        retries,
        uris,
        key,
        started: 0,
        statuses: Seq::new(uris.len(), |i: int| SegmentStatus::Pending),
        failure: None,
        slots: empty_slots(uris.len() as int),
    }
}

/// Something that happens to a job.
pub enum JobEvent {
    /// The controller tries to start the next segment.
    Start,
    /// A segment settles with its data or its failure.
    Settle(int, Result<Seq<u8>, PipelineError>),
}

/// The state after one event.
pub open spec fn after_event(m: JobModel, e: JobEvent) -> JobModel {
    match e {
        JobEvent::Start => m.start(),
        JobEvent::Settle(index, outcome) => m.settle(index, outcome),
    }
}

/// The state after the events of `events`, in that order.
pub open spec fn after_events(m: JobModel, events: Seq<JobEvent>) -> JobModel
    decreases events.len(),
{
    if events.len() == 0 {
        m
    } else {
        after_event(after_events(m, events.drop_last()), events.last())
    }
}

/// Every completion among `events` carries the chunk that `chunks` holds
/// for its segment.
pub open spec fn events_carry(events: Seq<JobEvent>, chunks: Seq<Seq<u8>>) -> bool {
    forall|k: int|
        0 <= k < events.len() ==> (#[trigger] events[k] matches JobEvent::Settle(i, Ok(data))
            ==> 0 <= i < chunks.len() && data == chunks[i])
}

/// What the job reports when segment `index` settles with `outcome` in state
/// `m`: a progress event where the segment is completed, nothing otherwise.
pub open spec fn progress_after(
    m: JobModel,
    index: int,
    outcome: Result<Seq<u8>, PipelineError>,
) -> Option<Progress> {
    if m.is_in_flight(index) && m.failure is None && outcome is Ok {
        Some(
            Progress {
                index: index as usize,
                completed: (m.completed() + 1) as usize,
                total: m.total() as usize,
            },
        )
    } else {
        None
    }
}

/// What an outcome holds.
pub open spec fn outcome_model(outcome: Result<Vec<u8>, PipelineError>) -> Result<
    Seq<u8>,
    PipelineError,
> {
    match outcome {
        Ok(data) => Ok(data@),
        Err(e) => Err(e),
    }
}

/// The outcome with which a finished task settles its segment: the
/// plaintext of the body where an attempt succeeded, `SegmentFetch` where
/// every attempt failed. A task that is still open settles nothing.
pub open spec fn task_outcome(key: Option<KeyModel>, status: TaskStatus, body: Seq<u8>) -> Option<
    Result<Seq<u8>, PipelineError>,
> {
    match status {
        TaskStatus::Open => None,
        TaskStatus::Succeeded => Some(segment_plaintext(key, body)),
        TaskStatus::Failed => Some(Err(PipelineError::SegmentFetch)),
    }
}

} // verus!
