use crate::cipher::{decrypt_segment, key_model, owned_key_model, EncryptionKey};
use crate::controller::laws::{
    lemma_count_bounded, lemma_count_extremes, lemma_initial_inv, lemma_settle_inv,
    lemma_start_inv,
};
use crate::controller::model::{
    initial_job, outcome_model, progress_after, task_outcome, JobFailure, JobModel, JobResult,
    Progress, SegmentStatus,
};
use crate::error::PipelineError;
use crate::fetch::{initial_state, DownloadTask, FetchStep, TaskStatus};
use crate::playlist::Segment;
use crate::store::{concat_prefix, content, merge, present, SegmentStore};
use crate::uri::{resolve_segment_uris, resolved_all, segment_uris, text_of, texts};
use vstd::prelude::*;

verus! {

/// One download job: schedules the segments under the concurrency bound,
/// collects their outcomes and keeps their data until the merge.
#[derive(Debug)]
pub struct Job {
    limit: usize,
    retries: u8,
    uris: Vec<String>,
    key: Option<EncryptionKey>,
    started: usize,
    in_flight: usize,
    completed: usize,
    failure: Option<JobFailure>,
    statuses: Vec<SegmentStatus>,
    store: SegmentStore,
}

impl View for Job {
    type V = JobModel;

    closed spec fn view(&self) -> JobModel {
        JobModel {
            limit: self.limit as nat,
            retries: self.retries,
            uris: texts(self.uris@),
            key: owned_key_model(self.key),
            started: self.started as nat,
            statuses: self.statuses@,
            failure: self.failure,
            slots: self.store@,
        }
    }
}

impl Job {
    /// The state satisfies the job invariant. Every constructor and method
    /// keeps it.
    pub closed spec fn wf(&self) -> bool {
        &&& self@.inv()
        &&& self.in_flight == self@.in_flight()
        &&& self.completed == self@.completed()
    }

    /// A job for the segments at `uris`, in manifest order, with a pool of
    /// `concurrency` slots and `retries` attempts for each segment.
    pub fn new(uris: Vec<String>, key: Option<EncryptionKey>, concurrency: usize, retries: u8) -> (job:
        Job)
        ensures
            job.wf(),
            job@ == initial_job(
                texts(uris@),
                owned_key_model(key),
                concurrency as nat,
                retries,
            ),
            job@.in_flight() == 0,
            job@.completed() == 0,
    {
        let total = uris.len();
        let mut statuses: Vec<SegmentStatus> = Vec::new();
        let mut i: usize = 0;
        while i < total
            invariant
                i <= total,
                statuses@.len() == i,
                forall|k: int| 0 <= k < i ==> statuses@[k] == SegmentStatus::Pending,
            decreases total - i,
        {
            statuses.push(SegmentStatus::Pending);
            i = i + 1;
        }
        let store = SegmentStore::new(total);
        let job = Job {
            limit: concurrency,
            retries,
            uris,
            key,
            started: 0,
            in_flight: 0,
            completed: 0,
            failure: None,
            statuses,
            store,
        };
        proof {
            let m = initial_job(
                texts(uris@),
                owned_key_model(key),
                concurrency as nat,
                retries,
            );
            lemma_initial_inv(m.uris, m.key, m.limit, retries);
            assert(job@.statuses =~= m.statuses);
            assert(job@.uris =~= m.uris);
        }
        job
    }

    /// Number of segments.
    pub fn total(&self) -> (n: usize)
        ensures
            n == self@.total(),
    {
        self.statuses.len()
    }

    /// Size of the pool.
    pub fn concurrency(&self) -> (n: usize)
        ensures
            n == self@.limit,
    {
        self.limit
    }

    /// Number of per-segment pipelines under way.
    pub fn in_flight(&self) -> (n: usize)
        requires
            self.wf(),
        ensures
            n == self@.in_flight(),
            n <= self@.limit,
    {
        self.in_flight
    }

    /// Number of segments completed.
    pub fn completed(&self) -> (n: usize)
        requires
            self.wf(),
        ensures
            n == self@.completed(),
    {
        self.completed
    }

    /// The failure that decided the job, if it has failed.
    pub fn failure(&self) -> (f: Option<JobFailure>)
        ensures
            f == self@.failure,
    {
        self.failure
    }

    /// Where segment `index` stands; `None` for an index the job does not have.
    pub fn status(&self, index: usize) -> (s: Option<SegmentStatus>)
        ensures
            s == if index < self@.total() {
                Some(self@.statuses[index as int])
            } else {
                None
            },
    {
        if index < self.statuses.len() {
            Some(self.statuses[index])
        } else {
            None
        }
    }

    /// The plaintext persisted for segment `index`, while its store exists.
    pub fn data(&self, index: usize) -> (d: Option<&Vec<u8>>)
        ensures
            d is Some <==> present(self@.slots, index as int),
            d matches Some(v) ==> v@ == content(self@.slots, index as int),
    {
        self.store.get(index)
    }

    /// The shared key, if the segments are encrypted.
    pub fn key(&self) -> (k: Option<&EncryptionKey>)
        ensures
            key_model(k) == self@.key,
    {
        self.key.as_ref()
    }

    /// Whether the job has ended: it failed and nothing is in flight, or
    /// every segment is completed.
    pub fn is_settled(&self) -> (b: bool)
        requires
            self.wf(),
        ensures
            b == self@.result() is Some,
    {
        match self.failure {
            Some(_) => self.in_flight == 0,
            None => self.completed == self.statuses.len(),
        }
    }

    /// Gives the next segment a pool slot, where the job has not failed, a
    /// slot is free and a segment is left. Returns the segment's task and
    /// the task's first step.
    pub fn start_next(&mut self) -> (r: Option<(DownloadTask, FetchStep)>)
        requires
            old(self).wf(),
        ensures
            final(self).wf(),
            final(self)@ == old(self)@.start(),
            r is Some <==> old(self)@.can_start(),
            final(self)@.in_flight() == old(self)@.in_flight() + if r is Some {
                1nat
            } else {
                0nat
            },
            final(self)@.completed() == old(self)@.completed(),
            r matches Some((task, step)) ==> {
                &&& task.wf()
                &&& task.index_spec() == old(self)@.started
                &&& task.uri_spec() == old(self)@.uris[old(self)@.started as int]
                &&& task.retries_spec() == old(self)@.retries
                &&& task.state() == initial_state(old(self)@.retries as nat)
                &&& step == if old(self)@.retries == 0 {
                    FetchStep::GiveUp
                } else {
                    FetchStep::Attempt { attempt: 1 }
                }
            },
    {
        if self.failure.is_some() || self.in_flight >= self.limit || self.started
            >= self.statuses.len() {
            return None;
        }
        let index = self.started;
        proof {
            lemma_start_inv(self@);
        }
        let uri = self.uris[index].clone();
        self.statuses.set(index, SegmentStatus::InFlight);
        self.started = index + 1;
        self.in_flight = self.in_flight + 1;
        proof {
            assert(self@.uris =~= old(self)@.uris);
            assert(self@ == old(self)@.start());
        }
        Some(DownloadTask::new(index, uri, self.retries))
    }

    /// Records that segment `index` settled: with its plaintext, or with
    /// the reason for which it failed for good. Its pool slot is released.
    ///
    /// While the job has not failed, the plaintext is persisted under the
    /// segment's index and counted, and the progress event is returned; a
    /// failure becomes the job's failure. Once the job has failed, what
    /// settles is dropped. A segment that holds no slot changes nothing.
    pub fn settle(&mut self, index: usize, outcome: Result<Vec<u8>, PipelineError>) -> (p: Option<
        Progress,
    >)
        requires
            old(self).wf(),
        ensures
            final(self).wf(),
            final(self)@ == old(self)@.settle(index as int, outcome_model(outcome)),
            p == progress_after(old(self)@, index as int, outcome_model(outcome)),
            final(self)@.in_flight() + if old(self)@.is_in_flight(index as int) {
                1nat
            } else {
                0nat
            } == old(self)@.in_flight(),
            final(self)@.completed() == old(self)@.completed() + if p is Some {
                1nat
            } else {
                0nat
            },
    {
        if index >= self.statuses.len() {
            return None;
        }
        match self.statuses[index] {
            SegmentStatus::InFlight => {},
            _ => {
                return None;
            },
        }
        proof {
            lemma_settle_inv(old(self)@, index as int, outcome_model(outcome));
            lemma_count_bounded(old(self)@.statuses, SegmentStatus::Completed);
            lemma_count_bounded(
                old(self)@.settle(index as int, outcome_model(outcome)).statuses,
                SegmentStatus::Completed,
            );
        }
        self.in_flight = self.in_flight - 1;
        if self.failure.is_some() {
            self.statuses.set(index, SegmentStatus::Discarded);
            proof {
                assert(self@.uris =~= old(self)@.uris);
                assert(self@ == old(self)@.settle(index as int, outcome_model(outcome)));
            }
            None
        } else {
            match outcome {
                Ok(data) => {
                    self.statuses.set(index, SegmentStatus::Completed);
                    self.store.put(index, data);
                    self.completed = self.completed + 1;
                    proof {
                        assert(self@.uris =~= old(self)@.uris);
                        assert(self@ == old(self)@.settle(index as int, outcome_model(outcome)));
                    }
                    Some(Progress { index, completed: self.completed, total: self.statuses.len() })
                },
                Err(cause) => {
                    self.statuses.set(index, SegmentStatus::Failed);
                    self.failure = Some(JobFailure { segment: index, cause });
                    proof {
                        assert(self@.uris =~= old(self)@.uris);
                        assert(self@ == old(self)@.settle(index as int, outcome_model(outcome)));
                    }
                    None
                },
            }
        }
    }

    /// Settles the segment of a finished task. After a successful attempt
    /// `body` is what the response carried: it is decrypted with the job's
    /// key, or taken as it is where there is none, and the segment settles
    /// with the plaintext or with the decryption error. After the last
    /// failed attempt the segment settles with `SegmentFetch`. A task that
    /// is still open changes nothing.
    pub fn finish_task(&mut self, task: &DownloadTask, body: Vec<u8>) -> (p: Option<Progress>)
        requires
            old(self).wf(),
        ensures
            final(self).wf(),
            match task_outcome(old(self)@.key, task.state().status, body@) {
                Some(outcome) => {
                    &&& final(self)@ == old(self)@.settle(task.index_spec() as int, outcome)
                    &&& p == progress_after(old(self)@, task.index_spec() as int, outcome)
                },
                None => final(self)@ == old(self)@ && p is None,
            },
    {
        match task.status() {
            TaskStatus::Open => None,
            TaskStatus::Succeeded => {
                let outcome = decrypt_segment(body, self.key.as_ref());
                self.settle(task.index(), outcome)
            },
            TaskStatus::Failed => self.settle(task.index(), Err(PipelineError::SegmentFetch)),
        }
    }

    /// Ends the job. Where every segment is completed, merges them in
    /// ascending index order into one byte stream. Where the job failed and
    /// nothing is in flight any more, reports the failure; no merged stream
    /// is produced. A job that has not ended is handed back unchanged.
    pub fn finish(self) -> (r: Result<JobResult, Job>)
        requires
            self.wf(),
        ensures
            match self@.result() {
                Some(result) => r matches Ok(x) && x@ == result,
                None => r matches Err(job) && job == self,
            },
    {
        match self.failure {
            Some(f) => {
                if self.in_flight == 0 {
                    Ok(JobResult::Failed(f))
                } else {
                    Err(self)
                }
            },
            None => {
                if self.completed == self.statuses.len() {
                    let mut job = self;
                    let total = job.statuses.len();
                    let mut sink: Vec<u8> = Vec::new();
                    proof {
                        lemma_count_extremes(self@.statuses, SegmentStatus::Completed);
                        assert forall|i: int| 0 <= i < total implies present(self@.slots, i) by {
                            assert(self@.statuses[i] == SegmentStatus::Completed);
                        }
                    }
                    let merged = merge(total, &mut job.store, &mut sink, false);
                    assert(merged is Ok);
                    assert(sink@ =~= concat_prefix(self@.slots, total as int));
                    Ok(JobResult::Merged(sink))
                } else {
                    Err(self)
                }
            },
        }
    }
}

/// Sets up the job for the segments of a media manifest: resolves every
/// segment's location against the base, in manifest order, and schedules
/// nothing yet. Fails with the error of the first location that cannot be
/// resolved.
pub fn prepare_job(
    segments: &[Segment],
    base: Option<&str>,
    key: Option<EncryptionKey>,
    concurrency: usize,
    retries: u8,
) -> (r: Result<Job, PipelineError>)
    ensures
        match resolved_all(text_of(base), segment_uris(segments@)) {
            Ok(uris) => r matches Ok(job) && job.wf() && job@ == initial_job(
                uris,
                owned_key_model(key),
                concurrency as nat,
                retries,
            ),
            Err(e) => r matches Err(x) && x == e,
        },
{
    match resolve_segment_uris(base, segments) {
        Ok(uris) => Ok(Job::new(uris, key, concurrency, retries)),
        Err(e) => Err(e),
    }
}

} // verus!
