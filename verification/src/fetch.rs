use crate::store::{temp_store_name, temp_store_name_of};
use vstd::prelude::*;

verus! {

/// Milliseconds to wait between two attempts on one segment. The delay is
/// fixed: it does not grow and has no jitter.
pub const RETRY_DELAY_MS: u64 = 2000;

/// Seconds after which a request is abandoned.
pub const REQUEST_TIMEOUT_SECS: u64 = 30;

/// How one GET ended.
#[derive(Clone, Copy, Debug, PartialEq, Eq, Structural)]
pub enum Response {
    /// A response arrived, with this status code.
    Status(u16),
    /// No response arrived.
    TransportError,
}

/// A status in the 2xx range.
pub open spec fn is_success_status(status: u16) -> bool {
    200 <= status < 300
}

/// The attempt succeeded: a response arrived and its status is 2xx.
pub open spec fn is_success(response: Response) -> bool {
    match response {
        Response::Status(s) => is_success_status(s),
        Response::TransportError => false,
    }
}

pub fn status_is_success(status: u16) -> (b: bool)
    ensures
        b == is_success_status(status),
{
    200 <= status && status < 300
}

pub fn response_is_success(response: Response) -> (b: bool)
    ensures
        b == is_success(response),
{
    match response {
        Response::Status(s) => status_is_success(s),
        Response::TransportError => false,
    }
}

/// Where a download task stands.
#[derive(Clone, Copy, Debug, PartialEq, Eq, Structural)]
pub enum TaskStatus {
    /// More attempts may follow.
    Open,
    /// An attempt succeeded; the task makes no further attempt.
    Succeeded,
    /// Every attempt failed.
    Failed,
}

/// The state of a download task as far as retrying goes: the attempts
/// issued so far, and where it stands.
pub struct TaskState {
    pub attempts: nat,
    pub status: TaskStatus,
}

/// A task before its first attempt. With no attempt allowed it has failed
/// already.
pub open spec fn initial_state(retries: nat) -> TaskState {
    if retries == 0 {
        TaskState { attempts: 0, status: TaskStatus::Failed }
    } else {
        TaskState { attempts: 1, status: TaskStatus::Open }
    }
}

/// The state after the response to the attempt in flight. A settled task
/// ignores responses.
pub open spec fn after_response(retries: nat, s: TaskState, response: Response) -> TaskState {
    if s.status != TaskStatus::Open {
        s
    } else if is_success(response) {
        TaskState { attempts: s.attempts, status: TaskStatus::Succeeded }
    } else if s.attempts < retries {
        TaskState { attempts: s.attempts + 1, status: TaskStatus::Open }
    } else {
        TaskState { attempts: s.attempts, status: TaskStatus::Failed }
    }
}

/// The state after the responses of `responses`, in that order.
pub open spec fn after_responses(retries: nat, responses: Seq<Response>) -> TaskState
    decreases responses.len(),
{
    if responses.len() == 0 {
        initial_state(retries)
    } else {
        after_response(retries, after_responses(retries, responses.drop_last()), responses.last())
    }
}

/// What the fetcher is to do next.
#[derive(Clone, Copy, Debug, PartialEq, Eq, Structural)]
pub enum FetchStep {
    /// Issue the GET with this attempt number now.
    Attempt { attempt: u8 },
    /// Wait `delay_ms` milliseconds, then issue the GET with this attempt
    /// number.
    RetryAfter { delay_ms: u64, attempt: u8 },
    /// The last response carries the segment's data.
    Done,
    /// The segment has failed for good.
    GiveUp,
}

/// One segment's download: its index, where to get it, and how often it was
/// tried.
#[derive(Debug)]
pub struct DownloadTask {
    index: usize,
    uri: String,
    retries: u8,
    attempts: u8,
    status: TaskStatus,
}

impl DownloadTask {
    pub closed spec fn index_spec(&self) -> usize {
        self.index
    }

    pub closed spec fn uri_spec(&self) -> Seq<char> {
        self.uri@
    }

    pub closed spec fn retries_spec(&self) -> u8 {
        self.retries
    }

    /// The task's retry state.
    pub closed spec fn state(&self) -> TaskState {
        TaskState { attempts: self.attempts as nat, status: self.status }
    }

    /// The attempt counter never passes the limit, and an open task has an
    /// attempt in flight.
    pub closed spec fn wf(&self) -> bool {
        &&& self.attempts <= self.retries
        &&& self.status == TaskStatus::Open ==> self.attempts >= 1
    }

    /// A task for segment `index` at `uri`, allowed `retries` attempts,
    /// together with its first step: the first attempt, or `GiveUp` where no
    /// attempt is allowed.
    pub fn new(index: usize, uri: String, retries: u8) -> (r: (DownloadTask, FetchStep))
        ensures
            r.0.wf(),
            r.0.index_spec() == index,
            r.0.uri_spec() == uri@,
            r.0.retries_spec() == retries,
            r.0.state() == initial_state(retries as nat),
            r.1 == if retries == 0 {
                FetchStep::GiveUp
            } else {
                FetchStep::Attempt { attempt: 1 }
            },
    {
        if retries == 0 {
            (
                DownloadTask { index, uri, retries, attempts: 0, status: TaskStatus::Failed },
                FetchStep::GiveUp,
            )
        } else {
            (
                DownloadTask { index, uri, retries, attempts: 1, status: TaskStatus::Open },
                FetchStep::Attempt { attempt: 1 },
            )
        }
    }

    #[verifier::when_used_as_spec(index_spec)]
    pub fn index(&self) -> (i: usize)
        ensures
            i == self.index_spec(),
    {
        self.index
    }

    pub fn uri(&self) -> (u: &str)
        ensures
            u@ == self.uri_spec(),
    {
        self.uri.as_str()
    }

    #[verifier::when_used_as_spec(retries_spec)]
    pub fn retries(&self) -> (n: u8)
        ensures
            n == self.retries_spec(),
    {
        self.retries
    }

    /// Name of the temporary store that takes the segment's data.
    pub fn store_name(&self) -> (name: String)
        ensures
            name@ == temp_store_name_of(self.index_spec() as nat),
    {
        temp_store_name(self.index)
    }

    /// Number of attempts issued so far.
    pub fn attempts(&self) -> (n: u8)
        ensures
            n == self.state().attempts,
    {
        self.attempts
    }

    pub fn status(&self) -> (s: TaskStatus)
        ensures
            s == self.state().status,
    {
        self.status
    }

    /// Records the response to the attempt in flight and says what follows:
    /// `Done` after a success; after a failure another attempt once the
    /// fixed delay has passed, or `GiveUp` where that was the last attempt
    /// allowed. A settled task stays as it is and repeats its verdict.
    pub fn on_response(&mut self, response: Response) -> (step: FetchStep)
        requires
            old(self).wf(),
        ensures
            final(self).wf(),
            final(self).index_spec() == old(self).index_spec(),
            final(self).uri_spec() == old(self).uri_spec(),
            final(self).retries_spec() == old(self).retries_spec(),
            final(self).state() == after_response(
                old(self).retries_spec() as nat,
                old(self).state(),
                response,
            ),
            step == match final(self).state().status {
                TaskStatus::Succeeded => FetchStep::Done,
                TaskStatus::Failed => FetchStep::GiveUp,
                TaskStatus::Open => FetchStep::RetryAfter {
                    delay_ms: RETRY_DELAY_MS,
                    attempt: final(self).state().attempts as u8,
                },
            },
    {
        match self.status {
            TaskStatus::Succeeded => FetchStep::Done,
            TaskStatus::Failed => FetchStep::GiveUp,
            TaskStatus::Open => {
                if response_is_success(response) {
                    self.status = TaskStatus::Succeeded;
                    FetchStep::Done
                } else if self.attempts < self.retries {
                    self.attempts = self.attempts + 1;
                    FetchStep::RetryAfter { delay_ms: RETRY_DELAY_MS, attempt: self.attempts }
                } else {
                    self.status = TaskStatus::Failed;
                    FetchStep::GiveUp
                }
            },
        }
    }
}

/// While every response so far was a failure and attempts remain, the task
/// is open and the next attempt is in flight.
proof fn lemma_failures_keep_open(retries: nat, responses: Seq<Response>)
    requires
        responses.len() < retries,
        forall|k: int| 0 <= k < responses.len() ==> !is_success(#[trigger] responses[k]),
    ensures
        after_responses(retries, responses) == (TaskState {
            attempts: responses.len() + 1,
            status: TaskStatus::Open,
        }),
    decreases responses.len(),
{
    if responses.len() > 0 {
        lemma_failures_keep_open(retries, responses.drop_last());
    }
}

/// Retry success: a segment whose attempts fail up to the last one allowed,
/// and whose last attempt succeeds, has succeeded after exactly `retries`
/// attempts.
pub proof fn lemma_retry_success(retries: nat, responses: Seq<Response>)
    requires
        retries >= 1,
        responses.len() == retries,
        forall|k: int| 0 <= k < retries - 1 ==> !is_success(#[trigger] responses[k]),
        is_success(responses[retries - 1]),
    ensures
        after_responses(retries, responses) == (TaskState {
            attempts: retries,
            status: TaskStatus::Succeeded,
        }),
{
    lemma_failures_keep_open(retries, responses.drop_last());
}

/// Retry exhaustion: a segment whose `retries` attempts all fail has failed
/// for good, after exactly `retries` attempts.
pub proof fn lemma_retry_exhaustion(retries: nat, responses: Seq<Response>)
    requires
        responses.len() == retries,
        forall|k: int| 0 <= k < retries ==> !is_success(#[trigger] responses[k]),
    ensures
        after_responses(retries, responses) == (TaskState {
            attempts: retries,
            status: TaskStatus::Failed,
        }),
{
    if retries > 0 {
        lemma_failures_keep_open(retries, responses.drop_last());
    }
}

/// A settled task makes no further attempt, whatever arrives later.
pub proof fn lemma_settled_is_final(retries: nat, s: TaskState, response: Response)
    requires
        s.status != TaskStatus::Open,
    ensures
        after_response(retries, s, response) == s,
{
}

} // verus!
