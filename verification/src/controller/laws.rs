use crate::cipher::{segment_plaintext, KeyModel};
use crate::controller::model::{
    after_event, after_events, count, events_carry, initial_job, task_outcome, JobEvent, JobFailure,
    JobModel, JobResultModel, SegmentStatus,
};
use crate::error::PipelineError;
use crate::fetch::{
    after_responses, is_success, lemma_retry_exhaustion, lemma_retry_success, Response,
};
use crate::store::{all_present, concat_prefix, joined, lemma_concat_of_all, present};
use vstd::prelude::*;

verus! {

pub proof fn lemma_count_bounded(statuses: Seq<SegmentStatus>, st: SegmentStatus)
    ensures
        count(statuses, st) <= statuses.len(),
    decreases statuses.len(),
{
    if statuses.len() > 0 {
        lemma_count_bounded(statuses.drop_last(), st);
    }
}

/// Changing one segment's status moves one unit from the old status's count
/// to the new one's.
pub proof fn lemma_count_update(
    statuses: Seq<SegmentStatus>,
    i: int,
    to: SegmentStatus,
    st: SegmentStatus,
)
    requires
        0 <= i < statuses.len(),
    ensures
        count(statuses.update(i, to), st) + (if statuses[i] == st {
            1int
        } else {
            0int
        }) == count(statuses, st) + (if to == st {
            1int
        } else {
            0int
        }),
    decreases statuses.len(),
{
    let updated = statuses.update(i, to);
    if i == statuses.len() - 1 {
        assert(updated.drop_last() =~= statuses.drop_last());
    } else {
        assert(updated.drop_last() =~= statuses.drop_last().update(i, to));
        lemma_count_update(statuses.drop_last(), i, to, st);
    }
}

/// No segment stands at `st` exactly when the count is zero, and all do
/// exactly when the count is the length.
pub proof fn lemma_count_extremes(statuses: Seq<SegmentStatus>, st: SegmentStatus)
    ensures
        count(statuses, st) == 0 <==> forall|i: int|
            0 <= i < statuses.len() ==> #[trigger] statuses[i] != st,
        count(statuses, st) == statuses.len() <==> forall|i: int|
            0 <= i < statuses.len() ==> #[trigger] statuses[i] == st,
    decreases statuses.len(),
{
    if statuses.len() > 0 {
        let rest = statuses.drop_last();
        lemma_count_extremes(rest, st);
        lemma_count_bounded(rest, st);
        assert forall|i: int| 0 <= i < rest.len() implies rest[i] == statuses[i] by {}
        if count(statuses, st) == 0 {
            assert forall|i: int| 0 <= i < statuses.len() implies #[trigger] statuses[i]
                != st by {
                if i < rest.len() {
                    assert(rest[i] != st);
                }
            }
        }
        if count(statuses, st) == statuses.len() {
            assert forall|i: int| 0 <= i < statuses.len() implies #[trigger] statuses[i]
                == st by {
                if i < rest.len() {
                    assert(rest[i] == st);
                }
            }
        }
        if forall|i: int| 0 <= i < statuses.len() ==> #[trigger] statuses[i] != st {
            assert forall|i: int| 0 <= i < rest.len() implies #[trigger] rest[i] != st by {
                assert(statuses[i] != st);
            }
        }
        if forall|i: int| 0 <= i < statuses.len() ==> #[trigger] statuses[i] == st {
            assert forall|i: int| 0 <= i < rest.len() implies #[trigger] rest[i] == st by {
                assert(statuses[i] == st);
            }
        }
    }
}

/// A new job satisfies the invariant and has nothing in flight.
pub proof fn lemma_initial_inv(
    uris: Seq<Seq<char>>,
    key: Option<KeyModel>,
    limit: nat,
    retries: u8,
)
    requires
        uris.len() <= usize::MAX,
    ensures
        initial_job(uris, key, limit, retries).inv(),
        initial_job(uris, key, limit, retries).in_flight() == 0,
        initial_job(uris, key, limit, retries).completed() == 0,
{
    let m = initial_job(uris, key, limit, retries);
    lemma_count_extremes(m.statuses, SegmentStatus::InFlight);
    lemma_count_extremes(m.statuses, SegmentStatus::Completed);
}

/// Starting a segment keeps the invariant; when it starts, one more
/// pipeline is in flight and the count stays within the limit.
pub proof fn lemma_start_inv(m: JobModel)
    requires
        m.inv(),
    ensures
        m.start().inv(),
        m.can_start() ==> m.start().in_flight() == m.in_flight() + 1,
        m.start().completed() == m.completed(),
        m.start().failure == m.failure,
        m.start().slots == m.slots,
{
    if m.can_start() {
        let i = m.started as int;
        assert(m.statuses[i] == SegmentStatus::Pending);
        lemma_count_update(m.statuses, i, SegmentStatus::InFlight, SegmentStatus::InFlight);
        lemma_count_update(m.statuses, i, SegmentStatus::InFlight, SegmentStatus::Completed);
        let n = m.start();
        assert forall|k: int| 0 <= k < n.total() implies ((#[trigger] n.statuses[k]
            == SegmentStatus::Pending) <==> k >= n.started) by {
            if k != i {
                assert(n.statuses[k] == m.statuses[k]);
            }
        }
        assert forall|k: int| 0 <= k < n.total() implies ((#[trigger] n.statuses[k]
            == SegmentStatus::Completed) <==> present(n.slots, k)) by {
            assert(m.statuses[k] == SegmentStatus::Completed <==> present(m.slots, k));
        }
        assert forall|k: int| 0 <= k < n.total() implies (#[trigger] n.statuses[k])
            != SegmentStatus::Failed && n.statuses[k] != SegmentStatus::Discarded by {
            assert(m.statuses[k] != SegmentStatus::Failed);
        }
    }
}

/// Settling a segment keeps the invariant and releases its slot.
pub proof fn lemma_settle_inv(m: JobModel, index: int, outcome: Result<Seq<u8>, PipelineError>)
    requires
        m.inv(),
    ensures
        m.settle(index, outcome).inv(),
        m.is_in_flight(index) ==> m.settle(index, outcome).in_flight() + 1 == m.in_flight(),
        m.settle(index, outcome).completed() == m.completed() + if m.is_in_flight(index)
            && m.failure is None && outcome is Ok {
            1nat
        } else {
            0nat
        },
{
    if m.is_in_flight(index) {
        let n = m.settle(index, outcome);
        let to = n.statuses[index];
        assert(n.statuses =~= m.statuses.update(index, to));
        lemma_count_update(m.statuses, index, to, SegmentStatus::InFlight);
        lemma_count_update(m.statuses, index, to, SegmentStatus::Completed);
        assert(index < m.started) by {
            assert(m.statuses[index] != SegmentStatus::Pending);
        }
        assert forall|k: int| 0 <= k < n.total() implies ((#[trigger] n.statuses[k]
            == SegmentStatus::Pending) <==> k >= n.started) by {
            assert(m.statuses[k] == SegmentStatus::Pending <==> k >= m.started);
        }
        assert forall|k: int| 0 <= k < n.total() implies ((#[trigger] n.statuses[k]
            == SegmentStatus::Completed) <==> present(n.slots, k)) by {
            assert(m.statuses[k] == SegmentStatus::Completed <==> present(m.slots, k));
        }
        if n.failure is None {
            assert forall|k: int| 0 <= k < n.total() implies (#[trigger] n.statuses[k])
                != SegmentStatus::Failed && n.statuses[k] != SegmentStatus::Discarded by {
                assert(m.statuses[k] != SegmentStatus::Failed);
            }
        } else {
            let f = n.failure->Some_0;
            assert forall|k: int| 0 <= k < n.total() implies ((#[trigger] n.statuses[k]
                == SegmentStatus::Failed) <==> k == f.segment) by {
                if m.failure is Some {
                    assert(m.statuses[k] == SegmentStatus::Failed <==> k == f.segment);
                } else {
                    assert(m.statuses[k] != SegmentStatus::Failed);
                }
            }
        }
    }
}

/// Every event keeps the invariant.
pub proof fn lemma_event_inv(m: JobModel, e: JobEvent)
    requires
        m.inv(),
    ensures
        after_event(m, e).inv(),
{
    match e {
        JobEvent::Start => lemma_start_inv(m),
        JobEvent::Settle(index, outcome) => lemma_settle_inv(m, index, outcome),
    }
}

/// Concurrency bound: whatever happens to a job, in whatever order, the
/// number of pipelines in flight never passes the pool size.
pub proof fn lemma_concurrency_bound(m: JobModel, events: Seq<JobEvent>)
    requires
        m.inv(),
    ensures
        after_events(m, events).inv(),
        after_events(m, events).in_flight() <= m.limit,
        after_events(m, events).limit == m.limit,
    decreases events.len(),
{
    if events.len() > 0 {
        lemma_concurrency_bound(m, events.drop_last());
        lemma_event_inv(after_events(m, events.drop_last()), events.last());
    }
}

/// A segment that settles with its data is persisted once and counts once:
/// the completed count grows by one, only that segment's store changes, and
/// settling the same segment again changes nothing.
pub proof fn lemma_completion_counts_once(
    m: JobModel,
    index: int,
    data: Seq<u8>,
    again: Result<Seq<u8>, PipelineError>,
)
    requires
        m.inv(),
        m.is_in_flight(index),
        m.failure is None,
    ensures
        m.settle(index, Ok(data)).completed() == m.completed() + 1,
        m.settle(index, Ok(data)).slots == m.slots.update(index, Some(data)),
        m.settle(index, Ok(data)).settle(index, again) == m.settle(index, Ok(data)),
{
    lemma_settle_inv(m, index, Ok(data));
}

/// A segment that fails for good while the job has not failed decides the
/// job: the failure names that segment and its cause.
pub proof fn lemma_failure_decides(m: JobModel, index: int, cause: PipelineError)
    requires
        m.inv(),
        m.is_in_flight(index),
        m.failure is None,
    ensures
        m.settle(index, Err(cause)).failure == Some(
            JobFailure { segment: index as usize, cause },
        ),
        m.settle(index, Err(cause)).completed() == m.completed(),
        m.settle(index, Err(cause)).slots == m.slots,
{
    lemma_settle_inv(m, index, Err(cause));
}

/// Once a job has failed it stays failed with the same failure, whatever
/// happens later: nothing new starts, nothing more is persisted or counted,
/// and the result is never a merged stream.
pub proof fn lemma_failure_is_final(m: JobModel, events: Seq<JobEvent>)
    requires
        m.inv(),
        m.failure is Some,
    ensures
        after_events(m, events).failure == m.failure,
        after_events(m, events).started == m.started,
        after_events(m, events).completed() == m.completed(),
        after_events(m, events).slots == m.slots,
        !(after_events(m, events).result() matches Some(JobResultModel::Merged(_))),
    decreases events.len(),
{
    if events.len() > 0 {
        let before = after_events(m, events.drop_last());
        lemma_failure_is_final(m, events.drop_last());
        lemma_concurrency_bound(m, events.drop_last());
        match events.last() {
            JobEvent::Start => lemma_start_inv(before),
            JobEvent::Settle(index, outcome) => lemma_settle_inv(before, index, outcome),
        }
    }
}

/// A job whose pool has a slot never stalls: while it has not ended, a
/// segment is in flight or the next one can start.
pub proof fn lemma_never_stuck(m: JobModel)
    requires
        m.inv(),
        m.limit >= 1,
        m.result() is None,
    ensures
        m.in_flight() > 0 || m.can_start(),
{
    if m.failure is None && m.in_flight() == 0 && m.started == m.total() {
        lemma_count_extremes(m.statuses, SegmentStatus::InFlight);
        lemma_count_extremes(m.statuses, SegmentStatus::Completed);
        assert forall|i: int| 0 <= i < m.statuses.len() implies #[trigger] m.statuses[i]
            == SegmentStatus::Completed by {
            assert(m.statuses[i] != SegmentStatus::Pending);
            assert(m.statuses[i] != SegmentStatus::InFlight);
            assert(m.statuses[i] != SegmentStatus::Failed);
        }
    }
}

/// A merged result holds every segment's data exactly once, in ascending
/// index order.
pub proof fn lemma_merged_is_complete(m: JobModel)
    requires
        m.inv(),
        m.result() matches Some(JobResultModel::Merged(_)),
    ensures
        m.failure is None,
        all_present(m.slots, m.total() as int),
        m.result() == Some(JobResultModel::Merged(concat_prefix(m.slots, m.total() as int))),
{
    lemma_count_extremes(m.statuses, SegmentStatus::Completed);
    assert forall|i: int| 0 <= i < m.total() implies present(m.slots, i) by {
        assert(m.statuses[i] == SegmentStatus::Completed);
    }
}

/// From its first state on, a job never has more pipelines in flight than
/// its pool has slots.
pub proof fn lemma_bound_from_start(
    uris: Seq<Seq<char>>,
    key: Option<KeyModel>,
    limit: nat,
    retries: u8,
    events: Seq<JobEvent>,
)
    requires
        uris.len() <= usize::MAX,
    ensures
        after_events(initial_job(uris, key, limit, retries), events).in_flight() <= limit,
{
    lemma_initial_inv(uris, key, limit, retries);
    lemma_concurrency_bound(initial_job(uris, key, limit, retries), events);
}

/// Two segments that complete one after the other leave the same state in
/// either order.
pub proof fn lemma_settle_commutes(m: JobModel, i: int, a: Seq<u8>, j: int, b: Seq<u8>)
    requires
        m.inv(),
        m.failure is None,
        m.is_in_flight(i),
        m.is_in_flight(j),
        i != j,
    ensures
        m.settle(i, Ok(a)).settle(j, Ok(b)) == m.settle(j, Ok(b)).settle(i, Ok(a)),
{
    let x = m.settle(i, Ok(a)).settle(j, Ok(b));
    let y = m.settle(j, Ok(b)).settle(i, Ok(a));
    assert(x.statuses =~= y.statuses);
    assert(x.slots =~= y.slots);
}

/// Whatever has happened, each store that exists holds its segment's chunk.
proof fn lemma_stores_hold_chunks(m: JobModel, events: Seq<JobEvent>, chunks: Seq<Seq<u8>>)
    requires
        m.inv(),
        chunks.len() == m.total(),
        forall|i: int| 0 <= i < m.total() && present(m.slots, i) ==> m.slots[i] == Some(chunks[i]),
        events_carry(events, chunks),
    ensures
        after_events(m, events).inv(),
        after_events(m, events).total() == m.total(),
        forall|i: int|
            0 <= i < m.total() && present(after_events(m, events).slots, i) ==> after_events(
                m,
                events,
            ).slots[i] == Some(chunks[i]),
    decreases events.len(),
{
    if events.len() > 0 {
        let before = after_events(m, events.drop_last());
        assert forall|k: int| 0 <= k < events.drop_last().len() implies (
        #[trigger] events.drop_last()[k] matches JobEvent::Settle(i, Ok(data)) ==> 0 <= i
            < chunks.len() && data == chunks[i]) by {
            assert(events.drop_last()[k] == events[k]);
        }
        lemma_stores_hold_chunks(m, events.drop_last(), chunks);
        lemma_event_inv(before, events.last());
        assert(events[events.len() - 1] == events.last());
    }
}

/// Order invariance: in whatever order the segments start and complete,
/// a job that ends with a merged stream has merged the chunks in ascending
/// index order.
pub proof fn lemma_job_order_invariant(
    uris: Seq<Seq<char>>,
    key: Option<KeyModel>,
    limit: nat,
    retries: u8,
    events: Seq<JobEvent>,
    chunks: Seq<Seq<u8>>,
)
    requires
        uris.len() <= usize::MAX,
        chunks.len() == uris.len(),
        events_carry(events, chunks),
    ensures
        after_events(initial_job(uris, key, limit, retries), events).result() matches Some(
            JobResultModel::Merged(bytes),
        ) ==> bytes == joined(chunks),
{
    let m = initial_job(uris, key, limit, retries);
    let end = after_events(m, events);
    lemma_initial_inv(uris, key, limit, retries);
    lemma_stores_hold_chunks(m, events, chunks);
    if end.result() matches Some(JobResultModel::Merged(bytes)) {
        lemma_merged_is_complete(end);
        assert(end.slots =~= chunks.map_values(|c: Seq<u8>| Some(c)));
        lemma_concat_of_all(chunks, chunks.len() as int);
        assert(chunks.take(chunks.len() as int) =~= chunks);
    }
}

/// Retry success, seen from the job: a segment whose attempts fail up to
/// the last one allowed and whose last attempt succeeds settles with the
/// plaintext of the last response. Where that is data, it is persisted
/// under the segment's index and counted exactly once.
pub proof fn lemma_retry_success_counts_once(
    m: JobModel,
    index: int,
    responses: Seq<Response>,
    body: Seq<u8>,
)
    requires
        m.inv(),
        m.is_in_flight(index),
        m.failure is None,
        m.retries >= 1,
        responses.len() == m.retries,
        forall|k: int| 0 <= k < m.retries - 1 ==> !is_success(#[trigger] responses[k]),
        is_success(responses[m.retries - 1]),
        segment_plaintext(m.key, body) is Ok,
    ensures
        ({
            let task = after_responses(m.retries as nat, responses);
            let plain = segment_plaintext(m.key, body)->Ok_0;
            let after = m.settle(index, Ok(plain));
            &&& task.attempts == m.retries
            &&& task_outcome(m.key, task.status, body) == Some(segment_plaintext(m.key, body))
            &&& after.completed() == m.completed() + 1
            &&& after.slots == m.slots.update(index, Some(plain))
            &&& after.settle(index, Ok(plain)) == after
        }),
{
    lemma_retry_success(m.retries as nat, responses);
    let plain = segment_plaintext(m.key, body)->Ok_0;
    lemma_completion_counts_once(m, index, plain, Ok(plain));
}

/// Retry exhaustion, seen from the job: a segment whose attempts all fail
/// settles with `SegmentFetch` and decides the job. Whatever happens
/// later, the job keeps that failure and never yields a merged stream.
pub proof fn lemma_retry_exhaustion_fails_job(
    m: JobModel,
    index: int,
    responses: Seq<Response>,
    body: Seq<u8>,
    later: Seq<JobEvent>,
)
    requires
        m.inv(),
        m.is_in_flight(index),
        m.failure is None,
        responses.len() == m.retries,
        forall|k: int| 0 <= k < m.retries ==> !is_success(#[trigger] responses[k]),
    ensures
        ({
            let task = after_responses(m.retries as nat, responses);
            let failed = m.settle(index, Err(PipelineError::SegmentFetch));
            let failure = Some(
                JobFailure { segment: index as usize, cause: PipelineError::SegmentFetch },
            );
            &&& task.attempts == m.retries
            &&& task_outcome(m.key, task.status, body) == Some(
                Err::<Seq<u8>, PipelineError>(PipelineError::SegmentFetch),
            )
            &&& failed.failure == failure
            &&& after_events(failed, later).failure == failure
            &&& !(after_events(failed, later).result() matches Some(JobResultModel::Merged(_)))
        }),
{
    lemma_retry_exhaustion(m.retries as nat, responses);
    lemma_failure_decides(m, index, PipelineError::SegmentFetch);
    lemma_settle_inv(m, index, Err(PipelineError::SegmentFetch));
    lemma_failure_is_final(m.settle(index, Err(PipelineError::SegmentFetch)), later);
}

} // verus!
