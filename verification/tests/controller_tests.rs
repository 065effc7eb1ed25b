use aes::Aes128;
use block_modes::block_padding::Pkcs7;
use block_modes::{BlockMode, Cbc};
use hls2mp4::{
    prepare_job, DownloadTask, EncryptionKey, FetchStep, Job, JobFailure, JobResult, KeyRef,
    PipelineError, Progress, Response, Segment, SegmentStatus,
};

const KEY: [u8; 16] = [7; 16];
const IV: [u8; 16] = [9; 16];

fn uris(n: usize) -> Vec<String> {
    (0..n).map(|i| format!("https://example.com/v/seg{}.ts", i)).collect()
}

fn job(n: usize, concurrency: usize, retries: u8) -> Job {
    Job::new(uris(n), None, concurrency, retries)
}

fn start(job: &mut Job) -> DownloadTask {
    let (task, step) = job.start_next().unwrap();
    assert_eq!(step, FetchStep::Attempt { attempt: 1 });
    task
}

fn start_all(job: &mut Job, n: usize) -> Vec<DownloadTask> {
    (0..n).map(|_| start(job)).collect()
}

fn merged(job: Job) -> Vec<u8> {
    match job.finish() {
        Ok(JobResult::Merged(bytes)) => bytes,
        other => panic!("a merged stream was expected, not {:?}", other),
    }
}

fn encrypt(plain: &[u8]) -> Vec<u8> {
    Cbc::<Aes128, Pkcs7>::new_from_slices(&KEY, &IV).unwrap().encrypt_vec(plain)
}

#[test]
fn new_job_has_nothing_started() {
    let j = job(3, 2, 3);
    assert_eq!(j.total(), 3);
    assert_eq!(j.concurrency(), 2);
    assert_eq!(j.in_flight(), 0);
    assert_eq!(j.completed(), 0);
    assert_eq!(j.failure(), None);
    assert!(j.key().is_none());
    assert!(!j.is_settled());
    for i in 0..3 {
        assert_eq!(j.status(i), Some(SegmentStatus::Pending));
    }
    assert_eq!(j.status(3), None);
}

#[test]
fn tasks_start_in_manifest_order_with_their_uris() {
    let mut j = job(3, 3, 4);
    for i in 0..3 {
        let t = start(&mut j);
        assert_eq!(t.index(), i);
        assert_eq!(t.uri(), format!("https://example.com/v/seg{}.ts", i));
        assert_eq!(t.retries(), 4);
        assert_eq!(j.status(i), Some(SegmentStatus::InFlight));
    }
    assert!(j.start_next().is_none());
}

#[test]
fn concurrency_bound_is_never_passed() {
    for k in 1..=4usize {
        let n = 9;
        let mut j = job(n, k, 1);
        let mut running: Vec<usize> = Vec::new();
        let mut done = 0;
        while done < n {
            while let Some((task, _)) = j.start_next() {
                running.push(task.index());
                assert!(j.in_flight() <= k);
            }
            assert_eq!(j.in_flight(), running.len());
            assert_eq!(j.in_flight(), k.min(n - done));
            // The one started last settles first.
            let index = running.pop().unwrap();
            assert!(j.settle(index, Ok(vec![index as u8])).is_some());
            done += 1;
            assert!(j.in_flight() <= k);
        }
        assert_eq!(merged(j), (0..n as u8).collect::<Vec<u8>>());
    }
}

#[test]
fn empty_pool_starts_nothing() {
    let mut j = job(2, 0, 3);
    assert!(j.start_next().is_none());
    assert_eq!(j.in_flight(), 0);
    assert!(!j.is_settled());
    assert!(j.finish().is_err());
}

#[test]
fn progress_counts_each_completion_once() {
    let mut j = job(3, 3, 3);
    start_all(&mut j, 3);
    assert_eq!(
        j.settle(2, Ok(b"cc".to_vec())),
        Some(Progress { index: 2, completed: 1, total: 3 })
    );
    assert_eq!(j.settle(2, Ok(b"again".to_vec())), None);
    assert_eq!(j.settle(2, Err(PipelineError::SegmentFetch)), None);
    assert_eq!(j.completed(), 1);
    assert_eq!(j.in_flight(), 2);
    assert_eq!(j.failure(), None);
    assert_eq!(
        j.settle(0, Ok(b"aa".to_vec())),
        Some(Progress { index: 0, completed: 2, total: 3 })
    );
    assert_eq!(
        j.settle(1, Ok(b"bb".to_vec())),
        Some(Progress { index: 1, completed: 3, total: 3 })
    );
    assert!(j.is_settled());
    assert_eq!(merged(j), b"aabbcc".to_vec());
}

#[test]
fn settling_what_is_not_in_flight_changes_nothing() {
    let mut j = job(2, 1, 3);
    assert_eq!(j.settle(0, Ok(vec![1])), None);
    assert_eq!(j.settle(5, Ok(vec![1])), None);
    assert_eq!(j.settle(1, Err(PipelineError::Padding)), None);
    assert_eq!(j.completed(), 0);
    assert_eq!(j.failure(), None);
    assert_eq!(j.status(0), Some(SegmentStatus::Pending));
    let t = start(&mut j);
    assert_eq!(t.index(), 0);
}

#[test]
fn merge_is_independent_of_completion_order() {
    let chunks: Vec<Vec<u8>> =
        vec![b"zero ".to_vec(), b"one ".to_vec(), Vec::new(), b"three ".to_vec(), b"four".to_vec()];
    let expected = b"zero one three four".to_vec();
    let orders: [[usize; 5]; 4] =
        [[0, 1, 2, 3, 4], [4, 3, 2, 1, 0], [2, 4, 0, 3, 1], [1, 0, 4, 2, 3]];
    for order in orders.iter() {
        let mut j = job(5, 5, 3);
        start_all(&mut j, 5);
        for &i in order.iter() {
            assert!(j.settle(i, Ok(chunks[i].clone())).is_some());
        }
        assert_eq!(merged(j), expected);
    }
}

#[test]
fn retry_success_persists_once_and_counts_once() {
    let mut j = job(1, 1, 3);
    let mut t = start(&mut j);
    assert_eq!(
        t.on_response(Response::Status(500)),
        FetchStep::RetryAfter { delay_ms: 2000, attempt: 2 }
    );
    assert_eq!(j.finish_task(&t, b"early".to_vec()), None);
    assert_eq!(
        t.on_response(Response::TransportError),
        FetchStep::RetryAfter { delay_ms: 2000, attempt: 3 }
    );
    assert_eq!(j.completed(), 0);
    assert_eq!(j.in_flight(), 1);
    assert_eq!(t.on_response(Response::Status(200)), FetchStep::Done);
    assert_eq!(
        j.finish_task(&t, b"payload".to_vec()),
        Some(Progress { index: 0, completed: 1, total: 1 })
    );
    assert_eq!(j.finish_task(&t, b"payload".to_vec()), None);
    assert_eq!(j.completed(), 1);
    assert_eq!(j.in_flight(), 0);
    assert_eq!(j.status(0), Some(SegmentStatus::Completed));
    assert_eq!(merged(j), b"payload".to_vec());
}

#[test]
fn retry_exhaustion_fails_the_job() {
    let mut j = job(3, 2, 2);
    let mut a = start(&mut j);
    let b = start(&mut j);
    assert_eq!(
        a.on_response(Response::Status(404)),
        FetchStep::RetryAfter { delay_ms: 2000, attempt: 2 }
    );
    assert_eq!(a.on_response(Response::Status(404)), FetchStep::GiveUp);
    assert_eq!(j.finish_task(&a, Vec::new()), None);
    let failure = JobFailure { segment: 0, cause: PipelineError::SegmentFetch };
    assert_eq!(j.failure(), Some(failure));
    assert_eq!(j.status(0), Some(SegmentStatus::Failed));
    // Nothing new starts, though a slot is free and a segment is left.
    assert!(j.start_next().is_none());
    assert_eq!(j.status(2), Some(SegmentStatus::Pending));
    // The job waits for what is in flight, and drops its outcome.
    assert!(!j.is_settled());
    let mut j = match j.finish() {
        Err(j) => j,
        Ok(r) => panic!("the job has not ended yet, but gave {:?}", r),
    };
    assert_eq!(j.settle(b.index(), Ok(b"late".to_vec())), None);
    assert_eq!(j.status(1), Some(SegmentStatus::Discarded));
    assert_eq!(j.completed(), 0);
    assert_eq!(j.in_flight(), 0);
    assert!(j.is_settled());
    assert_eq!(j.finish().ok(), Some(JobResult::Failed(failure)));
}

#[test]
fn zero_retries_fail_without_an_attempt() {
    let mut j = job(2, 2, 0);
    let (t, step) = j.start_next().unwrap();
    assert_eq!(step, FetchStep::GiveUp);
    assert_eq!(j.finish_task(&t, Vec::new()), None);
    assert_eq!(
        j.finish().ok(),
        Some(JobResult::Failed(JobFailure { segment: 0, cause: PipelineError::SegmentFetch }))
    );
}

#[test]
fn first_failure_wins() {
    let mut j = job(3, 3, 1);
    start_all(&mut j, 3);
    assert_eq!(j.settle(1, Err(PipelineError::Padding)), None);
    assert_eq!(j.settle(0, Err(PipelineError::SegmentFetch)), None);
    assert_eq!(j.settle(2, Ok(b"x".to_vec())), None);
    let failure = JobFailure { segment: 1, cause: PipelineError::Padding };
    assert_eq!(j.failure(), Some(failure));
    assert_eq!(j.status(0), Some(SegmentStatus::Discarded));
    assert_eq!(j.status(1), Some(SegmentStatus::Failed));
    assert_eq!(j.status(2), Some(SegmentStatus::Discarded));
    assert_eq!(j.finish().ok(), Some(JobResult::Failed(failure)));
}

#[test]
fn completed_segments_do_not_rescue_a_failed_job() {
    let mut j = job(2, 2, 1);
    start_all(&mut j, 2);
    assert!(j.settle(0, Ok(b"good".to_vec())).is_some());
    assert_eq!(j.settle(1, Err(PipelineError::BlockAlignment)), None);
    assert_eq!(j.completed(), 1);
    assert_eq!(
        j.finish().ok(),
        Some(JobResult::Failed(JobFailure { segment: 1, cause: PipelineError::BlockAlignment }))
    );
}

#[test]
fn unfinished_job_is_handed_back() {
    let mut j = job(2, 1, 1);
    start(&mut j);
    assert!(j.settle(0, Ok(vec![1])).is_some());
    let mut j = j.finish().unwrap_err();
    assert_eq!(j.completed(), 1);
    assert_eq!(j.status(0), Some(SegmentStatus::Completed));
    start(&mut j);
    assert!(j.settle(1, Ok(vec![2])).is_some());
    assert_eq!(merged(j), vec![1, 2]);
}

#[test]
fn job_without_segments_merges_to_nothing() {
    let mut j = job(0, 4, 3);
    assert!(j.start_next().is_none());
    assert!(j.is_settled());
    assert_eq!(merged(j), Vec::<u8>::new());
}

#[test]
fn decryption_failure_is_fatal_and_not_retried() {
    let key = EncryptionKey::new(KEY.to_vec(), IV.to_vec()).unwrap();
    let mut j = Job::new(uris(2), Some(key), 2, 3);
    let mut t = start(&mut j);
    assert_eq!(t.on_response(Response::Status(200)), FetchStep::Done);
    assert_eq!(j.finish_task(&t, vec![1, 2, 3]), None);
    assert_eq!(
        j.failure(),
        Some(JobFailure { segment: 0, cause: PipelineError::BlockAlignment })
    );
    assert_eq!(t.attempts(), 1);
    assert!(j.start_next().is_none());
}

#[test]
fn five_encrypted_segments_end_to_end() {
    let plain: Vec<Vec<u8>> = vec![
        (0u8..16).collect(),
        b"second segment, not block aligned".to_vec(),
        Vec::new(),
        vec![0xaa; 47],
        (0u8..=255).collect(),
    ];
    let segments: Vec<Segment> = (0..5)
        .map(|i| Segment {
            uri: format!("seg{}.ts", i),
            key: Some(KeyRef {
                uri: Some("key.bin".to_string()),
                iv: Some("0x09090909090909090909090909090909".to_string()),
            }),
        })
        .collect();
    let base = "https://cdn.example.com/stream/";
    let request = hls2mp4::key_request(&segments, Some(base)).unwrap().unwrap();
    assert_eq!(request.uri, "https://cdn.example.com/stream/key.bin");
    let key = hls2mp4::resolve_key(&request, Response::Status(200), KEY.to_vec()).unwrap();
    let mut j = prepare_job(&segments, Some(base), Some(key), 2, 3).unwrap();
    assert_eq!(j.total(), 5);

    let mut running: Vec<DownloadTask> = Vec::new();
    let mut events: Vec<Progress> = Vec::new();
    loop {
        while let Some((task, step)) = j.start_next() {
            assert_eq!(step, FetchStep::Attempt { attempt: 1 });
            assert_eq!(task.uri(), format!("https://cdn.example.com/stream/seg{}.ts", task.index()));
            running.push(task);
        }
        assert!(j.in_flight() <= 2);
        if running.is_empty() {
            break;
        }
        // The one started last completes first.
        let mut task = running.pop().unwrap();
        assert_eq!(task.on_response(Response::Status(200)), FetchStep::Done);
        let body = encrypt(&plain[task.index()]);
        events.push(j.finish_task(&task, body).unwrap());
    }
    let order: Vec<usize> = events.iter().map(|p| p.index).collect();
    assert_eq!(order, vec![1, 2, 3, 4, 0]);
    let counts: Vec<usize> = events.iter().map(|p| p.completed).collect();
    assert_eq!(counts, vec![1, 2, 3, 4, 5]);
    assert!(events.iter().all(|p| p.total == 5));

    let bytes = merged(j);
    let total: usize = plain.iter().map(|p| p.len()).sum();
    assert_eq!(bytes.len(), total);
    assert_eq!(bytes, plain.concat());
}

#[test]
fn prepare_job_reports_unresolvable_segments() {
    let segments = vec![
        Segment { uri: "https://example.com/a.ts".to_string(), key: None },
        Segment { uri: "b.ts".to_string(), key: None },
    ];
    assert_eq!(
        prepare_job(&segments, None, None, 2, 3).err(),
        Some(PipelineError::MissingBaseUrl)
    );
    let j = prepare_job(&segments, Some("https://example.com/x/"), None, 2, 3).unwrap();
    assert_eq!(j.total(), 2);
    assert_eq!(j.concurrency(), 2);
}

#[test]
fn job_keeps_the_data_of_completed_segments() {
    let mut j = job(2, 2, 1);
    start_all(&mut j, 2);
    assert_eq!(j.data(0), None);
    assert!(j.settle(1, Ok(b"one".to_vec())).is_some());
    assert_eq!(j.data(1), Some(&b"one".to_vec()));
    assert_eq!(j.data(0), None);
    assert_eq!(j.data(2), None);
    assert_eq!(j.settle(0, Err(PipelineError::Padding)), None);
    assert_eq!(j.data(0), None);
    assert_eq!(j.data(1), Some(&b"one".to_vec()));
}

#[test]
fn error_messages_name_the_cause() {
    assert_eq!(PipelineError::NoVariants.message(), "the master manifest lists no variant");
    assert_eq!(
        PipelineError::MissingSegmentData(4).message(),
        "a segment's temporary store is missing"
    );
    let all = [
        PipelineError::ManifestParse,
        PipelineError::NoVariants,
        PipelineError::MissingBaseUrl,
        PipelineError::InvalidUri,
        PipelineError::KeyFetch,
        PipelineError::KeyLength,
        PipelineError::IvFormat,
        PipelineError::BlockAlignment,
        PipelineError::Padding,
        PipelineError::SegmentFetch,
        PipelineError::MissingSegmentData(0),
    ];
    for (i, a) in all.iter().enumerate() {
        assert!(!a.message().is_empty());
        for b in all.iter().skip(i + 1) {
            assert_ne!(a.message(), b.message());
        }
    }
}
