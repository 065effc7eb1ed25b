use hls2mp4::fetch::{
    response_is_success, status_is_success, REQUEST_TIMEOUT_SECS, RETRY_DELAY_MS,
};
use hls2mp4::{DownloadTask, FetchStep, Response, TaskStatus};

fn task(retries: u8) -> (DownloadTask, FetchStep) {
    DownloadTask::new(3, "https://example.com/seg3.ts".to_string(), retries)
}

#[test]
fn success_is_any_2xx_status() {
    assert!(status_is_success(200));
    assert!(status_is_success(206));
    assert!(status_is_success(299));
    assert!(!status_is_success(199));
    assert!(!status_is_success(300));
    assert!(!status_is_success(404));
    assert!(!status_is_success(0));
    assert!(response_is_success(Response::Status(204)));
    assert!(!response_is_success(Response::Status(500)));
    assert!(!response_is_success(Response::TransportError));
}

#[test]
fn policy_constants() {
    assert_eq!(RETRY_DELAY_MS, 2000);
    assert_eq!(REQUEST_TIMEOUT_SECS, 30);
}

#[test]
fn new_task_starts_with_first_attempt() {
    let (t, step) = task(3);
    assert_eq!(step, FetchStep::Attempt { attempt: 1 });
    assert_eq!(t.index(), 3);
    assert_eq!(t.uri(), "https://example.com/seg3.ts");
    assert_eq!(t.retries(), 3);
    assert_eq!(t.attempts(), 1);
    assert_eq!(t.status(), TaskStatus::Open);
}

#[test]
fn first_attempt_succeeds() {
    let (mut t, _) = task(3);
    assert_eq!(t.on_response(Response::Status(200)), FetchStep::Done);
    assert_eq!(t.attempts(), 1);
    assert_eq!(t.status(), TaskStatus::Succeeded);
}

#[test]
fn retry_succeeds_on_final_attempt() {
    let (mut t, _) = task(3);
    assert_eq!(
        t.on_response(Response::Status(503)),
        FetchStep::RetryAfter { delay_ms: 2000, attempt: 2 }
    );
    assert_eq!(
        t.on_response(Response::TransportError),
        FetchStep::RetryAfter { delay_ms: 2000, attempt: 3 }
    );
    assert_eq!(t.on_response(Response::Status(200)), FetchStep::Done);
    assert_eq!(t.attempts(), 3);
    assert_eq!(t.status(), TaskStatus::Succeeded);
}

#[test]
fn retries_are_exhausted() {
    let (mut t, _) = task(3);
    assert_eq!(
        t.on_response(Response::Status(404)),
        FetchStep::RetryAfter { delay_ms: 2000, attempt: 2 }
    );
    assert_eq!(
        t.on_response(Response::Status(404)),
        FetchStep::RetryAfter { delay_ms: 2000, attempt: 3 }
    );
    assert_eq!(t.on_response(Response::Status(404)), FetchStep::GiveUp);
    assert_eq!(t.attempts(), 3);
    assert_eq!(t.status(), TaskStatus::Failed);
}

#[test]
fn no_wait_after_the_last_attempt() {
    let (mut t, _) = task(1);
    assert_eq!(t.on_response(Response::TransportError), FetchStep::GiveUp);
    assert_eq!(t.attempts(), 1);
}

#[test]
fn zero_retries_give_up_at_once() {
    let (mut t, step) = task(0);
    assert_eq!(step, FetchStep::GiveUp);
    assert_eq!(t.attempts(), 0);
    assert_eq!(t.status(), TaskStatus::Failed);
    assert_eq!(t.on_response(Response::Status(200)), FetchStep::GiveUp);
    assert_eq!(t.attempts(), 0);
}

#[test]
fn settled_task_ignores_later_responses() {
    let (mut t, _) = task(2);
    assert_eq!(t.on_response(Response::Status(200)), FetchStep::Done);
    assert_eq!(t.on_response(Response::Status(500)), FetchStep::Done);
    assert_eq!(t.attempts(), 1);
    let (mut f, _) = task(1);
    assert_eq!(f.on_response(Response::Status(500)), FetchStep::GiveUp);
    assert_eq!(f.on_response(Response::Status(200)), FetchStep::GiveUp);
    assert_eq!(f.status(), TaskStatus::Failed);
}

#[test]
fn full_retry_budget_of_a_byte() {
    let (mut t, _) = task(255);
    for attempt in 2..=255u8 {
        assert_eq!(
            t.on_response(Response::Status(500)),
            FetchStep::RetryAfter { delay_ms: 2000, attempt }
        );
    }
    assert_eq!(t.on_response(Response::Status(500)), FetchStep::GiveUp);
    assert_eq!(t.attempts(), 255);
}

#[test]
fn task_names_its_temporary_store() {
    let (t, _) = task(3);
    assert_eq!(t.store_name(), "seg_00003.ts");
    let (big, _) = DownloadTask::new(123456, String::new(), 1);
    assert_eq!(big.store_name(), "seg_123456.ts");
}
