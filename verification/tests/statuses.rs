use benchboard::error::{Failure, ResponseError, ResultToResponseError, StatusCode};
use benchboard::model::{CallStats, InvocationProgress, Pagination};
use benchboard::status::InvocationStatus;

fn all_statuses() -> Vec<InvocationStatus> {
    vec![
        InvocationStatus::Running,
        InvocationStatus::Failed("out of memory".to_string()),
        InvocationStatus::Completed,
        InvocationStatus::Canceled,
        InvocationStatus::Timeout,
    ]
}

#[test]
fn statuses_have_texts() {
    let texts: Vec<&str> = all_statuses().iter().map(|s| s.to_db_status()).collect();
    assert_eq!(texts, ["running", "failed", "completed", "canceled", "timeout"]);
}

#[test]
fn status_is_read_back() {
    for status in all_statuses() {
        let text = status.to_db_status();
        let reason = status.reason().map(|r| r.to_string());
        let read = InvocationStatus::from_db_status(text, reason.clone()).ok().unwrap();
        assert_eq!(read.to_db_status(), text);
        assert_eq!(read.reason().map(|r| r.to_string()), reason);
    }
}

#[test]
fn failure_without_reason_is_empty() {
    let read = InvocationStatus::from_db_status("failed", None).ok().unwrap();
    assert_eq!(read.reason(), Some(""));
}

#[test]
fn reason_is_dropped_unless_failed() {
    let read = InvocationStatus::from_db_status("completed", Some("x".to_string())).ok().unwrap();
    assert_eq!(read.reason(), None);
    assert!(read.is_completed());
    assert!(!read.is_running());
}

#[test]
fn unknown_status_is_an_error() {
    for text in ["Running", "", "done", "running "] {
        let error = InvocationStatus::from_db_status(text, None).err().unwrap();
        assert_eq!(error.message, format!("received unknown status from DB: {}", text));
        assert!(error.sources.is_empty());
    }
}

#[test]
fn only_running_is_running() {
    let running: Vec<bool> = all_statuses().iter().map(|s| s.is_running()).collect();
    assert_eq!(running, [true, false, false, false, false]);
    let completed: Vec<bool> = all_statuses().iter().map(|s| s.is_completed()).collect();
    assert_eq!(completed, [false, false, true, false, false]);
}

#[test]
fn contexts_become_messages() {
    let error = Failure::msg("disk full".to_string()).context("writing").context("saving");
    assert_eq!(error.message, "saving");
    assert_eq!(error.sources, ["writing", "disk full"]);
    let error = Failure::msg("disk full".to_string()).context2("writing", "saving");
    assert_eq!(error.message, "saving");
    assert_eq!(error.sources, ["writing", "disk full"]);
}

#[test]
fn refusal_is_answered_with_its_sources() {
    let error = Failure::msg("no such table".to_string());
    let refusal = ResponseError::internal(error, "listing machines");
    let (code, body) = refusal.into_response();
    assert_eq!(code.as_u16(), 500);
    assert_eq!(body.error, "listing machines");
    assert_eq!(body.sources, ["no such table"]);
    let refusal = ResponseError::new("nothing here".to_string(), StatusCode::NotFound);
    let (code, body) = refusal.into_response();
    assert_eq!(code.as_u16(), 404);
    assert_eq!(body.error, "nothing here");
    assert!(body.sources.is_empty());
}

#[test]
fn codes_are_put_on_errors_only() {
    let good: Result<u32, Failure> = Ok(7);
    assert_eq!(good.with_code(StatusCode::BadRequest).ok(), Some(7));
    let bad: Result<u32, Failure> = Err(Failure::msg("bad".to_string()));
    let refusal = bad.with_code(StatusCode::BadRequest).err().unwrap();
    assert_eq!(refusal.code, StatusCode::BadRequest);
    assert_eq!(refusal.code.as_u16(), 400);
    assert_eq!(refusal.error.message, "bad");
}

fn progress(
    completed_runs: u32,
    max_runs: u32,
    completed_workloads: u32,
    max_workloads: u32,
) -> InvocationProgress {
    InvocationProgress {
        current_workload: None,
        completed_runs,
        max_runs,
        completed_workloads,
        max_workloads,
    }
}

#[test]
fn percent_counts_runs() {
    assert_eq!(progress(0, 10, 0, 2).as_percent(), 0);
    assert_eq!(progress(5, 10, 0, 2).as_percent(), 25);
    assert_eq!(progress(3, 10, 1, 3).as_percent(), 43);
    assert_eq!(progress(10, 10, 1, 2).as_percent(), 100);
    assert_eq!(progress(9, 10, 1, 2).as_percent(), 95);
}

#[test]
fn percent_counts_workloads_without_runs() {
    assert_eq!(progress(0, 0, 1, 3).as_percent(), 33);
    assert_eq!(progress(9, 0, 3, 3).as_percent(), 100);
    assert_eq!(progress(9, 10, 3, 0).as_percent(), 0);
}

#[test]
fn percent_never_shrinks() {
    let mut last = 0;
    for workloads in 0..4 {
        for runs in 0..=7 {
            let now = progress(runs, 7, workloads, 4).as_percent();
            assert!(now >= last && now <= 100);
            last = now;
        }
    }
    assert_eq!(last, 100);
}

fn timed(times: &[u64]) -> Vec<CallStats> {
    times.iter().map(|&time| CallStats { time, call_count: 1, self_time: 0 }).collect()
}

#[test]
fn average_time_is_rounded_down() {
    assert_eq!(CallStats::avg_time(&timed(&[])), None);
    assert_eq!(CallStats::avg_time(&timed(&[7])), Some(7));
    assert_eq!(CallStats::avg_time(&timed(&[1, 2])), Some(1));
    assert_eq!(CallStats::avg_time(&timed(&[10, 20, 31])), Some(20));
}

#[test]
fn average_time_lies_between() {
    let times = [3, 9, 4, 4, 8];
    let mean = CallStats::avg_time(&timed(&times)).unwrap();
    assert!(3 <= mean && mean <= 9);
}

#[test]
fn sums_that_do_not_fit_are_told() {
    assert!(CallStats::sum_fits(&timed(&[u64::MAX])));
    assert!(CallStats::sum_fits(&timed(&[u64::MAX, 0])));
    assert!(!CallStats::sum_fits(&timed(&[u64::MAX, 1])));
    assert_eq!(CallStats::avg_time(&timed(&[u64::MAX, 0])), Some(u64::MAX / 2));
}

#[test]
fn pages_have_defaults() {
    let page = Pagination { offset: None, limit: None };
    assert_eq!((page.limit(), page.offset()), (20, 0));
    let page = Pagination { offset: Some(3), limit: Some(0) };
    assert_eq!((page.limit(), page.offset()), (0, 3));
}

#[test]
fn percent_that_does_not_fit_is_told() {
    assert!(progress(1, 10, 1, 3).has_percent());
    assert!(progress(1, 10, 1, 0).has_percent());
    assert!(progress(0, 0, u32::MAX / 100, 3).has_percent());
    assert!(!progress(0, 0, u32::MAX / 100 + 1, 3).has_percent());
    assert!(!progress(0, u32::MAX, 0, 2).has_percent());
    assert!(!progress(u32::MAX, 1, 1, 2).has_percent());
    assert!(!progress(u32::MAX / 100, 1, 1, 2).has_percent());
    assert!(progress(u32::MAX / 100, 1, 0, 2).has_percent());
}
