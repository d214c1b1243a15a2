use benchboard::commits::{data_for_commit, data_for_span, latest_commits_for_branch};
use benchboard::error::{Failure, Outcome};
use benchboard::flow::{Flow, Reply, Request};
use benchboard::home::{home, Home, HomeData};
use benchboard::ids::Uuid;
use benchboard::listing::{get_invocation, latest_invocation_progress, list_invocations};
use benchboard::model::{CallStats, InvocationProgress, Pagination};
use benchboard::progress::{latest_workload, number_of_runs, number_of_workloads};
use benchboard::query::{Query, Row, Value};
use benchboard::span_map::SpanMap;
use benchboard::view_span::{view_span, ViewSpan, ViewSpanQuery};
use benchboard::view_spans::{view_spans, ViewSpans, ViewSpansQuery};

const ID: Uuid = Uuid { bits: 0x0190163d_8694_739b_aea5_966c26f8ad91 };
const ID_TEXT: &str = "0190163d-8694-739b-aea5-966c26f8ad91";

fn text(s: &str) -> Value {
    Value::Text(s.to_string())
}

fn optional(s: Option<&str>) -> Value {
    Value::OptionalText(s.map(|s| s.to_string()))
}

fn row(cells: Vec<Value>) -> Row {
    Row { cells }
}

fn number(n: u32) -> Reply {
    Reply::One(row(vec![Value::Unsigned(n)]))
}

fn broken() -> Reply {
    Reply::Failed(Failure::msg("database is locked".to_string()))
}

fn step<T: Flow>(flow: T, reply: Reply) -> T {
    let request = flow.request().expect("the flow has ended");
    assert!(request.is_answered_by(&reply), "the reply does not fit");
    flow.resume(reply)
}

/// Goes on as long as nothing has to be done.
fn settle<T: Flow>(mut flow: T) -> T {
    while let Some(Request::Continue) = flow.request() {
        flow = step(flow, Reply::Continued);
    }
    flow
}

fn query_of(request: Option<Request>) -> Query {
    match request {
        Some(Request::Execute(query)) => query,
        Some(Request::FetchOne(query)) => query,
        Some(Request::FetchOptional(query)) => query,
        Some(Request::FetchAll(query)) => query,
        _ => panic!("no query"),
    }
}

fn params<T: Flow>(flow: &T) -> Vec<String> {
    query_of(flow.request())
        .params()
        .iter()
        .map(|value| match value {
            Value::Text(s) => s.clone(),
            Value::OptionalText(Some(s)) => format!("some {}", s),
            Value::OptionalText(None) => "none".to_string(),
            Value::Unsigned(n) => format!("{}u", n),
            Value::Signed(n) => format!("{}i", n),
        })
        .collect()
}

fn refused<T>(outcome: Outcome<T>) -> (u16, Vec<String>) {
    match outcome {
        Outcome::Refused(refusal) => {
            let (code, body) = refusal.into_response();
            let mut all = vec![body.error];
            all.extend(body.sources);
            (code.as_u16(), all)
        }
        _ => panic!("not refused"),
    }
}

fn answer<T>(outcome: Outcome<T>) -> T {
    match outcome {
        Outcome::Answer(value) => value,
        _ => panic!("no answer"),
    }
}

fn invocation_row(uuid: &str, status: &str, max_workloads: u32) -> Row {
    row(vec![
        text(uuid),
        text("abc"),
        text("anvil"),
        optional(Some("nightly")),
        optional(Some("v1")),
        optional(Some("main")),
        text(status),
        optional(Some("oops")),
        Value::Unsigned(max_workloads),
    ])
}

fn workload_row(uuid: &str, name: &str, max_runs: u32) -> Reply {
    Reply::Optional(Some(row(vec![text(uuid), text(name), Value::Unsigned(max_runs)])))
}

#[test]
fn counts_are_read() {
    assert_eq!(number_of_workloads(number(7)).ok(), Some(7));
    assert_eq!(number_of_runs(number(8)).ok(), Some(8));
    let error = number_of_workloads(broken()).err().unwrap();
    assert_eq!(error.message, "fetching number of workloads");
    assert_eq!(number_of_runs(broken()).err().unwrap().message, "fetching number of runs");
    let latest = latest_workload(workload_row("w", "search", 4)).ok().unwrap();
    assert_eq!(latest, Some(("w".to_string(), "search".to_string(), 4)));
    assert_eq!(latest_workload(Reply::Optional(None)).ok(), Some(None));
    assert_eq!(latest_workload(broken()).err().unwrap().message, "fetching latest workload");
}

#[test]
fn progress_of_a_running_invocation() {
    let status = benchboard::status::InvocationStatus::Running;
    let flow = InvocationProgress::from_db(&"inv".to_string(), &status, 5);
    assert_eq!(params(&flow), ["inv"]);
    let flow = step(flow, number(3));
    assert_eq!(
        query_of(flow.request()).sql(),
        "SELECT uuid, name, max_runs FROM workloads WHERE invocation_uuid = ? ORDER BY uuid DESC LIMIT ?"
    );
    assert_eq!(params(&flow), ["inv", "1u"]);
    let flow = step(flow, workload_row("w", "search", 10));
    assert_eq!(params(&flow), ["w"]);
    let progress = step(flow, number(4)).finish().ok().unwrap().unwrap();
    assert_eq!(progress.current_workload.as_deref(), Some("search"));
    assert_eq!((progress.completed_runs, progress.max_runs), (4, 10));
    assert_eq!((progress.completed_workloads, progress.max_workloads), (2, 5));
    assert_eq!(progress.as_percent(), 48);
}

#[test]
fn progress_before_the_first_workload() {
    let status = benchboard::status::InvocationStatus::Running;
    let flow = InvocationProgress::from_db(&"inv".to_string(), &status, 5);
    let flow = step(flow, number(0));
    let progress = step(flow, Reply::Optional(None)).finish().ok().unwrap().unwrap();
    assert_eq!(progress.current_workload, None);
    assert_eq!((progress.completed_runs, progress.max_runs), (0, 0));
    assert_eq!((progress.completed_workloads, progress.max_workloads), (0, 5));
}

#[test]
fn progress_saturates_and_fails() {
    let status = benchboard::status::InvocationStatus::Running;
    let start = || InvocationProgress::from_db(&"inv".to_string(), &status, 5);
    let flow = step(step(start(), number(0)), workload_row("w", "search", 1));
    let progress = step(flow, number(0)).finish().ok().unwrap().unwrap();
    assert_eq!(progress.completed_workloads, 0);
    let error = step(start(), broken()).finish().err().unwrap();
    assert_eq!(error.message, "fetching number of workloads");
    let error = step(step(start(), number(1)), broken()).finish().err().unwrap();
    assert_eq!(error.message, "fetching latest workload");
    let flow = step(step(start(), number(1)), workload_row("w", "search", 1));
    let error = step(flow, broken()).finish().err().unwrap();
    assert_eq!(error.message, "fetching number of runs");
}

#[test]
fn progress_of_an_ended_invocation() {
    let status = benchboard::status::InvocationStatus::Completed;
    let flow = InvocationProgress::from_db(&"inv".to_string(), &status, 5);
    assert!(flow.request().is_none());
    assert!(flow.finish().ok().unwrap().is_none());
}

#[test]
fn invocations_are_listed() {
    let flow = list_invocations(Pagination { offset: Some(2), limit: Some(3) });
    assert_eq!(params(&flow), ["3u", "2u"]);
    let other = "00000000-0000-0000-0000-000000000002";
    let rows = vec![invocation_row(ID_TEXT, "running", 5), invocation_row(other, "failed", 5)];
    let flow = settle(step(flow, Reply::All(rows)));
    assert_eq!(params(&flow), [ID_TEXT]);
    let flow = settle(step(flow, number(1)));
    let flow = settle(step(flow, workload_row("w", "search", 10)));
    let flow = settle(step(flow, number(4)));
    assert_eq!(query_of(flow.request()).sql(), "SELECT COUNT(uuid) from invocations");
    let page = answer(step(flow, Reply::One(row(vec![Value::Signed(12)]))).finish());
    assert_eq!(page.total_count, 12);
    assert_eq!(page.results.len(), 2);
    let first = &page.results[0];
    assert_eq!(first.uuid, ID);
    assert_eq!(first.commit_sha1, "abc");
    assert_eq!(first.machine_hostname, "anvil");
    assert_eq!(first.reason.as_deref(), Some("nightly"));
    assert_eq!(first.tag.as_deref(), Some("v1"));
    assert_eq!(first.branch.as_deref(), Some("main"));
    assert!(first.status.is_running());
    assert_eq!(first.progress.as_ref().unwrap().completed_runs, 4);
    let second = &page.results[1];
    assert_eq!(second.uuid, Uuid { bits: 2 });
    assert_eq!(second.status.reason(), Some("oops"));
    assert!(second.progress.is_none());
}

#[test]
fn invocation_list_can_fail() {
    let list = || list_invocations(Pagination { offset: None, limit: None });
    assert_eq!(refused(step(list(), broken()).finish()).1[0], "listing invocations");
    let flow = settle(step(list(), Reply::All(vec![invocation_row(ID_TEXT, "odd", 1)])));
    assert_eq!(
        refused(flow.finish()),
        (500, vec!["received unknown status from DB: odd".to_string()])
    );
    let flow = settle(step(list(), Reply::All(vec![invocation_row("?", "timeout", 1)])));
    assert!(matches!(flow.finish(), Outcome::Abort("could not deserialize UUID")));
    let flow = settle(step(list(), Reply::All(vec![invocation_row(ID_TEXT, "running", 1)])));
    let flow = settle(step(flow, broken()));
    assert_eq!(refused(flow.finish()).1[0], "fetching number of workloads");
    let flow = settle(step(list(), Reply::All(Vec::new())));
    assert_eq!(refused(step(flow, broken()).finish()).1[0], "fetching invocation count");
}

#[test]
fn latest_progress_is_for_the_home_page() {
    let flow = latest_invocation_progress(8);
    assert_eq!(params(&flow), ["8u"]);
    let flow = settle(step(flow, Reply::All(vec![invocation_row(ID_TEXT, "completed", 1)])));
    let list = answer(flow.finish());
    assert_eq!(list.len(), 1);
    assert!(list[0].status.is_completed());
    let start = || latest_invocation_progress(8);
    assert_eq!(refused(step(start(), broken()).finish()).1[0], "fetching invocation progress");
    let flow = settle(step(start(), Reply::All(vec![invocation_row(ID_TEXT, "odd", 1)])));
    assert_eq!(
        refused(flow.finish()),
        (
            500,
            vec![
                "incorrect status in DB".to_string(),
                "received unknown status from DB: odd".to_string()
            ]
        )
    );
    let flow = settle(step(start(), Reply::All(vec![invocation_row("?", "timeout", 1)])));
    assert!(matches!(flow.finish(), Outcome::Abort("Could not deserialize as a UUID")));
}

fn found_row(status: &str) -> Reply {
    Reply::Optional(Some(row(vec![
        text("abc"),
        text("anvil"),
        optional(None),
        optional(Some("main")),
        optional(Some("v1")),
        text(status),
        optional(None),
        Value::Unsigned(4),
    ])))
}

#[test]
fn invocation_is_found() {
    let flow = get_invocation(ID);
    assert_eq!(params(&flow), [ID_TEXT]);
    assert!(query_of(flow.request()).sql().contains("FROM invocation\n"));
    let flow = settle(step(flow, found_row("completed")));
    let found = answer(flow.finish());
    assert_eq!(found.uuid, ID);
    assert_eq!(found.branch.as_deref(), Some("main"));
    assert_eq!(found.tag.as_deref(), Some("v1"));
    assert_eq!(found.reason, None);
    assert!(found.progress.is_none());
    let flow = settle(step(get_invocation(ID), found_row("running")));
    assert_eq!(params(&flow), [ID_TEXT]);
    let flow = step(flow, number(0));
    let found = answer(settle(step(flow, Reply::Optional(None))).finish());
    assert_eq!(found.progress.unwrap().max_workloads, 4);
}

#[test]
fn invocation_is_not_found() {
    let flow = step(get_invocation(ID), Reply::Optional(None));
    assert_eq!(
        refused(flow.finish()),
        (404, vec![format!("invocation '{}' not found", ID_TEXT)])
    );
    let flow = step(get_invocation(ID), broken());
    assert_eq!(refused(flow.finish()).1[0], "while fetching invocation");
    let flow = step(get_invocation(ID), found_row("odd"));
    assert_eq!(refused(flow.finish()).1[0], "received unknown status from DB: odd");
    let flow = settle(step(get_invocation(ID), found_row("running")));
    let flow = settle(step(flow, broken()));
    assert_eq!(refused(flow.finish()).1[0], "fetching number of workloads");
}

fn data_row(span: &str, self_time: i64, time: i64, call_count: i64) -> Row {
    let numbers = [self_time, time, call_count].map(Value::Signed);
    let mut cells = vec![text(span)];
    cells.extend(numbers);
    row(cells)
}

fn commit_row(sha1: &str) -> Row {
    row(vec![text(sha1)])
}

#[test]
fn measurements_are_grouped_by_span() {
    let rows = vec![
        data_row("b", 1, 2, 3),
        data_row("a", 4, 5, 6),
        data_row("b", 7, 8, 9),
        data_row("é", -1, 0, 1),
    ];
    let spans = data_for_commit(Reply::All(rows)).ok().unwrap();
    let names: Vec<&str> = spans.entries().iter().map(|e| e.0.as_str()).collect();
    assert_eq!(names, ["a", "b", "é"]);
    let b = spans.get("b").unwrap();
    assert_eq!(b.len(), 2);
    assert_eq!(b[0], CallStats { self_time: 1, time: 2, call_count: 3 });
    assert_eq!(b[1], CallStats { self_time: 7, time: 8, call_count: 9 });
    assert_eq!(spans.get("é").unwrap()[0].self_time, u64::MAX);
    assert!(spans.get("c").is_none());
    let refusal = data_for_commit(broken()).err().unwrap();
    assert_eq!(refusal.error.message, "fetching data for commit");
}

#[test]
fn stored_measurement_is_read_back() {
    let stats = CallStats { self_time: i64::MAX as u64, time: 0, call_count: 12 };
    let stored = benchboard::runs::data_point("a".to_string(), stats).ok().unwrap();
    let cells = data_row(&stored.span, stored.self_time, stored.time, stored.call_count);
    let spans = data_for_commit(Reply::All(vec![cells])).ok().unwrap();
    assert_eq!(spans.get("a").unwrap()[0], stats);
}

#[test]
fn measurements_of_a_span_keep_their_order() {
    let rows = vec![
        row([1, 2, 3].map(Value::Signed).into()),
        row([4, 5, 6].map(Value::Signed).into()),
    ];
    let list = data_for_span(Reply::All(rows)).ok().unwrap();
    assert_eq!(list[0], CallStats { self_time: 1, time: 2, call_count: 3 });
    assert_eq!(list[1], CallStats { self_time: 4, time: 5, call_count: 6 });
    let refusal = data_for_span(broken()).err().unwrap();
    assert_eq!(refusal.error.message, "fetching data for span");
}

#[test]
fn maps_keep_the_last_value() {
    let mut map = SpanMap::new();
    map.insert("b".to_string(), 1);
    map.insert("a".to_string(), 2);
    map.insert("b".to_string(), 3);
    assert_eq!(map.len(), 2);
    assert_eq!(map.into_entries(), [("a".to_string(), 2), ("b".to_string(), 3)]);
}

fn on_branch(before: Option<&str>) -> benchboard::commits::BranchCommits {
    latest_commits_for_branch(
        "main".to_string(),
        4,
        before.map(|b| b.to_string()),
        "search".to_string(),
    )
}

#[test]
fn commits_of_a_branch_before_a_date() {
    let flow = on_branch(Some("abc"));
    assert_eq!(params(&flow), ["main", "abc", "completed"]);
    let flow = step(flow, Reply::Optional(Some(row(vec![text("2024-01-01")]))));
    assert_eq!(params(&flow), ["search", "main", "2024-01-01", "completed", "4u"]);
    assert!(query_of(flow.request()).sql().contains("commits.date < ?"));
    let flow = step(flow, Reply::All(vec![commit_row("x"), commit_row("y")]));
    let commits = flow.finish().ok().unwrap();
    let hashes: Vec<&str> = commits.iter().map(|c| c.sha1.as_str()).collect();
    assert_eq!(hashes, ["x", "y"]);
}

#[test]
fn commits_of_a_branch_without_a_date() {
    let flow = step(on_branch(Some("abc")), Reply::Optional(None));
    assert_eq!(params(&flow), ["search", "main", "completed", "4u"]);
    assert_eq!(params(&on_branch(None)), ["search", "main", "completed", "4u"]);
    let refusal = step(on_branch(None), broken()).finish().err().unwrap();
    assert_eq!(refusal.error.message, "fetching latest commits on branch");
    let refusal = step(on_branch(Some("abc")), broken()).finish().err().unwrap();
    assert_eq!(refusal.error.message, "fetching commit date");
}

fn spans_query() -> ViewSpansQuery {
    ViewSpansQuery {
        workload_name: "search".to_string(),
        commit_sha1: None,
        target_branch: None,
        target_tag: None,
        baseline_commit: None,
        baseline_tag: None,
        baseline_branch: None,
    }
}

fn named(name: &str) -> Option<String> {
    Some(name.to_string())
}

#[test]
fn spans_need_a_target() {
    let flow = view_spans(spans_query());
    assert_eq!(
        refused(flow.finish()),
        (400, vec!["Specify one of commit_sha1, target_branch or target_tag".to_string()])
    );
}

#[test]
fn spans_of_named_commits() {
    let query = ViewSpansQuery {
        commit_sha1: named("new"),
        target_branch: named("dev"),
        target_tag: named("v2"),
        baseline_commit: named("old"),
        baseline_tag: named("v1"),
        baseline_branch: named("main"),
        ..spans_query()
    };
    let flow = view_spans(query);
    assert_eq!(params(&flow), ["search", "new", "completed"]);
    let flow = step(flow, Reply::All(vec![data_row("a", 1, 2, 3)]));
    assert_eq!(params(&flow), ["search", "old", "completed"]);
    let page = answer(step(flow, Reply::All(vec![data_row("b", 1, 2, 3)])).finish());
    assert_eq!(page.target_commit_sha1, "new");
    assert_eq!(page.query.target_branch, named("dev"));
    assert!(page.target.get("a").is_some());
    let (commit, spans) = page.baseline.unwrap();
    assert_eq!(commit, "old");
    assert!(spans.get("b").is_some());
}

#[test]
fn spans_of_a_tag() {
    let query = || ViewSpansQuery {
        target_tag: named("v2"),
        target_branch: named("dev"),
        baseline_tag: named("v1"),
        ..spans_query()
    };
    let flow = view_spans(query());
    assert_eq!(params(&flow), ["search", "v2", "completed"]);
    let flow = step(flow, Reply::Optional(Some(commit_row("new"))));
    assert_eq!(params(&flow), ["search", "v1", "completed"]);
    let flow = step(flow, Reply::Optional(Some(commit_row("old"))));
    assert_eq!(params(&flow), ["search", "new", "completed"]);
    let flow = step(flow, Reply::All(Vec::new()));
    assert_eq!(params(&flow), ["search", "old", "completed"]);
    let flow = step(view_spans(query()), Reply::Optional(None));
    assert_eq!(
        refused(flow.finish()),
        (404, vec!["Could not find commit for tag v2".to_string()])
    );
    let flow = step(view_spans(query()), broken());
    assert_eq!(refused(flow.finish()).1[0], "fetching commit for tag");
}

#[test]
fn spans_of_a_branch() {
    let query = || ViewSpansQuery {
        target_branch: named("dev"),
        baseline_branch: named("main"),
        ..spans_query()
    };
    let flow = view_spans(query());
    assert_eq!(params(&flow), ["search", "dev", "completed", "1u"]);
    let flow = settle(step(flow, Reply::All(vec![commit_row("new")])));
    assert_eq!(params(&flow), ["main", "new", "completed"]);
    let flow = step(flow, Reply::Optional(None));
    assert_eq!(params(&flow), ["search", "main", "completed", "1u"]);
    let flow = settle(step(flow, Reply::All(vec![commit_row("old")])));
    assert_eq!(params(&flow), ["search", "new", "completed"]);
    let flow = settle(step(view_spans(query()), Reply::All(Vec::new())));
    assert_eq!(
        refused(flow.finish()),
        (404, vec!["Could not find commmit on branch dev".to_string()])
    );
}

#[test]
fn spans_fall_back_to_the_latest_commit() {
    let query = || ViewSpansQuery {
        commit_sha1: named("new"),
        baseline_tag: named("v1"),
        baseline_branch: named("main"),
        ..spans_query()
    };
    let latest = || {
        let flow = step(view_spans(query()), Reply::Optional(None));
        assert_eq!(params(&flow), ["main", "new", "completed"]);
        let flow = step(flow, Reply::Optional(None));
        settle(step(flow, Reply::All(Vec::new())))
    };
    assert_eq!(params(&latest()), ["search", "new", "completed", "1u"]);
    let flow = step(latest(), Reply::All(vec![commit_row("older")]));
    let flow = step(flow, Reply::All(Vec::new()));
    assert_eq!(params(&flow), ["search", "older", "completed"]);
    let flow = step(latest(), Reply::All(Vec::new()));
    let page = answer(step(flow, Reply::All(Vec::new())).finish());
    assert!(page.baseline.is_none());
    assert_eq!(refused(step(latest(), broken()).finish()).1[0], "fetching latest commits");
    let plain = ViewSpansQuery { commit_sha1: named("new"), ..spans_query() };
    assert_eq!(params(&view_spans(plain)), ["search", "new", "completed", "1u"]);
}

#[test]
fn loading_spans_can_fail() {
    let query = || ViewSpansQuery {
        commit_sha1: named("new"),
        baseline_commit: named("old"),
        ..spans_query()
    };
    let first = |flow: ViewSpans| refused(step(flow, broken()).finish()).1[0].clone();
    assert_eq!(first(view_spans(query())), "fetching data for commit");
    let flow = step(view_spans(query()), Reply::All(Vec::new()));
    assert_eq!(first(flow), "fetching data for commit");
}

fn span_query(baseline: Option<&str>, branch: Option<&str>) -> ViewSpanQuery {
    ViewSpanQuery {
        workload_name: "search".to_string(),
        span: "a".to_string(),
        target: "new".to_string(),
        baseline: baseline.map(|b| b.to_string()),
        target_branch: None,
        baseline_branch: branch.map(|b| b.to_string()),
        target_tag: None,
        baseline_tag: None,
    }
}

fn span_rows(time: i64) -> Reply {
    Reply::All(vec![row([1, time, 1].map(Value::Signed).into())])
}

#[test]
fn span_is_drawn_after_older_commits() {
    let flow = view_span(span_query(Some("base"), Some("main")));
    assert_eq!(params(&flow), ["a", "search", "new", "completed"]);
    let flow = step(flow, span_rows(9));
    assert_eq!(params(&flow), ["main", "base", "completed"]);
    let flow = step(flow, Reply::Optional(Some(row(vec![text("2024")]))));
    assert_eq!(params(&flow), ["search", "main", "2024", "completed", "4u"]);
    let mut flow = settle(step(flow, Reply::All(vec![commit_row("newer"), commit_row("older")])));
    for (n, commit) in ["older", "newer", "base"].iter().enumerate() {
        assert_eq!(params(&flow), ["a", "search", commit, "completed"]);
        flow = step(flow, span_rows(n as i64));
    }
    let page = answer(settle(flow).finish());
    assert_eq!(page.target[0].time, 9);
    let drawn: Vec<(&str, u64)> =
        page.baselines.iter().map(|b| (b.0.as_str(), b.1[0].time)).collect();
    assert_eq!(drawn, [("older", 0), ("newer", 1), ("base", 2)]);
}

#[test]
fn span_without_a_branch() {
    let flow = step(view_span(span_query(Some("base"), None)), span_rows(9));
    assert_eq!(params(&flow), ["a", "search", "base", "completed"]);
    let flow = step(flow, span_rows(1));
    assert_eq!(answer(settle(flow).finish()).baselines.len(), 1);
    let flow = settle(step(view_span(span_query(None, None)), span_rows(9)));
    assert!(answer(flow.finish()).baselines.is_empty());
}

#[test]
fn loading_a_span_can_fail() {
    let first = |flow: ViewSpan| refused(settle(step(flow, broken())).finish()).1[0].clone();
    assert_eq!(first(view_span(span_query(None, None))), "fetching data for span");
    let flow = step(view_span(span_query(Some("base"), None)), span_rows(9));
    assert_eq!(first(flow), "fetching data for span");
    let flow = step(view_span(span_query(Some("base"), Some("main"))), span_rows(9));
    assert_eq!(first(flow), "fetching commit date");
}

fn completed_row(n: usize, branch: Option<&str>) -> Row {
    row(vec![
        text("search"),
        text(&format!("commit{}", n)),
        text("Fix it"),
        optional(Some("nightly")),
        optional(branch),
    ])
}

/// Answers every question of the home page, with `baselines` for the commits to compare with.
fn load_home(rows: Vec<Row>, baselines: &[&str]) -> (HomeData, usize) {
    let flow = home();
    assert_eq!(params(&flow), ["completed", "40u"]);
    let mut flow: Home = step(flow, Reply::All(rows));
    let mut loaded = 0;
    loop {
        let reply = match flow.request() {
            None => return (answer(flow.finish()), loaded),
            Some(Request::Continue) => Reply::Continued,
            Some(Request::FetchOptional(Query::CommitDate { .. })) => Reply::Optional(None),
            Some(Request::FetchAll(Query::BranchCommits { branch, count, .. })) => {
                assert_eq!((branch.as_str(), count), ("main", 1));
                Reply::All(baselines.iter().map(|c| commit_row(c)).collect())
            }
            Some(Request::FetchAll(Query::LatestCommits { count, .. })) => {
                assert_eq!(count, 1);
                Reply::All(baselines.iter().map(|c| commit_row(c)).collect())
            }
            Some(Request::FetchAll(Query::CommitData { .. })) => {
                loaded += 1;
                Reply::All(vec![data_row("a", 1, 2, 3)])
            }
            Some(Request::FetchAll(Query::LatestInvocations { count })) => {
                assert_eq!(count, 8);
                Reply::All(vec![invocation_row(ID_TEXT, "completed", 1)])
            }
            Some(_) => panic!("unexpected request"),
        };
        flow = step(flow, reply);
    }
}

#[test]
fn home_shows_the_first_of_each_branch() {
    let mut rows = Vec::new();
    for n in 0..40 {
        rows.push(completed_row(n, if n % 2 == 0 { Some("main") } else { Some("dev") }));
    }
    let (page, loaded) = load_home(rows, &["base"]);
    let main: Vec<String> =
        page.lists.workloads_on_main.iter().map(|w| w.description.commit_sha1.clone()).collect();
    let expected: Vec<String> = (0..6).map(|n| format!("commit{}", 2 * n)).collect();
    assert_eq!(main, expected);
    let recent: Vec<String> =
        page.lists.recent_workloads.iter().map(|w| w.description.commit_sha1.clone()).collect();
    let expected: Vec<String> = (0..16).map(|n| format!("commit{}", 2 * n + 1)).collect();
    assert_eq!(recent, expected);
    assert_eq!(loaded, 2 * (6 + 16));
    assert_eq!(page.latest_invocation_progress.len(), 1);
}

#[test]
fn home_shows_few_workloads_whole() {
    let rows = vec![
        completed_row(0, None),
        completed_row(1, Some("main")),
        completed_row(2, Some("refs/heads/main")),
    ];
    let (page, loaded) = load_home(rows, &[]);
    assert_eq!(loaded, 3);
    assert_eq!(page.lists.workloads_on_main.len(), 1);
    assert_eq!(page.lists.recent_workloads.len(), 2);
    let shown = &page.lists.recent_workloads[0];
    assert_eq!(shown.description.workload_name, "search");
    assert_eq!(shown.description.commit_message, "Fix it");
    assert_eq!(shown.description.reason.as_deref(), Some("nightly"));
    assert_eq!(shown.description.branch, None);
    assert!(shown.baseline.is_none());
    assert!(shown.target.get("a").is_some());
}

#[test]
fn home_compares_with_the_first_commit_found() {
    let (page, _) = load_home(vec![completed_row(0, Some("main"))], &["x", "y"]);
    assert_eq!(page.lists.workloads_on_main[0].baseline.as_ref().unwrap().0, "x");
    let (page, _) = load_home(vec![completed_row(0, Some("dev"))], &["x", "y"]);
    assert_eq!(page.lists.recent_workloads[0].baseline.as_ref().unwrap().0, "x");
}

#[test]
fn home_can_fail() {
    let first = |flow: Home| refused(settle(step(flow, broken())).finish()).1[0].clone();
    assert_eq!(first(home()), "fetching latest invocations");
    let recent = || settle(step(home(), Reply::All(vec![completed_row(0, None)])));
    assert_eq!(first(recent()), "fetching latest commits");
    let target = || step(recent(), Reply::All(vec![commit_row("x")]));
    assert_eq!(first(target()), "fetching data for commit");
    let baseline = step(target(), Reply::All(Vec::new()));
    assert_eq!(first(baseline), "fetching data for commit");
    let main = settle(step(home(), Reply::All(vec![completed_row(0, Some("main"))])));
    assert_eq!(first(main), "fetching commit date");
    let progress = settle(step(home(), Reply::All(Vec::new())));
    assert_eq!(first(progress), "fetching invocation progress");
}

#[test]
fn span_data_is_that_of_the_commit() {
    let measured: [(&str, i64, i64, i64); 4] =
        [("search", 1, 2, 3), ("index", 4, 5, 6), ("search", 7, 8, 9), ("search", 1, 2, 3)];
    let cells = |one: &(&str, i64, i64, i64)| {
        vec![Value::Signed(one.1), Value::Signed(one.2), Value::Signed(one.3)]
    };
    let of_commit = measured
        .iter()
        .map(|one| {
            let mut all = vec![text(one.0)];
            all.extend(cells(one));
            row(all)
        })
        .collect();
    let spans = data_for_commit(Reply::All(of_commit)).ok().unwrap();
    for span in ["search", "index", "merge"] {
        let of_span = measured
            .iter()
            .filter(|one| one.0 == span)
            .map(|one| row(cells(one)))
            .collect();
        let list = data_for_span(Reply::All(of_span)).ok().unwrap();
        assert_eq!(spans.get(span).cloned().unwrap_or_default(), list, "{}", span);
        assert_eq!(list.is_empty(), spans.get(span).is_none(), "{}", span);
    }
}
