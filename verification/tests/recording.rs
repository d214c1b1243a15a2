use benchboard::running::check_running;
use benchboard::dates::{CommitDate, Duration};
use benchboard::deadlines::{on_deadline, reap_zombie_invocations};
use benchboard::error::{Failure, Outcome, ResponseError};
use benchboard::flow::{Flow, Reply, Request};
use benchboard::ids::Uuid;
use benchboard::invocations::{cancel_invocation, new_invocation, new_invocation_as};
use benchboard::machines::{get_machine, list_machines, new_machine};
use benchboard::model::{
    CallStats, InvocationCancelRequest, NewCommit, NewInvocation, NewMachine, NewRun, NewWorkload,
    Pagination,
};
use benchboard::query::{Query, Row, Table, Value};
use benchboard::runs::{data_point, new_run, RecordRun, OUT_OF_RANGE};
use benchboard::schema::create_tables;
use benchboard::span_map::SpanMap;
use benchboard::status::InvocationStatus;
use benchboard::workloads::{list_workloads, new_workload};

const ID: Uuid = Uuid { bits: 0x0190163d_8694_739b_aea5_966c26f8ad91 };
const ID_TEXT: &str = "0190163d-8694-739b-aea5-966c26f8ad91";

fn text(s: &str) -> Value {
    Value::Text(s.to_string())
}

fn optional(s: Option<&str>) -> Value {
    Value::OptionalText(s.map(|s| s.to_string()))
}

fn row(cells: Vec<Value>) -> Row {
    Row { cells }
}

fn one(cells: Vec<Value>) -> Reply {
    Reply::One(row(cells))
}

fn status_row(status: &str, reason: Option<&str>) -> Reply {
    Reply::Optional(Some(row(vec![text(status), optional(reason)])))
}

fn broken() -> Reply {
    Reply::Failed(Failure::msg("database is locked".to_string()))
}

fn step<T: Flow>(flow: T, reply: Reply) -> T {
    let request = flow.request().expect("the flow has ended");
    assert!(request.is_answered_by(&reply), "the reply does not fit");
    flow.resume(reply)
}

fn query_of(request: Option<Request>) -> Query {
    match request {
        Some(Request::Execute(query)) => query,
        Some(Request::FetchOne(query)) => query,
        Some(Request::FetchOptional(query)) => query,
        Some(Request::FetchAll(query)) => query,
        _ => panic!("no query"),
    }
}

fn shown(values: &[Value]) -> Vec<String> {
    values
        .iter()
        .map(|value| match value {
            Value::Text(s) => s.clone(),
            Value::OptionalText(Some(s)) => format!("some {}", s),
            Value::OptionalText(None) => "none".to_string(),
            Value::Unsigned(n) => format!("{}u", n),
            Value::Signed(n) => format!("{}i", n),
        })
        .collect()
}

fn refused<T>(outcome: Outcome<T>) -> (u16, Vec<String>) {
    match outcome {
        Outcome::Refused(refusal) => messages(refusal),
        _ => panic!("not refused"),
    }
}

fn messages(refusal: ResponseError) -> (u16, Vec<String>) {
    let (code, body) = refusal.into_response();
    let mut all = vec![body.error];
    all.extend(body.sources);
    (code.as_u16(), all)
}

fn answer<T>(outcome: Outcome<T>) -> T {
    match outcome {
        Outcome::Answer(value) => value,
        _ => panic!("no answer"),
    }
}

#[test]
fn tables_are_created_in_order() {
    let mut flow = create_tables();
    let mut tables = Vec::new();
    while let Some(request) = flow.request() {
        let query = query_of(Some(request));
        assert!(query.sql().starts_with("CREATE TABLE IF NOT EXISTS "));
        assert!(query.params().is_empty());
        if let Query::CreateTable { table } = query {
            tables.push(table);
        }
        flow = step(flow, Reply::Executed(0));
    }
    assert!(flow.finish().is_ok());
    assert_eq!(
        tables,
        [
            Table::Machines,
            Table::Commits,
            Table::Invocations,
            Table::Workloads,
            Table::Runs,
            Table::Data
        ]
    );
}

#[test]
fn failing_table_is_named() {
    let contexts = [
        "creating machines table",
        "creating commits table",
        "creating invocations table",
        "creating workloads table",
        "creating runs table",
        "creating data table",
    ];
    for (n, context) in contexts.iter().enumerate() {
        let mut flow = create_tables();
        for _ in 0..n {
            flow = step(flow, Reply::Executed(0));
        }
        let error = step(flow, broken()).finish().err().unwrap();
        assert_eq!(&error.message, context);
        assert_eq!(error.sources, ["database is locked"]);
    }
}

#[test]
fn machine_is_recorded() {
    let flow = new_machine(NewMachine { hostname: "anvil".to_string() });
    let query = query_of(flow.request());
    assert_eq!(query.sql(), "INSERT OR IGNORE INTO machines (hostname) VALUES (?)");
    assert_eq!(shown(&query.params()), ["anvil"]);
    answer(step(flow, Reply::Executed(1)).finish());
    let flow = new_machine(NewMachine { hostname: "anvil".to_string() });
    assert_eq!(
        refused(step(flow, broken()).finish()),
        (500, vec!["creating a new machine".to_string(), "database is locked".to_string()])
    );
}

#[test]
fn machines_are_listed() {
    let flow = list_machines(Pagination { offset: None, limit: None });
    let query = query_of(flow.request());
    assert_eq!(query.sql(), "SELECT * from machines LIMIT ? OFFSET ?");
    assert_eq!(shown(&query.params()), ["20u", "0u"]);
    let flow = step(flow, Reply::All(vec![row(vec![text("b")]), row(vec![text("a")])]));
    assert_eq!(query_of(flow.request()).sql(), "SELECT COUNT(hostname) from machines");
    let page = answer(step(flow, one(vec![Value::Signed(7)])).finish());
    let names: Vec<&str> = page.results.iter().map(|m| m.hostname.as_str()).collect();
    assert_eq!((names, page.total_count), (vec!["b", "a"], 7));
}

#[test]
fn machine_list_can_fail() {
    let flow = list_machines(Pagination { offset: Some(1), limit: Some(2) });
    assert_eq!(shown(&query_of(flow.request()).params()), ["2u", "1u"]);
    assert_eq!(refused(step(flow, broken()).finish()).1[0], "listing machines");
    let flow = list_machines(Pagination { offset: None, limit: None });
    let flow = step(flow, Reply::All(Vec::new()));
    assert_eq!(refused(step(flow, broken()).finish()).1[0], "fetching machine count");
}

#[test]
fn machine_is_found_or_not() {
    let flow = get_machine("anvil".to_string());
    let found = step(flow, Reply::Optional(Some(row(vec![text("anvil")]))));
    assert_eq!(answer(found.finish()).hostname, "anvil");
    let flow = get_machine("anvil".to_string());
    assert_eq!(
        refused(step(flow, Reply::Optional(None)).finish()),
        (404, vec!["machine 'anvil' not found".to_string()])
    );
    let flow = get_machine("anvil".to_string());
    assert_eq!(refused(step(flow, broken()).finish()).1[0], "while fetching machine");
}

fn commit(year: i32) -> NewCommit {
    NewCommit {
        sha1: "abc".to_string(),
        tag: Some("v1".to_string()),
        branch: None,
        commit_date: CommitDate {
            year,
            month: 5,
            day: 6,
            hour: 7,
            minute: 8,
            second: 9,
            nanosecond: 10,
            offset_seconds: 3600,
        },
        message: "Fix it".to_string(),
    }
}

fn invocation(max_workloads: u32, timeout: Option<Duration>) -> NewInvocation {
    NewInvocation {
        commit: commit(2024),
        machine_hostname: "anvil".to_string(),
        max_workloads,
        reason: Some("nightly".to_string()),
        timeout,
    }
}

#[test]
fn invocation_is_recorded() {
    let flow = new_invocation_as(invocation(3, None), ID);
    let query = query_of(flow.request());
    assert_eq!(
        query.sql(),
        "INSERT OR IGNORE INTO commits (sha1, date, message) VALUES (?, ?, ?)"
    );
    assert_eq!(shown(&query.params()), ["abc", "2024-05-06T07:08:09.000000010+01:00", "Fix it"]);
    let flow = step(flow, Reply::Executed(0));
    let query = query_of(flow.request());
    assert!(query.sql().starts_with("INSERT INTO\n        invocations (uuid, commit_sha1, branch,"));
    assert_eq!(
        shown(&query.params()),
        [ID_TEXT, "abc", "none", "some v1", "running", "3u", "anvil", "some nightly"]
    );
    let flow = step(flow, Reply::Executed(1));
    match flow.request() {
        Some(Request::Schedule { uuid, timeout }) => {
            assert_eq!(uuid, ID);
            assert_eq!(timeout, Duration { seconds: 10_800, nanoseconds: 0 });
        }
        _ => panic!("nothing scheduled"),
    }
    assert_eq!(answer(step(flow, Reply::Scheduled).finish()), ID);
}

#[test]
fn invocation_keeps_its_timeout() {
    let timeout = Duration { seconds: 5, nanoseconds: 6 };
    let flow = new_invocation_as(invocation(3, Some(timeout)), ID);
    let flow = step(step(flow, Reply::Executed(1)), Reply::Executed(1));
    match flow.request() {
        Some(Request::Schedule { timeout: t, .. }) => assert_eq!(t, timeout),
        _ => panic!("nothing scheduled"),
    }
    assert_eq!(refused(step(flow, broken()).finish()).1[0], "could not send timeout");
}

#[test]
fn invocation_gets_a_fresh_identifier() {
    let run = || {
        let flow = new_invocation(invocation(1, None));
        let flow = step(step(flow, Reply::Executed(1)), Reply::Executed(1));
        answer(step(flow, Reply::Scheduled).finish())
    };
    let (a, b) = (run(), run());
    assert_eq!((a.bits >> 76) & 0xf, 7);
    assert_ne!(a, b);
}

#[test]
fn invocation_without_workloads_is_refused() {
    let flow = new_invocation_as(invocation(0, None), ID);
    assert!(flow.request().is_none());
    assert_eq!(
        refused(flow.finish()),
        (400, vec!["max_workloads must be positive".to_string()])
    );
}

#[test]
fn invocation_with_unwritable_date_gives_up() {
    let mut request = invocation(1, None);
    request.commit = commit(-5);
    let flow = new_invocation_as(request, ID);
    assert!(flow.request().is_none());
    assert!(matches!(flow.finish(), Outcome::Abort(_)));
}

#[test]
fn invocation_can_fail() {
    let flow = new_invocation_as(invocation(1, None), ID);
    assert_eq!(
        refused(step(flow, broken()).finish()),
        (500, vec!["inserting new commit".to_string(), "database is locked".to_string()])
    );
    let flow = new_invocation_as(invocation(1, None), ID);
    let flow = step(flow, Reply::Executed(1));
    assert_eq!(refused(step(flow, broken()).finish()).1[0], "inserting new invocation");
}

fn cancel(reason: Option<&str>) -> benchboard::invocations::CancelInvocation {
    cancel_invocation(InvocationCancelRequest {
        invocation_uuid: ID,
        failure_reason: reason.map(|r| r.to_string()),
    })
}

#[test]
fn running_invocation_is_canceled() {
    let flow = cancel(None);
    let query = query_of(flow.request());
    assert_eq!(query.sql(), "SELECT status, failure_reason FROM invocations WHERE uuid = ?");
    assert_eq!(shown(&query.params()), [ID_TEXT]);
    let flow = step(flow, status_row("running", None));
    let query = query_of(flow.request());
    assert_eq!(
        query.sql(),
        "UPDATE invocations SET status = ?, failure_reason = ? WHERE uuid = ?"
    );
    assert_eq!(shown(&query.params()), ["canceled", "none", ID_TEXT]);
    answer(step(flow, Reply::Executed(1)).finish());
}

#[test]
fn running_invocation_fails_with_a_reason() {
    let flow = step(cancel(Some("crashed")), status_row("running", None));
    let query = query_of(flow.request());
    assert_eq!(shown(&query.params()), ["failed", "some crashed", ID_TEXT]);
    assert_eq!(
        refused(step(flow, Reply::Executed(0)).finish()),
        (400, vec![format!("Could not find invocation with uuid {}", ID_TEXT)])
    );
}

#[test]
fn ended_invocation_is_not_canceled() {
    for status in ["completed", "failed", "canceled", "timeout"] {
        let flow = step(cancel(Some("crashed")), status_row(status, Some("x")));
        assert!(flow.request().is_none());
        answer(flow.finish());
    }
}

#[test]
fn canceling_can_fail() {
    assert_eq!(
        refused(step(cancel(None), Reply::Optional(None)).finish()),
        (400, vec![format!("Invocation with uuid {} does not exist", ID_TEXT)])
    );
    assert_eq!(
        refused(step(cancel(None), broken()).finish()),
        (500, vec!["fetching invocation status".to_string(), "database is locked".to_string()])
    );
    assert_eq!(
        refused(step(cancel(None), status_row("odd", None)).finish()),
        (
            500,
            vec![
                "deserializing invocation status".to_string(),
                "received unknown status from DB: odd".to_string()
            ]
        )
    );
    let flow = step(cancel(None), status_row("running", None));
    assert_eq!(
        refused(step(flow, broken()).finish()).1[0],
        format!("Marking invocations {} as failed or canceled", ID_TEXT)
    );
}

#[test]
fn check_passes_running_invocations_only() {
    assert!(check_running("u", status_row("running", None)).is_ok());
    let refusal = check_running("u", status_row("timeout", None)).err().unwrap();
    assert_eq!(messages(refusal), (400, vec!["invocation 'u' is not running".to_string()]));
    let refusal = check_running("u", Reply::Optional(None)).err().unwrap();
    assert_eq!(messages(refusal), (404, vec!["invocation 'u' not found".to_string()]));
    assert_eq!(messages(check_running("u", broken()).err().unwrap()).0, 500);
    assert_eq!(messages(check_running("u", status_row("", None)).err().unwrap()).0, 500);
}

#[test]
fn deadline_times_a_running_invocation_out() {
    let flow = on_deadline(ID);
    let query = query_of(flow.request());
    assert_eq!(query.sql(), "SELECT status, reason FROM invocations WHERE uuid = ?");
    assert_eq!(shown(&query.params()), [ID_TEXT]);
    let flow = step(flow, one(vec![text("running"), optional(None)]));
    let query = query_of(flow.request());
    assert_eq!(query.sql(), "UPDATE invocations SET status = ? WHERE uuid = ?");
    assert_eq!(shown(&query.params()), ["timeout", ID_TEXT]);
    assert!(step(flow, Reply::Executed(1)).finish().is_ok());
}

#[test]
fn deadline_leaves_ended_invocations() {
    for status in ["completed", "failed", "canceled", "timeout"] {
        let flow = step(on_deadline(ID), one(vec![text(status), optional(None)]));
        assert!(flow.request().is_none());
        assert!(flow.finish().is_ok());
    }
}

#[test]
fn deadline_can_fail() {
    let error = step(on_deadline(ID), broken()).finish().err().unwrap();
    assert_eq!(error.message, format!("fetching invocation with uuid {}", ID_TEXT));
    let flow = step(on_deadline(ID), one(vec![text("odd"), optional(None)]));
    let error = flow.finish().err().unwrap();
    assert_eq!(error.message, format!("getting status for invocation with uuid {}", ID_TEXT));
    assert_eq!(
        error.sources,
        ["could not deserialize invocation", "received unknown status from DB: odd"]
    );
    let flow = step(on_deadline(ID), one(vec![text("running"), optional(None)]));
    assert_eq!(step(flow, broken()).finish().err().unwrap().message, "update failed");
}

#[test]
fn every_zombie_is_reaped_in_order() {
    let flow = reap_zombie_invocations();
    let query = query_of(flow.request());
    assert_eq!(query.sql(), "SELECT uuid FROM invocations WHERE status = ?");
    assert_eq!(shown(&query.params()), ["running"]);
    let rows = vec![row(vec![text("a")]), row(vec![text("b")]), row(vec![text("c")])];
    let mut flow = step(flow, Reply::All(rows));
    for uuid in ["a", "b", "c"] {
        let query = query_of(flow.request());
        assert_eq!(shown(&query.params()), ["failed", "some reaped zombie", uuid]);
        flow = step(flow, Reply::Executed(1));
    }
    assert!(step(flow, Reply::Continued).finish().is_ok());
}

#[test]
fn reaping_can_fail() {
    let error = step(reap_zombie_invocations(), broken()).finish().err().unwrap();
    assert_eq!(error.message, "reaping zombie invocations");
    assert_eq!(error.sources, ["fetching next row", "database is locked"]);
    let flow = step(reap_zombie_invocations(), Reply::All(vec![row(vec![text("a")])]));
    let error = step(flow, broken()).finish().err().unwrap();
    assert_eq!(error.message, "while reaping zombie invocation with uuid=a");
    let flow = step(reap_zombie_invocations(), Reply::All(Vec::new()));
    assert!(step(flow, Reply::Continued).finish().is_ok());
}

fn workload() -> benchboard::workloads::RecordWorkload {
    new_workload(NewWorkload { invocation_uuid: ID, name: "search".to_string(), max_runs: 5 })
}

#[test]
fn workload_of_a_running_invocation_is_recorded() {
    let flow = workload();
    assert_eq!(shown(&query_of(flow.request()).params()), [ID_TEXT]);
    let flow = step(flow, status_row("running", None));
    let query = query_of(flow.request());
    assert_eq!(
        query.sql(),
        "INSERT INTO workloads (uuid, name, max_runs, invocation_uuid) VALUES (?, ?, ?, ?)"
    );
    let params = shown(&query.params());
    assert_eq!(params[1..], ["search", "5u", ID_TEXT]);
    let id = answer(step(flow, Reply::Executed(1)).finish());
    assert_eq!(id.to_text(), params[0]);
    assert_eq!((id.bits >> 76) & 0xf, 7);
}

#[test]
fn workload_of_another_invocation_is_refused() {
    let flow = step(workload(), status_row("completed", None));
    assert!(flow.request().is_none());
    assert_eq!(
        refused(flow.finish()),
        (400, vec![format!("invocation '{}' is not running", ID_TEXT)])
    );
    let flow = step(workload(), Reply::Optional(None));
    assert_eq!(
        refused(flow.finish()),
        (404, vec![format!("invocation '{}' not found", ID_TEXT)])
    );
    let flow = step(workload(), status_row("running", None));
    assert_eq!(refused(step(flow, broken()).finish()).1[0], "inserting workload invocation");
}

#[test]
fn workloads_are_listed() {
    let flow = list_workloads(Pagination { offset: None, limit: Some(1) });
    assert_eq!(query_of(flow.request()).sql(), "SELECT * from workloads LIMIT ? OFFSET ?");
    let cells = vec![text(ID_TEXT), text("00000000-0000-0000-0000-000000000001"), text("x")];
    let flow = step(flow, Reply::All(vec![row(cells)]));
    assert_eq!(query_of(flow.request()).sql(), "SELECT COUNT(uuid) from workloads");
    let page = answer(step(flow, one(vec![Value::Signed(9)])).finish());
    assert_eq!(page.total_count, 9);
    assert_eq!(page.results.len(), 1);
    assert_eq!(page.results[0].uuid, ID);
    assert_eq!(page.results[0].invocation_uuid, Uuid { bits: 1 });
    assert_eq!(page.results[0].name, "x");
}

#[test]
fn malformed_workloads_stop_the_list() {
    let list = || list_workloads(Pagination { offset: None, limit: None });
    let good = || row(vec![text(ID_TEXT), text(ID_TEXT), text("x")]);
    let flow = step(list(), Reply::All(vec![good(), row(vec![text("?"), text("?"), text("x")])]));
    assert!(matches!(flow.finish(), Outcome::Abort("could not deserialize UUID")));
    let bad = row(vec![text(ID_TEXT), text("search"), text("x")]);
    let flow = step(list(), Reply::All(vec![bad, row(vec![text("?"), text("?"), text("x")])]));
    assert!(matches!(flow.finish(), Outcome::Abort("could not deserialize invocation UUID")));
    assert_eq!(refused(step(list(), broken()).finish()).1[0], "listing workloads");
    let flow = step(list(), Reply::All(Vec::new()));
    assert_eq!(refused(step(flow, broken()).finish()).1[0], "fetching workload count");
}

fn run_with(points: &[(&str, CallStats)]) -> RecordRun {
    let mut data = SpanMap::new();
    for (span, stats) in points {
        data.insert(span.to_string(), *stats);
    }
    new_run(NewRun { workload_uuid: ID, data })
}

fn point(self_time: u64, time: u64, call_count: u64) -> CallStats {
    CallStats { self_time, time, call_count }
}

fn started(points: &[(&str, CallStats)]) -> RecordRun {
    let flow = run_with(points);
    let flow = step(flow, one(vec![Value::Unsigned(2), text("inv")]));
    step(flow, status_row("running", None))
}

#[test]
fn run_is_recorded_with_its_measurements() {
    let flow = run_with(&[("b", point(1, 2, 3)), ("a", point(4, 5, 6))]);
    let query = query_of(flow.request());
    assert_eq!(query.sql(), "SELECT max_runs, invocation_uuid FROM workloads WHERE uuid = ?");
    assert_eq!(shown(&query.params()), [ID_TEXT]);
    let flow = step(flow, one(vec![Value::Unsigned(2), text("inv")]));
    assert_eq!(shown(&query_of(flow.request()).params()), ["inv"]);
    let flow = step(flow, status_row("running", None));
    let query = query_of(flow.request());
    assert_eq!(query.sql(), "INSERT INTO runs (uuid, workload_invocation_uuid) VALUES (?, ?)");
    let run = shown(&query.params());
    assert_eq!(run[1], ID_TEXT);
    let flow = step(flow, Reply::Executed(1));
    let query = query_of(flow.request());
    assert_eq!(
        query.sql(),
        "INSERT INTO data (span, run_uuid, self_time, time, call_count) VALUES (?, ?, ?, ?, ?)"
    );
    assert_eq!(shown(&query.params()), ["a", run[0].as_str(), "4i", "5i", "6i"]);
    let flow = step(flow, Reply::Executed(1));
    let query = query_of(flow.request());
    assert_eq!(shown(&query.params()), ["b", run[0].as_str(), "1i", "2i", "3i"]);
    let flow = step(flow, Reply::Executed(1));
    let query = query_of(flow.request());
    assert_eq!(
        query.sql(),
        "SELECT COUNT(uuid) FROM runs WHERE workload_invocation_uuid = ?"
    );
    assert_eq!(shown(&query.params()), [ID_TEXT]);
    let id = answer(step(flow, one(vec![Value::Unsigned(1)])).finish());
    assert_eq!(id.to_text(), run[0]);
}

#[test]
fn last_run_of_last_workload_completes_the_invocation() {
    let flow = step(started(&[]), Reply::Executed(1));
    let flow = step(flow, one(vec![Value::Unsigned(2)]));
    let query = query_of(flow.request());
    assert_eq!(query.sql(), "SELECT COUNT(uuid) FROM workloads WHERE invocation_uuid = ?");
    assert_eq!(shown(&query.params()), ["inv"]);
    let flow = step(flow, one(vec![Value::Unsigned(3)]));
    let query = query_of(flow.request());
    assert_eq!(query.sql(), "SELECT max_workloads FROM invocations WHERE uuid = ?");
    let flow = step(flow, one(vec![Value::Unsigned(3)]));
    let query = query_of(flow.request());
    assert_eq!(query.sql(), "UPDATE invocations SET status = ? WHERE uuid = ?");
    assert_eq!(shown(&query.params()), ["completed", "inv"]);
    answer(step(flow, Reply::Executed(1)).finish());
}

#[test]
fn last_run_of_another_workload_completes_nothing() {
    let flow = step(started(&[]), Reply::Executed(1));
    let flow = step(flow, one(vec![Value::Unsigned(2)]));
    let flow = step(flow, one(vec![Value::Unsigned(1)]));
    let flow = step(flow, one(vec![Value::Unsigned(3)]));
    assert!(flow.request().is_none());
    answer(flow.finish());
}

#[test]
fn run_of_an_ended_invocation_writes_nothing() {
    for (reply, code) in [
        (status_row("completed", None), 400),
        (status_row("timeout", None), 400),
        (Reply::Optional(None), 404),
        (broken(), 500),
    ] {
        let flow = run_with(&[("a", point(1, 2, 3))]);
        assert!(matches!(flow.request(), Some(Request::FetchOne(_))));
        let flow = step(flow, one(vec![Value::Unsigned(2), text("inv")]));
        assert!(matches!(flow.request(), Some(Request::FetchOptional(_))));
        let flow = step(flow, reply);
        assert!(flow.request().is_none());
        assert_eq!(refused(flow.finish()).0, code);
    }
}

#[test]
fn numbers_that_are_too_large_are_refused() {
    let limit = i64::MAX as u64;
    let conversion = i64::try_from(u64::MAX).err().unwrap().to_string();
    assert_eq!(conversion, OUT_OF_RANGE);
    let cases = [
        (
            point(limit + 1, 0, 0),
            format!("'self_time' ({}ns) bigger than the allowed maximum ({}ns)", limit + 1, limit),
        ),
        (
            point(0, u64::MAX, 0),
            format!("'time' ({}ns) bigger than the allowed maximum ({}ns)", u64::MAX, limit),
        ),
        (
            point(limit, limit, limit + 2),
            format!("'call_count' ({}) bigger than the allowed maximum ({})", limit + 2, limit),
        ),
        (
            point(u64::MAX, u64::MAX, u64::MAX),
            format!("'self_time' ({}ns) bigger than the allowed maximum ({}ns)", u64::MAX, limit),
        ),
    ];
    for (stats, message) in cases {
        let flow = started(&[("a", point(1, 1, 1)), ("b", stats), ("c", point(1, 1, 1))]);
        let flow = step(flow, Reply::Executed(1));
        let flow = step(flow, Reply::Executed(1));
        assert!(flow.request().is_none());
        assert_eq!(refused(flow.finish()), (400, vec![message, conversion.clone()]));
    }
}

#[test]
fn numbers_are_stored_unchanged() {
    let limit = i64::MAX as u64;
    let stored = data_point("a".to_string(), point(limit, 0, 1)).ok().unwrap();
    assert_eq!(stored.span, "a");
    assert_eq!((stored.self_time, stored.time, stored.call_count), (i64::MAX, 0, 1));
}

#[test]
fn recording_a_run_can_fail() {
    let first = |flow: RecordRun| refused(step(flow, broken()).finish()).1[0].clone();
    assert_eq!(first(run_with(&[])), "fetching max number of runs");
    assert_eq!(first(started(&[])), "inserting run");
    let measured = step(started(&[("a", point(1, 1, 1))]), Reply::Executed(1));
    assert_eq!(first(measured), "inserting data point");
    let counted = || step(started(&[]), Reply::Executed(1));
    assert_eq!(first(counted()), "fetching number of runs");
    let last = || step(counted(), one(vec![Value::Unsigned(2)]));
    assert_eq!(first(last()), "fetching number of workloads");
    let workloads = || step(last(), one(vec![Value::Unsigned(3)]));
    assert_eq!(first(workloads()), "fetching max number of invocations");
    let completing = step(workloads(), one(vec![Value::Unsigned(3)]));
    assert_eq!(first(completing), "marking invocation as completed");
}

#[test]
fn replies_have_to_fit_their_requests() {
    let request = InvocationStatus::query(&"u".to_string());
    assert!(request.is_answered_by(&status_row("running", None)));
    assert!(request.is_answered_by(&Reply::Optional(None)));
    assert!(request.is_answered_by(&broken()));
    assert!(!request.is_answered_by(&Reply::Executed(1)));
    assert!(!request.is_answered_by(&one(vec![text("running"), optional(None)])));
    assert!(!request.is_answered_by(&Reply::Optional(Some(row(vec![text("running")])))));
    let wrong = vec![optional(None), text("running")];
    assert!(!request.is_answered_by(&Reply::Optional(Some(row(wrong)))));
    assert!(Request::Continue.is_answered_by(&Reply::Continued));
    assert!(!Request::Continue.is_answered_by(&broken()));
    let all = Request::FetchAll(Query::RunningInvocations);
    assert!(all.is_answered_by(&Reply::All(vec![row(vec![text("a")])])));
    assert!(!all.is_answered_by(&Reply::All(vec![row(vec![text("a")]), row(vec![])])));
}
