use benchboard::query::{Query, Table, Value};
use benchboard::status::InvocationStatus;

fn s() -> String {
    "x".to_string()
}

fn every_query() -> Vec<Query> {
    let tables = [
        Table::Machines,
        Table::Commits,
        Table::Invocations,
        Table::Workloads,
        Table::Runs,
        Table::Data,
    ];
    let mut queries: Vec<Query> =
        tables.into_iter().map(|table| Query::CreateTable { table }).collect();
    queries.extend([
        Query::InsertMachine { hostname: s() },
        Query::ListMachines { limit: 1, offset: 2 },
        Query::CountMachines,
        Query::FindMachine { hostname: s() },
        Query::InsertCommit { sha1: s(), date: s(), message: s() },
        Query::InsertInvocation {
            uuid: s(),
            commit_sha1: s(),
            branch: None,
            tag: None,
            max_workloads: 1,
            machine_hostname: s(),
            reason: None,
        },
        Query::InvocationStatus { uuid: s() },
        Query::DeadlineStatus { uuid: s() },
        Query::SetStatus { status: InvocationStatus::Timeout, uuid: s() },
        Query::SetFailure { status: InvocationStatus::Failed(s()), uuid: s() },
        Query::RunningInvocations,
        Query::InsertWorkload { uuid: s(), name: s(), max_runs: 1, invocation_uuid: s() },
        Query::FindWorkload { uuid: s() },
        Query::InsertRun { uuid: s(), workload_uuid: s() },
        Query::InsertData { span: s(), run_uuid: s(), self_time: 1, time: 2, call_count: 3 },
        Query::CountRuns { workload_uuid: s() },
        Query::CountWorkloadsOf { invocation_uuid: s() },
        Query::MaxWorkloads { invocation_uuid: s() },
        Query::LatestWorkload { invocation_uuid: s() },
        Query::ListInvocations { limit: 1, offset: 2 },
        Query::CountInvocations,
        Query::FindInvocation { uuid: s() },
        Query::LatestInvocations { count: 1 },
        Query::ListWorkloads { limit: 1, offset: 2 },
        Query::CountWorkloads,
        Query::LatestCompleted { count: 1 },
        Query::CommitData { workload_name: s(), commit_sha1: s() },
        Query::SpanData { span: s(), workload_name: s(), commit_sha1: s() },
        Query::LatestCommits { workload_name: s(), before: s(), count: 1 },
        Query::TaggedCommit { workload_name: s(), tag: s() },
        Query::CommitDate { branch: s(), sha1: s() },
        Query::BranchCommitsBefore { workload_name: s(), branch: s(), date: s(), count: 1 },
        Query::BranchCommits { workload_name: s(), branch: s(), count: 1 },
    ]);
    queries
}

#[test]
fn every_placeholder_is_bound() {
    for query in every_query() {
        let placeholders = query.sql().matches('?').count();
        assert_eq!(placeholders, query.params().len(), "{}", query.sql());
    }
}

#[test]
fn only_selections_have_columns() {
    for query in every_query() {
        assert_eq!(query.sql().starts_with("SELECT"), !query.columns().is_empty());
    }
}

#[test]
fn failure_is_bound_with_its_reason() {
    let query = Query::SetFailure { status: InvocationStatus::Failed(s()), uuid: s() };
    let params = query.params();
    assert!(matches!(&params[0], Value::Text(text) if text == "failed"));
    assert!(matches!(&params[1], Value::OptionalText(Some(text)) if text == "x"));
    assert!(matches!(&params[2], Value::Text(text) if text == "x"));
    let query = Query::SetFailure { status: InvocationStatus::Canceled, uuid: s() };
    assert!(matches!(&query.params()[1], Value::OptionalText(None)));
}

#[test]
fn completed_invocations_are_asked_for() {
    for query in every_query() {
        if query.sql().contains("invocations.status = ?") {
            let completed = query
                .params()
                .iter()
                .any(|value| matches!(value, Value::Text(text) if text == "completed"));
            assert!(completed);
        }
    }
}

#[test]
fn only_missing_tables_are_created() {
    let mut tables = 0;
    for query in every_query() {
        if let Query::CreateTable { .. } = query {
            assert!(query.sql().starts_with("CREATE TABLE IF NOT EXISTS "), "{}", query.sql());
            assert!(query.params().is_empty());
            tables += 1;
        }
    }
    assert_eq!(tables, 6);
}

#[test]
fn only_completed_data_is_read() {
    let queries = [
        Query::CommitData { workload_name: s(), commit_sha1: s() },
        Query::SpanData { span: s(), workload_name: s(), commit_sha1: s() },
    ];
    for query in queries {
        assert!(query.sql().ends_with("AND invocations.status = ?"));
        assert!(matches!(query.params().pop(), Some(Value::Text(status)) if status == "completed"));
    }
}
