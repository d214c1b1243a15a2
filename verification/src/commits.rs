//! Finding commits, and what was measured on them.

use crate::error::{ResponseError, StatusCode};
use crate::flow::{is_talk, rows_fit, went_on, Flow, Reply, Request};
use crate::model::CallStats;
use crate::query::{Column, Query, Row, Value, ValueView};
use crate::runs::{is_point_of, DataPoint};
use crate::span_map::{group_at, SpanMap};
use crate::status::StatusView;
use vstd::prelude::*;

verus! {

/// A commit on which a workload completed.
pub struct Commit {
    pub sha1: String,
}

/// The commits that the rows name, in the same order.
pub open spec fn commits_of(rows: Seq<Row>) -> Seq<Commit> {
    rows.map_values(|row: Row| Commit { sha1: row.spec_text(0) })
}

/// Reads the commits from the rows of a result.
fn read_commits(rows: Vec<Row>) -> (commits: Vec<Commit>)
    requires
        rows_fit(rows@, seq![Column::Text]),
    ensures
        commits@ == commits_of(rows@),
{
    let mut commits: Vec<Commit> = Vec::new();
    let mut i: usize = 0;
    while i < rows.len()
        invariant
            i <= rows.len(),
            rows_fit(rows@, seq![Column::Text]),
            commits@ == commits_of(rows@.take(i as int)),
        decreases rows.len() - i,
    {
        assert(rows@[i as int].fits(seq![Column::Text]));
        commits.push(Commit { sha1: rows[i].text(0) });
        i += 1;
        assert(commits@ =~= commits_of(rows@.take(i as int)));
    }
    assert(rows@.take(i as int) =~= rows@);
    commits
}

/// The reply is one to a question for rows with these columns.
pub open spec fn is_rows_reply(reply: Reply, columns: Seq<Column>) -> bool {
    match reply {
        Reply::Failed(_) => true,
        Reply::All(rows) => rows_fit(rows@, columns),
        _ => false,
    }
}

/// The refusal of a request whose question failed while `doing`.
pub open spec fn is_fetch_error(reply: Reply, doing: Seq<char>, refusal: ResponseError) -> bool {
    reply matches Reply::Failed(error) && refusal.says(
        seq![doing] + error@,
        StatusCode::InternalServerError,
    )
}

/// Reads the commits from the reply to a question for the latest of them.
pub fn latest_commits_for_worfklow(reply: Reply) -> (commits: Result<Vec<Commit>, ResponseError>)
    requires
        is_rows_reply(reply, seq![Column::Text]),
    ensures
        match commits {
            Ok(list) => reply matches Reply::All(rows) && list@ == commits_of(rows@),
            Err(refusal) => is_fetch_error(reply, "fetching latest commits"@, refusal),
        },
{
    match reply {
        Reply::Failed(error) => Err(ResponseError::internal(error, "fetching latest commits")),
        Reply::All(rows) => Ok(read_commits(rows)),
        _ => vstd::pervasive::unreached(),
    }
}

/// Reads the commit from the reply to a question for the one with a tag.
pub fn commit_for_tag(reply: Reply) -> (commit: Result<Option<Commit>, ResponseError>)
    requires
        match reply {
            Reply::Failed(_) => true,
            Reply::Optional(None) => true,
            Reply::Optional(Some(row)) => row.fits(seq![Column::Text]),
            _ => false,
        },
    ensures
        match commit {
            Ok(Some(commit)) => reply matches Reply::Optional(Some(row)) && commit.sha1
                == row.spec_text(0),
            Ok(None) => reply == Reply::Optional(None),
            Err(refusal) => is_fetch_error(reply, "fetching commit for tag"@, refusal),
        },
{
    match reply {
        Reply::Failed(error) => Err(ResponseError::internal(error, "fetching commit for tag")),
        Reply::Optional(None) => Ok(None),
        Reply::Optional(Some(row)) => Ok(Some(Commit { sha1: row.text(0) })),
        _ => vstd::pervasive::unreached(),
    }
}

/// Finding the latest commits of a branch.
pub enum BranchCommits {
    /// The date of the commit before which they have to be is looked up.
    Dating { branch: String, count: u32, before: String, workload_name: String },
    /// They are listed, up to `date` if there is one.
    Listing { branch: String, count: u32, date: Option<String>, workload_name: String },
    Finished(Result<Vec<Commit>, ResponseError>),
}

/// How the search for the latest commits of a branch begins.
pub open spec fn branch_search(
    branch: String,
    count: u32,
    before: Option<String>,
    workload_name: String,
) -> BranchCommits {
    match before {
        Some(before) => BranchCommits::Dating { branch, count, before, workload_name },
        None => BranchCommits::Listing { branch, count, date: None, workload_name },
    }
}

/// Finds the `count` latest commits of a branch on which a workload completed: those before the
/// commit `before`, if it is given and on the branch.
pub fn latest_commits_for_branch(
    branch: String,
    count: u32,
    before: Option<String>,
    workload_name: String,
) -> (flow: BranchCommits)
    ensures
        flow == branch_search(branch, count, before, workload_name),
{
    match before {
        Some(before) => BranchCommits::Dating { branch, count, before, workload_name },
        None => BranchCommits::Listing { branch, count, date: None, workload_name },
    }
}

impl Flow for BranchCommits {
    type Output = Result<Vec<Commit>, ResponseError>;

    open spec fn pending(&self) -> Option<Request> {
        match self {
            BranchCommits::Dating { branch, before, .. } => Some(
                Request::FetchOptional(Query::CommitDate { branch: *branch, sha1: *before }),
            ),
            BranchCommits::Listing { branch, count, date, workload_name } => match date {
                Some(date) => Some(
                    Request::FetchAll(
                        Query::BranchCommitsBefore {
                            workload_name: *workload_name,
                            branch: *branch,
                            date: *date,
                            count: *count,
                        },
                    ),
                ),
                None => Some(
                    Request::FetchAll(
                        Query::BranchCommits {
                            workload_name: *workload_name,
                            branch: *branch,
                            count: *count,
                        },
                    ),
                ),
            },
            BranchCommits::Finished(_) => None,
        }
    }

    open spec fn result(&self) -> Option<Result<Vec<Commit>, ResponseError>> {
        match self {
            BranchCommits::Finished(commits) => Some(*commits),
            _ => None,
        }
    }

    open spec fn leads_to(self, reply: Reply, next: Self) -> bool {
        match (self, reply) {
            (BranchCommits::Dating { .. }, Reply::Failed(_)) => {
                &&& next matches BranchCommits::Finished(Err(e))
                &&& is_fetch_error(reply, "fetching commit date"@, e)
            },
            (BranchCommits::Dating { branch, count, workload_name, .. }, Reply::Optional(row)) => {
                next == (BranchCommits::Listing {
                    branch,
                    count,
                    date: match row {
                        Some(row) => Some(row.spec_text(0)),
                        None => None,
                    },
                    workload_name,
                })
            },
            (BranchCommits::Listing { .. }, Reply::Failed(_)) => {
                &&& next matches BranchCommits::Finished(Err(e))
                &&& is_fetch_error(reply, "fetching latest commits on branch"@, e)
            },
            (BranchCommits::Listing { .. }, Reply::All(rows)) => {
                &&& next matches BranchCommits::Finished(Ok(commits))
                &&& commits@ == commits_of(rows@)
            },
            _ => next == self,
        }
    }

    open spec fn distance(&self) -> (nat, nat, nat) {
        match self {
            BranchCommits::Dating { .. } => (2, 0, 0),
            BranchCommits::Listing { .. } => (1, 0, 0),
            BranchCommits::Finished(_) => (0, 0, 0),
        }
    }

    proof fn waits_or_ended(&self) {
    }

    proof fn gets_closer(self, reply: Reply, next: Self) {
    }

    fn request(&self) -> (request: Option<Request>) {
        match self {
            BranchCommits::Dating { branch, before, .. } => Some(
                Request::FetchOptional(
                    Query::CommitDate { branch: branch.clone(), sha1: before.clone() },
                ),
            ),
            BranchCommits::Listing { branch, count, date, workload_name } => match date {
                Some(date) => Some(
                    Request::FetchAll(
                        Query::BranchCommitsBefore {
                            workload_name: workload_name.clone(),
                            branch: branch.clone(),
                            date: date.clone(),
                            count: *count,
                        },
                    ),
                ),
                None => Some(
                    Request::FetchAll(
                        Query::BranchCommits {
                            workload_name: workload_name.clone(),
                            branch: branch.clone(),
                            count: *count,
                        },
                    ),
                ),
            },
            BranchCommits::Finished(_) => None,
        }
    }

    fn resume(self, reply: Reply) -> (next: Self) {
        match (self, reply) {
            (BranchCommits::Dating { .. }, Reply::Failed(error)) => BranchCommits::Finished(
                Err(ResponseError::internal(error, "fetching commit date")),
            ),
            (BranchCommits::Dating { branch, count, workload_name, .. }, Reply::Optional(row)) => {
                let date = match row {
                    Some(row) => Some(row.text(0)),
                    None => None,
                };
                BranchCommits::Listing { branch, count, date, workload_name }
            },
            (BranchCommits::Listing { .. }, Reply::Failed(error)) => BranchCommits::Finished(
                Err(ResponseError::internal(error, "fetching latest commits on branch")),
            ),
            (BranchCommits::Listing { .. }, Reply::All(rows)) => BranchCommits::Finished(
                Ok(read_commits(rows)),
            ),
            (flow, _) => flow,
        }
    }

    fn finish(self) -> (output: Result<Vec<Commit>, ResponseError>) {
        match self {
            BranchCommits::Finished(commits) => commits,
            _ => vstd::pervasive::unreached(),
        }
    }
}

/// The measurement in three columns of a row: the own time, the time, the number of calls.
pub open spec fn stats_at(row: Row, i: int) -> CallStats {
    CallStats {
        self_time: row.spec_signed(i) as u64,
        time: row.spec_signed(i + 1) as u64,
        call_count: row.spec_signed(i + 2) as u64,
    }
}

/// Reads the measurement from three columns of a row.
fn read_stats(row: &Row, i: usize) -> (stats: CallStats)
    requires
        i + 2 < row.cells.len(),
        row.cells[i as int] is Signed,
        row.cells[i + 1] is Signed,
        row.cells[i + 2] is Signed,
    ensures
        stats == stats_at(*row, i as int),
{
    let self_time: i64 = row.signed(i);
    let time: i64 = row.signed(i + 1);
    let call_count: i64 = row.signed(i + 2);
    CallStats { self_time: self_time as u64, time: time as u64, call_count: call_count as u64 }
}

/// The measurements of the rows, by span: each row is added to those of its span.
pub open spec fn grouped(rows: Seq<Row>) -> Map<Seq<char>, Seq<CallStats>>
    decreases rows.len(),
{
    if rows.len() == 0 {
        Map::empty()
    } else {
        let groups = grouped(rows.drop_last());
        let span = rows.last().spec_text(0)@;
        groups.insert(span, group_at(groups, span).push(stats_at(rows.last(), 1)))
    }
}

/// The columns of a measurement with its span.
pub open spec fn span_columns() -> Seq<Column> {
    seq![Column::Text, Column::Signed, Column::Signed, Column::Signed]
}

/// Reads what was measured of a workload on a commit, by span.
pub fn data_for_commit(reply: Reply) -> (data: Result<SpanMap<Vec<CallStats>>, ResponseError>)
    requires
        is_rows_reply(reply, span_columns()),
    ensures
        match data {
            Ok(spans) => {
                &&& spans.wf()
                &&& reply matches Reply::All(rows) && spans.groups() == grouped(rows@)
            },
            Err(refusal) => is_fetch_error(reply, "fetching data for commit"@, refusal),
        },
{
    let rows = match reply {
        Reply::Failed(error) => {
            return Err(ResponseError::internal(error, "fetching data for commit"));
        },
        Reply::All(rows) => rows,
        _ => vstd::pervasive::unreached(),
    };
    let mut spans: SpanMap<Vec<CallStats>> = SpanMap::new();
    let mut i: usize = 0;
    assert(spans.groups() =~= Map::empty());
    assert(rows@.take(0) =~= Seq::empty());
    while i < rows.len()
        invariant
            i <= rows.len(),
            rows_fit(rows@, span_columns()),
            spans.wf(),
            spans.groups() == grouped(rows@.take(i as int)),
        decreases rows.len() - i,
    {
        let row = &rows[i];
        assert(rows@[i as int].fits(span_columns()));
        assert(rows@.take(i + 1).drop_last() =~= rows@.take(i as int));
        spans.push(row.text(0), read_stats(row, 1));
        i += 1;
    }
    assert(rows@.take(i as int) =~= rows@);
    Ok(spans)
}

/// The measurements of one span, in the order of the rows.
pub open spec fn measurements_of(rows: Seq<Row>) -> Seq<CallStats> {
    rows.map_values(|row: Row| stats_at(row, 0))
}

/// The columns of a measurement.
pub open spec fn stats_columns() -> Seq<Column> {
    seq![Column::Signed, Column::Signed, Column::Signed]
}

/// Reads what was measured of a span of a workload on a commit.
pub fn data_for_span(reply: Reply) -> (data: Result<Vec<CallStats>, ResponseError>)
    requires
        is_rows_reply(reply, stats_columns()),
    ensures
        match data {
            Ok(list) => reply matches Reply::All(rows) && list@ == measurements_of(rows@),
            Err(refusal) => is_fetch_error(reply, "fetching data for span"@, refusal),
        },
{
    let rows = match reply {
        Reply::Failed(error) => {
            return Err(ResponseError::internal(error, "fetching data for span"));
        },
        Reply::All(rows) => rows,
        _ => vstd::pervasive::unreached(),
    };
    let mut list: Vec<CallStats> = Vec::new();
    let mut i: usize = 0;
    while i < rows.len()
        invariant
            i <= rows.len(),
            rows_fit(rows@, stats_columns()),
            list@ == measurements_of(rows@.take(i as int)),
        decreases rows.len() - i,
    {
        assert(rows@[i as int].fits(stats_columns()));
        list.push(read_stats(&rows[i], 0));
        i += 1;
        assert(list@ =~= measurements_of(rows@.take(i as int)));
    }
    assert(rows@.take(i as int) =~= rows@);
    Ok(list)
}

/// Whether a row is one of a span.
pub open spec fn is_of(span: Seq<char>) -> spec_fn(Row) -> bool {
    |row: Row| row.spec_text(0)@ == span
}

/// The measurements that the rows hold of a span, in the order of the rows.
pub open spec fn of_span(rows: Seq<Row>, span: Seq<char>) -> Seq<CallStats> {
    rows.filter(is_of(span)).map_values(|row: Row| stats_at(row, 1))
}

/// Grouping by span loses nothing and mixes nothing: under every span stand exactly the
/// measurements of the rows with that span, in their order, and only the spans of the rows occur.
pub proof fn grouping_keeps_every_row(rows: Seq<Row>, span: Seq<char>)
    ensures
        group_at(grouped(rows), span) == of_span(rows, span),
        grouped(rows).contains_key(span) <==> of_span(rows, span).len() > 0,
    decreases rows.len(),
{
    reveal(Seq::filter);
    if rows.len() > 0 {
        let shorter = rows.drop_last();
        grouping_keeps_every_row(shorter, span);
        if is_of(span)(rows.last()) {
            assert(of_span(rows, span) =~= of_span(shorter, span).push(stats_at(rows.last(), 1)));
        } else {
            assert(of_span(rows, span) =~= of_span(shorter, span));
        }
    } else {
        assert(of_span(rows, span) =~= Seq::empty());
    }
}

/// No span stands for nothing: under every span there is at least one measurement.
pub proof fn no_group_is_empty(rows: Seq<Row>, span: Seq<char>)
    requires
        grouped(rows).contains_key(span),
    ensures
        grouped(rows)[span].len() > 0,
{
    grouping_keeps_every_row(rows, span);
}

/// The cells of rows.
pub open spec fn cells_of(rows: Seq<Row>) -> Seq<Seq<Value>> {
    rows.map_values(|row: Row| row.cells@)
}

/// The cells of the rows with a span, without the column of the span.
pub open spec fn cut_to_span(rows: Seq<Row>, span: Seq<char>) -> Seq<Seq<Value>> {
    rows.filter(is_of(span)).map_values(|row: Row| row.cells@.skip(1))
}

/// The measurement in three cells.
pub open spec fn stats_in(cells: Seq<Value>) -> CallStats {
    CallStats {
        self_time: cells[0]->Signed_0 as u64,
        time: cells[1]->Signed_0 as u64,
        call_count: cells[2]->Signed_0 as u64,
    }
}

/// Two lists with the same items, in whatever order, give the same results.
proof fn same_items_give_same_results<A, B>(one: Seq<A>, other: Seq<A>, f: spec_fn(A) -> B)
    requires
        one.to_multiset() == other.to_multiset(),
    ensures
        one.map_values(f).to_multiset() == other.map_values(f).to_multiset(),
    decreases one.len(),
{
    broadcast use vstd::seq_lib::group_to_multiset_ensures;

    assert(one.len() == one.to_multiset().len());
    assert(other.len() == other.to_multiset().len());
    if one.len() > 0 {
        let last = one.last();
        assert(one[one.len() - 1] == last);
        assert(one.contains(last));
        assert(other.to_multiset().count(last) > 0);
        let i = other.index_of(last);
        let (shorter, rest) = (one.drop_last(), other.remove(i));
        assert(one.remove(one.len() - 1) =~= shorter);
        same_items_give_same_results(shorter, rest, f);
        assert(one.map_values(f) =~= shorter.map_values(f).push(f(last)));
        assert(other.map_values(f).remove(i) =~= rest.map_values(f));
        assert(other.map_values(f)[i] == f(last));
        let all = other.map_values(f);
        assert(all.to_multiset() =~= all.remove(i).to_multiset().insert(f(last)));
    } else {
        assert(one.map_values(f) =~= other.map_values(f));
    }
}

/// What is read for a span of a commit is what is read for the commit under that span. If the rows
/// for the span are those for the commit with that span, without their span and in whatever order,
/// the same measurements are read, in the same order if the rows are; and there are none exactly
/// if the span does not occur for the commit.
pub proof fn span_data_is_that_of_the_commit(
    rows: Seq<Row>,
    span: Seq<char>,
    span_rows: Seq<Row>,
)
    requires
        rows_fit(rows, span_columns()),
        cells_of(span_rows).to_multiset() == cut_to_span(rows, span).to_multiset(),
    ensures
        measurements_of(span_rows).to_multiset() == group_at(grouped(rows), span).to_multiset(),
        cells_of(span_rows) == cut_to_span(rows, span) ==> measurements_of(span_rows) == group_at(
            grouped(rows),
            span,
        ),
        measurements_of(span_rows).len() == 0 <==> !grouped(rows).contains_key(span),
{
    broadcast use vstd::seq_lib::group_to_multiset_ensures;

    let f = |cells: Seq<Value>| stats_in(cells);
    let with_span = rows.filter(is_of(span));
    grouping_keeps_every_row(rows, span);
    assert(measurements_of(span_rows) =~= cells_of(span_rows).map_values(f));
    assert(of_span(rows, span) =~= cut_to_span(rows, span).map_values(f)) by {
        assert forall|i: int| 0 <= i < with_span.len() implies stats_at(
            #[trigger] with_span[i],
            1,
        ) == stats_in(with_span[i].cells@.skip(1)) by {
            rows.lemma_filter_contains_rev(is_of(span), with_span[i]);
            let j = choose|j: int| 0 <= j < rows.len() && rows[j] == with_span[i];
            assert(rows[j].fits(span_columns()));
        }
    }
    same_items_give_same_results(cells_of(span_rows), cut_to_span(rows, span), f);
    assert(measurements_of(span_rows).to_multiset().len() == measurements_of(span_rows).len());
    assert(of_span(rows, span).to_multiset().len() == of_span(rows, span).len());
}

/// How the statements for measurements end.
pub const OF_STATUS: &'static str = "AND invocations.status = ?";

/// Only what completed invocations measured is read, for a commit and for a span of it: both
/// statements end with a condition on the status, to which the text for completed is bound.
pub proof fn only_completed_data_is_read(query: Query)
    requires
        query is CommitData || query is SpanData,
    ensures
        query.sql_text().len() > OF_STATUS@.len(),
        query.sql_text().skip(query.sql_text().len() - OF_STATUS@.len()) == OF_STATUS@,
        query.binds().last() == ValueView::Text(StatusView::Completed.db_text()),
{
    reveal_strlit("AND invocations.status = ?");
    if query is CommitData {
        reveal_strlit("SELECT data.span, data.self_time, data.time, data.call_count FROM data
    INNER JOIN runs ON data.run_uuid = runs.uuid
    INNER JOIN workloads ON runs.workload_invocation_uuid = workloads.uuid
    INNER JOIN invocations ON workloads.invocation_uuid = invocations.uuid
    WHERE workloads.name = ?
    AND invocations.commit_sha1 = ?
    AND invocations.status = ?");
    } else {
        reveal_strlit("SELECT data.self_time, data.time, data.call_count FROM data
    INNER JOIN runs ON data.run_uuid = runs.uuid
    INNER JOIN workloads ON runs.workload_invocation_uuid = workloads.uuid
    INNER JOIN invocations ON workloads.invocation_uuid = invocations.uuid
    WHERE data.span = ?
    AND workloads.name = ?
    AND invocations.commit_sha1 = ?
    AND invocations.status = ?");
    }
    let text = query.sql_text();
    assert(text.skip(text.len() - OF_STATUS@.len()) =~= OF_STATUS@);
}

/// A measurement that was stored is read back as it was.
pub proof fn stored_measurement_is_read_back(
    span: String,
    stats: CallStats,
    point: DataPoint,
    row: Row,
)
    requires
        is_point_of(span, stats, point),
        row.cells@ == seq![
            Value::Text(point.span),
            Value::Signed(point.self_time),
            Value::Signed(point.time),
            Value::Signed(point.call_count),
        ],
    ensures
        row.spec_text(0) == span,
        stats_at(row, 1) == stats,
{
}

/// The latest commits of a branch are searched for the workload, the branch and the number that
/// were given. If a commit is given before which they have to be, its date on that branch is looked
/// up first, and if it has one they are those before that date.
pub proof fn branch_is_searched_before_the_commit(
    branch: String,
    count: u32,
    before: Option<String>,
    workload_name: String,
    states: Seq<BranchCommits>,
    replies: Seq<Reply>,
)
    requires
        is_talk(states, replies),
        states[0] == branch_search(branch, count, before, workload_name),
    ensures
        match before {
            Some(sha1) => {
                &&& states[0].pending() == Some(
                    Request::FetchOptional(Query::CommitDate { branch, sha1 }),
                )
                &&& replies.len() <= 2
                &&& states.len() > 1 ==> match replies[0] {
                    Reply::Failed(error) => states[1].result() matches Some(Err(e)) && e.says(
                        seq!["fetching commit date"@] + error@,
                        StatusCode::InternalServerError,
                    ),
                    Reply::Optional(None) => states[1].pending() == Some(
                        Request::FetchAll(Query::BranchCommits { workload_name, branch, count }),
                    ),
                    Reply::Optional(Some(row)) => {
                        &&& states[1].pending() matches Some(
                            Request::FetchAll(
                                Query::BranchCommitsBefore {
                                    workload_name: w,
                                    branch: b,
                                    date,
                                    count: c,
                                },
                            ),
                        )
                        &&& w == workload_name && b == branch && c == count
                        &&& row.cells@[0] == Value::Text(date)
                    },
                    _ => false,
                }
            },
            None => {
                &&& states[0].pending() == Some(
                    Request::FetchAll(Query::BranchCommits { workload_name, branch, count }),
                )
                &&& replies.len() <= 1
            },
        },
        states.last().result() matches Some(Ok(commits)) ==> {
            &&& replies.last() matches Reply::All(rows)
            &&& commits@.len() == rows@.len()
            &&& forall|i: int|
                0 <= i < rows@.len() ==> (#[trigger] rows@[i]).cells@[0] == Value::Text(
                    commits@[i].sha1,
                )
        },
        replies.len() > 0 && replies.last() is All ==> states.last().result() matches Some(Ok(_)),
        replies.len() > 0 ==> (replies.last() matches Reply::Failed(error) ==> {
            &&& states.last().result() matches Some(Err(e))
            &&& e.says(
                seq![
                    if before is Some && replies.len() == 1 {
                        "fetching commit date"@
                    } else {
                        "fetching latest commits on branch"@
                    },
                ] + error@,
                StatusCode::InternalServerError,
            )
        }),
{
    if replies.len() > 0 {
        assert(went_on(states, replies, 0));
    }
    if replies.len() > 1 {
        assert(went_on(states, replies, 1));
    }
    if replies.len() > 2 {
        assert(went_on(states, replies, 2));
    }
    if replies.len() > 0 {
        if let Reply::All(rows) = replies.last() {
            assert forall|i: int| 0 <= i < rows@.len() implies (#[trigger] rows@[i]).fits(
                seq![Column::Text],
            ) by {}
        }
    }
}

/// A row for a commit gives the name of its span in the first column, its own time in the second,
/// its time in the third and its calls in the fourth; a row for a span gives the same three numbers.
pub proof fn measurements_are_read_by_column(row: Row, first: int)
    requires
        first == 0 && row.fits(stats_columns()) || first == 1 && row.fits(span_columns()),
    ensures
        row.cells@[first] matches Value::Signed(n) && stats_at(row, first).self_time == n as u64,
        row.cells@[first + 1] matches Value::Signed(n) && stats_at(row, first).time == n as u64,
        row.cells@[first + 2] matches Value::Signed(n) && stats_at(row, first).call_count
            == n as u64,
        first == 1 ==> row.cells@[0] == Value::Text(row.spec_text(0)),
{
    assert(row.cells@[first].kind() == Column::Signed);
    assert(row.cells@[first + 1].kind() == Column::Signed);
    assert(row.cells@[first + 2].kind() == Column::Signed);
}

/// The measurements of a span are those of the rows, one for each and in their order.
pub proof fn span_is_read_row_by_row(rows: Seq<Row>, i: int)
    requires
        0 <= i < rows.len(),
        rows[i].fits(stats_columns()),
    ensures
        measurements_of(rows).len() == rows.len(),
        rows[i].cells@[0] matches Value::Signed(n) && measurements_of(rows)[i].self_time == n as u64,
        rows[i].cells@[1] matches Value::Signed(n) && measurements_of(rows)[i].time == n as u64,
        rows[i].cells@[2] matches Value::Signed(n) && measurements_of(rows)[i].call_count
            == n as u64,
{
    measurements_are_read_by_column(rows[i], 0);
}

/// Under the name of a span stand the measurements of the rows that name it, in their order, and
/// nothing stands under a name that no row has.
pub proof fn commit_is_read_by_span(rows: Seq<Row>, span: Seq<char>)
    ensures
        grouped(rows).contains_key(span) <==> exists|i: int|
            0 <= i < rows.len() && (#[trigger] rows[i]).spec_text(0)@ == span,
        grouped(rows).contains_key(span) ==> grouped(rows)[span] == rows.filter(
            |row: Row| row.spec_text(0)@ == span,
        ).map_values(|row: Row| stats_at(row, 1)),
{
    broadcast use vstd::seq_lib::group_filter_ensures;

    grouping_keeps_every_row(rows, span);
    let named = rows.filter(|row: Row| row.spec_text(0)@ == span);
    assert(is_of(span) =~= (|row: Row| row.spec_text(0)@ == span));
    assert(of_span(rows, span) =~= named.map_values(|row: Row| stats_at(row, 1)));
    if named.len() > 0 {
        assert(named.contains(named[0]));
        rows.lemma_filter_contains_rev(|row: Row| row.spec_text(0)@ == span, named[0]);
        let i = choose|i: int| 0 <= i < rows.len() && rows[i] == named[0];
        assert(rows[i].spec_text(0)@ == span);
    }
    if exists|i: int| 0 <= i < rows.len() && (#[trigger] rows[i]).spec_text(0)@ == span {
        let i = choose|i: int| 0 <= i < rows.len() && (#[trigger] rows[i]).spec_text(0)@ == span;
        assert(named.contains(rows[i]));
    }
}

} // verus!
