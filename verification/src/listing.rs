//! Requests for invocations.

use crate::error::{Outcome, ResponseError, ResultToResponseError, StatusCode};
use crate::flow::{is_talk, rows_fit, went_on, Flow, Reply, Request};
use crate::ids::{parsed_uuid, uuid_text, Uuid};
use crate::lists::reversed;
use crate::model::{Invocation, InvocationProgress, PaginatedResults, Pagination};
use crate::progress::{progress_begins, ReadProgress};
use crate::query::{Query, Row, Value};
use crate::status::{optional_text, status_of, InvocationStatus};
use crate::text::concat3;
use vstd::prelude::*;

verus! {

/// An invocation as it is recorded.
pub struct InvocationRecord {
    pub uuid: String,
    pub commit_sha1: String,
    pub machine_hostname: String,
    pub reason: Option<String>,
    pub tag: Option<String>,
    pub branch: Option<String>,
    pub status: String,
    pub failure_reason: Option<String>,
    pub max_workloads: u32,
}

/// The invocation that a row of a list names.
pub open spec fn record_of(row: Row) -> InvocationRecord {
    InvocationRecord {
        uuid: row.spec_text(0),
        commit_sha1: row.spec_text(1),
        machine_hostname: row.spec_text(2),
        reason: row.spec_optional_text(3),
        tag: row.spec_optional_text(4),
        branch: row.spec_optional_text(5),
        status: row.spec_text(6),
        failure_reason: row.spec_optional_text(7),
        max_workloads: row.spec_unsigned(8),
    }
}

/// The invocations that the rows name, in the same order.
pub open spec fn records_of(rows: Seq<Row>) -> Seq<InvocationRecord> {
    rows.map_values(|row: Row| record_of(row))
}

/// Reads the invocations from the rows of a result.
fn read_records(rows: Vec<Row>) -> (records: Vec<InvocationRecord>)
    requires
        rows_fit(rows@, (Query::LatestInvocations { count: 0 }).spec_columns()),
    ensures
        records@ == records_of(rows@),
{
    let mut records: Vec<InvocationRecord> = Vec::new();
    let mut i: usize = 0;
    while i < rows.len()
        invariant
            i <= rows.len(),
            rows_fit(rows@, (Query::LatestInvocations { count: 0 }).spec_columns()),
            records@ == records_of(rows@.take(i as int)),
        decreases rows.len() - i,
    {
        let row = &rows[i];
        assert(rows@[i as int].fits((Query::LatestInvocations { count: 0 }).spec_columns()));
        records.push(
            InvocationRecord {
                uuid: row.text(0),
                commit_sha1: row.text(1),
                machine_hostname: row.text(2),
                reason: row.optional_text(3),
                tag: row.optional_text(4),
                branch: row.optional_text(5),
                status: row.text(6),
                failure_reason: row.optional_text(7),
                max_workloads: row.unsigned(8),
            },
        );
        i += 1;
        assert(records@ =~= records_of(rows@.take(i as int)));
    }
    assert(rows@.take(i as int) =~= rows@);
    records
}

/// Whom a list of invocations is for: it decides what is said when a record is malformed.
#[derive(Debug, Clone, Copy, PartialEq, Eq, Structural)]
pub enum Audience {
    /// A request for a part of the list.
    Api,
    /// The home page.
    Home,
}

impl Audience {
    /// The messages for a status that is unknown.
    pub open spec fn unknown_status(self, status: Seq<char>) -> Seq<Seq<char>> {
        match self {
            Audience::Api => seq!["received unknown status from DB: "@ + status],
            Audience::Home => seq![
                "incorrect status in DB"@,
                "received unknown status from DB: "@ + status,
            ],
        }
    }

    /// The message for an identifier that is none.
    pub open spec fn bad_uuid(self) -> Seq<char> {
        match self {
            Audience::Api => "could not deserialize UUID"@,
            Audience::Home => "Could not deserialize as a UUID"@,
        }
    }

    /// The message for an identifier that is none.
    fn bad_uuid_message(&self) -> (message: &'static str)
        ensures
            message@ == self.bad_uuid(),
    {
        match self {
            Audience::Api => "could not deserialize UUID",
            Audience::Home => "Could not deserialize as a UUID",
        }
    }
}

/// Making a list of recorded invocations, each with its progress.
pub enum CollectInvocations {
    /// Between two records. Those in `rest` are to come, the next one last.
    Between { audience: Audience, rest: Vec<InvocationRecord>, done: Vec<Invocation> },
    /// Finding out how far the invocation of `record` has come.
    Reading {
        audience: Audience,
        rest: Vec<InvocationRecord>,
        done: Vec<Invocation>,
        record: InvocationRecord,
        status: InvocationStatus,
        progress: ReadProgress,
    },
    Finished(Outcome<Vec<Invocation>>),
}

/// The list that the records make is still to be made, all of it.
pub open spec fn collecting_begins(
    rows: Seq<Row>,
    audience: Audience,
    flow: CollectInvocations,
) -> bool {
    &&& flow matches CollectInvocations::Between { audience: a, rest, done }
    &&& a == audience
    &&& rest@ == records_of(rows).reverse()
    &&& done@.len() == 0
}

/// Makes the list of the invocations that the rows name.
fn collect_invocations(rows: Vec<Row>, audience: Audience) -> (flow: CollectInvocations)
    requires
        rows_fit(rows@, (Query::LatestInvocations { count: 0 }).spec_columns()),
    ensures
        collecting_begins(rows@, audience, flow),
{
    CollectInvocations::Between {
        audience,
        rest: reversed(read_records(rows)),
        done: Vec::new(),
    }
}

/// `invocation` is what `record` says, with the status and the progress that were read for it.
pub open spec fn is_invocation_of(
    record: InvocationRecord,
    status: InvocationStatus,
    progress: Option<InvocationProgress>,
    invocation: Invocation,
) -> bool {
    &&& parsed_uuid(record.uuid@) == Some(invocation.uuid.bits)
    &&& invocation.commit_sha1 == record.commit_sha1
    &&& invocation.machine_hostname == record.machine_hostname
    &&& invocation.reason == record.reason
    &&& invocation.branch == record.branch
    &&& invocation.tag == record.tag
    &&& invocation.status == status
    &&& invocation.progress == progress
}

/// Puts together what is known of an invocation; there is none if its identifier is malformed.
fn assemble(
    record: InvocationRecord,
    status: InvocationStatus,
    progress: Option<InvocationProgress>,
) -> (invocation: Option<Invocation>)
    ensures
        match invocation {
            Some(i) => is_invocation_of(record, status, progress, i),
            None => parsed_uuid(record.uuid@) is None,
        },
{
    match Uuid::parse(record.uuid.as_str()) {
        Some(uuid) => Some(
            Invocation {
                uuid,
                commit_sha1: record.commit_sha1,
                machine_hostname: record.machine_hostname,
                reason: record.reason,
                branch: record.branch,
                tag: record.tag,
                status,
                progress,
            },
        ),
        None => None,
    }
}

impl Flow for CollectInvocations {
    type Output = Outcome<Vec<Invocation>>;

    open spec fn pending(&self) -> Option<Request> {
        match self {
            CollectInvocations::Between { .. } => Some(Request::Continue),
            CollectInvocations::Reading { progress, .. } => match progress.pending() {
                Some(request) => Some(request),
                None => Some(Request::Continue),
            },
            CollectInvocations::Finished(_) => None,
        }
    }

    open spec fn result(&self) -> Option<Outcome<Vec<Invocation>>> {
        match self {
            CollectInvocations::Finished(outcome) => Some(*outcome),
            _ => None,
        }
    }

    open spec fn leads_to(self, reply: Reply, next: Self) -> bool {
        match self {
            CollectInvocations::Between { audience, rest, done } => if rest@.len() == 0 {
                next == CollectInvocations::Finished(Outcome::Answer(done))
            } else {
                let record = rest@.last();
                match status_of(record.status@, optional_text(record.failure_reason)) {
                    None => {
                        &&& next matches CollectInvocations::Finished(Outcome::Refused(e))
                        &&& e.says(
                            audience.unknown_status(record.status@),
                            StatusCode::InternalServerError,
                        )
                    },
                    Some(s) => {
                        &&& next matches CollectInvocations::Reading {
                            audience: a,
                            rest: r,
                            done: d,
                            record: rec,
                            status,
                            progress,
                        }
                        &&& a == audience
                        &&& r@ == rest@.drop_last()
                        &&& d == done
                        &&& rec == record
                        &&& status@ == s
                        &&& progress == (if status is Running {
                            ReadProgress::CountingWorkloads {
                                uuid: record.uuid,
                                max_workloads: record.max_workloads,
                            }
                        } else {
                            ReadProgress::Finished(Ok(None))
                        })
                    },
                }
            },
            CollectInvocations::Reading { audience, rest, done, record, status, progress } => {
                match progress.result() {
                    None => {
                        &&& next matches CollectInvocations::Reading {
                            audience: a,
                            rest: r,
                            done: d,
                            record: rec,
                            status: s,
                            progress: p,
                        }
                        &&& a == audience && r == rest && d == done && rec == record && s == status
                        &&& progress.leads_to(reply, p)
                    },
                    Some(Err(error)) => next == CollectInvocations::Finished(
                        Outcome::Refused(
                            ResponseError { error, code: StatusCode::InternalServerError },
                        ),
                    ),
                    Some(Ok(found)) => if parsed_uuid(record.uuid@) is None {
                        &&& next matches CollectInvocations::Finished(Outcome::Abort(m))
                        &&& m@ == audience.bad_uuid()
                    } else {
                        &&& next matches CollectInvocations::Between {
                            audience: a,
                            rest: r,
                            done: d,
                        }
                        &&& a == audience && r == rest
                        &&& d@.len() == done@.len() + 1
                        &&& d@.drop_last() == done@
                        &&& is_invocation_of(record, status, found, d@.last())
                    },
                }
            },
            CollectInvocations::Finished(_) => next == self,
        }
    }

    open spec fn distance(&self) -> (nat, nat, nat) {
        match self {
            CollectInvocations::Between { rest, .. } => (1, rest@.len(), 5),
            CollectInvocations::Reading { rest, progress, .. } => (
                1,
                rest@.len() + 1,
                progress.distance().0,
            ),
            CollectInvocations::Finished(_) => (0, 0, 0),
        }
    }

    proof fn waits_or_ended(&self) {
    }

    proof fn gets_closer(self, reply: Reply, next: Self) {
        match (self, next) {
            (
                CollectInvocations::Reading { progress, .. },
                CollectInvocations::Reading { progress: p, .. },
            ) => {
                progress.waits_or_ended();
                if progress.result() is None {
                    progress.gets_closer(reply, p);
                }
            },
            _ => {},
        }
    }

    fn request(&self) -> (request: Option<Request>) {
        match self {
            CollectInvocations::Between { .. } => Some(Request::Continue),
            CollectInvocations::Reading { progress, .. } => match progress.request() {
                Some(request) => Some(request),
                None => Some(Request::Continue),
            },
            CollectInvocations::Finished(_) => None,
        }
    }

    fn resume(self, reply: Reply) -> (next: Self) {
        match self {
            CollectInvocations::Between { audience, rest, done } => {
                let mut rest = rest;
                let record = match rest.pop() {
                    Some(record) => record,
                    None => return CollectInvocations::Finished(Outcome::Answer(done)),
                };
                let read = InvocationStatus::from_db_status(
                    record.status.as_str(),
                    record.failure_reason.clone(),
                );
                match read {
                    Ok(status) => {
                        let progress = InvocationProgress::from_db(
                            &record.uuid,
                            &status,
                            record.max_workloads,
                        );
                        CollectInvocations::Reading {
                            audience,
                            rest,
                            done,
                            record,
                            status,
                            progress,
                        }
                    },
                    Err(error) => {
                        let error = match audience {
                            Audience::Api => error,
                            Audience::Home => error.context("incorrect status in DB"),
                        };
                        assert(error@ =~= audience.unknown_status(record.status@));
                        CollectInvocations::Finished(
                            Outcome::Refused(
                                ResponseError { error, code: StatusCode::InternalServerError },
                            ),
                        )
                    },
                }
            },
            CollectInvocations::Reading { audience, rest, done, record, status, progress } => {
                proof {
                    progress.waits_or_ended();
                }
                if progress.request().is_some() {
                    let progress = progress.resume(reply);
                    return CollectInvocations::Reading {
                        audience,
                        rest,
                        done,
                        record,
                        status,
                        progress,
                    };
                }
                match progress.finish() {
                    Err(error) => CollectInvocations::Finished(
                        Outcome::Refused(
                            ResponseError { error, code: StatusCode::InternalServerError },
                        ),
                    ),
                    Ok(found) => {
                        let mut done = done;
                        let ghost before = done@;
                        match assemble(record, status, found) {
                            Some(invocation) => {
                                done.push(invocation);
                                assert(done@.drop_last() =~= before);
                                CollectInvocations::Between { audience, rest, done }
                            },
                            None => CollectInvocations::Finished(
                                Outcome::Abort(audience.bad_uuid_message()),
                            ),
                        }
                    },
                }
            },
            CollectInvocations::Finished(outcome) => CollectInvocations::Finished(outcome),
        }
    }

    fn finish(self) -> (output: Outcome<Vec<Invocation>>) {
        match self {
            CollectInvocations::Finished(outcome) => outcome,
            _ => vstd::pervasive::unreached(),
        }
    }
}

/// `invocation` is what `record` says: its status is the recorded one, and it has a progress if
/// and only if it is running.
pub open spec fn shows(record: InvocationRecord, invocation: Invocation) -> bool {
    &&& is_invocation_of(record, invocation.status, invocation.progress, invocation)
    &&& status_of(record.status@, optional_text(record.failure_reason)) == Some(invocation.status@)
    &&& invocation.progress is Some <==> invocation.status is Running
}

/// The invocations that are done are what the first records say, and those to come are the other
/// records.
pub open spec fn has_collected(
    records: Seq<InvocationRecord>,
    done: Seq<Invocation>,
    rest: Seq<InvocationRecord>,
) -> bool {
    &&& done.len() <= records.len()
    &&& rest == records.skip(done.len() as int).reverse()
    &&& forall|i: int| 0 <= i < done.len() ==> shows(records[i], #[trigger] done[i])
}

/// What holds of the making of a list from its first to its last step.
pub open spec fn collects(records: Seq<InvocationRecord>, flow: CollectInvocations) -> bool {
    match flow {
        CollectInvocations::Between { rest, done, .. } => has_collected(records, done@, rest@),
        CollectInvocations::Reading { rest, done, record, status, progress, .. } => {
            &&& has_collected(records, done@, rest@.push(record))
            &&& status_of(record.status@, optional_text(record.failure_reason)) == Some(status@)
            &&& status is Running ==> progress != ReadProgress::Finished(Ok(None))
            &&& status !is Running ==> progress == ReadProgress::Finished(Ok(None))
        },
        CollectInvocations::Finished(Outcome::Answer(list)) => {
            &&& list@.len() == records.len()
            &&& forall|i: int| 0 <= i < list@.len() ==> shows(records[i], #[trigger] list@[i])
        },
        CollectInvocations::Finished(_) => true,
    }
}

/// A list that is answered has one invocation for every record, in the order of the records, and
/// each is what its record says.
pub proof fn list_is_complete(
    records: Seq<InvocationRecord>,
    flow: CollectInvocations,
    reply: Reply,
    next: CollectInvocations,
)
    requires
        collects(records, flow),
        flow.pending() matches Some(request) && request.accepts(reply),
        flow.leads_to(reply, next),
    ensures
        collects(records, next),
{
    match flow {
        CollectInvocations::Between { rest, done, .. } => {
            if rest@.len() > 0 {
                assert(rest@.drop_last().push(rest@.last()) =~= rest@);
            } else {
                assert(records.skip(done@.len() as int).len() == rest@.len());
            }
        },
        CollectInvocations::Reading { rest, done, record, status, progress, .. } => {
            let ahead = records.skip(done@.len() as int);
            assert(ahead.reverse() == rest@.push(record));
            assert(ahead.reverse().len() == rest@.len() + 1);
            assert(ahead.reverse().last() == ahead[0]);
            assert(record == records[done@.len() as int]);
            match next {
                CollectInvocations::Between { rest: r, done: d, .. } => {
                    assert(r@ =~= records.skip(d@.len() as int).reverse()) by {
                        assert(rest@ =~= ahead.reverse().drop_last());
                        assert(records.skip(d@.len() as int) =~= ahead.skip(1));
                    }
                    assert forall|i: int| 0 <= i < d@.len() implies shows(
                        records[i],
                        #[trigger] d@[i],
                    ) by {
                        if i < done@.len() {
                            assert(d@.drop_last()[i] == d@[i]);
                        }
                    }
                },
                _ => {},
            }
        },
        CollectInvocations::Finished(_) => {},
    }
}

/// At its beginning, the making of a list has all of its records to come.
pub proof fn list_begins(rows: Seq<Row>, audience: Audience, flow: CollectInvocations)
    requires
        collecting_begins(rows, audience, flow),
    ensures
        collects(records_of(rows), flow),
{
    assert(records_of(rows).skip(0) =~= records_of(rows));
}

/// Listing a part of the invocations.
pub enum ListInvocations {
    Listing { limit: u32, offset: u32 },
    Collecting(CollectInvocations),
    Counting { invocations: Vec<Invocation> },
    Finished(Outcome<PaginatedResults<Invocation>>),
}

/// How the listing of invocations begins.
pub open spec fn invocation_list_begins(pagination: Pagination, flow: ListInvocations) -> bool {
    flow == (ListInvocations::Listing {
        limit: pagination.spec_limit(),
        offset: pagination.spec_offset(),
    })
}

/// Lists a part of the invocations, with the number of all.
pub fn list_invocations(pagination: Pagination) -> (flow: ListInvocations)
    ensures
        invocation_list_begins(pagination, flow),
{
    ListInvocations::Listing { limit: pagination.limit(), offset: pagination.offset() }
}

impl Flow for ListInvocations {
    type Output = Outcome<PaginatedResults<Invocation>>;

    open spec fn pending(&self) -> Option<Request> {
        match self {
            ListInvocations::Listing { limit, offset } => Some(
                Request::FetchAll(Query::ListInvocations { limit: *limit, offset: *offset }),
            ),
            ListInvocations::Collecting(collect) => match collect.pending() {
                Some(request) => Some(request),
                None => Some(Request::Continue),
            },
            ListInvocations::Counting { .. } => Some(Request::FetchOne(Query::CountInvocations)),
            ListInvocations::Finished(_) => None,
        }
    }

    open spec fn result(&self) -> Option<Outcome<PaginatedResults<Invocation>>> {
        match self {
            ListInvocations::Finished(outcome) => Some(*outcome),
            _ => None,
        }
    }

    open spec fn leads_to(self, reply: Reply, next: Self) -> bool {
        match (self, reply) {
            (ListInvocations::Listing { .. }, Reply::Failed(error)) => {
                &&& next matches ListInvocations::Finished(Outcome::Refused(e))
                &&& e.says(seq!["listing invocations"@] + error@, StatusCode::InternalServerError)
            },
            (ListInvocations::Listing { .. }, Reply::All(rows)) => {
                &&& next matches ListInvocations::Collecting(collect)
                &&& collecting_begins(rows@, Audience::Api, collect)
            },
            (ListInvocations::Collecting(collect), _) => match collect.result() {
                None => next matches ListInvocations::Collecting(c) && collect.leads_to(reply, c),
                Some(Outcome::Answer(invocations)) => next == (ListInvocations::Counting {
                    invocations,
                }),
                Some(Outcome::Refused(refusal)) => next == ListInvocations::Finished(
                    Outcome::Refused(refusal),
                ),
                Some(Outcome::Abort(message)) => next == ListInvocations::Finished(
                    Outcome::Abort(message),
                ),
            },
            (ListInvocations::Counting { .. }, Reply::Failed(error)) => {
                &&& next matches ListInvocations::Finished(Outcome::Refused(e))
                &&& e.says(
                    seq!["fetching invocation count"@] + error@,
                    StatusCode::InternalServerError,
                )
            },
            (ListInvocations::Counting { invocations }, Reply::One(row)) => next
                == ListInvocations::Finished(
                Outcome::Answer(
                    PaginatedResults {
                        results: invocations,
                        total_count: row.spec_signed(0) as u64,
                    },
                ),
            ),
            _ => next == self,
        }
    }

    open spec fn distance(&self) -> (nat, nat, nat) {
        match self {
            ListInvocations::Listing { .. } => (4, 0, 0),
            ListInvocations::Collecting(collect) => (
                collect.distance().0 + 2,
                collect.distance().1,
                collect.distance().2,
            ),
            ListInvocations::Counting { .. } => (1, 0, 0),
            ListInvocations::Finished(_) => (0, 0, 0),
        }
    }

    proof fn waits_or_ended(&self) {
    }

    proof fn gets_closer(self, reply: Reply, next: Self) {
        match (self, next) {
            (ListInvocations::Collecting(collect), ListInvocations::Collecting(c)) => {
                collect.waits_or_ended();
                if collect.result() is None {
                    collect.gets_closer(reply, c);
                }
            },
            _ => {},
        }
    }

    fn request(&self) -> (request: Option<Request>) {
        match self {
            ListInvocations::Listing { limit, offset } => Some(
                Request::FetchAll(Query::ListInvocations { limit: *limit, offset: *offset }),
            ),
            ListInvocations::Collecting(collect) => match collect.request() {
                Some(request) => Some(request),
                None => Some(Request::Continue),
            },
            ListInvocations::Counting { .. } => Some(Request::FetchOne(Query::CountInvocations)),
            ListInvocations::Finished(_) => None,
        }
    }

    fn resume(self, reply: Reply) -> (next: Self) {
        match (self, reply) {
            (ListInvocations::Listing { .. }, Reply::Failed(error)) => ListInvocations::Finished(
                Outcome::Refused(ResponseError::internal(error, "listing invocations")),
            ),
            (ListInvocations::Listing { .. }, Reply::All(rows)) => ListInvocations::Collecting(
                collect_invocations(rows, Audience::Api),
            ),
            (ListInvocations::Collecting(collect), reply) => {
                proof {
                    collect.waits_or_ended();
                }
                if collect.request().is_some() {
                    return ListInvocations::Collecting(collect.resume(reply));
                }
                match collect.finish() {
                    Outcome::Answer(invocations) => ListInvocations::Counting { invocations },
                    Outcome::Refused(refusal) => ListInvocations::Finished(
                        Outcome::Refused(refusal),
                    ),
                    Outcome::Abort(message) => ListInvocations::Finished(Outcome::Abort(message)),
                }
            },
            (ListInvocations::Counting { .. }, Reply::Failed(error)) => ListInvocations::Finished(
                Outcome::Refused(ResponseError::internal(error, "fetching invocation count")),
            ),
            (ListInvocations::Counting { invocations }, Reply::One(row)) => {
                ListInvocations::Finished(
                    Outcome::Answer(
                        PaginatedResults {
                            results: invocations,
                            total_count: row.signed(0) as u64,
                        },
                    ),
                )
            },
            (flow, _) => flow,
        }
    }

    fn finish(self) -> (output: Outcome<PaginatedResults<Invocation>>) {
        match self {
            ListInvocations::Finished(outcome) => outcome,
            _ => vstd::pervasive::unreached(),
        }
    }
}

/// Finding out how far the latest invocations have come.
pub enum LatestProgress {
    Listing { count: u32 },
    Collecting(CollectInvocations),
    Finished(Outcome<Vec<Invocation>>),
}

/// How it begins to be found out how far the latest invocations have come.
pub open spec fn latest_progress_begins(count: u32, flow: LatestProgress) -> bool {
    flow == (LatestProgress::Listing { count })
}

/// Finds out how far the `count` latest invocations have come.
pub fn latest_invocation_progress(count: u32) -> (flow: LatestProgress)
    ensures
        latest_progress_begins(count, flow),
{
    LatestProgress::Listing { count }
}

impl Flow for LatestProgress {
    type Output = Outcome<Vec<Invocation>>;

    open spec fn pending(&self) -> Option<Request> {
        match self {
            LatestProgress::Listing { count } => Some(
                Request::FetchAll(Query::LatestInvocations { count: *count }),
            ),
            LatestProgress::Collecting(collect) => match collect.pending() {
                Some(request) => Some(request),
                None => Some(Request::Continue),
            },
            LatestProgress::Finished(_) => None,
        }
    }

    open spec fn result(&self) -> Option<Outcome<Vec<Invocation>>> {
        match self {
            LatestProgress::Finished(outcome) => Some(*outcome),
            _ => None,
        }
    }

    open spec fn leads_to(self, reply: Reply, next: Self) -> bool {
        match (self, reply) {
            (LatestProgress::Listing { .. }, Reply::Failed(error)) => {
                &&& next matches LatestProgress::Finished(Outcome::Refused(e))
                &&& e.says(
                    seq!["fetching invocation progress"@] + error@,
                    StatusCode::InternalServerError,
                )
            },
            (LatestProgress::Listing { .. }, Reply::All(rows)) => {
                &&& next matches LatestProgress::Collecting(collect)
                &&& collecting_begins(rows@, Audience::Home, collect)
            },
            (LatestProgress::Collecting(collect), _) => match collect.result() {
                None => next matches LatestProgress::Collecting(c) && collect.leads_to(reply, c),
                Some(outcome) => next == LatestProgress::Finished(outcome),
            },
            _ => next == self,
        }
    }

    open spec fn distance(&self) -> (nat, nat, nat) {
        match self {
            LatestProgress::Listing { .. } => (3, 0, 0),
            LatestProgress::Collecting(collect) => (
                collect.distance().0 + 1,
                collect.distance().1,
                collect.distance().2,
            ),
            LatestProgress::Finished(_) => (0, 0, 0),
        }
    }

    proof fn waits_or_ended(&self) {
    }

    proof fn gets_closer(self, reply: Reply, next: Self) {
        match (self, next) {
            (LatestProgress::Collecting(collect), LatestProgress::Collecting(c)) => {
                collect.waits_or_ended();
                if collect.result() is None {
                    collect.gets_closer(reply, c);
                }
            },
            _ => {},
        }
    }

    fn request(&self) -> (request: Option<Request>) {
        match self {
            LatestProgress::Listing { count } => Some(
                Request::FetchAll(Query::LatestInvocations { count: *count }),
            ),
            LatestProgress::Collecting(collect) => match collect.request() {
                Some(request) => Some(request),
                None => Some(Request::Continue),
            },
            LatestProgress::Finished(_) => None,
        }
    }

    fn resume(self, reply: Reply) -> (next: Self) {
        match (self, reply) {
            (LatestProgress::Listing { .. }, Reply::Failed(error)) => LatestProgress::Finished(
                Outcome::Refused(ResponseError::internal(error, "fetching invocation progress")),
            ),
            (LatestProgress::Listing { .. }, Reply::All(rows)) => LatestProgress::Collecting(
                collect_invocations(rows, Audience::Home),
            ),
            (LatestProgress::Collecting(collect), reply) => {
                proof {
                    collect.waits_or_ended();
                }
                if collect.request().is_some() {
                    LatestProgress::Collecting(collect.resume(reply))
                } else {
                    LatestProgress::Finished(collect.finish())
                }
            },
            (flow, _) => flow,
        }
    }

    fn finish(self) -> (output: Outcome<Vec<Invocation>>) {
        match self {
            LatestProgress::Finished(outcome) => outcome,
            _ => vstd::pervasive::unreached(),
        }
    }
}

/// Looking up an invocation.
pub enum GetInvocation {
    Looking { id: Uuid, uuid: String },
    /// It was found, and how far it has come is to be found out.
    Reading { invocation: Invocation, progress: ReadProgress },
    Finished(Outcome<Invocation>),
}

/// How the search for an invocation begins.
pub open spec fn invocation_search_begins(invocation_uuid: Uuid, flow: GetInvocation) -> bool {
    flow matches GetInvocation::Looking { id, uuid } && id == invocation_uuid && uuid@ == uuid_text(
        invocation_uuid.bits,
    )
}

/// Looks up an invocation by its identifier.
pub fn get_invocation(invocation_uuid: Uuid) -> (flow: GetInvocation)
    ensures
        invocation_search_begins(invocation_uuid, flow),
{
    GetInvocation::Looking { id: invocation_uuid, uuid: invocation_uuid.to_text() }
}

/// `invocation` is what the row says of the invocation `id`; how far it has come is left open.
pub open spec fn is_found(row: Row, id: Uuid, invocation: Invocation) -> bool {
    &&& invocation.uuid == id
    &&& invocation.commit_sha1 == row.spec_text(0)
    &&& invocation.machine_hostname == row.spec_text(1)
    &&& invocation.reason == row.spec_optional_text(2)
    &&& invocation.branch == row.spec_optional_text(3)
    &&& invocation.tag == row.spec_optional_text(4)
    &&& status_of(row.spec_text(5)@, optional_text(row.spec_optional_text(6))) == Some(
        invocation.status@,
    )
    &&& invocation.progress is None
}

/// The invocation with a progress.
pub open spec fn with_progress(
    invocation: Invocation,
    progress: Option<InvocationProgress>,
) -> Invocation {
    Invocation { progress, ..invocation }
}

impl Flow for GetInvocation {
    type Output = Outcome<Invocation>;

    open spec fn pending(&self) -> Option<Request> {
        match self {
            GetInvocation::Looking { uuid, .. } => Some(
                Request::FetchOptional(Query::FindInvocation { uuid: *uuid }),
            ),
            GetInvocation::Reading { progress, .. } => match progress.pending() {
                Some(request) => Some(request),
                None => Some(Request::Continue),
            },
            GetInvocation::Finished(_) => None,
        }
    }

    open spec fn result(&self) -> Option<Outcome<Invocation>> {
        match self {
            GetInvocation::Finished(outcome) => Some(*outcome),
            _ => None,
        }
    }

    open spec fn leads_to(self, reply: Reply, next: Self) -> bool {
        match (self, reply) {
            (GetInvocation::Looking { .. }, Reply::Failed(error)) => {
                &&& next matches GetInvocation::Finished(Outcome::Refused(e))
                &&& e.says(
                    seq!["while fetching invocation"@] + error@,
                    StatusCode::InternalServerError,
                )
            },
            (GetInvocation::Looking { uuid, .. }, Reply::Optional(None)) => {
                &&& next matches GetInvocation::Finished(Outcome::Refused(e))
                &&& e.says(
                    seq!["invocation '"@ + uuid@ + "' not found"@],
                    StatusCode::NotFound,
                )
            },
            (GetInvocation::Looking { id, uuid }, Reply::Optional(Some(row))) => {
                if status_of(
                    row.spec_text(5)@,
                    optional_text(row.spec_optional_text(6)),
                ) is None {
                    &&& next matches GetInvocation::Finished(Outcome::Refused(e))
                    &&& e.says(
                        seq!["received unknown status from DB: "@ + row.spec_text(5)@],
                        StatusCode::InternalServerError,
                    )
                } else {
                    &&& next matches GetInvocation::Reading { invocation, progress }
                    &&& is_found(row, id, invocation)
                    &&& progress == (if invocation.status is Running {
                        ReadProgress::CountingWorkloads {
                            uuid,
                            max_workloads: row.spec_unsigned(7),
                        }
                    } else {
                        ReadProgress::Finished(Ok(None))
                    })
                }
            },
            (GetInvocation::Reading { invocation, progress }, _) => match progress.result() {
                None => {
                    &&& next matches GetInvocation::Reading { invocation: i, progress: p }
                    &&& i == invocation
                    &&& progress.leads_to(reply, p)
                },
                Some(Err(error)) => next == GetInvocation::Finished(
                    Outcome::Refused(
                        ResponseError { error, code: StatusCode::InternalServerError },
                    ),
                ),
                Some(Ok(found)) => next == GetInvocation::Finished(
                    Outcome::Answer(with_progress(invocation, found)),
                ),
            },
            _ => next == self,
        }
    }

    open spec fn distance(&self) -> (nat, nat, nat) {
        match self {
            GetInvocation::Looking { .. } => (2, 0, 0),
            GetInvocation::Reading { progress, .. } => (1, progress.distance().0, 0),
            GetInvocation::Finished(_) => (0, 0, 0),
        }
    }

    proof fn waits_or_ended(&self) {
    }

    proof fn gets_closer(self, reply: Reply, next: Self) {
        match (self, next) {
            (
                GetInvocation::Reading { progress, .. },
                GetInvocation::Reading { progress: p, .. },
            ) => {
                progress.waits_or_ended();
                if progress.result() is None {
                    progress.gets_closer(reply, p);
                }
            },
            _ => {},
        }
    }

    fn request(&self) -> (request: Option<Request>) {
        match self {
            GetInvocation::Looking { uuid, .. } => Some(
                Request::FetchOptional(Query::FindInvocation { uuid: uuid.clone() }),
            ),
            GetInvocation::Reading { progress, .. } => match progress.request() {
                Some(request) => Some(request),
                None => Some(Request::Continue),
            },
            GetInvocation::Finished(_) => None,
        }
    }

    fn resume(self, reply: Reply) -> (next: Self) {
        match (self, reply) {
            (GetInvocation::Looking { .. }, Reply::Failed(error)) => GetInvocation::Finished(
                Outcome::Refused(ResponseError::internal(error, "while fetching invocation")),
            ),
            (GetInvocation::Looking { uuid, .. }, Reply::Optional(None)) => GetInvocation::Finished(
                Outcome::Refused(
                    ResponseError::new(
                        concat3("invocation '", uuid.as_str(), "' not found"),
                        StatusCode::NotFound,
                    ),
                ),
            ),
            (GetInvocation::Looking { id, uuid }, Reply::Optional(Some(row))) => {
                let text = row.text(5);
                let read = InvocationStatus::from_db_status(text.as_str(), row.optional_text(6));
                match read.with_code(StatusCode::InternalServerError) {
                    Ok(status) => {
                        let progress = InvocationProgress::from_db(&uuid, &status, row.unsigned(7));
                        let invocation = Invocation {
                            uuid: id,
                            commit_sha1: row.text(0),
                            machine_hostname: row.text(1),
                            reason: row.optional_text(2),
                            branch: row.optional_text(3),
                            tag: row.optional_text(4),
                            status,
                            progress: None,
                        };
                        GetInvocation::Reading { invocation, progress }
                    },
                    Err(refusal) => GetInvocation::Finished(Outcome::Refused(refusal)),
                }
            },
            (GetInvocation::Reading { invocation, progress }, reply) => {
                proof {
                    progress.waits_or_ended();
                }
                if progress.request().is_some() {
                    return GetInvocation::Reading { invocation, progress: progress.resume(reply) };
                }
                match progress.finish().with_code(StatusCode::InternalServerError) {
                    Ok(found) => {
                        let mut invocation = invocation;
                        invocation.progress = found;
                        GetInvocation::Finished(Outcome::Answer(invocation))
                    },
                    Err(refusal) => GetInvocation::Finished(Outcome::Refused(refusal)),
                }
            },
            (flow, _) => flow,
        }
    }

    fn finish(self) -> (output: Outcome<Invocation>) {
        match self {
            GetInvocation::Finished(outcome) => outcome,
            _ => vstd::pervasive::unreached(),
        }
    }
}

/// A recorded invocation has what stands in the columns of its row, in the order in which they
/// are selected: identifier, commit, machine, reason, tag, branch, status, reason of the failure and
/// number of workloads.
pub proof fn records_are_read_by_column(row: Row)
    requires
        row.fits((Query::ListInvocations { limit: 0, offset: 0 }).spec_columns()) || row.fits(
            (Query::LatestInvocations { count: 0 }).spec_columns(),
        ),
    ensures
        row.cells@ == seq![
            Value::Text(record_of(row).uuid),
            Value::Text(record_of(row).commit_sha1),
            Value::Text(record_of(row).machine_hostname),
            Value::OptionalText(record_of(row).reason),
            Value::OptionalText(record_of(row).tag),
            Value::OptionalText(record_of(row).branch),
            Value::Text(record_of(row).status),
            Value::OptionalText(record_of(row).failure_reason),
            Value::Unsigned(record_of(row).max_workloads),
        ],
{
    let columns = (Query::LatestInvocations { count: 0 }).spec_columns();
    assert(row.fits(columns));
    assert forall|i: int| 0 <= i < 9 implies (#[trigger] row.cells@[i]).kind() == columns[i] by {}
    assert(row.cells@ =~= seq![
        Value::Text(record_of(row).uuid),
        Value::Text(record_of(row).commit_sha1),
        Value::Text(record_of(row).machine_hostname),
        Value::OptionalText(record_of(row).reason),
        Value::OptionalText(record_of(row).tag),
        Value::OptionalText(record_of(row).branch),
        Value::Text(record_of(row).status),
        Value::OptionalText(record_of(row).failure_reason),
        Value::Unsigned(record_of(row).max_workloads),
    ]);
}

/// `status` is what the two columns of a status say.
pub open spec fn says_status(
    status: InvocationStatus,
    text: Seq<char>,
    failure_reason: Option<String>,
) -> bool {
    &&& status is Running <==> text == "running"@
    &&& status is Completed <==> text == "completed"@
    &&& status is Canceled <==> text == "canceled"@
    &&& status is Timeout <==> text == "timeout"@
    &&& status is Failed <==> text == "failed"@
    &&& status matches InvocationStatus::Failed(reason) ==> match failure_reason {
        Some(recorded) => reason@ == recorded@,
        None => reason@.len() == 0,
    }
}

/// The status that is read from two columns is what they say.
proof fn status_is_said(status: InvocationStatus, text: Seq<char>, failure_reason: Option<String>)
    requires
        status_of(text, optional_text(failure_reason)) == Some(status@),
    ensures
        says_status(status, text, failure_reason),
{
    crate::status::status_texts_differ();
}

/// A listed invocation has the commit, the machine, the reason, the branch, the tag and the status
/// of its record, each in its own place, and the identifier that its record spells.
pub proof fn listed_invocation_is_its_record(record: InvocationRecord, invocation: Invocation)
    requires
        shows(record, invocation),
    ensures
        parsed_uuid(record.uuid@) == Some(invocation.uuid.bits),
        invocation.commit_sha1 == record.commit_sha1,
        invocation.machine_hostname == record.machine_hostname,
        invocation.reason == record.reason,
        invocation.branch == record.branch,
        invocation.tag == record.tag,
        says_status(invocation.status, record.status@, record.failure_reason),
        invocation.progress is Some <==> record.status@ == "running"@,
{
    status_is_said(invocation.status, record.status@, record.failure_reason);
}

/// An invocation is listed as it was recorded: if a row holds what was recorded of a new
/// invocation, the one that is read from it has the commit, the branch, the tag, the machine and the
/// reason of the request, and is running.
pub proof fn recorded_invocation_is_listed_as_requested(
    invocation: crate::model::NewInvocation,
    id: Uuid,
    states: Seq<crate::invocations::RecordInvocation>,
    replies: Seq<Reply>,
    status: String,
    row: Row,
    listed: Invocation,
)
    requires
        is_talk(states, replies),
        crate::invocations::invocation_begins(invocation, id, states[0]),
        states.len() > 1,
        !(replies[0] is Failed),
        status@ == "running"@,
        row.fits((Query::ListInvocations { limit: 0, offset: 0 }).spec_columns()),
        states[1].pending() matches Some(
            Request::Execute(
                Query::InsertInvocation {
                    uuid,
                    commit_sha1,
                    branch,
                    tag,
                    max_workloads,
                    machine_hostname,
                    reason,
                },
            ),
        ) && row.cells@ == seq![
            Value::Text(uuid),
            Value::Text(commit_sha1),
            Value::Text(machine_hostname),
            Value::OptionalText(reason),
            Value::OptionalText(tag),
            Value::OptionalText(branch),
            Value::Text(status),
            Value::OptionalText(None),
            Value::Unsigned(max_workloads),
        ],
        shows(record_of(row), listed),
    ensures
        listed.commit_sha1 == invocation.commit.sha1,
        listed.branch == invocation.commit.branch,
        listed.tag == invocation.commit.tag,
        listed.machine_hostname == invocation.machine_hostname,
        listed.reason == invocation.reason,
        listed.status is Running,
        record_of(row).max_workloads == invocation.max_workloads,
{
    crate::invocations::invocation_is_recorded_as_requested(invocation, id, states, replies);
    records_are_read_by_column(row);
    listed_invocation_is_its_record(record_of(row), listed);
    let record = record_of(row);
    assert(row.cells@[1] == Value::Text(record.commit_sha1));
    assert(row.cells@[2] == Value::Text(record.machine_hostname));
    assert(row.cells@[3] == Value::OptionalText(record.reason));
    assert(row.cells@[4] == Value::OptionalText(record.tag));
    assert(row.cells@[5] == Value::OptionalText(record.branch));
    assert(row.cells@[6] == Value::Text(record.status));
    assert(row.cells@[8] == Value::Unsigned(record.max_workloads));
}

/// How far an invocation of a list has come is found out for that invocation: with its identifier
/// and its number of workloads, and what is found becomes its progress.
pub proof fn progress_is_read_for_each_record(
    flow: CollectInvocations,
    reply: Reply,
    next: CollectInvocations,
)
    requires
        flow.pending() matches Some(request) && request.accepts(reply),
        flow.leads_to(reply, next),
    ensures
        flow matches CollectInvocations::Between { rest, done, audience } ==> {
            &&& rest@.len() == 0 ==> next.result() == Some(Outcome::Answer(done))
            &&& rest@.len() > 0 ==> match next {
                CollectInvocations::Reading { rest: r, done: d, record, status, progress, .. } => {
                    &&& r@.push(record) == rest@
                    &&& d == done
                    &&& says_status(status, record.status@, record.failure_reason)
                    &&& progress_begins(record.uuid, status, record.max_workloads, progress)
                },
                CollectInvocations::Finished(Outcome::Refused(e)) => {
                    &&& audience is Api ==> e.says(
                        seq!["received unknown status from DB: "@ + rest@.last().status@],
                        StatusCode::InternalServerError,
                    )
                    &&& audience is Home ==> e.says(
                        seq![
                            "incorrect status in DB"@,
                            "received unknown status from DB: "@ + rest@.last().status@,
                        ],
                        StatusCode::InternalServerError,
                    )
                    &&& rest@.last().status@ != "running"@
                    &&& rest@.last().status@ != "completed"@
                    &&& rest@.last().status@ != "failed"@
                    &&& rest@.last().status@ != "canceled"@
                    &&& rest@.last().status@ != "timeout"@
                },
                _ => false,
            }
        },
        flow matches CollectInvocations::Reading {
            rest,
            done,
            record,
            status,
            progress,
            audience,
        } ==> {
            &&& progress.pending() is Some ==> {
                &&& flow.pending() == progress.pending()
                &&& next matches CollectInvocations::Reading {
                    rest: r,
                    done: d,
                    record: same,
                    status: s,
                    progress: p,
                    ..
                }
                &&& r == rest && d == done && same == record && s == status
                &&& progress.leads_to(reply, p)
            }
            &&& progress.result() matches Some(Err(error)) ==> {
                &&& next.result() matches Some(Outcome::Refused(e))
                &&& e.says(error@, StatusCode::InternalServerError)
            }
            &&& parsed_uuid(record.uuid@) is None ==> (progress.result() matches Some(Ok(_)) ==> {
                &&& next.result() matches Some(Outcome::Abort(m))
                &&& audience is Api ==> m@ == "could not deserialize UUID"@
                &&& audience is Home ==> m@ == "Could not deserialize as a UUID"@
            })
            &&& parsed_uuid(record.uuid@) is Some ==> (progress.result() matches Some(Ok(found)) ==> {
                &&& next matches CollectInvocations::Between { rest: r, done: d, .. }
                &&& r == rest
                &&& d@.len() == done@.len() + 1
                &&& forall|i: int| 0 <= i < done@.len() ==> d@[i] == #[trigger] done@[i]
                &&& d@.last().progress == found
                &&& d@.last().status == status
            })
        },
{
    crate::status::status_texts_differ();
    match (flow, next) {
        (
            CollectInvocations::Between { rest, .. },
            CollectInvocations::Reading { rest: r, record, status, .. },
        ) => {
            status_is_said(status, record.status@, record.failure_reason);
            assert(r@.push(record) =~= rest@);
        },
        (CollectInvocations::Reading { progress, done, .. }, _) => {
            progress.waits_or_ended();
            if let CollectInvocations::Between { done: d, .. } = next {
                assert forall|i: int| 0 <= i < done@.len() implies d@[i] == #[trigger] done@[i] by {
                    assert(d@.drop_last()[i] == d@[i]);
                }
            }
        },
        _ => {},
    }
}

/// What holds of the listing of invocations, once their rows are known.
spec fn lists(rows: Seq<Row>, flow: ListInvocations) -> bool {
    match flow {
        ListInvocations::Listing { .. } => false,
        ListInvocations::Collecting(collect) => collects(records_of(rows), collect),
        ListInvocations::Counting { invocations } => is_list_of(rows, invocations@),
        ListInvocations::Finished(Outcome::Answer(page)) => is_list_of(rows, page.results@),
        ListInvocations::Finished(_) => true,
    }
}

/// The list has one invocation for every row, in their order, each what its row says.
pub open spec fn is_list_of(rows: Seq<Row>, list: Seq<Invocation>) -> bool {
    &&& list.len() == rows.len()
    &&& forall|i: int| 0 <= i < list.len() ==> shows(record_of(rows[i]), #[trigger] list[i])
}

/// The listing keeps to its rows from one state to the next.
proof fn listing_keeps_to_its_rows(
    rows: Vec<Row>,
    states: Seq<ListInvocations>,
    replies: Seq<Reply>,
    i: int,
)
    requires
        is_talk(states, replies),
        states[0] is Listing,
        replies.len() > 0 && replies[0] == Reply::All(rows),
        1 <= i < states.len(),
    ensures
        lists(rows@, states[i]),
        i >= 2 && (states[i].result() matches Some(Outcome::Answer(_))) ==> {
            &&& states[i - 1].pending() == Some(Request::FetchOne(Query::CountInvocations))
            &&& replies[i - 1] matches Reply::One(row)
            &&& row.cells@[0] matches Value::Signed(n)
            &&& states[i].result() matches Some(Outcome::Answer(page))
            &&& page.total_count == n as u64
        },
    decreases i,
{
    assert(went_on(states, replies, i - 1));
    if i == 1 {
        if let ListInvocations::Collecting(collect) = states[1] {
            list_begins(rows@, Audience::Api, collect);
        }
    } else {
        listing_keeps_to_its_rows(rows, states, replies, i - 1);
        match (states[i - 1], states[i]) {
            (ListInvocations::Collecting(collect), ListInvocations::Collecting(c)) => {
                collect.waits_or_ended();
                if collect.result() is None {
                    list_is_complete(records_of(rows@), collect, replies[i - 1], c);
                }
            },
            (ListInvocations::Collecting(collect), ListInvocations::Counting { invocations }) => {
                assert forall|k: int| 0 <= k < invocations@.len() implies shows(
                    record_of(rows@[k]),
                    #[trigger] invocations@[k],
                ) by {
                    assert(records_of(rows@)[k] == record_of(rows@[k]));
                }
            },
            _ => {},
        }
    }
}

/// A list of invocations has as many as the request asks for, 20 if it does not say, after as many
/// as it says; it has one invocation for every row, in their order, beside the number of all.
pub proof fn invocation_list_is_the_part_asked_for(
    pagination: Pagination,
    states: Seq<ListInvocations>,
    replies: Seq<Reply>,
)
    requires
        is_talk(states, replies),
        invocation_list_begins(pagination, states[0]),
    ensures
        states[0].pending() matches Some(
            Request::FetchAll(Query::ListInvocations { limit, offset }),
        ) && {
            &&& limit == pagination.limit.unwrap_or(20)
            &&& offset == pagination.offset.unwrap_or(0)
        },
        states.last().result() matches Some(Outcome::Answer(page)) ==> {
            &&& replies[0] matches Reply::All(rows)
            &&& is_list_of(rows@, page.results@)
            &&& states[states.len() - 2].pending() == Some(
                Request::FetchOne(Query::CountInvocations),
            )
            &&& replies.last() matches Reply::One(row)
            &&& row.cells@[0] matches Value::Signed(n) && page.total_count == n as u64
        },
{
    if replies.len() > 0 {
        assert(went_on(states, replies, 0));
        if let Reply::All(rows) = replies[0] {
            listing_keeps_to_its_rows(rows, states, replies, states.len() - 1);
        } else if replies.len() > 1 {
            assert(went_on(states, replies, 1));
        }
    }
}

/// What holds of finding out how far the latest invocations have come, once their rows are known.
spec fn lists_latest(rows: Seq<Row>, flow: LatestProgress) -> bool {
    match flow {
        LatestProgress::Listing { .. } => false,
        LatestProgress::Collecting(collect) => collects(records_of(rows), collect),
        LatestProgress::Finished(Outcome::Answer(list)) => is_list_of(rows, list@),
        LatestProgress::Finished(_) => true,
    }
}

/// The listing of the latest invocations keeps to its rows from one state to the next.
proof fn latest_keep_to_their_rows(
    rows: Vec<Row>,
    states: Seq<LatestProgress>,
    replies: Seq<Reply>,
    i: int,
)
    requires
        is_talk(states, replies),
        states[0] is Listing,
        replies.len() > 0 && replies[0] == Reply::All(rows),
        1 <= i < states.len(),
    ensures
        lists_latest(rows@, states[i]),
    decreases i,
{
    assert(went_on(states, replies, i - 1));
    if i == 1 {
        if let LatestProgress::Collecting(collect) = states[1] {
            list_begins(rows@, Audience::Home, collect);
        }
    } else {
        latest_keep_to_their_rows(rows, states, replies, i - 1);
        match (states[i - 1], states[i]) {
            (LatestProgress::Collecting(collect), LatestProgress::Collecting(c)) => {
                collect.waits_or_ended();
                if collect.result() is None {
                    list_is_complete(records_of(rows@), collect, replies[i - 1], c);
                }
            },
            (
                LatestProgress::Collecting(collect),
                LatestProgress::Finished(Outcome::Answer(list)),
            ) => {
                assert forall|k: int| 0 <= k < list@.len() implies shows(
                    record_of(rows@[k]),
                    #[trigger] list@[k],
                ) by {
                    assert(records_of(rows@)[k] == record_of(rows@[k]));
                }
            },
            _ => {},
        }
    }
}

/// The progress of the latest invocations is listed for as many as asked for, one for every row
/// and in their order.
pub proof fn latest_progress_is_that_of_the_rows(
    count: u32,
    states: Seq<LatestProgress>,
    replies: Seq<Reply>,
)
    requires
        is_talk(states, replies),
        latest_progress_begins(count, states[0]),
    ensures
        states[0].pending() == Some(Request::FetchAll(Query::LatestInvocations { count })),
        states.last().result() matches Some(Outcome::Answer(list)) ==> {
            &&& replies[0] matches Reply::All(rows)
            &&& is_list_of(rows@, list@)
        },
{
    if replies.len() > 0 {
        assert(went_on(states, replies, 0));
        if let Reply::All(rows) = replies[0] {
            latest_keep_to_their_rows(rows, states, replies, states.len() - 1);
        } else if replies.len() > 1 {
            assert(went_on(states, replies, 1));
        }
    }
}

/// An invocation is looked up by the identifier that the request gives. The answer has that
/// identifier and what stands in the columns of the row; how far it has come is found out for it,
/// if it is running. An identifier that is not recorded is not found.
pub proof fn invocation_is_the_one_asked_for(
    invocation_uuid: Uuid,
    states: Seq<GetInvocation>,
    replies: Seq<Reply>,
)
    requires
        is_talk(states, replies),
        invocation_search_begins(invocation_uuid, states[0]),
    ensures
        states[0].pending() matches Some(
            Request::FetchOptional(Query::FindInvocation { uuid }),
        ) && uuid@ == uuid_text(invocation_uuid.bits),
        states.len() > 1 ==> match replies[0] {
            Reply::Failed(error) => states[1].result() matches Some(Outcome::Refused(e)) && e.says(
                seq!["while fetching invocation"@] + error@,
                StatusCode::InternalServerError,
            ),
            Reply::Optional(None) => states[1].result() matches Some(Outcome::Refused(e)) && e.says(
                seq!["invocation '"@ + uuid_text(invocation_uuid.bits) + "' not found"@],
                StatusCode::NotFound,
            ),
            Reply::Optional(Some(row)) => match states[1] {
                GetInvocation::Reading { invocation, progress } => {
                    &&& is_read_from(row, invocation_uuid, invocation)
                    &&& row.cells@[7] matches Value::Unsigned(max_workloads)
                    &&& progress matches ReadProgress::CountingWorkloads {
                        uuid,
                        max_workloads: m,
                    } ==> uuid@ == uuid_text(invocation_uuid.bits) && m == max_workloads
                    &&& invocation.status is Running ==> progress is CountingWorkloads
                    &&& !(invocation.status is Running) ==> progress.result() == Some(
                        Ok::<Option<InvocationProgress>, crate::error::Failure>(None),
                    )
                },
                GetInvocation::Finished(Outcome::Refused(e)) => {
                    &&& row.cells@[5] matches Value::Text(text) && e.says(
                        seq!["received unknown status from DB: "@ + text@],
                        StatusCode::InternalServerError,
                    ) && text@ != "running"@ && text@
                        != "completed"@ && text@ != "failed"@ && text@ != "canceled"@ && text@
                        != "timeout"@
                },
                _ => false,
            },
            _ => false,
        },
        states.last().result() matches Some(Outcome::Answer(invocation)) ==> {
            &&& replies[0] matches Reply::Optional(Some(row))
            &&& is_read_from(row, invocation_uuid, invocation)
            &&& states[states.len() - 2] matches GetInvocation::Reading { progress, .. }
            &&& progress.result() == Some(
                Ok::<Option<InvocationProgress>, crate::error::Failure>(invocation.progress),
            )
        },
{
    crate::status::status_texts_differ();
    if replies.len() > 0 {
        assert(went_on(states, replies, 0));
        if let Reply::Optional(Some(row)) = replies[0] {
            let columns = (Query::FindInvocation { uuid: arbitrary() }).spec_columns();
            assert(row.fits(columns));
            assert forall|i: int| 0 <= i < 8 implies (#[trigger] row.cells@[i]).kind()
                == columns[i] by {}
            assert(row.cells@[0].kind() == columns[0] && row.cells@[1].kind() == columns[1]);
            assert(row.cells@[2].kind() == columns[2] && row.cells@[3].kind() == columns[3]);
            assert(row.cells@[4].kind() == columns[4] && row.cells@[5].kind() == columns[5]);
            assert(row.cells@[6].kind() == columns[6] && row.cells@[7].kind() == columns[7]);
            if let GetInvocation::Reading { invocation, .. } = states[1] {
                status_is_said(invocation.status, row.spec_text(5)@, row.spec_optional_text(6));
                search_keeps_to_its_row(states, replies, states.len() - 1);
            }
        }
        if !(states[1] is Reading) && replies.len() > 1 {
            assert(went_on(states, replies, 1));
        }
    }
}

/// `invocation` has the identifier `id`, and what stands in the columns of the row in the order in
/// which they are selected: commit, machine, reason, branch, tag, status and reason of the failure.
pub open spec fn is_read_from(row: Row, id: Uuid, invocation: Invocation) -> bool {
    &&& invocation.uuid == id
    &&& row.cells@[0] == Value::Text(invocation.commit_sha1)
    &&& row.cells@[1] == Value::Text(invocation.machine_hostname)
    &&& row.cells@[2] == Value::OptionalText(invocation.reason)
    &&& row.cells@[3] == Value::OptionalText(invocation.branch)
    &&& row.cells@[4] == Value::OptionalText(invocation.tag)
    &&& row.cells@[5] matches Value::Text(text)
    &&& row.cells@[6] matches Value::OptionalText(failure_reason)
    &&& says_status(invocation.status, text@, failure_reason)
}

/// Once the invocation is found, only how far it has come is added to it.
proof fn search_keeps_to_its_row(states: Seq<GetInvocation>, replies: Seq<Reply>, i: int)
    requires
        is_talk(states, replies),
        states.len() > 1,
        states[1] is Reading,
        1 <= i < states.len(),
    ensures
        match states[i] {
            GetInvocation::Reading { invocation, .. } => invocation
                == states[1]->Reading_invocation,
            GetInvocation::Finished(Outcome::Answer(answer)) => {
                &&& answer == with_progress(states[1]->Reading_invocation, answer.progress)
                &&& states[i - 1] matches GetInvocation::Reading { progress, .. }
                &&& progress.result() == Some(
                    Ok::<Option<InvocationProgress>, crate::error::Failure>(answer.progress),
                )
            },
            GetInvocation::Finished(_) => true,
            _ => false,
        },
    decreases i,
{
    if i > 1 {
        search_keeps_to_its_row(states, replies, i - 1);
        assert(went_on(states, replies, i - 1));
    }
}

/// What the list of invocations comes to: the rows are read one by one as the service's own
/// answers say it, then all invocations are counted, and what was read is answered. What goes wrong
/// on the way is answered as such.
pub proof fn listing_ends_with_its_answer(
    flow: ListInvocations,
    reply: Reply,
    next: ListInvocations,
)
    requires
        flow.pending() matches Some(request) && request.accepts(reply),
        flow.leads_to(reply, next),
    ensures
        flow is Listing ==> (reply matches Reply::Failed(error) ==> {
            &&& next.result() matches Some(Outcome::Refused(e))
            &&& e.says(seq!["listing invocations"@] + error@, StatusCode::InternalServerError)
        }),
        flow is Listing && reply is All ==> (next matches ListInvocations::Collecting(
            CollectInvocations::Between { audience, .. },
        ) && audience is Api),
        flow matches ListInvocations::Collecting(collect) ==> match collect.result() {
            None => {
                &&& flow.pending() == collect.pending()
                &&& next matches ListInvocations::Collecting(c) && collect.leads_to(reply, c)
            },
            Some(Outcome::Answer(list)) => {
                &&& next matches ListInvocations::Counting { invocations }
                &&& invocations == list
            },
            Some(Outcome::Refused(refusal)) => next.result() matches Some(Outcome::Refused(e)) && e
                == refusal,
            Some(Outcome::Abort(message)) => next.result() matches Some(Outcome::Abort(m)) && m
                == message,
        },
        flow matches ListInvocations::Counting { invocations } ==> {
            &&& flow.pending() == Some(Request::FetchOne(Query::CountInvocations))
            &&& reply is One ==> (next.result() matches Some(Outcome::Answer(page)) && page.results
                == invocations)
            &&& reply matches Reply::Failed(error) ==> {
                &&& next.result() matches Some(Outcome::Refused(e))
                &&& e.says(
                    seq!["fetching invocation count"@] + error@,
                    StatusCode::InternalServerError,
                )
            }
        },
{
    if let ListInvocations::Collecting(collect) = flow {
        collect.waits_or_ended();
    }
}

/// How far the latest invocations have come is found out row by row, as the home page says it, and
/// ends as that does.
pub proof fn latest_progress_ends_with_its_answer(
    flow: LatestProgress,
    reply: Reply,
    next: LatestProgress,
)
    requires
        flow.pending() matches Some(request) && request.accepts(reply),
        flow.leads_to(reply, next),
    ensures
        flow is Listing ==> (reply matches Reply::Failed(error) ==> {
            &&& next.result() matches Some(Outcome::Refused(e))
            &&& e.says(
                seq!["fetching invocation progress"@] + error@,
                StatusCode::InternalServerError,
            )
        }),
        flow is Listing && reply is All ==> (next matches LatestProgress::Collecting(
            CollectInvocations::Between { audience, .. },
        ) && audience is Home),
        flow matches LatestProgress::Collecting(collect) ==> match collect.result() {
            None => {
                &&& flow.pending() == collect.pending()
                &&& next matches LatestProgress::Collecting(c) && collect.leads_to(reply, c)
            },
            Some(outcome) => next.result() == Some(outcome),
        },
{
    if let LatestProgress::Collecting(collect) = flow {
        collect.waits_or_ended();
    }
}

/// An invocation that was found is answered once it is known how far it has come; what goes wrong
/// on the way is a failure of the service.
pub proof fn found_invocation_is_answered(flow: GetInvocation, reply: Reply, next: GetInvocation)
    requires
        flow is Reading,
        flow.pending() matches Some(request) && request.accepts(reply),
        flow.leads_to(reply, next),
    ensures
        flow matches GetInvocation::Reading { invocation, progress } && match progress.result() {
            None => {
                &&& flow.pending() == progress.pending()
                &&& next matches GetInvocation::Reading { invocation: same, progress: p }
                &&& same == invocation
                &&& progress.leads_to(reply, p)
            },
            Some(Ok(found)) => {
                &&& next.result() matches Some(Outcome::Answer(answer))
                &&& answer.uuid == invocation.uuid && answer.status == invocation.status
                &&& answer.progress == found
            },
            Some(Err(error)) => {
                &&& next.result() matches Some(Outcome::Refused(e))
                &&& e.says(error@, StatusCode::InternalServerError)
            },
        },
{
    if let GetInvocation::Reading { progress, .. } = flow {
        progress.waits_or_ended();
    }
}

} // verus!
