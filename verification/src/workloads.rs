//! Requests about workloads.

use crate::error::{Outcome, ResponseError, StatusCode};
use crate::flow::{is_talk, rows_fit, went_on, Flow, Reply, Request};
use crate::ids::{parsed_uuid, uuid_text, Uuid};
use crate::model::{NewWorkload, PaginatedResults, Pagination, Workload};
use crate::query::{Query, Row, Value};
use crate::running::{check_running, is_running_check, is_status_reply, shows_running};
use crate::status::InvocationStatus;
use vstd::prelude::*;

verus! {

/// Recording a workload of an invocation.
pub enum RecordWorkload {
    /// The invocation has to be running.
    Checking { workload: NewWorkload, invocation_uuid: String },
    /// The workload is recorded under a new identifier.
    Recording { id: Uuid, uuid: String, workload: NewWorkload, invocation_uuid: String },
    Finished(Outcome<Uuid>),
}

/// How the recording of a workload begins.
pub open spec fn workload_begins(workload: NewWorkload, flow: RecordWorkload) -> bool {
    flow matches RecordWorkload::Checking { workload: w, invocation_uuid } && {
        &&& w == workload
        &&& invocation_uuid@ == uuid_text(workload.invocation_uuid.bits)
    }
}

/// Records a workload of a running invocation.
pub fn new_workload(workload: NewWorkload) -> (flow: RecordWorkload)
    ensures
        workload_begins(workload, flow),
{
    let invocation_uuid = workload.invocation_uuid.to_text();
    RecordWorkload::Checking { workload, invocation_uuid }
}

/// Records a workload under the identifier `id`.
pub fn record_workload(workload: NewWorkload, invocation_uuid: String, id: Uuid) -> (flow:
    RecordWorkload)
    ensures
        flow matches RecordWorkload::Recording { id: i, uuid, workload: w, invocation_uuid: inv }
            && {
            &&& i == id
            &&& uuid@ == uuid_text(id.bits)
            &&& w == workload
            &&& inv == invocation_uuid
        },
{
    let uuid = id.to_text();
    RecordWorkload::Recording { id, uuid, workload, invocation_uuid }
}

impl Flow for RecordWorkload {
    type Output = Outcome<Uuid>;

    open spec fn pending(&self) -> Option<Request> {
        match self {
            RecordWorkload::Checking { invocation_uuid, .. } => Some(
                Request::FetchOptional(Query::InvocationStatus { uuid: *invocation_uuid }),
            ),
            RecordWorkload::Recording { uuid, workload, invocation_uuid, .. } => Some(
                Request::Execute(
                    Query::InsertWorkload {
                        uuid: *uuid,
                        name: workload.name,
                        max_runs: workload.max_runs,
                        invocation_uuid: *invocation_uuid,
                    },
                ),
            ),
            RecordWorkload::Finished(_) => None,
        }
    }

    open spec fn result(&self) -> Option<Outcome<Uuid>> {
        match self {
            RecordWorkload::Finished(outcome) => Some(*outcome),
            _ => None,
        }
    }

    open spec fn leads_to(self, reply: Reply, next: Self) -> bool {
        match (self, reply) {
            (RecordWorkload::Checking { workload, invocation_uuid }, _) => match next {
                RecordWorkload::Recording { id, uuid, workload: w, invocation_uuid: inv } => {
                    &&& is_running_check(invocation_uuid@, reply, Ok(()))
                    &&& id.version() == 7
                    &&& id.variant() == 2
                    &&& uuid@ == uuid_text(id.bits)
                    &&& w == workload
                    &&& inv == invocation_uuid
                },
                RecordWorkload::Finished(Outcome::Refused(refusal)) => is_running_check(
                    invocation_uuid@,
                    reply,
                    Err(refusal),
                ),
                _ => false,
            },
            (RecordWorkload::Recording { .. }, Reply::Failed(error)) => {
                &&& next matches RecordWorkload::Finished(Outcome::Refused(e))
                &&& e.says(
                    seq!["inserting workload invocation"@] + error@,
                    StatusCode::InternalServerError,
                )
            },
            (RecordWorkload::Recording { id, .. }, Reply::Executed(_)) => next
                == RecordWorkload::Finished(Outcome::Answer(id)),
            _ => next == self,
        }
    }

    open spec fn distance(&self) -> (nat, nat, nat) {
        match self {
            RecordWorkload::Checking { .. } => (2, 0, 0),
            RecordWorkload::Recording { .. } => (1, 0, 0),
            RecordWorkload::Finished(_) => (0, 0, 0),
        }
    }

    proof fn waits_or_ended(&self) {
    }

    proof fn gets_closer(self, reply: Reply, next: Self) {
    }

    fn request(&self) -> (request: Option<Request>) {
        match self {
            RecordWorkload::Checking { invocation_uuid, .. } => Some(
                InvocationStatus::query(invocation_uuid),
            ),
            RecordWorkload::Recording { uuid, workload, invocation_uuid, .. } => Some(
                Request::Execute(
                    Query::InsertWorkload {
                        uuid: uuid.clone(),
                        name: workload.name.clone(),
                        max_runs: workload.max_runs,
                        invocation_uuid: invocation_uuid.clone(),
                    },
                ),
            ),
            RecordWorkload::Finished(_) => None,
        }
    }

    fn resume(self, reply: Reply) -> (next: Self) {
        match (self, reply) {
            (RecordWorkload::Checking { workload, invocation_uuid }, reply) => {
                match check_running(invocation_uuid.as_str(), reply) {
                    Ok(()) => record_workload(workload, invocation_uuid, Uuid::now_v7()),
                    Err(refusal) => RecordWorkload::Finished(Outcome::Refused(refusal)),
                }
            },
            (RecordWorkload::Recording { .. }, Reply::Failed(error)) => RecordWorkload::Finished(
                Outcome::Refused(ResponseError::internal(error, "inserting workload invocation")),
            ),
            (RecordWorkload::Recording { id, .. }, Reply::Executed(_)) => RecordWorkload::Finished(
                Outcome::Answer(id),
            ),
            (flow, _) => flow,
        }
    }

    fn finish(self) -> (output: Outcome<Uuid>) {
        match self {
            RecordWorkload::Finished(outcome) => outcome,
            _ => vstd::pervasive::unreached(),
        }
    }
}

/// A workload is recorded only if its invocation is running: for any other the request is
/// refused, and nothing is written.
pub proof fn workload_needs_running_invocation(
    flow: RecordWorkload,
    reply: Reply,
    next: RecordWorkload,
)
    requires
        flow is Checking,
        is_status_reply(reply),
        flow.leads_to(reply, next),
    ensures
        next is Recording <==> shows_running(reply),
        !shows_running(reply) ==> next matches RecordWorkload::Finished(Outcome::Refused(_)),
{
    crate::status::status_texts_differ();
}

/// Listing a part of the workloads.
pub enum ListWorkloads {
    Listing { limit: u32, offset: u32 },
    Counting { workloads: Vec<Workload> },
    Finished(Outcome<PaginatedResults<Workload>>),
}

/// How the listing of workloads begins.
pub open spec fn workload_list_begins(pagination: Pagination, flow: ListWorkloads) -> bool {
    flow == (ListWorkloads::Listing {
        limit: pagination.spec_limit(),
        offset: pagination.spec_offset(),
    })
}

/// Lists a part of the workloads, with the number of all.
pub fn list_workloads(pagination: Pagination) -> (flow: ListWorkloads)
    ensures
        workload_list_begins(pagination, flow),
{
    ListWorkloads::Listing { limit: pagination.limit(), offset: pagination.offset() }
}

/// The workload that a row names, or what is wrong with the row: its first two columns have to
/// be identifiers.
pub open spec fn workload_of(row: Row) -> Result<Workload, Seq<char>> {
    match (parsed_uuid(row.spec_text(0)@), parsed_uuid(row.spec_text(1)@)) {
        (Some(uuid), Some(invocation_uuid)) => Ok(
            Workload {
                uuid: Uuid { bits: uuid },
                invocation_uuid: Uuid { bits: invocation_uuid },
                name: row.spec_text(2),
            },
        ),
        (None, _) => Err("could not deserialize UUID"@),
        (_, None) => Err("could not deserialize invocation UUID"@),
    }
}

/// The workloads that the rows name, or what is wrong with the first row that names none.
pub open spec fn workloads_of(rows: Seq<Row>) -> Result<Seq<Workload>, Seq<char>>
    decreases rows.len(),
{
    if rows.len() == 0 {
        Ok(Seq::empty())
    } else {
        match workloads_of(rows.drop_last()) {
            Err(message) => Err(message),
            Ok(workloads) => match workload_of(rows.last()) {
                Err(message) => Err(message),
                Ok(workload) => Ok(workloads.push(workload)),
            },
        }
    }
}

/// What is wrong with a row is wrong with every list that goes on from there.
proof fn bad_row_stays_bad(rows: Seq<Row>, n: int)
    requires
        0 <= n <= rows.len(),
        workloads_of(rows.take(n)) is Err,
    ensures
        workloads_of(rows) == workloads_of(rows.take(n)),
    decreases rows.len(),
{
    if n < rows.len() {
        assert(rows.drop_last().take(n) =~= rows.take(n));
        bad_row_stays_bad(rows.drop_last(), n);
    } else {
        assert(rows.take(n) =~= rows);
    }
}

/// Reads a workload from a row.
fn read_workload(row: &Row) -> (workload: Result<Workload, &'static str>)
    requires
        row.fits((Query::ListWorkloads { limit: 0, offset: 0 }).spec_columns()),
    ensures
        match workload {
            Ok(w) => workload_of(*row) == Ok::<Workload, Seq<char>>(w),
            Err(message) => workload_of(*row) == Err::<Workload, Seq<char>>(message@),
        },
{
    let uuid = match Uuid::parse(row.text(0).as_str()) {
        Some(uuid) => uuid,
        None => return Err("could not deserialize UUID"),
    };
    let invocation_uuid = match Uuid::parse(row.text(1).as_str()) {
        Some(uuid) => uuid,
        None => return Err("could not deserialize invocation UUID"),
    };
    Ok(Workload { uuid, invocation_uuid, name: row.text(2) })
}

/// Reads the workloads from the rows of a result.
fn read_workloads(rows: Vec<Row>) -> (workloads: Result<Vec<Workload>, &'static str>)
    requires
        rows_fit(rows@, (Query::ListWorkloads { limit: 0, offset: 0 }).spec_columns()),
    ensures
        match workloads {
            Ok(list) => workloads_of(rows@) == Ok::<Seq<Workload>, Seq<char>>(list@),
            Err(message) => workloads_of(rows@) == Err::<Seq<Workload>, Seq<char>>(message@),
        },
{
    let mut workloads: Vec<Workload> = Vec::new();
    let mut i: usize = 0;
    while i < rows.len()
        invariant
            i <= rows.len(),
            rows_fit(rows@, (Query::ListWorkloads { limit: 0, offset: 0 }).spec_columns()),
            workloads_of(rows@.take(i as int)) == Ok::<Seq<Workload>, Seq<char>>(workloads@),
        decreases rows.len() - i,
    {
        let ghost read = rows@.take(i + 1);
        assert(read.drop_last() =~= rows@.take(i as int));
        assert(rows@[i as int].fits(
            (Query::ListWorkloads { limit: 0, offset: 0 }).spec_columns(),
        ));
        match read_workload(&rows[i]) {
            Ok(workload) => workloads.push(workload),
            Err(message) => {
                proof {
                    bad_row_stays_bad(rows@, i + 1);
                }
                return Err(message);
            },
        }
        i += 1;
    }
    assert(rows@.take(i as int) =~= rows@);
    Ok(workloads)
}

impl Flow for ListWorkloads {
    type Output = Outcome<PaginatedResults<Workload>>;

    open spec fn pending(&self) -> Option<Request> {
        match self {
            ListWorkloads::Listing { limit, offset } => Some(
                Request::FetchAll(Query::ListWorkloads { limit: *limit, offset: *offset }),
            ),
            ListWorkloads::Counting { .. } => Some(Request::FetchOne(Query::CountWorkloads)),
            ListWorkloads::Finished(_) => None,
        }
    }

    open spec fn result(&self) -> Option<Outcome<PaginatedResults<Workload>>> {
        match self {
            ListWorkloads::Finished(outcome) => Some(*outcome),
            _ => None,
        }
    }

    open spec fn leads_to(self, reply: Reply, next: Self) -> bool {
        match (self, reply) {
            (ListWorkloads::Listing { .. }, Reply::Failed(error)) => {
                &&& next matches ListWorkloads::Finished(Outcome::Refused(e))
                &&& e.says(seq!["listing workloads"@] + error@, StatusCode::InternalServerError)
            },
            (ListWorkloads::Listing { .. }, Reply::All(rows)) => match workloads_of(rows@) {
                Ok(list) => next matches ListWorkloads::Counting { workloads } && workloads@
                    == list,
                Err(message) => next matches ListWorkloads::Finished(Outcome::Abort(m)) && m@
                    == message,
            },
            (ListWorkloads::Counting { .. }, Reply::Failed(error)) => {
                &&& next matches ListWorkloads::Finished(Outcome::Refused(e))
                &&& e.says(
                    seq!["fetching workload count"@] + error@,
                    StatusCode::InternalServerError,
                )
            },
            (ListWorkloads::Counting { workloads }, Reply::One(row)) => next
                == ListWorkloads::Finished(
                Outcome::Answer(
                    PaginatedResults { results: workloads, total_count: row.spec_signed(0) as u64 },
                ),
            ),
            _ => next == self,
        }
    }

    open spec fn distance(&self) -> (nat, nat, nat) {
        match self {
            ListWorkloads::Listing { .. } => (2, 0, 0),
            ListWorkloads::Counting { .. } => (1, 0, 0),
            ListWorkloads::Finished(_) => (0, 0, 0),
        }
    }

    proof fn waits_or_ended(&self) {
    }

    proof fn gets_closer(self, reply: Reply, next: Self) {
    }

    fn request(&self) -> (request: Option<Request>) {
        match self {
            ListWorkloads::Listing { limit, offset } => Some(
                Request::FetchAll(Query::ListWorkloads { limit: *limit, offset: *offset }),
            ),
            ListWorkloads::Counting { .. } => Some(Request::FetchOne(Query::CountWorkloads)),
            ListWorkloads::Finished(_) => None,
        }
    }

    fn resume(self, reply: Reply) -> (next: Self) {
        match (self, reply) {
            (ListWorkloads::Listing { .. }, Reply::Failed(error)) => ListWorkloads::Finished(
                Outcome::Refused(ResponseError::internal(error, "listing workloads")),
            ),
            (ListWorkloads::Listing { .. }, Reply::All(rows)) => match read_workloads(rows) {
                Ok(workloads) => ListWorkloads::Counting { workloads },
                Err(message) => ListWorkloads::Finished(Outcome::Abort(message)),
            },
            (ListWorkloads::Counting { .. }, Reply::Failed(error)) => ListWorkloads::Finished(
                Outcome::Refused(ResponseError::internal(error, "fetching workload count")),
            ),
            (ListWorkloads::Counting { workloads }, Reply::One(row)) => ListWorkloads::Finished(
                Outcome::Answer(
                    PaginatedResults { results: workloads, total_count: row.signed(0) as u64 },
                ),
            ),
            (flow, _) => flow,
        }
    }

    fn finish(self) -> (output: Outcome<PaginatedResults<Workload>>) {
        match self {
            ListWorkloads::Finished(outcome) => outcome,
            _ => vstd::pervasive::unreached(),
        }
    }
}

/// A workload is recorded for the invocation that the request names, which has to be running, with
/// the name and the number of runs of the request; the request is answered with the identifier
/// that it was recorded under.
pub proof fn workload_is_recorded_as_requested(
    workload: NewWorkload,
    states: Seq<RecordWorkload>,
    replies: Seq<Reply>,
)
    requires
        is_talk(states, replies),
        workload_begins(workload, states[0]),
    ensures
        states[0].pending() matches Some(
            Request::FetchOptional(Query::InvocationStatus { uuid }),
        ) && uuid@ == uuid_text(workload.invocation_uuid.bits),
        replies.len() <= 2,
        states.len() > 1 ==> match replies[0] {
            Reply::Failed(error) => states[1].result() matches Some(Outcome::Refused(e)) && e.says(
                seq!["fetching invocation status"@] + error@,
                StatusCode::InternalServerError,
            ),
            Reply::Optional(None) => states[1].result() matches Some(Outcome::Refused(e)) && e.says(
                seq![
                    "invocation '"@ + uuid_text(workload.invocation_uuid.bits) + "' not found"@,
                ],
                StatusCode::NotFound,
            ),
            Reply::Optional(Some(row)) => {
                &&& row.cells@[0] matches Value::Text(text)
                &&& text@ == "running"@ <==> states[1].pending() is Some
                &&& text@ == "failed"@ || text@ == "completed"@ || text@ == "canceled"@ || text@
                    == "timeout"@ ==> {
                    &&& states[1].result() matches Some(Outcome::Refused(e))
                    &&& e.says(
                        seq![
                            "invocation '"@ + uuid_text(workload.invocation_uuid.bits)
                                + "' is not running"@,
                        ],
                        StatusCode::BadRequest,
                    )
                }
            },
            _ => false,
        },
        states.len() > 1 && states[1].pending() is Some ==> {
            &&& states[1].pending() matches Some(
                Request::Execute(Query::InsertWorkload { uuid, name, max_runs, invocation_uuid }),
            )
            &&& name == workload.name
            &&& max_runs == workload.max_runs
            &&& invocation_uuid@ == uuid_text(workload.invocation_uuid.bits)
            &&& states.len() > 2 && replies[1] is Executed ==> {
                &&& states[2].result() matches Some(Outcome::Answer(id))
                &&& uuid@ == uuid_text(id.bits)
            }
        },
        states.len() > 2 ==> (replies[1] matches Reply::Failed(error) ==> {
            &&& states[2].result() matches Some(Outcome::Refused(e))
            &&& e.says(
                seq!["inserting workload invocation"@] + error@,
                StatusCode::InternalServerError,
            )
        }),
{
    crate::status::status_texts_differ();
    if replies.len() > 0 {
        assert(went_on(states, replies, 0));
    }
    if replies.len() > 1 {
        assert(went_on(states, replies, 1));
    }
    if replies.len() > 2 {
        assert(went_on(states, replies, 2));
    }
}

/// The first two columns of the row are identifiers.
pub open spec fn names_a_workload(row: Row) -> bool {
    &&& row.cells@[0] matches Value::Text(uuid) && parsed_uuid(uuid@) is Some
    &&& row.cells@[1] matches Value::Text(uuid) && parsed_uuid(uuid@) is Some
}

/// What is wrong with the first row that names no workload is wrong with the list, and nothing is
/// wrong with a list without such a row.
proof fn rows_are_read_up_to_a_bad_one(rows: Seq<Row>)
    requires
        forall|i: int|
            0 <= i < rows.len() ==> (#[trigger] rows[i]).fits(
                Query::ListWorkloads { limit: 0, offset: 0 }.spec_columns(),
            ),
    ensures
        (forall|i: int| 0 <= i < rows.len() ==> names_a_workload(#[trigger] rows[i]))
            ==> workloads_of(rows) is Ok,
        forall|k: int|
            0 <= k < rows.len() && !names_a_workload(#[trigger] rows[k]) && (forall|i: int|
                0 <= i < k ==> names_a_workload(#[trigger] rows[i])) ==> workloads_of(rows) == Err::<
                Seq<Workload>,
                Seq<char>,
            >(
                if parsed_uuid(rows[k].cells@[0]->Text_0@) is None {
                    "could not deserialize UUID"@
                } else {
                    "could not deserialize invocation UUID"@
                },
            ),
    decreases rows.len(),
{
    if rows.len() > 0 {
        let shorter = rows.drop_last();
        assert forall|i: int| 0 <= i < shorter.len() implies (#[trigger] shorter[i]).fits(
            Query::ListWorkloads { limit: 0, offset: 0 }.spec_columns(),
        ) by {
            assert(shorter[i] == rows[i]);
        }
        rows_are_read_up_to_a_bad_one(shorter);
        let last = rows[rows.len() - 1];
        assert(last.fits(Query::ListWorkloads { limit: 0, offset: 0 }.spec_columns()));
        assert(last.cells@[0].kind() == crate::query::Column::Text);
        assert(last.cells@[1].kind() == crate::query::Column::Text);
        if forall|i: int| 0 <= i < shorter.len() ==> names_a_workload(#[trigger] rows[i]) {
            assert forall|i: int| 0 <= i < shorter.len() implies names_a_workload(
                #[trigger] shorter[i],
            ) by {
                assert(shorter[i] == rows[i]);
            }
        }
        assert forall|k: int|
            0 <= k < rows.len() && !names_a_workload(#[trigger] rows[k]) && (forall|i: int|
                0 <= i < k ==> names_a_workload(#[trigger] rows[i])) implies workloads_of(rows)
            == Err::<Seq<Workload>, Seq<char>>(
            if parsed_uuid(rows[k].cells@[0]->Text_0@) is None {
                "could not deserialize UUID"@
            } else {
                "could not deserialize invocation UUID"@
            },
        ) by {
            if k < shorter.len() {
                assert(shorter[k] == rows[k]);
                assert forall|i: int| 0 <= i < k implies names_a_workload(#[trigger] shorter[i]) by {
                    assert(shorter[i] == rows[i]);
                }
            }
        }
    }
}

/// The workloads that are read from rows are as many, and each has the identifiers and the name in
/// the columns of its row.
proof fn workloads_are_read_in_order(rows: Seq<Row>, i: int)
    requires
        workloads_of(rows) is Ok,
        0 <= i < rows.len(),
    ensures
        workloads_of(rows)->Ok_0.len() == rows.len(),
        workload_of(rows[i]) == Ok::<Workload, Seq<char>>(workloads_of(rows)->Ok_0[i]),
    decreases rows.len(),
{
    let shorter = rows.drop_last();
    if i < shorter.len() {
        workloads_are_read_in_order(shorter, i);
    } else if shorter.len() > 0 {
        workloads_are_read_in_order(shorter, 0);
    }
}

/// A list of workloads has as many as the request asks for, 20 if it does not say, after as many as
/// it says; each has the identifiers and the name that stand in its row, in the order of the rows,
/// beside the number of all workloads.
pub proof fn workload_list_is_the_part_asked_for(
    pagination: Pagination,
    states: Seq<ListWorkloads>,
    replies: Seq<Reply>,
)
    requires
        is_talk(states, replies),
        workload_list_begins(pagination, states[0]),
    ensures
        states[0].pending() matches Some(Request::FetchAll(Query::ListWorkloads { limit, offset }))
            && {
            &&& limit == pagination.limit.unwrap_or(20)
            &&& offset == pagination.offset.unwrap_or(0)
        },
        replies.len() <= 2,
        replies.len() == 2 ==> states[1].pending() == Some(
            Request::FetchOne(Query::CountWorkloads),
        ),
        states.last().result() matches Some(Outcome::Answer(page)) ==> {
            &&& replies.len() == 2
            &&& replies[0] matches Reply::All(rows)
            &&& page.results@.len() == rows@.len()
            &&& forall|i: int|
                0 <= i < rows@.len() ==> {
                    &&& (#[trigger] rows@[i]).cells@[0] matches Value::Text(uuid) && parsed_uuid(
                        uuid@,
                    ) == Some(page.results@[i].uuid.bits)
                    &&& rows@[i].cells@[1] matches Value::Text(uuid) && parsed_uuid(uuid@) == Some(
                        page.results@[i].invocation_uuid.bits,
                    )
                    &&& rows@[i].cells@[2] == Value::Text(page.results@[i].name)
                }
            &&& replies[1] matches Reply::One(row)
            &&& row.cells@[0] matches Value::Signed(n) && page.total_count == n as u64
        },
        replies.len() > 0 ==> (replies.last() matches Reply::Failed(error) ==> {
            &&& states.last().result() matches Some(Outcome::Refused(e))
            &&& e.says(
                seq![
                    if replies.len() == 1 {
                        "listing workloads"@
                    } else {
                        "fetching workload count"@
                    },
                ] + error@,
                StatusCode::InternalServerError,
            )
        }),
{
    if replies.len() > 0 {
        assert(went_on(states, replies, 0));
        if let Reply::All(rows) = replies[0] {
            assert forall|i: int| 0 <= i < rows@.len() implies (#[trigger] rows@[i]).fits(
                Query::ListWorkloads { limit: 0, offset: 0 }.spec_columns(),
            ) by {}
            if let Ok(list) = workloads_of(rows@) {
                assert forall|i: int| 0 <= i < rows@.len() implies list.len() == rows@.len()
                    && workload_of(#[trigger] rows@[i]) == Ok::<Workload, Seq<char>>(list[i]) by {
                    workloads_are_read_in_order(rows@, i);
                }
                if rows@.len() > 0 {
                    workloads_are_read_in_order(rows@, 0);
                }
            }
        }
    }
    if replies.len() > 1 {
        assert(went_on(states, replies, 1));
    }
    if replies.len() > 2 {
        assert(went_on(states, replies, 2));
    }
}

/// The list is answered if every row names a workload. The first that does not ends the listing,
/// and what is said tells which of its identifiers is none.
pub proof fn workload_list_stops_at_a_bad_row(
    pagination: Pagination,
    states: Seq<ListWorkloads>,
    replies: Seq<Reply>,
)
    requires
        is_talk(states, replies),
        workload_list_begins(pagination, states[0]),
    ensures
        replies.len() == 2 && replies[1] is One ==> (states[2].result() matches Some(
            Outcome::Answer(_),
        )),
        replies.len() > 0 ==> (replies[0] matches Reply::All(rows) ==> {
            &&& (forall|i: int| 0 <= i < rows@.len() ==> names_a_workload(#[trigger] rows@[i]))
                ==> states[1].pending() is Some
            &&& forall|k: int|
                0 <= k < rows@.len() && !names_a_workload(#[trigger] rows@[k]) && (forall|i: int|
                    0 <= i < k ==> names_a_workload(#[trigger] rows@[i])) ==> {
                    &&& states[1].result() matches Some(Outcome::Abort(m))
                    &&& m@ == if parsed_uuid(rows@[k].cells@[0]->Text_0@) is None {
                        "could not deserialize UUID"@
                    } else {
                        "could not deserialize invocation UUID"@
                    }
                }
        }),
{
    if replies.len() > 0 {
        assert(went_on(states, replies, 0));
        if let Reply::All(rows) = replies[0] {
            assert forall|i: int| 0 <= i < rows@.len() implies (#[trigger] rows@[i]).fits(
                Query::ListWorkloads { limit: 0, offset: 0 }.spec_columns(),
            ) by {}
            rows_are_read_up_to_a_bad_one(rows@);
        }
    }
    if replies.len() > 1 {
        assert(went_on(states, replies, 1));
    }
}

} // verus!
