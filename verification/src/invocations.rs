//! Starting and stopping invocations.

use crate::dates::Duration;
use crate::error::{Outcome, ResponseError, StatusCode};
use crate::flow::{is_talk, went_on, Flow, Reply, Request};
use crate::ids::{uuid_text, Uuid};
use crate::model::{InvocationCancelRequest, NewInvocation};
use crate::query::{Query, Value};
use crate::running::{is_status_reply, shows_running};
use crate::status::{optional_text, status_of, InvocationStatus, StatusView};
use crate::text::concat3;
use vstd::prelude::*;

verus! {

/// Recording a new invocation.
pub enum RecordInvocation {
    /// The commit is recorded first, with its date as text.
    RecordingCommit { id: Uuid, uuid: String, date: String, invocation: NewInvocation },
    /// The invocation itself is recorded.
    Recording { id: Uuid, uuid: String, invocation: NewInvocation },
    /// The end of its time is scheduled.
    Scheduling { id: Uuid, timeout: Duration },
    Finished(Outcome<Uuid>),
}

/// How long an invocation may run: what the request says, or three hours.
pub open spec fn timeout_of(invocation: NewInvocation) -> Duration {
    match invocation.timeout {
        Some(timeout) => timeout,
        None => Duration { seconds: 10_800, nanoseconds: 0 },
    }
}

/// How the handling of a request for a new invocation begins: an invocation without workloads is
/// refused, and one whose commit has a date that cannot be written cannot be handled.
pub open spec fn invocation_begins(
    invocation: NewInvocation,
    id: Uuid,
    flow: RecordInvocation,
) -> bool {
    if invocation.max_workloads == 0 {
        flow matches RecordInvocation::Finished(Outcome::Refused(e)) && e.says(
            seq!["max_workloads must be positive"@],
            StatusCode::BadRequest,
        )
    } else if !invocation.commit.commit_date.is_writable() {
        flow matches RecordInvocation::Finished(Outcome::Abort(m)) && m@
            == "the date of the commit cannot be written"@
    } else {
        &&& flow matches RecordInvocation::RecordingCommit { id: i, uuid, date, invocation: inv }
        &&& i == id
        &&& inv == invocation
        &&& uuid@ == uuid_text(id.bits)
        &&& date@ == invocation.commit.commit_date.iso8601_text()
    }
}

/// Records a new invocation under the identifier `id`.
pub fn new_invocation_as(invocation: NewInvocation, id: Uuid) -> (flow: RecordInvocation)
    ensures
        invocation_begins(invocation, id, flow),
{
    if invocation.max_workloads == 0 {
        return RecordInvocation::Finished(
            Outcome::Refused(
                ResponseError::new(
                    "max_workloads must be positive".to_string(),
                    StatusCode::BadRequest,
                ),
            ),
        );
    }
    match invocation.commit.commit_date.to_iso8601() {
        Some(date) => RecordInvocation::RecordingCommit {
            id,
            uuid: id.to_text(),
            date,
            invocation,
        },
        None => RecordInvocation::Finished(
            Outcome::Abort("the date of the commit cannot be written"),
        ),
    }
}

/// Records a new invocation under a new identifier.
pub fn new_invocation(invocation: NewInvocation) -> (flow: RecordInvocation)
    ensures
        exists|id: Uuid|
            {
                &&& id.version() == 7
                &&& id.variant() == 2
                &&& #[trigger] invocation_begins(invocation, id, flow)
            },
{
    let id = Uuid::now_v7();
    new_invocation_as(invocation, id)
}

impl Flow for RecordInvocation {
    type Output = Outcome<Uuid>;

    open spec fn pending(&self) -> Option<Request> {
        match self {
            RecordInvocation::RecordingCommit { date, invocation, .. } => Some(
                Request::Execute(
                    Query::InsertCommit {
                        sha1: invocation.commit.sha1,
                        date: *date,
                        message: invocation.commit.message,
                    },
                ),
            ),
            RecordInvocation::Recording { uuid, invocation, .. } => Some(
                Request::Execute(
                    Query::InsertInvocation {
                        uuid: *uuid,
                        commit_sha1: invocation.commit.sha1,
                        branch: invocation.commit.branch,
                        tag: invocation.commit.tag,
                        max_workloads: invocation.max_workloads,
                        machine_hostname: invocation.machine_hostname,
                        reason: invocation.reason,
                    },
                ),
            ),
            RecordInvocation::Scheduling { id, timeout } => Some(
                Request::Schedule { uuid: *id, timeout: *timeout },
            ),
            RecordInvocation::Finished(_) => None,
        }
    }

    open spec fn result(&self) -> Option<Outcome<Uuid>> {
        match self {
            RecordInvocation::Finished(outcome) => Some(*outcome),
            _ => None,
        }
    }

    open spec fn leads_to(self, reply: Reply, next: Self) -> bool {
        match (self, reply) {
            (RecordInvocation::RecordingCommit { .. }, Reply::Failed(error)) => {
                &&& next matches RecordInvocation::Finished(Outcome::Refused(e))
                &&& e.says(
                    seq!["inserting new commit"@] + error@,
                    StatusCode::InternalServerError,
                )
            },
            (RecordInvocation::RecordingCommit { id, uuid, invocation, .. }, _) => next
                == (RecordInvocation::Recording { id, uuid, invocation }),
            (RecordInvocation::Recording { .. }, Reply::Failed(error)) => {
                &&& next matches RecordInvocation::Finished(Outcome::Refused(e))
                &&& e.says(
                    seq!["inserting new invocation"@] + error@,
                    StatusCode::InternalServerError,
                )
            },
            (RecordInvocation::Recording { id, invocation, .. }, _) => next
                == (RecordInvocation::Scheduling { id, timeout: timeout_of(invocation) }),
            (RecordInvocation::Scheduling { .. }, Reply::Failed(error)) => {
                &&& next matches RecordInvocation::Finished(Outcome::Refused(e))
                &&& e.says(
                    seq!["could not send timeout"@] + error@,
                    StatusCode::InternalServerError,
                )
            },
            (RecordInvocation::Scheduling { id, .. }, _) => next == RecordInvocation::Finished(
                Outcome::Answer(id),
            ),
            (RecordInvocation::Finished(_), _) => next == self,
        }
    }

    open spec fn distance(&self) -> (nat, nat, nat) {
        match self {
            RecordInvocation::RecordingCommit { .. } => (3, 0, 0),
            RecordInvocation::Recording { .. } => (2, 0, 0),
            RecordInvocation::Scheduling { .. } => (1, 0, 0),
            RecordInvocation::Finished(_) => (0, 0, 0),
        }
    }

    proof fn waits_or_ended(&self) {
    }

    proof fn gets_closer(self, reply: Reply, next: Self) {
    }

    fn request(&self) -> (request: Option<Request>) {
        match self {
            RecordInvocation::RecordingCommit { date, invocation, .. } => Some(
                Request::Execute(
                    Query::InsertCommit {
                        sha1: invocation.commit.sha1.clone(),
                        date: date.clone(),
                        message: invocation.commit.message.clone(),
                    },
                ),
            ),
            RecordInvocation::Recording { uuid, invocation, .. } => Some(
                Request::Execute(
                    Query::InsertInvocation {
                        uuid: uuid.clone(),
                        commit_sha1: invocation.commit.sha1.clone(),
                        branch: invocation.commit.branch.clone(),
                        tag: invocation.commit.tag.clone(),
                        max_workloads: invocation.max_workloads,
                        machine_hostname: invocation.machine_hostname.clone(),
                        reason: invocation.reason.clone(),
                    },
                ),
            ),
            RecordInvocation::Scheduling { id, timeout } => Some(
                Request::Schedule { uuid: *id, timeout: *timeout },
            ),
            RecordInvocation::Finished(_) => None,
        }
    }

    fn resume(self, reply: Reply) -> (next: Self) {
        match (self, reply) {
            (RecordInvocation::RecordingCommit { .. }, Reply::Failed(error)) => {
                RecordInvocation::Finished(
                    Outcome::Refused(ResponseError::internal(error, "inserting new commit")),
                )
            },
            (RecordInvocation::RecordingCommit { id, uuid, invocation, .. }, _) => {
                RecordInvocation::Recording { id, uuid, invocation }
            },
            (RecordInvocation::Recording { .. }, Reply::Failed(error)) => {
                RecordInvocation::Finished(
                    Outcome::Refused(ResponseError::internal(error, "inserting new invocation")),
                )
            },
            (RecordInvocation::Recording { id, invocation, .. }, _) => {
                let timeout = match invocation.timeout {
                    Some(timeout) => timeout,
                    None => Duration::default_timeout(),
                };
                RecordInvocation::Scheduling { id, timeout }
            },
            (RecordInvocation::Scheduling { .. }, Reply::Failed(error)) => {
                RecordInvocation::Finished(
                    Outcome::Refused(ResponseError::internal(error, "could not send timeout")),
                )
            },
            (RecordInvocation::Scheduling { id, .. }, _) => RecordInvocation::Finished(
                Outcome::Answer(id),
            ),
            (flow, _) => flow,
        }
    }

    fn finish(self) -> (output: Outcome<Uuid>) {
        match self {
            RecordInvocation::Finished(outcome) => outcome,
            _ => vstd::pervasive::unreached(),
        }
    }
}

/// A new invocation is recorded as running.
pub proof fn new_invocation_is_running(flow: RecordInvocation)
    requires
        flow is Recording,
    ensures
        flow.pending() matches Some(Request::Execute(query)) && {
            &&& query.sql_text() == crate::query::INSERT_INVOCATION@
            &&& query.binds()[4] == crate::query::ValueView::Text(StatusView::Running.db_text())
            &&& status_of(StatusView::Running.db_text(), None) == Some(StatusView::Running)
        },
{
}

/// Stopping an invocation.
pub enum CancelInvocation {
    /// Its status is looked up; `status` is the one that it will get.
    Checking { uuid: String, status: InvocationStatus },
    /// It gets its new status.
    Marking { uuid: String, status: InvocationStatus },
    Finished(Outcome<()>),
}

/// How the stopping of an invocation begins.
pub open spec fn cancel_begins(request: InvocationCancelRequest, flow: CancelInvocation) -> bool {
    flow matches CancelInvocation::Checking { uuid, status } && {
        &&& uuid@ == uuid_text(request.invocation_uuid.bits)
        &&& status == (match request.failure_reason {
            Some(reason) => InvocationStatus::Failed(reason),
            None => InvocationStatus::Canceled,
        })
    }
}

/// Stops an invocation. With a reason it has failed; without one it is canceled.
pub fn cancel_invocation(request: InvocationCancelRequest) -> (flow: CancelInvocation)
    ensures
        cancel_begins(request, flow),
{
    let status = match request.failure_reason {
        Some(reason) => InvocationStatus::Failed(reason),
        None => InvocationStatus::Canceled,
    };
    CancelInvocation::Checking { uuid: request.invocation_uuid.to_text(), status }
}

impl Flow for CancelInvocation {
    type Output = Outcome<()>;

    open spec fn pending(&self) -> Option<Request> {
        match self {
            CancelInvocation::Checking { uuid, .. } => Some(
                Request::FetchOptional(Query::InvocationStatus { uuid: *uuid }),
            ),
            CancelInvocation::Marking { uuid, status } => Some(
                Request::Execute(Query::SetFailure { status: *status, uuid: *uuid }),
            ),
            CancelInvocation::Finished(_) => None,
        }
    }

    open spec fn result(&self) -> Option<Outcome<()>> {
        match self {
            CancelInvocation::Finished(outcome) => Some(*outcome),
            _ => None,
        }
    }

    open spec fn leads_to(self, reply: Reply, next: Self) -> bool {
        match (self, reply) {
            (CancelInvocation::Checking { .. }, Reply::Failed(error)) => {
                &&& next matches CancelInvocation::Finished(Outcome::Refused(e))
                &&& e.says(
                    seq!["fetching invocation status"@] + error@,
                    StatusCode::InternalServerError,
                )
            },
            (CancelInvocation::Checking { uuid, .. }, Reply::Optional(None)) => {
                &&& next matches CancelInvocation::Finished(Outcome::Refused(e))
                &&& e.says(
                    seq!["Invocation with uuid "@ + uuid@ + " does not exist"@],
                    StatusCode::BadRequest,
                )
            },
            (CancelInvocation::Checking { uuid, status }, Reply::Optional(Some(row))) => {
                match status_of(row.spec_text(0)@, optional_text(row.spec_optional_text(1))) {
                    Some(StatusView::Running) => next == (CancelInvocation::Marking {
                        uuid,
                        status,
                    }),
                    Some(_) => next == CancelInvocation::Finished(Outcome::Answer(())),
                    None => {
                        &&& next matches CancelInvocation::Finished(Outcome::Refused(e))
                        &&& e.says(
                            seq![
                                "deserializing invocation status"@,
                                "received unknown status from DB: "@ + row.spec_text(0)@,
                            ],
                            StatusCode::InternalServerError,
                        )
                    },
                }
            },
            (CancelInvocation::Marking { uuid, .. }, Reply::Failed(error)) => {
                &&& next matches CancelInvocation::Finished(Outcome::Refused(e))
                &&& e.says(
                    seq![
                        "Marking invocations "@ + uuid@ + " as failed or canceled"@,
                    ] + error@,
                    StatusCode::InternalServerError,
                )
            },
            (CancelInvocation::Marking { uuid, .. }, Reply::Executed(rows)) => {
                if rows == 1 {
                    next == CancelInvocation::Finished(Outcome::Answer(()))
                } else {
                    &&& next matches CancelInvocation::Finished(Outcome::Refused(e))
                    &&& e.says(
                        seq!["Could not find invocation with uuid "@ + uuid@],
                        StatusCode::BadRequest,
                    )
                }
            },
            _ => next == self,
        }
    }

    open spec fn distance(&self) -> (nat, nat, nat) {
        match self {
            CancelInvocation::Checking { .. } => (2, 0, 0),
            CancelInvocation::Marking { .. } => (1, 0, 0),
            CancelInvocation::Finished(_) => (0, 0, 0),
        }
    }

    proof fn waits_or_ended(&self) {
    }

    proof fn gets_closer(self, reply: Reply, next: Self) {
    }

    fn request(&self) -> (request: Option<Request>) {
        match self {
            CancelInvocation::Checking { uuid, .. } => Some(InvocationStatus::query(uuid)),
            CancelInvocation::Marking { uuid, status } => Some(
                Request::Execute(
                    Query::SetFailure { status: status.clone(), uuid: uuid.clone() },
                ),
            ),
            CancelInvocation::Finished(_) => None,
        }
    }

    fn resume(self, reply: Reply) -> (next: Self) {
        match self {
            CancelInvocation::Checking { uuid, status } => {
                let stored = InvocationStatus::get(reply);
                match stored {
                    Err(error) => CancelInvocation::Finished(
                        Outcome::Refused(
                            ResponseError { error, code: StatusCode::InternalServerError },
                        ),
                    ),
                    Ok(None) => CancelInvocation::Finished(
                        Outcome::Refused(
                            ResponseError::new(
                                concat3(
                                    "Invocation with uuid ",
                                    uuid.as_str(),
                                    " does not exist",
                                ),
                                StatusCode::BadRequest,
                            ),
                        ),
                    ),
                    Ok(Some(current)) => {
                        if current.is_running() {
                            CancelInvocation::Marking { uuid, status }
                        } else {
                            CancelInvocation::Finished(Outcome::Answer(()))
                        }
                    },
                }
            },
            CancelInvocation::Marking { uuid, status } => {
                match reply {
                    Reply::Failed(error) => {
                        let context = concat3(
                            "Marking invocations ",
                            uuid.as_str(),
                            " as failed or canceled",
                        );
                        CancelInvocation::Finished(
                            Outcome::Refused(ResponseError::internal(error, context.as_str())),
                        )
                    },
                    Reply::Executed(rows) => {
                        if rows == 1 {
                            CancelInvocation::Finished(Outcome::Answer(()))
                        } else {
                            CancelInvocation::Finished(
                                Outcome::Refused(
                                    ResponseError::new(
                                        "Could not find invocation with uuid ".to_string().concat(
                                            uuid.as_str(),
                                        ),
                                        StatusCode::BadRequest,
                                    ),
                                ),
                            )
                        }
                    },
                    _ => CancelInvocation::Marking { uuid, status },
                }
            },
            CancelInvocation::Finished(outcome) => CancelInvocation::Finished(outcome),
        }
    }

    fn finish(self) -> (output: Outcome<()>) {
        match self {
            CancelInvocation::Finished(outcome) => outcome,
            _ => vstd::pervasive::unreached(),
        }
    }
}

/// Stopping an invocation changes it only while it is running: an invocation that has ended keeps
/// the status that it ended with.
pub proof fn only_running_is_canceled(flow: CancelInvocation, reply: Reply, next: CancelInvocation)
    requires
        flow is Checking,
        is_status_reply(reply),
        flow.leads_to(reply, next),
    ensures
        next is Marking <==> shows_running(reply),
        !shows_running(reply) ==> next.pending() is None,
{
    crate::status::status_texts_differ();
}

/// A stopped invocation is read back with the status that the request gave it: failed with its
/// reason, or canceled.
pub proof fn canceled_status_is_read_back(flow: CancelInvocation)
    requires
        flow is Marking,
    ensures
        flow matches CancelInvocation::Marking { uuid, status } && {
            &&& flow.pending() matches Some(Request::Execute(query))
            &&& query.binds() =~= seq![
                crate::query::ValueView::Text(status@.db_text()),
                crate::query::ValueView::OptionalText(status@.failure()),
                crate::query::ValueView::Text(uuid@),
            ]
            &&& status_of(status@.db_text(), status@.failure()) == Some(status@)
        },
{
    match flow {
        CancelInvocation::Marking { uuid, status } => {
            crate::status::status_round_trip(status@);
        },
        _ => {},
    }
}

/// What is recorded of a new invocation is what the request says. Its commit is recorded first,
/// with its hash, its date and its message; then the invocation, with the hash, the branch and the
/// tag of the commit, and the machine, the number of workloads and the reason of the request; then
/// its end is scheduled, after the time that the request gives or three hours. The request is
/// answered with the identifier that all of this was done under, and nothing is done for an
/// invocation without workloads.
pub proof fn invocation_is_recorded_as_requested(
    invocation: NewInvocation,
    id: Uuid,
    states: Seq<RecordInvocation>,
    replies: Seq<Reply>,
)
    requires
        is_talk(states, replies),
        invocation_begins(invocation, id, states[0]),
    ensures
        replies.len() <= 3,
        invocation.max_workloads == 0 ==> replies.len() == 0 && (states[0].result() matches Some(
            Outcome::Refused(e),
        ) && e.says(seq!["max_workloads must be positive"@], StatusCode::BadRequest)),
        invocation.max_workloads > 0 && !invocation.commit.commit_date.is_writable() ==> {
            &&& replies.len() == 0
            &&& states[0].result() matches Some(Outcome::Abort(m))
            &&& m@ == "the date of the commit cannot be written"@
        },
        invocation.max_workloads > 0 && invocation.commit.commit_date.is_writable() ==> {
            &&& states[0].pending() matches Some(
                Request::Execute(Query::InsertCommit { sha1, date, message }),
            )
            &&& sha1 == invocation.commit.sha1
            &&& date@ == invocation.commit.commit_date.iso8601_text()
            &&& message == invocation.commit.message
        },
        states.len() > 1 && !(replies[0] is Failed) ==> {
            &&& states[1].pending() matches Some(
                Request::Execute(
                    Query::InsertInvocation {
                        uuid,
                        commit_sha1,
                        branch,
                        tag,
                        max_workloads,
                        machine_hostname,
                        reason,
                    },
                ),
            )
            &&& uuid@ == uuid_text(id.bits)
            &&& commit_sha1 == invocation.commit.sha1
            &&& branch == invocation.commit.branch
            &&& tag == invocation.commit.tag
            &&& max_workloads == invocation.max_workloads
            &&& machine_hostname == invocation.machine_hostname
            &&& reason == invocation.reason
        },
        states.len() > 2 && !(replies[1] is Failed) ==> {
            &&& states[2].pending() matches Some(Request::Schedule { uuid, timeout })
            &&& uuid == id
            &&& timeout == invocation.timeout.unwrap_or(
                Duration { seconds: 10_800, nanoseconds: 0 },
            )
        },
        states.len() > 3 && !(replies[2] is Failed) ==> states[3].result() == Some(
            Outcome::Answer(id),
        ),
        replies.len() > 0 ==> match replies.last() {
            Reply::Failed(error) => {
                &&& states.last().result() matches Some(Outcome::Refused(e))
                &&& e.says(
                    seq![
                        if replies.len() == 1 {
                            "inserting new commit"@
                        } else if replies.len() == 2 {
                            "inserting new invocation"@
                        } else {
                            "could not send timeout"@
                        },
                    ] + error@,
                    StatusCode::InternalServerError,
                )
            },
            _ => true,
        },
{
    if replies.len() > 0 {
        assert(went_on(states, replies, 0));
    }
    if replies.len() > 1 {
        assert(went_on(states, replies, 1));
    }
    if replies.len() > 2 {
        assert(went_on(states, replies, 2));
    }
    if replies.len() > 3 {
        assert(went_on(states, replies, 3));
    }
}

/// The invocation that a request names is stopped, and no other. Its status is looked up; if it is
/// running it becomes failed with the reason of the request, or canceled if there is none; if it
/// has ended the request is answered without a change, and if it is not recorded it is refused.
pub proof fn named_invocation_is_stopped(
    request: InvocationCancelRequest,
    states: Seq<CancelInvocation>,
    replies: Seq<Reply>,
)
    requires
        is_talk(states, replies),
        cancel_begins(request, states[0]),
    ensures
        states[0].pending() matches Some(
            Request::FetchOptional(Query::InvocationStatus { uuid }),
        ) && uuid@ == uuid_text(request.invocation_uuid.bits),
        replies.len() <= 2,
        states.len() > 1 ==> match replies[0] {
            Reply::Failed(error) => states[1].result() matches Some(Outcome::Refused(e)) && e.says(
                seq!["fetching invocation status"@] + error@,
                StatusCode::InternalServerError,
            ),
            Reply::Optional(None) => states[1].result() matches Some(Outcome::Refused(e)) && e.says(
                seq![
                    "Invocation with uuid "@ + uuid_text(request.invocation_uuid.bits)
                        + " does not exist"@,
                ],
                StatusCode::BadRequest,
            ),
            Reply::Optional(Some(row)) => {
                &&& row.cells@[0] matches Value::Text(text)
                &&& text@ == "running"@ ==> {
                    &&& states[1].pending() matches Some(
                        Request::Execute(Query::SetFailure { status, uuid }),
                    )
                    &&& uuid@ == uuid_text(request.invocation_uuid.bits)
                    &&& match request.failure_reason {
                        Some(reason) => status == InvocationStatus::Failed(reason),
                        None => status == InvocationStatus::Canceled,
                    }
                }
                &&& text@ == "failed"@ || text@ == "completed"@ || text@ == "canceled"@ || text@
                    == "timeout"@ ==> states[1].result() == Some(Outcome::Answer(()))
                &&& text@ != "running"@ && text@ != "failed"@ && text@ != "completed"@ && text@
                    != "canceled"@ && text@ != "timeout"@ ==> {
                    &&& states[1].result() matches Some(Outcome::Refused(e))
                    &&& e.says(
                        seq![
                            "deserializing invocation status"@,
                            "received unknown status from DB: "@ + text@,
                        ],
                        StatusCode::InternalServerError,
                    )
                }
            },
            _ => false,
        },
        states.len() > 2 ==> match replies[1] {
            Reply::Failed(error) => states[2].result() matches Some(Outcome::Refused(e)) && e.says(
                seq![
                    "Marking invocations "@ + uuid_text(request.invocation_uuid.bits)
                        + " as failed or canceled"@,
                ] + error@,
                StatusCode::InternalServerError,
            ),
            Reply::Executed(changed) => if changed == 1 {
                states[2].result() == Some(Outcome::Answer(()))
            } else {
                states[2].result() matches Some(Outcome::Refused(e)) && e.says(
                    seq![
                        "Could not find invocation with uuid "@ + uuid_text(
                            request.invocation_uuid.bits,
                        ),
                    ],
                    StatusCode::BadRequest,
                )
            },
            _ => false,
        },
{
    crate::status::status_texts_differ();
    if replies.len() > 0 {
        assert(went_on(states, replies, 0));
    }
    if replies.len() > 1 {
        assert(went_on(states, replies, 1));
    }
    if replies.len() > 2 {
        assert(went_on(states, replies, 2));
    }
}

} // verus!
