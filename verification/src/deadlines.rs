//! Invocations that run out of time, and those that were running when the service went down.

use crate::error::Failure;
use crate::flow::{is_talk, rows_fit, went_on, Flow, Reply, Request};
use crate::ids::{uuid_text, Uuid};
use crate::lists::reversed;
use crate::query::{Query, Row, Value};
use crate::running::shows_running;
use crate::status::{optional_text, status_of, InvocationStatus, StatusView};
use vstd::prelude::*;

verus! {

/// Looking at an invocation when its time is over.
pub enum OnDeadline {
    Checking { uuid: String },
    Marking { uuid: String },
    Finished(Result<(), Failure>),
}

/// How the look at an invocation begins.
pub open spec fn deadline_begins(uuid: Uuid, flow: OnDeadline) -> bool {
    flow matches OnDeadline::Checking { uuid: text } && text@ == uuid_text(uuid.bits)
}

/// Looks at an invocation when its time is over: if it is still running, it has timed out.
pub fn on_deadline(uuid: Uuid) -> (flow: OnDeadline)
    ensures
        deadline_begins(uuid, flow),
{
    OnDeadline::Checking { uuid: uuid.to_text() }
}

impl Flow for OnDeadline {
    type Output = Result<(), Failure>;

    open spec fn pending(&self) -> Option<Request> {
        match self {
            OnDeadline::Checking { uuid } => Some(
                Request::FetchOne(Query::DeadlineStatus { uuid: *uuid }),
            ),
            OnDeadline::Marking { uuid } => Some(
                Request::Execute(
                    Query::SetStatus { status: InvocationStatus::Timeout, uuid: *uuid },
                ),
            ),
            OnDeadline::Finished(_) => None,
        }
    }

    open spec fn result(&self) -> Option<Result<(), Failure>> {
        match self {
            OnDeadline::Finished(outcome) => Some(*outcome),
            _ => None,
        }
    }

    open spec fn leads_to(self, reply: Reply, next: Self) -> bool {
        match (self, reply) {
            (OnDeadline::Checking { uuid }, Reply::Failed(error)) => {
                &&& next matches OnDeadline::Finished(Err(e))
                &&& e@ == seq!["fetching invocation with uuid "@ + uuid@] + error@
            },
            (OnDeadline::Checking { uuid }, Reply::One(row)) => {
                match status_of(row.spec_text(0)@, optional_text(row.spec_optional_text(1))) {
                    Some(StatusView::Running) => next == (OnDeadline::Marking { uuid }),
                    Some(_) => next == OnDeadline::Finished(Ok(())),
                    None => {
                        &&& next matches OnDeadline::Finished(Err(e))
                        &&& e@ == seq![
                            "getting status for invocation with uuid "@ + uuid@,
                            "could not deserialize invocation"@,
                            "received unknown status from DB: "@ + row.spec_text(0)@,
                        ]
                    },
                }
            },
            (OnDeadline::Marking { .. }, Reply::Failed(error)) => {
                &&& next matches OnDeadline::Finished(Err(e))
                &&& e@ == seq!["update failed"@] + error@
            },
            (OnDeadline::Marking { .. }, Reply::Executed(_)) => next == OnDeadline::Finished(
                Ok(()),
            ),
            _ => next == self,
        }
    }

    open spec fn distance(&self) -> (nat, nat, nat) {
        match self {
            OnDeadline::Checking { .. } => (2, 0, 0),
            OnDeadline::Marking { .. } => (1, 0, 0),
            OnDeadline::Finished(_) => (0, 0, 0),
        }
    }

    proof fn waits_or_ended(&self) {
    }

    proof fn gets_closer(self, reply: Reply, next: Self) {
    }

    fn request(&self) -> (request: Option<Request>) {
        match self {
            OnDeadline::Checking { uuid } => Some(
                Request::FetchOne(Query::DeadlineStatus { uuid: uuid.clone() }),
            ),
            OnDeadline::Marking { uuid } => Some(
                Request::Execute(
                    Query::SetStatus { status: InvocationStatus::Timeout, uuid: uuid.clone() },
                ),
            ),
            OnDeadline::Finished(_) => None,
        }
    }

    fn resume(self, reply: Reply) -> (next: Self) {
        match (self, reply) {
            (OnDeadline::Checking { uuid }, Reply::Failed(error)) => {
                let context = "fetching invocation with uuid ".to_string().concat(uuid.as_str());
                OnDeadline::Finished(Err(error.context(context.as_str())))
            },
            (OnDeadline::Checking { uuid }, Reply::One(row)) => {
                let text = row.text(0);
                match InvocationStatus::from_db_status(text.as_str(), row.optional_text(1)) {
                    Ok(status) => {
                        if status.is_running() {
                            OnDeadline::Marking { uuid }
                        } else {
                            OnDeadline::Finished(Ok(()))
                        }
                    },
                    Err(error) => {
                        let context = "getting status for invocation with uuid ".to_string().concat(
                            uuid.as_str(),
                        );
                        let error = error.context2(
                            "could not deserialize invocation",
                            context.as_str(),
                        );
                        assert(error@ =~= seq![
                            context@,
                            "could not deserialize invocation"@,
                            "received unknown status from DB: "@ + text@,
                        ]);
                        OnDeadline::Finished(Err(error))
                    },
                }
            },
            (OnDeadline::Marking { .. }, Reply::Failed(error)) => OnDeadline::Finished(
                Err(error.context("update failed")),
            ),
            (OnDeadline::Marking { .. }, Reply::Executed(_)) => OnDeadline::Finished(Ok(())),
            (flow, _) => flow,
        }
    }

    fn finish(self) -> (output: Result<(), Failure>) {
        match self {
            OnDeadline::Finished(outcome) => outcome,
            _ => vstd::pervasive::unreached(),
        }
    }
}

/// The end of its time changes an invocation only while it is running: one that has completed,
/// failed or was canceled before keeps its status.
pub proof fn only_running_times_out(flow: OnDeadline, reply: Reply, next: OnDeadline)
    requires
        flow is Checking,
        flow.pending() matches Some(request) && request.accepts(reply),
        flow.leads_to(reply, next),
    ensures
        next is Marking <==> (reply matches Reply::One(row) && shows_running(
            Reply::Optional(Some(row)),
        )),
        next !is Marking ==> next.pending() is None,
{
    crate::status::status_texts_differ();
}

/// Marking as failed the invocations that were running when the service went down.
pub enum ReapZombies {
    Listing,
    /// The invocations that are still to be marked, the next one last, and the status they get.
    Marking { status: InvocationStatus, zombies: Vec<String> },
    Finished(Result<(), Failure>),
}

/// The status of an invocation that was running when the service went down.
pub open spec fn zombie_status() -> StatusView {
    StatusView::Failed("reaped zombie"@)
}

/// How the marking of invocations begins.
pub open spec fn reaping_starts(flow: ReapZombies) -> bool {
    flow == ReapZombies::Listing
}

/// Marks as failed every invocation that is recorded as running: when the service starts, none
/// of them is.
pub fn reap_zombie_invocations() -> (flow: ReapZombies)
    ensures
        reaping_starts(flow),
{
    ReapZombies::Listing
}

/// The identifiers that the rows name, in the same order.
pub open spec fn uuids_of(rows: Seq<Row>) -> Seq<String> {
    rows.map_values(|row: Row| row.spec_text(0))
}

/// Reads the identifiers from the rows of a result.
fn read_uuids(rows: Vec<Row>) -> (uuids: Vec<String>)
    requires
        rows_fit(rows@, Query::RunningInvocations.spec_columns()),
    ensures
        uuids@ == uuids_of(rows@),
{
    let mut uuids: Vec<String> = Vec::new();
    let mut i: usize = 0;
    while i < rows.len()
        invariant
            i <= rows.len(),
            rows_fit(rows@, Query::RunningInvocations.spec_columns()),
            uuids@ == uuids_of(rows@.take(i as int)),
        decreases rows.len() - i,
    {
        assert(rows@[i as int].fits(Query::RunningInvocations.spec_columns()));
        uuids.push(rows[i].text(0));
        i += 1;
        assert(uuids@ =~= uuids_of(rows@.take(i as int)));
    }
    assert(rows@.take(i as int) =~= rows@);
    uuids
}

impl Flow for ReapZombies {
    type Output = Result<(), Failure>;

    open spec fn pending(&self) -> Option<Request> {
        match self {
            ReapZombies::Listing => Some(Request::FetchAll(Query::RunningInvocations)),
            ReapZombies::Marking { status, zombies } => if zombies@.len() == 0 {
                Some(Request::Continue)
            } else {
                Some(
                    Request::Execute(
                        Query::SetFailure { status: *status, uuid: zombies@.last() },
                    ),
                )
            },
            ReapZombies::Finished(_) => None,
        }
    }

    open spec fn result(&self) -> Option<Result<(), Failure>> {
        match self {
            ReapZombies::Finished(outcome) => Some(*outcome),
            _ => None,
        }
    }

    open spec fn leads_to(self, reply: Reply, next: Self) -> bool {
        match (self, reply) {
            (ReapZombies::Listing, Reply::Failed(error)) => {
                &&& next matches ReapZombies::Finished(Err(e))
                &&& e@ == seq!["reaping zombie invocations"@, "fetching next row"@] + error@
            },
            (ReapZombies::Listing, Reply::All(rows)) => {
                &&& next matches ReapZombies::Marking { status, zombies }
                &&& status@ == zombie_status()
                &&& zombies@ == uuids_of(rows@).reverse()
            },
            (ReapZombies::Marking { .. }, Reply::Continued) => next == ReapZombies::Finished(
                Ok(()),
            ),
            (ReapZombies::Marking { zombies, .. }, Reply::Failed(error)) => {
                &&& next matches ReapZombies::Finished(Err(e))
                &&& e@ == seq![
                    "while reaping zombie invocation with uuid="@ + zombies@.last()@,
                ] + error@
            },
            (ReapZombies::Marking { status, zombies }, Reply::Executed(_)) => {
                &&& next matches ReapZombies::Marking { status: s, zombies: z }
                &&& s == status
                &&& z@ == zombies@.drop_last()
            },
            _ => next == self,
        }
    }

    open spec fn distance(&self) -> (nat, nat, nat) {
        match self {
            ReapZombies::Listing => (2, 0, 0),
            ReapZombies::Marking { zombies, .. } => (1, zombies@.len(), 0),
            ReapZombies::Finished(_) => (0, 0, 0),
        }
    }

    proof fn waits_or_ended(&self) {
    }

    proof fn gets_closer(self, reply: Reply, next: Self) {
    }

    fn request(&self) -> (request: Option<Request>) {
        match self {
            ReapZombies::Listing => Some(Request::FetchAll(Query::RunningInvocations)),
            ReapZombies::Marking { status, zombies } => if zombies.len() == 0 {
                Some(Request::Continue)
            } else {
                Some(
                    Request::Execute(
                        Query::SetFailure {
                            status: status.clone(),
                            uuid: zombies[zombies.len() - 1].clone(),
                        },
                    ),
                )
            },
            ReapZombies::Finished(_) => None,
        }
    }

    fn resume(self, reply: Reply) -> (next: Self) {
        match (self, reply) {
            (ReapZombies::Listing, Reply::Failed(error)) => ReapZombies::Finished(
                Err(error.context2("fetching next row", "reaping zombie invocations")),
            ),
            (ReapZombies::Listing, Reply::All(rows)) => ReapZombies::Marking {
                status: InvocationStatus::Failed("reaped zombie".to_string()),
                zombies: reversed(read_uuids(rows)),
            },
            (ReapZombies::Marking { .. }, Reply::Continued) => ReapZombies::Finished(Ok(())),
            (ReapZombies::Marking { zombies, .. }, Reply::Failed(error)) => {
                let context = "while reaping zombie invocation with uuid=".to_string().concat(
                    zombies[zombies.len() - 1].as_str(),
                );
                ReapZombies::Finished(Err(error.context(context.as_str())))
            },
            (ReapZombies::Marking { status, zombies }, Reply::Executed(_)) => {
                let mut zombies = zombies;
                let _ = zombies.pop();
                ReapZombies::Marking { status, zombies }
            },
            (flow, _) => flow,
        }
    }

    fn finish(self) -> (output: Result<(), Failure>) {
        match self {
            ReapZombies::Finished(outcome) => outcome,
            _ => vstd::pervasive::unreached(),
        }
    }
}

/// The states of marking the invocations of `rows`: `done` of them have been marked.
pub open spec fn has_reaped(flow: ReapZombies, rows: Seq<Row>, done: int) -> bool {
    &&& 0 <= done <= rows.len()
    &&& flow matches ReapZombies::Marking { status, zombies }
    &&& status@ == zombie_status()
    &&& zombies@ == uuids_of(rows).skip(done).reverse()
}

/// Every invocation that is recorded as running is marked as failed, each once and in the order
/// of the rows, unless marking one fails; the flow is done only when all are marked.
pub proof fn every_zombie_is_reaped(
    flow: ReapZombies,
    rows: Seq<Row>,
    done: int,
    reply: Reply,
    next: ReapZombies,
)
    requires
        has_reaped(flow, rows, done),
        flow.pending() matches Some(request) && request.accepts(reply),
        flow.leads_to(reply, next),
    ensures
        done < rows.len() ==> {
            &&& flow.pending() matches Some(Request::Execute(Query::SetFailure { status, uuid }))
            &&& status@ == zombie_status()
            &&& uuid == rows[done].spec_text(0)
        },
        done < rows.len() ==> (reply matches Reply::Failed(_) || has_reaped(next, rows, done + 1)),
        done == rows.len() ==> next == ReapZombies::Finished(Ok(())),
{
    let left = uuids_of(rows).skip(done);
    if done < rows.len() {
        assert(left.reverse().last() == left[0]);
        assert(left.reverse().drop_last() =~= uuids_of(rows).skip(done + 1).reverse());
    } else {
        assert(left.reverse() =~= Seq::empty());
    }
}

/// Once the running invocations are listed, none of them has been marked yet.
pub proof fn reaping_begins(flow: ReapZombies, rows: Vec<Row>, next: ReapZombies)
    requires
        flow is Listing,
        flow.leads_to(Reply::All(rows), next),
    ensures
        has_reaped(next, rows@, 0),
{
    assert(uuids_of(rows@).skip(0) =~= uuids_of(rows@));
}

/// When the time of an invocation is over, the status of that invocation is looked up. If it is
/// running, it and no other is marked as timed out; if it has ended, nothing is done.
pub proof fn deadline_ends_its_own_invocation(
    uuid: Uuid,
    states: Seq<OnDeadline>,
    replies: Seq<Reply>,
)
    requires
        is_talk(states, replies),
        deadline_begins(uuid, states[0]),
    ensures
        states[0].pending() matches Some(Request::FetchOne(Query::DeadlineStatus { uuid: text }))
            && text@ == uuid_text(uuid.bits),
        replies.len() <= 2,
        states.len() > 1 ==> match replies[0] {
            Reply::Failed(error) => states[1].result() matches Some(Err(e)) && e@ == seq![
                "fetching invocation with uuid "@ + uuid_text(uuid.bits),
            ] + error@,
            Reply::One(row) => {
                &&& row.cells@[0] matches Value::Text(text)
                &&& text@ == "running"@ ==> {
                    &&& states[1].pending() matches Some(
                        Request::Execute(Query::SetStatus { status, uuid: marked }),
                    )
                    &&& status is Timeout
                    &&& marked@ == uuid_text(uuid.bits)
                }
                &&& text@ == "failed"@ || text@ == "completed"@ || text@ == "canceled"@ || text@
                    == "timeout"@ ==> states[1].result() == Some(Ok::<(), Failure>(()))
                &&& text@ != "running"@ && text@ != "failed"@ && text@ != "completed"@ && text@
                    != "canceled"@ && text@ != "timeout"@ ==> {
                    &&& states[1].result() matches Some(Err(e))
                    &&& e@ == seq![
                        "getting status for invocation with uuid "@ + uuid_text(uuid.bits),
                        "could not deserialize invocation"@,
                        "received unknown status from DB: "@ + text@,
                    ]
                }
            },
            _ => false,
        },
        states.len() > 2 ==> match replies[1] {
            Reply::Failed(error) => states[2].result() matches Some(Err(e)) && e@ == seq![
                "update failed"@,
            ] + error@,
            _ => states[2].result() == Some(Ok::<(), Failure>(())),
        },
{
    crate::status::status_texts_differ();
    if replies.len() > 0 {
        assert(went_on(states, replies, 0));
    }
    if replies.len() > 1 {
        assert(went_on(states, replies, 1));
    }
    if replies.len() > 2 {
        assert(went_on(states, replies, 2));
    }
}

/// What the conversation is at when `i` invocations have been marked.
proof fn reaped_so_far(
    states: Seq<ReapZombies>,
    replies: Seq<Reply>,
    rows: Vec<Row>,
    i: int,
)
    requires
        is_talk(states, replies),
        reaping_starts(states[0]),
        states.len() > 1 + i,
        0 <= i <= rows@.len(),
        replies[0] == Reply::All(rows),
    ensures
        i > 0 ==> replies[i] is Executed || replies[i] is Failed,
        i == 0 || replies[i] is Executed ==> has_reaped(states[1 + i], rows@, i),
        i > 0 && replies[i] is Failed ==> states[1 + i] is Finished,
    decreases i,
{
    assert(went_on(states, replies, i));
    if i == 0 {
        reaping_begins(states[0], rows, states[1]);
    } else {
        assert(went_on(states, replies, i - 1));
        reaped_so_far(states, replies, rows, i - 1);
        every_zombie_is_reaped(states[i], rows@, i - 1, replies[i], states[i + 1]);
    }
}

/// When the service starts, the running invocations are listed, and each of them is marked as
/// failed, with a reason that says so, in the order of the list; then it is done.
pub proof fn running_invocations_become_failed(
    states: Seq<ReapZombies>,
    replies: Seq<Reply>,
    rows: Vec<Row>,
    i: int,
)
    requires
        is_talk(states, replies),
        reaping_starts(states[0]),
        states.len() > 1 + i,
        0 <= i <= rows@.len(),
        replies[0] == Reply::All(rows),
        i > 0 ==> !(replies[i] is Failed),
    ensures
        states[0].pending() == Some(Request::FetchAll(Query::RunningInvocations)),
        i < rows@.len() ==> {
            &&& states[1 + i].pending() matches Some(
                Request::Execute(Query::SetFailure { status, uuid }),
            )
            &&& status matches InvocationStatus::Failed(reason) && reason@ == "reaped zombie"@
            &&& rows@[i].cells@[0] == Value::Text(uuid)
        },
        i == rows@.len() ==> {
            &&& states[1 + i].pending() == Some(Request::Continue)
            &&& states.len() > 2 + i ==> states[2 + i].result() == Some(Ok::<(), Failure>(()))
        },
{
    assert(went_on(states, replies, 0));
    reaped_so_far(states, replies, rows, i);
    if i < rows@.len() {
        let left = uuids_of(rows@).skip(i);
        assert(left.reverse().last() == left[0]);
        assert(rows@[i].fits(Query::RunningInvocations.spec_columns()));
    } else {
        assert(uuids_of(rows@).skip(i).reverse() =~= Seq::empty());
        if states.len() > 2 + i {
            assert(went_on(states, replies, 1 + i));
        }
    }
}

/// Where the running invocations cannot be listed, or one of them cannot be marked, the marking
/// ends there, and what is said names the invocation.
pub proof fn failed_marking_names_its_invocation(
    states: Seq<ReapZombies>,
    replies: Seq<Reply>,
    rows: Vec<Row>,
    i: int,
)
    requires
        is_talk(states, replies),
        reaping_starts(states[0]),
        0 <= i < replies.len(),
        i > 0 ==> replies[0] == Reply::All(rows) && i <= rows@.len(),
        i > 1 ==> !(replies[i - 1] is Failed),
        replies[i] is Failed,
    ensures
        states[i + 1].result() matches Some(Err(e)) && {
            &&& i == 0 ==> e@ == seq![
                "reaping zombie invocations"@,
                "fetching next row"@,
            ] + replies[i]->Failed_0@
            &&& i > 0 ==> (rows@[i - 1].cells@[0] matches Value::Text(uuid) && e@ == seq![
                "while reaping zombie invocation with uuid="@ + uuid@,
            ] + replies[i]->Failed_0@)
        },
{
    assert(went_on(states, replies, 0));
    assert(went_on(states, replies, i));
    if i > 0 {
        assert(rows@[i - 1].fits(Query::RunningInvocations.spec_columns()));
        reaped_so_far(states, replies, rows, i - 1);
        let left = uuids_of(rows@).skip(i - 1);
        assert(left.reverse().last() == left[0]);
    }
}

} // verus!
