//! Requests about machines.

use crate::error::{Outcome, ResponseError, StatusCode};
use crate::flow::{is_talk, rows_fit, went_on, Flow, Reply, Request};
use crate::model::{Machine, NewMachine, PaginatedResults, Pagination};
use crate::query::{Query, Row, Value};
use crate::text::concat3;
use vstd::prelude::*;

verus! {

/// Recording a machine.
pub enum RecordMachine {
    Recording { hostname: String },
    Finished(Outcome<()>),
}

/// How the recording of a machine begins.
pub open spec fn machine_begins(machine: NewMachine, flow: RecordMachine) -> bool {
    flow == (RecordMachine::Recording { hostname: machine.hostname })
}

/// Records a machine, unless it is known.
pub fn new_machine(machine: NewMachine) -> (flow: RecordMachine)
    ensures
        machine_begins(machine, flow),
{
    RecordMachine::Recording { hostname: machine.hostname }
}

impl Flow for RecordMachine {
    type Output = Outcome<()>;

    open spec fn pending(&self) -> Option<Request> {
        match self {
            RecordMachine::Recording { hostname } => Some(
                Request::Execute(Query::InsertMachine { hostname: *hostname }),
            ),
            RecordMachine::Finished(_) => None,
        }
    }

    open spec fn result(&self) -> Option<Outcome<()>> {
        match self {
            RecordMachine::Finished(outcome) => Some(*outcome),
            _ => None,
        }
    }

    open spec fn leads_to(self, reply: Reply, next: Self) -> bool {
        match reply {
            Reply::Failed(error) => next matches RecordMachine::Finished(Outcome::Refused(e))
                && e.says(
                seq!["creating a new machine"@] + error@,
                StatusCode::InternalServerError,
            ),
            _ => next == RecordMachine::Finished(Outcome::Answer(())),
        }
    }

    open spec fn distance(&self) -> (nat, nat, nat) {
        match self {
            RecordMachine::Recording { .. } => (1, 0, 0),
            RecordMachine::Finished(_) => (0, 0, 0),
        }
    }

    proof fn waits_or_ended(&self) {
    }

    proof fn gets_closer(self, reply: Reply, next: Self) {
    }

    fn request(&self) -> (request: Option<Request>) {
        match self {
            RecordMachine::Recording { hostname } => Some(
                Request::Execute(Query::InsertMachine { hostname: hostname.clone() }),
            ),
            RecordMachine::Finished(_) => None,
        }
    }

    fn resume(self, reply: Reply) -> (next: Self) {
        match reply {
            Reply::Failed(error) => RecordMachine::Finished(
                Outcome::Refused(ResponseError::internal(error, "creating a new machine")),
            ),
            _ => RecordMachine::Finished(Outcome::Answer(())),
        }
    }

    fn finish(self) -> (output: Outcome<()>) {
        match self {
            RecordMachine::Finished(outcome) => outcome,
            _ => vstd::pervasive::unreached(),
        }
    }
}

/// Listing a part of the machines.
pub enum ListMachines {
    Listing { limit: u32, offset: u32 },
    Counting { machines: Vec<Machine> },
    Finished(Outcome<PaginatedResults<Machine>>),
}

/// How the listing of machines begins.
pub open spec fn machine_list_begins(pagination: Pagination, flow: ListMachines) -> bool {
    flow == (ListMachines::Listing {
        limit: pagination.spec_limit(),
        offset: pagination.spec_offset(),
    })
}

/// Lists a part of the machines, with the number of all.
pub fn list_machines(pagination: Pagination) -> (flow: ListMachines)
    ensures
        machine_list_begins(pagination, flow),
{
    ListMachines::Listing { limit: pagination.limit(), offset: pagination.offset() }
}

/// The machines of a list are those that the rows name, in the same order.
pub open spec fn machines_of(rows: Seq<Row>, machines: Seq<Machine>) -> bool {
    machines =~= rows.map_values(|row: Row| Machine { hostname: row.spec_text(0) })
}

/// Reads the machines from the rows of a result.
fn read_machines(rows: Vec<Row>) -> (machines: Vec<Machine>)
    requires
        rows_fit(rows@, (Query::ListMachines { limit: 0, offset: 0 }).spec_columns()),
    ensures
        machines_of(rows@, machines@),
{
    let mut machines: Vec<Machine> = Vec::new();
    let mut i: usize = 0;
    while i < rows.len()
        invariant
            i <= rows.len(),
            rows_fit(rows@, (Query::ListMachines { limit: 0, offset: 0 }).spec_columns()),
            machines_of(rows@.take(i as int), machines@),
        decreases rows.len() - i,
    {
        assert(rows@[i as int].fits(
            (Query::ListMachines { limit: 0, offset: 0 }).spec_columns(),
        ));
        machines.push(Machine { hostname: rows[i].text(0) });
        i += 1;
    }
    assert(rows@.take(i as int) =~= rows@);
    machines
}

impl Flow for ListMachines {
    type Output = Outcome<PaginatedResults<Machine>>;

    open spec fn pending(&self) -> Option<Request> {
        match self {
            ListMachines::Listing { limit, offset } => Some(
                Request::FetchAll(Query::ListMachines { limit: *limit, offset: *offset }),
            ),
            ListMachines::Counting { .. } => Some(Request::FetchOne(Query::CountMachines)),
            ListMachines::Finished(_) => None,
        }
    }

    open spec fn result(&self) -> Option<Outcome<PaginatedResults<Machine>>> {
        match self {
            ListMachines::Finished(outcome) => Some(*outcome),
            _ => None,
        }
    }

    open spec fn leads_to(self, reply: Reply, next: Self) -> bool {
        match (self, reply) {
            (ListMachines::Listing { .. }, Reply::Failed(error)) => {
                &&& next matches ListMachines::Finished(Outcome::Refused(e))
                &&& e.says(seq!["listing machines"@] + error@, StatusCode::InternalServerError)
            },
            (ListMachines::Listing { .. }, Reply::All(rows)) => {
                &&& next matches ListMachines::Counting { machines }
                &&& machines_of(rows@, machines@)
            },
            (ListMachines::Counting { .. }, Reply::Failed(error)) => {
                &&& next matches ListMachines::Finished(Outcome::Refused(e))
                &&& e.says(
                    seq!["fetching machine count"@] + error@,
                    StatusCode::InternalServerError,
                )
            },
            (ListMachines::Counting { machines }, Reply::One(row)) => next
                == ListMachines::Finished(
                Outcome::Answer(
                    PaginatedResults { results: machines, total_count: row.spec_signed(0) as u64 },
                ),
            ),
            _ => next == self,
        }
    }

    open spec fn distance(&self) -> (nat, nat, nat) {
        match self {
            ListMachines::Listing { .. } => (2, 0, 0),
            ListMachines::Counting { .. } => (1, 0, 0),
            ListMachines::Finished(_) => (0, 0, 0),
        }
    }

    proof fn waits_or_ended(&self) {
    }

    proof fn gets_closer(self, reply: Reply, next: Self) {
    }

    fn request(&self) -> (request: Option<Request>) {
        match self {
            ListMachines::Listing { limit, offset } => Some(
                Request::FetchAll(Query::ListMachines { limit: *limit, offset: *offset }),
            ),
            ListMachines::Counting { .. } => Some(Request::FetchOne(Query::CountMachines)),
            ListMachines::Finished(_) => None,
        }
    }

    fn resume(self, reply: Reply) -> (next: Self) {
        match (self, reply) {
            (ListMachines::Listing { .. }, Reply::Failed(error)) => ListMachines::Finished(
                Outcome::Refused(ResponseError::internal(error, "listing machines")),
            ),
            (ListMachines::Listing { .. }, Reply::All(rows)) => ListMachines::Counting {
                machines: read_machines(rows),
            },
            (ListMachines::Counting { .. }, Reply::Failed(error)) => ListMachines::Finished(
                Outcome::Refused(ResponseError::internal(error, "fetching machine count")),
            ),
            (ListMachines::Counting { machines }, Reply::One(row)) => ListMachines::Finished(
                Outcome::Answer(
                    PaginatedResults { results: machines, total_count: row.signed(0) as u64 },
                ),
            ),
            (flow, _) => flow,
        }
    }

    fn finish(self) -> (output: Outcome<PaginatedResults<Machine>>) {
        match self {
            ListMachines::Finished(outcome) => outcome,
            _ => vstd::pervasive::unreached(),
        }
    }
}

/// Looking up a machine.
pub enum GetMachine {
    Looking { hostname: String },
    Finished(Outcome<Machine>),
}

/// How the search for a machine begins.
pub open spec fn machine_search_begins(machine_id: String, flow: GetMachine) -> bool {
    flow == (GetMachine::Looking { hostname: machine_id })
}

/// Looks up a machine by its name.
pub fn get_machine(machine_id: String) -> (flow: GetMachine)
    ensures
        machine_search_begins(machine_id, flow),
{
    GetMachine::Looking { hostname: machine_id }
}

impl Flow for GetMachine {
    type Output = Outcome<Machine>;

    open spec fn pending(&self) -> Option<Request> {
        match self {
            GetMachine::Looking { hostname } => Some(
                Request::FetchOptional(Query::FindMachine { hostname: *hostname }),
            ),
            GetMachine::Finished(_) => None,
        }
    }

    open spec fn result(&self) -> Option<Outcome<Machine>> {
        match self {
            GetMachine::Finished(outcome) => Some(*outcome),
            _ => None,
        }
    }

    open spec fn leads_to(self, reply: Reply, next: Self) -> bool {
        match (self, reply) {
            (GetMachine::Looking { .. }, Reply::Failed(error)) => {
                &&& next matches GetMachine::Finished(Outcome::Refused(e))
                &&& e.says(
                    seq!["while fetching machine"@] + error@,
                    StatusCode::InternalServerError,
                )
            },
            (GetMachine::Looking { hostname }, Reply::Optional(None)) => {
                &&& next matches GetMachine::Finished(Outcome::Refused(e))
                &&& e.says(
                    seq!["machine '"@ + hostname@ + "' not found"@],
                    StatusCode::NotFound,
                )
            },
            (GetMachine::Looking { .. }, Reply::Optional(Some(row))) => next
                == GetMachine::Finished(
                Outcome::Answer(Machine { hostname: row.spec_text(0) }),
            ),
            _ => next == self,
        }
    }

    open spec fn distance(&self) -> (nat, nat, nat) {
        match self {
            GetMachine::Looking { .. } => (1, 0, 0),
            GetMachine::Finished(_) => (0, 0, 0),
        }
    }

    proof fn waits_or_ended(&self) {
    }

    proof fn gets_closer(self, reply: Reply, next: Self) {
    }

    fn request(&self) -> (request: Option<Request>) {
        match self {
            GetMachine::Looking { hostname } => Some(
                Request::FetchOptional(Query::FindMachine { hostname: hostname.clone() }),
            ),
            GetMachine::Finished(_) => None,
        }
    }

    fn resume(self, reply: Reply) -> (next: Self) {
        match (self, reply) {
            (GetMachine::Looking { .. }, Reply::Failed(error)) => GetMachine::Finished(
                Outcome::Refused(ResponseError::internal(error, "while fetching machine")),
            ),
            (GetMachine::Looking { hostname }, Reply::Optional(None)) => GetMachine::Finished(
                Outcome::Refused(
                    ResponseError::new(
                        concat3("machine '", hostname.as_str(), "' not found"),
                        StatusCode::NotFound,
                    ),
                ),
            ),
            (GetMachine::Looking { .. }, Reply::Optional(Some(row))) => GetMachine::Finished(
                Outcome::Answer(Machine { hostname: row.text(0) }),
            ),
            (flow, _) => flow,
        }
    }

    fn finish(self) -> (output: Outcome<Machine>) {
        match self {
            GetMachine::Finished(outcome) => outcome,
            _ => vstd::pervasive::unreached(),
        }
    }
}

/// A machine is recorded by one statement with the name that the request gives, and the request
/// is answered once that has been run.
pub proof fn machine_is_recorded_as_named(
    machine: NewMachine,
    states: Seq<RecordMachine>,
    replies: Seq<Reply>,
)
    requires
        is_talk(states, replies),
        machine_begins(machine, states[0]),
    ensures
        states[0].pending() == Some(
            Request::Execute(Query::InsertMachine { hostname: machine.hostname }),
        ),
        replies.len() <= 1,
        replies.len() == 1 ==> match replies[0] {
            Reply::Failed(error) => {
                &&& states[1].result() matches Some(Outcome::Refused(e))
                &&& e.says(
                    seq!["creating a new machine"@] + error@,
                    StatusCode::InternalServerError,
                )
            },
            _ => states[1].result() == Some(Outcome::Answer(())),
        },
{
    if replies.len() > 0 {
        assert(went_on(states, replies, 0));
    }
    if replies.len() > 1 {
        assert(went_on(states, replies, 1));
    }
}

/// A list of machines has as many as the request asks for, 20 if it does not say, after as many as
/// it says; it names the hosts of the rows, in their order, beside the number of all machines.
pub proof fn machine_list_is_the_part_asked_for(
    pagination: Pagination,
    states: Seq<ListMachines>,
    replies: Seq<Reply>,
)
    requires
        is_talk(states, replies),
        machine_list_begins(pagination, states[0]),
    ensures
        states[0].pending() matches Some(Request::FetchAll(Query::ListMachines { limit, offset })) && {
            &&& limit == pagination.limit.unwrap_or(20)
            &&& offset == pagination.offset.unwrap_or(0)
        },
        replies.len() <= 2,
        replies.len() == 2 ==> states[1].pending() == Some(Request::FetchOne(Query::CountMachines)),
        states.last().result() matches Some(outcome) ==> match replies.last() {
            Reply::Failed(error) => {
                &&& outcome matches Outcome::Refused(e)
                &&& e.says(
                    seq![
                        if replies.len() == 1 {
                            "listing machines"@
                        } else {
                            "fetching machine count"@
                        },
                    ] + error@,
                    StatusCode::InternalServerError,
                )
            },
            _ => {
                &&& replies.len() == 2
                &&& outcome matches Outcome::Answer(page)
                &&& replies[0] matches Reply::All(rows)
                &&& page.results@.len() == rows@.len()
                &&& forall|i: int|
                    0 <= i < rows@.len() ==> (#[trigger] rows@[i]).cells@[0] == Value::Text(
                        page.results@[i].hostname,
                    )
                &&& replies[1] matches Reply::One(row)
                &&& row.cells@[0] matches Value::Signed(n) && page.total_count == n as u64
            },
        },
{
    if replies.len() > 0 {
        assert(went_on(states, replies, 0));
        if let Reply::All(rows) = replies[0] {
            assert forall|i: int| 0 <= i < rows@.len() implies (#[trigger] rows@[i]).fits(
                Query::ListMachines { limit: 0, offset: 0 }.spec_columns(),
            ) by {}
        }
    }
    if replies.len() > 1 {
        assert(went_on(states, replies, 1));
    }
    if replies.len() > 2 {
        assert(went_on(states, replies, 2));
    }
}

/// A machine is looked up by the name that the request gives: the answer is the one found, and a
/// name that is not recorded is not found.
pub proof fn machine_is_the_one_asked_for(
    machine_id: String,
    states: Seq<GetMachine>,
    replies: Seq<Reply>,
)
    requires
        is_talk(states, replies),
        machine_search_begins(machine_id, states[0]),
    ensures
        states[0].pending() == Some(
            Request::FetchOptional(Query::FindMachine { hostname: machine_id }),
        ),
        replies.len() <= 1,
        replies.len() == 1 ==> match replies[0] {
            Reply::Failed(error) => {
                &&& states[1].result() matches Some(Outcome::Refused(e))
                &&& e.says(
                    seq!["while fetching machine"@] + error@,
                    StatusCode::InternalServerError,
                )
            },
            Reply::Optional(None) => {
                &&& states[1].result() matches Some(Outcome::Refused(e))
                &&& e.says(
                    seq!["machine '"@ + machine_id@ + "' not found"@],
                    StatusCode::NotFound,
                )
            },
            Reply::Optional(Some(row)) => {
                &&& states[1].result() matches Some(Outcome::Answer(machine))
                &&& row.cells@[0] == Value::Text(machine.hostname)
            },
            _ => false,
        },
{
    if replies.len() > 0 {
        assert(went_on(states, replies, 0));
    }
    if replies.len() > 1 {
        assert(went_on(states, replies, 1));
    }
}

} // verus!
