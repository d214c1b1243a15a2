//! Flows: the handling of a request as steps between which the caller talks to the database.
//!
//! A flow is a state. It says what it wants done next; the caller does it and hands back what
//! came of it, and the flow moves on, until it has a result.

use crate::dates::Duration;
use crate::error::Failure;
use crate::ids::Uuid;
use crate::query::{Column, Query, Row};
use vstd::prelude::*;

verus! {

/// What a flow wants done.
pub enum Request {
    /// Run a statement that changes the database.
    Execute(Query),
    /// Fetch the one row of a result.
    FetchOne(Query),
    /// Fetch the row of a result that may have none.
    FetchOptional(Query),
    /// Fetch all rows of a result.
    FetchAll(Query),
    /// See to it that the invocation is looked at again when its time is over.
    Schedule { uuid: Uuid, timeout: Duration },
    /// Nothing: the flow is at the end of a round and can be resumed at once.
    Continue,
}

/// What came of it.
pub enum Reply {
    /// It could not be done.
    Failed(Failure),
    /// The statement was run and changed so many rows.
    Executed(u64),
    /// The row.
    One(Row),
    /// The row, if there was one.
    Optional(Option<Row>),
    /// The rows.
    All(Vec<Row>),
    /// The invocation will be looked at again.
    Scheduled,
    /// Nothing was to be done.
    Continued,
}

/// Every row has the columns that are read from it.
pub open spec fn rows_fit(rows: Seq<Row>, columns: Seq<Column>) -> bool {
    forall|i: int| 0 <= i < rows.len() ==> (#[trigger] rows[i]).fits(columns)
}

impl Request {
    /// The reply answers the request.
    pub open spec fn accepts(&self, reply: Reply) -> bool {
        match (self, reply) {
            (Request::Continue, Reply::Continued) => true,
            (Request::Continue, _) => false,
            (_, Reply::Failed(_)) => true,
            (Request::Execute(_), Reply::Executed(_)) => true,
            (Request::FetchOne(query), Reply::One(row)) => row.fits(query.spec_columns()),
            (Request::FetchOptional(query), Reply::Optional(row)) => row matches Some(row)
                ==> row.fits(query.spec_columns()),
            (Request::FetchAll(query), Reply::All(rows)) => rows_fit(
                rows@,
                query.spec_columns(),
            ),
            (Request::Schedule { .. }, Reply::Scheduled) => true,
            _ => false,
        }
    }

    /// Tells whether the reply answers the request.
    pub fn is_answered_by(&self, reply: &Reply) -> (answered: bool)
        ensures
            answered == self.accepts(*reply),
    {
        match (self, reply) {
            (Request::Continue, Reply::Continued) => true,
            (Request::Continue, _) => false,
            (_, Reply::Failed(_)) => true,
            (Request::Execute(_), Reply::Executed(_)) => true,
            (Request::FetchOne(query), Reply::One(row)) => row.has(&query.columns()),
            (Request::FetchOptional(query), Reply::Optional(row)) => match row {
                Some(row) => row.has(&query.columns()),
                None => true,
            },
            (Request::FetchAll(query), Reply::All(rows)) => {
                let columns = query.columns();
                let mut i: usize = 0;
                while i < rows.len()
                    invariant
                        i <= rows.len(),
                        *self == Request::FetchAll(*query),
                        *reply == Reply::All(*rows),
                        columns@ == query.spec_columns(),
                        forall|j: int| 0 <= j < i ==> (#[trigger] rows@[j]).fits(columns@),
                    decreases rows.len() - i,
                {
                    if !rows[i].has(&columns) {
                        assert(!rows@[i as int].fits(columns@));
                        return false;
                    }
                    i += 1;
                }
                true
            },
            (Request::Schedule { .. }, Reply::Scheduled) => true,
            _ => false,
        }
    }
}

/// `a` comes before `b` in the lexicographic order of triples.
pub open spec fn closer(a: (nat, nat, nat), b: (nat, nat, nat)) -> bool {
    ||| a.0 < b.0
    ||| a.0 == b.0 && a.1 < b.1
    ||| a.0 == b.0 && a.1 == b.1 && a.2 < b.2
}

/// The handling of a request.
pub trait Flow: Sized {
    type Output;

    /// What is wanted next; nothing once the flow has ended.
    spec fn pending(&self) -> Option<Request>;

    /// The result; nothing until the flow has ended.
    spec fn result(&self) -> Option<Self::Output>;

    /// What the flow becomes when it is resumed with a reply.
    spec fn leads_to(self, reply: Reply, next: Self) -> bool;

    /// How far the flow is from its end.
    spec fn distance(&self) -> (nat, nat, nat);

    /// A flow waits for a reply or has ended, and never both.
    proof fn waits_or_ended(&self)
        ensures
            self.pending() is None <==> self.result() is Some,
    ;

    /// Every step brings the flow closer to its end, whatever the reply: so every flow ends.
    proof fn gets_closer(self, reply: Reply, next: Self)
        requires
            self.pending() matches Some(request) && request.accepts(reply),
            self.leads_to(reply, next),
        ensures
            closer(next.distance(), self.distance()),
    ;

    /// What is wanted next; nothing once the flow has ended.
    fn request(&self) -> (request: Option<Request>)
        ensures
            request == self.pending(),
    ;

    /// Hands the flow the reply to what it wanted.
    fn resume(self, reply: Reply) -> (next: Self)
        requires
            self.pending() matches Some(request) && request.accepts(reply),
        ensures
            self.leads_to(reply, next),
    ;

    /// The result of a flow that has ended.
    fn finish(self) -> (output: Self::Output)
        requires
            self.pending() is None,
        ensures
            self.result() == Some(output),
    ;
}

/// `next` is what `flow` becomes when it is resumed with `reply`, which answers its request.
pub open spec fn resumes<F: Flow>(flow: F, reply: Reply, next: F) -> bool {
    &&& flow.pending() matches Some(request) && request.accepts(reply)
    &&& flow.leads_to(reply, next)
}

/// From `from` on there is a step that is no resumption.
proof fn run_breaks_off<F: Flow>(
    states: spec_fn(nat) -> F,
    replies: spec_fn(nat) -> Reply,
    from: nat,
) -> (n: nat)
    ensures
        from <= n,
        !resumes(states(n), replies(n), states(n + 1)),
    decreases
            states(from).distance().0,
            states(from).distance().1,
            states(from).distance().2,
{
    if resumes(states(from), replies(from), states(from + 1)) {
        states(from).gets_closer(replies(from), states(from + 1));
        run_breaks_off(states, replies, from + 1)
    } else {
        from
    }
}

/// Every flow ends, whatever it is answered: it cannot be resumed without end.
pub proof fn every_flow_ends<F: Flow>(
    states: spec_fn(nat) -> F,
    replies: spec_fn(nat) -> Reply,
) -> (n: nat)
    ensures
        !resumes(states(n), replies(n), states(n + 1)),
{
    run_breaks_off(states, replies, 0)
}

/// One step of a conversation: the request of a state is answered, and the next state follows.
pub open spec fn went_on<F: Flow>(states: Seq<F>, replies: Seq<Reply>, i: int) -> bool {
    resumes(states[i], replies[i], states[i + 1])
}

/// A conversation with a flow: the states that it goes through, from the first on, and the replies
/// that it is given in between.
pub open spec fn is_talk<F: Flow>(states: Seq<F>, replies: Seq<Reply>) -> bool {
    &&& states.len() == replies.len() + 1
    &&& forall|i: int| 0 <= i < replies.len() ==> #[trigger] went_on(states, replies, i)
}

/// Which reply answers which request: a failure answers all that can fail; a statement that is run
/// is answered by the number of its rows, one that is to give a row by a row, one that may give none
/// by a row or by none, and one that gives many by any number of rows, all with its columns.
pub proof fn requests_are_answered_in_kind(request: Request, reply: Reply)
    ensures
        request is Continue ==> (request.accepts(reply) <==> reply is Continued),
        request is Schedule ==> (request.accepts(reply) <==> reply is Failed || reply is Scheduled),
        request is Execute ==> (request.accepts(reply) <==> reply is Failed || reply is Executed),
        request matches Request::FetchOne(query) ==> (request.accepts(reply) <==> {
            ||| reply is Failed
            ||| reply matches Reply::One(row) && row.fits(query.spec_columns())
        }),
        request matches Request::FetchOptional(query) ==> (request.accepts(reply) <==> {
            ||| reply is Failed
            ||| reply matches Reply::Optional(None)
            ||| reply matches Reply::Optional(Some(row)) && row.fits(query.spec_columns())
        }),
        request matches Request::FetchAll(query) ==> (request.accepts(reply) <==> {
            ||| reply is Failed
            ||| reply matches Reply::All(rows) && (forall|i: int|
                0 <= i < rows@.len() ==> (#[trigger] rows@[i]).fits(query.spec_columns()))
        }),
{
}

} // verus!
