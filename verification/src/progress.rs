//! How far invocations have come.

use crate::error::Failure;
use crate::flow::{is_talk, went_on, Flow, Reply, Request};
use crate::model::InvocationProgress;
use crate::query::{Column, Query, Value};
use crate::status::InvocationStatus;
use vstd::prelude::*;

verus! {

/// The reply is one to a question for a number.
pub open spec fn is_count_reply(reply: Reply) -> bool {
    match reply {
        Reply::Failed(_) => true,
        Reply::One(row) => row.fits(seq![Column::Unsigned]),
        _ => false,
    }
}

/// What the reply says of the number, or that the question failed while `doing`.
pub open spec fn is_count(reply: Reply, doing: Seq<char>, count: Result<u32, Failure>) -> bool {
    match reply {
        Reply::Failed(error) => count matches Err(e) && e@ == seq![doing] + error@,
        Reply::One(row) => count == Ok::<u32, Failure>(row.spec_unsigned(0)),
        _ => false,
    }
}

/// Reads a number from the reply to a question for one.
fn read_count(reply: Reply, doing: &str) -> (count: Result<u32, Failure>)
    requires
        is_count_reply(reply),
    ensures
        is_count(reply, doing@, count),
{
    match reply {
        Reply::Failed(error) => Err(error.context(doing)),
        Reply::One(row) => Ok(row.unsigned(0)),
        _ => vstd::pervasive::unreached(),
    }
}

/// Reads the number of workloads of an invocation.
pub fn number_of_workloads(reply: Reply) -> (count: Result<u32, Failure>)
    requires
        is_count_reply(reply),
    ensures
        is_count(reply, "fetching number of workloads"@, count),
{
    read_count(reply, "fetching number of workloads")
}

/// Reads the number of runs of a workload.
pub fn number_of_runs(reply: Reply) -> (count: Result<u32, Failure>)
    requires
        is_count_reply(reply),
    ensures
        is_count(reply, "fetching number of runs"@, count),
{
    read_count(reply, "fetching number of runs")
}

/// Reads the workload of an invocation that was started last: its identifier, its name and the
/// number of its runs. There is none if no workload was started.
pub fn latest_workload(reply: Reply) -> (latest: Result<Option<(String, String, u32)>, Failure>)
    requires
        match reply {
            Reply::Failed(_) => true,
            Reply::Optional(None) => true,
            Reply::Optional(Some(row)) => row.fits(
                seq![Column::Text, Column::Text, Column::Unsigned],
            ),
            _ => false,
        },
    ensures
        match reply {
            Reply::Optional(None) => latest == Ok::<Option<(String, String, u32)>, Failure>(
                None,
            ),
            Reply::Optional(Some(row)) => latest == Ok::<_, Failure>(
                Some((row.spec_text(0), row.spec_text(1), row.spec_unsigned(2))),
            ),
            Reply::Failed(error) => latest matches Err(e) && e@ == seq![
                "fetching latest workload"@,
            ] + error@,
            _ => false,
        },
{
    match reply {
        Reply::Failed(error) => Err(error.context("fetching latest workload")),
        Reply::Optional(None) => Ok(None),
        Reply::Optional(Some(row)) => Ok(Some((row.text(0), row.text(1), row.unsigned(2)))),
        _ => vstd::pervasive::unreached(),
    }
}

/// Finding out how far an invocation has come.
pub enum ReadProgress {
    CountingWorkloads { uuid: String, max_workloads: u32 },
    FindingLatest { uuid: String, max_workloads: u32, number_of_workloads: u32 },
    CountingRuns {
        workload_uuid: String,
        workload_name: String,
        max_runs: u32,
        max_workloads: u32,
        number_of_workloads: u32,
    },
    Finished(Result<Option<InvocationProgress>, Failure>),
}

/// The workloads that are done while `number_of_workloads` have been started: all but the last.
pub open spec fn workloads_done(number_of_workloads: u32) -> u32 {
    if number_of_workloads == 0 {
        0
    } else {
        (number_of_workloads - 1) as u32
    }
}

/// How it is found out how far an invocation has come: at once if it is not running.
pub open spec fn progress_begins(
    uuid: String,
    status: InvocationStatus,
    max_workloads: u32,
    flow: ReadProgress,
) -> bool {
    flow == (if status is Running {
        ReadProgress::CountingWorkloads { uuid, max_workloads }
    } else {
        ReadProgress::Finished(Ok(None))
    })
}

impl InvocationProgress {
    /// Finds out how far a running invocation has come. One that is not running has no progress.
    pub fn from_db(uuid: &String, status: &InvocationStatus, max_workloads: u32) -> (flow:
        ReadProgress)
        ensures
            progress_begins(*uuid, *status, max_workloads, flow),
    {
        if status.is_running() {
            ReadProgress::CountingWorkloads { uuid: uuid.clone(), max_workloads }
        } else {
            ReadProgress::Finished(Ok(None))
        }
    }
}

impl Flow for ReadProgress {
    type Output = Result<Option<InvocationProgress>, Failure>;

    open spec fn pending(&self) -> Option<Request> {
        match self {
            ReadProgress::CountingWorkloads { uuid, .. } => Some(
                Request::FetchOne(Query::CountWorkloadsOf { invocation_uuid: *uuid }),
            ),
            ReadProgress::FindingLatest { uuid, .. } => Some(
                Request::FetchOptional(Query::LatestWorkload { invocation_uuid: *uuid }),
            ),
            ReadProgress::CountingRuns { workload_uuid, .. } => Some(
                Request::FetchOne(Query::CountRuns { workload_uuid: *workload_uuid }),
            ),
            ReadProgress::Finished(_) => None,
        }
    }

    open spec fn result(&self) -> Option<Result<Option<InvocationProgress>, Failure>> {
        match self {
            ReadProgress::Finished(progress) => Some(*progress),
            _ => None,
        }
    }

    open spec fn leads_to(self, reply: Reply, next: Self) -> bool {
        match (self, reply) {
            (ReadProgress::CountingWorkloads { .. }, Reply::Failed(error)) => {
                &&& next matches ReadProgress::Finished(Err(e))
                &&& e@ == seq!["fetching number of workloads"@] + error@
            },
            (ReadProgress::CountingWorkloads { uuid, max_workloads }, Reply::One(row)) => next == (
            ReadProgress::FindingLatest {
                uuid,
                max_workloads,
                number_of_workloads: row.spec_unsigned(0),
            }),
            (ReadProgress::FindingLatest { .. }, Reply::Failed(error)) => {
                &&& next matches ReadProgress::Finished(Err(e))
                &&& e@ == seq!["fetching latest workload"@] + error@
            },
            (ReadProgress::FindingLatest { max_workloads, .. }, Reply::Optional(None)) => next
                == ReadProgress::Finished(
                Ok(
                    Some(
                        InvocationProgress {
                            current_workload: None,
                            completed_runs: 0,
                            max_runs: 0,
                            completed_workloads: 0,
                            max_workloads,
                        },
                    ),
                ),
            ),
            (
                ReadProgress::FindingLatest { max_workloads, number_of_workloads, .. },
                Reply::Optional(Some(row)),
            ) => next == (ReadProgress::CountingRuns {
                workload_uuid: row.spec_text(0),
                workload_name: row.spec_text(1),
                max_runs: row.spec_unsigned(2),
                max_workloads,
                number_of_workloads,
            }),
            (ReadProgress::CountingRuns { .. }, Reply::Failed(error)) => {
                &&& next matches ReadProgress::Finished(Err(e))
                &&& e@ == seq!["fetching number of runs"@] + error@
            },
            (
                ReadProgress::CountingRuns {
                    workload_name,
                    max_runs,
                    max_workloads,
                    number_of_workloads,
                    ..
                },
                Reply::One(row),
            ) => next == ReadProgress::Finished(
                Ok(
                    Some(
                        InvocationProgress {
                            current_workload: Some(workload_name),
                            completed_runs: row.spec_unsigned(0),
                            max_runs,
                            completed_workloads: workloads_done(number_of_workloads),
                            max_workloads,
                        },
                    ),
                ),
            ),
            _ => next == self,
        }
    }

    open spec fn distance(&self) -> (nat, nat, nat) {
        match self {
            ReadProgress::CountingWorkloads { .. } => (3, 0, 0),
            ReadProgress::FindingLatest { .. } => (2, 0, 0),
            ReadProgress::CountingRuns { .. } => (1, 0, 0),
            ReadProgress::Finished(_) => (0, 0, 0),
        }
    }

    proof fn waits_or_ended(&self) {
    }

    proof fn gets_closer(self, reply: Reply, next: Self) {
    }

    fn request(&self) -> (request: Option<Request>) {
        match self {
            ReadProgress::CountingWorkloads { uuid, .. } => Some(
                Request::FetchOne(Query::CountWorkloadsOf { invocation_uuid: uuid.clone() }),
            ),
            ReadProgress::FindingLatest { uuid, .. } => Some(
                Request::FetchOptional(Query::LatestWorkload { invocation_uuid: uuid.clone() }),
            ),
            ReadProgress::CountingRuns { workload_uuid, .. } => Some(
                Request::FetchOne(Query::CountRuns { workload_uuid: workload_uuid.clone() }),
            ),
            ReadProgress::Finished(_) => None,
        }
    }

    fn resume(self, reply: Reply) -> (next: Self) {
        match self {
            ReadProgress::CountingWorkloads { uuid, max_workloads } => {
                match number_of_workloads(reply) {
                    Ok(number_of_workloads) => ReadProgress::FindingLatest {
                        uuid,
                        max_workloads,
                        number_of_workloads,
                    },
                    Err(error) => ReadProgress::Finished(Err(error)),
                }
            },
            ReadProgress::FindingLatest { max_workloads, number_of_workloads, .. } => {
                match latest_workload(reply) {
                    Ok(Some((workload_uuid, workload_name, max_runs))) => {
                        ReadProgress::CountingRuns {
                            workload_uuid,
                            workload_name,
                            max_runs,
                            max_workloads,
                            number_of_workloads,
                        }
                    },
                    Ok(None) => ReadProgress::Finished(
                        Ok(
                            Some(
                                InvocationProgress {
                                    current_workload: None,
                                    completed_runs: 0,
                                    max_runs: 0,
                                    completed_workloads: 0,
                                    max_workloads,
                                },
                            ),
                        ),
                    ),
                    Err(error) => ReadProgress::Finished(Err(error)),
                }
            },
            ReadProgress::CountingRuns {
                workload_name,
                max_runs,
                max_workloads,
                number_of_workloads,
                ..
            } => {
                match number_of_runs(reply) {
                    Ok(number_of_runs) => ReadProgress::Finished(
                        Ok(
                            Some(
                                InvocationProgress {
                                    current_workload: Some(workload_name),
                                    completed_runs: number_of_runs,
                                    max_runs,
                                    completed_workloads: number_of_workloads.saturating_sub(1),
                                    max_workloads,
                                },
                            ),
                        ),
                    ),
                    Err(error) => ReadProgress::Finished(Err(error)),
                }
            },
            ReadProgress::Finished(progress) => ReadProgress::Finished(progress),
        }
    }

    fn finish(self) -> (output: Result<Option<InvocationProgress>, Failure>) {
        match self {
            ReadProgress::Finished(progress) => progress,
            _ => vstd::pervasive::unreached(),
        }
    }
}

/// An invocation that is in its last-started workload, and has started no more workloads and run
/// no more runs than it was to, has a progress between 0 and 100 percent.
pub proof fn progress_stays_a_share(flow: ReadProgress, reply: Reply, next: ReadProgress)
    requires
        flow matches ReadProgress::CountingRuns { max_runs, max_workloads, number_of_workloads, .. }
            && 0 < number_of_workloads <= max_workloads && 0 < max_runs && (reply matches Reply::One(
            row,
        ) && row.spec_unsigned(0) <= max_runs),
        flow.leads_to(reply, next),
    ensures
        next matches ReadProgress::Finished(Ok(Some(progress))) && 0 <= progress.percent() <= 100,
{
    match next {
        ReadProgress::Finished(Ok(Some(progress))) => {
            crate::model::percent_is_a_share(progress);
        },
        _ => {},
    }
}

/// The progress of a running invocation is that of its latest workload: all workloads before it
/// are done, and of its own runs those that are recorded. The numbers are those found for that
/// invocation and for that workload; without a workload nothing is done yet. An invocation that is
/// not running has no progress.
pub proof fn progress_is_that_of_the_latest_workload(
    uuid: String,
    status: InvocationStatus,
    max_workloads: u32,
    states: Seq<ReadProgress>,
    replies: Seq<Reply>,
)
    requires
        is_talk(states, replies),
        progress_begins(uuid, status, max_workloads, states[0]),
    ensures
        !(status is Running) ==> states[0].result() == Some(
            Ok::<Option<InvocationProgress>, Failure>(None),
        ),
        status is Running ==> states[0].pending() == Some(
            Request::FetchOne(Query::CountWorkloadsOf { invocation_uuid: uuid }),
        ),
        replies.len() <= 3,
        states.len() > 1 && !(replies[0] is Failed) ==> states[1].pending() == Some(
            Request::FetchOptional(Query::LatestWorkload { invocation_uuid: uuid }),
        ),
        states.len() > 2 && replies[1] == Reply::Optional(None) ==> {
            &&& states[2].result() matches Some(Ok(Some(progress)))
            &&& progress.current_workload is None
            &&& progress.completed_runs == 0
            &&& progress.max_runs == 0
            &&& progress.completed_workloads == 0
            &&& progress.max_workloads == max_workloads
        },
        states.len() > 2 ==> (replies[1] matches Reply::Optional(Some(row)) ==> {
            &&& states[2].pending() matches Some(
                Request::FetchOne(Query::CountRuns { workload_uuid }),
            )
            &&& row.cells@[0] == Value::Text(workload_uuid)
        }),
        states.len() > 3 && !(replies[2] is Failed) ==> {
            &&& replies[0] matches Reply::One(workloads)
            &&& workloads.cells@[0] matches Value::Unsigned(started)
            &&& replies[1] matches Reply::Optional(Some(latest))
            &&& replies[2] matches Reply::One(runs)
            &&& states[3].result() matches Some(Ok(Some(progress)))
            &&& progress.current_workload matches Some(name) && latest.cells@[1] == Value::Text(
                name,
            )
            &&& latest.cells@[2] == Value::Unsigned(progress.max_runs)
            &&& runs.cells@[0] == Value::Unsigned(progress.completed_runs)
            &&& progress.max_workloads == max_workloads
            &&& started > 0 ==> progress.completed_workloads == started - 1
            &&& started == 0 ==> progress.completed_workloads == 0
        },
        replies.len() > 0 ==> (replies.last() matches Reply::Failed(error) ==> {
            &&& states.last().result() matches Some(Err(e))
            &&& e@ == seq![
                if replies.len() == 1 {
                    "fetching number of workloads"@
                } else if replies.len() == 2 {
                    "fetching latest workload"@
                } else {
                    "fetching number of runs"@
                },
            ] + error@
        }),
{
    if replies.len() > 0 {
        assert(went_on(states, replies, 0));
    }
    if replies.len() > 1 {
        assert(went_on(states, replies, 1));
    }
    if replies.len() > 2 {
        assert(went_on(states, replies, 2));
    }
    if replies.len() > 3 {
        assert(went_on(states, replies, 3));
    }
}

} // verus!
