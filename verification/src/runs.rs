//! Recording runs and their measurements.

use crate::error::{Failure, Outcome, ResponseError, StatusCode};
use crate::flow::{is_talk, went_on, Flow, Reply, Request};
use crate::ids::{uuid_text, Uuid};
use crate::lists::reversed;
use crate::model::{CallStats, NewRun};
use crate::progress::{number_of_runs, number_of_workloads};
use crate::query::{Query, Row, Value};
use crate::running::{check_running, is_running_check, shows_running};
use crate::status::InvocationStatus;
use crate::text::{decimal, decimal_text};
use vstd::prelude::*;

verus! {

/// Why a number that is too large is not stored.
pub const OUT_OF_RANGE: &'static str = "out of range integral type conversion attempted";

/// The largest number that a measurement can have.
pub const LARGEST: u64 = 0x7fff_ffff_ffff_ffff;

/// The message for a number that is too large.
pub open spec fn too_large(
    before: Seq<char>,
    n: u64,
    between: Seq<char>,
    after: Seq<char>,
) -> Seq<char> {
    before + decimal_text(n as nat) + between + decimal_text(LARGEST as nat) + after
}

/// Writes the message for a number that is too large.
fn too_large_message(before: &str, n: u64, between: &str, after: &str) -> (message: String)
    ensures
        message@ == too_large(before@, n, between@, after@),
{
    let (value, largest) = (decimal(n), decimal(LARGEST));
    before.to_string().concat(value.as_str()).concat(between).concat(largest.as_str()).concat(after)
}

/// A measurement of one span, as it is stored.
pub struct DataPoint {
    pub span: String,
    pub self_time: i64,
    pub time: i64,
    pub call_count: i64,
}

/// What is said of a measurement that cannot be stored, because a number in it is too large. The
/// first of the three is reported. There is nothing to say if it can be stored.
pub open spec fn complaint(stats: CallStats) -> Option<Seq<char>> {
    if stats.self_time > LARGEST {
        Some(
            too_large(
                "'self_time' ("@,
                stats.self_time,
                "ns) bigger than the allowed maximum ("@,
                "ns)"@,
            ),
        )
    } else if stats.time > LARGEST {
        Some(
            too_large(
                "'time' ("@,
                stats.time,
                "ns) bigger than the allowed maximum ("@,
                "ns)"@,
            ),
        )
    } else if stats.call_count > LARGEST {
        Some(
            too_large(
                "'call_count' ("@,
                stats.call_count,
                ") bigger than the allowed maximum ("@,
                ")"@,
            ),
        )
    } else {
        None
    }
}

/// `point` is the measurement of a span, its numbers unchanged.
pub open spec fn is_point_of(span: String, stats: CallStats, point: DataPoint) -> bool {
    &&& point.span == span
    &&& point.self_time == stats.self_time
    &&& point.time == stats.time
    &&& point.call_count == stats.call_count
}

/// A signed number that is at most `LARGEST`, or the refusal with a message.
fn checked(n: u64, before: &str, between: &str, after: &str) -> (number: Result<i64, ResponseError>)
    ensures
        match number {
            Ok(m) => n <= LARGEST && m == n,
            Err(refusal) => n > LARGEST && refusal.says(
                seq![too_large(before@, n, between@, after@), OUT_OF_RANGE@],
                StatusCode::BadRequest,
            ),
        },
{
    if n <= LARGEST {
        Ok(n as i64)
    } else {
        let message = too_large_message(before, n, between, after);
        let error = Failure::msg(OUT_OF_RANGE.to_string()).context(message.as_str());
        assert(error@ =~= seq![message@, OUT_OF_RANGE@]);
        Err(ResponseError { error, code: StatusCode::BadRequest })
    }
}

/// Makes a measurement ready to be stored, or refuses it.
pub fn data_point(span: String, stats: CallStats) -> (point: Result<DataPoint, ResponseError>)
    ensures
        match point {
            Ok(point) => complaint(stats) is None && is_point_of(span, stats, point),
            Err(refusal) => complaint(stats) matches Some(message) && refusal.says(
                seq![message, OUT_OF_RANGE@],
                StatusCode::BadRequest,
            ),
        },
{
    let self_time: i64 = match checked(
        stats.self_time,
        "'self_time' (",
        "ns) bigger than the allowed maximum (",
        "ns)",
    ) {
        Ok(n) => n,
        Err(refusal) => return Err(refusal),
    };
    let time: i64 = match checked(
        stats.time,
        "'time' (",
        "ns) bigger than the allowed maximum (",
        "ns)",
    ) {
        Ok(n) => n,
        Err(refusal) => return Err(refusal),
    };
    let call_count: i64 = match checked(
        stats.call_count,
        "'call_count' (",
        ") bigger than the allowed maximum (",
        ")",
    ) {
        Ok(n) => n,
        Err(refusal) => return Err(refusal),
    };
    Ok(DataPoint { span, self_time, time, call_count })
}

/// A run that is being recorded.
pub struct Run {
    pub id: Uuid,
    pub uuid: String,
    pub workload_uuid: String,
    pub max_runs: u32,
    pub invocation_uuid: String,
}

/// Recording a run.
pub enum RecordRun {
    /// The workload is looked up.
    Finding { workload_uuid: String, data: Vec<(String, CallStats)> },
    /// The invocation of the workload has to be running.
    Checking {
        workload_uuid: String,
        max_runs: u32,
        invocation_uuid: String,
        data: Vec<(String, CallStats)>,
    },
    /// The run is recorded.
    Recording { run: Run, data: Vec<(String, CallStats)> },
    /// A measurement is recorded. Those in `rest` are to come, the next one last.
    Measuring { run: Run, point: DataPoint, rest: Vec<(String, CallStats)> },
    /// The runs of the workload are counted.
    CountingRuns { run: Run },
    /// It was the last run of the workload: the workloads of the invocation are counted.
    CountingWorkloads { run: Run },
    /// The number of workloads that the invocation will have is looked up.
    FindingMax { run: Run, workloads: u32 },
    /// It was the last run of the last workload: the invocation has completed.
    Completing { run: Run, status: InvocationStatus },
    Finished(Outcome<Uuid>),
}

/// How the recording of a run begins.
pub open spec fn run_begins(run: NewRun, flow: RecordRun) -> bool {
    flow matches RecordRun::Finding { workload_uuid, data } && {
        &&& workload_uuid@ == uuid_text(run.workload_uuid.bits)
        &&& data@ == run.data@
    }
}

/// Records a run of a workload of a running invocation, with its measurements.
pub fn new_run(run: NewRun) -> (flow: RecordRun)
    ensures
        run_begins(run, flow),
{
    RecordRun::Finding { workload_uuid: run.workload_uuid.to_text(), data: run.data.into_entries() }
}

/// The run `run` is recorded under the identifier `id`, with all of its measurements to come.
pub open spec fn recording_begins(
    id: Uuid,
    workload_uuid: String,
    max_runs: u32,
    invocation_uuid: String,
    data: Vec<(String, CallStats)>,
    flow: RecordRun,
) -> bool {
    &&& flow matches RecordRun::Recording { run, data: d }
    &&& run.id == id
    &&& run.uuid@ == uuid_text(id.bits)
    &&& run.workload_uuid == workload_uuid
    &&& run.max_runs == max_runs
    &&& run.invocation_uuid == invocation_uuid
    &&& d == data
}

/// Records a run under the identifier `id`.
pub fn record_run(
    id: Uuid,
    workload_uuid: String,
    max_runs: u32,
    invocation_uuid: String,
    data: Vec<(String, CallStats)>,
) -> (flow: RecordRun)
    ensures
        recording_begins(id, workload_uuid, max_runs, invocation_uuid, data, flow),
{
    let uuid = id.to_text();
    RecordRun::Recording { run: Run { id, uuid, workload_uuid, max_runs, invocation_uuid }, data }
}

/// What follows when the measurements in `rest` are still to be recorded, the next one last: the
/// next is recorded, or refused if it cannot be stored; after the last one the runs are counted.
pub open spec fn measuring_goes_on(
    run: Run,
    rest: Seq<(String, CallStats)>,
    flow: RecordRun,
) -> bool {
    if rest.len() == 0 {
        flow == (RecordRun::CountingRuns { run })
    } else {
        match complaint(rest.last().1) {
            Some(message) => {
                &&& flow matches RecordRun::Finished(Outcome::Refused(e))
                &&& e.says(seq![message, OUT_OF_RANGE@], StatusCode::BadRequest)
            },
            None => {
                &&& flow matches RecordRun::Measuring { run: r, point, rest: left }
                &&& r == run
                &&& is_point_of(rest.last().0, rest.last().1, point)
                &&& left@ == rest.drop_last()
            },
        }
    }
}

/// Goes on with the measurements in `rest`, the next one last.
fn measure(run: Run, rest: Vec<(String, CallStats)>) -> (flow: RecordRun)
    ensures
        measuring_goes_on(run, rest@, flow),
{
    let mut rest = rest;
    match rest.pop() {
        None => RecordRun::CountingRuns { run },
        Some((span, stats)) => match data_point(span, stats) {
            Ok(point) => RecordRun::Measuring { run, point, rest },
            Err(refusal) => RecordRun::Finished(Outcome::Refused(refusal)),
        },
    }
}

impl Flow for RecordRun {
    type Output = Outcome<Uuid>;

    open spec fn pending(&self) -> Option<Request> {
        match self {
            RecordRun::Finding { workload_uuid, .. } => Some(
                Request::FetchOne(Query::FindWorkload { uuid: *workload_uuid }),
            ),
            RecordRun::Checking { invocation_uuid, .. } => Some(
                Request::FetchOptional(Query::InvocationStatus { uuid: *invocation_uuid }),
            ),
            RecordRun::Recording { run, .. } => Some(
                Request::Execute(
                    Query::InsertRun { uuid: run.uuid, workload_uuid: run.workload_uuid },
                ),
            ),
            RecordRun::Measuring { run, point, .. } => Some(
                Request::Execute(
                    Query::InsertData {
                        span: point.span,
                        run_uuid: run.uuid,
                        self_time: point.self_time,
                        time: point.time,
                        call_count: point.call_count,
                    },
                ),
            ),
            RecordRun::CountingRuns { run } => Some(
                Request::FetchOne(Query::CountRuns { workload_uuid: run.workload_uuid }),
            ),
            RecordRun::CountingWorkloads { run } => Some(
                Request::FetchOne(
                    Query::CountWorkloadsOf { invocation_uuid: run.invocation_uuid },
                ),
            ),
            RecordRun::FindingMax { run, .. } => Some(
                Request::FetchOne(Query::MaxWorkloads { invocation_uuid: run.invocation_uuid }),
            ),
            RecordRun::Completing { run, status } => Some(
                Request::Execute(Query::SetStatus { status: *status, uuid: run.invocation_uuid }),
            ),
            RecordRun::Finished(_) => None,
        }
    }

    open spec fn result(&self) -> Option<Outcome<Uuid>> {
        match self {
            RecordRun::Finished(outcome) => Some(*outcome),
            _ => None,
        }
    }

    open spec fn leads_to(self, reply: Reply, next: Self) -> bool {
        match (self, reply) {
            (RecordRun::Finding { .. }, Reply::Failed(error)) => {
                &&& next matches RecordRun::Finished(Outcome::Refused(e))
                &&& e.says(
                    seq!["fetching max number of runs"@] + error@,
                    StatusCode::InternalServerError,
                )
            },
            (RecordRun::Finding { workload_uuid, data }, Reply::One(row)) => next == (
            RecordRun::Checking {
                workload_uuid,
                max_runs: row.spec_unsigned(0),
                invocation_uuid: row.spec_text(1),
                data,
            }),
            (RecordRun::Checking { workload_uuid, max_runs, invocation_uuid, data }, _) => {
                match next {
                    RecordRun::Recording { run, .. } => {
                        &&& is_running_check(invocation_uuid@, reply, Ok(()))
                        &&& run.id.version() == 7
                        &&& run.id.variant() == 2
                        &&& recording_begins(
                            run.id,
                            workload_uuid,
                            max_runs,
                            invocation_uuid,
                            data,
                            next,
                        )
                    },
                    RecordRun::Finished(Outcome::Refused(refusal)) => is_running_check(
                        invocation_uuid@,
                        reply,
                        Err(refusal),
                    ),
                    _ => false,
                }
            },
            (RecordRun::Recording { .. }, Reply::Failed(error)) => {
                &&& next matches RecordRun::Finished(Outcome::Refused(e))
                &&& e.says(seq!["inserting run"@] + error@, StatusCode::InternalServerError)
            },
            (RecordRun::Recording { run, data }, Reply::Executed(_)) => measuring_goes_on(
                run,
                data@.reverse(),
                next,
            ),
            (RecordRun::Measuring { .. }, Reply::Failed(error)) => {
                &&& next matches RecordRun::Finished(Outcome::Refused(e))
                &&& e.says(
                    seq!["inserting data point"@] + error@,
                    StatusCode::InternalServerError,
                )
            },
            (RecordRun::Measuring { run, rest, .. }, Reply::Executed(_)) => measuring_goes_on(
                run,
                rest@,
                next,
            ),
            (RecordRun::CountingRuns { .. }, Reply::Failed(error)) => {
                &&& next matches RecordRun::Finished(Outcome::Refused(e))
                &&& e.says(
                    seq!["fetching number of runs"@] + error@,
                    StatusCode::InternalServerError,
                )
            },
            (RecordRun::CountingRuns { run }, Reply::One(row)) => next == (if row.spec_unsigned(0)
                == run.max_runs {
                RecordRun::CountingWorkloads { run }
            } else {
                RecordRun::Finished(Outcome::Answer(run.id))
            }),
            (RecordRun::CountingWorkloads { .. }, Reply::Failed(error)) => {
                &&& next matches RecordRun::Finished(Outcome::Refused(e))
                &&& e.says(
                    seq!["fetching number of workloads"@] + error@,
                    StatusCode::InternalServerError,
                )
            },
            (RecordRun::CountingWorkloads { run }, Reply::One(row)) => next == (
            RecordRun::FindingMax { run, workloads: row.spec_unsigned(0) }),
            (RecordRun::FindingMax { .. }, Reply::Failed(error)) => {
                &&& next matches RecordRun::Finished(Outcome::Refused(e))
                &&& e.says(
                    seq!["fetching max number of invocations"@] + error@,
                    StatusCode::InternalServerError,
                )
            },
            (RecordRun::FindingMax { run, workloads }, Reply::One(row)) => next == (if workloads
                == row.spec_unsigned(0) {
                RecordRun::Completing { run, status: InvocationStatus::Completed }
            } else {
                RecordRun::Finished(Outcome::Answer(run.id))
            }),
            (RecordRun::Completing { .. }, Reply::Failed(error)) => {
                &&& next matches RecordRun::Finished(Outcome::Refused(e))
                &&& e.says(
                    seq!["marking invocation as completed"@] + error@,
                    StatusCode::InternalServerError,
                )
            },
            (RecordRun::Completing { run, .. }, Reply::Executed(_)) => next == RecordRun::Finished(
                Outcome::Answer(run.id),
            ),
            _ => next == self,
        }
    }

    open spec fn distance(&self) -> (nat, nat, nat) {
        match self {
            RecordRun::Finding { .. } => (8, 0, 0),
            RecordRun::Checking { .. } => (7, 0, 0),
            RecordRun::Recording { .. } => (6, 0, 0),
            RecordRun::Measuring { rest, .. } => (5, rest@.len(), 0),
            RecordRun::CountingRuns { .. } => (4, 0, 0),
            RecordRun::CountingWorkloads { .. } => (3, 0, 0),
            RecordRun::FindingMax { .. } => (2, 0, 0),
            RecordRun::Completing { .. } => (1, 0, 0),
            RecordRun::Finished(_) => (0, 0, 0),
        }
    }

    proof fn waits_or_ended(&self) {
    }

    proof fn gets_closer(self, reply: Reply, next: Self) {
    }

    fn request(&self) -> (request: Option<Request>) {
        match self {
            RecordRun::Finding { workload_uuid, .. } => Some(
                Request::FetchOne(Query::FindWorkload { uuid: workload_uuid.clone() }),
            ),
            RecordRun::Checking { invocation_uuid, .. } => Some(
                InvocationStatus::query(invocation_uuid),
            ),
            RecordRun::Recording { run, .. } => Some(
                Request::Execute(
                    Query::InsertRun {
                        uuid: run.uuid.clone(),
                        workload_uuid: run.workload_uuid.clone(),
                    },
                ),
            ),
            RecordRun::Measuring { run, point, .. } => Some(
                Request::Execute(
                    Query::InsertData {
                        span: point.span.clone(),
                        run_uuid: run.uuid.clone(),
                        self_time: point.self_time,
                        time: point.time,
                        call_count: point.call_count,
                    },
                ),
            ),
            RecordRun::CountingRuns { run } => Some(
                Request::FetchOne(Query::CountRuns { workload_uuid: run.workload_uuid.clone() }),
            ),
            RecordRun::CountingWorkloads { run } => Some(
                Request::FetchOne(
                    Query::CountWorkloadsOf { invocation_uuid: run.invocation_uuid.clone() },
                ),
            ),
            RecordRun::FindingMax { run, .. } => Some(
                Request::FetchOne(
                    Query::MaxWorkloads { invocation_uuid: run.invocation_uuid.clone() },
                ),
            ),
            RecordRun::Completing { run, status } => Some(
                Request::Execute(
                    Query::SetStatus { status: status.clone(), uuid: run.invocation_uuid.clone() },
                ),
            ),
            RecordRun::Finished(_) => None,
        }
    }

    fn resume(self, reply: Reply) -> (next: Self) {
        match (self, reply) {
            (RecordRun::Finding { .. }, Reply::Failed(error)) => RecordRun::Finished(
                Outcome::Refused(ResponseError::internal(error, "fetching max number of runs")),
            ),
            (RecordRun::Finding { workload_uuid, data }, Reply::One(row)) => RecordRun::Checking {
                workload_uuid,
                max_runs: row.unsigned(0),
                invocation_uuid: row.text(1),
                data,
            },
            (RecordRun::Checking { workload_uuid, max_runs, invocation_uuid, data }, reply) => {
                match check_running(invocation_uuid.as_str(), reply) {
                    Ok(()) => record_run(
                        Uuid::now_v7(),
                        workload_uuid,
                        max_runs,
                        invocation_uuid,
                        data,
                    ),
                    Err(refusal) => RecordRun::Finished(Outcome::Refused(refusal)),
                }
            },
            (RecordRun::Recording { .. }, Reply::Failed(error)) => RecordRun::Finished(
                Outcome::Refused(ResponseError::internal(error, "inserting run")),
            ),
            (RecordRun::Recording { run, data }, Reply::Executed(_)) => measure(
                run,
                reversed(data),
            ),
            (RecordRun::Measuring { .. }, Reply::Failed(error)) => RecordRun::Finished(
                Outcome::Refused(ResponseError::internal(error, "inserting data point")),
            ),
            (RecordRun::Measuring { run, rest, .. }, Reply::Executed(_)) => measure(run, rest),
            (RecordRun::CountingRuns { run }, reply) => {
                match number_of_runs(reply) {
                    Ok(number_of_runs) => if number_of_runs == run.max_runs {
                        RecordRun::CountingWorkloads { run }
                    } else {
                        RecordRun::Finished(Outcome::Answer(run.id))
                    },
                    Err(error) => RecordRun::Finished(
                        Outcome::Refused(
                            ResponseError { error, code: StatusCode::InternalServerError },
                        ),
                    ),
                }
            },
            (RecordRun::CountingWorkloads { run }, reply) => {
                match number_of_workloads(reply) {
                    Ok(workloads) => RecordRun::FindingMax { run, workloads },
                    Err(error) => RecordRun::Finished(
                        Outcome::Refused(
                            ResponseError { error, code: StatusCode::InternalServerError },
                        ),
                    ),
                }
            },
            (RecordRun::FindingMax { .. }, Reply::Failed(error)) => RecordRun::Finished(
                Outcome::Refused(
                    ResponseError::internal(error, "fetching max number of invocations"),
                ),
            ),
            (RecordRun::FindingMax { run, workloads }, Reply::One(row)) => {
                if workloads == row.unsigned(0) {
                    RecordRun::Completing { run, status: InvocationStatus::Completed }
                } else {
                    RecordRun::Finished(Outcome::Answer(run.id))
                }
            },
            (RecordRun::Completing { .. }, Reply::Failed(error)) => RecordRun::Finished(
                Outcome::Refused(ResponseError::internal(error, "marking invocation as completed")),
            ),
            (RecordRun::Completing { run, .. }, Reply::Executed(_)) => RecordRun::Finished(
                Outcome::Answer(run.id),
            ),
            (flow, _) => flow,
        }
    }

    fn finish(self) -> (output: Outcome<Uuid>) {
        match self {
            RecordRun::Finished(outcome) => outcome,
            _ => vstd::pervasive::unreached(),
        }
    }
}

/// The request writes to the database.
pub open spec fn is_write(request: Request) -> bool {
    request is Execute
}

/// A run is recorded only if the invocation of its workload is running. Until that is known
/// nothing is written, and if it is not running the request is refused and nothing is written
/// at all.
pub proof fn run_needs_running_invocation(flow: RecordRun, reply: Reply, next: RecordRun)
    requires
        flow is Finding || flow is Checking,
        flow.pending() matches Some(request) && request.accepts(reply),
        flow.leads_to(reply, next),
    ensures
        flow.pending() matches Some(request) && !is_write(request),
        flow is Finding ==> next is Checking || next matches RecordRun::Finished(
            Outcome::Refused(_),
        ),
        flow is Checking ==> (next is Recording <==> shows_running(reply)),
        flow is Checking && !shows_running(reply) ==> next matches RecordRun::Finished(
            Outcome::Refused(_),
        ),
{
    crate::status::status_texts_differ();
}

/// The measurements of `data` are being recorded under `run`, and the first `done` of them are.
pub open spec fn has_measured(
    flow: RecordRun,
    run: Run,
    data: Seq<(String, CallStats)>,
    done: int,
) -> bool {
    &&& 0 <= done <= data.len()
    &&& match flow {
        RecordRun::Measuring { run: r, point, rest } => {
            &&& r == run
            &&& done < data.len()
            &&& complaint(data[done].1) is None
            &&& is_point_of(data[done].0, data[done].1, point)
            &&& rest@ == data.skip(done + 1).reverse()
        },
        RecordRun::CountingRuns { run: r } => r == run && done == data.len(),
        RecordRun::Finished(Outcome::Refused(_)) => true,
        _ => false,
    }
}

/// The measurements that are still to come, seen from the next one.
proof fn measurements_left(
    run: Run,
    data: Seq<(String, CallStats)>,
    done: int,
    next: RecordRun,
)
    requires
        0 <= done <= data.len(),
        measuring_goes_on(run, data.skip(done).reverse(), next),
    ensures
        has_measured(next, run, data, done),
        next is Finished <==> done < data.len() && complaint(data[done].1) is Some,
{
    let left = data.skip(done);
    if done < data.len() {
        assert(left.reverse().last() == left[0]);
        assert(left.reverse().drop_last() =~= data.skip(done + 1).reverse());
    } else {
        assert(left.reverse() =~= Seq::empty());
    }
}

/// The measurements of a run are recorded in the order of their spans, each once and with its
/// numbers unchanged, and the runs are counted only after all of them. The first that cannot be
/// stored stops the recording.
pub proof fn every_measurement_is_recorded(
    flow: RecordRun,
    run: Run,
    data: Vec<(String, CallStats)>,
    done: int,
    reply: Reply,
    next: RecordRun,
)
    requires
        flow == (RecordRun::Recording { run, data }) && done == -1 || flow is Measuring
            && has_measured(flow, run, data@, done),
        flow.pending() matches Some(request) && request.accepts(reply),
        flow.leads_to(reply, next),
    ensures
        reply is Executed ==> has_measured(next, run, data@, done + 1),
        reply is Executed ==> (next is Finished <==> done + 1 < data@.len() && complaint(
            data@[done + 1].1,
        ) is Some),
        reply is Failed ==> next matches RecordRun::Finished(Outcome::Refused(_)),
        flow is Measuring ==> {
            &&& flow.pending() matches Some(Request::Execute(query))
            &&& query matches Query::InsertData { span, run_uuid, self_time, time, call_count }
            &&& span == data@[done].0
            &&& run_uuid == run.uuid
            &&& self_time == data@[done].1.self_time
            &&& time == data@[done].1.time
            &&& call_count == data@[done].1.call_count
        },
{
    if reply is Executed {
        if flow is Recording {
            assert(data@.skip(0) =~= data@);
        }
        measurements_left(run, data@, done + 1, next);
    }
}

/// An invocation is marked as completed exactly when the run was the last of its workload and
/// the workload the last of its invocation; either way the run is answered for.
pub proof fn last_run_completes_invocation(
    run: Run,
    runs: Row,
    counted: RecordRun,
    workloads: Row,
    found: RecordRun,
    max_workloads: Row,
    next: RecordRun,
)
    requires
        (RecordRun::CountingRuns { run }).leads_to(Reply::One(runs), counted),
        runs.spec_unsigned(0) == run.max_runs ==> {
            &&& counted.leads_to(Reply::One(workloads), found)
            &&& found.leads_to(Reply::One(max_workloads), next)
        },
    ensures
        runs.spec_unsigned(0) != run.max_runs ==> counted == RecordRun::Finished(
            Outcome::Answer(run.id),
        ),
        runs.spec_unsigned(0) == run.max_runs ==> (workloads.spec_unsigned(0)
            == max_workloads.spec_unsigned(0) <==> next == (RecordRun::Completing {
            run,
            status: InvocationStatus::Completed,
        })),
        runs.spec_unsigned(0) == run.max_runs && workloads.spec_unsigned(0)
            != max_workloads.spec_unsigned(0) ==> next == RecordRun::Finished(
            Outcome::Answer(run.id),
        ),
{
}

/// A measurement can be stored if none of its numbers is above the largest of 63 bits.
pub open spec fn is_storable(stats: CallStats) -> bool {
    stats.self_time <= i64::MAX && stats.time <= i64::MAX && stats.call_count <= i64::MAX
}

/// A measurement is refused exactly if one of its numbers is too large to be stored.
pub proof fn only_large_measurements_are_refused(stats: CallStats)
    ensures
        complaint(stats) is Some <==> !is_storable(stats),
        stats.self_time > 0x7fff_ffff_ffff_ffff ==> complaint(stats) == Some(
            "'self_time' ("@ + decimal_text(stats.self_time as nat)
                + "ns) bigger than the allowed maximum ("@ + decimal_text(0x7fff_ffff_ffff_ffff)
                + "ns)"@,
        ),
        stats.self_time <= 0x7fff_ffff_ffff_ffff < stats.time ==> complaint(stats) == Some(
            "'time' ("@ + decimal_text(stats.time as nat) + "ns) bigger than the allowed maximum ("@
                + decimal_text(0x7fff_ffff_ffff_ffff) + "ns)"@,
        ),
        stats.self_time <= 0x7fff_ffff_ffff_ffff && stats.time <= 0x7fff_ffff_ffff_ffff
            < stats.call_count ==> complaint(stats) == Some(
            "'call_count' ("@ + decimal_text(stats.call_count as nat)
                + ") bigger than the allowed maximum ("@ + decimal_text(0x7fff_ffff_ffff_ffff)
                + ")"@,
        ),
{
}

/// What the conversation is at when the `i`th measurement is due.
proof fn measured_so_far(
    states: Seq<RecordRun>,
    replies: Seq<Reply>,
    run: Run,
    data: Vec<(String, CallStats)>,
    i: int,
)
    requires
        is_talk(states, replies),
        states.len() > 3 + i,
        0 <= i <= data@.len(),
        states[2] == (RecordRun::Recording { run, data }),
    ensures
        has_measured(states[3 + i], run, data@, i),
        replies[2 + i] is Executed || replies[2 + i] is Failed,
        states[3 + i] is Finished <==> replies[2 + i] is Failed || i < data@.len() && complaint(
            data@[i].1,
        ) is Some,
    decreases i,
{
    assert(went_on(states, replies, 2 + i));
    if i > 0 {
        measured_so_far(states, replies, run, data, i - 1);
    }
    every_measurement_is_recorded(
        states[2 + i],
        run,
        data,
        i - 1,
        replies[2 + i],
        states[3 + i],
    );
}

/// Before anything is recorded, the workload that the request names is looked up, and then the
/// status of the invocation that it belongs to. The run is recorded for that workload exactly if
/// that invocation is running.
pub proof fn run_is_recorded_for_its_workload(
    run: NewRun,
    states: Seq<RecordRun>,
    replies: Seq<Reply>,
)
    requires
        is_talk(states, replies),
        run_begins(run, states[0]),
    ensures
        states[0].pending() matches Some(Request::FetchOne(Query::FindWorkload { uuid })) && uuid@
            == uuid_text(run.workload_uuid.bits),
        states.len() > 1 ==> match replies[0] {
            Reply::Failed(error) => states[1].result() matches Some(Outcome::Refused(e)) && e.says(
                seq!["fetching max number of runs"@] + error@,
                StatusCode::InternalServerError,
            ),
            Reply::One(workload) => {
                &&& states[1].pending() matches Some(
                    Request::FetchOptional(Query::InvocationStatus { uuid }),
                )
                &&& workload.cells@[1] == Value::Text(uuid)
            },
            _ => false,
        },
        states.len() > 2 ==> match replies[1] {
            Reply::Failed(error) => states[2].result() matches Some(Outcome::Refused(e)) && e.says(
                seq!["fetching invocation status"@] + error@,
                StatusCode::InternalServerError,
            ),
            Reply::Optional(None) => {
                &&& states[2].result() matches Some(Outcome::Refused(e))
                &&& e.says(
                    seq![
                        "invocation '"@ + replies[0]->One_0.cells@[1]->Text_0@ + "' not found"@,
                    ],
                    StatusCode::NotFound,
                )
            },
            Reply::Optional(Some(row)) => {
                &&& row.cells@[0] matches Value::Text(text)
                &&& text@ == "running"@ <==> states[2].pending() is Some
                &&& text@ == "failed"@ || text@ == "completed"@ || text@ == "canceled"@ || text@
                    == "timeout"@ ==> {
                    &&& states[2].result() matches Some(Outcome::Refused(e))
                    &&& e.says(
                        seq![
                            "invocation '"@ + replies[0]->One_0.cells@[1]->Text_0@
                                + "' is not running"@,
                        ],
                        StatusCode::BadRequest,
                    )
                }
            },
            _ => false,
        },
        states.len() > 2 && states[2].pending() is Some ==> {
            &&& states[2].pending() matches Some(
                Request::Execute(Query::InsertRun { uuid, workload_uuid }),
            )
            &&& workload_uuid@ == uuid_text(run.workload_uuid.bits)
        },
{
    crate::status::status_texts_differ();
    if replies.len() > 0 {
        assert(went_on(states, replies, 0));
    }
    if replies.len() > 1 {
        assert(went_on(states, replies, 1));
    }
}

/// The identifier under which a conversation records a run.
pub open spec fn recorded_under(states: Seq<RecordRun>) -> String {
    states[2].pending()->Some_0->Execute_0->InsertRun_uuid
}

/// Every measurement of a run is recorded under the identifier of the run, in the order of the
/// spans and with the numbers that the request gives. The first that is too large is refused, and
/// ends the recording.
pub proof fn measurements_are_recorded_as_given(
    run: NewRun,
    states: Seq<RecordRun>,
    replies: Seq<Reply>,
    i: int,
)
    requires
        is_talk(states, replies),
        run_begins(run, states[0]),
        0 <= i < run.data@.len(),
        states.len() > 3 + i,
    ensures
        replies[2 + i] is Executed && is_storable(run.data@[i].1) ==> {
            &&& states[3 + i].pending() matches Some(
                Request::Execute(Query::InsertData { span, run_uuid, self_time, time, call_count }),
            )
            &&& span == run.data@[i].0
            &&& run_uuid == recorded_under(states)
            &&& self_time == run.data@[i].1.self_time
            &&& time == run.data@[i].1.time
            &&& call_count == run.data@[i].1.call_count
        },
        replies[2 + i] is Executed && !is_storable(run.data@[i].1) ==> {
            &&& states[3 + i].result() matches Some(Outcome::Refused(e))
            &&& e.says(
                seq![
                    complaint(run.data@[i].1)->Some_0,
                    "out of range integral type conversion attempted"@,
                ],
                StatusCode::BadRequest,
            )
        },
        replies[2 + i] matches Reply::Failed(error) ==> {
            &&& states[3 + i].result() matches Some(Outcome::Refused(e))
            &&& e.says(
                seq![
                    if i == 0 {
                        "inserting run"@
                    } else {
                        "inserting data point"@
                    },
                ] + error@,
                StatusCode::InternalServerError,
            )
        },
{
    crate::status::status_texts_differ();
    assert(went_on(states, replies, 0));
    assert(went_on(states, replies, 1));
    assert(went_on(states, replies, 2));
    assert(went_on(states, replies, 2 + i));
    match states[2] {
        RecordRun::Recording { run: recorded, data } => {
            measured_so_far(states, replies, recorded, data, i);
            if i > 0 {
                measured_so_far(states, replies, recorded, data, i - 1);
            }
            only_large_measurements_are_refused(run.data@[i].1);
            let ahead = data@.skip(i).reverse();
            if i == 0 {
                assert(data@.skip(0) =~= data@);
            }
            if i < data@.len() {
                assert(ahead.last() == data@.skip(i)[0]);
            }
        },
        _ => {},
    }
}

/// Once all measurements are recorded, the runs of the workload are counted. If there are as many
/// as it was to have, the workloads of its invocation are counted, and their number is looked up
/// for the same invocation; and if there are as many as that, this invocation is marked as
/// completed. Whatever is found, the request is answered with the identifier of the run.
pub proof fn invocation_completes_with_its_last_run(
    run: NewRun,
    states: Seq<RecordRun>,
    replies: Seq<Reply>,
)
    requires
        is_talk(states, replies),
        run_begins(run, states[0]),
        states.len() > 3 + run.data@.len(),
        replies[2 + run.data@.len() as int] is Executed,
    ensures
        ({
            let n = 3 + run.data@.len() as int;
            &&& replies.len() <= n + 4
            &&& replies[0] matches Reply::One(workload)
            &&& workload.cells@[0] matches Value::Unsigned(max_runs)
            &&& workload.cells@[1] matches Value::Text(invocation)
            &&& states[n].pending() matches Some(
                Request::FetchOne(Query::CountRuns { workload_uuid }),
            )
            &&& workload_uuid@ == uuid_text(run.workload_uuid.bits)
            &&& states.len() > n + 1 ==> (replies[n] matches Reply::One(row) ==> {
                &&& row.cells@[0] matches Value::Unsigned(runs)
                &&& runs == max_runs ==> states[n + 1].pending() == Some(
                    Request::FetchOne(Query::CountWorkloadsOf { invocation_uuid: invocation }),
                )
                &&& runs != max_runs ==> states[n + 1].pending() is None
            })
            &&& states.len() > n + 2 ==> (replies[n + 1] is One ==> states[n + 2].pending() == Some(
                Request::FetchOne(Query::MaxWorkloads { invocation_uuid: invocation }),
            ))
            &&& states.len() > n + 3 ==> (replies[n + 2] matches Reply::One(row) ==> {
                &&& row.cells@[0] matches Value::Unsigned(max_workloads)
                &&& replies[n + 1] matches Reply::One(count)
                &&& count.cells@[0] matches Value::Unsigned(workloads)
                &&& workloads == max_workloads ==> {
                    &&& states[n + 3].pending() matches Some(
                        Request::Execute(Query::SetStatus { status, uuid }),
                    )
                    &&& status is Completed
                    &&& uuid == invocation
                }
                &&& workloads != max_workloads ==> states[n + 3].pending() is None
            })
            &&& states.last().pending() is None && !(replies.last() is Failed) ==> {
                &&& states.last().result() matches Some(Outcome::Answer(id))
                &&& recorded_under(states)@ == uuid_text(id.bits)
            }
            &&& replies.len() > n ==> (replies.last() matches Reply::Failed(error) ==> {
                &&& states.last().result() matches Some(Outcome::Refused(e))
                &&& e.says(
                    seq![
                        if replies.len() == n + 1 {
                            "fetching number of runs"@
                        } else if replies.len() == n + 2 {
                            "fetching number of workloads"@
                        } else if replies.len() == n + 3 {
                            "fetching max number of invocations"@
                        } else {
                            "marking invocation as completed"@
                        },
                    ] + error@,
                    StatusCode::InternalServerError,
                )
            })
        }),
{
    crate::status::status_texts_differ();
    let n = 3 + run.data@.len() as int;
    assert(went_on(states, replies, 0));
    assert(went_on(states, replies, 1));
    assert(went_on(states, replies, 2));
    match states[2] {
        RecordRun::Recording { run: recorded, data } => {
            measured_so_far(states, replies, recorded, data, data@.len() as int);
        },
        _ => {},
    }
    if replies.len() > n {
        assert(went_on(states, replies, n));
    }
    if replies.len() > n + 1 {
        assert(went_on(states, replies, n + 1));
    }
    if replies.len() > n + 2 {
        assert(went_on(states, replies, n + 2));
    }
    if replies.len() > n + 3 {
        assert(went_on(states, replies, n + 3));
    }
    if replies.len() > n + 4 {
        assert(went_on(states, replies, n + 4));
    }
}

} // verus!
