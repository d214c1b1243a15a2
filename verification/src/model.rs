//! What is recorded: machines, commits, invocations, workloads, runs and their measurements.

use crate::dates::{CommitDate, Duration};
use crate::ids::Uuid;
use crate::span_map::SpanMap;
use crate::status::InvocationStatus;
use vstd::prelude::*;

verus! {

/// A request to record a machine.
pub struct NewMachine {
    pub hostname: String,
}

/// A machine on which workloads run.
pub struct Machine {
    pub hostname: String,
}

/// A commit that is measured.
pub struct NewCommit {
    pub sha1: String,
    pub tag: Option<String>,
    pub branch: Option<String>,
    pub commit_date: CommitDate,
    pub message: String,
}

/// A request to start an invocation.
pub struct NewInvocation {
    pub commit: NewCommit,
    pub machine_hostname: String,
    pub max_workloads: u32,
    pub reason: Option<String>,
    pub timeout: Option<Duration>,
}

/// A request to stop an invocation: with a reason it failed, without one it was canceled.
pub struct InvocationCancelRequest {
    pub invocation_uuid: Uuid,
    pub failure_reason: Option<String>,
}

/// A number of workloads that is run on one commit.
pub struct Invocation {
    pub uuid: Uuid,
    pub commit_sha1: String,
    pub machine_hostname: String,
    pub reason: Option<String>,
    pub branch: Option<String>,
    pub tag: Option<String>,
    pub status: InvocationStatus,
    pub progress: Option<InvocationProgress>,
}

/// How far a running invocation has come.
pub struct InvocationProgress {
    pub current_workload: Option<String>,
    pub completed_runs: u32,
    pub max_runs: u32,
    pub completed_workloads: u32,
    pub max_workloads: u32,
}

impl InvocationProgress {
    /// The runs that are done, each workload taken to have as many as the current one.
    pub open spec fn runs_done(&self) -> int {
        self.completed_workloads * self.max_runs + self.completed_runs
    }

    /// The runs that there will be.
    pub open spec fn runs_in_all(&self) -> int {
        self.max_workloads * self.max_runs
    }

    /// The share of the work that is done, in percent, rounded down. It goes by runs, or by
    /// workloads as long as the number of runs is not known.
    pub open spec fn percent(&self) -> int {
        if self.max_workloads == 0 {
            0
        } else if self.max_runs == 0 {
            (self.completed_workloads * 100) / (self.max_workloads as int)
        } else {
            (self.runs_done() * 100) / self.runs_in_all()
        }
    }

    /// The numbers that the share is computed from fit in 32 bits.
    pub open spec fn percent_fits(&self) -> bool {
        ||| self.max_workloads == 0
        ||| self.max_runs == 0 && self.completed_workloads * 100 <= u32::MAX
        ||| self.max_runs > 0 && self.runs_done() * 100 <= u32::MAX && self.runs_in_all()
            <= u32::MAX
    }

    /// Tells whether the numbers that the share is computed from fit in 32 bits.
    pub fn has_percent(&self) -> (fits: bool)
        ensures
            fits == self.percent_fits(),
    {
        if self.max_workloads == 0 {
            return true;
        }
        if self.max_runs == 0 {
            return self.completed_workloads.checked_mul(100).is_some();
        }
        proof {
            let (done, of, runs) = (
                self.completed_workloads as int,
                self.max_workloads as int,
                self.max_runs as int,
            );
            assert(done * runs >= 0 && of * runs >= 0) by (nonlinear_arith)
                requires
                    done >= 0,
                    of >= 0,
                    runs > 0,
            ;
        }
        if self.max_workloads.checked_mul(self.max_runs).is_none() {
            return false;
        }
        match self.completed_workloads.checked_mul(self.max_runs) {
            Some(runs) => match runs.checked_add(self.completed_runs) {
                Some(done) => done.checked_mul(100).is_some(),
                None => false,
            },
            None => false,
        }
    }

    /// The share of the work that is done, in percent, rounded down.
    pub fn as_percent(&self) -> (percent: u32)
        requires
            self.percent_fits(),
        ensures
            percent == self.percent(),
    {
        if self.max_workloads == 0 {
            return 0;
        }
        if self.max_runs == 0 {
            (self.completed_workloads * 100) / self.max_workloads
        } else {
            proof {
                let (done, of, runs) = (
                    self.completed_workloads as int,
                    self.max_workloads as int,
                    self.max_runs as int,
                );
                assert(done * runs >= 0) by (nonlinear_arith)
                    requires
                        done >= 0,
                        runs > 0,
                ;
                assert(of * runs > 0) by (nonlinear_arith)
                    requires
                        of > 0,
                        runs > 0,
                ;
            }
            let completed_runs = self.completed_workloads * self.max_runs + self.completed_runs;
            let total_runs = self.max_workloads * self.max_runs;
            (completed_runs * 100) / total_runs
        }
    }
}

/// An invocation that has not done more than it was to do is at most at 100 percent, and it is
/// there only when every run of every workload is done.
pub proof fn percent_is_a_share(progress: InvocationProgress)
    requires
        progress.max_workloads > 0,
        progress.max_runs > 0,
        progress.completed_workloads < progress.max_workloads,
        progress.completed_runs <= progress.max_runs,
    ensures
        0 <= progress.percent() <= 100,
        progress.percent() == 100 <==> progress.completed_runs == progress.max_runs
            && progress.completed_workloads + 1 == progress.max_workloads,
{
    let done = progress.runs_done();
    let all = progress.runs_in_all();
    let (w, m, r, k) = (
        progress.completed_workloads as int,
        progress.max_workloads as int,
        progress.max_runs as int,
        progress.completed_runs as int,
    );
    assert(0 <= w * r && 0 < m * r) by (nonlinear_arith)
        requires
            w >= 0,
            m > 0,
            r > 0,
    ;
    assert(w * r + r <= m * r) by (nonlinear_arith)
        requires
            w + 1 <= m,
            r > 0,
    ;
    assert(w + 1 < m ==> w * r + r < m * r) by (nonlinear_arith)
        requires
            r > 0,
    ;
    assert(w + 1 == m ==> w * r + r == m * r) by (nonlinear_arith);
    assert(0 <= done <= all);
    assert(0 <= (done * 100) / all <= 100) by (nonlinear_arith)
        requires
            0 <= done <= all,
            all > 0,
    ;
    assert((done * 100) / all == 100 <==> done == all) by (nonlinear_arith)
        requires
            0 <= done <= all,
            all > 0,
    ;
}

/// More finished runs never mean a smaller share.
pub proof fn percent_grows(before: InvocationProgress, after: InvocationProgress)
    requires
        before.max_workloads == after.max_workloads,
        before.max_runs == after.max_runs,
        before.completed_workloads <= after.completed_workloads,
        before.max_runs > 0 ==> before.runs_done() <= after.runs_done(),
    ensures
        before.percent() <= after.percent(),
{
    if before.max_workloads > 0 {
        if before.max_runs == 0 {
            let (a, b, m) = (
                before.completed_workloads * 100,
                after.completed_workloads * 100,
                before.max_workloads as int,
            );
            assert(a / m <= b / m) by (nonlinear_arith)
                requires
                    a <= b,
                    m > 0,
            ;
        } else {
            let (a, b, m) = (
                before.runs_done() * 100,
                after.runs_done() * 100,
                before.runs_in_all(),
            );
            let (x, y) = (before.max_workloads as int, before.max_runs as int);
            assert(x * y > 0) by (nonlinear_arith)
                requires
                    x > 0,
                    y > 0,
            ;
            assert(a / m <= b / m) by (nonlinear_arith)
                requires
                    a <= b,
                    m > 0,
            ;
        }
    }
}

/// A request to start a workload of an invocation.
pub struct NewWorkload {
    pub invocation_uuid: Uuid,
    pub name: String,
    pub max_runs: u32,
}

/// A workload of an invocation.
pub struct Workload {
    pub uuid: Uuid,
    pub invocation_uuid: Uuid,
    pub name: String,
}

/// The measurements of one run of a workload, by span.
pub struct NewRun {
    pub workload_uuid: Uuid,
    pub data: SpanMap<CallStats>,
}

/// What was measured of one span in one run. Times are in nanoseconds.
#[derive(Debug, Clone, Copy, PartialEq, Eq, Structural)]
pub struct CallStats {
    pub time: u64,
    pub call_count: u64,
    pub self_time: u64,
}

/// The sum of the times.
pub open spec fn total_time(stats: Seq<CallStats>) -> nat
    decreases stats.len(),
{
    if stats.len() == 0 {
        0
    } else {
        total_time(stats.drop_last()) + stats.last().time as nat
    }
}

/// The sum of the times of a part is no more than the sum of all.
proof fn total_time_grows(stats: Seq<CallStats>, n: int)
    requires
        0 <= n <= stats.len(),
    ensures
        total_time(stats.take(n)) <= total_time(stats),
    decreases stats.len(),
{
    if n < stats.len() {
        total_time_grows(stats.drop_last(), n);
        assert(stats.drop_last().take(n) =~= stats.take(n));
    } else {
        assert(stats.take(n) =~= stats);
    }
}

impl CallStats {
    /// The mean of the times, rounded down; there is none of an empty list.
    pub open spec fn mean_time(stats: Seq<CallStats>) -> Option<nat> {
        if stats.len() == 0 {
            None
        } else {
            Some(total_time(stats) / stats.len())
        }
    }

    /// The mean of the times, rounded down; there is none of an empty list.
    pub fn avg_time(stats: &[CallStats]) -> (mean: Option<u64>)
        requires
            total_time(stats@) <= u64::MAX,
        ensures
            match mean {
                Some(m) => CallStats::mean_time(stats@) == Some(m as nat),
                None => CallStats::mean_time(stats@) is None,
            },
    {
        if stats.len() == 0 {
            return None;
        }
        let mut sum: u64 = 0;
        let mut i: usize = 0;
        assert(stats@.take(0) =~= Seq::<CallStats>::empty());
        while i < stats.len()
            invariant
                i <= stats@.len(),
                sum == total_time(stats@.take(i as int)),
                total_time(stats@) <= u64::MAX,
            decreases stats.len() - i,
        {
            proof {
                assert(stats@.take(i + 1).drop_last() =~= stats@.take(i as int));
                total_time_grows(stats@, i + 1);
            }
            sum = sum + stats[i].time;
            i += 1;
        }
        assert(stats@.take(i as int) =~= stats@);
        Some(sum / stats.len() as u64)
    }
}

impl CallStats {
    /// Tells whether the sum of the times fits in 64 bits.
    pub fn sum_fits(stats: &[CallStats]) -> (fits: bool)
        ensures
            fits == (total_time(stats@) <= u64::MAX),
    {
        let mut sum: u64 = 0;
        let mut i: usize = 0;
        assert(stats@.take(0) =~= Seq::<CallStats>::empty());
        while i < stats.len()
            invariant
                i <= stats@.len(),
                sum == total_time(stats@.take(i as int)),
            decreases stats.len() - i,
        {
            proof {
                assert(stats@.take(i + 1).drop_last() =~= stats@.take(i as int));
                total_time_grows(stats@, i + 1);
            }
            match sum.checked_add(stats[i].time) {
                Some(next) => {
                    sum = next;
                },
                None => {
                    return false;
                },
            }
            i += 1;
        }
        assert(stats@.take(i as int) =~= stats@);
        true
    }
}

/// The sum of times that all lie between two bounds.
proof fn total_time_between(stats: Seq<CallStats>, low: nat, high: nat)
    requires
        forall|i: int| 0 <= i < stats.len() ==> low <= (#[trigger] stats[i]).time <= high,
    ensures
        low * stats.len() <= total_time(stats) <= high * stats.len(),
    decreases stats.len(),
{
    if stats.len() > 0 {
        total_time_between(stats.drop_last(), low, high);
        let n = stats.len();
        assert(low * n == low * (n - 1) + low) by (nonlinear_arith)
            requires
                n > 0,
        ;
        assert(high * n == high * (n - 1) + high) by (nonlinear_arith)
            requires
                n > 0,
        ;
        assert(low <= stats[n - 1].time <= high);
    }
}

/// The mean of a list of times lies between the smallest and the largest of them.
pub proof fn mean_is_between(stats: Seq<CallStats>, low: nat, high: nat)
    requires
        stats.len() > 0,
        forall|i: int| 0 <= i < stats.len() ==> low <= (#[trigger] stats[i]).time <= high,
    ensures
        CallStats::mean_time(stats) matches Some(m) && low <= m <= high,
{
    total_time_between(stats, low, high);
    let (sum, n) = (total_time(stats), stats.len());
    assert(low <= sum / n <= high) by (nonlinear_arith)
        requires
            n > 0,
            low * n <= sum <= high * n,
    ;
}

/// Which part of a long list is asked for.
pub struct Pagination {
    pub offset: Option<u32>,
    pub limit: Option<u32>,
}

impl Pagination {
    /// The number of results: 20 unless the request says otherwise.
    pub open spec fn spec_limit(&self) -> u32 {
        match self.limit {
            Some(limit) => limit,
            None => 20,
        }
    }

    /// The number of results that are passed over: none unless the request says otherwise.
    pub open spec fn spec_offset(&self) -> u32 {
        match self.offset {
            Some(offset) => offset,
            None => 0,
        }
    }

    /// The number of results.
    pub fn limit(&self) -> (limit: u32)
        ensures
            limit == self.spec_limit(),
    {
        match self.limit {
            Some(limit) => limit,
            None => 20,
        }
    }

    /// The number of results that are passed over.
    pub fn offset(&self) -> (offset: u32)
        ensures
            offset == self.spec_offset(),
    {
        match self.offset {
            Some(offset) => offset,
            None => 0,
        }
    }
}

/// A part of a list, and the length of the whole.
pub struct PaginatedResults<T> {
    pub results: Vec<T>,
    pub total_count: u64,
}

/// A request that does not say so passes over nothing and gets twenty results.
pub proof fn part_is_what_the_request_says(pagination: Pagination)
    ensures
        pagination.limit matches Some(limit) ==> pagination.spec_limit() == limit,
        pagination.limit is None ==> pagination.spec_limit() == 20,
        pagination.offset matches Some(offset) ==> pagination.spec_offset() == offset,
        pagination.offset is None ==> pagination.spec_offset() == 0,
{
}

/// The share is the largest whole number of percent that does not exceed what is done: of the runs,
/// those of the workloads that are done and of the current one; or of the workloads, as long as the
/// number of runs is not known. Nothing is done of no workloads.
pub proof fn percent_is_rounded_down(progress: InvocationProgress)
    ensures
        progress.max_workloads == 0 ==> progress.percent() == 0,
        progress.max_workloads > 0 && progress.max_runs == 0 ==> progress.percent()
            * progress.max_workloads <= 100 * progress.completed_workloads < (progress.percent()
            + 1) * progress.max_workloads,
        progress.max_workloads > 0 && progress.max_runs > 0 ==> {
            let all = progress.max_workloads * progress.max_runs;
            let done = progress.completed_workloads * progress.max_runs + progress.completed_runs;
            progress.percent() * all <= 100 * done < (progress.percent() + 1) * all
        },
{
    let all = progress.max_workloads * progress.max_runs;
    let done = progress.completed_workloads * progress.max_runs + progress.completed_runs;
    if progress.max_workloads > 0 {
        let (part, whole) = if progress.max_runs == 0 {
            (100 * progress.completed_workloads, progress.max_workloads as int)
        } else {
            (100 * done, all)
        };
        if progress.max_runs > 0 {
            let (x, y) = (progress.max_workloads as int, progress.max_runs as int);
            assert(x * y > 0) by (nonlinear_arith)
                requires
                    x > 0,
                    y > 0,
            ;
        }
        let percent = progress.percent();
        assert(percent == part / whole);
        vstd::arithmetic::div_mod::lemma_fundamental_div_mod(part, whole);
        assert(percent * whole <= part < (percent + 1) * whole) by (nonlinear_arith)
            requires
                whole > 0,
                part == whole * percent + part % whole,
                0 <= part % whole < whole,
        ;
    }
}

/// The share can be computed if neither the hundredfold of what is done nor what there is to do
/// takes more than 32 bits.
pub proof fn percent_fits_32_bits(progress: InvocationProgress)
    ensures
        progress.max_workloads == 0 ==> progress.percent_fits(),
        progress.max_workloads > 0 && progress.max_runs == 0 ==> (progress.percent_fits() <==> 100
            * progress.completed_workloads <= 0xffff_ffff),
        progress.max_workloads > 0 && progress.max_runs > 0 ==> {
            let all = progress.max_workloads * progress.max_runs;
            let done = progress.completed_workloads * progress.max_runs + progress.completed_runs;
            progress.percent_fits() <==> 100 * done <= 0xffff_ffff && all <= 0xffff_ffff
        },
{
}

/// The sum of the times is a fold.
proof fn total_is_folded(stats: Seq<CallStats>, plus: spec_fn(nat, CallStats) -> nat)
    requires
        forall|sum: nat, measured: CallStats| #[trigger]
            plus(sum, measured) == sum + measured.time,
    ensures
        total_time(stats) == stats.fold_left(0nat, plus),
    decreases stats.len(),
{
    if stats.len() > 0 {
        total_is_folded(stats.drop_last(), plus);
    }
}

/// The mean time is what the times come to, divided by how many there are and rounded down. There
/// is none of no times.
pub proof fn times_are_averaged(stats: Seq<CallStats>)
    ensures
        ({
            let sum = stats.fold_left(
                0nat,
                |sum: nat, measured: CallStats| (sum + measured.time) as nat,
            );
            &&& total_time(stats) == sum
            &&& CallStats::mean_time(stats) is None <==> stats.len() == 0
            &&& CallStats::mean_time(stats) matches Some(mean) ==> mean * stats.len() <= sum < (mean
                + 1) * stats.len()
        }),
{
    total_is_folded(stats, |sum: nat, measured: CallStats| (sum + measured.time) as nat);
    let (sum, n) = (total_time(stats) as int, stats.len() as int);
    if n > 0 {
        vstd::arithmetic::div_mod::lemma_fundamental_div_mod(sum, n);
        let mean = sum / n;
        assert(mean * n <= sum < (mean + 1) * n) by (nonlinear_arith)
            requires
                n > 0,
                sum == n * mean + sum % n,
                0 <= sum % n < n,
        ;
    }
}

} // verus!
