//! The home page: the latest workloads, each compared with an earlier commit, and how far the
//! latest invocations have come.

use crate::commits::{
    branch_search, data_for_commit, grouped, is_fetch_error, latest_commits_for_branch,
    latest_commits_for_worfklow, BranchCommits,
};
use crate::error::{Outcome, ResponseError};
use crate::flow::{rows_fit, Flow, Reply, Request};
use crate::listing::{latest_invocation_progress, LatestProgress};
use crate::lists::reversed;
use crate::model::{CallStats, Invocation};
use crate::query::{Query, Row, Value};
use crate::span_map::SpanMap;
use crate::text::same_text;
use vstd::prelude::*;

verus! {

/// The number of completed workloads that are looked at.
pub const LATEST: u32 = 40;

/// The number of invocations whose progress is shown.
pub const SHOWN_INVOCATIONS: u32 = 8;

/// A list of workloads on the main branch takes no more once it is longer than this.
pub const WORKLOAD_ON_MAIN: usize = 5;

/// The list of the other workloads takes no more once it is longer than this.
pub const RECENT_WORKLOADS: usize = 15;

/// A workload of a completed invocation.
pub struct WorkloadDescription {
    pub workload_name: String,
    pub commit_sha1: String,
    pub commit_message: String,
    pub branch: Option<String>,
    pub reason: Option<String>,
}

impl WorkloadDescription {
    /// The workload ran on the main branch.
    pub open spec fn is_on_main(&self) -> bool {
        self.branch matches Some(branch) && branch@ == "main"@
    }

    /// Tells whether the workload ran on the main branch.
    fn on_main(&self) -> (main: bool)
        ensures
            main == self.is_on_main(),
    {
        match &self.branch {
            Some(branch) => same_text(branch.as_str(), "main"),
            None => false,
        }
    }
}

/// The workload that a row names.
pub open spec fn description_of(row: Row) -> WorkloadDescription {
    WorkloadDescription {
        workload_name: row.spec_text(0),
        commit_sha1: row.spec_text(1),
        commit_message: row.spec_text(2),
        branch: row.spec_optional_text(4),
        reason: row.spec_optional_text(3),
    }
}

/// The workloads that the rows name, in the same order.
pub open spec fn descriptions_of(rows: Seq<Row>) -> Seq<WorkloadDescription> {
    rows.map_values(|row: Row| description_of(row))
}

/// Reads the workloads from the rows of a result.
fn read_descriptions(rows: Vec<Row>) -> (descriptions: Vec<WorkloadDescription>)
    requires
        rows_fit(rows@, (Query::LatestCompleted { count: 0 }).spec_columns()),
    ensures
        descriptions@ == descriptions_of(rows@),
{
    let mut descriptions: Vec<WorkloadDescription> = Vec::new();
    let mut i: usize = 0;
    while i < rows.len()
        invariant
            i <= rows.len(),
            rows_fit(rows@, (Query::LatestCompleted { count: 0 }).spec_columns()),
            descriptions@ == descriptions_of(rows@.take(i as int)),
        decreases rows.len() - i,
    {
        let row = &rows[i];
        assert(rows@[i as int].fits((Query::LatestCompleted { count: 0 }).spec_columns()));
        descriptions.push(
            WorkloadDescription {
                workload_name: row.text(0),
                commit_sha1: row.text(1),
                commit_message: row.text(2),
                branch: row.optional_text(4),
                reason: row.optional_text(3),
            },
        );
        i += 1;
        assert(descriptions@ =~= descriptions_of(rows@.take(i as int)));
    }
    assert(rows@.take(i as int) =~= rows@);
    descriptions
}

/// Reads the workloads from the reply to the question for those that completed last.
pub fn latest_completed_invocations(reply: Reply) -> (latest: Result<
    Vec<WorkloadDescription>,
    ResponseError,
>)
    requires
        match reply {
            Reply::Failed(_) => true,
            Reply::All(rows) => rows_fit(
                rows@,
                (Query::LatestCompleted { count: 0 }).spec_columns(),
            ),
            _ => false,
        },
    ensures
        match latest {
            Ok(list) => reply matches Reply::All(rows) && list@ == descriptions_of(rows@),
            Err(refusal) => is_fetch_error(reply, "fetching latest invocations"@, refusal),
        },
{
    match reply {
        Reply::Failed(error) => Err(ResponseError::internal(error, "fetching latest invocations")),
        Reply::All(rows) => Ok(read_descriptions(rows)),
        _ => vstd::pervasive::unreached(),
    }
}

/// A workload with what was measured on its commit and on the one that it is compared with.
pub struct WorkloadData {
    pub description: WorkloadDescription,
    pub target: SpanMap<Vec<CallStats>>,
    pub baseline: Option<(String, SpanMap<Vec<CallStats>>)>,
}

/// The workloads that the page shows.
pub struct HomeLists {
    pub workloads_on_main: Vec<WorkloadData>,
    pub recent_workloads: Vec<WorkloadData>,
}

impl HomeLists {
    /// The list of the workloads on the main branch takes no more.
    pub open spec fn main_is_full(&self) -> bool {
        self.workloads_on_main@.len() > WORKLOAD_ON_MAIN
    }

    /// The list of the other workloads takes no more.
    pub open spec fn recent_is_full(&self) -> bool {
        self.recent_workloads@.len() > RECENT_WORKLOADS
    }

    /// The list that a workload belongs to takes no more.
    pub open spec fn is_full_for(&self, workload: WorkloadDescription) -> bool {
        if workload.is_on_main() {
            self.main_is_full()
        } else {
            self.recent_is_full()
        }
    }

    /// `longer` is these lists with `workload` at the end of the list that it belongs to.
    pub open spec fn grows_by(&self, workload: WorkloadData, longer: HomeLists) -> bool {
        if workload.description.is_on_main() {
            &&& longer.workloads_on_main@ == self.workloads_on_main@.push(workload)
            &&& longer.recent_workloads == self.recent_workloads
        } else {
            &&& longer.workloads_on_main == self.workloads_on_main
            &&& longer.recent_workloads@ == self.recent_workloads@.push(workload)
        }
    }

    /// Adds a workload to the list that it belongs to.
    fn add(self, workload: WorkloadData) -> (longer: HomeLists)
        ensures
            self.grows_by(workload, longer),
    {
        let mut lists = self;
        if workload.description.on_main() {
            lists.workloads_on_main.push(workload);
        } else {
            lists.recent_workloads.push(workload);
        }
        lists
    }
}

/// What the home page shows, before it is compared.
pub struct HomeData {
    pub latest_invocation_progress: Vec<Invocation>,
    pub lists: HomeLists,
}

/// Loading what the home page shows. The workloads in `rest` are to come, the next one last.
#[allow(inconsistent_fields)]
pub enum Home {
    Listing,
    Between { rest: Vec<WorkloadDescription>, lists: HomeLists },
    /// A workload on the main branch: the commit before its own on that branch is looked up.
    SearchingMain {
        rest: Vec<WorkloadDescription>,
        lists: HomeLists,
        workload: WorkloadDescription,
        search: BranchCommits,
    },
    /// Another workload: the latest other commit is looked up.
    SearchingLatest {
        rest: Vec<WorkloadDescription>,
        lists: HomeLists,
        workload: WorkloadDescription,
    },
    LoadingTarget {
        rest: Vec<WorkloadDescription>,
        lists: HomeLists,
        workload: WorkloadDescription,
        baseline: Option<String>,
    },
    LoadingBaseline {
        rest: Vec<WorkloadDescription>,
        lists: HomeLists,
        workload: WorkloadDescription,
        baseline: String,
        target: SpanMap<Vec<CallStats>>,
    },
    Progressing { lists: HomeLists, progress: LatestProgress },
    Finished(Outcome<HomeData>),
}

/// How the loading of the page begins.
pub open spec fn home_starts(flow: Home) -> bool {
    flow == Home::Listing
}

/// Loads what the home page shows.
pub fn home() -> (flow: Home)
    ensures
        home_starts(flow),
{
    Home::Listing
}

/// How the flow goes on when the workloads in `rest` are to come: the next one is passed over if
/// its list is full, and none is taken once both lists are.
pub open spec fn goes_on(rest: Seq<WorkloadDescription>, lists: HomeLists, next: Home) -> bool {
    if rest.len() == 0 || lists.main_is_full() && lists.recent_is_full() {
        next == (Home::Progressing {
            lists,
            progress: LatestProgress::Listing { count: SHOWN_INVOCATIONS },
        })
    } else if lists.is_full_for(rest.last()) {
        &&& next matches Home::Between { rest: r, lists: l }
        &&& r@ == rest.drop_last()
        &&& l == lists
    } else if rest.last().is_on_main() {
        &&& next matches Home::SearchingMain { rest: r, lists: l, workload, search }
        &&& r@ == rest.drop_last()
        &&& l == lists
        &&& workload == rest.last()
        &&& search == branch_search(
            workload.branch->Some_0,
            1,
            Some(workload.commit_sha1),
            workload.workload_name,
        )
    } else {
        &&& next matches Home::SearchingLatest { rest: r, lists: l, workload }
        &&& r@ == rest.drop_last()
        &&& l == lists
        &&& workload == rest.last()
    }
}

/// Goes on with the workloads in `rest`, the next one last.
fn go_on(rest: Vec<WorkloadDescription>, lists: HomeLists) -> (next: Home)
    ensures
        goes_on(rest@, lists, next),
{
    let main_is_full = lists.workloads_on_main.len() > WORKLOAD_ON_MAIN;
    let recent_is_full = lists.recent_workloads.len() > RECENT_WORKLOADS;
    if rest.len() == 0 || main_is_full && recent_is_full {
        return Home::Progressing {
            lists,
            progress: latest_invocation_progress(SHOWN_INVOCATIONS),
        };
    }
    let mut rest = rest;
    let workload = match rest.pop() {
        Some(workload) => workload,
        None => vstd::pervasive::unreached(),
    };
    if workload.on_main() {
        if main_is_full {
            return Home::Between { rest, lists };
        }
        let branch = match &workload.branch {
            Some(branch) => branch.clone(),
            None => vstd::pervasive::unreached(),
        };
        let search = latest_commits_for_branch(
            branch,
            1,
            Some(workload.commit_sha1.clone()),
            workload.workload_name.clone(),
        );
        Home::SearchingMain { rest, lists, workload, search }
    } else if recent_is_full {
        Home::Between { rest, lists }
    } else {
        Home::SearchingLatest { rest, lists, workload }
    }
}

/// The flow is between two workloads, and the lists have grown by one.
pub open spec fn has_added(
    rest: Vec<WorkloadDescription>,
    lists: HomeLists,
    workload: WorkloadData,
    next: Home,
) -> bool {
    &&& next matches Home::Between { rest: r, lists: longer }
    &&& r == rest
    &&& lists.grows_by(workload, longer)
}

impl Flow for Home {
    type Output = Outcome<HomeData>;

    open spec fn pending(&self) -> Option<Request> {
        match self {
            Home::Listing => Some(Request::FetchAll(Query::LatestCompleted { count: LATEST })),
            Home::Between { .. } => Some(Request::Continue),
            Home::SearchingMain { search, .. } => match search.pending() {
                Some(request) => Some(request),
                None => Some(Request::Continue),
            },
            Home::SearchingLatest { workload, .. } => Some(
                Request::FetchAll(
                    Query::LatestCommits {
                        workload_name: workload.workload_name,
                        before: workload.commit_sha1,
                        count: 1,
                    },
                ),
            ),
            Home::LoadingTarget { workload, .. } => Some(
                Request::FetchAll(
                    Query::CommitData {
                        workload_name: workload.workload_name,
                        commit_sha1: workload.commit_sha1,
                    },
                ),
            ),
            Home::LoadingBaseline { workload, baseline, .. } => Some(
                Request::FetchAll(
                    Query::CommitData {
                        workload_name: workload.workload_name,
                        commit_sha1: *baseline,
                    },
                ),
            ),
            Home::Progressing { progress, .. } => match progress.pending() {
                Some(request) => Some(request),
                None => Some(Request::Continue),
            },
            Home::Finished(_) => None,
        }
    }

    open spec fn result(&self) -> Option<Outcome<HomeData>> {
        match self {
            Home::Finished(outcome) => Some(*outcome),
            _ => None,
        }
    }

    open spec fn leads_to(self, reply: Reply, next: Self) -> bool {
        match (self, reply) {
            (Home::Listing, Reply::Failed(_)) => {
                &&& next matches Home::Finished(Outcome::Refused(e))
                &&& is_fetch_error(reply, "fetching latest invocations"@, e)
            },
            (Home::Listing, Reply::All(rows)) => {
                &&& next matches Home::Between { rest, lists }
                &&& rest@ == descriptions_of(rows@).reverse()
                &&& lists.workloads_on_main@.len() == 0
                &&& lists.recent_workloads@.len() == 0
            },
            (Home::Between { rest, lists }, _) => goes_on(rest@, lists, next),
            (Home::SearchingMain { rest, lists, workload, search }, _) => match search.result() {
                None => {
                    &&& next matches Home::SearchingMain {
                        rest: r,
                        lists: l,
                        workload: w,
                        search: s,
                    }
                    &&& r == rest && l == lists && w == workload
                    &&& search.leads_to(reply, s)
                },
                Some(Err(refusal)) => next == Home::Finished(Outcome::Refused(refusal)),
                Some(Ok(commits)) => next == (Home::LoadingTarget {
                    rest,
                    lists,
                    workload,
                    baseline: if commits@.len() == 0 {
                        None
                    } else {
                        Some(commits@[0].sha1)
                    },
                }),
            },
            (Home::SearchingLatest { .. }, Reply::Failed(_)) => {
                &&& next matches Home::Finished(Outcome::Refused(e))
                &&& is_fetch_error(reply, "fetching latest commits"@, e)
            },
            (Home::SearchingLatest { rest, lists, workload }, Reply::All(rows)) => next == (
            Home::LoadingTarget {
                rest,
                lists,
                workload,
                baseline: if rows@.len() == 0 {
                    None
                } else {
                    Some(rows@[0].spec_text(0))
                },
            }),
            (Home::LoadingTarget { .. }, Reply::Failed(_)) => {
                &&& next matches Home::Finished(Outcome::Refused(e))
                &&& is_fetch_error(reply, "fetching data for commit"@, e)
            },
            (Home::LoadingTarget { rest, lists, workload, baseline }, Reply::All(rows)) => {
                match baseline {
                    Some(commit) => {
                        &&& next matches Home::LoadingBaseline {
                            rest: r,
                            lists: l,
                            workload: w,
                            baseline: b,
                            target,
                        }
                        &&& r == rest && l == lists && w == workload && b == commit
                        &&& target.wf()
                        &&& target.groups() == grouped(rows@)
                    },
                    None => exists|target: SpanMap<Vec<CallStats>>|
                        {
                            &&& target.wf()
                            &&& target.groups() == grouped(rows@)
                            &&& #[trigger] has_added(
                                rest,
                                lists,
                                WorkloadData { description: workload, target, baseline: None },
                                next,
                            )
                        },
                }
            },
            (Home::LoadingBaseline { .. }, Reply::Failed(_)) => {
                &&& next matches Home::Finished(Outcome::Refused(e))
                &&& is_fetch_error(reply, "fetching data for commit"@, e)
            },
            (
                Home::LoadingBaseline { rest, lists, workload, baseline, target },
                Reply::All(rows),
            ) => exists|data: SpanMap<Vec<CallStats>>|
                {
                    &&& data.wf()
                    &&& data.groups() == grouped(rows@)
                    &&& #[trigger] has_added(
                        rest,
                        lists,
                        WorkloadData {
                            description: workload,
                            target,
                            baseline: Some((baseline, data)),
                        },
                        next,
                    )
                },
            (Home::Progressing { lists, progress }, _) => match progress.result() {
                None => {
                    &&& next matches Home::Progressing { lists: l, progress: p }
                    &&& l == lists
                    &&& progress.leads_to(reply, p)
                },
                Some(Outcome::Answer(invocations)) => next == Home::Finished(
                    Outcome::Answer(HomeData { latest_invocation_progress: invocations, lists }),
                ),
                Some(Outcome::Refused(refusal)) => next == Home::Finished(
                    Outcome::Refused(refusal),
                ),
                Some(Outcome::Abort(message)) => next == Home::Finished(Outcome::Abort(message)),
            },
            _ => next == self,
        }
    }

    open spec fn distance(&self) -> (nat, nat, nat) {
        match self {
            Home::Listing => (11, 0, 0),
            Home::Between { rest, .. } => (10, rest@.len(), 10),
            Home::SearchingMain { rest, search, .. } => (
                10,
                rest@.len() + 1,
                search.distance().0 + 3,
            ),
            Home::SearchingLatest { rest, .. } => (10, rest@.len() + 1, 3),
            Home::LoadingTarget { rest, .. } => (10, rest@.len() + 1, 2),
            Home::LoadingBaseline { rest, .. } => (10, rest@.len() + 1, 1),
            Home::Progressing { progress, .. } => (
                progress.distance().0 + 1,
                progress.distance().1,
                progress.distance().2,
            ),
            Home::Finished(_) => (0, 0, 0),
        }
    }

    proof fn waits_or_ended(&self) {
    }

    proof fn gets_closer(self, reply: Reply, next: Self) {
        match (self, next) {
            (Home::SearchingMain { search, .. }, Home::SearchingMain { search: s, .. }) => {
                search.waits_or_ended();
                if search.result() is None {
                    search.gets_closer(reply, s);
                }
            },
            (Home::Progressing { progress, .. }, Home::Progressing { progress: p, .. }) => {
                progress.waits_or_ended();
                if progress.result() is None {
                    progress.gets_closer(reply, p);
                }
            },
            _ => {},
        }
    }

    fn request(&self) -> (request: Option<Request>) {
        match self {
            Home::Listing => Some(Request::FetchAll(Query::LatestCompleted { count: LATEST })),
            Home::Between { .. } => Some(Request::Continue),
            Home::SearchingMain { search, .. } => match search.request() {
                Some(request) => Some(request),
                None => Some(Request::Continue),
            },
            Home::SearchingLatest { workload, .. } => Some(
                Request::FetchAll(
                    Query::LatestCommits {
                        workload_name: workload.workload_name.clone(),
                        before: workload.commit_sha1.clone(),
                        count: 1,
                    },
                ),
            ),
            Home::LoadingTarget { workload, .. } => Some(
                Request::FetchAll(
                    Query::CommitData {
                        workload_name: workload.workload_name.clone(),
                        commit_sha1: workload.commit_sha1.clone(),
                    },
                ),
            ),
            Home::LoadingBaseline { workload, baseline, .. } => Some(
                Request::FetchAll(
                    Query::CommitData {
                        workload_name: workload.workload_name.clone(),
                        commit_sha1: baseline.clone(),
                    },
                ),
            ),
            Home::Progressing { progress, .. } => match progress.request() {
                Some(request) => Some(request),
                None => Some(Request::Continue),
            },
            Home::Finished(_) => None,
        }
    }

    fn resume(self, reply: Reply) -> (next: Self) {
        match self {
            Home::Listing => match latest_completed_invocations(reply) {
                Ok(latest) => Home::Between {
                    rest: reversed(latest),
                    lists: HomeLists {
                        workloads_on_main: Vec::new(),
                        recent_workloads: Vec::new(),
                    },
                },
                Err(refusal) => Home::Finished(Outcome::Refused(refusal)),
            },
            Home::Between { rest, lists } => go_on(rest, lists),
            Home::SearchingMain { rest, lists, workload, search } => {
                proof {
                    search.waits_or_ended();
                }
                if search.request().is_some() {
                    let search = search.resume(reply);
                    return Home::SearchingMain { rest, lists, workload, search };
                }
                match search.finish() {
                    Ok(commits) => {
                        let baseline = if commits.len() == 0 {
                            None
                        } else {
                            Some(commits[0].sha1.clone())
                        };
                        Home::LoadingTarget { rest, lists, workload, baseline }
                    },
                    Err(refusal) => Home::Finished(Outcome::Refused(refusal)),
                }
            },
            Home::SearchingLatest { rest, lists, workload } => {
                match latest_commits_for_worfklow(reply) {
                    Ok(commits) => {
                        let baseline = if commits.len() == 0 {
                            None
                        } else {
                            Some(commits[0].sha1.clone())
                        };
                        Home::LoadingTarget { rest, lists, workload, baseline }
                    },
                    Err(refusal) => Home::Finished(Outcome::Refused(refusal)),
                }
            },
            Home::LoadingTarget { rest, lists, workload, baseline } => {
                let target = match data_for_commit(reply) {
                    Ok(target) => target,
                    Err(refusal) => return Home::Finished(Outcome::Refused(refusal)),
                };
                match baseline {
                    Some(baseline) => Home::LoadingBaseline {
                        rest,
                        lists,
                        workload,
                        baseline,
                        target,
                    },
                    None => {
                        let data = WorkloadData { description: workload, target, baseline: None };
                        let next = Home::Between { rest, lists: lists.add(data) };
                        assert(has_added(
                            rest,
                            lists,
                            WorkloadData { description: workload, target, baseline: None },
                            next,
                        ));
                        next
                    },
                }
            },
            Home::LoadingBaseline { rest, lists, workload, baseline, target } => {
                match data_for_commit(reply) {
                    Ok(spans) => {
                        let data = WorkloadData {
                            description: workload,
                            target,
                            baseline: Some((baseline, spans)),
                        };
                        let next = Home::Between { rest, lists: lists.add(data) };
                        assert(has_added(
                            rest,
                            lists,
                            WorkloadData {
                                description: workload,
                                target,
                                baseline: Some((baseline, spans)),
                            },
                            next,
                        ));
                        next
                    },
                    Err(refusal) => Home::Finished(Outcome::Refused(refusal)),
                }
            },
            Home::Progressing { lists, progress } => {
                proof {
                    progress.waits_or_ended();
                }
                if progress.request().is_some() {
                    return Home::Progressing { lists, progress: progress.resume(reply) };
                }
                match progress.finish() {
                    Outcome::Answer(invocations) => Home::Finished(
                        Outcome::Answer(
                            HomeData { latest_invocation_progress: invocations, lists },
                        ),
                    ),
                    Outcome::Refused(refusal) => Home::Finished(Outcome::Refused(refusal)),
                    Outcome::Abort(message) => Home::Finished(Outcome::Abort(message)),
                }
            },
            Home::Finished(outcome) => Home::Finished(outcome),
        }
    }

    fn finish(self) -> (output: Outcome<HomeData>) {
        match self {
            Home::Finished(outcome) => outcome,
            _ => vstd::pervasive::unreached(),
        }
    }
}

/// The first `n` items of a list; all of them if there are fewer.
pub open spec fn first_of<T>(list: Seq<T>, n: nat) -> Seq<T> {
    if list.len() <= n {
        list
    } else {
        list.take(n as int)
    }
}

/// The workloads of a list that ran on the main branch, or those that did not.
pub open spec fn of_branch(list: Seq<WorkloadDescription>, main: bool) -> Seq<WorkloadDescription> {
    list.filter(|workload: WorkloadDescription| workload.is_on_main() == main)
}

/// The descriptions of workloads.
pub open spec fn described(list: Seq<WorkloadData>) -> Seq<WorkloadDescription> {
    list.map_values(|workload: WorkloadData| workload.description)
}

/// Of the workloads in `latest`, the lists hold the first six on the main branch and the first
/// sixteen others.
pub open spec fn hold_first(lists: HomeLists, latest: Seq<WorkloadDescription>) -> bool {
    &&& described(lists.workloads_on_main@) == first_of(of_branch(latest, true), 6)
    &&& described(lists.recent_workloads@) == first_of(of_branch(latest, false), 16)
}

/// The measurements of a workload are in the order of their spans.
pub open spec fn is_in_order(workload: WorkloadData) -> bool {
    &&& workload.target.wf()
    &&& workload.baseline matches Some((_, spans)) ==> spans.wf()
}

/// The measurements of all workloads are in the order of their spans.
pub open spec fn are_in_order(lists: HomeLists) -> bool {
    &&& forall|i: int|
        0 <= i < lists.workloads_on_main@.len() ==> is_in_order(
            #[trigger] lists.workloads_on_main@[i],
        )
    &&& forall|i: int|
        0 <= i < lists.recent_workloads@.len() ==> is_in_order(
            #[trigger] lists.recent_workloads@[i],
        )
}

/// The workloads in `rest` are the last of those in `latest`, the next one last, and the lists
/// hold what is shown of those before.
pub open spec fn has_come_to(
    latest: Seq<WorkloadDescription>,
    rest: Seq<WorkloadDescription>,
    lists: HomeLists,
) -> bool {
    let done = latest.len() - rest.len();
    &&& 0 <= done
    &&& rest == latest.skip(done).reverse()
    &&& hold_first(lists, latest.take(done))
    &&& are_in_order(lists)
}

/// What holds of the loading of the page, once the workloads in `latest` are listed.
pub open spec fn shows_latest(latest: Seq<WorkloadDescription>, flow: Home) -> bool {
    match flow {
        Home::Listing => false,
        Home::Between { rest, lists } => has_come_to(latest, rest@, lists),
        Home::SearchingMain { rest, lists, workload, .. } => {
            &&& has_come_to(latest, rest@.push(workload), lists)
            &&& !lists.is_full_for(workload)
        },
        Home::SearchingLatest { rest, lists, workload } => {
            &&& has_come_to(latest, rest@.push(workload), lists)
            &&& !lists.is_full_for(workload)
        },
        Home::LoadingTarget { rest, lists, workload, .. } => {
            &&& has_come_to(latest, rest@.push(workload), lists)
            &&& !lists.is_full_for(workload)
        },
        Home::LoadingBaseline { rest, lists, workload, target, .. } => {
            &&& has_come_to(latest, rest@.push(workload), lists)
            &&& !lists.is_full_for(workload)
            &&& target.wf()
        },
        Home::Progressing { lists, .. } => hold_first(lists, latest) && are_in_order(lists),
        Home::Finished(Outcome::Answer(page)) => hold_first(page.lists, latest) && are_in_order(
            page.lists,
        ),
        Home::Finished(_) => true,
    }
}

/// One more workload is one more in the part that it belongs to.
proof fn part_grows(latest: Seq<WorkloadDescription>, done: int, main: bool)
    requires
        0 <= done < latest.len(),
    ensures
        of_branch(latest.take(done + 1), main) == (if latest[done].is_on_main() == main {
            of_branch(latest.take(done), main).push(latest[done])
        } else {
            of_branch(latest.take(done), main)
        }),
{
    reveal(Seq::filter);
    assert(latest.take(done + 1).drop_last() =~= latest.take(done));
}

/// Once there are `n` in a part, its first `n` stay the same however the list goes on.
proof fn first_stay(latest: Seq<WorkloadDescription>, done: int, main: bool, n: nat)
    requires
        0 <= done <= latest.len(),
        of_branch(latest.take(done), main).len() >= n,
    ensures
        first_of(of_branch(latest, main), n) == first_of(of_branch(latest.take(done), main), n),
    decreases latest.len() - done,
{
    if done < latest.len() {
        part_grows(latest, done, main);
        first_stay(latest, done + 1, main, n);
        assert(first_of(of_branch(latest.take(done + 1), main), n) =~= first_of(
            of_branch(latest.take(done), main),
            n,
        ));
    } else {
        assert(latest.take(done) =~= latest);
    }
}

/// Taking the next workload into its list, or passing it over because the list is full, keeps
/// the lists what they are to be.
proof fn lists_grow(
    latest: Seq<WorkloadDescription>,
    done: int,
    lists: HomeLists,
    workload: WorkloadData,
    longer: HomeLists,
)
    requires
        0 <= done < latest.len(),
        hold_first(lists, latest.take(done)),
        workload.description == latest[done],
        if lists.is_full_for(latest[done]) {
            longer == lists
        } else {
            lists.grows_by(workload, longer)
        },
    ensures
        hold_first(longer, latest.take(done + 1)),
{
    part_grows(latest, done, true);
    part_grows(latest, done, false);
    let main = of_branch(latest.take(done), true);
    let other = of_branch(latest.take(done), false);
    assert(described(lists.workloads_on_main@).len() == lists.workloads_on_main@.len());
    assert(described(lists.recent_workloads@).len() == lists.recent_workloads@.len());
    if lists.is_full_for(latest[done]) {
        assert(first_of(main.push(latest[done]), 6) =~= first_of(main, 6) || main.len() < 6);
        assert(first_of(other.push(latest[done]), 16) =~= first_of(other, 16) || other.len() < 16);
    } else if latest[done].is_on_main() {
        assert(described(longer.workloads_on_main@) =~= described(lists.workloads_on_main@).push(
            latest[done],
        ));
        assert(first_of(main.push(latest[done]), 6) =~= main.push(latest[done]));
    } else {
        assert(described(longer.recent_workloads@) =~= described(lists.recent_workloads@).push(
            latest[done],
        ));
        assert(first_of(other.push(latest[done]), 16) =~= other.push(latest[done]));
    }
}

/// What follows when the lists have grown by a workload.
proof fn adding_keeps_place(
    latest: Seq<WorkloadDescription>,
    rest: Vec<WorkloadDescription>,
    lists: HomeLists,
    workload: WorkloadData,
    next: Home,
)
    requires
        has_come_to(latest, rest@.push(workload.description), lists),
        !lists.is_full_for(workload.description),
        is_in_order(workload),
        has_added(rest, lists, workload, next),
    ensures
        shows_latest(latest, next),
{
    let ahead = rest@.push(workload.description);
    let done = latest.len() - ahead.len();
    assert(ahead.last() == latest.skip(done)[0]);
    match next {
        Home::Between { rest: r, lists: longer } => {
            lists_grow(latest, done, lists, workload, longer);
            assert(rest@ =~= ahead.drop_last());
            assert(rest@ =~= latest.skip(done + 1).reverse());
        },
        _ => {},
    }
}

/// The page shows the first six of the latest workloads on the main branch and the first sixteen
/// of the others, in the order in which they were listed.
pub proof fn home_shows_first_workloads(
    latest: Seq<WorkloadDescription>,
    flow: Home,
    reply: Reply,
    next: Home,
)
    requires
        shows_latest(latest, flow),
        flow.pending() matches Some(request) && request.accepts(reply),
        flow.leads_to(reply, next),
    ensures
        shows_latest(latest, next),
{
    match flow {
        Home::Between { rest, lists } => {
            let done = latest.len() - rest@.len();
            assert(described(lists.workloads_on_main@).len() == lists.workloads_on_main@.len());
            assert(described(lists.recent_workloads@).len() == lists.recent_workloads@.len());
            if rest@.len() == 0 {
                assert(latest.take(done) =~= latest);
            } else if lists.main_is_full() && lists.recent_is_full() {
                first_stay(latest, done, true, 6);
                first_stay(latest, done, false, 16);
            } else {
                assert(rest@.last() == latest.skip(done)[0]);
                assert(rest@.drop_last().push(rest@.last()) =~= rest@);
                if lists.is_full_for(rest@.last()) {
                    let spans = arbitrary::<WorkloadData>();
                    lists_grow(
                        latest,
                        done,
                        lists,
                        WorkloadData { description: latest[done], ..spans },
                        lists,
                    );
                    assert(rest@.drop_last() =~= latest.skip(done + 1).reverse());
                }
            }
        },
        Home::LoadingTarget { rest, lists, workload, baseline } => {
            if baseline is None {
                if let Reply::All(rows) = reply {
                    let target = choose|target: SpanMap<Vec<CallStats>>|
                        {
                            &&& target.wf()
                            &&& target.groups() == grouped(rows@)
                            &&& #[trigger] has_added(
                                rest,
                                lists,
                                WorkloadData { description: workload, target, baseline: None },
                                next,
                            )
                        };
                    adding_keeps_place(
                        latest,
                        rest,
                        lists,
                        WorkloadData { description: workload, target, baseline: None },
                        next,
                    );
                }
            }
        },
        Home::LoadingBaseline { rest, lists, workload, baseline, target } => {
            if let Reply::All(rows) = reply {
                let data = choose|data: SpanMap<Vec<CallStats>>|
                    {
                        &&& data.wf()
                        &&& data.groups() == grouped(rows@)
                        &&& #[trigger] has_added(
                            rest,
                            lists,
                            WorkloadData {
                                description: workload,
                                target,
                                baseline: Some((baseline, data)),
                            },
                            next,
                        )
                    };
                adding_keeps_place(
                    latest,
                    rest,
                    lists,
                    WorkloadData {
                        description: workload,
                        target,
                        baseline: Some((baseline, data)),
                    },
                    next,
                );
            }
        },
        _ => {},
    }
}

/// Once the workloads are listed, all of them are to come and the lists are empty.
pub proof fn home_begins(flow: Home, rows: Vec<Row>, next: Home)
    requires
        flow is Listing,
        flow.leads_to(Reply::All(rows), next),
    ensures
        shows_latest(descriptions_of(rows@), next),
{
    let latest = descriptions_of(rows@);
    match next {
        Home::Between { rest, lists } => {
            assert(latest.skip(0) =~= latest);
            assert(latest.take(0) =~= Seq::empty());
            reveal(Seq::filter);
            assert(described(lists.workloads_on_main@) =~= Seq::empty());
            assert(described(lists.recent_workloads@) =~= Seq::empty());
        },
        _ => {},
    }
}

/// The page shows at most six workloads of the main branch, which all ran there, and at most
/// sixteen others, none of which did.
pub proof fn home_lists_are_bounded(latest: Seq<WorkloadDescription>, lists: HomeLists)
    requires
        hold_first(lists, latest),
    ensures
        lists.workloads_on_main@.len() <= 6,
        lists.recent_workloads@.len() <= 16,
        forall|i: int|
            0 <= i < lists.workloads_on_main@.len() ==> (
            #[trigger] lists.workloads_on_main@[i]).description.is_on_main(),
        forall|i: int|
            0 <= i < lists.recent_workloads@.len() ==> !(
            #[trigger] lists.recent_workloads@[i]).description.is_on_main(),
{
    broadcast use vstd::seq_lib::group_filter_ensures;

    assert(described(lists.workloads_on_main@).len() == lists.workloads_on_main@.len());
    assert(described(lists.recent_workloads@).len() == lists.recent_workloads@.len());
    assert forall|i: int| 0 <= i < lists.workloads_on_main@.len() implies (
    #[trigger] lists.workloads_on_main@[i]).description.is_on_main() by {
        let part = of_branch(latest, true);
        assert(described(lists.workloads_on_main@)[i] == part[i]);
    }
    assert forall|i: int| 0 <= i < lists.recent_workloads@.len() implies !(
    #[trigger] lists.recent_workloads@[i]).description.is_on_main() by {
        let part = of_branch(latest, false);
        assert(described(lists.recent_workloads@)[i] == part[i]);
    }
}

/// The page looks at the forty workloads that completed last. Each is described by the columns of
/// its row in the order in which they are selected: name, commit, message, reason and branch; and
/// they are gone through in the order of the rows.
pub proof fn latest_workloads_are_looked_at(flow: Home, reply: Reply, next: Home)
    requires
        home_starts(flow),
        flow.pending() matches Some(request) && request.accepts(reply),
        flow.leads_to(reply, next),
    ensures
        flow.pending() == Some(Request::FetchAll(Query::LatestCompleted { count: 40 })),
        reply matches Reply::All(rows) ==> {
            &&& next matches Home::Between { rest, lists }
            &&& lists.workloads_on_main@.len() == 0
            &&& lists.recent_workloads@.len() == 0
            &&& rest@.len() == rows@.len()
            &&& forall|i: int|
                0 <= i < rows@.len() ==> (#[trigger] rows@[i]).cells@ == seq![
                    Value::Text(rest@[rows@.len() - 1 - i].workload_name),
                    Value::Text(rest@[rows@.len() - 1 - i].commit_sha1),
                    Value::Text(rest@[rows@.len() - 1 - i].commit_message),
                    Value::OptionalText(rest@[rows@.len() - 1 - i].reason),
                    Value::OptionalText(rest@[rows@.len() - 1 - i].branch),
                ]
        },
        reply matches Reply::Failed(error) ==> {
            &&& next.result() matches Some(Outcome::Refused(e))
            &&& e.says(
                seq!["fetching latest invocations"@] + error@,
                crate::error::StatusCode::InternalServerError,
            )
        },
{
    if let Reply::All(rows) = reply {
        if let Home::Between { rest, .. } = next {
            let columns = (Query::LatestCompleted { count: 0 }).spec_columns();
            assert forall|i: int| 0 <= i < rows@.len() implies (#[trigger] rows@[i]).cells@ == seq![
                Value::Text(rest@[rows@.len() - 1 - i].workload_name),
                Value::Text(rest@[rows@.len() - 1 - i].commit_sha1),
                Value::Text(rest@[rows@.len() - 1 - i].commit_message),
                Value::OptionalText(rest@[rows@.len() - 1 - i].reason),
                Value::OptionalText(rest@[rows@.len() - 1 - i].branch),
            ] by {
                let row = rows@[i];
                assert(row.fits(columns));
                assert(rest@[rows@.len() - 1 - i] == description_of(row));
                assert(row.cells@[0].kind() == columns[0] && row.cells@[1].kind() == columns[1]);
                assert(row.cells@[2].kind() == columns[2] && row.cells@[3].kind() == columns[3]);
                assert(row.cells@[4].kind() == columns[4]);
                assert(row.cells@ =~= seq![
                    Value::Text(description_of(row).workload_name),
                    Value::Text(description_of(row).commit_sha1),
                    Value::Text(description_of(row).commit_message),
                    Value::OptionalText(description_of(row).reason),
                    Value::OptionalText(description_of(row).branch),
                ]);
            }
        }
    }
}

/// The workload that is being loaded, with the lists and those still to come.
pub open spec fn is_loading(
    flow: Home,
    workload: WorkloadDescription,
    rest: Vec<WorkloadDescription>,
    lists: HomeLists,
) -> bool {
    match flow {
        Home::SearchingMain { rest: r, lists: l, workload: w, .. } => {
            w == workload && r == rest && l == lists
        },
        Home::SearchingLatest { rest: r, lists: l, workload: w } => {
            w == workload && r == rest && l == lists
        },
        Home::LoadingTarget { rest: r, lists: l, workload: w, .. } => {
            w == workload && r == rest && l == lists
        },
        Home::LoadingBaseline { rest: r, lists: l, workload: w, .. } => {
            w == workload && r == rest && l == lists
        },
        _ => false,
    }
}

/// The branch of a workload is the one that is called main.
pub open spec fn ran_on_main(workload: WorkloadDescription) -> bool {
    workload.branch is Some && workload.branch->Some_0@ == "main"@
}

/// `longer` is `lists` with `added` at the end of one list: that of the main branch if it ran
/// there, else the other.
pub open spec fn one_was_added(lists: HomeLists, added: WorkloadData, longer: HomeLists) -> bool {
    if ran_on_main(added.description) {
        &&& longer.workloads_on_main@ == lists.workloads_on_main@.push(added)
        &&& longer.recent_workloads@ == lists.recent_workloads@
    } else {
        &&& longer.workloads_on_main@ == lists.workloads_on_main@
        &&& longer.recent_workloads@ == lists.recent_workloads@.push(added)
    }
}

/// A workload on the main branch is compared with the latest commit before its own on that branch,
/// and any other with the latest commit but its own, each for the same workload. It is passed over
/// if its list has more than five, or more than fifteen, and none is taken once both have.
pub proof fn workload_is_taken_or_passed_over(flow: Home, reply: Reply, next: Home)
    requires
        flow is Between,
        flow.leads_to(reply, next),
    ensures
        flow matches Home::Between { rest, lists } && {
            let on_main = lists.workloads_on_main@.len();
            let recent = lists.recent_workloads@.len();
            &&& rest@.len() == 0 || on_main > 5 && recent > 15 ==> {
                &&& next matches Home::Progressing { lists: l, progress }
                &&& l == lists
                &&& progress.pending() == Some(
                    Request::FetchAll(Query::LatestInvocations { count: 8 }),
                )
            }
            &&& rest@.len() > 0 && !(on_main > 5 && recent > 15) ==> {
                let workload = rest@.last();
                let full = if ran_on_main(workload) {
                    on_main > 5
                } else {
                    recent > 15
                };
                &&& full ==> {
                    &&& next matches Home::Between { rest: r, lists: l }
                    &&& r@ == rest@.drop_last()
                    &&& l == lists
                }
                &&& !full ==> {
                    &&& next matches Home::SearchingMain { rest: r, .. } ==> r@ == rest@.drop_last()
                    &&& next matches Home::SearchingLatest { rest: r, .. } ==> r@
                        == rest@.drop_last()
                    &&& next is SearchingMain <==> ran_on_main(workload)
                    &&& next is SearchingLatest <==> !ran_on_main(workload)
                    &&& exists|r: Vec<WorkloadDescription>| #[trigger]
                        is_loading(next, workload, r, lists)
                    &&& ran_on_main(workload) ==> next.pending() == Some(
                        Request::FetchOptional(
                            Query::CommitDate {
                                branch: workload.branch->Some_0,
                                sha1: workload.commit_sha1,
                            },
                        ),
                    )
                    &&& next matches Home::SearchingMain { search, .. } ==> search == branch_search(
                        workload.branch->Some_0,
                        1,
                        Some(workload.commit_sha1),
                        workload.workload_name,
                    )
                    &&& !ran_on_main(workload) ==> next.pending() == Some(
                        Request::FetchAll(
                            Query::LatestCommits {
                                workload_name: workload.workload_name,
                                before: workload.commit_sha1,
                                count: 1,
                            },
                        ),
                    )
                }
            }
        },
{
    if let Home::SearchingMain { rest, lists, workload, .. } = next {
        assert(is_loading(next, workload, rest, lists));
    }
    if let Home::SearchingLatest { rest, lists, workload } = next {
        assert(is_loading(next, workload, rest, lists));
    }
}

/// The baseline of a workload is the first commit that is found for it. The measurements of the
/// workload are read for its name and its own commit, those of the baseline for its name and the
/// commit of the baseline, and both are shown as what they were read for, in the list of the branch
/// that the workload ran on.
pub proof fn each_workload_is_read_for_itself(
    flow: Home,
    workload: WorkloadDescription,
    rest: Vec<WorkloadDescription>,
    lists: HomeLists,
    reply: Reply,
    next: Home,
)
    requires
        is_loading(flow, workload, rest, lists),
        flow.pending() matches Some(request) && request.accepts(reply),
        flow.leads_to(reply, next),
    ensures
        flow matches Home::SearchingMain { search, .. } ==> match search.result() {
            None => {
                &&& flow.pending() == search.pending()
                &&& is_loading(next, workload, rest, lists)
                &&& next matches Home::SearchingMain { search: s, .. }
                &&& search.leads_to(reply, s)
            },
            Some(Err(refusal)) => next.result() == Some(Outcome::<HomeData>::Refused(refusal)),
            Some(Ok(commits)) => {
                &&& is_loading(next, workload, rest, lists)
                &&& next matches Home::LoadingTarget { baseline, .. }
                &&& baseline is None <==> commits@.len() == 0
                &&& baseline matches Some(sha1) ==> sha1 == commits@[0].sha1
            },
        },
        flow is SearchingLatest ==> (reply matches Reply::All(rows) ==> {
            &&& is_loading(next, workload, rest, lists)
            &&& next matches Home::LoadingTarget { baseline, .. }
            &&& baseline is None <==> rows@.len() == 0
            &&& baseline matches Some(sha1) ==> rows@[0].cells@[0] == Value::Text(sha1)
        }),
        flow is LoadingTarget ==> flow.pending() == Some(
            Request::FetchAll(
                Query::CommitData {
                    workload_name: workload.workload_name,
                    commit_sha1: workload.commit_sha1,
                },
            ),
        ),
        flow matches Home::LoadingTarget { baseline, .. } ==> (reply matches Reply::All(rows)
            ==> match baseline {
            Some(commit) => {
                &&& is_loading(next, workload, rest, lists)
                &&& next matches Home::LoadingBaseline { baseline: b, target, .. }
                &&& b == commit
                &&& target.groups() == grouped(rows@)
            },
            None => {
                &&& next matches Home::Between { rest: r, lists: longer }
                &&& r == rest
                &&& exists|added: WorkloadData| #[trigger] one_was_added(lists, added, longer) && {
                    &&& added.description == workload
                    &&& added.target.groups() == grouped(rows@)
                    &&& added.baseline is None
                }
            },
        }),
        flow matches Home::LoadingBaseline { baseline, target, .. } ==> {
            &&& flow.pending() == Some(
                Request::FetchAll(
                    Query::CommitData {
                        workload_name: workload.workload_name,
                        commit_sha1: baseline,
                    },
                ),
            )
            &&& reply matches Reply::All(rows) ==> {
                &&& next matches Home::Between { rest: r, lists: longer }
                &&& r == rest
                &&& exists|added: WorkloadData| #[trigger] one_was_added(lists, added, longer) && {
                    &&& added.description == workload
                    &&& added.target.groups() == target.groups()
                    &&& added.baseline matches Some((commit, spans)) && commit == baseline
                        && spans.groups() == grouped(rows@)
                }
            }
        },
        reply matches Reply::Failed(error) ==> {
            ||| flow is SearchingMain
            ||| next.result() matches Some(Outcome::Refused(e)) && e.says(
                seq![
                    if flow is SearchingLatest {
                        "fetching latest commits"@
                    } else {
                        "fetching data for commit"@
                    },
                ] + error@,
                crate::error::StatusCode::InternalServerError,
            )
        },
{
    match flow {
        Home::SearchingMain { search, .. } => {
            search.waits_or_ended();
        },
        Home::SearchingLatest { .. } => {
            if let Reply::All(rows) = reply {
                if rows@.len() > 0 {
                    assert(rows@[0].fits(seq![crate::query::Column::Text]));
                }
            }
        },
        Home::LoadingTarget { baseline, .. } => {
            if let Reply::All(rows) = reply {
                if baseline is None {
                    let target = choose|target: SpanMap<Vec<CallStats>>|
                        {
                            &&& target.wf()
                            &&& target.groups() == grouped(rows@)
                            &&& #[trigger] has_added(
                                rest,
                                lists,
                                WorkloadData { description: workload, target, baseline: None },
                                next,
                            )
                        };
                    let added = WorkloadData { description: workload, target, baseline: None };
                    if let Home::Between { lists: longer, .. } = next {
                        assert(one_was_added(lists, added, longer));
                    }
                }
            }
        },
        Home::LoadingBaseline { baseline, target, .. } => {
            if let Reply::All(rows) = reply {
                let data = choose|data: SpanMap<Vec<CallStats>>|
                    {
                        &&& data.wf()
                        &&& data.groups() == grouped(rows@)
                        &&& #[trigger] has_added(
                            rest,
                            lists,
                            WorkloadData {
                                description: workload,
                                target,
                                baseline: Some((baseline, data)),
                            },
                            next,
                        )
                    };
                let added = WorkloadData {
                    description: workload,
                    target,
                    baseline: Some((baseline, data)),
                };
                if let Home::Between { lists: longer, .. } = next {
                    assert(one_was_added(lists, added, longer));
                }
            }
        },
        _ => {},
    }
}

/// The page shows the lists that were made, beside how far the latest invocations have come.
pub proof fn page_shows_what_was_loaded(flow: Home, reply: Reply, next: Home)
    requires
        flow is Progressing,
        flow.pending() matches Some(request) && request.accepts(reply),
        flow.leads_to(reply, next),
    ensures
        flow matches Home::Progressing { lists, progress } && match progress.result() {
            None => {
                &&& flow.pending() == progress.pending()
                &&& next matches Home::Progressing { lists: l, progress: p }
                &&& l == lists
                &&& progress.leads_to(reply, p)
            },
            Some(Outcome::Answer(list)) => {
                &&& next.result() matches Some(Outcome::Answer(page))
                &&& page.lists == lists
                &&& page.latest_invocation_progress == list
            },
            Some(Outcome::Refused(refusal)) => next.result() == Some(
                Outcome::<HomeData>::Refused(refusal),
            ),
            Some(Outcome::Abort(message)) => next.result() == Some(
                Outcome::<HomeData>::Abort(message),
            ),
        },
{
    if let Home::Progressing { progress, .. } = flow {
        progress.waits_or_ended();
    }
}

/// While the target is loaded, the name of the workload and its own commit are bound to the
/// statement, and while the baseline is loaded the name and the commit of the baseline; and only
/// what has completed is read.
pub proof fn each_commit_is_bound_by_its_hash(flow: Home)
    ensures
        flow matches Home::LoadingTarget { workload, .. } ==> {
            &&& flow.pending() matches Some(Request::FetchAll(query))
            &&& query.binds() == seq![
                crate::query::ValueView::Text(workload.workload_name@),
                crate::query::ValueView::Text(workload.commit_sha1@),
                crate::query::ValueView::Text("completed"@),
            ]
        },
        flow matches Home::LoadingBaseline { workload, baseline, .. } ==> {
            &&& flow.pending() matches Some(Request::FetchAll(query))
            &&& query.binds() == seq![
                crate::query::ValueView::Text(workload.workload_name@),
                crate::query::ValueView::Text(baseline@),
                crate::query::ValueView::Text("completed"@),
            ]
        },
{
}

} // verus!
