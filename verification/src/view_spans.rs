//! The page that compares the spans of a workload on two commits: choosing the commits and
//! loading what was measured on them.

use crate::commits::{
    branch_search, commit_for_tag, data_for_commit, grouped, is_fetch_error,
    latest_commits_for_branch, latest_commits_for_worfklow, BranchCommits,
};
use crate::error::{Outcome, ResponseError, StatusCode};
use crate::flow::{is_talk, went_on, Flow, Reply, Request};
use crate::model::CallStats;
use crate::query::{Query, Value};
use crate::span_map::SpanMap;
use vstd::prelude::*;

verus! {

/// What the page is asked to show. The target is named by a commit, a tag or a branch, and so is
/// the baseline that it is compared with.
pub struct ViewSpansQuery {
    pub workload_name: String,
    pub commit_sha1: Option<String>,
    pub target_branch: Option<String>,
    pub target_tag: Option<String>,
    pub baseline_commit: Option<String>,
    pub baseline_tag: Option<String>,
    pub baseline_branch: Option<String>,
}

/// What the page shows, before it is compared.
pub struct SpansData {
    pub query: ViewSpansQuery,
    pub target_commit_sha1: String,
    pub target: SpanMap<Vec<CallStats>>,
    pub baseline: Option<(String, SpanMap<Vec<CallStats>>)>,
}

/// Choosing the commits and loading what was measured on them.
#[allow(inconsistent_fields)]
pub enum ViewSpans {
    /// The target is the latest commit with a tag.
    TargetByTag { query: ViewSpansQuery, tag: String },
    /// The target is the latest commit of a branch.
    TargetByBranch { query: ViewSpansQuery, branch: String, search: BranchCommits },
    /// The baseline is the latest commit with a tag.
    BaselineByTag { query: ViewSpansQuery, target: String, tag: String },
    /// The baseline is the latest commit of a branch before the target.
    BaselineByBranch { query: ViewSpansQuery, target: String, search: BranchCommits },
    /// The baseline is the latest commit but for the target.
    BaselineByDate { query: ViewSpansQuery, target: String },
    LoadingTarget { query: ViewSpansQuery, target: String, baseline: Option<String> },
    LoadingBaseline {
        query: ViewSpansQuery,
        target: String,
        baseline: String,
        data: SpanMap<Vec<CallStats>>,
    },
    Finished(Outcome<SpansData>),
}

/// The choice of the baseline from the branch on.
pub open spec fn baseline_from_branch(query: ViewSpansQuery, target: String) -> ViewSpans {
    match query.baseline_branch {
        Some(branch) => ViewSpans::BaselineByBranch {
            query,
            target,
            search: branch_search(branch, 1, Some(target), query.workload_name),
        },
        None => ViewSpans::BaselineByDate { query, target },
    }
}

/// The choice of the baseline, once the target is known: the commit, else the tag, else the
/// branch, else the latest commit.
pub open spec fn baseline_choice(query: ViewSpansQuery, target: String) -> ViewSpans {
    match (query.baseline_commit, query.baseline_tag) {
        (Some(commit), _) => ViewSpans::LoadingTarget { query, target, baseline: Some(commit) },
        (None, Some(tag)) => ViewSpans::BaselineByTag { query, target, tag },
        (None, None) => baseline_from_branch(query, target),
    }
}

/// Goes on to choose the baseline from the branch on.
fn choose_baseline_from_branch(query: ViewSpansQuery, target: String) -> (flow: ViewSpans)
    ensures
        flow == baseline_from_branch(query, target),
{
    match query.baseline_branch.clone() {
        Some(branch) => {
            let search = latest_commits_for_branch(
                branch,
                1,
                Some(target.clone()),
                query.workload_name.clone(),
            );
            ViewSpans::BaselineByBranch { query, target, search }
        },
        None => ViewSpans::BaselineByDate { query, target },
    }
}

/// Goes on to choose the baseline.
fn choose_baseline(query: ViewSpansQuery, target: String) -> (flow: ViewSpans)
    ensures
        flow == baseline_choice(query, target),
{
    if let Some(commit) = query.baseline_commit.clone() {
        return ViewSpans::LoadingTarget { query, target, baseline: Some(commit) };
    }
    if let Some(tag) = query.baseline_tag.clone() {
        return ViewSpans::BaselineByTag { query, target, tag };
    }
    choose_baseline_from_branch(query, target)
}

/// How the handling of a request for the page begins: the target is the commit, else the tag,
/// else the branch; a request that names none of them is refused.
pub open spec fn spans_begin(query: ViewSpansQuery, flow: ViewSpans) -> bool {
    match (query.commit_sha1, query.target_tag, query.target_branch) {
        (Some(commit), _, _) => flow == baseline_choice(query, commit),
        (None, Some(tag), _) => flow == (ViewSpans::TargetByTag { query, tag }),
        (None, None, Some(branch)) => flow == (ViewSpans::TargetByBranch {
            query,
            branch,
            search: branch_search(branch, 1, None, query.workload_name),
        }),
        (None, None, None) => flow matches ViewSpans::Finished(Outcome::Refused(e)) && e.says(
            seq!["Specify one of commit_sha1, target_branch or target_tag"@],
            StatusCode::BadRequest,
        ),
    }
}

/// Chooses the commits that a request names and loads what was measured on them.
pub fn view_spans(query: ViewSpansQuery) -> (flow: ViewSpans)
    ensures
        spans_begin(query, flow),
{
    if let Some(commit) = query.commit_sha1.clone() {
        return choose_baseline(query, commit);
    }
    if let Some(tag) = query.target_tag.clone() {
        return ViewSpans::TargetByTag { query, tag };
    }
    if let Some(branch) = query.target_branch.clone() {
        let search = latest_commits_for_branch(
            branch.clone(),
            1,
            None,
            query.workload_name.clone(),
        );
        return ViewSpans::TargetByBranch { query, branch, search };
    }
    ViewSpans::Finished(
        Outcome::Refused(
            ResponseError::new(
                "Specify one of commit_sha1, target_branch or target_tag".to_string(),
                StatusCode::BadRequest,
            ),
        ),
    )
}

impl Flow for ViewSpans {
    type Output = Outcome<SpansData>;

    open spec fn pending(&self) -> Option<Request> {
        match self {
            ViewSpans::TargetByTag { query, tag } => Some(
                Request::FetchOptional(
                    Query::TaggedCommit { workload_name: query.workload_name, tag: *tag },
                ),
            ),
            ViewSpans::TargetByBranch { search, .. } => match search.pending() {
                Some(request) => Some(request),
                None => Some(Request::Continue),
            },
            ViewSpans::BaselineByTag { query, tag, .. } => Some(
                Request::FetchOptional(
                    Query::TaggedCommit { workload_name: query.workload_name, tag: *tag },
                ),
            ),
            ViewSpans::BaselineByBranch { search, .. } => match search.pending() {
                Some(request) => Some(request),
                None => Some(Request::Continue),
            },
            ViewSpans::BaselineByDate { query, target } => Some(
                Request::FetchAll(
                    Query::LatestCommits {
                        workload_name: query.workload_name,
                        before: *target,
                        count: 1,
                    },
                ),
            ),
            ViewSpans::LoadingTarget { query, target, .. } => Some(
                Request::FetchAll(
                    Query::CommitData { workload_name: query.workload_name, commit_sha1: *target },
                ),
            ),
            ViewSpans::LoadingBaseline { query, baseline, .. } => Some(
                Request::FetchAll(
                    Query::CommitData {
                        workload_name: query.workload_name,
                        commit_sha1: *baseline,
                    },
                ),
            ),
            ViewSpans::Finished(_) => None,
        }
    }

    open spec fn result(&self) -> Option<Outcome<SpansData>> {
        match self {
            ViewSpans::Finished(outcome) => Some(*outcome),
            _ => None,
        }
    }

    open spec fn leads_to(self, reply: Reply, next: Self) -> bool {
        match (self, reply) {
            (ViewSpans::TargetByTag { .. }, Reply::Failed(_)) => {
                &&& next matches ViewSpans::Finished(Outcome::Refused(e))
                &&& is_fetch_error(reply, "fetching commit for tag"@, e)
            },
            (ViewSpans::TargetByTag { tag, .. }, Reply::Optional(None)) => {
                &&& next matches ViewSpans::Finished(Outcome::Refused(e))
                &&& e.says(seq!["Could not find commit for tag "@ + tag@], StatusCode::NotFound)
            },
            (ViewSpans::TargetByTag { query, .. }, Reply::Optional(Some(row))) => next
                == baseline_choice(query, row.spec_text(0)),
            (ViewSpans::TargetByBranch { query, branch, search }, _) => match search.result() {
                None => {
                    &&& next matches ViewSpans::TargetByBranch { query: q, branch: b, search: s }
                    &&& q == query && b == branch
                    &&& search.leads_to(reply, s)
                },
                Some(Err(refusal)) => next == ViewSpans::Finished(Outcome::Refused(refusal)),
                Some(Ok(commits)) => if commits@.len() == 0 {
                    &&& next matches ViewSpans::Finished(Outcome::Refused(e))
                    &&& e.says(
                        seq!["Could not find commmit on branch "@ + branch@],
                        StatusCode::NotFound,
                    )
                } else {
                    next == baseline_choice(query, commits@.last().sha1)
                },
            },
            (ViewSpans::BaselineByTag { .. }, Reply::Failed(_)) => {
                &&& next matches ViewSpans::Finished(Outcome::Refused(e))
                &&& is_fetch_error(reply, "fetching commit for tag"@, e)
            },
            (ViewSpans::BaselineByTag { query, target, .. }, Reply::Optional(row)) => next == (
            match row {
                Some(row) => ViewSpans::LoadingTarget {
                    query,
                    target,
                    baseline: Some(row.spec_text(0)),
                },
                None => baseline_from_branch(query, target),
            }),
            (ViewSpans::BaselineByBranch { query, target, search }, _) => match search.result() {
                None => {
                    &&& next matches ViewSpans::BaselineByBranch { query: q, target: t, search: s }
                    &&& q == query && t == target
                    &&& search.leads_to(reply, s)
                },
                Some(Err(refusal)) => next == ViewSpans::Finished(Outcome::Refused(refusal)),
                Some(Ok(commits)) => next == (if commits@.len() == 0 {
                    ViewSpans::BaselineByDate { query, target }
                } else {
                    ViewSpans::LoadingTarget {
                        query,
                        target,
                        baseline: Some(commits@.last().sha1),
                    }
                }),
            },
            (ViewSpans::BaselineByDate { .. }, Reply::Failed(_)) => {
                &&& next matches ViewSpans::Finished(Outcome::Refused(e))
                &&& is_fetch_error(reply, "fetching latest commits"@, e)
            },
            (ViewSpans::BaselineByDate { query, target }, Reply::All(rows)) => next == (
            ViewSpans::LoadingTarget {
                query,
                target,
                baseline: if rows@.len() == 0 {
                    None
                } else {
                    Some(rows@.last().spec_text(0))
                },
            }),
            (ViewSpans::LoadingTarget { .. }, Reply::Failed(_)) => {
                &&& next matches ViewSpans::Finished(Outcome::Refused(e))
                &&& is_fetch_error(reply, "fetching data for commit"@, e)
            },
            (ViewSpans::LoadingTarget { query, target, baseline }, Reply::All(rows)) => {
                match baseline {
                    Some(b) => {
                        &&& next matches ViewSpans::LoadingBaseline {
                            query: q,
                            target: t,
                            baseline: bl,
                            data,
                        }
                        &&& q == query && t == target && bl == b
                        &&& data.wf()
                        &&& data.groups() == grouped(rows@)
                    },
                    None => {
                        &&& next matches ViewSpans::Finished(Outcome::Answer(page))
                        &&& page.query == query
                        &&& page.target_commit_sha1 == target
                        &&& page.target.wf()
                        &&& page.target.groups() == grouped(rows@)
                        &&& page.baseline is None
                    },
                }
            },
            (ViewSpans::LoadingBaseline { .. }, Reply::Failed(_)) => {
                &&& next matches ViewSpans::Finished(Outcome::Refused(e))
                &&& is_fetch_error(reply, "fetching data for commit"@, e)
            },
            (ViewSpans::LoadingBaseline { query, target, baseline, data }, Reply::All(rows)) => {
                &&& next matches ViewSpans::Finished(Outcome::Answer(page))
                &&& page.query == query
                &&& page.target_commit_sha1 == target
                &&& page.target == data
                &&& page.baseline matches Some((commit, spans)) && commit == baseline && spans.wf()
                    && spans.groups() == grouped(rows@)
            },
            _ => next == self,
        }
    }

    open spec fn distance(&self) -> (nat, nat, nat) {
        match self {
            ViewSpans::TargetByTag { .. } => (7, 0, 0),
            ViewSpans::TargetByBranch { search, .. } => (6, search.distance().0, 0),
            ViewSpans::BaselineByTag { .. } => (5, 0, 0),
            ViewSpans::BaselineByBranch { search, .. } => (4, search.distance().0, 0),
            ViewSpans::BaselineByDate { .. } => (3, 0, 0),
            ViewSpans::LoadingTarget { .. } => (2, 0, 0),
            ViewSpans::LoadingBaseline { .. } => (1, 0, 0),
            ViewSpans::Finished(_) => (0, 0, 0),
        }
    }

    proof fn waits_or_ended(&self) {
    }

    proof fn gets_closer(self, reply: Reply, next: Self) {
        match (self, next) {
            (
                ViewSpans::TargetByBranch { search, .. },
                ViewSpans::TargetByBranch { search: s, .. },
            ) => {
                search.waits_or_ended();
                if search.result() is None {
                    search.gets_closer(reply, s);
                }
            },
            (
                ViewSpans::BaselineByBranch { search, .. },
                ViewSpans::BaselineByBranch { search: s, .. },
            ) => {
                search.waits_or_ended();
                if search.result() is None {
                    search.gets_closer(reply, s);
                }
            },
            _ => {},
        }
    }

    fn request(&self) -> (request: Option<Request>) {
        match self {
            ViewSpans::TargetByTag { query, tag } => Some(
                Request::FetchOptional(
                    Query::TaggedCommit {
                        workload_name: query.workload_name.clone(),
                        tag: tag.clone(),
                    },
                ),
            ),
            ViewSpans::TargetByBranch { search, .. } => match search.request() {
                Some(request) => Some(request),
                None => Some(Request::Continue),
            },
            ViewSpans::BaselineByTag { query, tag, .. } => Some(
                Request::FetchOptional(
                    Query::TaggedCommit {
                        workload_name: query.workload_name.clone(),
                        tag: tag.clone(),
                    },
                ),
            ),
            ViewSpans::BaselineByBranch { search, .. } => match search.request() {
                Some(request) => Some(request),
                None => Some(Request::Continue),
            },
            ViewSpans::BaselineByDate { query, target } => Some(
                Request::FetchAll(
                    Query::LatestCommits {
                        workload_name: query.workload_name.clone(),
                        before: target.clone(),
                        count: 1,
                    },
                ),
            ),
            ViewSpans::LoadingTarget { query, target, .. } => Some(
                Request::FetchAll(
                    Query::CommitData {
                        workload_name: query.workload_name.clone(),
                        commit_sha1: target.clone(),
                    },
                ),
            ),
            ViewSpans::LoadingBaseline { query, baseline, .. } => Some(
                Request::FetchAll(
                    Query::CommitData {
                        workload_name: query.workload_name.clone(),
                        commit_sha1: baseline.clone(),
                    },
                ),
            ),
            ViewSpans::Finished(_) => None,
        }
    }

    fn resume(self, reply: Reply) -> (next: Self) {
        match self {
            ViewSpans::TargetByTag { query, tag } => match commit_for_tag(reply) {
                Ok(Some(commit)) => choose_baseline(query, commit.sha1),
                Ok(None) => ViewSpans::Finished(
                    Outcome::Refused(
                        ResponseError::new(
                            "Could not find commit for tag ".to_string().concat(tag.as_str()),
                            StatusCode::NotFound,
                        ),
                    ),
                ),
                Err(refusal) => ViewSpans::Finished(Outcome::Refused(refusal)),
            },
            ViewSpans::TargetByBranch { query, branch, search } => {
                proof {
                    search.waits_or_ended();
                }
                if search.request().is_some() {
                    return ViewSpans::TargetByBranch {
                        query,
                        branch,
                        search: search.resume(reply),
                    };
                }
                match search.finish() {
                    Ok(commits) => {
                        let mut commits = commits;
                        match commits.pop() {
                            Some(commit) => choose_baseline(query, commit.sha1),
                            None => ViewSpans::Finished(
                                Outcome::Refused(
                                    ResponseError::new(
                                        "Could not find commmit on branch ".to_string().concat(
                                            branch.as_str(),
                                        ),
                                        StatusCode::NotFound,
                                    ),
                                ),
                            ),
                        }
                    },
                    Err(refusal) => ViewSpans::Finished(Outcome::Refused(refusal)),
                }
            },
            ViewSpans::BaselineByTag { query, target, .. } => match commit_for_tag(reply) {
                Ok(Some(commit)) => ViewSpans::LoadingTarget {
                    query,
                    target,
                    baseline: Some(commit.sha1),
                },
                Ok(None) => choose_baseline_from_branch(query, target),
                Err(refusal) => ViewSpans::Finished(Outcome::Refused(refusal)),
            },
            ViewSpans::BaselineByBranch { query, target, search } => {
                proof {
                    search.waits_or_ended();
                }
                if search.request().is_some() {
                    return ViewSpans::BaselineByBranch {
                        query,
                        target,
                        search: search.resume(reply),
                    };
                }
                match search.finish() {
                    Ok(commits) => {
                        let mut commits = commits;
                        match commits.pop() {
                            Some(commit) => ViewSpans::LoadingTarget {
                                query,
                                target,
                                baseline: Some(commit.sha1),
                            },
                            None => ViewSpans::BaselineByDate { query, target },
                        }
                    },
                    Err(refusal) => ViewSpans::Finished(Outcome::Refused(refusal)),
                }
            },
            ViewSpans::BaselineByDate { query, target } => {
                match latest_commits_for_worfklow(reply) {
                    Ok(commits) => {
                        let mut commits = commits;
                        let baseline = match commits.pop() {
                            Some(commit) => Some(commit.sha1),
                            None => None,
                        };
                        ViewSpans::LoadingTarget { query, target, baseline }
                    },
                    Err(refusal) => ViewSpans::Finished(Outcome::Refused(refusal)),
                }
            },
            ViewSpans::LoadingTarget { query, target, baseline } => {
                match data_for_commit(reply) {
                    Ok(data) => match baseline {
                        Some(baseline) => ViewSpans::LoadingBaseline {
                            query,
                            target,
                            baseline,
                            data,
                        },
                        None => ViewSpans::Finished(
                            Outcome::Answer(
                                SpansData {
                                    query,
                                    target_commit_sha1: target,
                                    target: data,
                                    baseline: None,
                                },
                            ),
                        ),
                    },
                    Err(refusal) => ViewSpans::Finished(Outcome::Refused(refusal)),
                }
            },
            ViewSpans::LoadingBaseline { query, target, baseline, data } => {
                match data_for_commit(reply) {
                    Ok(spans) => ViewSpans::Finished(
                        Outcome::Answer(
                            SpansData {
                                query,
                                target_commit_sha1: target,
                                target: data,
                                baseline: Some((baseline, spans)),
                            },
                        ),
                    ),
                    Err(refusal) => ViewSpans::Finished(Outcome::Refused(refusal)),
                }
            },
            ViewSpans::Finished(outcome) => ViewSpans::Finished(outcome),
        }
    }

    fn finish(self) -> (output: Outcome<SpansData>) {
        match self {
            ViewSpans::Finished(outcome) => outcome,
            _ => vstd::pervasive::unreached(),
        }
    }
}

/// A commit that the request names is the one that is shown, whatever else it names, and the
/// same holds of the commit that it is compared with.
pub proof fn named_commits_are_shown(query: ViewSpansQuery, flow: ViewSpans)
    requires
        spans_begin(query, flow),
        query.commit_sha1 is Some,
    ensures
        match flow {
            ViewSpans::BaselineByTag { target, .. } => Some(target) == query.commit_sha1,
            ViewSpans::BaselineByBranch { target, .. } => Some(target) == query.commit_sha1,
            ViewSpans::BaselineByDate { target, .. } => Some(target) == query.commit_sha1,
            ViewSpans::LoadingTarget { target, baseline, .. } => Some(target) == query.commit_sha1
                && baseline == query.baseline_commit,
            _ => false,
        },
        query.baseline_commit is Some <==> flow is LoadingTarget,
{
}

/// The measurements that the flow holds are in the order of their spans.
pub open spec fn is_in_order(flow: ViewSpans) -> bool {
    match flow {
        ViewSpans::LoadingBaseline { data, .. } => data.wf(),
        ViewSpans::Finished(Outcome::Answer(page)) => {
            &&& page.target.wf()
            &&& page.baseline matches Some((_, spans)) ==> spans.wf()
        },
        _ => true,
    }
}

/// From its beginning to its end the flow holds measurements in the order of their spans only.
pub proof fn measurements_stay_in_order(
    query: ViewSpansQuery,
    flow: ViewSpans,
    reply: Reply,
    next: ViewSpans,
)
    ensures
        spans_begin(query, flow) ==> is_in_order(flow),
        is_in_order(flow) && flow.leads_to(reply, next) && (flow.pending() matches Some(request)
            && request.accepts(reply)) ==> is_in_order(next),
{
}

/// The target is the commit that the request names, if it names one.
pub open spec fn is_named_target(query: ViewSpansQuery, target: String) -> bool {
    query.commit_sha1 matches Some(commit) ==> target == commit
}

/// The baseline is the commit that the request names, if it names one.
pub open spec fn is_named_baseline(query: ViewSpansQuery, baseline: Option<String>) -> bool {
    query.baseline_commit is Some ==> baseline == query.baseline_commit
}

/// The flow keeps to what the request names: a commit comes before a tag, and a tag before a
/// branch, for the target and for the baseline.
pub open spec fn keeps_to(query: ViewSpansQuery, flow: ViewSpans) -> bool {
    match flow {
        ViewSpans::TargetByTag { query: q, tag } => {
            &&& q == query
            &&& query.commit_sha1 is None
            &&& query.target_tag == Some(tag)
        },
        ViewSpans::TargetByBranch { query: q, branch, .. } => {
            &&& q == query
            &&& query.commit_sha1 is None
            &&& query.target_tag is None
            &&& query.target_branch == Some(branch)
        },
        ViewSpans::BaselineByTag { query: q, target, tag } => {
            &&& q == query
            &&& is_named_target(query, target)
            &&& query.baseline_commit is None
            &&& query.baseline_tag == Some(tag)
        },
        ViewSpans::BaselineByBranch { query: q, target, .. } => {
            &&& q == query
            &&& is_named_target(query, target)
            &&& query.baseline_commit is None
            &&& query.baseline_branch is Some
        },
        ViewSpans::BaselineByDate { query: q, target } => {
            &&& q == query
            &&& is_named_target(query, target)
            &&& query.baseline_commit is None
        },
        ViewSpans::LoadingTarget { query: q, target, baseline } => {
            &&& q == query
            &&& is_named_target(query, target)
            &&& is_named_baseline(query, baseline)
        },
        ViewSpans::LoadingBaseline { query: q, target, baseline, .. } => {
            &&& q == query
            &&& is_named_target(query, target)
            &&& is_named_baseline(query, Some(baseline))
        },
        ViewSpans::Finished(Outcome::Answer(page)) => {
            &&& page.query == query
            &&& is_named_target(query, page.target_commit_sha1)
            &&& query.baseline_commit matches Some(commit) ==> {
                &&& page.baseline matches Some((baseline, _))
                &&& baseline == commit
            }
        },
        ViewSpans::Finished(_) => true,
    }
}

/// From the request to the answer, the commits that the request names are those that are shown
/// and compared, however the other one was found.
pub proof fn named_commits_are_kept_to(
    query: ViewSpansQuery,
    states: Seq<ViewSpans>,
    replies: Seq<Reply>,
    i: int,
)
    requires
        is_talk(states, replies),
        spans_begin(query, states[0]),
        0 <= i < states.len(),
    ensures
        keeps_to(query, states[i]),
    decreases i,
{
    if i > 0 {
        named_commits_are_kept_to(query, states, replies, i - 1);
        assert(went_on(states, replies, i - 1));
    }
}

/// With the target `target` known, the baseline is chosen next: the commit that the request names,
/// else the one with the tag that it names, else the latest before the target on the branch that
/// it names, else the latest other commit.
pub open spec fn turns_to_baseline(query: ViewSpansQuery, target: String, flow: ViewSpans) -> bool {
    if query.baseline_commit is Some {
        flow == (ViewSpans::LoadingTarget { query, target, baseline: query.baseline_commit })
    } else if query.baseline_tag is Some {
        &&& flow is BaselineByTag
        &&& flow->BaselineByTag_target == target
        &&& flow.pending() == Some(
            Request::FetchOptional(
                Query::TaggedCommit {
                    workload_name: query.workload_name,
                    tag: query.baseline_tag->Some_0,
                },
            ),
        )
    } else {
        turns_to_branch(query, target, flow)
    }
}

/// Without a commit and a tag, the baseline is the latest before the target on the branch that the
/// request names, or else the latest other commit.
pub open spec fn turns_to_branch(query: ViewSpansQuery, target: String, flow: ViewSpans) -> bool {
    if query.baseline_branch is Some {
        &&& flow matches ViewSpans::BaselineByBranch { target: t, search, .. }
        &&& t == target
        &&& search == branch_search(
            query.baseline_branch->Some_0,
            1,
            Some(target),
            query.workload_name,
        )
    } else {
        flow == (ViewSpans::BaselineByDate { query, target })
    }
}

/// The target is looked up by what the request names first of a commit, a tag and a branch, and a
/// request that names none of them is refused.
pub proof fn target_is_what_the_request_names(query: ViewSpansQuery, flow: ViewSpans)
    requires
        spans_begin(query, flow),
    ensures
        query.commit_sha1 matches Some(commit) ==> turns_to_baseline(query, commit, flow),
        query.commit_sha1 is None ==> (query.target_tag matches Some(tag) ==> flow.pending() == Some(
            Request::FetchOptional(
                Query::TaggedCommit { workload_name: query.workload_name, tag },
            ),
        )),
        query.commit_sha1 is None && query.target_tag is None ==> (query.target_branch matches Some(
            branch,
        ) ==> flow.pending() == Some(
            Request::FetchAll(
                Query::BranchCommits { workload_name: query.workload_name, branch, count: 1 },
            ),
        )),
        query.commit_sha1 is None && query.target_tag is None && query.target_branch is None ==> {
            &&& flow.result() matches Some(Outcome::Refused(e))
            &&& e.says(
                seq!["Specify one of commit_sha1, target_branch or target_tag"@],
                StatusCode::BadRequest,
            )
        },
{
}

/// A target that was looked up is the commit that was found, and its baseline is then chosen by
/// what the request names. A tag or a branch without a commit is not found.
pub proof fn found_target_is_shown(
    query: ViewSpansQuery,
    flow: ViewSpans,
    reply: Reply,
    next: ViewSpans,
)
    requires
        keeps_to(query, flow),
        flow.pending() matches Some(request) && request.accepts(reply),
        flow.leads_to(reply, next),
    ensures
        flow is TargetByTag ==> match reply {
            Reply::Failed(error) => next.result() matches Some(Outcome::Refused(e)) && e.says(
                seq!["fetching commit for tag"@] + error@,
                StatusCode::InternalServerError,
            ),
            Reply::Optional(None) => next.result() matches Some(Outcome::Refused(e)) && e.says(
                seq!["Could not find commit for tag "@ + query.target_tag->Some_0@],
                StatusCode::NotFound,
            ),
            Reply::Optional(Some(row)) => {
                &&& row.cells@[0] matches Value::Text(target)
                &&& turns_to_baseline(query, target, next)
            },
            _ => false,
        },
        flow matches ViewSpans::TargetByBranch { search, .. } ==> match search.result() {
            None => {
                &&& flow.pending() == search.pending()
                &&& next matches ViewSpans::TargetByBranch { search: s, .. }
                &&& search.leads_to(reply, s)
            },
            Some(Err(refusal)) => next.result() == Some(Outcome::<SpansData>::Refused(refusal)),
            Some(Ok(commits)) => if commits@.len() == 0 {
                &&& next.result() matches Some(Outcome::Refused(e))
                &&& e.says(
                    seq!["Could not find commmit on branch "@ + query.target_branch->Some_0@],
                    StatusCode::NotFound,
                )
            } else {
                turns_to_baseline(query, commits@.last().sha1, next)
            },
        },
{
    if let ViewSpans::TargetByBranch { search, .. } = flow {
        search.waits_or_ended();
    }
}

/// A baseline that was looked up is the commit that was found: with the tag, on the branch, or as
/// the latest other commit, each for the workload that the request names. What is not found is
/// looked up in the next way, and there is no baseline only if there is no other commit.
pub proof fn found_baseline_is_compared_with(
    query: ViewSpansQuery,
    flow: ViewSpans,
    reply: Reply,
    next: ViewSpans,
)
    requires
        keeps_to(query, flow),
        flow.pending() matches Some(request) && request.accepts(reply),
        flow.leads_to(reply, next),
    ensures
        flow matches ViewSpans::BaselineByTag { target, .. } ==> match reply {
            Reply::Failed(error) => next.result() matches Some(Outcome::Refused(e)) && e.says(
                seq!["fetching commit for tag"@] + error@,
                StatusCode::InternalServerError,
            ),
            Reply::Optional(None) => turns_to_branch(query, target, next),
            Reply::Optional(Some(row)) => {
                &&& row.cells@[0] matches Value::Text(baseline)
                &&& next == (ViewSpans::LoadingTarget { query, target, baseline: Some(baseline) })
            },
            _ => false,
        },
        flow matches ViewSpans::BaselineByBranch { target, search, .. } ==> match search.result() {
            None => {
                &&& flow.pending() == search.pending()
                &&& next matches ViewSpans::BaselineByBranch { target: t, search: s, .. }
                &&& t == target
                &&& search.leads_to(reply, s)
            },
            Some(Err(refusal)) => next.result() == Some(Outcome::<SpansData>::Refused(refusal)),
            Some(Ok(commits)) => if commits@.len() == 0 {
                next == (ViewSpans::BaselineByDate { query, target })
            } else {
                next == (ViewSpans::LoadingTarget {
                    query,
                    target,
                    baseline: Some(commits@.last().sha1),
                })
            },
        },
        flow matches ViewSpans::BaselineByDate { target, .. } ==> {
            &&& flow.pending() == Some(
                Request::FetchAll(
                    Query::LatestCommits {
                        workload_name: query.workload_name,
                        before: target,
                        count: 1,
                    },
                ),
            )
            &&& reply matches Reply::All(rows) ==> {
                &&& next matches ViewSpans::LoadingTarget { target: t, baseline, .. }
                &&& t == target
                &&& rows@.len() == 0 <==> baseline is None
                &&& baseline matches Some(sha1) ==> rows@.last().cells@[0] == Value::Text(sha1)
            }
            &&& reply matches Reply::Failed(error) ==> {
                &&& next.result() matches Some(Outcome::Refused(e))
                &&& e.says(
                    seq!["fetching latest commits"@] + error@,
                    StatusCode::InternalServerError,
                )
            }
        },
{
    if let ViewSpans::BaselineByBranch { search, .. } = flow {
        search.waits_or_ended();
    }
    if let Reply::All(rows) = reply {
        if flow is BaselineByDate && rows@.len() > 0 {
            assert(rows@[rows@.len() - 1].fits(seq![crate::query::Column::Text]));
        }
    }
}

/// What is shown of a commit is what was read for it: the target is read for the workload and the
/// target commit, the baseline for the same workload and the baseline commit, and each is put where
/// it belongs.
pub proof fn each_commit_is_read_for_itself(
    query: ViewSpansQuery,
    flow: ViewSpans,
    reply: Reply,
    next: ViewSpans,
)
    requires
        keeps_to(query, flow),
        flow.pending() matches Some(request) && request.accepts(reply),
        flow.leads_to(reply, next),
    ensures
        flow matches ViewSpans::LoadingTarget { target, baseline, .. } ==> {
            &&& flow.pending() == Some(
                Request::FetchAll(
                    Query::CommitData { workload_name: query.workload_name, commit_sha1: target },
                ),
            )
            &&& reply matches Reply::All(rows) ==> match baseline {
                Some(commit) => {
                    &&& next matches ViewSpans::LoadingBaseline { target: t, baseline: b, data, .. }
                    &&& t == target
                    &&& b == commit
                    &&& data.groups() == grouped(rows@)
                },
                None => {
                    &&& next.result() matches Some(Outcome::Answer(page))
                    &&& page.target_commit_sha1 == target
                    &&& page.target.groups() == grouped(rows@)
                    &&& page.baseline is None
                },
            }
        },
        flow matches ViewSpans::LoadingBaseline { target, baseline, data, .. } ==> {
            &&& flow.pending() == Some(
                Request::FetchAll(
                    Query::CommitData { workload_name: query.workload_name, commit_sha1: baseline },
                ),
            )
            &&& reply matches Reply::All(rows) ==> {
                &&& next.result() matches Some(Outcome::Answer(page))
                &&& page.target_commit_sha1 == target
                &&& page.target.groups() == data.groups()
                &&& page.baseline matches Some((commit, spans))
                &&& commit == baseline
                &&& spans.groups() == grouped(rows@)
            }
        },
        flow is LoadingTarget || flow is LoadingBaseline ==> (reply matches Reply::Failed(error) ==> {
            &&& next.result() matches Some(Outcome::Refused(e))
            &&& e.says(
                seq!["fetching data for commit"@] + error@,
                StatusCode::InternalServerError,
            )
        }),
{
}

/// The flow has settled on a baseline: it loads what was measured there, or has shown it, or has
/// failed on the way.
pub open spec fn settled_on(flow: ViewSpans, baseline: Value) -> bool {
    match flow {
        ViewSpans::LoadingTarget { baseline: b, .. } => b is Some && baseline == Value::Text(
            b->Some_0,
        ),
        ViewSpans::LoadingBaseline { baseline: b, .. } => baseline == Value::Text(b),
        ViewSpans::Finished(Outcome::Answer(page)) => {
            &&& page.baseline matches Some((commit, _))
            &&& baseline == Value::Text(commit)
        },
        ViewSpans::Finished(_) => true,
        _ => false,
    }
}

/// However the target was found: where the request names a tag for the baseline and no commit, no
/// page is answered before a commit with that tag was asked for; and once one was found, that
/// commit is the baseline up to the answer.
pub proof fn tagged_baseline_is_compared_with(
    query: ViewSpansQuery,
    states: Seq<ViewSpans>,
    replies: Seq<Reply>,
    i: int,
) -> (asked: int)
    requires
        is_talk(states, replies),
        spans_begin(query, states[0]),
        query.baseline_commit is None,
        query.baseline_tag is Some,
        0 <= i < states.len(),
        states[i].result() matches Some(Outcome::Answer(_)),
    ensures
        0 <= asked < i,
        states[asked] is BaselineByTag,
        states[asked].pending() == Some(
            Request::FetchOptional(
                Query::TaggedCommit {
                    workload_name: query.workload_name,
                    tag: query.baseline_tag->Some_0,
                },
            ),
        ),
        replies[asked] matches Reply::Optional(Some(row)) ==> settled_on(states[i], row.cells@[0]),
{
    let asked = tag_was_asked_for(query, states, replies, i);
    named_commits_are_kept_to(query, states, replies, asked);
    if let Reply::Optional(Some(row)) = replies[asked] {
        tag_is_kept_to(query, states, replies, asked, i);
    }
    asked
}

/// Once the target is known, the tag of the baseline was asked for.
proof fn tag_was_asked_for(
    query: ViewSpansQuery,
    states: Seq<ViewSpans>,
    replies: Seq<Reply>,
    i: int,
) -> (asked: int)
    requires
        is_talk(states, replies),
        spans_begin(query, states[0]),
        query.baseline_commit is None,
        query.baseline_tag is Some,
        0 <= i < states.len(),
        match states[i] {
            ViewSpans::TargetByTag { .. } => false,
            ViewSpans::TargetByBranch { .. } => false,
            ViewSpans::BaselineByTag { .. } => false,
            ViewSpans::Finished(Outcome::Refused(_)) => false,
            _ => true,
        },
    ensures
        0 <= asked < i,
        states[asked] is BaselineByTag,
    decreases i,
{
    assert(i > 0);
    assert(went_on(states, replies, i - 1));
    named_commits_are_kept_to(query, states, replies, i - 1);
    match states[i - 1] {
        ViewSpans::BaselineByTag { .. } => i - 1,
        _ => tag_was_asked_for(query, states, replies, i - 1),
    }
}

/// A commit that was found by its tag stays the baseline.
proof fn tag_is_kept_to(
    query: ViewSpansQuery,
    states: Seq<ViewSpans>,
    replies: Seq<Reply>,
    asked: int,
    i: int,
)
    requires
        is_talk(states, replies),
        spans_begin(query, states[0]),
        0 <= asked < i < states.len(),
        states[asked] is BaselineByTag,
        replies[asked] matches Reply::Optional(Some(_)),
    ensures
        settled_on(states[i], replies[asked]->Optional_0->Some_0.cells@[0]),
    decreases i,
{
    assert(went_on(states, replies, i - 1));
    if i > asked + 1 {
        tag_is_kept_to(query, states, replies, asked, i - 1);
    } else {
        let row = replies[asked]->Optional_0->Some_0;
        assert(row.cells@[0].kind() == crate::query::Column::Text);
    }
}

} // verus!
