//! The page that shows one span of a workload on a commit and on those before it.

use crate::commits::{
    branch_search, data_for_span, is_fetch_error, latest_commits_for_branch, measurements_of,
    BranchCommits, Commit,
};
use crate::error::Outcome;
use crate::flow::{is_talk, went_on, Flow, Reply, Request};
use crate::model::CallStats;
use crate::query::Query;
use vstd::prelude::*;

verus! {

/// What the page is asked to show.
pub struct ViewSpanQuery {
    pub workload_name: String,
    pub span: String,
    pub target: String,
    pub baseline: Option<String>,
    pub target_branch: Option<String>,
    pub baseline_branch: Option<String>,
    pub target_tag: Option<String>,
    pub baseline_tag: Option<String>,
}

/// What the page shows: the measurements of the target, and those of the commits that it is
/// compared with, in the order in which they are drawn.
pub struct SpanData {
    pub query: ViewSpanQuery,
    pub target: Vec<CallStats>,
    pub baselines: Vec<(String, Vec<CallStats>)>,
}

/// Loading what was measured of a span.
pub enum ViewSpan {
    LoadingTarget { query: ViewSpanQuery },
    /// The commits of the baseline branch are looked up.
    Searching { query: ViewSpanQuery, target: Vec<CallStats>, search: BranchCommits },
    /// The commits in `rest` are to come, the next one last.
    LoadingBaselines {
        query: ViewSpanQuery,
        target: Vec<CallStats>,
        rest: Vec<String>,
        done: Vec<(String, Vec<CallStats>)>,
    },
    Finished(Outcome<SpanData>),
}

/// The commits to compare with, in the order in which they are drawn: those of the branch, the
/// oldest first, and then the baseline itself.
pub open spec fn drawing_order(commits: Seq<Commit>, baseline: Option<String>) -> Seq<String> {
    let hashes = commits.map_values(|commit: Commit| commit.sha1).reverse();
    match baseline {
        Some(sha1) => hashes.push(sha1),
        None => hashes,
    }
}

/// How the handling of a request for the page begins.
pub open spec fn span_begins(query: ViewSpanQuery, flow: ViewSpan) -> bool {
    flow == (ViewSpan::LoadingTarget { query })
}

/// Loads what was measured of a span on a commit and on those that it is compared with.
pub fn view_span(query: ViewSpanQuery) -> (flow: ViewSpan)
    ensures
        span_begins(query, flow),
{
    ViewSpan::LoadingTarget { query }
}

/// The measurements of the commits `commits` of the branch and of the baseline are to be loaded.
pub open spec fn loading_begins(
    query: ViewSpanQuery,
    target: Seq<CallStats>,
    commits: Seq<Commit>,
    flow: ViewSpan,
) -> bool {
    &&& flow matches ViewSpan::LoadingBaselines { query: q, target: t, rest, done }
    &&& q == query
    &&& t@ == target
    &&& rest@ == drawing_order(commits, query.baseline).reverse()
    &&& done@.len() == 0
}

/// Begins to load the measurements of the commits of the branch and of the baseline.
fn load_baselines(query: ViewSpanQuery, target: Vec<CallStats>, commits: Vec<Commit>) -> (flow:
    ViewSpan)
    ensures
        loading_begins(query, target@, commits@, flow),
{
    let mut rest: Vec<String> = Vec::new();
    if let Some(sha1) = query.baseline.clone() {
        rest.push(sha1);
    }
    let ghost first = rest@;
    let ghost hashes = commits@.map_values(|commit: Commit| commit.sha1);
    let mut i: usize = 0;
    while i < commits.len()
        invariant
            i <= commits.len(),
            hashes == commits@.map_values(|commit: Commit| commit.sha1),
            rest@ == first + hashes.take(i as int),
        decreases commits.len() - i,
    {
        rest.push(commits[i].sha1.clone());
        i += 1;
        assert(rest@ =~= first + hashes.take(i as int));
    }
    assert(rest@ =~= drawing_order(commits@, query.baseline).reverse());
    ViewSpan::LoadingBaselines { query, target, rest, done: Vec::new() }
}

impl Flow for ViewSpan {
    type Output = Outcome<SpanData>;

    open spec fn pending(&self) -> Option<Request> {
        match self {
            ViewSpan::LoadingTarget { query } => Some(
                Request::FetchAll(
                    Query::SpanData {
                        span: query.span,
                        workload_name: query.workload_name,
                        commit_sha1: query.target,
                    },
                ),
            ),
            ViewSpan::Searching { search, .. } => match search.pending() {
                Some(request) => Some(request),
                None => Some(Request::Continue),
            },
            ViewSpan::LoadingBaselines { query, rest, .. } => if rest@.len() == 0 {
                Some(Request::Continue)
            } else {
                Some(
                    Request::FetchAll(
                        Query::SpanData {
                            span: query.span,
                            workload_name: query.workload_name,
                            commit_sha1: rest@.last(),
                        },
                    ),
                )
            },
            ViewSpan::Finished(_) => None,
        }
    }

    open spec fn result(&self) -> Option<Outcome<SpanData>> {
        match self {
            ViewSpan::Finished(outcome) => Some(*outcome),
            _ => None,
        }
    }

    open spec fn leads_to(self, reply: Reply, next: Self) -> bool {
        match (self, reply) {
            (ViewSpan::LoadingTarget { .. }, Reply::Failed(_)) => {
                &&& next matches ViewSpan::Finished(Outcome::Refused(e))
                &&& is_fetch_error(reply, "fetching data for span"@, e)
            },
            (ViewSpan::LoadingTarget { query }, Reply::All(rows)) => match query.baseline_branch {
                Some(branch) => {
                    &&& next matches ViewSpan::Searching { query: q, target, search }
                    &&& q == query
                    &&& target@ == measurements_of(rows@)
                    &&& search == branch_search(branch, 4, query.baseline, query.workload_name)
                },
                None => loading_begins(query, measurements_of(rows@), Seq::empty(), next),
            },
            (ViewSpan::Searching { query, target, search }, _) => match search.result() {
                None => {
                    &&& next matches ViewSpan::Searching { query: q, target: t, search: s }
                    &&& q == query && t == target
                    &&& search.leads_to(reply, s)
                },
                Some(Err(refusal)) => next == ViewSpan::Finished(Outcome::Refused(refusal)),
                Some(Ok(commits)) => loading_begins(query, target@, commits@, next),
            },
            (ViewSpan::LoadingBaselines { .. }, Reply::Failed(_)) => {
                &&& next matches ViewSpan::Finished(Outcome::Refused(e))
                &&& is_fetch_error(reply, "fetching data for span"@, e)
            },
            (ViewSpan::LoadingBaselines { query, target, done, .. }, Reply::Continued) => next
                == ViewSpan::Finished(
                Outcome::Answer(SpanData { query, target, baselines: done }),
            ),
            (ViewSpan::LoadingBaselines { query, target, rest, done }, Reply::All(rows)) => {
                &&& next matches ViewSpan::LoadingBaselines {
                    query: q,
                    target: t,
                    rest: r,
                    done: d,
                }
                &&& q == query && t == target
                &&& r@ == rest@.drop_last()
                &&& d@.len() == done@.len() + 1
                &&& d@.drop_last() == done@
                &&& d@.last().0 == rest@.last()
                &&& d@.last().1@ == measurements_of(rows@)
            },
            _ => next == self,
        }
    }

    open spec fn distance(&self) -> (nat, nat, nat) {
        match self {
            ViewSpan::LoadingTarget { .. } => (3, 0, 0),
            ViewSpan::Searching { search, .. } => (2, search.distance().0, 0),
            ViewSpan::LoadingBaselines { rest, .. } => (1, rest@.len(), 0),
            ViewSpan::Finished(_) => (0, 0, 0),
        }
    }

    proof fn waits_or_ended(&self) {
    }

    proof fn gets_closer(self, reply: Reply, next: Self) {
        match (self, next) {
            (ViewSpan::Searching { search, .. }, ViewSpan::Searching { search: s, .. }) => {
                search.waits_or_ended();
                if search.result() is None {
                    search.gets_closer(reply, s);
                }
            },
            _ => {},
        }
    }

    fn request(&self) -> (request: Option<Request>) {
        match self {
            ViewSpan::LoadingTarget { query } => Some(
                Request::FetchAll(
                    Query::SpanData {
                        span: query.span.clone(),
                        workload_name: query.workload_name.clone(),
                        commit_sha1: query.target.clone(),
                    },
                ),
            ),
            ViewSpan::Searching { search, .. } => match search.request() {
                Some(request) => Some(request),
                None => Some(Request::Continue),
            },
            ViewSpan::LoadingBaselines { query, rest, .. } => if rest.len() == 0 {
                Some(Request::Continue)
            } else {
                Some(
                    Request::FetchAll(
                        Query::SpanData {
                            span: query.span.clone(),
                            workload_name: query.workload_name.clone(),
                            commit_sha1: rest[rest.len() - 1].clone(),
                        },
                    ),
                )
            },
            ViewSpan::Finished(_) => None,
        }
    }

    fn resume(self, reply: Reply) -> (next: Self) {
        match self {
            ViewSpan::LoadingTarget { query } => match data_for_span(reply) {
                Ok(target) => match query.baseline_branch.clone() {
                    Some(branch) => {
                        let search = latest_commits_for_branch(
                            branch,
                            4,
                            query.baseline.clone(),
                            query.workload_name.clone(),
                        );
                        ViewSpan::Searching { query, target, search }
                    },
                    None => load_baselines(query, target, Vec::new()),
                },
                Err(refusal) => ViewSpan::Finished(Outcome::Refused(refusal)),
            },
            ViewSpan::Searching { query, target, search } => {
                proof {
                    search.waits_or_ended();
                }
                if search.request().is_some() {
                    return ViewSpan::Searching { query, target, search: search.resume(reply) };
                }
                match search.finish() {
                    Ok(commits) => load_baselines(query, target, commits),
                    Err(refusal) => ViewSpan::Finished(Outcome::Refused(refusal)),
                }
            },
            ViewSpan::LoadingBaselines { query, target, rest, done } => {
                let mut rest = rest;
                match rest.pop() {
                    None => ViewSpan::Finished(
                        Outcome::Answer(SpanData { query, target, baselines: done }),
                    ),
                    Some(sha1) => match data_for_span(reply) {
                        Ok(data) => {
                            let ghost before = done@;
                            let mut done = done;
                            done.push((sha1, data));
                            assert(done@.drop_last() =~= before);
                            ViewSpan::LoadingBaselines { query, target, rest, done }
                        },
                        Err(refusal) => ViewSpan::Finished(Outcome::Refused(refusal)),
                    },
                }
            },
            ViewSpan::Finished(outcome) => ViewSpan::Finished(outcome),
        }
    }

    fn finish(self) -> (output: Outcome<SpanData>) {
        match self {
            ViewSpan::Finished(outcome) => outcome,
            _ => vstd::pervasive::unreached(),
        }
    }
}

/// The hashes of the commits whose measurements have been loaded.
pub open spec fn loaded(done: Seq<(String, Vec<CallStats>)>) -> Seq<String> {
    done.map_values(|entry: (String, Vec<CallStats>)| entry.0)
}

/// The measurements of the commits in `order` are being loaded, or have been.
pub open spec fn loads(flow: ViewSpan, order: Seq<String>) -> bool {
    match flow {
        ViewSpan::LoadingBaselines { rest, done, .. } => loaded(done@) + rest@.reverse() == order,
        ViewSpan::Finished(Outcome::Answer(page)) => loaded(page.baselines@) == order,
        ViewSpan::Finished(_) => true,
        _ => false,
    }
}

/// The page shows every commit that it is to be compared with, each once and in the order in
/// which they are drawn.
pub proof fn every_baseline_is_shown(
    flow: ViewSpan,
    order: Seq<String>,
    reply: Reply,
    next: ViewSpan,
)
    requires
        loads(flow, order),
        flow.pending() matches Some(request) && request.accepts(reply),
        flow.leads_to(reply, next),
    ensures
        loads(next, order),
{
    match (flow, next) {
        (
            ViewSpan::LoadingBaselines { rest, done, .. },
            ViewSpan::LoadingBaselines { rest: r, done: d, .. },
        ) => {
            assert(loaded(d@) =~= loaded(done@).push(rest@.last())) by {
                assert forall|i: int| 0 <= i < done@.len() implies d@[i] == done@[i] by {
                    assert(d@.drop_last()[i] == d@[i]);
                }
            }
            assert(loaded(d@) + r@.reverse() =~= loaded(done@) + rest@.reverse());
        },
        (ViewSpan::LoadingBaselines { rest, done, .. }, ViewSpan::Finished(_)) => {
            if rest@.len() == 0 {
                assert(loaded(done@) + rest@.reverse() =~= loaded(done@));
            }
        },
        _ => {},
    }
}

/// When loading begins, all commits are to come; with a baseline the last of them is it, and
/// before it stand those of its branch, the latest of them nearest to it.
pub proof fn baselines_begin(
    query: ViewSpanQuery,
    target: Seq<CallStats>,
    commits: Seq<Commit>,
    flow: ViewSpan,
)
    requires
        loading_begins(query, target, commits, flow),
    ensures
        loads(flow, drawing_order(commits, query.baseline)),
        query.baseline matches Some(sha1) ==> drawing_order(commits, query.baseline).last() == sha1,
        forall|i: int|
            0 <= i < commits.len() ==> #[trigger] drawing_order(
                commits,
                query.baseline,
            )[commits.len() - 1 - i] == commits[i].sha1,
{
    let order = drawing_order(commits, query.baseline);
    assert(order.reverse().reverse() =~= order);
    match flow {
        ViewSpan::LoadingBaselines { rest, done, .. } => {
            assert(loaded(done@) + rest@.reverse() =~= order);
        },
        _ => {},
    }
}

/// The request that the flow is about.
pub open spec fn is_about(query: ViewSpanQuery, flow: ViewSpan) -> bool {
    match flow {
        ViewSpan::LoadingTarget { query: q } => q == query,
        ViewSpan::Searching { query: q, .. } => q == query,
        ViewSpan::LoadingBaselines { query: q, .. } => q == query,
        ViewSpan::Finished(Outcome::Answer(page)) => page.query == query,
        ViewSpan::Finished(_) => true,
    }
}

/// From the request to the answer, the flow is about what the request asks for.
pub proof fn span_request_is_kept_to(
    query: ViewSpanQuery,
    states: Seq<ViewSpan>,
    replies: Seq<Reply>,
    i: int,
)
    requires
        is_talk(states, replies),
        span_begins(query, states[0]),
        0 <= i < states.len(),
    ensures
        is_about(query, states[i]),
        states[0].pending() == Some(
            Request::FetchAll(
                Query::SpanData {
                    span: query.span,
                    workload_name: query.workload_name,
                    commit_sha1: query.target,
                },
            ),
        ),
    decreases i,
{
    if i > 0 {
        span_request_is_kept_to(query, states, replies, i - 1);
        assert(went_on(states, replies, i - 1));
    }
}

/// The commits to compare with are four of the branch that the request names, before the baseline
/// that it names, and that baseline itself. They are drawn after one another, the latest of the
/// branch last, and the baseline after it.
pub proof fn baselines_are_what_the_request_names(
    query: ViewSpanQuery,
    flow: ViewSpan,
    reply: Reply,
    next: ViewSpan,
)
    requires
        is_about(query, flow),
        flow.pending() matches Some(request) && request.accepts(reply),
        flow.leads_to(reply, next),
    ensures
        flow is LoadingTarget ==> (reply matches Reply::All(rows) ==> match query.baseline_branch {
            Some(branch) => {
                &&& next matches ViewSpan::Searching { target, search, .. }
                &&& target@ == measurements_of(rows@)
                &&& search == branch_search(branch, 4, query.baseline, query.workload_name)
            },
            None => {
                &&& next matches ViewSpan::LoadingBaselines { target, rest, done, .. }
                &&& target@ == measurements_of(rows@)
                &&& done@.len() == 0
                &&& query.baseline matches Some(sha1) ==> rest@ == seq![sha1]
                &&& query.baseline is None ==> rest@.len() == 0
            },
        }),
        flow is LoadingTarget ==> (reply matches Reply::Failed(error) ==> {
            &&& next.result() matches Some(Outcome::Refused(e))
            &&& e.says(
                seq!["fetching data for span"@] + error@,
                crate::error::StatusCode::InternalServerError,
            )
        }),
        flow matches ViewSpan::Searching { target, search, .. } ==> match search.result() {
            None => {
                &&& flow.pending() == search.pending()
                &&& next matches ViewSpan::Searching { target: t, search: s, .. }
                &&& t == target
                &&& search.leads_to(reply, s)
            },
            Some(Err(refusal)) => next.result() == Some(Outcome::<SpanData>::Refused(refusal)),
            Some(Ok(commits)) => {
                &&& next matches ViewSpan::LoadingBaselines { target: t, rest, done, .. }
                &&& t@ == target@
                &&& done@.len() == 0
                &&& rest@.len() == commits@.len() + (if query.baseline is Some {
                    1nat
                } else {
                    0nat
                })
                &&& query.baseline matches Some(sha1) ==> rest@[0] == sha1
                &&& forall|i: int|
                    0 <= i < commits@.len() ==> rest@[rest@.len() - commits@.len() + i] == (
                    #[trigger] commits@[i]).sha1
            },
        },
{
    if let ViewSpan::Searching { search, .. } = flow {
        search.waits_or_ended();
        if let Some(Ok(commits)) = search.result() {
            if let ViewSpan::LoadingBaselines { rest, .. } = next {
                let order = drawing_order(commits@, query.baseline);
                assert(rest@ == order.reverse());
            }
        }
    } else if flow is LoadingTarget && query.baseline_branch is None {
        let order = drawing_order(Seq::empty(), query.baseline);
        if let ViewSpan::LoadingBaselines { rest, .. } = next {
            if let Some(sha1) = query.baseline {
                assert(rest@ =~= seq![sha1]);
            }
        }
    }
}

/// Every commit is read for itself: for the span and the workload of the request and for that
/// commit, and what is read is put beside its hash. When none is left, all of them are shown.
pub proof fn each_baseline_is_read_for_itself(
    query: ViewSpanQuery,
    flow: ViewSpan,
    reply: Reply,
    next: ViewSpan,
)
    requires
        is_about(query, flow),
        flow is LoadingBaselines,
        flow.pending() matches Some(request) && request.accepts(reply),
        flow.leads_to(reply, next),
    ensures
        flow matches ViewSpan::LoadingBaselines { target, rest, done, .. } && {
            &&& rest@.len() > 0 ==> flow.pending() == Some(
                Request::FetchAll(
                    Query::SpanData {
                        span: query.span,
                        workload_name: query.workload_name,
                        commit_sha1: rest@.last(),
                    },
                ),
            )
            &&& rest@.len() > 0 ==> (reply matches Reply::All(rows) ==> {
                &&& next matches ViewSpan::LoadingBaselines { target: t, rest: r, done: d, .. }
                &&& t == target
                &&& r@.push(rest@.last()) == rest@
                &&& d@.len() == done@.len() + 1
                &&& forall|i: int| 0 <= i < done@.len() ==> d@[i] == #[trigger] done@[i]
                &&& d@.last().0 == rest@.last()
                &&& d@.last().1@ == measurements_of(rows@)
            })
            &&& rest@.len() > 0 ==> (reply matches Reply::Failed(error) ==> {
                &&& next.result() matches Some(Outcome::Refused(e))
                &&& e.says(
                    seq!["fetching data for span"@] + error@,
                    crate::error::StatusCode::InternalServerError,
                )
            })
            &&& rest@.len() == 0 ==> {
                &&& next.result() matches Some(Outcome::Answer(page))
                &&& page.target == target
                &&& page.baselines == done
            }
        },
{
    match (flow, next) {
        (
            ViewSpan::LoadingBaselines { rest, done, .. },
            ViewSpan::LoadingBaselines { rest: r, done: d, .. },
        ) => {
            assert(r@.push(rest@.last()) =~= rest@);
            assert forall|i: int| 0 <= i < done@.len() implies d@[i] == #[trigger] done@[i] by {
                assert(d@.drop_last()[i] == d@[i]);
            }
        },
        _ => {},
    }
}

} // verus!
