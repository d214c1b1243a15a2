//! What the pages say of a comparison.

use crate::home::WorkloadData;
use crate::lists::reversed;
use crate::model::CallStats;
use crate::span_map::{entry_is_mapped, in_order, names, names_are_distinct, place_of, SpanMap};
use crate::stats::{Arithmetic, Change, Kind, Model, Operation, Relation, Stats, TOTAL_SPAN};
use crate::status::optional_text;
use crate::text::{same_text, text_less};
use crate::view_spans::SpansData;
use vstd::prelude::*;

verus! {

/// How many spans have changed, and how.
#[derive(Debug, Clone, Copy, PartialEq, Eq, Structural)]
pub struct WorkloadSummary {
    pub improvements: usize,
    pub regressions: usize,
    pub unchanged: usize,
    pub unstable: usize,
}

impl WorkloadSummary {
    /// The summary of a comparison without changes.
    pub open spec fn nothing() -> WorkloadSummary {
        WorkloadSummary { improvements: 0, regressions: 0, unchanged: 0, unstable: 0 }
    }
}

impl Default for WorkloadSummary {
    /// The summary of a comparison without changes.
    fn default() -> (summary: WorkloadSummary)
        ensures
            summary == WorkloadSummary::nothing(),
    {
        WorkloadSummary { improvements: 0, regressions: 0, unchanged: 0, unstable: 0 }
    }
}

/// The number of changes of a kind.
pub open spec fn number_of<F>(entries: Seq<(String, Change<F>)>, kind: Kind) -> nat {
    entries.filter(|entry: (String, Change<F>)| entry.1.kind() == kind).len()
}

/// The summary counts the changes of a comparison. Spans that are new or lost are not counted.
pub open spec fn is_summary_of<F>(
    entries: Seq<(String, Change<F>)>,
    summary: WorkloadSummary,
) -> bool {
    &&& summary.improvements == number_of(entries, Kind::Improvement)
    &&& summary.regressions == number_of(entries, Kind::Regression)
    &&& summary.unchanged == number_of(entries, Kind::Stable)
    &&& summary.unstable == number_of(entries, Kind::Unstable)
}

/// One more entry is one more of its kind.
proof fn number_grows<F>(entries: Seq<(String, Change<F>)>, i: int, kind: Kind)
    requires
        0 <= i < entries.len(),
    ensures
        number_of(entries.take(i + 1), kind) == number_of(entries.take(i), kind) + (if entries[i].1.kind()
            == kind {
            1nat
        } else {
            0nat
        }),
        number_of(entries.take(i), kind) <= i,
{
    broadcast use vstd::seq_lib::group_filter_ensures;

    reveal(Seq::filter);
    assert(entries.take(i + 1).drop_last() =~= entries.take(i));
}

/// Counts the changes of a comparison.
pub fn comparison_summary<F>(comparison: &SpanMap<Change<F>>) -> (summary: WorkloadSummary)
    ensures
        is_summary_of(comparison@, summary),
{
    let entries = comparison.entries();
    let mut summary = WorkloadSummary::default();
    let mut i: usize = 0;
    proof {
        reveal(Seq::filter);
        assert(entries@.take(0) =~= Seq::empty());
    }
    while i < entries.len()
        invariant
            i <= entries.len(),
            is_summary_of(entries@.take(i as int), summary),
        decreases entries.len() - i,
    {
        proof {
            number_grows(entries@, i as int, Kind::Improvement);
            number_grows(entries@, i as int, Kind::Regression);
            number_grows(entries@, i as int, Kind::Stable);
            number_grows(entries@, i as int, Kind::Unstable);
        }
        match entries[i].1.to_kind() {
            Kind::New => {},
            Kind::Lost => {},
            Kind::Improvement => {
                summary.improvements += 1;
            },
            Kind::Regression => {
                summary.regressions += 1;
            },
            Kind::Stable => {
                summary.unchanged += 1;
            },
            Kind::Unstable => {
                summary.unstable += 1;
            },
        }
        i += 1;
    }
    assert(entries@.take(i as int) =~= entries@);
    summary
}

/// Every span of a comparison is counted once, or is new or lost.
pub proof fn summary_counts_every_span<F>(
    entries: Seq<(String, Change<F>)>,
    summary: WorkloadSummary,
)
    requires
        is_summary_of(entries, summary),
    ensures
        summary.improvements + summary.regressions + summary.unchanged + summary.unstable
            + number_of(entries, Kind::New) + number_of(entries, Kind::Lost) == entries.len(),
{
    kinds_add_up(entries);
}

/// The numbers of all kinds add up to the number of entries.
proof fn kinds_add_up<F>(entries: Seq<(String, Change<F>)>)
    ensures
        number_of(entries, Kind::Improvement) + number_of(entries, Kind::Regression) + number_of(
            entries,
            Kind::Stable,
        ) + number_of(entries, Kind::Unstable) + number_of(entries, Kind::New) + number_of(
            entries,
            Kind::Lost,
        ) == entries.len(),
    decreases entries.len(),
{
    reveal(Seq::filter);
    if entries.len() > 0 {
        kinds_add_up(entries.drop_last());
    }
}

/// A span with its change.
pub struct SpanChange<F> {
    pub span: String,
    pub change: Change<F>,
}

/// The changes of the list that have a size, in their order.
pub open spec fn of_size<F>(list: Seq<SpanChange<F>>, size: u64) -> Seq<SpanChange<F>> {
    list.filter(|item: SpanChange<F>| item.change.size() == size)
}

/// The sizes do not decrease.
pub open spec fn ascending<F>(list: Seq<SpanChange<F>>) -> bool {
    forall|i: int, j: int|
        0 <= i <= j < list.len() ==> (#[trigger] list[i]).change.size() <= (
        #[trigger] list[j]).change.size()
}

/// `sorted` is the list by size: it has the same changes, their sizes do not decrease, and those
/// of the same size keep their order.
pub open spec fn is_by_size<F>(list: Seq<SpanChange<F>>, sorted: Seq<SpanChange<F>>) -> bool {
    &&& sorted.to_multiset() == list.to_multiset()
    &&& ascending(sorted)
    &&& forall|size: u64| #[trigger] of_size(sorted, size) == of_size(list, size)
}

/// A list whose changes all have other sizes has none of this size.
proof fn none_of_size<F>(list: Seq<SpanChange<F>>, size: u64)
    requires
        forall|i: int| 0 <= i < list.len() ==> (#[trigger] list[i]).change.size() != size,
    ensures
        of_size(list, size) == Seq::<SpanChange<F>>::empty(),
    decreases list.len(),
{
    reveal(Seq::filter);
    if list.len() > 0 {
        none_of_size(list.drop_last(), size);
    } else {
        assert(of_size(list, size) =~= Seq::empty());
    }
}

/// Putting a change after those that are not larger keeps the list by size.
proof fn insertion_keeps_size_order<F>(
    list: Seq<SpanChange<F>>,
    sorted: Seq<SpanChange<F>>,
    at: int,
    item: SpanChange<F>,
)
    requires
        is_by_size(list, sorted),
        0 <= at <= sorted.len(),
        forall|i: int| 0 <= i < at ==> (#[trigger] sorted[i]).change.size() <= item.change.size(),
        forall|i: int|
            at <= i < sorted.len() ==> (#[trigger] sorted[i]).change.size() > item.change.size(),
    ensures
        is_by_size(list.push(item), sorted.insert(at, item)),
{
    broadcast use vstd::seq_lib::group_to_multiset_ensures;

    let longer = sorted.insert(at, item);
    let low = sorted.take(at);
    let high = sorted.skip(at);
    assert(sorted =~= low + high);
    assert(longer =~= low.push(item) + high);
    assert forall|size: u64| #[trigger] of_size(longer, size) == of_size(list.push(item), size) by {
        let pred = |c: SpanChange<F>| c.change.size() == size;
        Seq::filter_distributes_over_add(low, high, pred);
        Seq::filter_distributes_over_add(low.push(item), high, pred);
        reveal(Seq::filter);
        assert(low.push(item).drop_last() =~= low);
        assert(list.push(item).drop_last() =~= list);
        assert(of_size(sorted, size) == of_size(list, size));
        if size == item.change.size() {
            none_of_size(high, size);
            assert(low.filter(pred) + high.filter(pred) =~= low.filter(pred));
            assert(low.push(item).filter(pred) + high.filter(pred) =~= low.push(item).filter(pred));
        }
    }
    assert forall|i: int, j: int| 0 <= i <= j < longer.len() implies (
    #[trigger] longer[i]).change.size() <= (#[trigger] longer[j]).change.size() by {
        if i < at && j < at {
            assert(longer[i] == sorted[i] && longer[j] == sorted[j]);
        } else if i > at {
            assert(longer[i] == sorted[i - 1] && longer[j] == sorted[j - 1]);
        } else if i < at && j > at {
            assert(longer[i] == sorted[i] && longer[j] == sorted[j - 1]);
        } else if i < at {
            assert(longer[i] == sorted[i]);
        } else if j > at {
            assert(longer[j] == sorted[j - 1]);
        }
    }
}

/// Sorts changes by the size of their differences, the smallest first. Changes of the same size
/// keep their order.
pub fn sort_by_size<F>(list: Vec<SpanChange<F>>) -> (sorted: Vec<SpanChange<F>>)
    ensures
        is_by_size(list@, sorted@),
{
    let ghost all = list@;
    let mut rest = reversed(list);
    let mut sorted: Vec<SpanChange<F>> = Vec::new();
    proof {
        assert(all.take(0) =~= Seq::empty());
        assert(all.skip(0) =~= all);
    }
    while rest.len() > 0
        invariant
            rest@.len() <= all.len(),
            rest@ == all.skip(all.len() - rest@.len()).reverse(),
            is_by_size(all.take(all.len() - rest@.len()), sorted@),
        decreases rest.len(),
    {
        let ghost done = all.len() - rest@.len();
        let ghost ahead = all.skip(done);
        assert(rest@.last() == ahead[0]);
        assert(rest@.drop_last() =~= all.skip(done + 1).reverse());
        match rest.pop() {
            Some(item) => {
                let size = item.change.abs_difference();
                let mut at: usize = sorted.len();
                while at > 0 && sorted[at - 1].change.abs_difference() > size
                    invariant
                        at <= sorted@.len(),
                        forall|i: int|
                            at <= i < sorted@.len() ==> (#[trigger] sorted@[i]).change.size()
                                > size,
                    decreases at,
                {
                    at -= 1;
                }
                proof {
                    assert forall|i: int| 0 <= i < at implies (
                    #[trigger] sorted@[i]).change.size() <= size by {
                        assert(sorted@[i].change.size() <= sorted@[at - 1].change.size());
                    }
                    insertion_keeps_size_order(all.take(done), sorted@, at as int, item);
                    assert(all.take(done).push(item) =~= all.take(done + 1));
                }
                sorted.insert(at, item);
            },
            None => {},
        }
    }
    assert(all.take(all.len() as int) =~= all);
    sorted
}

/// A change of a list is among those of its size.
proof fn has_its_size<F>(list: Seq<SpanChange<F>>, i: int)
    requires
        0 <= i < list.len(),
    ensures
        of_size(list, list[i].change.size()).len() > 0,
{
    broadcast use vstd::seq_lib::group_filter_ensures;

    let size = list[i].change.size();
    assert(of_size(list, size).contains(list[i]));
}

/// If there are changes of a size, one of the list has it.
proof fn size_occurs<F>(list: Seq<SpanChange<F>>, size: u64)
    requires
        of_size(list, size).len() > 0,
    ensures
        exists|i: int| 0 <= i < list.len() && (#[trigger] list[i]).change.size() == size,
{
    if forall|i: int| 0 <= i < list.len() ==> (#[trigger] list[i]).change.size() != size {
        none_of_size(list, size);
    }
}

/// Two lists in the order of sizes that agree on every size are the same.
proof fn sizes_determine_order<F>(a: Seq<SpanChange<F>>, b: Seq<SpanChange<F>>)
    requires
        ascending(a),
        ascending(b),
        forall|size: u64| #[trigger] of_size(a, size) == of_size(b, size),
    ensures
        a == b,
    decreases a.len(),
{
    if a.len() == 0 {
        if b.len() > 0 {
            has_its_size(b, 0);
            size_occurs(a, b[0].change.size());
        }
        assert(a =~= b);
    } else {
        let (x, y) = (a.last(), b.last());
        has_its_size(a, a.len() - 1);
        size_occurs(b, x.change.size());
        assert(b.len() > 0);
        has_its_size(b, b.len() - 1);
        size_occurs(a, y.change.size());
        assert(x.change.size() == y.change.size());
        reveal(Seq::filter);
        assert(of_size(a, x.change.size()).last() == x);
        assert(of_size(b, y.change.size()).last() == y);
        let (c, d) = (a.drop_last(), b.drop_last());
        assert forall|size: u64| #[trigger] of_size(c, size) == of_size(d, size) by {
            assert(of_size(a, size) == of_size(b, size));
            if size == x.change.size() {
                assert(of_size(c, size) =~= of_size(a, size).drop_last());
                assert(of_size(d, size) =~= of_size(b, size).drop_last());
            }
        }
        assert(ascending(c)) by {
            assert forall|i: int, j: int| 0 <= i <= j < c.len() implies (
            #[trigger] c[i]).change.size() <= (#[trigger] c[j]).change.size() by {
                assert(a[i].change.size() <= a[j].change.size());
            }
        }
        assert(ascending(d)) by {
            assert forall|i: int, j: int| 0 <= i <= j < d.len() implies (
            #[trigger] d[i]).change.size() <= (#[trigger] d[j]).change.size() by {
                assert(b[i].change.size() <= b[j].change.size());
            }
        }
        sizes_determine_order(c, d);
        assert(a =~= c.push(x));
        assert(b =~= d.push(y));
    }
}

/// There is only one way to sort changes by size, and a list that is sorted stays as it is.
pub proof fn sorting_is_determined<F>(
    list: Seq<SpanChange<F>>,
    one: Seq<SpanChange<F>>,
    other: Seq<SpanChange<F>>,
)
    requires
        is_by_size(list, one),
        is_by_size(list, other),
    ensures
        one == other,
        ascending(list) ==> one == list,
{
    assert forall|size: u64| #[trigger] of_size(one, size) == of_size(other, size) by {
        assert(of_size(other, size) == of_size(list, size));
    }
    sizes_determine_order(one, other);
    if ascending(list) {
        sizes_determine_order(one, list);
    }
}

/// A comparison with a commit, its spans by what has become of them.
pub struct SpanComparison<F> {
    pub baseline_commit_sha1: String,
    pub total_time: Option<SpanChange<F>>,
    pub improvements: Vec<SpanChange<F>>,
    pub regressions: Vec<SpanChange<F>>,
    pub stables: Vec<SpanChange<F>>,
    pub unstables: Vec<SpanChange<F>>,
    pub news: Vec<SpanChange<F>>,
    pub olds: Vec<SpanChange<F>>,
}

/// The spans with a kind of change, but for the one that stands for the whole run, in the order
/// of their names.
pub open spec fn bucket<F>(entries: Seq<(String, Change<F>)>, kind: Kind) -> Seq<SpanChange<F>> {
    entries.filter(
        |entry: (String, Change<F>)| entry.0@ != TOTAL_SPAN@ && entry.1.kind() == kind,
    ).map_values(|entry: (String, Change<F>)| SpanChange { span: entry.0, change: entry.1 })
}

/// The change of the span that stands for the whole run, if there is one.
pub open spec fn total_of<F>(entries: Seq<(String, Change<F>)>) -> Option<SpanChange<F>>
    decreases entries.len(),
{
    if entries.len() == 0 {
        None
    } else if entries.last().0@ == TOTAL_SPAN@ {
        Some(SpanChange { span: entries.last().0, change: entries.last().1 })
    } else {
        total_of(entries.drop_last())
    }
}

/// The comparison says what has become of every span: the whole run by itself, improvements and
/// regressions by size, the others by name.
pub open spec fn is_comparison_of<F>(
    entries: Seq<(String, Change<F>)>,
    baseline_commit: String,
    comparison: SpanComparison<F>,
) -> bool {
    &&& comparison.baseline_commit_sha1 == baseline_commit
    &&& comparison.total_time == total_of(entries)
    &&& is_by_size(bucket(entries, Kind::Improvement), comparison.improvements@)
    &&& is_by_size(bucket(entries, Kind::Regression), comparison.regressions@)
    &&& comparison.stables@ == bucket(entries, Kind::Stable)
    &&& comparison.unstables@ == bucket(entries, Kind::Unstable)
    &&& comparison.news@ == bucket(entries, Kind::New)
    &&& comparison.olds@ == bucket(entries, Kind::Lost)
}

/// One more entry is one more in its bucket.
proof fn bucket_grows<F>(entries: Seq<(String, Change<F>)>, i: int, kind: Kind)
    requires
        0 <= i < entries.len(),
    ensures
        bucket(entries.take(i + 1), kind) == (if entries[i].0@ != TOTAL_SPAN@
            && entries[i].1.kind() == kind {
            bucket(entries.take(i), kind).push(
                SpanChange { span: entries[i].0, change: entries[i].1 },
            )
        } else {
            bucket(entries.take(i), kind)
        }),
{
    reveal(Seq::filter);
    assert(entries.take(i + 1).drop_last() =~= entries.take(i));
    assert(bucket(entries.take(i + 1), kind) =~= (if entries[i].0@ != TOTAL_SPAN@
        && entries[i].1.kind() == kind {
        bucket(entries.take(i), kind).push(SpanChange { span: entries[i].0, change: entries[i].1 })
    } else {
        bucket(entries.take(i), kind)
    }));
}

/// Says what has become of the spans of a comparison with `baseline_commit`.
pub fn span_comparison<F>(baseline_commit: String, report: SpanMap<Change<F>>) -> (comparison:
    SpanComparison<F>)
    ensures
        is_comparison_of(report@, baseline_commit, comparison),
{
    let ghost all = report@;
    let mut rest = reversed(report.into_entries());
    let mut total_time: Option<SpanChange<F>> = None;
    let mut improvements: Vec<SpanChange<F>> = Vec::new();
    let mut regressions: Vec<SpanChange<F>> = Vec::new();
    let mut stables: Vec<SpanChange<F>> = Vec::new();
    let mut unstables: Vec<SpanChange<F>> = Vec::new();
    let mut news: Vec<SpanChange<F>> = Vec::new();
    let mut olds: Vec<SpanChange<F>> = Vec::new();
    proof {
        reveal(Seq::filter);
        assert(all.take(0) =~= Seq::empty());
        assert(all.skip(0) =~= all);
        assert forall|kind: Kind| #[trigger]
            bucket(all.take(0), kind) == Seq::<SpanChange<F>>::empty() by {
            assert(bucket(all.take(0), kind) =~= Seq::empty());
        }
    }
    while rest.len() > 0
        invariant
            rest@.len() <= all.len(),
            rest@ == all.skip(all.len() - rest@.len()).reverse(),
            total_time == total_of(all.take(all.len() - rest@.len())),
            improvements@ == bucket(all.take(all.len() - rest@.len()), Kind::Improvement),
            regressions@ == bucket(all.take(all.len() - rest@.len()), Kind::Regression),
            stables@ == bucket(all.take(all.len() - rest@.len()), Kind::Stable),
            unstables@ == bucket(all.take(all.len() - rest@.len()), Kind::Unstable),
            news@ == bucket(all.take(all.len() - rest@.len()), Kind::New),
            olds@ == bucket(all.take(all.len() - rest@.len()), Kind::Lost),
        decreases rest.len(),
    {
        let ghost done = all.len() - rest@.len();
        proof {
            assert(rest@.last() == all.skip(done)[0]);
            assert(rest@.drop_last() =~= all.skip(done + 1).reverse());
            assert(all.take(done + 1).drop_last() =~= all.take(done));
            bucket_grows(all, done, Kind::Improvement);
            bucket_grows(all, done, Kind::Regression);
            bucket_grows(all, done, Kind::Stable);
            bucket_grows(all, done, Kind::Unstable);
            bucket_grows(all, done, Kind::New);
            bucket_grows(all, done, Kind::Lost);
        }
        match rest.pop() {
            Some((span, change)) => {
                if same_text(span.as_str(), TOTAL_SPAN) {
                    total_time = Some(SpanChange { span, change });
                } else {
                    match change.to_kind() {
                        Kind::New => news.push(SpanChange { span, change }),
                        Kind::Lost => olds.push(SpanChange { span, change }),
                        Kind::Improvement => improvements.push(SpanChange { span, change }),
                        Kind::Regression => regressions.push(SpanChange { span, change }),
                        Kind::Stable => stables.push(SpanChange { span, change }),
                        Kind::Unstable => unstables.push(SpanChange { span, change }),
                    }
                }
            },
            None => {},
        }
    }
    assert(all.take(all.len() as int) =~= all);
    SpanComparison {
        baseline_commit_sha1: baseline_commit,
        total_time,
        improvements: sort_by_size(improvements),
        regressions: sort_by_size(regressions),
        stables,
        unstables,
        news,
        olds,
    }
}

/// The number of changes in a comparison.
pub open spec fn changes_in<F>(comparison: SpanComparison<F>) -> nat {
    comparison.improvements@.len() + comparison.regressions@.len() + comparison.stables@.len()
        + comparison.unstables@.len() + comparison.news@.len() + comparison.olds@.len() + (
    if comparison.total_time is Some {
        1nat
    } else {
        0nat
    })
}

/// The buckets and the whole run add up to the number of entries.
proof fn buckets_add_up<F>(entries: Seq<(String, Change<F>)>)
    requires
        in_order(entries),
    ensures
        bucket(entries, Kind::Improvement).len() + bucket(entries, Kind::Regression).len() + bucket(
            entries,
            Kind::Stable,
        ).len() + bucket(entries, Kind::Unstable).len() + bucket(entries, Kind::New).len() + bucket(
            entries,
            Kind::Lost,
        ).len() + (if total_of(entries) is Some {
            1nat
        } else {
            0nat
        }) == entries.len(),
        total_of(entries) is Some <==> names(entries, TOTAL_SPAN@),
    decreases entries.len(),
{
    reveal(Seq::filter);
    if entries.len() > 0 {
        let shorter = entries.drop_last();
        assert forall|i: int, j: int| 0 <= i < j < shorter.len() implies text_less(
            (#[trigger] shorter[i]).0@,
            (#[trigger] shorter[j]).0@,
        ) by {
            assert(text_less(entries[i].0@, entries[j].0@));
        }
        buckets_add_up(shorter);
        let last = entries.len() - 1;
        if entries[last].0@ == TOTAL_SPAN@ {
            if names(shorter, TOTAL_SPAN@) {
                let i = place_of(shorter, TOTAL_SPAN@);
                names_are_distinct(entries, i, last);
            }
        } else {
            if names(shorter, TOTAL_SPAN@) {
                let i = place_of(shorter, TOTAL_SPAN@);
                assert(entries[i].0@ == TOTAL_SPAN@);
            }
            if names(entries, TOTAL_SPAN@) {
                let i = place_of(entries, TOTAL_SPAN@);
                assert(shorter[i].0@ == TOTAL_SPAN@);
            }
        }
    }
}

/// Every span of a comparison is reported, and none twice: the parts of the report add up to the
/// number of spans.
pub proof fn every_span_is_reported_once<F>(
    entries: Seq<(String, Change<F>)>,
    baseline_commit: String,
    comparison: SpanComparison<F>,
)
    requires
        in_order(entries),
        is_comparison_of(entries, baseline_commit, comparison),
    ensures
        changes_in(comparison) == entries.len(),
        comparison.total_time is Some <==> names(entries, TOTAL_SPAN@),
{
    broadcast use vstd::seq_lib::group_to_multiset_ensures;

    buckets_add_up(entries);
    assert(comparison.improvements@.len() == comparison.improvements@.to_multiset().len());
    assert(comparison.regressions@.len() == comparison.regressions@.to_multiset().len());
}

/// The spans of a workload on a commit, compared with those on another if there is one.
pub enum SpanStats<F> {
    NoComparison(SpanMap<Stats<F>>),
    Comparison(Box<SpanComparison<F>>),
}

impl<F> SpanStats<F> {
    /// The hash of the commit that is compared with.
    pub open spec fn compared_with(&self) -> Option<Seq<char>> {
        match self {
            SpanStats::NoComparison(_) => None,
            SpanStats::Comparison(comparison) => Some(comparison.baseline_commit_sha1@),
        }
    }

    /// The hash of the commit that is compared with.
    pub fn baseline_commit(&self) -> (commit: Option<&str>)
        ensures
            match commit {
                Some(sha1) => self.compared_with() == Some(sha1@),
                None => self.compared_with() is None,
            },
    {
        match self {
            SpanStats::NoComparison(_) => None,
            SpanStats::Comparison(comparison) => Some(comparison.baseline_commit_sha1.as_str()),
        }
    }
}

/// The page that shows the spans of a workload.
pub struct ViewSpansTemplate<F> {
    pub workload_name: String,
    pub target_commit_sha1: String,
    pub target_branch: Option<String>,
    pub baseline_branch: Option<String>,
    pub target_tag: Option<String>,
    pub baseline_tag: Option<String>,
    pub span_stats: SpanStats<F>,
}

/// A part of an address that is there only if its value is.
pub open spec fn parameter(name: Seq<char>, value: Option<Seq<char>>) -> Seq<char> {
    match value {
        Some(text) => name + text,
        None => Seq::empty(),
    }
}

impl<F> ViewSpansTemplate<F> {
    /// The address of the page that shows one of the spans, on the same commits.
    pub open spec fn url_of(&self, span: Seq<char>) -> Seq<char> {
        "view_span?span="@ + span + "&workload_name="@ + self.workload_name@ + "&target="@
            + self.target_commit_sha1@ + parameter("&baseline="@, self.span_stats.compared_with())
            + parameter("&baseline_branch="@, optional_text(self.baseline_branch)) + parameter(
            "&target_branch="@,
            optional_text(self.target_branch),
        )
    }

    /// The address of the page that shows one of the spans, on the same commits.
    pub fn view_span_url(&self, span: &str) -> (url: String)
        ensures
            url@ == self.url_of(span@),
    {
        let mut url = "view_span?span=".to_string().concat(span).concat("&workload_name=").concat(
            self.workload_name.as_str(),
        ).concat("&target=").concat(self.target_commit_sha1.as_str());
        let ghost before = url@;
        if let Some(baseline_commit) = self.span_stats.baseline_commit() {
            url.append("&baseline=");
            url.append(baseline_commit);
        }
        assert(url@ =~= before + parameter("&baseline="@, self.span_stats.compared_with()));
        let ghost before = url@;
        if let Some(baseline_branch) = &self.baseline_branch {
            url.append("&baseline_branch=");
            url.append(baseline_branch.as_str());
        }
        assert(url@ =~= before + parameter(
            "&baseline_branch="@,
            optional_text(self.baseline_branch),
        ));
        let ghost before = url@;
        if let Some(target_branch) = &self.target_branch {
            url.append("&target_branch=");
            url.append(target_branch.as_str());
        }
        assert(url@ =~= before + parameter("&target_branch="@, optional_text(self.target_branch)));
        url
    }
}

impl<F> Model<F> {
    /// The spans of `target`, and the means and standard deviations of each.
    pub open spec fn all_stats(&self, target: Map<Seq<char>, Seq<CallStats>>) -> Map<
        Seq<char>,
        Stats<F>,
    > {
        target.map_values(|data: Seq<CallStats>| self.stats(data))
    }
}

impl<
    F: Copy,
    N: Fn(u64) -> F,
    O: Fn(Operation, F, F) -> F,
    R: Fn(Relation, F, F) -> bool,
    W: Fn(F) -> u64,
> Arithmetic<N, O, R, W> {
    /// `page` shows what was loaded: compared with the baseline if there is one, else by itself.
    pub open spec fn is_page_of(&self, data: SpansData, page: ViewSpansTemplate<F>) -> bool {
        &&& page.workload_name == data.query.workload_name
        &&& page.target_commit_sha1 == data.target_commit_sha1
        &&& page.target_branch == data.query.target_branch
        &&& page.baseline_branch == data.query.baseline_branch
        &&& page.target_tag == data.query.target_tag
        &&& page.baseline_tag == data.query.baseline_tag
        &&& match data.baseline {
            Some((commit, baseline)) => exists|report: SpanMap<Change<F>>|
                {
                    &&& #[trigger] self.is_report(data.target.groups(), baseline.groups(), report)
                    &&& page.span_stats matches SpanStats::Comparison(comparison)
                    &&& is_comparison_of(report@, commit, *comparison)
                },
            None => {
                &&& page.span_stats matches SpanStats::NoComparison(stats)
                &&& stats.wf()
                &&& stats.map().dom() == data.target.groups().dom()
                &&& forall|model: Model<F>| #[trigger]
                    self.follows(model) ==> stats.map() == model.all_stats(data.target.groups())
            },
        }
    }

    /// `summary` counts the changes of a workload against the commit that it is compared with;
    /// without one, nothing has changed.
    pub open spec fn is_workload_summary(
        &self,
        workload: WorkloadData,
        summary: WorkloadSummary,
    ) -> bool {
        match workload.baseline {
            Some((_, baseline)) => exists|report: SpanMap<Change<F>>|
                {
                    &&& #[trigger] self.is_report(
                        workload.target.groups(),
                        baseline.groups(),
                        report,
                    )
                    &&& is_summary_of(report@, summary)
                },
            None => summary == WorkloadSummary::nothing(),
        }
    }

    /// Computes the means and standard deviations of every span.
    fn all_stats(&self, target: &SpanMap<Vec<CallStats>>) -> (stats: SpanMap<Stats<F>>)
        requires
            target.wf(),
            self.is_total(),
        ensures
            stats.wf(),
            stats.map().dom() == target.groups().dom(),
            forall|model: Model<F>| #[trigger]
                self.follows(model) ==> stats.map() == model.all_stats(target.groups()),
    {
        let entries = target.entries();
        let mut stats: SpanMap<Stats<F>> = SpanMap::new();
        let mut i: usize = 0;
        while i < entries.len()
            invariant
                i <= entries@.len(),
                entries@ == target@,
                target.wf(),
                self.is_total(),
                stats.wf(),
                forall|span: Seq<char>| #[trigger]
                    stats.map().contains_key(span) <==> names(entries@.take(i as int), span),
                forall|model: Model<F>, span: Seq<char>|
                    #![trigger self.follows(model), stats.map().contains_key(span)]
                    self.follows(model) && stats.map().contains_key(span) ==> stats.map()[span]
                        == model.stats(target.groups()[span]),
            decreases entries.len() - i,
        {
            let ghost before = stats.map();
            let ghost span = entries@[i as int].0@;
            proof {
                entry_is_mapped(target@, i as int);
            }
            stats.insert(entries[i].0.clone(), self.compute_stats(entries[i].1.as_slice()));
            proof {
                let seen = entries@.take(i as int);
                let more = entries@.take(i + 1);
                assert forall|name: Seq<char>| #[trigger]
                    stats.map().contains_key(name) <==> names(more, name) by {
                    assert(before.contains_key(name) <==> names(seen, name));
                    if names(seen, name) {
                        let k = place_of(seen, name);
                        assert(more[k].0@ == name);
                    }
                    if names(more, name) {
                        let k = place_of(more, name);
                        if k < i {
                            assert(seen[k].0@ == name);
                        }
                    }
                    if name == span {
                        assert(more[i as int].0@ == name);
                    }
                }
            }
            i += 1;
        }
        proof {
            assert(entries@.take(i as int) =~= entries@);
            assert(stats.map().dom() =~= target.groups().dom());
            assert forall|model: Model<F>| #[trigger] self.follows(model) implies stats.map()
                == model.all_stats(target.groups()) by {
                let all = model.all_stats(target.groups());
                assert forall|span: Seq<char>|
                    #![trigger stats.map().dom().contains(span)]
                    #![trigger stats.map()[span]]
                    stats.map().dom().contains(span) == all.dom().contains(span) && (
                    stats.map().dom().contains(span) ==> stats.map()[span] == all[span]) by {
                    assert(stats.map().contains_key(span) ==> stats.map()[span] == all[span]);
                }
                assert(stats.map() =~= all);
            }
        }
        stats
    }

    /// Makes the page that shows what was loaded.
    pub fn view_spans_page(&self, data: SpansData) -> (page: ViewSpansTemplate<F>)
        requires
            data.target.wf(),
            data.baseline matches Some((_, baseline)) ==> baseline.wf(),
            self.is_total(),
        ensures
            self.is_page_of(data, page),
    {
        let span_stats = match data.baseline {
            Some((commit, baseline)) => {
                let report = self.compare_commits(&data.target, &baseline);
                SpanStats::Comparison(Box::new(span_comparison(commit, report)))
            },
            None => SpanStats::NoComparison(self.all_stats(&data.target)),
        };
        ViewSpansTemplate {
            workload_name: data.query.workload_name,
            target_commit_sha1: data.target_commit_sha1,
            target_branch: data.query.target_branch,
            baseline_branch: data.query.baseline_branch,
            target_tag: data.query.target_tag,
            baseline_tag: data.query.baseline_tag,
            span_stats,
        }
    }

    /// Counts the changes of a workload against the commit that it is compared with; without
    /// one, nothing has changed.
    pub fn workload_summary(&self, workload: &WorkloadData) -> (summary: WorkloadSummary)
        requires
            workload.target.wf(),
            workload.baseline matches Some((_, baseline)) ==> baseline.wf(),
            self.is_total(),
        ensures
            self.is_workload_summary(*workload, summary),
    {
        match &workload.baseline {
            Some((_, baseline)) => {
                let report = self.compare_commits(&workload.target, baseline);
                comparison_summary(&report)
            },
            None => WorkloadSummary::default(),
        }
    }
}

/// A summary counts improvements, regressions, stable and unstable spans as such.
pub proof fn summary_counts_by_variant<F>(
    entries: Seq<(String, Change<F>)>,
    summary: WorkloadSummary,
)
    requires
        is_summary_of(entries, summary),
    ensures
        summary.improvements == entries.filter(
            |entry: (String, Change<F>)| entry.1 is Improvement,
        ).len(),
        summary.regressions == entries.filter(
            |entry: (String, Change<F>)| entry.1 is Regression,
        ).len(),
        summary.unchanged == entries.filter(
            |entry: (String, Change<F>)| entry.1 is Stable,
        ).len(),
        summary.unstable == entries.filter(
            |entry: (String, Change<F>)| entry.1 is Unstable,
        ).len(),
{
    assert((|entry: (String, Change<F>)| entry.1.kind() == Kind::Improvement) =~= (
    |entry: (String, Change<F>)| entry.1 is Improvement));
    assert((|entry: (String, Change<F>)| entry.1.kind() == Kind::Regression) =~= (
    |entry: (String, Change<F>)| entry.1 is Regression));
    assert((|entry: (String, Change<F>)| entry.1.kind() == Kind::Stable) =~= (
    |entry: (String, Change<F>)| entry.1 is Stable));
    assert((|entry: (String, Change<F>)| entry.1.kind() == Kind::Unstable) =~= (
    |entry: (String, Change<F>)| entry.1 is Unstable));
}

/// The summary of a workload counts what has become of its spans from the baseline to the target,
/// and is 0 throughout where there is no baseline.
pub proof fn workload_is_summed_up_against_its_baseline<
    F: Copy,
    N: Fn(u64) -> F,
    O: Fn(Operation, F, F) -> F,
    R: Fn(Relation, F, F) -> bool,
    W: Fn(F) -> u64,
>(
    arithmetic: Arithmetic<N, O, R, W>,
    workload: WorkloadData,
    summary: WorkloadSummary,
)
    requires
        arithmetic.is_workload_summary(workload, summary),
    ensures
        workload.baseline is None ==> {
            &&& summary.improvements == 0
            &&& summary.regressions == 0
            &&& summary.unchanged == 0
            &&& summary.unstable == 0
        },
        workload.baseline matches Some((_, baseline)) ==> exists|report: SpanMap<Change<F>>|
            {
                &&& #[trigger] arithmetic.is_report(
                    workload.target.groups(),
                    baseline.groups(),
                    report,
                )
                &&& summary.improvements == report@.filter(
                    |entry: (String, Change<F>)| entry.1 is Improvement,
                ).len()
                &&& summary.regressions == report@.filter(
                    |entry: (String, Change<F>)| entry.1 is Regression,
                ).len()
                &&& summary.unchanged == report@.filter(
                    |entry: (String, Change<F>)| entry.1 is Stable,
                ).len()
                &&& summary.unstable == report@.filter(
                    |entry: (String, Change<F>)| entry.1 is Unstable,
                ).len()
            },
{
    if let Some((_, baseline)) = workload.baseline {
        let report = choose|report: SpanMap<Change<F>>|
            {
                &&& #[trigger] arithmetic.is_report(
                    workload.target.groups(),
                    baseline.groups(),
                    report,
                )
                &&& is_summary_of(report@, summary)
            };
        summary_counts_by_variant(report@, summary);
    }
}

/// The spans of a list are in the order of their names, and none stands twice.
pub open spec fn by_name<F>(list: Seq<SpanChange<F>>) -> bool {
    forall|i: int, j: int|
        0 <= i < j < list.len() ==> text_less(
            (#[trigger] list[i]).span@,
            (#[trigger] list[j]).span@,
        )
}

/// A bucket has the spans of its kind, but for the one that stands for the whole run.
proof fn bucket_has<F>(entries: Seq<(String, Change<F>)>, kind: Kind, item: SpanChange<F>)
    ensures
        bucket(entries, kind).contains(item) <==> {
            &&& entries.contains((item.span, item.change))
            &&& item.span@ != TOTAL_SPAN@
            &&& item.change.kind() == kind
        },
    decreases entries.len(),
{
    reveal(Seq::filter);
    if entries.len() > 0 {
        let shorter = entries.drop_last();
        let last = entries.last();
        let entry = (item.span, item.change);
        bucket_has(shorter, kind, item);
        bucket_grows(entries, entries.len() - 1, kind);
        assert(entries.take(entries.len() as int) =~= entries);
        assert(entries.take(entries.len() - 1) =~= shorter);
        assert(entries =~= shorter.push(last));
        assert(entries.contains(entry) <==> shorter.contains(entry) || entry == last) by {
            if shorter.contains(entry) {
                let i = choose|i: int| 0 <= i < shorter.len() && shorter[i] == entry;
                assert(entries[i] == entry);
            }
            if entry == last {
                assert(entries[entries.len() - 1] == entry);
            }
        }
        let few = bucket(shorter, kind);
        let added = SpanChange { span: last.0, change: last.1 };
        assert(few.push(added).contains(item) <==> few.contains(item) || item == added) by {
            if few.contains(item) {
                let i = choose|i: int| 0 <= i < few.len() && few[i] == item;
                assert(few.push(added)[i] == item);
            }
            if item == added {
                assert(few.push(added)[few.len() as int] == item);
            }
        }
    }
}

/// A bucket is in the order of the names.
proof fn bucket_is_by_name<F>(entries: Seq<(String, Change<F>)>, kind: Kind)
    requires
        in_order(entries),
    ensures
        by_name(bucket(entries, kind)),
    decreases entries.len(),
{
    reveal(Seq::filter);
    if entries.len() > 0 {
        let shorter = entries.drop_last();
        let last = entries.last();
        assert forall|i: int, j: int| 0 <= i < j < shorter.len() implies text_less(
            (#[trigger] shorter[i]).0@,
            (#[trigger] shorter[j]).0@,
        ) by {
            assert(text_less(entries[i].0@, entries[j].0@));
        }
        bucket_is_by_name(shorter, kind);
        bucket_grows(entries, entries.len() - 1, kind);
        assert(entries.take(entries.len() as int) =~= entries);
        assert(entries.take(entries.len() - 1) =~= shorter);
        let few = bucket(shorter, kind);
        let added = SpanChange { span: last.0, change: last.1 };
        assert forall|i: int| 0 <= i < few.len() implies text_less(
            (#[trigger] few[i]).span@,
            last.0@,
        ) by {
            bucket_has(shorter, kind, few[i]);
            assert(few.contains(few[i]));
            let k = choose|k: int|
                0 <= k < shorter.len() && shorter[k] == (few[i].span, few[i].change);
            assert(text_less(entries[k].0@, entries[entries.len() - 1].0@));
        }
        let more = few.push(added);
        assert forall|i: int, j: int| 0 <= i < j < more.len() implies text_less(
            (#[trigger] more[i]).span@,
            (#[trigger] more[j]).span@,
        ) by {
            if j < few.len() {
                assert(text_less(few[i].span@, few[j].span@));
            } else {
                assert(text_less(few[i].span@, last.0@));
            }
        }
    }
}

/// The changes of a size are in the order of the names if all are.
proof fn part_is_by_name<F>(list: Seq<SpanChange<F>>, size: u64)
    requires
        by_name(list),
    ensures
        by_name(of_size(list, size)),
    decreases list.len(),
{
    broadcast use vstd::seq_lib::group_filter_ensures;

    reveal(Seq::filter);
    if list.len() > 0 {
        let shorter = list.drop_last();
        assert forall|i: int, j: int| 0 <= i < j < shorter.len() implies text_less(
            (#[trigger] shorter[i]).span@,
            (#[trigger] shorter[j]).span@,
        ) by {
            assert(text_less(list[i].span@, list[j].span@));
        }
        part_is_by_name(shorter, size);
        let few = of_size(shorter, size);
        assert forall|i: int| 0 <= i < few.len() implies text_less(
            (#[trigger] few[i]).span@,
            list.last().span@,
        ) by {
            assert(few.contains(few[i]));
            shorter.lemma_filter_contains_rev(
                |item: SpanChange<F>| item.change.size() == size,
                few[i],
            );
            let k = choose|k: int| 0 <= k < shorter.len() && shorter[k] == few[i];
            assert(text_less(list[k].span@, list[list.len() - 1].span@));
        }
        let more = of_size(list, size);
        assert forall|i: int, j: int| 0 <= i < j < more.len() implies text_less(
            (#[trigger] more[i]).span@,
            (#[trigger] more[j]).span@,
        ) by {
            if j < few.len() {
                assert(text_less(few[i].span@, few[j].span@));
            } else {
                assert(text_less(few[i].span@, list.last().span@));
            }
        }
    }
}

/// Two changes of one size are in the order of their names if those of that size are.
proof fn same_size_is_by_name<F>(list: Seq<SpanChange<F>>, size: u64, i: int, j: int)
    requires
        by_name(of_size(list, size)),
        0 <= i < j < list.len(),
        list[i].change.size() == size,
        list[j].change.size() == size,
    ensures
        text_less(list[i].span@, list[j].span@),
    decreases list.len(),
{
    broadcast use vstd::seq_lib::group_filter_ensures;

    reveal(Seq::filter);
    let shorter = list.drop_last();
    let few = of_size(shorter, size);
    let more = of_size(list, size);
    if j == list.len() - 1 {
        assert(more == few.push(list[j]));
        assert(shorter[i] == list[i]);
        assert(shorter.contains(list[i]));
        assert(few.contains(list[i]));
        let a = choose|a: int| 0 <= a < few.len() && few[a] == list[i];
        assert(more[a] == list[i]);
        assert(more[few.len() as int] == list[j]);
    } else {
        assert forall|a: int, b: int| 0 <= a < b < few.len() implies text_less(
            (#[trigger] few[a]).span@,
            (#[trigger] few[b]).span@,
        ) by {
            assert(few[a] == more[a] && few[b] == more[b]);
        }
        assert(shorter[i] == list[i] && shorter[j] == list[j]);
        same_size_is_by_name(shorter, size, i, j);
    }
}

/// A list that is sorted by size has the same changes, and those of one size by name.
proof fn sorted_bucket<F>(list: Seq<SpanChange<F>>, sorted: Seq<SpanChange<F>>)
    requires
        by_name(list),
        is_by_size(list, sorted),
    ensures
        forall|item: SpanChange<F>| #[trigger] sorted.contains(item) <==> list.contains(item),
        forall|i: int, j: int|
            0 <= i < j < sorted.len() && (#[trigger] sorted[i]).change.size() == (
            #[trigger] sorted[j]).change.size() ==> text_less(sorted[i].span@, sorted[j].span@),
{
    broadcast use vstd::seq_lib::group_to_multiset_ensures;

    assert forall|item: SpanChange<F>| #[trigger] sorted.contains(item) <==> list.contains(item) by {
        assert(sorted.contains(item) <==> sorted.to_multiset().count(item) > 0);
        assert(list.contains(item) <==> list.to_multiset().count(item) > 0);
    }
    assert forall|i: int, j: int|
        0 <= i < j < sorted.len() && (#[trigger] sorted[i]).change.size() == (
        #[trigger] sorted[j]).change.size() implies text_less(
        sorted[i].span@,
        sorted[j].span@,
    ) by {
        let size = sorted[i].change.size();
        part_is_by_name(list, size);
        assert(of_size(sorted, size) == of_size(list, size));
        same_size_is_by_name(sorted, size, i, j);
    }
}

/// The whole run is the span with its name.
proof fn total_is_found<F>(entries: Seq<(String, Change<F>)>)
    ensures
        total_of(entries) matches Some(item) ==> {
            &&& item.span@ == TOTAL_SPAN@
            &&& entries.contains((item.span, item.change))
        },
        total_of(entries) is Some <==> names(entries, TOTAL_SPAN@),
    decreases entries.len(),
{
    if entries.len() > 0 {
        let shorter = entries.drop_last();
        total_is_found(shorter);
        if entries.last().0@ == TOTAL_SPAN@ {
            assert(entries[entries.len() - 1].0@ == TOTAL_SPAN@);
            let entry = (entries.last().0, entries.last().1);
            assert(entries[entries.len() - 1] == entry);
        } else {
            if let Some(item) = total_of(shorter) {
                let entry = (item.span, item.change);
                let i = choose|i: int| 0 <= i < shorter.len() && shorter[i] == entry;
                assert(entries[i] == entry);
                assert(entries[i].0@ == TOTAL_SPAN@);
            }
            if names(entries, TOTAL_SPAN@) {
                let i = place_of(entries, TOTAL_SPAN@);
                assert(shorter[i].0@ == TOTAL_SPAN@);
            }
        }
    }
}

/// Every span stands in the part of a comparison that its change says, and nothing else does; the
/// whole run stands by itself.
pub proof fn spans_stand_where_they_belong<F>(
    entries: Seq<(String, Change<F>)>,
    baseline_commit: String,
    comparison: SpanComparison<F>,
    item: SpanChange<F>,
)
    requires
        is_comparison_of(entries, baseline_commit, comparison),
        in_order(entries),
    ensures
        comparison.baseline_commit_sha1 == baseline_commit,
        ({
            let measured = entries.contains((item.span, item.change)) && item.span@
                != "::meta::total"@;
            &&& comparison.improvements@.contains(item) <==> measured && item.change is Improvement
            &&& comparison.regressions@.contains(item) <==> measured && item.change is Regression
            &&& comparison.stables@.contains(item) <==> measured && item.change is Stable
            &&& comparison.unstables@.contains(item) <==> measured && item.change is Unstable
            &&& comparison.news@.contains(item) <==> measured && item.change is New
            &&& comparison.olds@.contains(item) <==> measured && item.change is Lost
        }),
        comparison.total_time matches Some(whole) ==> whole.span@ == "::meta::total"@
            && entries.contains((whole.span, whole.change)),
        comparison.total_time is None ==> forall|i: int|
            0 <= i < entries.len() ==> (#[trigger] entries[i]).0@ != "::meta::total"@,
{
    bucket_has(entries, Kind::Improvement, item);
    bucket_has(entries, Kind::Regression, item);
    bucket_has(entries, Kind::Stable, item);
    bucket_has(entries, Kind::Unstable, item);
    bucket_has(entries, Kind::New, item);
    bucket_has(entries, Kind::Lost, item);
    bucket_is_by_name(entries, Kind::Improvement);
    bucket_is_by_name(entries, Kind::Regression);
    sorted_bucket(bucket(entries, Kind::Improvement), comparison.improvements@);
    sorted_bucket(bucket(entries, Kind::Regression), comparison.regressions@);
    total_is_found(entries);
}

/// Of two improvements the one with the smaller difference comes first, and where the differences
/// are the same the one with the smaller name; and so with two regressions. The other parts are in
/// the order of the names.
pub proof fn spans_stand_in_order<F>(
    entries: Seq<(String, Change<F>)>,
    baseline_commit: String,
    comparison: SpanComparison<F>,
    i: int,
    j: int,
)
    requires
        is_comparison_of(entries, baseline_commit, comparison),
        in_order(entries),
        0 <= i < j,
    ensures
        j < comparison.improvements@.len() ==> {
            let (one, other) = (comparison.improvements@[i], comparison.improvements@[j]);
            &&& one.change->Improvement_abs_difference <= other.change->Improvement_abs_difference
            &&& one.change->Improvement_abs_difference == other.change->Improvement_abs_difference
                ==> text_less(one.span@, other.span@)
        },
        j < comparison.regressions@.len() ==> {
            let (one, other) = (comparison.regressions@[i], comparison.regressions@[j]);
            &&& one.change->Regression_abs_difference <= other.change->Regression_abs_difference
            &&& one.change->Regression_abs_difference == other.change->Regression_abs_difference
                ==> text_less(one.span@, other.span@)
        },
        j < comparison.stables@.len() ==> text_less(
            comparison.stables@[i].span@,
            comparison.stables@[j].span@,
        ),
        j < comparison.unstables@.len() ==> text_less(
            comparison.unstables@[i].span@,
            comparison.unstables@[j].span@,
        ),
        j < comparison.news@.len() ==> text_less(
            comparison.news@[i].span@,
            comparison.news@[j].span@,
        ),
        j < comparison.olds@.len() ==> text_less(
            comparison.olds@[i].span@,
            comparison.olds@[j].span@,
        ),
{
    bucket_is_by_name(entries, Kind::Improvement);
    bucket_is_by_name(entries, Kind::Regression);
    bucket_is_by_name(entries, Kind::Stable);
    bucket_is_by_name(entries, Kind::Unstable);
    bucket_is_by_name(entries, Kind::New);
    bucket_is_by_name(entries, Kind::Lost);
    sorted_bucket(bucket(entries, Kind::Improvement), comparison.improvements@);
    sorted_bucket(bucket(entries, Kind::Regression), comparison.regressions@);
    if j < comparison.improvements@.len() {
        let (one, other) = (comparison.improvements@[i], comparison.improvements@[j]);
        assert(comparison.improvements@.contains(one) && comparison.improvements@.contains(other));
        bucket_has(entries, Kind::Improvement, one);
        bucket_has(entries, Kind::Improvement, other);
        assert(one.change.size() <= other.change.size());
    }
    if j < comparison.regressions@.len() {
        let (one, other) = (comparison.regressions@[i], comparison.regressions@[j]);
        assert(comparison.regressions@.contains(one) && comparison.regressions@.contains(other));
        bucket_has(entries, Kind::Regression, one);
        bucket_has(entries, Kind::Regression, other);
        assert(one.change.size() <= other.change.size());
    }
}

/// The page of the spans shows the request and the commits that were loaded for it. Where there is
/// a baseline, the spans are compared with what was measured there, the target as the target and
/// the baseline as the baseline; where there is none, each span of the target is shown by itself.
pub proof fn page_shows_the_commits_as_loaded<
    F: Copy,
    N: Fn(u64) -> F,
    O: Fn(Operation, F, F) -> F,
    R: Fn(Relation, F, F) -> bool,
    W: Fn(F) -> u64,
>(
    arithmetic: Arithmetic<N, O, R, W>,
    model: Model<F>,
    data: SpansData,
    page: ViewSpansTemplate<F>,
    item: SpanChange<F>,
)
    requires
        arithmetic.follows(model),
        arithmetic.is_page_of(data, page),
    ensures
        page.workload_name == data.query.workload_name,
        page.target_commit_sha1 == data.target_commit_sha1,
        page.target_branch == data.query.target_branch,
        page.baseline_branch == data.query.baseline_branch,
        page.target_tag == data.query.target_tag,
        page.baseline_tag == data.query.baseline_tag,
        data.baseline is None ==> {
            &&& page.span_stats matches SpanStats::NoComparison(stats)
            &&& stats.map().contains_key(item.span@) <==> data.target.groups().contains_key(
                item.span@,
            )
            &&& stats.map().contains_key(item.span@) ==> stats.map()[item.span@] == model.stats(
                data.target.groups()[item.span@],
            )
        },
        data.baseline matches Some((commit, baseline)) ==> {
            let target = data.target.groups();
            let span = item.span@;
            &&& page.span_stats matches SpanStats::Comparison(shown)
            &&& shown.baseline_commit_sha1 == commit
            &&& shown.improvements@.contains(item) ==> {
                &&& item.change matches Change::Improvement { target_stats, baseline_stats, .. }
                &&& target.contains_key(span) && target_stats == model.stats(target[span])
                &&& baseline.groups().contains_key(span) && baseline_stats == model.stats(
                    baseline.groups()[span],
                )
            }
            &&& shown.regressions@.contains(item) ==> {
                &&& item.change matches Change::Regression { target_stats, baseline_stats, .. }
                &&& target.contains_key(span) && target_stats == model.stats(target[span])
                &&& baseline.groups().contains_key(span) && baseline_stats == model.stats(
                    baseline.groups()[span],
                )
            }
            &&& shown.stables@.contains(item) ==> {
                &&& item.change matches Change::Stable { target_stats, baseline_stats, .. }
                &&& target.contains_key(span) && target_stats == model.stats(target[span])
                &&& baseline.groups().contains_key(span) && baseline_stats == model.stats(
                    baseline.groups()[span],
                )
            }
            &&& shown.unstables@.contains(item) ==> {
                &&& item.change matches Change::Unstable { target_stats, baseline_stats, .. }
                &&& target.contains_key(span) && target_stats == model.stats(target[span])
                &&& baseline.groups().contains_key(span) && baseline_stats == model.stats(
                    baseline.groups()[span],
                )
            }
            &&& shown.news@.contains(item) ==> {
                &&& item.change == (Change::New { stats: model.stats(target[span]) })
                &&& target.contains_key(span) && !baseline.groups().contains_key(span)
            }
            &&& shown.olds@.contains(item) ==> {
                &&& item.change == (Change::Lost { stats: model.stats(baseline.groups()[span]) })
                &&& !target.contains_key(span) && baseline.groups().contains_key(span)
            }
        },
{
    match data.baseline {
        Some((commit, baseline)) => {
            if let SpanStats::Comparison(shown) = page.span_stats {
                let report = choose|report: SpanMap<Change<F>>|
                    {
                        &&& #[trigger] arithmetic.is_report(
                            data.target.groups(),
                            baseline.groups(),
                            report,
                        )
                        &&& is_comparison_of(report@, commit, *shown)
                    };
                spans_stand_where_they_belong(report@, commit, *shown, item);
                crate::stats::report_shows_each_commit_as_measured(
                    arithmetic,
                    model,
                    data.target.groups(),
                    baseline.groups(),
                    report,
                    item.span@,
                );
                if report@.contains((item.span, item.change)) {
                    let i = choose|i: int|
                        0 <= i < report@.len() && report@[i] == (item.span, item.change);
                    entry_is_mapped(report@, i);
                }
            }
        },
        None => {
            if let SpanStats::NoComparison(stats) = page.span_stats {
                assert(stats.map() == model.all_stats(data.target.groups()));
                assert(stats.map().dom().contains(item.span@)
                    == data.target.groups().dom().contains(item.span@));
            }
        },
    }
}

/// The address of a span names the span, the workload and the target, then the commit of the
/// baseline if the page compares with one, then the branch of the baseline and that of the target
/// if the page has them.
pub proof fn address_names_the_same_commits<F>(page: ViewSpansTemplate<F>, span: Seq<char>)
    ensures
        ({
            let start = "view_span?span="@ + span + "&workload_name="@ + page.workload_name@
                + "&target="@ + page.target_commit_sha1@;
            let compared = match page.span_stats {
                SpanStats::NoComparison(_) => start,
                SpanStats::Comparison(shown) => start + "&baseline="@
                    + shown.baseline_commit_sha1@,
            };
            let branched = match page.baseline_branch {
                Some(branch) => compared + "&baseline_branch="@ + branch@,
                None => compared,
            };
            page.url_of(span) == match page.target_branch {
                Some(branch) => branched + "&target_branch="@ + branch@,
                None => branched,
            }
        }),
        page.span_stats is NoComparison ==> page.span_stats.compared_with() is None,
        page.span_stats matches SpanStats::Comparison(shown) ==> page.span_stats.compared_with()
            == Some(shown.baseline_commit_sha1@),
{
    let start = "view_span?span="@ + span + "&workload_name="@ + page.workload_name@ + "&target="@
        + page.target_commit_sha1@;
    let compared = match page.span_stats {
        SpanStats::NoComparison(_) => start,
        SpanStats::Comparison(shown) => start + "&baseline="@ + shown.baseline_commit_sha1@,
    };
    assert(compared =~= start + parameter("&baseline="@, page.span_stats.compared_with()));
    let branched = match page.baseline_branch {
        Some(branch) => compared + "&baseline_branch="@ + branch@,
        None => compared,
    };
    assert(branched =~= compared + parameter(
        "&baseline_branch="@,
        optional_text(page.baseline_branch),
    ));
    let whole = match page.target_branch {
        Some(branch) => branched + "&target_branch="@ + branch@,
        None => branched,
    };
    assert(whole =~= branched + parameter("&target_branch="@, optional_text(page.target_branch)));
}

} // verus!
