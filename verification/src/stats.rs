//! Comparing what was measured on two commits.
//!
//! Means and deviations are numbers of a type that the caller chooses, with the operations that
//! the caller gives. What is computed from what, and what follows from it, is decided here.

use crate::join::{has_span, merge_join, Joined};
use crate::model::CallStats;
use crate::span_map::{entry_is_mapped, names, SpanMap};
use crate::text::same_text;
use vstd::prelude::*;

verus! {

/// The span that stands for a whole run. Its time counts, not its own time.
pub const TOTAL_SPAN: &'static str = "::meta::total";

/// The figures of a measurement.
#[derive(Debug, Clone, Copy, PartialEq, Eq, Structural)]
pub enum Figure {
    SelfTime,
    Time,
    CallCount,
}

impl Figure {
    /// The figure of a measurement.
    pub open spec fn value(self, stats: CallStats) -> u64 {
        match self {
            Figure::SelfTime => stats.self_time,
            Figure::Time => stats.time,
            Figure::CallCount => stats.call_count,
        }
    }

    /// The figure of every measurement of a list.
    pub open spec fn values(self, data: Seq<CallStats>) -> Seq<u64> {
        data.map_values(|stats: CallStats| self.value(stats))
    }

    /// The figure that counts for a span.
    pub open spec fn that_counts(span: Seq<char>) -> Figure {
        if span == TOTAL_SPAN@ {
            Figure::Time
        } else {
            Figure::SelfTime
        }
    }

    /// The figure of a measurement.
    pub fn of(&self, stats: &CallStats) -> (value: u64)
        ensures
            value == self.value(*stats),
    {
        match self {
            Figure::SelfTime => stats.self_time,
            Figure::Time => stats.time,
            Figure::CallCount => stats.call_count,
        }
    }

    /// The figure of every measurement of a list.
    pub fn all_of(&self, data: &[CallStats]) -> (values: Vec<u64>)
        ensures
            values@ == self.values(data@),
    {
        let mut values: Vec<u64> = Vec::new();
        let mut i: usize = 0;
        while i < data.len()
            invariant
                i <= data@.len(),
                values@ == self.values(data@.take(i as int)),
            decreases data.len() - i,
        {
            values.push(self.of(&data[i]));
            i += 1;
            assert(values@ =~= self.values(data@.take(i as int)));
        }
        assert(data@.take(i as int) =~= data@);
        values
    }

    /// The figure that counts for a span.
    pub fn for_span(span: &str) -> (figure: Figure)
        ensures
            figure == Figure::that_counts(span@),
    {
        if same_text(span, TOTAL_SPAN) {
            Figure::Time
        } else {
            Figure::SelfTime
        }
    }
}

/// The means and standard deviations of the measurements of a span.
pub struct Stats<F> {
    pub mean_self_time: F,
    pub stddev_self_time: F,
    pub mean_time: F,
    pub stddev_time: F,
    pub mean_call_count: F,
    pub stddev_call_count: F,
}

impl<F: Copy> Clone for Stats<F> {
    fn clone(&self) -> (copy: Stats<F>)
        ensures
            copy == *self,
    {
        *self
    }
}

impl<F: Copy> Copy for Stats<F> {

}

impl<F> Stats<F> {
    /// The mean of a figure.
    pub open spec fn mean(&self, figure: Figure) -> F {
        match figure {
            Figure::SelfTime => self.mean_self_time,
            Figure::Time => self.mean_time,
            Figure::CallCount => self.mean_call_count,
        }
    }

    /// The standard deviation of a figure.
    pub open spec fn stddev(&self, figure: Figure) -> F {
        match figure {
            Figure::SelfTime => self.stddev_self_time,
            Figure::Time => self.stddev_time,
            Figure::CallCount => self.stddev_call_count,
        }
    }
}

/// How a mean differs from the mean that it is compared with.
pub struct Assessment<F> {
    /// The mean less the other.
    pub difference: F,
    /// The size of the difference, without its fraction.
    pub abs_difference: u64,
    /// The size of the difference in percent of the other mean.
    pub proportion: F,
    /// The other mean is too uncertain for a comparison.
    pub unstable: bool,
    /// The difference is large, seen against the uncertainty of the other mean.
    pub significant: bool,
    /// The mean is smaller than the other.
    pub decreasing: bool,
}

/// What has become of a span from the baseline to the target.
pub enum Change<F> {
    New { stats: Stats<F> },
    Lost { stats: Stats<F> },
    Improvement {
        target_stats: Stats<F>,
        baseline_stats: Stats<F>,
        difference: F,
        abs_difference: u64,
        proportion: F,
    },
    Regression {
        target_stats: Stats<F>,
        baseline_stats: Stats<F>,
        difference: F,
        abs_difference: u64,
        proportion: F,
    },
    Stable {
        target_stats: Stats<F>,
        baseline_stats: Stats<F>,
        difference: F,
        abs_difference: u64,
        proportion: F,
    },
    Unstable {
        target_stats: Stats<F>,
        baseline_stats: Stats<F>,
        difference: F,
        abs_difference: u64,
        proportion: F,
    },
}

/// The kinds of changes.
#[derive(Debug, Clone, Copy, PartialEq, Eq, Structural)]
pub enum Kind {
    New,
    Lost,
    Improvement,
    Regression,
    Stable,
    Unstable,
}

impl<F: Copy> Clone for Change<F> {
    fn clone(&self) -> (copy: Change<F>)
        ensures
            copy == *self,
    {
        *self
    }
}

impl<F: Copy> Copy for Change<F> {

}

impl<F> Change<F> {
    /// The kind of the change.
    pub open spec fn kind(&self) -> Kind {
        match self {
            Change::New { .. } => Kind::New,
            Change::Lost { .. } => Kind::Lost,
            Change::Improvement { .. } => Kind::Improvement,
            Change::Regression { .. } => Kind::Regression,
            Change::Stable { .. } => Kind::Stable,
            Change::Unstable { .. } => Kind::Unstable,
        }
    }

    /// The size of the difference, rounded down; 0 where nothing was compared.
    pub open spec fn size(&self) -> u64 {
        match self {
            Change::New { .. } => 0,
            Change::Lost { .. } => 0,
            Change::Improvement { abs_difference, .. } => *abs_difference,
            Change::Regression { abs_difference, .. } => *abs_difference,
            Change::Stable { abs_difference, .. } => *abs_difference,
            Change::Unstable { abs_difference, .. } => *abs_difference,
        }
    }

    /// The kind of the change.
    pub fn to_kind(&self) -> (kind: Kind)
        ensures
            kind == self.kind(),
    {
        match self {
            Change::New { .. } => Kind::New,
            Change::Lost { .. } => Kind::Lost,
            Change::Improvement { .. } => Kind::Improvement,
            Change::Regression { .. } => Kind::Regression,
            Change::Stable { .. } => Kind::Stable,
            Change::Unstable { .. } => Kind::Unstable,
        }
    }

    /// The size of the difference, rounded down; 0 where nothing was compared.
    pub fn abs_difference(&self) -> (size: u64)
        ensures
            size == self.size(),
    {
        match self {
            Change::New { .. } => 0,
            Change::Lost { .. } => 0,
            Change::Improvement { abs_difference, .. } => *abs_difference,
            Change::Regression { abs_difference, .. } => *abs_difference,
            Change::Stable { abs_difference, .. } => *abs_difference,
            Change::Unstable { abs_difference, .. } => *abs_difference,
        }
    }
}

/// The change of a span that was measured on both commits: unstable if the baseline is too
/// uncertain, stable if the difference is not significant, and else an improvement or a
/// regression.
pub open spec fn verdict<F>(
    target_stats: Stats<F>,
    baseline_stats: Stats<F>,
    assessment: Assessment<F>,
) -> Change<F> {
    let Assessment { difference, abs_difference, proportion, .. } = assessment;
    if assessment.unstable {
        Change::Unstable { target_stats, baseline_stats, difference, abs_difference, proportion }
    } else if !assessment.significant {
        Change::Stable { target_stats, baseline_stats, difference, abs_difference, proportion }
    } else if assessment.decreasing {
        Change::Improvement { target_stats, baseline_stats, difference, abs_difference, proportion }
    } else {
        Change::Regression { target_stats, baseline_stats, difference, abs_difference, proportion }
    }
}

/// Decides what the change of a span is that was measured on both commits.
pub fn classify<F: Copy>(
    target_stats: Stats<F>,
    baseline_stats: Stats<F>,
    assessment: Assessment<F>,
) -> (change: Change<F>)
    ensures
        change == verdict(target_stats, baseline_stats, assessment),
{
    let Assessment { difference, abs_difference, proportion, unstable, significant, decreasing } =
        assessment;
    if unstable {
        return Change::Unstable {
            target_stats,
            baseline_stats,
            difference,
            abs_difference,
            proportion,
        };
    }
    if significant {
        if decreasing {
            Change::Improvement {
                target_stats,
                baseline_stats,
                difference,
                abs_difference,
                proportion,
            }
        } else {
            Change::Regression {
                target_stats,
                baseline_stats,
                difference,
                abs_difference,
                proportion,
            }
        }
    } else {
        Change::Stable { target_stats, baseline_stats, difference, abs_difference, proportion }
    }
}

/// The operations on numbers. The last three are on the first number only.
#[derive(Debug, Clone, Copy, PartialEq, Eq, Structural)]
pub enum Operation {
    Plus,
    Minus,
    Times,
    Over,
    /// The number without its sign.
    Size,
    /// The square root.
    Root,
    /// The nearest whole number, and of two that are equally near the one farther from 0.
    Round,
}

/// The relations between two numbers.
#[derive(Debug, Clone, Copy, PartialEq, Eq, Structural)]
pub enum Relation {
    /// The first is larger.
    Above,
    /// The first is larger, or both are equal.
    AtLeast,
}

/// What the operations on numbers give.
#[verifier::reject_recursive_types(F)]
pub struct Model<F> {
    pub number: spec_fn(u64) -> F,
    pub operate: spec_fn(Operation, F, F) -> F,
    pub relate: spec_fn(Relation, F, F) -> bool,
    pub whole: spec_fn(F) -> u64,
}

impl<F> Model<F> {
    /// The sum of two numbers.
    pub open spec fn plus(&self, a: F, b: F) -> F {
        (self.operate)(Operation::Plus, a, b)
    }

    /// The difference of two numbers.
    pub open spec fn minus(&self, a: F, b: F) -> F {
        (self.operate)(Operation::Minus, a, b)
    }

    /// The product of two numbers.
    pub open spec fn times(&self, a: F, b: F) -> F {
        (self.operate)(Operation::Times, a, b)
    }

    /// The quotient of two numbers.
    pub open spec fn over(&self, a: F, b: F) -> F {
        (self.operate)(Operation::Over, a, b)
    }

    /// A number without its sign.
    pub open spec fn size(&self, a: F) -> F {
        (self.operate)(Operation::Size, a, a)
    }

    /// The square root of a number.
    pub open spec fn root(&self, a: F) -> F {
        (self.operate)(Operation::Root, a, a)
    }

    /// The nearest whole number.
    pub open spec fn round(&self, a: F) -> F {
        (self.operate)(Operation::Round, a, a)
    }

    /// The sum of some numbers, from the first to the last.
    pub open spec fn sum(&self, values: Seq<u64>) -> F
        decreases values.len(),
    {
        if values.len() == 0 {
            (self.number)(0)
        } else {
            self.plus(self.sum(values.drop_last()), (self.number)(values.last()))
        }
    }

    /// The square of the distance between a number and a mean.
    pub open spec fn square_of_distance(&self, value: u64, mean: F) -> F {
        let distance = self.size(self.minus((self.number)(value), mean));
        self.times(distance, distance)
    }

    /// The sum of the squares of the distances between some numbers and a mean.
    pub open spec fn sum_of_squares(&self, values: Seq<u64>, mean: F) -> F
        decreases values.len(),
    {
        if values.len() == 0 {
            (self.number)(0)
        } else {
            self.plus(
                self.sum_of_squares(values.drop_last(), mean),
                self.square_of_distance(values.last(), mean),
            )
        }
    }

    /// The mean of some numbers.
    pub open spec fn mean(&self, values: Seq<u64>) -> F {
        self.over(self.sum(values), (self.number)(values.len() as u64))
    }

    /// The standard deviation of some numbers, as a sample; 0 of one alone.
    pub open spec fn stddev(&self, values: Seq<u64>) -> F {
        self.root(
            if values.len() <= 1 {
                (self.number)(0)
            } else {
                self.over(
                    self.sum_of_squares(values, self.mean(values)),
                    self.minus((self.number)(values.len() as u64), (self.number)(1)),
                )
            },
        )
    }

    /// The mean and the standard deviation of a figure; 0 if there are no measurements.
    pub open spec fn figure(&self, data: Seq<CallStats>, figure: Figure) -> (F, F) {
        if data.len() == 0 {
            ((self.number)(0), (self.number)(0))
        } else {
            (self.mean(figure.values(data)), self.stddev(figure.values(data)))
        }
    }

    /// The means and standard deviations of measurements, each figure by itself.
    pub open spec fn stats(&self, data: Seq<CallStats>) -> Stats<F> {
        Stats {
            mean_self_time: self.figure(data, Figure::SelfTime).0,
            stddev_self_time: self.figure(data, Figure::SelfTime).1,
            mean_time: self.figure(data, Figure::Time).0,
            stddev_time: self.figure(data, Figure::Time).1,
            mean_call_count: self.figure(data, Figure::CallCount).0,
            stddev_call_count: self.figure(data, Figure::CallCount).1,
        }
    }

    /// How a mean differs from that of the baseline. The baseline is too uncertain if its
    /// deviation is more than one and a half of its mean, and the difference is significant if it
    /// is at least a tenth of the deviation.
    pub open spec fn assessment(&self, mean: F, other: F, stddev: F) -> Assessment<F> {
        let difference = self.minus(mean, other);
        let proportion = self.over(self.size(difference), other);
        let uncertainty = self.over(stddev, other);
        Assessment {
            difference,
            abs_difference: (self.whole)(self.size(difference)),
            proportion: self.times(proportion, (self.number)(100)),
            unstable: (self.relate)(
                Relation::Above,
                uncertainty,
                self.over((self.number)(3), (self.number)(2)),
            ),
            significant: (self.relate)(
                Relation::AtLeast,
                self.times(proportion, (self.number)(10)),
                uncertainty,
            ),
            decreasing: (self.relate)(Relation::Above, (self.number)(0), difference),
        }
    }

    /// What has become of a span with these measurements on the two commits: there is a
    /// comparison if it was measured on both, by the figure that counts for it.
    pub open spec fn change(
        &self,
        span: Seq<char>,
        target: Option<Seq<CallStats>>,
        baseline: Option<Seq<CallStats>>,
    ) -> Change<F> {
        match (target, baseline) {
            (Some(t), Some(b)) => {
                let figure = Figure::that_counts(span);
                let (ts, bs) = (self.stats(t), self.stats(b));
                verdict(
                    ts,
                    bs,
                    self.assessment(ts.mean(figure), bs.mean(figure), bs.stddev(figure)),
                )
            },
            (Some(t), None) => Change::New { stats: self.stats(t) },
            (None, Some(b)) => Change::Lost { stats: self.stats(b) },
            (None, None) => arbitrary(),
        }
    }

    /// The spans that were measured on either commit, and the change of each.
    pub open spec fn report(
        &self,
        target: Map<Seq<char>, Seq<CallStats>>,
        baseline: Map<Seq<char>, Seq<CallStats>>,
    ) -> Map<Seq<char>, Change<F>> {
        Map::new(
            |span: Seq<char>| target.contains_key(span) || baseline.contains_key(span),
            |span: Seq<char>| self.change(span, found(target, span), found(baseline, span)),
        )
    }
}

/// The operations on numbers, as they are carried out.
pub struct Arithmetic<N, O, R, W> {
    /// Gives a whole number as a number.
    pub number: N,
    /// Carries out an operation.
    pub operate: O,
    /// Tells whether a relation holds.
    pub relate: R,
    /// Gives a number that is not negative without its fraction.
    pub whole: W,
}

impl<
    F: Copy,
    N: Fn(u64) -> F,
    O: Fn(Operation, F, F) -> F,
    R: Fn(Relation, F, F) -> bool,
    W: Fn(F) -> u64,
> Arithmetic<N, O, R, W> {
    /// The operations can be carried out on all numbers.
    pub open spec fn is_total(&self) -> bool {
        &&& forall|n: u64| #[trigger] call_requires(self.number, (n,))
        &&& forall|op: Operation, a: F, b: F| #[trigger] call_requires(self.operate, (op, a, b))
        &&& forall|rel: Relation, a: F, b: F| #[trigger] call_requires(self.relate, (rel, a, b))
        &&& forall|a: F| #[trigger] call_requires(self.whole, (a,))
    }

    /// The operations give what `model` says.
    pub open spec fn follows(&self, model: Model<F>) -> bool {
        &&& forall|n: u64, result: F| #[trigger]
            call_ensures(self.number, (n,), result) ==> result == (model.number)(n)
        &&& forall|op: Operation, a: F, b: F, result: F| #[trigger]
            call_ensures(self.operate, (op, a, b), result) ==> result == (model.operate)(op, a, b)
        &&& forall|rel: Relation, a: F, b: F, result: bool| #[trigger]
            call_ensures(self.relate, (rel, a, b), result) ==> result == (model.relate)(rel, a, b)
        &&& forall|a: F, result: u64| #[trigger]
            call_ensures(self.whole, (a,), result) ==> result == (model.whole)(a)
    }

    /// `changes` is the comparison of what was measured on two commits.
    pub open spec fn is_report(
        &self,
        target: Map<Seq<char>, Seq<CallStats>>,
        baseline: Map<Seq<char>, Seq<CallStats>>,
        changes: SpanMap<Change<F>>,
    ) -> bool {
        &&& changes.wf()
        &&& changes.map().dom() == target.dom() + baseline.dom()
        &&& forall|model: Model<F>| #[trigger]
            self.follows(model) ==> changes.map() == model.report(target, baseline)
    }

    /// Adds up some numbers.
    fn sum(&self, values: &Vec<u64>) -> (sum: F)
        requires
            self.is_total(),
        ensures
            forall|model: Model<F>| #[trigger] self.follows(model) ==> sum == model.sum(values@),
    {
        let mut sum: F = (self.number)(0);
        let mut i: usize = 0;
        assert(values@.take(0) =~= Seq::empty());
        while i < values.len()
            invariant
                i <= values@.len(),
                self.is_total(),
                forall|model: Model<F>| #[trigger]
                    self.follows(model) ==> sum == model.sum(values@.take(i as int)),
            decreases values.len() - i,
        {
            assert(values@.take(i + 1).drop_last() =~= values@.take(i as int));
            sum = (self.operate)(Operation::Plus, sum, (self.number)(values[i]));
            i += 1;
        }
        assert(values@.take(i as int) =~= values@);
        sum
    }

    /// Adds up the squares of the distances between some numbers and a mean.
    fn sum_of_squares(&self, values: &Vec<u64>, mean: F) -> (sum: F)
        requires
            self.is_total(),
        ensures
            forall|model: Model<F>| #[trigger]
                self.follows(model) ==> sum == model.sum_of_squares(values@, mean),
    {
        let mut sum: F = (self.number)(0);
        let mut i: usize = 0;
        assert(values@.take(0) =~= Seq::empty());
        while i < values.len()
            invariant
                i <= values@.len(),
                self.is_total(),
                forall|model: Model<F>| #[trigger]
                    self.follows(model) ==> sum == model.sum_of_squares(
                        values@.take(i as int),
                        mean,
                    ),
            decreases values.len() - i,
        {
            assert(values@.take(i + 1).drop_last() =~= values@.take(i as int));
            let difference = (self.operate)(Operation::Minus, (self.number)(values[i]), mean);
            let distance = (self.operate)(Operation::Size, difference, difference);
            let square = (self.operate)(Operation::Times, distance, distance);
            sum = (self.operate)(Operation::Plus, sum, square);
            i += 1;
        }
        assert(values@.take(i as int) =~= values@);
        sum
    }

    /// Computes the mean and the standard deviation of some numbers.
    pub fn mean_stddev(&self, values: &Vec<u64>) -> (result: (F, F))
        requires
            self.is_total(),
        ensures
            forall|model: Model<F>| #[trigger]
                self.follows(model) ==> result == (model.mean(values@), model.stddev(values@)),
    {
        let sum = self.sum(values);
        let len = (self.number)(values.len() as u64);
        let mean = (self.operate)(Operation::Over, sum, len);
        let variance = if values.len() <= 1 {
            (self.number)(0)
        } else {
            let squares = self.sum_of_squares(values, mean);
            let less_one = (self.operate)(Operation::Minus, len, (self.number)(1));
            (self.operate)(Operation::Over, squares, less_one)
        };
        let stddev = (self.operate)(Operation::Root, variance, variance);
        (mean, stddev)
    }

    /// Computes the means and standard deviations of measurements.
    pub fn compute_stats(&self, data: &[CallStats]) -> (stats: Stats<F>)
        requires
            self.is_total(),
        ensures
            forall|model: Model<F>| #[trigger] self.follows(model) ==> stats == model.stats(data@),
    {
        if data.len() == 0 {
            let zero = (self.number)(0);
            return Stats {
                mean_self_time: zero,
                stddev_self_time: zero,
                mean_time: zero,
                stddev_time: zero,
                mean_call_count: zero,
                stddev_call_count: zero,
            };
        }
        let (mean_self_time, stddev_self_time) = self.mean_stddev(&Figure::SelfTime.all_of(data));
        let (mean_time, stddev_time) = self.mean_stddev(&Figure::Time.all_of(data));
        let (mean_call_count, stddev_call_count) = self.mean_stddev(
            &Figure::CallCount.all_of(data),
        );
        Stats {
            mean_self_time,
            stddev_self_time,
            mean_time,
            stddev_time,
            mean_call_count,
            stddev_call_count,
        }
    }

    /// Finds out how a mean differs from that of the baseline.
    pub fn assess(&self, mean: F, other: F, stddev: F) -> (assessment: Assessment<F>)
        requires
            self.is_total(),
        ensures
            forall|model: Model<F>| #[trigger]
                self.follows(model) ==> assessment == model.assessment(mean, other, stddev),
    {
        let difference = (self.operate)(Operation::Minus, mean, other);
        let size = (self.operate)(Operation::Size, difference, difference);
        let proportion = (self.operate)(Operation::Over, size, other);
        let uncertainty = (self.operate)(Operation::Over, stddev, other);
        let limit = (self.operate)(Operation::Over, (self.number)(3), (self.number)(2));
        let tenfold = (self.operate)(Operation::Times, proportion, (self.number)(10));
        Assessment {
            difference,
            abs_difference: (self.whole)(size),
            proportion: (self.operate)(Operation::Times, proportion, (self.number)(100)),
            unstable: (self.relate)(Relation::Above, uncertainty, limit),
            significant: (self.relate)(Relation::AtLeast, tenfold, uncertainty),
            decreasing: (self.relate)(Relation::Above, (self.number)(0), difference),
        }
    }

    /// Computes the change of a span that was measured on both commits.
    fn change_of(&self, span: &str, target: &Vec<CallStats>, baseline: &Vec<CallStats>) -> (change:
        Change<F>)
        requires
            self.is_total(),
        ensures
            forall|model: Model<F>| #[trigger]
                self.follows(model) ==> change == model.change(
                    span@,
                    Some(target@),
                    Some(baseline@),
                ),
    {
        let target_stats = self.compute_stats(target.as_slice());
        let baseline_stats = self.compute_stats(baseline.as_slice());
        let (target_mean, baseline_mean, baseline_stddev) = match Figure::for_span(span) {
            Figure::Time => (
                target_stats.mean_time,
                baseline_stats.mean_time,
                baseline_stats.stddev_time,
            ),
            _ => (
                target_stats.mean_self_time,
                baseline_stats.mean_self_time,
                baseline_stats.stddev_self_time,
            ),
        };
        let assessment = self.assess(target_mean, baseline_mean, baseline_stddev);
        classify(target_stats, baseline_stats, assessment)
    }

    /// Compares what was measured on two commits, span by span.
    pub fn compare_commits(
        &self,
        target_data: &SpanMap<Vec<CallStats>>,
        baseline_data: &SpanMap<Vec<CallStats>>,
    ) -> (changes: SpanMap<Change<F>>)
        requires
            target_data.wf(),
            baseline_data.wf(),
            self.is_total(),
        ensures
            self.is_report(target_data.groups(), baseline_data.groups(), changes),
    {
        let mut changes: SpanMap<Change<F>> = SpanMap::new();
        let joined = merge_join(target_data.entries(), baseline_data.entries());
        let mut i: usize = 0;
        while i < joined.len()
            invariant
                i <= joined@.len(),
                target_data.wf(),
                baseline_data.wf(),
                self.is_total(),
                forall|k: int|
                    0 <= k < joined@.len() ==> (#[trigger] joined@[k]).stands_in(
                        target_data@,
                        baseline_data@,
                    ),
                changes.wf(),
                covers(changes.map(), joined@, i as int),
                forall|model: Model<F>, span: Seq<char>|
                    #![trigger self.follows(model), changes.map().contains_key(span)]
                    self.follows(model) && changes.map().contains_key(span) ==> changes.map()[span]
                        == model.change(
                        span,
                        found(target_data.groups(), span),
                        found(baseline_data.groups(), span),
                    ),
            decreases joined.len() - i,
        {
            let ghost before = changes.map();
            let ghost entry = joined@[i as int];
            let (span, change) = match &joined[i] {
                Joined::Both(target, baseline) => {
                    proof {
                        entry_is_found(*target_data, **target);
                        entry_is_found(*baseline_data, **baseline);
                    }
                    (
                        target.0.clone(),
                        self.change_of(target.0.as_str(), &target.1, &baseline.1),
                    )
                },
                Joined::Left(target) => {
                    proof {
                        entry_is_found(*target_data, **target);
                        absent_is_not_found(*baseline_data, target.0@);
                    }
                    (
                        target.0.clone(),
                        Change::New { stats: self.compute_stats(target.1.as_slice()) },
                    )
                },
                Joined::Right(baseline) => {
                    proof {
                        entry_is_found(*baseline_data, **baseline);
                        absent_is_not_found(*target_data, baseline.0@);
                    }
                    (
                        baseline.0.clone(),
                        Change::Lost { stats: self.compute_stats(baseline.1.as_slice()) },
                    )
                },
            };
            assert(span@ == entry.span());
            changes.insert(span, change);
            proof {
                let seen = joined@.take(i as int);
                let more = joined@.take(i + 1);
                assert forall|name: Seq<char>| #[trigger]
                    changes.map().contains_key(name) <==> has_span(more, name) by {
                    if has_span(seen, name) {
                        let k = choose|k: int|
                            0 <= k < seen.len() && (#[trigger] seen[k]).span() == name;
                        assert(more[k].span() == name);
                    }
                    if has_span(more, name) {
                        let k = choose|k: int|
                            0 <= k < more.len() && (#[trigger] more[k]).span() == name;
                        if k < i {
                            assert(seen[k].span() == name);
                        }
                    }
                    if name == span@ {
                        assert(more[i as int].span() == name);
                    }
                    assert(before.contains_key(name) <==> has_span(seen, name));
                }
            }
            i += 1;
        }
        proof {
            assert(joined@.take(i as int) =~= joined@);
            assert forall|span: Seq<char>| #[trigger]
                changes.map().dom().contains(span) == (target_data.groups().dom()
                    + baseline_data.groups().dom()).contains(span) by {
                assert(changes.map().contains_key(span) <==> has_span(joined@, span));
                absent_is_not_found(*target_data, span);
                absent_is_not_found(*baseline_data, span);
            }
            assert(changes.map().dom() =~= target_data.groups().dom()
                + baseline_data.groups().dom());
            assert forall|model: Model<F>| #[trigger] self.follows(model) implies changes.map()
                == model.report(target_data.groups(), baseline_data.groups()) by {
                let report = model.report(target_data.groups(), baseline_data.groups());
                assert forall|span: Seq<char>|
                    #![trigger changes.map().dom().contains(span)]
                    #![trigger changes.map()[span]]
                    changes.map().dom().contains(span) == report.dom().contains(span) && (
                    changes.map().dom().contains(span) ==> changes.map()[span] == report[span]) by {
                    assert(changes.map().contains_key(span) ==> changes.map()[span] == report[span]);
                }
                assert(changes.map() =~= report);
            }
        }
        changes
    }
}

/// What a map holds under `span`, if anything.
pub open spec fn found<T>(groups: Map<Seq<char>, Seq<T>>, span: Seq<char>) -> Option<Seq<T>> {
    if groups.contains_key(span) {
        Some(groups[span])
    } else {
        None
    }
}

/// An entry of a map of lists is what is found under its name.
proof fn entry_is_found<T>(spans: SpanMap<Vec<T>>, entry: (String, Vec<T>))
    requires
        spans.wf(),
        spans@.contains(entry),
    ensures
        found(spans.groups(), entry.0@) == Some(entry.1@),
{
    let i = choose|i: int| 0 <= i < spans@.len() && spans@[i] == entry;
    entry_is_mapped(spans@, i);
}

/// Under a name that no entry has nothing is found.
proof fn absent_is_not_found<T>(spans: SpanMap<Vec<T>>, span: Seq<char>)
    ensures
        names(spans@, span) <==> found(spans.groups(), span) is Some,
{
}

/// The changes are those of the spans of the first `n` entries.
spec fn covers<'a, F, A, B>(
    changes: Map<Seq<char>, Change<F>>,
    joined: Seq<Joined<'a, A, B>>,
    n: int,
) -> bool {
    forall|span: Seq<char>| #[trigger]
        changes.contains_key(span) <==> has_span(joined.take(n), span)
}

/// The kind of a change tells where the span was measured: on the target only if it is new, on
/// the baseline only if it is lost, and on both otherwise.
pub proof fn kind_tells_where_measured<F>(
    model: Model<F>,
    target: Map<Seq<char>, Seq<CallStats>>,
    baseline: Map<Seq<char>, Seq<CallStats>>,
    span: Seq<char>,
)
    requires
        model.report(target, baseline).contains_key(span),
    ensures
        model.report(target, baseline)[span].kind() == Kind::New <==> !baseline.contains_key(span),
        model.report(target, baseline)[span].kind() == Kind::Lost <==> !target.contains_key(span),
{
}

/// A change says where it belongs by its variant alone, and its size is the one that it holds. A
/// span that was measured on one commit only has no size.
pub proof fn change_is_told_by_its_variant<F>(change: Change<F>)
    ensures
        change is New <==> change.kind() == Kind::New,
        change is Lost <==> change.kind() == Kind::Lost,
        change is Improvement <==> change.kind() == Kind::Improvement,
        change is Regression <==> change.kind() == Kind::Regression,
        change is Stable <==> change.kind() == Kind::Stable,
        change is Unstable <==> change.kind() == Kind::Unstable,
        change is New || change is Lost ==> change.size() == 0,
        change matches Change::Improvement { abs_difference, .. } ==> change.size()
            == abs_difference,
        change matches Change::Regression { abs_difference, .. } ==> change.size()
            == abs_difference,
        change matches Change::Stable { abs_difference, .. } ==> change.size() == abs_difference,
        change matches Change::Unstable { abs_difference, .. } ==> change.size() == abs_difference,
{
}

/// Where a span was measured on both commits, `change` holds these statistics of the target and of
/// the baseline, and these figures of how they differ.
pub open spec fn holds_both<F>(
    change: Change<F>,
    of_target: Stats<F>,
    of_baseline: Stats<F>,
    by: F,
    size: u64,
    percent: F,
) -> bool {
    match change {
        Change::New { .. } => false,
        Change::Lost { .. } => false,
        Change::Improvement {
            target_stats,
            baseline_stats,
            difference,
            abs_difference,
            proportion,
        } => {
            &&& target_stats == of_target
            &&& baseline_stats == of_baseline
            &&& difference == by && abs_difference == size && proportion == percent
        },
        Change::Regression {
            target_stats,
            baseline_stats,
            difference,
            abs_difference,
            proportion,
        } => {
            &&& target_stats == of_target
            &&& baseline_stats == of_baseline
            &&& difference == by && abs_difference == size && proportion == percent
        },
        Change::Stable {
            target_stats,
            baseline_stats,
            difference,
            abs_difference,
            proportion,
        } => {
            &&& target_stats == of_target
            &&& baseline_stats == of_baseline
            &&& difference == by && abs_difference == size && proportion == percent
        },
        Change::Unstable {
            target_stats,
            baseline_stats,
            difference,
            abs_difference,
            proportion,
        } => {
            &&& target_stats == of_target
            &&& baseline_stats == of_baseline
            &&& difference == by && abs_difference == size && proportion == percent
        },
    }
}

/// Whatever the verdict, the statistics of the target stand as those of the target and those of
/// the baseline as those of the baseline, beside the figures of the assessment. Which verdict it is
/// depends on the assessment alone: uncertainty comes before significance, and significance before
/// the direction.
pub proof fn verdict_keeps_the_commits_apart<F>(
    target_stats: Stats<F>,
    baseline_stats: Stats<F>,
    assessment: Assessment<F>,
)
    ensures
        holds_both(
            verdict(target_stats, baseline_stats, assessment),
            target_stats,
            baseline_stats,
            assessment.difference,
            assessment.abs_difference,
            assessment.proportion,
        ),
        verdict(target_stats, baseline_stats, assessment) is Unstable <==> assessment.unstable,
        verdict(target_stats, baseline_stats, assessment) is Stable <==> !assessment.unstable
            && !assessment.significant,
        verdict(target_stats, baseline_stats, assessment) is Improvement <==> !assessment.unstable
            && assessment.significant && assessment.decreasing,
        verdict(target_stats, baseline_stats, assessment) is Regression <==> !assessment.unstable
            && assessment.significant && !assessment.decreasing,
{
}

/// The mean is what the numbers come to when they are added from the first to the last, divided by
/// how many there are. The deviation is the root of the variance: the squares of the distances to
/// the mean, added in the same order and divided by one less than how many there are, or 0 where
/// there are fewer than two.
pub proof fn numbers_are_averaged<F>(model: Model<F>, values: Seq<u64>)
    ensures
        model.mean(values) == (model.operate)(
            Operation::Over,
            values.fold_left(
                (model.number)(0),
                |total: F, value: u64| (model.operate)(Operation::Plus, total, (model.number)(value)),
            ),
            (model.number)(values.len() as u64),
        ),
        ({
            let zero = (model.number)(0);
            let squares = values.fold_left(
                zero,
                |total: F, value: u64|
                    {
                        let difference = (model.operate)(
                            Operation::Minus,
                            (model.number)(value),
                            model.mean(values),
                        );
                        let distance = (model.operate)(Operation::Size, difference, difference);
                        (model.operate)(
                            Operation::Plus,
                            total,
                            (model.operate)(Operation::Times, distance, distance),
                        )
                    },
            );
            let variance = (model.operate)(
                Operation::Over,
                squares,
                (model.operate)(
                    Operation::Minus,
                    (model.number)(values.len() as u64),
                    (model.number)(1),
                ),
            );
            &&& values.len() <= 1 ==> model.stddev(values) == (model.operate)(
                Operation::Root,
                zero,
                zero,
            )
            &&& values.len() > 1 ==> model.stddev(values) == (model.operate)(
                Operation::Root,
                variance,
                variance,
            )
        }),
{
    let plus = |total: F, value: u64|
        (model.operate)(Operation::Plus, total, (model.number)(value));
    sum_is_folded(model, values, plus);
    let mean = model.mean(values);
    let plus_square = |total: F, value: u64|
        {
            let difference = (model.operate)(
                Operation::Minus,
                (model.number)(value),
                model.mean(values),
            );
            let distance = (model.operate)(Operation::Size, difference, difference);
            (model.operate)(
                Operation::Plus,
                total,
                (model.operate)(Operation::Times, distance, distance),
            )
        };
    squares_are_folded(model, values, mean, plus_square);
}

/// Adding numbers up one after the other is a fold.
proof fn sum_is_folded<F>(model: Model<F>, values: Seq<u64>, plus: spec_fn(F, u64) -> F)
    requires
        forall|total: F, value: u64| #[trigger]
            plus(total, value) == (model.operate)(Operation::Plus, total, (model.number)(value)),
    ensures
        model.sum(values) == values.fold_left((model.number)(0), plus),
    decreases values.len(),
{
    if values.len() > 0 {
        sum_is_folded(model, values.drop_last(), plus);
    }
}

/// Adding squares up one after the other is a fold.
proof fn squares_are_folded<F>(
    model: Model<F>,
    values: Seq<u64>,
    mean: F,
    plus: spec_fn(F, u64) -> F,
)
    requires
        forall|total: F, value: u64| #[trigger]
            plus(total, value) == (model.operate)(
                Operation::Plus,
                total,
                model.square_of_distance(value, mean),
            ),
    ensures
        model.sum_of_squares(values, mean) == values.fold_left((model.number)(0), plus),
    decreases values.len(),
{
    if values.len() > 0 {
        squares_are_folded(model, values.drop_last(), mean, plus);
    }
}

/// Each figure is averaged over its own values: the own times, the times and the call counts. No
/// measurements give 0 throughout.
pub proof fn figures_are_averaged_apart<F>(model: Model<F>, data: Seq<CallStats>)
    ensures
        ({
            let stats = model.stats(data);
            let self_times = data.map_values(|measured: CallStats| measured.self_time);
            let times = data.map_values(|measured: CallStats| measured.time);
            let call_counts = data.map_values(|measured: CallStats| measured.call_count);
            let zero = (model.number)(0);
            &&& data.len() > 0 ==> {
                &&& stats.mean_self_time == model.mean(self_times)
                &&& stats.stddev_self_time == model.stddev(self_times)
                &&& stats.mean_time == model.mean(times)
                &&& stats.stddev_time == model.stddev(times)
                &&& stats.mean_call_count == model.mean(call_counts)
                &&& stats.stddev_call_count == model.stddev(call_counts)
            }
            &&& data.len() == 0 ==> {
                &&& stats.mean_self_time == zero && stats.stddev_self_time == zero
                &&& stats.mean_time == zero && stats.stddev_time == zero
                &&& stats.mean_call_count == zero && stats.stddev_call_count == zero
            }
        }),
{
    assert(Figure::SelfTime.values(data) =~= data.map_values(
        |measured: CallStats| measured.self_time,
    ));
    assert(Figure::Time.values(data) =~= data.map_values(|measured: CallStats| measured.time));
    assert(Figure::CallCount.values(data) =~= data.map_values(
        |measured: CallStats| measured.call_count,
    ));
}

/// A report has every span that was measured on either commit. One that was measured on both shows
/// the statistics of the target's measurements as the target's and those of the baseline's as the
/// baseline's, whatever has become of it. It differs by the target's mean less the baseline's, of
/// the time for a whole run and else of the own time, and in percent of the baseline's mean. One
/// that was measured on one commit only shows the statistics of that commit.
pub proof fn report_shows_each_commit_as_measured<
    F: Copy,
    N: Fn(u64) -> F,
    O: Fn(Operation, F, F) -> F,
    R: Fn(Relation, F, F) -> bool,
    W: Fn(F) -> u64,
>(
    arithmetic: Arithmetic<N, O, R, W>,
    model: Model<F>,
    target: Map<Seq<char>, Seq<CallStats>>,
    baseline: Map<Seq<char>, Seq<CallStats>>,
    changes: SpanMap<Change<F>>,
    span: Seq<char>,
)
    requires
        arithmetic.follows(model),
        arithmetic.is_report(target, baseline, changes),
    ensures
        changes.map().contains_key(span) <==> target.contains_key(span) || baseline.contains_key(
            span,
        ),
        target.contains_key(span) && baseline.contains_key(span) ==> {
            let of_target = model.stats(target[span]);
            let of_baseline = model.stats(baseline[span]);
            let mean = if span == "::meta::total"@ {
                of_target.mean_time
            } else {
                of_target.mean_self_time
            };
            let other = if span == "::meta::total"@ {
                of_baseline.mean_time
            } else {
                of_baseline.mean_self_time
            };
            let difference = (model.operate)(Operation::Minus, mean, other);
            let size = (model.operate)(Operation::Size, difference, difference);
            holds_both(
                changes.map()[span],
                of_target,
                of_baseline,
                difference,
                (model.whole)(size),
                (model.operate)(
                    Operation::Times,
                    (model.operate)(Operation::Over, size, other),
                    (model.number)(100),
                ),
            )
        },
        target.contains_key(span) && !baseline.contains_key(span) ==> changes.map()[span]
            == (Change::New { stats: model.stats(target[span]) }),
        !target.contains_key(span) && baseline.contains_key(span) ==> changes.map()[span]
            == (Change::Lost { stats: model.stats(baseline[span]) }),
{
    assert(changes.map() == model.report(target, baseline));
    assert(changes.map().contains_key(span) == model.report(target, baseline).contains_key(span));
}

/// A span that was measured on both commits is unstable if the deviation on the baseline is more
/// than one and a half of the mean there. Otherwise it is stable if ten times the difference, in
/// parts of that mean, does not reach the deviation in parts of that mean. Otherwise it has
/// improved if the difference is below 0, and is worse if it is not.
pub proof fn verdict_is_by_the_baseline<F>(
    model: Model<F>,
    target: Map<Seq<char>, Seq<CallStats>>,
    baseline: Map<Seq<char>, Seq<CallStats>>,
    span: Seq<char>,
)
    requires
        target.contains_key(span),
        baseline.contains_key(span),
    ensures
        ({
            let change = model.report(target, baseline)[span];
            let whole_run = span == "::meta::total"@;
            let of_target = model.stats(target[span]);
            let of_baseline = model.stats(baseline[span]);
            let mean = if whole_run { of_target.mean_time } else { of_target.mean_self_time };
            let other = if whole_run { of_baseline.mean_time } else { of_baseline.mean_self_time };
            let deviation = if whole_run {
                of_baseline.stddev_time
            } else {
                of_baseline.stddev_self_time
            };
            let difference = (model.operate)(Operation::Minus, mean, other);
            let size = (model.operate)(Operation::Size, difference, difference);
            let uncertainty = (model.operate)(Operation::Over, deviation, other);
            let uncertain = (model.relate)(
                Relation::Above,
                uncertainty,
                (model.operate)(Operation::Over, (model.number)(3), (model.number)(2)),
            );
            let significant = (model.relate)(
                Relation::AtLeast,
                (model.operate)(
                    Operation::Times,
                    (model.operate)(Operation::Over, size, other),
                    (model.number)(10),
                ),
                uncertainty,
            );
            let less = (model.relate)(Relation::Above, (model.number)(0), difference);
            &&& change is Unstable <==> uncertain
            &&& change is Stable <==> !uncertain && !significant
            &&& change is Improvement <==> !uncertain && significant && less
            &&& change is Regression <==> !uncertain && significant && !less
        }),
{
}

} // verus!
