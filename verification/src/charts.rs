//! What the charts show.

use crate::model::{total_time, CallStats};
use crate::span_map::SpanMap;
use crate::stats::{Arithmetic, Figure, Model, Operation, Relation, TOTAL_SPAN};
use crate::times::{axis_holds_shown_time, axis_holds_time, size_in_unit, TimeWithUnit};
use crate::units::TimeUnit;
use vstd::prelude::*;

verus! {

/// The colors of a gauge.
#[derive(Debug, Clone, Copy, PartialEq, Eq, Structural)]
pub enum Color {
    Blue,
    Red,
    Green,
}

/// A gauge that shows the time of a run.
pub struct Gauge<F> {
    /// The mean time on the target, in the unit.
    pub value: F,
    /// The mean time on the commit that it is compared with, in the unit.
    pub reference: Option<F>,
    /// Where the axis ends, in the unit.
    pub axis_end: F,
    pub unit: TimeUnit,
    /// The color of the bar.
    pub bar: Color,
}

/// The mean time of a run, rounded down; 0 if there is none.
pub open spec fn mean_total(spans: Map<Seq<char>, Seq<CallStats>>) -> nat {
    if spans.contains_key(TOTAL_SPAN@) {
        CallStats::mean_time(spans[TOTAL_SPAN@]).unwrap_or(0)
    } else {
        0
    }
}

/// The sum of the times of the runs fits in 64 bits.
pub open spec fn total_fits(spans: Map<Seq<char>, Seq<CallStats>>) -> bool {
    spans.contains_key(TOTAL_SPAN@) ==> total_time(spans[TOTAL_SPAN@]) <= u64::MAX
}

/// Tells whether the sum of the times of the runs fits in 64 bits.
pub fn has_total(spans: &SpanMap<Vec<CallStats>>) -> (fits: bool)
    requires
        spans.wf(),
    ensures
        fits == total_fits(spans.groups()),
{
    match spans.get(TOTAL_SPAN) {
        Some(stats) => CallStats::sum_fits(stats.as_slice()),
        None => true,
    }
}

/// Computes the mean time of a run.
fn mean_of_total(spans: &SpanMap<Vec<CallStats>>) -> (mean: u64)
    requires
        spans.wf(),
        total_fits(spans.groups()),
    ensures
        mean == mean_total(spans.groups()),
{
    match spans.get(TOTAL_SPAN) {
        Some(stats) => match CallStats::avg_time(stats.as_slice()) {
            Some(mean) => mean,
            None => 0,
        },
        None => 0,
    }
}

/// The longer of two times, the second of which may be missing.
pub open spec fn longer(target: u64, baseline: Option<u64>) -> u64 {
    match baseline {
        Some(b) if b > target => b,
        _ => target,
    }
}

impl<F> Model<F> {
    /// A time of some nanoseconds, in a unit.
    pub open spec fn time_in(&self, nano: u64, unit: TimeUnit) -> TimeWithUnit<F> {
        TimeWithUnit { nano: (self.number)(nano), unit }
    }

    /// The gauge for a time and the one that it is compared with. Both are shown in the unit in
    /// which the longer is best read, on an axis that is long enough for it. The bar is red if the
    /// time has grown and green if not, and blue if there is nothing to compare with.
    pub open spec fn gauge(&self, target: u64, baseline: Option<u64>) -> Gauge<F> {
        let longest = longer(target, baseline);
        let unit = self.readable((self.number)(longest));
        Gauge {
            value: self.in_own_unit(self.time_in(target, unit)),
            reference: match baseline {
                Some(b) => Some(self.in_own_unit(self.time_in(b, unit))),
                None => None,
            },
            axis_end: self.axis_end(self.time_in(longest, unit)),
            unit,
            bar: match baseline {
                None => Color::Blue,
                Some(b) => if (self.relate)(
                    Relation::Above,
                    (self.number)(target),
                    (self.number)(b),
                ) {
                    Color::Red
                } else {
                    Color::Green
                },
            },
        }
    }

    /// Times of some nanoseconds, in a unit.
    pub open spec fn times_in(&self, values: Seq<u64>, unit: TimeUnit) -> Seq<F> {
        values.map_values(|nano: u64| self.in_own_unit(self.time_in(nano, unit)))
    }
}

impl<
    F: Copy,
    N: Fn(u64) -> F,
    O: Fn(Operation, F, F) -> F,
    R: Fn(Relation, F, F) -> bool,
    W: Fn(F) -> u64,
> Arithmetic<N, O, R, W> {
    /// `gauge` shows the mean time of the runs on the target, and on the baseline if there is one.
    pub open spec fn is_gauge_of(
        &self,
        baseline: Option<Map<Seq<char>, Seq<CallStats>>>,
        target: Map<Seq<char>, Seq<CallStats>>,
        gauge: Gauge<F>,
    ) -> bool {
        forall|model: Model<F>| #[trigger]
            self.follows(model) ==> gauge == model.gauge(
                mean_total(target) as u64,
                match baseline {
                    Some(spans) => Some(mean_total(spans) as u64),
                    None => None,
                },
            )
    }

    /// A time of some nanoseconds, in a unit.
    fn shown(&self, nano: u64, unit: TimeUnit) -> (value: F)
        requires
            self.is_total(),
        ensures
            forall|model: Model<F>| #[trigger]
                self.follows(model) ==> value == model.in_own_unit(model.time_in(nano, unit)),
    {
        TimeWithUnit::with_unit((self.number)(nano), unit).as_own_unit(self)
    }

    /// Computes what the gauge shows for a workload, and for the one that it is compared with.
    pub fn summary_gauge(
        &self,
        baseline: Option<&SpanMap<Vec<CallStats>>>,
        target: &SpanMap<Vec<CallStats>>,
    ) -> (gauge: Gauge<F>)
        requires
            self.is_total(),
            target.wf(),
            total_fits(target.groups()),
            baseline matches Some(spans) ==> spans.wf() && total_fits(spans.groups()),
        ensures
            gauge.reference is Some <==> baseline is Some,
            gauge.bar == Color::Blue <==> baseline is None,
            self.is_gauge_of(
                match baseline {
                    Some(spans) => Some(spans.groups()),
                    None => None,
                },
                target.groups(),
                gauge,
            ),
    {
        let target_total_time = mean_of_total(target);
        let baseline_total_time = match baseline {
            Some(spans) => Some(mean_of_total(spans)),
            None => None,
        };
        let longest: u64 = match baseline_total_time {
            Some(b) if b > target_total_time => b,
            _ => target_total_time,
        };
        let longest_time = TimeWithUnit::new((self.number)(longest), self);
        let unit = longest_time.unit;
        let value = self.shown(target_total_time, unit);
        let axis_end = longest_time.nice_axis_end_value(self);
        let (reference, bar) = match baseline_total_time {
            None => (None, Color::Blue),
            Some(b) => {
                let (target_number, number) = ((self.number)(target_total_time), (self.number)(b));
                let bar = if (self.relate)(Relation::Above, target_number, number) {
                    Color::Red
                } else {
                    Color::Green
                };
                (Some(self.shown(b, unit)), bar)
            },
        };
        Gauge { value, reference, axis_end, unit, bar }
    }
}

/// One box of a chart.
pub struct Series<F> {
    pub name: String,
    pub values: Vec<F>,
}

/// A chart with a box for every commit.
pub struct Boxplot<F> {
    pub title: String,
    /// The unit that all values are in.
    pub unit: TimeUnit,
    pub series: Vec<Series<F>>,
}

/// The largest of some numbers; 0 if there are none.
pub open spec fn peak(values: Seq<u64>) -> u64
    decreases values.len(),
{
    if values.len() == 0 {
        0
    } else if values.last() > peak(values.drop_last()) {
        values.last()
    } else {
        peak(values.drop_last())
    }
}

/// Finds the largest of some numbers.
fn find_peak(values: &Vec<u64>) -> (largest: u64)
    ensures
        largest == peak(values@),
{
    let mut largest: u64 = 0;
    let mut i: usize = 0;
    assert(values@.take(0) =~= Seq::empty());
    while i < values.len()
        invariant
            i <= values@.len(),
            largest == peak(values@.take(i as int)),
        decreases values.len() - i,
    {
        assert(values@.take(i + 1).drop_last() =~= values@.take(i as int));
        if values[i] > largest {
            largest = values[i];
        }
        i += 1;
    }
    assert(values@.take(i as int) =~= values@);
    largest
}

/// The largest figure of some commits; 0 if there is none.
pub open spec fn highest(commits: Seq<(String, Vec<CallStats>)>, figure: Figure) -> u64 {
    peak(commits.map_values(|commit: (String, Vec<CallStats>)| peak(figure.values(commit.1@))))
}

/// The larger of two numbers.
pub open spec fn larger(a: u64, b: u64) -> u64 {
    if b > a {
        b
    } else {
        a
    }
}

/// Finds the largest figure of some commits.
fn find_highest(commits: &Vec<(String, Vec<CallStats>)>, figure: Figure) -> (largest: u64)
    ensures
        largest == highest(commits@, figure),
{
    let mut peaks: Vec<u64> = Vec::new();
    let mut i: usize = 0;
    let ghost all = commits@.map_values(
        |commit: (String, Vec<CallStats>)| peak(figure.values(commit.1@)),
    );
    while i < commits.len()
        invariant
            i <= commits@.len(),
            all == commits@.map_values(
                |commit: (String, Vec<CallStats>)| peak(figure.values(commit.1@)),
            ),
            peaks@ == all.take(i as int),
        decreases commits.len() - i,
    {
        peaks.push(find_peak(&figure.all_of(commits[i].1.as_slice())));
        i += 1;
        assert(peaks@ =~= all.take(i as int));
    }
    assert(all.take(i as int) =~= all);
    find_peak(&peaks)
}

impl<
    F: Copy,
    N: Fn(u64) -> F,
    O: Fn(Operation, F, F) -> F,
    R: Fn(Relation, F, F) -> bool,
    W: Fn(F) -> u64,
> Arithmetic<N, O, R, W> {
    /// `one` has the name and the figure of the measurements of a commit, in a unit.
    pub open spec fn is_series_of(
        &self,
        name: Seq<char>,
        values: Seq<u64>,
        unit: TimeUnit,
        one: Series<F>,
    ) -> bool {
        &&& one.name@ == name
        &&& one.values@.len() == values.len()
        &&& forall|model: Model<F>| #[trigger]
            self.follows(model) ==> one.values@ == model.times_in(values, unit)
    }

    /// `plot` has a box for every commit of the baseline and then one for the target, all in the
    /// unit in which the largest of their figures is best read.
    pub open spec fn is_boxplot_of(
        &self,
        span: Seq<char>,
        target: Seq<char>,
        target_stats: Seq<CallStats>,
        baseline: Seq<(String, Vec<CallStats>)>,
        plot: Boxplot<F>,
    ) -> bool {
        &&& plot.title@ == span
        &&& forall|model: Model<F>| #[trigger]
            self.follows(model) ==> plot.unit == model.readable(
                (model.number)(
                    larger(
                        peak(Figure::that_counts(span).values(target_stats)),
                        highest(baseline, Figure::that_counts(span)),
                    ),
                ),
            )
        &&& plot.series@.len() == baseline.len() + 1
        &&& forall|i: int|
            0 <= i < baseline.len() ==> self.is_series_of(
                baseline[i].0@,
                Figure::that_counts(span).values(baseline[i].1@),
                plot.unit,
                #[trigger] plot.series@[i],
            )
        &&& self.is_series_of(
            "This commit: "@ + target,
            Figure::that_counts(span).values(target_stats),
            plot.unit,
            plot.series@.last(),
        )
    }

    /// Makes the box of a commit.
    fn series_of(&self, name: String, values: &Vec<u64>, unit: TimeUnit) -> (one: Series<F>)
        requires
            self.is_total(),
        ensures
            self.is_series_of(name@, values@, unit, one),
    {
        let mut shown: Vec<F> = Vec::new();
        let mut i: usize = 0;
        while i < values.len()
            invariant
                i <= values@.len(),
                shown@.len() == i,
                self.is_total(),
                forall|model: Model<F>| #[trigger]
                    self.follows(model) ==> shown@ == model.times_in(values@.take(i as int), unit),
            decreases values.len() - i,
        {
            let ghost before = shown@;
            shown.push(self.shown(values[i], unit));
            proof {
                assert forall|model: Model<F>| #[trigger] self.follows(model) implies shown@
                    == model.times_in(values@.take(i + 1), unit) by {
                    assert(before == model.times_in(values@.take(i as int), unit));
                    assert(shown@ =~= model.times_in(values@.take(i + 1), unit));
                }
            }
            i += 1;
        }
        assert(values@.take(i as int) =~= values@);
        Series { name, values: shown }
    }

    /// Computes what the chart of a span shows: a box for every commit that the target is compared
    /// with, in their order, and then one for the target. All values are in the unit in which the
    /// largest of them is best read.
    pub fn comparison_boxplot(
        &self,
        span: &str,
        target: &str,
        target_stats: &[CallStats],
        baseline: &Vec<(String, Vec<CallStats>)>,
    ) -> (plot: Boxplot<F>)
        requires
            self.is_total(),
        ensures
            self.is_boxplot_of(span@, target@, target_stats@, baseline@, plot),
    {
        let figure = Figure::for_span(span);
        let target_values = figure.all_of(target_stats);
        let target_max = find_peak(&target_values);
        let baseline_max = find_highest(baseline, figure);
        let max = if baseline_max > target_max {
            baseline_max
        } else {
            target_max
        };
        let unit = TimeWithUnit::new((self.number)(max), self).unit;
        let mut series: Vec<Series<F>> = Vec::new();
        let mut i: usize = 0;
        while i < baseline.len()
            invariant
                i <= baseline@.len(),
                self.is_total(),
                figure == Figure::that_counts(span@),
                series@.len() == i,
                forall|k: int|
                    0 <= k < i ==> self.is_series_of(
                        baseline@[k].0@,
                        figure.values(baseline@[k].1@),
                        unit,
                        #[trigger] series@[k],
                    ),
            decreases baseline.len() - i,
        {
            let values = figure.all_of(baseline[i].1.as_slice());
            series.push(self.series_of(baseline[i].0.clone(), &values, unit));
            i += 1;
        }
        let name = "This commit: ".to_string().concat(target);
        series.push(self.series_of(name, &target_values, unit));
        Boxplot { title: span.to_string(), unit, series }
    }
}

/// The peak of some numbers is one of them, and none is larger.
proof fn peak_is_largest(values: Seq<u64>)
    ensures
        forall|i: int| 0 <= i < values.len() ==> #[trigger] values[i] <= peak(values),
        values.len() > 0 ==> values.contains(peak(values)),
    decreases values.len(),
{
    if values.len() > 0 {
        let rest = values.drop_last();
        peak_is_largest(rest);
        assert forall|i: int| 0 <= i < values.len() implies #[trigger] values[i] <= peak(values) by {
            if i < rest.len() {
                assert(rest[i] == values[i]);
            }
        }
        if rest.len() > 0 && rest.contains(peak(rest)) {
            let i = choose|i: int| 0 <= i < rest.len() && rest[i] == peak(rest);
            assert(values[i] == peak(rest));
        }
        assert(values[values.len() - 1] == values.last());
    }
}

/// No figure of a commit is above the highest, by which the unit of a chart is chosen.
pub proof fn chart_is_bounded(
    commits: Seq<(String, Vec<CallStats>)>,
    figure: Figure,
    i: int,
    j: int,
)
    requires
        0 <= i < commits.len(),
        0 <= j < commits[i].1@.len(),
    ensures
        figure.value(commits[i].1@[j]) <= highest(commits, figure),
{
    let peaks = commits.map_values(
        |commit: (String, Vec<CallStats>)| peak(figure.values(commit.1@)),
    );
    let values = figure.values(commits[i].1@);
    peak_is_largest(values);
    peak_is_largest(peaks);
    assert(values[j] == figure.value(commits[i].1@[j]));
    assert(peaks[i] == peak(values));
}

/// A gauge is in the unit in which the longer of its times is best read, as far as numbers
/// measure it, and the bar is red exactly if the time has grown, as far as numbers tell the two
/// apart.
pub proof fn gauge_tells_the_change<F>(model: Model<F>, target: u64, baseline: u64)
    requires
        model.measures(longer(target, Some(baseline))),
        (model.relate)(Relation::Above, (model.number)(target), (model.number)(baseline)) == (target
            > baseline),
    ensures
        model.gauge(target, Some(baseline)).unit == TimeUnit::readable(
            longer(target, Some(baseline)) as nat,
        ),
        model.gauge(target, Some(baseline)).bar == Color::Red <==> baseline < target,
{
}

/// The axis of a gauge is long enough for the longer of its times, as it is before it is rounded.
pub proof fn gauge_axis_holds_longer_time<F>(model: Model<F>, target: u64, baseline: Option<u64>)
    requires
        model.is_number(
            model.size_in_own_unit(
                model.time_in(longer(target, baseline), model.gauge(target, baseline).unit),
            ),
        ),
    ensures
        model.holds(
            model.gauge(target, baseline).axis_end,
            model.size_in_own_unit(
                model.time_in(longer(target, baseline), model.gauge(target, baseline).unit),
            ),
        ),
{
    let unit = model.gauge(target, baseline).unit;
    axis_holds_time(model, model.time_in(longer(target, baseline), unit));
}

/// No time of a gauge is above the longer, in any unit and however it is rounded.
proof fn longer_is_shown_above<F>(model: Model<F>, n: u64, longest: u64, unit: TimeUnit)
    requires
        model.orders_numbers(),
        n <= longest,
    ensures
        model.holds(
            model.in_own_unit(model.time_in(longest, unit)),
            model.in_own_unit(model.time_in(n, unit)),
        ),
{
    let (a, b) = ((model.number)(longest), (model.number)(n));
    let billion = (model.number)(1_000_000_000);
    assert(model.holds(a, b));
    assert(model.holds(model.over(a, billion), model.over(b, billion)));
    assert(model.holds(model.in_unit(a, unit), model.in_unit(b, unit)));
}

/// The axis of a gauge is long enough for both times that it shows, rounded as they are shown.
pub proof fn gauge_axis_holds_shown_times<F>(model: Model<F>, target: u64, baseline: Option<u64>)
    requires
        model.orders_numbers(),
        model.divides_sizes(),
        model.rounds_to_wholes(),
        model.counts_without_sign(),
    ensures
        model.holds(
            model.gauge(target, baseline).axis_end,
            model.gauge(target, baseline).value,
        ),
        model.gauge(target, baseline).reference matches Some(reference) ==> model.holds(
            model.gauge(target, baseline).axis_end,
            reference,
        ),
{
    let unit = model.gauge(target, baseline).unit;
    let longest = longer(target, baseline);
    let time = model.time_in(longest, unit);
    assert(model.holds(time.nano, time.nano));
    size_in_unit(model, time.nano, unit);
    axis_holds_shown_time(model, time);
    longer_is_shown_above(model, target, longest, unit);
    if let Some(b) = baseline {
        longer_is_shown_above(model, b, longest, unit);
    }
}

/// The mean time of a run is what the times of the whole runs come to, divided by how many there
/// are and rounded down; it is 0 without a run. The times fit if what they come to does.
pub proof fn mean_total_is_of_whole_runs(spans: Map<Seq<char>, Seq<CallStats>>)
    ensures
        !spans.contains_key("::meta::total"@) ==> mean_total(spans) == 0 && total_fits(spans),
        spans.contains_key("::meta::total"@) ==> {
            let runs = spans["::meta::total"@];
            let sum = runs.fold_left(0nat, |sum: nat, run: CallStats| (sum + run.time) as nat);
            &&& total_fits(spans) <==> sum <= u64::MAX
            &&& runs.len() == 0 ==> mean_total(spans) == 0
            &&& runs.len() > 0 ==> mean_total(spans) * runs.len() <= sum < (mean_total(spans) + 1)
                * runs.len()
        },
{
    if spans.contains_key("::meta::total"@) {
        let runs = spans["::meta::total"@];
        crate::model::times_are_averaged(runs);
        assert((|sum: nat, run: CallStats| (sum + run.time) as nat) =~= (
        |sum: nat, measured: CallStats| (sum + measured.time) as nat));
    }
}

/// A gauge shows the mean time of the runs on the target as its value and that of the runs on the
/// baseline as its reference, each rounded, in the unit in which the longer is best read. Its axis
/// is made for the longer. Its bar is blue without a baseline; with one, red if the target takes
/// longer and green if not.
pub proof fn gauge_shows_each_commit<
    F: Copy,
    N: Fn(u64) -> F,
    O: Fn(Operation, F, F) -> F,
    R: Fn(Relation, F, F) -> bool,
    W: Fn(F) -> u64,
>(
    arithmetic: Arithmetic<N, O, R, W>,
    model: Model<F>,
    baseline: Option<Map<Seq<char>, Seq<CallStats>>>,
    target: Map<Seq<char>, Seq<CallStats>>,
    gauge: Gauge<F>,
)
    requires
        arithmetic.follows(model),
        arithmetic.is_gauge_of(baseline, target, gauge),
    ensures
        ({
            let own = mean_total(target) as u64;
            let shown = model.in_unit((model.number)(own), gauge.unit);
            gauge.value == (model.operate)(Operation::Round, shown, shown)
        }),
        baseline is None ==> {
            let own = (model.number)(mean_total(target) as u64);
            &&& gauge.reference is None
            &&& gauge.bar is Blue
            &&& gauge.unit == model.readable(own)
            &&& gauge.axis_end == model.axis_end(TimeWithUnit { nano: own, unit: gauge.unit })
        },
        baseline matches Some(spans) ==> {
            let (t, b) = (mean_total(target) as u64, mean_total(spans) as u64);
            let (own, other) = ((model.number)(t), (model.number)(b));
            let longest = if b > t { other } else { own };
            let shown = model.in_unit(other, gauge.unit);
            &&& gauge.reference == Some((model.operate)(Operation::Round, shown, shown))
            &&& gauge.bar is Red <==> (model.relate)(Relation::Above, own, other)
            &&& gauge.bar is Green <==> !(model.relate)(Relation::Above, own, other)
            &&& gauge.unit == model.readable(longest)
            &&& gauge.axis_end == model.axis_end(TimeWithUnit { nano: longest, unit: gauge.unit })
        },
{
}

/// One box of a chart shows the figure that counts of every measurement, in their order: the time
/// for a whole run, else the own time.
pub open spec fn shows_measurements<F>(
    model: Model<F>,
    span: Seq<char>,
    measured: Seq<CallStats>,
    unit: TimeUnit,
    one: Series<F>,
) -> bool {
    &&& one.values@.len() == measured.len()
    &&& forall|j: int|
        0 <= j < measured.len() ==> {
            let figure = if span == "::meta::total"@ {
                measured[j].time
            } else {
                measured[j].self_time
            };
            let shown = model.in_unit((model.number)(figure), unit);
            #[trigger] one.values@[j] == (model.operate)(Operation::Round, shown, shown)
        }
}

/// A chart has the name of its span, a box for every commit of the baseline, under its name and in
/// their order, and then one for the target, which is said to be this commit. All are in the unit
/// in which the largest figure that is shown is best read.
pub proof fn chart_shows_each_commit<
    F: Copy,
    N: Fn(u64) -> F,
    O: Fn(Operation, F, F) -> F,
    R: Fn(Relation, F, F) -> bool,
    W: Fn(F) -> u64,
>(
    arithmetic: Arithmetic<N, O, R, W>,
    model: Model<F>,
    span: Seq<char>,
    target: Seq<char>,
    target_stats: Seq<CallStats>,
    baseline: Seq<(String, Vec<CallStats>)>,
    plot: Boxplot<F>,
) -> (top: u64)
    requires
        arithmetic.follows(model),
        arithmetic.is_boxplot_of(span, target, target_stats, baseline, plot),
    ensures
        plot.title@ == span,
        plot.series@.len() == baseline.len() + 1,
        forall|i: int|
            #![trigger plot.series@[i]]
            0 <= i < baseline.len() ==> plot.series@[i].name@ == baseline[i].0@
                && shows_measurements(model, span, baseline[i].1@, plot.unit, plot.series@[i]),
        plot.series@[baseline.len() as int].name@ == "This commit: "@ + target,
        shows_measurements(
            model,
            span,
            target_stats,
            plot.unit,
            plot.series@[baseline.len() as int],
        ),
        plot.unit == model.readable((model.number)(top)),
        forall|j: int|
            0 <= j < target_stats.len() ==> (if span == "::meta::total"@ {
                (#[trigger] target_stats[j]).time
            } else {
                target_stats[j].self_time
            }) <= top,
        forall|i: int, j: int|
            0 <= i < baseline.len() && 0 <= j < baseline[i].1@.len() ==> (if span
                == "::meta::total"@ {
                (#[trigger] baseline[i].1@[j]).time
            } else {
                baseline[i].1@[j].self_time
            }) <= top,
        top == 0 || (exists|j: int|
            0 <= j < target_stats.len() && (if span == "::meta::total"@ {
                (#[trigger] target_stats[j]).time
            } else {
                target_stats[j].self_time
            }) == top) || (exists|i: int, j: int|
            0 <= i < baseline.len() && 0 <= j < baseline[i].1@.len() && (if span
                == "::meta::total"@ {
                (#[trigger] baseline[i].1@[j]).time
            } else {
                baseline[i].1@[j].self_time
            }) == top),
{
    let figure = Figure::that_counts(span);
    let own = figure.values(target_stats);
    let top = larger(peak(own), highest(baseline, figure));
    peak_is_largest(own);
    assert forall|j: int| 0 <= j < target_stats.len() implies (if span == "::meta::total"@ {
        (#[trigger] target_stats[j]).time
    } else {
        target_stats[j].self_time
    }) <= top by {
        assert(own[j] == figure.value(target_stats[j]));
    }
    assert forall|i: int, j: int|
        0 <= i < baseline.len() && 0 <= j < baseline[i].1@.len() implies (if span
        == "::meta::total"@ {
        (#[trigger] baseline[i].1@[j]).time
    } else {
        baseline[i].1@[j].self_time
    }) <= top by {
        chart_is_bounded(baseline, figure, i, j);
    }
    if top != 0 {
        if top == peak(own) {
            assert(own.len() > 0);
            let j = choose|j: int| 0 <= j < own.len() && own[j] == top;
            assert(figure.value(target_stats[j]) == top);
        } else {
            let peaks = baseline.map_values(
                |commit: (String, Vec<CallStats>)| peak(figure.values(commit.1@)),
            );
            peak_is_largest(peaks);
            assert(peaks.len() > 0);
            let i = choose|i: int| 0 <= i < peaks.len() && peaks[i] == top;
            let values = figure.values(baseline[i].1@);
            assert(peaks[i] == peak(values));
            peak_is_largest(values);
            assert(values.len() > 0);
            let j = choose|j: int| 0 <= j < values.len() && values[j] == top;
            assert(figure.value(baseline[i].1@[j]) == top);
        }
    }
    top
}

} // verus!
