use benchboard::home::{WorkloadData, WorkloadDescription};
use benchboard::model::CallStats;
use benchboard::report::{
    comparison_summary, sort_by_size, span_comparison, SpanChange, SpanStats, ViewSpansTemplate,
    WorkloadSummary,
};
use benchboard::span_map::SpanMap;
use benchboard::stats::{
    classify, Arithmetic, Assessment, Change, Figure, Kind, Operation, Relation, Stats,
};
use benchboard::filters::to_ns;
use benchboard::times::TimeWithUnit;
use benchboard::units::TimeUnit;
use benchboard::view_spans::{SpansData, ViewSpansQuery};

type Doubles = Arithmetic<
    fn(u64) -> f64,
    fn(Operation, f64, f64) -> f64,
    fn(Relation, f64, f64) -> bool,
    fn(f64) -> u64,
>;

fn doubles() -> Doubles {
    Arithmetic {
        number: |n| n as f64,
        operate: |operation, a, b| match operation {
            Operation::Plus => a + b,
            Operation::Minus => a - b,
            Operation::Times => a * b,
            Operation::Over => a / b,
            Operation::Size => a.abs(),
            Operation::Root => a.sqrt(),
            Operation::Round => a.round(),
        },
        relate: |relation, a, b| match relation {
            Relation::Above => a > b,
            Relation::AtLeast => a >= b,
        },
        whole: |a| a as u64,
    }
}

fn mean_stddev(values: &[f64]) -> (f64, f64) {
    let len = values.len() as f64;
    let mean = values.iter().sum::<f64>() / len;
    let variance = if len <= 1. {
        0.
    } else {
        values.iter().map(|x| (x - mean).abs().powi(2)).sum::<f64>() / (len - 1.)
    };
    (mean, variance.sqrt())
}

fn stats(self_time: u64, time: u64) -> CallStats {
    CallStats { self_time, time, call_count: 2 }
}

fn spans(entries: &[(&str, &[u64])]) -> SpanMap<Vec<CallStats>> {
    let mut map = SpanMap::new();
    for (span, self_times) in entries {
        for &self_time in self_times.iter() {
            map.push(span.to_string(), stats(self_time, 1000 - self_time));
        }
    }
    map
}

fn kinds(changes: &SpanMap<Change<f64>>) -> Vec<(String, Kind)> {
    changes.entries().iter().map(|e| (e.0.clone(), e.1.to_kind())).collect()
}

#[test]
fn statistics_of_nothing_are_zero() {
    let none = doubles().compute_stats(&[]);
    assert_eq!((none.mean_time, none.stddev_time), (0., 0.));
    assert_eq!((none.mean_self_time, none.stddev_self_time), (0., 0.));
    assert_eq!((none.mean_call_count, none.stddev_call_count), (0., 0.));
}

#[test]
fn statistics_of_each_figure() {
    let data = [
        CallStats { time: 10, self_time: 1, call_count: 5 },
        CallStats { time: 14, self_time: 3, call_count: 5 },
    ];
    let found = doubles().compute_stats(&data);
    assert_eq!((found.mean_time, found.mean_self_time, found.mean_call_count), (12., 2., 5.));
    assert_eq!(found.stddev_time, 8f64.sqrt());
    assert_eq!(found.stddev_self_time, 2f64.sqrt());
    assert_eq!(found.stddev_call_count, 0.);
}

#[test]
fn mean_and_deviation_of_a_sample() {
    for values in [vec![7], vec![1, 2], vec![10, 0, 0, 7, 3], vec![u64::MAX, 1, 1 << 60]] {
        let floats: Vec<f64> = values.iter().map(|&x| x as f64).collect();
        assert_eq!(doubles().mean_stddev(&values), mean_stddev(&floats));
    }
    assert_eq!(doubles().mean_stddev(&vec![2, 4, 4, 4, 5, 5, 7, 9]).0, 5.);
    assert_eq!(doubles().mean_stddev(&vec![1, 3]), (2., 2f64.sqrt()));
}

#[test]
fn differences_are_assessed() {
    let found = doubles().assess(12., 10., 15.);
    assert_eq!((found.difference, found.abs_difference), (2., 2));
    assert_eq!(found.proportion, 20.);
    assert!(!found.unstable && found.significant && !found.decreasing);
    let found = doubles().assess(7.5, 10., 15.1);
    assert_eq!((found.difference, found.abs_difference), (-2.5, 2));
    assert!(found.unstable && found.significant && found.decreasing);
    let found = doubles().assess(11., 10., 10.1);
    assert!(!found.unstable && !found.significant);
    let found = doubles().assess(11., 10., 10.);
    assert!(found.significant);
}

#[test]
fn baselines_of_zero_are_assessed() {
    let same = doubles().assess(0., 0., 0.);
    assert!(same.proportion.is_nan());
    assert!(!same.unstable && !same.significant && !same.decreasing);
    let grown = doubles().assess(5., 0., 0.);
    assert_eq!(grown.abs_difference, 5);
    assert!(!grown.unstable && !grown.significant);
}

#[test]
fn figures_are_picked() {
    let data = [CallStats { time: 10, self_time: 1, call_count: 5 }];
    assert_eq!(Figure::Time.all_of(&data), [10]);
    assert_eq!(Figure::SelfTime.all_of(&data), [1]);
    assert_eq!(Figure::CallCount.all_of(&data), [5]);
    assert_eq!(Figure::for_span("::meta::total"), Figure::Time);
    assert_eq!(Figure::for_span("::meta::tota"), Figure::SelfTime);
}

#[test]
fn every_span_of_either_commit_is_compared() {
    let target = spans(&[("a", &[10]), ("c", &[20]), ("d", &[30])]);
    let baseline = spans(&[("b", &[10]), ("c", &[10]), ("d", &[60]), ("é", &[1])]);
    let changes = doubles().compare_commits(&target, &baseline);
    assert_eq!(
        kinds(&changes),
        [
            ("a".to_string(), Kind::New),
            ("b".to_string(), Kind::Lost),
            ("c".to_string(), Kind::Regression),
            ("d".to_string(), Kind::Improvement),
            ("é".to_string(), Kind::Lost),
        ]
    );
    match changes.get("c").unwrap() {
        Change::Regression { target_stats, baseline_stats, difference, proportion, .. } => {
            assert_eq!((target_stats.mean_self_time, baseline_stats.mean_self_time), (20., 10.));
            assert_eq!((*difference, *proportion), (10., 100.));
        }
        _ => panic!("no regression"),
    }
    assert_eq!(changes.get("d").unwrap().abs_difference(), 30);
    assert_eq!(changes.get("a").unwrap().abs_difference(), 0);
}

#[test]
fn commits_without_spans() {
    let none = SpanMap::new();
    assert_eq!(doubles().compare_commits(&none, &none).len(), 0);
    let some = spans(&[("a", &[10])]);
    assert_eq!(kinds(&doubles().compare_commits(&some, &none))[0].1, Kind::New);
    assert_eq!(kinds(&doubles().compare_commits(&none, &some))[0].1, Kind::Lost);
}

#[test]
fn noise_makes_spans_stable_or_unstable() {
    let target = spans(&[("noisy", &[11]), ("wild", &[11])]);
    let baseline = spans(&[("noisy", &[1, 20]), ("wild", &[0, 0, 0, 0, 0, 60])]);
    let changes = doubles().compare_commits(&target, &baseline);
    assert_eq!(
        kinds(&changes),
        [("noisy".to_string(), Kind::Stable), ("wild".to_string(), Kind::Unstable)]
    );
}

#[test]
fn whole_runs_are_compared_by_time() {
    let target = spans(&[("::meta::total", &[10]), ("search", &[10])]);
    let baseline = spans(&[("::meta::total", &[20]), ("search", &[20])]);
    let changes = doubles().compare_commits(&target, &baseline);
    // The time grows as the own time shrinks.
    assert_eq!(changes.get("::meta::total").unwrap().to_kind(), Kind::Regression);
    assert_eq!(changes.get("search").unwrap().to_kind(), Kind::Improvement);
}

fn plain() -> Stats<u8> {
    Stats {
        mean_self_time: 0,
        stddev_self_time: 0,
        mean_time: 0,
        stddev_time: 0,
        mean_call_count: 0,
        stddev_call_count: 0,
    }
}

fn change(unstable: bool, significant: bool, decreasing: bool, size: u64) -> Change<u8> {
    let assessment = Assessment {
        difference: 1,
        abs_difference: size,
        proportion: 2,
        unstable,
        significant,
        decreasing,
    };
    classify(plain(), plain(), assessment)
}

#[test]
fn verdicts() {
    assert_eq!(change(true, true, true, 0).to_kind(), Kind::Unstable);
    assert_eq!(change(true, false, false, 0).to_kind(), Kind::Unstable);
    assert_eq!(change(false, true, true, 0).to_kind(), Kind::Improvement);
    assert_eq!(change(false, true, false, 0).to_kind(), Kind::Regression);
    assert_eq!(change(false, false, true, 0).to_kind(), Kind::Stable);
    assert_eq!(change(false, false, false, 0).to_kind(), Kind::Stable);
    assert_eq!(change(true, true, true, 7).abs_difference(), 7);
    assert_eq!(Change::New { stats: plain() }.abs_difference(), 0);
    assert_eq!(Change::Lost { stats: plain() }.to_kind(), Kind::Lost);
}

fn report() -> SpanMap<Change<u8>> {
    let mut changes = SpanMap::new();
    changes.insert("::meta::total".to_string(), change(false, true, true, 1));
    changes.insert("a".to_string(), change(false, true, true, 30));
    changes.insert("b".to_string(), change(false, true, true, 10));
    changes.insert("c".to_string(), change(false, true, true, 30));
    changes.insert("d".to_string(), change(false, true, false, 9));
    changes.insert("e".to_string(), change(false, true, false, 8));
    changes.insert("f".to_string(), change(false, false, false, 1));
    changes.insert("g".to_string(), change(true, false, false, 1));
    changes.insert("h".to_string(), Change::New { stats: plain() });
    changes.insert("i".to_string(), Change::Lost { stats: plain() });
    changes
}

#[test]
fn summary_counts_compared_spans() {
    let summary = comparison_summary(&report());
    assert_eq!(
        summary,
        WorkloadSummary { improvements: 4, regressions: 2, unchanged: 1, unstable: 1 }
    );
    let nothing: SpanMap<Change<u8>> = SpanMap::new();
    assert_eq!(
        comparison_summary(&nothing),
        WorkloadSummary { improvements: 0, regressions: 0, unchanged: 0, unstable: 0 }
    );
}

fn order(list: &[SpanChange<u8>]) -> Vec<&str> {
    list.iter().map(|item| item.span.as_str()).collect()
}

#[test]
fn spans_are_reported_by_what_became_of_them() {
    let comparison = span_comparison("old".to_string(), report());
    assert_eq!(comparison.baseline_commit_sha1, "old");
    assert_eq!(comparison.total_time.unwrap().span, "::meta::total");
    assert_eq!(order(&comparison.improvements), ["b", "a", "c"]);
    assert_eq!(order(&comparison.regressions), ["e", "d"]);
    assert_eq!(order(&comparison.stables), ["f"]);
    assert_eq!(order(&comparison.unstables), ["g"]);
    assert_eq!(order(&comparison.news), ["h"]);
    assert_eq!(order(&comparison.olds), ["i"]);
    let none: SpanMap<Change<u8>> = SpanMap::new();
    assert!(span_comparison("old".to_string(), none).total_time.is_none());
}

#[test]
fn sorting_is_stable() {
    let sizes = [5u64, 3, 5, 1, 3, 0, 5];
    let make = || {
        let mut list = Vec::new();
        for (n, &size) in sizes.iter().enumerate() {
            list.push(SpanChange { span: n.to_string(), change: change(false, true, true, size) });
        }
        list
    };
    let mut expected = make();
    expected.sort_by_key(|item| item.change.abs_difference());
    let sorted = sort_by_size(make());
    assert_eq!(order(&sorted), order(&expected));
    assert_eq!(order(&sorted), ["5", "3", "1", "4", "0", "2", "6"]);
}

fn loaded(baseline: Option<(String, SpanMap<Vec<CallStats>>)>) -> SpansData {
    SpansData {
        query: ViewSpansQuery {
            workload_name: "search".to_string(),
            commit_sha1: None,
            target_branch: Some("dev".to_string()),
            target_tag: Some("v2".to_string()),
            baseline_commit: None,
            baseline_tag: None,
            baseline_branch: Some("main".to_string()),
        },
        target_commit_sha1: "new".to_string(),
        target: spans(&[("a", &[10, 20])]),
        baseline,
    }
}

#[test]
fn page_without_comparison() {
    let page = doubles().view_spans_page(loaded(None));
    assert_eq!(page.target_tag.as_deref(), Some("v2"));
    assert_eq!(page.baseline_tag, None);
    assert_eq!(
        page.view_span_url("a"),
        "view_span?span=a&workload_name=search&target=new&baseline_branch=main&target_branch=dev"
    );
    assert_eq!(page.span_stats.baseline_commit(), None);
    match page.span_stats {
        SpanStats::NoComparison(stats) => {
            assert_eq!(stats.len(), 1);
            assert_eq!(stats.get("a").unwrap().mean_self_time, 15.);
        }
        _ => panic!("compared"),
    }
}

#[test]
fn page_with_comparison() {
    let baseline = Some(("old".to_string(), spans(&[("a", &[30])])));
    let page = doubles().view_spans_page(loaded(baseline));
    assert_eq!(page.span_stats.baseline_commit(), Some("old"));
    assert_eq!(
        page.view_span_url("::a b"),
        "view_span?span=::a b&workload_name=search&target=new&baseline=old&baseline_branch=main&target_branch=dev"
    );
    match page.span_stats {
        SpanStats::Comparison(comparison) => assert_eq!(comparison.improvements.len(), 1),
        _ => panic!("not compared"),
    }
}

#[test]
fn address_without_branches() {
    let page: ViewSpansTemplate<u8> = ViewSpansTemplate {
        workload_name: "search".to_string(),
        target_commit_sha1: "new".to_string(),
        target_branch: None,
        baseline_branch: None,
        target_tag: None,
        baseline_tag: None,
        span_stats: SpanStats::NoComparison(SpanMap::new()),
    };
    assert_eq!(page.view_span_url(""), "view_span?span=&workload_name=search&target=new");
}

#[test]
fn workloads_are_summed_up() {
    let workload = |baseline| WorkloadData {
        description: WorkloadDescription {
            workload_name: "search".to_string(),
            commit_sha1: "new".to_string(),
            commit_message: "Fix it".to_string(),
            branch: None,
            reason: None,
        },
        target: spans(&[("a", &[10]), ("b", &[10])]),
        baseline,
    };
    let none = WorkloadSummary { improvements: 0, regressions: 0, unchanged: 0, unstable: 0 };
    assert_eq!(doubles().workload_summary(&workload(None)), none);
    let baseline = Some(("old".to_string(), spans(&[("a", &[30]), ("c", &[1])])));
    assert_eq!(
        doubles().workload_summary(&workload(baseline)),
        WorkloadSummary { improvements: 1, ..none }
    );
}

fn unit_by_division(nano: f64) -> TimeUnit {
    if nano.abs() < 10000. {
        TimeUnit::Nanoseconds
    } else if nano.abs() / 1000. < 10000. {
        TimeUnit::Microseconds
    } else if nano.abs() / 1_000_000. < 10000. {
        TimeUnit::Milliseconds
    } else if nano.abs() / 1_000_000_000. < 120. {
        TimeUnit::Seconds
    } else if nano.abs() / 1_000_000_000. / 60.0 < 600.0 {
        TimeUnit::Minutes
    } else if nano.abs() / 1_000_000_000. / 3600.0 < 48.0 {
        TimeUnit::Hours
    } else {
        TimeUnit::Days
    }
}

#[test]
fn times_are_shown_in_readable_units() {
    let limits = [1e4, 1e7, 1e10, 120e9, 36e12, 172.8e12];
    let mut times = vec![0., -0., 0.5, 9999.5, f64::NAN, f64::INFINITY, f64::MAX, -5e9];
    for limit in limits {
        let bits = f64::to_bits(limit);
        for near in [limit, f64::from_bits(bits - 1), f64::from_bits(bits + 1), limit * 0.999] {
            times.push(near);
            times.push(-near);
        }
    }
    for nano in times {
        let time = TimeWithUnit::new(nano, &doubles());
        assert_eq!(time.unit, unit_by_division(nano), "{}", nano);
        let again = to_ns(&nano, &doubles()).unwrap();
        assert_eq!(again.unit, time.unit);
        assert_eq!(again.nano.to_bits(), nano.to_bits());
    }
}

#[test]
fn times_are_converted() {
    let time = TimeWithUnit::with_unit(5_400e9, TimeUnit::Minutes);
    let in_unit = |unit| time.as_unit(unit, &doubles());
    assert_eq!(in_unit(TimeUnit::Nanoseconds), 5_400e9);
    assert_eq!(in_unit(TimeUnit::Microseconds), 5_400e6);
    assert_eq!(in_unit(TimeUnit::Milliseconds), 5_400e3);
    assert_eq!(in_unit(TimeUnit::Seconds), 5_400.);
    assert_eq!(in_unit(TimeUnit::Minutes), 90.);
    assert_eq!(in_unit(TimeUnit::Hours), 1.5);
    assert_eq!(in_unit(TimeUnit::Days), 0.0625);
    assert_eq!(time.as_own_unit(&doubles()), 90.);
    let time = TimeWithUnit::with_unit(5_400e9, TimeUnit::Hours);
    assert_eq!(time.as_own_unit(&doubles()), 2.);
}

#[test]
fn values_are_copied() {
    let time = TimeWithUnit::new(2_500_000., &doubles());
    let (copy, clone) = (time, time.clone());
    assert_eq!((time.nano, time.unit), (copy.nano, clone.unit));
    let stats = doubles().compute_stats(&[stats(3, 7)]);
    let change = Change::New { stats };
    let again = change;
    assert_eq!(change.to_kind(), again.clone().to_kind());
    assert_eq!(stats.mean_time, 7.);
    assert_eq!(WorkloadSummary::default().regressions, 0);
}

#[test]
fn axes_end_at_nice_times() {
    let end = |nano: f64| {
        TimeWithUnit::with_unit(nano, TimeUnit::Nanoseconds).nice_axis_end_value(&doubles())
    };
    let cases = [
        (0., 0.1),
        (0.4, 1.),
        (0.5, 1.),
        (-3., 5.),
        (5.4, 10.),
        (5.5, 10.),
        (11., 50.),
        (99., 100.),
        (101., 500.),
        (1000., 1000.),
        (1001., 5000.),
        (5000.4, 5000.4),
        (5000.6, 5001.),
        (5001., 5001.),
        (6001.4, 6001.4),
        (6001.5, 6002.),
        (6001.6, 6002.),
        (-6001.6, 6002.),
        (1e30, 1e30),
    ];
    for (nano, expected) in cases {
        assert_eq!(end(nano), expected, "{}", nano);
    }
    assert!(end(f64::NAN).is_nan());
}
