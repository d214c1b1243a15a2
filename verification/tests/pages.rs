use benchboard::charts::{has_total, Color};
use benchboard::config::{default_db_path, default_http_addr, default_log_filter};
use benchboard::filters::{branch, commit, commit_link, tag, trim_outer_p};
use benchboard::model::CallStats;
use benchboard::span_map::SpanMap;
use benchboard::stats::{Arithmetic, Operation, Relation};
use benchboard::times::TimeWithUnit;
use benchboard::units::TimeUnit;

#[test]
fn defaults_of_the_command_line() {
    assert_eq!(default_log_filter(), "info");
    assert_eq!(default_db_path(), "benchboard.sqlite");
    assert_eq!(default_http_addr(), "127.0.0.1:9001");
}

#[test]
fn commit_shows_nine_characters() {
    assert_eq!(
        commit("0123456789abcdef").unwrap(),
        "<a href=\"https://github.com/meilisearch/meilisearch/commit/0123456789abcdef\">012345678...</a>"
    );
    assert_eq!(
        commit("012345678").unwrap(),
        "<a href=\"https://github.com/meilisearch/meilisearch/commit/012345678\">012345678</a>"
    );
    assert_eq!(
        commit("").unwrap(),
        "<a href=\"https://github.com/meilisearch/meilisearch/commit/\"></a>"
    );
}

#[test]
fn commit_is_cut_at_a_character() {
    // The ninth byte is inside the fifth character.
    assert!(commit("éééééé").unwrap().ends_with(">ééééé...</a>"));
    assert!(commit("日本日本").unwrap().ends_with(">日本日...</a>"));
    assert!(commit("日本日").unwrap().ends_with(">日本日</a>"));
}

#[test]
fn commit_link_shows_its_text() {
    assert_eq!(
        commit_link("abc", "the commit").unwrap(),
        "<a href=\"https://github.com/meilisearch/meilisearch/commit/abc\">the commit</a>"
    );
}

#[test]
fn branch_shows_its_last_part() {
    let link = |name: &str| {
        format!("<a href=\"https://github.com/meilisearch/meilisearch/tree/{}\">{}</a>", name, name)
    };
    assert_eq!(branch("main").unwrap(), link("main"));
    assert_eq!(branch("refs/heads/main").unwrap(), link("main"));
    assert_eq!(branch("refs/heads/").unwrap(), link(""));
    assert_eq!(branch("").unwrap(), link(""));
    assert_eq!(branch("a/é").unwrap(), link("é"));
}

#[test]
fn tag_shows_all_of_itself() {
    assert_eq!(
        tag("v1.8/rc").unwrap(),
        "<a href=\"https://github.com/meilisearch/meilisearch/tree/v1.8/rc\">v1.8/rc</a>"
    );
}

#[test]
fn paragraph_marks_are_trimmed() {
    let cases = [
        "<p>Fix search</p>",
        "<p><p>twice</p></p>\n",
        "plain",
        "",
        "<p>",
        "</p>",
        "<p></p>",
        "a<p>b</p>c",
        "</p><p>",
        "<p>x</p></p></p>",
        "<<p>",
        "<p><p",
    ];
    for text in cases {
        let expected = text.trim_start_matches("<p>").trim_end_matches("</p>");
        let trimmed = trim_outer_p(text).unwrap();
        assert_eq!(trimmed, expected);
        assert_eq!(trim_outer_p(&trimmed).unwrap(), trimmed);
    }
    assert_eq!(trim_outer_p("<p>Fix search</p>").unwrap(), "Fix search");
}

#[test]
fn units_have_signs() {
    let units = [
        TimeUnit::Nanoseconds,
        TimeUnit::Microseconds,
        TimeUnit::Milliseconds,
        TimeUnit::Seconds,
        TimeUnit::Minutes,
        TimeUnit::Hours,
        TimeUnit::Days,
    ];
    let signs: Vec<&str> = units.iter().map(|unit| unit.as_str()).collect();
    assert_eq!(signs, ["ns", "μs", "ms", "s", "min", "h", "d"]);
}

fn unit_by_division(nano: f64) -> TimeUnit {
    if nano < 10000. {
        TimeUnit::Nanoseconds
    } else if nano / 1000. < 10000. {
        TimeUnit::Microseconds
    } else if nano / 1_000_000. < 10000. {
        TimeUnit::Milliseconds
    } else if nano / 1_000_000_000. < 120. {
        TimeUnit::Seconds
    } else if nano / 1_000_000_000. / 60.0 < 600.0 {
        TimeUnit::Minutes
    } else if nano / 1_000_000_000. / 3600.0 < 48.0 {
        TimeUnit::Hours
    } else {
        TimeUnit::Days
    }
}

#[test]
fn units_are_readable() {
    let limits: [u64; 6] = [
        10_000,
        10_000_000,
        10_000_000_000,
        120_000_000_000,
        36_000_000_000_000,
        172_800_000_000_000,
    ];
    let unit_of = |nano: u64| TimeWithUnit::new(nano as f64, &doubles()).unit;
    for limit in limits {
        for nano in [limit - 1, limit, limit + 1] {
            assert_eq!(unit_of(nano), unit_by_division(nano as f64));
        }
    }
    for nano in [0, 1, u64::MAX, 1 << 53, (1 << 53) + 1] {
        assert_eq!(unit_of(nano), unit_by_division(nano as f64));
    }
    assert_eq!(unit_of(9_999), TimeUnit::Nanoseconds);
    assert_eq!(unit_of(119_999_999_999), TimeUnit::Seconds);
    assert_eq!(unit_of(120_000_000_000), TimeUnit::Minutes);
}

#[test]
fn times_are_below_the_limit_of_no_finer_unit() {
    let units = [
        (TimeUnit::Nanoseconds, 10_000.),
        (TimeUnit::Microseconds, 10_000.),
        (TimeUnit::Milliseconds, 10_000.),
        (TimeUnit::Seconds, 120.),
        (TimeUnit::Minutes, 600.),
        (TimeUnit::Hours, 48.),
        (TimeUnit::Days, f64::INFINITY),
    ];
    let place = |unit: TimeUnit| units.iter().position(|(one, _)| *one == unit).unwrap();
    let mut last = 0;
    for nano in [0., 9_999.9, 1e4, 2.5e6, 1e7, 3e9, 1e10, 119e9, 120e9, 3.6e13, 1e14, 1.8e14, 1e300] {
        let time = TimeWithUnit::new(nano, &doubles());
        let chosen = place(time.unit);
        for (i, (unit, limit)) in units.iter().enumerate().take(chosen + 1) {
            let below = time.as_unit(*unit, &doubles()).abs() < *limit;
            assert_eq!(below, i == chosen, "{} {:?}", nano, unit);
        }
        assert_eq!(TimeWithUnit::new(-nano, &doubles()).unit, time.unit);
        assert!(last <= chosen, "{}", nano);
        last = chosen;
    }
}

#[test]
fn axes_end_at_nice_values() {
    let end = |nano: u64| {
        TimeWithUnit::with_unit(nano as f64, TimeUnit::Nanoseconds).nice_axis_end_value(&doubles())
    };
    assert_eq!(end(0), 0.1);
    assert_eq!(end(1), 1.);
    assert_eq!(end(2), 5.);
    assert_eq!(end(5), 5.);
    assert_eq!(end(6), 10.);
    assert_eq!(end(11), 50.);
    assert_eq!(end(51), 100.);
    assert_eq!(end(101), 500.);
    assert_eq!(end(501), 1000.);
    assert_eq!(end(1001), 5000.);
    assert_eq!(end(5000), 5000.);
    assert_eq!(end(5001), 5001.);
}

#[test]
fn axes_are_long_enough() {
    let mut last = 0.;
    for nano in [0., 0.05, 0.1, 0.11, 1.4, 5.4, 5.6, 10.3, 99.9, 100.1, 4_999.5, 5_000.6, 9_999.9] {
        let time = TimeWithUnit::with_unit(nano, TimeUnit::Nanoseconds);
        let end = time.nice_axis_end_value(&doubles());
        assert!(end >= nano, "{}", nano);
        assert!(end >= time.as_own_unit(&doubles()), "{}", nano);
        assert!(end >= 0.1, "{}", nano);
        assert!(end >= last, "{}", nano);
        last = end;
    }
    let time = TimeWithUnit::with_unit(10_400., TimeUnit::Microseconds);
    assert_eq!(time.nice_axis_end_value(&doubles()), 50.);
}

#[test]
fn gauge_axis_is_long_enough() {
    let gauge = doubles().summary_gauge(Some(&total(&[3])), &total(&[10_400]));
    assert_eq!((gauge.value, gauge.unit, gauge.axis_end), (10., TimeUnit::Microseconds, 50.));
    let gauge = doubles().summary_gauge(None, &total(&[6_001_600]));
    assert_eq!((gauge.value, gauge.unit, gauge.axis_end), (6002., TimeUnit::Microseconds, 6002.));
    let gauge = doubles().summary_gauge(Some(&total(&[6_001_600_000])), &total(&[7]));
    assert_eq!((gauge.value, gauge.reference), (0., Some(6002.)));
    assert_eq!((gauge.unit, gauge.axis_end), (TimeUnit::Milliseconds, 6002.));
}

fn total(times: &[u64]) -> SpanMap<Vec<CallStats>> {
    let mut spans = SpanMap::new();
    for &time in times {
        let stats = CallStats { time, call_count: 1, self_time: 1 };
        spans.push("::meta::total".to_string(), stats);
    }
    spans
}

type Doubles = Arithmetic<
    fn(u64) -> f64,
    fn(Operation, f64, f64) -> f64,
    fn(Relation, f64, f64) -> bool,
    fn(f64) -> u64,
>;

fn doubles() -> Doubles {
    Arithmetic {
        number: |n| n as f64,
        operate: |operation, a, b| match operation {
            Operation::Plus => a + b,
            Operation::Minus => a - b,
            Operation::Times => a * b,
            Operation::Over => a / b,
            Operation::Size => a.abs(),
            Operation::Root => a.sqrt(),
            Operation::Round => a.round(),
        },
        relate: |relation, a, b| match relation {
            Relation::Above => a > b,
            Relation::AtLeast => a >= b,
        },
        whole: |a| a as u64,
    }
}

#[test]
fn gauge_without_baseline_is_blue() {
    let gauge = doubles().summary_gauge(None, &total(&[20_000, 40_000]));
    assert_eq!(gauge.value, 30.);
    assert_eq!(gauge.reference, None);
    assert_eq!(gauge.axis_end, 50.);
    assert_eq!(gauge.unit, TimeUnit::Microseconds);
    assert_eq!(gauge.bar, Color::Blue);
}

#[test]
fn gauge_compares_means() {
    let slower = doubles().summary_gauge(Some(&total(&[9_000])), &total(&[20_000]));
    assert_eq!((slower.value, slower.reference, slower.axis_end), (20., Some(9.), 50.));
    assert_eq!((slower.unit, slower.bar), (TimeUnit::Microseconds, Color::Red));
    let faster = doubles().summary_gauge(Some(&total(&[20_000])), &total(&[9_400]));
    assert_eq!((faster.value, faster.reference, faster.axis_end), (9., Some(20.), 50.));
    assert_eq!((faster.unit, faster.bar), (TimeUnit::Microseconds, Color::Green));
    let same = doubles().summary_gauge(Some(&total(&[9_000])), &total(&[9_000]));
    assert_eq!((same.unit, same.bar), (TimeUnit::Nanoseconds, Color::Green));
    assert_eq!(same.axis_end, 9_000.);
}

#[test]
fn gauge_without_measurements_is_zero() {
    let nothing = SpanMap::new();
    let gauge = doubles().summary_gauge(Some(&nothing), &nothing);
    assert_eq!((gauge.value, gauge.reference, gauge.axis_end), (0., Some(0.), 0.1));
    assert_eq!((gauge.unit, gauge.bar), (TimeUnit::Nanoseconds, Color::Green));
}

#[test]
fn gauge_tells_times_apart_like_its_numbers() {
    let big = 1u64 << 53;
    for (target, baseline) in [(big, big + 1), (big + 1, big), (big + 2, big), (5, 6), (6, 5)] {
        let gauge = doubles().summary_gauge(Some(&total(&[baseline])), &total(&[target]));
        let slower = (baseline as f64) < (target as f64);
        assert_eq!(gauge.bar == Color::Red, slower, "{} {}", target, baseline);
    }
}

#[test]
fn totals_that_overflow_are_told() {
    assert!(has_total(&total(&[u64::MAX])));
    assert!(has_total(&SpanMap::new()));
    assert!(!has_total(&total(&[u64::MAX, 1])));
}

fn stats(time: u64, self_time: u64) -> CallStats {
    CallStats { time, call_count: 1, self_time }
}

#[test]
fn boxplot_draws_baselines_first() {
    let baselines = vec![
        ("old".to_string(), vec![stats(1, 20_000), stats(1, 7)]),
        ("older".to_string(), vec![]),
    ];
    let plot = doubles().comparison_boxplot("search", "new", &[stats(99, 1_700)], &baselines);
    assert_eq!(plot.title, "search");
    let names: Vec<&str> = plot.series.iter().map(|one| one.name.as_str()).collect();
    assert_eq!(names, ["old", "older", "This commit: new"]);
    let values: Vec<Vec<f64>> = plot.series.iter().map(|one| one.values.clone()).collect();
    assert_eq!(values, [vec![20., 0.], vec![], vec![2.]]);
    assert_eq!(plot.unit, TimeUnit::Microseconds);
}

#[test]
fn boxplot_unit_goes_by_the_target_too() {
    let baselines = vec![("old".to_string(), vec![stats(1, 7)])];
    let plot = doubles().comparison_boxplot("search", "new", &[stats(9, 20_000)], &baselines);
    assert_eq!(plot.unit, TimeUnit::Microseconds);
}

#[test]
fn boxplot_of_the_whole_run_draws_times() {
    let baselines = vec![("old".to_string(), vec![stats(1, 20_000)])];
    let plot = doubles().comparison_boxplot("::meta::total", "new", &[stats(99, 3)], &baselines);
    assert_eq!(plot.series[0].values, [1.]);
    assert_eq!(plot.series[1].values, [99.]);
    assert_eq!(plot.unit, TimeUnit::Nanoseconds);
}

#[test]
fn boxplot_without_values() {
    let plot = doubles().comparison_boxplot("search", "new", &[], &Vec::new());
    assert_eq!(plot.series.len(), 1);
    assert_eq!(plot.unit, TimeUnit::Nanoseconds);
}
