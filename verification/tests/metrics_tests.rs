use ddog::metrics::{flatten_series, millis_to_seconds, MetricPoint, RawPoint, RawSeries};

fn point(ms: i64, value: f64) -> RawPoint {
    RawPoint { timestamp_ms: Some(ms), value_bits: Some(value.to_bits()) }
}

fn series(name: &str, index: i64, points: Vec<RawPoint>) -> RawSeries {
    RawSeries {
        metric: Some(name.to_string()),
        display_name: Some(format!("display {}", name)),
        query_index: Some(index),
        aggr: Some("avg".to_string()),
        scope: Some(format!("host:{}", index)),
        tag_set: Some(vec![format!("env:{}", name), "region:eu".to_string()]),
        pointlist: Some(points),
    }
}

fn value_of(p: &MetricPoint) -> f64 {
    f64::from_bits(p.value_bits)
}

#[test]
fn two_series_of_three_points_give_six_records() {
    let response = vec![
        series("cpu", 0, vec![point(1_000, 1.5), point(2_000, 2.5), point(3_000, 3.5)]),
        series("mem", 1, vec![point(4_000, 10.0), point(5_999, 20.0), point(6_001, 30.0)]),
    ];
    let out = flatten_series(&response);
    assert_eq!(out.len(), 6);
    for (i, p) in out.iter().enumerate() {
        let (name, index) = if i < 3 { ("cpu", 0) } else { ("mem", 1) };
        assert_eq!(p.metric, name);
        assert_eq!(p.display_name, Some(format!("display {}", name)));
        assert_eq!(p.query_index, Some(index));
        assert_eq!(p.aggr, Some("avg".to_string()));
        assert_eq!(p.scope, format!("host:{}", index));
        assert_eq!(p.tag_set, vec![format!("env:{}", name), "region:eu".to_string()]);
    }
    let times: Vec<i64> = out.iter().map(|p| p.timestamp).collect();
    assert_eq!(times, vec![1, 2, 3, 4, 5, 6]);
    let values: Vec<f64> = out.iter().map(value_of).collect();
    assert_eq!(values, vec![1.5, 2.5, 3.5, 10.0, 20.0, 30.0]);
}

#[test]
fn incomplete_points_are_left_out() {
    let response = vec![series(
        "cpu",
        0,
        vec![
            point(1_000, 1.0),
            RawPoint { timestamp_ms: None, value_bits: Some(2.0f64.to_bits()) },
            RawPoint { timestamp_ms: Some(3_000), value_bits: None },
            RawPoint { timestamp_ms: None, value_bits: None },
            point(5_000, 5.0),
        ],
    )];
    let out = flatten_series(&response);
    assert_eq!(out.len(), 2);
    assert_eq!(out[0].timestamp, 1);
    assert_eq!(value_of(&out[0]), 1.0);
    assert_eq!(out[1].timestamp, 5);
    assert_eq!(value_of(&out[1]), 5.0);
}

#[test]
fn missing_description_becomes_empty() {
    let response = vec![RawSeries {
        metric: None,
        display_name: None,
        query_index: None,
        aggr: None,
        scope: None,
        tag_set: None,
        pointlist: Some(vec![point(1_705_315_200_123, 0.25)]),
    }];
    let out = flatten_series(&response);
    assert_eq!(out.len(), 1);
    assert_eq!(out[0].metric, "");
    assert_eq!(out[0].display_name, None);
    assert_eq!(out[0].query_index, None);
    assert_eq!(out[0].aggr, None);
    assert_eq!(out[0].scope, "");
    assert!(out[0].tag_set.is_empty());
    assert_eq!(out[0].timestamp, 1_705_315_200);
    assert_eq!(value_of(&out[0]), 0.25);
}

#[test]
fn series_without_points_give_nothing() {
    let mut empty = series("cpu", 0, Vec::new());
    assert!(flatten_series(&vec![]).is_empty());
    assert!(flatten_series(&vec![series("cpu", 0, Vec::new())]).is_empty());
    empty.pointlist = None;
    let response = vec![empty, series("mem", 1, vec![point(9_000, 1.0)])];
    let out = flatten_series(&response);
    assert_eq!(out.len(), 1);
    assert_eq!(out[0].metric, "mem");
}

#[test]
fn milliseconds_become_whole_seconds_towards_zero() {
    assert_eq!(millis_to_seconds(0), 0);
    assert_eq!(millis_to_seconds(999), 0);
    assert_eq!(millis_to_seconds(1_000), 1);
    assert_eq!(millis_to_seconds(1_999), 1);
    assert_eq!(millis_to_seconds(1_705_315_200_999), 1_705_315_200);
    assert_eq!(millis_to_seconds(-1), 0);
    assert_eq!(millis_to_seconds(-999), 0);
    assert_eq!(millis_to_seconds(-1_000), -1);
    assert_eq!(millis_to_seconds(-1_500), -1);
    assert_eq!(millis_to_seconds(i64::MAX), i64::MAX / 1000);
    assert_eq!(millis_to_seconds(i64::MIN), i64::MIN / 1000);
}
