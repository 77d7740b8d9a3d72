//! Metric query results: a response of named series, each with a list of
//! samples, is laid out as one record per sample.

use vstd::prelude::*;
use crate::text::texts;

verus! {

/// One sample of a series as the remote service sends it. Either part may
/// be missing. The value is held as the bit pattern of a 64-bit IEEE 754
/// number.
#[derive(Debug)]
pub struct RawPoint {
    /// Milliseconds since the epoch.
    pub timestamp_ms: Option<i64>,
    /// The sample's value, as its bit pattern.
    pub value_bits: Option<u64>,
}

/// One series of a response, with whatever the remote service left out.
#[derive(Debug)]
pub struct RawSeries {
    pub metric: Option<String>,
    pub display_name: Option<String>,
    pub query_index: Option<i64>,
    pub aggr: Option<String>,
    pub scope: Option<String>,
    pub tag_set: Option<Vec<String>>,
    pub pointlist: Option<Vec<RawPoint>>,
}

/// A single sample together with what its series says of itself.
#[derive(Debug)]
pub struct MetricPoint {
    /// Metric name.
    pub metric: String,
    /// Display name of the metric.
    pub display_name: Option<String>,
    /// Index of the query that produced the series.
    pub query_index: Option<i64>,
    /// Aggregation method.
    pub aggr: Option<String>,
    /// Scope of the query.
    pub scope: String,
    /// Tags of the series.
    pub tag_set: Vec<String>,
    /// Whole seconds since the epoch.
    pub timestamp: i64,
    /// The sample's value, as the bit pattern of a 64-bit IEEE 754 number.
    pub value_bits: u64,
}

/// What a `MetricPoint` holds, as plain values.
pub struct MetricPointView {
    pub metric: Seq<char>,
    pub display_name: Option<Seq<char>>,
    pub query_index: Option<i64>,
    pub aggr: Option<Seq<char>>,
    pub scope: Seq<char>,
    pub tag_set: Seq<Seq<char>>,
    pub timestamp: int,
    pub value_bits: u64,
}

/// The text of an optional string, if there is one.
pub open spec fn text_of(s: Option<String>) -> Option<Seq<char>> {
    match s {
        Some(t) => Some(t@),
        None => None,
    }
}

/// The text of an optional string, empty if there is none.
pub open spec fn text_or_empty(s: Option<String>) -> Seq<char> {
    match s {
        Some(t) => t@,
        None => Seq::<char>::empty(),
    }
}

/// The texts of an optional list of strings, none if there is no list.
pub open spec fn texts_or_empty(v: Option<Vec<String>>) -> Seq<Seq<char>> {
    match v {
        Some(list) => texts(list@),
        None => Seq::<Seq<char>>::empty(),
    }
}

impl View for MetricPoint {
    type V = MetricPointView;

    open spec fn view(&self) -> MetricPointView {
        MetricPointView {
            metric: self.metric@,
            display_name: text_of(self.display_name),
            query_index: self.query_index,
            aggr: text_of(self.aggr),
            scope: self.scope@,
            tag_set: texts(self.tag_set@),
            timestamp: self.timestamp as int,
            value_bits: self.value_bits,
        }
    }
}

/// The views of a list of records.
pub open spec fn point_views(points: Seq<MetricPoint>) -> Seq<MetricPointView> {
    points.map_values(|p: MetricPoint| p@)
}

/// Whole seconds of a count of milliseconds, rounded towards zero.
pub open spec fn seconds_of_millis(ms: int) -> int {
    if ms >= 0 {
        ms / 1000
    } else {
        -((-ms) / 1000)
    }
}

/// A sample has both its timestamp and its value.
pub open spec fn is_complete(p: RawPoint) -> bool {
    p.timestamp_ms is Some && p.value_bits is Some
}

/// The record made of a complete sample `p` of the series `s`: the series'
/// own description, with an empty text or list for what it leaves out, the
/// sample's time in whole seconds and its value.
pub open spec fn record_of(s: RawSeries, p: RawPoint) -> MetricPointView {
    MetricPointView {
        metric: text_or_empty(s.metric),
        display_name: text_of(s.display_name),
        query_index: s.query_index,
        aggr: text_of(s.aggr),
        scope: text_or_empty(s.scope),
        tag_set: texts_or_empty(s.tag_set),
        timestamp: seconds_of_millis(p.timestamp_ms->0 as int),
        value_bits: p.value_bits->0,
    }
}

/// The records of the samples `points` of the series `s`, in order; a
/// sample that lacks its timestamp or its value gives none.
pub open spec fn records_of_points(s: RawSeries, points: Seq<RawPoint>) -> Seq<MetricPointView>
    decreases points.len(),
{
    if points.len() == 0 {
        Seq::<MetricPointView>::empty()
    } else if is_complete(points.last()) {
        records_of_points(s, points.drop_last()).push(record_of(s, points.last()))
    } else {
        records_of_points(s, points.drop_last())
    }
}

/// The samples of a series, none where it has no list of them.
pub open spec fn samples_of(s: RawSeries) -> Seq<RawPoint> {
    match s.pointlist {
        Some(list) => list@,
        None => Seq::<RawPoint>::empty(),
    }
}

/// The records of a whole response: those of its first series, then those
/// of the second, and so on.
pub open spec fn flattened(series: Seq<RawSeries>) -> Seq<MetricPointView>
    decreases series.len(),
{
    if series.len() == 0 {
        Seq::<MetricPointView>::empty()
    } else {
        flattened(series.drop_last()) + records_of_points(
            series.last(),
            samples_of(series.last()),
        )
    }
}

/// How many of `points` are complete.
pub open spec fn count_complete(points: Seq<RawPoint>) -> nat
    decreases points.len(),
{
    if points.len() == 0 {
        0
    } else {
        count_complete(points.drop_last()) + if is_complete(points.last()) {
            1nat
        } else {
            0nat
        }
    }
}

/// How many samples of a response are complete.
pub open spec fn total_complete(series: Seq<RawSeries>) -> nat
    decreases series.len(),
{
    if series.len() == 0 {
        0
    } else {
        total_complete(series.drop_last()) + count_complete(samples_of(series.last()))
    }
}

/// A copy of an optional string.
fn copy_text(s: &Option<String>) -> (out: Option<String>)
    ensures
        text_of(out) == text_of(*s),
{
    match s {
        Some(t) => Some(t.clone()),
        None => None,
    }
}

/// A copy of an optional string, empty if there is none.
fn copy_text_or_empty(s: &Option<String>) -> (out: String)
    ensures
        out@ == text_or_empty(*s),
{
    match s {
        Some(t) => t.clone(),
        None => String::new(),
    }
}

/// A copy of an optional list of strings, empty if there is none.
fn copy_texts_or_empty(v: &Option<Vec<String>>) -> (out: Vec<String>)
    ensures
        texts(out@) == texts_or_empty(*v),
{
    let mut out: Vec<String> = Vec::new();
    match v {
        Some(list) => {
            let mut i: usize = 0;
            while i < list.len()
                invariant
                    i <= list.len(),
                    out@.len() == i,
                    forall|j: int| 0 <= j < i ==> out@[j]@ == list@[j]@,
                decreases list.len() - i,
            {
                out.push(list[i].clone());
                i += 1;
            }
            assert(texts(out@) =~= texts(list@));
        },
        None => {
            assert(texts(out@) =~= Seq::<Seq<char>>::empty());
        },
    }
    out
}

/// Whole seconds of a count of milliseconds, rounded towards zero.
pub fn millis_to_seconds(ms: i64) -> (secs: i64)
    ensures
        secs == seconds_of_millis(ms as int),
{
    if ms >= 0 {
        ms / 1000
    } else if ms == i64::MIN {
        -9_223_372_036_854_775
    } else {
        -((-ms) / 1000)
    }
}

/// Lays a response out as one record per complete sample, series by series
/// and sample by sample in the order received. Each record carries its
/// series' description; a sample without timestamp or value is left out.
pub fn flatten_series(series: &Vec<RawSeries>) -> (out: Vec<MetricPoint>)
    ensures
        point_views(out@) == flattened(series@),
{
    let mut out: Vec<MetricPoint> = Vec::new();
    let mut i: usize = 0;
    assert(series@.take(0) =~= Seq::<RawSeries>::empty());
    assert(point_views(out@) =~= Seq::<MetricPointView>::empty());
    while i < series.len()
        invariant
            i <= series.len(),
            point_views(out@) == flattened(series@.take(i as int)),
        decreases series.len() - i,
    {
        let s = &series[i];
        let ghost before = point_views(out@);
        proof {
            assert(series@.take(i + 1).drop_last() =~= series@.take(i as int));
            assert(series@.take(i + 1).last() == *s);
        }
        match &s.pointlist {
            Some(list) => {
                let mut j: usize = 0;
                assert(list@.take(0) =~= Seq::<RawPoint>::empty());
                assert(before + Seq::<MetricPointView>::empty() =~= before);
                while j < list.len()
                    invariant
                        j <= list.len(),
                        s.pointlist == Some(*list),
                        point_views(out@) == before + records_of_points(*s, list@.take(j as int)),
                    decreases list.len() - j,
                {
                    let p = &list[j];
                    proof {
                        assert(list@.take(j + 1).drop_last() =~= list@.take(j as int));
                        assert(list@.take(j + 1).last() == *p);
                    }
                    match (p.timestamp_ms, p.value_bits) {
                        (Some(ms), Some(bits)) => {
                            let ghost old_views = point_views(out@);
                            let record = MetricPoint {
                                metric: copy_text_or_empty(&s.metric),
                                display_name: copy_text(&s.display_name),
                                query_index: s.query_index,
                                aggr: copy_text(&s.aggr),
                                scope: copy_text_or_empty(&s.scope),
                                tag_set: copy_texts_or_empty(&s.tag_set),
                                timestamp: millis_to_seconds(ms),
                                value_bits: bits,
                            };
                            assert(record@ == record_of(*s, *p));
                            out.push(record);
                            assert(point_views(out@) =~= old_views.push(record@));
                            assert(before + records_of_points(*s, list@.take(j as int)).push(
                                record@,
                            ) =~= old_views.push(record@));
                        },
                        _ => {},
                    }
                    j += 1;
                }
                assert(list@.take(list@.len() as int) =~= list@);
            },
            None => {
                assert(before + Seq::<MetricPointView>::empty() =~= before);
            },
        }
        i += 1;
    }
    assert(series@.take(series@.len() as int) =~= series@);
    out
}

/// A series gives one record for each of its complete samples, and every
/// one of them carries the series' own description.
pub proof fn lemma_records_carry_series(s: RawSeries, points: Seq<RawPoint>)
    ensures
        records_of_points(s, points).len() == count_complete(points),
        forall|i: int|
            0 <= i < records_of_points(s, points).len() ==> {
                let r = #[trigger] records_of_points(s, points)[i];
                &&& r.metric == text_or_empty(s.metric)
                &&& r.display_name == text_of(s.display_name)
                &&& r.query_index == s.query_index
                &&& r.aggr == text_of(s.aggr)
                &&& r.scope == text_or_empty(s.scope)
                &&& r.tag_set == texts_or_empty(s.tag_set)
            },
    decreases points.len(),
{
    if points.len() > 0 {
        lemma_records_carry_series(s, points.drop_last());
    }
}

/// A response gives as many records as it has complete samples.
pub proof fn lemma_flattened_len(series: Seq<RawSeries>)
    ensures
        flattened(series).len() == total_complete(series),
    decreases series.len(),
{
    if series.len() > 0 {
        lemma_flattened_len(series.drop_last());
        lemma_records_carry_series(series.last(), samples_of(series.last()));
    }
}

/// Where no sample lacks anything, a series has as many complete samples as
/// it has samples.
pub proof fn lemma_all_complete(points: Seq<RawPoint>)
    requires
        forall|i: int| 0 <= i < points.len() ==> is_complete(#[trigger] points[i]),
    ensures
        count_complete(points) == points.len(),
    decreases points.len(),
{
    if points.len() > 0 {
        let head = points.drop_last();
        assert forall|i: int| 0 <= i < head.len() implies is_complete(#[trigger] head[i]) by {
            assert(head[i] == points[i]);
        }
        lemma_all_complete(head);
    }
}

} // verus!
