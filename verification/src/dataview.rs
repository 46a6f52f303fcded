//! The document model: global metadata, per-series display metadata, and the
//! named numeric series themselves.
//!
//! A series is a flat list of interleaved fixed-point coordinates
//! `x0, y0, x1, y1, ...`; an odd trailing value is ignored when pairing.
//! The two maps are kept as association lists in insertion order, with
//! unique keys.

use vstd::prelude::*;
use crate::num::DATA_LIMIT;

verus! {

/// The kind of chart a document asks for. Only `XY` is implemented.
#[derive(Clone, Copy, PartialEq, Eq, Structural, Debug)]
pub enum Type {
    XY,
    Line,
}

impl Default for Type {
    fn default() -> (r: Self)
        ensures
            r == Type::XY,
    {
        Type::XY
    }
}

/// Global document metadata: chart kind, titles, axis units, optional fixed
/// view bounds, and a description.
#[derive(Clone, Debug)]
pub struct DataView {
    pub chart_type: Type,
    pub title: Option<String>,
    pub x_title: Option<String>,
    pub y_title: Option<String>,
    pub x_unit: Option<String>,
    pub y_unit: Option<String>,
    pub x_min: Option<i64>,
    pub x_max: Option<i64>,
    pub y_min: Option<i64>,
    pub y_max: Option<i64>,
    pub description: Option<String>,
}

impl Default for DataView {
    fn default() -> (r: Self)
        ensures
            r == DataView::spec_default(),
    {
        DataView {
            chart_type: Type::XY,
            title: None,
            x_title: None,
            y_title: None,
            x_unit: None,
            y_unit: None,
            x_min: None,
            x_max: None,
            y_min: None,
            y_max: None,
            description: None,
        }
    }
}

impl DataView {
    pub open spec fn spec_default() -> DataView {
        DataView {
            chart_type: Type::XY,
            title: None,
            x_title: None,
            y_title: None,
            x_unit: None,
            y_unit: None,
            x_min: None,
            x_max: None,
            y_min: None,
            y_max: None,
            description: None,
        }
    }
}

/// Display metadata for one series; both fields are optional.
#[derive(Clone, Debug)]
pub struct Chart {
    pub title: Option<String>,
    pub description: Option<String>,
}

impl Default for Chart {
    fn default() -> (r: Self)
        ensures
            r.title is None,
            r.description is None,
    {
        Chart { title: None, description: None }
    }
}

/// No two entries of the association list carry the same key.
pub open spec fn unique_keys<T>(s: Seq<(String, T)>) -> bool {
    forall|i: int, j: int| 0 <= i < j < s.len() ==> s[i].0@ != s[j].0@
}

/// Every sample of the series fits the fixed-point data window.
pub open spec fn values_in_range(vals: Seq<i64>) -> bool {
    forall|i: int| 0 <= i < vals.len() ==> -DATA_LIMIT <= #[trigger] vals[i] <= DATA_LIMIT
}

/// The series metadata of the first entry carrying the given key, if any.
pub open spec fn find_chart(s: Seq<(String, Chart)>, key: Seq<char>) -> Option<Chart>
    decreases s.len(),
{
    if s.len() == 0 {
        None
    } else if s[0].0@ == key {
        Some(s[0].1)
    } else {
        find_chart(s.drop_first(), key)
    }
}

/// The root document: global metadata, series metadata keyed by series key,
/// and series data keyed by series key.
#[derive(Clone, Debug)]
pub struct File {
    pub dataview: DataView,
    pub chart: Vec<(String, Chart)>,
    pub data: Vec<(String, Vec<i64>)>,
}

impl Default for File {
    fn default() -> (r: Self)
        ensures
            r.dataview == DataView::spec_default(),
            r.chart@.len() == 0,
            r.data@.len() == 0,
    {
        File { dataview: DataView::default(), chart: Vec::new(), data: Vec::new() }
    }
}

impl File {
    /// Well-formedness: unique keys in both maps and all samples in range.
    pub open spec fn wf(self) -> bool {
        &&& unique_keys(self.chart@)
        &&& unique_keys(self.data@)
        &&& forall|j: int|
            0 <= j < self.data@.len() ==> values_in_range(#[trigger] self.data@[j].1@)
    }

    /// Index of the first data series with the given key, if any.
    pub fn data_index_of(&self, key: &String) -> (r: Option<usize>)
        ensures
            match r {
                Some(i) => i < self.data@.len() && self.data@[i as int].0@ == key@ && forall|
                    j: int,
                |
                    0 <= j < i ==> self.data@[j].0@ != key@,
                None => forall|j: int| 0 <= j < self.data@.len() ==> self.data@[j].0@ != key@,
            },
    {
        let mut j: usize = 0;
        while j < self.data.len()
            invariant
                j <= self.data@.len(),
                forall|k: int| 0 <= k < j ==> self.data@[k].0@ != key@,
            decreases self.data@.len() - j,
        {
            if self.data[j].0 == *key {
                return Some(j);
            }
            j += 1;
        }
        None
    }

    /// Index of the first series metadata entry with the given key, if any.
    pub fn chart_index_of(&self, key: &String) -> (r: Option<usize>)
        ensures
            match r {
                Some(i) => i < self.chart@.len() && self.chart@[i as int].0@ == key@
                    && find_chart(self.chart@, key@) == Some(self.chart@[i as int].1),
                None => {
                    &&& forall|j: int|
                        0 <= j < self.chart@.len() ==> self.chart@[j].0@ != key@
                    &&& find_chart(self.chart@, key@) is None
                },
            },
    {
        let mut j: usize = 0;
        proof {
            assert(self.chart@.skip(0) =~= self.chart@);
        }
        while j < self.chart.len()
            invariant
                j <= self.chart@.len(),
                forall|k: int| 0 <= k < j ==> self.chart@[k].0@ != key@,
                find_chart(self.chart@, key@) == find_chart(self.chart@.skip(j as int), key@),
            decreases self.chart@.len() - j,
        {
            proof {
                assert(self.chart@.skip(j as int).len() > 0);
                assert(self.chart@.skip(j as int)[0] == self.chart@[j as int]);
                assert(self.chart@.skip(j as int).drop_first() =~= self.chart@.skip(j + 1));
            }
            if self.chart[j].0 == *key {
                return Some(j);
            }
            j += 1;
        }
        proof {
            assert(self.chart@.skip(self.chart@.len() as int).len() == 0);
        }
        None
    }
}

} // verus!
