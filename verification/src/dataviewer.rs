//! The viewer controller: one instance owns a loaded document, the current
//! view rectangle, the interaction state (pointer, drag, wheel, autoview)
//! and the debounce-timer bookkeeping.
//!
//! Everything here is pure state: rendering produces draw commands, and
//! the debounce timer is tracked as an opaque handle that the host starts
//! and cancels.

use vstd::prelude::*;
use crate::canvas::{Canvas, DrawCmd, Tooltip};
use crate::chart::{is_computed_view, ViewRect};
use crate::dataview::{unique_keys, File, Type};
use crate::num::{div_floor, COORD_LIMIT, PIXEL_LIMIT, VIEW_LIMIT};
use crate::xy::XY;

verus! {

/// Why a document could not be loaded into a viewer.
#[derive(Clone, Copy, PartialEq, Eq, Structural, Debug)]
pub enum LoadError {
    /// The document asks for a chart type that is declared but not
    /// implemented.
    UnsupportedChartType(Type),
}

/// The chart keys of `chart`, in order, that have no entry in `data`.
pub open spec fn missing_keys(
    chart: Seq<(String, crate::dataview::Chart)>,
    data: Seq<(String, Vec<i64>)>,
) -> Seq<Seq<char>>
    decreases chart.len(),
{
    if chart.len() == 0 {
        Seq::empty()
    } else {
        missing_keys(chart.drop_last(), data) + (if has_key(data, chart.last().0@) {
            Seq::empty()
        } else {
            seq![chart.last().0@]
        })
    }
}

/// Some entry of `data` carries the key.
pub open spec fn has_key(data: Seq<(String, Vec<i64>)>, key: Seq<char>) -> bool {
    exists|j: int| 0 <= j < data.len() && (#[trigger] data[j]).0@ == key
}

/// `out` is `file` with an empty series added, in chart order, for every
/// chart key that had no series.
pub open spec fn normalized(file: File, out: File) -> bool {
    &&& out.dataview == file.dataview
    &&& out.chart == file.chart
    &&& out.data@.len() == file.data@.len() + missing_keys(file.chart@, file.data@).len()
    &&& out.data@.take(file.data@.len() as int) == file.data@
    &&& forall|k: int|
        0 <= k < missing_keys(file.chart@, file.data@).len() ==> {
            &&& (#[trigger] out.data@[file.data@.len() + k]).0@ == missing_keys(
                file.chart@,
                file.data@,
            )[k]
            &&& out.data@[file.data@.len() + k].1@ == Seq::<i64>::empty()
        }
}

/// What the first `k` entries of an update append to the series with the
/// given key: their values, in update order.
pub open spec fn appended_from(
    update: Seq<(String, Vec<i64>)>,
    key: Seq<char>,
    k: int,
) -> Seq<i64>
    decreases k,
{
    if k <= 0 {
        Seq::empty()
    } else {
        appended_from(update, key, k - 1) + (if update[k - 1].0@ == key {
            update[k - 1].1@
        } else {
            Seq::empty()
        })
    }
}

/// The data-space shift of a pan by `d` pixels across a `pixels`-wide
/// surface showing a span of `span`.
pub open spec fn spec_pan_delta(d: int, span: int, pixels: int) -> int {
    d * span / pixels
}

/// `new_v` is `v` panned by the pixel delta `(dx, dy)`: the x bounds move
/// against the drag and the y bounds with it (pixel y grows downward), by
/// the delta scaled into data space. A step that would carry a bound past
/// the coordinate limit leaves the rectangle unchanged.
pub open spec fn pan_rel(v: ViewRect, w: i64, h: i64, dx: int, dy: int, new_v: ViewRect) -> bool {
    let dxd = spec_pan_delta(dx, v.x_max - v.x_min, w as int);
    let dyd = spec_pan_delta(dy, v.y_max - v.y_min, h as int);
    if -COORD_LIMIT <= v.x_min - dxd <= COORD_LIMIT && -COORD_LIMIT <= v.x_max - dxd
        <= COORD_LIMIT && -COORD_LIMIT <= v.y_min + dyd <= COORD_LIMIT && -COORD_LIMIT <= v.y_max
        + dyd <= COORD_LIMIT {
        new_v == (ViewRect {
            x_min: (v.x_min - dxd) as i64,
            x_max: (v.x_max - dxd) as i64,
            y_min: (v.y_min + dyd) as i64,
            y_max: (v.y_max + dyd) as i64,
        })
    } else {
        new_v == v
    }
}

/// `new_v` is `v` zoomed one wheel step: a tenth of each span is taken off
/// both ends of both axes when `dy > 0` (zoom in, 20% less span in all),
/// and added when `dy <= 0` (zoom out). A step that would carry a bound
/// past the coordinate limit leaves the rectangle unchanged.
pub open spec fn zoom_rel(v: ViewRect, dy: i64, new_v: ViewRect) -> bool {
    let zx = (v.x_max - v.x_min) * 10 / 100;
    let zy = (v.y_max - v.y_min) * 10 / 100;
    let nx_min = if dy > 0 {
        v.x_min + zx
    } else {
        v.x_min - zx
    };
    let nx_max = if dy > 0 {
        v.x_max - zx
    } else {
        v.x_max + zx
    };
    let ny_min = if dy > 0 {
        v.y_min + zy
    } else {
        v.y_min - zy
    };
    let ny_max = if dy > 0 {
        v.y_max - zy
    } else {
        v.y_max + zy
    };
    if -COORD_LIMIT <= nx_min <= COORD_LIMIT && -COORD_LIMIT <= nx_max <= COORD_LIMIT
        && -COORD_LIMIT <= ny_min <= COORD_LIMIT && -COORD_LIMIT <= ny_max <= COORD_LIMIT {
        new_v == (ViewRect {
            x_min: nx_min as i64,
            x_max: nx_max as i64,
            y_min: ny_min as i64,
            y_max: ny_max as i64,
        })
    } else {
        new_v == v
    }
}

/// One viewer instance: the loaded document, the chart strategy, the view
/// rectangle it owns, the surface size last drawn to, and the interaction
/// state.
pub struct DataViewer {
    pub file: File,
    pub chart: Option<XY>,
    pub view: ViewRect,
    pub width: i64,
    pub height: i64,
    pub mouse_is_pressed: bool,
    pub mouse_xref: i64,
    pub mouse_yref: i64,
    pub redraw_timer: Option<u64>,
    pub autoview: bool,
}

impl DataViewer {
    /// The document is well formed, the surface and pointer are inside the
    /// pixel window, and a loaded chart implies a view that can be mapped
    /// to pixels.
    pub open spec fn wf(self) -> bool {
        &&& self.file.wf()
        &&& 1 <= self.width <= PIXEL_LIMIT
        &&& 1 <= self.height <= PIXEL_LIMIT
        &&& -PIXEL_LIMIT <= self.mouse_xref <= PIXEL_LIMIT
        &&& -PIXEL_LIMIT <= self.mouse_yref <= PIXEL_LIMIT
        &&& self.chart is Some ==> {
            &&& self.view.valid()
            &&& self.view.within(COORD_LIMIT as int)
        }
    }

    /// A fresh viewer: empty document, no chart, autoview on.
    pub fn new() -> (r: Self)
        ensures
            r.file.dataview == crate::dataview::DataView::spec_default(),
            r.file.chart@.len() == 0,
            r.file.data@.len() == 0,
            r.chart is None,
            r.view == ViewRect::spec_empty(),
            r.width == 1,
            r.height == 1,
            !r.mouse_is_pressed,
            r.mouse_xref == 0,
            r.mouse_yref == 0,
            r.redraw_timer is None,
            r.autoview,
            r.wf(),
    {
        DataViewer {
            file: File::default(),
            chart: None,
            view: ViewRect::new(),
            width: 1,
            height: 1,
            mouse_is_pressed: false,
            mouse_xref: 0,
            mouse_yref: 0,
            redraw_timer: None,
            autoview: true,
        }
    }

    /// Add an empty series for every chart key that has none.
    fn normalize_file(&mut self)
        requires
            old(self).file.wf(),
        ensures
            normalized(old(self).file, final(self).file),
            final(self).file.wf(),
            final(self).chart == old(self).chart,
            final(self).view == old(self).view,
            final(self).width == old(self).width,
            final(self).height == old(self).height,
            final(self).mouse_is_pressed == old(self).mouse_is_pressed,
            final(self).mouse_xref == old(self).mouse_xref,
            final(self).mouse_yref == old(self).mouse_yref,
            final(self).redraw_timer == old(self).redraw_timer,
            final(self).autoview == old(self).autoview,
    {
        let ghost orig = old(self).file;
        let orig_len = self.file.data.len();
        let mut i: usize = 0;
        while i < self.file.chart.len()
            invariant
                i <= self.file.chart@.len(),
                self.file.chart == orig.chart,
                self.file.dataview == orig.dataview,
                orig.wf(),
                orig_len == orig.data@.len(),
                self.file.data@.len() == orig.data@.len() + missing_keys(
                    orig.chart@.take(i as int),
                    orig.data@,
                ).len(),
                self.file.data@.take(orig.data@.len() as int) == orig.data@,
                forall|k: int|
                    0 <= k < missing_keys(orig.chart@.take(i as int), orig.data@).len() ==> {
                        &&& (#[trigger] self.file.data@[orig.data@.len() + k]).0@
                            == missing_keys(orig.chart@.take(i as int), orig.data@)[k]
                        &&& self.file.data@[orig.data@.len() + k].1@ == Seq::<i64>::empty()
                    },
                self.file.wf(),
                self.chart == old(self).chart,
                self.view == old(self).view,
                self.width == old(self).width,
                self.height == old(self).height,
                self.mouse_is_pressed == old(self).mouse_is_pressed,
                self.mouse_xref == old(self).mouse_xref,
                self.mouse_yref == old(self).mouse_yref,
                self.redraw_timer == old(self).redraw_timer,
                self.autoview == old(self).autoview,
            decreases self.file.chart@.len() - i,
        {
            let ghost pre = self.file.data@;
            let ghost miss_pre = missing_keys(orig.chart@.take(i as int), orig.data@);
            proof {
                assert(orig.chart@.take(i + 1).drop_last() =~= orig.chart@.take(i as int));
                assert(orig.chart@.take(i + 1).last() == orig.chart@[i as int]);
            }
            let key = self.file.chart[i].0.clone();
            let found = self.file.data_index_of(&key);
            match found {
                Some(fidx) => {
                    proof {
                        // the key was found: either among the original
                        // entries, or among the ones this loop added, which
                        // all carry earlier chart keys — impossible, since
                        // chart keys are unique.
                        let idx = fidx as int;
                        assert(self.file.data@[idx].0@ == orig.chart@[i as int].0@);
                        if idx >= orig.data@.len() {
                            let k = idx - orig.data@.len();
                            assert(self.file.data@[orig.data@.len() + k].0@ == missing_keys(
                                orig.chart@.take(i as int),
                                orig.data@,
                            )[k]);
                            lemma_missing_keys_from_chart(
                                orig.chart@,
                                orig.data@,
                                i as int,
                                k,
                            );
                            let q = choose|q: int|
                                0 <= q < i && (#[trigger] orig.chart@[q]).0@ == missing_keys(
                                    orig.chart@.take(i as int),
                                    orig.data@,
                                )[k];
                            assert(orig.chart@[q].0@ != orig.chart@[i as int].0@);
                            assert(false);
                        }
                        assert(self.file.data@.take(orig.data@.len() as int)[idx]
                            == orig.data@[idx]);
                        assert(has_key(orig.data@, orig.chart@[i as int].0@));
                        assert(missing_keys(orig.chart@.take(i + 1), orig.data@)
                            =~= miss_pre);
                    }
                },
                None => {
                    proof {
                        assert(!has_key(orig.data@, orig.chart@[i as int].0@)) by {
                            if has_key(orig.data@, orig.chart@[i as int].0@) {
                                let j = choose|j: int|
                                    0 <= j < orig.data@.len() && (#[trigger] orig.data@[j]).0@
                                        == orig.chart@[i as int].0@;
                                assert(self.file.data@[j] == orig.data@[j]);
                            }
                        }
                        assert(missing_keys(orig.chart@.take(i + 1), orig.data@) =~= miss_pre
                            + seq![orig.chart@[i as int].0@]);
                    }
                    let empty: Vec<i64> = Vec::new();
                    self.file.data.push((key, empty));
                    proof {
                        assert(self.file.data@.take(orig.data@.len() as int) =~= pre.take(
                            orig.data@.len() as int,
                        ));
                        assert(crate::dataview::values_in_range(
                            self.file.data@[self.file.data@.len() - 1].1@,
                        ));
                        assert(unique_keys(self.file.data@)) by {
                            assert(forall|a: int, b: int|
                                0 <= a < b < pre.len() ==> pre[a].0@ != pre[b].0@);
                            assert(forall|a: int|
                                0 <= a < pre.len() ==> self.file.data@[a] == pre[a]);
                            assert forall|a: int|
                                0 <= a < pre.len() implies (#[trigger] self.file.data@[a]).0@
                                != self.file.data@[pre.len() as int].0@ by {
                                if a < orig.data@.len() {
                                    assert(pre[a] == orig.data@[a]);
                                } else {
                                    let k = a - orig.data@.len();
                                    lemma_missing_keys_from_chart(
                                        orig.chart@,
                                        orig.data@,
                                        i as int,
                                        k,
                                    );
                                }
                            }
                        }
                    }
                },
            }
            i += 1;
        }
        proof {
            assert(orig.chart@.take(orig.chart@.len() as int) =~= orig.chart@);
        }
    }

    /// Load a document: adopt it, give every chart key a series, and for
    /// the XY chart type compute the autoscaled view. A document asking
    /// for the unimplemented `Line` type is refused (the document is still
    /// adopted, but no chart or view is created).
    pub fn load(&mut self, file: File) -> (r: Result<(), LoadError>)
        requires
            old(self).wf(),
            file.wf(),
        ensures
            final(self).wf(),
            normalized(file, final(self).file),
            final(self).width == old(self).width,
            final(self).height == old(self).height,
            final(self).mouse_is_pressed == old(self).mouse_is_pressed,
            final(self).mouse_xref == old(self).mouse_xref,
            final(self).mouse_yref == old(self).mouse_yref,
            final(self).redraw_timer == old(self).redraw_timer,
            final(self).autoview == old(self).autoview,
            match r {
                Ok(()) => {
                    &&& file.dataview.chart_type == Type::XY
                    &&& final(self).chart is Some
                    &&& is_computed_view(final(self).file, final(self).view)
                    &&& final(self).view.valid()
                    &&& final(self).view.within(VIEW_LIMIT as int)
                },
                Err(e) => {
                    &&& file.dataview.chart_type != Type::XY
                    &&& e == LoadError::UnsupportedChartType(file.dataview.chart_type)
                    &&& final(self).chart == old(self).chart
                    &&& final(self).view == old(self).view
                },
            },
    {
        self.file = file;
        self.normalize_file();
        match self.file.dataview.chart_type {
            Type::XY => {
                let xy = XY;
                self.view = xy.view(&self.file);
                self.chart = Some(xy);
                Ok(())
            },
            Type::Line => Err(LoadError::UnsupportedChartType(Type::Line)),
        }
    }

    /// Apply a streamed update: the values of each update series are
    /// appended, in order, to the series of the same key; update keys with
    /// no series in the store are ignored. With autoview on, the view is
    /// recomputed from the grown data.
    pub fn update(&mut self, update: File)
        requires
            old(self).wf(),
            update.wf(),
            old(self).autoview ==> old(self).chart is Some,
        ensures
            final(self).wf(),
            final(self).file.dataview == old(self).file.dataview,
            final(self).file.chart == old(self).file.chart,
            final(self).file.data@.len() == old(self).file.data@.len(),
            forall|j: int|
                0 <= j < old(self).file.data@.len() ==> {
                    &&& (#[trigger] final(self).file.data@[j]).0 == old(self).file.data@[j].0
                    &&& final(self).file.data@[j].1@ == old(self).file.data@[j].1@
                        + appended_from(
                        update.data@,
                        old(self).file.data@[j].0@,
                        update.data@.len() as int,
                    )
                },
            final(self).chart == old(self).chart,
            final(self).autoview == old(self).autoview,
            final(self).width == old(self).width,
            final(self).height == old(self).height,
            final(self).mouse_is_pressed == old(self).mouse_is_pressed,
            final(self).mouse_xref == old(self).mouse_xref,
            final(self).mouse_yref == old(self).mouse_yref,
            final(self).redraw_timer == old(self).redraw_timer,
            old(self).autoview ==> is_computed_view(final(self).file, final(self).view)
                && final(self).view.valid() && final(self).view.within(VIEW_LIMIT as int),
            !old(self).autoview ==> final(self).view == old(self).view,
    {
        let ghost orig = *old(self);
        let mut k: usize = 0;
        while k < update.data.len()
            invariant
                k <= update.data@.len(),
                update.wf(),
                orig.wf(),
                self.file.dataview == orig.file.dataview,
                self.file.chart == orig.file.chart,
                self.file.data@.len() == orig.file.data@.len(),
                forall|j: int|
                    0 <= j < orig.file.data@.len() ==> {
                        &&& (#[trigger] self.file.data@[j]).0 == orig.file.data@[j].0
                        &&& self.file.data@[j].1@ == orig.file.data@[j].1@ + appended_from(
                            update.data@,
                            orig.file.data@[j].0@,
                            k as int,
                        )
                    },
                self.file.wf(),
                self.chart == orig.chart,
                self.view == orig.view,
                self.autoview == orig.autoview,
                self.width == orig.width,
                self.height == orig.height,
                self.mouse_is_pressed == orig.mouse_is_pressed,
                self.mouse_xref == orig.mouse_xref,
                self.mouse_yref == orig.mouse_yref,
                self.redraw_timer == orig.redraw_timer,
            decreases update.data@.len() - k,
        {
            let ukey = &update.data[k].0;
            let found = self.file.data_index_of(ukey);
            if let Some(idx) = found {
                let m = update.data[k].1.len();
                let ghost pre = self.file.data@;
                proof {
                    assert((pre[idx as int].0, pre[idx as int].1) == pre[idx as int]);
                    assert(pre.update(idx as int, pre[idx as int]) =~= pre);
                }
                let mut t: usize = 0;
                while t < m
                    invariant
                        t <= m,
                        m == update.data@[k as int].1@.len(),
                        k < update.data@.len(),
                        idx < pre.len(),
                        self.file.data@.len() == pre.len(),
                        self.file.data@ == pre.update(
                            idx as int,
                            (
                                pre[idx as int].0,
                                self.file.data@[idx as int].1,
                            ),
                        ),
                        self.file.data@[idx as int].0 == pre[idx as int].0,
                        self.file.data@[idx as int].1@ == pre[idx as int].1@
                            + update.data@[k as int].1@.take(t as int),
                        update.wf(),
                        self.file.wf(),
                        self.file.chart == orig.file.chart,
                        self.file.dataview == orig.file.dataview,
                        self.chart == orig.chart,
                        self.view == orig.view,
                        self.autoview == orig.autoview,
                        self.width == orig.width,
                        self.height == orig.height,
                        self.mouse_is_pressed == orig.mouse_is_pressed,
                        self.mouse_xref == orig.mouse_xref,
                        self.mouse_yref == orig.mouse_yref,
                        self.redraw_timer == orig.redraw_timer,
                    decreases m - t,
                {
                    let v = update.data[k].1[t];
                    self.file.data[idx].1.push(v);
                    proof {
                        assert(update.data@[k as int].1@.take(t + 1)
                            =~= update.data@[k as int].1@.take(t as int).push(v));
                        assert(self.file.data@ =~= pre.update(
                            idx as int,
                            (pre[idx as int].0, self.file.data@[idx as int].1),
                        ));
                    }
                    t += 1;
                }
                proof {
                    assert(update.data@[k as int].1@.take(m as int) =~= update.data@[k as int].1@);
                    lemma_appended_from_step(update.data@, orig.file.data@, self.file.data@, pre, k as int, idx as int);
                }
            } else {
                proof {
                    assert forall|j: int| 0 <= j < orig.file.data@.len() implies appended_from(
                        update.data@,
                        orig.file.data@[j].0@,
                        k + 1,
                    ) =~= appended_from(update.data@, orig.file.data@[j].0@, k as int) by {
                        assert(self.file.data@[j].0 == orig.file.data@[j].0);
                        assert(update.data@[k as int].0@ != self.file.data@[j].0@);
                    }
                }
            }
            k += 1;
        }
        if self.autoview {
            if self.chart.is_some() {
                let xy = XY;
                self.view = xy.view(&self.file);
            }
        }
    }

    /// Render a frame: adopt the surface size, then draw axes, series and
    /// tooltip, and the document titles. With no chart loaded, nothing is
    /// drawn.
    pub fn draw(&mut self, width: i64, height: i64) -> (r: (Vec<DrawCmd>, Option<Tooltip>))
        requires
            old(self).wf(),
            1 <= width <= PIXEL_LIMIT,
            1 <= height <= PIXEL_LIMIT,
        ensures
            final(self).wf(),
            final(self).width == width,
            final(self).height == height,
            *final(self) == (DataViewer { width, height, ..*old(self) }),
            match old(self).chart {
                None => r.0@.len() == 0 && r.1 is None,
                Some(_) => {
                    &&& crate::xy::tooltip_matches(
                        r.1,
                        crate::xy::spec_best(
                            crate::xy::spec_cands(
                                old(self).file.data@,
                                old(self).view,
                                width,
                                height,
                            ),
                            old(self).mouse_xref as int,
                            old(self).mouse_yref as int,
                        ),
                    )
                    &&& crate::canvas::models(r.0@) == crate::canvas::spec_axis_cmds(
                        old(self).view,
                        width,
                        height,
                    ) + crate::xy::spec_series_draw(
                        old(self).file.data@,
                        old(self).view,
                        width,
                        height,
                        old(self).file.data@.len() as int,
                    ) + (match r.1 {
                        None => Seq::empty(),
                        Some(t) => crate::canvas::spec_tooltip_cmds(old(self).file, t),
                    }) + crate::canvas::spec_titles_cmds(
                        old(self).file.dataview,
                        old(self).view,
                        width,
                        height,
                    )
                },
            },
    {
        self.width = width;
        self.height = height;
        match &self.chart {
            None => (Vec::new(), None),
            Some(chart) => {
                let mut canvas = Canvas::new(
                    width,
                    height,
                    self.mouse_xref,
                    self.mouse_yref,
                    &self.view,
                );
                let tooltip = chart.draw(&mut canvas, &self.file);
                canvas.draw(&self.file);
                (canvas.into_cmds(), tooltip)
            },
        }
    }

    /// Pan the view by a pixel delta: content follows the pointer.
    /// Panning turns autoview off.
    fn move_canvas(&mut self, dx: i64, dy: i64)
        requires
            old(self).wf(),
            -2_000_000_000 <= dx <= 2_000_000_000,
            -2_000_000_000 <= dy <= 2_000_000_000,
        ensures
            final(self).wf(),
            pan_rel(old(self).view, old(self).width, old(self).height, dx as int, dy as int, final(self).view),
            !final(self).autoview,
            *final(self) == (DataViewer { view: final(self).view, autoview: false, ..*old(self) }),
    {
        let ghost v = self.view;
        let span_x = self.view.x_max as i128 - self.view.x_min as i128;
        proof {
            lemma_pan_product_bounds(dx as int, span_x as int);
        }
        let prod_x = (dx as i128) * span_x;
        let dxd = div_floor(prod_x, self.width as i128);
        let span_y = self.view.y_max as i128 - self.view.y_min as i128;
        proof {
            lemma_pan_product_bounds(dy as int, span_y as int);
        }
        let prod_y = (dy as i128) * span_y;
        let dyd = div_floor(prod_y, self.height as i128);
        proof {
            lemma_div_magnitude(prod_x as int, self.width as int);
            lemma_div_magnitude(prod_y as int, self.height as int);
        }
        let nx_min = self.view.x_min as i128 - dxd;
        let nx_max = self.view.x_max as i128 - dxd;
        let ny_min = self.view.y_min as i128 + dyd;
        let ny_max = self.view.y_max as i128 + dyd;
        let lim = COORD_LIMIT as i128;
        if -lim <= nx_min && nx_min <= lim && -lim <= nx_max && nx_max <= lim && -lim <= ny_min
            && ny_min <= lim && -lim <= ny_max && ny_max <= lim {
            self.view = ViewRect {
                x_min: nx_min as i64,
                x_max: nx_max as i64,
                y_min: ny_min as i64,
                y_max: ny_max as i64,
            };
        }
        self.autoview = false;
    }

    /// A pointer press: remember the reference position and enter the
    /// dragging state.
    pub fn mouse_clicked(&mut self, x: i64, y: i64)
        requires
            -PIXEL_LIMIT <= x <= PIXEL_LIMIT,
            -PIXEL_LIMIT <= y <= PIXEL_LIMIT,
        ensures
            *final(self) == (DataViewer {
                mouse_is_pressed: true,
                mouse_xref: x,
                mouse_yref: y,
                ..*old(self)
            }),
            old(self).wf() ==> final(self).wf(),
    {
        self.mouse_is_pressed = true;
        self.mouse_xref = x;
        self.mouse_yref = y;
    }

    /// A pointer move: while dragging, pan by the distance from the
    /// reference position; always adopt the new position as the reference
    /// (and as the tooltip probe position).
    pub fn mouse_moved(&mut self, x: i64, y: i64)
        requires
            old(self).wf(),
            -PIXEL_LIMIT <= x <= PIXEL_LIMIT,
            -PIXEL_LIMIT <= y <= PIXEL_LIMIT,
        ensures
            final(self).wf(),
            final(self).mouse_xref == x,
            final(self).mouse_yref == y,
            old(self).mouse_is_pressed ==> pan_rel(
                old(self).view,
                old(self).width,
                old(self).height,
                x - old(self).mouse_xref,
                y - old(self).mouse_yref,
                final(self).view,
            ) && !final(self).autoview && *final(self) == (DataViewer {
                view: final(self).view,
                autoview: false,
                mouse_xref: x,
                mouse_yref: y,
                ..*old(self)
            }),
            !old(self).mouse_is_pressed ==> *final(self) == (DataViewer {
                mouse_xref: x,
                mouse_yref: y,
                ..*old(self)
            }),
    {
        if self.mouse_is_pressed {
            let dx = x - self.mouse_xref;
            let dy = y - self.mouse_yref;
            self.move_canvas(dx, dy);
        }
        self.mouse_xref = x;
        self.mouse_yref = y;
    }

    /// A pointer release: leave the dragging state.
    pub fn mouse_released(&mut self)
        ensures
            *final(self) == (DataViewer { mouse_is_pressed: false, ..*old(self) }),
            old(self).wf() ==> final(self).wf(),
    {
        self.mouse_is_pressed = false;
    }

    pub fn mouse_is_pressed(&self) -> (r: bool)
        ensures
            r == self.mouse_is_pressed,
    {
        self.mouse_is_pressed
    }

    /// Replace the pending debounce timer: the new handle is adopted and
    /// the previously pending one is handed back for the host to cancel,
    /// so at most one timer is ever outstanding.
    pub fn set_redraw_timer(&mut self, timer: Option<u64>) -> (cancelled: Option<u64>)
        ensures
            final(self).redraw_timer == timer,
            cancelled == old(self).redraw_timer,
            *final(self) == (DataViewer { redraw_timer: timer, ..*old(self) }),
            old(self).wf() ==> final(self).wf(),
    {
        let cancelled = self.redraw_timer.take();
        self.redraw_timer = timer;
        cancelled
    }

    /// A wheel step: zoom in (`dy > 0`) or out around the rectangle.
    /// Zooming turns autoview off.
    pub fn mouse_scroll(&mut self, dy: i64)
        requires
            old(self).wf(),
        ensures
            final(self).wf(),
            zoom_rel(old(self).view, dy, final(self).view),
            !final(self).autoview,
            *final(self) == (DataViewer { view: final(self).view, autoview: false, ..*old(self) }),
    {
        let ghost v = self.view;
        let span_x = self.view.x_max as i128 - self.view.x_min as i128;
        let span_y = self.view.y_max as i128 - self.view.y_min as i128;
        let zx = div_floor(span_x * 10, 100);
        let zy = div_floor(span_y * 10, 100);
        proof {
            lemma_div_magnitude(span_x as int * 10, 100);
            lemma_div_magnitude(span_y as int * 10, 100);
        }
        let (nx_min, nx_max, ny_min, ny_max) = if dy > 0 {
            (
                self.view.x_min as i128 + zx,
                self.view.x_max as i128 - zx,
                self.view.y_min as i128 + zy,
                self.view.y_max as i128 - zy,
            )
        } else {
            (
                self.view.x_min as i128 - zx,
                self.view.x_max as i128 + zx,
                self.view.y_min as i128 - zy,
                self.view.y_max as i128 + zy,
            )
        };
        let lim = COORD_LIMIT as i128;
        if -lim <= nx_min && nx_min <= lim && -lim <= nx_max && nx_max <= lim && -lim <= ny_min
            && ny_min <= lim && -lim <= ny_max && ny_max <= lim {
            proof {
                if self.chart is Some {
                    vstd::arithmetic::div_mod::lemma_div_pos_is_pos(span_x as int * 10, 100);
                    vstd::arithmetic::div_mod::lemma_div_pos_is_pos(span_y as int * 10, 100);
                    if dy > 0 {
                        lemma_zoom_in_keeps_valid(v.x_min as int, v.x_max as int);
                        lemma_zoom_in_keeps_valid(v.y_min as int, v.y_max as int);
                    }
                }
            }
            self.view = ViewRect {
                x_min: nx_min as i64,
                x_max: nx_max as i64,
                y_min: ny_min as i64,
                y_max: ny_max as i64,
            };
        }
        self.autoview = false;
    }

    /// Switch autoview: when turned on, the view is recomputed from the
    /// data at once.
    pub fn set_autoview(&mut self, autoview: bool)
        requires
            old(self).wf(),
        ensures
            final(self).wf(),
            final(self).autoview == autoview,
            autoview && old(self).chart is Some ==> is_computed_view(
                final(self).file,
                final(self).view,
            ) && final(self).view.valid() && final(self).view.within(VIEW_LIMIT as int)
                && *final(self) == (DataViewer {
                autoview,
                view: final(self).view,
                ..*old(self)
            }),
            !(autoview && old(self).chart is Some) ==> *final(self) == (DataViewer {
                autoview,
                ..*old(self)
            }),
    {
        self.autoview = autoview;
        if self.autoview {
            if self.chart.is_some() {
                let xy = XY;
                self.view = xy.view(&self.file);
            }
        }
    }
}

/// A drag across the full surface width pans the view by exactly one x
/// span: panning any valid rectangle by the pixel delta `(width, 0)`
/// yields precisely the rectangle with both x bounds shifted by the
/// span's negative and the y bounds untouched — the content follows the
/// pointer all the way across the surface.
pub proof fn lemma_full_width_pan(v: ViewRect, w: i64, h: i64)
    requires
        v.valid(),
        1 <= w,
        1 <= h,
        v.within(COORD_LIMIT as int),
        -COORD_LIMIT <= v.x_min - (v.x_max - v.x_min),
    ensures
        pan_rel(
            v,
            w,
            h,
            w as int,
            0,
            ViewRect {
                x_min: (v.x_min - (v.x_max - v.x_min)) as i64,
                x_max: v.x_min,
                y_min: v.y_min,
                y_max: v.y_max,
            },
        ),
        forall|new_v: ViewRect|
            pan_rel(v, w, h, w as int, 0, new_v) ==> new_v == (ViewRect {
                x_min: (v.x_min - (v.x_max - v.x_min)) as i64,
                x_max: v.x_min,
                y_min: v.y_min,
                y_max: v.y_max,
            }),
{
    let span = v.x_max - v.x_min;
    vstd::arithmetic::div_mod::lemma_div_multiples_vanish(span, w as int);
    assert(w as int * span == span * w) by (nonlinear_arith);
    assert(spec_pan_delta(w as int, span, w as int) == span);
    let span_y = v.y_max - v.y_min;
    assert(0 * span_y == 0) by (nonlinear_arith);
    vstd::arithmetic::div_mod::lemma_div_of0(h as int);
    assert(spec_pan_delta(0, span_y, h as int) == 0);
}

/// The full-width drag law at the viewer's surface: when a pressed
/// pointer moves exactly `width` pixels right from its reference position,
/// `mouse_moved`'s contract forces the new view to be the old one with
/// both x bounds shifted by exactly the negative x span and the y bounds
/// untouched — the content follows the pointer all the way across.
pub proof fn lemma_full_width_drag(pre: DataViewer, post: DataViewer, x: i64, y: i64)
    requires
        pre.wf(),
        pre.view.valid(),
        pre.view.within(COORD_LIMIT as int),
        -COORD_LIMIT <= pre.view.x_min - (pre.view.x_max - pre.view.x_min),
        pre.mouse_is_pressed,
        x == pre.mouse_xref + pre.width,
        y == pre.mouse_yref,
        pan_rel(
            pre.view,
            pre.width,
            pre.height,
            x - pre.mouse_xref,
            y - pre.mouse_yref,
            post.view,
        ),
    ensures
        post.view.x_min == pre.view.x_min - (pre.view.x_max - pre.view.x_min),
        post.view.x_max == pre.view.x_min,
        post.view.y_min == pre.view.y_min,
        post.view.y_max == pre.view.y_max,
{
    lemma_full_width_pan(pre.view, pre.width, pre.height);
}

/// Each entry of `missing_keys(chart.take(i), data)` is the key of some
/// chart entry before `i`.
proof fn lemma_missing_keys_from_chart(
    chart: Seq<(String, crate::dataview::Chart)>,
    data: Seq<(String, Vec<i64>)>,
    i: int,
    k: int,
)
    requires
        0 <= i <= chart.len(),
        0 <= k < missing_keys(chart.take(i), data).len(),
    ensures
        exists|q: int|
            0 <= q < i && (#[trigger] chart[q]).0@ == missing_keys(chart.take(i), data)[k],
    decreases i,
{
    if i > 0 {
        assert(chart.take(i).drop_last() =~= chart.take(i - 1));
        let prev = missing_keys(chart.take(i - 1), data);
        if k < prev.len() {
            lemma_missing_keys_from_chart(chart, data, i - 1, k);
        } else {
            assert(chart.take(i).last() == chart[i - 1]);
            assert(missing_keys(chart.take(i), data)[k] == chart[i - 1].0@);
        }
    }
}

/// The bound that makes a pan product fit the wide intermediate type.
proof fn lemma_pan_product_bounds(d: int, span: int)
    requires
        -2_000_000_000 <= d <= 2_000_000_000,
        -40_000_000_000_000_000_000 <= span <= 40_000_000_000_000_000_000,
    ensures
        -100_000_000_000_000_000_000_000_000_000 <= d * span
            <= 100_000_000_000_000_000_000_000_000_000,
{
    assert(-100_000_000_000_000_000_000_000_000_000 <= d * span
        <= 100_000_000_000_000_000_000_000_000_000) by (nonlinear_arith)
        requires
            -2_000_000_000 <= d <= 2_000_000_000,
            -40_000_000_000_000_000_000 <= span <= 40_000_000_000_000_000_000,
    ;
}

/// A quotient is no larger in magnitude than its dividend, for divisors of
/// at least one.
proof fn lemma_div_magnitude(a: int, b: int)
    requires
        b >= 1,
    ensures
        a >= 0 ==> 0 <= a / b <= a,
        a < 0 ==> a <= a / b <= 0,
{
    vstd::arithmetic::div_mod::lemma_fundamental_div_mod(a, b);
    vstd::arithmetic::div_mod::lemma_mod_bound(a, b);
    let q = a / b;
    let r = a % b;
    assert(a == b * q + r);
    if a >= 0 {
        assert(0 <= q <= a) by (nonlinear_arith)
            requires
                a == b * q + r,
                0 <= r < b,
                b >= 1,
                a >= 0,
        ;
    } else {
        assert(a <= q <= 0) by (nonlinear_arith)
            requires
                a == b * q + r,
                0 <= r < b,
                b >= 1,
                a < 0,
        ;
    }
}

/// Taking a tenth off both ends of a positive span leaves a positive span.
proof fn lemma_zoom_in_keeps_valid(lo: int, hi: int)
    requires
        lo < hi,
    ensures
        lo + (hi - lo) * 10 / 100 < hi - (hi - lo) * 10 / 100,
{
    let s = hi - lo;
    let z = s * 10 / 100;
    vstd::arithmetic::div_mod::lemma_fundamental_div_mod(s * 10, 100);
    vstd::arithmetic::div_mod::lemma_mod_bound(s * 10, 100);
    assert(2 * z < s) by (nonlinear_arith)
        requires
            s * 10 == 100 * z + (s * 10) % 100,
            0 <= (s * 10) % 100 < 100,
            s >= 1,
    ;
}

/// After appending one whole update entry, the per-series append relation
/// advances one step.
proof fn lemma_appended_from_step(
    update: Seq<(String, Vec<i64>)>,
    orig: Seq<(String, Vec<i64>)>,
    now: Seq<(String, Vec<i64>)>,
    pre: Seq<(String, Vec<i64>)>,
    k: int,
    idx: int,
)
    requires
        0 <= k < update.len(),
        0 <= idx < pre.len(),
        pre.len() == orig.len(),
        now.len() == pre.len(),
        unique_keys(orig),
        now == pre.update(idx, (pre[idx].0, now[idx].1)),
        now[idx].0 == pre[idx].0,
        now[idx].1@ == pre[idx].1@ + update[k].1@,
        pre[idx].0@ == update[k].0@,
        forall|j: int|
            0 <= j < orig.len() ==> {
                &&& (#[trigger] pre[j]).0 == orig[j].0
                &&& pre[j].1@ == orig[j].1@ + appended_from(update, orig[j].0@, k)
            },
    ensures
        forall|j: int|
            0 <= j < orig.len() ==> {
                &&& (#[trigger] now[j]).0 == orig[j].0
                &&& now[j].1@ == orig[j].1@ + appended_from(update, orig[j].0@, k + 1)
            },
{
    assert forall|j: int| 0 <= j < orig.len() implies {
        &&& (#[trigger] now[j]).0 == orig[j].0
        &&& now[j].1@ == orig[j].1@ + appended_from(update, orig[j].0@, k + 1)
    } by {
        if j == idx {
            assert(update[k].0@ == orig[j].0@);
            assert(appended_from(update, orig[j].0@, k + 1) =~= appended_from(
                update,
                orig[j].0@,
                k,
            ) + update[k].1@);
            assert(now[j].1@ =~= orig[j].1@ + appended_from(update, orig[j].0@, k + 1));
        } else {
            assert(now[j] == pre[j]);
            assert(orig[j].0@ != orig[idx].0@);
            assert(update[k].0@ != orig[j].0@);
            assert(appended_from(update, orig[j].0@, k + 1) =~= appended_from(
                update,
                orig[j].0@,
                k,
            ));
        }
    }
}

} // verus!
