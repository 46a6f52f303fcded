//! The view rectangle: the window of data space mapped onto the surface,
//! and the autoscale pipeline that computes it from a document.
//!
//! The pipeline is `xy_minmax` (tight bounding rectangle of every paired
//! point) followed by `sanity_check` (degenerate data falls back to a fixed
//! rectangle), `show_axis` (extend so both axis lines are inside) and
//! `margin` (7% symmetric padding on each axis).

use vstd::prelude::*;
use crate::dataview::File;
use crate::num::{div_floor, COORD_LIMIT, DATA_LIMIT, SCALE};

verus! {

/// A rectangle in data space. It is `valid` when both spans are positive.
#[derive(Clone, Copy, PartialEq, Eq, Structural, Debug)]
pub struct ViewRect {
    pub x_min: i64,
    pub x_max: i64,
    pub y_min: i64,
    pub y_max: i64,
}

/// The pairs `(vals[0], vals[1]), (vals[2], vals[3]), ...` of a series; an
/// odd trailing value is dropped.
pub open spec fn pairs_of(vals: Seq<i64>) -> Seq<(i64, i64)> {
    Seq::new((vals.len() / 2) as nat, |i: int| (vals[2 * i], vals[2 * i + 1]))
}

/// All paired points of a document's series, in series order.
pub open spec fn flat_pairs(data: Seq<(String, Vec<i64>)>) -> Seq<(i64, i64)>
    decreases data.len(),
{
    if data.len() == 0 {
        Seq::empty()
    } else {
        flat_pairs(data.drop_last()) + pairs_of(data.last().1@)
    }
}

/// `v` is the tight bounding rectangle of the points `ps`; with no points it
/// is the empty (inverted) rectangle.
pub open spec fn bbox_of_points(ps: Seq<(i64, i64)>, v: ViewRect) -> bool {
    if ps.len() == 0 {
        v == ViewRect::spec_empty()
    } else {
        &&& forall|k: int|
            0 <= k < ps.len() ==> {
                &&& v.x_min <= (#[trigger] ps[k]).0 <= v.x_max
                &&& v.y_min <= ps[k].1 <= v.y_max
            }
        &&& exists|k: int| 0 <= k < ps.len() && (#[trigger] ps[k]).0 == v.x_min
        &&& exists|k: int| 0 <= k < ps.len() && (#[trigger] ps[k]).0 == v.x_max
        &&& exists|k: int| 0 <= k < ps.len() && (#[trigger] ps[k]).1 == v.y_min
        &&& exists|k: int| 0 <= k < ps.len() && (#[trigger] ps[k]).1 == v.y_max
    }
}

/// `v` is the tight bounding rectangle of every paired point of `data`.
pub open spec fn is_bbox(data: Seq<(String, Vec<i64>)>, v: ViewRect) -> bool {
    bbox_of_points(flat_pairs(data), v)
}

/// The degenerate-data guard: fewer than two usable points falls back to
/// the fixed rectangle, as does a rectangle that would still have a zero
/// or inverted span after origin inclusion — a series constant on one
/// axis keeps its tight rectangle, since pulling in zero gives that axis
/// its span back; only an axis constant at exactly zero cannot be
/// rescued, and there the fallback contains the points.
pub open spec fn spec_sanity(v: ViewRect, n_points: int) -> ViewRect {
    if n_points < 2 || !v.spec_show_axis().valid() {
        ViewRect::spec_fallback()
    } else {
        v
    }
}

/// Size of the symmetric x-axis margin: 7% of the span.
pub open spec fn spec_margin_x(a: ViewRect) -> int {
    (a.x_max - a.x_min) * 7 / 100
}

/// Size of the symmetric y-axis margin: 7% of the span.
pub open spec fn spec_margin_y(a: ViewRect) -> int {
    (a.y_max - a.y_min) * 7 / 100
}

/// `r` is `a` padded by 7% of the span on each side of each axis.
pub open spec fn margin_rel(a: ViewRect, r: ViewRect) -> bool {
    &&& r.x_min == a.x_min - spec_margin_x(a)
    &&& r.x_max == a.x_max + spec_margin_x(a)
    &&& r.y_min == a.y_min - spec_margin_y(a)
    &&& r.y_max == a.y_max + spec_margin_y(a)
}

/// `r` is the view the autoscale pipeline computes for `file`.
pub open spec fn is_computed_view(file: File, r: ViewRect) -> bool {
    exists|bb: ViewRect|
        #[trigger] is_bbox(file.data@, bb) && margin_rel(
            spec_sanity(bb, flat_pairs(file.data@).len() as int).spec_show_axis(),
            r,
        )
}

/// Autoscale containment: when at least two usable points exist and their
/// tight bounding rectangle has positive spans once the origin is pulled
/// in, the computed view keeps every paired point inside it, and zero on
/// both axes, so both axis lines are drawable. (An axis whose every value
/// is exactly zero gains no span from the origin; such data takes the
/// fixed fallback instead, which the hypothesis leaves out.)
pub proof fn lemma_view_contains_points(file: File, bb: ViewRect, r: ViewRect)
    requires
        is_bbox(file.data@, bb),
        flat_pairs(file.data@).len() >= 2,
        bb.spec_show_axis().valid(),
        margin_rel(
            spec_sanity(bb, flat_pairs(file.data@).len() as int).spec_show_axis(),
            r,
        ),
    ensures
        forall|k: int|
            0 <= k < flat_pairs(file.data@).len() ==> {
                &&& r.x_min <= (#[trigger] flat_pairs(file.data@)[k]).0 <= r.x_max
                &&& r.y_min <= flat_pairs(file.data@)[k].1 <= r.y_max
            },
        r.x_min <= 0 <= r.x_max,
        r.y_min <= 0 <= r.y_max,
{
    let a = bb.spec_show_axis();
    vstd::arithmetic::div_mod::lemma_div_pos_is_pos((a.x_max - a.x_min) * 7, 100);
    vstd::arithmetic::div_mod::lemma_div_pos_is_pos((a.y_max - a.y_min) * 7, 100);
    assert(spec_margin_x(a) >= 0);
    assert(spec_margin_y(a) >= 0);
}

proof fn lemma_flat_pairs_snoc(data: Seq<(String, Vec<i64>)>, j: int)
    requires
        0 <= j < data.len(),
    ensures
        flat_pairs(data.take(j + 1)) == flat_pairs(data.take(j)) + pairs_of(data[j].1@),
{
    assert(data.take(j + 1).drop_last() =~= data.take(j));
    assert(data.take(j + 1).last() == data[j]);
}

/// Every paired point of `data` collected into one list, in series order.
fn all_points(file: &File) -> (r: Vec<(i64, i64)>)
    ensures
        r@ == flat_pairs(file.data@),
        file.wf() ==> forall|k: int|
            0 <= k < r@.len() ==> {
                &&& -DATA_LIMIT <= (#[trigger] r@[k]).0 <= DATA_LIMIT
                &&& -DATA_LIMIT <= r@[k].1 <= DATA_LIMIT
            },
{
    let mut r: Vec<(i64, i64)> = Vec::new();
    let mut j: usize = 0;
    while j < file.data.len()
        invariant
            j <= file.data@.len(),
            r@ == flat_pairs(file.data@.take(j as int)),
            file.wf() ==> forall|k: int|
                0 <= k < r@.len() ==> {
                    &&& -DATA_LIMIT <= (#[trigger] r@[k]).0 <= DATA_LIMIT
                    &&& -DATA_LIMIT <= r@[k].1 <= DATA_LIMIT
                },
        decreases file.data@.len() - j,
    {
        let vals = &file.data[j].1;
        let m = vals.len() / 2;
        let mut i: usize = 0;
        while i < m
            invariant
                m == vals@.len() / 2,
                vals@.len() <= usize::MAX,
                i <= m,
                vals@ == file.data@[j as int].1@,
                j < file.data@.len(),
                r@ == flat_pairs(file.data@.take(j as int)) + pairs_of(vals@).take(i as int),
                file.wf() ==> forall|k: int|
                    0 <= k < r@.len() ==> {
                        &&& -DATA_LIMIT <= (#[trigger] r@[k]).0 <= DATA_LIMIT
                        &&& -DATA_LIMIT <= r@[k].1 <= DATA_LIMIT
                    },
            decreases m - i,
        {
            proof {
                assert(2 * (vals@.len() / 2) <= vals@.len());
            }
            let x = vals[2 * i];
            let y = vals[2 * i + 1];
            r.push((x, y));
            proof {
                assert(pairs_of(vals@).take(i + 1) =~= pairs_of(vals@).take(i as int).push(
                    (x, y),
                ));
                if file.wf() {
                    assert(crate::dataview::values_in_range(file.data@[j as int].1@));
                    assert(vals@[2 * i] == x && vals@[2 * i + 1] == y);
                }
            }
            i += 1;
        }
        proof {
            lemma_flat_pairs_snoc(file.data@, j as int);
            assert(pairs_of(vals@).take(m as int) =~= pairs_of(vals@));
        }
        j += 1;
    }
    proof {
        assert(file.data@.take(file.data@.len() as int) =~= file.data@);
    }
    r
}

/// A chart drawing strategy: it computes a view for a document and renders
/// the document onto a canvas. Only the XY strategy exists; the interface
/// leaves room for further ones.
pub trait Chart {
    /// The autoscaled view for a document.
    fn view(&self, file: &File) -> (r: ViewRect)
        requires
            file.wf(),
        ensures
            is_computed_view(*file, r),
            r.valid(),
            r.within(crate::num::VIEW_LIMIT as int),
    ;

    /// Render the document: commands are only appended to the canvas, and
    /// the strategy may hand back a tooltip for the pointer position.
    fn draw(&self, canvas: &mut crate::canvas::Canvas, file: &File) -> (tooltip: Option<
        crate::canvas::Tooltip,
    >)
        requires
            old(canvas).wf(),
            file.wf(),
        ensures
            old(canvas).same_surface(*final(canvas)),
            crate::canvas::models(final(canvas).cmds@).take(old(canvas).cmds@.len() as int)
                == crate::canvas::models(old(canvas).cmds@),
    ;
}

/// The paired points of one series.
pub fn pairs(vals: &Vec<i64>) -> (r: Vec<(i64, i64)>)
    ensures
        r@ == pairs_of(vals@),
{
    let mut r: Vec<(i64, i64)> = Vec::new();
    let m = vals.len() / 2;
    let mut i: usize = 0;
    while i < m
        invariant
            m == vals@.len() / 2,
            vals@.len() <= usize::MAX,
            i <= m,
            r@ == pairs_of(vals@).take(i as int),
        decreases m - i,
    {
        proof {
            assert(2 * (vals@.len() / 2) <= vals@.len());
        }
        let x = vals[2 * i];
        let y = vals[2 * i + 1];
        r.push((x, y));
        proof {
            assert(pairs_of(vals@).take(i + 1) =~= pairs_of(vals@).take(i as int).push((x, y)));
        }
        i += 1;
    }
    proof {
        assert(pairs_of(vals@).take(m as int) =~= pairs_of(vals@));
    }
    r
}

impl ViewRect {
    /// Both spans are positive, so the rectangle can be mapped to pixels.
    pub open spec fn valid(self) -> bool {
        self.x_min < self.x_max && self.y_min < self.y_max
    }

    /// Every bound lies within `limit` of zero.
    pub open spec fn within(self, limit: int) -> bool {
        &&& -limit <= self.x_min <= limit
        &&& -limit <= self.x_max <= limit
        &&& -limit <= self.y_min <= limit
        &&& -limit <= self.y_max <= limit
    }

    /// The empty rectangle: the identity of the bounding-box scan.
    pub open spec fn spec_empty() -> ViewRect {
        ViewRect { x_min: i64::MAX, x_max: i64::MIN, y_min: i64::MAX, y_max: i64::MIN }
    }

    /// The fixed fallback rectangle `[-1, 1] x [-1, 1]` in data units.
    pub open spec fn spec_fallback() -> ViewRect {
        ViewRect { x_min: (-SCALE) as i64, x_max: SCALE, y_min: (-SCALE) as i64, y_max: SCALE }
    }

    /// The rectangle extended toward zero on each axis, so both axis lines
    /// fall inside it.
    pub open spec fn spec_show_axis(self) -> ViewRect {
        ViewRect {
            x_min: if self.x_min > 0 {
                0
            } else {
                self.x_min
            },
            x_max: if self.x_max < 0 {
                0
            } else {
                self.x_max
            },
            y_min: if self.y_min > 0 {
                0
            } else {
                self.y_min
            },
            y_max: if self.y_max < 0 {
                0
            } else {
                self.y_max
            },
        }
    }

    pub fn new() -> (r: Self)
        ensures
            r == ViewRect::spec_empty(),
    {
        ViewRect { x_min: i64::MAX, x_max: i64::MIN, y_min: i64::MAX, y_max: i64::MIN }
    }

    pub fn fallback() -> (r: Self)
        ensures
            r == ViewRect::spec_fallback(),
    {
        ViewRect { x_min: -SCALE, x_max: SCALE, y_min: -SCALE, y_max: SCALE }
    }

    pub fn is_valid(&self) -> (r: bool)
        ensures
            r == self.valid(),
    {
        self.x_min < self.x_max && self.y_min < self.y_max
    }

    /// The tight bounding rectangle of every paired point of the document.
    pub fn xy_minmax(file: &File) -> (r: Self)
        ensures
            is_bbox(file.data@, r),
            file.wf() && flat_pairs(file.data@).len() > 0 ==> r.within(DATA_LIMIT as int),
    {
        let pts = all_points(file);
        let mut v = ViewRect::new();
        let mut k: usize = 0;
        while k < pts.len()
            invariant
                k <= pts@.len(),
                bbox_of_points(pts@.take(k as int), v),
                file.wf() && k > 0 ==> v.within(DATA_LIMIT as int),
                pts@ == flat_pairs(file.data@),
                file.wf() ==> forall|q: int|
                    0 <= q < pts@.len() ==> {
                        &&& -DATA_LIMIT <= (#[trigger] pts@[q]).0 <= DATA_LIMIT
                        &&& -DATA_LIMIT <= pts@[q].1 <= DATA_LIMIT
                    },
            decreases pts@.len() - k,
        {
            let (x, y) = pts[k];
            let ghost old_v = v;
            if x < v.x_min {
                v.x_min = x;
            }
            if x > v.x_max {
                v.x_max = x;
            }
            if y < v.y_min {
                v.y_min = y;
            }
            if y > v.y_max {
                v.y_max = y;
            }
            proof {
                let t = pts@.take(k + 1);
                assert(t[k as int] == pts@[k as int]);
                assert(forall|q: int| 0 <= q < k ==> t[q] == pts@.take(k as int)[q]);
                if pts@.take(k as int).len() == 0 {
                    assert(t.len() == 1);
                    assert(t[0] == (x, y));
                } else {
                    assert(exists|q: int|
                        0 <= q < k && (#[trigger] pts@.take(k as int)[q]).0 == old_v.x_min);
                    assert(exists|q: int|
                        0 <= q < k && (#[trigger] pts@.take(k as int)[q]).0 == old_v.x_max);
                    assert(exists|q: int|
                        0 <= q < k && (#[trigger] pts@.take(k as int)[q]).1 == old_v.y_min);
                    assert(exists|q: int|
                        0 <= q < k && (#[trigger] pts@.take(k as int)[q]).1 == old_v.y_max);
                }
                assert(bbox_of_points(t, v));
            }
            k += 1;
        }
        proof {
            assert(pts@.take(pts@.len() as int) =~= pts@);
        }
        v
    }

    /// Replace a rectangle computed from degenerate data by the fixed
    /// fallback: fewer than two usable points, or a span that stays zero
    /// even once the origin is pulled in.
    pub fn sanity_check(&self, file: &File) -> (r: Self)
        ensures
            r == spec_sanity(*self, flat_pairs(file.data@).len() as int),
    {
        let pts = all_points(file);
        if pts.len() < 2 || !self.show_axis().is_valid() {
            ViewRect::fallback()
        } else {
            *self
        }
    }

    /// Extend the rectangle so zero is inside `[min, max]` on both axes.
    pub fn show_axis(&self) -> (r: Self)
        ensures
            r == self.spec_show_axis(),
    {
        let mut new = *self;
        if new.x_min > 0 {
            new.x_min = 0;
        }
        if new.x_max < 0 {
            new.x_max = 0;
        }
        if new.y_min > 0 {
            new.y_min = 0;
        }
        if new.y_max < 0 {
            new.y_max = 0;
        }
        new
    }

    /// Pad each axis symmetrically by 7% of its span.
    pub fn margin(&self) -> (r: Self)
        requires
            self.within(COORD_LIMIT as int),
        ensures
            margin_rel(*self, r),
    {
        let xr = self.x_max as i128 - self.x_min as i128;
        let yr = self.y_max as i128 - self.y_min as i128;
        let mx = div_floor(xr * 7, 100);
        let my = div_floor(yr * 7, 100);
        proof {
            vstd::arithmetic::div_mod::lemma_fundamental_div_mod(xr * 7, 100);
            vstd::arithmetic::div_mod::lemma_fundamental_div_mod(yr * 7, 100);
        }
        ViewRect {
            x_min: self.x_min - mx as i64,
            x_max: self.x_max + mx as i64,
            y_min: self.y_min - my as i64,
            y_max: self.y_max + my as i64,
        }
    }
}

} // verus!
