//! The XY chart strategy: autoscaled view computation, polyline and marker
//! rendering per series, and the nearest-point tooltip hit test.

use vstd::prelude::*;
use crate::canvas::{
    models, spec_axis_cmds, spec_nth_color, spec_palette1_colors, spec_tooltip_cmds,
    spec_x_pixel, spec_y_pixel, Canvas, CmdModel, Color, Palette, Tooltip,
};
use crate::chart::{is_computed_view, pairs, pairs_of, ViewRect};
use crate::dataview::File;
use crate::num::{DATA_LIMIT, PIXEL_LIMIT, VIEW_LIMIT};

verus! {

/// The XY strategy: one polyline with point markers per series.
#[derive(Clone, Copy, Debug)]
pub struct XY;

/// Squared distance between two pixel positions.
pub open spec fn spec_sq_dist(x1: int, y1: int, x2: int, y2: int) -> int {
    (x2 - x1) * (x2 - x1) + (y2 - y1) * (y2 - y1)
}

/// Squared pixel distance between two positions inside the pixel window.
pub fn squaredistance(x1: i64, y1: i64, x2: i64, y2: i64) -> (r: i64)
    requires
        -PIXEL_LIMIT <= x1 <= PIXEL_LIMIT,
        -PIXEL_LIMIT <= y1 <= PIXEL_LIMIT,
        -PIXEL_LIMIT <= x2 <= PIXEL_LIMIT,
        -PIXEL_LIMIT <= y2 <= PIXEL_LIMIT,
    ensures
        r == spec_sq_dist(x1 as int, y1 as int, x2 as int, y2 as int),
        r >= 0,
{
    let x_dt = x2 - x1;
    let y_dt = y2 - y1;
    proof {
        assert(0 <= x_dt * x_dt <= 4_000_000_000_000_000_000 && 0 <= y_dt * y_dt
            <= 4_000_000_000_000_000_000) by (nonlinear_arith)
            requires
                -2_000_000_000 <= x_dt <= 2_000_000_000,
                -2_000_000_000 <= y_dt <= 2_000_000_000,
        ;
    }
    (y_dt * y_dt) + (x_dt * x_dt)
}

/// A tooltip candidate: one plotted sample of a drawn series, with its
/// pixel position.
pub struct Cand {
    pub key: Seq<char>,
    pub x: i64,
    pub y: i64,
    pub px: int,
    pub py: int,
}

/// The candidates contributed by one series: every one of its paired
/// points.
pub open spec fn series_cands(
    key: Seq<char>,
    pts: Seq<(i64, i64)>,
    view: ViewRect,
    w: i64,
    h: i64,
) -> Seq<Cand> {
    Seq::new(
        pts.len(),
        |i: int|
            Cand {
                key,
                x: pts[i].0,
                y: pts[i].1,
                px: spec_x_pixel(view, w, pts[i].0),
                py: spec_y_pixel(view, h, pts[i].1),
            },
    )
}

/// All tooltip candidates of a document: the points of every series that
/// is drawn (at least two paired points), in series and point order.
pub open spec fn spec_cands(
    data: Seq<(String, Vec<i64>)>,
    view: ViewRect,
    w: i64,
    h: i64,
) -> Seq<Cand>
    decreases data.len(),
{
    if data.len() == 0 {
        Seq::empty()
    } else {
        spec_cands(data.drop_last(), view, w, h) + (if pairs_of(data.last().1@).len() >= 2 {
            series_cands(data.last().0@, pairs_of(data.last().1@), view, w, h)
        } else {
            Seq::empty()
        })
    }
}

/// Squared pixel distance of a candidate from the pointer.
pub open spec fn cand_dist(c: Cand, mx: int, my: int) -> int {
    spec_sq_dist(c.px, c.py, mx, my)
}

/// The selected tooltip candidate: scanning left to right, a candidate
/// replaces the current best exactly when its distance is strictly below
/// the best so far, starting from the 200 px² threshold. Ties keep the
/// earlier candidate; nothing at 200 px² or farther is ever selected.
pub open spec fn spec_best(cands: Seq<Cand>, mx: int, my: int) -> Option<Cand>
    decreases cands.len(),
{
    if cands.len() == 0 {
        None
    } else {
        let prev = spec_best(cands.drop_last(), mx, my);
        let c = cands.last();
        let limit = match prev {
            None => 200,
            Some(p) => cand_dist(p, mx, my),
        };
        if cand_dist(c, mx, my) < limit {
            Some(c)
        } else {
            prev
        }
    }
}

/// The tooltip value reports exactly the selected candidate.
pub open spec fn tooltip_matches(t: Option<Tooltip>, c: Option<Cand>) -> bool {
    match (t, c) {
        (None, None) => true,
        (Some(t), Some(c)) => t.key@ == c.key && t.x == c.x && t.y == c.y && t.xpixel == c.px
            && t.ypixel == c.py,
        _ => false,
    }
}

/// The commands of the markers and line segments from the second point on.
pub open spec fn spec_segs(pts: Seq<(i64, i64)>, view: ViewRect, w: i64, h: i64, n: int) -> Seq<
    CmdModel,
>
    decreases n,
{
    if n <= 1 {
        Seq::empty()
    } else {
        spec_segs(pts, view, w, h, n - 1) + seq![
            CmdModel::LineTo(
                spec_x_pixel(view, w, pts[n - 1].0),
                spec_y_pixel(view, h, pts[n - 1].1),
            ),
            CmdModel::Circle(
                spec_x_pixel(view, w, pts[n - 1].0),
                spec_y_pixel(view, h, pts[n - 1].1),
                2,
            ),
        ]
    }
}

/// Everything one series draws: nothing with fewer than two paired points,
/// else its color, a marker at the first point, and a segment and marker
/// per following point.
pub open spec fn spec_polyline_cmds(
    pts: Seq<(i64, i64)>,
    color: Color,
    view: ViewRect,
    w: i64,
    h: i64,
) -> Seq<CmdModel> {
    if pts.len() < 2 {
        Seq::empty()
    } else {
        seq![
            CmdModel::SetColor(color),
            CmdModel::MoveTo(
                spec_x_pixel(view, w, pts[0].0),
                spec_y_pixel(view, h, pts[0].1),
            ),
            CmdModel::Circle(
                spec_x_pixel(view, w, pts[0].0),
                spec_y_pixel(view, h, pts[0].1),
                2,
            ),
        ] + spec_segs(pts, view, w, h, pts.len() as int) + seq![CmdModel::Stroke]
    }
}

/// The color the palette assigns to the `t`-th series of a pass.
pub open spec fn spec_series_color(t: int) -> Color {
    Color::spec_rgb(spec_nth_color(spec_palette1_colors(), t))
}

/// Everything the first `j` series draw, in order.
pub open spec fn spec_series_draw(
    data: Seq<(String, Vec<i64>)>,
    view: ViewRect,
    w: i64,
    h: i64,
    j: int,
) -> Seq<CmdModel>
    decreases j,
{
    if j <= 0 {
        Seq::empty()
    } else {
        spec_series_draw(data, view, w, h, j - 1) + spec_polyline_cmds(
            pairs_of(data[j - 1].1@),
            spec_series_color(j - 1),
            view,
            w,
            h,
        )
    }
}

impl XY {
    /// The autoscale pipeline: tight bounding box, degenerate-data guard,
    /// origin inclusion, margins.
    pub fn view(&self, file: &File) -> (r: ViewRect)
        requires
            file.wf(),
        ensures
            is_computed_view(*file, r),
            r.valid(),
            r.within(VIEW_LIMIT as int),
    {
        let bb = ViewRect::xy_minmax(file);
        let s = bb.sanity_check(file);
        let a = s.show_axis();
        proof {
            assert(s.within(DATA_LIMIT as int));
            assert(a.valid());
            assert(a.within(DATA_LIMIT as int));
        }
        let m = a.margin();
        proof {
            let sx = a.x_max - a.x_min;
            let sy = a.y_max - a.y_min;
            vstd::arithmetic::div_mod::lemma_div_pos_is_pos(sx * 7, 100);
            vstd::arithmetic::div_mod::lemma_div_pos_is_pos(sy * 7, 100);
            vstd::arithmetic::div_mod::lemma_div_is_ordered(
                sx * 7,
                14 * DATA_LIMIT,
                100,
            );
            vstd::arithmetic::div_mod::lemma_div_is_ordered(
                sy * 7,
                14 * DATA_LIMIT,
                100,
            );
            assert(is_computed_view(*file, m));
        }
        m
    }

    /// Draw axes, every series as a colored polyline with markers, and —
    /// when a plotted point lies strictly within the 200 px² threshold of
    /// the pointer — the tooltip of the nearest such point (the earliest on
    /// a tie). Every series consumes a palette color, drawn or not.
    pub fn draw(&self, canvas: &mut Canvas, file: &File) -> (tooltip: Option<Tooltip>)
        requires
            old(canvas).wf(),
            file.wf(),
        ensures
            old(canvas).same_surface(*final(canvas)),
            tooltip_matches(
                tooltip,
                spec_best(
                    spec_cands(
                        file.data@,
                        old(canvas).view,
                        old(canvas).width,
                        old(canvas).height,
                    ),
                    old(canvas).mouse_x as int,
                    old(canvas).mouse_y as int,
                ),
            ),
            models(final(canvas).cmds@) == models(old(canvas).cmds@) + spec_axis_cmds(
                old(canvas).view,
                old(canvas).width,
                old(canvas).height,
            ) + spec_series_draw(
                file.data@,
                old(canvas).view,
                old(canvas).width,
                old(canvas).height,
                file.data@.len() as int,
            ) + (match tooltip {
                None => Seq::empty(),
                Some(t) => spec_tooltip_cmds(*file, t),
            }),
    {
        let ghost orig = *old(canvas);
        let ghost view = canvas.view;
        let ghost w = canvas.width;
        let ghost h = canvas.height;
        let ghost mx = canvas.mouse_x as int;
        let ghost my = canvas.mouse_y as int;
        let ghost base = models(canvas.cmds@);
        let mut best: Option<Tooltip> = None;
        let mut best_dist: i64 = 200;
        canvas.draw_axis();
        let ghost with_axis = base + spec_axis_cmds(view, w, h);

        let mut palette = Palette::palette1();
        let mut j: usize = 0;
        while j < file.data.len()
            invariant
                j <= file.data@.len(),
                file.wf(),
                canvas.wf(),
                orig.same_surface(*canvas),
                view == canvas.view,
                w == canvas.width,
                h == canvas.height,
                mx == canvas.mouse_x as int,
                my == canvas.mouse_y as int,
                palette.colors@ == spec_palette1_colors(),
                palette.wf(),
                palette.current as int % 9 == j as int % 9,
                models(canvas.cmds@) =~= with_axis + spec_series_draw(
                    file.data@,
                    view,
                    w,
                    h,
                    j as int,
                ),
                tooltip_matches(
                    best,
                    spec_best(spec_cands(file.data@.take(j as int), view, w, h), mx, my),
                ),
                best_dist == match spec_best(
                    spec_cands(file.data@.take(j as int), view, w, h),
                    mx,
                    my,
                ) {
                    None => 200,
                    Some(c) => cand_dist(c, mx, my),
                },
                match best {
                    None => true,
                    Some(t) => {
                        &&& -PIXEL_LIMIT <= t.xpixel <= PIXEL_LIMIT
                        &&& -PIXEL_LIMIT <= t.ypixel <= PIXEL_LIMIT
                        &&& -DATA_LIMIT <= t.x <= DATA_LIMIT
                        &&& -DATA_LIMIT <= t.y <= DATA_LIMIT
                    },
                },
            decreases file.data@.len() - j,
        {
            let ghost cands_before = spec_cands(file.data@.take(j as int), view, w, h);
            let key = &file.data[j].0;
            let vals = &file.data[j].1;
            let color = palette.next();
            proof {
                // the cursor keeps pace with the series index, modulo the
                // palette size
                vstd::arithmetic::div_mod::lemma_fundamental_div_mod(j as int, 9);
                vstd::arithmetic::div_mod::lemma_mod_bound(j as int, 9);
                vstd::arithmetic::div_mod::lemma_mod_multiples_vanish(
                    j as int / 9,
                    j as int % 9 + 1,
                    9,
                );
                assert(color == spec_series_color(j as int));
                vstd::arithmetic::div_mod::lemma_fundamental_div_mod(j as int + 1, 9);
                vstd::arithmetic::div_mod::lemma_mod_bound(j as int + 1, 9);
                vstd::arithmetic::div_mod::lemma_mod_multiples_vanish(
                    (j as int + 1) / 9,
                    (j as int + 1) % 9,
                    9,
                );
                assert((j as int % 9 + 1) % 9 == (j as int + 1) % 9);
            }
            let pts = pairs(vals);
            proof {
                assert(file.data@.take(j + 1).drop_last() =~= file.data@.take(j as int));
                assert(file.data@.take(j + 1).last() == file.data@[j as int]);
                assert(crate::dataview::values_in_range(file.data@[j as int].1@));
            }
            if pts.len() < 2 {
                proof {
                    assert(spec_cands(file.data@.take(j + 1), view, w, h) =~= cands_before);
                    assert(spec_series_draw(file.data@, view, w, h, j + 1) =~= spec_series_draw(
                        file.data@,
                        view,
                        w,
                        h,
                        j as int,
                    ));
                }
                j += 1;
                continue ;
            }
            let ghost this_cands = series_cands(key@, pts@, view, w, h);
            canvas.set_color(&color);
            let x0 = pts[0].0;
            let y0 = pts[0].1;
            canvas.move_to(x0, y0);
            let p0 = canvas.circle(x0, y0, 2);
            let d0 = squaredistance(p0.0, p0.1, canvas.mouse_x, canvas.mouse_y);
            if d0 < best_dist {
                best = Some(Tooltip { key: key.clone(), x: x0, y: y0, xpixel: p0.0, ypixel: p0.1 });
                best_dist = d0;
            }
            proof {
                assert((cands_before + this_cands.take(1)) =~= cands_before.push(this_cands[0]));
                assert((cands_before + this_cands.take(1)).drop_last() =~= cands_before);
            }
            let mut i: usize = 1;
            while i < pts.len()
                invariant
                    1 <= i <= pts@.len(),
                    pts@.len() >= 2,
                    file.wf(),
                    canvas.wf(),
                    orig.same_surface(*canvas),
                    view == canvas.view,
                    w == canvas.width,
                    h == canvas.height,
                    mx == canvas.mouse_x as int,
                    my == canvas.mouse_y as int,
                    j < file.data@.len(),
                    key@ == file.data@[j as int].0@,
                    pts@ == pairs_of(file.data@[j as int].1@),
                    this_cands == series_cands(key@, pts@, view, w, h),
                    cands_before == spec_cands(file.data@.take(j as int), view, w, h),
                    forall|q: int|
                        0 <= q < pts@.len() ==> {
                            &&& -DATA_LIMIT <= (#[trigger] pts@[q]).0 <= DATA_LIMIT
                            &&& -DATA_LIMIT <= pts@[q].1 <= DATA_LIMIT
                        },
                    models(canvas.cmds@) =~= with_axis + spec_series_draw(
                        file.data@,
                        view,
                        w,
                        h,
                        j as int,
                    ) + seq![
                        CmdModel::SetColor(spec_series_color(j as int)),
                        CmdModel::MoveTo(
                            spec_x_pixel(view, w, pts@[0].0),
                            spec_y_pixel(view, h, pts@[0].1),
                        ),
                        CmdModel::Circle(
                            spec_x_pixel(view, w, pts@[0].0),
                            spec_y_pixel(view, h, pts@[0].1),
                            2,
                        ),
                    ] + spec_segs(pts@, view, w, h, i as int),
                    tooltip_matches(
                        best,
                        spec_best(cands_before + this_cands.take(i as int), mx, my),
                    ),
                    best_dist == match spec_best(
                        cands_before + this_cands.take(i as int),
                        mx,
                        my,
                    ) {
                        None => 200,
                        Some(c) => cand_dist(c, mx, my),
                    },
                    match best {
                        None => true,
                        Some(t) => {
                            &&& -PIXEL_LIMIT <= t.xpixel <= PIXEL_LIMIT
                            &&& -PIXEL_LIMIT <= t.ypixel <= PIXEL_LIMIT
                            &&& -DATA_LIMIT <= t.x <= DATA_LIMIT
                            &&& -DATA_LIMIT <= t.y <= DATA_LIMIT
                        },
                    },
                decreases pts@.len() - i,
            {
                let x = pts[i].0;
                let y = pts[i].1;
                let p = canvas.line_to(x, y);
                canvas.circle(x, y, 2);
                let d = squaredistance(p.0, p.1, canvas.mouse_x, canvas.mouse_y);
                proof {
                    assert((cands_before + this_cands.take(i + 1)) =~= (cands_before
                        + this_cands.take(i as int)).push(this_cands[i as int]));
                    assert((cands_before + this_cands.take(i + 1)).drop_last() =~= (cands_before
                        + this_cands.take(i as int)));
                    assert(spec_segs(pts@, view, w, h, i + 1) =~= spec_segs(
                        pts@,
                        view,
                        w,
                        h,
                        i as int,
                    ) + seq![
                        CmdModel::LineTo(
                            spec_x_pixel(view, w, pts@[i as int].0),
                            spec_y_pixel(view, h, pts@[i as int].1),
                        ),
                        CmdModel::Circle(
                            spec_x_pixel(view, w, pts@[i as int].0),
                            spec_y_pixel(view, h, pts@[i as int].1),
                            2,
                        ),
                    ]);
                }
                if d < best_dist {
                    best = Some(
                        Tooltip { key: key.clone(), x, y, xpixel: p.0, ypixel: p.1 },
                    );
                    best_dist = d;
                }
                i += 1;
            }
            canvas.stroke();
            proof {
                assert(this_cands.take(pts@.len() as int) =~= this_cands);
                assert(spec_cands(file.data@.take(j + 1), view, w, h) =~= cands_before
                    + this_cands);
                assert(spec_segs(pts@, view, w, h, pts@.len() as int) == spec_segs(
                    pts@,
                    view,
                    w,
                    h,
                    pts@.len() as int,
                ));
                assert(models(canvas.cmds@) =~= with_axis + spec_series_draw(
                    file.data@,
                    view,
                    w,
                    h,
                    j + 1,
                ));
            }
            j += 1;
        }
        proof {
            assert(file.data@.take(file.data@.len() as int) =~= file.data@);
        }
        if let Some(t) = &best {
            canvas.draw_tooltip(file, t);
        }
        best
    }
}

impl crate::chart::Chart for XY {
    fn view(&self, file: &File) -> (r: ViewRect) {
        XY::view(self, file)
    }

    fn draw(&self, canvas: &mut Canvas, file: &File) -> (tooltip: Option<Tooltip>) {
        let t = XY::draw(self, canvas, file);
        proof {
            assert(models(canvas.cmds@).take(old(canvas).cmds@.len() as int) =~= models(
                old(canvas).cmds@,
            ));
        }
        t
    }
}

} // verus!
