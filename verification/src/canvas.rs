//! The drawing surface model: the data-to-pixel transform, colors and the
//! cyclic palette, and the draw-command buffer that a paint backend replays.
//!
//! Pixel space has its origin at the top-left corner; the y axis is flipped
//! with respect to data space. Pixel coordinates are whole pixels, clamped
//! into `[-PIXEL_LIMIT, PIXEL_LIMIT]`.

use vstd::prelude::*;
use vstd::string::{StrSliceExecFns, StringExecFns};
use crate::chart::ViewRect;
use crate::num::{clamp_pixel, div_floor, spec_clamp_pixel, COORD_LIMIT, PIXEL_LIMIT};

verus! {

/// An RGB color, 8 bits per channel.
#[derive(Clone, Copy, PartialEq, Eq, Structural, Debug)]
pub struct Color {
    pub red: u8,
    pub green: u8,
    pub blue: u8,
}

impl Color {
    /// The channels of a packed `0xRRGGBB` value.
    pub open spec fn spec_rgb(value: u32) -> Color {
        Color {
            red: ((value >> 16) & 0xFF) as u8,
            green: ((value >> 8) & 0xFF) as u8,
            blue: (value & 0xFF) as u8,
        }
    }

    /// Unpack a `0xRRGGBB` value into its three channels.
    pub fn rgb(value: u32) -> (r: Self)
        ensures
            r == Color::spec_rgb(value),
    {
        proof {
            assert(((value & 0xFF0000) >> 16) == ((value >> 16) & 0xFF)) by (bit_vector);
            assert(((value & 0x00FF00) >> 8) == ((value >> 8) & 0xFF)) by (bit_vector);
            assert(((value & 0xFF0000) >> 16) < 256 && ((value >> 8) & 0xFF) < 256 && (value
                & 0xFF) < 256) by (bit_vector);
        }
        Color {
            red: ((value & 0xFF0000) >> 16) as u8,
            green: ((value & 0x00FF00) >> 8) as u8,
            blue: (value & 0x0000FF) as u8,
        }
    }
}

/// The black used for axes and labels.
pub fn black() -> (r: Color)
    ensures
        r == (Color { red: 0, green: 0, blue: 0 }),
{
    Color { red: 0, green: 0, blue: 0 }
}

/// Cyclic color assignment: each drawn series takes the next color, wrapping
/// around at the end of the list.
pub struct Palette {
    pub colors: Vec<u32>,
    pub current: usize,
}

/// The color a fresh palette hands out on its `t`-th call (counting from 0).
pub open spec fn spec_nth_color(colors: Seq<u32>, t: int) -> u32 {
    colors[t % colors.len() as int]
}

/// The colors of the built-in palette.
pub open spec fn spec_palette1_colors() -> Seq<u32> {
    seq![
        0x7D092Fu32,
        0xFB8B24u32,
        0x5F0F40u32,
        0x795838u32,
        0xCB4721u32,
        0xAE5E26u32,
        0xE36414u32,
        0x9A031Eu32,
        0xEF781Cu32,
    ]
}

impl Palette {
    /// The cursor never runs past the end of the list.
    pub open spec fn wf(self) -> bool {
        self.current <= self.colors@.len()
    }

    pub fn new(colors: Vec<u32>) -> (r: Self)
        ensures
            r.colors == colors,
            r.current == 0,
            r.wf(),
    {
        Palette { colors, current: 0 }
    }

    /// The built-in palette.
    pub fn palette1() -> (r: Self)
        ensures
            r.colors@ == spec_palette1_colors(),
            r.current == 0,
            r.colors@.len() == 9,
            r.wf(),
    {
        let r = Palette::new(
            vec![
                0x7D092F,
                0xFB8B24,
                0x5F0F40,
                0x795838,
                0xCB4721,
                0xAE5E26,
                0xE36414,
                0x9A031E,
                0xEF781C,
            ],
        );
        proof {
            assert(r.colors@ =~= spec_palette1_colors());
        }
        r
    }

    /// Hand out the color under the cursor and advance it, wrapping at the
    /// end of the list.
    pub fn next(&mut self) -> (c: Color)
        requires
            old(self).colors@.len() > 0,
            old(self).wf(),
        ensures
            c == Color::spec_rgb(spec_nth_color(old(self).colors@, old(self).current as int)),
            final(self).colors == old(self).colors,
            final(self).current == old(self).current as int % old(self).colors@.len() as int + 1,
            final(self).wf(),
    {
        if self.current >= self.colors.len() {
            self.current = 0;
        }
        proof {
            if old(self).current == old(self).colors@.len() {
                assert(old(self).current as int % old(self).colors@.len() as int == 0);
            } else {
                vstd::arithmetic::div_mod::lemma_small_mod(
                    old(self).current as nat,
                    old(self).colors@.len() as nat,
                );
            }
        }
        let color = Color::rgb(self.colors[self.current]);
        self.current = self.current + 1;
        color
    }
}

/// Color assignment is cyclic: the call `len` positions later hands out the
/// same color. In particular the `(N+1)`-th call on a palette of `N` colors
/// repeats the 1st.
pub proof fn lemma_palette_cycles(colors: Seq<u32>, t: int)
    requires
        colors.len() > 0,
        t >= 0,
    ensures
        spec_nth_color(colors, t + colors.len() as int) == spec_nth_color(colors, t),
{
    let n = colors.len() as int;
    vstd::arithmetic::div_mod::lemma_mod_add_multiples_vanish(t, n);
    assert((t + n) % n == t % n);
}

/// The nearest plotted sample under the pointer: its series key, its
/// data-space position, and its pixel-space position.
pub struct Tooltip {
    pub key: String,
    pub xpixel: i64,
    pub ypixel: i64,
    pub x: i64,
    pub y: i64,
}

/// One primitive of a rendered frame. A paint backend replays these in
/// order against the real surface.
#[derive(Clone, Debug)]
pub enum DrawCmd {
    /// Begin a new path segment at a pixel position.
    MoveTo { x: i64, y: i64 },
    /// Extend the current path to a pixel position.
    LineTo { x: i64, y: i64 },
    /// A marker circle centered at a pixel position.
    Circle { x: i64, y: i64, radius: i64 },
    /// Text anchored at a pixel position.
    Text { x: i64, y: i64, text: String },
    /// Color for the following primitives.
    SetColor { color: Color },
    /// Font size in pixels for the following text.
    SetFontSize { size: i64 },
    /// Stroke the path accumulated since the last stroke.
    Stroke,
}

/// A draw command as the specifications speak of it: the same shape as
/// `DrawCmd`, with text abstracted to its character sequence.
pub enum CmdModel {
    MoveTo(int, int),
    LineTo(int, int),
    Circle(int, int, int),
    Text(int, int, Seq<char>),
    SetColor(Color),
    SetFontSize(int),
    Stroke,
}

/// The abstraction of one draw command.
pub open spec fn model(c: DrawCmd) -> CmdModel {
    match c {
        DrawCmd::MoveTo { x, y } => CmdModel::MoveTo(x as int, y as int),
        DrawCmd::LineTo { x, y } => CmdModel::LineTo(x as int, y as int),
        DrawCmd::Circle { x, y, radius } => CmdModel::Circle(x as int, y as int, radius as int),
        DrawCmd::Text { x, y, text } => CmdModel::Text(x as int, y as int, text@),
        DrawCmd::SetColor { color } => CmdModel::SetColor(color),
        DrawCmd::SetFontSize { size } => CmdModel::SetFontSize(size as int),
        DrawCmd::Stroke => CmdModel::Stroke,
    }
}

/// The abstraction of a command buffer.
pub open spec fn models(s: Seq<DrawCmd>) -> Seq<CmdModel> {
    s.map_values(|c: DrawCmd| model(c))
}

pub proof fn lemma_models_push(s: Seq<DrawCmd>, c: DrawCmd)
    ensures
        models(s.push(c)) =~= models(s).push(model(c)),
{
}

/// Horizontal data-to-pixel map: `x_min` lands on pixel 0 and `x_max` on
/// pixel `width`, linearly in between (floor-rounded, clamped).
pub open spec fn spec_x_pixel(view: ViewRect, width: i64, x: i64) -> int {
    spec_clamp_pixel((x - view.x_min) * width / (view.x_max - view.x_min))
}

/// Vertical data-to-pixel map, flipped: `y_min` lands on pixel `height` and
/// `y_max` on pixel 0 (floor-rounded, clamped).
pub open spec fn spec_y_pixel(view: ViewRect, height: i64, y: i64) -> int {
    spec_clamp_pixel(height - (y - view.y_min) * height / (view.y_max - view.y_min))
}

/// The transform sends the view rectangle's corners exactly onto the
/// surface corners: `x_min` to pixel 0, `x_max` to pixel `width`, `y_min`
/// to pixel `height` and `y_max` to pixel 0.
pub proof fn lemma_pixel_endpoints(view: ViewRect, width: i64, height: i64)
    requires
        view.valid(),
        0 < width <= PIXEL_LIMIT,
        0 < height <= PIXEL_LIMIT,
    ensures
        spec_x_pixel(view, width, view.x_min) == 0,
        spec_x_pixel(view, width, view.x_max) == width,
        spec_y_pixel(view, height, view.y_min) == height,
        spec_y_pixel(view, height, view.y_max) == 0,
{
    let sx = view.x_max - view.x_min;
    let sy = view.y_max - view.y_min;
    assert(0 * width == 0) by (nonlinear_arith);
    vstd::arithmetic::div_mod::lemma_div_of0(sx);
    vstd::arithmetic::div_mod::lemma_div_of0(sy);
    vstd::arithmetic::div_mod::lemma_div_multiples_vanish(width as int, sx);
    assert(sx * width == width as int * sx) by (nonlinear_arith);
    vstd::arithmetic::div_mod::lemma_div_multiples_vanish(height as int, sy);
    assert(sy * height == height as int * sy) by (nonlinear_arith);
}

/// The label text of one tick value: the value rendered at the precision
/// the axis span calls for.
pub open spec fn spec_fmtfloat(val: i64, view_range: i64) -> Seq<char> {
    crate::num::spec_format_fixed(val as int, crate::num::spec_decimals_for_span(view_range as int))
}

/// Pixel row of the x axis line: the row of data y = 0, clamped to stay at
/// least 30 pixels away from the top and bottom edges.
pub open spec fn spec_x_axis_pos(view: ViewRect, height: i64) -> int {
    let y0 = spec_y_pixel(view, height, 0);
    if y0 > height - 30 {
        height - 30
    } else if y0 < 30 {
        30
    } else {
        y0
    }
}

/// Pixel column of the y axis line: the column of data x = 0, clamped to
/// stay 30 pixels from the right edge and 50 from the left.
pub open spec fn spec_y_axis_pos(view: ViewRect, width: i64) -> int {
    let x0 = spec_x_pixel(view, width, 0);
    if x0 > width - 30 {
        width - 30
    } else if x0 < 50 {
        50
    } else {
        x0
    }
}

/// The x-axis tick step: a tenth of the span.
pub open spec fn spec_tick_step_x(view: ViewRect) -> int {
    (view.x_max - view.x_min) / 10
}

/// The y-axis tick step: a tenth of the span.
pub open spec fn spec_tick_step_y(view: ViewRect) -> int {
    (view.y_max - view.y_min) / 10
}

/// The `i`-th x tick value: counted from the largest multiple of the step
/// at or below the axis minimum.
pub open spec fn spec_xtick(view: ViewRect, i: int) -> int {
    view.x_min as int / spec_tick_step_x(view) * spec_tick_step_x(view) + i * spec_tick_step_x(view)
}

/// The `i`-th y tick value.
pub open spec fn spec_ytick(view: ViewRect, i: int) -> int {
    view.y_min as int / spec_tick_step_y(view) * spec_tick_step_y(view) + i * spec_tick_step_y(view)
}

/// The 11 x tick labels; none when the span is too small to carry a step.
pub open spec fn spec_xtick_cmds(view: ViewRect, width: i64, height: i64) -> Seq<CmdModel> {
    if spec_tick_step_x(view) <= 0 {
        Seq::empty()
    } else {
        Seq::new(
            11,
            |i: int|
                CmdModel::Text(
                    spec_x_pixel(view, width, spec_xtick(view, i) as i64),
                    spec_x_axis_pos(view, height) + 10,
                    spec_fmtfloat(
                        spec_xtick(view, i) as i64,
                        (view.x_max - view.x_min) as i64,
                    ),
                ),
        )
    }
}

/// The 10 y tick labels; none when the span is too small to carry a step.
pub open spec fn spec_ytick_cmds(view: ViewRect, width: i64, height: i64) -> Seq<CmdModel> {
    if spec_tick_step_y(view) <= 0 {
        Seq::empty()
    } else {
        Seq::new(
            10,
            |i: int|
                CmdModel::Text(
                    spec_y_axis_pos(view, width) - 40,
                    spec_y_pixel(view, height, spec_ytick(view, i) as i64),
                    spec_fmtfloat(
                        spec_ytick(view, i) as i64,
                        (view.y_max - view.y_min) as i64,
                    ),
                ),
        )
    }
}

/// Everything `draw_axis` emits: black, the two axis lines at the clamped
/// position of data zero, the tick labels, and a stroke.
pub open spec fn spec_axis_cmds(view: ViewRect, width: i64, height: i64) -> Seq<CmdModel> {
    let y0 = spec_x_axis_pos(view, height);
    let x0 = spec_y_axis_pos(view, width);
    seq![
        CmdModel::SetColor(Color { red: 0, green: 0, blue: 0 }),
        CmdModel::MoveTo(0, y0),
        CmdModel::LineTo(width as int, y0),
    ] + spec_xtick_cmds(view, width, height) + seq![
        CmdModel::MoveTo(x0, 0),
        CmdModel::LineTo(x0, height as int),
    ] + spec_ytick_cmds(view, width, height) + seq![CmdModel::Stroke]
}

/// An axis label made of an optional title and an optional unit in
/// parentheses.
pub open spec fn spec_axis_label(title: Option<String>, unit: Option<String>) -> Seq<char> {
    (match title {
        Some(t) => t@,
        None => Seq::empty(),
    }) + (match unit {
        Some(u) => seq![' ', '('] + u@ + seq![')'],
        None => Seq::empty(),
    })
}

/// Everything `draw_main_title` emits: black, then — when the document has
/// a title — the title centered near the top at font size 24.
pub open spec fn spec_main_title_cmds(dv: crate::dataview::DataView, width: i64) -> Seq<
    CmdModel,
> {
    seq![CmdModel::SetColor(Color { red: 0, green: 0, blue: 0 })] + match dv.title {
        None => Seq::empty(),
        Some(t) => seq![
            CmdModel::SetFontSize(24),
            CmdModel::Text(
                spec_clamp_pixel((width - t@.len() * 12) / 2),
                24,
                t@,
            ),
            CmdModel::Stroke,
        ],
    }
}

/// Everything `draw_x_title` emits: the x axis label at the bottom right.
pub open spec fn spec_x_title_cmds(dv: crate::dataview::DataView, view: ViewRect, width: i64, height: i64) -> Seq<CmdModel> {
    let text = spec_axis_label(dv.x_title, dv.x_unit);
    seq![
        CmdModel::SetColor(Color { red: 0, green: 0, blue: 0 }),
        CmdModel::SetFontSize(12),
        CmdModel::Text(
            spec_clamp_pixel(width - text.len() * 12),
            spec_x_axis_pos(view, height) + 21,
            text,
        ),
        CmdModel::Stroke,
    ]
}

/// Everything `draw_y_title` emits: the y axis label beside the top of the
/// y axis line.
pub open spec fn spec_y_title_cmds(dv: crate::dataview::DataView, view: ViewRect, width: i64) -> Seq<CmdModel> {
    let text = spec_axis_label(dv.y_title, dv.y_unit);
    seq![
        CmdModel::SetColor(Color { red: 0, green: 0, blue: 0 }),
        CmdModel::SetFontSize(12),
        CmdModel::Text(spec_y_axis_pos(view, width) + 2, 45, text),
        CmdModel::Stroke,
    ]
}

/// Everything `draw` emits: the three titles in order.
pub open spec fn spec_titles_cmds(dv: crate::dataview::DataView, view: ViewRect, width: i64, height: i64) -> Seq<CmdModel> {
    spec_main_title_cmds(dv, width) + spec_x_title_cmds(dv, view, width, height)
        + spec_y_title_cmds(dv, view, width)
}

/// Everything `draw_multiline_text` emits: the font size, then one text
/// line per entry, offset 15 pixels right and down and stepping one font
/// size down per line.
pub open spec fn spec_multiline_cmds(texts: Seq<Seq<char>>, x: int, y: int, fontsize: int) -> Seq<
    CmdModel,
> {
    seq![CmdModel::SetFontSize(fontsize)] + Seq::new(
        texts.len(),
        |i: int| CmdModel::Text(x + 15, spec_clamp_pixel(y + 15 + i * fontsize), texts[i]),
    )
}

/// One `"title: value unit"` tooltip line, with a fallback title and an
/// empty fallback unit.
pub open spec fn spec_value_line(
    title: Option<String>,
    fallback: Seq<char>,
    v: i64,
    unit: Option<String>,
) -> Seq<char> {
    (match title {
        Some(t) => t@,
        None => fallback,
    }) + seq![':', ' '] + crate::num::spec_format_trim(v as int) + seq![' '] + (match unit {
        Some(u) => u@,
        None => Seq::empty(),
    })
}

/// The text lines of a tooltip: the series title in brackets and the series
/// description when its metadata carries them, then the x and y value
/// lines.
pub open spec fn spec_tooltip_lines(file: crate::dataview::File, t: Tooltip) -> Seq<Seq<char>> {
    (match crate::dataview::find_chart(file.chart@, t.key@) {
        None => Seq::empty(),
        Some(meta) => (match meta.title {
            Some(mt) => seq![seq!['['] + mt@ + seq![']']],
            None => Seq::empty(),
        }) + (match meta.description {
            Some(d) => seq![d@],
            None => Seq::empty(),
        }),
    }) + seq![
        spec_value_line(file.dataview.x_title, seq!['x'], t.x, file.dataview.x_unit),
        spec_value_line(file.dataview.y_title, seq!['y'], t.y, file.dataview.y_unit),
    ]
}

/// Everything `draw_tooltip` emits: black, a marker ring at the sample's
/// pixel position, the tooltip lines at font size 12, and a stroke.
pub open spec fn spec_tooltip_cmds(file: crate::dataview::File, t: Tooltip) -> Seq<CmdModel> {
    seq![
        CmdModel::SetColor(Color { red: 0, green: 0, blue: 0 }),
        CmdModel::MoveTo(t.xpixel as int, t.ypixel as int),
        CmdModel::Circle(t.xpixel as int, t.ypixel as int, 5),
    ] + spec_multiline_cmds(spec_tooltip_lines(file, t), t.xpixel as int, t.ypixel as int, 12)
        + seq![CmdModel::Stroke]
}

/// A frame in progress: the surface size, the pointer position, the view
/// rectangle being drawn, and the draw commands emitted so far.
pub struct Canvas {
    pub width: i64,
    pub height: i64,
    pub mouse_x: i64,
    pub mouse_y: i64,
    pub view: ViewRect,
    pub cmds: Vec<DrawCmd>,
}

impl Canvas {
    /// The surface is non-degenerate, the pointer is inside the pixel
    /// window, and the view can be mapped to pixels.
    pub open spec fn wf(self) -> bool {
        &&& 1 <= self.width <= PIXEL_LIMIT
        &&& 1 <= self.height <= PIXEL_LIMIT
        &&& -PIXEL_LIMIT <= self.mouse_x <= PIXEL_LIMIT
        &&& -PIXEL_LIMIT <= self.mouse_y <= PIXEL_LIMIT
        &&& self.view.valid()
        &&& self.view.within(COORD_LIMIT as int)
    }

    pub fn new(width: i64, height: i64, mouse_x: i64, mouse_y: i64, view: &ViewRect) -> (r: Self)
        requires
            1 <= width <= PIXEL_LIMIT,
            1 <= height <= PIXEL_LIMIT,
            -PIXEL_LIMIT <= mouse_x <= PIXEL_LIMIT,
            -PIXEL_LIMIT <= mouse_y <= PIXEL_LIMIT,
            view.valid(),
            view.within(COORD_LIMIT as int),
        ensures
            r.width == width,
            r.height == height,
            r.mouse_x == mouse_x,
            r.mouse_y == mouse_y,
            r.view == *view,
            r.cmds@.len() == 0,
            r.wf(),
    {
        Canvas { width, height, mouse_x, mouse_y, view: *view, cmds: Vec::new() }
    }

    /// Map a data x coordinate to a pixel column.
    pub fn x_pixel(&self, x: i64) -> (r: i64)
        requires
            self.wf(),
        ensures
            r == spec_x_pixel(self.view, self.width, x),
    {
        let span = self.view.x_max as i128 - self.view.x_min as i128;
        let diff = x as i128 - self.view.x_min as i128;
        proof {
            assert(diff * self.width as i128 <= 0x7fff_ffff_ffff_ffff_ffff_ffff_ffff_ffff
                && diff * self.width as i128 >= -0x7fff_ffff_ffff_ffff_ffff_ffff_ffff_ffff)
                by (nonlinear_arith)
                requires
                    -0x2_0000_0000_0000_0000 <= diff <= 0x2_0000_0000_0000_0000,
                    0 <= self.width <= PIXEL_LIMIT,
            ;
        }
        let num = diff * self.width as i128;
        let q = div_floor(num, span);
        clamp_pixel(q)
    }

    /// Map a data y coordinate to a pixel row (flipped).
    pub fn y_pixel(&self, y: i64) -> (r: i64)
        requires
            self.wf(),
        ensures
            r == spec_y_pixel(self.view, self.height, y),
    {
        let span = self.view.y_max as i128 - self.view.y_min as i128;
        let diff = y as i128 - self.view.y_min as i128;
        proof {
            assert(diff * self.height as i128 <= 0x1_0000_0000_0000_0000_0000_0000_0000
                && diff * self.height as i128 >= -0x1_0000_0000_0000_0000_0000_0000_0000)
                by (nonlinear_arith)
                requires
                    -0x2_0000_0000_0000_0000 <= diff <= 0x2_0000_0000_0000_0000,
                    0 <= self.height <= PIXEL_LIMIT,
            ;
        }
        let num = diff * self.height as i128;
        let q = div_floor(num, span);
        proof {
            let qi = num as int / span as int;
            vstd::arithmetic::div_mod::lemma_fundamental_div_mod(num as int, span as int);
            vstd::arithmetic::div_mod::lemma_mod_bound(num as int, span as int);
            assert(-0x4000_0000_0000_0000_0000_0000_0000_0000 <= qi
                <= 0x4000_0000_0000_0000_0000_0000_0000_0000) by (nonlinear_arith)
                requires
                    num as int == span as int * qi + (num as int % span as int),
                    0 <= (num as int % span as int),
                    (num as int % span as int) < span as int,
                    span as int >= 1,
                    -0x1_0000_0000_0000_0000_0000_0000_0000 <= num as int
                        <= 0x1_0000_0000_0000_0000_0000_0000_0000,
            ;
        }
        clamp_pixel(self.height as i128 - q)
    }

    /// Everything but the command buffer agrees.
    pub open spec fn same_surface(self, b: Canvas) -> bool {
        &&& self.width == b.width
        &&& self.height == b.height
        &&& self.mouse_x == b.mouse_x
        &&& self.mouse_y == b.mouse_y
        &&& self.view == b.view
    }

    fn push_cmd(&mut self, c: DrawCmd)
        ensures
            old(self).same_surface(*final(self)),
            final(self).cmds@ == old(self).cmds@.push(c),
            models(final(self).cmds@) == models(old(self).cmds@).push(model(c)),
    {
        proof {
            lemma_models_push(self.cmds@, c);
        }
        self.cmds.push(c);
    }

    /// Color for the following primitives.
    pub fn set_color(&mut self, color: &Color)
        ensures
            old(self).same_surface(*final(self)),
            models(final(self).cmds@) == models(old(self).cmds@).push(
                CmdModel::SetColor(*color),
            ),
    {
        self.push_cmd(DrawCmd::SetColor { color: *color });
    }

    /// Stroke the path accumulated since the last stroke.
    pub fn stroke(&mut self)
        ensures
            old(self).same_surface(*final(self)),
            models(final(self).cmds@) == models(old(self).cmds@).push(CmdModel::Stroke),
    {
        self.push_cmd(DrawCmd::Stroke);
    }

    /// Begin a path segment at the pixel position of a data point.
    pub fn move_to(&mut self, x: i64, y: i64)
        requires
            old(self).wf(),
        ensures
            old(self).same_surface(*final(self)),
            models(final(self).cmds@) == models(old(self).cmds@).push(
                CmdModel::MoveTo(
                    spec_x_pixel(old(self).view, old(self).width, x),
                    spec_y_pixel(old(self).view, old(self).height, y),
                ),
            ),
    {
        let px = self.x_pixel(x);
        let py = self.y_pixel(y);
        self.push_cmd(DrawCmd::MoveTo { x: px, y: py });
    }

    /// Extend the path to the pixel position of a data point, and hand that
    /// position back.
    pub fn line_to(&mut self, x: i64, y: i64) -> (r: (i64, i64))
        requires
            old(self).wf(),
        ensures
            old(self).same_surface(*final(self)),
            r.0 == spec_x_pixel(old(self).view, old(self).width, x),
            r.1 == spec_y_pixel(old(self).view, old(self).height, y),
            models(final(self).cmds@) == models(old(self).cmds@).push(
                CmdModel::LineTo(r.0 as int, r.1 as int),
            ),
    {
        let px = self.x_pixel(x);
        let py = self.y_pixel(y);
        self.push_cmd(DrawCmd::LineTo { x: px, y: py });
        (px, py)
    }

    /// A marker circle of pixel radius `len` at the pixel position of a
    /// data point; hands the position back.
    pub fn circle(&mut self, x: i64, y: i64, len: i64) -> (r: (i64, i64))
        requires
            old(self).wf(),
        ensures
            old(self).same_surface(*final(self)),
            r.0 == spec_x_pixel(old(self).view, old(self).width, x),
            r.1 == spec_y_pixel(old(self).view, old(self).height, y),
            models(final(self).cmds@) == models(old(self).cmds@).push(
                CmdModel::Circle(r.0 as int, r.1 as int, len as int),
            ),
    {
        let px = self.x_pixel(x);
        let py = self.y_pixel(y);
        self.push_cmd(DrawCmd::Circle { x: px, y: py, radius: len });
        (px, py)
    }

    /// Format an axis label: precision follows the visible span, so zooming
    /// in shows more decimals and zooming out fewer.
    pub fn fmtfloat(val: i64, view_range: i64) -> (s: String)
        requires
            val > i64::MIN,
        ensures
            s@ == spec_fmtfloat(val, view_range),
    {
        let d = crate::num::decimals_for_span(view_range);
        crate::num::format_fixed(val, d)
    }

    /// Pixel row of the x axis line, kept a margin away from the edges.
    pub fn x_axis_pos(&self) -> (r: i64)
        requires
            self.wf(),
        ensures
            r == spec_x_axis_pos(self.view, self.height),
    {
        let margin: i64 = 30;
        let mut y0 = self.y_pixel(0);
        if y0 > self.height - margin {
            y0 = self.height - margin;
        } else if y0 < margin {
            y0 = margin;
        }
        y0
    }

    /// Pixel column of the y axis line, kept a margin away from the edges.
    pub fn y_axis_pos(&self) -> (r: i64)
        requires
            self.wf(),
        ensures
            r == spec_y_axis_pos(self.view, self.width),
    {
        let margin: i64 = 30;
        let mut x0 = self.x_pixel(0);
        if x0 > self.width - margin {
            x0 = self.width - margin;
        } else if x0 < 50 {
            x0 = 50;
        }
        x0
    }

    /// Compute the `i`-th tick value for an axis with the given minimum and
    /// step.
    fn tick_value(axis_min: i64, step: i64, i: u32) -> (v: i64)
        requires
            0 < step <= 200_000_000_000_000_000,
            -COORD_LIMIT <= axis_min <= COORD_LIMIT,
            i <= 10,
        ensures
            v as int == axis_min as int / step as int * step as int + i * step,
            -COORD_LIMIT - 11 * step <= v <= COORD_LIMIT + 11 * step,
    {
        let q = div_floor(axis_min as i128, step as i128);
        proof {
            vstd::arithmetic::div_mod::lemma_fundamental_div_mod(axis_min as int, step as int);
            vstd::arithmetic::div_mod::lemma_mod_bound(axis_min as int, step as int);
            let qq = axis_min as int / step as int;
            assert(qq * step as int == step as int * qq) by (nonlinear_arith);
            assert(q as int * step as int == axis_min as int - (axis_min as int
                % step as int));
            assert((i as int) * (step as int) <= 10 * 200_000_000_000_000_000
                && (i as int) * (step as int) >= 0) by (nonlinear_arith)
                requires
                    0 <= i <= 10,
                    0 < step <= 200_000_000_000_000_000,
            ;
            assert((i as int) * (step as int) <= 11 * (step as int)) by (nonlinear_arith)
                requires
                    0 <= i <= 10,
                    step > 0,
            ;
        }
        let start = q * (step as i128);
        let v = start + (i as i128) * (step as i128);
        v as i64
    }

    /// Draw the two axis lines at the clamped pixel position of data zero,
    /// with 11 labelled ticks along x and 10 along y, stepping a tenth of
    /// the span from the largest step multiple at or below the axis
    /// minimum.
    pub fn draw_axis(&mut self)
        requires
            old(self).wf(),
        ensures
            old(self).same_surface(*final(self)),
            models(final(self).cmds@) == models(old(self).cmds@) + spec_axis_cmds(
                old(self).view,
                old(self).width,
                old(self).height,
            ),
    {
        let ghost orig = *old(self);
        let ghost view = self.view;
        let ghost w = self.width;
        let ghost h = self.height;
        let ghost base = models(self.cmds@);
        let c = black();
        self.set_color(&c);
        let x0 = self.y_axis_pos();
        let y0 = self.x_axis_pos();
        let x_range = self.view.x_max - self.view.x_min;
        let y_range = self.view.y_max - self.view.y_min;

        // X axis line and ticks
        self.push_cmd(DrawCmd::MoveTo { x: 0, y: y0 });
        self.push_cmd(DrawCmd::LineTo { x: self.width, y: y0 });
        let ghost head = seq![
            CmdModel::SetColor(Color { red: 0, green: 0, blue: 0 }),
            CmdModel::MoveTo(0, y0 as int),
            CmdModel::LineTo(w as int, y0 as int),
        ];
        proof {
            assert(models(self.cmds@) =~= base + head);
        }
        let step_x = x_range / 10;
        proof {
            vstd::arithmetic::div_mod::lemma_div_is_ordered(
                x_range as int,
                2 * COORD_LIMIT,
                10,
            );
        }
        if step_x > 0 {
            let mut i: u32 = 0;
            while i < 11
                invariant
                    self.wf(),
                    view == self.view,
                    w == self.width,
                    h == self.height,
                    orig.same_surface(*self),
                    0 < step_x <= 200_000_000_000_000_000,
                    step_x == spec_tick_step_x(view),
                    y0 == spec_x_axis_pos(view, h),
                    x_range == view.x_max - view.x_min,
                    i <= 11,
                    models(self.cmds@) =~= base + head + spec_xtick_cmds(view, w, h).take(
                        i as int,
                    ),
                decreases 11 - i,
            {
                let val = Self::tick_value(self.view.x_min, step_x, i);
                let xp = self.x_pixel(val);
                let label = Self::fmtfloat(val, x_range);
                proof {
                    assert(val as int == spec_xtick(view, i as int));
                }
                self.push_cmd(DrawCmd::Text { x: xp, y: y0 + 10, text: label });
                proof {
                    assert(spec_xtick_cmds(view, w, h).take(i + 1) =~= spec_xtick_cmds(
                        view,
                        w,
                        h,
                    ).take(i as int).push(spec_xtick_cmds(view, w, h)[i as int]));
                }
                i += 1;
            }
            proof {
                assert(spec_xtick_cmds(view, w, h).take(11) =~= spec_xtick_cmds(view, w, h));
            }
        }
        let ghost with_x = base + head + spec_xtick_cmds(view, w, h);
        proof {
            assert(models(self.cmds@) =~= with_x);
        }

        // Y axis line and ticks
        self.push_cmd(DrawCmd::MoveTo { x: x0, y: 0 });
        self.push_cmd(DrawCmd::LineTo { x: x0, y: self.height });
        let ghost mid = seq![CmdModel::MoveTo(x0 as int, 0), CmdModel::LineTo(x0 as int, h as int)];
        proof {
            assert(models(self.cmds@) =~= with_x + mid);
        }
        let step_y = y_range / 10;
        proof {
            vstd::arithmetic::div_mod::lemma_div_is_ordered(
                y_range as int,
                2 * COORD_LIMIT,
                10,
            );
        }
        if step_y > 0 {
            let mut i: u32 = 0;
            while i < 10
                invariant
                    self.wf(),
                    view == self.view,
                    w == self.width,
                    h == self.height,
                    orig.same_surface(*self),
                    x0 == spec_y_axis_pos(view, w),
                    0 < step_y <= 200_000_000_000_000_000,
                    step_y == spec_tick_step_y(view),
                    y_range == view.y_max - view.y_min,
                    i <= 10,
                    models(self.cmds@) =~= with_x + mid + spec_ytick_cmds(view, w, h).take(
                        i as int,
                    ),
                decreases 10 - i,
            {
                let val = Self::tick_value(self.view.y_min, step_y, i);
                let yp = self.y_pixel(val);
                let label = Self::fmtfloat(val, y_range);
                proof {
                    assert(val as int == spec_ytick(view, i as int));
                }
                self.push_cmd(DrawCmd::Text { x: x0 - 40, y: yp, text: label });
                proof {
                    assert(spec_ytick_cmds(view, w, h).take(i + 1) =~= spec_ytick_cmds(
                        view,
                        w,
                        h,
                    ).take(i as int).push(spec_ytick_cmds(view, w, h)[i as int]));
                }
                i += 1;
            }
            proof {
                assert(spec_ytick_cmds(view, w, h).take(10) =~= spec_ytick_cmds(view, w, h));
            }
        }
        proof {
            assert(models(self.cmds@) =~= with_x + mid + spec_ytick_cmds(view, w, h));
        }
        self.stroke();
        proof {
            assert(models(self.cmds@) =~= base + spec_axis_cmds(view, w, h));
        }
    }

    /// Build an axis label from an optional title and unit.
    fn axis_label(title: &Option<String>, unit: &Option<String>) -> (s: String)
        ensures
            s@ == spec_axis_label(*title, *unit),
    {
        let mut s = String::new();
        if let Some(t) = title {
            s.append(t.as_str());
        }
        if let Some(u) = unit {
            proof {
                reveal_strlit(" (");
                reveal_strlit(")");
            }
            s.append(" (");
            s.append(u.as_str());
            s.append(")");
        }
        proof {
            assert(s@ =~= spec_axis_label(*title, *unit));
        }
        s
    }

    /// Draw the document title centered at the top of the surface.
    pub fn draw_main_title(&mut self, file: &crate::dataview::File)
        requires
            old(self).wf(),
        ensures
            old(self).same_surface(*final(self)),
            models(final(self).cmds@) == models(old(self).cmds@) + spec_main_title_cmds(
                file.dataview,
                old(self).width,
            ),
    {
        let ghost base = models(self.cmds@);
        let c = black();
        self.set_color(&c);
        let title = match &file.dataview.title {
            Some(t) => t,
            None => {
                proof {
                    assert(models(self.cmds@) =~= base + spec_main_title_cmds(
                        file.dataview,
                        self.width,
                    ));
                }
                return ;
            },
        };
        self.push_cmd(DrawCmd::SetFontSize { size: 24 });
        let l = title.as_str().unicode_len();
        let num = self.width as i128 - (l as i128) * 12;
        let x = clamp_pixel(div_floor(num, 2));
        self.push_cmd(DrawCmd::Text { x, y: 24, text: title.clone() });
        self.stroke();
        proof {
            assert(models(self.cmds@) =~= base + spec_main_title_cmds(file.dataview, self.width));
        }
    }

    /// Draw the x axis label at the bottom right of the surface.
    pub fn draw_x_title(&mut self, file: &crate::dataview::File)
        requires
            old(self).wf(),
        ensures
            old(self).same_surface(*final(self)),
            models(final(self).cmds@) == models(old(self).cmds@) + spec_x_title_cmds(
                file.dataview,
                old(self).view,
                old(self).width,
                old(self).height,
            ),
    {
        let ghost base = models(self.cmds@);
        let c = black();
        self.set_color(&c);
        self.push_cmd(DrawCmd::SetFontSize { size: 12 });
        let text = Self::axis_label(&file.dataview.x_title, &file.dataview.x_unit);
        let l = text.as_str().unicode_len();
        let x = clamp_pixel(self.width as i128 - (l as i128) * 12);
        let y = self.x_axis_pos() + 21;
        self.push_cmd(DrawCmd::Text { x, y, text });
        self.stroke();
        proof {
            assert(models(self.cmds@) =~= base + spec_x_title_cmds(
                file.dataview,
                self.view,
                self.width,
                self.height,
            ));
        }
    }

    /// Draw the y axis label beside the top of the y axis line.
    pub fn draw_y_title(&mut self, file: &crate::dataview::File)
        requires
            old(self).wf(),
        ensures
            old(self).same_surface(*final(self)),
            models(final(self).cmds@) == models(old(self).cmds@) + spec_y_title_cmds(
                file.dataview,
                old(self).view,
                old(self).width,
            ),
    {
        let ghost base = models(self.cmds@);
        let c = black();
        self.set_color(&c);
        self.push_cmd(DrawCmd::SetFontSize { size: 12 });
        let text = Self::axis_label(&file.dataview.y_title, &file.dataview.y_unit);
        let x = self.y_axis_pos() + 2;
        self.push_cmd(DrawCmd::Text { x, y: 45, text });
        self.stroke();
        proof {
            assert(models(self.cmds@) =~= base + spec_y_title_cmds(
                file.dataview,
                self.view,
                self.width,
            ));
        }
    }

    /// Draw the three document titles.
    pub fn draw(&mut self, file: &crate::dataview::File)
        requires
            old(self).wf(),
        ensures
            old(self).same_surface(*final(self)),
            models(final(self).cmds@) == models(old(self).cmds@) + spec_titles_cmds(
                file.dataview,
                old(self).view,
                old(self).width,
                old(self).height,
            ),
    {
        let ghost base = models(self.cmds@);
        self.draw_main_title(file);
        self.draw_x_title(file);
        self.draw_y_title(file);
        proof {
            assert(models(self.cmds@) =~= base + spec_titles_cmds(
                file.dataview,
                self.view,
                self.width,
                self.height,
            ));
        }
    }

    /// Draw text lines top to bottom, offset 15 pixels right and down from
    /// the anchor, one font size apart.
    pub fn draw_multiline_text(
        &mut self,
        lines: &Vec<String>,
        xpixel: i64,
        ypixel: i64,
        fontsize: i64,
    )
        requires
            -PIXEL_LIMIT <= xpixel <= PIXEL_LIMIT,
            -PIXEL_LIMIT <= ypixel <= PIXEL_LIMIT,
            0 < fontsize <= 1000,
        ensures
            old(self).same_surface(*final(self)),
            models(final(self).cmds@) == models(old(self).cmds@) + spec_multiline_cmds(
                lines@.map_values(|s: String| s@),
                xpixel as int,
                ypixel as int,
                fontsize as int,
            ),
    {
        let ghost base = models(self.cmds@);
        let ghost texts = lines@.map_values(|s: String| s@);
        self.push_cmd(DrawCmd::SetFontSize { size: fontsize });
        let ghost head = seq![CmdModel::SetFontSize(fontsize as int)];
        let ghost body = Seq::new(
            texts.len(),
            |i: int|
                CmdModel::Text(
                    xpixel + 15,
                    spec_clamp_pixel(ypixel + 15 + i * fontsize),
                    texts[i],
                ),
        );
        let x = xpixel + 15;
        let mut i: usize = 0;
        while i < lines.len()
            invariant
                i <= lines@.len(),
                x == xpixel + 15,
                -PIXEL_LIMIT <= xpixel <= PIXEL_LIMIT,
                -PIXEL_LIMIT <= ypixel <= PIXEL_LIMIT,
                0 < fontsize <= 1000,
                texts == lines@.map_values(|s: String| s@),
                body == Seq::new(
                    texts.len(),
                    |k: int|
                        CmdModel::Text(
                            xpixel + 15,
                            spec_clamp_pixel(ypixel + 15 + k * fontsize),
                            texts[k],
                        ),
                ),
                old(self).same_surface(*self),
                models(self.cmds@) =~= base + head + body.take(i as int),
            decreases lines@.len() - i,
        {
            proof {
                assert((i as int) * (fontsize as int) <= 0x2_0000_0000_0000_0000_0000
                    && (i as int) * (fontsize as int) >= 0) by (nonlinear_arith)
                    requires
                        0 <= i <= 0xFFFF_FFFF_FFFF_FFFF,
                        0 < fontsize <= 1000,
                ;
            }
            let y = clamp_pixel(ypixel as i128 + 15 + (i as i128) * (fontsize as i128));
            self.push_cmd(DrawCmd::Text { x, y, text: lines[i].clone() });
            proof {
                assert(body.take(i + 1) =~= body.take(i as int).push(body[i as int]));
            }
            i += 1;
        }
        proof {
            assert(body.take(texts.len() as int) =~= body);
            assert(models(self.cmds@) =~= base + spec_multiline_cmds(
                texts,
                xpixel as int,
                ypixel as int,
                fontsize as int,
            ));
        }
    }

    /// One `"title: value unit"` tooltip line.
    fn value_line(title: &Option<String>, fallback: &str, v: i64, unit: &Option<String>) -> (s:
        String)
        requires
            v > i64::MIN,
        ensures
            s@ == spec_value_line(*title, fallback@, v, *unit),
    {
        let mut s = String::new();
        match title {
            Some(t) => s.append(t.as_str()),
            None => s.append(fallback),
        }
        proof {
            reveal_strlit(": ");
            reveal_strlit(" ");
        }
        s.append(": ");
        let val = crate::num::format_trim(v);
        s.append(val.as_str());
        s.append(" ");
        if let Some(u) = unit {
            s.append(u.as_str());
        }
        proof {
            assert(s@ =~= spec_value_line(*title, fallback@, v, *unit));
        }
        s
    }

    /// The text lines of a tooltip for the given sample.
    fn tooltip_lines(file: &crate::dataview::File, t: &Tooltip) -> (lines: Vec<String>)
        requires
            t.x > i64::MIN,
            t.y > i64::MIN,
        ensures
            lines@.map_values(|s: String| s@) == spec_tooltip_lines(*file, *t),
    {
        let mut lines: Vec<String> = Vec::new();
        if let Some(i) = file.chart_index_of(&t.key) {
            let meta = &file.chart[i].1;
            if let Some(mt) = &meta.title {
                proof {
                    reveal_strlit("[");
                    reveal_strlit("]");
                }
                let mut l = String::new();
                l.append("[");
                l.append(mt.as_str());
                l.append("]");
                proof {
                    assert(l@ =~= seq!['['] + mt@ + seq![']']);
                }
                lines.push(l);
            }
            if let Some(d) = &meta.description {
                lines.push(d.clone());
            }
        }
        proof {
            reveal_strlit("x");
            reveal_strlit("y");
            assert("x"@ =~= seq!['x']);
            assert("y"@ =~= seq!['y']);
        }
        let xl = Self::value_line(&file.dataview.x_title, "x", t.x, &file.dataview.x_unit);
        lines.push(xl);
        let yl = Self::value_line(&file.dataview.y_title, "y", t.y, &file.dataview.y_unit);
        lines.push(yl);
        proof {
            assert(lines@.map_values(|s: String| s@) =~= spec_tooltip_lines(*file, *t));
        }
        lines
    }

    /// Draw the tooltip for the nearest sample: a marker ring at its pixel
    /// position and its text lines beside it.
    pub fn draw_tooltip(&mut self, file: &crate::dataview::File, tooltip: &Tooltip)
        requires
            -PIXEL_LIMIT <= tooltip.xpixel <= PIXEL_LIMIT,
            -PIXEL_LIMIT <= tooltip.ypixel <= PIXEL_LIMIT,
            tooltip.x > i64::MIN,
            tooltip.y > i64::MIN,
        ensures
            old(self).same_surface(*final(self)),
            models(final(self).cmds@) == models(old(self).cmds@) + spec_tooltip_cmds(
                *file,
                *tooltip,
            ),
    {
        let ghost base = models(self.cmds@);
        let c = black();
        self.set_color(&c);
        self.push_cmd(DrawCmd::MoveTo { x: tooltip.xpixel, y: tooltip.ypixel });
        self.push_cmd(DrawCmd::Circle { x: tooltip.xpixel, y: tooltip.ypixel, radius: 5 });
        let lines = Self::tooltip_lines(file, tooltip);
        self.draw_multiline_text(&lines, tooltip.xpixel, tooltip.ypixel, 12);
        self.stroke();
        proof {
            assert(models(self.cmds@) =~= base + spec_tooltip_cmds(*file, *tooltip));
        }
    }

    pub fn mouse_x(&self) -> (r: i64)
        ensures
            r == self.mouse_x,
    {
        self.mouse_x
    }

    pub fn mouse_y(&self) -> (r: i64)
        ensures
            r == self.mouse_y,
    {
        self.mouse_y
    }

    /// Give up the canvas and keep only its command buffer.
    pub fn into_cmds(self) -> (r: Vec<DrawCmd>)
        ensures
            r == self.cmds,
    {
        self.cmds
    }
}

} // verus!
