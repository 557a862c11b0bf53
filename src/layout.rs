use crate::color::{Color, Palette};
use crate::config::{RunnerMenuSettings, PADDING};
use crate::filter::strings_view;
use crate::session::Session;
use crate::viewport::{spec_view_end, spec_view_start};
use vstd::prelude::*;

verus! {

/// Width of the menu's interior, without borders.
pub const CONTENT_WIDTH: u64 = 480;

/// Width of the text cursor.
pub const CURSOR_WIDTH: u64 = 3;

/// A rectangle in window pixels.
#[derive(Clone, Copy, Debug, PartialEq, Eq, Structural)]
pub struct Rect {
    pub x: i64,
    pub y: i64,
    pub w: u64,
    pub h: u64,
}

/// One drawing instruction for the rendering backend.
#[derive(Debug, PartialEq, Eq)]
pub enum DrawOp {
    /// Fill the whole window.
    Clear { color: Color },
    Fill { rect: Rect, color: Color },
    /// Render `text` with its top-left corner at `(x, y)`.
    Text { text: String, x: i64, y: i64, color: Color },
}

/// A drawing instruction with its text as characters.
pub enum DrawSpec {
    Clear(Color),
    Fill(Rect, Color),
    Text(Seq<char>, i64, i64, Color),
}

impl View for DrawOp {
    type V = DrawSpec;

    open spec fn view(&self) -> DrawSpec {
        match self {
            DrawOp::Clear { color } => DrawSpec::Clear(*color),
            DrawOp::Fill { rect, color } => DrawSpec::Fill(*rect, *color),
            DrawOp::Text { text, x, y, color } => DrawSpec::Text(text@, *x, *y, *color),
        }
    }
}

pub open spec fn ops_view(ops: Seq<DrawOp>) -> Seq<DrawSpec> {
    ops.map_values(|o: DrawOp| o@)
}

pub open spec fn spec_window_width(border_size: int) -> int {
    CONTENT_WIDTH + 2 * border_size
}

/// Padding, a line for the prompt and one per row, less half a line
/// spacing, padding again, and the borders.
pub open spec fn spec_window_height(
    border_size: int,
    font_height: int,
    line_spacing: int,
    rows: int,
) -> int {
    PADDING + (font_height + line_spacing) * (1 + rows) - line_spacing / 2 + PADDING + 2
        * border_size
}

/// The window's size in pixels, fixed for the session.
pub fn window_size(border_size: u8, font_height: u16, line_spacing: u16, rows: u16) -> (r: (
    u64,
    u64,
))
    ensures
        r.0 == spec_window_width(border_size as int),
        r.1 == spec_window_height(
            border_size as int,
            font_height as int,
            line_spacing as int,
            rows as int,
        ),
{
    let line: u64 = font_height as u64 + line_spacing as u64;
    let count: u64 = 1 + rows as u64;
    assert(line * count <= 131070 * 65536) by (nonlinear_arith)
        requires
            line <= 131070,
            count <= 65536,
    ;
    assert(line * count >= line_spacing as u64) by (nonlinear_arith)
        requires
            line >= line_spacing as u64,
            count >= 1,
    ;
    let width: u64 = CONTENT_WIDTH + 2 * border_size as u64;
    let height: u64 = PADDING as u64 + line * count - line_spacing as u64 / 2 + PADDING as u64 + 2
        * border_size as u64;
    (width, height)
}

/// The four border bands of a `width` by `height` window, none when
/// `border_size` is 0: top, right, bottom, left.
pub open spec fn spec_borders(border_size: int, width: int, height: int) -> Seq<Rect> {
    if border_size == 0 {
        Seq::empty()
    } else {
        seq![
            Rect { x: 0, y: 0, w: width as u64, h: border_size as u64 },
            Rect { x: (width - border_size) as i64, y: 0, w: border_size as u64, h: height as u64 },
            Rect { x: 0, y: (height - border_size) as i64, w: width as u64, h: border_size as u64 },
            Rect { x: 0, y: 0, w: border_size as u64, h: height as u64 },
        ]
    }
}

/// The border bands of the window.
pub fn draw_borders(border_size: u8, width: u64, height: u64) -> (r: Vec<Rect>)
    requires
        border_size <= width < 0x4000_0000_0000_0000,
        border_size <= height < 0x4000_0000_0000_0000,
    ensures
        r@ == spec_borders(border_size as int, width as int, height as int),
{
    let mut r: Vec<Rect> = Vec::new();
    if border_size > 0 {
        let b = border_size as u64;
        r.push(Rect { x: 0, y: 0, w: width, h: b });
        r.push(Rect { x: (width - b) as i64, y: 0, w: b, h: height });
        r.push(Rect { x: 0, y: (height - b) as i64, w: width, h: b });
        r.push(Rect { x: 0, y: 0, w: b, h: height });
        assert(r@ =~= spec_borders(border_size as int, width as int, height as int));
    } else {
        assert(r@ =~= spec_borders(border_size as int, width as int, height as int));
    }
    r
}

/// What stays fixed over a session for drawing: the colors, the sizes from
/// the settings, the font's line height and the window's size.
#[derive(Clone, Copy, Debug, PartialEq, Eq, Structural)]
pub struct Layout {
    pub palette: Palette,
    pub border_size: u8,
    pub line_spacing: u16,
    pub rows: u16,
    pub font_height: u16,
    pub window_width: u64,
    pub window_height: u64,
}

/// The top of the prompt line.
pub open spec fn spec_input_y(l: Layout) -> int {
    PADDING + l.border_size - 1 + (l.line_spacing + 3) / 4
}

/// The left edge of text.
pub open spec fn spec_text_x(l: Layout) -> int {
    PADDING + l.border_size
}

/// The top of the text of the `k`-th shown row.
pub open spec fn spec_row_y(l: Layout, k: int) -> int {
    l.border_size + PADDING * 2 + (l.font_height + l.line_spacing) * (k + 1)
}

/// The highlight band behind the `k`-th shown row, edge to edge inside the
/// borders.
pub open spec fn spec_band(l: Layout, k: int) -> Rect {
    Rect {
        x: l.border_size as i64,
        y: (spec_row_y(l, k) - l.line_spacing / 2) as i64,
        w: (l.window_width - 2 * l.border_size) as u64,
        h: (l.font_height + l.line_spacing) as u64,
    }
}

/// The prompt line, then the cursor when the window has input focus. The
/// prompt line shows the prompt and the query when either is non-empty; the
/// cursor stands after it.
pub open spec fn spec_input_ops(
    l: Layout,
    prompt: Seq<char>,
    query: Seq<char>,
    text_width: int,
    has_focus: bool,
) -> Seq<DrawSpec> {
    let shown = prompt.len() > 0 || query.len() > 0;
    let text = if shown {
        seq![
            DrawSpec::Text(
                prompt + query,
                spec_text_x(l) as i64,
                spec_input_y(l) as i64,
                l.palette.font,
            ),
        ]
    } else {
        Seq::empty()
    };
    let cursor_x = if shown {
        spec_text_x(l) + text_width
    } else {
        spec_text_x(l)
    };
    let cursor = if has_focus {
        seq![
            DrawSpec::Fill(
                Rect {
                    x: cursor_x as i64,
                    y: spec_input_y(l) as i64,
                    w: CURSOR_WIDTH,
                    h: l.font_height as u64,
                },
                l.palette.background_active,
            ),
        ]
    } else {
        Seq::empty()
    };
    text + cursor
}

/// The two instructions of the `k`-th shown row, showing `text`: its band,
/// then its text, in the active colors when it is the selected row.
pub open spec fn spec_row_ops(l: Layout, text: Seq<char>, k: int, active: bool) -> Seq<DrawSpec> {
    seq![
        DrawSpec::Fill(
            spec_band(l, k),
            if active {
                l.palette.background_active
            } else {
                l.palette.background
            },
        ),
        DrawSpec::Text(
            text,
            spec_text_x(l) as i64,
            spec_row_y(l, k) as i64,
            if active {
                l.palette.font_active
            } else {
                l.palette.font
            },
        ),
    ]
}

/// The rows `start..start + n` of `filtered`, two instructions each.
pub open spec fn spec_rows(
    l: Layout,
    filtered: Seq<Seq<char>>,
    start: int,
    n: int,
    selection: int,
) -> Seq<DrawSpec>
    decreases n,
{
    if n <= 0 {
        Seq::empty()
    } else {
        spec_rows(l, filtered, start, n - 1, selection) + spec_row_ops(
            l,
            filtered[start + n - 1],
            n - 1,
            start + n - 1 == selection,
        )
    }
}

proof fn lemma_window_bounds(border_size: int, font_height: int, line_spacing: int, rows: int)
    requires
        0 <= border_size < 256,
        0 <= font_height < 65536,
        0 <= line_spacing < 65536,
        0 <= rows < 65536,
    ensures
        border_size <= spec_window_height(border_size, font_height, line_spacing, rows)
            < 0x4000_0000_0000_0000,
        border_size <= spec_window_width(border_size) < 0x4000_0000_0000_0000,
{
    let line = font_height + line_spacing;
    let count = 1 + rows;
    assert(line * count <= 131070 * count) by (nonlinear_arith)
        requires
            0 <= line <= 131070,
            1 <= count,
    ;
    assert(131070 * count <= 131070 * 65536) by (nonlinear_arith)
        requires
            count <= 65536,
    ;
    assert(line <= line * count) by (nonlinear_arith)
        requires
            0 <= line,
            1 <= count,
    ;
}

impl Layout {
    /// The window's size follows from the settings and the line height.
    pub open spec fn wf(&self) -> bool {
        &&& self.window_width == spec_window_width(self.border_size as int)
        &&& self.window_height == spec_window_height(
            self.border_size as int,
            self.font_height as int,
            self.line_spacing as int,
            self.rows as int,
        )
    }

    /// The layout of a session with these settings, colors and line height.
    pub fn new(settings: &RunnerMenuSettings, palette: Palette, font_height: u16) -> (r: Layout)
        ensures
            r.wf(),
            r.palette == palette,
            r.border_size == settings.border_size,
            r.line_spacing == settings.line_spacing,
            r.rows == settings.rows,
            r.font_height == font_height,
    {
        let (window_width, window_height) = window_size(
            settings.border_size,
            font_height,
            settings.line_spacing,
            settings.rows,
        );
        Layout {
            palette,
            border_size: settings.border_size,
            line_spacing: settings.line_spacing,
            rows: settings.rows,
            font_height,
            window_width,
            window_height,
        }
    }

    /// The whole frame for `session`: clear to the background, the borders,
    /// the prompt line and cursor, then the rows of the viewport around the
    /// selection. `text_width` is the rendered width of the prompt line.
    pub fn frame(
        &self,
        prompt: &String,
        session: &Session,
        text_width: u32,
        has_focus: bool,
    ) -> (r: Vec<DrawOp>)
        requires
            self.wf(),
            session.wf(),
        ensures
            ({
                let len = session.filtered@.len() as int;
                let sel = session.selection as int;
                let start = spec_view_start(len, self.rows as int, sel);
                let end = spec_view_end(len, self.rows as int, sel);
                ops_view(r@) == seq![DrawSpec::Clear(self.palette.background)]
                    + spec_borders(
                    self.border_size as int,
                    self.window_width as int,
                    self.window_height as int,
                ).map_values(|b: Rect| DrawSpec::Fill(b, self.palette.border)) + spec_input_ops(
                    *self,
                    prompt@,
                    session.query@,
                    text_width as int,
                    has_focus,
                ) + spec_rows(
                    *self,
                    strings_view(session.filtered@),
                    start,
                    end - start,
                    sel,
                )
            }),
    {
        let mut out: Vec<DrawOp> = Vec::new();
        out.push(DrawOp::Clear { color: self.palette.background });
        proof {
            lemma_window_bounds(
                self.border_size as int,
                self.font_height as int,
                self.line_spacing as int,
                self.rows as int,
            );
        }
        let borders = draw_borders(self.border_size, self.window_width, self.window_height);
        let ghost head = ops_view(out@);
        let mut b: usize = 0;
        while b < borders.len()
            invariant
                b <= borders@.len(),
                ops_view(out@) == head + borders@.take(b as int).map_values(
                    |r: Rect| DrawSpec::Fill(r, self.palette.border),
                ),
            decreases borders.len() - b,
        {
            let ghost before = ops_view(out@);
            out.push(DrawOp::Fill { rect: borders[b], color: self.palette.border });
            proof {
                assert(borders@.take(b + 1).map_values(
                    |r: Rect| DrawSpec::Fill(r, self.palette.border),
                ) =~= borders@.take(b as int).map_values(
                    |r: Rect| DrawSpec::Fill(r, self.palette.border),
                ).push(DrawSpec::Fill(borders@[b as int], self.palette.border)));
                assert(ops_view(out@) =~= before.push(
                    DrawSpec::Fill(borders@[b as int], self.palette.border),
                ));
            }
            b += 1;
        }
        proof {
            assert(borders@.take(borders@.len() as int) =~= borders@);
        }
        let ghost after_borders = ops_view(out@);
        let text_x: i64 = PADDING as i64 + self.border_size as i64;
        let input_y: i64 = PADDING as i64 + self.border_size as i64 - 1 + (self.line_spacing as i64
            + 3) / 4;
        let shown = session.query.as_str().unicode_len() > 0 || prompt.as_str().unicode_len() > 0;
        let mut cursor_x: i64 = text_x;
        if shown {
            let mut line = prompt.clone();
            line.append(session.query.as_str());
            out.push(DrawOp::Text { text: line, x: text_x, y: input_y, color: self.palette.font });
            cursor_x = text_x + text_width as i64;
        }
        if has_focus {
            out.push(
                DrawOp::Fill {
                    rect: Rect {
                        x: cursor_x,
                        y: input_y,
                        w: CURSOR_WIDTH,
                        h: self.font_height as u64,
                    },
                    color: self.palette.background_active,
                },
            );
        }
        proof {
            assert(ops_view(out@) =~= after_borders + spec_input_ops(
                *self,
                prompt@,
                session.query@,
                text_width as int,
                has_focus,
            ));
        }
        let ghost after_input = ops_view(out@);
        let ghost names = strings_view(session.filtered@);
        let (start, end) = session.viewport(self.rows as usize);
        let line_height: i64 = self.font_height as i64 + self.line_spacing as i64;
        let band_width: u64 = self.window_width - 2 * self.border_size as u64;
        let mut i: usize = start;
        while i < end
            invariant
                start <= i <= end <= session.filtered@.len(),
                end - start <= self.rows,
                start == spec_view_start(
                    session.filtered@.len() as int,
                    self.rows as int,
                    session.selection as int,
                ),
                line_height == self.font_height + self.line_spacing,
                text_x == spec_text_x(*self),
                band_width == self.window_width - 2 * self.border_size,
                names == strings_view(session.filtered@),
                ops_view(out@) == after_input + spec_rows(
                    *self,
                    names,
                    start as int,
                    i - start,
                    session.selection as int,
                ),
            decreases end - i,
        {
            let k: i64 = (i - start) as i64;
            assert(line_height * (k + 1) <= 131070 * 65536) by (nonlinear_arith)
                requires
                    line_height <= 131070,
                    0 <= k < 65536,
            ;
            assert(line_height * (k + 1) >= line_height) by (nonlinear_arith)
                requires
                    line_height >= 0,
                    k >= 0,
            ;
            let y: i64 = self.border_size as i64 + PADDING as i64 * 2 + line_height * (k + 1);
            let active = i == session.selection;
            let band = Rect {
                x: self.border_size as i64,
                y: y - self.line_spacing as i64 / 2,
                w: band_width,
                h: line_height as u64,
            };
            let ghost before = ops_view(out@);
            if active {
                out.push(DrawOp::Fill { rect: band, color: self.palette.background_active });
                out.push(
                    DrawOp::Text {
                        text: session.filtered[i].clone(),
                        x: text_x,
                        y,
                        color: self.palette.font_active,
                    },
                );
            } else {
                out.push(DrawOp::Fill { rect: band, color: self.palette.background });
                out.push(
                    DrawOp::Text {
                        text: session.filtered[i].clone(),
                        x: text_x,
                        y,
                        color: self.palette.font,
                    },
                );
            }
            proof {
                assert(ops_view(out@) =~= before + spec_row_ops(
                    *self,
                    names[i as int],
                    i - start,
                    active,
                ));
                assert(spec_rows(*self, names, start as int, i + 1 - start, session.selection as int)
                    == spec_rows(*self, names, start as int, i - start, session.selection as int)
                    + spec_row_ops(*self, names[i as int], i - start, active));
                assert(after_input + spec_rows(
                    *self,
                    names,
                    start as int,
                    i + 1 - start,
                    session.selection as int,
                ) =~= before + spec_row_ops(*self, names[i as int], i - start, active));
            }
            i += 1;
        }
        out
    }
}

} // verus!
