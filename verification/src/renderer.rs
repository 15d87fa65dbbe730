//! Cell-grid renderer: turns one content snapshot into draw primitives,
//! cell by cell in row-major order, honoring dim, inverse and selection
//! color rules, the hovered-hyperlink underline, the cursor shape, and
//! glyph suppression for blank cells. The renderer redraws the full
//! visible grid every invocation; caching is its caller's concern.

use vstd::prelude::*;
use crate::color::{Rgba, Theme};
use crate::content::{Cell, CursorShape, RenderableContent};
use crate::geometry::GridPoint;

verus! {

/// One draw primitive, in pixels.
#[derive(Clone, Copy, Debug, PartialEq, Eq, Structural)]
pub enum DrawOp {
    /// A filled rectangle.
    Rect { x: u32, y: u32, width: u32, height: u32, color: Rgba },
    /// A rectangle outline (the hollow-block cursor).
    Outline { x: u32, y: u32, width: u32, height: u32, color: Rgba },
    /// A stroked horizontal line (the hyperlink underline).
    Line { x1: u32, y1: u32, x2: u32, y2: u32, width: u32, color: Rgba },
    /// One glyph, centered at the given point.
    Glyph { x: u32, y: u32, ch: char, size: u32, color: Rgba },
}

/// A dimmed color: the alpha scaled by 0.7 (in integer arithmetic,
/// seven tenths, rounded down).
pub open spec fn spec_dim(c: Rgba) -> Rgba {
    Rgba { r: c.r, g: c.g, b: c.b, a: (c.a * 7 / 10) as u8 }
}

pub fn dim_color(c: Rgba) -> (r: Rgba)
    ensures
        r == spec_dim(c),
{
    Rgba { r: c.r, g: c.g, b: c.b, a: (c.a as u32 * 7 / 10) as u8 }
}

/// The foreground and background a cell is painted with: resolve both
/// references, dim the foreground of a faint cell, then swap the two for
/// inverse or selected cells.
pub open spec fn spec_cell_colors(theme: Theme, cell: Cell, selected: bool) -> (Rgba, Rgba) {
    let fg0 = theme.spec_color_of(cell.fg);
    let bg0 = theme.spec_color_of(cell.bg);
    let fg1 = if cell.flags.dim || cell.flags.dim_bold {
        spec_dim(fg0)
    } else {
        fg0
    };
    if cell.flags.inverse || selected {
        (bg0, fg1)
    } else {
        (fg1, bg0)
    }
}

/// Whether the cell at `point` shows the hovered hyperlink underline: the
/// hyperlink range covers both this cell and the mouse position.
pub open spec fn spec_link_underlined(content: RenderableContent, mouse: GridPoint, point: GridPoint) -> bool {
    match content.hovered_hyperlink {
        Some(range) => range.spec_contains(point) && range.spec_contains(mouse),
        None => false,
    }
}

/// Whether this cell is inside the active selection.
pub open spec fn spec_selected(content: RenderableContent, point: GridPoint) -> bool {
    match content.selectable_range {
        Some(range) => range.spec_contains(point),
        None => false,
    }
}

/// The cursor primitives at a cell origin: a filled block, a one-pixel
/// beam at the left edge, a one-pixel bar at the bottom edge, a hollow
/// outline, or nothing for a hidden cursor.
pub open spec fn spec_cursor_ops(
    shape: CursorShape,
    x: u32,
    y: u32,
    cw: u32,
    ch: u32,
    color: Rgba,
) -> Seq<DrawOp> {
    match shape {
        CursorShape::Block => seq![DrawOp::Rect { x, y, width: cw, height: ch, color }],
        CursorShape::Beam => seq![DrawOp::Rect { x, y, width: 1, height: ch, color }],
        CursorShape::Underline => seq![
            DrawOp::Rect { x, y: (y + ch - 1) as u32, width: cw, height: 1, color },
        ],
        CursorShape::HollowBlock => seq![DrawOp::Outline { x, y, width: cw, height: ch, color }],
        CursorShape::Hidden => Seq::empty(),
    }
}

/// Everything drawn for the cell at view row `i`, column `j`, in order:
/// the background rectangle always; the hyperlink underline when the
/// hovered link covers both the cell and the mouse; the cursor shape when
/// the cursor sits here; and the glyph unless the cell holds a space or
/// tab. Over a solid block cursor in application-cursor mode the glyph
/// takes the background color so it stays legible.
pub open spec fn spec_cell_ops(
    content: RenderableContent,
    theme: Theme,
    mouse: GridPoint,
    layout_x: u32,
    layout_y: u32,
    font_size: u32,
    i: int,
    j: int,
) -> Seq<DrawOp> {
    let cell = content.cell_at(i, j);
    let point = content.point_at(i, j);
    let cw = content.terminal_size.cell_width;
    let ch = content.terminal_size.cell_height;
    let x = (layout_x + j * cw) as u32;
    let y = (layout_y + i * ch) as u32;
    let colors = spec_cell_colors(theme, cell, spec_selected(content, point));
    let fg = colors.0;
    let bg = colors.1;
    let bg_ops = seq![DrawOp::Rect { x, y, width: cw, height: ch, color: bg }];
    let link_ops: Seq<DrawOp> = if spec_link_underlined(content, mouse, point) {
        seq![
            DrawOp::Line {
                x1: x,
                y1: (y + ch) as u32,
                x2: (x + cw) as u32,
                y2: (y + ch) as u32,
                width: (font_size * 15 / 100) as u32,
                color: fg,
            },
        ]
    } else {
        Seq::empty()
    };
    let cursor_here = content.cursor_point == point;
    let cursor_ops: Seq<DrawOp> = if cursor_here {
        spec_cursor_ops(content.cursor_shape, x, y, cw, ch, theme.spec_color_of(content.cursor_fg))
    } else {
        Seq::empty()
    };
    let glyph_ops: Seq<DrawOp> = if cell.c != ' ' && cell.c != '\t' {
        let gfg = if cursor_here && content.terminal_mode.app_cursor && content.cursor_shape
            == CursorShape::Block {
            bg
        } else {
            fg
        };
        seq![
            DrawOp::Glyph {
                x: (x + cw / 2) as u32,
                y: (y + ch / 2) as u32,
                ch: cell.c,
                size: font_size,
                color: gfg,
            },
        ]
    } else {
        Seq::empty()
    };
    bg_ops + link_ops + cursor_ops + glyph_ops
}

/// The primitives of the first `j` cells of view row `i`.
pub open spec fn spec_row_ops(
    content: RenderableContent,
    theme: Theme,
    mouse: GridPoint,
    layout_x: u32,
    layout_y: u32,
    font_size: u32,
    i: int,
    j: int,
) -> Seq<DrawOp>
    decreases j,
{
    if j <= 0 {
        Seq::empty()
    } else {
        spec_row_ops(content, theme, mouse, layout_x, layout_y, font_size, i, j - 1)
            + spec_cell_ops(content, theme, mouse, layout_x, layout_y, font_size, i, j - 1)
    }
}

/// The primitives of the first `i` full rows, top to bottom.
pub open spec fn spec_frame_ops(
    content: RenderableContent,
    theme: Theme,
    mouse: GridPoint,
    layout_x: u32,
    layout_y: u32,
    font_size: u32,
    i: int,
) -> Seq<DrawOp>
    decreases i,
{
    if i <= 0 {
        Seq::empty()
    } else {
        spec_frame_ops(content, theme, mouse, layout_x, layout_y, font_size, i - 1)
            + spec_row_ops(
            content,
            theme,
            mouse,
            layout_x,
            layout_y,
            font_size,
            i - 1,
            content.terminal_size.num_cols as int,
        )
    }
}

/// Appends the primitives of the cell at view row `i`, column `j`.
#[verifier::rlimit(60)]
fn render_cell(
    ops: &mut Vec<DrawOp>,
    content: &RenderableContent,
    theme: &Theme,
    mouse: GridPoint,
    layout_x: u32,
    layout_y: u32,
    font_size: u32,
    i: usize,
    j: usize,
)
    requires
        content.wf(),
        theme.wf(),
        i < content.terminal_size.num_lines,
        j < content.terminal_size.num_cols,
        layout_x + content.terminal_size.num_cols * content.terminal_size.cell_width <= u32::MAX,
        layout_y + content.terminal_size.num_lines * content.terminal_size.cell_height
            <= u32::MAX,
        font_size <= 10000,
    ensures
        final(ops)@ == old(ops)@ + spec_cell_ops(
            *content,
            *theme,
            mouse,
            layout_x,
            layout_y,
            font_size,
            i as int,
            j as int,
        ),
{
    let cw = content.terminal_size.cell_width;
    let ch = content.terminal_size.cell_height;
    let num_cols = content.terminal_size.num_cols;
    let num_lines = content.terminal_size.num_lines;
    proof {
        assert((j as int + 1) * cw <= num_cols * cw) by (nonlinear_arith)
            requires
                j < num_cols,
                cw >= 0,
        ;
        assert((i as int + 1) * ch <= num_lines * ch) by (nonlinear_arith)
            requires
                i < num_lines,
                ch >= 0,
        ;
        assert(j as int * cw + cw == (j as int + 1) * cw) by (nonlinear_arith);
        assert(i as int * ch + ch == (i as int + 1) * ch) by (nonlinear_arith);
    }
    let ghost prefix = ops@;
    let row = &content.rows[i];
    let cell = row[j];
    let point = GridPoint { line: i as i64 - content.display_offset as i64, column: j as u32 };
    let x: u32 = layout_x + (j as u32) * cw;
    let y: u32 = layout_y + (i as u32) * ch;
    let mut fg = theme.get_color(cell.fg);
    let bg0 = theme.get_color(cell.bg);
    if cell.flags.dim || cell.flags.dim_bold {
        fg = dim_color(fg);
    }
    let selected: bool = match &content.selectable_range {
        Some(range) => range.contains(point),
        None => false,
    };
    let (fg, bg): (Rgba, Rgba) = if cell.flags.inverse || selected {
        (bg0, fg)
    } else {
        (fg, bg0)
    };
    ops.push(DrawOp::Rect { x, y, width: cw, height: ch, color: bg });
    let linked: bool = match &content.hovered_hyperlink {
        Some(range) => range.contains(point) && range.contains(mouse),
        None => false,
    };
    if linked {
        ops.push(
            DrawOp::Line {
                x1: x,
                y1: y + ch,
                x2: x + cw,
                y2: y + ch,
                width: font_size * 15 / 100,
                color: fg,
            },
        );
    }
    let cursor_here = content.cursor_point.line == point.line && content.cursor_point.column
        == point.column;
    if cursor_here {
        let cursor_color = theme.get_color(content.cursor_fg);
        match content.cursor_shape {
            CursorShape::Block => {
                ops.push(DrawOp::Rect { x, y, width: cw, height: ch, color: cursor_color });
            },
            CursorShape::Beam => {
                ops.push(DrawOp::Rect { x, y, width: 1, height: ch, color: cursor_color });
            },
            CursorShape::Underline => {
                ops.push(
                    DrawOp::Rect { x, y: y + ch - 1, width: cw, height: 1, color: cursor_color },
                );
            },
            CursorShape::HollowBlock => {
                ops.push(DrawOp::Outline { x, y, width: cw, height: ch, color: cursor_color });
            },
            CursorShape::Hidden => {},
        }
    }
    if cell.c != ' ' && cell.c != '\t' {
        let is_block = match content.cursor_shape {
            CursorShape::Block => true,
            _ => false,
        };
        let gfg = if cursor_here && content.terminal_mode.app_cursor && is_block {
            bg
        } else {
            fg
        };
        ops.push(
            DrawOp::Glyph { x: x + cw / 2, y: y + ch / 2, ch: cell.c, size: font_size, color: gfg },
        );
    }
    proof {
        assert(cell == content.cell_at(i as int, j as int));
        assert(point == content.point_at(i as int, j as int));
        assert(ops@ =~= prefix + spec_cell_ops(
            *content,
            *theme,
            mouse,
            layout_x,
            layout_y,
            font_size,
            i as int,
            j as int,
        ));
    }
}

/// Renders the full visible grid: the draw primitives of every cell in
/// row-major order.
pub fn render_frame(
    content: &RenderableContent,
    theme: &Theme,
    mouse: GridPoint,
    layout_x: u32,
    layout_y: u32,
    font_size: u32,
) -> (ops: Vec<DrawOp>)
    requires
        content.wf(),
        theme.wf(),
        layout_x + content.terminal_size.num_cols * content.terminal_size.cell_width <= u32::MAX,
        layout_y + content.terminal_size.num_lines * content.terminal_size.cell_height
            <= u32::MAX,
        font_size <= 10000,
    ensures
        ops@ == spec_frame_ops(
            *content,
            *theme,
            mouse,
            layout_x,
            layout_y,
            font_size,
            content.terminal_size.num_lines as int,
        ),
{
    let num_lines = content.terminal_size.num_lines;
    let num_cols = content.terminal_size.num_cols;
    let cw = content.terminal_size.cell_width;
    let ch = content.terminal_size.cell_height;
    let mut ops: Vec<DrawOp> = Vec::new();
    let mut i: usize = 0;
    while i < num_lines as usize
        invariant
            i <= num_lines,
            content.wf(),
            theme.wf(),
            layout_x + num_cols * cw <= u32::MAX,
            layout_y + num_lines * ch <= u32::MAX,
            font_size <= 10000,
            num_lines == content.terminal_size.num_lines,
            num_cols == content.terminal_size.num_cols,
            cw == content.terminal_size.cell_width,
            ch == content.terminal_size.cell_height,
            ops@ == spec_frame_ops(
                *content,
                *theme,
                mouse,
                layout_x,
                layout_y,
                font_size,
                i as int,
            ),
        decreases num_lines - i,
    {
        let mut j: usize = 0;
        while j < num_cols as usize
            invariant
                j <= num_cols,
                i < num_lines,
                content.wf(),
                theme.wf(),
                layout_x + num_cols * cw <= u32::MAX,
                layout_y + num_lines * ch <= u32::MAX,
                font_size <= 10000,
                num_lines == content.terminal_size.num_lines,
                num_cols == content.terminal_size.num_cols,
                cw == content.terminal_size.cell_width,
                ch == content.terminal_size.cell_height,
                ops@ == spec_frame_ops(
                    *content,
                    *theme,
                    mouse,
                    layout_x,
                    layout_y,
                    font_size,
                    i as int,
                ) + spec_row_ops(
                    *content,
                    *theme,
                    mouse,
                    layout_x,
                    layout_y,
                    font_size,
                    i as int,
                    j as int,
                ),
            decreases num_cols - j,
        {
            render_cell(&mut ops, content, theme, mouse, layout_x, layout_y, font_size, i, j);
            j += 1;
        }
        i += 1;
    }
    ops
}

/// The pointer look over the pane: an I-beam over the grid (unless the
/// application asked for SGR mouse reporting), a pointing hand over a
/// hovered hyperlink, and the idle arrow otherwise.
#[derive(Clone, Copy, Debug, PartialEq, Eq, Structural)]
pub enum Interaction {
    Idle,
    Text,
    Pointer,
}

/// Whether the mouse sits on the hovered hyperlink range.
pub open spec fn spec_cursor_on_hyperlink(content: RenderableContent, mouse: GridPoint) -> bool {
    match content.hovered_hyperlink {
        Some(range) => range.spec_contains(mouse),
        None => false,
    }
}

pub fn is_cursor_hovered_hyperlink(content: &RenderableContent, mouse: GridPoint) -> (r: bool)
    ensures
        r == spec_cursor_on_hyperlink(*content, mouse),
{
    match &content.hovered_hyperlink {
        Some(range) => range.contains(mouse),
        None => false,
    }
}

/// What the mouse pointer shows: text over the grid without SGR mouse
/// mode, a pointer over a hovered link (which wins), idle otherwise.
pub open spec fn spec_mouse_interaction(
    content: Option<RenderableContent>,
    mouse: GridPoint,
    cursor_in_layout: bool,
) -> Interaction {
    let sgr = match content {
        Some(c) => c.terminal_mode.sgr_mouse,
        None => false,
    };
    let on_link = match content {
        Some(c) => spec_cursor_on_hyperlink(c, mouse),
        None => false,
    };
    if on_link {
        Interaction::Pointer
    } else if cursor_in_layout && !sgr {
        Interaction::Text
    } else {
        Interaction::Idle
    }
}

pub fn mouse_interaction(
    content: Option<&RenderableContent>,
    mouse: GridPoint,
    cursor_in_layout: bool,
) -> (r: Interaction)
    ensures
        r == spec_mouse_interaction(crate::input::opt_deref(content), mouse, cursor_in_layout),
{
    let mut result = Interaction::Idle;
    let sgr = match content {
        Some(c) => c.terminal_mode.sgr_mouse,
        None => false,
    };
    if cursor_in_layout && !sgr {
        result = Interaction::Text;
    }
    let on_link = match content {
        Some(c) => is_cursor_hovered_hyperlink(c, mouse),
        None => false,
    };
    if on_link {
        result = Interaction::Pointer;
    }
    result
}

} // verus!
