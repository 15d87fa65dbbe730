//! Grid coordinate mapper: pure conversions between pixel positions and
//! terminal grid coordinates, given cell metrics and the display scroll
//! offset.

use vstd::prelude::*;

verus! {

/// A cell position in the terminal buffer. `line` is relative to the top of
/// the active screen: line 0 is the topmost screen row, and rows scrolled
/// back into history have negative line numbers. `column` counts from the
/// left edge.
#[derive(Clone, Copy, Debug, PartialEq, Eq, Structural)]
pub struct GridPoint {
    pub line: i64,
    pub column: u32,
}

/// Cell metrics and grid dimensions of one terminal view.
#[derive(Clone, Copy, Debug, PartialEq, Eq, Structural)]
pub struct TermSize {
    pub cell_width: u32,
    pub cell_height: u32,
    pub num_cols: u32,
    pub num_lines: u32,
}

impl TermSize {
    /// Well-formed metrics: cells have positive extent, the grid is
    /// non-empty, and the whole grid fits in pixel coordinates.
    pub open spec fn wf(self) -> bool {
        &&& self.cell_width > 0
        &&& self.cell_height > 0
        &&& self.num_cols > 0
        &&& self.num_lines > 0
        &&& self.num_cols * self.cell_width <= u32::MAX
        &&& self.num_lines * self.cell_height <= u32::MAX
    }
}

pub open spec fn spec_min_u32(a: u32, b: u32) -> u32 {
    if a < b {
        a
    } else {
        b
    }
}

/// The grid point under the pixel position `(x, y)` (already relative to the
/// pane's layout origin). Truncating division floors toward the cell that
/// contains the point; out-of-grid positions clamp to the last column or
/// line. The display offset shifts the result so that it names a line of the
/// logical buffer, not merely of the visible viewport.
pub open spec fn spec_selection_point(x: u32, y: u32, size: TermSize, display_offset: u32) -> GridPoint {
    GridPoint {
        line: (spec_min_u32(y / size.cell_height, (size.num_lines - 1) as u32) - display_offset) as i64,
        column: spec_min_u32(x / size.cell_width, (size.num_cols - 1) as u32),
    }
}

/// The pixel origin (top-left corner) of the cell at `point`, for a grid
/// whose topmost visible row is line `-display_offset`.
pub open spec fn spec_grid_to_pixel(point: GridPoint, size: TermSize, display_offset: u32) -> (u32, u32) {
    (
        (point.column * size.cell_width) as u32,
        ((point.line + display_offset) * size.cell_height) as u32,
    )
}

/// The center of the cell whose origin is `(px, py)`.
pub open spec fn spec_cell_center(px: u32, py: u32, size: TermSize) -> (u32, u32) {
    ((px + size.cell_width / 2) as u32, (py + size.cell_height / 2) as u32)
}

/// Whether `point` lies inside the grid described by `size`, once the
/// display offset is taken into account: its view row `line +
/// display_offset` is one of the visible rows.
pub open spec fn in_grid(point: GridPoint, size: TermSize, display_offset: u32) -> bool {
    &&& 0 <= point.line + display_offset < size.num_lines
    &&& point.column < size.num_cols
}

pub fn selection_point(x: u32, y: u32, size: &TermSize, display_offset: u32) -> (r: GridPoint)
    requires
        size.wf(),
    ensures
        r == spec_selection_point(x, y, *size, display_offset),
{
    let col: u32 = x / size.cell_width;
    let col: u32 = if col < size.num_cols - 1 {
        col
    } else {
        size.num_cols - 1
    };
    let view_line: u32 = y / size.cell_height;
    let view_line: u32 = if view_line < size.num_lines - 1 {
        view_line
    } else {
        size.num_lines - 1
    };
    GridPoint { line: view_line as i64 - display_offset as i64, column: col }
}

pub fn grid_to_pixel(point: GridPoint, size: &TermSize, display_offset: u32) -> (r: (u32, u32))
    requires
        size.wf(),
        in_grid(point, *size, display_offset),
    ensures
        r == spec_grid_to_pixel(point, *size, display_offset),
{
    proof {
        lemma_grid_pixel_bounds(point, *size, display_offset);
    }
    let view_line: u32 = (point.line + display_offset as i64) as u32;
    (point.column * size.cell_width, view_line * size.cell_height)
}

pub fn cell_center(px: u32, py: u32, size: &TermSize) -> (r: (u32, u32))
    requires
        size.wf(),
        px + size.cell_width / 2 <= u32::MAX,
        py + size.cell_height / 2 <= u32::MAX,
    ensures
        r == spec_cell_center(px, py, *size),
{
    (px + size.cell_width / 2, py + size.cell_height / 2)
}

/// The pixel origin of an in-grid cell stays within the grid's pixel extent.
proof fn lemma_grid_pixel_bounds(point: GridPoint, size: TermSize, display_offset: u32)
    requires
        size.wf(),
        in_grid(point, size, display_offset),
    ensures
        point.column * size.cell_width + size.cell_width <= size.num_cols * size.cell_width,
        (point.line + display_offset) * size.cell_height + size.cell_height <= size.num_lines
            * size.cell_height,
{
    assert(point.column * size.cell_width + size.cell_width <= size.num_cols * size.cell_width)
        by (nonlinear_arith)
        requires
            point.column < size.num_cols,
            size.cell_width > 0,
    ;
    assert((point.line + display_offset) * size.cell_height + size.cell_height <= size.num_lines
        * size.cell_height) by (nonlinear_arith)
        requires
            0 <= point.line + display_offset < size.num_lines,
            size.cell_height > 0,
    ;
}

/// Coordinate round-trip: for every grid point within bounds, mapping it to
/// its pixel origin, taking the center of that cell, and mapping the center
/// back to the grid returns the original point.
pub proof fn lemma_grid_pixel_round_trip(point: GridPoint, size: TermSize, display_offset: u32)
    requires
        size.wf(),
        in_grid(point, size, display_offset),
    ensures
        ({
            let (px, py) = spec_grid_to_pixel(point, size, display_offset);
            let (cx, cy) = spec_cell_center(px, py, size);
            spec_selection_point(cx, cy, size, display_offset) == point
        }),
{
    lemma_grid_pixel_bounds(point, size, display_offset);
    let (px, py) = spec_grid_to_pixel(point, size, display_offset);
    let (cx, cy) = spec_cell_center(px, py, size);
    assert(cx == point.column * size.cell_width + size.cell_width / 2);
    assert(cy == (point.line + display_offset) * size.cell_height + size.cell_height / 2);
    assert(cx / size.cell_width == point.column) by (nonlinear_arith)
        requires
            size.cell_width > 0,
            cx == point.column * size.cell_width + size.cell_width / 2,
    ;
    assert(cy / size.cell_height == point.line + display_offset) by (nonlinear_arith)
        requires
            size.cell_height > 0,
            cy == (point.line + display_offset) * size.cell_height + size.cell_height / 2,
    ;
    assert(spec_selection_point(cx, cy, size, display_offset).column == point.column);
    assert(spec_selection_point(cx, cy, size, display_offset).line == point.line);
}

/// Whether the pixel position `(x, y)` lies inside the rectangle whose
/// origin is `(rx, ry)` and whose extent is `(width, height)`.
pub open spec fn spec_in_rect(x: u32, y: u32, rx: u32, ry: u32, width: u32, height: u32) -> bool {
    &&& x >= rx
    &&& y >= ry
    &&& x < rx + width
    &&& y < ry + height
}

/// Containment test used to gate mouse events on the pane's layout bounds.
pub fn in_rect(x: u32, y: u32, rx: u32, ry: u32, width: u32, height: u32) -> (r: bool)
    ensures
        r == spec_in_rect(x, y, rx, ry, width, height),
{
    x >= rx && y >= ry && (x as u64) < rx as u64 + width as u64 && (y as u64) < ry as u64
        + height as u64
}

} // verus!
