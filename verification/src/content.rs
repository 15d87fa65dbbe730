//! The per-frame snapshot of a terminal grid, as the renderer and the input
//! state machine read it: styled cells, cursor, selection, hovered
//! hyperlink, mode flags and metrics. The snapshot is read-only for the
//! duration of one frame.

use vstd::prelude::*;
use crate::color::AnsiColor;
use crate::geometry::{GridPoint, TermSize};
use crate::modes::TermMode;

verus! {

/// Style flags of one cell that the renderer honors.
#[derive(Clone, Copy, Debug, PartialEq, Eq, Structural)]
pub struct CellFlags {
    /// Swap foreground and background.
    pub inverse: bool,
    /// Faint text: foreground alpha is scaled down.
    pub dim: bool,
    /// Faint and bold at once; dims like `dim`.
    pub dim_bold: bool,
}

impl CellFlags {
    pub open spec fn spec_empty() -> CellFlags {
        CellFlags { inverse: false, dim: false, dim_bold: false }
    }

    pub fn empty() -> (r: CellFlags)
        ensures
            r == CellFlags::spec_empty(),
    {
        CellFlags { inverse: false, dim: false, dim_bold: false }
    }
}

/// One grid cell: a character with its color references and style flags.
#[derive(Clone, Copy, Debug, PartialEq, Eq, Structural)]
pub struct Cell {
    pub c: char,
    pub fg: AnsiColor,
    pub bg: AnsiColor,
    pub flags: CellFlags,
}

/// The cursor shapes the renderer draws.
#[derive(Clone, Copy, Debug, PartialEq, Eq, Structural)]
pub enum CursorShape {
    /// A filled cell-sized block.
    Block,
    /// A one-pixel-wide vertical beam at the cell's left edge.
    Beam,
    /// A one-pixel-high bar along the cell's bottom edge.
    Underline,
    /// A cell-sized outline.
    HollowBlock,
    /// No visible cursor.
    Hidden,
}

/// The extent of the active selection, inclusive on both ends. On the start
/// line only columns at or after `start.column` belong to it; on the end
/// line only columns at or before `end.column`; every cell of any line
/// strictly between belongs to it.
#[derive(Clone, Copy, Debug, PartialEq, Eq, Structural)]
pub struct SelectionRange {
    pub start: GridPoint,
    pub end: GridPoint,
}

impl SelectionRange {
    pub open spec fn spec_contains(self, p: GridPoint) -> bool {
        &&& self.start.line <= p.line <= self.end.line
        &&& (self.start.line != p.line || self.start.column <= p.column)
        &&& (self.end.line != p.line || p.column <= self.end.column)
    }

    pub fn contains(&self, p: GridPoint) -> (r: bool)
        ensures
            r == self.spec_contains(p),
    {
        self.start.line <= p.line && p.line <= self.end.line && (self.start.line != p.line
            || self.start.column <= p.column) && (self.end.line != p.line || p.column
            <= self.end.column)
    }
}

/// A contiguous grid span recognized as one clickable link, inclusive on
/// both ends in reading order: a point belongs to it when it lies between
/// `start` and `end` in (line, column) order.
#[derive(Clone, Copy, Debug, PartialEq, Eq, Structural)]
pub struct HyperlinkRange {
    pub start: GridPoint,
    pub end: GridPoint,
}

/// Reading order on grid points: by line, then by column.
pub open spec fn point_le(a: GridPoint, b: GridPoint) -> bool {
    a.line < b.line || (a.line == b.line && a.column <= b.column)
}

impl HyperlinkRange {
    pub open spec fn spec_contains(self, p: GridPoint) -> bool {
        point_le(self.start, p) && point_le(p, self.end)
    }

    pub fn contains(&self, p: GridPoint) -> (r: bool)
        ensures
            r == self.spec_contains(p),
    {
        (self.start.line < p.line || (self.start.line == p.line && self.start.column <= p.column))
            && (p.line < self.end.line || (p.line == self.end.line && p.column
            <= self.end.column))
    }
}

/// The read-only snapshot of one terminal view for one frame. Row `i` of
/// `rows` holds the visible line `i - display_offset` of the logical
/// buffer, top row first.
#[derive(Clone, Debug)]
pub struct RenderableContent {
    pub rows: Vec<Vec<Cell>>,
    pub cursor_point: GridPoint,
    pub cursor_fg: AnsiColor,
    pub cursor_shape: CursorShape,
    pub display_offset: u32,
    pub selectable_range: Option<SelectionRange>,
    pub hovered_hyperlink: Option<HyperlinkRange>,
    pub terminal_mode: TermMode,
    pub terminal_size: TermSize,
}

impl RenderableContent {
    /// The snapshot's grid agrees with its metrics.
    pub open spec fn wf(self) -> bool {
        &&& self.terminal_size.wf()
        &&& self.rows@.len() == self.terminal_size.num_lines
        &&& forall|i: int|
            0 <= i < self.rows@.len() ==> #[trigger] self.rows@[i]@.len()
                == self.terminal_size.num_cols
    }

    /// The cell at view row `i`, column `j`.
    pub open spec fn cell_at(self, i: int, j: int) -> Cell {
        self.rows@[i]@[j]
    }

    /// The logical grid point of view row `i`, column `j`.
    pub open spec fn point_at(self, i: int, j: int) -> GridPoint {
        GridPoint { line: (i - self.display_offset) as i64, column: j as u32 }
    }
}

} // verus!
