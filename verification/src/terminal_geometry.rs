//! The size of the terminal in cells, and of a cell in pixels.
use vstd::prelude::*;

verus! {

/// The width and height of a cell where the terminal does not tell them.
pub const DEFAULT_CELL_WIDTH_PX: u32 = 10;

pub const DEFAULT_CELL_HEIGHT_PX: u32 = 20;

#[derive(Debug, Clone, Copy, PartialEq, Eq, Structural)]
pub struct TerminalGeometry {
    pub cols: u16,
    pub rows: u16,
    pub cell_width_px: u32,
    pub cell_height_px: u32,
}

/// The cells that are left of `cells` beside a margin, at least one.
pub open spec fn cells_within_margin(cells: u16, margin: u16) -> int {
    if cells > margin {
        cells - margin
    } else {
        1
    }
}

/// The cells that a number of pixels takes up, the last one in part.
pub open spec fn covering_cells(pixels: int, cell_px: int) -> int {
    (pixels + cell_px - 1) / cell_px
}

/// The cells that a number of pixels takes up.
pub fn cells_for_pixels(pixels: u32, cell_px: u32) -> (cells: u32)
    requires
        cell_px > 0,
    ensures
        cells == covering_cells(pixels as int, cell_px as int),
{
    let whole: u32 = pixels / cell_px;
    let rest: u32 = pixels % cell_px;
    proof {
        vstd::arithmetic::div_mod::lemma_fundamental_div_mod(pixels as int, cell_px as int);
        if rest == 0 {
            vstd::arithmetic::div_mod::lemma_fundamental_div_mod_converse(
                pixels + cell_px - 1,
                cell_px as int,
                whole as int,
                cell_px - 1,
            );
        } else {
            assert((whole + 1) * cell_px == cell_px * whole + cell_px) by (nonlinear_arith);
            vstd::arithmetic::div_mod::lemma_fundamental_div_mod_converse(
                pixels + cell_px - 1,
                cell_px as int,
                whole + 1,
                rest - 1,
            );
        }
    }
    if rest == 0 {
        whole
    } else {
        assert(whole < u32::MAX) by (nonlinear_arith)
            requires
                pixels == cell_px * whole + rest,
                rest > 0,
                cell_px > 0,
        ;
        whole + 1
    }
}

pub(crate) fn inside_margin(cells: u16, margin: u16) -> (left: u32)
    ensures
        left == cells_within_margin(cells, margin),
{
    if cells > margin {
        (cells - margin) as u32
    } else {
        1
    }
}

impl TerminalGeometry {
    /// A terminal of which only the cells are known.
    pub open spec fn of_cells(cols: u16, rows: u16) -> TerminalGeometry {
        TerminalGeometry {
            cols,
            rows,
            cell_width_px: DEFAULT_CELL_WIDTH_PX,
            cell_height_px: DEFAULT_CELL_HEIGHT_PX,
        }
    }

    /// A terminal whose cells have the given size.
    pub fn with_cell_size(cols: u16, rows: u16, cell_width_px: u32, cell_height_px: u32) -> (geometry:
        Self)
        ensures
            geometry == (TerminalGeometry { cols, rows, cell_width_px, cell_height_px }),
    {
        TerminalGeometry { cols, rows, cell_width_px, cell_height_px }
    }

    /// A terminal of which only the cells are known.
    pub fn from_cells(cols: u16, rows: u16) -> (geometry: Self)
        ensures
            geometry == (TerminalGeometry {
                cols,
                rows,
                cell_width_px: DEFAULT_CELL_WIDTH_PX,
                cell_height_px: DEFAULT_CELL_HEIGHT_PX,
            }),
            geometry == Self::of_cells(cols, rows),
    {
        Self::with_cell_size(cols, rows, DEFAULT_CELL_WIDTH_PX, DEFAULT_CELL_HEIGHT_PX)
    }

    /// The pixels across that a picture may take up beside a margin of columns.
    pub fn drawable_width_px(&self, margin_cols: u16) -> (px: u32)
        requires
            cells_within_margin(self.cols, margin_cols) * self.cell_width_px <= u32::MAX,
        ensures
            px == cells_within_margin(self.cols, margin_cols) * self.cell_width_px,
    {
        inside_margin(self.cols, margin_cols) * self.cell_width_px
    }

    /// The pixels down that a picture may take up beside a margin of rows.
    pub fn drawable_height_px(&self, margin_rows: u16) -> (px: u32)
        requires
            cells_within_margin(self.rows, margin_rows) * self.cell_height_px <= u32::MAX,
        ensures
            px == cells_within_margin(self.rows, margin_rows) * self.cell_height_px,
    {
        inside_margin(self.rows, margin_rows) * self.cell_height_px
    }
}

/// The covering cells are just enough: they hold the pixels, and one fewer would
/// not.
pub proof fn covering_cells_are_just_enough(pixels: int, cell_px: int)
    requires
        pixels > 0,
        cell_px > 0,
    ensures
        covering_cells(pixels, cell_px) * cell_px >= pixels,
        (covering_cells(pixels, cell_px) - 1) * cell_px < pixels,
{
    let n = pixels + cell_px - 1;
    vstd::arithmetic::div_mod::lemma_fundamental_div_mod(n, cell_px);
    assert(covering_cells(pixels, cell_px) == n / cell_px);
    let q = n / cell_px;
    assert(q * cell_px == cell_px * q) by (nonlinear_arith);
    assert((q - 1) * cell_px == cell_px * q - cell_px) by (nonlinear_arith);
}

/// No pixels take up no cell, and whole cells take up as many cells as they are.
pub proof fn whole_cells_are_counted(cells: int, cell_px: int)
    requires
        cells >= 0,
        cell_px > 0,
    ensures
        covering_cells(cells * cell_px, cell_px) == cells,
{
    vstd::arithmetic::div_mod::lemma_fundamental_div_mod_converse(
        cells * cell_px + cell_px - 1,
        cell_px,
        cells,
        cell_px - 1,
    );
    assert(cells * cell_px == cell_px * cells) by (nonlinear_arith);
}

/// Beside a margin just the margin stays free; where there is no room for both, one
/// cell is left.
pub proof fn margin_stays_free(cells: u16, margin: u16)
    ensures
        cells > margin ==> cells_within_margin(cells, margin) + margin == cells,
        cells <= margin ==> cells_within_margin(cells, margin) == 1,
{
}

/// Cells of unknown size are taken to be ten pixels wide and twenty high; columns and rows
/// are kept.
pub proof fn unknown_cells_have_a_size(cols: u16, rows: u16)
    ensures
        ({
            let geometry = TerminalGeometry::of_cells(cols, rows);
            &&& geometry.cols == cols
            &&& geometry.rows == rows
            &&& geometry.cell_width_px == 10
            &&& geometry.cell_height_px == 20
        }),
{
}

} // verus!
