//! Where a video and its status row stand in the terminal.
use vstd::prelude::*;
use crate::terminal_geometry;
use crate::terminal_geometry::{cells_for_pixels, inside_margin, TerminalGeometry};

verus! {

/// The columns and rows that stay free around a picture.
pub const FIT_MARGIN_COLS: u16 = 4;

pub const FIT_MARGIN_ROWS: u16 = 2;

/// The size at which a video is shown, in cells and in pixels.
#[derive(Debug, Clone, Copy, PartialEq, Eq, Structural)]
pub struct VideoDisplaySize {
    pub target_cols: u32,
    pub target_rows: u32,
    pub target_w_px: u32,
    pub target_h_px: u32,
}

/// The largest size that a picture may take up, in cells and in pixels.
#[derive(Debug, Clone, Copy, PartialEq, Eq, Structural)]
pub struct FitBounds {
    pub max_cols: u32,
    pub max_rows: u32,
    pub max_w_px: u32,
    pub max_h_px: u32,
}

/// The terminal, parted into the video area and the status row below it.
#[derive(Debug, Clone, Copy, PartialEq, Eq, Structural)]
pub struct VideoTerminalLayout {
    pub cols: u16,
    pub rows: u16,
    pub cell_width_px: u32,
    pub cell_height_px: u32,
    pub video_area_rows: u16,
    pub status_row: Option<u16>,
}

/// The top left cell of something centered in a range of cells, both measured in
/// cells; what is larger than the range starts at its edge.
pub open spec fn centered_origin(area: int, size: int) -> int {
    if size < area {
        (area - size) / 2
    } else {
        0
    }
}

impl VideoTerminalLayout {
    /// The status row is the last row, and the video area all rows above it. A
    /// terminal of one row has no status row.
    pub open spec fn wf(self) -> bool {
        &&& self.cols >= 1
        &&& self.rows >= 1
        &&& self.status_row == (if self.rows >= 2 {
            Some((self.rows - 1) as u16)
        } else {
            None
        })
        &&& self.video_area_rows == (if self.rows >= 2 {
            self.rows - 1
        } else {
            1
        })
    }

    /// The layout of a terminal. One without columns or rows counts as having one.
    pub open spec fn of(geometry: TerminalGeometry) -> VideoTerminalLayout {
        let rows: u16 = if geometry.rows < 1 {
            1
        } else {
            geometry.rows
        };
        VideoTerminalLayout {
            cols: if geometry.cols < 1 {
                1
            } else {
                geometry.cols
            },
            rows,
            cell_width_px: geometry.cell_width_px,
            cell_height_px: geometry.cell_height_px,
            video_area_rows: if rows >= 2 {
                (rows - 1) as u16
            } else {
                1
            },
            status_row: if rows >= 2 {
                Some((rows - 1) as u16)
            } else {
                None
            },
        }
    }

    /// Lays out a terminal.
    pub fn from_geometry(geometry: TerminalGeometry) -> (layout: Self)
        ensures
            layout.wf(),
            layout == Self::of(geometry),
    {
        let cols: u16 = if geometry.cols < 1 {
            1
        } else {
            geometry.cols
        };
        let rows: u16 = if geometry.rows < 1 {
            1
        } else {
            geometry.rows
        };
        let status_row: Option<u16> = if rows >= 2 {
            Some(rows - 1)
        } else {
            None
        };
        let video_area_rows: u16 = if status_row.is_some() {
            rows - 1
        } else {
            rows
        };
        VideoTerminalLayout {
            cols,
            rows,
            cell_width_px: geometry.cell_width_px,
            cell_height_px: geometry.cell_height_px,
            video_area_rows,
            status_row,
        }
    }

    /// The top left cell of a video, which is centered in the video area.
    pub fn origin_for(self, display_size: VideoDisplaySize) -> (origin: (u16, u16))
        ensures
            origin.0 == centered_origin(self.cols as int, display_size.target_cols as int),
            origin.1 == centered_origin(
                self.video_area_rows as int,
                display_size.target_rows as int,
            ),
    {
        let target_cols: u16 = if display_size.target_cols < self.cols as u32 {
            display_size.target_cols as u16
        } else {
            self.cols
        };
        let target_rows: u16 = if display_size.target_rows < self.video_area_rows as u32 {
            display_size.target_rows as u16
        } else {
            self.video_area_rows
        };
        ((self.cols - target_cols) / 2, (self.video_area_rows - target_rows) / 2)
    }

    /// The bounds of the video area within its margin can be told in pixels.
    pub open spec fn bounds_fit(self) -> bool {
        &&& terminal_geometry::cells_within_margin(self.cols, FIT_MARGIN_COLS) * self.cell_width_px
            <= u32::MAX
        &&& terminal_geometry::cells_within_margin(self.video_area_rows, FIT_MARGIN_ROWS)
            * self.cell_height_px <= u32::MAX
    }

    /// The largest size that a video may take up.
    pub open spec fn bounds(self) -> FitBounds {
        let cols = terminal_geometry::cells_within_margin(self.cols, FIT_MARGIN_COLS) as u32;
        let rows = terminal_geometry::cells_within_margin(
            self.video_area_rows,
            FIT_MARGIN_ROWS,
        ) as u32;
        FitBounds {
            max_cols: cols,
            max_rows: rows,
            max_w_px: (cols * self.cell_width_px) as u32,
            max_h_px: (rows * self.cell_height_px) as u32,
        }
    }

    /// The largest size that a video may take up.
    pub fn fit_bounds(self) -> (bounds: FitBounds)
        requires
            self.bounds_fit(),
        ensures
            bounds.max_cols == terminal_geometry::cells_within_margin(self.cols, FIT_MARGIN_COLS),
            bounds.max_rows == terminal_geometry::cells_within_margin(
                self.video_area_rows,
                FIT_MARGIN_ROWS,
            ),
            bounds.max_w_px == bounds.max_cols * self.cell_width_px,
            bounds.max_h_px == bounds.max_rows * self.cell_height_px,
            bounds == self.bounds(),
    {
        let max_cols: u32 = inside_margin(self.cols, FIT_MARGIN_COLS);
        let max_rows: u32 = inside_margin(self.video_area_rows, FIT_MARGIN_ROWS);
        FitBounds {
            max_cols,
            max_rows,
            max_w_px: max_cols * self.cell_width_px,
            max_h_px: max_rows * self.cell_height_px,
        }
    }

    /// The size in cells and pixels of a video that was scaled to the given
    /// pixels. It takes up no more cells than the bounds have.
    pub fn display_size_for(self, target_w_px: u32, target_h_px: u32) -> (size: VideoDisplaySize)
        requires
            self.cell_width_px > 0,
            self.cell_height_px > 0,
        ensures
            size.target_w_px == target_w_px,
            size.target_h_px == target_h_px,
            size.target_cols == video_cells(
                target_w_px as int,
                self.cell_width_px as int,
                self.cols,
                FIT_MARGIN_COLS,
            ),
            size.target_rows == video_cells(
                target_h_px as int,
                self.cell_height_px as int,
                self.video_area_rows,
                FIT_MARGIN_ROWS,
            ),
            ({
                let cols = terminal_geometry::covering_cells(
                    target_w_px as int,
                    self.cell_width_px as int,
                );
                let max = terminal_geometry::cells_within_margin(self.cols, FIT_MARGIN_COLS);
                size.target_cols == (if cols < max {
                    cols
                } else {
                    max
                })
            }),
            ({
                let rows = terminal_geometry::covering_cells(
                    target_h_px as int,
                    self.cell_height_px as int,
                );
                let max = terminal_geometry::cells_within_margin(
                    self.video_area_rows,
                    FIT_MARGIN_ROWS,
                );
                size.target_rows == (if rows < max {
                    rows
                } else {
                    max
                })
            }),
    {
        let cols: u32 = cells_for_pixels(target_w_px, self.cell_width_px);
        let rows: u32 = cells_for_pixels(target_h_px, self.cell_height_px);
        let max_cols: u32 = inside_margin(self.cols, FIT_MARGIN_COLS);
        let max_rows: u32 = inside_margin(self.video_area_rows, FIT_MARGIN_ROWS);
        VideoDisplaySize {
            target_cols: if cols < max_cols {
                cols
            } else {
                max_cols
            },
            target_rows: if rows < max_rows {
                rows
            } else {
                max_rows
            },
            target_w_px,
            target_h_px,
        }
    }
}

/// The bytes of a frame: four for every pixel.
pub open spec fn frame_bytes(size: VideoDisplaySize) -> int {
    size.target_w_px * size.target_h_px * 4
}

/// An empty frame of a display size.
pub fn output_buffer_for(display_size: VideoDisplaySize) -> (buffer: Vec<u8>)
    requires
        frame_bytes(display_size) <= u32::MAX,
    ensures
        buffer@ == Seq::new(frame_bytes(display_size) as nat, |i: int| 0u8),
{
    assert(0 <= display_size.target_w_px * display_size.target_h_px <= u32::MAX)
        by (nonlinear_arith)
        requires
            0 <= display_size.target_w_px * display_size.target_h_px * 4 <= u32::MAX,
    ;
    let len: usize = (display_size.target_w_px * display_size.target_h_px * 4) as usize;
    let buffer: Vec<u8> = vec![0u8; len];
    assert(buffer@ =~= Seq::new(frame_bytes(display_size) as nat, |i: int| 0u8));
    buffer
}

/// The bytes of one line of a frame.
pub fn line_bytes(display_size: VideoDisplaySize) -> (bytes: u32)
    requires
        display_size.target_w_px * 4 <= u32::MAX,
    ensures
        bytes == display_size.target_w_px * 4,
{
    display_size.target_w_px * 4
}

/// A video that fits is shown whole inside the video area, as far from the left
/// as from the right and from the top as from the bottom, up to one cell; and
/// the status row is not part of that area.
pub proof fn fitting_video_is_centered(layout: VideoTerminalLayout, size: VideoDisplaySize)
    requires
        layout.wf(),
        size.target_cols <= layout.cols,
        size.target_rows <= layout.video_area_rows,
    ensures
        ({
            let left = centered_origin(layout.cols as int, size.target_cols as int);
            let top = centered_origin(layout.video_area_rows as int, size.target_rows as int);
            let right = layout.cols - left - size.target_cols;
            let bottom = layout.video_area_rows - top - size.target_rows;
            &&& 0 <= left <= right <= left + 1
            &&& 0 <= top <= bottom <= top + 1
            &&& layout.status_row matches Some(row) ==> top + size.target_rows <= row
                < layout.rows
        }),
{
}

/// The bounds leave the margin free on every terminal that is larger than the
/// margin, and always fit the terminal.
pub proof fn bounds_keep_the_margin(layout: VideoTerminalLayout)
    requires
        layout.wf(),
    ensures
        ({
            let cols = terminal_geometry::cells_within_margin(layout.cols, FIT_MARGIN_COLS);
            let rows = terminal_geometry::cells_within_margin(
                layout.video_area_rows,
                FIT_MARGIN_ROWS,
            );
            &&& 1 <= cols <= layout.cols
            &&& 1 <= rows <= layout.video_area_rows
            &&& layout.cols > FIT_MARGIN_COLS ==> cols + FIT_MARGIN_COLS == layout.cols
            &&& layout.video_area_rows > FIT_MARGIN_ROWS ==> rows + FIT_MARGIN_ROWS
                == layout.video_area_rows
        }),
{
}

/// A terminal keeps its columns, rows and cells, and has at least one column and one
/// row. Its last row is the status row and all rows above it are for the video; a
/// terminal of one row is all video.
pub proof fn layout_parts_the_terminal(geometry: TerminalGeometry)
    ensures
        ({
            let layout = VideoTerminalLayout::of(geometry);
            &&& geometry.cols >= 1 ==> layout.cols == geometry.cols
            &&& geometry.cols == 0 ==> layout.cols == 1
            &&& geometry.rows >= 1 ==> layout.rows == geometry.rows
            &&& geometry.rows == 0 ==> layout.rows == 1
            &&& layout.cell_width_px == geometry.cell_width_px
            &&& layout.cell_height_px == geometry.cell_height_px
            &&& geometry.rows >= 2 ==> layout.status_row == Some((geometry.rows - 1) as u16)
                && layout.video_area_rows == geometry.rows - 1
            &&& geometry.rows <= 1 ==> layout.status_row is None && layout.video_area_rows == 1
        }),
{
}

/// The cells of a video that was scaled to a number of pixels, in one direction.
pub open spec fn video_cells(pixels: int, cell_px: int, area: u16, margin: u16) -> int {
    let cells = terminal_geometry::covering_cells(pixels, cell_px);
    let most = terminal_geometry::cells_within_margin(area, margin);
    if cells < most {
        cells
    } else {
        most
    }
}

/// A video takes up just the cells that its pixels touch, unless that would reach into
/// the margin: of the columns four stay free, and of the rows two, as far as there are
/// more.
pub proof fn video_takes_up_the_cells_it_touches(
    layout: VideoTerminalLayout,
    width_px: u32,
    height_px: u32,
)
    requires
        layout.cell_width_px > 0,
        layout.cell_height_px > 0,
        width_px > 0,
        height_px > 0,
    ensures
        ({
            let cols = video_cells(
                width_px as int,
                layout.cell_width_px as int,
                layout.cols,
                FIT_MARGIN_COLS,
            );
            let rows = video_cells(
                height_px as int,
                layout.cell_height_px as int,
                layout.video_area_rows,
                FIT_MARGIN_ROWS,
            );
            let most_cols: int = if layout.cols > 4 {
                layout.cols - 4
            } else {
                1
            };
            let most_rows: int = if layout.video_area_rows > 2 {
                layout.video_area_rows - 2
            } else {
                1
            };
            &&& 1 <= cols <= most_cols
            &&& 1 <= rows <= most_rows
            &&& (cols - 1) * layout.cell_width_px < width_px
            &&& (rows - 1) * layout.cell_height_px < height_px
            &&& cols * layout.cell_width_px >= width_px || cols == most_cols
            &&& rows * layout.cell_height_px >= height_px || rows == most_rows
        }),
{
    cells_touched(width_px as int, layout.cell_width_px as int, layout.cols, FIT_MARGIN_COLS);
    cells_touched(
        height_px as int,
        layout.cell_height_px as int,
        layout.video_area_rows,
        FIT_MARGIN_ROWS,
    );
}

proof fn cells_touched(pixels: int, cell_px: int, area: u16, margin: u16)
    requires
        pixels > 0,
        cell_px > 0,
    ensures
        ({
            let cells = video_cells(pixels, cell_px, area, margin);
            let most = terminal_geometry::cells_within_margin(area, margin);
            &&& 1 <= cells <= most
            &&& (cells - 1) * cell_px < pixels
            &&& cells * cell_px >= pixels || cells == most
        }),
{
    terminal_geometry::covering_cells_are_just_enough(pixels, cell_px);
    let covering = terminal_geometry::covering_cells(pixels, cell_px);
    let cells = video_cells(pixels, cell_px, area, margin);
    assert(covering >= 1) by (nonlinear_arith)
        requires
            covering * cell_px >= pixels,
            pixels > 0,
            cell_px > 0,
    ;
    assert((cells - 1) * cell_px <= (covering - 1) * cell_px) by (nonlinear_arith)
        requires
            cells <= covering,
            cell_px > 0,
    ;
}

/// A frame holds four bytes for every pixel: as many lines as it is high, each of them
/// as wide as the frame.
pub proof fn frames_hold_four_bytes_a_pixel(size: VideoDisplaySize)
    ensures
        frame_bytes(size) == size.target_h_px * (4 * size.target_w_px),
{
    assert(size.target_w_px * size.target_h_px * 4 == size.target_h_px * (4 * size.target_w_px))
        by (nonlinear_arith);
}

/// A video may take up all cells of its area but four columns and two rows, and at least
/// one cell; in pixels that is as wide and as high as those cells are.
pub proof fn bounds_are_the_area_without_its_margin(layout: VideoTerminalLayout)
    requires
        layout.bounds_fit(),
    ensures
        ({
            let bounds = layout.bounds();
            &&& layout.cols > 4 ==> bounds.max_cols + 4 == layout.cols
            &&& layout.cols <= 4 ==> bounds.max_cols == 1
            &&& layout.video_area_rows > 2 ==> bounds.max_rows + 2 == layout.video_area_rows
            &&& layout.video_area_rows <= 2 ==> bounds.max_rows == 1
            &&& bounds.max_w_px == bounds.max_cols * layout.cell_width_px
            &&& bounds.max_h_px == bounds.max_rows * layout.cell_height_px
        }),
{
    let bounds = layout.bounds();
    assert(bounds.max_cols * layout.cell_width_px >= 0) by (nonlinear_arith);
    assert(bounds.max_rows * layout.cell_height_px >= 0) by (nonlinear_arith);
}

/// What is as large as its range or larger starts at the edge.
pub proof fn large_video_starts_at_the_edge(area: int, size: int)
    requires
        0 <= area <= size,
    ensures
        centered_origin(area, size) == 0,
{
}

} // verus!
