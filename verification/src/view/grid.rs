//! Grid view controller: the decisions of the 2D view over indexable data.
//!
//! As for the list view, a pool of view widgets is mapped onto the visible
//! window of data cells; data cell `(col, row)` is shown by widget
//! `col % cols + (row % rows) * cols` where `cols × rows` widgets are in use.

use crate::geom::{Coord, Offset, Rect, Size};
use crate::view::clerk::{DataChanges, DataLen};
use crate::view::index::{
    child_to_data,
    lemma_child_to_data,
    law_child_data_roundtrip,
    spec_child_to_data,
};
use crate::view::list::{max, min, spec_virtual_offset, Command, Update};
use vstd::arithmetic::div_mod::*;
use vstd::prelude::*;

verus! {

/// Index of a grid cell
#[derive(Clone, Copy, Debug, Default, PartialEq, Eq, Structural)]
pub struct GridIndex {
    pub col: u32,
    pub row: u32,
}

impl GridIndex {
    /// Zero
    pub fn zero() -> (r: GridIndex)
        ensures
            r == (GridIndex { col: 0, row: 0 }),
    {
        GridIndex { col: 0, row: 0 }
    }

    /// Construct, copying `x` to both fields
    pub fn splat(x: u32) -> (r: Self)
        ensures
            r == (GridIndex { col: x, row: x }),
    {
        GridIndex { col: x, row: x }
    }

    /// Component-wise sum
    pub fn add(self, rhs: Self) -> (r: Self)
        requires
            self.col + rhs.col <= u32::MAX,
            self.row + rhs.row <= u32::MAX,
        ensures
            r.col == self.col + rhs.col,
            r.row == self.row + rhs.row,
    {
        GridIndex { col: self.col + rhs.col, row: self.row + rhs.row }
    }
}

/// Placement of the data cells of a grid
#[derive(Clone, Copy, Debug, PartialEq, Eq, Structural)]
pub struct GridPositionSolver {
    pub pos_start: Coord,
    pub skip: Size,
    pub size: Size,
    pub first_data: GridIndex,
    pub cur_len: GridIndex,
}

/// The widget showing a cell when `len` widgets (columns × rows) are in use
pub open spec fn spec_data_to_child(cell: GridIndex, len: GridIndex) -> int {
    (cell.col as int % len.col as int) + (cell.row as int % len.row as int) * len.col
}

/// The cell shown by widget `index` when `len` widgets are in use and the
/// view starts at `first`
pub open spec fn spec_grid_child_to_data(first: GridIndex, len: GridIndex, index: int) -> (int, int) {
    (
        spec_child_to_data(first.col as int, len.col as int, index % len.col as int),
        spec_child_to_data(first.row as int, len.row as int, index / len.col as int),
    )
}

impl GridPositionSolver {
    /// Index arithmetic fits machine integers and at least one widget is in
    /// use
    pub open spec fn valid(self) -> bool {
        &&& self.cur_len.col > 0
        &&& self.cur_len.row > 0
        &&& self.cur_len.col * self.cur_len.row <= usize::MAX
        &&& self.first_data.col + self.cur_len.col <= u32::MAX
        &&& self.first_data.row + self.cur_len.row <= u32::MAX
    }

    /// Map a data cell to the widget showing it
    pub fn data_to_child(&self, cell: GridIndex) -> (r: usize)
        requires
            self.valid(),
        ensures
            r == spec_data_to_child(cell, self.cur_len),
            r < self.cur_len.col * self.cur_len.row,
    {
        let col_len = self.cur_len.col as usize;
        let row_len = self.cur_len.row as usize;
        proof {
            lemma_mod_bound(cell.col as int, col_len as int);
            lemma_mod_bound(cell.row as int, row_len as int);
            let c = cell.col as int % col_len as int;
            let r = cell.row as int % row_len as int;
            assert(c + r * col_len < col_len * row_len) by (nonlinear_arith)
                requires
                    0 <= c < col_len,
                    0 <= r < row_len,
            ;
        }
        (cell.col as usize % col_len) + (cell.row as usize % row_len) * col_len
    }

    /// Map a widget index to the data cell it shows
    pub fn child_to_data(&self, index: usize) -> (r: GridIndex)
        requires
            self.valid(),
            index < self.cur_len.col * self.cur_len.row,
        ensures
            (r.col as int, r.row as int) == spec_grid_child_to_data(
                self.first_data,
                self.cur_len,
                index as int,
            ),
            self.first_data.col <= r.col < self.first_data.col + self.cur_len.col,
            self.first_data.row <= r.row < self.first_data.row + self.cur_len.row,
    {
        let col_len = self.cur_len.col as usize;
        let ci = index % col_len;
        let ri = index / col_len;
        proof {
            lemma_mod_bound(index as int, col_len as int);
            lemma_fundamental_div_mod(index as int, col_len as int);
            let rl = self.cur_len.row as int;
            assert(ri < rl) by (nonlinear_arith)
                requires
                    index as int == col_len * ri + ci,
                    0 <= ci,
                    index < col_len * rl,
                    col_len > 0,
            ;
        }
        let col = child_to_data(self.first_data.col as usize, col_len, ci);
        let row = child_to_data(self.first_data.row as usize, self.cur_len.row as usize, ri);
        GridIndex { col: col as u32, row: row as u32 }
    }

    /// Rect of data cell `cell`
    pub fn rect(&self, cell: GridIndex) -> (r: Rect)
        requires
            cell.col <= i32::MAX,
            cell.row <= i32::MAX,
            i32::MIN <= self.skip.0 * cell.col <= i32::MAX,
            i32::MIN <= self.skip.1 * cell.row <= i32::MAX,
            i32::MIN <= self.pos_start.0 + self.skip.0 * cell.col <= i32::MAX,
            i32::MIN <= self.pos_start.1 + self.skip.1 * cell.row <= i32::MAX,
        ensures
            r.pos.0 == self.pos_start.0 + self.skip.0 * cell.col,
            r.pos.1 == self.pos_start.1 + self.skip.1 * cell.row,
            r.size == self.size,
    {
        let x = self.pos_start.0 + self.skip.0 * (cell.col as i32);
        let y = self.pos_start.1 + self.skip.1 * (cell.row as i32);
        Rect::new(Coord(x, y), self.size)
    }
}

/// A widget shows the cell mapped back to it, and every cell in the view
/// window is shown by the widget it maps to.
pub proof fn law_grid_roundtrip(first: GridIndex, len: GridIndex, cell: GridIndex)
    requires
        len.col > 0,
        len.row > 0,
        first.col <= cell.col < first.col + len.col,
        first.row <= cell.row < first.row + len.row,
    ensures
        spec_grid_child_to_data(first, len, spec_data_to_child(cell, len)) == (
            cell.col as int,
            cell.row as int,
        ),
{
    let c = cell.col as int % len.col as int;
    let r = cell.row as int % len.row as int;
    lemma_mod_bound(cell.col as int, len.col as int);
    lemma_mod_bound(cell.row as int, len.row as int);
    let i = c + r * len.col;
    assert(i == len.col * r + c) by (nonlinear_arith)
        requires
            i == c + r * len.col,
    ;
    lemma_fundamental_div_mod_converse(i, len.col as int, r, c);
    assert(r * len.col == len.col * r) by (nonlinear_arith);
    law_child_data_roundtrip(first.col as int, len.col as int, c, cell.col as int);
    law_child_data_roundtrip(first.row as int, len.row as int, r, cell.row as int);
}

/// The cell to focus after a navigation command from cell `(ci, ri)`, in a
/// grid whose last cell is `(last_col, last_row)` with `page` rows of
/// widgets in use
pub open spec fn spec_grid_command_target(
    cmd: Command,
    ci: int,
    ri: int,
    last_col: int,
    last_row: int,
    page: int,
) -> Option<(int, int)> {
    match cmd {
        Command::DocHome => Some((0, 0)),
        Command::DocEnd => Some((last_col, last_row)),
        Command::Home => Some((0, ri)),
        Command::End => Some((last_col, ri)),
        Command::Left if ci > 0 => Some((ci - 1, ri)),
        Command::WordLeft if ci > 0 => Some((ci - 1, ri)),
        Command::Up if ri > 0 => Some((ci, ri - 1)),
        Command::Right if ci < last_col => Some((ci + 1, ri)),
        Command::WordRight if ci < last_col => Some((ci + 1, ri)),
        Command::Down if ri < last_row => Some((ci, ri + 1)),
        Command::PageUp if ri > 0 => Some((ci, max(ri - page / 2, 0))),
        Command::PageDown if ri < last_row => Some((ci, min(ri + page / 2, last_row))),
        _ => None,
    }
}

/// Keyboard navigation in a grid of cells `(0..=last_col, 0..=last_row)`
/// with focus on `(ci, ri)`: Document Home and End go to the first and the
/// last cell of the grid; Home and End go to the first and the last cell of
/// the focused row; Left and Right (and the word forms) move within the row,
/// Up and Down within the column, doing nothing past either end; Page Up and
/// Page Down move within the column by half a page, no further than the
/// first or the last row, and do nothing there; other commands do nothing
pub proof fn law_grid_navigation(ci: int, ri: int, last_col: int, last_row: int, page: int)
    requires
        0 <= ci <= last_col,
        0 <= ri <= last_row,
        0 <= page,
    ensures
        spec_grid_command_target(Command::DocHome, ci, ri, last_col, last_row, page) == Some((0int, 0int)),
        spec_grid_command_target(Command::DocEnd, ci, ri, last_col, last_row, page) == Some((last_col, last_row)),
        spec_grid_command_target(Command::Home, ci, ri, last_col, last_row, page) == Some((0int, ri)),
        spec_grid_command_target(Command::End, ci, ri, last_col, last_row, page) == Some((last_col, ri)),
        spec_grid_command_target(Command::Left, ci, ri, last_col, last_row, page) == if ci > 0 {
            Some((ci - 1, ri))
        } else {
            None
        },
        spec_grid_command_target(Command::WordLeft, ci, ri, last_col, last_row, page) == if ci > 0 {
            Some((ci - 1, ri))
        } else {
            None
        },
        spec_grid_command_target(Command::Right, ci, ri, last_col, last_row, page) == if ci < last_col {
            Some((ci + 1, ri))
        } else {
            None
        },
        spec_grid_command_target(Command::WordRight, ci, ri, last_col, last_row, page) == if ci < last_col {
            Some((ci + 1, ri))
        } else {
            None
        },
        spec_grid_command_target(Command::Up, ci, ri, last_col, last_row, page) == if ri > 0 {
            Some((ci, ri - 1))
        } else {
            None
        },
        spec_grid_command_target(Command::Down, ci, ri, last_col, last_row, page) == if ri < last_row {
            Some((ci, ri + 1))
        } else {
            None
        },
        ri == 0 ==> spec_grid_command_target(Command::PageUp, ci, ri, last_col, last_row, page) is None,
        ri > 0 ==> spec_grid_command_target(Command::PageUp, ci, ri, last_col, last_row, page) == Some(
            (
                ci,
                if ri - page / 2 >= 0 {
                    ri - page / 2
                } else {
                    0
                },
            ),
        ),
        ri == last_row ==> spec_grid_command_target(Command::PageDown, ci, ri, last_col, last_row, page) is None,
        ri < last_row ==> spec_grid_command_target(Command::PageDown, ci, ri, last_col, last_row, page) == Some(
            (
                ci,
                if ri + page / 2 <= last_row {
                    ri + page / 2
                } else {
                    last_row
                },
            ),
        ),
        spec_grid_command_target(Command::Other, ci, ri, last_col, last_row, page) is None,
{
}

/// The cell to focus after a navigation command (see
/// [`spec_grid_command_target`]); the result is always within the grid.
pub fn grid_command_target(cmd: Command, cell: GridIndex, last: GridIndex, page: u32) -> (r: Option<
    GridIndex,
>)
    requires
        cell.col <= last.col,
        cell.row <= last.row,
    ensures
        r matches Some(c) ==> c.col <= last.col && c.row <= last.row,
        match r {
            Some(c) => spec_grid_command_target(
                cmd,
                cell.col as int,
                cell.row as int,
                last.col as int,
                last.row as int,
                page as int,
            ) == Some((c.col as int, c.row as int)),
            None => spec_grid_command_target(
                cmd,
                cell.col as int,
                cell.row as int,
                last.col as int,
                last.row as int,
                page as int,
            ) is None,
        },
        cmd == Command::Home ==> r == Some((GridIndex { col: 0, row: cell.row })),
        cmd == Command::End ==> r == Some((GridIndex { col: last.col, row: cell.row })),
        cmd == Command::DocHome ==> r == Some((GridIndex { col: 0, row: 0 })),
        cmd == Command::DocEnd ==> r == Some(last),
{
    let (ci, ri) = (cell.col, cell.row);
    let (last_col, last_row) = (last.col, last.row);
    let target = match cmd {
        Command::DocHome => Some((0, 0)),
        Command::DocEnd => Some((last_col, last_row)),
        Command::Home => Some((0, ri)),
        Command::End => Some((last_col, ri)),
        Command::Left if ci > 0 => Some((ci - 1, ri)),
        Command::WordLeft if ci > 0 => Some((ci - 1, ri)),
        Command::Up if ri > 0 => Some((ci, ri - 1)),
        Command::Right if ci < last_col => Some((ci + 1, ri)),
        Command::WordRight if ci < last_col => Some((ci + 1, ri)),
        Command::Down if ri < last_row => Some((ci, ri + 1)),
        Command::PageUp if ri > 0 => Some(
            (
                ci,
                if ri >= page / 2 {
                    ri - page / 2
                } else {
                    0
                },
            ),
        ),
        Command::PageDown if ri < last_row => Some(
            (
                ci,
                if page / 2 <= last_row - ri {
                    ri + page / 2
                } else {
                    last_row
                },
            ),
        ),
        _ => None,
    };
    match target {
        Some((col, row)) => Some(GridIndex { col, row }),
        None => None,
    }
}

/// The cell to focus on a navigation command `cmd` in a grid of `len` cells
/// whose focused child shows cell `focus` (if any child has the focus), with
/// `page` rows of widgets in use: none for an empty grid or without focus
/// (the command is unused), else the target of [`grid_command_target`]; the
/// command is used exactly when there is a target
pub fn grid_command_event(cmd: Command, len: GridIndex, focus: Option<GridIndex>, page: u32) -> (r: Option<
    GridIndex,
>)
    requires
        focus matches Some(c) ==> c.col < len.col && c.row < len.row,
    ensures
        len.col == 0 || len.row == 0 || focus is None ==> r is None,
        focus matches Some(c) ==> match spec_grid_command_target(
            cmd,
            c.col as int,
            c.row as int,
            len.col - 1,
            len.row - 1,
            page as int,
        ) {
            Some((x, y)) => r matches Some(t) && t.col == x && t.row == y,
            None => r is None,
        },
        r matches Some(t) ==> t.col < len.col && t.row < len.row,
{
    match focus {
        None => None,
        Some(c) => {
            if len.col == 0 || len.row == 0 {
                return None;
            }
            let last = GridIndex { col: len.col - 1, row: len.row - 1 };
            grid_command_target(cmd, c, last, page)
        },
    }
}

/// Row-major position of a cell in a grid with `cols` columns
pub open spec fn linear(cell: (int, int), cols: int) -> int {
    cell.0 + cell.1 * cols
}

/// The cell to visit next in keyboard navigation, in row-major order, from
/// `from` (or from outside the grid when `None`); `None` at the end.
pub fn grid_nav_step(from: Option<GridIndex>, reverse: bool, data_len: GridIndex) -> (r: Option<
    GridIndex,
>)
    requires
        data_len.col > 0,
        data_len.row > 0,
        from matches Some(c) ==> c.col < data_len.col && c.row < data_len.row,
    ensures
        r matches Some(c) ==> c.col < data_len.col && c.row < data_len.row,
        from is None && !reverse ==> r == Some((GridIndex { col: 0, row: 0 })),
        from is None && reverse ==> r == Some(
            GridIndex { col: (data_len.col - 1) as u32, row: (data_len.row - 1) as u32 },
        ),
        from matches Some(c) ==> {
            let lc = linear((c.col as int, c.row as int), data_len.col as int);
            let total = data_len.col * data_len.row;
            match r {
                Some(n) => {
                    let ln = linear((n.col as int, n.row as int), data_len.col as int);
                    if reverse {
                        ln == lc - 1
                    } else {
                        ln == lc + 1
                    }
                },
                None => if reverse {
                    lc == 0
                } else {
                    lc == total - 1
                },
            }
        },
{
    match from {
        Some(cell) => {
            proof {
                assert(linear((cell.col as int, cell.row as int), data_len.col as int) <= data_len.col
                    * data_len.row - 1) by (nonlinear_arith)
                    requires
                        cell.col < data_len.col,
                        cell.row < data_len.row,
                        cell.col + cell.row * data_len.col == linear(
                            (cell.col as int, cell.row as int),
                            data_len.col as int,
                        ),
                ;
                assert((cell.row + 1) * data_len.col == cell.row * data_len.col + data_len.col)
                    by (nonlinear_arith);
                assert((cell.row - 1) * data_len.col == cell.row * data_len.col - data_len.col)
                    by (nonlinear_arith);
                assert(data_len.col * data_len.row == (data_len.row - 1) * data_len.col
                    + data_len.col) by (nonlinear_arith);
                assert(0int * data_len.col == 0) by (nonlinear_arith);
            }
            if !reverse {
                if cell.col + 1 < data_len.col {
                    Some(GridIndex { col: cell.col + 1, row: cell.row })
                } else if cell.row + 1 < data_len.row {
                    Some(GridIndex { col: 0, row: cell.row + 1 })
                } else {
                    None
                }
            } else {
                if cell.col > 0 {
                    Some(GridIndex { col: cell.col - 1, row: cell.row })
                } else if cell.row > 0 {
                    Some(GridIndex { col: data_len.col - 1, row: cell.row - 1 })
                } else {
                    None
                }
            }
        },
        None => if !reverse {
            Some(GridIndex { col: 0, row: 0 })
        } else {
            Some(GridIndex { col: data_len.col - 1, row: data_len.row - 1 })
        },
    }
}

/// Component-wise minimum of two cell counts
pub open spec fn gmin(a: GridIndex, b: GridIndex) -> GridIndex {
    GridIndex {
        col: if a.col <= b.col {
            a.col
        } else {
            b.col
        },
        row: if a.row <= b.row {
            a.row
        } else {
            b.row
        },
    }
}

/// The cells to map after the view moved from `old_start..old_end` to
/// `start..end` (`None`: nothing to map and the view window is kept). When
/// only rows (or only columns) moved, only the newly visible rows (columns)
/// are mapped; otherwise the whole window is.
pub open spec fn spec_grid_map_range(
    force: bool,
    start: (int, int),
    end: (int, int),
    old_start: (int, int),
    old_end: (int, int),
) -> Option<((int, int), (int, int))> {
    if force {
        Some((start, end))
    } else if start == old_start && end == old_end {
        None
    } else if start.0 == old_start.0 && end.0 == old_end.0 {
        let (s, e) = if start.1 >= old_start.1 {
            (max(start.1, old_end.1), end.1)
        } else if end.1 <= old_end.1 {
            (start.1, min(end.1, old_start.1))
        } else {
            (start.1, end.1)
        };
        if s >= e {
            None
        } else {
            Some(((start.0, s), (end.0, e)))
        }
    } else if start.1 == old_start.1 && end.1 == old_end.1 {
        let (s, e) = if start.0 >= old_start.0 {
            (max(start.0, old_end.0), end.0)
        } else if end.0 <= old_end.0 {
            (start.0, min(end.0, old_start.0))
        } else {
            (start.0, end.0)
        };
        if s >= e {
            None
        } else {
            Some(((s, start.1), (e, end.1)))
        }
    } else {
        Some((start, end))
    }
}

/// Whenever a new window is adopted, every newly visible cell is mapped.
pub proof fn law_grid_new_cells_mapped(
    force: bool,
    start: (int, int),
    end: (int, int),
    old_start: (int, int),
    old_end: (int, int),
    cell: (int, int),
)
    requires
        start.0 <= cell.0 < end.0,
        start.1 <= cell.1 < end.1,
        !(old_start.0 <= cell.0 < old_end.0 && old_start.1 <= cell.1 < old_end.1),
        spec_grid_map_range(force, start, end, old_start, old_end) is Some,
    ensures
        ({
            let (s, e) = spec_grid_map_range(force, start, end, old_start, old_end)->0;
            s.0 <= cell.0 < e.0 && s.1 <= cell.1 < e.1
        }),
{
}

/// The outcome of re-mapping a grid after a scroll
#[derive(Clone, Copy, Debug, PartialEq, Eq)]
pub struct GridScrollStep {
    /// The data length changed: the content size must be updated
    pub content_resized: bool,
    /// Cells in `start..end` (a rectangle) must be mapped to widgets
    pub map_range: Option<(GridIndex, GridIndex)>,
}

/// What must follow an update reported by the data clerk
#[derive(Clone, Copy, Debug, PartialEq, Eq, Structural)]
pub enum GridClerkAction {
    /// Nothing to do
    Nothing,
    /// The content grew or shrank: request a resize
    Resize,
    /// The visible range must be recomputed (as after scrolling)
    PostScroll,
    /// Cells in `start..end` must be re-mapped
    MapRange(GridIndex, GridIndex),
}


/// The layout and mapping state of a grid view
#[derive(Clone, Copy, Debug, PartialEq, Eq, Structural)]
pub struct GridLayout {
    pub rect: Rect,
    pub frame_offset: Offset,
    pub frame_size: Size,
    pub ideal_len: GridIndex,
    pub alloc_len: GridIndex,
    pub data_len: GridIndex,
    pub token_update: Update,
    pub rect_update: bool,
    pub len_is_known: bool,
    pub cur_len: GridIndex,
    pub first_data: GridIndex,
    pub child_size_min: Size,
    pub child_size_ideal: Size,
    pub child_inter_margin: Size,
    pub child_size: Size,
    /// Widget translation is the scroll offset plus the virtual offset
    pub virtual_offset: Offset,
}

/// `x` clamped as `x.min(ideal).max(min)`
pub open spec fn clamp_min_last(x: int, min: int, ideal: int) -> int {
    let y = if x <= ideal {
        x
    } else {
        ideal
    };
    if y >= min {
        y
    } else {
        min
    }
}

impl GridLayout {
    /// Construct a new instance (3 × 5 cells ideally visible)
    pub fn new() -> (r: Self)
        ensures
            r.ideal_len == (GridIndex { col: 3, row: 5 }),
            r.alloc_len == (GridIndex { col: 0, row: 0 }),
            r.data_len == (GridIndex { col: 0, row: 0 }),
            r.cur_len == (GridIndex { col: 0, row: 0 }),
            r.first_data == (GridIndex { col: 0, row: 0 }),
            r.token_update == Update::NoUpdate,
            !r.rect_update,
            !r.len_is_known,
            r.child_size == Size(0, 0),
            r.virtual_offset == Offset(0, 0),
    {
        GridLayout {
            rect: Rect::new(Coord(0, 0), Size(0, 0)),
            frame_offset: Offset(0, 0),
            frame_size: Size(0, 0),
            ideal_len: GridIndex { col: 3, row: 5 },
            alloc_len: GridIndex::zero(),
            data_len: GridIndex::zero(),
            token_update: Update::NoUpdate,
            rect_update: false,
            len_is_known: false,
            cur_len: GridIndex::zero(),
            first_data: GridIndex::zero(),
            child_size_min: Size(0, 0),
            child_size_ideal: Size(0, 0),
            child_inter_margin: Size(0, 0),
            child_size: Size(0, 0),
            virtual_offset: Offset(0, 0),
        }
    }

    /// Get the range of visible data cells
    pub fn view_range(&self) -> (r: (GridIndex, GridIndex))
        requires
            self.first_data.col + self.cur_len.col <= u32::MAX,
            self.first_data.row + self.cur_len.row <= u32::MAX,
        ensures
            r.0 == self.first_data,
            r.1.col == self.first_data.col + self.cur_len.col,
            r.1.row == self.first_data.row + self.cur_len.row,
    {
        (self.first_data, self.first_data.add(self.cur_len))
    }

    /// Widgets in the range `0..self.cur_end()` are currently in use
    pub fn cur_end(&self) -> (r: usize)
        requires
            self.cur_len.col * self.cur_len.row <= usize::MAX,
        ensures
            r == self.cur_len.col * self.cur_len.row,
    {
        self.cur_len.col as usize * self.cur_len.row as usize
    }

    /// Set the preferred number of cells visible (inline)
    pub fn with_num_visible(self, cols: u32, rows: u32) -> (r: Self)
        ensures
            r == (GridLayout { ideal_len: GridIndex { col: cols, row: rows }, ..self }),
    {
        GridLayout { ideal_len: GridIndex { col: cols, row: rows }, ..self }
    }

    /// The step between cells: child size plus margin, at least 1 pixel
    pub open spec fn spec_skip(self) -> (int, int) {
        (
            max(self.child_size.0 + self.child_inter_margin.0, 1),
            max(self.child_size.1 + self.child_inter_margin.1, 1),
        )
    }

    /// The position solver for the current state
    pub fn position_solver(&self) -> (r: GridPositionSolver)
        requires
            i32::MIN <= self.rect.pos.0 + self.frame_offset.0 <= i32::MAX,
            i32::MIN <= self.rect.pos.1 + self.frame_offset.1 <= i32::MAX,
            i32::MIN <= self.rect.pos.0 + self.frame_offset.0 + self.virtual_offset.0 <= i32::MAX,
            i32::MIN <= self.rect.pos.1 + self.frame_offset.1 + self.virtual_offset.1 <= i32::MAX,
            i32::MIN <= self.child_size.0 + self.child_inter_margin.0 <= i32::MAX,
            i32::MIN <= self.child_size.1 + self.child_inter_margin.1 <= i32::MAX,
        ensures
            r.pos_start.0 == self.rect.pos.0 + self.frame_offset.0 + self.virtual_offset.0,
            r.pos_start.1 == self.rect.pos.1 + self.frame_offset.1 + self.virtual_offset.1,
            r.skip.0 == self.child_size.0 + self.child_inter_margin.0,
            r.skip.1 == self.child_size.1 + self.child_inter_margin.1,
            r.size == self.child_size,
            r.first_data == self.first_data,
            r.cur_len == self.cur_len,
    {
        GridPositionSolver {
            pos_start: Coord(
                self.rect.pos.0 + self.frame_offset.0 + self.virtual_offset.0,
                self.rect.pos.1 + self.frame_offset.1 + self.virtual_offset.1,
            ),
            skip: Size(
                self.child_size.0 + self.child_inter_margin.0,
                self.child_size.1 + self.child_inter_margin.1,
            ),
            size: self.child_size,
            first_data: self.first_data,
            cur_len: self.cur_len,
        }
    }

    /// The lower bound passed to the clerk's `len` after scrolling to
    /// `offset`: the first visible cell plus twice the allocated cells
    pub fn post_scroll_lbound(&self, offset: Offset) -> (r: GridIndex)
        requires
            offset.0 >= 0,
            offset.1 >= 0,
            i32::MIN <= self.child_size.0 + self.child_inter_margin.0 <= i32::MAX,
            i32::MIN <= self.child_size.1 + self.child_inter_margin.1 <= i32::MAX,
            offset.0 as int / self.spec_skip().0 + 2 * self.alloc_len.col <= u32::MAX,
            offset.1 as int / self.spec_skip().1 + 2 * self.alloc_len.row <= u32::MAX,
        ensures
            r.col == offset.0 as int / self.spec_skip().0 + 2 * self.alloc_len.col,
            r.row == offset.1 as int / self.spec_skip().1 + 2 * self.alloc_len.row,
    {
        let (s0, s1) = self.skip();
        let first_col = (offset.0 / s0) as u32;
        let first_row = (offset.1 / s1) as u32;
        GridIndex { col: first_col + 2 * self.alloc_len.col, row: first_row + 2 * self.alloc_len.row }
    }

    fn skip(&self) -> (r: (i32, i32))
        requires
            i32::MIN <= self.child_size.0 + self.child_inter_margin.0 <= i32::MAX,
            i32::MIN <= self.child_size.1 + self.child_inter_margin.1 <= i32::MAX,
        ensures
            r.0 == self.spec_skip().0,
            r.1 == self.spec_skip().1,
    {
        let a = self.child_size.0 + self.child_inter_margin.0;
        let b = self.child_size.1 + self.child_inter_margin.1;
        (
            if a >= 1 {
                a
            } else {
                1
            },
            if b >= 1 {
                b
            } else {
                1
            },
        )
    }

    /// Re-map after scrolling to `offset`, given the clerk's length report
    /// for [`Self::post_scroll_lbound`]
    ///
    /// When a new view window is adopted, `map_range` holds the cells to map
    /// to widgets (after which [`Self::finish_map`] is called); otherwise the
    /// window is unchanged.
    pub fn post_scroll(&mut self, offset: Offset, reported: DataLen<GridIndex>) -> (r: GridScrollStep)
        requires
            offset.0 >= 0,
            offset.1 >= 0,
            i32::MIN <= old(self).child_size.0 + old(self).child_inter_margin.0 <= i32::MAX,
            i32::MIN <= old(self).child_size.1 + old(self).child_inter_margin.1 <= i32::MAX,
            old(self).first_data.col + old(self).cur_len.col <= u32::MAX,
            old(self).first_data.row + old(self).cur_len.row <= u32::MAX,
        ensures
            ({
                let len = reported.spec_len();
                let first = (offset.0 as int / old(self).spec_skip().0, offset.1 as int / old(self).spec_skip().1);
                let cur = gmin(len, old(self).alloc_len);
                let start = (min(first.0, len.col - cur.col), min(first.1, len.row - cur.row));
                let end = (start.0 + cur.col, start.1 + cur.row);
                let vo = (spec_virtual_offset(offset.0), spec_virtual_offset(offset.1));
                let vo_changed = vo.0 != old(self).virtual_offset.0 || vo.1 != old(self).virtual_offset.1;
                let len_changed = len != old(self).data_len;
                let token_update = if len_changed {
                    Update::Token
                } else {
                    old(self).token_update
                };
                let force = vo_changed || old(self).rect_update || token_update != Update::NoUpdate;
                let old_start = (old(self).first_data.col as int, old(self).first_data.row as int);
                let old_end = (
                    old(self).first_data.col + old(self).cur_len.col,
                    old(self).first_data.row + old(self).cur_len.row,
                );
                let range = spec_grid_map_range(force, start, end, old_start, old_end);
                &&& final(self).len_is_known == (reported is Known)
                &&& final(self).data_len == len
                &&& r.content_resized == len_changed
                &&& final(self).token_update == token_update
                &&& final(self).virtual_offset.0 == vo.0
                &&& final(self).virtual_offset.1 == vo.1
                &&& final(self).rect_update == (old(self).rect_update || vo_changed)
                &&& match range {
                    Some((s, e)) => {
                        &&& final(self).cur_len == cur
                        &&& final(self).first_data.col == start.0
                        &&& final(self).first_data.row == start.1
                        &&& r.map_range matches Some((ms, me)) && ms.col == s.0 && ms.row == s.1
                            && me.col == e.0 && me.row == e.1
                    },
                    None => {
                        &&& final(self).cur_len == old(self).cur_len
                        &&& final(self).first_data == old(self).first_data
                        &&& r.map_range is None
                    },
                }
            }),
            final(self).first_data.col + final(self).cur_len.col <= u32::MAX,
            final(self).first_data.row + final(self).cur_len.row <= u32::MAX,
            final(self).alloc_len == old(self).alloc_len,
            final(self).child_size == old(self).child_size,
            final(self).child_inter_margin == old(self).child_inter_margin,
            final(self).rect == old(self).rect,
    {
        let (s0, s1) = self.skip();
        let first_col = (offset.0 / s0) as u32;
        let first_row = (offset.1 / s1) as u32;

        self.len_is_known = reported.is_known();
        let data_len = reported.len();
        let mut content_resized = false;
        if data_len != self.data_len {
            self.data_len = data_len;
            content_resized = true;
            self.token_update = Update::Token;
        }

        let col_len = if data_len.col <= self.alloc_len.col {
            data_len.col
        } else {
            self.alloc_len.col
        };
        let row_len = if data_len.row <= self.alloc_len.row {
            data_len.row
        } else {
            self.alloc_len.row
        };
        let first_data = GridIndex {
            col: if first_col <= data_len.col - col_len {
                first_col
            } else {
                data_len.col - col_len
            },
            row: if first_row <= data_len.row - row_len {
                first_row
            } else {
                data_len.row - row_len
            },
        };
        let cur_len = GridIndex { col: col_len, row: row_len };
        let (mut start, mut end) = (first_data, first_data.add(cur_len));
        let (old_start, old_end) = (self.first_data, self.first_data.add(self.cur_len));

        let (ox, oy) = (offset.0, offset.1);
        assert(0 <= (ox & 0x7FF0_0000i32) <= 0x7FF0_0000i32) by (bit_vector)
            requires
                ox >= 0,
        ;
        assert(0 <= (oy & 0x7FF0_0000i32) <= 0x7FF0_0000i32) by (bit_vector)
            requires
                oy >= 0,
        ;
        let virtual_offset = Offset(-(ox & 0x7FF0_0000), -(oy & 0x7FF0_0000));
        if virtual_offset != self.virtual_offset {
            self.virtual_offset = virtual_offset;
            self.rect_update = true;
        } else if self.rect_update || !matches!(self.token_update, Update::NoUpdate) {
            // This forces an update to all widgets
        } else if start == old_start && cur_len == self.cur_len {
            return GridScrollStep { content_resized, map_range: None };
        } else if start.col == old_start.col && end.col == old_end.col {
            if start.row >= old_start.row {
                if start.row < old_end.row {
                    start.row = old_end.row;
                }
            } else if end.row <= old_end.row {
                if end.row > old_start.row {
                    end.row = old_start.row;
                }
            }
            if start.row >= end.row {
                return GridScrollStep { content_resized, map_range: None };
            }
        } else if start.row == old_start.row && end.row == old_end.row {
            if start.col >= old_start.col {
                if start.col < old_end.col {
                    start.col = old_end.col;
                }
            } else if end.col <= old_end.col {
                if end.col > old_start.col {
                    end.col = old_start.col;
                }
            }
            if start.col >= end.col {
                return GridScrollStep { content_resized, map_range: None };
            }
        }

        self.cur_len = cur_len;
        self.first_data = first_data;
        GridScrollStep { content_resized, map_range: Some((start, end)) }
    }

    /// Clear the forced-update flags after widgets were mapped
    pub fn finish_map(&mut self)
        ensures
            *final(self) == (GridLayout {
                token_update: Update::NoUpdate,
                rect_update: false,
                ..*old(self)
            }),
    {
        self.token_update = Update::NoUpdate;
        self.rect_update = false;
    }

    /// The lower bound passed to the clerk's `len` on a clerk update
    pub fn clerk_update_lbound(&self) -> (r: GridIndex)
        requires
            self.first_data.col + 2 * self.alloc_len.col <= u32::MAX,
            self.first_data.row + 2 * self.alloc_len.row <= u32::MAX,
        ensures
            r.col == self.first_data.col + 2 * self.alloc_len.col,
            r.row == self.first_data.row + 2 * self.alloc_len.row,
    {
        GridIndex {
            col: self.first_data.col + 2 * self.alloc_len.col,
            row: self.first_data.row + 2 * self.alloc_len.row,
        }
    }

    /// First step of handling a clerk update: record the reported length.
    /// Returns true when it changed (tokens must then be updated and the
    /// scroll component's sizes updated from [`Self::content_size`]).
    pub fn clerk_update_len(&mut self, reported: DataLen<GridIndex>) -> (changed: bool)
        ensures
            final(self).len_is_known == (reported is Known),
            final(self).data_len == reported.spec_len(),
            changed == (reported.spec_len() != old(self).data_len),
            changed ==> final(self).token_update == Update::Token,
            !changed ==> final(self).token_update == old(self).token_update,
            *final(self) == (GridLayout {
                len_is_known: final(self).len_is_known,
                data_len: final(self).data_len,
                token_update: final(self).token_update,
                ..*old(self)
            }),
    {
        self.len_is_known = reported.is_known();
        let data_len = reported.len();
        if data_len != self.data_len {
            self.data_len = data_len;
            self.token_update = Update::Token;
            true
        } else {
            false
        }
    }

    /// Second step of handling a clerk update reporting `changes`
    ///
    /// `len_changed` is the result of [`Self::clerk_update_len`] and
    /// `sizes_changed` whether the scroll component's sizes then changed. A
    /// changed length requests a resize when the content size changed, and a
    /// re-map as after scrolling when the number of cells in use changes;
    /// otherwise, if the changed range meets the view window, the window is
    /// re-mapped.
    pub fn clerk_update_action(&mut self, changes: DataChanges<GridIndex>, len_changed: bool, sizes_changed: bool) -> (r:
        GridClerkAction)
        requires
            old(self).first_data.col + old(self).cur_len.col <= u32::MAX,
            old(self).first_data.row + old(self).cur_len.row <= u32::MAX,
        ensures
            ({
                let start = old(self).first_data;
                let end = (start.col + old(self).cur_len.col, start.row + old(self).cur_len.row);
                let cur = gmin(old(self).data_len, old(self).alloc_len);
                let range = match changes {
                    DataChanges::NoChange | DataChanges::NoPreparedItems => (
                        (start.col as int, start.row as int),
                        (start.col as int, start.row as int),
                    ),
                    DataChanges::Range(rg) => (
                        (max(start.col as int, rg.start.col as int), max(start.row as int, rg.start.row as int)),
                        (min(end.0, rg.end.col as int), min(end.1, rg.end.row as int)),
                    ),
                    DataChanges::Any => ((start.col as int, start.row as int), end),
                };
                let nonempty = range.0.0 < range.1.0 && range.0.1 < range.1.1;
                if len_changed && sizes_changed {
                    r == GridClerkAction::Resize && *final(self) == *old(self)
                } else if len_changed && old(self).cur_len != cur {
                    r == GridClerkAction::PostScroll && *final(self) == *old(self)
                } else if nonempty {
                    &&& r matches GridClerkAction::MapRange(s, e) && s == start && e.col == end.0
                        && e.row == end.1
                    &&& final(self).token_update.rank() == max(old(self).token_update.rank(), 1)
                } else {
                    r == GridClerkAction::Nothing && *final(self) == *old(self)
                }
            }),
            final(self).first_data == old(self).first_data,
            final(self).cur_len == old(self).cur_len,
            final(self).data_len == old(self).data_len,
    {
        let start = self.first_data;
        let end = self.first_data.add(self.cur_len);
        let (rs, re) = match changes {
            DataChanges::NoChange | DataChanges::NoPreparedItems => (start, start),
            DataChanges::Range(rg) => (
                GridIndex {
                    col: if start.col >= rg.start.col {
                        start.col
                    } else {
                        rg.start.col
                    },
                    row: if start.row >= rg.start.row {
                        start.row
                    } else {
                        rg.start.row
                    },
                },
                GridIndex {
                    col: if end.col <= rg.end.col {
                        end.col
                    } else {
                        rg.end.col
                    },
                    row: if end.row <= rg.end.row {
                        end.row
                    } else {
                        rg.end.row
                    },
                },
            ),
            DataChanges::Any => (start, end),
        };
        if len_changed {
            if sizes_changed {
                return GridClerkAction::Resize;
            }
            let cols = if self.data_len.col <= self.alloc_len.col {
                self.data_len.col
            } else {
                self.alloc_len.col
            };
            let rows = if self.data_len.row <= self.alloc_len.row {
                self.data_len.row
            } else {
                self.alloc_len.row
            };
            if self.cur_len.col != cols || self.cur_len.row != rows {
                return GridClerkAction::PostScroll;
            }
        }
        if rs.col < re.col && rs.row < re.row {
            self.token_update = self.token_update.max(Update::Token);
            return GridClerkAction::MapRange(start, end);
        }
        GridClerkAction::Nothing
    }

    /// Size of the scrollable content: the data cells at the current child
    /// size with margins between them (at least zero)
    pub fn content_size(&self) -> (r: Size)
        requires
            self.data_len.col <= i32::MAX,
            self.data_len.row <= i32::MAX,
            i32::MIN <= self.child_size.0 + self.child_inter_margin.0 <= i32::MAX,
            i32::MIN <= self.child_size.1 + self.child_inter_margin.1 <= i32::MAX,
            i32::MIN <= (self.child_size.0 + self.child_inter_margin.0) * self.data_len.col
                <= i32::MAX,
            i32::MIN <= (self.child_size.1 + self.child_inter_margin.1) * self.data_len.row
                <= i32::MAX,
            i32::MIN <= (self.child_size.0 + self.child_inter_margin.0) * self.data_len.col
                - self.child_inter_margin.0 <= i32::MAX,
            i32::MIN <= (self.child_size.1 + self.child_inter_margin.1) * self.data_len.row
                - self.child_inter_margin.1 <= i32::MAX,
        ensures
            r.0 == max(
                (self.child_size.0 + self.child_inter_margin.0) * self.data_len.col
                    - self.child_inter_margin.0,
                0,
            ),
            r.1 == max(
                (self.child_size.1 + self.child_inter_margin.1) * self.data_len.row
                    - self.child_inter_margin.1,
                0,
            ),
    {
        let m = self.child_inter_margin;
        let step = Size(self.child_size.0 + m.0, self.child_size.1 + m.1);
        let w = step.0 * (self.data_len.col as i32) - m.0;
        let h = step.1 * (self.data_len.row as i32) - m.1;
        Size(
            if w >= 0 {
                w
            } else {
                0
            },
            if h >= 0 {
                h
            } else {
                0
            },
        )
    }

    /// Set the rect of the grid, returning the number of widgets required to
    /// cover it (`None`: a zero step; no widget is allocated)
    ///
    /// Each child gets the available size divided by the ideal number of
    /// cells, limited to the children's size range; the number of columns
    /// (rows) allocated is the number of steps needed to cover the rect plus
    /// one.
    pub fn set_rect(&mut self, rect: Rect) -> (req_widgets: Option<usize>)
        requires
            0 < old(self).ideal_len.col <= i32::MAX,
            0 < old(self).ideal_len.row <= i32::MAX,
            rect.size.0 >= 0,
            rect.size.1 >= 0,
            old(self).frame_size.0 >= 0,
            old(self).frame_size.1 >= 0,
            old(self).child_size_min.0 >= 0,
            old(self).child_size_min.1 >= 0,
            old(self).child_inter_margin.0 >= 0,
            old(self).child_inter_margin.1 >= 0,
            rect.size.0 + old(self).child_size_ideal.0 + old(self).child_size_min.0
                + old(self).child_inter_margin.0 <= i32::MAX,
            rect.size.1 + old(self).child_size_ideal.1 + old(self).child_size_min.1
                + old(self).child_inter_margin.1 <= i32::MAX,
            old(self).child_size_ideal.0 >= 0,
            old(self).child_size_ideal.1 >= 0,
        ensures
            final(self).rect == rect,
            ({
                let a0 = rect.size.0 - old(self).frame_size.0;
                let a1 = rect.size.1 - old(self).frame_size.1;
                let c0 = clamp_min_last(
                    crate::geom::div_trunc(a0, old(self).ideal_len.col as int),
                    old(self).child_size_min.0 as int,
                    old(self).child_size_ideal.0 as int,
                );
                let c1 = clamp_min_last(
                    crate::geom::div_trunc(a1, old(self).ideal_len.row as int),
                    old(self).child_size_min.1 as int,
                    old(self).child_size_ideal.1 as int,
                );
                let k0 = c0 + old(self).child_inter_margin.0;
                let k1 = c1 + old(self).child_inter_margin.1;
                &&& final(self).child_size.0 == c0
                &&& final(self).child_size.1 == c1
                &&& (k0 == 0 || k1 == 0) ==> req_widgets is None && final(self).alloc_len == (
                    GridIndex { col: 0, row: 0 }) && final(self).rect_update == old(
                    self,
                ).rect_update
                &&& !(k0 == 0 || k1 == 0) ==> {
                    let v0 = (rect.size.0 + k0 - 1) / k0 + 1;
                    let v1 = (rect.size.1 + k1 - 1) / k1 + 1;
                    &&& final(self).alloc_len.col == v0
                    &&& final(self).alloc_len.row == v1
                    &&& req_widgets == Some((v0 * v1) as usize)
                    &&& final(self).rect_update
                }
            }),
            final(self).data_len == old(self).data_len,
            final(self).cur_len == old(self).cur_len,
            final(self).first_data == old(self).first_data,
    {
        self.rect = rect;
        let avail = Size(rect.size.0 - self.frame_size.0, rect.size.1 - self.frame_size.1);
        let (cols, rows) = (self.ideal_len.col as i32, self.ideal_len.row as i32);
        let d0 = avail.0 / cols;
        let d1 = avail.1 / rows;
        let x0 = if d0 <= self.child_size_ideal.0 {
            d0
        } else {
            self.child_size_ideal.0
        };
        let x1 = if d1 <= self.child_size_ideal.1 {
            d1
        } else {
            self.child_size_ideal.1
        };
        let c0 = if x0 >= self.child_size_min.0 {
            x0
        } else {
            self.child_size_min.0
        };
        let c1 = if x1 >= self.child_size_min.1 {
            x1
        } else {
            self.child_size_min.1
        };
        self.child_size = Size(c0, c1);

        let skip = Size(c0 + self.child_inter_margin.0, c1 + self.child_inter_margin.1);
        if skip.0 == 0 || skip.1 == 0 {
            self.alloc_len = GridIndex::zero();
            return None;
        }
        let v0 = (rect.size.0 + skip.0 - 1) / skip.0 + 1;
        let v1 = (rect.size.1 + skip.1 - 1) / skip.1 + 1;
        proof {
            assert(v0 <= rect.size.0 + 1) by (nonlinear_arith)
                requires
                    skip.0 >= 1,
                    v0 == (rect.size.0 + skip.0 - 1) / (skip.0 as int) + 1,
                    rect.size.0 >= 0,
            ;
            assert(v1 <= rect.size.1 + 1) by (nonlinear_arith)
                requires
                    skip.1 >= 1,
                    v1 == (rect.size.1 + skip.1 - 1) / (skip.1 as int) + 1,
                    rect.size.1 >= 0,
            ;
            assert(v0 * v1 <= (i32::MAX as int) * (i32::MAX as int)) by (nonlinear_arith)
                requires
                    0 <= v0 <= i32::MAX,
                    0 <= v1 <= i32::MAX,
            ;
        }
        let req_widgets = (v0 as u64 * v1 as u64) as usize;
        self.alloc_len = GridIndex { col: v0 as u32, row: v1 as u32 };
        self.rect_update = true;
        Some(req_widgets)
    }

    /// The lower bound passed to the clerk's `len` on (re-)configuration,
    /// with the pool's size afterwards (the ideal size when `widgets_empty`)
    pub fn configure_lbound(&self, widgets_empty: bool) -> (r: GridIndex)
        requires
            self.first_data.col + 2 * self.ideal_len.col <= u32::MAX,
            self.first_data.row + 2 * self.ideal_len.row <= u32::MAX,
            self.first_data.col + 2 * self.alloc_len.col <= u32::MAX,
            self.first_data.row + 2 * self.alloc_len.row <= u32::MAX,
        ensures
            ({
                let alloc = if widgets_empty {
                    self.ideal_len
                } else {
                    self.alloc_len
                };
                r.col == self.first_data.col + 2 * alloc.col && r.row == self.first_data.row + 2
                    * alloc.row
            }),
    {
        let alloc = if widgets_empty {
            self.ideal_len
        } else {
            self.alloc_len
        };
        GridIndex {
            col: self.first_data.col + 2 * alloc.col,
            row: self.first_data.row + 2 * alloc.row,
        }
    }

    /// (Re-)configure: an empty widget pool gets the ideal number of cells
    /// (and a unit child size); the reported length is recorded and all
    /// cells in the resulting window are mapped with re-configuration.
    ///
    /// Returns the number of widgets to allocate (if any) and the cells to
    /// map.
    pub fn configure_recurse(&mut self, widgets_empty: bool, reported: DataLen<GridIndex>) -> (r: (
        Option<usize>,
        GridIndex,
        GridIndex,
    ))
        requires
            old(self).ideal_len.col * old(self).ideal_len.row <= usize::MAX,
            old(self).first_data.col + old(self).ideal_len.col <= u32::MAX,
            old(self).first_data.row + old(self).ideal_len.row <= u32::MAX,
            old(self).first_data.col + old(self).alloc_len.col <= u32::MAX,
            old(self).first_data.row + old(self).alloc_len.row <= u32::MAX,
        ensures
            widgets_empty ==> r.0 == Some((old(self).ideal_len.col * old(self).ideal_len.row) as usize)
                && final(self).alloc_len == old(self).ideal_len && final(self).child_size == Size(1, 1),
            !widgets_empty ==> r.0 is None && final(self).alloc_len == old(self).alloc_len
                && final(self).child_size == old(self).child_size,
            final(self).len_is_known == (reported is Known),
            final(self).data_len == reported.spec_len(),
            final(self).cur_len == gmin(reported.spec_len(), final(self).alloc_len),
            final(self).token_update == Update::Configure,
            final(self).first_data == old(self).first_data,
            r.1 == old(self).first_data,
            r.2.col == old(self).first_data.col + final(self).cur_len.col,
            r.2.row == old(self).first_data.row + final(self).cur_len.row,
    {
        let mut alloc = None;
        if widgets_empty {
            self.child_size = Size(1, 1);
            alloc = Some(self.ideal_len.col as usize * self.ideal_len.row as usize);
            self.alloc_len = self.ideal_len;
        }
        self.len_is_known = reported.is_known();
        let data_len = reported.len();
        self.data_len = data_len;
        let cur_len = GridIndex {
            col: if data_len.col <= self.alloc_len.col {
                data_len.col
            } else {
                self.alloc_len.col
            },
            row: if data_len.row <= self.alloc_len.row {
                data_len.row
            } else {
                self.alloc_len.row
            },
        };
        self.cur_len = cur_len;
        self.token_update = Update::Configure;
        (alloc, self.first_data, self.first_data.add(cur_len))
    }
}

} // verus!
