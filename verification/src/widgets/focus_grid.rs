//! Shared row/column focus grid for screen navigation.
//!
//! Every screen defines its focusable layout as a list of rows, each either
//! a fixed-column row or a scrollable list. The grid handles all cycling
//! logic (Up/Down/Left/Right/PgUp/PgDn/scroll) so screens only supply the
//! row definitions and react to the resulting focus position.

use vstd::prelude::*;

verus! {

/// Describes a row's column structure.
#[derive(Clone, Copy, Debug, PartialEq, Eq, Structural)]
pub enum RowKind {
    /// A fixed row with the given number of columns.
    Fixed(usize),
    /// A scrollable list row. The grid tracks the selected index and scroll
    /// offset; the screen sets the current list length before navigation.
    List,
}

/// Everything the grid remembers, as a mathematical value.
pub struct GridModel {
    /// Row definitions.
    pub rows: Seq<RowKind>,
    /// Focused row.
    pub row: usize,
    /// Focused column within the focused row.
    pub col: usize,
    /// Column last focused on each row.
    pub last_col: Seq<usize>,
    /// Selected item of the list row.
    pub sel: usize,
    /// First visible item of the list row.
    pub scroll: usize,
    /// Number of items in the list row.
    pub len: usize,
    /// Number of list items that fit on screen (at least 1).
    pub visible: usize,
}

/// The invariant every grid keeps: one remembered column per row, the
/// focused row inside the grid (0 when there are no rows), and at least
/// one visible list item.
pub open spec fn model_wf(m: GridModel) -> bool {
    &&& m.last_col.len() == m.rows.len()
    &&& m.rows.len() <= usize::MAX
    &&& (m.rows.len() == 0 ==> m.row == 0)
    &&& (m.rows.len() > 0 ==> m.row < m.rows.len())
    &&& m.visible >= 1
}

/// Whether the focused row is a list.
pub open spec fn model_in_list(m: GridModel) -> bool {
    m.row < m.rows.len() && m.rows[m.row as int] == RowKind::List
}

/// Scroll clamped so that the selected item is inside the visible window.
pub open spec fn model_ensure_visible(m: GridModel) -> GridModel {
    let v: int = if m.visible >= 1 {
        m.visible as int
    } else {
        1
    };
    let s1: int = if m.sel < m.scroll {
        m.sel as int
    } else {
        m.scroll as int
    };
    let max_off: int = if m.sel as int >= v - 1 {
        m.sel - (v - 1)
    } else {
        0
    };
    let s2 = if s1 < max_off {
        max_off
    } else {
        s1
    };
    let s3 = if s2 > m.sel {
        m.sel as int
    } else {
        s2
    };
    GridModel { scroll: s3 as usize, ..m }
}

/// Remembers the focused column for the focused row.
pub open spec fn model_save_col(m: GridModel) -> GridModel {
    if m.row < m.last_col.len() {
        GridModel { last_col: m.last_col.update(m.row as int, m.col), ..m }
    } else {
        m
    }
}

/// Restores the remembered column of the focused row, clamped to the
/// row's column count (0 on list rows).
pub open spec fn model_restore_col(m: GridModel) -> GridModel {
    let c = if m.row < m.last_col.len() {
        m.last_col[m.row as int]
    } else {
        0usize
    };
    let c2 = if m.row < m.rows.len() {
        match m.rows[m.row as int] {
            RowKind::Fixed(n) => if n == 0 {
                0usize
            } else if c < n {
                c
            } else {
                (n - 1) as usize
            },
            RowKind::List => 0usize,
        }
    } else {
        0usize
    };
    GridModel { col: c2, ..m }
}

/// Cycles to the previous row (wrapping); landing on a list selects its
/// last item.
pub open spec fn model_prev_row(m: GridModel) -> GridModel {
    let a = model_save_col(m);
    let r: usize = if a.row == 0 {
        if a.rows.len() == 0 {
            0usize
        } else {
            (a.rows.len() - 1) as usize
        }
    } else {
        (a.row - 1) as usize
    };
    let b = model_restore_col(GridModel { row: r, ..a });
    if model_in_list(b) && b.len > 0 {
        model_ensure_visible(GridModel { sel: (b.len - 1) as usize, ..b })
    } else {
        b
    }
}

/// Cycles to the next row (wrapping); landing on a list selects its first
/// item.
pub open spec fn model_next_row(m: GridModel) -> GridModel {
    let a = model_save_col(m);
    let r: usize = if a.row + 1 >= a.rows.len() {
        0usize
    } else {
        (a.row + 1) as usize
    };
    let b = model_restore_col(GridModel { row: r, ..a });
    if model_in_list(b) {
        GridModel { sel: 0, scroll: 0, ..b }
    } else {
        b
    }
}

/// Up: previous list item, or the previous row at the top of a list or on
/// a fixed row.
pub open spec fn model_move_up(m: GridModel) -> GridModel {
    if model_in_list(m) && m.sel > 0 {
        model_ensure_visible(GridModel { sel: (m.sel - 1) as usize, ..m })
    } else {
        model_prev_row(m)
    }
}

/// Down: next list item, or the next row at the bottom of a list or on a
/// fixed row.
pub open spec fn model_move_down(m: GridModel) -> GridModel {
    if model_in_list(m) && m.len > 0 && m.sel + 1 < m.len {
        model_ensure_visible(GridModel { sel: (m.sel + 1) as usize, ..m })
    } else {
        model_next_row(m)
    }
}

/// Jumps to the first row; a list there starts at its first item.
pub open spec fn model_page_up(m: GridModel) -> GridModel {
    let a = model_save_col(m);
    let b = model_restore_col(GridModel { row: 0, ..a });
    if model_in_list(b) {
        GridModel { sel: 0, scroll: 0, ..b }
    } else {
        b
    }
}

/// Jumps to the last row; a list there selects its last item.
pub open spec fn model_page_down(m: GridModel) -> GridModel {
    let a = model_save_col(m);
    let r: usize = if a.rows.len() == 0 {
        0usize
    } else {
        (a.rows.len() - 1) as usize
    };
    let b = model_restore_col(GridModel { row: r, ..a });
    if model_in_list(b) && b.len > 0 {
        model_ensure_visible(GridModel { sel: (b.len - 1) as usize, ..b })
    } else {
        b
    }
}

/// The focused column fits the focused row: on a fixed row of `n` columns
/// it is below `n` (or 0), on a list row it is 0.
pub open spec fn col_ok(m: GridModel) -> bool {
    m.row < m.rows.len() ==> match m.rows[m.row as int] {
        RowKind::Fixed(n) => m.col == 0 || m.col < n,
        RowKind::List => m.col == 0,
    }
}

/// A fresh grid's column fits its row, and every move keeps it fitting:
/// changing the list's length or the visible rows, Up, Down, Left, Right,
/// PgUp, PgDn, the wheel (Up or Down) and `ensure_visible`. (Only
/// `set_focus`, which stores the column it is given, can break it.)
pub proof fn law_col_stays_in_row(m: GridModel, len: usize, v: usize)
    requires
        col_ok(m),
    ensures
        col_ok(GridModel { row: 0, col: 0, ..m }),
        col_ok(GridModel { len, ..m }),
        col_ok(GridModel { len, sel: (len - 1) as usize, ..m }),
        col_ok(GridModel { visible: v, ..m }),
        col_ok(model_ensure_visible(m)),
        col_ok(model_move_up(m)),
        col_ok(model_move_down(m)),
        col_ok(model_page_up(m)),
        col_ok(model_page_down(m)),
        m.row < m.rows.len() && m.rows[m.row as int] is Fixed && m.col > 0 ==> col_ok(
            model_save_col(GridModel { col: (m.col - 1) as usize, ..m }),
        ),
        m.row < m.rows.len() && (m.rows[m.row as int] matches RowKind::Fixed(n) && m.col + 1 < n)
            ==> col_ok(model_save_col(GridModel { col: (m.col + 1) as usize, ..m })),
{
    lemma_restore_col_ok(GridModel { row: (if m.row == 0 {
        if m.rows.len() == 0 {
            0usize
        } else {
            (m.rows.len() - 1) as usize
        }
    } else {
        (m.row - 1) as usize
    }), ..model_save_col(m) });
    lemma_restore_col_ok(GridModel { row: (if m.row + 1 >= m.rows.len() {
        0usize
    } else {
        (m.row + 1) as usize
    }), ..model_save_col(m) });
    lemma_restore_col_ok(GridModel { row: 0, ..model_save_col(m) });
    lemma_restore_col_ok(GridModel { row: (if m.rows.len() == 0 {
        0usize
    } else {
        (m.rows.len() - 1) as usize
    }), ..model_save_col(m) });
}

/// A call on a grid other than `set_focus`, as the law below counts them.
pub enum GridOp {
    /// `set_list_len(n)`.
    SetListLen(usize),
    /// `set_visible_rows(v)`.
    SetVisibleRows(usize),
    /// `move_up()`.
    Up,
    /// `move_down()`.
    Down,
    /// `move_left()`.
    Left,
    /// `move_right()`.
    Right,
    /// `page_up()`.
    PageUp,
    /// `page_down()`.
    PageDown,
    /// `scroll(delta)`.
    Wheel(i32),
    /// `ensure_visible()`.
    EnsureVisible,
}

/// The grid after one call, as each method's contract states it.
pub open spec fn grid_step(m: GridModel, op: GridOp) -> GridModel {
    match op {
        GridOp::SetListLen(len) => if model_in_list(m) && m.sel >= len && len > 0 {
            GridModel { len, sel: (len - 1) as usize, ..m }
        } else {
            GridModel { len, ..m }
        },
        GridOp::SetVisibleRows(v) => GridModel {
            visible: if v >= 1 {
                v
            } else {
                1usize
            },
            ..m
        },
        GridOp::Up => model_move_up(m),
        GridOp::Down => model_move_down(m),
        GridOp::Left => if m.row < m.rows.len() && m.rows[m.row as int] is Fixed && m.col > 0 {
            model_save_col(GridModel { col: (m.col - 1) as usize, ..m })
        } else {
            m
        },
        GridOp::Right => if m.row < m.rows.len() && (m.rows[m.row as int] matches RowKind::Fixed(
            n,
        ) && m.col + 1 < n) {
            model_save_col(GridModel { col: (m.col + 1) as usize, ..m })
        } else {
            m
        },
        GridOp::PageUp => model_page_up(m),
        GridOp::PageDown => model_page_down(m),
        GridOp::Wheel(d) => if d < 0 {
            model_move_up(m)
        } else {
            model_move_down(m)
        },
        GridOp::EnsureVisible => model_ensure_visible(m),
    }
}

/// The grid after the calls `ops`, in order.
pub open spec fn grid_run(m: GridModel, ops: Seq<GridOp>) -> GridModel
    decreases ops.len(),
{
    if ops.len() == 0 {
        m
    } else {
        grid_step(grid_run(m, ops.drop_last()), ops.last())
    }
}

/// A fresh grid over `rows` (see [`FocusGrid::new`]).
pub open spec fn fresh_grid(rows: Seq<RowKind>) -> GridModel {
    GridModel {
        rows,
        row: 0,
        col: 0,
        last_col: Seq::new(rows.len(), |i: int| 0usize),
        sel: 0,
        scroll: 0,
        len: 0,
        visible: 1,
    }
}

/// From a fresh grid, any sequence of calls other than `set_focus` leaves
/// the column inside the focused row: below the column count of a fixed
/// row (0 on a row of no columns), 0 on a list row.
pub proof fn law_col_after_any_moves(rows: Seq<RowKind>, ops: Seq<GridOp>)
    ensures
        col_ok(grid_run(fresh_grid(rows), ops)),
    decreases ops.len(),
{
    if ops.len() > 0 {
        law_col_after_any_moves(rows, ops.drop_last());
        let m = grid_run(fresh_grid(rows), ops.drop_last());
        match ops.last() {
            GridOp::SetListLen(len) => {
                law_col_stays_in_row(m, len, 1);
            },
            GridOp::SetVisibleRows(v) => {
                law_col_stays_in_row(m, 0, if v >= 1 {
                    v
                } else {
                    1usize
                });
            },
            _ => {
                law_col_stays_in_row(m, 0, 1);
            },
        }
    }
}

/// Restoring the column always leaves it fitting its row.
proof fn lemma_restore_col_ok(m: GridModel)
    ensures
        col_ok(model_restore_col(m)),
        col_ok(model_ensure_visible(model_restore_col(m))),
{
}

/// After `ensure_visible`, the selected list item lies inside the visible
/// window `[scroll, scroll + visible)`.
pub proof fn lemma_ensure_visible_window(m: GridModel)
    requires
        model_wf(m),
    ensures
        model_ensure_visible(m).scroll <= m.sel,
        m.sel < model_ensure_visible(m).scroll + m.visible,
        model_ensure_visible(m).sel == m.sel,
{
}

/// Inside a list, Down followed by Up returns to the same row and item.
pub proof fn lemma_down_then_up(m: GridModel)
    requires
        model_wf(m),
        model_in_list(m),
        m.sel + 1 < m.len,
    ensures
        model_move_up(model_move_down(m)).sel == m.sel,
        model_move_up(model_move_down(m)).row == m.row,
{
}

/// Leaving a row downwards and coming back upwards lands on the same row.
pub proof fn lemma_next_then_prev_row(m: GridModel)
    requires
        model_wf(m),
        m.rows.len() > 0,
    ensures
        model_prev_row(model_next_row(m)).row == m.row,
{
    let a = model_save_col(m);
    assert(a.row == m.row && a.rows == m.rows);
    let n = model_next_row(m);
    assert(n.rows == m.rows);
    if m.row + 1 >= m.rows.len() {
        assert(n.row == 0);
    } else {
        assert(n.row == m.row + 1);
    }
}

/// Centralized focus grid managing row/column navigation.
pub struct FocusGrid {
    rows: Vec<RowKind>,
    row: usize,
    col: usize,
    last_col: Vec<usize>,
    list_selected: usize,
    list_scroll: usize,
    list_len: usize,
    visible_rows: usize,
}

impl View for FocusGrid {
    type V = GridModel;

    closed spec fn view(&self) -> GridModel {
        GridModel {
            rows: self.rows@,
            row: self.row,
            col: self.col,
            last_col: self.last_col@,
            sel: self.list_selected,
            scroll: self.list_scroll,
            len: self.list_len,
            visible: self.visible_rows,
        }
    }
}

impl FocusGrid {
    /// The grid invariant.
    pub open spec fn wf(&self) -> bool {
        model_wf(self@)
    }

    /// Constructs a grid from the given row definitions, focused on the
    /// first row and column with an empty list and one visible row.
    pub fn new(rows: Vec<RowKind>) -> (g: Self)
        ensures
            g.wf(),
            g@ == (GridModel {
                rows: rows@,
                row: 0,
                col: 0,
                last_col: Seq::new(rows@.len(), |i: int| 0usize),
                sel: 0,
                scroll: 0,
                len: 0,
                visible: 1,
            }),
    {
        let n = rows.len();
        let mut last_col: Vec<usize> = Vec::new();
        let mut i: usize = 0;
        while i < n
            invariant
                i <= n,
                last_col@ == Seq::new(i as nat, |k: int| 0usize),
            decreases n - i,
        {
            last_col.push(0);
            i = i + 1;
            assert(last_col@ =~= Seq::new(i as nat, |k: int| 0usize));
        }
        let g = Self {
            rows,
            row: 0,
            col: 0,
            last_col,
            list_selected: 0,
            list_scroll: 0,
            list_len: 0,
            visible_rows: 1,
        };
        assert(g@.last_col =~= Seq::new(g@.rows.len(), |i: int| 0usize));
        g
    }

    /// Sets the current list length. When focus is on the list and the
    /// selection lies past the end of a non-empty list, it moves to the
    /// last item.
    pub fn set_list_len(&mut self, len: usize)
        requires
            old(self).wf(),
        ensures
            final(self).wf(),
            final(self)@ == (if model_in_list(old(self)@) && old(self)@.sel >= len && len > 0 {
                GridModel { len, sel: (len - 1) as usize, ..old(self)@ }
            } else {
                GridModel { len, ..old(self)@ }
            }),
    {
        self.list_len = len;
        if self.in_list() && self.list_selected >= len && len > 0 {
            self.list_selected = len - 1;
        }
    }

    /// Sets the visible row count for scroll clamping (at least 1).
    pub fn set_visible_rows(&mut self, v: usize)
        requires
            old(self).wf(),
        ensures
            final(self).wf(),
            final(self)@ == (GridModel {
                visible: if v >= 1 {
                    v
                } else {
                    1usize
                },
                ..old(self)@
            }),
    {
        self.visible_rows = if v >= 1 {
            v
        } else {
            1
        };
    }

    /// Returns the current row index.
    pub fn row(&self) -> (r: usize)
        ensures
            r == self@.row,
    {
        self.row
    }

    /// Returns the current column index within the current row.
    pub fn col(&self) -> (c: usize)
        ensures
            c == self@.col,
    {
        self.col
    }

    /// Returns the selected index within a `List` row.
    pub fn list_selected(&self) -> (s: usize)
        ensures
            s == self@.sel,
    {
        self.list_selected
    }

    /// Returns the scroll offset within a `List` row.
    pub fn list_scroll(&self) -> (s: usize)
        ensures
            s == self@.scroll,
    {
        self.list_scroll
    }

    /// Returns whether the current row is a `List`.
    pub fn in_list(&self) -> (b: bool)
        ensures
            b == model_in_list(self@),
    {
        self.row < self.rows.len() && match self.rows[self.row] {
            RowKind::List => true,
            RowKind::Fixed(_) => false,
        }
    }

    /// Moves up one step. Within a list: selects the previous item; at the
    /// first item or on a fixed row: cycles to the previous row.
    pub fn move_up(&mut self)
        requires
            old(self).wf(),
        ensures
            final(self).wf(),
            final(self)@ == model_move_up(old(self)@),
    {
        if self.in_list() && self.list_selected > 0 {
            self.list_selected = self.list_selected - 1;
            self.ensure_visible();
            return;
        }
        self.go_prev_row();
    }

    /// Moves down one step. Within a list: selects the next item; at the
    /// last item or on a fixed row: cycles to the next row.
    pub fn move_down(&mut self)
        requires
            old(self).wf(),
        ensures
            final(self).wf(),
            final(self)@ == model_move_down(old(self)@),
    {
        if self.in_list() && self.list_len > 0 && self.list_selected < self.list_len - 1 {
            self.list_selected = self.list_selected + 1;
            self.ensure_visible();
            return;
        }
        self.go_next_row();
    }

    /// Moves left within a fixed row's columns. Returns `true` if consumed
    /// (column moved), `false` at the left edge or on a list row.
    pub fn move_left(&mut self) -> (moved: bool)
        requires
            old(self).wf(),
        ensures
            final(self).wf(),
            moved == (old(self)@.row < old(self)@.rows.len() && old(self)@.rows[old(
                self,
            )@.row as int] is Fixed && old(self)@.col > 0),
            moved ==> final(self)@ == model_save_col(
                GridModel { col: (old(self)@.col - 1) as usize, ..old(self)@ },
            ),
            !moved ==> final(self)@ == old(self)@,
    {
        if self.row < self.rows.len() {
            if let RowKind::Fixed(_n) = self.rows[self.row] {
                if self.col > 0 {
                    self.col = self.col - 1;
                    self.last_col.set(self.row, self.col);
                    return true;
                }
            }
        }
        false
    }

    /// Moves right within a fixed row's columns. Returns `true` if
    /// consumed, `false` at the right edge or on a list row.
    pub fn move_right(&mut self) -> (moved: bool)
        requires
            old(self).wf(),
        ensures
            final(self).wf(),
            moved == (old(self)@.row < old(self)@.rows.len() && (old(self)@.rows[old(
                self,
            )@.row as int] matches RowKind::Fixed(n) && old(self)@.col + 1 < n)),
            moved ==> final(self)@ == model_save_col(
                GridModel { col: (old(self)@.col + 1) as usize, ..old(self)@ },
            ),
            !moved ==> final(self)@ == old(self)@,
    {
        if self.row < self.rows.len() {
            if let RowKind::Fixed(n) = self.rows[self.row] {
                if n > 0 && self.col < n - 1 {
                    self.col = self.col + 1;
                    self.last_col.set(self.row, self.col);
                    return true;
                }
            }
        }
        false
    }

    /// Jumps to the first row.
    pub fn page_up(&mut self)
        requires
            old(self).wf(),
        ensures
            final(self).wf(),
            final(self)@ == model_page_up(old(self)@),
    {
        self.save_col();
        self.row = 0;
        self.restore_col();
        if self.in_list() {
            self.list_selected = 0;
            self.list_scroll = 0;
        }
    }

    /// Jumps to the last row. If the last row is a list, selects its last
    /// item.
    pub fn page_down(&mut self)
        requires
            old(self).wf(),
        ensures
            final(self).wf(),
            final(self)@ == model_page_down(old(self)@),
    {
        self.save_col();
        self.row = if self.rows.len() == 0 {
            0
        } else {
            self.rows.len() - 1
        };
        self.restore_col();
        if self.in_list() && self.list_len > 0 {
            self.list_selected = self.list_len - 1;
            self.ensure_visible();
        }
    }

    /// Wheel scroll: a negative delta moves up, any other moves down.
    pub fn scroll(&mut self, delta: i32)
        requires
            old(self).wf(),
        ensures
            final(self).wf(),
            final(self)@ == if delta < 0 {
                model_move_up(old(self)@)
            } else {
                model_move_down(old(self)@)
            },
    {
        if delta < 0 {
            self.move_up();
        } else {
            self.move_down();
        }
    }

    /// Directly sets the row (clamped to the last row) and column, e.g.
    /// after a mouse click. The grid must have at least one row.
    pub fn set_focus(&mut self, row: usize, col: usize)
        requires
            old(self).wf(),
            old(self)@.rows.len() > 0,
        ensures
            final(self).wf(),
            final(self)@ == ({
                let a = model_save_col(old(self)@);
                let r = if row < a.rows.len() {
                    row
                } else {
                    (a.rows.len() - 1) as usize
                };
                GridModel { row: r, col, last_col: a.last_col.update(r as int, col), ..a }
            }),
    {
        self.save_col();
        let last = self.rows.len() - 1;
        self.row = if row < last {
            row
        } else {
            last
        };
        self.col = col;
        self.last_col.set(self.row, self.col);
    }

    /// Directly sets the list selection.
    pub fn set_list_selected(&mut self, sel: usize)
        requires
            old(self).wf(),
        ensures
            final(self).wf(),
            final(self)@ == (GridModel { sel, ..old(self)@ }),
    {
        self.list_selected = sel;
    }

    /// Directly sets the list scroll offset.
    pub fn set_list_scroll(&mut self, scr: usize)
        requires
            old(self).wf(),
        ensures
            final(self).wf(),
            final(self)@ == (GridModel { scroll: scr, ..old(self)@ }),
    {
        self.list_scroll = scr;
    }

    /// Clamps scroll so the selected list item stays visible.
    pub fn ensure_visible(&mut self)
        requires
            old(self).wf(),
        ensures
            final(self).wf(),
            final(self)@ == model_ensure_visible(old(self)@),
    {
        let v = if self.visible_rows >= 1 {
            self.visible_rows
        } else {
            1
        };
        if self.list_selected < self.list_scroll {
            self.list_scroll = self.list_selected;
        }
        let max_off = if self.list_selected >= v - 1 {
            self.list_selected - (v - 1)
        } else {
            0
        };
        if self.list_scroll < max_off {
            self.list_scroll = max_off;
        }
        if self.list_scroll > self.list_selected {
            self.list_scroll = self.list_selected;
        }
    }

    fn save_col(&mut self)
        requires
            old(self).wf(),
        ensures
            final(self).wf(),
            final(self)@ == model_save_col(old(self)@),
    {
        if self.row < self.last_col.len() {
            self.last_col.set(self.row, self.col);
        }
    }

    fn restore_col(&mut self)
        requires
            old(self).last_col@.len() == old(self).rows@.len(),
        ensures
            final(self)@ == model_restore_col(old(self)@),
    {
        let c = if self.row < self.last_col.len() {
            self.last_col[self.row]
        } else {
            0
        };
        self.col = if self.row < self.rows.len() {
            match self.rows[self.row] {
                RowKind::Fixed(n) => if n == 0 {
                    0
                } else if c < n {
                    c
                } else {
                    n - 1
                },
                RowKind::List => 0,
            }
        } else {
            0
        };
    }

    fn go_prev_row(&mut self)
        requires
            old(self).wf(),
        ensures
            final(self).wf(),
            final(self)@ == model_prev_row(old(self)@),
    {
        self.save_col();
        if self.row == 0 {
            self.row = if self.rows.len() == 0 {
                0
            } else {
                self.rows.len() - 1
            };
        } else {
            self.row = self.row - 1;
        }
        self.restore_col();
        if self.in_list() && self.list_len > 0 {
            self.list_selected = self.list_len - 1;
            self.ensure_visible();
        }
    }

    fn go_next_row(&mut self)
        requires
            old(self).wf(),
        ensures
            final(self).wf(),
            final(self)@ == model_next_row(old(self)@),
    {
        self.save_col();
        if self.rows.len() == 0 || self.row >= self.rows.len() - 1 {
            self.row = 0;
        } else {
            self.row = self.row + 1;
        }
        self.restore_col();
        if self.in_list() {
            self.list_selected = 0;
            self.list_scroll = 0;
        }
    }
}

} // verus!
