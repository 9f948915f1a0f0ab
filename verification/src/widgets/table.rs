//! Bordered table with a header row and a selectable body.

use vstd::prelude::*;

verus! {

/// One table column.
pub struct Column {
    /// Header text.
    pub title: String,
    /// Column width in cells.
    pub width: u16,
}

/// A table view over `row_count` rows, drawn from `scroll`.
pub struct Table<'a> {
    /// Columns in display order.
    pub columns: &'a [Column],
    /// Number of data rows.
    pub row_count: usize,
    /// Selected row.
    pub selected: usize,
    /// Requested first visible row.
    pub scroll: usize,
}

/// The data rows `[start, end)` drawn in a box `area_h` rows tall: two
/// border rows and one header row are not data, the first row is the
/// requested scroll clamped so the window stays full where it can.
pub open spec fn table_window(row_count: nat, scroll: nat, area_h: nat) -> (nat, nat) {
    let inner_h: nat = if area_h >= 2 {
        (area_h - 2) as nat
    } else {
        0
    };
    let visible: nat = if inner_h >= 1 {
        (inner_h - 1) as nat
    } else {
        0
    };
    let keep: nat = if visible >= 1 {
        visible
    } else {
        1
    };
    let last_start: nat = if row_count >= keep {
        (row_count - keep) as nat
    } else {
        0
    };
    let start: nat = if scroll < last_start {
        scroll
    } else {
        last_start
    };
    let end: nat = if start + visible < row_count {
        start + visible
    } else {
        row_count
    };
    (start, end)
}

impl<'a> Table<'a> {
    /// The window of data rows drawn into a box `area_h` rows tall.
    pub fn window(&self, area_h: u16) -> (r: (usize, usize))
        ensures
            r.0 as nat == table_window(self.row_count as nat, self.scroll as nat, area_h as nat).0,
            r.1 as nat == table_window(self.row_count as nat, self.scroll as nat, area_h as nat).1,
            r.0 <= r.1 <= self.row_count,
    {
        let inner_h: usize = if area_h >= 2 {
            (area_h - 2) as usize
        } else {
            0
        };
        let visible: usize = if inner_h >= 1 {
            inner_h - 1
        } else {
            0
        };
        let keep: usize = if visible >= 1 {
            visible
        } else {
            1
        };
        let last_start: usize = if self.row_count >= keep {
            self.row_count - keep
        } else {
            0
        };
        let start: usize = if self.scroll < last_start {
            self.scroll
        } else {
            last_start
        };
        let end: usize = if start < self.row_count && visible < self.row_count - start {
            start + visible
        } else {
            self.row_count
        };
        (start, end)
    }
}

} // verus!
