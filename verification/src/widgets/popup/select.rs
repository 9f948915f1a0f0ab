//! Modal selection popup that lists one choice per row.

use crate::geom::{Key, Rect};
use crate::widgets::menu::{wrap_down, wrap_up};
use crate::widgets::popup::{center, centered};
use vstd::prelude::*;

verus! {

/// Single-choice selection popup.
pub struct Select {
    /// Popup title shown in the border.
    pub title: String,
    /// Selectable items in display order.
    pub items: Vec<String>,
    /// Index of the currently selected item.
    pub selected: usize,
}

/// Height of the popup for `n` items inside an area `area_h` rows tall:
/// the items plus the border, capped by the area less a margin, at least 4.
pub open spec fn select_height(n: int, area_h: int) -> u16 {
    let cap = if area_h >= 4 {
        area_h - 4
    } else {
        0
    };
    let h = if n + 2 < cap {
        n + 2
    } else {
        cap
    };
    (if h < 4 {
        4
    } else {
        h
    }) as u16
}

/// The item of `sel` under `(col, row)` when drawn over `area`: rows
/// inside the popup's border map to items from the top.
pub open spec fn select_hit(sel: Select, area: Rect, col: int, row: int) -> Option<usize> {
    let p = centered(area, 60, select_height(sel.items@.len() as int, area.height as int));
    let right = p.x + if p.width >= 1 {
        p.width - 1
    } else {
        0
    };
    let bottom = p.y + if p.height >= 1 {
        p.height - 1
    } else {
        0
    };
    if col < p.x + 1 || col >= right || row < p.y + 1 || row >= bottom {
        None
    } else if row - (p.y + 1) < sel.items@.len() {
        Some((row - (p.y + 1)) as usize)
    } else {
        None
    }
}

impl Select {
    /// Moves the selection up one row, wrapping at the top.
    pub fn up(&mut self)
        ensures
            final(self).title == old(self).title,
            final(self).items == old(self).items,
            final(self).selected == wrap_up(old(self).selected, old(self).items@.len() as usize),
    {
        let n = self.items.len();
        if n == 0 {
            return;
        }
        self.selected = if self.selected == 0 {
            n - 1
        } else {
            self.selected - 1
        };
    }

    /// Moves the selection down one row, wrapping at the bottom.
    pub fn down(&mut self)
        requires
            old(self).items@.len() == 0 || old(self).selected < usize::MAX,
        ensures
            final(self).title == old(self).title,
            final(self).items == old(self).items,
            final(self).selected == wrap_down(old(self).selected, old(self).items@.len() as usize),
    {
        let n = self.items.len();
        if n == 0 {
            return;
        }
        self.selected = (self.selected + 1) % n;
    }

    /// Handles a key event; returns whether it was consumed. Up and Down move
    /// with wrapping, PageUp jumps to the first row and PageDown to the last.
    /// Esc and Enter are left to the caller.
    pub fn on_key(&mut self, k: Key) -> (used: bool)
        requires
            old(self).items@.len() == 0 || old(self).selected < usize::MAX,
        ensures
            final(self).title == old(self).title,
            final(self).items == old(self).items,
            used == (k == Key::Up || k == Key::Down || k == Key::PageUp || k == Key::PageDown),
            final(self).selected == (match k {
                Key::Up => wrap_up(old(self).selected, old(self).items@.len() as usize),
                Key::Down => wrap_down(old(self).selected, old(self).items@.len() as usize),
                Key::PageUp => if old(self).items@.len() > 0 {
                    0
                } else {
                    old(self).selected
                },
                Key::PageDown => if old(self).items@.len() > 0 {
                    (old(self).items@.len() - 1) as usize
                } else {
                    old(self).selected
                },
                _ => old(self).selected,
            }),
    {
        match k {
            Key::Up => {
                self.up();
                true
            },
            Key::Down => {
                self.down();
                true
            },
            Key::PageUp => {
                if self.items.len() > 0 {
                    self.selected = 0;
                }
                true
            },
            Key::PageDown => {
                if self.items.len() > 0 {
                    self.selected = self.items.len() - 1;
                }
                true
            },
            _ => false,
        }
    }

    /// Returns the centered rectangle used when drawing the popup.
    pub fn popup_rect(&self, area: Rect) -> (r: Rect)
        requires
            self.items@.len() + 2 <= u16::MAX,
            area.x + area.width <= u16::MAX,
            area.y + area.height <= u16::MAX,
        ensures
            r == centered(area, 60, select_height(self.items@.len() as int, area.height as int)),
    {
        let n: u16 = self.items.len() as u16;
        let cap: u16 = if area.height >= 4 {
            area.height - 4
        } else {
            0
        };
        let h0: u16 = if n + 2 < cap {
            n + 2
        } else {
            cap
        };
        let h: u16 = if h0 < 4 {
            4
        } else {
            h0
        };
        center(area, 60, h)
    }

    /// Returns the item index under `(col, row)`, or `None` on a miss.
    pub fn hit(&self, area: Rect, col: u16, row: u16) -> (r: Option<usize>)
        requires
            self.items@.len() + 2 <= u16::MAX,
            area.x + area.width < u16::MAX,
            area.y + area.height < u16::MAX,
        ensures
            r == select_hit(*self, area, col as int, row as int),
    {
        let r = self.popup_rect(area);
        let rw: u16 = if r.width >= 1 {
            r.width - 1
        } else {
            0
        };
        let rh: u16 = if r.height >= 1 {
            r.height - 1
        } else {
            0
        };
        if col < r.x + 1 || col >= r.x + rw {
            return None;
        }
        if row < r.y + 1 || row >= r.y + rh {
            return None;
        }
        let idx = (row - (r.y + 1)) as usize;
        if idx < self.items.len() {
            Some(idx)
        } else {
            None
        }
    }
}

} // verus!
