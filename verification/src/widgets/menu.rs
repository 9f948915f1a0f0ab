//! Vertical menu with primary and secondary sections.

use crate::geom::Rect;
use vstd::arithmetic::div_mod::lemma_mod_self_0;
use vstd::arithmetic::div_mod::lemma_small_mod;
use vstd::arithmetic::div_mod::lemma_add_mod_noop;
use vstd::arithmetic::div_mod::lemma_mod_add_multiples_vanish;
use vstd::prelude::*;

verus! {

/// One row in a `Menu`.
pub struct MenuEntry {
    /// i18n key for the entry's label.
    pub label_key: &'static str,
}

/// Vertical menu with a primary section, a divider, and a secondary section.
pub struct Menu {
    /// Primary entries, shown above the divider.
    pub primary: Vec<MenuEntry>,
    /// Secondary entries, shown below the divider.
    pub secondary: Vec<MenuEntry>,
    /// Index of the selected entry across both sections.
    pub selected: usize,
}

/// Selection after moving up one entry in a menu of `n` entries (wrapping).
pub open spec fn wrap_up(sel: usize, n: usize) -> usize {
    if n == 0 {
        sel
    } else if sel == 0 {
        (n - 1) as usize
    } else {
        (sel - 1) as usize
    }
}

/// Selection after moving down one entry in a menu of `n` entries
/// (wrapping).
pub open spec fn wrap_down(sel: usize, n: usize) -> usize {
    if n == 0 {
        sel
    } else {
        ((sel + 1) % (n as int)) as usize
    }
}

/// The selection after `k` steps down from `sel` in a menu of `n` entries.
pub open spec fn downs(sel: usize, n: usize, k: nat) -> usize
    decreases k,
{
    if k == 0 {
        sel
    } else {
        wrap_down(downs(sel, n, (k - 1) as nat), n)
    }
}

/// In a non-empty menu, `k` steps down move the selection `k` entries on,
/// wrapping, and never leave the menu.
pub proof fn lemma_downs_position(sel: usize, n: usize, k: nat)
    requires
        sel < n,
    ensures
        downs(sel, n, k) < n,
        downs(sel, n, k) as int == (sel + k) % (n as int),
    decreases k,
{
    if k == 0 {
        lemma_small_mod(sel as nat, n as nat);
    } else {
        lemma_downs_position(sel, n, (k - 1) as nat);
        let p = downs(sel, n, (k - 1) as nat);
        lemma_add_mod_noop(sel + k - 1, 1, n as int);
        if n == 1 {
            lemma_mod_self_0(1);
            assert((sel + k) % (n as int) == 0) by {
                lemma_mod_one(sel + k);
            }
            assert(((p + 1) as int) % 1 == 0) by {
                lemma_mod_one((p + 1) as int);
            }
        } else {
            lemma_small_mod(1, n as nat);
        }
        assert(downs(sel, n, k) as int == (p + 1) % (n as int));
        lemma_mod_bound((p + 1) as int, n as int);
    }
}

/// In a menu of `n` entries, `n` steps down from any entry come back to it.
pub proof fn law_n_downs_return(sel: usize, n: usize)
    requires
        sel < n,
    ensures
        downs(sel, n, n as nat) == sel,
        forall|k: nat| #[trigger] downs(sel, n, k) < n,
{
    lemma_downs_position(sel, n, n as nat);
    lemma_mod_add_multiples_vanish(sel as int, n as int);
    lemma_small_mod(sel as nat, n as nat);
    assert forall|k: nat| #[trigger] downs(sel, n, k) < n by {
        lemma_downs_position(sel, n, k);
    }
}

/// `x % m` lies in `0..m` for a positive `m`.
proof fn lemma_mod_bound(x: int, m: int)
    requires
        m > 0,
    ensures
        0 <= x % m < m,
{
}

/// Any integer is 0 modulo 1.
proof fn lemma_mod_one(x: int)
    ensures
        x % 1 == 0,
{
}

/// Within a non-empty menu, Up undoes Down and Down undoes Up.
pub proof fn lemma_wrap_up_down_inverse(sel: usize, n: usize)
    requires
        sel < n,
    ensures
        wrap_up(wrap_down(sel, n), n) == sel,
        wrap_down(wrap_up(sel, n), n) == sel,
{
    if sel + 1 < n {
        lemma_small_mod((sel + 1) as nat, n as nat);
    } else {
        lemma_mod_self_0(n as int);
    }
    if sel == 0 {
        lemma_mod_self_0(n as int);
    } else {
        lemma_small_mod(sel as nat, n as nat);
    }
}

impl Menu {
    /// Total number of selectable entries.
    pub open spec fn n_entries(&self) -> nat {
        self.primary@.len() + self.secondary@.len()
    }

    /// Returns the total number of selectable entries.
    pub fn total(&self) -> (n: usize)
        requires
            self.n_entries() <= usize::MAX,
        ensures
            n == self.n_entries(),
    {
        self.primary.len() + self.secondary.len()
    }

    /// Moves the selection up by one, wrapping around.
    pub fn up(&mut self)
        requires
            old(self).n_entries() <= usize::MAX,
        ensures
            final(self).primary == old(self).primary,
            final(self).secondary == old(self).secondary,
            final(self).selected == wrap_up(old(self).selected, old(self).n_entries() as usize),
    {
        let n = self.total();
        if n == 0 {
            return;
        }
        self.selected = if self.selected == 0 {
            n - 1
        } else {
            self.selected - 1
        };
    }

    /// Moves the selection down by one, wrapping around.
    pub fn down(&mut self)
        requires
            old(self).n_entries() <= usize::MAX,
            old(self).selected < usize::MAX,
        ensures
            final(self).primary == old(self).primary,
            final(self).secondary == old(self).secondary,
            final(self).selected == wrap_down(old(self).selected, old(self).n_entries() as usize),
    {
        let n = self.total();
        if n == 0 {
            return;
        }
        self.selected = (self.selected + 1) % n;
    }

    /// Rendered rows: both sections plus the divider between them.
    pub open spec fn rows_total(&self) -> nat {
        self.primary@.len() + 1 + self.secondary@.len()
    }

    /// Rendered row of the selected entry (entries below the divider are
    /// shifted by one).
    pub open spec fn sel_row(&self) -> nat {
        if self.selected < self.primary@.len() {
            self.selected as nat
        } else {
            self.selected as nat + 1
        }
    }

    /// First rendered row when `visible` rows fit.
    pub open spec fn scroll_for(&self, visible: nat) -> nat {
        let total = self.rows_total();
        if visible == 0 || total <= visible {
            0
        } else if self.sel_row() < visible {
            0
        } else {
            let s = self.sel_row() + 1 - visible;
            if s < total - visible {
                s as nat
            } else {
                (total - visible) as nat
            }
        }
    }

    fn total_rows(&self) -> (n: usize)
        requires
            self.rows_total() <= usize::MAX,
        ensures
            n == self.rows_total(),
    {
        self.primary.len() + 1 + self.secondary.len()
    }

    fn selected_row(&self) -> (r: usize)
        requires
            self.selected < usize::MAX,
        ensures
            r == self.sel_row(),
    {
        let p = self.primary.len();
        if self.selected < p {
            self.selected
        } else {
            self.selected + 1
        }
    }

    /// Computes the scroll offset so the selected row is inside the
    /// `[scroll, scroll + visible)` window.
    pub fn scroll_offset(&self, visible: usize) -> (s: usize)
        requires
            self.rows_total() <= usize::MAX,
            self.selected < usize::MAX,
        ensures
            s == self.scroll_for(visible as nat),
    {
        let total = self.total_rows();
        if visible == 0 || total <= visible {
            return 0;
        }
        let sel = self.selected_row();
        let max_scroll = total - visible;
        if sel < visible {
            0
        } else {
            let s = sel - visible + 1;
            if s < max_scroll {
                s
            } else {
                max_scroll
            }
        }
    }

    /// Entry shown at rendered row `row` (the divider shows none).
    pub open spec fn entry_at_row(&self, row: nat) -> Option<usize> {
        let p = self.primary@.len();
        if row < p {
            Some(row as usize)
        } else if row == p {
            None
        } else if row - p - 1 < self.secondary@.len() {
            Some((row - 1) as usize)
        } else {
            None
        }
    }

    /// Returns the entry index hit by a click at row `y` inside `area`: the
    /// area has a one-cell border, and the menu is scrolled as when drawn.
    pub fn hit(&self, area: Rect, y: u16) -> (r: Option<usize>)
        requires
            self.rows_total() <= usize::MAX,
            self.selected < usize::MAX,
            area.y < u16::MAX,
        ensures
            r == ({
                let visible: int = if area.height >= 2 {
                    area.height - 2
                } else {
                    0
                };
                if y < area.y + 1 || y - (area.y + 1) >= visible {
                    None
                } else {
                    self.entry_at_row(
                        ((y - (area.y + 1)) + self.scroll_for(visible as nat)) as nat,
                    )
                }
            }),
    {
        let visible: usize = if area.height >= 2 {
            (area.height - 2) as usize
        } else {
            0
        };
        if y < area.y + 1 {
            return None;
        }
        let inside: usize = (y - (area.y + 1)) as usize;
        if inside >= visible {
            return None;
        }
        let scroll = self.scroll_offset(visible);
        assert(scroll == 0 || scroll + visible <= self.rows_total());
        let row = inside + scroll;
        let p = self.primary.len();
        if row < p {
            return Some(row);
        }
        if row == p {
            return None;
        }
        let idx = row - p - 1;
        if idx < self.secondary.len() {
            Some(p + idx)
        } else {
            None
        }
    }
}

} // verus!
