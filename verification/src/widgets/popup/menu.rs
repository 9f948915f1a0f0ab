//! Generic action-menu popup.

use crate::geom::Rect;
use crate::widgets::popup::{center, centered};
use vstd::prelude::*;

verus! {

/// One row in a [`PopupMenu`].
#[derive(Clone, Copy, Debug)]
pub struct MenuItem {
    /// i18n key for the row label.
    pub label_key: &'static str,
    /// Disabled rows still render but Enter on them is a no-op.
    pub enabled: bool,
}

/// Centered, bordered popup that lists a small set of actions.
pub struct PopupMenu {
    /// Title shown in the popup's top border (already-localised text).
    pub title: String,
    /// The action rows, in display order.
    pub items: Vec<MenuItem>,
    /// Cursor position inside `items`.
    pub selected: usize,
}

/// Height of an action popup with `n` rows inside an area `area_h` rows
/// tall: the rows plus the border, capped by the area.
pub open spec fn menu_height(n: int, area_h: int) -> u16 {
    let h = if n + 2 > u16::MAX {
        u16::MAX as int
    } else {
        n + 2
    };
    (if h < area_h {
        h
    } else {
        area_h
    }) as u16
}

impl PopupMenu {
    /// Constructs a menu, clamping `selected` to a valid row (row 0 when the
    /// menu is empty).
    pub fn new(title: String, items: Vec<MenuItem>, selected: usize) -> (r: Self)
        ensures
            r.title == title,
            r.items == items,
            r.selected == (if items@.len() == 0 {
                0
            } else if selected < items@.len() {
                selected as int
            } else {
                items@.len() - 1
            }),
    {
        let last: usize = if items.len() == 0 {
            0
        } else {
            items.len() - 1
        };
        let selected = if selected < last {
            selected
        } else {
            last
        };
        PopupMenu { title, items, selected }
    }

    /// Returns the centered popup rectangle inside `area`.
    pub fn popup_rect(&self, area: Rect) -> (r: Rect)
        requires
            self.items@.len() <= u16::MAX,
            area.x + area.width <= u16::MAX,
            area.y + area.height <= u16::MAX,
        ensures
            r == centered(area, 50, menu_height(self.items@.len() as int, area.height as int)),
    {
        let n: u16 = self.items.len() as u16;
        let h0: u16 = if n > u16::MAX - 2 {
            u16::MAX
        } else {
            n + 2
        };
        let h: u16 = if h0 < area.height {
            h0
        } else {
            area.height
        };
        center(area, 50, h)
    }
}

} // verus!
