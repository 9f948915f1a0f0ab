//! Terminal geometry and input events as plain values.

use vstd::prelude::*;

verus! {

/// A rectangle of terminal cells.
#[derive(Clone, Copy, Debug, PartialEq, Eq, Structural, Default)]
pub struct Rect {
    /// Left column.
    pub x: u16,
    /// Top row.
    pub y: u16,
    /// Width in cells.
    pub width: u16,
    /// Height in cells.
    pub height: u16,
}

impl Rect {
    /// Whether the cell `(col, row)` lies inside the rectangle.
    pub open spec fn holds(self, col: int, row: int) -> bool {
        self.x <= col < self.x + self.width && self.y <= row < self.y + self.height
    }

    /// Whether the cell `(col, row)` lies inside the rectangle.
    pub fn contains(&self, col: u16, row: u16) -> (b: bool)
        ensures
            b == self.holds(col as int, row as int),
    {
        col >= self.x && (col - self.x) < self.width && row >= self.y && (row - self.y)
            < self.height
    }

    /// Whether the rectangle ends at least `slack` cells before the last
    /// terminal cell in both directions (see [`fits`]).
    pub fn fits_with(&self, slack: u16) -> (b: bool)
        ensures
            b == fits(*self, slack as int),
    {
        let lim: u32 = 65535;
        (self.x as u32) + (self.width as u32) + (slack as u32) <= lim && (self.y as u32)
            + (self.height as u32) + (slack as u32) <= lim
    }
}

/// A key press, as the screens see it.
#[derive(Clone, Copy, Debug, PartialEq, Eq, Structural)]
pub enum Key {
    /// A printable character.
    Char(char),
    /// Backspace.
    Backspace,
    /// Delete.
    Delete,
    /// Left arrow.
    Left,
    /// Right arrow.
    Right,
    /// Up arrow.
    Up,
    /// Down arrow.
    Down,
    /// Home.
    Home,
    /// End.
    End,
    /// Page Up.
    PageUp,
    /// Page Down.
    PageDown,
    /// Tab.
    Tab,
    /// Shift+Tab.
    BackTab,
    /// Enter.
    Enter,
    /// Escape.
    Esc,
    /// A function key.
    F(u8),
    /// Any other key.
    Other,
}

/// What a mouse event did.
#[derive(Clone, Copy, Debug, PartialEq, Eq, Structural)]
pub enum MouseKind {
    /// The left button went down.
    LeftDown,
    /// The wheel scrolled up.
    ScrollUp,
    /// The wheel scrolled down.
    ScrollDown,
    /// Anything else (other buttons, drags, moves).
    Other,
}

/// A mouse event at a terminal cell.
#[derive(Clone, Copy, Debug, PartialEq, Eq, Structural)]
pub struct Mouse {
    /// What happened.
    pub kind: MouseKind,
    /// Column of the cell.
    pub column: u16,
    /// Row of the cell.
    pub row: u16,
}

/// Whether `area` ends at least `slack` cells before the last terminal
/// column and row.
pub open spec fn fits(area: Rect, slack: int) -> bool {
    area.x + area.width + slack <= u16::MAX && area.y + area.height + slack <= u16::MAX
}

} // verus!
