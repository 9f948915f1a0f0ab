//! Scrollable read-only viewer over the log buffer.

use vstd::prelude::*;

verus! {

/// Scrollable viewer over the log buffer.
pub struct LogView {
    /// Top-of-window line index; clamped when drawing, so a very large
    /// value means "scroll to the tail".
    pub scroll: u16,
    /// When `true`, the last line stays visible as new lines arrive.
    pub sticky_tail: bool,
    /// Inner content height of the most recent draw.
    pub visible: u16,
}

/// The lines `[start, end)` shown of `total` lines in a window `inner_h`
/// rows tall, scrolled to `scroll` unless it follows the tail.
pub open spec fn log_window(total: nat, inner_h: nat, scroll: nat, sticky: bool) -> (nat, nat) {
    let max_off: nat = if total > inner_h {
        (total - inner_h) as nat
    } else {
        0
    };
    let off: nat = if sticky || scroll > max_off {
        max_off
    } else {
        scroll
    };
    let end: nat = if off + inner_h < total {
        off + inner_h
    } else {
        total
    };
    (off, end)
}

impl LogView {
    /// Constructs a viewer that follows the tail.
    pub fn new() -> (r: Self)
        ensures
            r.scroll == 0,
            r.sticky_tail,
            r.visible == 0,
    {
        LogView { scroll: 0, sticky_tail: true, visible: 0 }
    }

    /// The window of lines to draw out of `total` lines (at most
    /// `u16::MAX`), with `inner_h` rows available.
    pub fn window(&self, total: u16, inner_h: u16) -> (r: (usize, usize))
        ensures
            r.0 as nat == log_window(total as nat, inner_h as nat, self.scroll as nat, self.sticky_tail).0,
            r.1 as nat == log_window(total as nat, inner_h as nat, self.scroll as nat, self.sticky_tail).1,
            r.0 <= r.1 <= total,
    {
        let max_off: u16 = if total > inner_h {
            total - inner_h
        } else {
            0
        };
        let off: u16 = if self.sticky_tail || self.scroll > max_off {
            max_off
        } else {
            self.scroll
        };
        let start = off as usize;
        let end: usize = if start + (inner_h as usize) < total as usize {
            start + inner_h as usize
        } else {
            total as usize
        };
        (start, end)
    }
}

impl Default for LogView {
    fn default() -> (r: Self)
        ensures
            r.scroll == 0,
            r.sticky_tail,
            r.visible == 0,
    {
        LogView::new()
    }
}

} // verus!
