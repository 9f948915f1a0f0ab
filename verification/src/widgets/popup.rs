//! Modal popups and the geometry they share.

use crate::geom::Rect;
use vstd::prelude::*;

pub mod confirm;
pub mod input_popup;
pub mod menu;
pub mod notice;
pub mod select;

verus! {

/// `min(a, b)` on cells.
pub open spec fn min16(a: int, b: int) -> int {
    if a < b {
        a
    } else {
        b
    }
}

/// The rectangle [`center`] returns.
pub open spec fn centered(area: Rect, w: u16, h: u16) -> Rect {
    let w2 = min16(w as int, if area.width >= 2 {
        area.width - 2
    } else {
        0
    });
    let h2 = min16(h as int, if area.height >= 2 {
        area.height - 2
    } else {
        0
    });
    Rect {
        x: (area.x + (area.width - w2) / 2) as u16,
        y: (area.y + (area.height - h2) / 2) as u16,
        width: w2 as u16,
        height: h2 as u16,
    }
}

/// Returns a centered rectangle of `w` x `h` cells inside `area`, keeping a
/// one-cell margin on each side. The area must not reach past the last
/// terminal column or row.
pub fn center(area: Rect, w: u16, h: u16) -> (r: Rect)
    requires
        area.x + area.width <= u16::MAX,
        area.y + area.height <= u16::MAX,
    ensures
        r == centered(area, w, h),
{
    let aw: u16 = if area.width >= 2 {
        area.width - 2
    } else {
        0
    };
    let ah: u16 = if area.height >= 2 {
        area.height - 2
    } else {
        0
    };
    let w2: u16 = if w < aw {
        w
    } else {
        aw
    };
    let h2: u16 = if h < ah {
        h
    } else {
        ah
    };
    Rect {
        x: area.x + (area.width - w2) / 2,
        y: area.y + (area.height - h2) / 2,
        width: w2,
        height: h2,
    }
}

/// The centered rectangle lies inside `area`.
pub proof fn lemma_centered_inside(area: Rect, w: u16, h: u16)
    requires
        area.x + area.width <= u16::MAX,
        area.y + area.height <= u16::MAX,
    ensures
        area.x <= centered(area, w, h).x,
        centered(area, w, h).x + centered(area, w, h).width <= area.x + area.width,
        area.y <= centered(area, w, h).y,
        centered(area, w, h).y + centered(area, w, h).height <= area.y + area.height,
{
}

/// `r` shrunk by its one-cell border.
pub open spec fn inner_of(r: Rect) -> Rect {
    Rect {
        x: (r.x + 1) as u16,
        y: (r.y + 1) as u16,
        width: (if r.width >= 2 {
            r.width - 2
        } else {
            0
        }) as u16,
        height: (if r.height >= 2 {
            r.height - 2
        } else {
            0
        }) as u16,
    }
}

/// `r` shrunk by its one-cell border.
pub fn inner(r: Rect) -> (i: Rect)
    requires
        r.x < u16::MAX,
        r.y < u16::MAX,
    ensures
        i == inner_of(r),
{
    Rect {
        x: r.x + 1,
        y: r.y + 1,
        width: if r.width >= 2 {
            r.width - 2
        } else {
            0
        },
        height: if r.height >= 2 {
            r.height - 2
        } else {
            0
        },
    }
}

} // verus!
