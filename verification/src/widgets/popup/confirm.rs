//! Yes / No confirmation popup.

use crate::geom::{fits, Key, Mouse, MouseKind, Rect};
use crate::layout::{laid_out, piece_of, split, Constraint};
use crate::widgets::button::{poll_next, Button, ButtonKind};
use crate::widgets::popup::{center, centered, inner, inner_of, lemma_centered_inside};
use vstd::prelude::*;

verus! {

/// Yes / No popup with an OK and a Cancel button.
///
/// Mouse clicks and Enter go through the buttons' deferred-fire pipeline,
/// so the outcome arrives from `tick()` one frame after the highlight.
pub struct Confirm {
    /// Popup title shown in the border.
    pub title: String,
    /// Body text shown above the buttons.
    pub body: String,
    /// When `true`, the OK button is focused; when `false`, Cancel is.
    pub focus_ok: bool,
    /// The OK button.
    pub btn_ok: Button,
    /// The Cancel button.
    pub btn_cancel: Button,
}

/// The rows of the popup body: free text above, the three-row button strip
/// below.
pub open spec fn body_rules() -> Seq<Constraint> {
    seq![Constraint::Min(0), Constraint::Length(3)]
}

/// Whether `s` can be the button strip of a popup drawn as a `w` x 9 box
/// inside `area`: a piece of the box's inside, split into free text above
/// and the strip below (see [`body_rules`]).
pub open spec fn strip_ok(s: Rect, area: Rect, w: u16) -> bool {
    exists|v: Seq<Rect>| #[trigger] laid_out(v, inner_of(centered(area, w, 9)), true, body_rules()) && s == v[1]
}

/// OK and Cancel, each 12 cells wide with a 2-cell gap, centered in the
/// button strip `s`.
pub open spec fn confirm_buttons(s: Rect) -> (Rect, Rect) {
    let x = s.x + (if s.width >= 26 {
        s.width - 26
    } else {
        0
    }) / 2;
    (
        Rect { x: x as u16, y: s.y, width: 12, height: 3 },
        Rect { x: (x + 14) as u16, y: s.y, width: 12, height: 3 },
    )
}

/// Splits the body of the popup drawn as a `w` x 9 box inside `area` and
/// returns the button strip.
pub fn strip_of(area: Rect, w: u16) -> (s: Rect)
    requires
        fits(area, 1),
    ensures
        strip_ok(s, area, w),
        area.x <= s.x,
        s.x + s.width <= area.x + area.width + 1,
        area.y <= s.y,
        s.y + s.height <= area.y + area.height + 1,
{
    let r = center(area, w, 9);
    proof {
        lemma_centered_inside(area, w, 9);
    }
    let i = inner(r);
    let mut rules: Vec<Constraint> = Vec::new();
    rules.push(Constraint::Min(0));
    rules.push(Constraint::Length(3));
    assert(rules@ =~= body_rules());
    let v = split(i, true, &rules);
    assert(piece_of(v@[1], i, true));
    assert(laid_out(v@, i, true, body_rules()));
    v[1]
}

/// `b` is `a` after a key press (the returned answer aside).
pub open spec fn confirm_keyed(a: Confirm, b: Confirm, k: Key) -> bool {
    &&& b.title == a.title
    &&& b.body == a.body
    &&& b.focus_ok == (if k == Key::Tab || k == Key::Left || k == Key::Right {
        !a.focus_ok
    } else {
        a.focus_ok
    })
    &&& b.ok_state() == (if k == Key::Enter && a.focus_ok {
        Some(false)
    } else {
        a.ok_state()
    })
    &&& b.cancel_state() == (if k == Key::Enter && !a.focus_ok {
        Some(false)
    } else {
        a.cancel_state()
    })
}

/// A click `m` on the confirmation `a` drawn over `area`, leaving `b`,
/// for some button strip that the popup's layout can produce (see
/// [`confirm_clicked_in`]).
pub open spec fn confirm_clicked(a: Confirm, b: Confirm, m: Mouse, area: Rect, r: Option<bool>) -> bool {
    exists|s: Rect| #[trigger] strip_ok(s, area, 60) && confirm_clicked_in(a, b, m, area, s, r)
}

/// A click `m` on the confirmation `a` drawn over `area` with its buttons
/// in the strip `s`, leaving `b`: a left click outside the popup cancels
/// it; one on OK or Cancel focuses and arms that button; anything else
/// leaves it as it is.
pub open spec fn confirm_clicked_in(
    a: Confirm,
    b: Confirm,
    m: Mouse,
    area: Rect,
    s: Rect,
    r: Option<bool>,
) -> bool {
    &&& b.title == a.title
    &&& b.body == a.body
    &&& {
        let (ok, cancel) = confirm_buttons(s);
        let click = m.kind == MouseKind::LeftDown;
        let outside = !centered(area, 60, 9).holds(m.column as int, m.row as int);
        let on_ok = click && !outside && ok.holds(m.column as int, m.row as int);
        let on_cancel = click && !outside && !on_ok && cancel.holds(
            m.column as int,
            m.row as int,
        );
        &&& r == (if click && outside {
            Some(false)
        } else {
            None
        })
        &&& b.focus_ok == (if on_ok {
            true
        } else if on_cancel {
            false
        } else {
            a.focus_ok
        })
        &&& b.ok_state() == (if on_ok {
            Some(false)
        } else {
            a.ok_state()
        })
        &&& b.cancel_state() == (if on_cancel {
            Some(false)
        } else {
            a.cancel_state()
        })
    }
}

impl Confirm {
    /// The OK button's deferred-fire state.
    pub open spec fn ok_state(&self) -> Option<bool> {
        self.btn_ok.pending_state()
    }

    /// The Cancel button's deferred-fire state.
    pub open spec fn cancel_state(&self) -> Option<bool> {
        self.btn_cancel.pending_state()
    }

    /// Constructs a confirmation popup with both buttons idle.
    pub fn new(title: String, body: String, focus_ok: bool) -> (r: Self)
        ensures
            r.title == title,
            r.body == body,
            r.focus_ok == focus_ok,
            r.ok_state() is None,
            r.cancel_state() is None,
    {
        Confirm {
            title,
            body,
            focus_ok,
            btn_ok: Button::new(ButtonKind::Primary),
            btn_cancel: Button::new(ButtonKind::Default),
        }
    }

    /// Where OK and Cancel are drawn over `area`, with the strip the layout
    /// gave.
    pub fn button_rects(&self, area: Rect) -> (r: (Rect, Rect))
        requires
            fits(area, 16),
        ensures
            exists|s: Rect| #[trigger] strip_ok(s, area, 60) && r == confirm_buttons(s),
    {
        let s = strip_of(area, 60);
        Self::rects_in(s)
    }

    /// Where OK and Cancel are drawn in the button strip `s`.
    fn rects_in(s: Rect) -> (r: (Rect, Rect))
        requires
            s.x + s.width + 15 <= u16::MAX,
        ensures
            r == confirm_buttons(s),
    {
        let bw: u16 = 12;
        let gap: u16 = 2;
        let total: u16 = bw * 2 + gap;
        let x = s.x + (if s.width >= total {
            s.width - total
        } else {
            0
        }) / 2;
        (
            Rect { x, y: s.y, width: bw, height: 3 },
            Rect { x: x + bw + gap, y: s.y, width: bw, height: 3 },
        )
    }

    /// Handles a key press. Esc answers `Some(false)` at once; Tab, Left and
    /// Right move the focus to the other button; Enter arms the focused
    /// button so the outcome arrives from `tick()`.
    pub fn on_key(&mut self, k: Key) -> (r: Option<bool>)
        ensures
            confirm_keyed(*old(self), *final(self), k),
            final(self).title == old(self).title,
            final(self).body == old(self).body,
            r == (if k == Key::Esc {
                Some(false)
            } else {
                None
            }),
            final(self).focus_ok == (if k == Key::Tab || k == Key::Left || k == Key::Right {
                !old(self).focus_ok
            } else {
                old(self).focus_ok
            }),
            final(self).ok_state() == (if k == Key::Enter && old(self).focus_ok {
                Some(false)
            } else {
                old(self).ok_state()
            }),
            final(self).cancel_state() == (if k == Key::Enter && !old(self).focus_ok {
                Some(false)
            } else {
                old(self).cancel_state()
            }),
    {
        match k {
            Key::Esc => Some(false),
            Key::Tab | Key::Left | Key::Right => {
                self.focus_ok = !self.focus_ok;
                None
            },
            Key::Enter => {
                if self.focus_ok {
                    self.btn_ok.click();
                } else {
                    self.btn_cancel.click();
                }
                None
            },
            _ => None,
        }
    }

    /// Handles a mouse event. A left click outside the popup answers
    /// `Some(false)` at once; a click on OK or Cancel focuses and arms that
    /// button.
    pub fn on_mouse(&mut self, m: Mouse, area: Rect) -> (r: Option<bool>)
        requires
            fits(area, 16),
        ensures
            confirm_clicked(*old(self), *final(self), m, area, r),
    {
        let s = strip_of(area, 60);
        if m.kind != MouseKind::LeftDown {
            assert(confirm_clicked_in(*old(self), *self, m, area, s, None));
            return None;
        }
        let r = center(area, 60, 9);
        if !r.contains(m.column, m.row) {
            assert(confirm_clicked_in(*old(self), *self, m, area, s, Some(false)));
            return Some(false);
        }
        let (ok_r, cancel_r) = Self::rects_in(s);
        if Button::hit(ok_r, m) {
            self.focus_ok = true;
            self.btn_ok.click();
            assert(confirm_clicked_in(*old(self), *self, m, area, s, None));
            return None;
        }
        if Button::hit(cancel_r, m) {
            self.focus_ok = false;
            self.btn_cancel.click();
            assert(confirm_clicked_in(*old(self), *self, m, area, s, None));
            return None;
        }
        assert(confirm_clicked_in(*old(self), *self, m, area, s, None));
        None
    }

    /// Polls once per frame: `Some(true)` when OK fires, `Some(false)` when
    /// Cancel fires, `None` otherwise. Cancel is polled only when OK did not
    /// fire.
    pub fn tick(&mut self) -> (r: Option<bool>)
        ensures
            final(self).title == old(self).title,
            final(self).body == old(self).body,
            final(self).focus_ok == old(self).focus_ok,
            final(self).ok_state() == poll_next(old(self).ok_state()),
            old(self).ok_state() == Some(true) ==> r == Some(true) && final(self).cancel_state()
                == old(self).cancel_state(),
            old(self).ok_state() != Some(true) ==> final(self).cancel_state() == poll_next(
                old(self).cancel_state(),
            ) && r == (if old(self).cancel_state() == Some(true) {
                Some(false)
            } else {
                None
            }),
    {
        if self.btn_ok.poll_fire() {
            return Some(true);
        }
        if self.btn_cancel.poll_fire() {
            return Some(false);
        }
        None
    }

    /// Immediate hit-test: `Some(true)` on OK, `Some(false)` on Cancel,
    /// `None` elsewhere.
    pub fn hit(&self, area: Rect, col: u16, row: u16) -> (r: Option<bool>)
        requires
            fits(area, 16),
        ensures
            exists|s: Rect| #[trigger] strip_ok(s, area, 60) && r == ({
                let (ok, cancel) = confirm_buttons(s);
                if ok.holds(col as int, row as int) {
                    Some(true)
                } else if cancel.holds(col as int, row as int) {
                    Some(false)
                } else {
                    None
                }
            }),
    {
        let s = strip_of(area, 60);
        let (ok_r, cancel_r) = Self::rects_in(s);
        if ok_r.contains(col, row) {
            return Some(true);
        }
        if cancel_r.contains(col, row) {
            return Some(false);
        }
        None
    }
}

} // verus!
