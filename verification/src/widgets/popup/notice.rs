//! Informational popup with an OK button and an optional Copy button.

use crate::geom::{fits, Key, Mouse, MouseKind, Rect};
use crate::widgets::button::{poll_next, Button, ButtonKind};
use crate::widgets::popup::centered;
use crate::widgets::popup::center;
use crate::widgets::popup::confirm::{strip_of, strip_ok};
use vstd::prelude::*;

verus! {

/// Optional secondary Copy button rendered next to the OK button.
pub struct NoticeCopy {
    /// i18n key for the button label.
    pub label_key: &'static str,
    /// Text that should be copied to the clipboard.
    pub payload: String,
    /// Whether the Copy button currently holds focus.
    pub focused: bool,
}

/// Informational popup with a centered OK button and an optional Copy
/// button; both go through the buttons' deferred-fire pipeline.
pub struct Notice {
    /// Popup title shown in the border.
    pub title: String,
    /// Body text shown above the buttons.
    pub body: String,
    /// Optional Copy button configuration.
    pub copy: Option<NoticeCopy>,
    /// The OK button.
    pub btn_ok: Button,
    /// The Copy button.
    pub btn_copy: Button,
}

/// Outcome of a `Notice` interaction.
#[derive(Debug)]
pub enum NoticeOutcome {
    /// The user dismissed the popup.
    Close,
    /// The user pressed Copy: the caller copies the payload and closes.
    Copy(String),
}

/// `c` with the Copy button's focus set to `f`.
pub open spec fn focus_copy(c: Option<NoticeCopy>, f: bool) -> Option<NoticeCopy> {
    match c {
        Some(n) => Some(NoticeCopy { focused: f, ..n }),
        None => None,
    }
}

/// Whether the Copy button exists and holds focus.
pub open spec fn copy_has_focus(c: Option<NoticeCopy>) -> bool {
    c matches Some(n) && n.focused
}

/// OK (and Copy, when there is one) in the button strip `row`: a lone OK
/// button is centered; with Copy the two 14-cell buttons sit 2 cells apart,
/// centered together.
pub open spec fn notice_buttons(row: Rect, with_copy: bool) -> (Rect, Option<Rect>) {
    if !with_copy {
        let x = row.x + (if row.width >= 14 {
            row.width - 14
        } else {
            0
        }) / 2;
        (Rect { x: x as u16, y: row.y, width: 14, height: 3 }, None)
    } else {
        let left = row.x + (if row.width >= 30 {
            row.width - 30
        } else {
            0
        }) / 2;
        (
            Rect { x: left as u16, y: row.y, width: 14, height: 3 },
            Some(Rect { x: (left + 16) as u16, y: row.y, width: 14, height: 3 }),
        )
    }
}

/// `b` is `a` after a key press (the returned outcome aside).
pub open spec fn notice_keyed(a: Notice, b: Notice, k: Key) -> bool {
    &&& b.title == a.title
    &&& b.body == a.body
    &&& b.copy == (if k == Key::Tab || k == Key::Left || k == Key::Right {
        focus_copy(a.copy, !copy_has_focus(a.copy))
    } else {
        a.copy
    })
    &&& b.ok_state() == (if k == Key::Enter && !copy_has_focus(a.copy) {
        Some(false)
    } else {
        a.ok_state()
    })
    &&& b.copy_state() == (if k == Key::Enter && copy_has_focus(a.copy) {
        Some(false)
    } else {
        a.copy_state()
    })
}

/// A click `m` on the notice `a` drawn over `area`, leaving `b`, for some
/// button strip that the popup's layout can produce (see
/// [`notice_clicked_in`]).
pub open spec fn notice_clicked(a: Notice, b: Notice, m: Mouse, area: Rect, r: Option<NoticeOutcome>) -> bool {
    exists|s: Rect| #[trigger] strip_ok(s, area, 60) && notice_clicked_in(a, b, m, area, s, r)
}

/// A click `m` on the notice `a` drawn over `area` with its buttons in the
/// strip `s`, leaving `b`: a left click outside the popup closes it; one
/// on OK or Copy arms that button (and moves focus to it); anything else
/// leaves it as it is.
pub open spec fn notice_clicked_in(
    a: Notice,
    b: Notice,
    m: Mouse,
    area: Rect,
    s: Rect,
    r: Option<NoticeOutcome>,
) -> bool {
    &&& b.title == a.title
    &&& b.body == a.body
    &&& {
        let (ok, copy) = notice_buttons(s, a.copy is Some);
        let click = m.kind == MouseKind::LeftDown;
        let outside = !centered(area, 60, 9).holds(m.column as int, m.row as int);
        let on_ok = click && !outside && ok.holds(m.column as int, m.row as int);
        let on_copy = click && !outside && !on_ok && (copy matches Some(c) && c.holds(
            m.column as int,
            m.row as int,
        ));
        &&& r == (if click && outside {
            Some(NoticeOutcome::Close)
        } else {
            None
        })
        &&& b.copy == (if on_ok {
            focus_copy(a.copy, false)
        } else if on_copy {
            focus_copy(a.copy, true)
        } else {
            a.copy
        })
        &&& b.ok_state() == (if on_ok {
            Some(false)
        } else {
            a.ok_state()
        })
        &&& b.copy_state() == (if on_copy {
            Some(false)
        } else {
            a.copy_state()
        })
    }
}

impl Notice {
    /// The OK button's deferred-fire state.
    pub open spec fn ok_state(&self) -> Option<bool> {
        self.btn_ok.pending_state()
    }

    /// The Copy button's deferred-fire state.
    pub open spec fn copy_state(&self) -> Option<bool> {
        self.btn_copy.pending_state()
    }

    /// Constructs a notice popup with both buttons idle.
    pub fn new(title: String, body: String, copy: Option<NoticeCopy>) -> (r: Self)
        ensures
            r.title == title,
            r.body == body,
            r.copy == copy,
            r.ok_state() is None,
            r.copy_state() is None,
    {
        Notice {
            title,
            body,
            copy,
            btn_ok: Button::new(ButtonKind::Primary),
            btn_copy: Button::new(ButtonKind::Default),
        }
    }

    /// Where OK (and Copy) are drawn in the button strip `row`.
    pub fn button_rects(&self, row: Rect) -> (r: (Rect, Option<Rect>))
        requires
            row.x + row.width + 17 <= u16::MAX,
        ensures
            r == notice_buttons(row, self.copy is Some),
    {
        let w: u16 = 14;
        let gap: u16 = 2;
        if self.copy.is_none() {
            let x = row.x + (if row.width >= w {
                row.width - w
            } else {
                0
            }) / 2;
            return (Rect { x, y: row.y, width: w, height: 3 }, None);
        }
        let total: u16 = w * 2 + gap;
        let left = row.x + (if row.width >= total {
            row.width - total
        } else {
            0
        }) / 2;
        (
            Rect { x: left, y: row.y, width: w, height: 3 },
            Some(Rect { x: left + w + gap, y: row.y, width: w, height: 3 }),
        )
    }

    /// Handles a key press. Esc closes at once; Tab, Left and Right move the
    /// focus between OK and Copy; Enter arms the focused button.
    pub fn on_key(&mut self, k: Key) -> (r: Option<NoticeOutcome>)
        ensures
            notice_keyed(*old(self), *final(self), k),
            final(self).title == old(self).title,
            final(self).body == old(self).body,
            r == (if k == Key::Esc {
                Some(NoticeOutcome::Close)
            } else {
                None
            }),
            final(self).copy == (if k == Key::Tab || k == Key::Left || k == Key::Right {
                focus_copy(old(self).copy, !copy_has_focus(old(self).copy))
            } else {
                old(self).copy
            }),
            final(self).ok_state() == (if k == Key::Enter && !copy_has_focus(old(self).copy) {
                Some(false)
            } else {
                old(self).ok_state()
            }),
            final(self).copy_state() == (if k == Key::Enter && copy_has_focus(old(self).copy) {
                Some(false)
            } else {
                old(self).copy_state()
            }),
    {
        match k {
            Key::Esc => Some(NoticeOutcome::Close),
            Key::Tab | Key::Left | Key::Right => {
                match &mut self.copy {
                    Some(c) => {
                        c.focused = !c.focused;
                    },
                    None => {},
                }
                None
            },
            Key::Enter => {
                let copy_focused = match &self.copy {
                    Some(c) => c.focused,
                    None => false,
                };
                if copy_focused {
                    self.btn_copy.click();
                } else {
                    self.btn_ok.click();
                }
                None
            },
            _ => None,
        }
    }

    /// Handles a mouse event. A left click outside the popup closes it at
    /// once; a click on OK or Copy focuses and arms that button.
    pub fn on_mouse(&mut self, m: Mouse, area: Rect) -> (r: Option<NoticeOutcome>)
        requires
            fits(area, 18),
        ensures
            notice_clicked(*old(self), *final(self), m, area, r),
    {
        let s = strip_of(area, 60);
        if m.kind != MouseKind::LeftDown {
            assert(notice_clicked_in(*old(self), *self, m, area, s, None));
            return None;
        }
        let r = center(area, 60, 9);
        if !r.contains(m.column, m.row) {
            assert(notice_clicked_in(*old(self), *self, m, area, s, Some(NoticeOutcome::Close)));
            return Some(NoticeOutcome::Close);
        }
        let (ok, copy) = self.button_rects(s);
        if Button::hit(ok, m) {
            match &mut self.copy {
                Some(c) => {
                    c.focused = false;
                },
                None => {},
            }
            self.btn_ok.click();
            assert(notice_clicked_in(*old(self), *self, m, area, s, None));
            return None;
        }
        match copy {
            Some(cr) => {
                if Button::hit(cr, m) {
                    match &mut self.copy {
                        Some(c) => {
                            c.focused = true;
                        },
                        None => {},
                    }
                    self.btn_copy.click();
                    assert(notice_clicked_in(*old(self), *self, m, area, s, None));
                    return None;
                }
            },
            None => {},
        }
        assert(notice_clicked_in(*old(self), *self, m, area, s, None));
        None
    }

    /// Polls once per frame: `Close` when OK fires, otherwise `Copy` with the
    /// payload (empty without a Copy button) when Copy fires.
    pub fn tick(&mut self) -> (r: Option<NoticeOutcome>)
        ensures
            final(self).title == old(self).title,
            final(self).body == old(self).body,
            final(self).copy == old(self).copy,
            final(self).ok_state() == poll_next(old(self).ok_state()),
            old(self).ok_state() == Some(true) ==> r == Some(NoticeOutcome::Close)
                && final(self).copy_state() == old(self).copy_state(),
            old(self).ok_state() != Some(true) ==> final(self).copy_state() == poll_next(
                old(self).copy_state(),
            ) && (old(self).copy_state() == Some(true) ==> (r matches Some(
                NoticeOutcome::Copy(p),
            ) && p@ == (match old(self).copy {
                Some(c) => c.payload@,
                None => Seq::<char>::empty(),
            }))) && (old(self).copy_state() != Some(true) ==> r is None),
    {
        if self.btn_ok.poll_fire() {
            return Some(NoticeOutcome::Close);
        }
        if self.btn_copy.poll_fire() {
            let payload = match &self.copy {
                Some(c) => c.payload.clone(),
                None => String::new(),
            };
            return Some(NoticeOutcome::Copy(payload));
        }
        None
    }
}

} // verus!
