//! Launcher log viewer screen with an Export Logs button.
//!
//! Writing the exported file and touching the clipboard belong to the
//! shell: the screen says when an export is due (`tick`, `on_key`) and the
//! shell reports the result through `show_export`.

use crate::app::FlashKind;
use crate::geom::{fits, Key, Mouse, MouseKind, Rect};
use crate::layout::{laid_out, piece_of, split, Constraint};
use crate::log_bus::CAPACITY;
use crate::screens::version_mgmt::extensions_tab::{notice_fires, notice_ticked};
use crate::widgets::button::{poll_next, Button, ButtonKind};
use crate::widgets::log_view::LogView;
use crate::widgets::popup::centered;
use crate::widgets::popup::notice::{notice_keyed, Notice, NoticeCopy, NoticeOutcome};
use vstd::prelude::*;

verus! {

/// Launcher log viewer screen.
pub struct LauncherLogs {
    /// Underlying scrollable log viewer.
    pub log: LogView,
    /// Notice popup currently displayed.
    pub message: Option<Notice>,
    /// Whether the Export Logs button is keyboard-focused.
    pub export_focused: bool,
    /// Total log line count at the last tick, used for scroll math.
    pub last_total: u16,
    /// Whether the viewer is pinned to the tail: cleared when the user
    /// scrolls up, re-armed by End or by scrolling back to the bottom.
    pub sticky_tail: bool,
    /// Flash message awaiting promotion to the application banner.
    pub pending_flash: Option<(FlashKind, String)>,
    /// Persistent Export Logs button.
    pub btn_export: Button,
}

/// What a tick asks of the shell.
pub enum LogsTick {
    /// Nothing.
    Nothing,
    /// Export the log now, then call `show_export`.
    Export,
    /// Copy this text to the clipboard and report how that went.
    Copy(String),
}

/// The last scroll offset: the one that shows the tail.
pub open spec fn max_off(total: u16, visible: u16) -> u16 {
    if total > visible {
        (total - visible) as u16
    } else {
        0
    }
}

/// `a - b`, or 0.
pub open spec fn sat_sub(a: u16, b: u16) -> u16 {
    if a > b {
        (a - b) as u16
    } else {
        0
    }
}

/// `a + b`, at most `m`.
pub open spec fn add_upto(a: u16, b: u16, m: u16) -> u16 {
    if a + b < m {
        (a + b) as u16
    } else {
        m
    }
}

/// `a` scrolled to `scroll` with the tail pin `sticky`.
pub open spec fn scrolled(a: LauncherLogs, scroll: u16, sticky: bool) -> LauncherLogs {
    LauncherLogs { log: LogView { scroll, ..a.log }, sticky_tail: sticky, ..a }
}

/// The effect of a key. With a notice open it goes to the notice (Esc
/// closes it). Otherwise Tab and BackTab toggle the button's focus; Up and
/// PageUp scroll up one line or one page (leaving the tail, from where the
/// tail showed); Down and PageDown scroll down, stopping at the tail and
/// pinning it there; Home goes to the top; End pins the tail; Enter asks
/// for an export. Every key is used.
pub open spec fn logs_key(a: LauncherLogs, b: LauncherLogs, k: Key, export: bool) -> bool {
    let m = max_off(a.last_total, a.log.visible);
    let page: u16 = if a.log.visible >= 1 {
        a.log.visible
    } else {
        1
    };
    let top: u16 = if a.sticky_tail {
        m
    } else {
        a.log.scroll
    };
    match a.message {
        Some(n) => !export && b == (LauncherLogs { message: b.message, ..a }) && if k == Key::Esc {
            b.message is None
        } else {
            b.message matches Some(n2) && notice_keyed(n, n2, k)
        },
        None => match k {
            Key::Tab | Key::BackTab => !export && b == (LauncherLogs {
                export_focused: !a.export_focused,
                ..a
            }),
            Key::Up => !export && b == scrolled(a, sat_sub(top, 1), false),
            Key::PageUp => !export && b == scrolled(a, sat_sub(top, page), false),
            Key::Down => {
                let s = add_upto(a.log.scroll, 1, m);
                !export && b == scrolled(a, s, s >= m || a.sticky_tail)
            },
            Key::PageDown => {
                let s = add_upto(a.log.scroll, page, m);
                !export && b == scrolled(a, s, s >= m || a.sticky_tail)
            },
            Key::Home => !export && b == scrolled(a, 0, false),
            Key::End => !export && b == (LauncherLogs { sticky_tail: true, ..a }),
            Key::Enter => export && b == a,
            _ => !export && b == a,
        },
    }
}

/// Whether `btn` can be where the Export Logs button (`w` cells wide) is
/// drawn over `area`: the first piece of the button strip split across into
/// the button and the rest, the strip being the second piece of `area`
/// split into the log and a three-row strip.
pub open spec fn export_spot(area: Rect, w: u16, btn: Rect) -> bool {
    exists|v: Seq<Rect>, h: Seq<Rect>| #[trigger] logs_layout(area, w, v, h) && btn == h[0]
}

/// Whether `v` (the log, then a three-row strip) and `h` (the strip split
/// across into the Export button, `w` cells wide, and the rest) can be the
/// screen's layout over `area`.
pub open spec fn logs_layout(area: Rect, w: u16, v: Seq<Rect>, h: Seq<Rect>) -> bool {
    laid_out(v, area, true, seq![Constraint::Min(0), Constraint::Length(3)]) && laid_out(h, v[1], false, seq![Constraint::Length(w), Constraint::Min(0)])
}

impl LauncherLogs {
    /// Constructs a fresh launcher logs screen following the tail, with
    /// the Export button focused.
    pub fn new() -> (s: Self)
        ensures
            s.log.scroll == 0 && s.log.sticky_tail && s.log.visible == 0,
            s.message is None,
            s.export_focused,
            s.last_total == 0,
            s.sticky_tail,
            s.pending_flash is None,
            s.btn_export.pending_state() is None,
    {
        LauncherLogs {
            log: LogView::new(),
            message: None,
            export_focused: true,
            last_total: 0,
            sticky_tail: true,
            pending_flash: None,
            btn_export: Button::new(ButtonKind::Default),
        }
    }

    /// Drains and returns the pending flash message, if any.
    pub fn take_flash(&mut self) -> (r: Option<(FlashKind, String)>)
        ensures
            r == old(self).pending_flash,
            *final(self) == (LauncherLogs { pending_flash: None, ..*old(self) }),
    {
        self.pending_flash.take()
    }

    /// Records a flash message (a clipboard result reported by the shell).
    pub fn flash(&mut self, kind: FlashKind, msg: String)
        ensures
            *final(self) == (LauncherLogs { pending_flash: Some((kind, msg)), ..*old(self) }),
    {
        self.pending_flash = Some((kind, msg));
    }

    /// Per-frame housekeeping with the log's current line count `total`:
    /// records the count, hands the tail pin to the viewer, and runs the
    /// deferred button presses. A fired Export button asks for an export;
    /// otherwise the notice closes when either of its buttons fired, a
    /// fired Copy asking to copy its text.
    pub fn tick(&mut self, total: usize) -> (r: LogsTick)
        requires
            total <= CAPACITY,
        ensures
            final(self).last_total == total,
            final(self).log == (LogView { sticky_tail: old(self).sticky_tail, ..old(self).log }),
            final(self).export_focused == old(self).export_focused,
            final(self).sticky_tail == old(self).sticky_tail,
            final(self).pending_flash == old(self).pending_flash,
            final(self).btn_export@ == (
                old(self).btn_export@.0,
                poll_next(old(self).btn_export.pending_state()),
            ),
            old(self).btn_export.pending_state() == Some(true) ==> r is Export && final(self).message
                == old(self).message,
            old(self).btn_export.pending_state() != Some(true) ==> match old(self).message {
                None => r is Nothing && final(self).message is None,
                Some(n) => match notice_fires(n) {
                    None => r is Nothing && (final(self).message matches Some(n2) && notice_ticked(
                        n,
                        n2,
                    )),
                    Some(None) => r is Nothing && final(self).message is None,
                    Some(Some(text)) => (r matches LogsTick::Copy(s) && s@ == text)
                        && final(self).message is None,
                },
            },
    {
        self.last_total = total as u16;
        self.log.sticky_tail = self.sticky_tail;
        if self.btn_export.poll_fire() {
            return LogsTick::Export;
        }
        let t = match &mut self.message {
            Some(n) => n.tick(),
            None => None,
        };
        match t {
            Some(NoticeOutcome::Close) => {
                self.message = None;
                LogsTick::Nothing
            },
            Some(NoticeOutcome::Copy(s)) => {
                self.message = None;
                LogsTick::Copy(s)
            },
            None => LogsTick::Nothing,
        }
    }

    /// Shows the result of an export: `body` describes it, and `copy`
    /// offers to copy the written path.
    pub fn show_export(&mut self, title: String, body: String, copy: Option<NoticeCopy>)
        ensures
            final(self).message matches Some(n) && n.title == title && n.body == body && n.copy
                == copy && n.ok_state() is None && n.copy_state() is None,
            *final(self) == (LauncherLogs { message: final(self).message, ..*old(self) }),
    {
        self.message = Some(Notice::new(title, body, copy));
    }

    /// Closes the notice popup if one is open. Returns whether Esc was
    /// consumed.
    pub fn eat_esc(&mut self) -> (used: bool)
        ensures
            used == old(self).message is Some,
            *final(self) == (LauncherLogs { message: None, ..*old(self) }),
    {
        if self.message.is_some() {
            self.message = None;
            return true;
        }
        false
    }

    /// Handles a key (see [`logs_key`]); returns whether an export is due.
    pub fn on_key(&mut self, k: Key) -> (export: bool)
        ensures
            logs_key(*old(self), *final(self), k, export),
    {
        if self.message.is_some() {
            let close = match &mut self.message {
                Some(n) => match n.on_key(k) {
                    Some(NoticeOutcome::Close) => true,
                    _ => false,
                },
                None => false,
            };
            if close {
                self.message = None;
            }
            return false;
        }
        let visible = self.log.visible;
        let m: u16 = if self.last_total > visible {
            self.last_total - visible
        } else {
            0
        };
        let page: u16 = if visible >= 1 {
            visible
        } else {
            1
        };
        match k {
            Key::Tab | Key::BackTab => {
                self.export_focused = !self.export_focused;
            },
            Key::Up | Key::PageUp => {
                if self.sticky_tail {
                    self.log.scroll = m;
                    self.sticky_tail = false;
                }
                let step: u16 = if k == Key::Up {
                    1
                } else {
                    page
                };
                self.log.scroll = self.log.scroll.saturating_sub(step);
            },
            Key::Down | Key::PageDown => {
                let step: u16 = if k == Key::Down {
                    1
                } else {
                    page
                };
                let s = self.log.scroll.saturating_add(step);
                self.log.scroll = if s < m {
                    s
                } else {
                    m
                };
                if self.log.scroll >= m {
                    self.sticky_tail = true;
                }
            },
            Key::Home => {
                self.sticky_tail = false;
                self.log.scroll = 0;
            },
            Key::End => {
                self.sticky_tail = true;
            },
            Key::Enter => {
                return true;
            },
            _ => {},
        }
        false
    }

    /// Handles a mouse event on the screen drawn over `area`, the Export
    /// button being `btn_w` cells wide: a notice takes it (a click outside
    /// closes it); a left click on the button focuses and arms it (it
    /// fires on a later tick); any other left click takes the focus off
    /// the button.
    pub fn on_mouse(&mut self, m: Mouse, area: Rect, btn_w: u16)
        requires
            fits(area, 18),
        ensures
            match old(self).message {
                Some(n) => *final(self) == (LauncherLogs { message: final(self).message, ..*old(self) })
                    && (m.kind == MouseKind::LeftDown && !centered(area, 60, 9).holds(
                    m.column as int,
                    m.row as int,
                ) ==> final(self).message is None),
                None => exists|btn: Rect|
                    #[trigger] export_spot(area, btn_w, btn) && if m.kind == MouseKind::LeftDown && btn.holds(
                        m.column as int,
                        m.row as int,
                    ) {
                        *final(self) == (LauncherLogs {
                            export_focused: true,
                            btn_export: final(self).btn_export,
                            ..*old(self)
                        }) && final(self).btn_export@ == (old(self).btn_export@.0, Some(false))
                    } else if m.kind == MouseKind::LeftDown {
                        *final(self) == (LauncherLogs { export_focused: false, ..*old(self) })
                    } else {
                        *final(self) == *old(self)
                    },
            },
    {
        if self.message.is_some() {
            let close = match &mut self.message {
                Some(n) => match n.on_mouse(m, area) {
                    Some(NoticeOutcome::Close) => true,
                    _ => false,
                },
                None => false,
            };
            if close {
                self.message = None;
            }
            return;
        }
        let mut cs: Vec<Constraint> = Vec::new();
        cs.push(Constraint::Min(0));
        cs.push(Constraint::Length(3));
        assert(cs@ =~= seq![Constraint::Min(0), Constraint::Length(3)]);
        let v = split(area, true, &cs);
        assert(piece_of(v@[1], area, true));
        let mut cs2: Vec<Constraint> = Vec::new();
        cs2.push(Constraint::Length(btn_w));
        cs2.push(Constraint::Min(0));
        assert(cs2@ =~= seq![Constraint::Length(btn_w), Constraint::Min(0)]);
        let h = split(v[1], false, &cs2);
        let btn = h[0];
        assert(logs_layout(area, btn_w, v@, h@));
        assert(export_spot(area, btn_w, btn));
        if !Button::hit(btn, m) {
            if m.kind == MouseKind::LeftDown {
                self.export_focused = false;
            }
            return;
        }
        self.export_focused = true;
        self.btn_export.click();
    }
}

} // verus!
