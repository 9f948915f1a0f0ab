//! First-launch wizard that collects the ComfyUI directory and Python
//! interpreter before letting the user into the main UI.
//!
//! The wizard decides; the checks it needs (is git installed, does a
//! directory hold ComfyUI, does an interpreter run, which interpreters are
//! there) are the shell's. An input answers with the check to run, and
//! the shell hands the outcome back (`git_checked`, `dir_checked`,
//! `python_checked`, `finish_detect`).

use crate::config::Config;
use crate::geom::{fits, Key, Mouse, MouseKind, Rect};
use crate::layout::{laid_out, piece_of, split, Constraint};
use crate::python::PythonCandidate;
use crate::screens::version_mgmt::extensions_tab::{button_cells, button_width};
use crate::strs::{trim, trim_str};
use crate::widgets::button::{poll_next, Button, ButtonKind};
use crate::widgets::input::{input_step, Input};
use crate::widgets::popup::{inner, inner_of};
use vstd::arithmetic::div_mod::lemma_add_mod_noop_right;
use vstd::prelude::*;

verus! {

/// The step value of a finished wizard.
pub const DONE: u8 = 0xFF;

/// First-launch wizard state.
pub struct Tutorial {
    /// Current step: 0 is welcome and git check, 1 is the ComfyUI
    /// directory, 2 is the Python interpreter, and `DONE` is done.
    pub step: u8,
    /// Input for the ComfyUI directory step.
    pub dir_input: Input,
    /// Detected Python candidates.
    pub py_candidates: Vec<PythonCandidate>,
    /// Selected row: a candidate, or the "custom path" row after them.
    pub py_selected: usize,
    /// Scroll offset for the Python candidate list.
    pub py_scroll: usize,
    /// Input for the "type a custom Python path" mode, when active.
    pub py_custom: Option<Input>,
    /// Whether the shell is detecting Python interpreters (input is
    /// frozen meanwhile).
    pub detecting: bool,
    /// Message key of a validation error to show in the body.
    pub error: Option<&'static str>,
    /// Persistent Continue button.
    pub btn_continue: Button,
}

/// A check the wizard needs before it can go on.
pub enum TutorialAction {
    /// Nothing.
    Nothing,
    /// Check that git is available, then call `git_checked` with `enter`.
    CheckGit {
        /// Whether the input was Enter (which moves on when git is there).
        enter: bool,
    },
    /// Check that this directory holds ComfyUI, then call `dir_checked`.
    CheckDir(String),
    /// Check that the interpreter at `path` runs (resolving a virtualenv
    /// directory to its interpreter first, when `resolve`), then call
    /// `python_checked`.
    CheckPython {
        /// The interpreter's path.
        path: String,
        /// Whether a virtualenv directory is accepted in its place.
        resolve: bool,
    },
}

/// The first step to show for a configuration whose ComfyUI directory
/// does (`dir_exists`) or does not exist and whose interpreter does
/// (`python_runs`) or does not run: the directory step when the directory
/// is unset or missing, else the Python step when the interpreter is unset
/// or does not run, else the welcome step.
pub open spec fn first_step(cfg: Config, dir_exists: bool, python_runs: bool) -> u8 {
    if cfg.general.comfyui_dir@.len() == 0 || !dir_exists {
        1
    } else if cfg.general.python@.len() == 0 || !python_runs {
        2
    } else {
        0
    }
}

/// The scroll offset keeping the selected row `sel` in a window of ten
/// rows.
pub open spec fn py_scroll_for(sel: usize, scroll: usize) -> usize {
    let s1 = if sel < scroll {
        sel
    } else {
        scroll
    };
    let max_off: usize = if sel >= 9 {
        (sel - 9) as usize
    } else {
        0
    };
    if s1 < max_off {
        max_off
    } else {
        s1
    }
}

/// `a` with row `sel` selected and scrolled into view.
pub open spec fn py_at(a: Tutorial, sel: usize) -> Tutorial {
    Tutorial { py_selected: sel, py_scroll: py_scroll_for(sel, a.py_scroll), ..a }
}

/// Choosing the selected Python row: a candidate is checked; the row after
/// them opens the custom path input, pre-filled with the configured path.
pub open spec fn row_chosen(a: Tutorial, b: Tutorial, cfg: Config, r: TutorialAction) -> bool {
    let idx = a.py_selected;
    if idx < a.py_candidates@.len() {
        b == a && (r matches TutorialAction::CheckPython { path, resolve } && path
            == a.py_candidates@[idx as int].path && !resolve)
    } else {
        r is Nothing && b == (Tutorial { py_custom: b.py_custom, ..a }) && (
        b.py_custom matches Some(inp) && inp.value@ == cfg.general.python@ && inp.cursor
            == cfg.general.python@.len() && inp.placeholder_key is None)
    }
}

/// Continuing on the current step: the directory step checks the trimmed
/// directory; the Python step checks the typed path, or chooses the
/// selected row.
pub open spec fn continued(a: Tutorial, b: Tutorial, cfg: Config, r: TutorialAction) -> bool {
    if a.step == 1 {
        b == a && (r matches TutorialAction::CheckDir(d) && d@ == trim(a.dir_input.value@))
    } else if a.step == 2 {
        match a.py_custom {
            Some(inp) => b == a && (r matches TutorialAction::CheckPython { path, resolve }
                && path@ == trim(inp.value@) && resolve),
            None => row_chosen(a, b, cfg, r),
        }
    } else {
        b == a && r is Nothing
    }
}

/// The effect of a key (the error is cleared first; nothing happens while
/// interpreters are being detected). On the welcome step every key asks
/// for the git check. On the directory step Enter continues and other keys
/// edit the path. On the Python step, in the custom input Esc goes back to
/// the list, Enter continues and other keys edit the path; on the list Up
/// and Down move with wrapping over the candidates and the custom row, and
/// Enter chooses.
pub open spec fn tutorial_key(a: Tutorial, b: Tutorial, k: Key, cfg: Config, r: TutorialAction) -> bool {
    let a0 = Tutorial { error: None, ..a };
    let n = a.py_candidates@.len() + 1;
    if a.detecting {
        b == a0 && r is Nothing
    } else if a.step == 0 {
        b == a0 && r == (TutorialAction::CheckGit { enter: k == Key::Enter })
    } else if a.step == 1 {
        if k == Key::Enter {
            continued(a0, b, cfg, r)
        } else {
            r is Nothing && b == (Tutorial { dir_input: b.dir_input, ..a0 })
                && b.dir_input.placeholder_key == a.dir_input.placeholder_key && (
            b.dir_input.value@, b.dir_input.cursor as int) == input_step(
                a.dir_input.value@,
                a.dir_input.cursor as int,
                k,
            )
        }
    } else if a.step == 2 {
        match a.py_custom {
            Some(inp) => if k == Key::Esc {
                r is Nothing && b == (Tutorial { py_custom: None, ..a0 })
            } else if k == Key::Enter {
                continued(a0, b, cfg, r)
            } else {
                r is Nothing && b == (Tutorial { py_custom: b.py_custom, ..a0 }) && (
                b.py_custom matches Some(i2) && i2.placeholder_key == inp.placeholder_key && (
                i2.value@, i2.cursor as int) == input_step(inp.value@, inp.cursor as int, k))
            },
            None => match k {
                Key::Up => r is Nothing && b == (Tutorial {
                    py_selected: if a.py_selected == 0 {
                        (n - 1) as usize
                    } else {
                        (a.py_selected - 1) as usize
                    },
                    ..a0
                }),
                Key::Down => r is Nothing && b == (Tutorial {
                    py_selected: ((a.py_selected + 1) % (n as int)) as usize,
                    ..a0
                }),
                Key::Enter => row_chosen(a0, b, cfg, r),
                _ => r is Nothing && b == a0,
            },
        }
    } else {
        b == a0 && r is Nothing
    }
}

/// Whether `top` (the three-row title, then the body) and `rows` (the six
/// rows of a step, split from inside the body's border, as for the Python
/// list when `listing`, else as for a form) can be the wizard's layout
/// over `area`.
pub open spec fn tutorial_layout(area: Rect, listing: bool, top: Seq<Rect>, rows: Seq<Rect>) -> bool {
    laid_out(top, area, true, seq![Constraint::Length(3), Constraint::Min(0)]) && laid_out(
        rows,
        inner_of(top[1]),
        true,
        if listing {
            list_rows()
        } else {
            form_rows()
        },
    )
}

/// Whether the wizard shows the list of Python interpreters.
pub open spec fn listing_step(a: Tutorial) -> bool {
    a.step == 2 && a.py_custom is None
}

/// The rows of a form step (title, blank, input, blank, error, button).
pub open spec fn form_rows() -> Seq<Constraint> {
    seq![Constraint::Length(1), Constraint::Length(1), Constraint::Length(3), Constraint::Length(1), Constraint::Min(0), Constraint::Length(3)]
}

/// The rows of the Python list step (title, blank, table, blank, error,
/// button).
pub open spec fn list_rows() -> Seq<Constraint> {
    seq![Constraint::Length(1), Constraint::Length(1), Constraint::Min(0), Constraint::Length(1), Constraint::Length(1), Constraint::Length(3)]
}

/// The Continue button centered in the footer `row`, `w` cells wide (at
/// least 12).
pub open spec fn footer_of(row: Rect, w: u16) -> Rect {
    let bw: u16 = if w < 12 {
        12
    } else {
        w
    };
    Rect {
        x: (row.x + (if row.width > bw {
            row.width - bw
        } else {
            0
        }) / 2) as u16,
        y: row.y,
        width: bw,
        height: 3,
    }
}

/// A mouse event on the wizard drawn over `area`, the Continue label being
/// `label_w` cells wide (nothing happens while interpreters are being
/// detected). On the Python list the wheel moves the selection (without
/// wrapping). A left click on the welcome step asks for the git check as
/// Enter does; on the Continue button it arms the button (it fires on a
/// later tick); on a row of the Python table it selects it, or chooses it
/// when it was already selected.
pub open spec fn tutorial_click(
    a: Tutorial,
    b: Tutorial,
    m: Mouse,
    area: Rect,
    label_w: u16,
    cfg: Config,
    r: TutorialAction,
) -> bool {
    exists|top: Seq<Rect>, rows: Seq<Rect>|
        #[trigger] tutorial_layout(area, listing_step(a), top, rows)
            && tutorial_click_in(a, b, m, rows, label_w, cfg, r)
}

/// A mouse event on the wizard laid out with the step rows `rows` (see
/// [`tutorial_click`]).
pub open spec fn tutorial_click_in(
    a: Tutorial,
    b: Tutorial,
    m: Mouse,
    rows: Seq<Rect>,
    label_w: u16,
    cfg: Config,
    r: TutorialAction,
) -> bool {
    let n = a.py_candidates@.len() + 1;
    let listing = a.step == 2 && a.py_custom is None;
    let btn = footer_of(rows[5], label_w);
    let clicked = b == (Tutorial { btn_continue: b.btn_continue, ..a }) && b.btn_continue@ == (
    a.btn_continue@.0, Some(false)) && r is Nothing;
    if a.detecting {
        b == a && r is Nothing
    } else if listing && (m.kind == MouseKind::ScrollUp || m.kind == MouseKind::ScrollDown) {
        r is Nothing && if m.kind == MouseKind::ScrollUp {
            if a.py_selected == 0 {
                b == a
            } else {
                b == py_at(a, (a.py_selected - 1) as usize)
            }
        } else {
            if a.py_selected + 1 >= n {
                b == a
            } else {
                b == py_at(a, (a.py_selected + 1) as usize)
            }
        }
    } else if m.kind != MouseKind::LeftDown {
        b == a && r is Nothing
    } else if a.step == 0 {
        b == a && r == (TutorialAction::CheckGit { enter: true })
    } else if a.step == 1 || a.step == 2 {
        if btn.holds(m.column as int, m.row as int) {
            clicked
        } else if !listing {
            b == a && r is Nothing
        } else {
            let table = rows[2];
            let idx = a.py_scroll + (m.row - (table.y + 2));
            if m.row < table.y + 2 || m.row >= table.y + table.height || idx >= n {
                b == a && r is Nothing
            } else if idx != a.py_selected {
                r is Nothing && b == py_at(a, idx as usize)
            } else {
                row_chosen(a, b, cfg, r)
            }
        }
    } else {
        b == a && r is Nothing
    }
}

impl Tutorial {
    /// Constructs the wizard at the first incomplete step (see
    /// [`first_step`]); on the Python step the shell starts detecting
    /// interpreters in the configured ComfyUI directory (`detecting`).
    pub fn new(existing: &Config, dir_exists: bool, python_runs: bool) -> (t: Self)
        ensures
            t.step == first_step(*existing, dir_exists, python_runs),
            t.dir_input.value@ == existing.general.comfyui_dir@,
            t.dir_input.cursor == existing.general.comfyui_dir@.len(),
            t.dir_input.placeholder_key is None,
            t.py_candidates@.len() == 0 && t.py_selected == 0 && t.py_scroll == 0,
            t.py_custom is None,
            t.detecting == (t.step == 2),
            t.error is None,
            t.btn_continue.pending_state() is None,
    {
        let step: u8 = if existing.general.comfyui_dir.as_str().is_empty() || !dir_exists {
            1
        } else if existing.general.python.as_str().is_empty() || !python_runs {
            2
        } else {
            0
        };
        Tutorial {
            step,
            dir_input: Input::with(existing.general.comfyui_dir.clone()),
            py_candidates: Vec::new(),
            py_selected: 0,
            py_scroll: 0,
            py_custom: None,
            detecting: step == 2,
            error: None,
            btn_continue: Button::new(ButtonKind::Primary),
        }
    }

    /// Returns whether the wizard has finished.
    pub fn is_done(&self) -> (b: bool)
        ensures
            b == (self.step == DONE),
    {
        self.step == DONE
    }

    /// Takes the detected interpreters: the list starts over at its top and
    /// input is unfrozen.
    pub fn finish_detect(&mut self, cands: Vec<PythonCandidate>)
        ensures
            *final(self) == (Tutorial {
                py_candidates: cands,
                py_selected: 0,
                py_scroll: 0,
                detecting: false,
                ..*old(self)
            }),
    {
        self.py_candidates = cands;
        self.py_selected = 0;
        self.py_scroll = 0;
        self.detecting = false;
    }

    /// Per-frame housekeeping: a fired Continue button continues on the
    /// current step (see [`continued`]).
    pub fn tick(&mut self, cfg: &Config) -> (r: TutorialAction)
        ensures
            final(self).btn_continue@ == (
                old(self).btn_continue@.0,
                poll_next(old(self).btn_continue.pending_state()),
            ),
            old(self).btn_continue.pending_state() == Some(true) ==> continued(
                Tutorial { btn_continue: final(self).btn_continue, ..*old(self) },
                *final(self),
                *cfg,
                r,
            ),
            old(self).btn_continue.pending_state() != Some(true) ==> r is Nothing && *final(self)
                == (Tutorial { btn_continue: final(self).btn_continue, ..*old(self) }),
    {
        if self.btn_continue.poll_fire() {
            return self.go_on(cfg);
        }
        TutorialAction::Nothing
    }

    fn go_on(&mut self, cfg: &Config) -> (r: TutorialAction)
        ensures
            continued(*old(self), *final(self), *cfg, r),
    {
        if self.step == 1 {
            return TutorialAction::CheckDir(trim_str(self.dir_input.value.as_str()));
        }
        if self.step == 2 {
            match &self.py_custom {
                Some(inp) => {
                    return TutorialAction::CheckPython {
                        path: trim_str(inp.value.as_str()),
                        resolve: true,
                    };
                },
                None => {
                    return self.choose_row(cfg);
                },
            }
        }
        TutorialAction::Nothing
    }

    fn choose_row(&mut self, cfg: &Config) -> (r: TutorialAction)
        ensures
            row_chosen(*old(self), *final(self), *cfg, r),
    {
        let idx = self.py_selected;
        if idx < self.py_candidates.len() {
            return TutorialAction::CheckPython {
                path: self.py_candidates[idx].path.clone(),
                resolve: false,
            };
        }
        self.py_custom = Some(Input::with(cfg.general.python.clone()));
        TutorialAction::Nothing
    }

    /// Handles a key (see [`tutorial_key`]).
    pub fn on_key(&mut self, k: Key, cfg: &Config) -> (r: TutorialAction)
        requires
            k is Char ==> old(self).dir_input.cursor < usize::MAX,
            old(self).py_custom matches Some(inp) ==> (k is Char ==> inp.cursor < usize::MAX),
            old(self).py_candidates@.len() < usize::MAX,
        ensures
            tutorial_key(*old(self), *final(self), k, *cfg, r),
    {
        self.error = None;
        if self.detecting {
            return TutorialAction::Nothing;
        }
        if self.step == 0 {
            return TutorialAction::CheckGit { enter: k == Key::Enter };
        }
        if self.step == 1 {
            if k == Key::Enter {
                return self.go_on(cfg);
            }
            self.dir_input.on_key(k);
            return TutorialAction::Nothing;
        }
        if self.step == 2 {
            if self.py_custom.is_some() {
                if k == Key::Esc {
                    self.py_custom = None;
                    return TutorialAction::Nothing;
                }
                if k == Key::Enter {
                    return self.go_on(cfg);
                }
                match &mut self.py_custom {
                    Some(inp) => {
                        inp.on_key(k);
                    },
                    None => {},
                }
                return TutorialAction::Nothing;
            }
            let n = self.py_candidates.len() + 1;
            match k {
                Key::Up => {
                    self.py_selected = if self.py_selected == 0 {
                        n - 1
                    } else {
                        self.py_selected - 1
                    };
                },
                Key::Down => {
                    proof {
                        lemma_mod_step(self.py_selected as int, n as int);
                    }
                    self.py_selected = (self.py_selected % n + 1) % n;
                },
                Key::Enter => {
                    return self.choose_row(cfg);
                },
                _ => {},
            }
            return TutorialAction::Nothing;
        }
        TutorialAction::Nothing
    }

    /// The git check's answer: without git the wizard shows an error; with
    /// it, Enter moves on to the directory step.
    pub fn git_checked(&mut self, ok: bool, enter: bool)
        ensures
            !ok ==> *final(self) == (Tutorial { error: Some("tutorial_need_git"), ..*old(self) }),
            ok && enter ==> *final(self) == (Tutorial { step: 1, ..*old(self) }),
            ok && !enter ==> *final(self) == *old(self),
    {
        if !ok {
            self.error = Some("tutorial_need_git");
            return;
        }
        if enter {
            self.step = 1;
        }
    }

    /// The directory check's answer for `dir`: a directory without ComfyUI
    /// is refused with an error; otherwise it is stored in `cfg` (which
    /// the shell persists), the Python step opens on its list and the shell
    /// starts detecting interpreters in `dir`. Returns whether `cfg`
    /// changed.
    pub fn dir_checked(&mut self, dir: String, ok: bool, cfg: &mut Config) -> (changed: bool)
        ensures
            changed == ok,
            !ok ==> *final(self) == (Tutorial { error: Some("tutorial_invalid_dir"), ..*old(self) })
                && *final(cfg) == *old(cfg),
            ok ==> *final(self) == (Tutorial {
                step: 2,
                py_custom: None,
                detecting: true,
                ..*old(self)
            }) && *final(cfg) == (Config {
                general: crate::config::General { comfyui_dir: dir, ..old(cfg).general },
                ..*old(cfg)
            }),
    {
        if !ok {
            self.error = Some("tutorial_invalid_dir");
            return false;
        }
        cfg.general.comfyui_dir = dir;
        self.py_custom = None;
        self.detecting = true;
        self.step = 2;
        true
    }

    /// The interpreter check's answer: the path of a running interpreter is
    /// stored in `cfg` (which the shell persists) and the wizard is done;
    /// `None` shows an error. Returns whether `cfg` changed.
    pub fn python_checked(&mut self, path: Option<String>, cfg: &mut Config) -> (changed: bool)
        ensures
            changed == path is Some,
            path is None ==> *final(self) == (Tutorial {
                error: Some("tutorial_invalid_py"),
                ..*old(self)
            }) && *final(cfg) == *old(cfg),
            path matches Some(p) ==> *final(self) == (Tutorial { step: DONE, ..*old(self) })
                && *final(cfg) == (Config {
                general: crate::config::General { python: p, ..old(cfg).general },
                ..*old(cfg)
            }),
    {
        match path {
            None => {
                self.error = Some("tutorial_invalid_py");
                false
            },
            Some(p) => {
                cfg.general.python = p;
                self.step = DONE;
                true
            },
        }
    }

    fn py_to(&mut self, sel: usize)
        ensures
            *final(self) == py_at(*old(self), sel),
    {
        self.py_selected = sel;
        if self.py_selected < self.py_scroll {
            self.py_scroll = self.py_selected;
        }
        let max_off = self.py_selected.saturating_sub(9);
        if self.py_scroll < max_off {
            self.py_scroll = max_off;
        }
    }

    /// Handles a mouse event on the wizard drawn over `area`; `label` is
    /// the Continue button's translated label (see [`tutorial_click`]).
    pub fn on_mouse(&mut self, m: Mouse, area: Rect, label: &str, cfg: &Config) -> (r:
        TutorialAction)
        requires
            fits(area, 3),
            old(self).py_candidates@.len() < usize::MAX,
        ensures
            tutorial_click(*old(self), *final(self), m, area, button_cells(label@), *cfg, r),
    {
        let listing = self.step == 2 && self.py_custom.is_none();
        let mut cs: Vec<Constraint> = Vec::new();
        cs.push(Constraint::Length(3));
        cs.push(Constraint::Min(0));
        assert(cs@ =~= seq![Constraint::Length(3), Constraint::Min(0)]);
        let v = split(area, true, &cs);
        assert(piece_of(v@[1], area, true));
        let body = inner(v[1]);
        let mut rs: Vec<Constraint> = Vec::new();
        rs.push(Constraint::Length(1));
        rs.push(Constraint::Length(1));
        if listing {
            rs.push(Constraint::Min(0));
            rs.push(Constraint::Length(1));
            rs.push(Constraint::Length(1));
        } else {
            rs.push(Constraint::Length(3));
            rs.push(Constraint::Length(1));
            rs.push(Constraint::Min(0));
        }
        rs.push(Constraint::Length(3));
        assert(rs@ =~= if listing {
            list_rows()
        } else {
            form_rows()
        });
        let rows = split(body, true, &rs);
        assert(piece_of(rows@[2], body, true) && piece_of(rows@[5], body, true));
        assert(tutorial_layout(area, listing_step(*self), v@, rows@));
        if self.detecting {
            return TutorialAction::Nothing;
        }
        let n = self.py_candidates.len() + 1;
        if listing && (m.kind == MouseKind::ScrollUp || m.kind == MouseKind::ScrollDown) {
            if m.kind == MouseKind::ScrollUp {
                if self.py_selected == 0 {
                    return TutorialAction::Nothing;
                }
                let s = self.py_selected - 1;
                self.py_to(s);
            } else {
                if self.py_selected >= n - 1 {
                    return TutorialAction::Nothing;
                }
                let s = self.py_selected + 1;
                self.py_to(s);
            }
            return TutorialAction::Nothing;
        }
        if m.kind != MouseKind::LeftDown {
            return TutorialAction::Nothing;
        }
        if self.step == 0 {
            return TutorialAction::CheckGit { enter: true };
        }
        if self.step != 1 && self.step != 2 {
            return TutorialAction::Nothing;
        }
        let btn = footer_button_rect(rows[5], label);
        if btn.contains(m.column, m.row) {
            self.btn_continue.click();
            return TutorialAction::Nothing;
        }
        if !listing {
            return TutorialAction::Nothing;
        }
        let table = rows[2];
        if m.row < table.y + 2 || m.row - table.y >= table.height {
            return TutorialAction::Nothing;
        }
        let rel = (m.row - (table.y + 2)) as usize;
        if rel >= n || self.py_scroll >= n - rel {
            return TutorialAction::Nothing;
        }
        let idx = self.py_scroll + rel;
        if idx != self.py_selected {
            self.py_to(idx);
            return TutorialAction::Nothing;
        }
        self.choose_row(cfg)
    }
}

/// Stepping from `s % n` wraps the same way as stepping from `s`.
proof fn lemma_mod_step(s: int, n: int)
    requires
        n > 0,
    ensures
        (s % n + 1) % n == (s + 1) % n,
{
    lemma_add_mod_noop_right(1, s, n);
    assert(1 + s % n == s % n + 1);
    assert(1 + s == s + 1);
}

/// The Continue button centered in the footer `row` (see [`footer_of`]).
pub fn footer_button_rect(row: Rect, label: &str) -> (r: Rect)
    requires
        row.x + row.width <= u16::MAX,
    ensures
        r == footer_of(row, button_cells(label@)),
{
    let w0 = button_width(label);
    let w: u16 = if w0 < 12 {
        12
    } else {
        w0
    };
    let gap: u16 = if row.width > w {
        row.width - w
    } else {
        0
    };
    Rect { x: row.x + gap / 2, y: row.y, width: w, height: 3 }
}

} // verus!
