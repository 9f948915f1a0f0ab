//! Main launcher screen: the info list and the Launch / Activate buttons.
//!
//! The rows of the info list (versions, directories, ...) are read from
//! disk by the application shell; this module decides focus, scrolling,
//! what activating a control does, and the exact command a launch runs.

use crate::app::FlashKind;
use crate::config::Config;
use crate::paths::{join, path_join};
use crate::schema::{build_cli_args, tabs_args, Schema};
use crate::geom::{fits, Mouse, Rect};
use crate::layout::{laid_out, piece_of, split, Constraint};
use crate::screens::version_mgmt::core_tab::focused_on;
use crate::strs::{
    append_chars, chars_of, dec, dec_chars, join_with, push_char, replace_all, replace_chars,
    string_of, trim, trim_str,
};
use crate::text::{str_width_of, width};
use crate::screens::version_mgmt::core_tab::prepared;
use crate::widgets::button::{poll_next, Button, ButtonKind};
use crate::widgets::focus_grid::{
    model_move_down, model_move_up, model_page_down, model_page_up, FocusGrid, GridModel,
    RowKind,
};
use vstd::prelude::*;

verus! {

/// One visible row in the scrollable info list.
#[derive(Clone)]
pub enum Row {
    /// Non-interactive section header.
    Header(String),
    /// Label / value data row that can be focused and copied.
    Item {
        /// Row label.
        label: String,
        /// Row value.
        value: String,
    },
}

/// Action the application should perform after a Main Launcher
/// interaction.
pub enum MainAction {
    /// Nothing to do.
    Nothing,
    /// Launch ComfyUI.
    Launch,
    /// Activate the given virtualenv after the run loop exits.
    ActivateVenv(String),
    /// Quit because the requested virtualenv is already activated.
    QuitAlreadyActivated,
    /// Show a transient banner.
    Flash(FlashKind, String),
}

/// What activating the focused control asks of the application shell.
pub enum MainStep {
    /// Nothing to do.
    Nothing,
    /// Launch ComfyUI.
    Launch,
    /// Copy this value to the clipboard.
    Copy(String),
    /// Activate the configured interpreter's virtualenv.
    Activate,
}

/// Which control on the Main Launcher currently holds focus.
#[derive(Clone, Copy, Debug, PartialEq, Eq, Structural)]
pub enum MainFocus {
    /// The scrollable info list.
    List,
    /// The Activate Environment button.
    Activate,
    /// The Launch ComfyUI button.
    Launch,
}

/// Main launcher screen state.
pub struct MainLauncher {
    /// Focus grid: row 0 is the list, row 1 holds Activate and Launch.
    pub grid: FocusGrid,
    /// First list row drawn.
    pub scroll: usize,
    /// Number of list rows drawn in the last frame.
    pub visible: usize,
    /// Activate Environment button.
    pub btn_activate: Button,
    /// Launch ComfyUI button.
    pub btn_launch: Button,
}

/// The grid rows of the Main Launcher: the list, then the two buttons.
pub open spec fn main_rows() -> Seq<RowKind> {
    seq![RowKind::List, RowKind::Fixed(2)]
}

/// Positions of the data rows among `rows`.
pub open spec fn items_of(rows: Seq<Row>) -> Seq<usize>
    decreases rows.len(),
{
    if rows.len() == 0 {
        Seq::empty()
    } else {
        let p = items_of(rows.drop_last());
        if rows.last() is Item {
            p.push((rows.len() - 1) as usize)
        } else {
            p
        }
    }
}

/// The list scroll that keeps the selected data row visible: `sel` is
/// pulled back onto the data rows, the window of `visible` rows (at least
/// one) moves only as far as needed, and never past the last full window.
pub open spec fn list_scroll(items: Seq<usize>, n_rows: int, sel: int, scroll: int, visible: int) -> int {
    if items.len() == 0 {
        0
    } else {
        let v = if visible >= 1 {
            visible
        } else {
            1
        };
        let s0 = if sel < items.len() {
            sel
        } else {
            items.len() - 1
        };
        let row = items[s0] as int;
        let s1 = if row < scroll {
            row
        } else {
            scroll
        };
        let max_off = row + 1 - (if v < row + 1 {
            v
        } else {
            row + 1
        });
        let s2 = if s1 < max_off {
            max_off
        } else {
            s1
        };
        let max_scroll = if n_rows > v {
            n_rows - v
        } else {
            0
        };
        if s2 > max_scroll {
            max_scroll
        } else {
            s2
        }
    }
}

/// Whether `c` makes a word need quoting for a POSIX shell.
pub open spec fn shell_special(c: char) -> bool {
    c == ' ' || c == '\t' || c == '\n' || c == '"' || c == '\'' || c == '\\' || c == '$' || c
        == '`' || c == '&' || c == '|' || c == ';' || c == '<' || c == '>' || c == '(' || c == ')'
        || c == '*' || c == '?' || c == '[' || c == ']' || c == '{' || c == '}' || c == '#' || c
        == '!'
}

/// `s` as one POSIX shell word: unchanged when it is non-empty and holds
/// no special character, otherwise in single quotes with each `'` written
/// as `'\''`.
pub open spec fn shell_word(s: Seq<char>) -> Seq<char> {
    if s.len() > 0 && forall|i: int| 0 <= i < s.len() ==> !shell_special(#[trigger] s[i]) {
        s
    } else {
        seq!['\''] + replace_all(s, seq!['\''], "'\\''"@) + seq!['\'']
    }
}

/// Quotes `s` as one POSIX shell word (see [`shell_word`]).
pub fn shell_quote(s: &str) -> (r: String)
    ensures
        r@ == shell_word(s@),
{
    let v = chars_of(s);
    let mut needs = v.len() == 0;
    let mut i: usize = 0;
    while i < v.len()
        invariant
            i <= v.len(),
            needs == (v@.len() == 0 || exists|j: int| 0 <= j < i && shell_special(v@[j])),
        decreases v.len() - i,
    {
        let c = v[i];
        if c == ' ' || c == '\t' || c == '\n' || c == '"' || c == '\'' || c == '\\' || c == '$'
            || c == '`' || c == '&' || c == '|' || c == ';' || c == '<' || c == '>' || c == '('
            || c == ')' || c == '*' || c == '?' || c == '[' || c == ']' || c == '{' || c == '}'
            || c == '#' || c == '!' {
            needs = true;
        }
        i = i + 1;
    }
    if !needs {
        return s.to_string();
    }
    let mut quote: Vec<char> = Vec::new();
    quote.push('\'');
    let esc = chars_of("'\\''");
    let body = replace_chars(&v, &quote, &esc);
    let mut out: Vec<char> = Vec::new();
    out.push('\'');
    append_chars(&mut out, &body);
    out.push('\'');
    assert(quote@ =~= seq!['\'']);
    string_of(&out)
}

/// The words of the launch command: the interpreter (`python` when none is
/// configured), ComfyUI's `main.py`, then the arguments the settings call
/// for.
pub open spec fn launch_words(cfg: Config, schema: Schema) -> Seq<Seq<char>> {
    let python = if cfg.general.python@.len() == 0 {
        "python"@
    } else {
        cfg.general.python@
    };
    seq![python, path_join(cfg.general.comfyui_dir@, "main.py"@)] + tabs_args(
        schema.tabs@,
        cfg.comfy_settings@,
    )
}

/// The command F5 or Launch ComfyUI runs, as one shell line: every word
/// quoted (see [`shell_word`]) and separated by single spaces.
pub fn launch_command(cfg: &Config, schema: &Schema) -> (r: String)
    ensures
        r@ == join_with(launch_words(*cfg, *schema).map_values(|w: Seq<char>| shell_word(w)), " "@),
{
    let python = if cfg.general.python.as_str().is_empty() {
        "python".to_string()
    } else {
        cfg.general.python.clone()
    };
    let main_py = join(cfg.general.comfyui_dir.as_str(), "main.py");
    let args = build_cli_args(schema, &cfg.comfy_settings);
    let ghost words = launch_words(*cfg, *schema);
    let ghost quoted = words.map_values(|w: Seq<char>| shell_word(w));
    let mut out: Vec<char> = Vec::new();
    append_chars(&mut out, &chars_of(shell_quote(python.as_str()).as_str()));
    assert(out@ =~= join_with(quoted.take(1), " "@)) by {
        assert(quoted.take(1).len() == 1);
    }
    let sp = chars_of(" ");
    let ghost w2 = quoted.take(2);
    append_chars(&mut out, &sp);
    append_chars(&mut out, &chars_of(shell_quote(main_py.as_str()).as_str()));
    assert(quoted.take(2).drop_last() =~= quoted.take(1));
    let mut i: usize = 0;
    while i < args.len()
        invariant
            i <= args.len(),
            sp@ == " "@,
            words == launch_words(*cfg, *schema),
            quoted == words.map_values(|w: Seq<char>| shell_word(w)),
            args@.map_values(|x: String| x@) == tabs_args(schema.tabs@, cfg.comfy_settings@),
            words.len() == 2 + args@.len(),
            out@ == join_with(quoted.take(2 + i), " "@),
        decreases args.len() - i,
    {
        assert(quoted.take(3 + i).drop_last() =~= quoted.take(2 + i));
        assert(quoted[2 + i] == shell_word(args@[i as int]@)) by {
            assert(words[2 + i] == args@.map_values(|x: String| x@)[i as int]);
        }
        append_chars(&mut out, &sp);
        append_chars(&mut out, &chars_of(shell_quote(args[i].as_str()).as_str()));
        i = i + 1;
    }
    assert(quoted.take(2 + args.len()) =~= quoted);
    string_of(&out)
}

/// What activating the environment comes to, given the configured
/// interpreter `python`, the virtualenv `venv` it lives in (if any) and
/// whether that environment is already active in the calling shell.
pub enum VenvStep {
    /// No interpreter is configured.
    NoPython,
    /// The interpreter is not inside a virtualenv.
    NotVenv,
    /// The environment is already active: just quit.
    AlreadyActive,
    /// Activate the environment at this root after the run loop exits.
    Activate(String),
}

/// The decision of [`venv_step`].
pub open spec fn venv_decision(python: Seq<char>, venv: Option<String>, active: bool, r: VenvStep) -> bool {
    if trim(python).len() == 0 {
        r is NoPython
    } else {
        match venv {
            None => r is NotVenv,
            Some(root) => if active {
                r is AlreadyActive
            } else {
                r == VenvStep::Activate(root)
            },
        }
    }
}

/// Decides what activating the environment does (see [`VenvStep`]); the
/// shell finds the virtualenv of the trimmed interpreter path and whether
/// it is active.
pub fn venv_step(python: &str, venv: Option<String>, active: bool) -> (r: VenvStep)
    ensures
        venv_decision(python@, venv, active, r),
{
    if trim_str(python).as_str().is_empty() {
        return VenvStep::NoPython;
    }
    match venv {
        None => VenvStep::NotVenv,
        Some(root) => if active {
            VenvStep::AlreadyActive
        } else {
            VenvStep::Activate(root)
        },
    }
}

/// Cells of a main-screen button labelled `label`: the label's width (as
/// the toolkit's 16-bit cell count) plus six, at least `min`.
pub open spec fn wide_cells(label: Seq<char>, min: u16) -> u16 {
    let t = (str_width_of(label) % 0x10000) as int;
    let a: int = if t + 6 > u16::MAX {
        u16::MAX as int
    } else {
        t + 6
    };
    (if a < min {
        min as int
    } else {
        a
    }) as u16
}

/// Cells of a main-screen button labelled `label` (see [`wide_cells`]).
pub fn wide_button(label: &str, min: u16) -> (w: u16)
    ensures
        w == wide_cells(label@, min),
{
    let n = width(label);
    let t: u16 = (n % 65536) as u16;
    let a = t.saturating_add(6);
    if a < min {
        min
    } else {
        a
    }
}

/// Whether `v` (the list, then a three-row button strip) and `bs` (the
/// strip's pieces: filler, the Activate button `act_w` cells wide, a
/// one-cell gap, the Launch button `launch_w` cells wide) can be the
/// screen's layout over `area`.
pub open spec fn main_layout(area: Rect, act_w: u16, launch_w: u16, v: Seq<Rect>, bs: Seq<Rect>) -> bool {
    laid_out(v, area, true, seq![Constraint::Min(0), Constraint::Length(3)]) && laid_out(
        bs,
        v[1],
        false,
        seq![Constraint::Min(0), Constraint::Length(act_w), Constraint::Length(1), Constraint::Length(launch_w)],
    )
}

/// The grid focused on `row` and `col` (what `set_focus(row, col)` does
/// on the Main Launcher's two rows).
pub open spec fn focused_at(g: GridModel, row: usize, col: usize) -> GridModel {
    let a = crate::widgets::focus_grid::model_save_col(g);
    let r = if row < a.rows.len() {
        row
    } else {
        (a.rows.len() - 1) as usize
    };
    GridModel { row: r, col, last_col: a.last_col.update(r as int, col), ..a }
}

/// The position of `x` in `s`, if it occurs.
pub open spec fn pos_in(s: Seq<usize>, x: usize) -> Option<int> {
    if exists|i: int| 0 <= i < s.len() && s[i] == x {
        Some(choose|i: int| 0 <= i < s.len() && s[i] == x)
    } else {
        None
    }
}

/// A click on the screen drawn over `area` (button widths `act_w` and
/// `launch_w`, list rows `rows`): a button is focused and armed (it fires
/// on a later tick); in the list a data row is selected and scrolled into
/// view, or activated when it was already selected.
pub open spec fn main_click(
    a: MainLauncher,
    b: MainLauncher,
    col: int,
    row: int,
    area: Rect,
    act_w: u16,
    launch_w: u16,
    rows: Seq<Row>,
    r: MainStep,
) -> bool {
    exists|v: Seq<Rect>, bs: Seq<Rect>|
        #[trigger] main_layout(area, act_w, launch_w, v, bs) && main_click_in(
            a,
            b,
            col,
            row,
            v[0],
            bs[1],
            bs[3],
            rows,
            r,
        )
}

/// A click on the screen laid out as `list`, the Activate button `act`
/// and the Launch button `launch` (see [`main_click`]).
pub open spec fn main_click_in(
    a: MainLauncher,
    b: MainLauncher,
    col: int,
    row: int,
    list: Rect,
    act: Rect,
    launch: Rect,
    rows: Seq<Row>,
    r: MainStep,
) -> bool {
    let items = items_of(rows);
    if act.holds(col, row) {
        r == MainStep::Nothing && b.grid@ == focused_on(a.grid@, 1) && b.scroll == a.scroll
            && b.visible == a.visible && b.btn_launch == a.btn_launch && b.btn_activate@ == (
        a.btn_activate@.0, Some(false))
    } else if launch.holds(col, row) {
        r == MainStep::Nothing && b.grid@ == focused_at(a.grid@, 1, 1) && b.scroll == a.scroll && b.visible == a.visible && b.btn_activate == a.btn_activate
            && b.btn_launch@ == (a.btn_launch@.0, Some(false))
    } else if !list.holds(col, row) || row < list.y + 1 || a.scroll + (row - (list.y + 1))
        >= rows.len() {
        r == MainStep::Nothing && b == a
    } else {
        match pos_in(items, (a.scroll + (row - (list.y + 1))) as usize) {
            None => r == MainStep::Nothing && b == a,
            Some(d) => {
                let g = GridModel { sel: d as usize, ..focused_on(a.grid@, 0) };
                let a1 = MainLauncher { grid: b.grid, ..a };
                &&& b.grid@ == g
                &&& b.visible == a.visible && b.btn_activate == a.btn_activate && b.btn_launch
                    == a.btn_launch
                &&& if d != a.grid@.sel {
                    r == MainStep::Nothing && b.scroll == list_scroll(
                        items,
                        rows.len() as int,
                        d,
                        a.scroll as int,
                        a.visible as int,
                    )
                } else {
                    b.scroll == a.scroll && r == (match rows[items[d] as int] {
                        Row::Item { value, .. } => MainStep::Copy(value),
                        Row::Header(_) => MainStep::Nothing,
                    })
                }
            },
        }
    }
}

/// The texts of the info list, as the shell gathered and translated them.
pub struct InfoTexts {
    /// Header of the ComfyUI section.
    pub comfy_header: String,
    /// Label and value of the launch command.
    pub command: (String, String),
    /// Label of the ComfyUI version, and the version when it was found.
    pub version: (String, Option<String>),
    /// Label of the ComfyUI commit, and the commit when there is one.
    pub head: (String, Option<String>),
    /// Label and value of the Python version.
    pub python: (String, String),
    /// Label and value of the launcher version.
    pub launcher: (String, String),
    /// Label of the custom node count.
    pub nodes_label: String,
    /// Enabled and disabled custom nodes.
    pub nodes: (usize, usize),
    /// How the disabled nodes are described (used when there are some).
    pub disabled_note: String,
    /// Header of the directories section.
    pub dirs_header: String,
    /// Label and path of each directory, in display order.
    pub dirs: Vec<(String, String)>,
}

/// A row as plain values: a header's text, or an item's label and value.
pub open spec fn row_view(r: Row) -> (bool, Seq<char>, Seq<char>) {
    match r {
        Row::Header(t) => (true, t@, Seq::empty()),
        Row::Item { label, value } => (false, label@, value@),
    }
}

/// The custom node count as shown: the enabled count, followed by the
/// disabled note in parentheses when some are disabled.
pub open spec fn nodes_text(enabled: nat, disabled: nat, note: Seq<char>) -> Seq<char> {
    if disabled == 0 {
        dec(enabled)
    } else {
        dec(enabled) + seq![' ', '('] + note + seq![')']
    }
}

/// The info list: the ComfyUI section (command, version or `?`, the commit
/// when known, Python, launcher, custom nodes) and the directories.
pub open spec fn info_rows(t: InfoTexts) -> Seq<(bool, Seq<char>, Seq<char>)> {
    let head = seq![
        (true, t.comfy_header@, Seq::<char>::empty()),
        (false, t.command.0@, t.command.1@),
        (false, t.version.0@, match t.version.1 {
            Some(v) => v@,
            None => seq!['?'],
        }),
    ];
    let sha = match t.head.1 {
        Some(h) => seq![(false, t.head.0@, h@)],
        None => Seq::empty(),
    };
    let rest = seq![
        (false, t.python.0@, t.python.1@),
        (false, t.launcher.0@, t.launcher.1@),
        (false, t.nodes_label@, nodes_text(t.nodes.0 as nat, t.nodes.1 as nat, t.disabled_note@)),
        (true, t.dirs_header@, Seq::<char>::empty()),
    ];
    head + sha + rest + t.dirs@.map_values(|d: (String, String)| (false, d.0@, d.1@))
}

impl MainLauncher {
    /// The screen's invariant: a well-formed grid with the list above the
    /// button row.
    pub open spec fn wf(&self) -> bool {
        self.grid.wf() && self.grid@.rows == main_rows()
    }

    /// Constructs the screen with the Launch button focused.
    pub fn new() -> (m: Self)
        ensures
            m.wf(),
            m.grid@.row == 1 && m.grid@.col == 1,
            m.scroll == 0 && m.visible == 0,
            m.btn_activate.pending_state() is None && m.btn_launch.pending_state() is None,
    {
        let mut rows: Vec<RowKind> = Vec::new();
        rows.push(RowKind::List);
        rows.push(RowKind::Fixed(2));
        assert(rows@ =~= main_rows());
        let mut grid = FocusGrid::new(rows);
        grid.set_focus(1, 1);
        MainLauncher {
            grid,
            scroll: 0,
            visible: 0,
            btn_activate: Button::new(ButtonKind::Primary),
            btn_launch: Button::new(ButtonKind::Primary),
        }
    }

    /// The focused control: the list on row 0, else Activate (column 0) or
    /// Launch.
    pub fn focus(&self) -> (f: MainFocus)
        ensures
            f == (if self.grid@.row == 0 {
                MainFocus::List
            } else if self.grid@.col == 0 {
                MainFocus::Activate
            } else {
                MainFocus::Launch
            }),
    {
        if self.grid.row() == 0 {
            MainFocus::List
        } else if self.grid.col() == 0 {
            MainFocus::Activate
        } else {
            MainFocus::Launch
        }
    }

    /// Esc is never consumed by this screen.
    pub fn eat_esc(&mut self) -> (used: bool)
        ensures
            !used,
            *final(self) == *old(self),
    {
        false
    }

    /// Moves the focus left on the button row.
    pub fn left(&mut self)
        requires
            old(self).wf(),
        ensures
            final(self).wf(),
            final(self).scroll == old(self).scroll && final(self).visible == old(self).visible,
    {
        self.grid.move_left();
    }

    /// Moves the focus right on the button row.
    pub fn right(&mut self)
        requires
            old(self).wf(),
        ensures
            final(self).wf(),
            final(self).scroll == old(self).scroll && final(self).visible == old(self).visible,
    {
        self.grid.move_right();
    }

    /// Positions of the data rows among `rows`.
    pub fn item_indices(rows: &Vec<Row>) -> (r: Vec<usize>)
        ensures
            r@ == items_of(rows@),
    {
        let mut out: Vec<usize> = Vec::new();
        let mut i: usize = 0;
        assert(rows@.take(0) =~= Seq::<Row>::empty());
        while i < rows.len()
            invariant
                i <= rows.len(),
                out@ == items_of(rows@.take(i as int)),
            decreases rows.len() - i,
        {
            assert(rows@.take(i + 1).drop_last() =~= rows@.take(i as int));
            match &rows[i] {
                Row::Item { .. } => {
                    out.push(i);
                },
                Row::Header(_) => {},
            }
            i = i + 1;
        }
        assert(rows@.take(rows.len() as int) =~= rows@);
        out
    }

    /// Scrolls the list so the selected data row is visible.
    pub fn ensure_visible(&mut self, rows: &Vec<Row>)
        ensures
            final(self).scroll == list_scroll(
                items_of(rows@),
                rows@.len() as int,
                old(self).grid@.sel as int,
                old(self).scroll as int,
                old(self).visible as int,
            ),
            final(self).grid == old(self).grid,
            final(self).visible == old(self).visible,
            final(self).btn_activate == old(self).btn_activate,
            final(self).btn_launch == old(self).btn_launch,
    {
        let items = Self::item_indices(rows);
        if items.len() == 0 {
            self.scroll = 0;
            return;
        }
        assert(rows@.len() == rows.len());
        proof {
            lemma_items_in_range(rows@);
        }
        let v = if self.visible >= 1 {
            self.visible
        } else {
            1
        };
        let sel0 = self.grid.list_selected();
        let sel = if sel0 < items.len() {
            sel0
        } else {
            items.len() - 1
        };
        let row = items[sel];
        let mut s = self.scroll;
        if row < s {
            s = row;
        }
        let max_off = row + 1 - (if v < row + 1 {
            v
        } else {
            row + 1
        });
        if s < max_off {
            s = max_off;
        }
        let max_scroll = if rows.len() > v {
            rows.len() - v
        } else {
            0
        };
        if s > max_scroll {
            s = max_scroll;
        }
        self.scroll = s;
    }

    /// What activating the focused control does: copy the selected data
    /// row's value, activate the environment, or launch.
    pub fn activate(&self, rows: &Vec<Row>) -> (r: MainStep)
        ensures
            match self.focus_of() {
                MainFocus::List => {
                    let items = items_of(rows@);
                    let sel = self.grid@.sel as int;
                    if sel < items.len() {
                        match rows@[items[sel] as int] {
                            Row::Item { value, .. } => r == MainStep::Copy(value),
                            Row::Header(_) => r == MainStep::Nothing,
                        }
                    } else {
                        r == MainStep::Nothing
                    }
                },
                MainFocus::Activate => r == MainStep::Activate,
                MainFocus::Launch => r == MainStep::Launch,
            },
    {
        match self.focus() {
            MainFocus::List => {
                let items = Self::item_indices(rows);
                let sel = self.grid.list_selected();
                if sel >= items.len() {
                    return MainStep::Nothing;
                }
                assert(rows@.len() == rows.len());
                proof {
                    lemma_items_in_range(rows@);
                }
                match &rows[items[sel]] {
                    Row::Item { value, .. } => MainStep::Copy(value.clone()),
                    Row::Header(_) => MainStep::Nothing,
                }
            },
            MainFocus::Activate => MainStep::Activate,
            MainFocus::Launch => MainStep::Launch,
        }
    }

    /// The focused control (see [`MainLauncher::focus`]).
    pub open spec fn focus_of(&self) -> MainFocus {
        if self.grid@.row == 0 {
            MainFocus::List
        } else if self.grid@.col == 0 {
            MainFocus::Activate
        } else {
            MainFocus::Launch
        }
    }

    /// Handles a click on the screen drawn over `area` (see
    /// [`main_click`]).
    pub fn on_mouse(&mut self, m: Mouse, area: Rect, rows: &Vec<Row>, act_w: u16, launch_w: u16) -> (r:
        MainStep)
        requires
            old(self).wf(),
            fits(area, 2),
        ensures
            final(self).wf(),
            main_click(
                *old(self),
                *final(self),
                m.column as int,
                m.row as int,
                area,
                act_w,
                launch_w,
                rows@,
                r,
            ),
    {
        let mut cs: Vec<Constraint> = Vec::new();
        cs.push(Constraint::Min(0));
        cs.push(Constraint::Length(3));
        assert(cs@ =~= seq![Constraint::Min(0), Constraint::Length(3)]);
        let v = split(area, true, &cs);
        assert(piece_of(v@[0], area, true) && piece_of(v@[1], area, true));
        let mut bs: Vec<Constraint> = Vec::new();
        bs.push(Constraint::Min(0));
        bs.push(Constraint::Length(act_w));
        bs.push(Constraint::Length(1));
        bs.push(Constraint::Length(launch_w));
        assert(bs@ =~= seq![Constraint::Min(0), Constraint::Length(act_w), Constraint::Length(1), Constraint::Length(launch_w)]);
        let b = split(v[1], false, &bs);
        let r = self.click_in(m, v[0], b[1], b[3], rows);
        assert(main_layout(area, act_w, launch_w, v@, b@));
        r
    }

    /// Handles a click on the screen laid out as `list`, `act` and
    /// `launch` (see [`main_click_in`]).
    fn click_in(&mut self, m: Mouse, list: Rect, act: Rect, launch: Rect, rows: &Vec<Row>) -> (r:
        MainStep)
        requires
            old(self).wf(),
            list.y + 1 <= u16::MAX,
        ensures
            final(self).wf(),
            main_click_in(
                *old(self),
                *final(self),
                m.column as int,
                m.row as int,
                list,
                act,
                launch,
                rows@,
                r,
            ),
    {
        if act.contains(m.column, m.row) {
            self.grid.set_focus(1, 0);
            self.btn_activate.click();
            return MainStep::Nothing;
        }
        if launch.contains(m.column, m.row) {
            self.grid.set_focus(1, 1);
            self.btn_launch.click();
            return MainStep::Nothing;
        }
        if !list.contains(m.column, m.row) || m.row < list.y + 1 {
            return MainStep::Nothing;
        }
        let rel = (m.row - (list.y + 1)) as usize;
        if rel >= rows.len() || self.scroll >= rows.len() - rel {
            return MainStep::Nothing;
        }
        let abs_row = self.scroll + rel;
        let items = Self::item_indices(rows);
        let d = match position_of(&items, abs_row) {
            Some(d) => d,
            None => {
                return MainStep::Nothing;
            },
        };
        proof {
            assert(rows@.len() == rows.len());
            lemma_items_unique(rows@);
            assert(exists|i: int| 0 <= i < items@.len() && items@[i] == abs_row);
            let c = choose|i: int| 0 <= i < items@.len() && items@[i] == abs_row;
            if c < d {
                assert(items@[c] < items@[d as int]);
            } else if c > d {
                assert(items@[d as int] < items@[c]);
            }
            assert(c == d as int);
        }
        let prev = self.grid.list_selected();
        self.grid.set_focus(0, 0);
        self.grid.set_list_selected(d);
        if d != prev {
            self.ensure_visible(rows);
            return MainStep::Nothing;
        }
        self.activate(rows)
    }

    /// Polls the buttons once per frame: Launch when its click fires, else
    /// Activate when its click fires.
    pub fn poll_buttons(&mut self) -> (r: MainStep)
        ensures
            final(self).grid == old(self).grid,
            final(self).scroll == old(self).scroll,
            final(self).btn_launch.pending_state() == poll_next(old(self).btn_launch.pending_state()),
            old(self).btn_launch.pending_state() == Some(true) ==> r == MainStep::Launch
                && final(self).btn_activate == old(self).btn_activate,
            old(self).btn_launch.pending_state() != Some(true) ==> final(self).btn_activate.pending_state()
                == poll_next(old(self).btn_activate.pending_state()) && r == (if old(
                self,
            ).btn_activate.pending_state() == Some(true) {
                MainStep::Activate
            } else {
                MainStep::Nothing
            }),
    {
        if self.btn_launch.poll_fire() {
            return MainStep::Launch;
        }
        if self.btn_activate.poll_fire() {
            return MainStep::Activate;
        }
        MainStep::Nothing
    }

    fn sized(&mut self, rows: &Vec<Row>, with_visible: bool)
        requires
            old(self).wf(),
        ensures
            final(self).wf(),
            final(self).grid@ == (if with_visible {
                prepared(old(self).grid@, items_of(rows@).len() as usize, old(self).visible)
            } else {
                let g = old(self).grid@;
                let n = items_of(rows@).len() as usize;
                if crate::widgets::focus_grid::model_in_list(g) && g.sel >= n && n > 0 {
                    GridModel { len: n, sel: (n - 1) as usize, ..g }
                } else {
                    GridModel { len: n, ..g }
                }
            }),
            final(self).scroll == old(self).scroll && final(self).visible == old(self).visible,
            final(self).btn_activate == old(self).btn_activate && final(self).btn_launch == old(
                self,
            ).btn_launch,
    {
        let n = Self::item_indices(rows).len();
        self.grid.set_list_len(n);
        if with_visible {
            self.grid.set_visible_rows(self.visible);
        }
    }

    /// Moves up through the data rows of `rows` (or to the previous grid
    /// row) and keeps the selection visible.
    pub fn up(&mut self, rows: &Vec<Row>)
        requires
            old(self).wf(),
        ensures
            final(self).wf(),
            final(self).grid@ == model_move_up(
                prepared(old(self).grid@, items_of(rows@).len() as usize, old(self).visible),
            ),
            final(self).scroll == list_scroll(
                items_of(rows@),
                rows@.len() as int,
                final(self).grid@.sel as int,
                old(self).scroll as int,
                old(self).visible as int,
            ),
    {
        self.sized(rows, true);
        self.grid.move_up();
        self.ensure_visible(rows);
    }

    /// Moves down through the data rows of `rows` (or to the next grid row)
    /// and keeps the selection visible.
    pub fn down(&mut self, rows: &Vec<Row>)
        requires
            old(self).wf(),
        ensures
            final(self).wf(),
            final(self).grid@ == model_move_down(
                prepared(old(self).grid@, items_of(rows@).len() as usize, old(self).visible),
            ),
            final(self).scroll == list_scroll(
                items_of(rows@),
                rows@.len() as int,
                final(self).grid@.sel as int,
                old(self).scroll as int,
                old(self).visible as int,
            ),
    {
        self.sized(rows, true);
        self.grid.move_down();
        self.ensure_visible(rows);
    }

    /// Pages up through the data rows of `rows` and keeps the selection
    /// visible.
    pub fn page_up(&mut self, rows: &Vec<Row>)
        requires
            old(self).wf(),
        ensures
            final(self).wf(),
            final(self).grid@ == model_page_up(({
                let g = old(self).grid@;
                let n = items_of(rows@).len() as usize;
                if crate::widgets::focus_grid::model_in_list(g) && g.sel >= n && n > 0 {
                    GridModel { len: n, sel: (n - 1) as usize, ..g }
                } else {
                    GridModel { len: n, ..g }
                }
            })),
            final(self).scroll == list_scroll(
                items_of(rows@),
                rows@.len() as int,
                final(self).grid@.sel as int,
                old(self).scroll as int,
                old(self).visible as int,
            ),
    {
        self.sized(rows, false);
        self.grid.page_up();
        self.ensure_visible(rows);
    }

    /// Pages down (the grid alone; the next draw re-clamps the scroll).
    pub fn page_down(&mut self)
        requires
            old(self).wf(),
        ensures
            final(self).wf(),
            final(self).grid@ == model_page_down(old(self).grid@),
            final(self).scroll == old(self).scroll,
    {
        self.grid.page_down();
    }

    /// Handles one wheel step (`delta < 0` is up) and keeps the selection
    /// visible.
    pub fn scroll(&mut self, delta: i32, rows: &Vec<Row>)
        requires
            old(self).wf(),
        ensures
            final(self).wf(),
            final(self).grid@ == ({
                let g = prepared(old(self).grid@, items_of(rows@).len() as usize, old(self).visible);
                if delta < 0 {
                    model_move_up(g)
                } else {
                    model_move_down(g)
                }
            }),
            final(self).scroll == list_scroll(
                items_of(rows@),
                rows@.len() as int,
                final(self).grid@.sel as int,
                old(self).scroll as int,
                old(self).visible as int,
            ),
    {
        self.sized(rows, true);
        self.grid.scroll(delta);
        self.ensure_visible(rows);
    }

}

/// Every data row position is a position in the list.
pub proof fn lemma_items_in_range(rows: Seq<Row>)
    requires
        rows.len() <= usize::MAX,
    ensures
        items_of(rows).len() <= rows.len(),
        forall|j: int| 0 <= j < items_of(rows).len() ==> #[trigger] items_of(rows)[j] < rows.len(),
    decreases rows.len(),
{
    if rows.len() > 0 {
        lemma_items_in_range(rows.drop_last());
        let p = items_of(rows.drop_last());
        assert forall|j: int| 0 <= j < items_of(rows).len() implies #[trigger] items_of(rows)[j]
            < rows.len() by {
            if j < p.len() {
                assert(items_of(rows)[j] == p[j]);
            }
        }
    }
}

/// Assembles the info list from the shell's texts (see [`info_rows`]).
pub fn build_rows(t: &InfoTexts) -> (rows: Vec<Row>)
    ensures
        rows@.map_values(|r: Row| row_view(r)) == info_rows(*t),
{
    let mut rows: Vec<Row> = Vec::new();
    rows.push(Row::Header(t.comfy_header.clone()));
    rows.push(Row::Item { label: t.command.0.clone(), value: t.command.1.clone() });
    let version = match &t.version.1 {
        Some(v) => v.clone(),
        None => {
            let mut q = String::new();
            push_char(&mut q, '?');
            q
        },
    };
    rows.push(Row::Item { label: t.version.0.clone(), value: version });
    match &t.head.1 {
        Some(h) => {
            rows.push(Row::Item { label: t.head.0.clone(), value: h.clone() });
        },
        None => {},
    }
    rows.push(Row::Item { label: t.python.0.clone(), value: t.python.1.clone() });
    rows.push(Row::Item { label: t.launcher.0.clone(), value: t.launcher.1.clone() });
    let mut nodes = dec_chars(t.nodes.0 as u64);
    let ghost n0 = nodes@;
    if t.nodes.1 != 0 {
        nodes.push(' ');
        nodes.push('(');
        append_chars(&mut nodes, &chars_of(t.disabled_note.as_str()));
        nodes.push(')');
    }
    rows.push(Row::Item { label: t.nodes_label.clone(), value: string_of(&nodes) });
    rows.push(Row::Header(t.dirs_header.clone()));
    let ghost fixed = rows@.map_values(|r: Row| row_view(r));
    let ghost want = info_rows(*t);
    let ghost dv = t.dirs@.map_values(|d: (String, String)| (false, d.0@, d.1@));
    let ghost head = seq![
        (true, t.comfy_header@, Seq::<char>::empty()),
        (false, t.command.0@, t.command.1@),
        (false, t.version.0@, match &t.version.1 {
            Some(v) => v@,
            None => seq!['?'],
        }),
    ];
    let ghost sha = match &t.head.1 {
        Some(h) => seq![(false, t.head.0@, h@)],
        None => Seq::<(bool, Seq<char>, Seq<char>)>::empty(),
    };
    let ghost rest = seq![
        (false, t.python.0@, t.python.1@),
        (false, t.launcher.0@, t.launcher.1@),
        (false, t.nodes_label@, nodes_text(t.nodes.0 as nat, t.nodes.1 as nat, t.disabled_note@)),
        (true, t.dirs_header@, Seq::<char>::empty()),
    ];
    assert(nodes@ == nodes_text(t.nodes.0 as nat, t.nodes.1 as nat, t.disabled_note@)) by {
        if t.nodes.1 != 0 {
            assert(nodes@ =~= dec(t.nodes.0 as nat) + seq![' ', '('] + t.disabled_note@ + seq![')']);
        }
    }
    assert(fixed =~= head + sha + rest);
    assert(want =~= fixed + dv);
    let mut i: usize = 0;
    while i < t.dirs.len()
        invariant
            i <= t.dirs@.len(),
            dv == t.dirs@.map_values(|d: (String, String)| (false, d.0@, d.1@)),
            want == info_rows(*t),
            want == fixed + dv,
            rows@.map_values(|r: Row| row_view(r)) == fixed + dv.take(i as int),
        decreases t.dirs@.len() - i,
    {
        let ghost before = rows@.map_values(|r: Row| row_view(r));
        rows.push(Row::Item { label: t.dirs[i].0.clone(), value: t.dirs[i].1.clone() });
        assert(rows@.map_values(|r: Row| row_view(r)) =~= before.push(dv[i as int]));
        assert(dv.take(i + 1) =~= dv.take(i as int).push(dv[i as int]));
        i = i + 1;
    }
    assert(dv.take(dv.len() as int) =~= dv);
    rows
}

/// The first position of `x` in `v`.
fn position_of(v: &Vec<usize>, x: usize) -> (r: Option<usize>)
    ensures
        match r {
            Some(d) => d < v@.len() && v@[d as int] == x,
            None => forall|j: int| 0 <= j < v@.len() ==> v@[j] != x,
        },
{
    let mut d: usize = 0;
    while d < v.len()
        invariant
            d <= v@.len(),
            forall|j: int| 0 <= j < d ==> v@[j] != x,
        decreases v@.len() - d,
    {
        if v[d] == x {
            return Some(d);
        }
        d = d + 1;
    }
    None
}

/// Positions of data rows are distinct.
proof fn lemma_items_unique(rows: Seq<Row>)
    requires
        rows.len() <= usize::MAX,
    ensures
        forall|i: int, j: int|
            0 <= i < j < items_of(rows).len() ==> items_of(rows)[i] < items_of(rows)[j],
        forall|i: int| 0 <= i < items_of(rows).len() ==> items_of(rows)[i] < rows.len(),
    decreases rows.len(),
{
    if rows.len() > 0 {
        lemma_items_unique(rows.drop_last());
        let p = items_of(rows.drop_last());
        let q = items_of(rows);
        assert forall|i: int| 0 <= i < q.len() implies q[i] < rows.len() by {
            if i < p.len() {
                assert(q[i] == p[i]);
            }
        }
        assert forall|i: int, j: int| 0 <= i < j < q.len() implies q[i] < q[j] by {
            if j < p.len() {
                assert(q[i] == p[i] && q[j] == p[j]);
            } else {
                assert(rows.last() is Item);
                assert(q == p.push((rows.len() - 1) as usize));
                assert(q[i] == p[i]);
                assert(j == p.len());
                assert(q[j] == ((rows.len() - 1) as usize));
                assert(p[i] < rows.len() - 1);
            }
        }
    }
}

} // verus!
