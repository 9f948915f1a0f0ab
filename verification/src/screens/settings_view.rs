//! Schema-driven settings editor shared by the ComfyUI Settings and the
//! Launcher Settings screens.
//!
//! The view decides focus, filtering, tab switching and popups; reading and
//! writing the setting values, and translating labels, belong to its
//! caller, which hands them over as plain values.

use crate::app::FlashKind;
use crate::geom::{fits, Key, Mouse, MouseKind, Rect};
use crate::layout::{laid_out, piece_of, split, Constraint};
use crate::schema::{ConfigValue, Field, FieldType, Schema};
use crate::screens::version_mgmt::core_tab::focused_on;
use crate::strs::{
    chars_eq, chars_of, contains_chars, has_sub, lower_chars, lowercase_of, split_chars, split_on,
    string_of, trim, trim_str,
};
use crate::text::{wrap_to_width, wrapped};
use crate::widgets::focus_grid::{FocusGrid, GridModel, RowKind};
use crate::widgets::input::{input_step, Input};
use crate::widgets::menu::{wrap_down, wrap_up};
use crate::widgets::popup::input_popup::InputPopup;
use crate::widgets::popup::select::{select_height, select_hit, Select};
use crate::widgets::popup::{center, centered};
use crate::widgets::tabs::{strip_hit, widths_of, HitResult, Tabs};
use vstd::prelude::*;

verus! {

/// Currently displayed popup, if any.
pub enum Popup {
    /// No popup is open.
    Closed,
    /// Choice popup, with the field key and the value of each choice.
    Select(Select, String, Vec<String>),
    /// Text popup for a custom field, with the field key.
    Input(InputPopup, String),
}

/// Schema-driven settings editor.
pub struct SettingsView {
    /// Active tab index.
    pub tab: usize,
    /// Tab to return to when the search is cleared.
    pub saved_tab: Option<usize>,
    /// Focus grid: row 0 is the filter input, row 1 the field list.
    pub grid: FocusGrid,
    /// Active popup.
    pub popup: Popup,
    /// Flash message awaiting promotion to the application banner.
    pub pending_flash: Option<(FlashKind, String)>,
    /// Scroll offset, in fields of the filtered view.
    pub scroll: usize,
    /// Number of fields that fit on the last frame.
    pub visible: usize,
    /// Filter text input for searching settings by name or description.
    pub filter: Input,
}

/// A field's translated name and description, tab by tab and field by
/// field like the schema.
pub type FieldTexts = Vec<Vec<(String, String)>>;

/// Whether `texts` has one entry per field of `schema`.
pub open spec fn texts_fit(schema: Schema, texts: Seq<Vec<(String, String)>>) -> bool {
    texts.len() == schema.tabs@.len() && forall|t: int|
        0 <= t < texts.len() ==> #[trigger] texts[t]@.len() == schema.tabs@[t].fields@.len()
}

/// `(tab, field)` for every field of tab `t` whose translated name or
/// description contains `q` (ignoring case), fields `0..f`.
pub open spec fn matches_in(texts: Seq<(String, String)>, t: int, q: Seq<char>) -> Seq<(usize, usize)>
    decreases texts.len(),
{
    if texts.len() == 0 {
        Seq::empty()
    } else {
        let p = matches_in(texts.drop_last(), t, q);
        let (n, d) = texts.last();
        if has_sub(lowercase_of(n@), lowercase_of(q)) || has_sub(lowercase_of(d@), lowercase_of(q)) {
            p.push((t as usize, (texts.len() - 1) as usize))
        } else {
            p
        }
    }
}

/// Matches across the tabs `0..texts.len()`, tab by tab.
pub open spec fn matches_all(texts: Seq<Vec<(String, String)>>, q: Seq<char>) -> Seq<(usize, usize)>
    decreases texts.len(),
{
    if texts.len() == 0 {
        Seq::empty()
    } else {
        matches_all(texts.drop_last(), q) + matches_in(texts.last()@, texts.len() - 1, q)
    }
}

/// Every field of tab `t` (`n` fields), in order.
pub open spec fn tab_fields(t: usize, n: nat) -> Seq<(usize, usize)>
    decreases n,
{
    if n == 0 {
        Seq::empty()
    } else {
        tab_fields(t, (n - 1) as nat).push((t, (n - 1) as usize))
    }
}

/// The fields listed: without a search, every field of the active tab (none
/// when the tab does not exist); with one, the matching fields of every
/// tab.
pub open spec fn settings_filter(
    schema: Schema,
    texts: Seq<Vec<(String, String)>>,
    tab: usize,
    q: Seq<char>,
) -> Seq<(usize, usize)> {
    if lowercase_of(q).len() == 0 {
        if tab < schema.tabs@.len() {
            tab_fields(tab, schema.tabs@[tab as int].fields@.len())
        } else {
            Seq::empty()
        }
    } else {
        matches_all(texts, q)
    }
}

/// What a key asks of the settings view's caller.
pub enum SettingsKey {
    /// The key was not used.
    Ignored,
    /// The key was used.
    Used,
    /// Store `value` (a string) for the setting `key`; a refused value is
    /// reported back through `flash_error`.
    Store {
        /// The setting's key.
        key: String,
        /// The value to store.
        value: String,
    },
    /// Store the boolean `value` for the setting `key` (a refusal is
    /// ignored).
    StoreBool {
        /// The setting's key.
        key: String,
        /// The value to store.
        value: bool,
    },
    /// Activate field `field` of tab `tab` (see `activate_field`).
    Activate {
        /// Tab index.
        tab: usize,
        /// Field index within the tab.
        field: usize,
    },
}

/// The view's grid rows: the filter input, then the field list.
pub open spec fn settings_rows() -> Seq<RowKind> {
    seq![RowKind::Fixed(1), RowKind::List]
}

/// `v` with the grid on row `row` and list selection `sel`, scroll reset.
pub open spec fn list_reset(a: SettingsView, b: SettingsView, tab: usize) -> bool {
    b == (SettingsView { grid: b.grid, tab, scroll: 0, ..a }) && b.grid@ == (GridModel {
        sel: 0,
        ..a.grid@
    })
}

/// The tab after `t` among `n` tabs, wrapping.
pub open spec fn next_tab(t: usize, n: nat) -> usize {
    (((t as int) % (n as int) + 1) % (n as int)) as usize
}

/// The tab before `t` among `n` tabs, wrapping (the last when `t` is 0).
pub open spec fn prev_tab(t: usize, n: nat) -> usize {
    if t == 0 {
        (n - 1) as usize
    } else {
        (t - 1) as usize
    }
}

/// Left or Right switching tabs when no search is active and there is more
/// than one tab (selection and scroll reset); otherwise nothing happens.
pub open spec fn tab_switch(a: SettingsView, b: SettingsView, n_tabs: nat, right: bool) -> bool {
    if a.filter.value@.len() == 0 && n_tabs > 1 {
        list_reset(a, b, if right {
            next_tab(a.tab, n_tabs)
        } else {
            prev_tab(a.tab, n_tabs)
        })
    } else {
        b == a
    }
}

/// What Esc does outside the key handler: close an open popup, else leave
/// the filter box for the list, else clear a non-empty search (back to the
/// list's top and to the tab the search started from), else nothing (and
/// it is not used).
pub open spec fn esc_key(a: SettingsView, b: SettingsView, used: bool) -> bool {
    if !(a.popup is Closed) {
        used && b == (SettingsView { popup: Popup::Closed, ..a })
    } else if a.grid@.row == 0 {
        used && b == (SettingsView { grid: b.grid, ..a }) && b.grid@ == focused_on(a.grid@, 1)
    } else if a.filter.value@.len() > 0 {
        &&& used
        &&& b.filter.value@.len() == 0 && b.filter.cursor == 0
        &&& b.filter.placeholder_key == a.filter.placeholder_key
        &&& b.grid@ == (GridModel { sel: 0, ..a.grid@ })
        &&& b.scroll == 0
        &&& b.saved_tab is None
        &&& b.tab == (match a.saved_tab {
            Some(t) => t,
            None => a.tab,
        })
        &&& b.popup == a.popup && b.pending_flash == a.pending_flash && b.visible == a.visible
    } else {
        !used && b == a
    }
}

/// A key in a choice popup: Esc closes it, Up, Down, PageUp and PageDown
/// move, Enter closes it and stores the selected choice's value (when the
/// selection names a choice).
pub open spec fn select_key(a: SettingsView, b: SettingsView, k: Key, r: SettingsKey) -> bool {
    match a.popup {
        Popup::Select(sel, key, values) => r == (if k == Key::Enter && sel.selected < values@.len() {
            SettingsKey::Store { key, value: values@[sel.selected as int] }
        } else {
            SettingsKey::Used
        }) && if k == Key::Esc || k == Key::Enter {
            b == (SettingsView { popup: Popup::Closed, ..a })
        } else {
            b == (SettingsView { popup: b.popup, ..a }) && (b.popup matches Popup::Select(s2, k2, v2)
                && k2 == key && v2 == values && s2.title == sel.title && s2.items == sel.items
                && s2.selected == (match k {
                Key::Up => wrap_up(sel.selected, sel.items@.len() as usize),
                Key::Down => wrap_down(sel.selected, sel.items@.len() as usize),
                Key::PageUp => if sel.items@.len() > 0 {
                    0
                } else {
                    sel.selected
                },
                Key::PageDown => if sel.items@.len() > 0 {
                    (sel.items@.len() - 1) as usize
                } else {
                    sel.selected
                },
                _ => sel.selected,
            }))
        },
        _ => false,
    }
}

/// A key in a text popup: Esc closes it, Enter closes it and stores the
/// trimmed text, other keys edit the text.
pub open spec fn input_key(a: SettingsView, b: SettingsView, k: Key, r: SettingsKey) -> bool {
    match a.popup {
        Popup::Input(ip, key) => if k == Key::Esc {
            r == SettingsKey::Used && b == (SettingsView { popup: Popup::Closed, ..a })
        } else if k == Key::Enter {
            b == (SettingsView { popup: Popup::Closed, ..a }) && (r matches SettingsKey::Store {
                key: k2,
                value,
            } && k2 == key && value@ == trim(ip.input.value@))
        } else {
            r == SettingsKey::Used && b == (SettingsView { popup: b.popup, ..a }) && (
            b.popup matches Popup::Input(ip2, k2) && k2 == key && ip2.title == ip.title
                && ip2.input.placeholder_key == ip.input.placeholder_key && (
            ip2.input.value@, ip2.input.cursor as int) == input_step(
                ip.input.value@,
                ip.input.cursor as int,
                k,
            ))
        },
        _ => false,
    }
}

/// A key in the filter box (`n` fields listed): Esc, Tab and BackTab go to
/// the list, Enter and Down go to its top, Up to its bottom; Left and Right
/// move the cursor, or at the edge of an empty filter switch tabs; other
/// keys edit the filter (the list returns to its top; the tab is
/// remembered when a search starts and restored when it ends).
pub open spec fn filter_key(a: SettingsView, b: SettingsView, k: Key, n_tabs: nat, n: int) -> bool {
    let g = a.grid@;
    match k {
        Key::Esc | Key::Tab | Key::BackTab => b == (SettingsView { grid: b.grid, ..a }) && b.grid@
            == focused_on(g, 1),
        Key::Enter | Key::Down => b == (SettingsView { grid: b.grid, scroll: 0, ..a }) && b.grid@ == (
        GridModel { sel: 0, ..focused_on(g, 1) }),
        Key::Up => if n > 0 {
            b == (SettingsView { grid: b.grid, ..a }) && b.grid@ == (GridModel {
                sel: (n - 1) as usize,
                ..focused_on(g, 1)
            })
        } else {
            b == a
        },
        Key::Left => if a.filter.cursor != 0 {
            b == (SettingsView { filter: b.filter, ..a }) && b.filter.placeholder_key
                == a.filter.placeholder_key && (b.filter.value@, b.filter.cursor as int) == input_step(
                a.filter.value@,
                a.filter.cursor as int,
                Key::Left,
            )
        } else {
            tab_switch(a, b, n_tabs, false)
        },
        Key::Right => if a.filter.cursor < a.filter.value@.len() {
            b == (SettingsView { filter: b.filter, ..a }) && b.filter.placeholder_key
                == a.filter.placeholder_key && (b.filter.value@, b.filter.cursor as int) == input_step(
                a.filter.value@,
                a.filter.cursor as int,
                Key::Right,
            )
        } else {
            tab_switch(a, b, n_tabs, true)
        },
        _ => {
            let was_empty = a.filter.value@.len() == 0;
            let now_empty = b.filter.value@.len() == 0;
            &&& b.filter.placeholder_key == a.filter.placeholder_key
            &&& (b.filter.value@, b.filter.cursor as int) == input_step(
                a.filter.value@,
                a.filter.cursor as int,
                k,
            )
            &&& b.grid@ == (GridModel { sel: 0, ..g })
            &&& b.scroll == 0
            &&& b.popup == a.popup && b.pending_flash == a.pending_flash && b.visible == a.visible
            &&& if was_empty && !now_empty {
                b.saved_tab == Some(a.tab) && b.tab == a.tab
            } else if !was_empty && now_empty {
                b.saved_tab is None && b.tab == (match a.saved_tab {
                    Some(t) => t,
                    None => a.tab,
                })
            } else {
                b.saved_tab == a.saved_tab && b.tab == a.tab
            }
        },
    }
}

/// A key on the field list (`rows` listed): Tab, BackTab and PageUp go to
/// the filter, Up and Down move (leaving the list past its top or bottom),
/// PageDown jumps to the last field, Left and Right switch tabs when no
/// search is active, Enter and Space ask to activate the selected field;
/// other keys are not used.
pub open spec fn list_key(
    a: SettingsView,
    b: SettingsView,
    k: Key,
    n_tabs: nat,
    rows: Seq<(usize, usize)>,
    r: SettingsKey,
) -> bool {
    let n = rows.len() as int;
    let g = a.grid@;
    let sel = g.sel as int;
    match k {
        Key::Tab | Key::BackTab | Key::PageUp => r == SettingsKey::Used && b == (SettingsView {
            grid: b.grid,
            ..a
        }) && b.grid@ == focused_on(g, 0),
        Key::Up => r == SettingsKey::Used && b == (SettingsView { grid: b.grid, ..a }) && b.grid@ == (
        if sel == 0 {
            focused_on(g, 0)
        } else {
            GridModel { sel: (sel - 1) as usize, ..g }
        }),
        Key::Down => r == SettingsKey::Used && b == (SettingsView { grid: b.grid, ..a }) && b.grid@
            == (if n > 0 && sel + 1 >= n {
            focused_on(g, 0)
        } else if n > 0 {
            GridModel { sel: (sel + 1) as usize, ..g }
        } else {
            g
        }),
        Key::PageDown => r == SettingsKey::Used && b == (SettingsView { grid: b.grid, ..a })
            && b.grid@ == (if n > 0 {
            GridModel { sel: (n - 1) as usize, ..g }
        } else {
            focused_on(g, 0)
        }),
        Key::Right => r == SettingsKey::Used && tab_switch(a, b, n_tabs, true),
        Key::Left => r == SettingsKey::Used && tab_switch(a, b, n_tabs, false),
        Key::Enter | Key::Char(' ') => b == a && r == (if sel < n {
            SettingsKey::Activate { tab: rows[sel].0, field: rows[sel].1 }
        } else {
            SettingsKey::Used
        }),
        _ => b == a && r == SettingsKey::Ignored,
    }
}

/// The effect of a key on the settings view, with `n_tabs` tabs and the
/// fields `rows` listed: an open popup takes every key, else the focused
/// row (filter box or field list) handles it.
pub open spec fn settings_key(
    a: SettingsView,
    b: SettingsView,
    k: Key,
    n_tabs: nat,
    rows: Seq<(usize, usize)>,
    r: SettingsKey,
) -> bool {
    match a.popup {
        Popup::Select(..) => select_key(a, b, k, r),
        Popup::Input(..) => input_key(a, b, k, r),
        Popup::Closed => if a.grid@.row == 0 {
            r == SettingsKey::Used && filter_key(a, b, k, n_tabs, rows.len() as int)
        } else {
            list_key(a, b, k, n_tabs, rows, r)
        },
    }
}

/// A wheel step (`delta` < 0 up, > 0 down) with `n` fields listed.
pub open spec fn wheel(a: SettingsView, b: SettingsView, delta: int, n: int) -> bool {
    let g = a.grid@;
    match a.popup {
        Popup::Select(sel, key, values) => b == (SettingsView { popup: b.popup, ..a }) && (
        b.popup matches Popup::Select(s2, k2, v2) && k2 == key && v2 == values && s2.title
            == sel.title && s2.items == sel.items && s2.selected == if delta < 0 {
            wrap_up(sel.selected, sel.items@.len() as usize)
        } else {
            wrap_down(sel.selected, sel.items@.len() as usize)
        }),
        Popup::Input(..) => b == a,
        Popup::Closed => if n == 0 || delta == 0 {
            b == a
        } else if delta < 0 {
            b == (SettingsView { grid: b.grid, ..a }) && b.grid@ == if g.row == 0 {
                GridModel { sel: (n - 1) as usize, ..focused_on(g, 1) }
            } else if g.sel == 0 {
                focused_on(g, 0)
            } else {
                GridModel { sel: (g.sel - 1) as usize, ..g }
            }
        } else if g.row == 0 {
            b == (SettingsView { grid: b.grid, scroll: 0, ..a }) && b.grid@ == (GridModel {
                sel: 0,
                ..focused_on(g, 1)
            })
        } else {
            b == (SettingsView { grid: b.grid, ..a }) && b.grid@ == if g.sel + 1 >= n {
                focused_on(g, 0)
            } else {
                GridModel { sel: (g.sel + 1) as usize, ..g }
            }
        },
    }
}

/// The text of a string setting (empty for any other kind of value).
pub open spec fn str_value(v: ConfigValue) -> Seq<char> {
    match v {
        ConfigValue::Str(s) => s@,
        _ => Seq::empty(),
    }
}

/// The truth of a boolean setting (false for any other kind of value).
pub open spec fn bool_value(v: ConfigValue) -> bool {
    match v {
        ConfigValue::Bool(b) => b,
        _ => false,
    }
}

/// `i` is the first position of `s` in `vs`, or 0 when `s` does not occur.
pub open spec fn first_pos(vs: Seq<String>, s: Seq<char>, i: usize) -> bool {
    if exists|j: int| 0 <= j < vs.len() && #[trigger] vs[j]@ == s {
        i < vs.len() && vs[i as int]@ == s && forall|j: int| 0 <= j < i ==> #[trigger] vs[j]@ != s
    } else {
        i == 0
    }
}

/// The choice values a field's popup offers: the options' values for a
/// `Choice` field, `values` (supplied by the caller) for the language and
/// GPU pickers.
pub open spec fn choice_values(ty: FieldType, values: Seq<String>) -> Seq<String> {
    match ty {
        FieldType::Choice { options } => options@.map_values(|o: crate::schema::Choice| o.value),
        _ => values,
    }
}

/// Activating field `fld` whose current value is `cur`: a toggle asks to
/// store its negation; a choice field opens a choice popup titled `title`
/// listing `items`, on the current value's position among the choice
/// values; a text field opens a text popup holding the current text.
pub open spec fn activation(
    a: SettingsView,
    b: SettingsView,
    fld: Field,
    cur: ConfigValue,
    title: String,
    items: Seq<String>,
    values: Seq<String>,
    r: SettingsKey,
) -> bool {
    match fld.ty {
        FieldType::Toggle => b == a && r == SettingsKey::StoreBool {
            key: fld.key,
            value: !bool_value(cur),
        },
        FieldType::Custom => r == SettingsKey::Used && b == (SettingsView { popup: b.popup, ..a }) && (
        b.popup matches Popup::Input(ip, k2) && k2 == fld.key && ip.title == title
            && ip.input.value@ == str_value(cur) && ip.input.cursor == str_value(cur).len()
            && ip.input.placeholder_key is None),
        _ => r == SettingsKey::Used && b == (SettingsView { popup: b.popup, ..a }) && (
        b.popup matches Popup::Select(sel, k2, vs) && k2 == fld.key && vs@ == choice_values(
            fld.ty,
            values,
        ) && sel.title == title && sel.items@ == items && first_pos(
            vs@,
            str_value(cur),
            sel.selected,
        )),
    }
}

impl SettingsView {
    /// The view's invariant: a well-formed grid with the filter row above
    /// the list row.
    pub open spec fn wf(&self) -> bool {
        self.grid.wf() && self.grid@.rows == settings_rows()
    }

    /// Constructs a fresh editor on the first tab with the field list
    /// focused.
    pub fn new() -> (v: Self)
        ensures
            v.wf(),
            v.tab == 0,
            v.saved_tab is None,
            v.grid@.row == 1 && v.grid@.sel == 0,
            v.popup is Closed,
            v.pending_flash is None,
            v.scroll == 0 && v.visible == 0,
            v.filter.value@.len() == 0 && v.filter.cursor == 0,
            v.filter.placeholder_key == Some("placeholder_search"),
    {
        let mut rows: Vec<RowKind> = Vec::new();
        rows.push(RowKind::Fixed(1));
        rows.push(RowKind::List);
        assert(rows@ =~= settings_rows());
        let mut grid = FocusGrid::new(rows);
        grid.set_focus(1, 0);
        SettingsView {
            tab: 0,
            saved_tab: None,
            grid,
            popup: Popup::Closed,
            pending_flash: None,
            scroll: 0,
            visible: 0,
            filter: Input::default().placeholder("placeholder_search"),
        }
    }

    /// Whether the filter input currently has keyboard focus.
    pub fn filter_focused(&self) -> (b: bool)
        ensures
            b == (self.grid@.row == 0),
    {
        self.grid.row() == 0
    }

    /// Drains and returns any pending flash message.
    pub fn take_flash(&mut self) -> (r: Option<(FlashKind, String)>)
        ensures
            r == old(self).pending_flash,
            *final(self) == (SettingsView { pending_flash: None, ..*old(self) }),
    {
        self.pending_flash.take()
    }

    /// Reports a value the caller refused to store.
    pub fn flash_error(&mut self, msg: String)
        ensures
            *final(self) == (SettingsView {
                pending_flash: Some((FlashKind::Error, msg)),
                ..*old(self)
            }),
    {
        self.pending_flash = Some((FlashKind::Error, msg));
    }

    /// Closes an open popup, else leaves the filter box, else clears a
    /// non-empty filter (returning to the list's top and the remembered
    /// tab). Returns whether Esc was consumed.
    pub fn eat_esc(&mut self) -> (used: bool)
        requires
            old(self).wf(),
        ensures
            final(self).wf(),
            esc_key(*old(self), *final(self), used),
    {
        match self.popup {
            Popup::Closed => {},
            _ => {
                self.popup = Popup::Closed;
                return true;
            },
        }
        if self.filter_focused() {
            self.grid.set_focus(1, 0);
            return true;
        }
        if !self.filter.value.as_str().is_empty() {
            self.filter.value = String::new();
            self.filter.cursor = 0;
            self.grid.set_list_selected(0);
            self.scroll = 0;
            match self.saved_tab.take() {
                Some(t) => {
                    self.tab = t;
                },
                None => {},
            }
            return true;
        }
        false
    }

    /// Returns the fields listed: without a search every field of the active
    /// tab, with one the fields of every tab whose translated name or
    /// description (`texts`) contains the search text, ignoring case.
    pub fn filtered_fields(&self, schema: &Schema, texts: &FieldTexts) -> (r: Vec<(usize, usize)>)
        requires
            texts_fit(*schema, texts@),
        ensures
            r@ == settings_filter(*schema, texts@, self.tab, self.filter.value@),
    {
        let needle = lower_chars(&chars_of(self.filter.value.as_str()));
        let mut out: Vec<(usize, usize)> = Vec::new();
        if needle.len() == 0 {
            if self.tab >= schema.tabs.len() {
                return out;
            }
            let n = schema.tabs[self.tab].fields.len();
            let mut i: usize = 0;
            while i < n
                invariant
                    i <= n,
                    out@ == tab_fields(self.tab, i as nat),
                decreases n - i,
            {
                out.push((self.tab, i));
                i = i + 1;
            }
            return out;
        }
        let nt = texts.len();
        let mut t: usize = 0;
        assert(texts@.take(0) =~= Seq::<Vec<(String, String)>>::empty());
        while t < nt
            invariant
                t <= nt == texts@.len(),
                needle@ == lowercase_of(self.filter.value@),
                out@ == matches_all(texts@.take(t as int), self.filter.value@),
            decreases nt - t,
        {
            let row = &texts[t];
            let nf = row.len();
            let mut f: usize = 0;
            let ghost base = out@;
            assert(row@.take(0) =~= Seq::<(String, String)>::empty());
            while f < nf
                invariant
                    f <= nf == row@.len(),
                    row == texts@[t as int],
                    t < nt == texts@.len(),
                    needle@ == lowercase_of(self.filter.value@),
                    base == matches_all(texts@.take(t as int), self.filter.value@),
                    out@ == base + matches_in(row@.take(f as int), t as int, self.filter.value@),
                decreases nf - f,
            {
                assert(row@.take(f + 1).drop_last() =~= row@.take(f as int));
                let (name, desc) = &row[f];
                let hit = contains_chars(&lower_chars(&chars_of(name.as_str())), &needle)
                    || contains_chars(&lower_chars(&chars_of(desc.as_str())), &needle);
                if hit {
                    out.push((t, f));
                    assert(out@ =~= base + matches_in(row@.take(f + 1), t as int, self.filter.value@));
                }
                f = f + 1;
            }
            assert(row@.take(nf as int) =~= row@);
            assert(texts@.take(t + 1).drop_last() =~= texts@.take(t as int));
            t = t + 1;
        }
        assert(texts@.take(nt as int) =~= texts@);
        out
    }

    /// Switches to the next (`right`) or previous tab among `n`, wrapping,
    /// when no search is active and there is more than one tab.
    fn switch_tab(&mut self, n: usize, right: bool)
        requires
            old(self).wf(),
        ensures
            final(self).wf(),
            tab_switch(*old(self), *final(self), n as nat, right),
    {
        if self.filter.value.as_str().is_empty() && n > 1 {
            self.tab = if right {
                (self.tab % n + 1) % n
            } else if self.tab == 0 {
                n - 1
            } else {
                self.tab - 1
            };
            self.grid.set_list_selected(0);
            self.scroll = 0;
        }
    }

    fn key_select(&mut self, k: Key) -> (r: SettingsKey)
        requires
            old(self).popup matches Popup::Select(sel, _, _) && (sel.items@.len() == 0
                || sel.selected < usize::MAX),
        ensures
            select_key(*old(self), *final(self), k, r),
    {
        let mut store: Option<(String, String)> = None;
        let close = match &mut self.popup {
            Popup::Select(sel, key, values) => {
                match k {
                    Key::Esc => true,
                    Key::Enter => {
                        if sel.selected < values.len() {
                            store = Some((key.clone(), values[sel.selected].clone()));
                        }
                        true
                    },
                    _ => {
                        sel.on_key(k);
                        false
                    },
                }
            },
            _ => false,
        };
        if close {
            self.popup = Popup::Closed;
        }
        match store {
            Some((key, value)) => SettingsKey::Store { key, value },
            None => SettingsKey::Used,
        }
    }

    fn key_input(&mut self, k: Key) -> (r: SettingsKey)
        requires
            old(self).popup matches Popup::Input(ip, _) && (k is Char ==> ip.input.cursor
                < usize::MAX),
        ensures
            input_key(*old(self), *final(self), k, r),
    {
        let mut store: Option<(String, String)> = None;
        let close = match &mut self.popup {
            Popup::Input(ip, key) => {
                match k {
                    Key::Esc => true,
                    Key::Enter => {
                        store = Some((key.clone(), trim_str(ip.input.value.as_str())));
                        true
                    },
                    _ => {
                        ip.input.on_key(k);
                        false
                    },
                }
            },
            _ => false,
        };
        if close {
            self.popup = Popup::Closed;
        }
        match store {
            Some((key, value)) => SettingsKey::Store { key, value },
            None => SettingsKey::Used,
        }
    }

    fn key_filter(&mut self, k: Key, n_tabs: usize, n: usize)
        requires
            old(self).wf(),
            old(self).popup is Closed,
            k is Char ==> old(self).filter.cursor < usize::MAX,
        ensures
            final(self).wf(),
            filter_key(*old(self), *final(self), k, n_tabs as nat, n as int),
    {
        match k {
            Key::Esc | Key::Tab | Key::BackTab => {
                self.grid.set_focus(1, 0);
            },
            Key::Enter | Key::Down => {
                self.grid.set_focus(1, 0);
                self.grid.set_list_selected(0);
                self.scroll = 0;
            },
            Key::Up => {
                if n > 0 {
                    self.grid.set_focus(1, 0);
                    self.grid.set_list_selected(n - 1);
                }
            },
            Key::Left => {
                if !self.filter.at_start() {
                    self.filter.on_key(Key::Left);
                } else {
                    self.switch_tab(n_tabs, false);
                }
            },
            Key::Right => {
                if !self.filter.at_end() {
                    self.filter.on_key(Key::Right);
                } else {
                    self.switch_tab(n_tabs, true);
                }
            },
            _ => {
                let was_empty = self.filter.value.as_str().is_empty();
                self.filter.on_key(k);
                self.grid.set_list_selected(0);
                self.scroll = 0;
                let now_empty = self.filter.value.as_str().is_empty();
                if was_empty && !now_empty {
                    self.saved_tab = Some(self.tab);
                }
                if !was_empty && now_empty {
                    match self.saved_tab.take() {
                        Some(t) => {
                            self.tab = t;
                        },
                        None => {},
                    }
                }
            },
        }
    }

    fn key_list(&mut self, k: Key, n_tabs: usize, rows: &Vec<(usize, usize)>) -> (r: SettingsKey)
        requires
            old(self).wf(),
            old(self).popup is Closed,
        ensures
            final(self).wf(),
            list_key(*old(self), *final(self), k, n_tabs as nat, rows@, r),
    {
        let n = rows.len();
        match k {
            Key::Tab | Key::BackTab | Key::PageUp => {
                self.grid.set_focus(0, 0);
                SettingsKey::Used
            },
            Key::Up => {
                let sel = self.grid.list_selected();
                if sel == 0 {
                    self.grid.set_focus(0, 0);
                } else {
                    self.grid.set_list_selected(sel - 1);
                }
                SettingsKey::Used
            },
            Key::Down => {
                let sel = self.grid.list_selected();
                if n > 0 && sel >= n - 1 {
                    self.grid.set_focus(0, 0);
                } else if n > 0 {
                    self.grid.set_list_selected(sel + 1);
                }
                SettingsKey::Used
            },
            Key::PageDown => {
                if n > 0 {
                    self.grid.set_list_selected(n - 1);
                } else {
                    self.grid.set_focus(0, 0);
                }
                SettingsKey::Used
            },
            Key::Right => {
                self.switch_tab(n_tabs, true);
                SettingsKey::Used
            },
            Key::Left => {
                self.switch_tab(n_tabs, false);
                SettingsKey::Used
            },
            Key::Enter | Key::Char(' ') => {
                let sel = self.grid.list_selected();
                if sel < n {
                    SettingsKey::Activate { tab: rows[sel].0, field: rows[sel].1 }
                } else {
                    SettingsKey::Used
                }
            },
            _ => SettingsKey::Ignored,
        }
    }

    /// Handles a key; `texts` are the fields' translated names and
    /// descriptions. The result says what the caller has to do: store a
    /// value, activate a field (see `activate_field`), or nothing; `Ignored`
    /// leaves the key to screen-level shortcuts.
    pub fn on_key(&mut self, k: Key, schema: &Schema, texts: &FieldTexts) -> (r: SettingsKey)
        requires
            old(self).wf(),
            texts_fit(*schema, texts@),
            old(self).popup matches Popup::Select(sel, _, _) ==> sel.items@.len() == 0
                || sel.selected < usize::MAX,
            old(self).popup matches Popup::Input(ip, _) ==> (k is Char ==> ip.input.cursor
                < usize::MAX),
            k is Char ==> old(self).filter.cursor < usize::MAX,
        ensures
            final(self).wf(),
            settings_key(
                *old(self),
                *final(self),
                k,
                schema.tabs@.len(),
                settings_filter(*schema, texts@, old(self).tab, old(self).filter.value@),
                r,
            ),
    {
        match self.popup {
            Popup::Select(..) => {
                return self.key_select(k);
            },
            Popup::Input(..) => {
                return self.key_input(k);
            },
            Popup::Closed => {},
        }
        let rows = self.filtered_fields(schema, texts);
        let n_tabs = schema.tabs.len();
        if self.filter_focused() {
            self.key_filter(k, n_tabs, rows.len());
            SettingsKey::Used
        } else {
            self.key_list(k, n_tabs, &rows)
        }
    }

    /// Fits the list into `avail` lines for a frame, given the listed
    /// fields' heights `hs` and section header flags `hd`: the scroll
    /// offset is pulled back to the selection and then moved down until the
    /// selected field is drawn, and the number of fields drawn is recorded
    /// (at least one). Returns the scroll offset and the end of the run of
    /// fields drawn.
    pub fn fit_list(&mut self, hs: &Vec<usize>, hd: &Vec<bool>, avail: usize) -> (r: (usize, usize))
        requires
            hd@.len() == hs@.len(),
        ensures
            (r.0 as int, r.1 as int) == list_frame(
                hs@,
                hd@,
                avail as int,
                old(self).grid@.sel as int,
                old(self).scroll as int,
            ),
            *final(self) == (SettingsView { scroll: r.0, visible: final(self).visible, ..*old(self) }),
            final(self).visible == last_fit(hs@, hd@, avail as int, r.0 as int) - r.0 + 1,
    {
        let n = hs.len();
        let sel = self.grid.list_selected();
        let row = if sel < n.saturating_sub(1) {
            sel
        } else if n >= 1 {
            n - 1
        } else {
            0
        };
        let mut s = if self.scroll < row {
            self.scroll
        } else {
            row
        };
        let s = clamp_scroll(hs, hd, avail, row, s);
        let stop = if s <= n {
            stop_at(hs, hd, avail, s)
        } else {
            s
        };
        let last = if stop <= s {
            s
        } else {
            stop - 1
        };
        self.scroll = s;
        self.visible = last - s + 1;
        (s, stop)
    }

    /// Handles a wheel step (`delta` < 0 up, > 0 down): in a choice popup it moves the choice; otherwise up moves to
    /// the previous field (from the filter box, to the last field; from
    /// the first, to the filter box) and down to the next (from the filter
    /// box, to the first field; from the last, to the filter box).
    pub fn scroll(&mut self, delta: i32, schema: &Schema, texts: &FieldTexts)
        requires
            old(self).wf(),
            texts_fit(*schema, texts@),
            old(self).popup matches Popup::Select(sel, _, _) ==> sel.items@.len() == 0
                || sel.selected < usize::MAX,
        ensures
            final(self).wf(),
            wheel(
                *old(self),
                *final(self),
                delta as int,
                settings_filter(*schema, texts@, old(self).tab, old(self).filter.value@).len() as int,
            ),
    {
        match &mut self.popup {
            Popup::Select(s, _, _) => {
                if delta < 0 {
                    s.up();
                } else {
                    s.down();
                }
                return;
            },
            Popup::Input(..) => {
                return;
            },
            Popup::Closed => {},
        }
        let n = self.filtered_fields(schema, texts).len();
        if n == 0 {
            return;
        }
        if delta < 0 {
            if self.filter_focused() {
                self.grid.set_focus(1, 0);
                self.grid.set_list_selected(n - 1);
                return;
            }
            if self.grid.list_selected() == 0 {
                self.grid.set_focus(0, 0);
                return;
            }
            let s = self.grid.list_selected();
            self.grid.set_list_selected(s - 1);
            return;
        }
        if delta > 0 {
            if self.filter_focused() {
                self.grid.set_focus(1, 0);
                self.grid.set_list_selected(0);
                self.scroll = 0;
                return;
            }
            let s = self.grid.list_selected();
            if s >= n - 1 {
                self.grid.set_focus(0, 0);
                return;
            }
            self.grid.set_list_selected(s + 1);
        }
    }

    /// Switches to tab `t` with the list back at its top.
    fn reset_to_tab(&mut self, t: usize)
        requires
            old(self).wf(),
        ensures
            final(self).wf(),
            list_reset(*old(self), *final(self), t),
    {
        self.tab = t;
        self.grid.set_list_selected(0);
        self.scroll = 0;
    }

    fn click_select(&mut self, col: u16, row: u16, area: Rect) -> (r: SettingsKey)
        requires
            old(self).popup matches Popup::Select(sel, _, _) && sel.items@.len() + 2 <= u16::MAX,
            fits(area, 1),
        ensures
            select_click(*old(self), *final(self), col as int, row as int, area, r),
    {
        let mut close = false;
        let mut store: Option<(String, String)> = None;
        match &mut self.popup {
            Popup::Select(sel, key, values) => {
                let p = sel.popup_rect(area);
                if !p.contains(col, row) {
                    close = true;
                } else {
                    match sel.hit(area, col, row) {
                        Some(idx) => {
                            if idx != sel.selected {
                                sel.selected = idx;
                            } else if idx < values.len() {
                                store = Some((key.clone(), values[idx].clone()));
                                close = true;
                            }
                        },
                        None => {},
                    }
                }
            },
            _ => {},
        }
        if close {
            self.popup = Popup::Closed;
        }
        match store {
            Some((key, value)) => SettingsKey::Store { key, value },
            None => SettingsKey::Used,
        }
    }

    fn click_body(
        &mut self,
        col: u16,
        row: u16,
        area: Rect,
        schema: &Schema,
        texts: &FieldTexts,
        tab_names: &Vec<String>,
        show_tabs: bool,
    ) -> (r: SettingsKey)
        requires
            old(self).wf(),
            old(self).popup is Closed,
            texts_fit(*schema, texts@),
            fits(area, 1),
        ensures
            final(self).wf(),
            body_click(
                *old(self),
                *final(self),
                col as int,
                row as int,
                area,
                *schema,
                texts@,
                widths_of(tab_names@),
                show_tabs,
                r,
            ),
    {
        let mut cs1: Vec<Constraint> = Vec::new();
        cs1.push(Constraint::Length(2));
        cs1.push(Constraint::Min(0));
        assert(cs1@ =~= seq![Constraint::Length(2), Constraint::Min(0)]);
        let v = split(area, true, &cs1);
        assert(piece_of(v@[0], area, true) && piece_of(v@[1], area, true));
        let below = if show_tabs {
            v[1]
        } else {
            area
        };
        let mut cs2: Vec<Constraint> = Vec::new();
        cs2.push(Constraint::Length(3));
        cs2.push(Constraint::Min(0));
        assert(cs2@ =~= seq![Constraint::Length(3), Constraint::Min(0)]);
        let parts = split(below, true, &cs2);
        assert(piece_of(parts@[0], below, true) && piece_of(parts@[1], below, true));
        let r = self.click_body_in(col, row, v[0], parts[0], parts[1], schema, texts, tab_names, show_tabs);
        assert(settings_layout(area, show_tabs, v@, parts@));
        r
    }

    fn click_body_in(
        &mut self,
        col: u16,
        row: u16,
        strip: Rect,
        fb: Rect,
        body: Rect,
        schema: &Schema,
        texts: &FieldTexts,
        tab_names: &Vec<String>,
        show_tabs: bool,
    ) -> (r: SettingsKey)
        requires
            old(self).wf(),
            old(self).popup is Closed,
            texts_fit(*schema, texts@),
            fits(strip, 1),
            fits(fb, 1),
            fits(body, 1),
        ensures
            final(self).wf(),
            body_click_in(
                *old(self),
                *final(self),
                col as int,
                row as int,
                strip,
                fb,
                body,
                *schema,
                texts@,
                widths_of(tab_names@),
                show_tabs,
                r,
            ),
    {
        if show_tabs {
            if row >= strip.y && row - strip.y < strip.height {
                if !self.filter.value.as_str().is_empty() {
                    return SettingsKey::Used;
                }
                let tabs = Tabs { items: tab_names.as_slice(), selected: self.tab, highlighted: None };
                let n = schema.tabs.len();
                match tabs.hit(strip, col) {
                    Some(HitResult::Tab(t)) => {
                        self.reset_to_tab(t);
                    },
                    Some(HitResult::PrevChevron) => {
                        if n > 1 {
                            let t = if self.tab == 0 {
                                n - 1
                            } else {
                                self.tab - 1
                            };
                            self.reset_to_tab(t);
                        }
                    },
                    Some(HitResult::NextChevron) => {
                        if n > 1 {
                            let t = (self.tab % n + 1) % n;
                            self.reset_to_tab(t);
                        }
                    },
                    None => {},
                }
                return SettingsKey::Used;
            }
        }
        if row >= fb.y && row - fb.y < fb.height {
            self.grid.set_focus(0, 0);
            return SettingsKey::Used;
        }
        if row < body.y + 1 {
            return SettingsKey::Used;
        }
        self.grid.set_focus(1, 0);
        let rows = self.filtered_fields(schema, texts);
        proof {
            assert(texts.len() == texts@.len());
            assert forall|t: int| 0 <= t < schema.tabs@.len() implies #[trigger] schema.tabs@[t].fields@.len()
                <= usize::MAX by {
                assert(schema.tabs@[t].fields.len() == schema.tabs@[t].fields@.len());
            }
            lemma_filter_valid(*schema, texts@, self.tab, self.filter.value@);
        }
        let body_w = body.width.saturating_sub(2) as usize;
        let hs = field_heights(&rows, texts, body_w);
        let hd = section_headers(&rows, !self.filter.value.as_str().is_empty());
        let rel = (row - (body.y + 1)) as usize;
        match find_click(&hs, &hd, rel, self.scroll) {
            None => SettingsKey::Used,
            Some(vi) => {
                if vi != self.grid.list_selected() {
                    self.grid.set_list_selected(vi);
                    SettingsKey::Used
                } else {
                    SettingsKey::Activate { tab: rows[vi].0, field: rows[vi].1 }
                }
            },
        }
    }

    /// Handles a mouse event on the view drawn over `area`; `texts` are the
    /// fields' translated names and descriptions and `tab_names` the tabs'
    /// translated names. The result says what the caller has to do, as for
    /// keys.
    pub fn on_mouse(
        &mut self,
        m: Mouse,
        area: Rect,
        schema: &Schema,
        texts: &FieldTexts,
        tab_names: &Vec<String>,
        show_tabs: bool,
    ) -> (r: SettingsKey)
        requires
            old(self).wf(),
            texts_fit(*schema, texts@),
            fits(area, 1),
            old(self).popup matches Popup::Select(sel, _, _) ==> sel.items@.len() + 2 <= u16::MAX,
        ensures
            final(self).wf(),
            settings_click(
                *old(self),
                *final(self),
                m,
                area,
                *schema,
                texts@,
                widths_of(tab_names@),
                show_tabs,
                r,
            ),
    {
        match m.kind {
            MouseKind::LeftDown => {},
            _ => {
                return SettingsKey::Ignored;
            },
        }
        match self.popup {
            Popup::Select(..) => {
                return self.click_select(m.column, m.row, area);
            },
            Popup::Input(..) => {
                let p = center(area, 60, 5);
                if !p.contains(m.column, m.row) {
                    self.popup = Popup::Closed;
                }
                return SettingsKey::Used;
            },
            Popup::Closed => {},
        }
        self.click_body(m.column, m.row, area, schema, texts, tab_names, show_tabs)
    }

    /// Activates field `fld` whose current value is `cur`. `title` is the
    /// field's translated name and `items` the choices' labels; `values`
    /// are the choice values of the language and GPU pickers (a `Choice`
    /// field offers its options' values).
    pub fn activate_field(
        &mut self,
        fld: &Field,
        cur: &ConfigValue,
        title: String,
        items: Vec<String>,
        values: Vec<String>,
    ) -> (r: SettingsKey)
        ensures
            activation(*old(self), *final(self), *fld, *cur, title, items@, values@, r),
    {
        let cur_s: &str = match cur {
            ConfigValue::Str(s) => s.as_str(),
            _ => "",
        };
        proof {
            reveal_strlit("");
        }
        assert(cur_s@ == str_value(*cur));
        match &fld.ty {
            FieldType::Toggle => {
                let b = match cur {
                    ConfigValue::Bool(b) => *b,
                    _ => false,
                };
                return SettingsKey::StoreBool { key: fld.key.clone(), value: !b };
            },
            FieldType::Custom => {
                self.popup = Popup::Input(
                    InputPopup::new(title, cur_s.to_owned()),
                    fld.key.clone(),
                );
                assert(self.popup matches Popup::Input(ip, k2) && k2 == fld.key && ip.title == title);
                assert(self.popup matches Popup::Input(ip, k2) && ip.input.value@ == str_value(*cur));
                return SettingsKey::Used;
            },
            _ => {},
        }
        let vs: Vec<String> = match &fld.ty {
            FieldType::Choice { options } => {
                let mut v: Vec<String> = Vec::new();
                let mut i: usize = 0;
                while i < options.len()
                    invariant
                        i <= options@.len(),
                        v@ == options@.take(i as int).map_values(|o: crate::schema::Choice| o.value),
                    decreases options@.len() - i,
                {
                    v.push(options[i].value.clone());
                    i = i + 1;
                    assert(v@ =~= options@.take(i as int).map_values(
                        |o: crate::schema::Choice| o.value,
                    ));
                }
                assert(options@.take(options@.len() as int) =~= options@);
                v
            },
            _ => values,
        };
        let sel = first_index(&vs, cur_s);
        self.popup = Popup::Select(Select { title, items, selected: sel }, fld.key.clone(), vs);
        SettingsKey::Used
    }
}

/// A click in a choice popup drawn over `area`: outside the popup it
/// closes; on a choice other than the selected one it selects it; on the
/// selected one it stores its value and closes (when the choice has a
/// value).
pub open spec fn select_click(a: SettingsView, b: SettingsView, col: int, row: int, area: Rect, r: SettingsKey) -> bool {
    match a.popup {
        Popup::Select(sel, key, values) => {
            let p = centered(area, 60, select_height(sel.items@.len() as int, area.height as int));
            if !p.holds(col, row) {
                r == SettingsKey::Used && b == (SettingsView { popup: Popup::Closed, ..a })
            } else {
                match select_hit(sel, area, col, row) {
                    Some(i) => if i != sel.selected {
                        r == SettingsKey::Used && b == (SettingsView {
                            popup: Popup::Select(Select { selected: i, ..sel }, key, values),
                            ..a
                        })
                    } else if i < values@.len() {
                        r == (SettingsKey::Store { key, value: values@[i as int] }) && b == (
                        SettingsView { popup: Popup::Closed, ..a })
                    } else {
                        r == SettingsKey::Used && b == a
                    },
                    None => r == SettingsKey::Used && b == a,
                }
            }
        },
        _ => false,
    }
}

/// Whether `v` (the tab strip's two rows, then the rest of `area`) and
/// `parts` (the filter box's three rows, then the field list, split from
/// the part below the strip, or from all of `area` without tabs) can be
/// the view's layout.
pub open spec fn settings_layout(area: Rect, show_tabs: bool, v: Seq<Rect>, parts: Seq<Rect>) -> bool {
    &&& laid_out(v, area, true, seq![Constraint::Length(2), Constraint::Min(0)])
    &&& laid_out(
        parts,
        if show_tabs {
            v[1]
        } else {
            area
        },
        true,
        seq![Constraint::Length(3), Constraint::Min(0)],
    )
}

/// A left click at `(col, row)` on the view drawn over `area` without a
/// popup. On the tab strip (when no search is active) a tab or a chevron
/// switches tabs (the chevrons wrap, with more than one tab); on the filter
/// box it focuses the filter; in the list it focuses the list and, on a
/// field, selects it, or activates it when it was already selected.
pub open spec fn body_click(
    a: SettingsView,
    b: SettingsView,
    col: int,
    row: int,
    area: Rect,
    schema: Schema,
    texts: Seq<Vec<(String, String)>>,
    tab_ws: Seq<usize>,
    show_tabs: bool,
    r: SettingsKey,
) -> bool {
    exists|v: Seq<Rect>, parts: Seq<Rect>|
        #[trigger] settings_layout(area, show_tabs, v, parts) && body_click_in(
            a,
            b,
            col,
            row,
            v[0],
            parts[0],
            parts[1],
            schema,
            texts,
            tab_ws,
            show_tabs,
            r,
        )
}

/// A left click at `(col, row)` on the view laid out as the tab strip
/// `strip`, the filter box `fb` and the field list `body` (see
/// [`body_click`]).
pub open spec fn body_click_in(
    a: SettingsView,
    b: SettingsView,
    col: int,
    row: int,
    strip: Rect,
    fb: Rect,
    body: Rect,
    schema: Schema,
    texts: Seq<Vec<(String, String)>>,
    tab_ws: Seq<usize>,
    show_tabs: bool,
    r: SettingsKey,
) -> bool {
    let n_tabs = schema.tabs@.len();
    if show_tabs && strip.y <= row < strip.y + strip.height {
        r == SettingsKey::Used && if a.filter.value@.len() > 0 {
            b == a
        } else {
            match strip_hit(tab_ws, a.tab as int, strip, col) {
                Some(HitResult::Tab(t)) => list_reset(a, b, t),
                Some(HitResult::PrevChevron) => if n_tabs > 1 {
                    list_reset(a, b, prev_tab(a.tab, n_tabs))
                } else {
                    b == a
                },
                Some(HitResult::NextChevron) => if n_tabs > 1 {
                    list_reset(a, b, next_tab(a.tab, n_tabs))
                } else {
                    b == a
                },
                None => b == a,
            }
        }
    } else {
        if fb.y <= row < fb.y + fb.height {
            r == SettingsKey::Used && b == (SettingsView { grid: b.grid, ..a }) && b.grid@
                == focused_on(a.grid@, 0)
        } else if row < body.y + 1 {
            r == SettingsKey::Used && b == a
        } else {
            let g1 = focused_on(a.grid@, 1);
            let rows = settings_filter(schema, texts, a.tab, a.filter.value@);
            let hs = heights_of(
                rows,
                texts,
                if body.width >= 2 {
                    body.width - 2
                } else {
                    0
                },
            );
            let hd = headers_of(rows, a.filter.value@.len() > 0);
            b == (SettingsView { grid: b.grid, ..a }) && match click_at(
                hs,
                hd,
                row - (body.y + 1),
                a.scroll as int,
                0,
            ) {
                Some(vi) => if vi != g1.sel {
                    r == SettingsKey::Used && b.grid@ == (GridModel { sel: vi, ..g1 })
                } else {
                    b.grid@ == g1 && r == (SettingsKey::Activate {
                        tab: rows[vi as int].0,
                        field: rows[vi as int].1,
                    })
                },
                None => r == SettingsKey::Used && b.grid@ == g1,
            }
        }
    }
}

/// A mouse event on the view drawn over `area` (`tab_ws` are the drawn
/// widths of the tab labels). Only left clicks act: an open popup takes
/// them (a text popup closes on a click outside it), else the view's body.
pub open spec fn settings_click(
    a: SettingsView,
    b: SettingsView,
    m: Mouse,
    area: Rect,
    schema: Schema,
    texts: Seq<Vec<(String, String)>>,
    tab_ws: Seq<usize>,
    show_tabs: bool,
    r: SettingsKey,
) -> bool {
    if m.kind != MouseKind::LeftDown {
        b == a && r == SettingsKey::Ignored
    } else {
        match a.popup {
            Popup::Select(..) => select_click(a, b, m.column as int, m.row as int, area, r),
            Popup::Input(..) => r == SettingsKey::Used && b == if centered(area, 60, 5).holds(
                m.column as int,
                m.row as int,
            ) {
                a
            } else {
                SettingsView { popup: Popup::Closed, ..a }
            },
            Popup::Closed => body_click(
                a,
                b,
                m.column as int,
                m.row as int,
                area,
                schema,
                texts,
                tab_ws,
                show_tabs,
                r,
            ),
        }
    }
}

/// Every field of tab `t` lies in it.
proof fn lemma_tab_fields(t: usize, n: nat)
    requires
        n <= usize::MAX,
    ensures
        tab_fields(t, n).len() == n,
        forall|i: int| 0 <= i < n ==> #[trigger] tab_fields(t, n)[i] == (t, i as usize),
    decreases n,
{
    if n > 0 {
        lemma_tab_fields(t, (n - 1) as nat);
    }
}

/// Matches within one tab name that tab and one of its fields.
proof fn lemma_matches_in(row: Seq<(String, String)>, t: int, q: Seq<char>)
    requires
        0 <= t <= usize::MAX,
        row.len() <= usize::MAX,
    ensures
        forall|i: int|
            #![trigger matches_in(row, t, q)[i]]
            0 <= i < matches_in(row, t, q).len() ==> matches_in(row, t, q)[i].0 == t
                && matches_in(row, t, q)[i].1 < row.len(),
    decreases row.len(),
{
    if row.len() > 0 {
        let p = matches_in(row.drop_last(), t, q);
        lemma_matches_in(row.drop_last(), t, q);
        assert forall|i: int| 0 <= i < matches_in(row, t, q).len() implies #[trigger] matches_in(
            row,
            t,
            q,
        )[i].0 == t && matches_in(row, t, q)[i].1 < row.len() by {
            if i < p.len() {
                assert(matches_in(row, t, q)[i] == p[i]);
                assert(p[i].0 == t && p[i].1 < row.len() - 1);
            } else {
                assert(matches_in(row, t, q)[i] == (t as usize, (row.len() - 1) as usize));
            }
        }
    }
}

/// Matches across tabs name an existing tab and one of its fields.
proof fn lemma_matches_all(texts: Seq<Vec<(String, String)>>, q: Seq<char>)
    requires
        texts.len() <= usize::MAX,
    ensures
        forall|i: int|
            0 <= i < matches_all(texts, q).len() ==> #[trigger] matches_all(texts, q)[i].0
                < texts.len() && matches_all(texts, q)[i].1 < texts[matches_all(texts, q)[i].0 as int]@.len(),
    decreases texts.len(),
{
    if texts.len() > 0 {
        let p = texts.drop_last();
        lemma_matches_all(p, q);
        let v = texts.last();
        assert(v.len() == v@.len());
        lemma_matches_in(v@, texts.len() - 1, q);
        let m = matches_in(v@, texts.len() - 1, q);
        let pm = matches_all(p, q);
        assert forall|i: int| 0 <= i < matches_all(texts, q).len() implies #[trigger] matches_all(
            texts,
            q,
        )[i].0 < texts.len() && matches_all(texts, q)[i].1 < texts[matches_all(
            texts,
            q,
        )[i].0 as int]@.len() by {
            if i < pm.len() {
                assert(matches_all(texts, q)[i] == pm[i]);
                assert(p[pm[i].0 as int] == texts[pm[i].0 as int]);
            } else {
                assert(matches_all(texts, q)[i] == m[i - pm.len()]);
            }
        }
    }
}

/// The listed fields name existing tabs and fields.
pub proof fn lemma_filter_valid(schema: Schema, texts: Seq<Vec<(String, String)>>, tab: usize, q: Seq<char>)
    requires
        texts_fit(schema, texts),
        texts.len() <= usize::MAX,
        forall|t: int| 0 <= t < schema.tabs@.len() ==> #[trigger] schema.tabs@[t].fields@.len() <= usize::MAX,
    ensures
        forall|i: int|
            0 <= i < settings_filter(schema, texts, tab, q).len() ==> #[trigger] settings_filter(
                schema,
                texts,
                tab,
                q,
            )[i].0 < texts.len() && settings_filter(schema, texts, tab, q)[i].1 < texts[settings_filter(
                schema,
                texts,
                tab,
                q,
            )[i].0 as int]@.len(),
{
    if lowercase_of(q).len() == 0 {
        if tab < schema.tabs@.len() {
            lemma_tab_fields(tab, schema.tabs@[tab as int].fields@.len());
            assert(texts[tab as int]@.len() == schema.tabs@[tab as int].fields@.len());
        }
    } else {
        lemma_matches_all(texts, q);
    }
}

/// Lines of the pieces `chunks`, each word-wrapped to `w` cells.
pub open spec fn wrap_all(chunks: Seq<Seq<char>>, w: nat) -> Seq<Seq<char>>
    decreases chunks.len(),
{
    if chunks.len() == 0 {
        Seq::empty()
    } else {
        wrap_all(chunks.drop_last(), w) + wrapped(chunks.last(), w)
    }
}

/// Cells a description line may take in a body `body_w` cells wide: all
/// but a four-cell indent, at least one.
pub open spec fn desc_width(body_w: int) -> nat {
    if body_w >= 5 {
        (body_w - 4) as nat
    } else {
        1
    }
}

/// A description's lines: each line-break-separated piece word-wrapped to
/// the description width; at least one line.
pub open spec fn desc_lines(desc: Seq<char>, body_w: int) -> Seq<Seq<char>> {
    let out = wrap_all(split_on(desc, '\n'), desc_width(body_w));
    if out.len() == 0 {
        seq![Seq::<char>::empty()]
    } else {
        out
    }
}

/// Lines a field takes: its title line and its description's lines.
pub open spec fn height_of(desc: Seq<char>, body_w: int) -> usize {
    let n = desc_lines(desc, body_w).len();
    if n < usize::MAX {
        (n + 1) as usize
    } else {
        usize::MAX
    }
}

/// Heights of the listed fields `rows`, their descriptions taken from
/// `texts`.
pub open spec fn heights_of(
    rows: Seq<(usize, usize)>,
    texts: Seq<Vec<(String, String)>>,
    body_w: int,
) -> Seq<usize> {
    rows.map_values(|rf: (usize, usize)| height_of(texts[rf.0 as int]@[rf.1 as int].1@, body_w))
}

/// Which listed fields open a section: during a search, the first field
/// and each field from another tab than the one before it.
pub open spec fn headers_of(rows: Seq<(usize, usize)>, searching: bool) -> Seq<bool> {
    Seq::new(rows.len(), |i: int| searching && (i == 0 || rows[i].0 != rows[i - 1].0))
}

/// Lines taken by fields `s..e`, a section header counting one line.
pub open spec fn lines_used(hs: Seq<usize>, hd: Seq<bool>, s: int, e: int) -> int
    decreases e - s,
{
    if e <= s {
        0
    } else {
        lines_used(hs, hd, s, e - 1) + hs[e - 1] + if hd[e - 1] {
            1int
        } else {
            0
        }
    }
}

/// From field `i` on, the first field that no longer fits in `avail` lines
/// after the fields from `s`; the number of fields when all fit.
pub open spec fn first_over(hs: Seq<usize>, hd: Seq<bool>, avail: int, s: int, i: int) -> int
    decreases hs.len() - i,
{
    if i >= hs.len() {
        hs.len() as int
    } else if lines_used(hs, hd, s, i + 1) > avail {
        i
    } else {
        first_over(hs, hd, avail, s, i + 1)
    }
}

/// The last field drawn from `s` on (`s` itself when none fits).
pub open spec fn last_fit(hs: Seq<usize>, hd: Seq<bool>, avail: int, s: int) -> int {
    let stop = first_over(hs, hd, avail, s, s);
    if stop <= s {
        s
    } else {
        stop - 1
    }
}

/// The scroll offset from `s` on: the first at which the selected field
/// `row` is drawn, or `row` itself.
pub open spec fn clamp_from(hs: Seq<usize>, hd: Seq<bool>, avail: int, row: int, s: int) -> int
    decreases row - s,
{
    if s >= row || row <= last_fit(hs, hd, avail, s) {
        s
    } else {
        clamp_from(hs, hd, avail, row, s + 1)
    }
}

/// The list's frame for fields of heights `hs` and section headers `hd` in
/// `avail` lines, selection `sel` and previous scroll `scroll`: the new
/// scroll (no later than the selection, moved down until the selection is
/// drawn) and the end of the run of fields drawn from it.
pub open spec fn list_frame(hs: Seq<usize>, hd: Seq<bool>, avail: int, sel: int, scroll: int) -> (
    int,
    int,
) {
    let n = hs.len() as int;
    let row = if sel < n - 1 {
        sel
    } else if n >= 1 {
        n - 1
    } else {
        0
    };
    let s0 = if scroll < row {
        scroll
    } else {
        row
    };
    let s = clamp_from(hs, hd, avail, row, s0);
    (s, first_over(hs, hd, avail, s, s))
}

/// Scanning fields from `i` with `used` lines above, the field whose lines
/// hold line `rel` of the list; `None` past the end or on a section header.
pub open spec fn click_at(hs: Seq<usize>, hd: Seq<bool>, rel: int, i: int, used: int) -> Option<usize>
    decreases hs.len() - i,
{
    if i < 0 || i >= hs.len() {
        None
    } else if hd[i] && rel < used + 1 {
        None
    } else {
        let u1 = used + if hd[i] {
            1int
        } else {
            0
        };
        if rel < u1 + hs[i] {
            Some(i as usize)
        } else {
            click_at(hs, hd, rel, i + 1, u1 + hs[i])
        }
    }
}

/// Lines used grow with their end.
proof fn lemma_lines_mono(hs: Seq<usize>, hd: Seq<bool>, s: int, e1: int, e2: int)
    requires
        s <= e1 <= e2,
    ensures
        lines_used(hs, hd, s, e1) <= lines_used(hs, hd, s, e2),
    decreases e2 - e1,
{
    if e1 < e2 {
        lemma_lines_mono(hs, hd, s, e1, e2 - 1);
    }
}

/// Lines of a description: each line-break-separated piece of `desc`
/// word-wrapped to the body width less a four-cell indent; at least one
/// line.
pub fn wrap_desc(desc: &str, body_width: usize) -> (r: Vec<String>)
    ensures
        r@.map_values(|x: String| x@) == desc_lines(desc@, body_width as int),
        r@.len() >= 1,
{
    let avail: usize = if body_width >= 5 {
        body_width - 4
    } else {
        1
    };
    let chunks = split_chars(&chars_of(desc), '\n');
    let ghost cs = chunks@.map_values(|x: Vec<char>| x@);
    let mut out: Vec<String> = Vec::new();
    let mut i: usize = 0;
    assert(cs.take(0) =~= Seq::<Seq<char>>::empty());
    while i < chunks.len()
        invariant
            i <= chunks@.len() == cs.len(),
            cs == chunks@.map_values(|x: Vec<char>| x@),
            avail == desc_width(body_width as int),
            out@.map_values(|x: String| x@) == wrap_all(cs.take(i as int), avail as nat),
        decreases chunks@.len() - i,
    {
        let piece = string_of(&chunks[i]);
        let lines = wrap_to_width(piece.as_str(), avail);
        let ghost before = out@.map_values(|x: String| x@);
        let mut j: usize = 0;
        while j < lines.len()
            invariant
                j <= lines@.len(),
                out@.map_values(|x: String| x@) == before + lines@.map_values(|x: String| x@).take(
                    j as int,
                ),
            decreases lines@.len() - j,
        {
            let l = lines[j].clone();
            assert(l@ == lines@.map_values(|x: String| x@)[j as int]);
            let ghost prev = out@.map_values(|x: String| x@);
            out.push(l);
            assert(out@.map_values(|x: String| x@) =~= prev.push(l@));
            assert(lines@.map_values(|x: String| x@).take(j + 1) =~= lines@.map_values(
                |x: String| x@,
            ).take(j as int).push(l@));
            j = j + 1;
            assert(out@.map_values(|x: String| x@) =~= before + lines@.map_values(|x: String| x@).take(
                j as int,
            ));
        }
        assert(lines@.map_values(|x: String| x@).take(lines@.len() as int) =~= lines@.map_values(
            |x: String| x@,
        ));
        assert(cs.take(i + 1).drop_last() =~= cs.take(i as int));
        i = i + 1;
    }
    assert(cs.take(cs.len() as int) =~= cs);
    if out.len() == 0 {
        out.push(String::new());
        assert(out@.map_values(|x: String| x@) =~= seq![Seq::<char>::empty()]);
    }
    out
}

/// Lines a field takes in the list: one title line and its description's
/// lines.
pub fn field_height(desc: &str, body_width: usize) -> (h: usize)
    ensures
        h == height_of(desc@, body_width as int),
{
    let r = wrap_desc(desc, body_width);
    assert(r@.map_values(|x: String| x@).len() == r@.len());
    r.len().saturating_add(1)
}

/// The heights of the listed fields `rows` in a body `body_w` cells wide.
pub fn field_heights(rows: &Vec<(usize, usize)>, texts: &FieldTexts, body_w: usize) -> (hs: Vec<usize>)
    requires
        forall|i: int|
            0 <= i < rows@.len() ==> #[trigger] rows@[i].0 < texts@.len() && rows@[i].1
                < texts@[rows@[i].0 as int]@.len(),
    ensures
        hs@ == heights_of(rows@, texts@, body_w as int),
{
    let mut hs: Vec<usize> = Vec::new();
    let mut i: usize = 0;
    while i < rows.len()
        invariant
            i <= rows@.len(),
            forall|k: int|
                0 <= k < rows@.len() ==> #[trigger] rows@[k].0 < texts@.len() && rows@[k].1
                    < texts@[rows@[k].0 as int]@.len(),
            hs@ == heights_of(rows@.take(i as int), texts@, body_w as int),
        decreases rows@.len() - i,
    {
        let (t, f) = rows[i];
        assert(rows@[i as int].0 < texts@.len());
        let h = field_height(texts[t][f].1.as_str(), body_w);
        hs.push(h);
        i = i + 1;
        assert(hs@ =~= heights_of(rows@.take(i as int), texts@, body_w as int));
    }
    assert(rows@.take(rows@.len() as int) =~= rows@);
    hs
}

/// Section header flags of the listed fields `rows`.
pub fn section_headers(rows: &Vec<(usize, usize)>, searching: bool) -> (hd: Vec<bool>)
    ensures
        hd@ == headers_of(rows@, searching),
{
    let mut hd: Vec<bool> = Vec::new();
    let mut i: usize = 0;
    while i < rows.len()
        invariant
            i <= rows@.len(),
            hd@ == headers_of(rows@, searching).take(i as int),
        decreases rows@.len() - i,
    {
        let b = searching && (i == 0 || rows[i].0 != rows[i - 1].0);
        hd.push(b);
        i = i + 1;
        assert(hd@ =~= headers_of(rows@, searching).take(i as int));
    }
    assert(headers_of(rows@, searching).take(rows@.len() as int) =~= headers_of(rows@, searching));
    hd
}

/// The first scroll offset from `s` on at which field `row` is drawn, or
/// `row` itself.
fn clamp_scroll(hs: &Vec<usize>, hd: &Vec<bool>, avail: usize, row: usize, s: usize) -> (r: usize)
    requires
        hd@.len() == hs@.len(),
        s <= row,
        row < hs@.len() || row == 0,
    ensures
        r == clamp_from(hs@, hd@, avail as int, row as int, s as int),
        r <= row,
{
    let mut cur = s;
    while cur < row
        invariant
            s <= cur <= row,
            row < hs@.len() || row == 0,
            hd@.len() == hs@.len(),
            clamp_from(hs@, hd@, avail as int, row as int, s as int) == clamp_from(
                hs@,
                hd@,
                avail as int,
                row as int,
                cur as int,
            ),
        decreases row - cur,
    {
        let stop = stop_at(hs, hd, avail, cur);
        let last = if stop <= cur {
            cur
        } else {
            stop - 1
        };
        if row <= last {
            assert(clamp_from(hs@, hd@, avail as int, row as int, cur as int) == cur as int);
            return cur;
        }
        cur = cur + 1;
    }
    cur
}

/// The field under line `rel` of the list, scanning from field `start`.
fn find_click(hs: &Vec<usize>, hd: &Vec<bool>, rel: usize, start: usize) -> (r: Option<usize>)
    requires
        hd@.len() == hs@.len(),
    ensures
        r == click_at(hs@, hd@, rel as int, start as int, 0),
        r matches Some(i) ==> i < hs@.len(),
{
    let n = hs.len();
    let mut used: usize = 0;
    let mut i: usize = start;
    while i < n
        invariant
            n == hs@.len() == hd@.len(),
            start <= i,
            used <= rel,
            click_at(hs@, hd@, rel as int, start as int, 0) == click_at(
                hs@,
                hd@,
                rel as int,
                i as int,
                used as int,
            ),
        decreases n - i,
    {
        if hd[i] {
            if rel <= used {
                return None;
            }
            used = used + 1;
        }
        if rel - used < hs[i] {
            return Some(i);
        }
        used = used + hs[i];
        i = i + 1;
    }
    None
}

/// The first field from `s` on that no longer fits in `avail` lines.
fn stop_at(hs: &Vec<usize>, hd: &Vec<bool>, avail: usize, s: usize) -> (i: usize)
    requires
        hd@.len() == hs@.len(),
        s <= hs@.len(),
    ensures
        i == first_over(hs@, hd@, avail as int, s as int, s as int),
        s <= i <= hs@.len(),
{
    let n = hs.len();
    let mut used: usize = 0;
    let mut i: usize = s;
    while i < n
        invariant
            s <= i <= n == hs@.len() == hd@.len(),
            used == lines_used(hs@, hd@, s as int, i as int),
            used <= avail,
            first_over(hs@, hd@, avail as int, s as int, s as int) == first_over(
                hs@,
                hd@,
                avail as int,
                s as int,
                i as int,
            ),
        decreases n - i,
    {
        let extra: usize = if hd[i] {
            1
        } else {
            0
        };
        if hs[i] > avail - used || extra > avail - used - hs[i] {
            return i;
        }
        used = used + hs[i] + extra;
        i = i + 1;
    }
    i
}

/// The first position of `s` in `vs`, or 0 when it does not occur.
fn first_index(vs: &Vec<String>, s: &str) -> (i: usize)
    ensures
        first_pos(vs@, s@, i),
{
    let mut i: usize = 0;
    while i < vs.len()
        invariant
            i <= vs@.len(),
            forall|j: int| 0 <= j < i ==> #[trigger] vs@[j]@ != s@,
        decreases vs@.len() - i,
    {
        if chars_eq(&chars_of(vs[i].as_str()), &chars_of(s)) {
            assert(vs@[i as int]@ == s@);
            return i;
        }
        i = i + 1;
    }
    0
}

/// Whether field `(t, f)` matches the search `q`: its translated name or
/// description contains `q`, ignoring case.
pub open spec fn field_matches(texts: Seq<Vec<(String, String)>>, t: int, f: int, q: Seq<char>) -> bool {
    has_sub(lowercase_of(texts[t]@[f].0@), lowercase_of(q)) || has_sub(
        lowercase_of(texts[t]@[f].1@),
        lowercase_of(q),
    )
}

proof fn lemma_matches_in_exact(row: Seq<(String, String)>, t: int, q: Seq<char>, f: int)
    requires
        0 <= t <= usize::MAX,
        row.len() <= usize::MAX,
        0 <= f < row.len(),
    ensures
        matches_in(row, t, q).contains((t as usize, f as usize)) <==> (has_sub(
            lowercase_of(row[f].0@),
            lowercase_of(q),
        ) || has_sub(lowercase_of(row[f].1@), lowercase_of(q))),
    decreases row.len(),
{
    lemma_matches_in(row, t, q);
    let p = matches_in(row.drop_last(), t, q);
    lemma_matches_in(row.drop_last(), t, q);
    if f < row.len() - 1 {
        lemma_matches_in_exact(row.drop_last(), t, q, f);
        assert(row.drop_last()[f] == row[f]);
        if matches_in(row, t, q).contains((t as usize, f as usize)) {
            let k = choose|k: int| 0 <= k < matches_in(row, t, q).len() && matches_in(row, t, q)[k] == (
            t as usize, f as usize);
            if k >= p.len() {
                assert(matches_in(row, t, q)[k].1 == (row.len() - 1) as usize);
            } else {
                assert(p[k] == matches_in(row, t, q)[k]);
            }
        }
        if p.contains((t as usize, f as usize)) {
            let k = choose|k: int| 0 <= k < p.len() && p[k] == (t as usize, f as usize);
            assert(matches_in(row, t, q)[k] == p[k]);
        }
    } else {
        if matches_in(row, t, q).contains((t as usize, f as usize)) {
            let k = choose|k: int| 0 <= k < matches_in(row, t, q).len() && matches_in(row, t, q)[k] == (
            t as usize, f as usize);
            if k < p.len() {
                assert(p[k] == matches_in(row, t, q)[k]);
                assert(p[k].1 < row.len() - 1);
            }
        }
        let m = matches_in(row, t, q);
        if has_sub(lowercase_of(row[f].0@), lowercase_of(q)) || has_sub(lowercase_of(row[f].1@), lowercase_of(q)) {
            assert(m[p.len() as int] == (t as usize, f as usize));
        }
    }
}

/// A search lists exactly the fields that match it: with a non-empty
/// search, field `f` of tab `t` is listed if and only if its translated
/// name or description contains the search, ignoring case.
pub proof fn law_search_lists_exact_matches(
    schema: Schema,
    texts: Seq<Vec<(String, String)>>,
    tab: usize,
    q: Seq<char>,
    t: int,
    f: int,
)
    requires
        texts_fit(schema, texts),
        texts.len() <= usize::MAX,
        lowercase_of(q).len() > 0,
        0 <= t < texts.len(),
        0 <= f < texts[t]@.len(),
    ensures
        settings_filter(schema, texts, tab, q).contains((t as usize, f as usize)) <==> field_matches(
            texts,
            t,
            f,
            q,
        ),
    decreases texts.len(),
{
    lemma_search_exact(texts, q, t, f);
}

#[verifier::spinoff_prover]
#[verifier::rlimit(40)]
proof fn lemma_search_exact(texts: Seq<Vec<(String, String)>>, q: Seq<char>, t: int, f: int)
    requires
        texts.len() <= usize::MAX,
        0 <= t < texts.len(),
        0 <= f < texts[t]@.len(),
    ensures
        matches_all(texts, q).contains((t as usize, f as usize)) <==> field_matches(texts, t, f, q),
    decreases texts.len(),
{
    let p = texts.drop_last();
    let last = texts.last();
    assert(last.len() == last@.len());
    let m = matches_in(last@, texts.len() - 1, q);
    lemma_matches_in(last@, texts.len() - 1, q);
    let all = matches_all(texts, q);
    let pm = matches_all(p, q);
    lemma_matches_all(p, q);
    if t < texts.len() - 1 {
        assert(p[t] == texts[t]);
        lemma_search_exact(p, q, t, f);
        if all.contains((t as usize, f as usize)) {
            let k = choose|k: int| 0 <= k < all.len() && all[k] == (t as usize, f as usize);
            if k >= pm.len() {
                assert(all[k] == m[k - pm.len()]);
                assert(m[k - pm.len()].0 == texts.len() - 1);
            } else {
                assert(all[k] == pm[k]);
            }
        }
        if pm.contains((t as usize, f as usize)) {
            let k = choose|k: int| 0 <= k < pm.len() && pm[k] == (t as usize, f as usize);
            assert(all[k] == pm[k]);
        }
    } else {
        assert(texts[t] == last);
        let tt = if t < texts.len() - 1 { t } else { texts.len() - 1 };
        assert(tt == t);
        assert(f < last@.len());
        assert(last@.len() <= usize::MAX);
        lemma_matches_in_exact(last@, t, q, f);
        if all.contains((t as usize, f as usize)) {
            let k = choose|k: int| 0 <= k < all.len() && all[k] == (t as usize, f as usize);
            if k < pm.len() {
                assert(all[k] == pm[k]);
                assert(pm[k].0 < p.len());
            } else {
                assert(all[k] == m[k - pm.len()]);
            }
        }
        if m.contains((t as usize, f as usize)) {
            let k = choose|k: int| 0 <= k < m.len() && m[k] == (t as usize, f as usize);
            assert(all[pm.len() + k] == m[k]);
        }
    }
}

/// Switching tabs right and then left (with no search active and more
/// than one tab) comes back to the tab one started on, with the list back
/// at its top.
pub proof fn law_tab_right_then_left(a: SettingsView, b: SettingsView, c: SettingsView, n_tabs: nat)
    requires
        a.filter.value@.len() == 0,
        1 < n_tabs <= usize::MAX,
        a.tab < n_tabs,
        tab_switch(a, b, n_tabs, true),
        tab_switch(b, c, n_tabs, false),
    ensures
        c.tab == a.tab,
        c.scroll == 0,
        c.grid@.sel == 0,
        c.filter == a.filter && c.popup == a.popup && c.saved_tab == a.saved_tab,
{
    assert((a.tab as int) % (n_tabs as int) == a.tab) by {
        vstd::arithmetic::div_mod::lemma_small_mod(a.tab as nat, n_tabs);
    }
    assert(b.filter == a.filter);
    if a.tab + 1 < n_tabs {
        vstd::arithmetic::div_mod::lemma_small_mod((a.tab + 1) as nat, n_tabs);
        assert(((a.tab as int) % (n_tabs as int) + 1) % (n_tabs as int) == a.tab + 1);
        assert(next_tab(a.tab, n_tabs) == a.tab + 1);
        assert(b.tab == a.tab + 1);
    } else {
        vstd::arithmetic::div_mod::lemma_mod_self_0(n_tabs as int);
        assert(((a.tab as int) % (n_tabs as int) + 1) % (n_tabs as int) == 0);
        assert(next_tab(a.tab, n_tabs) == 0);
        assert(b.tab == 0);
    }
}

/// Starting a search in the filter box remembers the tab, and emptying the
/// box again brings that tab back: typing a character into an empty
/// filter and then deleting it with Backspace leaves the view on the tab
/// it started on, with no search and nothing remembered.
pub proof fn law_search_restores_tab(
    a: SettingsView,
    b: SettingsView,
    c: SettingsView,
    ch: char,
    n_tabs: nat,
    rows1: Seq<(usize, usize)>,
    rows2: Seq<(usize, usize)>,
    r1: SettingsKey,
    r2: SettingsKey,
)
    requires
        a.popup is Closed,
        a.grid@.row == 0,
        a.filter.value@.len() == 0,
        a.filter.cursor == 0,
        settings_key(a, b, Key::Char(ch), n_tabs, rows1, r1),
        b.grid@.row == 0,
        settings_key(b, c, Key::Backspace, n_tabs, rows2, r2),
    ensures
        c.tab == a.tab,
        c.saved_tab is None,
        c.filter.value@.len() == 0,
        c.popup is Closed,
{
    assert(b.filter.value@ =~= seq![ch]);
    assert(b.saved_tab == Some(a.tab));
    assert(c.filter.value@ =~= Seq::<char>::empty());
}

/// Clearing a search with Esc brings back the tab the search started
/// from: typing a character into an empty filter, moving to the list with
/// Tab, and pressing Esc there leaves the view on its first tab, with no
/// search.
pub proof fn law_esc_restores_tab(
    a: SettingsView,
    b: SettingsView,
    c: SettingsView,
    d: SettingsView,
    ch: char,
    n_tabs: nat,
    rows1: Seq<(usize, usize)>,
    rows2: Seq<(usize, usize)>,
    r1: SettingsKey,
    r2: SettingsKey,
    used: bool,
)
    requires
        a.popup is Closed,
        a.grid@.row == 0,
        a.grid@.rows == settings_rows(),
        a.filter.value@.len() == 0,
        a.filter.cursor == 0,
        settings_key(a, b, Key::Char(ch), n_tabs, rows1, r1),
        settings_key(b, c, Key::Tab, n_tabs, rows2, r2),
        esc_key(c, d, used),
    ensures
        used,
        d.tab == a.tab,
        d.saved_tab is None,
        d.filter.value@.len() == 0,
{
    assert(b.filter.value@ =~= seq![ch]);
    assert(c.grid@.row == 1);
}

} // verus!
