//! ComfyUI settings editor screen.
//!
//! A thin layer over `SettingsView` driven by the ComfyUI schema: values
//! are read from the stored overrides (falling back to the schema
//! defaults), edits are stored back, and `R` resets every value to its
//! factory default.

use crate::app::FlashKind;
use crate::config::Config;
use crate::geom::{fits, Key, Mouse, Rect};
use crate::schema::{setting_get, value_view, ConfigValue, Field, Schema, Tab, ValueView};
use crate::screens::settings_view::{
    esc_key,
    activation, settings_click, settings_filter, settings_key, texts_fit, wheel, FieldTexts, Popup,
    SettingsKey, SettingsView,
};
use crate::strs::chars_eq;
use crate::strs::chars_of;
use crate::widgets::tabs::widths_of;
use vstd::prelude::*;

verus! {

/// What an input on a settings screen asks of the application shell.
pub enum ScreenStep {
    /// Nothing more to do.
    Nothing,
    /// The configuration changed: persist it.
    Changed,
    /// Activate this field (see the screen's `activate`), giving it its
    /// translated name and choices.
    Activate {
        /// Tab index.
        tab: usize,
        /// Field index within the tab.
        field: usize,
    },
    /// The input was not used.
    Ignored,
}

/// Every field of the tabs `ts`, tab by tab.
pub open spec fn all_fields(ts: Seq<Tab>) -> Seq<Field>
    decreases ts.len(),
{
    if ts.len() == 0 {
        Seq::empty()
    } else {
        all_fields(ts.drop_last()) + ts.last().fields@
    }
}

/// The default of the first field of `fs` with key `key`.
pub open spec fn default_in(fs: Seq<Field>, key: Seq<char>) -> Option<ConfigValue>
    decreases fs.len(),
{
    if fs.len() == 0 {
        None
    } else if fs[0].key@ == key {
        Some(fs[0].default)
    } else {
        default_in(fs.drop_first(), key)
    }
}

/// The value a ComfyUI setting shows: the stored override, else the
/// schema's default, else the empty string.
pub open spec fn comfy_value(cfg: Config, schema: Schema, key: Seq<char>) -> ValueView {
    match setting_get(cfg.comfy_settings@, key) {
        Some(v) => value_view(v),
        None => match default_in(all_fields(schema.tabs@), key) {
            Some(d) => value_view(d),
            None => ValueView::Str(Seq::empty()),
        },
    }
}

/// `b` is `a` with `v` stored for `key` and nothing else changed.
pub open spec fn stored(a: Config, b: Config, key: Seq<char>, v: ConfigValue) -> bool {
    &&& setting_get(b.comfy_settings@, key) == Some(v)
    &&& forall|k: Seq<char>|
        k != key ==> #[trigger] setting_get(b.comfy_settings@, k) == setting_get(
            a.comfy_settings@,
            k,
        )
    &&& b.general == a.general && b.network == a.network && b.path == a.path
}

/// What the view's answer `rv` makes of the configuration: a stored value
/// is written into the overrides; an activation is passed on.
pub open spec fn comfy_effect(a: Config, b: Config, rv: SettingsKey, r: ScreenStep) -> bool {
    match rv {
        SettingsKey::Store { key, value } => r == ScreenStep::Changed && stored(
            a,
            b,
            key@,
            ConfigValue::Str(value),
        ),
        SettingsKey::StoreBool { key, value } => r == ScreenStep::Changed && stored(
            a,
            b,
            key@,
            ConfigValue::Bool(value),
        ),
        SettingsKey::Activate { tab, field } => r == (ScreenStep::Activate { tab, field }) && b
            == a,
        SettingsKey::Used => r == ScreenStep::Nothing && b == a,
        SettingsKey::Ignored => r == ScreenStep::Ignored && b == a,
    }
}

/// Looking up a key in two runs of fields: the first run answers when it
/// can.
proof fn lemma_default_concat(a: Seq<Field>, b: Seq<Field>, key: Seq<char>)
    ensures
        default_in(a + b, key) == match default_in(a, key) {
            Some(d) => Some(d),
            None => default_in(b, key),
        },
    decreases a.len(),
{
    if a.len() > 0 {
        assert((a + b)[0] == a[0]);
        assert((a + b).drop_first() =~= a.drop_first() + b);
        lemma_default_concat(a.drop_first(), b, key);
    } else {
        assert(a + b =~= b);
    }
}

/// The default of the first field with key `key`.
fn find_default(schema: &Schema, key: &String) -> (r: Option<ConfigValue>)
    ensures
        match r {
            Some(d) => default_in(all_fields(schema.tabs@), key@) matches Some(e) && value_view(d)
                == value_view(e),
            None => default_in(all_fields(schema.tabs@), key@) is None,
        },
{
    let kc = chars_of(key.as_str());
    let nt = schema.tabs.len();
    let mut t: usize = 0;
    assert(schema.tabs@.take(0) =~= Seq::<Tab>::empty());
    while t < nt
        invariant
            t <= nt == schema.tabs@.len(),
            kc@ == key@,
            default_in(all_fields(schema.tabs@.take(t as int)), key@) is None,
        decreases nt - t,
    {
        let fs = &schema.tabs[t].fields;
        let mut f: usize = 0;
        while f < fs.len()
            invariant
                f <= fs@.len(),
                fs == schema.tabs@[t as int].fields,
                t < nt == schema.tabs@.len(),
                kc@ == key@,
                default_in(all_fields(schema.tabs@.take(t as int)), key@) is None,
                forall|j: int| 0 <= j < f ==> #[trigger] fs@[j].key@ != key@,
            decreases fs@.len() - f,
        {
            if chars_eq(&chars_of(fs[f].key.as_str()), &kc) {
                let d = fs[f].default.copy();
                proof {
                    let pre = all_fields(schema.tabs@.take(t as int));
                    assert(schema.tabs@.take(t + 1).drop_last() =~= schema.tabs@.take(t as int));
                    lemma_default_concat(pre, fs@, key@);
                    lemma_first_hit(fs@, f as int, key@);
                    lemma_all_fields_prefix(schema.tabs@, t as int, key@);
                }
                return Some(d);
            }
            f = f + 1;
        }
        proof {
            let pre = all_fields(schema.tabs@.take(t as int));
            assert(schema.tabs@.take(t + 1).drop_last() =~= schema.tabs@.take(t as int));
            assert(schema.tabs@.take(t + 1).last() == schema.tabs@[t as int]);
            lemma_default_concat(pre, fs@, key@);
            lemma_no_hit(fs@, key@);
        }
        t = t + 1;
    }
    assert(schema.tabs@.take(nt as int) =~= schema.tabs@);
    None
}

/// The first field with key `key` at `f` answers the lookup.
proof fn lemma_first_hit(fs: Seq<Field>, f: int, key: Seq<char>)
    requires
        0 <= f < fs.len(),
        fs[f].key@ == key,
        forall|j: int| 0 <= j < f ==> #[trigger] fs[j].key@ != key,
    ensures
        default_in(fs, key) == Some(fs[f].default),
    decreases f,
{
    if f > 0 {
        assert forall|j: int| 0 <= j < f - 1 implies #[trigger] fs.drop_first()[j].key@ != key by {
            assert(fs.drop_first()[j] == fs[j + 1]);
        }
        lemma_first_hit(fs.drop_first(), f - 1, key);
    }
}

/// No field with key `key`, no answer.
proof fn lemma_no_hit(fs: Seq<Field>, key: Seq<char>)
    requires
        forall|j: int| 0 <= j < fs.len() ==> #[trigger] fs[j].key@ != key,
    ensures
        default_in(fs, key) is None,
    decreases fs.len(),
{
    if fs.len() > 0 {
        assert forall|j: int| 0 <= j < fs.len() - 1 implies #[trigger] fs.drop_first()[j].key@
            != key by {
            assert(fs.drop_first()[j] == fs[j + 1]);
        }
        lemma_no_hit(fs.drop_first(), key);
    }
}

/// An answer found in the first tabs stays the answer over all of them.
proof fn lemma_all_fields_prefix(ts: Seq<Tab>, t: int, key: Seq<char>)
    requires
        0 <= t < ts.len(),
        default_in(all_fields(ts.take(t + 1)), key) is Some,
    ensures
        default_in(all_fields(ts), key) == default_in(all_fields(ts.take(t + 1)), key),
    decreases ts.len() - t,
{
    if t + 1 < ts.len() {
        assert(ts.take(t + 2).drop_last() =~= ts.take(t + 1));
        lemma_default_concat(all_fields(ts.take(t + 1)), ts.take(t + 2).last().fields@, key);
        lemma_all_fields_prefix(ts, t + 1, key);
    } else {
        assert(ts.take(t + 1) =~= ts);
    }
}

/// The value a ComfyUI setting shows (see [`comfy_value`]).
pub fn comfy_get(cfg: &Config, schema: &Schema, key: &String) -> (r: ConfigValue)
    ensures
        value_view(r) == comfy_value(*cfg, *schema, key@),
{
    match cfg.get_comfy(key) {
        Some(v) => v.copy(),
        None => match find_default(schema, key) {
            Some(d) => d,
            None => ConfigValue::Str(String::new()),
        },
    }
}

/// Thin wrapper around `SettingsView` driven by the ComfyUI schema.
pub struct ComfySettings {
    /// Underlying settings editor.
    pub view: SettingsView,
}

impl ComfySettings {
    /// Constructs a fresh ComfyUI settings screen.
    pub fn new() -> (s: Self)
        ensures
            s.view.wf(),
            s.view.tab == 0,
            s.view.popup is Closed,
            s.view.filter.value@.len() == 0,
    {
        ComfySettings { view: SettingsView::new() }
    }

    /// Forwards Esc handling to the underlying editor.
    pub fn eat_esc(&mut self) -> (used: bool)
        requires
            old(self).view.wf(),
        ensures
            final(self).view.wf(),
            used == (!(old(self).view.popup is Closed) || old(self).view.grid@.row == 0
                || old(self).view.filter.value@.len() > 0),
            esc_key(old(self).view, final(self).view, used),
    {
        self.view.eat_esc()
    }

    /// Drains and returns the most recent flash message, if any.
    pub fn take_flash(&mut self) -> (r: Option<(FlashKind, String)>)
        ensures
            r == old(self).view.pending_flash,
            final(self).view == (SettingsView { pending_flash: None, ..old(self).view }),
    {
        self.view.take_flash()
    }

    /// Applies the view's answer to the configuration.
    fn apply(rv: SettingsKey, cfg: &mut Config) -> (r: ScreenStep)
        ensures
            comfy_effect(*old(cfg), *final(cfg), rv, r),
    {
        match rv {
            SettingsKey::Store { key, value } => {
                cfg.set_comfy(key, ConfigValue::Str(value));
                ScreenStep::Changed
            },
            SettingsKey::StoreBool { key, value } => {
                cfg.set_comfy(key, ConfigValue::Bool(value));
                ScreenStep::Changed
            },
            SettingsKey::Activate { tab, field } => ScreenStep::Activate { tab, field },
            SettingsKey::Used => ScreenStep::Nothing,
            SettingsKey::Ignored => ScreenStep::Ignored,
        }
    }

    /// Handles a key; `texts` are the fields' translated names and
    /// descriptions. A key the view leaves unused is the screen's `R`
    /// shortcut, which resets every value to its factory default.
    pub fn on_key(&mut self, k: Key, schema: &Schema, texts: &FieldTexts, cfg: &mut Config) -> (r:
        ScreenStep)
        requires
            old(self).view.wf(),
            texts_fit(*schema, texts@),
            old(self).view.popup matches Popup::Select(sel, _, _) ==> sel.items@.len() == 0
                || sel.selected < usize::MAX,
            old(self).view.popup matches Popup::Input(ip, _) ==> (k is Char ==> ip.input.cursor
                < usize::MAX),
            k is Char ==> old(self).view.filter.cursor < usize::MAX,
        ensures
            final(self).view.wf(),
            exists|rv: SettingsKey|
                {
                    &&& settings_key(
                        old(self).view,
                        final(self).view,
                        k,
                        schema.tabs@.len(),
                        settings_filter(
                            *schema,
                            texts@,
                            old(self).view.tab,
                            old(self).view.filter.value@,
                        ),
                        rv,
                    )
                    &&& if rv == SettingsKey::Ignored && (k == Key::Char('r') || k == Key::Char(
                        'R',
                    )) {
                        r == ScreenStep::Changed && final(cfg).comfy_settings@.len() == 0
                            && final(cfg).general == old(cfg).general && final(cfg).network
                            == old(cfg).network && final(cfg).path == old(cfg).path
                    } else {
                        comfy_effect(*old(cfg), *final(cfg), rv, r)
                    }
                },
    {
        let rv = self.view.on_key(k, schema, texts);
        match rv {
            SettingsKey::Ignored => {
                if k == Key::Char('r') || k == Key::Char('R') {
                    cfg.reset_comfy_to_factory();
                    return ScreenStep::Changed;
                }
                ScreenStep::Ignored
            },
            _ => Self::apply(rv, cfg),
        }
    }

    /// Activates field `field` of tab `tab` (when it exists) with its
    /// translated name `title` and choices `items` / `values` (see
    /// `SettingsView::activate_field`); a toggle is flipped and stored.
    pub fn activate(
        &mut self,
        tab: usize,
        field: usize,
        schema: &Schema,
        cfg: &mut Config,
        title: String,
        items: Vec<String>,
        values: Vec<String>,
    ) -> (r: ScreenStep)
        ensures
            !(tab < schema.tabs@.len() && field < schema.tabs@[tab as int].fields@.len()) ==> r
                == ScreenStep::Nothing && *final(self) == *old(self) && *final(cfg) == *old(cfg),
            tab < schema.tabs@.len() && field < schema.tabs@[tab as int].fields@.len() ==> exists|
                rv: SettingsKey,
                cur: ConfigValue,
            |
                #![trigger comfy_effect(*old(cfg), *final(cfg), rv, r), value_view(cur)]
                {
                    let fld = schema.tabs@[tab as int].fields@[field as int];
                    &&& value_view(cur) == comfy_value(*old(cfg), *schema, fld.key@)
                    &&& activation(
                        old(self).view,
                        final(self).view,
                        fld,
                        cur,
                        title,
                        items@,
                        values@,
                        rv,
                    )
                    &&& comfy_effect(*old(cfg), *final(cfg), rv, r)
                },
    {
        if tab >= schema.tabs.len() || field >= schema.tabs[tab].fields.len() {
            return ScreenStep::Nothing;
        }
        let fld = &schema.tabs[tab].fields[field];
        let cur = comfy_get(cfg, schema, &fld.key);
        let rv = self.view.activate_field(fld, &cur, title, items, values);
        Self::apply(rv, cfg)
    }

    /// Handles a mouse event on the screen drawn over `area`; `tab_names`
    /// are the tabs' translated names (a tab strip shows when there is
    /// more than one tab).
    pub fn on_mouse(
        &mut self,
        m: Mouse,
        area: Rect,
        schema: &Schema,
        texts: &FieldTexts,
        tab_names: &Vec<String>,
        cfg: &mut Config,
    ) -> (r: ScreenStep)
        requires
            old(self).view.wf(),
            texts_fit(*schema, texts@),
            fits(area, 1),
            old(self).view.popup matches Popup::Select(sel, _, _) ==> sel.items@.len() + 2
                <= u16::MAX,
        ensures
            final(self).view.wf(),
            exists|rv: SettingsKey|
                {
                    &&& settings_click(
                        old(self).view,
                        final(self).view,
                        m,
                        area,
                        *schema,
                        texts@,
                        widths_of(tab_names@),
                        schema.tabs@.len() > 1,
                        rv,
                    )
                    &&& comfy_effect(*old(cfg), *final(cfg), rv, r)
                },
    {
        let show_tabs = schema.tabs.len() > 1;
        let rv = self.view.on_mouse(m, area, schema, texts, tab_names, show_tabs);
        Self::apply(rv, cfg)
    }

    /// Forwards a wheel step to the editor.
    pub fn scroll(&mut self, delta: i32, schema: &Schema, texts: &FieldTexts)
        requires
            old(self).view.wf(),
            texts_fit(*schema, texts@),
            old(self).view.popup matches Popup::Select(sel, _, _) ==> sel.items@.len() == 0
                || sel.selected < usize::MAX,
        ensures
            final(self).view.wf(),
            wheel(
                old(self).view,
                final(self).view,
                delta as int,
                settings_filter(*schema, texts@, old(self).view.tab, old(self).view.filter.value@).len() as int,
            ),
    {
        self.view.scroll(delta, schema, texts);
    }
}

} // verus!
