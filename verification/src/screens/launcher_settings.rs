//! Launcher general-preferences editor screen.
//!
//! Field metadata (names, descriptions, choice options) lives in the
//! launcher schema; this module maps the fields' keys to the configuration
//! and validates what is stored. Checking a ComfyUI directory on disk and
//! probing a Python interpreter are the shell's part: it asks
//! `store_check` what a value needs, runs that check, and hands the answer
//! to `store`.

use crate::app::FlashKind;
use crate::config::Config;
use crate::env::{normalize_semicolon_list, normalized_list};
use crate::geom::{fits, Key, Mouse, Rect};
use crate::schema::{value_view, ConfigValue, Schema, ValueView};
use crate::screens::settings_view::{
    esc_key,
    activation, settings_click, settings_filter, settings_key, str_value, texts_fit, wheel,
    FieldTexts, Popup, SettingsKey, SettingsView,
};
use crate::strs::{chars_eq, chars_of, trim, trim_str};
use crate::widgets::tabs::widths_of;
use vstd::prelude::*;

verus! {

/// The text of the launcher setting `key` (empty for an unknown key).
pub open spec fn launcher_value(cfg: Config, key: Seq<char>) -> Seq<char> {
    if key == "general.language"@ {
        cfg.general.language@
    } else if key == "general.comfyui_dir"@ {
        cfg.general.comfyui_dir@
    } else if key == "general.python"@ {
        cfg.general.python@
    } else if key == "network.pypi_mirror"@ {
        cfg.network.pypi_mirror@
    } else if key == "network.git_mirror"@ {
        cfg.network.git_mirror@
    } else if key == "network.hf_mirror"@ {
        cfg.network.hf_mirror@
    } else if key == "network.github_accel"@ {
        cfg.network.github_accel@
    } else {
        Seq::empty()
    }
}

fn is_key(key: &String, name: &str) -> (b: bool)
    ensures
        b == (key@ == name@),
{
    chars_eq(&chars_of(key.as_str()), &chars_of(name))
}

/// The value the launcher setting `key` shows (always a string).
pub fn launcher_get(cfg: &Config, key: &String) -> (r: ConfigValue)
    ensures
        value_view(r) == ValueView::Str(launcher_value(*cfg, key@)),
{
    let s = if is_key(key, "general.language") {
        cfg.general.language.clone()
    } else if is_key(key, "general.comfyui_dir") {
        cfg.general.comfyui_dir.clone()
    } else if is_key(key, "general.python") {
        cfg.general.python.clone()
    } else if is_key(key, "network.pypi_mirror") {
        cfg.network.pypi_mirror.clone()
    } else if is_key(key, "network.git_mirror") {
        cfg.network.git_mirror.clone()
    } else if is_key(key, "network.hf_mirror") {
        cfg.network.hf_mirror.clone()
    } else if is_key(key, "network.github_accel") {
        cfg.network.github_accel.clone()
    } else {
        String::new()
    };
    ConfigValue::Str(s)
}

/// What storing a value needs checked outside the library first.
pub enum StoreCheck {
    /// Nothing.
    Nothing,
    /// Whether this directory holds a ComfyUI installation.
    Dir(String),
    /// Which interpreter this path resolves to, and whether it runs.
    Python(String),
}

/// The check storing `v` for `key` needs: the ComfyUI directory and the
/// Python path are checked by their trimmed text.
pub open spec fn check_for(key: Seq<char>, v: ConfigValue, c: StoreCheck) -> bool {
    if key == "general.comfyui_dir"@ {
        c matches StoreCheck::Dir(t) && t@ == trim(str_value(v))
    } else if key == "general.python"@ {
        c matches StoreCheck::Python(t) && t@ == trim(str_value(v))
    } else {
        c is Nothing
    }
}

/// What storing `v` for `key` needs checked first.
pub fn store_check(key: &String, v: &ConfigValue) -> (c: StoreCheck)
    ensures
        check_for(key@, *v, c),
{
    let text: &str = match v {
        ConfigValue::Str(s) => s.as_str(),
        _ => "",
    };
    proof {
        reveal_strlit("");
    }
    assert(text@ == str_value(*v));
    if is_key(key, "general.comfyui_dir") {
        StoreCheck::Dir(trim_str(text))
    } else if is_key(key, "general.python") {
        StoreCheck::Python(trim_str(text))
    } else {
        StoreCheck::Nothing
    }
}

/// `b` is `a` with one text preference changed.
pub open spec fn launcher_stored(a: Config, b: Config, key: Seq<char>, t: Seq<char>) -> bool {
    &&& b.comfy_settings == a.comfy_settings && b.path == a.path
    &&& if key == "general.language"@ {
        b.network == a.network && b.general.language@ == t && b.general.comfyui_dir
            == a.general.comfyui_dir && b.general.python == a.general.python && b.general.mode
            == a.general.mode
    } else if key == "general.comfyui_dir"@ {
        b.network == a.network && b.general.comfyui_dir@ == t && b.general.language
            == a.general.language && b.general.python == a.general.python && b.general.mode
            == a.general.mode
    } else if key == "general.python"@ {
        b.network == a.network && b.general.python@ == t && b.general.language
            == a.general.language && b.general.comfyui_dir == a.general.comfyui_dir
            && b.general.mode == a.general.mode
    } else {
        &&& b.general == a.general
        &&& b.network.http_proxy == a.network.http_proxy && b.network.https_proxy
            == a.network.https_proxy && b.network.no_proxy == a.network.no_proxy
        &&& if key == "network.pypi_mirror"@ {
            b.network.pypi_mirror@ == t && b.network.git_mirror == a.network.git_mirror
                && b.network.hf_mirror == a.network.hf_mirror && b.network.github_accel
                == a.network.github_accel
        } else if key == "network.git_mirror"@ {
            b.network.git_mirror@ == t && b.network.pypi_mirror == a.network.pypi_mirror
                && b.network.hf_mirror == a.network.hf_mirror && b.network.github_accel
                == a.network.github_accel
        } else if key == "network.hf_mirror"@ {
            b.network.hf_mirror@ == t && b.network.pypi_mirror == a.network.pypi_mirror
                && b.network.git_mirror == a.network.git_mirror && b.network.github_accel
                == a.network.github_accel
        } else {
            b.network.github_accel@ == t && b.network.pypi_mirror == a.network.pypi_mirror
                && b.network.git_mirror == a.network.git_mirror && b.network.hf_mirror
                == a.network.hf_mirror
        }
    }
}

/// Storing `v` for `key`, given the answers of the outside checks
/// (`dir_ok`: the trimmed directory holds ComfyUI; `python`: the path the
/// trimmed Python path resolves to, when that interpreter runs). The
/// language takes a string value as it is; the ComfyUI directory is
/// refused unless it checked out, and stored trimmed; the Python path is
/// refused unless it ran, and stored as resolved; the mirror lists are
/// stored in their canonical `a;b;c` form; other keys are ignored. `Ok`
/// says whether the configuration changed (and must be persisted); `Err`
/// carries the message key of a refusal.
pub open spec fn launcher_store(
    a: Config,
    b: Config,
    key: Seq<char>,
    v: ConfigValue,
    dir_ok: bool,
    python: Option<String>,
    r: Result<bool, &'static str>,
) -> bool {
    if key == "general.language"@ {
        match v {
            ConfigValue::Str(s) => r == Ok::<bool, &'static str>(true) && launcher_stored(
                a,
                b,
                key,
                s@,
            ),
            _ => r == Ok::<bool, &'static str>(false) && b == a,
        }
    } else if key == "general.comfyui_dir"@ {
        if dir_ok {
            r == Ok::<bool, &'static str>(true) && launcher_stored(a, b, key, trim(str_value(v)))
        } else {
            r == Err::<bool, &'static str>("popup_invalid_dir") && b == a
        }
    } else if key == "general.python"@ {
        match python {
            Some(p) => r == Ok::<bool, &'static str>(true) && launcher_stored(a, b, key, p@),
            None => r == Err::<bool, &'static str>("popup_invalid_py") && b == a,
        }
    } else if key == "network.pypi_mirror"@ || key == "network.git_mirror"@ || key
        == "network.hf_mirror"@ || key == "network.github_accel"@ {
        r == Ok::<bool, &'static str>(true) && launcher_stored(
            a,
            b,
            key,
            normalized_list(str_value(v)),
        )
    } else {
        r == Ok::<bool, &'static str>(false) && b == a
    }
}

/// Stores `v` for the launcher setting `key` (see [`launcher_store`]).
pub fn store(
    cfg: &mut Config,
    key: &String,
    v: &ConfigValue,
    dir_ok: bool,
    python: Option<String>,
) -> (r: Result<bool, &'static str>)
    ensures
        launcher_store(*old(cfg), *final(cfg), key@, *v, dir_ok, python, r),
{
    let text: &str = match v {
        ConfigValue::Str(s) => s.as_str(),
        _ => "",
    };
    proof {
        reveal_strlit("");
    }
    assert(text@ == str_value(*v));
    if is_key(key, "general.language") {
        match v {
            ConfigValue::Str(s) => {
                cfg.general.language = s.clone();
                Ok(true)
            },
            _ => Ok(false),
        }
    } else if is_key(key, "general.comfyui_dir") {
        if !dir_ok {
            return Err("popup_invalid_dir");
        }
        cfg.general.comfyui_dir = trim_str(text);
        Ok(true)
    } else if is_key(key, "general.python") {
        match python {
            Some(p) => {
                cfg.general.python = p;
                Ok(true)
            },
            None => Err("popup_invalid_py"),
        }
    } else if is_key(key, "network.pypi_mirror") {
        cfg.network.pypi_mirror = normalize_semicolon_list(text);
        Ok(true)
    } else if is_key(key, "network.git_mirror") {
        cfg.network.git_mirror = normalize_semicolon_list(text);
        Ok(true)
    } else if is_key(key, "network.hf_mirror") {
        cfg.network.hf_mirror = normalize_semicolon_list(text);
        Ok(true)
    } else if is_key(key, "network.github_accel") {
        cfg.network.github_accel = normalize_semicolon_list(text);
        Ok(true)
    } else {
        Ok(false)
    }
}

/// Thin wrapper around `SettingsView` driven by the launcher schema.
pub struct LauncherSettings {
    /// Underlying settings editor.
    pub view: SettingsView,
    /// The launcher schema (parsed by the shell).
    pub schema: Schema,
}

impl LauncherSettings {
    /// Constructs the screen over the launcher schema.
    pub fn new(schema: Schema) -> (s: Self)
        ensures
            s.view.wf(),
            s.view.tab == 0,
            s.view.popup is Closed,
            s.view.filter.value@.len() == 0,
            s.schema == schema,
    {
        LauncherSettings { view: SettingsView::new(), schema }
    }

    /// Forwards Esc handling to the underlying editor.
    pub fn eat_esc(&mut self) -> (used: bool)
        requires
            old(self).view.wf(),
        ensures
            final(self).view.wf(),
            final(self).schema == old(self).schema,
            used == (!(old(self).view.popup is Closed) || old(self).view.grid@.row == 0
                || old(self).view.filter.value@.len() > 0),
            esc_key(old(self).view, final(self).view, used),
    {
        self.view.eat_esc()
    }

    /// Drains and returns the most recent flash message, if any.
    pub fn take_flash(&mut self) -> (r: Option<(FlashKind, String)>)
        ensures
            r == old(self).view.pending_flash,
            final(self).view == (SettingsView { pending_flash: None, ..old(self).view }),
            final(self).schema == old(self).schema,
    {
        self.view.take_flash()
    }

    /// Handles a key; the answer is the view's (a value to `store`, a field
    /// to `activate`, or nothing).
    pub fn on_key(&mut self, k: Key, texts: &FieldTexts) -> (r: SettingsKey)
        requires
            old(self).view.wf(),
            texts_fit(old(self).schema, texts@),
            old(self).view.popup matches Popup::Select(sel, _, _) ==> sel.items@.len() == 0
                || sel.selected < usize::MAX,
            old(self).view.popup matches Popup::Input(ip, _) ==> (k is Char ==> ip.input.cursor
                < usize::MAX),
            k is Char ==> old(self).view.filter.cursor < usize::MAX,
        ensures
            final(self).view.wf(),
            final(self).schema == old(self).schema,
            settings_key(
                old(self).view,
                final(self).view,
                k,
                old(self).schema.tabs@.len(),
                settings_filter(
                    old(self).schema,
                    texts@,
                    old(self).view.tab,
                    old(self).view.filter.value@,
                ),
                r,
            ),
    {
        self.view.on_key(k, &self.schema, texts)
    }

    /// Activates field `field` of tab `tab` (when it exists) showing its
    /// current value, with its translated name `title` and choices.
    pub fn activate(
        &mut self,
        tab: usize,
        field: usize,
        cfg: &Config,
        title: String,
        items: Vec<String>,
        values: Vec<String>,
    ) -> (r: SettingsKey)
        ensures
            final(self).schema == old(self).schema,
            !(tab < old(self).schema.tabs@.len() && field < old(self).schema.tabs@[tab as int].fields@.len())
                ==> r == SettingsKey::Used && final(self).view == old(self).view,
            tab < old(self).schema.tabs@.len() && field < old(self).schema.tabs@[tab as int].fields@.len()
                ==> exists|cur: ConfigValue|
                {
                    let fld = old(self).schema.tabs@[tab as int].fields@[field as int];
                    &&& #[trigger] value_view(cur) == ValueView::Str(launcher_value(*cfg, fld.key@))
                    &&& activation(
                        old(self).view,
                        final(self).view,
                        fld,
                        cur,
                        title,
                        items@,
                        values@,
                        r,
                    )
                },
    {
        if tab >= self.schema.tabs.len() || field >= self.schema.tabs[tab].fields.len() {
            return SettingsKey::Used;
        }
        let cur = launcher_get(cfg, &self.schema.tabs[tab].fields[field].key);
        let fld = &self.schema.tabs[tab].fields[field];
        self.view.activate_field(fld, &cur, title, items, values)
    }

    /// Handles a mouse event on the screen drawn over `area` (no tab
    /// strip).
    pub fn on_mouse(&mut self, m: Mouse, area: Rect, texts: &FieldTexts) -> (r: SettingsKey)
        requires
            old(self).view.wf(),
            texts_fit(old(self).schema, texts@),
            fits(area, 1),
            old(self).view.popup matches Popup::Select(sel, _, _) ==> sel.items@.len() + 2
                <= u16::MAX,
        ensures
            final(self).view.wf(),
            final(self).schema == old(self).schema,
            settings_click(
                old(self).view,
                final(self).view,
                m,
                area,
                old(self).schema,
                texts@,
                widths_of(Seq::<String>::empty()),
                false,
                r,
            ),
    {
        let names: Vec<String> = Vec::new();
        self.view.on_mouse(m, area, &self.schema, texts, &names, false)
    }

    /// Forwards a wheel step to the editor.
    pub fn scroll(&mut self, delta: i32, texts: &FieldTexts)
        requires
            old(self).view.wf(),
            texts_fit(old(self).schema, texts@),
            old(self).view.popup matches Popup::Select(sel, _, _) ==> sel.items@.len() == 0
                || sel.selected < usize::MAX,
        ensures
            final(self).view.wf(),
            final(self).schema == old(self).schema,
            wheel(
                old(self).view,
                final(self).view,
                delta as int,
                settings_filter(
                    old(self).schema,
                    texts@,
                    old(self).view.tab,
                    old(self).view.filter.value@,
                ).len() as int,
            ),
    {
        self.view.scroll(delta, &self.schema, texts);
    }
}

} // verus!
