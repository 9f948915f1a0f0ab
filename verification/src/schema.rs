//! The settings schemas (ComfyUI's and the launcher's) and the ComfyUI
//! command line they produce.
//!
//! Both schemas are TOML embedded in the launcher; reading the TOML belongs
//! to the application shell, which hands the parsed tabs and fields over
//! as plain values.

use crate::gpu::{config_value_to_cli_args, gpu_cli_args, lemma_gpu_args_of_text};
use crate::strs::{
    chars_eq, chars_of, dec, dec_chars, dec_signed, replace_all, replace_chars, string_of, words,
    split_words,
};
use vstd::prelude::*;

verus! {

/// A stored setting value (a TOML value as the settings use it).
///
/// A float is held as its decimal text, and any other TOML value (array,
/// table, date) as a text that identifies it; neither ever reaches the
/// command line.
#[derive(Clone)]
pub enum ConfigValue {
    /// A string.
    Str(String),
    /// An integer.
    Int(i64),
    /// A float, by its decimal text.
    Float(String),
    /// A boolean.
    Bool(bool),
    /// Anything else, by its text.
    Other(String),
}

/// A setting value as plain values.
pub enum ValueView {
    /// A string.
    Str(Seq<char>),
    /// An integer.
    Int(i64),
    /// A float, by its decimal text.
    Float(Seq<char>),
    /// A boolean.
    Bool(bool),
    /// Anything else, by its text.
    Other(Seq<char>),
}

/// The plain value of `v`.
pub open spec fn value_view(v: ConfigValue) -> ValueView {
    match v {
        ConfigValue::Str(s) => ValueView::Str(s@),
        ConfigValue::Int(i) => ValueView::Int(i),
        ConfigValue::Float(s) => ValueView::Float(s@),
        ConfigValue::Bool(b) => ValueView::Bool(b),
        ConfigValue::Other(s) => ValueView::Other(s@),
    }
}

/// The text a value contributes to a command line: strings as they are,
/// numbers in decimal, booleans as `true` / `false`, anything else empty.
pub open spec fn value_text(v: ConfigValue) -> Seq<char> {
    match v {
        ConfigValue::Str(s) => s@,
        ConfigValue::Int(i) => dec_signed(i as int),
        ConfigValue::Float(s) => s@,
        ConfigValue::Bool(b) => if b {
            "true"@
        } else {
            "false"@
        },
        ConfigValue::Other(_) => Seq::empty(),
    }
}

/// Decimal rendering of an `i64`.
fn dec_i64_chars(n: i64) -> (r: Vec<char>)
    ensures
        r@ == dec_signed(n as int),
{
    if n < 0 {
        let m: u64 = (-(n as i128)) as u64;
        let mut v: Vec<char> = Vec::new();
        v.push('-');
        crate::strs::append_chars(&mut v, &dec_chars(m));
        assert(v@ =~= seq!['-'] + dec((-(n as int)) as nat));
        v
    } else {
        dec_chars(n as u64)
    }
}

impl ConfigValue {
    /// The text this value contributes to a command line.
    pub fn to_text(&self) -> (r: String)
        ensures
            r@ == value_text(*self),
    {
        match self {
            ConfigValue::Str(s) => s.clone(),
            ConfigValue::Int(i) => string_of(&dec_i64_chars(*i)),
            ConfigValue::Float(s) => s.clone(),
            ConfigValue::Bool(b) => if *b {
                "true".to_string()
            } else {
                "false".to_string()
            },
            ConfigValue::Other(_) => String::new(),
        }
    }

    /// Whether two values are the same.
    pub fn same(&self, other: &ConfigValue) -> (r: bool)
        ensures
            r == (value_view(*self) == value_view(*other)),
    {
        match (self, other) {
            (ConfigValue::Str(a), ConfigValue::Str(b)) => str_eq(a, b),
            (ConfigValue::Int(a), ConfigValue::Int(b)) => *a == *b,
            (ConfigValue::Float(a), ConfigValue::Float(b)) => str_eq(a, b),
            (ConfigValue::Bool(a), ConfigValue::Bool(b)) => *a == *b,
            (ConfigValue::Other(a), ConfigValue::Other(b)) => str_eq(a, b),
            _ => false,
        }
    }

    /// A copy of this value.
    pub fn copy(&self) -> (r: ConfigValue)
        ensures
            value_view(r) == value_view(*self),
    {
        match self {
            ConfigValue::Str(s) => ConfigValue::Str(s.clone()),
            ConfigValue::Int(i) => ConfigValue::Int(*i),
            ConfigValue::Float(s) => ConfigValue::Float(s.clone()),
            ConfigValue::Bool(b) => ConfigValue::Bool(*b),
            ConfigValue::Other(s) => ConfigValue::Other(s.clone()),
        }
    }
}

fn str_eq(a: &String, b: &String) -> (r: bool)
    ensures
        r == (a@ == b@),
{
    chars_eq(&chars_of(a.as_str()), &chars_of(b.as_str()))
}

/// Stored setting values by key (each key at most once).
pub type SettingsMap = Vec<(String, ConfigValue)>;

/// The value stored for `k` (the first pair with that key).
pub open spec fn setting_get(vals: Seq<(String, ConfigValue)>, k: Seq<char>) -> Option<ConfigValue>
    decreases vals.len(),
{
    if vals.len() == 0 {
        None
    } else if vals[0].0@ == k {
        Some(vals[0].1)
    } else {
        setting_get(vals.drop_first(), k)
    }
}

/// Index of the pair stored for `k`: the first pair with that key.
pub fn find_setting(vals: &SettingsMap, k: &String) -> (r: Option<usize>)
    ensures
        match r {
            Some(i) => i < vals@.len() && vals@[i as int].0@ == k@ && setting_get(vals@, k@) == Some(
                vals@[i as int].1,
            ) && forall|j: int| 0 <= j < i ==> #[trigger] vals@[j].0@ != k@,
            None => setting_get(vals@, k@) is None && forall|j: int|
                0 <= j < vals@.len() ==> #[trigger] vals@[j].0@ != k@,
        },
{
    let mut i: usize = 0;
    assert(vals@.skip(0) =~= vals@);
    while i < vals.len()
        invariant
            i <= vals.len(),
            setting_get(vals@, k@) == setting_get(vals@.skip(i as int), k@),
            forall|j: int| 0 <= j < i ==> #[trigger] vals@[j].0@ != k@,
        decreases vals.len() - i,
    {
        assert(vals@.skip(i as int)[0] == vals@[i as int]);
        assert(vals@.skip(i as int).drop_first() =~= vals@.skip(i + 1));
        if str_eq(&vals[i].0, k) {
            return Some(i);
        }
        i = i + 1;
    }
    None
}

/// Looking up a key after appending a pair: an earlier pair for the key
/// still wins; else the new pair answers for its own key.
pub proof fn lemma_get_push(vals: Seq<(String, ConfigValue)>, p: (String, ConfigValue), k: Seq<char>)
    ensures
        setting_get(vals.push(p), k) == match setting_get(vals, k) {
            Some(v) => Some(v),
            None => if p.0@ == k {
                Some(p.1)
            } else {
                None
            },
        },
    decreases vals.len(),
{
    if vals.len() > 0 {
        assert(vals.push(p)[0] == vals[0]);
        assert(vals.push(p).drop_first() =~= vals.drop_first().push(p));
        lemma_get_push(vals.drop_first(), p, k);
    } else {
        assert(vals.push(p)[0] == p);
        assert(vals.push(p).drop_first() =~= Seq::<(String, ConfigValue)>::empty());
        assert(setting_get(vals.push(p).drop_first(), k) is None);
    }
}

/// Looking up a key after replacing the value of the first pair of key
/// `key` (at `i`): `key` gives the new value, other keys are unchanged.
pub proof fn lemma_get_update(
    vals: Seq<(String, ConfigValue)>,
    i: int,
    key: Seq<char>,
    p: (String, ConfigValue),
    k: Seq<char>,
)
    requires
        0 <= i < vals.len(),
        vals[i].0@ == key,
        p.0@ == key,
        forall|j: int| 0 <= j < i ==> #[trigger] vals[j].0@ != key,
    ensures
        setting_get(vals.update(i, p), k) == if k == key {
            Some(p.1)
        } else {
            setting_get(vals, k)
        },
    decreases i,
{
    if i == 0 {
        assert(vals.update(i, p)[0] == p);
        assert(vals.update(i, p).drop_first() =~= vals.drop_first());
    } else {
        assert(vals.update(i, p)[0] == vals[0]);
        assert(vals[0].0@ != key);
        assert(vals.update(i, p).drop_first() =~= vals.drop_first().update(i - 1, p));
        assert forall|j: int| 0 <= j < i - 1 implies #[trigger] vals.drop_first()[j].0@ != key by {
            assert(vals.drop_first()[j] == vals[j + 1]);
        }
        lemma_get_update(vals.drop_first(), i - 1, key, p, k);
    }
}

/// No key is stored in an empty map.
pub proof fn lemma_get_empty(k: Seq<char>)
    ensures
        setting_get(Seq::<(String, ConfigValue)>::empty(), k) is None,
{
}

/// One option of a `Choice` field.
#[derive(Clone)]
pub struct Choice {
    /// Value stored on disk and emitted on the command line.
    pub value: String,
    /// Display label shown in the picker.
    pub label: String,
}

/// Editor widget type for a `Field`.
#[derive(Clone)]
pub enum FieldType {
    /// Boolean toggle.
    Toggle,
    /// Single choice picked from a static list of options.
    Choice {
        /// Selectable options.
        options: Vec<Choice>,
    },
    /// Free-form text value.
    Custom,
    /// Choice among the available UI languages (launcher-side only).
    LanguageChoice,
    /// Choice among the detected GPUs.
    GpuChoice,
}

/// One editable field defined by the schema.
#[derive(Clone)]
pub struct Field {
    /// Unique key used to look up the value in storage.
    pub key: String,
    /// Display name shown next to the editor.
    pub name: String,
    /// Help text shown below the field.
    pub desc: String,
    /// Editor type.
    pub ty: FieldType,
    /// CLI argument template; `{value}` stands for the value.
    pub cli: String,
    /// Default value when the user has not set one.
    pub default: ConfigValue,
}

/// One tab of fields in the schema.
#[derive(Clone)]
pub struct Tab {
    /// Display name of the tab.
    pub name: String,
    /// Fields displayed inside the tab.
    pub fields: Vec<Field>,
}

/// A parsed settings schema.
#[derive(Clone)]
pub struct Schema {
    /// Tabs in display order.
    pub tabs: Vec<Tab>,
}

/// The command-line arguments one field contributes. A value equal to the
/// field's default contributes nothing. A toggle that is on contributes the
/// words of its template; a choice or custom value contributes the words of
/// its template with `{value}` replaced (nothing for an empty value); a GPU
/// choice contributes the GPU flags of its value; a language choice never
/// reaches the command line.
pub open spec fn field_args(f: Field, vals: Seq<(String, ConfigValue)>) -> Seq<Seq<char>> {
    let v = match setting_get(vals, f.key@) {
        Some(x) => x,
        None => f.default,
    };
    if value_view(v) == value_view(f.default) {
        Seq::empty()
    } else {
        match f.ty {
            FieldType::Toggle => if (v matches ConfigValue::Bool(b) && b) && f.cli@.len() > 0 {
                words(f.cli@)
            } else {
                Seq::empty()
            },
            FieldType::Choice { .. } | FieldType::Custom => {
                let s = value_text(v);
                if s.len() == 0 {
                    Seq::empty()
                } else {
                    words(replace_all(f.cli@, "{value}"@, s))
                }
            },
            FieldType::LanguageChoice => Seq::empty(),
            FieldType::GpuChoice => gpu_cli_args(value_text(v)),
        }
    }
}

/// The arguments of the fields, in order.
pub open spec fn fields_args(fs: Seq<Field>, vals: Seq<(String, ConfigValue)>) -> Seq<Seq<char>>
    decreases fs.len(),
{
    if fs.len() == 0 {
        Seq::empty()
    } else {
        fields_args(fs.drop_last(), vals) + field_args(fs.last(), vals)
    }
}

/// The arguments of the tabs' fields, tab by tab.
pub open spec fn tabs_args(ts: Seq<Tab>, vals: Seq<(String, ConfigValue)>) -> Seq<Seq<char>>
    decreases ts.len(),
{
    if ts.len() == 0 {
        Seq::empty()
    } else {
        tabs_args(ts.drop_last(), vals) + fields_args(ts.last().fields@, vals)
    }
}

/// A GPU picked in the settings reaches ComfyUI's command line: in a
/// schema whose one field is a GPU choice, a stored value `cuda:<n>` or
/// `rocm:<n>` (other than the field's default) gives `--cuda-device <n>`,
/// `dml:<n>` gives `--directml <n>`, and `cpu` gives `--cpu`.
pub proof fn law_gpu_choice_on_command_line(
    t: Tab,
    vals: Seq<(String, ConfigValue)>,
    f: Field,
    s: String,
    n: nat,
)
    requires
        t.fields@ == seq![f],
        f.ty is GpuChoice,
        setting_get(vals, f.key@) == Some(ConfigValue::Str(s)),
        value_view(ConfigValue::Str(s)) != value_view(f.default),
        n <= i32::MAX,
    ensures
        s@ == "cuda:"@ + dec(n) ==> tabs_args(seq![t], vals) == seq!["--cuda-device"@, dec(n)],
        s@ == "rocm:"@ + dec(n) ==> tabs_args(seq![t], vals) == seq!["--cuda-device"@, dec(n)],
        s@ == "dml:"@ + dec(n) ==> tabs_args(seq![t], vals) == seq!["--directml"@, dec(n)],
        s@ == "cpu"@ ==> tabs_args(seq![t], vals) == seq!["--cpu"@],
{
    assert(seq![t].drop_last() =~= Seq::<Tab>::empty());
    assert(seq![f].drop_last() =~= Seq::<Field>::empty());
    assert(tabs_args(seq![t], vals) =~= fields_args(seq![f], vals)) by {
        reveal_with_fuel(tabs_args, 2);
    }
    assert(fields_args(seq![f], vals) =~= field_args(f, vals)) by {
        reveal_with_fuel(fields_args, 2);
    }
    assert(field_args(f, vals) == gpu_cli_args(s@));
    reveal_strlit("cuda:");
    reveal_strlit("rocm:");
    reveal_strlit("dml:");
    reveal_strlit("cuda");
    reveal_strlit("rocm");
    reveal_strlit("dml");
    reveal_strlit(":");
    assert("cuda"@ + ":"@ + dec(n) =~= "cuda:"@ + dec(n));
    assert("rocm"@ + ":"@ + dec(n) =~= "rocm:"@ + dec(n));
    assert("dml"@ + ":"@ + dec(n) =~= "dml:"@ + dec(n));
    lemma_gpu_args_of_text("cuda"@, n);
    lemma_gpu_args_of_text("rocm"@, n);
    lemma_gpu_args_of_text("dml"@, n);
}

fn push_all(out: &mut Vec<String>, more: Vec<String>)
    ensures
        final(out)@.map_values(|x: String| x@) == old(out)@.map_values(|x: String| x@)
            + more@.map_values(|x: String| x@),
{
    let ghost o = out@.map_values(|x: String| x@);
    let ghost m = more@.map_values(|x: String| x@);
    let mut i: usize = 0;
    assert(o + m.take(0) =~= o);
    while i < more.len()
        invariant
            i <= more.len(),
            m == more@.map_values(|x: String| x@),
            out@.map_values(|x: String| x@) == o + m.take(i as int),
        decreases more.len() - i,
    {
        let ghost before = out@.map_values(|x: String| x@);
        let c = more[i].clone();
        assert(c@ == m[i as int]);
        out.push(c);
        assert(out@.map_values(|x: String| x@) =~= before.push(m[i as int]));
        assert(m.take(i + 1) =~= m.take(i as int).push(m[i as int]));
        assert(out@.map_values(|x: String| x@) =~= o + m.take(i + 1));
        i = i + 1;
    }
    assert(m.take(more.len() as int) =~= m);
}

fn field_cli_args(f: &Field, vals: &SettingsMap) -> (r: Vec<String>)
    ensures
        r@.map_values(|x: String| x@) == field_args(*f, vals@),
{
    let v: &ConfigValue = match find_setting(vals, &f.key) {
        Some(i) => &vals[i].1,
        None => &f.default,
    };
    let mut out: Vec<String> = Vec::new();
    if v.same(&f.default) {
        assert(out@.map_values(|x: String| x@) =~= field_args(*f, vals@));
        return out;
    }
    match &f.ty {
        FieldType::Toggle => {
            let on = match v {
                ConfigValue::Bool(b) => *b,
                _ => false,
            };
            if on && !f.cli.as_str().is_empty() {
                out = split_words(f.cli.as_str());
            } else {
                assert(out@.map_values(|x: String| x@) =~= field_args(*f, vals@));
            }
            out
        },
        FieldType::Choice { .. } | FieldType::Custom => {
            let s = v.to_text();
            if s.as_str().is_empty() {
                assert(out@.map_values(|x: String| x@) =~= field_args(*f, vals@));
                return out;
            }
            let pat = chars_of("{value}");
            assert(pat@.len() > 0) by {
                reveal_strlit("{value}");
            }
            let rendered = replace_chars(
                &chars_of(f.cli.as_str()),
                &pat,
                &chars_of(s.as_str()),
            );
            split_words(string_of(&rendered).as_str())
        },
        FieldType::LanguageChoice => {
            assert(out@.map_values(|x: String| x@) =~= field_args(*f, vals@));
            out
        },
        FieldType::GpuChoice => {
            let s = v.to_text();
            config_value_to_cli_args(s.as_str())
        },
    }
}

/// Builds the arguments to pass to ComfyUI for the stored settings: the
/// arguments of every field, tab by tab (see [`field_args`]).
pub fn build_cli_args(schema: &Schema, values: &SettingsMap) -> (r: Vec<String>)
    ensures
        r@.map_values(|x: String| x@) == tabs_args(schema.tabs@, values@),
{
    let mut out: Vec<String> = Vec::new();
    let mut t: usize = 0;
    assert(schema.tabs@.take(0) =~= Seq::<Tab>::empty());
    assert(out@.map_values(|x: String| x@) =~= Seq::<Seq<char>>::empty());
    while t < schema.tabs.len()
        invariant
            t <= schema.tabs.len(),
            out@.map_values(|x: String| x@) == tabs_args(schema.tabs@.take(t as int), values@),
        decreases schema.tabs.len() - t,
    {
        let tab = &schema.tabs[t];
        let ghost base = out@.map_values(|x: String| x@);
        let mut j: usize = 0;
        assert(tab.fields@.take(0) =~= Seq::<Field>::empty());
        assert(base + Seq::<Seq<char>>::empty() =~= base);
        while j < tab.fields.len()
            invariant
                j <= tab.fields.len(),
                out@.map_values(|x: String| x@) == base + fields_args(
                    tab.fields@.take(j as int),
                    values@,
                ),
            decreases tab.fields.len() - j,
        {
            assert(tab.fields@.take(j + 1).drop_last() =~= tab.fields@.take(j as int));
            let more = field_cli_args(&tab.fields[j], values);
            push_all(&mut out, more);
            assert(base + fields_args(tab.fields@.take(j as int), values@) + field_args(
                tab.fields@[j as int],
                values@,
            ) =~= base + fields_args(tab.fields@.take(j + 1), values@));
            j = j + 1;
        }
        assert(tab.fields@.take(tab.fields.len() as int) =~= tab.fields@);
        assert(schema.tabs@.take(t + 1).drop_last() =~= schema.tabs@.take(t as int));
        t = t + 1;
    }
    assert(schema.tabs@.take(schema.tabs.len() as int) =~= schema.tabs@);
    out
}

} // verus!
