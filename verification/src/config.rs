//! Launcher preferences and the values stored for settings.

use crate::schema::{find_setting, lemma_get_push, lemma_get_update, setting_get, ConfigValue, SettingsMap};
use crate::strs::{chars_eq, chars_of};
use vstd::prelude::*;

verus! {

/// General launcher preferences stored in `launcher_config.toml`.
#[derive(Debug, Clone)]
pub struct General {
    /// Absolute path to the ComfyUI installation root.
    pub comfyui_dir: String,
    /// Absolute path to the Python interpreter used to launch ComfyUI.
    pub python: String,
    /// Active UI language code.
    pub language: String,
    /// UI mode (`advanced` or `simple`).
    pub mode: String,
}

/// Network mirror, proxy, and acceleration settings stored in
/// `launcher_config.toml`.
#[derive(Debug, Clone)]
pub struct Network {
    /// PyPI index URL(s), semicolon-separated when multiple are supplied.
    pub pypi_mirror: String,
    /// Git URL `insteadOf` rules, semicolon-separated.
    pub git_mirror: String,
    /// Huggingface endpoint URL(s); the first one wins.
    pub hf_mirror: String,
    /// GitHub acceleration proxy URL prefix(es); the first one is exported.
    pub github_accel: String,
    /// Value for `HTTP_PROXY` / `http_proxy`.
    pub http_proxy: String,
    /// Value for `HTTPS_PROXY` / `https_proxy`.
    pub https_proxy: String,
    /// Value for `NO_PROXY` / `no_proxy`.
    pub no_proxy: String,
}

/// The launcher configuration: preferences, network settings, the stored
/// ComfyUI setting overrides, and the file they were read from.
#[derive(Clone)]
pub struct Config {
    /// General preferences.
    pub general: General,
    /// Network settings.
    pub network: Network,
    /// ComfyUI setting overrides by key.
    pub comfy_settings: SettingsMap,
    /// Path of `launcher_config.toml`.
    pub path: String,
}

impl Config {
    /// Returns the value stored for the ComfyUI setting `key`, if any.
    pub fn get_comfy(&self, key: &String) -> (r: Option<&ConfigValue>)
        ensures
            match r {
                Some(v) => setting_get(self.comfy_settings@, key@) == Some(*v),
                None => setting_get(self.comfy_settings@, key@) is None,
            },
    {
        match find_setting(&self.comfy_settings, key) {
            Some(i) => Some(&self.comfy_settings[i].1),
            None => None,
        }
    }

    /// Stores `v` for the ComfyUI setting `key` (the caller persists the
    /// configuration): reading `key` back gives `v`, and every other
    /// setting is unchanged.
    pub fn set_comfy(&mut self, key: String, v: ConfigValue)
        ensures
            setting_get(final(self).comfy_settings@, key@) == Some(v),
            forall|k: Seq<char>|
                k != key@ ==> #[trigger] setting_get(final(self).comfy_settings@, k) == setting_get(
                    old(self).comfy_settings@,
                    k,
                ),
            final(self).general == old(self).general,
            final(self).network == old(self).network,
            final(self).path == old(self).path,
    {
        let ghost key_v = key@;
        match find_setting(&self.comfy_settings, &key) {
            Some(i) => {
                let ghost before = self.comfy_settings@;
                self.comfy_settings.set(i, (key, v));
                proof {
                    assert forall|k: Seq<char>| true implies #[trigger] setting_get(
                        self.comfy_settings@,
                        k,
                    ) == if k == key_v {
                        Some(v)
                    } else {
                        setting_get(before, k)
                    } by {
                        lemma_get_update(before, i as int, key_v, self.comfy_settings@[i as int], k);
                    }
                }
            },
            None => {
                let ghost before = self.comfy_settings@;
                self.comfy_settings.push((key, v));
                proof {
                    assert forall|k: Seq<char>| true implies #[trigger] setting_get(
                        self.comfy_settings@,
                        k,
                    ) == if k == key_v {
                        Some(v)
                    } else {
                        setting_get(before, k)
                    } by {
                        lemma_get_push(before, self.comfy_settings@.last(), k);
                        assert(before.push(self.comfy_settings@.last()) =~= self.comfy_settings@);
                    }
                }
            },
        }
    }

    /// Clears every ComfyUI setting override (the caller persists the
    /// configuration): no setting is stored afterwards.
    pub fn reset_comfy_to_factory(&mut self)
        ensures
            final(self).comfy_settings@.len() == 0,
            forall|k: Seq<char>| #[trigger] setting_get(final(self).comfy_settings@, k) is None,
            final(self).general == old(self).general,
            final(self).network == old(self).network,
            final(self).path == old(self).path,
    {
        self.comfy_settings = Vec::new();
    }
}

/// The locale a legacy or misspelt language code stands for: `en` and
/// `en_US` for `en-US`, `zh` and `zh_CN` for `zh-CN`, `en_UK`, `en-GB` and
/// `en_GB` for `en-UK`.
pub open spec fn language_alias(code: Seq<char>) -> Option<Seq<char>> {
    if code == "en"@ || code == "en_US"@ {
        Some("en-US"@)
    } else if code == "zh"@ || code == "zh_CN"@ {
        Some("zh-CN"@)
    } else if code == "en_UK"@ || code == "en-GB"@ || code == "en_GB"@ {
        Some("en-UK"@)
    } else {
        None
    }
}

/// The language a stored code settles on among the `available` locales:
/// the code itself when it is one of them, else its alias when that is
/// one of them, else the first locale (the empty code when there is none).
pub open spec fn settled_language(code: Seq<char>, available: Seq<Seq<char>>) -> Seq<char> {
    if available.contains(code) {
        code
    } else if language_alias(code) matches Some(a) && available.contains(a) {
        language_alias(code).unwrap()
    } else if available.len() > 0 {
        available[0]
    } else {
        Seq::empty()
    }
}

/// Whether `code` is one of `available`.
fn is_available(code: &str, available: &Vec<String>) -> (r: bool)
    ensures
        r == available@.map_values(|a: String| a@).contains(code@),
{
    let ghost av = available@.map_values(|a: String| a@);
    let c = chars_of(code);
    let mut i: usize = 0;
    while i < available.len()
        invariant
            i <= available.len(),
            av == available@.map_values(|a: String| a@),
            c@ == code@,
            forall|j: int| 0 <= j < i ==> av[j] != code@,
        decreases available.len() - i,
    {
        if chars_eq(&chars_of(available[i].as_str()), &c) {
            assert(av[i as int] == code@);
            return true;
        }
        i = i + 1;
    }
    false
}

/// Settles a stored language code on an available locale (see
/// [`settled_language`]).
pub fn settle_language(code: &str, available: &Vec<String>) -> (r: String)
    ensures
        r@ == settled_language(code@, available@.map_values(|a: String| a@)),
{
    let ghost av = available@.map_values(|a: String| a@);
    if is_available(code, available) {
        return code.to_string();
    }
    let c = chars_of(code);
    proof {
        reveal_strlit("en");
        reveal_strlit("en_US");
        reveal_strlit("en-US");
        reveal_strlit("zh");
        reveal_strlit("zh_CN");
        reveal_strlit("zh-CN");
        reveal_strlit("en_UK");
        reveal_strlit("en-GB");
        reveal_strlit("en_GB");
        reveal_strlit("en-UK");
    }
    let alias: Option<&str> = if chars_eq(&c, &chars_of("en")) || chars_eq(&c, &chars_of("en_US")) {
        Some("en-US")
    } else if chars_eq(&c, &chars_of("zh")) || chars_eq(&c, &chars_of("zh_CN")) {
        Some("zh-CN")
    } else if chars_eq(&c, &chars_of("en_UK")) || chars_eq(&c, &chars_of("en-GB")) || chars_eq(
        &c,
        &chars_of("en_GB"),
    ) {
        Some("en-UK")
    } else {
        None
    };
    assert(match alias {
        Some(a) => language_alias(code@) == Some(a@),
        None => language_alias(code@) is None,
    });
    match alias {
        Some(a) => {
            if is_available(a, available) {
                return a.to_string();
            }
        },
        None => {},
    }
    if available.len() > 0 {
        assert(av[0] == available@[0]@);
        available[0].clone()
    } else {
        String::new()
    }
}

/// Whether the ComfyUI settings kept in the launcher file by older
/// versions (`legacy_len` of them, when the section is there) are adopted:
/// only when there are some and the ComfyUI file holds none.
pub fn adopts_legacy(current_len: usize, legacy_len: Option<usize>) -> (r: bool)
    ensures
        r == (legacy_len matches Some(n) && n > 0 && current_len == 0),
{
    match legacy_len {
        Some(n) => n > 0 && current_len == 0,
        None => false,
    }
}

} // verus!
