//! The online catalog of installable ComfyUI extensions, and the install
//! state of its entries on this machine.
//!
//! Downloading the catalog and caching it on disk belong to the application
//! shell; this module cleans the entries, orders them and matches them
//! against the installed extensions.

use crate::screens::version_mgmt::extensions_tab::Extension;
use crate::strs::{
    chars_eq, chars_of, ends, ends_with_chars, lemma_lex_asym, lemma_lex_le_trans, lex_lt,
    lower_chars, lowercase_of, lt_chars,
    slice_chars, starts, string_of, strip_prefix_chars, trim, trim_chars, trim_str,
};
use vstd::prelude::*;

verus! {

/// The cached catalog's file under the cache directory `cache_dir`.
pub fn cache_path(cache_dir: &str) -> (r: String)
    ensures
        r@ == crate::paths::path_join(cache_dir@, "extensions_cache.json"@),
{
    crate::paths::join(cache_dir, "extensions_cache.json")
}

/// URL of the official extension catalog.
pub const REGISTRY_URL: &'static str =
    "https://raw.githubusercontent.com/ltdrdata/ComfyUI-Manager/main/custom-node-list.json";

/// One entry in the extension catalog.
#[derive(Debug, Clone)]
pub struct RegistryEntry {
    /// Display title.
    pub title: String,
    /// Author name as reported by the catalog.
    pub author: String,
    /// Git URL used to install the extension.
    pub reference: String,
    /// Short description.
    pub description: String,
}

/// Installation state of a catalog entry on the local machine.
#[derive(Debug, Clone, Copy, PartialEq, Eq, Structural)]
pub enum InstallStatus {
    /// Not present in `custom_nodes`.
    NotInstalled,
    /// Installed and enabled.
    Installed,
    /// Installed but disabled (folder suffixed with `.disabled`).
    Disabled,
}

/// A git URL in the form used for comparison: trimmed, lower-cased, without
/// an `https://` or `http://` scheme, then without one trailing `/`, then
/// without a trailing `.git`.
pub open spec fn url_key(s: Seq<char>) -> Seq<char> {
    let a = lowercase_of(trim(s));
    let b = if starts(a, "https://"@) {
        a.skip("https://"@.len() as int)
    } else if starts(a, "http://"@) {
        a.skip("http://"@.len() as int)
    } else {
        a
    };
    let c = if ends(b, "/"@) {
        b.take(b.len() - "/"@.len())
    } else {
        b
    };
    if ends(c, ".git"@) {
        c.take(c.len() - ".git"@.len())
    } else {
        c
    }
}

/// Normalises a git URL for comparison (see [`url_key`]).
pub fn normalize_url(s: &str) -> (r: Vec<char>)
    ensures
        r@ == url_key(s@),
{
    let a = lower_chars(&trim_chars(&chars_of(s)));
    let b = match strip_prefix_chars(&a, &chars_of("https://")) {
        Some(t) => t,
        None => match strip_prefix_chars(&a, &chars_of("http://")) {
            Some(t) => t,
            None => a,
        },
    };
    let slash = chars_of("/");
    let c = if ends_with_chars(&b, &slash) {
        let n = b.len() - slash.len();
        let t = slice_chars(&b, 0, n);
        assert(t@ =~= b@.take(n as int));
        t
    } else {
        b
    };
    let git = chars_of(".git");
    if ends_with_chars(&c, &git) {
        let n = c.len() - git.len();
        let t = slice_chars(&c, 0, n);
        assert(t@ =~= c@.take(n as int));
        t
    } else {
        c
    }
}

/// The install status of the catalog URL `want` against `installed`: the
/// first managed extension whose remote has the same key decides (disabled
/// or installed); none means not installed.
pub open spec fn status_in(want: Seq<char>, installed: Seq<Extension>) -> InstallStatus
    decreases installed.len(),
{
    if installed.len() == 0 {
        InstallStatus::NotInstalled
    } else {
        let e = installed[0];
        if e.managed && url_key(e.remote@) == url_key(want) {
            if e.disabled {
                InstallStatus::Disabled
            } else {
                InstallStatus::Installed
            }
        } else {
            status_in(want, installed.drop_first())
        }
    }
}

/// Returns the install status of a catalog entry against the installed
/// extensions.
pub fn status_for(entry: &RegistryEntry, installed: &Vec<Extension>) -> (r: InstallStatus)
    ensures
        r == status_in(entry.reference@, installed@),
{
    let want = normalize_url(entry.reference.as_str());
    let mut i: usize = 0;
    assert(installed@.skip(0) =~= installed@);
    while i < installed.len()
        invariant
            i <= installed.len(),
            want@ == url_key(entry.reference@),
            status_in(entry.reference@, installed@) == status_in(
                entry.reference@,
                installed@.skip(i as int),
            ),
        decreases installed.len() - i,
    {
        assert(installed@.skip(i as int)[0] == installed@[i as int]);
        assert(installed@.skip(i as int).drop_first() =~= installed@.skip(i + 1));
        let ext = &installed[i];
        if ext.managed {
            let have = normalize_url(ext.remote.as_str());
            if chars_eq(&have, &want) {
                return if ext.disabled {
                    InstallStatus::Disabled
                } else {
                    InstallStatus::Installed
                };
            }
        }
        i = i + 1;
    }
    InstallStatus::NotInstalled
}

/// A catalog entry as the catalog lists it: title, author, reference and
/// description, each as found (a missing field is empty).
pub type RawEntry = (String, String, String, String);

/// An entry as plain values.
pub type EntryView = (Seq<char>, Seq<char>, Seq<char>, Seq<char>);

/// The fields of `e`.
pub open spec fn entry_view(e: RegistryEntry) -> EntryView {
    (e.title@, e.author@, e.reference@, e.description@)
}

/// The entry made of a raw catalog item: every field trimmed; items without
/// a title or a reference are dropped.
pub open spec fn clean_entry(r: EntryView) -> Option<EntryView> {
    let e = (trim(r.0), trim(r.1), trim(r.2), trim(r.3));
    if e.0.len() == 0 || e.2.len() == 0 {
        None
    } else {
        Some(e)
    }
}

/// The clean entries of `raw`, in catalog order.
pub open spec fn clean_entries(raw: Seq<EntryView>) -> Seq<EntryView>
    decreases raw.len(),
{
    if raw.len() == 0 {
        Seq::empty()
    } else {
        let p = clean_entries(raw.drop_last());
        match clean_entry(raw.last()) {
            Some(e) => p.push(e),
            None => p,
        }
    }
}

/// Where a stable sort by lower-cased title puts `x` after the list `s`.
pub open spec fn title_pos(s: Seq<EntryView>, x: EntryView) -> int
    decreases s.len(),
{
    if s.len() == 0 {
        0
    } else if lex_lt(lowercase_of(x.0), lowercase_of(s.last().0)) {
        title_pos(s.drop_last(), x)
    } else {
        s.len() as int
    }
}

/// `s` stably sorted by lower-cased title.
pub open spec fn by_title(s: Seq<EntryView>) -> Seq<EntryView>
    decreases s.len(),
{
    if s.len() == 0 {
        s
    } else {
        let t = by_title(s.drop_last());
        t.insert(title_pos(t, s.last()), s.last())
    }
}

/// Whether the entries of `s` run in order of lower-cased title: no entry's
/// lower-cased title sorts before that of an entry ahead of it.
pub open spec fn titles_in_order(s: Seq<EntryView>) -> bool {
    forall|i: int, j: int|
        #![trigger s[i], s[j]]
        0 <= i < j < s.len() ==> !lex_lt(lowercase_of(s[j].0), lowercase_of(s[i].0))
}

/// Inserting at `title_pos` keeps a list in order of lower-cased title.
proof fn lemma_insert_title_sorted(t: Seq<EntryView>, x: EntryView)
    requires
        titles_in_order(t),
    ensures
        0 <= title_pos(t, x) <= t.len(),
        titles_in_order(t.insert(title_pos(t, x), x)),
    decreases t.len(),
{
    let p = title_pos(t, x);
    if t.len() > 0 {
        let init = t.drop_last();
        let ll = lowercase_of(t.last().0);
        let lx = lowercase_of(x.0);
        assert(titles_in_order(init)) by {
            assert forall|i: int, j: int| 0 <= i < j < init.len() implies !lex_lt(
                lowercase_of(init[j].0),
                lowercase_of(init[i].0),
            ) by {
                assert(init[i] == t[i] && init[j] == t[j]);
            }
        }
        if lex_lt(lx, ll) {
            lemma_insert_title_sorted(init, x);
            lemma_lex_asym(lx, ll);
            let r0 = init.insert(p, x);
            let r = t.insert(p, x);
            assert(r =~= r0.push(t.last()));
            assert forall|i: int, j: int| 0 <= i < j < r.len() implies !lex_lt(
                lowercase_of(r[j].0),
                lowercase_of(r[i].0),
            ) by {
                if j < r.len() - 1 {
                    assert(r[i] == r0[i] && r[j] == r0[j]);
                } else {
                    assert(r[j] == t.last());
                    if i == p {
                        assert(r[i] == x);
                    } else if i < p {
                        assert(r[i] == t[i]);
                    } else {
                        assert(r[i] == t[i - 1]);
                    }
                }
            }
        } else {
            let r = t.insert(p, x);
            assert(p == t.len());
            assert(r =~= t.push(x));
            assert forall|i: int, j: int| 0 <= i < j < r.len() implies !lex_lt(
                lowercase_of(r[j].0),
                lowercase_of(r[i].0),
            ) by {
                if j < r.len() - 1 {
                    assert(r[i] == t[i] && r[j] == t[j]);
                } else {
                    assert(r[j] == x);
                    assert(r[i] == t[i]);
                    if i < t.len() - 1 {
                        assert(t[t.len() - 1] == t.last());
                        lemma_lex_le_trans(lowercase_of(t[i].0), ll, lx);
                    }
                }
            }
        }
    }
}

/// The catalog runs in order of lower-cased title (so "rgthree's nodes"
/// comes before "Zeta Pack"), and holds exactly the clean entries, each as
/// often as the catalog lists it.
pub proof fn law_catalog_by_lower_title(s: Seq<EntryView>)
    ensures
        titles_in_order(by_title(s)),
        by_title(s).to_multiset() == s.to_multiset(),
    decreases s.len(),
{
    broadcast use vstd::seq_lib::to_multiset_insert, vstd::seq_lib::to_multiset_build;

    if s.len() > 0 {
        law_catalog_by_lower_title(s.drop_last());
        let t = by_title(s.drop_last());
        lemma_insert_title_sorted(t, s.last());
        assert(s.drop_last().push(s.last()) =~= s);
    } else {
        assert(by_title(s) == s);
    }
}

/// The catalog built from its raw items: cleaned (see [`clean_entry`]) and
/// sorted by lower-cased title, ties kept in catalog order.
pub fn build_catalog(raw: &Vec<RawEntry>) -> (r: Vec<RegistryEntry>)
    ensures
        r@.map_values(|e: RegistryEntry| entry_view(e)) == by_title(
            clean_entries(raw@.map_values(|x: RawEntry| (x.0@, x.1@, x.2@, x.3@))),
        ),
{
    let ghost rv = raw@.map_values(|x: RawEntry| (x.0@, x.1@, x.2@, x.3@));
    let mut out: Vec<RegistryEntry> = Vec::new();
    let mut keys: Vec<Vec<char>> = Vec::new();
    let mut i: usize = 0;
    assert(rv.take(0) =~= Seq::<EntryView>::empty());
    assert(out@.map_values(|e: RegistryEntry| entry_view(e)) =~= Seq::<EntryView>::empty());
    while i < raw.len()
        invariant
            i <= raw.len(),
            rv == raw@.map_values(|x: RawEntry| (x.0@, x.1@, x.2@, x.3@)),
            keys@.len() == out@.len(),
            forall|j: int| 0 <= j < keys@.len() ==> #[trigger] keys@[j]@ == lowercase_of(out@[j].title@),
            out@.map_values(|e: RegistryEntry| entry_view(e)) == by_title(
                clean_entries(rv.take(i as int)),
            ),
        decreases raw.len() - i,
    {
        assert(rv.take(i + 1).drop_last() =~= rv.take(i as int));
        let ghost prev = clean_entries(rv.take(i as int));
        let item = &raw[i];
        let title = trim_str(item.0.as_str());
        let reference = trim_str(item.2.as_str());
        if !title.as_str().is_empty() && !reference.as_str().is_empty() {
            let e = RegistryEntry {
                title,
                author: trim_str(item.1.as_str()),
                reference,
                description: trim_str(item.3.as_str()),
            };
            let ghost ev = entry_view(e);
            assert(clean_entry(rv[i as int]) == Some(ev));
            assert(prev.push(ev).drop_last() =~= prev);
            let key = lower_chars(&chars_of(e.title.as_str()));
            let ghost s = out@.map_values(|e: RegistryEntry| entry_view(e));
            let mut p = out.len();
            let mut done = false;
            assert(s.take(p as int) =~= s);
            while !done && p > 0
                invariant
                    p <= out@.len(),
                    keys@.len() == out@.len(),
                    forall|j: int| 0 <= j < keys@.len() ==> #[trigger] keys@[j]@ == lowercase_of(out@[j].title@),
                    s == out@.map_values(|e: RegistryEntry| entry_view(e)),
                    key@ == lowercase_of(ev.0),
                    title_pos(s, ev) == title_pos(s.take(p as int), ev),
                    done ==> title_pos(s.take(p as int), ev) == p,
                decreases p + (if done {
                    0int
                } else {
                    1int
                }),
            {
                assert(s.take(p as int).last() == s[p - 1]);
                assert(s.take(p as int).drop_last() =~= s.take(p - 1));
                assert(keys@[p - 1]@ == lowercase_of(out@[p - 1].title@));
                if lt_chars(&key, &keys[p - 1]) {
                    p = p - 1;
                } else {
                    done = true;
                }
            }
            let ghost ok = keys@;
            let ghost oo = out@;
            out.insert(p, e);
            keys.insert(p, key);
            assert(out@.map_values(|e: RegistryEntry| entry_view(e)) =~= s.insert(p as int, ev));
            assert forall|j: int| 0 <= j < keys@.len() implies #[trigger] keys@[j]@ == lowercase_of(
                out@[j].title@,
            ) by {
                if j < p {
                    assert(keys@[j] == ok[j] && out@[j] == oo[j]);
                } else if j > p {
                    assert(keys@[j] == ok[j - 1] && out@[j] == oo[j - 1]);
                }
            }
        } else {
            assert(clean_entry(rv[i as int]) is None);
        }
        i = i + 1;
    }
    assert(rv.take(raw.len() as int) =~= rv);
    out
}

} // verus!
