//! Install New extensions tab.
//!
//! Combines a URL-driven install field with the searchable ComfyUI-Manager
//! extension catalog.

use crate::app::FlashKind;
use crate::config::Config;
use crate::env::{build, EnvList};
use crate::geom::{fits, Key, Mouse, MouseKind, Rect};
use crate::layout::{laid_out, piece_of, split, Constraint};
use crate::text::{str_width_of, width};
use crate::widgets::popup::{center, centered};
use crate::paths::{file_name, file_name_of, join, path_join, ComfyDirs};
use crate::registry::{normalize_url, status_for, status_in, url_key, InstallStatus, RegistryEntry};
use crate::screens::version_mgmt::extensions_tab::{all_idx, env_for, Extension};
use crate::screens::version_mgmt::{keep_visible, visible_scroll, Job, TaskKind, TaskRequest};
use crate::strs::{
    chars_eq, chars_of, contains_chars, copy_chars, ends, ends_with_chars, find_char, find_first,
    first_index, first_occ, has_sub, lower_chars, lowercase_of, slice_chars, split_chars, split_on,
    starts, starts_with_chars, string_of, trim, trim_chars,
};
use crate::widgets::button::{poll_next, Button, ButtonKind};
use crate::widgets::input::{input_step, Input};
use crate::widgets::popup::notice::{notice_clicked, notice_keyed, Notice, NoticeCopy, NoticeOutcome};
use vstd::prelude::*;

verus! {

/// ASCII lower-casing of one character.
pub open spec fn ascii_lower(c: char) -> char {
    if 'A' <= c && c <= 'Z' {
        (((c as u32) as u8) + 32) as char
    } else {
        c
    }
}

/// `str::eq_ignore_ascii_case`.
pub open spec fn eq_ascii_ci(a: Seq<char>, b: Seq<char>) -> bool {
    a.len() == b.len() && forall|i: int| 0 <= i < a.len() ==> ascii_lower(#[trigger] a[i]) == ascii_lower(b[i])
}

fn lower_ascii(c: char) -> (r: char)
    ensures
        r == ascii_lower(c),
{
    if 'A' <= c && c <= 'Z' {
        let b: u8 = (c as u32) as u8;
        ((b + 32) as char)
    } else {
        c
    }
}

fn eq_ci(a: &Vec<char>, b: &str) -> (r: bool)
    ensures
        r == eq_ascii_ci(a@, b@),
{
    let bv = chars_of(b);
    if a.len() != bv.len() {
        return false;
    }
    let mut i: usize = 0;
    while i < a.len()
        invariant
            i <= a.len() == bv@.len(),
            bv@ == b@,
            forall|j: int| 0 <= j < i ==> ascii_lower(#[trigger] a@[j]) == ascii_lower(bv@[j]),
        decreases a.len() - i,
    {
        if lower_ascii(a[i]) != lower_ascii(bv[i]) {
            return false;
        }
        i = i + 1;
    }
    true
}

/// Hosts whose `https://` URLs are accepted with a `<user>/<repo>` path.
pub open spec fn known_host(h: Seq<char>) -> bool {
    eq_ascii_ci(h, "github.com"@) || eq_ascii_ci(h, "gitlab.com"@) || eq_ascii_ci(
        h,
        "bitbucket.org"@,
    ) || eq_ascii_ci(h, "codeberg.org"@) || eq_ascii_ci(h, "gitee.com"@) || eq_ascii_ci(
        h,
        "git.sr.ht"@,
    ) || eq_ascii_ci(h, "sr.ht"@)
}

/// Number of non-empty pieces.
pub open spec fn nonempty_count(ps: Seq<Seq<char>>) -> nat
    decreases ps.len(),
{
    if ps.len() == 0 {
        0
    } else {
        nonempty_count(ps.drop_last()) + if ps.last().len() > 0 {
            1nat
        } else {
            0nat
        }
    }
}

/// Whether `s` looks like a git URL: after trimming it is not empty and
/// either ends in `.git` (ignoring case), is `git@host:...` shorthand,
/// uses the `ssh://` or `git://` scheme, or is an `http(s)://` URL on a
/// known git host with at least a `<user>/<repo>` path.
pub open spec fn git_url_ok(s: Seq<char>) -> bool {
    let t = trim(s);
    let lower = lowercase_of(t);
    if t.len() == 0 {
        false
    } else if ends(lower, ".git"@) {
        true
    } else if starts(lower, "git@"@) && first_index(t, ':') is Some {
        true
    } else if starts(lower, "ssh://"@) || starts(lower, "git://"@) {
        true
    } else if starts(lower, "https://"@) || starts(lower, "http://"@) {
        let rest = match first_occ(t, "://"@) {
            Some(i) => t.skip(i + 3),
            None => Seq::empty(),
        };
        let host = split_on(rest, '/')[0];
        let bare = split_on(host, ':')[0];
        if known_host(bare) {
            let path = match first_index(rest, '/') {
                Some(j) => rest.skip(j + 1),
                None => Seq::empty(),
            };
            nonempty_count(split_on(path, '/')) >= 2
        } else {
            false
        }
    } else {
        false
    }
}

/// Checks whether `s` looks like a git URL (see [`git_url_ok`]).
pub fn is_valid_git_url(s: &str) -> (r: bool)
    ensures
        r == git_url_ok(s@),
{
    let t = trim_chars(&chars_of(s));
    if t.len() == 0 {
        return false;
    }
    let lower = lower_chars(&t);
    if ends_with_chars(&lower, &chars_of(".git")) {
        return true;
    }
    if starts_with_chars(&lower, &chars_of("git@")) && find_char(&t, ':').is_some() {
        return true;
    }
    if starts_with_chars(&lower, &chars_of("ssh://")) || starts_with_chars(
        &lower,
        &chars_of("git://"),
    ) {
        return true;
    }
    if starts_with_chars(&lower, &chars_of("https://")) || starts_with_chars(
        &lower,
        &chars_of("http://"),
    ) {
        let sep = chars_of("://");
        assert(sep@.len() == 3) by {
            reveal_strlit("://");
        }
        let found = find_first(&t, &sep);
        let rest = match found {
            Some(i) => {
                let n = t.len();
                let r = slice_chars(&t, i + 3, n);
                assert(r@ =~= t@.skip(i + 3));
                r
            },
            None => Vec::new(),
        };
        let pieces = split_chars(&rest, '/');
        assert(pieces@[0]@ == split_on(rest@, '/')[0]);
        let hp = split_chars(&pieces[0], ':');
        assert(hp@[0]@ == split_on(pieces@[0]@, ':')[0]);
        let bare = &hp[0];
        let known = eq_ci(bare, "github.com") || eq_ci(bare, "gitlab.com") || eq_ci(
            bare,
            "bitbucket.org",
        ) || eq_ci(bare, "codeberg.org") || eq_ci(bare, "gitee.com") || eq_ci(bare, "git.sr.ht")
            || eq_ci(bare, "sr.ht");
        if known {
            let path = match find_char(&rest, '/') {
                Some(j) => {
                    let n = rest.len();
                    let r = slice_chars(&rest, j + 1, n);
                    assert(r@ =~= rest@.skip(j + 1));
                    r
                },
                None => Vec::new(),
            };
            let segs = split_chars(&path, '/');
            let ghost sv = segs@.map_values(|x: Vec<char>| x@);
            let mut count: usize = 0;
            let mut i: usize = 0;
            assert(sv.take(0) =~= Seq::<Seq<char>>::empty());
            while i < segs.len()
                invariant
                    i <= segs.len(),
                    sv == segs@.map_values(|x: Vec<char>| x@),
                    count == nonempty_count(sv.take(i as int)),
                    count <= i,
                decreases segs.len() - i,
            {
                assert(sv.take(i + 1).drop_last() =~= sv.take(i as int));
                if segs[i].len() > 0 {
                    count = count + 1;
                }
                i = i + 1;
            }
            assert(sv.take(segs.len() as int) =~= sv);
            return count >= 2;
        }
    }
    false
}

/// `s` without every trailing `.git` (`str::trim_end_matches(".git")`).
pub open spec fn trim_git(s: Seq<char>) -> Seq<char>
    decreases s.len(),
{
    if s.len() >= 4 && ends(s, ".git"@) {
        trim_git(s.take(s.len() - 4))
    } else {
        s
    }
}

/// The directory name an install from `url` uses: the part after the last
/// `/`, without trailing `.git`s.
pub open spec fn repo_dir_name(url: Seq<char>) -> Seq<char> {
    trim_git(split_on(url, '/').last())
}

/// The directory name an install from `url` uses (see [`repo_dir_name`]).
pub fn repo_name(url: &str) -> (r: String)
    ensures
        r@ == repo_dir_name(url@),
{
    let v = chars_of(url);
    let parts = split_chars(&v, '/');
    let ghost pv = parts@.map_values(|x: Vec<char>| x@);
    assert(pv.last() == parts@[parts.len() - 1]@);
    let mut cur = copy_chars(&parts[parts.len() - 1]);
    let git = chars_of(".git");
    assert(git@.len() == 4) by {
        reveal_strlit(".git");
    }
    while cur.len() >= 4 && ends_with_chars(&cur, &git)
        invariant
            git@ == ".git"@,
            git@.len() == 4,
            trim_git(cur@) == repo_dir_name(url@),
        decreases cur.len(),
    {
        let n = cur.len() - 4;
        let t = slice_chars(&cur, 0, n);
        assert(t@ =~= cur@.take(cur@.len() - 4));
        cur = t;
    }
    string_of(&cur)
}

/// An action of the catalog actions menu.
#[derive(Clone, Copy, Debug, PartialEq, Eq, Structural)]
pub enum InstallAction {
    /// Update the installed copy to its upstream head.
    UpdateToLatest,
    /// Clone and install the extension.
    Install,
    /// Open the extension's URL in a browser.
    OpenUrl,
}

/// The i18n key of an action's label.
pub open spec fn install_action_key(a: InstallAction) -> Seq<char> {
    match a {
        InstallAction::UpdateToLatest => "btn_update_to_latest"@,
        InstallAction::Install => "btn_install"@,
        InstallAction::OpenUrl => "btn_open_url"@,
    }
}

impl InstallAction {
    /// i18n key of the action's label.
    pub fn label_key(&self) -> (r: &'static str)
        ensures
            r@ == install_action_key(*self),
    {
        match self {
            InstallAction::UpdateToLatest => "btn_update_to_latest",
            InstallAction::Install => "btn_install",
            InstallAction::OpenUrl => "btn_open_url",
        }
    }
}

/// Actions popup shown for a catalog row.
pub struct InstallActionsMenu {
    /// Catalog entry the popup belongs to.
    pub entry: RegistryEntry,
    /// Currently selected row index inside the popup.
    pub selected: usize,
    /// Whether the entry is already installed locally.
    pub installed: bool,
    /// On-disk path of the already-installed extension, when known.
    pub installed_path: Option<String>,
}

/// The rows of a catalog actions menu with whether each is enabled: an
/// installed entry gets a leading Update row (enabled when its directory
/// is known) and a disabled Install row; Open URL needs a URL.
pub open spec fn install_items(am: InstallActionsMenu) -> Seq<(InstallAction, bool)> {
    let tail = seq![
        (InstallAction::Install, !am.installed),
        (InstallAction::OpenUrl, am.entry.reference@.len() > 0),
    ];
    if am.installed {
        seq![(InstallAction::UpdateToLatest, am.installed_path is Some)] + tail
    } else {
        tail
    }
}

impl InstallActionsMenu {
    /// Returns the visible rows with whether each is enabled.
    pub fn items(&self) -> (r: Vec<(InstallAction, bool)>)
        ensures
            r@ == install_items(*self),
    {
        let mut rows: Vec<(InstallAction, bool)> = Vec::new();
        if self.installed {
            rows.push((InstallAction::UpdateToLatest, self.installed_path.is_some()));
        }
        rows.push((InstallAction::Install, !self.installed));
        rows.push((InstallAction::OpenUrl, !self.entry.reference.as_str().is_empty()));
        assert(rows@ =~= install_items(*self));
        rows
    }
}

/// Which control on the Install tab currently holds focus.
#[derive(Clone, Copy, Debug, PartialEq, Eq, Structural)]
pub enum InstallFocus {
    /// URL input.
    Url,
    /// Install button next to the URL input.
    InstallBtn,
    /// Search input above the catalog.
    Search,
    /// Catalog table.
    Catalog,
}

/// Install New extensions tab state.
pub struct InstallTab {
    /// URL input.
    pub url: Input,
    /// Search input filtering the catalog.
    pub search: Input,
    /// Currently focused control.
    pub focus: InstallFocus,
    /// Cached catalog entries.
    pub catalog: Vec<RegistryEntry>,
    /// Whether `catalog` has been loaded.
    pub catalog_loaded: bool,
    /// Selected catalog row.
    pub catalog_selected: usize,
    /// Catalog scroll offset.
    pub catalog_scroll: usize,
    /// Number of catalog rows displayed per frame.
    pub catalog_visible_rows: usize,
    /// Actions popup for the selected catalog entry.
    pub actions_menu: Option<InstallActionsMenu>,
    /// Notice popup.
    pub notice: Option<Notice>,
    /// Flash message awaiting promotion to the application banner.
    pub pending_flash: Option<(FlashKind, String)>,
    /// Persistent Install button next to the URL input.
    pub btn_install: Button,
    /// Last focused control in the top row (URL or Install), restored when
    /// navigating back to it.
    pub last_row0_col: InstallFocus,
}

/// What a key on the Install tab asks of the application shell.
pub enum InstallOutcome {
    /// Run this background job.
    Task(TaskRequest),
    /// The URL typed is not a git URL; the shell flashes an error.
    InvalidUrl,
    /// Open this URL in a browser; when that fails, call `show_url_notice`.
    OpenUrl {
        /// The URL.
        url: String,
    },
    /// Copy this text to the clipboard (the notice's Copy URL button).
    Copy(String),
}

/// Whether a catalog entry matches the search `q` (title or description,
/// ignoring case).
pub open spec fn entry_matches(e: RegistryEntry, q: Seq<char>) -> bool {
    has_sub(lowercase_of(e.title@), lowercase_of(q)) || has_sub(lowercase_of(e.description@), lowercase_of(q))
}

/// Indices of the entries matching `q`, in order.
pub open spec fn entry_idx(es: Seq<RegistryEntry>, q: Seq<char>) -> Seq<usize>
    decreases es.len(),
{
    if es.len() == 0 {
        Seq::empty()
    } else {
        let p = entry_idx(es.drop_last(), q);
        if entry_matches(es.last(), q) {
            p.push((es.len() - 1) as usize)
        } else {
            p
        }
    }
}

/// The catalog rows shown: all entries for an empty search, else the
/// matches.
pub open spec fn catalog_filter(es: Seq<RegistryEntry>, q: Seq<char>) -> Seq<usize> {
    if lowercase_of(q).len() == 0 {
        all_idx(es.len())
    } else {
        entry_idx(es, q)
    }
}

/// Every catalog row shown is an index into the catalog.
pub proof fn lemma_catalog_filter_in_range(es: Seq<RegistryEntry>, q: Seq<char>)
    requires
        es.len() <= usize::MAX,
    ensures
        forall|j: int|
            0 <= j < catalog_filter(es, q).len() ==> #[trigger] catalog_filter(es, q)[j] < es.len(),
{
    crate::screens::version_mgmt::extensions_tab::lemma_all_idx_facts(es.len());
    lemma_entry_idx(es, q);
}

proof fn lemma_entry_idx(es: Seq<RegistryEntry>, q: Seq<char>)
    requires
        es.len() <= usize::MAX,
    ensures
        forall|j: int| 0 <= j < entry_idx(es, q).len() ==> #[trigger] entry_idx(es, q)[j] < es.len(),
    decreases es.len(),
{
    if es.len() > 0 {
        lemma_entry_idx(es.drop_last(), q);
        let p = entry_idx(es.drop_last(), q);
        assert forall|j: int| 0 <= j < entry_idx(es, q).len() implies #[trigger] entry_idx(es, q)[j]
            < es.len() by {
            if j < p.len() {
                assert(entry_idx(es, q)[j] == p[j]);
            }
        }
    }
}

/// The first managed installed extension whose remote has the key `want`.
pub open spec fn installed_with(installed: Seq<Extension>, want: Seq<char>) -> Option<int>
    decreases installed.len(),
{
    if installed.len() == 0 {
        None
    } else if installed[0].managed && url_key(installed[0].remote@) == want {
        Some(0)
    } else {
        match installed_with(installed.drop_first(), want) {
            Some(i) => Some(i + 1),
            None => None,
        }
    }
}

/// The directory an install from `url` clones into under the configured
/// ComfyUI root.
pub open spec fn install_dest(cfg: Config, url: Seq<char>) -> Seq<char> {
    path_join(path_join(cfg.general.comfyui_dir@, "custom_nodes"@), repo_dir_name(url))
}

/// Whether `t` installs `url` under the configured root.
pub open spec fn install_task(t: TaskRequest, cfg: Config, url: Seq<char>) -> bool {
    t.follow_up == TaskKind::Nothing && !t.is_refresh && (t.job matches Job::Install {
        url: u,
        dest,
        env,
        python,
    } && u@ == url && dest@ == install_dest(cfg, url) && env_for(env, cfg) && python
        == cfg.general.python)
}

/// `a` with catalog row `s` selected and scrolled into view.
pub open spec fn catalog_at(a: InstallTab, s: int) -> InstallTab {
    InstallTab {
        catalog_selected: s as usize,
        catalog_scroll: visible_scroll(
            s,
            a.catalog_scroll as int,
            a.catalog_visible_rows as int,
        ) as usize,
        ..a
    }
}

/// Enter on the URL box or the Install button: a trimmed git URL is
/// installed (and the box emptied); anything else is reported as invalid.
pub open spec fn url_install(a: InstallTab, b: InstallTab, cfg: Config, r: Option<InstallOutcome>) -> bool {
    let url = trim(a.url.value@);
    if !git_url_ok(url) {
        b == a && r == Some(InstallOutcome::InvalidUrl)
    } else {
        b == (InstallTab { url: b.url, ..a }) && b.url.value@.len() == 0 && b.url.cursor == 0
            && b.url.placeholder_key == a.url.placeholder_key && (r matches Some(
            InstallOutcome::Task(t),
        ) && install_task(t, cfg, url))
    }
}

/// Enter on a catalog row: opens its actions menu, noting whether (and
/// where) the entry is installed.
pub open spec fn catalog_open(a: InstallTab, b: InstallTab, installed: Seq<Extension>) -> bool {
    let rows = catalog_filter(a.catalog@, a.search.value@);
    let sel = a.catalog_selected as int;
    if sel >= rows.len() {
        b == a
    } else {
        let e = a.catalog@[rows[sel] as int];
        let is_in = status_in(e.reference@, installed) != InstallStatus::NotInstalled;
        let path = if is_in {
            match installed_with(installed, url_key(e.reference@)) {
                Some(i) => Some(installed[i].path),
                None => None,
            }
        } else {
            None
        };
        b == (InstallTab {
            actions_menu: Some(
                InstallActionsMenu { entry: e, selected: 0, installed: is_in, installed_path: path },
            ),
            ..a
        })
    }
}

/// Enter on an enabled action of `am`: the menu closes and the action
/// runs.
pub open spec fn install_action_done(
    a: InstallTab,
    b: InstallTab,
    am: InstallActionsMenu,
    act: InstallAction,
    cfg: Config,
    r: Option<InstallOutcome>,
) -> bool {
    b == (InstallTab { actions_menu: None, ..a }) && match act {
        InstallAction::UpdateToLatest => match am.installed_path {
            None => r is None,
            Some(path) => r matches Some(InstallOutcome::Task(t)) && t.follow_up == TaskKind::Nothing
                && !t.is_refresh && (t.job matches Job::ExtUpdateOne { path: p, name, env, python }
                && p == path && name@ == (match file_name_of(path@) {
                Some(n) => n,
                None => "ext"@,
            }) && env_for(env, cfg) && python == cfg.general.python),
        },
        InstallAction::Install => r matches Some(InstallOutcome::Task(t)) && install_task(
            t,
            cfg,
            am.entry.reference@,
        ),
        InstallAction::OpenUrl => r == Some(InstallOutcome::OpenUrl { url: am.entry.reference }),
    }
}

/// Up from the URL box or the Install button: to the last catalog row, or
/// to the search box when the catalog shows nothing.
pub open spec fn up_to_catalog(a: InstallTab, b: InstallTab) -> bool {
    let n = catalog_filter(a.catalog@, a.search.value@).len() as int;
    if n > 0 {
        b == catalog_at(InstallTab { focus: InstallFocus::Catalog, ..a }, n - 1)
    } else {
        b == (InstallTab { focus: InstallFocus::Search, ..a })
    }
}

/// The effect of a key on the Install tab. The notice popup, then the
/// actions menu, take keys first. Otherwise: in the URL box Tab goes to
/// the Install button, Enter installs, Down goes to the search box, Up to
/// the catalog's last row, other keys (but Left and Right) edit the URL;
/// on the Install button Enter installs and Down and Up move as from the
/// URL box; in the search box Tab and Enter or Down enter the catalog (the
/// latter at its top), Up returns to the top row, other keys edit the
/// search; on the catalog Tab goes to the URL box, BackTab to the search
/// box, Up and Down move (leaving the catalog past its ends), Enter opens
/// the row's actions, PageUp returns to the top row, PageDown jumps to the
/// last row, and `r` reloads the catalog.
pub open spec fn install_key(
    a: InstallTab,
    b: InstallTab,
    k: Key,
    cfg: Config,
    installed: Seq<Extension>,
    r: Option<InstallOutcome>,
) -> bool {
    if a.notice is Some {
        a.notice matches Some(n) && r is None && b == (InstallTab { notice: b.notice, ..a }) && if k
            == Key::Esc {
            b.notice is None
        } else {
            b.notice matches Some(n2) && notice_keyed(n, n2, k)
        }
    } else if a.actions_menu is Some {
        a.actions_menu matches Some(am) && {
            let n = install_items(am).len() as int;
            let sel = am.selected as int;
            let moved = |s: int| r is None && b == (InstallTab {
                actions_menu: Some(InstallActionsMenu { selected: s as usize, ..am }),
                ..a
            });
            match k {
                Key::Esc => r is None && b == (InstallTab { actions_menu: None, ..a }),
                Key::Up => moved(if sel == 0 {
                    n - 1
                } else {
                    sel - 1
                }),
                Key::Down => moved((sel + 1) % n),
                Key::PageUp => moved(0),
                Key::PageDown => moved(n - 1),
                Key::Enter => {
                    let (act, enabled) = install_items(am)[sel];
                    if !enabled {
                        r is None && b == a
                    } else {
                        install_action_done(a, b, am, act, cfg, r)
                    }
                },
                _ => r is None && b == a,
            }
        }
    } else {
        let n = catalog_filter(a.catalog@, a.search.value@).len() as int;
        let sel = a.catalog_selected as int;
        match a.focus {
            InstallFocus::Url => match k {
                Key::Tab => r is None && b == (InstallTab { focus: InstallFocus::InstallBtn, ..a }),
                Key::Enter => url_install(a, b, cfg, r),
                Key::Down => r is None && b == (InstallTab { focus: InstallFocus::Search, ..a }),
                Key::Up => r is None && up_to_catalog(a, b),
                Key::Left | Key::Right => r is None && b == a,
                _ => r is None && b == (InstallTab { url: b.url, ..a }) && b.url.placeholder_key
                    == a.url.placeholder_key && (b.url.value@, b.url.cursor as int) == input_step(
                    a.url.value@,
                    a.url.cursor as int,
                    k,
                ),
            },
            InstallFocus::InstallBtn => match k {
                Key::Enter => url_install(a, b, cfg, r),
                Key::Down => r is None && b == (InstallTab { focus: InstallFocus::Search, ..a }),
                Key::Up => r is None && up_to_catalog(a, b),
                _ => r is None && b == a,
            },
            InstallFocus::Search => r is None && match k {
                Key::Tab => b == (InstallTab { focus: InstallFocus::Catalog, ..a }),
                Key::Enter | Key::Down => b == (InstallTab {
                    focus: InstallFocus::Catalog,
                    catalog_selected: 0,
                    catalog_scroll: 0,
                    ..a
                }),
                Key::Up => b == (InstallTab { focus: a.last_row0_col, ..a }),
                Key::Left | Key::Right => b == a,
                _ => b == (InstallTab {
                    search: b.search,
                    catalog_selected: 0,
                    catalog_scroll: 0,
                    ..a
                }) && b.search.placeholder_key == a.search.placeholder_key && (
                b.search.value@, b.search.cursor as int) == input_step(
                    a.search.value@,
                    a.search.cursor as int,
                    k,
                ),
            },
            InstallFocus::Catalog => match k {
                Key::Tab => r is None && b == (InstallTab { focus: InstallFocus::Url, ..a }),
                Key::BackTab => r is None && b == (InstallTab { focus: InstallFocus::Search, ..a }),
                Key::Up => r is None && if n == 0 {
                    b == a
                } else if sel == 0 {
                    b == catalog_at(InstallTab { focus: InstallFocus::Search, ..a }, sel)
                } else {
                    b == catalog_at(a, sel - 1)
                },
                Key::Down => r is None && if n == 0 {
                    b == a
                } else if sel + 1 >= n {
                    b == catalog_at(InstallTab { focus: a.last_row0_col, ..a }, sel)
                } else {
                    b == catalog_at(a, sel + 1)
                },
                Key::Enter => r is None && catalog_open(a, b, installed),
                Key::PageUp => r is None && b == (InstallTab { focus: a.last_row0_col, ..a }),
                Key::PageDown => r is None && if n > 0 {
                    b == catalog_at(InstallTab { focus: InstallFocus::Catalog, ..a }, n - 1)
                } else {
                    b == a
                },
                Key::Char(c) => b == a && if c == 'r' || c == 'R' {
                    r matches Some(InstallOutcome::Task(t)) && t.follow_up == TaskKind::Nothing
                        && t.is_refresh && (t.job matches Job::FetchRegistry { env } && env_for(
                        env,
                        cfg,
                    ))
                } else {
                    r is None
                },
                _ => r is None && b == a,
            },
        }
    }
}

/// Cells taken by the Install button labelled `label`: the label and six
/// cells of border and padding (saturating), at least twelve.
pub open spec fn install_cells(label: Seq<char>) -> u16 {
    let w: int = if str_width_of(label) + 6 <= u16::MAX {
        (str_width_of(label) + 6) as int
    } else {
        u16::MAX as int
    };
    if w < 12 {
        12
    } else {
        w as u16
    }
}

/// Cells taken by the Install button labelled `label`.
pub fn install_button_width(label: &str) -> (w: u16)
    ensures
        w == install_cells(label@),
{
    let n = width(label);
    let w: u16 = if n > 65529 {
        u16::MAX
    } else {
        (n + 6) as u16
    };
    if w < 12 {
        12
    } else {
        w
    }
}

/// The actions popup's box over `area` for a menu of `n` rows: 50 cells
/// wide, the rows and border tall (at most the area's height).
pub open spec fn install_actions_box(area: Rect, n: int) -> Rect {
    centered(area, 50, if area.height < n + 2 {
        area.height
    } else {
        (n + 2) as u16
    })
}

/// A click while the actions menu is open over `area`: outside the popup
/// it closes; on a row other than the selected one it selects it; on the
/// selected row it runs the action when it is enabled.
pub open spec fn install_actions_click(
    a: InstallTab,
    b: InstallTab,
    col: int,
    row: int,
    area: Rect,
    cfg: Config,
    r: Option<InstallOutcome>,
) -> bool {
    a.actions_menu matches Some(am) && {
        let items = install_items(am);
        let p = install_actions_box(area, items.len() as int);
        let right = p.x + if p.width >= 1 {
            p.width - 1
        } else {
            0
        };
        let bottom = p.y + if p.height >= 1 {
            p.height - 1
        } else {
            0
        };
        if !p.holds(col, row) {
            r is None && b == (InstallTab { actions_menu: None, ..a })
        } else if col > p.x && col < right && row > p.y && row < bottom && row - (p.y + 1)
            < items.len() {
            let idx = row - (p.y + 1);
            if idx != am.selected {
                r is None && b == (InstallTab {
                    actions_menu: Some(InstallActionsMenu { selected: idx as usize, ..am }),
                    ..a
                })
            } else {
                let (act, enabled) = items[idx];
                if enabled {
                    install_action_done(a, b, am, act, cfg, r)
                } else {
                    r is None && b == a
                }
            }
        } else {
            r is None && b == a
        }
    }
}

/// Whether `rows` (URL row, search box, catalog) and `top` (the URL box
/// and the Install button `install_w` cells wide) can be the layout of the
/// tab over `area`.
pub open spec fn install_layout(area: Rect, install_w: u16, rows: Seq<Rect>, top: Seq<Rect>) -> bool {
    laid_out(rows, area, true, seq![Constraint::Length(3), Constraint::Length(3), Constraint::Min(0)]) && laid_out(
        top,
        rows[0],
        false,
        seq![Constraint::Min(0), Constraint::Length(install_w)],
    )
}

/// A click on the tab without a popup: the Install button is armed (it
/// fires on a later tick, see `poll_button_action`) and focused, the URL
/// box or the search box takes focus, or a click on a catalog row (below
/// the table's border and header) selects it and focuses the catalog, and
/// a second click on the selected row opens its actions.
pub open spec fn install_body_click(
    a: InstallTab,
    b: InstallTab,
    col: int,
    row: int,
    area: Rect,
    install_w: u16,
    installed: Seq<Extension>,
) -> bool {
    exists|v: Seq<Rect>, top: Seq<Rect>|
        #[trigger] install_layout(area, install_w, v, top) && install_body_click_in(
            a,
            b,
            col,
            row,
            v,
            top,
            installed,
        )
}

/// A click at (`col`, `row`) on the tab laid out as `v` (rows) and `top`
/// (URL box, Install button); see [`install_body_click`].
pub open spec fn install_body_click_in(
    a: InstallTab,
    b: InstallTab,
    col: int,
    row: int,
    v: Seq<Rect>,
    top: Seq<Rect>,
    installed: Seq<Extension>,
) -> bool {
    if top[1].holds(col, row) {
        b == (InstallTab {
            focus: InstallFocus::InstallBtn,
            last_row0_col: InstallFocus::InstallBtn,
            btn_install: b.btn_install,
            ..a
        }) && b.btn_install@ == (a.btn_install@.0, Some(false))
    } else if top[0].holds(col, row) {
        b == (InstallTab { focus: InstallFocus::Url, last_row0_col: InstallFocus::Url, ..a })
    } else if v[1].holds(col, row) {
        b == (InstallTab { focus: InstallFocus::Search, ..a })
    } else if !v[2].holds(col, row) || row < v[2].y + 2 {
        b == a
    } else {
        let idx = a.catalog_scroll + (row - (v[2].y + 2));
        if idx >= catalog_filter(a.catalog@, a.search.value@).len() {
            b == a
        } else if a.focus != InstallFocus::Catalog || idx != a.catalog_selected {
            b == catalog_at(InstallTab { focus: InstallFocus::Catalog, ..a }, idx)
        } else {
            catalog_open(a, b, installed)
        }
    }
}

/// A mouse event on the Install tab drawn over `area`: only a left click
/// does anything; the notice popup takes it first, then the actions menu,
/// else the tab's body.
pub open spec fn install_click(
    a: InstallTab,
    b: InstallTab,
    m: Mouse,
    area: Rect,
    cfg: Config,
    install_w: u16,
    installed: Seq<Extension>,
    r: Option<InstallOutcome>,
) -> bool {
    let col = m.column as int;
    let row = m.row as int;
    if m.kind != MouseKind::LeftDown {
        r is None && b == a
    } else if a.notice is Some {
        a.notice matches Some(n) && r is None && b == (InstallTab { notice: b.notice, ..a }) && (
        if !centered(area, 60, 9).holds(col, row) {
            b.notice is None
        } else {
            b.notice matches Some(n2) && notice_clicked(n, n2, m, area, None)
        })
    } else if a.actions_menu is Some {
        install_actions_click(a, b, col, row, area, cfg, r)
    } else {
        r is None && install_body_click(a, b, col, row, area, install_w, installed)
    }
}

/// What a notice's tick reports: OK fired (close), Copy fired (its text),
/// or neither.
pub open spec fn notice_fired(n: Notice) -> Option<Option<Seq<char>>> {
    if n.ok_state() == Some(true) {
        Some(None)
    } else if n.copy_state() == Some(true) {
        Some(
            Some(
                match n.copy {
                    Some(c) => c.payload@,
                    None => Seq::<char>::empty(),
                },
            ),
        )
    } else {
        None
    }
}

/// One tick of the tab's deferred buttons: the notice closes when either
/// of its buttons fired (and otherwise advances), the Install button
/// advances and, when it fires, installs the typed URL; failing that, a
/// fired Copy asks to copy the notice's text.
pub open spec fn install_polled(a: InstallTab, b: InstallTab, cfg: Config, r: Option<InstallOutcome>) -> bool {
    let nf = match a.notice {
        Some(n) => notice_fired(n),
        None => None,
    };
    let a1 = InstallTab { notice: b.notice, btn_install: b.btn_install, ..a };
    &&& match a.notice {
        None => b.notice is None,
        Some(n) => if nf is Some {
            b.notice is None
        } else {
            b.notice matches Some(n2) && n2.title == n.title && n2.body == n.body && n2.copy
                == n.copy && n2.ok_state() == poll_next(n.ok_state()) && n2.copy_state()
                == poll_next(n.copy_state())
        },
    }
    &&& b.btn_install@ == (a.btn_install@.0, poll_next(a.btn_install.pending_state()))
    &&& if a.btn_install.pending_state() == Some(true) {
        url_install(a1, b, cfg, r)
    } else {
        b == a1 && match nf {
            Some(Some(text)) => r matches Some(InstallOutcome::Copy(s)) && s@ == text,
            _ => r is None,
        }
    }
}

/// A copy of `e`.
pub fn copy_entry(e: &RegistryEntry) -> (r: RegistryEntry)
    ensures
        r == *e,
{
    RegistryEntry {
        title: e.title.clone(),
        author: e.author.clone(),
        reference: e.reference.clone(),
        description: e.description.clone(),
    }
}

/// The background download of the extension catalog.
pub fn fetch_registry_request(env: EnvList) -> (t: TaskRequest)
    ensures
        t.follow_up == TaskKind::Nothing,
        t.is_refresh,
        t.job == (Job::FetchRegistry { env }),
{
    TaskRequest { job: Job::FetchRegistry { env }, follow_up: TaskKind::Nothing, is_refresh: true }
}

fn install_request(url: String, cfg: &Config) -> (t: TaskRequest)
    ensures
        install_task(t, *cfg, url@),
{
    let dirs = ComfyDirs::new(cfg.general.comfyui_dir.as_str());
    let base = dirs.custom_nodes();
    let name = repo_name(url.as_str());
    let dest = join(base.as_str(), name.as_str());
    TaskRequest {
        job: Job::Install {
            url,
            dest,
            env: build(&cfg.network),
            python: cfg.general.python.clone(),
        },
        follow_up: TaskKind::Nothing,
        is_refresh: false,
    }
}

/// The tab after one wheel step (see [`InstallTab::scroll`]).
pub open spec fn install_scrolled(a: InstallTab, delta: i32) -> InstallTab {
    let n = catalog_filter(a.catalog@, a.search.value@).len() as int;
    let sel = a.catalog_selected as int;
    let (f, s, sc) = if delta < 0 {
        match a.focus {
            InstallFocus::Url | InstallFocus::InstallBtn => if n > 0 {
                (InstallFocus::Catalog, n - 1, a.catalog_scroll as int)
            } else {
                (InstallFocus::Search, sel, a.catalog_scroll as int)
            },
            InstallFocus::Search => (a.last_row0_col, sel, a.catalog_scroll as int),
            InstallFocus::Catalog => if sel == 0 {
                (InstallFocus::Search, sel, a.catalog_scroll as int)
            } else {
                (InstallFocus::Catalog, sel - 1, a.catalog_scroll as int)
            },
        }
    } else {
        match a.focus {
            InstallFocus::Url | InstallFocus::InstallBtn => (
                InstallFocus::Search,
                sel,
                a.catalog_scroll as int,
            ),
            InstallFocus::Search => if n > 0 {
                (InstallFocus::Catalog, 0, 0)
            } else {
                (a.last_row0_col, sel, a.catalog_scroll as int)
            },
            InstallFocus::Catalog => if sel + 1 >= n {
                (a.last_row0_col, sel, a.catalog_scroll as int)
            } else {
                (InstallFocus::Catalog, sel + 1, a.catalog_scroll as int)
            },
        }
    };
    catalog_at(
        InstallTab { focus: f, catalog_scroll: sc as usize, ..a },
        s,
    )
}

impl InstallTab {
    /// Constructs a fresh Install tab with the catalog focused, seeded from
    /// the cached catalog when there is one.
    pub fn new(cached: Option<Vec<RegistryEntry>>) -> (t: Self)
        ensures
            t.url.value@.len() == 0 && t.url.cursor == 0,
            t.url.placeholder_key == Some("placeholder_install_url"),
            t.search.value@.len() == 0 && t.search.cursor == 0,
            t.search.placeholder_key == Some("placeholder_search"),
            t.focus == InstallFocus::Catalog,
            match cached {
                Some(v) => t.catalog == v && t.catalog_loaded,
                None => t.catalog@.len() == 0 && !t.catalog_loaded,
            },
            t.catalog_selected == 0 && t.catalog_scroll == 0 && t.catalog_visible_rows == 0,
            t.actions_menu is None && t.notice is None && t.pending_flash is None,
            t.btn_install.pending_state() is None,
            t.last_row0_col == InstallFocus::Url,
    {
        let (catalog, loaded) = match cached {
            Some(v) => (v, true),
            None => (Vec::new(), false),
        };
        InstallTab {
            url: Input::default().placeholder("placeholder_install_url"),
            search: Input::default().placeholder("placeholder_search"),
            focus: InstallFocus::Catalog,
            catalog,
            catalog_loaded: loaded,
            catalog_selected: 0,
            catalog_scroll: 0,
            catalog_visible_rows: 0,
            actions_menu: None,
            notice: None,
            pending_flash: None,
            btn_install: Button::new(ButtonKind::Primary),
            last_row0_col: InstallFocus::Url,
        }
    }

    /// Drains and returns the pending flash message, if any.
    pub fn take_flash(&mut self) -> (r: Option<(FlashKind, String)>)
        ensures
            r == old(self).pending_flash,
            *final(self) == (InstallTab { pending_flash: None, ..*old(self) }),
    {
        self.pending_flash.take()
    }

    /// Whether any text input widget currently has keyboard focus.
    pub fn text_input_focused(&self) -> (b: bool)
        ensures
            b == (self.focus == InstallFocus::Url || self.focus == InstallFocus::Search),
    {
        self.focus == InstallFocus::Url || self.focus == InstallFocus::Search
    }

    /// Returns the catalog indices shown (see [`catalog_filter`]).
    pub fn filtered(&self) -> (r: Vec<usize>)
        ensures
            r@ == catalog_filter(self.catalog@, self.search.value@),
            self.search.value@.len() == 0 ==> r@ == all_idx(self.catalog@.len()),
    {
        let needle = lower_chars(&chars_of(self.search.value.as_str()));
        let mut out: Vec<usize> = Vec::new();
        let mut i: usize = 0;
        let n = self.catalog.len();
        if needle.len() == 0 {
            while i < n
                invariant
                    i <= n == self.catalog@.len(),
                    out@ == all_idx(i as nat),
                decreases n - i,
            {
                out.push(i);
                i = i + 1;
            }
            return out;
        }
        assert(self.catalog@.take(0) =~= Seq::<RegistryEntry>::empty());
        while i < n
            invariant
                i <= n == self.catalog@.len(),
                needle@ == lowercase_of(self.search.value@),
                out@ == entry_idx(self.catalog@.take(i as int), self.search.value@),
            decreases n - i,
        {
            assert(self.catalog@.take(i + 1).drop_last() =~= self.catalog@.take(i as int));
            let e = &self.catalog[i];
            let hit = contains_chars(&lower_chars(&chars_of(e.title.as_str())), &needle)
                || contains_chars(&lower_chars(&chars_of(e.description.as_str())), &needle);
            if hit {
                out.push(i);
            }
            i = i + 1;
        }
        assert(self.catalog@.take(n as int) =~= self.catalog@);
        out
    }

    /// Clamps the catalog scroll offset so the selected row is visible.
    pub fn ensure_visible(&mut self)
        ensures
            *final(self) == catalog_at(*old(self), old(self).catalog_selected as int),
    {
        self.catalog_scroll = keep_visible(
            self.catalog_selected,
            self.catalog_scroll,
            self.catalog_visible_rows,
        );
    }

    fn catalog_to(&mut self, s: usize)
        ensures
            *final(self) == catalog_at(*old(self), s as int),
    {
        self.catalog_selected = s;
        self.ensure_visible();
    }

    /// Shows the URL that could not be opened, with a Copy URL button.
    pub fn show_url_notice(&mut self, title: String, body: String, url: String)
        ensures
            final(self).notice matches Some(n) && n.title == title && n.body == body && n.copy
                == Some(NoticeCopy { label_key: "btn_copy_url", payload: url, focused: false })
                && n.ok_state() is None && n.copy_state() is None,
            *final(self) == (InstallTab { notice: final(self).notice, ..*old(self) }),
    {
        self.notice = Some(
            Notice::new(
                title,
                body,
                Some(NoticeCopy { label_key: "btn_copy_url", payload: url, focused: false }),
            ),
        );
    }

    fn do_url_install(&mut self, cfg: &Config) -> (r: Option<InstallOutcome>)
        ensures
            url_install(*old(self), *final(self), *cfg, r),
    {
        let url = string_of(&trim_chars(&chars_of(self.url.value.as_str())));
        if !is_valid_git_url(url.as_str()) {
            return Some(InstallOutcome::InvalidUrl);
        }
        self.url.value = String::new();
        self.url.cursor = 0;
        Some(InstallOutcome::Task(install_request(url, cfg)))
    }

    fn do_catalog_install(&mut self, installed: &Vec<Extension>) -> (r: Option<InstallOutcome>)
        ensures
            r is None,
            catalog_open(*old(self), *final(self), installed@),
    {
        let rows = self.filtered();
        if self.catalog_selected >= rows.len() {
            return None;
        }
        assert(self.catalog@.len() == self.catalog.len());
        proof {
            lemma_catalog_filter_in_range(self.catalog@, self.search.value@);
        }
        let e = copy_entry(&self.catalog[rows[self.catalog_selected]]);
        let st = status_for(&e, installed);
        let is_in = st != InstallStatus::NotInstalled;
        let path = if is_in {
            match first_installed(installed, &normalize_url(e.reference.as_str())) {
                Some(i) => Some(installed[i].path.clone()),
                None => None,
            }
        } else {
            None
        };
        self.actions_menu = Some(
            InstallActionsMenu { entry: e, selected: 0, installed: is_in, installed_path: path },
        );
        None
    }

    fn dispatch_action(&mut self, act: InstallAction, cfg: &Config) -> (r: Option<InstallOutcome>)
        requires
            old(self).actions_menu is Some,
        ensures
            install_action_done(
                *old(self),
                *final(self),
                old(self).actions_menu.unwrap(),
                act,
                *cfg,
                r,
            ),
    {
        let am = self.actions_menu.take().unwrap();
        match act {
            InstallAction::UpdateToLatest => {
                match am.installed_path {
                    None => None,
                    Some(path) => {
                        let name = match file_name(path.as_str()) {
                            Some(n) => n,
                            None => "ext".to_string(),
                        };
                        Some(
                            InstallOutcome::Task(
                                TaskRequest {
                                    job: Job::ExtUpdateOne {
                                        path,
                                        name,
                                        env: build(&cfg.network),
                                        python: cfg.general.python.clone(),
                                    },
                                    follow_up: TaskKind::Nothing,
                                    is_refresh: false,
                                },
                            ),
                        )
                    },
                }
            },
            InstallAction::Install => Some(
                InstallOutcome::Task(install_request(am.entry.reference, cfg)),
            ),
            InstallAction::OpenUrl => Some(InstallOutcome::OpenUrl { url: am.entry.reference }),
        }
    }

    fn up_to_list(&mut self)
        ensures
            up_to_catalog(*old(self), *final(self)),
    {
        let n = self.filtered().len();
        if n > 0 {
            self.focus = InstallFocus::Catalog;
            self.catalog_to(n - 1);
        } else {
            self.focus = InstallFocus::Search;
        }
    }

    fn set_menu_sel(&mut self, s: usize)
        requires
            old(self).actions_menu is Some,
        ensures
            *final(self) == (InstallTab {
                actions_menu: Some(
                    InstallActionsMenu { selected: s, ..old(self).actions_menu.unwrap() },
                ),
                ..*old(self)
            }),
    {
        match &mut self.actions_menu {
            Some(am) => {
                am.selected = s;
            },
            None => {},
        }
    }

    /// Handles a key press (see [`install_key`]).
    pub fn on_key(&mut self, k: Key, cfg: &Config, installed: &Vec<Extension>) -> (r: Option<
        InstallOutcome,
    >)
        requires
            old(self).actions_menu matches Some(am) ==> am.selected < install_items(am).len(),
            k is Char ==> old(self).url.cursor < usize::MAX && old(self).search.cursor < usize::MAX,
        ensures
            install_key(*old(self), *final(self), k, *cfg, installed@, r),
    {
        if self.notice.is_some() {
            let close = match &mut self.notice {
                Some(n) => {
                    let o = n.on_key(k);
                    match o {
                        Some(NoticeOutcome::Close) => true,
                        _ => false,
                    }
                },
                None => false,
            };
            if close {
                self.notice = None;
            }
            return None;
        }
        if self.actions_menu.is_some() {
            let items = match &self.actions_menu {
                Some(am) => am.items(),
                None => Vec::new(),
            };
            let n = items.len();
            let sel = match &self.actions_menu {
                Some(am) => am.selected,
                None => 0,
            };
            return match k {
                Key::Esc => {
                    self.actions_menu = None;
                    None
                },
                Key::Up => {
                    self.set_menu_sel(
                        if sel == 0 {
                            n - 1
                        } else {
                            sel - 1
                        },
                    );
                    None
                },
                Key::Down => {
                    self.set_menu_sel((sel + 1) % n);
                    None
                },
                Key::PageUp => {
                    self.set_menu_sel(0);
                    None
                },
                Key::PageDown => {
                    self.set_menu_sel(n - 1);
                    None
                },
                Key::Enter => {
                    let (act, enabled) = items[sel];
                    if !enabled {
                        return None;
                    }
                    self.dispatch_action(act, cfg)
                },
                _ => None,
            };
        }
        match self.focus {
            InstallFocus::Url => {
                match k {
                    Key::Tab => {
                        self.focus = InstallFocus::InstallBtn;
                        None
                    },
                    Key::Enter => self.do_url_install(cfg),
                    Key::Down => {
                        self.focus = InstallFocus::Search;
                        None
                    },
                    Key::Up => {
                        self.up_to_list();
                        None
                    },
                    Key::Left | Key::Right => None,
                    _ => {
                        self.url.on_key(k);
                        None
                    },
                }
            },
            InstallFocus::InstallBtn => {
                match k {
                    Key::Enter => self.do_url_install(cfg),
                    Key::Down => {
                        self.focus = InstallFocus::Search;
                        None
                    },
                    Key::Up => {
                        self.up_to_list();
                        None
                    },
                    _ => None,
                }
            },
            InstallFocus::Search => {
                match k {
                    Key::Tab => {
                        self.focus = InstallFocus::Catalog;
                    },
                    Key::Enter | Key::Down => {
                        self.focus = InstallFocus::Catalog;
                        self.catalog_selected = 0;
                        self.catalog_scroll = 0;
                    },
                    Key::Up => {
                        self.focus = self.last_row0_col;
                    },
                    Key::Left | Key::Right => {},
                    _ => {
                        self.search.on_key(k);
                        self.catalog_selected = 0;
                        self.catalog_scroll = 0;
                    },
                }
                None
            },
            InstallFocus::Catalog => {
                let n = self.filtered().len();
                let sel = self.catalog_selected;
                match k {
                    Key::Tab => {
                        self.focus = InstallFocus::Url;
                        None
                    },
                    Key::BackTab => {
                        self.focus = InstallFocus::Search;
                        None
                    },
                    Key::Up => {
                        if n == 0 {
                            return None;
                        }
                        if sel == 0 {
                            self.focus = InstallFocus::Search;
                            self.catalog_to(sel);
                        } else {
                            self.catalog_to(sel - 1);
                        }
                        None
                    },
                    Key::Down => {
                        if n == 0 {
                            return None;
                        }
                        if sel >= n - 1 {
                            self.focus = self.last_row0_col;
                            self.catalog_to(sel);
                        } else {
                            self.catalog_to(sel + 1);
                        }
                        None
                    },
                    Key::Enter => self.do_catalog_install(installed),
                    Key::PageUp => {
                        self.focus = self.last_row0_col;
                        None
                    },
                    Key::PageDown => {
                        if n > 0 {
                            self.focus = InstallFocus::Catalog;
                            self.catalog_to(n - 1);
                        }
                        None
                    },
                    Key::Char(c) => {
                        if c == 'r' || c == 'R' {
                            Some(InstallOutcome::Task(fetch_registry_request(build(&cfg.network))))
                        } else {
                            None
                        }
                    },
                    _ => None,
                }
            },
        }
    }

    fn click_actions(&mut self, col: u16, row: u16, area: Rect, cfg: &Config) -> (r: Option<InstallOutcome>)
        requires
            old(self).actions_menu is Some,
            fits(area, 1),
        ensures
            install_actions_click(*old(self), *final(self), col as int, row as int, area, *cfg, r),
    {
        let (sel, items) = match &self.actions_menu {
            Some(am) => (am.selected, am.items()),
            None => (0, Vec::new()),
        };
        let n = items.len();
        assert(n <= 3);
        let want: u16 = (n + 2) as u16;
        let h: u16 = if area.height < want {
            area.height
        } else {
            want
        };
        let p = center(area, 50, h);
        if !p.contains(col, row) {
            self.actions_menu = None;
            return None;
        }
        let right = p.x + p.width.saturating_sub(1);
        let bottom = p.y + p.height.saturating_sub(1);
        if col > p.x && col < right && row > p.y && row < bottom {
            let idx = (row - (p.y + 1)) as usize;
            if idx < n {
                if idx != sel {
                    self.set_menu_sel(idx);
                    return None;
                }
                let (act, enabled) = items[idx];
                if enabled {
                    return self.dispatch_action(act, cfg);
                }
            }
        }
        None
    }

    fn click_body(&mut self, col: u16, row: u16, area: Rect, install_w: u16, installed: &Vec<Extension>)
        requires
            fits(area, 2),
        ensures
            install_body_click(
                *old(self),
                *final(self),
                col as int,
                row as int,
                area,
                install_w,
                installed@,
            ),
    {
        let mut cs: Vec<Constraint> = Vec::new();
        cs.push(Constraint::Length(3));
        cs.push(Constraint::Length(3));
        cs.push(Constraint::Min(0));
        assert(cs@ =~= seq![Constraint::Length(3), Constraint::Length(3), Constraint::Min(0)]);
        let v = split(area, true, &cs);
        assert(piece_of(v@[0], area, true) && piece_of(v@[1], area, true) && piece_of(
            v@[2],
            area,
            true,
        ));
        let mut cs2: Vec<Constraint> = Vec::new();
        cs2.push(Constraint::Min(0));
        cs2.push(Constraint::Length(install_w));
        assert(cs2@ =~= seq![Constraint::Min(0), Constraint::Length(install_w)]);
        let top = split(v[0], false, &cs2);
        self.click_body_in(col, row, &v, &top, installed);
        assert(install_layout(area, install_w, v@, top@));
    }

    fn click_body_in(&mut self, col: u16, row: u16, v: &Vec<Rect>, top: &Vec<Rect>, installed: &Vec<Extension>)
        requires
            v@.len() == 3,
            top@.len() == 2,
            v@[2].y + 2 <= u16::MAX,
        ensures
            install_body_click_in(*old(self), *final(self), col as int, row as int, v@, top@, installed@),
    {
        if top[1].contains(col, row) {
            self.focus = InstallFocus::InstallBtn;
            self.last_row0_col = InstallFocus::InstallBtn;
            self.btn_install.click();
            return;
        }
        if top[0].contains(col, row) {
            self.focus = InstallFocus::Url;
            self.last_row0_col = InstallFocus::Url;
            return;
        }
        if v[1].contains(col, row) {
            self.focus = InstallFocus::Search;
            return;
        }
        let cat = v[2];
        if !cat.contains(col, row) || row < cat.y + 2 {
            return;
        }
        let rel = (row - (cat.y + 2)) as usize;
        let n = self.filtered().len();
        if rel >= n || self.catalog_scroll >= n - rel {
            return;
        }
        let idx = self.catalog_scroll + rel;
        if self.focus != InstallFocus::Catalog || idx != self.catalog_selected {
            self.focus = InstallFocus::Catalog;
            self.catalog_to(idx);
            return;
        }
        self.do_catalog_install(installed);
    }

    /// Handles a mouse event on the tab drawn over `area` (see
    /// [`install_click`]); `install_w` is the Install button's width (see
    /// [`install_button_width`]).
    pub fn on_mouse(
        &mut self,
        m: Mouse,
        area: Rect,
        cfg: &Config,
        install_w: u16,
        installed: &Vec<Extension>,
    ) -> (r: Option<InstallOutcome>)
        requires
            fits(area, 18),
        ensures
            install_click(*old(self), *final(self), m, area, *cfg, install_w, installed@, r),
    {
        if m.kind != MouseKind::LeftDown {
            return None;
        }
        if self.notice.is_some() {
            let close = match &mut self.notice {
                Some(n) => match n.on_mouse(m, area) {
                    Some(NoticeOutcome::Close) => true,
                    _ => false,
                },
                None => false,
            };
            if close {
                self.notice = None;
            }
            return None;
        }
        if self.actions_menu.is_some() {
            return self.click_actions(m.column, m.row, area, cfg);
        }
        self.click_body(m.column, m.row, area, install_w, installed);
        None
    }

    /// Runs the deferred button presses, one frame after their highlight:
    /// the notice's OK closes it and Copy closes it and asks to copy the
    /// URL; the Install button installs the typed URL.
    pub fn poll_button_action(&mut self, cfg: &Config) -> (r: Option<InstallOutcome>)
        ensures
            install_polled(*old(self), *final(self), *cfg, r),
    {
        let mut copied: Option<String> = None;
        if self.notice.is_some() {
            let t = match &mut self.notice {
                Some(n) => n.tick(),
                None => None,
            };
            match t {
                Some(NoticeOutcome::Close) => {
                    self.notice = None;
                },
                Some(NoticeOutcome::Copy(s)) => {
                    self.notice = None;
                    copied = Some(s);
                },
                None => {},
            }
        }
        if self.btn_install.poll_fire() {
            return self.do_url_install(cfg);
        }
        match copied {
            Some(s) => Some(InstallOutcome::Copy(s)),
            None => None,
        }
    }

    /// Handles one wheel step (`delta < 0` is up): from the top row the
    /// wheel goes down to the search box or up to the catalog's last row,
    /// from the search box up to the top row or down into the catalog, and
    /// through the catalog row by row, leaving it past either end.
    pub fn scroll(&mut self, delta: i32)
        ensures
            *final(self) == install_scrolled(*old(self), delta),
    {
        let n = self.filtered().len();
        let sel = self.catalog_selected;
        if delta < 0 {
            match self.focus {
                InstallFocus::Url | InstallFocus::InstallBtn => {
                    if n > 0 {
                        self.focus = InstallFocus::Catalog;
                        self.catalog_selected = n - 1;
                    } else {
                        self.focus = InstallFocus::Search;
                    }
                },
                InstallFocus::Search => {
                    self.focus = self.last_row0_col;
                },
                InstallFocus::Catalog => {
                    if sel == 0 {
                        self.focus = InstallFocus::Search;
                    } else {
                        self.catalog_selected = sel - 1;
                    }
                },
            }
        } else {
            match self.focus {
                InstallFocus::Url | InstallFocus::InstallBtn => {
                    self.focus = InstallFocus::Search;
                },
                InstallFocus::Search => {
                    if n > 0 {
                        self.focus = InstallFocus::Catalog;
                        self.catalog_selected = 0;
                        self.catalog_scroll = 0;
                    } else {
                        self.focus = self.last_row0_col;
                    }
                },
                InstallFocus::Catalog => {
                    if n == 0 || sel >= n - 1 {
                        self.focus = self.last_row0_col;
                    } else {
                        self.catalog_selected = sel + 1;
                    }
                },
            }
        }
        self.ensure_visible();
    }

    /// Handles Left within the tab; returns whether it was consumed. In a
    /// text box it moves the cursor unless already at the start; on the
    /// Install button it moves to the URL box.
    pub fn on_left(&mut self) -> (used: bool)
        ensures
            match old(self).focus {
                InstallFocus::Url => if old(self).url.cursor != 0 {
                    used && *final(self) == (InstallTab { url: final(self).url, ..*old(self) })
                        && final(self).url.placeholder_key == old(self).url.placeholder_key && (
                    final(self).url.value@, final(self).url.cursor as int) == input_step(
                        old(self).url.value@,
                        old(self).url.cursor as int,
                        Key::Left,
                    )
                } else {
                    !used && *final(self) == *old(self)
                },
                InstallFocus::InstallBtn => used && *final(self) == (InstallTab {
                    focus: InstallFocus::Url,
                    last_row0_col: InstallFocus::Url,
                    ..*old(self)
                }),
                InstallFocus::Search => if old(self).search.cursor != 0 {
                    used && *final(self) == (InstallTab { search: final(self).search, ..*old(self) })
                        && final(self).search.placeholder_key == old(self).search.placeholder_key && (
                    final(self).search.value@, final(self).search.cursor as int) == input_step(
                        old(self).search.value@,
                        old(self).search.cursor as int,
                        Key::Left,
                    )
                } else {
                    !used && *final(self) == *old(self)
                },
                InstallFocus::Catalog => !used && *final(self) == *old(self),
            },
    {
        match self.focus {
            InstallFocus::Url => {
                if !self.url.at_start() {
                    self.url.on_key(Key::Left);
                    return true;
                }
                false
            },
            InstallFocus::InstallBtn => {
                self.focus = InstallFocus::Url;
                self.last_row0_col = InstallFocus::Url;
                true
            },
            InstallFocus::Search => {
                if !self.search.at_start() {
                    self.search.on_key(Key::Left);
                    return true;
                }
                false
            },
            InstallFocus::Catalog => false,
        }
    }

    /// Handles Right within the tab; returns whether it was consumed. In a
    /// text box it moves the cursor unless already at the end; past the end
    /// of the URL box it moves to the Install button.
    pub fn on_right(&mut self) -> (used: bool)
        ensures
            match old(self).focus {
                InstallFocus::Url => if old(self).url.cursor < old(self).url.value@.len() {
                    used && *final(self) == (InstallTab { url: final(self).url, ..*old(self) })
                        && final(self).url.placeholder_key == old(self).url.placeholder_key && (
                    final(self).url.value@, final(self).url.cursor as int) == input_step(
                        old(self).url.value@,
                        old(self).url.cursor as int,
                        Key::Right,
                    )
                } else {
                    used && *final(self) == (InstallTab {
                        focus: InstallFocus::InstallBtn,
                        last_row0_col: InstallFocus::InstallBtn,
                        ..*old(self)
                    })
                },
                InstallFocus::Search => if old(self).search.cursor < old(self).search.value@.len() {
                    used && *final(self) == (InstallTab { search: final(self).search, ..*old(self) })
                        && final(self).search.placeholder_key == old(self).search.placeholder_key && (
                    final(self).search.value@, final(self).search.cursor as int) == input_step(
                        old(self).search.value@,
                        old(self).search.cursor as int,
                        Key::Right,
                    )
                } else {
                    !used && *final(self) == *old(self)
                },
                _ => !used && *final(self) == *old(self),
            },
    {
        match self.focus {
            InstallFocus::Url => {
                if !self.url.at_end() {
                    self.url.on_key(Key::Right);
                    return true;
                }
                self.focus = InstallFocus::InstallBtn;
                self.last_row0_col = InstallFocus::InstallBtn;
                true
            },
            InstallFocus::Search => {
                if !self.search.at_end() {
                    self.search.on_key(Key::Right);
                    return true;
                }
                false
            },
            _ => false,
        }
    }

}

/// Index of the first managed extension whose remote has the key `want`.
fn first_installed(installed: &Vec<Extension>, want: &Vec<char>) -> (r: Option<usize>)
    ensures
        match r {
            Some(i) => i < installed@.len() && installed_with(installed@, want@) == Some(i as int),
            None => installed_with(installed@, want@) is None,
        },
{
    let mut i: usize = 0;
    assert(installed@.skip(0) =~= installed@);
    while i < installed.len()
        invariant
            i <= installed.len(),
            installed_with(installed@, want@) == match installed_with(installed@.skip(i as int), want@) {
                Some(j) => Some(j + i),
                None => None,
            },
        decreases installed.len() - i,
    {
        assert(installed@.skip(i as int)[0] == installed@[i as int]);
        assert(installed@.skip(i as int).drop_first() =~= installed@.skip(i + 1));
        let e = &installed[i];
        if e.managed {
            let have = normalize_url(e.remote.as_str());
            if chars_eq(&have, want) {
                return Some(i);
            }
        }
        i = i + 1;
    }
    None
}

} // verus!
