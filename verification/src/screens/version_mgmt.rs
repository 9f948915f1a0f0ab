//! Version management: ComfyUI core versions, installed extensions and the
//! extension catalog.
//!
//! Long-running work (git, pip, downloads) is described here as data; the
//! application shell runs it on background threads and hands the results
//! back.

pub mod core_tab;
pub mod extensions_tab;
pub mod install_tab;

use crate::app::FlashKind;
use crate::config::Config;
use crate::env::{build, EnvList};
use crate::geom::{fits, Key, Mouse, Rect};
use crate::layout::{laid_out, piece_of, split, Constraint};
use crate::widgets::tabs::{strip_hit, widths_of, HitResult, Tabs};
use crate::git::{Commit, TagCommit};
use crate::paths::{same_path, same_path_spec};
use crate::registry::RegistryEntry;
use crate::screens::version_mgmt::core_tab::{
    core_click, core_esc, core_key, core_scrolled, load_request_with_env, saved_as, CoreFilter, CoreTab,
};
use crate::widgets::focus_grid::{model_ensure_visible, GridModel};
use crate::screens::version_mgmt::extensions_tab::{
    button_polled, env_for, ext_click, ext_filter, ext_key, ext_scrolled, load_request_with_limit, picker_at,
    table_at, ExtFocus, ExtOutcome, Extension, ExtensionsTab, VersionPicker,
};
use crate::screens::version_mgmt::install_tab::{
    fetch_registry_request, install_click, install_items, install_key, install_polled, install_scrolled,
    InstallFocus, InstallOutcome, InstallTab,
};
use crate::widgets::focus_grid::RowKind;
use crate::strs::{
    append_chars, chars_eq, chars_of, dec, dec_chars, lemma_lex_asym, lemma_lex_le_trans, lex_lt, lt_chars,
    string_of,
};
use vstd::prelude::*;

verus! {

/// Cap on the number of rows fetched in a single load; another batch of
/// this size is fetched when navigation crosses the loaded edge.
pub const LIST_MAX_NUM: usize = 1000;

/// Follow-up task to queue after the current one finishes.
#[derive(Clone, Debug, PartialEq, Eq)]
pub enum TaskKind {
    /// No follow-up.
    Nothing,
    /// Reload the Core commit list from the given repository path.
    CoreLoad(String),
    /// Reload the extensions list from the given ComfyUI root.
    ExtLoad(String),
}

/// The work a task performs.
pub enum Job {
    /// Fetch every managed extension under the ComfyUI root and re-read the
    /// list (at most `limit` extensions).
    ExtLoad { root: String, limit: usize, env: EnvList },
    /// Bring one extension to its upstream head and reinstall its
    /// requirements.
    ExtUpdateOne { path: String, name: String, env: EnvList, python: String },
    /// Load up to `limit` commits of one extension for the version picker.
    ExtListVersions { path: String, name: String, env: EnvList, limit: usize },
    /// Check one extension out at `rev` and reinstall its requirements.
    ExtCheckout { path: String, name: String, rev: String, env: EnvList, python: String },
    /// Delete one extension.
    ExtUninstall { path: String, name: String },
    /// Rename one extension to or from its `.disabled` form.
    ExtToggle { path: String, name: String, currently_disabled: bool },
    /// Update every managed extension to its upstream head.
    ExtUpdateAll { items: Vec<Extension>, env: EnvList, python: String },
    /// Force every managed extension to its upstream head.
    ExtReinstallAll { items: Vec<Extension>, env: EnvList, python: String },
    /// Fetch the ComfyUI repository and re-read its commits (at most
    /// `limit`), tags and head.
    CoreLoad { root: String, env: EnvList, limit: usize },
    /// Bring the ComfyUI repository to its upstream head and reinstall its
    /// requirements.
    CorePull { root: String, env: EnvList, python: String },
    /// Check the ComfyUI repository out at `rev` and reinstall its
    /// requirements.
    CoreCheckout { root: String, rev: String, env: EnvList, python: String },
    /// Clone `url` into `dest` and install its requirements.
    Install { url: String, dest: String, env: EnvList, python: String },
    /// Download the extension catalog (falling back to the cached copy).
    FetchRegistry { env: EnvList },
}

/// A long-running task: its work, the follow-up to queue when it ends, and
/// whether it is a read-only refresh (shown as a banner, never blocking
/// input) rather than a mutation (shown as a blocking popup).
pub struct TaskRequest {
    /// The work.
    pub job: Job,
    /// Follow-up task queued after this one completes.
    pub follow_up: TaskKind,
    /// Whether this is a read-only refresh task.
    pub is_refresh: bool,
}

/// The scroll offset that keeps row `sel` inside a window of `rows` rows
/// (at least one) that was scrolled to `scroll`: it moves only as far as
/// needed.
pub open spec fn visible_scroll(sel: int, scroll: int, rows: int) -> int {
    let v = if rows >= 1 {
        rows
    } else {
        1
    };
    let s1 = if sel < scroll {
        sel
    } else {
        scroll
    };
    let max_off = if sel - (v - 1) > 0 {
        sel - (v - 1)
    } else {
        0
    };
    let s2 = if s1 < max_off {
        max_off
    } else {
        s1
    };
    if s2 > sel {
        sel
    } else {
        s2
    }
}

/// The scroll offset that keeps row `sel` visible (see [`visible_scroll`]).
pub fn keep_visible(sel: usize, scroll: usize, rows: usize) -> (r: usize)
    ensures
        r == visible_scroll(sel as int, scroll as int, rows as int),
{
    let v = if rows >= 1 {
        rows
    } else {
        1
    };
    let mut s = scroll;
    if sel < s {
        s = sel;
    }
    let max_off = if sel > v - 1 {
        sel - (v - 1)
    } else {
        0
    };
    if s < max_off {
        s = max_off;
    }
    if s > sel {
        s = sel;
    }
    s
}

/// After keeping a row visible, the window `[scroll, scroll + rows)`
/// (at least one row) holds it; a row that was already visible does not
/// move the window.
pub proof fn lemma_visible_scroll(sel: int, scroll: int, rows: int)
    requires
        0 <= sel,
        0 <= scroll,
    ensures
        visible_scroll(sel, scroll, rows) <= sel < visible_scroll(sel, scroll, rows) + (if rows
            >= 1 {
            rows
        } else {
            1
        }),
        0 <= visible_scroll(sel, scroll, rows),
        scroll <= sel < scroll + rows ==> visible_scroll(sel, scroll, rows) == scroll,
{
}

/// A copy of `k`.
pub fn copy_kind(k: &TaskKind) -> (r: TaskKind)
    ensures
        r == *k,
{
    match k {
        TaskKind::Nothing => TaskKind::Nothing,
        TaskKind::CoreLoad(s) => TaskKind::CoreLoad(s.clone()),
        TaskKind::ExtLoad(s) => TaskKind::ExtLoad(s.clone()),
    }
}

/// A task that is running: its title, the follow-up to queue when it
/// ends, and the last progress it reported.
pub struct RunningTask {
    /// Title shown in the working popup or the banner.
    pub title: String,
    /// Follow-up task queued after this one completes.
    pub follow_up: TaskKind,
    /// Items done and total, when reported.
    pub progress: Option<(usize, usize)>,
}

/// Data a finished piece of background work hands back.
pub enum TaskResult {
    /// A Core repository load.
    CoreData {
        /// Commit list, newest first.
        commits: Vec<Commit>,
        /// Release tags.
        tags: Vec<TagCommit>,
        /// Short SHA of the current `HEAD`.
        current: Option<String>,
        /// Release tag at `HEAD`.
        current_tag: Option<String>,
        /// Current branch.
        branch: Option<String>,
        /// Remote origin URL.
        remote: Option<String>,
        /// Repository root.
        root: String,
        /// Row count the load asked for.
        requested_limit: usize,
    },
    /// An Extensions list load.
    ExtData {
        /// Loaded extensions.
        items: Vec<Extension>,
        /// ComfyUI root.
        root: String,
        /// Row count the load asked for.
        requested_limit: usize,
    },
    /// Commit list of one extension, for the version picker.
    ExtCommits {
        /// Extension path.
        ext_path: String,
        /// Commit list, newest first.
        commits: Vec<Commit>,
        /// Short SHA of the extension's current `HEAD`.
        current: Option<String>,
        /// Row count the load asked for.
        requested_limit: usize,
    },
    /// The extension catalog.
    RegistryData {
        /// Catalog entries.
        entries: Vec<RegistryEntry>,
    },
    /// Progress of a multi-step task.
    Progress {
        /// Items completed.
        done: usize,
        /// Total items.
        total: usize,
    },
    /// One extension row after a single-entry mutation; `old_path` names the
    /// row it replaces.
    ExtRowUpdate {
        /// Path of the row to replace.
        old_path: String,
        /// Fresh state of the extension.
        ext: Extension,
    },
    /// An extension was uninstalled.
    ExtRowRemove {
        /// Path of the row to remove.
        path: String,
    },
    /// An extension was installed.
    ExtRowAdd {
        /// The new extension.
        ext: Extension,
    },
    /// The Core repository's head after a change of version.
    CoreHeadUpdate {
        /// Short SHA of the new `HEAD`.
        current: Option<String>,
        /// Release tag at the new `HEAD`.
        current_tag: Option<String>,
    },
}

/// What a key on the Version Management screen asks of the shell.
pub enum VmOutcome {
    /// The Core tab asks for a task.
    Core(TaskRequest),
    /// The Extensions tab asks for something.
    Ext(ExtOutcome),
    /// The Install tab asks for something.
    Install(InstallOutcome),
}

/// Version management screen state.
pub struct VersionMgmt {
    /// Active tab: 0 Core (Stable), 1 Core (All), 2 Extensions, 3 Install.
    pub tab: usize,
    /// Core tab state.
    pub core: CoreTab,
    /// Extensions tab state.
    pub ext: ExtensionsTab,
    /// Install New tab state.
    pub install: InstallTab,
    /// Running mutation; it shows the working popup and locks input.
    pub pending: Option<RunningTask>,
    /// Running refresh; it reports progress in the banner.
    pub refresh: Option<RunningTask>,
    /// One queued automatic refresh (with its title), started when the
    /// running refresh ends.
    pub queued_refresh: Option<(TaskRequest, String)>,
}

/// The tab to the left of `t` among the four, wrapping.
pub open spec fn tab_left(t: usize) -> usize {
    ((t % 4 + 3) % 4) as usize
}

/// The tab to the right of `t` among the four, wrapping.
pub open spec fn tab_right(t: usize) -> usize {
    ((t % 4 + 1) % 4) as usize
}

/// The Core view the tab index selects: 0 Stable, 1 All, any other tab
/// keeps the current one.
pub open spec fn filter_for(tab: usize, cur: CoreFilter) -> CoreFilter {
    if tab == 0 {
        CoreFilter::Stable
    } else if tab == 1 {
        CoreFilter::All
    } else {
        cur
    }
}

/// The banner text of a running refresh: its title, then `(done/total)`
/// when progress is known.
pub open spec fn progress_text(t: RunningTask) -> Seq<char> {
    match t.progress {
        Some((d, n)) => t.title@ + " ("@ + dec(d as nat) + "/"@ + dec(n as nat) + ")"@,
        None => t.title@,
    }
}

/// Whether Left is used inside the active tab (moving a text cursor or the
/// focus) rather than switching tabs.
pub open spec fn left_used(v: VersionMgmt) -> bool {
    if v.tab == 0 || v.tab == 1 {
        let g = v.core.grid@;
        (g.row == 0 && v.core.search.cursor != 0) || (g.row < g.rows.len() && g.rows[g.row as int] is Fixed && g.col > 0)
    } else if v.tab == 2 {
        match v.ext.focus {
            ExtFocus::Search => v.ext.search.cursor != 0,
            ExtFocus::UpdateAll | ExtFocus::ReinstallAll => true,
            ExtFocus::Table => false,
        }
    } else if v.tab == 3 {
        match v.install.focus {
            InstallFocus::Url => v.install.url.cursor != 0,
            InstallFocus::InstallBtn => true,
            InstallFocus::Search => v.install.search.cursor != 0,
            InstallFocus::Catalog => false,
        }
    } else {
        false
    }
}

/// Whether Right is used inside the active tab rather than switching tabs.
pub open spec fn right_used(v: VersionMgmt) -> bool {
    if v.tab == 0 || v.tab == 1 {
        let g = v.core.grid@;
        (g.row == 0 && v.core.search.cursor < v.core.search.value@.len()) || (g.row < g.rows.len()
            && (g.rows[g.row as int] matches RowKind::Fixed(n) && g.col + 1 < n))
    } else if v.tab == 2 {
        match v.ext.focus {
            ExtFocus::Search | ExtFocus::UpdateAll => true,
            _ => false,
        }
    } else if v.tab == 3 {
        match v.install.focus {
            InstallFocus::Url => true,
            InstallFocus::Search => v.install.search.cursor < v.install.search.value@.len(),
            _ => false,
        }
    } else {
        false
    }
}

/// What the preconditions of the tabs' key handlers ask for.
pub open spec fn keys_ok(v: VersionMgmt, k: Key) -> bool {
    &&& v.wf()
    &&& (v.ext.actions_menu matches Some(am) ==> am.selected < 5)
    &&& (v.install.actions_menu matches Some(am) ==> am.selected < install_items(am).len())
    &&& (k is Char ==> v.core.search.cursor < usize::MAX && v.ext.search.cursor < usize::MAX
        && v.install.url.cursor < usize::MAX && v.install.search.cursor < usize::MAX)
}

/// `x` pulled back onto the last of `n` rows when it lies past them.
pub open spec fn clamp_to(x: usize, n: nat) -> usize {
    if x >= n {
        if n > 0 {
            (n - 1) as usize
        } else {
            0
        }
    } else {
        x
    }
}

/// Position of the first extension at `path`.
pub open spec fn path_pos(items: Seq<Extension>, path: Seq<char>) -> Option<int>
    decreases items.len(),
{
    if items.len() == 0 {
        None
    } else {
        match path_pos(items.drop_last(), path) {
            Some(i) => Some(i),
            None => if items.last().path@ == path {
                Some(items.len() - 1)
            } else {
                None
            },
        }
    }
}

/// Where a stable sort by name puts `x` after the list `s`.
pub open spec fn name_pos(s: Seq<Extension>, x: Extension) -> int
    decreases s.len(),
{
    if s.len() == 0 {
        0
    } else if lex_lt(x.name@, s.last().name@) {
        name_pos(s.drop_last(), x)
    } else {
        s.len() as int
    }
}

/// `s` stably sorted by name.
pub open spec fn by_name(s: Seq<Extension>) -> Seq<Extension>
    decreases s.len(),
{
    if s.len() == 0 {
        s
    } else {
        let t = by_name(s.drop_last());
        t.insert(name_pos(t, s.last()), s.last())
    }
}

/// Whether no two items share a path.
pub open spec fn paths_distinct(s: Seq<Extension>) -> bool {
    forall|i: int, j: int| 0 <= i < j < s.len() ==> #[trigger] s[i].path@ != #[trigger] s[j].path@
}

/// Whether the items are in name order (each name not after the next).
pub open spec fn names_sorted(s: Seq<Extension>) -> bool {
    forall|i: int, j: int| 0 <= i < j < s.len() ==> !lex_lt(#[trigger] s[j].name@, #[trigger] s[i].name@)
}

/// `items` with `e` put in: in place of the item with its path, or added.
pub open spec fn upsert(items: Seq<Extension>, e: Extension) -> Seq<Extension> {
    match path_pos(items, e.path@) {
        Some(i) => items.update(i, e),
        None => items.push(e),
    }
}

/// Where `path_pos` finds a path, the item has it; where it finds none, no
/// item has it.
proof fn lemma_path_pos(items: Seq<Extension>, path: Seq<char>)
    ensures
        match path_pos(items, path) {
            Some(i) => 0 <= i < items.len() && items[i].path@ == path,
            None => forall|j: int| 0 <= j < items.len() ==> #[trigger] items[j].path@ != path,
        },
    decreases items.len(),
{
    if items.len() > 0 {
        let init = items.drop_last();
        lemma_path_pos(init, path);
        match path_pos(init, path) {
            Some(i) => {
                assert(items[i] == init[i]);
            },
            None => {
                if items.last().path@ != path {
                    assert forall|j: int| 0 <= j < items.len() implies #[trigger] items[j].path@
                        != path by {
                        if j < items.len() - 1 {
                            assert(items[j] == init[j]);
                        }
                    }
                }
            },
        }
    }
}

/// Inserting at `name_pos` keeps a name-ordered list in order.
proof fn lemma_insert_sorted(t: Seq<Extension>, x: Extension)
    requires
        names_sorted(t),
    ensures
        0 <= name_pos(t, x) <= t.len(),
        names_sorted(t.insert(name_pos(t, x), x)),
    decreases t.len(),
{
    let p = name_pos(t, x);
    if t.len() > 0 {
        let init = t.drop_last();
        assert(names_sorted(init)) by {
            assert forall|i: int, j: int| 0 <= i < j < init.len() implies !lex_lt(
                #[trigger] init[j].name@,
                #[trigger] init[i].name@,
            ) by {
                assert(init[i] == t[i] && init[j] == t[j]);
            }
        }
        if lex_lt(x.name@, t.last().name@) {
            lemma_insert_sorted(init, x);
            let r0 = init.insert(p, x);
            let r = t.insert(p, x);
            assert(r =~= r0.push(t.last()));
            assert forall|i: int, j: int| 0 <= i < j < r.len() implies !lex_lt(
                #[trigger] r[j].name@,
                #[trigger] r[i].name@,
            ) by {
                if j < r.len() - 1 {
                    assert(r[i] == r0[i] && r[j] == r0[j]);
                } else {
                    assert(r[j] == t.last());
                    if i == p {
                        assert(r[i] == x);
                        lemma_lex_asym(x.name@, t.last().name@);
                    } else if i < p {
                        assert(r[i] == t[i]);
                    } else {
                        assert(r[i] == t[i - 1]);
                    }
                }
            }
        } else {
            let r = t.insert(p, x);
            assert(p == t.len());
            assert(r =~= t.push(x));
            assert forall|i: int, j: int| 0 <= i < j < r.len() implies !lex_lt(
                #[trigger] r[j].name@,
                #[trigger] r[i].name@,
            ) by {
                if j < r.len() - 1 {
                    assert(r[i] == t[i] && r[j] == t[j]);
                } else {
                    assert(r[j] == x);
                    assert(r[i] == t[i]);
                    if i < t.len() - 1 {
                        lemma_lex_le_trans(t[i].name@, t[t.len() - 1].name@, x.name@);
                    }
                }
            }
        }
    }
}

/// Sorting by name puts the items in name order, keeps their number, and
/// keeps exactly the items there were; items with distinct paths keep
/// distinct paths.
proof fn lemma_by_name(s: Seq<Extension>)
    ensures
        names_sorted(by_name(s)),
        by_name(s).len() == s.len(),
        forall|y: Extension|
            #![trigger by_name(s).contains(y)]
            #![trigger s.contains(y)]
            by_name(s).contains(y) <==> s.contains(y),
        paths_distinct(s) ==> paths_distinct(by_name(s)),
    decreases s.len(),
{
    if s.len() > 0 {
        let init = s.drop_last();
        let x = s.last();
        lemma_by_name(init);
        let t = by_name(init);
        lemma_insert_sorted(t, x);
        let p = name_pos(t, x);
        let r = t.insert(p, x);
        assert forall|y: Extension| r.contains(y) <==> s.contains(y) by {
            if r.contains(y) {
                let k = choose|k: int| 0 <= k < r.len() && r[k] == y;
                if k == p {
                    assert(s[s.len() - 1] == y);
                } else {
                    let kk = if k < p { k } else { k - 1 };
                    assert(t[kk] == y);
                    assert(t.contains(y));
                    let m = choose|m: int| 0 <= m < init.len() && init[m] == y;
                    assert(s[m] == y);
                }
            }
            if s.contains(y) {
                let k = choose|k: int| 0 <= k < s.len() && s[k] == y;
                if k == s.len() - 1 {
                    assert(r[p] == y);
                } else {
                    assert(init[k] == y);
                    assert(init.contains(y));
                    let m = choose|m: int| 0 <= m < t.len() && t[m] == y;
                    if m < p {
                        assert(r[m] == y);
                    } else {
                        assert(r[m + 1] == y);
                    }
                }
            }
        }
        if paths_distinct(s) {
            assert(paths_distinct(init)) by {
                assert forall|i: int, j: int| 0 <= i < j < init.len() implies #[trigger] init[i].path@
                    != #[trigger] init[j].path@ by {
                    assert(init[i] == s[i] && init[j] == s[j]);
                }
            }
            assert forall|k: int| 0 <= k < t.len() implies #[trigger] t[k].path@ != x.path@ by {
                assert(t.contains(t[k]));
                assert(init.contains(t[k]));
                let m = choose|m: int| 0 <= m < init.len() && init[m] == t[k];
                assert(s[m] == t[k]);
                assert(s[s.len() - 1] == x);
            }
            assert forall|i: int, j: int| 0 <= i < j < r.len() implies #[trigger] r[i].path@
                != #[trigger] r[j].path@ by {
                let ii = if i < p { i } else { i - 1 };
                let jj = if j < p { j } else { j - 1 };
                if i == p {
                    assert(r[i] == x && r[j] == t[jj]);
                } else if j == p {
                    assert(r[j] == x && r[i] == t[ii]);
                } else {
                    assert(r[i] == t[ii] && r[j] == t[jj]);
                }
            }
        }
    }
}

/// Adding a row (see [`TaskResult::ExtRowAdd`]) to a list with distinct
/// paths leaves it in name order, with distinct paths, the new row in it,
/// one more row only when its path was new, and every other row kept.
pub proof fn law_row_add(items: Seq<Extension>, e: Extension)
    requires
        paths_distinct(items),
    ensures
        names_sorted(by_name(upsert(items, e))),
        paths_distinct(by_name(upsert(items, e))),
        by_name(upsert(items, e)).contains(e),
        by_name(upsert(items, e)).len() == items.len() + (if path_pos(items, e.path@) is Some {
            0int
        } else {
            1int
        }),
        forall|y: Extension|
            items.contains(y) && y.path@ != e.path@ ==> #[trigger] by_name(upsert(items, e)).contains(
                y,
            ),
{
    lemma_path_pos(items, e.path@);
    let u = upsert(items, e);
    match path_pos(items, e.path@) {
        Some(i) => {
            assert(u[i] == e);
            assert forall|a: int, b: int| 0 <= a < b < u.len() implies #[trigger] u[a].path@
                != #[trigger] u[b].path@ by {
                if a != i && b != i {
                    assert(u[a] == items[a] && u[b] == items[b]);
                } else if a == i {
                    assert(u[b] == items[b]);
                } else {
                    assert(u[a] == items[a]);
                }
            }
            assert forall|y: Extension| items.contains(y) && y.path@ != e.path@ implies u.contains(
                y,
            ) by {
                let k = choose|k: int| 0 <= k < items.len() && items[k] == y;
                assert(k != i);
                assert(u[k] == y);
            }
        },
        None => {
            assert(u[u.len() - 1] == e);
            assert forall|a: int, b: int| 0 <= a < b < u.len() implies #[trigger] u[a].path@
                != #[trigger] u[b].path@ by {
                if b < items.len() {
                    assert(u[a] == items[a] && u[b] == items[b]);
                } else {
                    assert(u[a] == items[a]);
                }
            }
            assert forall|y: Extension| items.contains(y) && y.path@ != e.path@ implies u.contains(
                y,
            ) by {
                let k = choose|k: int| 0 <= k < items.len() && items[k] == y;
                assert(u[k] == y);
            }
        },
    }
    lemma_by_name(u);
    assert(u.contains(e));
}

/// `c` after a Core load of `commits`, `tags` and head information for
/// `root`, requested with `limit` rows, before its saved list position is
/// restored: each view's saved selection is pulled back onto its list.
pub open spec fn core_loaded(
    c: CoreTab,
    commits: Seq<Commit>,
    tags: Seq<TagCommit>,
    current: Option<String>,
    current_tag: Option<String>,
    branch: Option<String>,
    remote: Option<String>,
    root: String,
    limit: usize,
) -> CoreTab {
    CoreTab {
        end_reached: commits.len() < limit,
        limit,
        current,
        current_tag,
        branch,
        remote,
        loaded_for: Some(root),
        all_list_selected: clamp_to(c.all_list_selected, commits.len()),
        stable_list_selected: clamp_to(c.stable_list_selected, tags.len()),
        ..c
    }
}

/// The grid of `c` after its active view's saved position is restored and
/// scrolled into view.
pub open spec fn core_restored(c: CoreTab) -> GridModel {
    let (sel, scr) = match c.filter {
        CoreFilter::Stable => (c.stable_list_selected, c.stable_list_scroll),
        CoreFilter::All => (c.all_list_selected, c.all_list_scroll),
    };
    model_ensure_visible(
        GridModel {
            sel,
            scroll: scr,
            visible: if c.visible_rows >= 1 {
                c.visible_rows
            } else {
                1usize
            },
            ..c.grid@
        },
    )
}

/// How the shell brings a list up to date.
pub enum LoadStep {
    /// Read the Core repository at `root` locally (at most `limit`
    /// commits, handed back as `TaskResult::CoreData`), then start `req`.
    Core {
        /// Repository path.
        root: String,
        /// Row limit of the local read.
        limit: usize,
        /// The background refresh to start afterwards.
        req: TaskRequest,
    },
    /// Read the custom nodes under `root` locally (at most `limit`,
    /// handed back as `TaskResult::ExtData`), then start `req`.
    Ext {
        /// ComfyUI root.
        root: String,
        /// Row limit of the local read.
        limit: usize,
        /// The background refresh to start afterwards.
        req: TaskRequest,
    },
    /// Start `req` straight away.
    Start(TaskRequest),
}

/// Whether a list was last loaded for some root other than `root` (or
/// never).
pub open spec fn loaded_elsewhere(lf: Option<String>, root: Seq<char>) -> bool {
    match lf {
        Some(p) => !same_path_spec(p@, root),
        None => true,
    }
}

/// The load the screen starts by itself on a frame: none without a
/// configured root or while a refresh waits in the queue; otherwise the
/// Core history when a Core tab shows and it was not loaded for the root,
/// the extension list when the Extensions or Install tab shows and it was
/// not loaded for the root, and the catalog when the Install tab shows and
/// it was never loaded.
pub open spec fn lazy_load(v: VersionMgmt, cfg: Config, r: Option<LoadStep>) -> bool {
    let root = cfg.general.comfyui_dir;
    if root@.len() == 0 || v.queued_refresh is Some {
        r is None
    } else if (v.tab == 0 || v.tab == 1) && loaded_elsewhere(v.core.loaded_for, root@) {
        r matches Some(LoadStep::Start(t)) && t.follow_up == TaskKind::Nothing && t.is_refresh && (
        t.job matches Job::CoreLoad { root: r0, env, limit } && r0 == root && env_for(env, cfg)
            && limit == LIST_MAX_NUM)
    } else if (v.tab == 2 || v.tab == 3) && loaded_elsewhere(v.ext.loaded_for, root@) {
        r matches Some(LoadStep::Ext { root: r0, limit, req }) && r0 == root && limit
            == LIST_MAX_NUM && req.follow_up == TaskKind::Nothing && req.is_refresh && (
        req.job matches Job::ExtLoad { root: r1, limit: l1, env } && r1 == root && l1
            == LIST_MAX_NUM && env_for(env, cfg))
    } else if v.tab == 3 && !v.install.catalog_loaded {
        r matches Some(LoadStep::Start(t)) && t.follow_up == TaskKind::Nothing && t.is_refresh && (
        t.job matches Job::FetchRegistry { env } && env_for(env, cfg))
    } else {
        r is None
    }
}

/// The reload a finished task's follow-up `k` asks for: the Core history
/// or the extension list of the root it names, with the row limit the list
/// has now and no extra environment.
pub open spec fn follow_up_load(v: VersionMgmt, k: TaskKind, r: Option<LoadStep>) -> bool {
    match k {
        TaskKind::Nothing => r is None,
        TaskKind::CoreLoad(root) => r matches Some(LoadStep::Core { root: r0, limit, req }) && r0
            == root && limit == v.core.limit && req.follow_up == TaskKind::Nothing && req.is_refresh
            && req.job == (Job::CoreLoad { root, env: req.job->CoreLoad_env, limit: v.core.limit })
            && req.job->CoreLoad_env@.len() == 0,
        TaskKind::ExtLoad(root) => r matches Some(LoadStep::Ext { root: r0, limit, req }) && r0
            == root && limit == v.ext.limit && req.follow_up == TaskKind::Nothing && req.is_refresh
            && req.job == (Job::ExtLoad { root, limit: v.ext.limit, env: req.job->ExtLoad_env })
            && req.job->ExtLoad_env@.len() == 0,
    }
}

/// The tab a hit on the strip selects from tab `t`: the tab hit, or the
/// neighbour on the chevron's side (wrapping).
pub open spec fn tab_after_hit(t: usize, h: HitResult) -> usize {
    match h {
        HitResult::Tab(i) => i,
        HitResult::PrevChevron => tab_left(t),
        HitResult::NextChevron => tab_right(t),
    }
}

/// A mouse event on the screen drawn over `area` (the tabs labelled
/// `names`; `upd_w`, `rei_w` and `install_w` are the widths of the
/// Extensions tab's bulk buttons and of the Install button). Nothing
/// happens while a mutation runs. On the tab strip a hit selects a tab
/// (or its neighbour, through a chevron); below it the active tab takes
/// the event (see [`core_click`], [`ext_click`], [`install_click`]).
pub open spec fn vm_click(
    a: VersionMgmt,
    b: VersionMgmt,
    m: Mouse,
    area: Rect,
    cfg: Config,
    names: Seq<String>,
    upd_w: u16,
    rei_w: u16,
    install_w: u16,
    r: Option<VmOutcome>,
) -> bool {
    if a.pending is Some {
        r is None && b == a
    } else {
        exists|parts: Seq<Rect>|
            #[trigger] vm_layout(area, parts) && vm_click_in(
                a,
                b,
                m,
                parts[0],
                parts[1],
                cfg,
                names,
                upd_w,
                rei_w,
                install_w,
                r,
            )
    }
}

/// Whether `parts` (the two-row tab strip, then the body) can be the
/// screen's layout over `area`.
pub open spec fn vm_layout(area: Rect, parts: Seq<Rect>) -> bool {
    laid_out(parts, area, true, seq![Constraint::Length(2), Constraint::Min(0)])
}

/// A mouse event on the idle screen laid out as the tab strip `strip`
/// (two rows high) and the `body` below it (see [`vm_click`]).
pub open spec fn vm_click_in(
    a: VersionMgmt,
    b: VersionMgmt,
    m: Mouse,
    strip: Rect,
    body: Rect,
    cfg: Config,
    names: Seq<String>,
    upd_w: u16,
    rei_w: u16,
    install_w: u16,
    r: Option<VmOutcome>,
) -> bool {
    let row = m.row as int;
    if strip.y <= row < strip.y + strip.height {
        r is None && match strip_hit(widths_of(names), a.tab as int, strip, m.column as int) {
            None => b == a,
            Some(h) => {
                let t = tab_after_hit(a.tab, h);
                b == (VersionMgmt {
                    tab: t,
                    core: CoreTab { filter: filter_for(t, a.core.filter), ..a.core },
                    ..a
                })
            },
        }
    } else {
        let core0 = CoreTab { filter: filter_for(a.tab, a.core.filter), ..a.core };
        &&& b.tab == a.tab
        &&& b.pending == a.pending
        &&& b.refresh == a.refresh
        &&& b.queued_refresh == a.queued_refresh
        &&& if a.tab == 0 || a.tab == 1 {
            b.ext == a.ext && b.install == a.install && match r {
                Some(VmOutcome::Core(t)) => core_click(core0, b.core, row, body, cfg, Some(t)),
                None => core_click(core0, b.core, row, body, cfg, None),
                _ => false,
            }
        } else if a.tab == 2 {
            b.core == core0 && b.install == a.install && match r {
                Some(VmOutcome::Ext(o)) => ext_click(a.ext, b.ext, m, body, cfg, upd_w, rei_w, Some(o)),
                None => ext_click(a.ext, b.ext, m, body, cfg, upd_w, rei_w, None),
                _ => false,
            }
        } else if a.tab == 3 {
            b.core == core0 && b.ext == a.ext && match r {
                Some(VmOutcome::Install(o)) => install_click(
                    a.install,
                    b.install,
                    m,
                    body,
                    cfg,
                    install_w,
                    a.ext.items@,
                    Some(o),
                ),
                None => install_click(
                    a.install,
                    b.install,
                    m,
                    body,
                    cfg,
                    install_w,
                    a.ext.items@,
                    None,
                ),
                _ => false,
            }
        } else {
            r is None && b.core == core0 && b.ext == a.ext && b.install == a.install
        }
    }
}

/// Whether `lf` names the root `root`.
fn loaded_for_root(lf: &Option<String>, root: &String) -> (b: bool)
    ensures
        b == !loaded_elsewhere(*lf, root@),
{
    match lf {
        Some(p) => same_path(p.as_str(), root.as_str()),
        None => false,
    }
}

/// `b` is the screen `a` after Esc, `used` whether Esc was consumed (see
/// [`VersionMgmt::eat_esc`]): the topmost popup closes (the Extensions
/// tab's notice, actions menu, version picker or uninstall confirmation,
/// then the Install tab's notice or actions menu); with none open, the
/// Core tab decides.
pub open spec fn vm_esc(a: VersionMgmt, b: VersionMgmt, used: bool) -> bool {
    if a.ext.notice is Some {
        used && b == (VersionMgmt { ext: ExtensionsTab { notice: None, ..a.ext }, ..a })
    } else if a.ext.actions_menu is Some {
        used && b == (VersionMgmt { ext: ExtensionsTab { actions_menu: None, ..a.ext }, ..a })
    } else if a.ext.version_picker is Some {
        used && b == (VersionMgmt { ext: ExtensionsTab { version_picker: None, ..a.ext }, ..a })
    } else if a.ext.confirm is Some {
        used && b == (VersionMgmt {
            ext: ExtensionsTab { confirm: None, pending_delete: None, ..a.ext },
            ..a
        })
    } else if a.install.notice is Some {
        used && b == (VersionMgmt { install: InstallTab { notice: None, ..a.install }, ..a })
    } else if a.install.actions_menu is Some {
        used && b == (VersionMgmt { install: InstallTab { actions_menu: None, ..a.install }, ..a })
    } else {
        b == (VersionMgmt { core: b.core, ..a }) && core_esc(a.core, b.core, used)
    }
}

impl VersionMgmt {
    /// The screen's invariant: the Core tab's grid is well formed.
    pub open spec fn wf(&self) -> bool {
        self.core.wf()
    }

    /// Constructs a fresh screen on the Core (Stable) tab, the Install tab
    /// seeded from the cached catalog when there is one.
    pub fn new(cached_catalog: Option<Vec<RegistryEntry>>) -> (v: Self)
        ensures
            v.wf(),
            v.tab == 0,
            v.pending is None && v.refresh is None && v.queued_refresh is None,
            v.core.filter == CoreFilter::Stable && v.core.loaded_for is None,
            v.core.commits@.len() == 0 && v.core.tags@.len() == 0 && v.core.limit == LIST_MAX_NUM,
            v.ext.items@.len() == 0 && v.ext.loaded_for is None && v.ext.limit == LIST_MAX_NUM,
            v.ext.focus == ExtFocus::Table && v.ext.notice is None && v.ext.confirm is None
                && v.ext.actions_menu is None && v.ext.version_picker is None,
            v.ext.pending_flash is None && v.install.pending_flash is None,
            v.install.focus == InstallFocus::Catalog && v.install.notice is None
                && v.install.actions_menu is None,
            match cached_catalog {
                Some(c) => v.install.catalog == c && v.install.catalog_loaded,
                None => v.install.catalog@.len() == 0 && !v.install.catalog_loaded,
            },
    {
        VersionMgmt {
            tab: 0,
            core: CoreTab::new(),
            ext: ExtensionsTab::new(),
            install: InstallTab::new(cached_catalog),
            pending: None,
            refresh: None,
            queued_refresh: None,
        }
    }

    /// Whether a mutation is running (input is locked meanwhile; a
    /// background refresh does not count).
    pub fn is_busy(&self) -> (b: bool)
        ensures
            b == self.pending is Some,
    {
        self.pending.is_some()
    }

    /// Drains a flash message from the Extensions tab, or else from the
    /// Install tab.
    pub fn take_flash(&mut self) -> (r: Option<(FlashKind, String)>)
        ensures
            r == (if old(self).ext.pending_flash is Some {
                old(self).ext.pending_flash
            } else {
                old(self).install.pending_flash
            }),
            final(self).ext.pending_flash is None,
            old(self).ext.pending_flash is Some ==> final(self).install == old(self).install,
            old(self).ext.pending_flash is None ==> final(self).install.pending_flash is None,
            *final(self) == (VersionMgmt {
                ext: final(self).ext,
                install: final(self).install,
                ..*old(self)
            }),
            final(self).ext == (ExtensionsTab { pending_flash: None, ..old(self).ext }),
            final(self).install == (InstallTab {
                pending_flash: final(self).install.pending_flash,
                ..old(self).install
            }),
    {
        match self.ext.take_flash() {
            Some(f) => Some(f),
            None => self.install.take_flash(),
        }
    }

    /// The sticky banner of a running refresh: its title and progress.
    pub fn permanent_flash(&self) -> (r: Option<(FlashKind, String)>)
        ensures
            match self.refresh {
                Some(t) => r matches Some(p) && p.0 == FlashKind::Info && p.1@ == progress_text(t),
                None => r is None,
            },
    {
        match &self.refresh {
            None => None,
            Some(t) => {
                let mut v = chars_of(t.title.as_str());
                match t.progress {
                    Some((d, n)) => {
                        append_chars(&mut v, &chars_of(" ("));
                        append_chars(&mut v, &dec_chars(d as u64));
                        append_chars(&mut v, &chars_of("/"));
                        append_chars(&mut v, &dec_chars(n as u64));
                        append_chars(&mut v, &chars_of(")"));
                    },
                    None => {},
                }
                Some((FlashKind::Info, string_of(&v)))
            },
        }
    }

    /// Whether a text input has keyboard focus on the active tab.
    pub fn text_input_focused(&self) -> (b: bool)
        ensures
            b == (if self.tab == 0 || self.tab == 1 {
                self.core.grid@.row == 0
            } else if self.tab == 2 {
                self.ext.focus == crate::screens::version_mgmt::extensions_tab::ExtFocus::Search
            } else if self.tab == 3 {
                self.install.focus == crate::screens::version_mgmt::install_tab::InstallFocus::Url
                    || self.install.focus
                    == crate::screens::version_mgmt::install_tab::InstallFocus::Search
            } else {
                false
            }),
    {
        if self.tab == 0 || self.tab == 1 {
            self.core.text_input_focused()
        } else if self.tab == 2 {
            self.ext.text_input_focused()
        } else if self.tab == 3 {
            self.install.text_input_focused()
        } else {
            false
        }
    }

    /// Starts a task asked for by the user: a refresh is dropped while
    /// another runs; otherwise it takes its slot. Returns the request when
    /// the shell should run it now.
    pub fn spawn(&mut self, req: TaskRequest, title: String) -> (run: Option<TaskRequest>)
        ensures
            old(self).refresh is Some && req.is_refresh ==> run is None && *final(self) == *old(self),
            !(old(self).refresh is Some && req.is_refresh) ==> run == Some(req) && if req.is_refresh {
                *final(self) == (VersionMgmt {
                    refresh: Some(RunningTask { title, follow_up: req.follow_up, progress: None }),
                    ..*old(self)
                })
            } else {
                *final(self) == (VersionMgmt {
                    pending: Some(RunningTask { title, follow_up: req.follow_up, progress: None }),
                    ..*old(self)
                })
            },
    {
        if req.is_refresh && self.refresh.is_some() {
            return None;
        }
        self.start(req, title)
    }

    /// Starts a task asked for automatically (a first load, a follow-up):
    /// a refresh that finds another running waits in the one-deep queue,
    /// replacing any request already waiting. Returns the request when the
    /// shell should run it now.
    pub fn spawn_auto(&mut self, req: TaskRequest, title: String) -> (run: Option<TaskRequest>)
        ensures
            old(self).refresh is Some && req.is_refresh ==> run is None && *final(self) == (
            VersionMgmt { queued_refresh: Some((req, title)), ..*old(self) }),
            !(old(self).refresh is Some && req.is_refresh) ==> run == Some(req) && if req.is_refresh {
                *final(self) == (VersionMgmt {
                    refresh: Some(RunningTask { title, follow_up: req.follow_up, progress: None }),
                    ..*old(self)
                })
            } else {
                *final(self) == (VersionMgmt {
                    pending: Some(RunningTask { title, follow_up: req.follow_up, progress: None }),
                    ..*old(self)
                })
            },
    {
        if req.is_refresh && self.refresh.is_some() {
            self.queued_refresh = Some((req, title));
            return None;
        }
        self.start(req, title)
    }

    fn start(&mut self, req: TaskRequest, title: String) -> (run: Option<TaskRequest>)
        ensures
            run == Some(req),
            if req.is_refresh {
                *final(self) == (VersionMgmt {
                    refresh: Some(RunningTask { title, follow_up: req.follow_up, progress: None }),
                    ..*old(self)
                })
            } else {
                *final(self) == (VersionMgmt {
                    pending: Some(RunningTask { title, follow_up: req.follow_up, progress: None }),
                    ..*old(self)
                })
            },
    {
        let task = RunningTask { title, follow_up: copy_kind(&req.follow_up), progress: None };
        if req.is_refresh {
            self.refresh = Some(task);
        } else {
            self.pending = Some(task);
        }
        Some(req)
    }

    /// Records the progress a running task reported.
    pub fn progress(&mut self, for_refresh: bool, done: usize, total: usize)
        ensures
            for_refresh ==> *final(self) == (VersionMgmt {
                refresh: match old(self).refresh {
                    Some(t) => Some(RunningTask { progress: Some((done, total)), ..t }),
                    None => None,
                },
                ..*old(self)
            }),
            !for_refresh ==> *final(self) == (VersionMgmt {
                pending: match old(self).pending {
                    Some(t) => Some(RunningTask { progress: Some((done, total)), ..t }),
                    None => None,
                },
                ..*old(self)
            }),
    {
        if for_refresh {
            match &mut self.refresh {
                Some(t) => {
                    t.progress = Some((done, total));
                },
                None => {},
            }
        } else {
            match &mut self.pending {
                Some(t) => {
                    t.progress = Some((done, total));
                },
                None => {},
            }
        }
    }

    /// Ends the running refresh (or mutation) and returns its follow-up.
    pub fn finish(&mut self, for_refresh: bool) -> (then_kind: TaskKind)
        ensures
            for_refresh ==> *final(self) == (VersionMgmt { refresh: None, ..*old(self) })
                && then_kind == match old(self).refresh {
                Some(t) => t.follow_up,
                None => TaskKind::Nothing,
            },
            !for_refresh ==> *final(self) == (VersionMgmt { pending: None, ..*old(self) })
                && then_kind == match old(self).pending {
                Some(t) => t.follow_up,
                None => TaskKind::Nothing,
            },
    {
        let t = if for_refresh {
            self.refresh.take()
        } else {
            self.pending.take()
        };
        match t {
            Some(t) => t.follow_up,
            None => TaskKind::Nothing,
        }
    }

    /// Takes the queued refresh once no refresh is running.
    pub fn promote_queued(&mut self) -> (r: Option<(TaskRequest, String)>)
        ensures
            old(self).refresh is None ==> r == old(self).queued_refresh && *final(self) == (
            VersionMgmt { queued_refresh: None, ..*old(self) }),
            old(self).refresh is Some ==> r is None && *final(self) == *old(self),
    {
        if self.refresh.is_none() {
            self.queued_refresh.take()
        } else {
            None
        }
    }

    /// Keeps the Core tab's view in step with the active tab.
    pub fn sync_core_filter(&mut self)
        ensures
            *final(self) == (VersionMgmt {
                core: CoreTab { filter: filter_for(old(self).tab, old(self).core.filter), ..old(self).core },
                ..*old(self)
            }),
    {
        if self.tab == 0 {
            self.core.filter = CoreFilter::Stable;
        } else if self.tab == 1 {
            self.core.filter = CoreFilter::All;
        }
    }

    /// Closes the topmost popup of the screen, or leaves or clears the Core
    /// search; returns whether Esc was consumed.
    pub fn eat_esc(&mut self) -> (used: bool)
        requires
            old(self).wf(),
        ensures
            final(self).wf(),
            vm_esc(*old(self), *final(self), used),
    {
        if self.ext.notice.is_some() {
            self.ext.notice = None;
            return true;
        }
        if self.ext.actions_menu.is_some() {
            self.ext.actions_menu = None;
            return true;
        }
        if self.ext.version_picker.is_some() {
            self.ext.version_picker = None;
            return true;
        }
        if self.ext.confirm.is_some() {
            self.ext.confirm = None;
            self.ext.pending_delete = None;
            return true;
        }
        if self.install.notice.is_some() {
            self.install.notice = None;
            return true;
        }
        if self.install.actions_menu.is_some() {
            self.install.actions_menu = None;
            return true;
        }
        self.core.eat_search_esc()
    }

    /// Handles a key press. Nothing happens while a mutation runs. Left and
    /// Right go to the active tab first and switch tabs (wrapping) when it
    /// does not use them; any other key goes to the active tab (see
    /// [`core_key`], [`ext_key`], [`install_key`]).
    pub fn on_key(&mut self, k: Key, cfg: &Config) -> (r: Option<VmOutcome>)
        requires
            keys_ok(*old(self), k),
        ensures
            final(self).wf(),
            old(self).pending is Some ==> r is None && *final(self) == *old(self),
            old(self).pending is None && (k == Key::Left || k == Key::Right) ==> r is None
                && final(self).pending == old(self).pending && final(self).refresh == old(self).refresh
                && final(self).tab == (if k == Key::Left {
                if left_used(*old(self)) {
                    old(self).tab
                } else {
                    tab_left(old(self).tab)
                }
            } else {
                if right_used(*old(self)) {
                    old(self).tab
                } else {
                    tab_right(old(self).tab)
                }
            }),
            old(self).pending is None && k != Key::Left && k != Key::Right ==> {
                let a = *old(self);
                let core0 = CoreTab { filter: filter_for(a.tab, a.core.filter), ..a.core };
                &&& final(self).tab == a.tab
                &&& final(self).pending == a.pending
                &&& final(self).refresh == a.refresh
                &&& if a.tab == 0 || a.tab == 1 {
                    final(self).ext == a.ext && final(self).install == a.install && match r {
                        Some(VmOutcome::Core(t)) => core_key(core0, final(self).core, k, *cfg, Some(t)),
                        None => core_key(core0, final(self).core, k, *cfg, None),
                        _ => false,
                    }
                } else if a.tab == 2 {
                    final(self).core == core0 && final(self).install == a.install && match r {
                        Some(VmOutcome::Ext(o)) => ext_key(a.ext, final(self).ext, k, *cfg, Some(o)),
                        None => ext_key(a.ext, final(self).ext, k, *cfg, None),
                        _ => false,
                    }
                } else if a.tab == 3 {
                    final(self).core == core0 && final(self).ext == a.ext && match r {
                        Some(VmOutcome::Install(o)) => install_key(
                            a.install,
                            final(self).install,
                            k,
                            *cfg,
                            a.ext.items@,
                            Some(o),
                        ),
                        None => install_key(
                            a.install,
                            final(self).install,
                            k,
                            *cfg,
                            a.ext.items@,
                            None,
                        ),
                        _ => false,
                    }
                } else {
                    r is None && final(self).core == core0 && final(self).ext == a.ext
                        && final(self).install == a.install
                }
            },
    {
        if self.is_busy() {
            return None;
        }
        if k == Key::Left || k == Key::Right {
            let left = k == Key::Left;
            let used = if self.tab == 0 || self.tab == 1 {
                if left {
                    self.core.on_left()
                } else {
                    self.core.on_right()
                }
            } else if self.tab == 2 {
                if left {
                    self.ext.on_left()
                } else {
                    self.ext.on_right()
                }
            } else if self.tab == 3 {
                if left {
                    self.install.on_left()
                } else {
                    self.install.on_right()
                }
            } else {
                false
            };
            if !used {
                self.tab = if left {
                    (self.tab % 4 + 3) % 4
                } else {
                    (self.tab % 4 + 1) % 4
                };
                self.sync_core_filter();
            }
            return None;
        }
        self.sync_core_filter();
        if self.tab == 0 || self.tab == 1 {
            match self.core.on_key(k, cfg) {
                Some(t) => Some(VmOutcome::Core(t)),
                None => None,
            }
        } else if self.tab == 2 {
            match self.ext.on_key(k, cfg) {
                Some(o) => Some(VmOutcome::Ext(o)),
                None => None,
            }
        } else if self.tab == 3 {
            match self.install.on_key(k, cfg, &self.ext.items) {
                Some(o) => Some(VmOutcome::Install(o)),
                None => None,
            }
        } else {
            None
        }
    }

    /// The load to start on this frame, if any (see [`lazy_load`]); the
    /// shell runs it and hands the request to `spawn_auto`.
    pub fn lazy_load(&self, cfg: &Config) -> (r: Option<LoadStep>)
        ensures
            lazy_load(*self, *cfg, r),
    {
        let root = &cfg.general.comfyui_dir;
        if root.as_str().is_empty() || self.queued_refresh.is_some() {
            return None;
        }
        if (self.tab == 0 || self.tab == 1) && !loaded_for_root(&self.core.loaded_for, root) {
            return Some(
                LoadStep::Start(load_request_with_env(root.clone(), build(&cfg.network), LIST_MAX_NUM)),
            );
        }
        if (self.tab == 2 || self.tab == 3) && !loaded_for_root(&self.ext.loaded_for, root) {
            return Some(
                LoadStep::Ext {
                    root: root.clone(),
                    limit: LIST_MAX_NUM,
                    req: load_request_with_limit(root.clone(), LIST_MAX_NUM, build(&cfg.network)),
                },
            );
        }
        if self.tab == 3 && !self.install.catalog_loaded {
            return Some(LoadStep::Start(fetch_registry_request(build(&cfg.network))));
        }
        None
    }

    /// The reload a finished task's follow-up asks for (see
    /// [`follow_up_load`]).
    pub fn follow_up_load(&self, k: TaskKind) -> (r: Option<LoadStep>)
        ensures
            follow_up_load(*self, k, r),
    {
        match k {
            TaskKind::Nothing => None,
            TaskKind::CoreLoad(root) => {
                let limit = self.core.limit;
                Some(
                    LoadStep::Core {
                        root: root.clone(),
                        limit,
                        req: load_request_with_env(root, Vec::new(), limit),
                    },
                )
            },
            TaskKind::ExtLoad(root) => {
                let limit = self.ext.limit;
                Some(
                    LoadStep::Ext {
                        root: root.clone(),
                        limit,
                        req: load_request_with_limit(root, limit, Vec::new()),
                    },
                )
            },
        }
    }

    /// Polls the deferred buttons of the Extensions tab, and when it asks
    /// for nothing, those of the Install tab.
    pub fn poll_buttons(&mut self, cfg: &Config) -> (r: Option<VmOutcome>)
        ensures
            *final(self) == (VersionMgmt { ext: final(self).ext, install: final(self).install, ..*old(self) }),
            ({
                let a = *old(self);
                let b = *final(self);
                match r {
                    Some(VmOutcome::Ext(o)) => button_polled(a.ext, b.ext, *cfg, Some(o)) && b.install == a.install,
                    Some(VmOutcome::Install(o)) => button_polled(a.ext, b.ext, *cfg, None) && install_polled(
                        a.install,
                        b.install,
                        *cfg,
                        Some(o),
                    ),
                    Some(VmOutcome::Core(_)) => false,
                    None => button_polled(a.ext, b.ext, *cfg, None) && install_polled(
                        a.install,
                        b.install,
                        *cfg,
                        None,
                    ),
                }
            }),
    {
        match self.ext.poll_button_action(cfg) {
            Some(o) => Some(VmOutcome::Ext(o)),
            None => match self.install.poll_button_action(cfg) {
                Some(o) => Some(VmOutcome::Install(o)),
                None => None,
            },
        }
    }

    /// Handles a mouse event on the screen drawn over `area` (see
    /// [`vm_click`]).
    pub fn on_mouse(
        &mut self,
        m: Mouse,
        area: Rect,
        cfg: &Config,
        names: &Vec<String>,
        upd_w: u16,
        rei_w: u16,
        install_w: u16,
    ) -> (r: Option<VmOutcome>)
        requires
            old(self).wf(),
            fits(area, 18),
        ensures
            final(self).wf(),
            vm_click(*old(self), *final(self), m, area, *cfg, names@, upd_w, rei_w, install_w, r),
    {
        if self.is_busy() {
            return None;
        }
        let mut cs: Vec<Constraint> = Vec::new();
        cs.push(Constraint::Length(2));
        cs.push(Constraint::Min(0));
        assert(cs@ =~= seq![Constraint::Length(2), Constraint::Min(0)]);
        let parts = split(area, true, &cs);
        assert(piece_of(parts@[0], area, true) && piece_of(parts@[1], area, true));
        let r = self.click_in(m, parts[0], parts[1], cfg, names, upd_w, rei_w, install_w);
        assert(vm_layout(area, parts@));
        r
    }

    /// Handles a mouse event on the idle screen laid out as `strip` and
    /// `body` (see [`vm_click_in`]).
    fn click_in(
        &mut self,
        m: Mouse,
        strip: Rect,
        body: Rect,
        cfg: &Config,
        names: &Vec<String>,
        upd_w: u16,
        rei_w: u16,
        install_w: u16,
    ) -> (r: Option<VmOutcome>)
        requires
            old(self).wf(),
            old(self).pending is None,
            fits(body, 18),
            fits(strip, 18),
        ensures
            final(self).wf(),
            vm_click_in(*old(self), *final(self), m, strip, body, *cfg, names@, upd_w, rei_w, install_w, r),
    {
        if m.row >= strip.y && m.row - strip.y < strip.height {
            let tabs = Tabs { items: names.as_slice(), selected: self.tab, highlighted: None };
            match tabs.hit(strip, m.column) {
                Some(h) => {
                    self.tab = match h {
                        HitResult::Tab(i) => i,
                        HitResult::PrevChevron => (self.tab % 4 + 3) % 4,
                        HitResult::NextChevron => (self.tab % 4 + 1) % 4,
                    };
                    self.sync_core_filter();
                },
                None => {},
            }
            return None;
        }
        self.sync_core_filter();
        if self.tab == 0 || self.tab == 1 {
            match self.core.on_mouse(m, body, cfg) {
                Some(t) => Some(VmOutcome::Core(t)),
                None => None,
            }
        } else if self.tab == 2 {
            match self.ext.on_mouse(m, body, cfg, upd_w, rei_w) {
                Some(o) => Some(VmOutcome::Ext(o)),
                None => None,
            }
        } else if self.tab == 3 {
            match self.install.on_mouse(m, body, cfg, install_w, &self.ext.items) {
                Some(o) => Some(VmOutcome::Install(o)),
                None => None,
            }
        } else {
            None
        }
    }

    /// Handles one wheel step (`delta < 0` is up). Nothing happens while a
    /// mutation runs. An open version picker takes it first (moving its
    /// cursor, stopping at either end); otherwise the active tab does.
    pub fn scroll(&mut self, delta: i32)
        requires
            old(self).wf(),
        ensures
            final(self).wf(),
            old(self).pending is Some ==> *final(self) == *old(self),
            old(self).pending is None && old(self).ext.version_picker is Some ==> ({
                let vp = old(self).ext.version_picker.unwrap();
                let n = vp.commits@.len() as int;
                let sel = vp.selected as int;
                if n == 0 || (delta < 0 && sel == 0) || (delta >= 0 && sel + 1 >= n) {
                    *final(self) == *old(self)
                } else {
                    *final(self) == (VersionMgmt {
                        ext: ExtensionsTab {
                            version_picker: Some(picker_at(vp, if delta < 0 {
                                sel - 1
                            } else {
                                sel + 1
                            })),
                            ..old(self).ext
                        },
                        ..*old(self)
                    })
                }
            }),
            old(self).pending is None && old(self).ext.version_picker is None ==> ({
                let s = VersionMgmt {
                    core: CoreTab { filter: filter_for(old(self).tab, old(self).core.filter), ..old(self).core },
                    ..*old(self)
                };
                if s.tab == 0 || s.tab == 1 {
                    core_scrolled(s.core, final(self).core, delta) && *final(self) == (VersionMgmt {
                        core: final(self).core,
                        ..s
                    })
                } else if s.tab == 2 {
                    *final(self) == (VersionMgmt { ext: ext_scrolled(s.ext, delta), ..s })
                } else if s.tab == 3 {
                    *final(self) == (VersionMgmt { install: install_scrolled(s.install, delta), ..s })
                } else {
                    *final(self) == s
                }
            }),
    {
        if self.is_busy() {
            return;
        }
        if self.ext.version_picker.is_some() {
            match &mut self.ext.version_picker {
                Some(vp) => {
                    let n = vp.commits.len();
                    if n == 0 {
                        return;
                    }
                    if delta < 0 {
                        if vp.selected == 0 {
                            return;
                        }
                        vp.selected = vp.selected - 1;
                    } else {
                        if vp.selected >= n - 1 {
                            return;
                        }
                        vp.selected = vp.selected + 1;
                    }
                    vp.ensure_visible();
                },
                None => {},
            }
            return;
        }
        self.sync_core_filter();
        if self.tab == 0 || self.tab == 1 {
            self.core.scroll(delta);
        } else if self.tab == 2 {
            self.ext.scroll(delta);
        } else if self.tab == 3 {
            self.install.scroll(delta);
        }
    }


    /// Applies what a background task handed back (see [`TaskResult`]).
    pub fn apply_result(&mut self, res: TaskResult)
        requires
            old(self).wf(),
        ensures
            final(self).wf(),
            final(self).tab == old(self).tab,
            final(self).pending == old(self).pending,
            final(self).refresh == old(self).refresh,
            final(self).queued_refresh == old(self).queued_refresh,
            match res {
                TaskResult::CoreData {
                    commits,
                    tags,
                    current,
                    current_tag,
                    branch,
                    remote,
                    root,
                    requested_limit,
                } => {
                    let c1 = core_loaded(
                        old(self).core,
                        commits@,
                        tags@,
                        current,
                        current_tag,
                        branch,
                        remote,
                        root,
                        requested_limit,
                    );
                    &&& final(self).core.commits@ == commits@
                    &&& final(self).core.tags@ == tags@
                    &&& final(self).core.grid@ == core_restored(c1)
                    &&& saved_as(
                        CoreTab { commits: final(self).core.commits, tags: final(self).core.tags, ..c1 },
                        final(self).core,
                    )
                    &&& final(self).ext == old(self).ext
                    &&& final(self).install == old(self).install
                },
                TaskResult::ExtData { items, root, requested_limit } => {
                    let e = old(self).ext;
                    let n = ext_filter(items@, e.search.value@).len();
                    &&& final(self).ext.items@ == items@
                    &&& final(self).ext == table_at(
                        ExtensionsTab {
                            items: final(self).ext.items,
                            end_reached: items@.len() < requested_limit,
                            limit: requested_limit,
                            loaded_for: Some(root),
                            ..e
                        },
                        clamp_to(e.selected, n) as int,
                    )
                    &&& final(self).core == old(self).core
                    &&& final(self).install == old(self).install
                },
                TaskResult::RegistryData { entries } => {
                    &&& final(self).install.catalog@ == entries@
                    &&& final(self).install == (InstallTab {
                        catalog: final(self).install.catalog,
                        catalog_loaded: true,
                        catalog_selected: clamp_to(old(self).install.catalog_selected, entries@.len()),
                        ..old(self).install
                    })
                    &&& final(self).core == old(self).core
                    &&& final(self).ext == old(self).ext
                },
                TaskResult::Progress { .. } => *final(self) == *old(self),
                TaskResult::ExtRowUpdate { old_path, ext } => {
                    &&& final(self).ext == (ExtensionsTab { items: final(self).ext.items, ..old(self).ext })
                    &&& final(self).ext.items@ == match path_pos(old(self).ext.items@, old_path@) {
                        Some(i) => old(self).ext.items@.update(i, ext),
                        None => old(self).ext.items@,
                    }
                    &&& final(self).core == old(self).core
                    &&& final(self).install == old(self).install
                },
                TaskResult::ExtRowRemove { path } => {
                    &&& final(self).core == old(self).core
                    &&& final(self).install == old(self).install
                    &&& match path_pos(old(self).ext.items@, path@) {
                        Some(i) => {
                            let items = old(self).ext.items@.remove(i);
                            let n = ext_filter(items, old(self).ext.search.value@).len();
                            final(self).ext.items@ == items && final(self).ext == table_at(
                                ExtensionsTab { items: final(self).ext.items, ..old(self).ext },
                                clamp_to(old(self).ext.selected, n) as int,
                            )
                        },
                        None => final(self).ext == old(self).ext,
                    }
                },
                TaskResult::ExtRowAdd { ext } => {
                    &&& final(self).ext == (ExtensionsTab { items: final(self).ext.items, ..old(self).ext })
                    &&& final(self).ext.items@ == by_name(
                        match path_pos(old(self).ext.items@, ext.path@) {
                            Some(i) => old(self).ext.items@.update(i, ext),
                            None => old(self).ext.items@.push(ext),
                        },
                    )
                    &&& final(self).core == old(self).core
                    &&& final(self).install == old(self).install
                },
                TaskResult::CoreHeadUpdate { current, current_tag } => {
                    &&& final(self).core == (CoreTab { current, current_tag, ..old(self).core })
                    &&& final(self).ext == old(self).ext
                    &&& final(self).install == old(self).install
                },
                TaskResult::ExtCommits { ext_path, commits, current, requested_limit } => {
                    &&& final(self).core == old(self).core
                    &&& final(self).install == old(self).install
                    &&& match old(self).ext.version_picker {
                        Some(vp) => if vp.ext_path@ == ext_path@ {
                            final(self).ext == (ExtensionsTab {
                                version_picker: final(self).ext.version_picker,
                                ..old(self).ext
                            }) && (final(self).ext.version_picker matches Some(vp2)
                                && vp2.commits@ == commits@ && vp2 == picker_at(
                                VersionPicker {
                                    end_reached: commits@.len() < requested_limit,
                                    limit: requested_limit,
                                    commits: vp2.commits,
                                    current,
                                    ..vp
                                },
                                clamp_to(vp.selected, commits@.len()) as int,
                            ))
                        } else {
                            final(self).ext == old(self).ext
                        },
                        None => final(self).ext == old(self).ext,
                    }
                },
            },
    {
        match res {
            TaskResult::CoreData {
                commits,
                tags,
                current,
                current_tag,
                branch,
                remote,
                root,
                requested_limit,
            } => {
                self.core.end_reached = commits.len() < requested_limit;
                self.core.limit = requested_limit;
                let nc = commits.len();
                let nt = tags.len();
                self.core.commits = commits;
                self.core.tags = tags;
                self.core.current = current;
                self.core.current_tag = current_tag;
                self.core.branch = branch;
                self.core.remote = remote;
                self.core.loaded_for = Some(root);
                if self.core.all_list_selected >= nc {
                    self.core.all_list_selected = if nc > 0 {
                        nc - 1
                    } else {
                        0
                    };
                }
                if self.core.stable_list_selected >= nt {
                    self.core.stable_list_selected = if nt > 0 {
                        nt - 1
                    } else {
                        0
                    };
                }
                self.core.restore_filter_state();
                self.core.ensure_visible();
            },
            TaskResult::ExtData { items, root, requested_limit } => {
                self.ext.end_reached = items.len() < requested_limit;
                self.ext.limit = requested_limit;
                self.ext.items = items;
                self.ext.loaded_for = Some(root);
                self.ext_clamp();
            },
            TaskResult::RegistryData { entries } => {
                let n = entries.len();
                self.install.catalog = entries;
                self.install.catalog_loaded = true;
                if self.install.catalog_selected >= n {
                    self.install.catalog_selected = if n > 0 {
                        n - 1
                    } else {
                        0
                    };
                }
            },
            TaskResult::Progress { .. } => {},
            TaskResult::ExtRowUpdate { old_path, ext } => {
                match find_path(&self.ext.items, &old_path) {
                    Some(i) => {
                        self.ext.items.set(i, ext);
                    },
                    None => {},
                }
            },
            TaskResult::ExtRowRemove { path } => {
                match find_path(&self.ext.items, &path) {
                    Some(i) => {
                        self.ext.items.remove(i);
                        self.ext_clamp();
                    },
                    None => {},
                }
            },
            TaskResult::ExtRowAdd { ext } => {
                match find_path(&self.ext.items, &ext.path) {
                    Some(i) => {
                        self.ext.items.set(i, ext);
                    },
                    None => {
                        self.ext.items.push(ext);
                    },
                }
                let mut items = Vec::new();
                std::mem::swap(&mut items, &mut self.ext.items);
                self.ext.items = sort_by_name(items);
            },
            TaskResult::CoreHeadUpdate { current, current_tag } => {
                self.core.current = current;
                self.core.current_tag = current_tag;
            },
            TaskResult::ExtCommits { ext_path, commits, current, requested_limit } => {
                match &mut self.ext.version_picker {
                    Some(vp) => {
                        if str_same(&vp.ext_path, &ext_path) {
                            vp.end_reached = commits.len() < requested_limit;
                            vp.limit = requested_limit;
                            let n = commits.len();
                            vp.commits = commits;
                            vp.current = current;
                            if vp.selected >= n {
                                vp.selected = if n > 0 {
                                    n - 1
                                } else {
                                    0
                                };
                            }
                            vp.ensure_visible();
                        }
                    },
                    None => {},
                }
            },
        }
    }

    fn ext_clamp(&mut self)
        ensures
            ({
                let e = old(self).ext;
                let n = ext_filter(e.items@, e.search.value@).len();
                *final(self) == (VersionMgmt {
                    ext: table_at(e, clamp_to(e.selected, n) as int),
                    ..*old(self)
                })
            }),
    {
        let n = self.ext.filtered_indices().len();
        if self.ext.selected >= n {
            self.ext.selected = if n > 0 {
                n - 1
            } else {
                0
            };
        }
        self.ext.ensure_visible();
    }

}

fn str_same(a: &String, b: &String) -> (r: bool)
    ensures
        r == (a@ == b@),
{
    chars_eq(&chars_of(a.as_str()), &chars_of(b.as_str()))
}

/// Index of the first extension at `path`.
fn find_path(items: &Vec<Extension>, path: &String) -> (r: Option<usize>)
    ensures
        match r {
            Some(i) => i < items@.len() && path_pos(items@, path@) == Some(i as int),
            None => path_pos(items@, path@) is None,
        },
{
    let mut i: usize = 0;
    assert(items@.take(0) =~= Seq::<Extension>::empty());
    while i < items.len()
        invariant
            i <= items.len(),
            path_pos(items@.take(i as int), path@) is None,
        decreases items.len() - i,
    {
        assert(items@.take(i + 1).drop_last() =~= items@.take(i as int));
        if str_same(&items[i].path, path) {
            proof {
                lemma_path_pos_prefix(items@, i + 1, path@);
            }
            return Some(i);
        }
        i = i + 1;
    }
    assert(items@.take(items.len() as int) =~= items@);
    None
}

proof fn lemma_path_pos_prefix(s: Seq<Extension>, j: int, p: Seq<char>)
    requires
        0 <= j <= s.len(),
        path_pos(s.take(j), p) is Some,
    ensures
        path_pos(s, p) == path_pos(s.take(j), p),
    decreases s.len() - j,
{
    if j < s.len() {
        assert(s.take(j + 1).drop_last() =~= s.take(j));
        lemma_path_pos_prefix(s, j + 1, p);
    } else {
        assert(s.take(j) =~= s);
    }
}

/// Sorts extensions by name, keeping the order of equal names.
pub fn sort_by_name(items: Vec<Extension>) -> (r: Vec<Extension>)
    ensures
        r@ == by_name(items@),
{
    let mut out: Vec<Extension> = Vec::new();
    let mut rest = items;
    let ghost all = rest@;
    let mut i: usize = 0;
    let mut keys: Vec<Vec<char>> = Vec::new();
    assert(all.take(0) =~= Seq::<Extension>::empty());
    while i < rest.len()
        invariant
            i <= rest.len(),
            rest@ == all,
            out@ == by_name(all.take(i as int)),
            keys@.len() == out@.len(),
            forall|j: int| 0 <= j < keys@.len() ==> #[trigger] keys@[j]@ == out@[j].name@,
        decreases rest.len() - i,
    {
        assert(all.take(i + 1).drop_last() =~= all.take(i as int));
        let x = crate::screens::version_mgmt::extensions_tab::copy_ext(&rest[i]);
        let key = chars_of(x.name.as_str());
        let ghost t = out@;
        let mut p = out.len();
        let mut done = false;
        assert(t.take(p as int) =~= t);
        while !done && p > 0
            invariant
                p <= out@.len(),
                out@ == t,
                keys@.len() == out@.len(),
                forall|j: int| 0 <= j < keys@.len() ==> #[trigger] keys@[j]@ == out@[j].name@,
                key@ == x.name@,
                name_pos(t, x) == name_pos(t.take(p as int), x),
                done ==> name_pos(t.take(p as int), x) == p,
            decreases p + (if done {
                0int
            } else {
                1int
            }),
        {
            assert(t.take(p as int).last() == t[p - 1]);
            assert(t.take(p as int).drop_last() =~= t.take(p - 1));
            assert(keys@[p - 1]@ == out@[p - 1].name@);
            if lt_chars(&key, &keys[p - 1]) {
                p = p - 1;
            } else {
                done = true;
            }
        }
        let ghost ok = keys@;
        let ghost oo = out@;
        out.insert(p, x);
        keys.insert(p, key);
        assert forall|j: int| 0 <= j < keys@.len() implies #[trigger] keys@[j]@ == out@[j].name@ by {
            if j < p {
                assert(keys@[j] == ok[j] && out@[j] == oo[j]);
            } else if j > p {
                assert(keys@[j] == ok[j - 1] && out@[j] == oo[j - 1]);
            }
        }
        i = i + 1;
    }
    assert(all.take(rest.len() as int) =~= all);
    out
}

} // verus!
