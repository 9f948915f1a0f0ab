//! Installed extensions tab.
//!
//! Lists the extensions under `custom_nodes/` and decides what each key,
//! click and wheel step does: per-row actions (change version, update,
//! enable / disable, uninstall, open URL) and the update-all and
//! reinstall-all bulk operations.

use crate::app::FlashKind;
use crate::config::Config;
use crate::env::{build, env_view, network_env, EnvList};
use crate::geom::{fits, Key, Mouse, MouseKind, Rect};
use crate::layout::{laid_out, piece_of, split, Constraint};
use crate::paths::{file_name, file_name_of};
use crate::text::{str_width_of, width};
use crate::widgets::popup::{center, centered};
use crate::git::Commit;
use crate::screens::version_mgmt::{
    keep_visible, visible_scroll, Job, TaskKind, TaskRequest, LIST_MAX_NUM,
};
use crate::strs::{
    chars_of, contains_chars, copy_chars, ends, ends_with_chars, has_sub, lower_chars, lowercase_of,
    push_char, slice_chars, starts, starts_with_chars, string_of, strip_suffix_chars, append_chars,
};
use crate::widgets::button::{poll_next, Button, ButtonKind};
use crate::widgets::input::{input_step, Input};
use crate::widgets::popup::confirm::{confirm_clicked, confirm_keyed, Confirm};
use crate::widgets::popup::notice::{notice_clicked, notice_keyed, Notice, NoticeCopy, NoticeOutcome};
use vstd::prelude::*;

verus! {

/// One installed extension row.
#[derive(Clone)]
pub struct Extension {
    /// Display name with the `.disabled` suffix stripped.
    pub name: String,
    /// On-disk path; may carry the `.disabled` suffix.
    pub path: String,
    /// Whether the extension is currently disabled.
    pub disabled: bool,
    /// Whether the extension is managed by git (has a remote).
    pub managed: bool,
    /// Remote origin URL.
    pub remote: String,
    /// Current branch.
    pub branch: String,
    /// Short SHA of the current `HEAD`.
    pub head: String,
    /// Date of the current `HEAD` commit.
    pub head_date: String,
    /// Number of commits the upstream is ahead of the local `HEAD`.
    pub behind: u32,
}

/// Modal popup listing one extension's commit history so the user can
/// switch its version.
pub struct VersionPicker {
    /// Path of the extension.
    pub ext_path: String,
    /// Display name of the extension.
    pub ext_name: String,
    /// Loaded commit list, newest first.
    pub commits: Vec<Commit>,
    /// Short SHA of the extension's current `HEAD`.
    pub current: Option<String>,
    /// Selected row.
    pub selected: usize,
    /// Scroll offset.
    pub scroll: usize,
    /// Row count requested for the current `commits` snapshot.
    pub limit: usize,
    /// Whether the last load returned fewer rows than requested.
    pub end_reached: bool,
    /// Number of data rows displayed per frame.
    pub visible_rows: usize,
}

impl VersionPicker {
    /// Clamps the scroll offset so the selected row is on-screen.
    pub fn ensure_visible(&mut self)
        ensures
            *final(self) == (VersionPicker {
                scroll: visible_scroll(
                    old(self).selected as int,
                    old(self).scroll as int,
                    old(self).visible_rows as int,
                ) as usize,
                ..*old(self)
            }),
    {
        self.scroll = keep_visible(self.selected, self.scroll, self.visible_rows);
    }
}

/// An action of the per-extension actions menu.
#[derive(Clone, Copy, Debug, PartialEq, Eq, Structural)]
pub enum ExtAction {
    /// Update to the upstream head.
    UpdateToLatest,
    /// Open the version picker.
    ChangeVersion,
    /// Open the remote URL in a browser.
    OpenUrl,
    /// Enable a disabled extension.
    Enable,
    /// Disable an enabled extension.
    Disable,
    /// Delete the extension (after confirmation).
    Uninstall,
}

/// The i18n key of an action's label.
pub open spec fn ext_action_key(a: ExtAction) -> Seq<char> {
    match a {
        ExtAction::UpdateToLatest => "btn_update_to_latest"@,
        ExtAction::ChangeVersion => "btn_change_version"@,
        ExtAction::OpenUrl => "btn_open_url"@,
        ExtAction::Enable => "btn_enable"@,
        ExtAction::Disable => "btn_disable"@,
        ExtAction::Uninstall => "btn_uninstall"@,
    }
}

impl ExtAction {
    /// i18n key of the action's label.
    pub fn label_key(&self) -> (r: &'static str)
        ensures
            r@ == ext_action_key(*self),
    {
        match self {
            ExtAction::UpdateToLatest => "btn_update_to_latest",
            ExtAction::ChangeVersion => "btn_change_version",
            ExtAction::OpenUrl => "btn_open_url",
            ExtAction::Enable => "btn_enable",
            ExtAction::Disable => "btn_disable",
            ExtAction::Uninstall => "btn_uninstall",
        }
    }
}

/// Action menu opened by Enter on an extension row.
pub struct ActionsMenu {
    /// Path of the extension.
    pub ext_path: String,
    /// Display name of the extension.
    pub ext_name: String,
    /// Remote origin URL of the extension.
    pub remote: String,
    /// Whether the extension is currently disabled.
    pub disabled: bool,
    /// Whether the extension is managed by git (has a remote).
    pub managed: bool,
    /// Selected row index inside the popup.
    pub selected: usize,
}

/// The rows of an actions menu, with whether each is enabled: update and
/// change version need git, opening the URL needs one; every row is drawn
/// so the layout stays stable.
pub open spec fn action_items(am: ActionsMenu) -> Seq<(ExtAction, bool)> {
    seq![
        (ExtAction::UpdateToLatest, am.managed),
        (ExtAction::ChangeVersion, am.managed),
        (ExtAction::OpenUrl, am.remote@.len() > 0),
        (if am.disabled {
            ExtAction::Enable
        } else {
            ExtAction::Disable
        }, true),
        (ExtAction::Uninstall, true),
    ]
}

impl ActionsMenu {
    /// Returns the rows in display order with whether each is enabled.
    pub fn items(&self) -> (r: Vec<(ExtAction, bool)>)
        ensures
            r@ == action_items(*self),
    {
        let mut v: Vec<(ExtAction, bool)> = Vec::new();
        v.push((ExtAction::UpdateToLatest, self.managed));
        v.push((ExtAction::ChangeVersion, self.managed));
        v.push((ExtAction::OpenUrl, !self.remote.as_str().is_empty()));
        v.push(
            (if self.disabled {
                ExtAction::Enable
            } else {
                ExtAction::Disable
            }, true),
        );
        v.push((ExtAction::Uninstall, true));
        assert(v@ =~= action_items(*self));
        v
    }
}

/// Which control on the Extensions tab currently holds focus.
#[derive(Clone, Copy, Debug, PartialEq, Eq, Structural)]
pub enum ExtFocus {
    /// Search input.
    Search,
    /// Update All button.
    UpdateAll,
    /// Reinstall All button.
    ReinstallAll,
    /// Extensions table.
    Table,
}

/// Installed extensions tab state.
pub struct ExtensionsTab {
    /// All loaded extensions.
    pub items: Vec<Extension>,
    /// Index into the filtered view (see `filtered_indices`).
    pub selected: usize,
    /// Scroll offset into the filtered view.
    pub scroll: usize,
    /// Confirmation popup.
    pub confirm: Option<Confirm>,
    /// Notice popup.
    pub notice: Option<Notice>,
    /// Pending delete target, awaiting confirmation.
    pub pending_delete: Option<String>,
    /// ComfyUI root the current data was loaded for.
    pub loaded_for: Option<String>,
    /// Active version picker popup.
    pub version_picker: Option<VersionPicker>,
    /// Active actions popup.
    pub actions_menu: Option<ActionsMenu>,
    /// Row count requested for the current `items` snapshot.
    pub limit: usize,
    /// Whether the last load returned fewer rows than requested.
    pub end_reached: bool,
    /// Number of data rows displayed per frame.
    pub visible_rows: usize,
    /// Search input filtering the table.
    pub search: Input,
    /// Currently focused control.
    pub focus: ExtFocus,
    /// Last focused control in the top row, restored when navigating back
    /// up from the table.
    pub last_row0_focus: ExtFocus,
    /// Flash message awaiting promotion to the application banner.
    pub pending_flash: Option<(FlashKind, String)>,
    /// Update All bulk-action button.
    pub btn_update_all: Button,
    /// Reinstall All bulk-action button.
    pub btn_reinstall_all: Button,
}

/// Whether an extension matches the search `q`: its name or remote URL
/// contains `q`, ignoring case.
pub open spec fn ext_matches(e: Extension, q: Seq<char>) -> bool {
    has_sub(lowercase_of(e.name@), lowercase_of(q)) || has_sub(lowercase_of(e.remote@), lowercase_of(q))
}

/// Indices `0..n`.
pub open spec fn all_idx(n: nat) -> Seq<usize>
    decreases n,
{
    if n == 0 {
        Seq::empty()
    } else {
        all_idx((n - 1) as nat).push((n - 1) as usize)
    }
}

/// Indices of the rows (each two lower-cased texts) either of whose texts
/// holds the lower-cased `needle`, in order.
pub open spec fn pair_hits(rows: Seq<(Seq<char>, Seq<char>)>, needle: Seq<char>) -> Seq<usize>
    decreases rows.len(),
{
    if rows.len() == 0 {
        Seq::empty()
    } else {
        let p = pair_hits(rows.drop_last(), needle);
        if has_sub(rows.last().0, needle) || has_sub(rows.last().1, needle) {
            p.push((rows.len() - 1) as usize)
        } else {
            p
        }
    }
}

/// The rows a search box shows over `rows` (texts already lower-cased)
/// for the lower-cased query `needle`: all of them for an empty query,
/// else the matching ones (see [`pair_hits`]).
pub open spec fn search_rows(rows: Seq<(Seq<char>, Seq<char>)>, needle: Seq<char>) -> Seq<usize> {
    if needle.len() == 0 {
        all_idx(rows.len())
    } else {
        pair_hits(rows, needle)
    }
}

/// The pairs' texts as sequences.
pub open spec fn pairs_view(rows: Seq<(Vec<char>, Vec<char>)>) -> Seq<(Seq<char>, Seq<char>)> {
    rows.map_values(|p: (Vec<char>, Vec<char>)| (p.0@, p.1@))
}

/// Filters rows of lower-cased texts by a lower-cased query (see
/// [`search_rows`]).
pub fn matching_rows(rows: &Vec<(Vec<char>, Vec<char>)>, needle: &Vec<char>) -> (r: Vec<usize>)
    ensures
        r@ == search_rows(pairs_view(rows@), needle@),
{
    let ghost pv = pairs_view(rows@);
    let n = rows.len();
    let mut out: Vec<usize> = Vec::new();
    let mut i: usize = 0;
    if needle.len() == 0 {
        while i < n
            invariant
                i <= n == rows@.len(),
                out@ == all_idx(i as nat),
            decreases n - i,
        {
            out.push(i);
            i = i + 1;
        }
        return out;
    }
    assert(pv.take(0) =~= Seq::<(Seq<char>, Seq<char>)>::empty());
    while i < n
        invariant
            i <= n == rows@.len(),
            pv == pairs_view(rows@),
            out@ == pair_hits(pv.take(i as int), needle@),
        decreases n - i,
    {
        assert(pv.take(i + 1).drop_last() =~= pv.take(i as int));
        assert(pv.take(i + 1).last() == (rows@[i as int].0@, rows@[i as int].1@));
        if contains_chars(&rows[i].0, needle) || contains_chars(&rows[i].1, needle) {
            out.push(i);
        }
        i = i + 1;
    }
    assert(pv.take(n as int) =~= pv);
    out
}

/// An extension's searchable texts (name and remote), lower-cased.
pub open spec fn ext_texts(items: Seq<Extension>) -> Seq<(Seq<char>, Seq<char>)> {
    items.map_values(|e: Extension| (lowercase_of(e.name@), lowercase_of(e.remote@)))
}

/// Searching the lower-cased texts finds the matching extensions.
proof fn lemma_ext_texts_hits(items: Seq<Extension>, q: Seq<char>)
    ensures
        pair_hits(ext_texts(items), lowercase_of(q)) == match_idx(items, q),
    decreases items.len(),
{
    if items.len() > 0 {
        lemma_ext_texts_hits(items.drop_last(), q);
        assert(ext_texts(items).drop_last() =~= ext_texts(items.drop_last()));
    }
}

/// Indices of the items matching `q`, in order.
pub open spec fn match_idx(items: Seq<Extension>, q: Seq<char>) -> Seq<usize>
    decreases items.len(),
{
    if items.len() == 0 {
        Seq::empty()
    } else {
        let p = match_idx(items.drop_last(), q);
        if ext_matches(items.last(), q) {
            p.push((items.len() - 1) as usize)
        } else {
            p
        }
    }
}

/// The rows the table shows: every item for an empty search, otherwise
/// the indices of the matching items.
pub open spec fn ext_filter(items: Seq<Extension>, q: Seq<char>) -> Seq<usize> {
    if lowercase_of(q).len() == 0 {
        all_idx(items.len())
    } else {
        match_idx(items, q)
    }
}

/// Every row the table shows is an index into `items`.
pub proof fn lemma_filter_in_range(items: Seq<Extension>, q: Seq<char>)
    requires
        items.len() <= usize::MAX,
    ensures
        forall|j: int|
            0 <= j < ext_filter(items, q).len() ==> #[trigger] ext_filter(items, q)[j] < items.len(),
{
    lemma_all_idx_facts(items.len());
    lemma_match_idx(items, q);
}

/// `all_idx(n)` lists `0..n` in order.
pub proof fn lemma_all_idx_facts(n: nat)
    requires
        n <= usize::MAX,
    ensures
        all_idx(n).len() == n,
        forall|j: int| 0 <= j < n ==> #[trigger] all_idx(n)[j] == j,
    decreases n,
{
    if n > 0 {
        lemma_all_idx_facts((n - 1) as nat);
        assert forall|j: int| 0 <= j < n implies #[trigger] all_idx(n)[j] == j by {
            if j < n - 1 {
                assert(all_idx(n)[j] == all_idx((n - 1) as nat)[j]);
            }
        }
    }
}

proof fn lemma_match_idx(items: Seq<Extension>, q: Seq<char>)
    ensures
        match_idx(items, q).len() <= items.len(),
        forall|j: int|
            0 <= j < match_idx(items, q).len() ==> #[trigger] match_idx(items, q)[j] < items.len(),
    decreases items.len(),
{
    if items.len() > 0 {
        lemma_match_idx(items.drop_last(), q);
    }
}

/// Whether the focus is on the top row (search or the two buttons).
pub open spec fn on_top_row(f: ExtFocus) -> bool {
    f == ExtFocus::Search || f == ExtFocus::UpdateAll || f == ExtFocus::ReinstallAll
}

/// `(focus, selected, scroll)` after one wheel step over `n` rows before
/// the scroll offset is clamped: from the top row the wheel enters the
/// table (at its last row going up, its first going down); past either end
/// of the table it returns to the last focused top-row control.
pub open spec fn ext_wheel(t: ExtensionsTab, n: int, delta: i32) -> (ExtFocus, int, int) {
    if delta < 0 {
        if on_top_row(t.focus) {
            (ExtFocus::Table, n - 1, t.scroll as int)
        } else if t.selected == 0 {
            (t.last_row0_focus, t.selected as int, t.scroll as int)
        } else {
            (t.focus, t.selected - 1, t.scroll as int)
        }
    } else {
        if on_top_row(t.focus) {
            (ExtFocus::Table, 0, 0)
        } else if t.selected + 1 >= n {
            (t.last_row0_focus, t.selected as int, t.scroll as int)
        } else {
            (t.focus, t.selected + 1, t.scroll as int)
        }
    }
}

/// A copy of `e`.
pub fn copy_ext(e: &Extension) -> (r: Extension)
    ensures
        r == *e,
{
    Extension {
        name: e.name.clone(),
        path: e.path.clone(),
        disabled: e.disabled,
        managed: e.managed,
        remote: e.remote.clone(),
        branch: e.branch.clone(),
        head: e.head.clone(),
        head_date: e.head_date.clone(),
        behind: e.behind,
    }
}

/// A copy of `items`.
pub fn copy_items(items: &Vec<Extension>) -> (r: Vec<Extension>)
    ensures
        r@ == items@,
{
    let mut out: Vec<Extension> = Vec::new();
    let mut i: usize = 0;
    while i < items.len()
        invariant
            i <= items.len(),
            out@ == items@.take(i as int),
        decreases items.len() - i,
    {
        out.push(copy_ext(&items[i]));
        i = i + 1;
        assert(out@ =~= items@.take(i as int));
    }
    assert(items@.take(items.len() as int) =~= items@);
    out
}

/// Whether `env` holds the variables the network settings of `cfg` call for.
pub open spec fn env_for(env: EnvList, cfg: Config) -> bool {
    env_view(env@) == network_env(cfg.network)
}

/// The background refresh of every managed extension under `root` (at most
/// `limit` of them).
pub fn load_request_with_limit(root: String, limit: usize, env: EnvList) -> (t: TaskRequest)
    ensures
        t.follow_up == TaskKind::Nothing,
        t.is_refresh,
        t.job == (Job::ExtLoad { root, limit, env }),
{
    TaskRequest { job: Job::ExtLoad { root, limit, env }, follow_up: TaskKind::Nothing, is_refresh: true }
}

/// Whether `t` is the mutation `j` with no follow-up.
pub open spec fn mutation(t: TaskRequest, j: Job) -> bool {
    t.follow_up == TaskKind::Nothing && !t.is_refresh && t.job == j
}

fn update_one_request(path: String, name: String, cfg: &Config) -> (t: TaskRequest)
    ensures
        t.follow_up == TaskKind::Nothing,
        !t.is_refresh,
        t.job matches Job::ExtUpdateOne { path: p, name: n, env, python } && p == path && n == name
            && env_for(env, *cfg) && python == cfg.general.python,
{
    TaskRequest {
        job: Job::ExtUpdateOne {
            path,
            name,
            env: build(&cfg.network),
            python: cfg.general.python.clone(),
        },
        follow_up: TaskKind::Nothing,
        is_refresh: false,
    }
}

fn list_versions_request(path: String, name: String, limit: usize, cfg: &Config) -> (t: TaskRequest)
    ensures
        t.follow_up == TaskKind::Nothing,
        !t.is_refresh,
        t.job matches Job::ExtListVersions { path: p, name: n, env, limit: l } && p == path && n
            == name && env_for(env, *cfg) && l == limit,
{
    TaskRequest {
        job: Job::ExtListVersions { path, name, env: build(&cfg.network), limit },
        follow_up: TaskKind::Nothing,
        is_refresh: false,
    }
}

fn checkout_request(path: String, name: String, rev: String, cfg: &Config) -> (t: TaskRequest)
    ensures
        t.follow_up == TaskKind::Nothing,
        !t.is_refresh,
        t.job matches Job::ExtCheckout { path: p, name: n, rev: r, env, python } && p == path && n
            == name && r == rev && env_for(env, *cfg) && python == cfg.general.python,
{
    TaskRequest {
        job: Job::ExtCheckout {
            path,
            name,
            rev,
            env: build(&cfg.network),
            python: cfg.general.python.clone(),
        },
        follow_up: TaskKind::Nothing,
        is_refresh: false,
    }
}

/// Whether `t` updates (`reinstall` false) or force-syncs (`reinstall`
/// true) all of `items` and then reloads the list under the configured
/// ComfyUI root.
pub open spec fn bulk_task(t: TaskRequest, items: Seq<Extension>, cfg: Config, reinstall: bool) -> bool {
    &&& t.follow_up == TaskKind::ExtLoad(cfg.general.comfyui_dir)
    &&& !t.is_refresh
    &&& if reinstall {
        t.job matches Job::ExtReinstallAll { items: v, env, python } && v@ == items && env_for(
            env,
            cfg,
        ) && python == cfg.general.python
    } else {
        t.job matches Job::ExtUpdateAll { items: v, env, python } && v@ == items && env_for(
            env,
            cfg,
        ) && python == cfg.general.python
    }
}

fn bulk_request(items: &Vec<Extension>, cfg: &Config, reinstall: bool) -> (t: TaskRequest)
    ensures
        bulk_task(t, items@, *cfg, reinstall),
{
    let v = copy_items(items);
    let env = build(&cfg.network);
    let python = cfg.general.python.clone();
    let job = if reinstall {
        Job::ExtReinstallAll { items: v, env, python }
    } else {
        Job::ExtUpdateAll { items: v, env, python }
    };
    TaskRequest {
        job,
        follow_up: TaskKind::ExtLoad(cfg.general.comfyui_dir.clone()),
        is_refresh: false,
    }
}

/// What a key on the Extensions tab asks of the application shell.
pub enum ExtOutcome {
    /// Run this background job.
    Task(TaskRequest),
    /// Re-read the extensions from disk now, then call `apply_rescan`.
    Rescan,
    /// Ask before deleting this extension (see `ask_uninstall`).
    AskUninstall {
        /// Path of the extension.
        path: String,
        /// Display name of the extension.
        name: String,
    },
    /// Open this URL in a browser; when that fails, call `show_url_notice`.
    OpenUrl {
        /// The URL.
        url: String,
    },
    /// Copy this text to the clipboard and report how that went.
    Copy(String),
}

/// Whether `r` starts the single-extension update of `path` / `name`.
pub open spec fn update_task(r: Option<ExtOutcome>, path: String, name: String, cfg: Config) -> bool {
    r matches Some(ExtOutcome::Task(t)) && t.follow_up == TaskKind::Nothing && !t.is_refresh && (
    t.job matches Job::ExtUpdateOne { path: p, name: n, env, python } && p == path && n == name
        && env_for(env, cfg) && python == cfg.general.python)
}

/// Whether `r` starts loading up to `limit` commits of `path` / `name`.
pub open spec fn versions_task(
    r: Option<ExtOutcome>,
    path: String,
    name: String,
    limit: usize,
    cfg: Config,
) -> bool {
    r matches Some(ExtOutcome::Task(t)) && t.follow_up == TaskKind::Nothing && !t.is_refresh && (
    t.job matches Job::ExtListVersions { path: p, name: n, env, limit: l } && p == path && n
        == name && env_for(env, cfg) && l == limit)
}

/// The name an extension directory `raw` is listed under, and whether it
/// is disabled: a `.disabled` suffix marks a disabled extension and is
/// stripped; a name starting with `.` or `__` is not an extension.
pub open spec fn ext_dir_name(raw: Seq<char>) -> Option<(Seq<char>, bool)> {
    let disabled = ends(raw, ".disabled"@);
    let logical = if disabled {
        raw.take(raw.len() - 9)
    } else {
        raw
    };
    if starts(logical, "."@) || starts(logical, "__"@) {
        None
    } else {
        Some((logical, disabled))
    }
}

/// The listing of the extension directory named `raw` (see
/// [`ext_dir_name`]).
pub fn extension_dir_name(raw: &str) -> (r: Option<(String, bool)>)
    ensures
        match r {
            Some((n, d)) => ext_dir_name(raw@) == Some((n@, d)),
            None => ext_dir_name(raw@) is None,
        },
{
    let v = chars_of(raw);
    let suffix = chars_of(".disabled");
    proof {
        reveal_strlit(".disabled");
        reveal_strlit(".");
        reveal_strlit("__");
    }
    let disabled = ends_with_chars(&v, &suffix);
    let logical = if disabled {
        slice_chars(&v, 0, v.len() - 9)
    } else {
        copy_chars(&v)
    };
    assert(disabled ==> logical@ =~= raw@.take(raw@.len() - 9));
    if starts_with_chars(&logical, &chars_of(".")) || starts_with_chars(&logical, &chars_of("__")) {
        return None;
    }
    Some((string_of(&logical), disabled))
}

/// What a confirmation's tick reports: OK fired, Cancel fired, or neither.
pub open spec fn confirm_fires(c: Confirm) -> Option<bool> {
    if c.ok_state() == Some(true) {
        Some(true)
    } else if c.cancel_state() == Some(true) {
        Some(false)
    } else {
        None
    }
}

/// `c2` is the confirmation `c` one tick later.
pub open spec fn confirm_ticked(c: Confirm, c2: Confirm) -> bool {
    &&& c2.title == c.title && c2.body == c.body && c2.focus_ok == c.focus_ok
    &&& c2.ok_state() == poll_next(c.ok_state())
    &&& c2.cancel_state() == if c.ok_state() == Some(true) {
        c.cancel_state()
    } else {
        poll_next(c.cancel_state())
    }
}

/// What a notice's tick reports: OK fired (close), Copy fired (its text),
/// or neither.
pub open spec fn notice_fires(n: Notice) -> Option<Option<Seq<char>>> {
    if n.ok_state() == Some(true) {
        Some(None)
    } else if n.copy_state() == Some(true) {
        Some(
            Some(
                match n.copy {
                    Some(c) => c.payload@,
                    None => Seq::<char>::empty(),
                },
            ),
        )
    } else {
        None
    }
}

/// `n2` is the notice `n` one tick later.
pub open spec fn notice_ticked(n: Notice, n2: Notice) -> bool {
    &&& n2.title == n.title && n2.body == n.body && n2.copy == n.copy
    &&& n2.ok_state() == poll_next(n.ok_state())
    &&& n2.copy_state() == if n.ok_state() == Some(true) {
        n.copy_state()
    } else {
        poll_next(n.copy_state())
    }
}

/// One tick of the tab's deferred buttons. A confirmed uninstall of a
/// pending extension ends the tick with its deletion job. Otherwise the
/// confirmation closes when either button fired (a cancel forgets the
/// pending extension), the notice closes when either of its buttons fired,
/// and the first bulk button that fires starts its job; failing that, a
/// fired Copy asks to copy the notice's text.
pub open spec fn button_polled(a: ExtensionsTab, b: ExtensionsTab, cfg: Config, r: Option<ExtOutcome>) -> bool {
    let cf = match a.confirm {
        Some(c) => confirm_fires(c),
        None => None,
    };
    let nf = match a.notice {
        Some(n) => notice_fires(n),
        None => None,
    };
    if cf == Some(true) && a.pending_delete is Some {
        b == (ExtensionsTab { confirm: None, pending_delete: None, ..a }) && (r matches Some(
            ExtOutcome::Task(t),
        ) && uninstall_task(t, a.pending_delete.unwrap()))
    } else {
        let upd = a.btn_update_all.pending_state() == Some(true);
        let rei = a.btn_reinstall_all.pending_state() == Some(true);
        &&& b == (ExtensionsTab {
            confirm: b.confirm,
            pending_delete: b.pending_delete,
            notice: b.notice,
            btn_update_all: b.btn_update_all,
            btn_reinstall_all: b.btn_reinstall_all,
            ..a
        })
        &&& match a.confirm {
            None => b.confirm is None && b.pending_delete == a.pending_delete,
            Some(c) => if cf is Some {
                b.confirm is None && b.pending_delete is None
            } else {
                b.pending_delete == a.pending_delete && (b.confirm matches Some(c2) && confirm_ticked(
                    c,
                    c2,
                ))
            },
        }
        &&& match a.notice {
            None => b.notice is None,
            Some(n) => if nf is Some {
                b.notice is None
            } else {
                b.notice matches Some(n2) && notice_ticked(n, n2)
            },
        }
        &&& b.btn_update_all@ == (a.btn_update_all@.0, poll_next(a.btn_update_all.pending_state()))
        &&& if upd {
            b.btn_reinstall_all == a.btn_reinstall_all && (r matches Some(ExtOutcome::Task(t))
                && bulk_task(t, a.items@, cfg, false))
        } else {
            &&& b.btn_reinstall_all@ == (
                a.btn_reinstall_all@.0,
                poll_next(a.btn_reinstall_all.pending_state()),
            )
            &&& if rei {
                r matches Some(ExtOutcome::Task(t)) && bulk_task(t, a.items@, cfg, true)
            } else {
                match nf {
                    Some(Some(text)) => r matches Some(ExtOutcome::Copy(s)) && s@ == text,
                    _ => r is None,
                }
            }
        }
    }
}

/// The actions popup's box over `area`: 50 cells wide, its five rows and
/// border tall (at most the area's height).
pub open spec fn actions_box(area: Rect) -> Rect {
    centered(area, 50, if area.height < 7 {
        area.height
    } else {
        7
    })
}

/// A click while the actions menu is open over `area`: outside the popup
/// it closes; on a row other than the selected one it selects it; on the
/// selected row it runs the action when it is enabled.
pub open spec fn actions_click(
    a: ExtensionsTab,
    b: ExtensionsTab,
    col: int,
    row: int,
    area: Rect,
    cfg: Config,
    r: Option<ExtOutcome>,
) -> bool {
    a.actions_menu matches Some(am) && {
        let p = actions_box(area);
        let right = p.x + if p.width >= 1 {
            p.width - 1
        } else {
            0
        };
        let bottom = p.y + if p.height >= 1 {
            p.height - 1
        } else {
            0
        };
        if !p.holds(col, row) {
            r is None && b == (ExtensionsTab { actions_menu: None, ..a })
        } else if col > p.x && col < right && row > p.y && row < bottom && row - (p.y + 1) < 5 {
            let idx = row - (p.y + 1);
            if idx != am.selected {
                r is None && b == (ExtensionsTab {
                    actions_menu: Some(ActionsMenu { selected: idx as usize, ..am }),
                    ..a
                })
            } else {
                let (act, enabled) = action_items(am)[idx];
                if enabled {
                    action_done(a, b, am, act, cfg, r)
                } else {
                    r is None && b == a
                }
            }
        } else {
            r is None && b == a
        }
    }
}

/// The version picker's box over `area`: at most 100 x 24 cells, six
/// columns and four rows smaller than the area.
pub open spec fn picker_box(area: Rect) -> Rect {
    let w = if area.width >= 106 {
        100
    } else if area.width >= 6 {
        area.width - 6
    } else {
        0
    };
    let h = if area.height >= 28 {
        24
    } else if area.height >= 4 {
        area.height - 4
    } else {
        0
    };
    centered(area, w as u16, h as u16)
}

/// A click while the version picker is open over `area`: outside the popup
/// it closes; on a commit row of the table (below its border and header)
/// other than the selected one it selects it; on the selected one it
/// closes the picker and checks that commit out.
pub open spec fn picker_click(
    a: ExtensionsTab,
    b: ExtensionsTab,
    col: int,
    row: int,
    area: Rect,
    cfg: Config,
    r: Option<ExtOutcome>,
) -> bool {
    a.version_picker matches Some(vp) && {
        let p = picker_box(area);
        let ix = p.x + 1;
        let iy = p.y + 1;
        let iw = if p.width >= 2 {
            p.width - 2
        } else {
            0
        };
        let ih = if p.height >= 2 {
            p.height - 2
        } else {
            0
        };
        if !p.holds(col, row) {
            r is None && b == (ExtensionsTab { version_picker: None, ..a })
        } else if ix <= col < ix + iw && iy + 2 <= row < iy + ih && vp.scroll + (row - (iy + 2))
            < vp.commits@.len() {
            let idx = vp.scroll + (row - (iy + 2));
            if idx != vp.selected {
                r is None && b == (ExtensionsTab { version_picker: Some(picker_at(vp, idx)), ..a })
            } else {
                b == (ExtensionsTab { version_picker: None, ..a }) && (r matches Some(
                    ExtOutcome::Task(t),
                ) && t.follow_up == TaskKind::Nothing && !t.is_refresh && (
                t.job matches Job::ExtCheckout { path, name, rev, env, python } && path
                    == vp.ext_path && name == vp.ext_name && rev == vp.commits@[idx].short
                    && env_for(env, cfg) && python == cfg.general.python))
            }
        } else {
            r is None && b == a
        }
    }
}

/// Whether `rows` (the top row, then the table) and `top` (the search box
/// and the two bulk buttons, `upd_w` and `rei_w` cells wide) can be the
/// layout of the tab over `area`.
pub open spec fn ext_layout(area: Rect, upd_w: u16, rei_w: u16, rows: Seq<Rect>, top: Seq<Rect>) -> bool {
    laid_out(rows, area, true, seq![Constraint::Length(3), Constraint::Min(0)]) && laid_out(
        top,
        rows[0],
        false,
        seq![Constraint::Min(0), Constraint::Length(upd_w), Constraint::Length(rei_w)],
    )
}

/// `a` with the button `now` clicked (armed) and focused.
pub open spec fn armed(a: ExtensionsTab, b: ExtensionsTab, reinstall: bool) -> bool {
    if reinstall {
        b == (ExtensionsTab {
            focus: ExtFocus::ReinstallAll,
            last_row0_focus: ExtFocus::ReinstallAll,
            btn_reinstall_all: b.btn_reinstall_all,
            ..a
        }) && b.btn_reinstall_all@ == (a.btn_reinstall_all@.0, Some(false))
    } else {
        b == (ExtensionsTab {
            focus: ExtFocus::UpdateAll,
            last_row0_focus: ExtFocus::UpdateAll,
            btn_update_all: b.btn_update_all,
            ..a
        }) && b.btn_update_all@ == (a.btn_update_all@.0, Some(false))
    }
}

/// A click on the tab without a popup: a bulk button is armed (it fires on
/// a later tick, see `poll_button_action`), the search box takes focus, or
/// the table takes focus and a click on a row selects it, or opens its
/// actions menu when it was already selected.
pub open spec fn ext_body_click(
    a: ExtensionsTab,
    b: ExtensionsTab,
    col: int,
    row: int,
    area: Rect,
    upd_w: u16,
    rei_w: u16,
) -> bool {
    exists|rows: Seq<Rect>, top: Seq<Rect>|
        #[trigger] ext_layout(area, upd_w, rei_w, rows, top) && ext_body_click_in(
            a,
            b,
            col,
            row,
            rows[1],
            top,
        )
}

/// A click at (`col`, `row`) on the tab's body laid out as `table` and the
/// top row `top` (search box, Update all, Reinstall all).
pub open spec fn ext_body_click_in(
    a: ExtensionsTab,
    b: ExtensionsTab,
    col: int,
    row: int,
    table: Rect,
    top: Seq<Rect>,
) -> bool {
    if top[1].holds(col, row) {
        armed(a, b, false)
    } else if top[2].holds(col, row) {
        armed(a, b, true)
    } else if top[0].holds(col, row) {
        b == (ExtensionsTab { focus: ExtFocus::Search, last_row0_focus: ExtFocus::Search, ..a })
    } else {
        let a2 = ExtensionsTab { focus: ExtFocus::Table, ..a };
        let rows = ext_filter(a.items@, a.search.value@);
        let vi = a.scroll + (row - (table.y + 2));
        if row < table.y + 2 || vi >= rows.len() {
            b == a2
        } else if vi != a.selected {
            b == (ExtensionsTab { selected: vi as usize, ..a2 })
        } else {
            let e = a.items@[rows[vi] as int];
            b == (ExtensionsTab {
                actions_menu: Some(
                    ActionsMenu {
                        ext_path: e.path,
                        ext_name: e.name,
                        remote: e.remote,
                        disabled: e.disabled,
                        managed: e.managed,
                        selected: 0,
                    },
                ),
                ..a2
            })
        }
    }
}

/// A click on the Extensions tab drawn over `area`: the open popup takes
/// it (actions menu, version picker, notice, confirmation, in that order),
/// else the tab's body.
pub open spec fn ext_click(
    a: ExtensionsTab,
    b: ExtensionsTab,
    m: Mouse,
    area: Rect,
    cfg: Config,
    upd_w: u16,
    rei_w: u16,
    r: Option<ExtOutcome>,
) -> bool {
    let col = m.column as int;
    let row = m.row as int;
    if a.actions_menu is Some {
        actions_click(a, b, col, row, area, cfg, r)
    } else if a.version_picker is Some {
        picker_click(a, b, col, row, area, cfg, r)
    } else if a.notice is Some {
        a.notice matches Some(n) && r is None && b == (ExtensionsTab { notice: b.notice, ..a }) && (
        if m.kind == MouseKind::LeftDown && !centered(area, 60, 9).holds(col, row) {
            b.notice is None
        } else {
            b.notice matches Some(n2) && notice_clicked(n, n2, m, area, None)
        })
    } else if a.confirm is Some {
        a.confirm matches Some(c) && r is None && b == (ExtensionsTab {
            confirm: b.confirm,
            pending_delete: b.pending_delete,
            ..a
        }) && (if m.kind == MouseKind::LeftDown && !centered(area, 60, 9).holds(col, row) {
            b.confirm is None && b.pending_delete is None
        } else {
            b.pending_delete == a.pending_delete && (b.confirm matches Some(c2) && confirm_clicked(
                c,
                c2,
                m,
                area,
                None,
            ))
        })
    } else {
        r is None && ext_body_click(a, b, col, row, area, upd_w, rei_w)
    }
}

/// Cells taken by a bulk button labelled `label`: the label and four cells
/// of border and padding (saturating).
pub open spec fn button_cells(label: Seq<char>) -> u16 {
    if str_width_of(label) + 4 <= u16::MAX {
        (str_width_of(label) + 4) as u16
    } else {
        u16::MAX
    }
}

/// Cells taken by a bulk button labelled `label`.
pub fn button_width(label: &str) -> (w: u16)
    ensures
        w == button_cells(label@),
{
    let n = width(label);
    if n > 65531 {
        u16::MAX
    } else {
        (n + 4) as u16
    }
}

/// Where the last path component of `p` starts: just after its last `/`
/// (0 when there is none).
pub open spec fn name_start(p: Seq<char>) -> int
    decreases p.len(),
{
    if p.len() == 0 {
        0
    } else if p.last() == '/' {
        p.len() as int
    } else {
        name_start(p.drop_last())
    }
}

/// The path an extension directory at `p` moves to when it is enabled
/// (its name loses a trailing `.disabled`) or disabled (its name gains
/// one); the directory it sits in is kept.
pub open spec fn toggled(p: Seq<char>, currently_disabled: bool) -> Seq<char> {
    let cut = name_start(p);
    let name = p.skip(cut);
    p.take(cut) + if currently_disabled {
        if ends(name, ".disabled"@) {
            name.take(name.len() - 9)
        } else {
            name
        }
    } else {
        name + ".disabled"@
    }
}

/// The path the extension at `path` is renamed to when toggled (see
/// [`toggled`]).
pub fn toggled_path(path: &str, currently_disabled: bool) -> (r: String)
    ensures
        r@ == toggled(path@, currently_disabled),
{
    let v = chars_of(path);
    let mut i: usize = v.len();
    assert(v@.take(v@.len() as int) =~= v@);
    while i > 0 && v[i - 1] != '/'
        invariant
            i <= v@.len(),
            name_start(v@) == name_start(v@.take(i as int)),
        decreases i,
    {
        assert(v@.take(i as int).drop_last() =~= v@.take(i - 1));
        i = i - 1;
    }
    proof {
        if i > 0 {
            assert(v@.take(i as int).last() == '/');
        }
    }
    let dir = slice_chars(&v, 0, i);
    let name = slice_chars(&v, i, v.len());
    assert(dir@ =~= v@.take(i as int));
    assert(name@ =~= v@.skip(i as int));
    let suffix = chars_of(".disabled");
    proof {
        reveal_strlit(".disabled");
    }
    let mut out = dir;
    if currently_disabled {
        match strip_suffix_chars(&name, &suffix) {
            Some(n) => append_chars(&mut out, &n),
            None => append_chars(&mut out, &name),
        }
    } else {
        append_chars(&mut out, &name);
        append_chars(&mut out, &suffix);
    }
    proof {
        if !currently_disabled {
            assert(out@ =~= v@.take(i as int) + (v@.skip(i as int) + ".disabled"@));
        }
    }
    string_of(&out)
}

/// Whether a checkout asked for `rev` reached `head`: one is a prefix of
/// the other (short and full hashes compare equal).
pub fn checkout_reached(head: &str, rev: &str) -> (r: bool)
    ensures
        r == (starts(head@, rev@) || starts(rev@, head@)),
{
    let h = chars_of(head);
    let v = chars_of(rev);
    starts_with_chars(&h, &v) || starts_with_chars(&v, &h)
}

/// The job deleting the extension at `path` (named by its last path
/// component, `?` when it has none).
pub open spec fn uninstall_task(t: TaskRequest, path: String) -> bool {
    t.follow_up == TaskKind::Nothing && !t.is_refresh && (t.job matches Job::ExtUninstall {
        path: p,
        name,
    } && p == path && name@ == match file_name_of(path@) {
        Some(n) => n,
        None => seq!['?'],
    })
}

fn uninstall_request(path: String) -> (t: TaskRequest)
    ensures
        uninstall_task(t, path),
{
    let name = match file_name(path.as_str()) {
        Some(n) => n,
        None => {
            let mut q = String::new();
            push_char(&mut q, '?');
            q
        },
    };
    assert(name@ == match file_name_of(path@) {
        Some(n) => n,
        None => seq!['?'],
    });
    TaskRequest { job: Job::ExtUninstall { path, name }, follow_up: TaskKind::Nothing, is_refresh: false }
}

/// `vp` with row `s` selected and scrolled into view.
pub open spec fn picker_at(vp: VersionPicker, s: int) -> VersionPicker {
    VersionPicker {
        selected: s as usize,
        scroll: visible_scroll(s, vp.scroll as int, vp.visible_rows as int) as usize,
        ..vp
    }
}

/// `a` with row `s` selected and scrolled into view.
pub open spec fn table_at(a: ExtensionsTab, s: int) -> ExtensionsTab {
    ExtensionsTab {
        selected: s as usize,
        scroll: visible_scroll(s, a.scroll as int, a.visible_rows as int) as usize,
        ..a
    }
}

/// A key while the notice popup is open: it goes to the notice; Esc
/// closes it.
pub open spec fn notice_key(a: ExtensionsTab, b: ExtensionsTab, k: Key, r: Option<ExtOutcome>) -> bool {
    a.notice matches Some(n) && r is None && b == (ExtensionsTab { notice: b.notice, ..a }) && if k
        == Key::Esc {
        b.notice is None
    } else {
        b.notice matches Some(n2) && notice_keyed(n, n2, k)
    }
}

/// Enter on an enabled action of `am`: the menu closes and the action
/// runs.
pub open spec fn action_done(
    a: ExtensionsTab,
    b: ExtensionsTab,
    am: ActionsMenu,
    act: ExtAction,
    cfg: Config,
    r: Option<ExtOutcome>,
) -> bool {
    let a2 = ExtensionsTab { actions_menu: None, ..a };
    match act {
        ExtAction::UpdateToLatest => b == a2 && if am.managed {
            update_task(r, am.ext_path, am.ext_name, cfg)
        } else {
            r is None
        },
        ExtAction::ChangeVersion => {
            &&& b == (ExtensionsTab { version_picker: b.version_picker, ..a2 })
            &&& b.version_picker matches Some(vp) && vp.ext_path == am.ext_path && vp.ext_name
                == am.ext_name && vp.commits@.len() == 0 && vp.current is None && vp.selected == 0
                && vp.scroll == 0 && vp.limit == LIST_MAX_NUM && !vp.end_reached && vp.visible_rows
                == 0
            &&& versions_task(r, am.ext_path, am.ext_name, LIST_MAX_NUM, cfg)
        },
        ExtAction::OpenUrl => b == a2 && r == Some(ExtOutcome::OpenUrl { url: am.remote }),
        ExtAction::Enable | ExtAction::Disable => b == a2 && (r matches Some(ExtOutcome::Task(t))
            && mutation(
            t,
            Job::ExtToggle {
                path: am.ext_path,
                name: am.ext_name,
                currently_disabled: am.disabled,
            },
        )),
        ExtAction::Uninstall => b == a2 && r == Some(
            ExtOutcome::AskUninstall { path: am.ext_path, name: am.ext_name },
        ),
    }
}

/// A key while the actions menu is open: Up and Down move with wrapping,
/// PageUp and PageDown jump to the ends, Esc closes the menu, Enter runs
/// the selected action when it is enabled.
pub open spec fn actions_key(
    a: ExtensionsTab,
    b: ExtensionsTab,
    k: Key,
    cfg: Config,
    r: Option<ExtOutcome>,
) -> bool {
    a.actions_menu matches Some(am) && {
        let sel = am.selected as int;
        let moved = |s: int| r is None && b == (ExtensionsTab {
            actions_menu: Some(ActionsMenu { selected: s as usize, ..am }),
            ..a
        });
        match k {
            Key::Esc => r is None && b == (ExtensionsTab { actions_menu: None, ..a }),
            Key::Up => moved(if sel == 0 {
                4
            } else {
                sel - 1
            }),
            Key::Down => moved((sel + 1) % 5),
            Key::PageUp => moved(0),
            Key::PageDown => moved(4),
            Key::Enter => {
                let (act, enabled) = action_items(am)[sel];
                if !enabled {
                    r is None && b == a
                } else {
                    action_done(a, b, am, act, cfg, r)
                }
            },
            _ => r is None && b == a,
        }
    }
}

/// A key while the version picker is open. Up and Down move the cursor;
/// past the top, or past the bottom while more commits may exist, they ask
/// for a (larger) reload instead; past the bottom of a complete list Down
/// wraps to the top. Enter checks the selected commit out; Esc closes.
pub open spec fn picker_key(
    a: ExtensionsTab,
    b: ExtensionsTab,
    k: Key,
    cfg: Config,
    r: Option<ExtOutcome>,
) -> bool {
    a.version_picker matches Some(vp) && {
        let n = vp.commits@.len() as int;
        let sel = vp.selected as int;
        let at = |s: int| r is None && b == (ExtensionsTab {
            version_picker: Some(picker_at(vp, s)),
            ..a
        });
        match k {
            Key::Esc => r is None && b == (ExtensionsTab { version_picker: None, ..a }),
            Key::Up => if n == 0 {
                r is None && b == a
            } else if sel == 0 {
                b == a && versions_task(r, vp.ext_path, vp.ext_name, vp.limit, cfg)
            } else {
                at(sel - 1)
            },
            Key::Down => if n == 0 {
                r is None && b == a
            } else if sel + 1 >= n {
                if !vp.end_reached {
                    b == a && versions_task(
                        r,
                        vp.ext_path,
                        vp.ext_name,
                        (if vp.limit + LIST_MAX_NUM > usize::MAX {
                            usize::MAX as int
                        } else {
                            vp.limit + LIST_MAX_NUM
                        }) as usize,
                        cfg,
                    )
                } else {
                    at(0)
                }
            } else {
                at(sel + 1)
            },
            Key::PageUp => at(0),
            Key::PageDown => at(if n > 0 {
                n - 1
            } else {
                sel
            }),
            Key::Enter => if sel < n {
                b == (ExtensionsTab { version_picker: None, ..a }) && (r matches Some(
                    ExtOutcome::Task(t),
                ) && t.follow_up == TaskKind::Nothing && !t.is_refresh && (
                t.job matches Job::ExtCheckout { path: p, name: nm, rev, env, python } && p
                    == vp.ext_path && nm == vp.ext_name && rev == vp.commits@[sel].short
                    && env_for(env, cfg) && python == cfg.general.python))
            } else {
                r is None && b == a
            },
            _ => r is None && b == a,
        }
    }
}

/// A key while the uninstall confirmation is open: it goes to the popup;
/// Esc cancels and forgets the pending delete.
pub open spec fn confirm_key(a: ExtensionsTab, b: ExtensionsTab, k: Key, r: Option<ExtOutcome>) -> bool {
    a.confirm matches Some(c) && r is None && if k == Key::Esc {
        b == (ExtensionsTab { confirm: None, pending_delete: None, ..a })
    } else {
        b == (ExtensionsTab { confirm: b.confirm, ..a }) && (b.confirm matches Some(c2)
            && confirm_keyed(c, c2, k))
    }
}

/// Up from the top row: to the last table row, remembering where it came
/// from (nothing happens over an empty table).
pub open spec fn up_into_table(a: ExtensionsTab, b: ExtensionsTab, from: ExtFocus) -> bool {
    let n = ext_filter(a.items@, a.search.value@).len() as int;
    if n > 0 {
        b == table_at(
            ExtensionsTab { last_row0_focus: from, focus: ExtFocus::Table, ..a },
            n - 1,
        )
    } else {
        b == a
    }
}

/// A key while the search box has focus: Tab moves to Update All, Enter
/// and Down enter the table at its top, Up enters it at its bottom, Esc and
/// BackTab go to the table, Left and Right are left to the caller, and any
/// other key edits the search text and resets the table to its top.
pub open spec fn search_key(a: ExtensionsTab, b: ExtensionsTab, k: Key, r: Option<ExtOutcome>) -> bool {
    r is None && match k {
        Key::Tab => b == (ExtensionsTab {
            focus: ExtFocus::UpdateAll,
            last_row0_focus: ExtFocus::UpdateAll,
            ..a
        }),
        Key::BackTab | Key::Esc => b == (ExtensionsTab { focus: ExtFocus::Table, ..a }),
        Key::Enter | Key::Down => b == (ExtensionsTab {
            last_row0_focus: ExtFocus::Search,
            focus: ExtFocus::Table,
            selected: 0,
            scroll: 0,
            ..a
        }),
        Key::Up => up_into_table(a, b, ExtFocus::Search),
        Key::Left | Key::Right => b == a,
        _ => b == (ExtensionsTab { search: b.search, selected: 0, scroll: 0, ..a })
            && b.search.placeholder_key == a.search.placeholder_key && (
        b.search.value@, b.search.cursor as int) == input_step(
            a.search.value@,
            a.search.cursor as int,
            k,
        ),
    }
}

/// A key while Update All (`reinstall` false) or Reinstall All
/// (`reinstall` true) has focus: Tab and BackTab move along the top row
/// (Tab from Reinstall All goes to the table), Esc goes to the table, Down
/// and Up enter the table at its top or bottom, Enter starts the bulk task.
pub open spec fn button_key(
    a: ExtensionsTab,
    b: ExtensionsTab,
    k: Key,
    cfg: Config,
    r: Option<ExtOutcome>,
    reinstall: bool,
) -> bool {
    let me = if reinstall {
        ExtFocus::ReinstallAll
    } else {
        ExtFocus::UpdateAll
    };
    match k {
        Key::Tab => r is None && if reinstall {
            b == (ExtensionsTab { focus: ExtFocus::Table, ..a })
        } else {
            b == (ExtensionsTab {
                focus: ExtFocus::ReinstallAll,
                last_row0_focus: ExtFocus::ReinstallAll,
                ..a
            })
        },
        Key::BackTab => r is None && {
            let to = if reinstall {
                ExtFocus::UpdateAll
            } else {
                ExtFocus::Search
            };
            b == (ExtensionsTab { focus: to, last_row0_focus: to, ..a })
        },
        Key::Esc => r is None && b == (ExtensionsTab { focus: ExtFocus::Table, ..a }),
        Key::Down => r is None && b == (ExtensionsTab {
            last_row0_focus: me,
            focus: ExtFocus::Table,
            selected: 0,
            scroll: 0,
            ..a
        }),
        Key::Up => r is None && up_into_table(a, b, me),
        Key::Enter => b == a && (r matches Some(ExtOutcome::Task(t)) && bulk_task(
            t,
            a.items@,
            cfg,
            reinstall,
        )),
        _ => r is None && b == a,
    }
}

/// Whether `k` is the character `c` in either case.
pub open spec fn is_letter(k: Key, lower: char, upper: char) -> bool {
    k == Key::Char(lower) || k == Key::Char(upper)
}

/// A key while the table has focus. Tab returns to the last top-row
/// control, BackTab goes to Reinstall All, PageUp returns to the top row,
/// PageDown jumps to the last row. Up and Down move the cursor; past the
/// top Up returns to the top row, past the bottom Down asks for a larger
/// listing when more may exist and no search is active, otherwise returns
/// to the top row. `r` rescans, `d` asks to uninstall the selected row,
/// Enter opens its actions, `u` updates it when git manages it.
pub open spec fn table_key(
    a: ExtensionsTab,
    b: ExtensionsTab,
    k: Key,
    cfg: Config,
    r: Option<ExtOutcome>,
) -> bool {
    let rows = ext_filter(a.items@, a.search.value@);
    let n = rows.len() as int;
    let sel = a.selected as int;
    let at_row: Option<usize> = if sel < n {
        Some(rows[sel])
    } else {
        None
    };
    if k == Key::Tab {
        r is None && b == (ExtensionsTab { focus: a.last_row0_focus, ..a })
    } else if k == Key::BackTab {
        r is None && b == (ExtensionsTab { focus: ExtFocus::ReinstallAll, ..a })
    } else if is_letter(k, 'r', 'R') {
        b == a && r == Some(ExtOutcome::Rescan)
    } else if is_letter(k, 'd', 'D') {
        b == a && r == match at_row {
            Some(i) => Some(
                ExtOutcome::AskUninstall { path: a.items@[i as int].path, name: a.items@[i as int].name },
            ),
            None => None,
        }
    } else if is_letter(k, 'u', 'U') {
        b == a && match at_row {
            Some(i) => if a.items@[i as int].managed {
                update_task(r, a.items@[i as int].path, a.items@[i as int].name, cfg)
            } else {
                r is None
            },
            None => r is None,
        }
    } else {
        match k {
            Key::Up => r is None && if n == 0 {
                b == a
            } else if sel == 0 {
                b == table_at(ExtensionsTab { focus: a.last_row0_focus, ..a }, sel)
            } else {
                b == table_at(a, sel - 1)
            },
            Key::Down => if n == 0 {
                r is None && b == a
            } else if sel + 1 >= n {
                if !a.end_reached && a.search.value@.len() == 0 {
                    b == a && (r matches Some(ExtOutcome::Task(t)) && t.follow_up
                        == TaskKind::Nothing && t.is_refresh && (t.job matches Job::ExtLoad {
                        root,
                        limit,
                        env,
                    } && root == cfg.general.comfyui_dir && limit == (if a.limit + LIST_MAX_NUM
                        > usize::MAX {
                        usize::MAX as int
                    } else {
                        a.limit + LIST_MAX_NUM
                    }) as usize && env_for(env, cfg)))
                } else {
                    r is None && b == table_at(ExtensionsTab { focus: a.last_row0_focus, ..a }, sel)
                }
            } else {
                r is None && b == table_at(a, sel + 1)
            },
            Key::PageUp => r is None && b == (ExtensionsTab { focus: a.last_row0_focus, ..a }),
            Key::PageDown => r is None && b == table_at(a, if n > 0 {
                n - 1
            } else {
                sel
            }),
            Key::Enter => r is None && b == match at_row {
                Some(i) => ExtensionsTab {
                    actions_menu: Some(
                        ActionsMenu {
                            ext_path: a.items@[i as int].path,
                            ext_name: a.items@[i as int].name,
                            remote: a.items@[i as int].remote,
                            disabled: a.items@[i as int].disabled,
                            managed: a.items@[i as int].managed,
                            selected: 0,
                        },
                    ),
                    ..a
                },
                None => a,
            },
            _ => r is None && b == a,
        }
    }
}

/// The effect of a key on the tab: the topmost open popup takes it
/// (notice, then actions menu, then version picker, then confirmation);
/// otherwise the focused control does.
pub open spec fn ext_key(a: ExtensionsTab, b: ExtensionsTab, k: Key, cfg: Config, r: Option<ExtOutcome>) -> bool {
    if a.notice is Some {
        notice_key(a, b, k, r)
    } else if a.actions_menu is Some {
        actions_key(a, b, k, cfg, r)
    } else if a.version_picker is Some {
        picker_key(a, b, k, cfg, r)
    } else if a.confirm is Some {
        confirm_key(a, b, k, r)
    } else {
        match a.focus {
            ExtFocus::Search => search_key(a, b, k, r),
            ExtFocus::UpdateAll => button_key(a, b, k, cfg, r, false),
            ExtFocus::ReinstallAll => button_key(a, b, k, cfg, r, true),
            ExtFocus::Table => table_key(a, b, k, cfg, r),
        }
    }
}

/// The tab after one wheel step (see [`ExtensionsTab::scroll`]).
pub open spec fn ext_scrolled(a: ExtensionsTab, delta: i32) -> ExtensionsTab {
    let n = ext_filter(a.items@, a.search.value@).len();
    let (f, s, sc) = ext_wheel(a, n as int, delta);
    if n == 0 {
        a
    } else {
        (ExtensionsTab {
            focus: f,
            selected: s as usize,
            scroll: visible_scroll(s, sc, a.visible_rows as int) as usize,
            ..a
        })
    }
}

impl ExtensionsTab {
    /// Constructs a fresh Extensions tab: empty, table focused, the search
    /// box showing its placeholder.
    pub fn new() -> (t: Self)
        ensures
            t.items@.len() == 0,
            t.selected == 0,
            t.scroll == 0,
            t.confirm is None,
            t.notice is None,
            t.pending_delete is None,
            t.loaded_for is None,
            t.version_picker is None,
            t.actions_menu is None,
            t.limit == LIST_MAX_NUM,
            !t.end_reached,
            t.visible_rows == 0,
            t.search.value@.len() == 0,
            t.search.cursor == 0,
            t.search.placeholder_key == Some("placeholder_search"),
            t.focus == ExtFocus::Table,
            t.last_row0_focus == ExtFocus::Search,
            t.pending_flash is None,
            t.btn_update_all.pending_state() is None,
            t.btn_reinstall_all.pending_state() is None,
    {
        ExtensionsTab {
            items: Vec::new(),
            selected: 0,
            scroll: 0,
            confirm: None,
            notice: None,
            pending_delete: None,
            loaded_for: None,
            version_picker: None,
            actions_menu: None,
            limit: LIST_MAX_NUM,
            end_reached: false,
            visible_rows: 0,
            search: Input::default().placeholder("placeholder_search"),
            focus: ExtFocus::Table,
            last_row0_focus: ExtFocus::Search,
            pending_flash: None,
            btn_update_all: Button::new(ButtonKind::Primary),
            btn_reinstall_all: Button::new(ButtonKind::Primary),
        }
    }

    /// Drains and returns the pending flash message, if any.
    pub fn take_flash(&mut self) -> (r: Option<(FlashKind, String)>)
        ensures
            r == old(self).pending_flash,
            *final(self) == (ExtensionsTab { pending_flash: None, ..*old(self) }),
    {
        self.pending_flash.take()
    }

    /// Whether any text input widget currently has keyboard focus.
    pub fn text_input_focused(&self) -> (b: bool)
        ensures
            b == (self.focus == ExtFocus::Search),
    {
        self.focus == ExtFocus::Search
    }

    /// Returns the indices of `items` shown by the table (see
    /// [`ext_filter`]).
    pub fn filtered_indices(&self) -> (r: Vec<usize>)
        ensures
            r@ == ext_filter(self.items@, self.search.value@),
            self.search.value@.len() == 0 ==> r@ == all_idx(self.items@.len()),
    {
        let needle = lower_chars(&chars_of(self.search.value.as_str()));
        let mut rows: Vec<(Vec<char>, Vec<char>)> = Vec::new();
        let mut i: usize = 0;
        let n = self.items.len();
        while i < n
            invariant
                i <= n == self.items@.len(),
                pairs_view(rows@) == ext_texts(self.items@.take(i as int)),
            decreases n - i,
        {
            let e = &self.items[i];
            let pair = (lower_chars(&chars_of(e.name.as_str())), lower_chars(&chars_of(e.remote.as_str())));
            let ghost before = pairs_view(rows@);
            rows.push(pair);
            assert(pairs_view(rows@) =~= before.push((pair.0@, pair.1@)));
            i = i + 1;
            assert(ext_texts(self.items@.take(i as int)) =~= ext_texts(self.items@.take(i - 1)).push(
                (lowercase_of(self.items@[i - 1].name@), lowercase_of(self.items@[i - 1].remote@)),
            ));
        }
        assert(self.items@.take(n as int) =~= self.items@);
        proof {
            lemma_ext_texts_hits(self.items@, self.search.value@);
        }
        matching_rows(&rows, &needle)
    }

    /// Returns the `items` index of the selected row, if it exists.
    pub fn current_real_idx(&self) -> (r: Option<usize>)
        ensures
            r == (if self.selected < ext_filter(self.items@, self.search.value@).len() {
                Some(ext_filter(self.items@, self.search.value@)[self.selected as int])
            } else {
                None
            }),
            r matches Some(i) ==> i < self.items@.len(),
    {
        let f = self.filtered_indices();
        assert(self.items@.len() == self.items.len());
        proof {
            lemma_filter_in_range(self.items@, self.search.value@);
        }
        if self.selected < f.len() {
            Some(f[self.selected])
        } else {
            None
        }
    }

    /// Clamps the scroll offset so the selected row is on-screen.
    pub fn ensure_visible(&mut self)
        ensures
            *final(self) == (ExtensionsTab {
                scroll: visible_scroll(
                    old(self).selected as int,
                    old(self).scroll as int,
                    old(self).visible_rows as int,
                ) as usize,
                ..*old(self)
            }),
    {
        self.scroll = keep_visible(self.selected, self.scroll, self.visible_rows);
    }

    /// Handles one wheel step (`delta < 0` is up); nothing happens while
    /// the table shows no rows.
    pub fn scroll(&mut self, delta: i32)
        ensures
            *final(self) == ext_scrolled(*old(self), delta),
    {
        let n = self.filtered_indices().len();
        if n == 0 {
            return;
        }
        let top = self.focus == ExtFocus::Search || self.focus == ExtFocus::UpdateAll
            || self.focus == ExtFocus::ReinstallAll;
        if delta < 0 {
            if top {
                self.focus = ExtFocus::Table;
                self.selected = n - 1;
            } else if self.selected == 0 {
                self.focus = self.last_row0_focus;
            } else {
                self.selected = self.selected - 1;
            }
        } else {
            if top {
                self.focus = ExtFocus::Table;
                self.selected = 0;
                self.scroll = 0;
            } else if self.selected >= n - 1 {
                self.focus = self.last_row0_focus;
            } else {
                self.selected = self.selected + 1;
            }
        }
        self.ensure_visible();
    }

    /// Handles Left within the tab; returns whether it was consumed. In the
    /// search box it moves the cursor (unless already at the start); on a
    /// button it moves to the control on its left; otherwise it is left to
    /// the tab strip.
    pub fn on_left(&mut self) -> (used: bool)
        ensures
            match old(self).focus {
                ExtFocus::Search => if old(self).search.cursor != 0 {
                    used && (final(self).search.value@, final(self).search.cursor as int)
                        == input_step(old(self).search.value@, old(self).search.cursor as int, Key::Left)
                        && *final(self) == (ExtensionsTab { search: final(self).search, ..*old(self) })
                        && final(self).search.placeholder_key == old(self).search.placeholder_key
                } else {
                    !used && *final(self) == *old(self)
                },
                ExtFocus::UpdateAll => used && *final(self) == (ExtensionsTab {
                    focus: ExtFocus::Search,
                    last_row0_focus: ExtFocus::Search,
                    ..*old(self)
                }),
                ExtFocus::ReinstallAll => used && *final(self) == (ExtensionsTab {
                    focus: ExtFocus::UpdateAll,
                    last_row0_focus: ExtFocus::UpdateAll,
                    ..*old(self)
                }),
                ExtFocus::Table => !used && *final(self) == *old(self),
            },
    {
        match self.focus {
            ExtFocus::Search => {
                if !self.search.at_start() {
                    self.search.on_key(Key::Left);
                    return true;
                }
                false
            },
            ExtFocus::UpdateAll => {
                self.focus = ExtFocus::Search;
                self.last_row0_focus = self.focus;
                true
            },
            ExtFocus::ReinstallAll => {
                self.focus = ExtFocus::UpdateAll;
                self.last_row0_focus = self.focus;
                true
            },
            ExtFocus::Table => false,
        }
    }

    /// Handles Right within the tab; returns whether it was consumed. In the
    /// search box it moves the cursor, or past the end of the text moves to
    /// Update All; Update All moves to Reinstall All; Reinstall All and the
    /// table leave it to the tab strip.
    pub fn on_right(&mut self) -> (used: bool)
        ensures
            match old(self).focus {
                ExtFocus::Search => if old(self).search.cursor < old(self).search.value@.len() {
                    used && (final(self).search.value@, final(self).search.cursor as int)
                        == input_step(old(self).search.value@, old(self).search.cursor as int, Key::Right)
                        && *final(self) == (ExtensionsTab { search: final(self).search, ..*old(self) })
                        && final(self).search.placeholder_key == old(self).search.placeholder_key
                } else {
                    used && *final(self) == (ExtensionsTab {
                        focus: ExtFocus::UpdateAll,
                        last_row0_focus: ExtFocus::UpdateAll,
                        ..*old(self)
                    })
                },
                ExtFocus::UpdateAll => used && *final(self) == (ExtensionsTab {
                    focus: ExtFocus::ReinstallAll,
                    last_row0_focus: ExtFocus::ReinstallAll,
                    ..*old(self)
                }),
                _ => !used && *final(self) == *old(self),
            },
    {
        match self.focus {
            ExtFocus::Search => {
                if !self.search.at_end() {
                    self.search.on_key(Key::Right);
                    return true;
                }
                self.focus = ExtFocus::UpdateAll;
                self.last_row0_focus = self.focus;
                true
            },
            ExtFocus::UpdateAll => {
                self.focus = ExtFocus::ReinstallAll;
                self.last_row0_focus = self.focus;
                true
            },
            _ => false,
        }
    }

    fn key_notice(&mut self, k: Key) -> (r: Option<ExtOutcome>)
        requires
            old(self).notice is Some,
        ensures
            notice_key(*old(self), *final(self), k, r),
    {
        let close = match &mut self.notice {
            Some(n) => {
                let o = n.on_key(k);
                match o {
                    Some(NoticeOutcome::Close) => true,
                    _ => false,
                }
            },
            None => false,
        };
        if close {
            self.notice = None;
        }
        None
    }

    fn set_action_sel(&mut self, s: usize)
        requires
            old(self).actions_menu is Some,
        ensures
            *final(self) == (ExtensionsTab {
                actions_menu: Some(ActionsMenu { selected: s, ..old(self).actions_menu.unwrap() }),
                ..*old(self)
            }),
    {
        match &mut self.actions_menu {
            Some(am) => {
                am.selected = s;
            },
            None => {},
        }
    }

    fn dispatch_action(&mut self, act: ExtAction, cfg: &Config) -> (r: Option<ExtOutcome>)
        requires
            old(self).actions_menu is Some,
        ensures
            action_done(*old(self), *final(self), old(self).actions_menu.unwrap(), act, *cfg, r),
    {
        let am = self.actions_menu.take().unwrap();
        match act {
            ExtAction::UpdateToLatest => {
                if !am.managed {
                    return None;
                }
                Some(ExtOutcome::Task(update_one_request(am.ext_path, am.ext_name, cfg)))
            },
            ExtAction::ChangeVersion => {
                self.version_picker = Some(
                    VersionPicker {
                        ext_path: am.ext_path.clone(),
                        ext_name: am.ext_name.clone(),
                        commits: Vec::new(),
                        current: None,
                        selected: 0,
                        scroll: 0,
                        limit: LIST_MAX_NUM,
                        end_reached: false,
                        visible_rows: 0,
                    },
                );
                Some(
                    ExtOutcome::Task(
                        list_versions_request(am.ext_path, am.ext_name, LIST_MAX_NUM, cfg),
                    ),
                )
            },
            ExtAction::OpenUrl => Some(ExtOutcome::OpenUrl { url: am.remote }),
            ExtAction::Enable | ExtAction::Disable => Some(
                ExtOutcome::Task(
                    TaskRequest {
                        job: Job::ExtToggle {
                            path: am.ext_path,
                            name: am.ext_name,
                            currently_disabled: am.disabled,
                        },
                        follow_up: TaskKind::Nothing,
                        is_refresh: false,
                    },
                ),
            ),
            ExtAction::Uninstall => Some(
                ExtOutcome::AskUninstall { path: am.ext_path, name: am.ext_name },
            ),
        }
    }

    fn key_actions(&mut self, k: Key, cfg: &Config) -> (r: Option<ExtOutcome>)
        requires
            old(self).actions_menu matches Some(am) && am.selected < 5,
        ensures
            actions_key(*old(self), *final(self), k, *cfg, r),
    {
        let sel = match &self.actions_menu {
            Some(am) => am.selected,
            None => 0,
        };
        match k {
            Key::Esc => {
                self.actions_menu = None;
                None
            },
            Key::Up => {
                self.set_action_sel(
                    if sel == 0 {
                        4
                    } else {
                        sel - 1
                    },
                );
                None
            },
            Key::Down => {
                self.set_action_sel((sel + 1) % 5);
                None
            },
            Key::PageUp => {
                self.set_action_sel(0);
                None
            },
            Key::PageDown => {
                self.set_action_sel(4);
                None
            },
            Key::Enter => {
                let items = match &self.actions_menu {
                    Some(am) => am.items(),
                    None => Vec::new(),
                };
                let (act, enabled) = items[sel];
                if !enabled {
                    return None;
                }
                self.dispatch_action(act, cfg)
            },
            _ => None,
        }
    }

    fn picker_to(&mut self, s: usize)
        requires
            old(self).version_picker is Some,
        ensures
            *final(self) == (ExtensionsTab {
                version_picker: Some(picker_at(old(self).version_picker.unwrap(), s as int)),
                ..*old(self)
            }),
    {
        match &mut self.version_picker {
            Some(vp) => {
                vp.selected = s;
                vp.ensure_visible();
            },
            None => {},
        }
    }

    fn key_picker(&mut self, k: Key, cfg: &Config) -> (r: Option<ExtOutcome>)
        requires
            old(self).version_picker is Some,
        ensures
            picker_key(*old(self), *final(self), k, *cfg, r),
    {
        let (n, sel, limit, end_reached) = match &self.version_picker {
            Some(vp) => (vp.commits.len(), vp.selected, vp.limit, vp.end_reached),
            None => (0, 0, 0, false),
        };
        match k {
            Key::Esc => {
                self.version_picker = None;
                None
            },
            Key::Up => {
                if n == 0 {
                    return None;
                }
                if sel == 0 {
                    let (path, name) = match &self.version_picker {
                        Some(vp) => (vp.ext_path.clone(), vp.ext_name.clone()),
                        None => (String::new(), String::new()),
                    };
                    return Some(ExtOutcome::Task(list_versions_request(path, name, limit, cfg)));
                }
                self.picker_to(sel - 1);
                None
            },
            Key::Down => {
                if n == 0 {
                    return None;
                }
                if sel >= n - 1 {
                    if !end_reached {
                        let (path, name) = match &self.version_picker {
                            Some(vp) => (vp.ext_path.clone(), vp.ext_name.clone()),
                            None => (String::new(), String::new()),
                        };
                        let more = limit.saturating_add(LIST_MAX_NUM);
                        return Some(ExtOutcome::Task(list_versions_request(path, name, more, cfg)));
                    }
                    self.picker_to(0);
                    return None;
                }
                self.picker_to(sel + 1);
                None
            },
            Key::PageUp => {
                self.picker_to(0);
                None
            },
            Key::PageDown => {
                self.picker_to(
                    if n > 0 {
                        n - 1
                    } else {
                        sel
                    },
                );
                None
            },
            Key::Enter => {
                if sel < n {
                    let vp = self.version_picker.take().unwrap();
                    let rev = vp.commits[sel].short.clone();
                    return Some(
                        ExtOutcome::Task(checkout_request(vp.ext_path, vp.ext_name, rev, cfg)),
                    );
                }
                None
            },
            _ => None,
        }
    }

    fn key_confirm(&mut self, k: Key) -> (r: Option<ExtOutcome>)
        requires
            old(self).confirm is Some,
        ensures
            confirm_key(*old(self), *final(self), k, r),
    {
        let cancel = match &mut self.confirm {
            Some(c) => {
                let o = c.on_key(k);
                match o {
                    Some(false) => true,
                    _ => false,
                }
            },
            None => false,
        };
        if cancel {
            self.confirm = None;
            self.pending_delete = None;
        }
        None
    }

    fn up_from_top(&mut self, from: ExtFocus)
        ensures
            up_into_table(*old(self), *final(self), from),
    {
        let n = self.filtered_indices().len();
        if n > 0 {
            self.last_row0_focus = from;
            self.focus = ExtFocus::Table;
            self.selected = n - 1;
            self.ensure_visible();
        }
    }

    fn key_search(&mut self, k: Key) -> (r: Option<ExtOutcome>)
        requires
            k is Char ==> old(self).search.cursor < usize::MAX,
        ensures
            search_key(*old(self), *final(self), k, r),
    {
        match k {
            Key::Tab => {
                self.focus = ExtFocus::UpdateAll;
                self.last_row0_focus = ExtFocus::UpdateAll;
            },
            Key::BackTab | Key::Esc => {
                self.focus = ExtFocus::Table;
            },
            Key::Enter | Key::Down => {
                self.last_row0_focus = ExtFocus::Search;
                self.focus = ExtFocus::Table;
                self.selected = 0;
                self.scroll = 0;
            },
            Key::Up => {
                self.up_from_top(ExtFocus::Search);
            },
            Key::Left | Key::Right => {},
            _ => {
                self.search.on_key(k);
                self.selected = 0;
                self.scroll = 0;
            },
        }
        None
    }

    fn key_button(&mut self, k: Key, cfg: &Config, reinstall: bool) -> (r: Option<ExtOutcome>)
        ensures
            button_key(*old(self), *final(self), k, *cfg, r, reinstall),
    {
        let me = if reinstall {
            ExtFocus::ReinstallAll
        } else {
            ExtFocus::UpdateAll
        };
        match k {
            Key::Tab => {
                if reinstall {
                    self.focus = ExtFocus::Table;
                } else {
                    self.focus = ExtFocus::ReinstallAll;
                    self.last_row0_focus = ExtFocus::ReinstallAll;
                }
                None
            },
            Key::BackTab => {
                let to = if reinstall {
                    ExtFocus::UpdateAll
                } else {
                    ExtFocus::Search
                };
                self.focus = to;
                self.last_row0_focus = to;
                None
            },
            Key::Esc => {
                self.focus = ExtFocus::Table;
                None
            },
            Key::Down => {
                self.last_row0_focus = me;
                self.focus = ExtFocus::Table;
                self.selected = 0;
                self.scroll = 0;
                None
            },
            Key::Up => {
                self.up_from_top(me);
                None
            },
            Key::Enter => Some(ExtOutcome::Task(bulk_request(&self.items, cfg, reinstall))),
            _ => None,
        }
    }

    fn table_to(&mut self, s: usize)
        ensures
            *final(self) == table_at(*old(self), s as int),
    {
        self.selected = s;
        self.ensure_visible();
    }

    fn key_table(&mut self, k: Key, cfg: &Config) -> (r: Option<ExtOutcome>)
        ensures
            table_key(*old(self), *final(self), k, *cfg, r),
    {
        match k {
            Key::Tab => {
                self.focus = self.last_row0_focus;
                return None;
            },
            Key::BackTab => {
                self.focus = ExtFocus::ReinstallAll;
                return None;
            },
            Key::Char(c) => {
                if c == 'r' || c == 'R' {
                    return Some(ExtOutcome::Rescan);
                }
                if c == 'd' || c == 'D' {
                    return match self.current_real_idx() {
                        Some(i) => Some(
                            ExtOutcome::AskUninstall {
                                path: self.items[i].path.clone(),
                                name: self.items[i].name.clone(),
                            },
                        ),
                        None => None,
                    };
                }
                if c == 'u' || c == 'U' {
                    return match self.current_real_idx() {
                        Some(i) => {
                            if self.items[i].managed {
                                Some(
                                    ExtOutcome::Task(
                                        update_one_request(
                                            self.items[i].path.clone(),
                                            self.items[i].name.clone(),
                                            cfg,
                                        ),
                                    ),
                                )
                            } else {
                                None
                            }
                        },
                        None => None,
                    };
                }
                return None;
            },
            _ => {},
        }
        let n = self.filtered_indices().len();
        let sel = self.selected;
        match k {
            Key::Up => {
                if n == 0 {
                    return None;
                }
                if sel == 0 {
                    self.focus = self.last_row0_focus;
                    self.table_to(sel);
                } else {
                    self.table_to(sel - 1);
                }
                None
            },
            Key::Down => {
                if n == 0 {
                    return None;
                }
                if sel >= n - 1 {
                    if !self.end_reached && self.search.value.as_str().is_empty() {
                        let more = self.limit.saturating_add(LIST_MAX_NUM);
                        return Some(
                            ExtOutcome::Task(
                                load_request_with_limit(
                                    cfg.general.comfyui_dir.clone(),
                                    more,
                                    build(&cfg.network),
                                ),
                            ),
                        );
                    }
                    self.focus = self.last_row0_focus;
                    self.table_to(sel);
                    return None;
                }
                self.table_to(sel + 1);
                None
            },
            Key::PageUp => {
                self.focus = self.last_row0_focus;
                None
            },
            Key::PageDown => {
                self.table_to(
                    if n > 0 {
                        n - 1
                    } else {
                        sel
                    },
                );
                None
            },
            Key::Enter => {
                match self.current_real_idx() {
                    Some(i) => {
                        let e = &self.items[i];
                        let am = ActionsMenu {
                            ext_path: e.path.clone(),
                            ext_name: e.name.clone(),
                            remote: e.remote.clone(),
                            disabled: e.disabled,
                            managed: e.managed,
                            selected: 0,
                        };
                        self.actions_menu = Some(am);
                    },
                    None => {},
                }
                None
            },
            _ => None,
        }
    }

    /// Handles a key press (see [`ext_key`] for what each key does).
    pub fn on_key(&mut self, k: Key, cfg: &Config) -> (r: Option<ExtOutcome>)
        requires
            old(self).actions_menu matches Some(am) ==> am.selected < 5,
            k is Char ==> old(self).search.cursor < usize::MAX,
        ensures
            ext_key(*old(self), *final(self), k, *cfg, r),
    {
        if self.notice.is_some() {
            return self.key_notice(k);
        }
        if self.actions_menu.is_some() {
            return self.key_actions(k, cfg);
        }
        if self.version_picker.is_some() {
            return self.key_picker(k, cfg);
        }
        if self.confirm.is_some() {
            return self.key_confirm(k);
        }
        match self.focus {
            ExtFocus::Search => self.key_search(k),
            ExtFocus::UpdateAll => self.key_button(k, cfg, false),
            ExtFocus::ReinstallAll => self.key_button(k, cfg, true),
            ExtFocus::Table => self.key_table(k, cfg),
        }
    }


    fn click_actions(&mut self, col: u16, row: u16, area: Rect, cfg: &Config) -> (r: Option<ExtOutcome>)
        requires
            old(self).actions_menu is Some,
            fits(area, 1),
        ensures
            actions_click(*old(self), *final(self), col as int, row as int, area, *cfg, r),
    {
        let h: u16 = if area.height < 7 {
            area.height
        } else {
            7
        };
        let p = center(area, 50, h);
        if !p.contains(col, row) {
            self.actions_menu = None;
            return None;
        }
        let right = p.x + p.width.saturating_sub(1);
        let bottom = p.y + p.height.saturating_sub(1);
        if col > p.x && col < right && row > p.y && row < bottom {
            let idx = (row - (p.y + 1)) as usize;
            if idx < 5 {
                let (sel, items) = match &self.actions_menu {
                    Some(am) => (am.selected, am.items()),
                    None => (0, Vec::new()),
                };
                if idx != sel {
                    self.set_action_sel(idx);
                    return None;
                }
                let (act, enabled) = items[idx];
                if enabled {
                    return self.dispatch_action(act, cfg);
                }
            }
        }
        None
    }

    fn click_picker(&mut self, col: u16, row: u16, area: Rect, cfg: &Config) -> (r: Option<ExtOutcome>)
        requires
            old(self).version_picker is Some,
            fits(area, 1),
        ensures
            picker_click(*old(self), *final(self), col as int, row as int, area, *cfg, r),
    {
        let w: u16 = if area.width >= 106 {
            100
        } else {
            area.width.saturating_sub(6)
        };
        let h: u16 = if area.height >= 28 {
            24
        } else {
            area.height.saturating_sub(4)
        };
        let p = center(area, w, h);
        if !p.contains(col, row) {
            self.version_picker = None;
            return None;
        }
        let ix = p.x + 1;
        let iy = p.y + 1;
        let iw = p.width.saturating_sub(2);
        let ih = p.height.saturating_sub(2);
        if col >= ix && col - ix < iw && row >= iy + 2 && row - iy < ih {
            let rel = (row - (iy + 2)) as usize;
            let (n, sel, scroll) = match &self.version_picker {
                Some(vp) => (vp.commits.len(), vp.selected, vp.scroll),
                None => (0, 0, 0),
            };
            if rel < n && scroll < n - rel {
                let idx = scroll + rel;
                if idx != sel {
                    self.picker_to(idx);
                    return None;
                }
                let vp = self.version_picker.take().unwrap();
                let rev = vp.commits[idx].short.clone();
                return Some(ExtOutcome::Task(checkout_request(vp.ext_path, vp.ext_name, rev, cfg)));
            }
        }
        None
    }

    fn click_body(&mut self, col: u16, row: u16, area: Rect, upd_w: u16, rei_w: u16)
        requires
            fits(area, 2),
        ensures
            ext_body_click(*old(self), *final(self), col as int, row as int, area, upd_w, rei_w),
    {
        let mut cs: Vec<Constraint> = Vec::new();
        cs.push(Constraint::Length(3));
        cs.push(Constraint::Min(0));
        assert(cs@ =~= seq![Constraint::Length(3), Constraint::Min(0)]);
        let v = split(area, true, &cs);
        assert(piece_of(v@[0], area, true) && piece_of(v@[1], area, true));
        let mut cs2: Vec<Constraint> = Vec::new();
        cs2.push(Constraint::Min(0));
        cs2.push(Constraint::Length(upd_w));
        cs2.push(Constraint::Length(rei_w));
        assert(cs2@ =~= seq![Constraint::Min(0), Constraint::Length(upd_w), Constraint::Length(rei_w)]);
        let top = split(v[0], false, &cs2);
        self.click_body_in(col, row, v[1], &top);
        assert(ext_layout(area, upd_w, rei_w, v@, top@));
    }

    /// Handles a click on the body laid out as `table` and `top`.
    fn click_body_in(&mut self, col: u16, row: u16, table: Rect, top: &Vec<Rect>)
        requires
            top@.len() == 3,
            table.y + 2 <= u16::MAX,
        ensures
            ext_body_click_in(*old(self), *final(self), col as int, row as int, table, top@),
    {
        if top[1].contains(col, row) {
            self.focus = ExtFocus::UpdateAll;
            self.last_row0_focus = ExtFocus::UpdateAll;
            self.btn_update_all.click();
            return;
        }
        if top[2].contains(col, row) {
            self.focus = ExtFocus::ReinstallAll;
            self.last_row0_focus = ExtFocus::ReinstallAll;
            self.btn_reinstall_all.click();
            return;
        }
        if top[0].contains(col, row) {
            self.focus = ExtFocus::Search;
            self.last_row0_focus = ExtFocus::Search;
            return;
        }
        self.focus = ExtFocus::Table;
        let top_y = table.y + 2;
        if row < top_y {
            return;
        }
        let rel = (row - top_y) as usize;
        let filtered = self.filtered_indices();
        let n = filtered.len();
        if rel >= n || self.scroll >= n - rel {
            return;
        }
        let vi = self.scroll + rel;
        if vi != self.selected {
            self.selected = vi;
            return;
        }
        proof {
            assert(self.items@.len() == self.items.len());
            lemma_filter_in_range(self.items@, self.search.value@);
        }
        let e = &self.items[filtered[vi]];
        let am = ActionsMenu {
            ext_path: e.path.clone(),
            ext_name: e.name.clone(),
            remote: e.remote.clone(),
            disabled: e.disabled,
            managed: e.managed,
            selected: 0,
        };
        self.actions_menu = Some(am);
    }

    /// Handles a click on the tab drawn over `area`; `upd_w` and `rei_w`
    /// are the widths of the two bulk buttons (see `button_width`).
    pub fn on_mouse(&mut self, m: Mouse, area: Rect, cfg: &Config, upd_w: u16, rei_w: u16) -> (r:
        Option<ExtOutcome>)
        requires
            fits(area, 18),
        ensures
            ext_click(*old(self), *final(self), m, area, *cfg, upd_w, rei_w, r),
    {
        if self.actions_menu.is_some() {
            return self.click_actions(m.column, m.row, area, cfg);
        }
        if self.version_picker.is_some() {
            return self.click_picker(m.column, m.row, area, cfg);
        }
        if self.notice.is_some() {
            let close = match &mut self.notice {
                Some(n) => match n.on_mouse(m, area) {
                    Some(NoticeOutcome::Close) => true,
                    _ => false,
                },
                None => false,
            };
            if close {
                self.notice = None;
            }
            return None;
        }
        if self.confirm.is_some() {
            let cancel = match &mut self.confirm {
                Some(c) => match c.on_mouse(m, area) {
                    Some(false) => true,
                    _ => false,
                },
                None => false,
            };
            if cancel {
                self.confirm = None;
                self.pending_delete = None;
            }
            return None;
        }
        self.click_body(m.column, m.row, area, upd_w, rei_w);
        None
    }

    /// Runs the deferred button presses, one frame after their highlight:
    /// a confirmed uninstall deletes the pending extension, a cancelled one
    /// forgets it; the notice's OK closes it and Copy closes it and asks to
    /// copy its text; the bulk buttons start their jobs.
    pub fn poll_button_action(&mut self, cfg: &Config) -> (r: Option<ExtOutcome>)
        ensures
            button_polled(*old(self), *final(self), *cfg, r),
    {
        if self.confirm.is_some() {
            let t = match &mut self.confirm {
                Some(c) => c.tick(),
                None => None,
            };
            match t {
                Some(true) => {
                    self.confirm = None;
                    match self.pending_delete.take() {
                        Some(p) => {
                            return Some(ExtOutcome::Task(uninstall_request(p)));
                        },
                        None => {},
                    }
                },
                Some(false) => {
                    self.confirm = None;
                    self.pending_delete = None;
                },
                None => {},
            }
        }
        let mut copied: Option<String> = None;
        if self.notice.is_some() {
            let t = match &mut self.notice {
                Some(n) => n.tick(),
                None => None,
            };
            match t {
                Some(NoticeOutcome::Close) => {
                    self.notice = None;
                },
                Some(NoticeOutcome::Copy(s)) => {
                    self.notice = None;
                    copied = Some(s);
                },
                None => {},
            }
        }
        if self.btn_update_all.poll_fire() {
            return Some(ExtOutcome::Task(bulk_request(&self.items, cfg, false)));
        }
        if self.btn_reinstall_all.poll_fire() {
            return Some(ExtOutcome::Task(bulk_request(&self.items, cfg, true)));
        }
        match copied {
            Some(s) => Some(ExtOutcome::Copy(s)),
            None => None,
        }
    }

    /// Opens the uninstall confirmation for the extension at `path`, with
    /// Cancel focused.
    pub fn ask_uninstall(&mut self, path: String, title: String, body: String)
        ensures
            final(self).pending_delete == Some(path),
            final(self).confirm matches Some(c) && c.title == title && c.body == body && !c.focus_ok
                && c.ok_state() is None && c.cancel_state() is None,
            *final(self) == (ExtensionsTab {
                pending_delete: final(self).pending_delete,
                confirm: final(self).confirm,
                ..*old(self)
            }),
    {
        self.pending_delete = Some(path);
        self.confirm = Some(Confirm::new(title, body, false));
    }

    /// Shows the URL that could not be opened, with a Copy URL button.
    pub fn show_url_notice(&mut self, title: String, body: String, url: String)
        ensures
            final(self).notice matches Some(n) && n.title == title && n.body == body && n.copy
                == Some(NoticeCopy { label_key: "btn_copy_url", payload: url, focused: false })
                && n.ok_state() is None && n.copy_state() is None,
            *final(self) == (ExtensionsTab { notice: final(self).notice, ..*old(self) }),
    {
        self.notice = Some(
            Notice::new(
                title,
                body,
                Some(NoticeCopy { label_key: "btn_copy_url", payload: url, focused: false }),
            ),
        );
    }

    /// Replaces the list with a fresh local scan of `root` (asked for by
    /// `r`), keeps the cursor on a row, and returns the background refresh
    /// of the same list.
    pub fn apply_rescan(&mut self, items: Vec<Extension>, cfg: &Config) -> (t: TaskRequest)
        ensures
            final(self).items@ == items@,
            final(self).end_reached == (items@.len() < old(self).limit),
            final(self).loaded_for == Some(cfg.general.comfyui_dir),
            ({
                let n = ext_filter(items@, old(self).search.value@).len() as int;
                let s = if old(self).selected >= n {
                    if n > 0 {
                        n - 1
                    } else {
                        0
                    }
                } else {
                    old(self).selected as int
                };
                *final(self) == table_at(
                    ExtensionsTab {
                        items: final(self).items,
                        end_reached: final(self).end_reached,
                        loaded_for: final(self).loaded_for,
                        ..*old(self)
                    },
                    s,
                )
            }),
            t.follow_up == TaskKind::Nothing,
            t.is_refresh,
            t.job matches Job::ExtLoad { root, limit, env } && root == cfg.general.comfyui_dir
                && limit == old(self).limit && env_for(env, *cfg),
    {
        let limit = self.limit;
        self.end_reached = items.len() < limit;
        self.items = items;
        self.loaded_for = Some(cfg.general.comfyui_dir.clone());
        let n = self.filtered_indices().len();
        if self.selected >= n {
            self.selected = if n > 0 {
                n - 1
            } else {
                0
            };
        }
        self.ensure_visible();
        load_request_with_limit(cfg.general.comfyui_dir.clone(), limit, build(&cfg.network))
    }

}

} // verus!
