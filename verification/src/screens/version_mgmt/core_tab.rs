//! Core ComfyUI repository tab.
//!
//! Lists release tags (the Stable view) or commits (the All view) and
//! decides what keys and wheel steps do: search, move, change version,
//! pull, reload.

use crate::config::Config;
use crate::env::{build, EnvList};
use crate::geom::{fits, Key, Mouse, Rect};
use crate::git::{Commit, TagCommit};
use crate::screens::version_mgmt::extensions_tab::{all_idx, env_for, matching_rows, pair_hits, pairs_view};
use crate::screens::version_mgmt::{Job, TaskKind, TaskRequest, LIST_MAX_NUM};
use crate::strs::{chars_of, contains_chars, has_sub, lower_chars, lowercase_of};
use crate::widgets::focus_grid::{
    model_in_list, model_move_down, model_move_up, model_page_down, model_page_up, FocusGrid,
    GridModel, RowKind,
};
use crate::widgets::input::{input_step, Input};
use vstd::prelude::*;

verus! {

/// Which slice of the Core repository history to display.
#[derive(Clone, Copy, Debug, PartialEq, Eq, Structural)]
pub enum CoreFilter {
    /// `v<major>.<minor>.<patch>` release tags only.
    Stable,
    /// Full commit log.
    All,
}

/// State for the Core repository tab.
pub struct CoreTab {
    /// Commit list, newest first.
    pub commits: Vec<Commit>,
    /// Release tags, descending by version.
    pub tags: Vec<TagCommit>,
    /// Active view filter.
    pub filter: CoreFilter,
    /// Focus grid: row 0 is the search input, row 1 the commit or tag list.
    pub grid: FocusGrid,
    /// Saved list selection for the Stable view.
    pub stable_list_selected: usize,
    /// Saved list scroll for the Stable view.
    pub stable_list_scroll: usize,
    /// Saved list selection for the All view.
    pub all_list_selected: usize,
    /// Saved list scroll for the All view.
    pub all_list_scroll: usize,
    /// Short SHA of the current `HEAD`.
    pub current: Option<String>,
    /// Release tag at `HEAD`, when one applies.
    pub current_tag: Option<String>,
    /// Remote origin URL.
    pub remote: Option<String>,
    /// Current branch.
    pub branch: Option<String>,
    /// Repository path the current data was loaded for.
    pub loaded_for: Option<String>,
    /// Row count requested from git for the current `commits` snapshot.
    pub limit: usize,
    /// Whether the last load returned fewer rows than requested.
    pub end_reached: bool,
    /// Number of data rows the table displays per frame.
    pub visible_rows: usize,
    /// Search input filtering the table.
    pub search: Input,
}

/// The two rows of the Core tab's focus grid: the search box, then the
/// list.
pub open spec fn core_rows() -> Seq<RowKind> {
    seq![RowKind::Fixed(1), RowKind::List]
}

/// Whether a commit matches the search `q` (hash or subject, ignoring
/// case).
pub open spec fn commit_matches(c: Commit, q: Seq<char>) -> bool {
    has_sub(lowercase_of(c.short@), lowercase_of(q)) || has_sub(lowercase_of(c.subject@), lowercase_of(q))
}

/// Whether a tag matches the search `q` (name, hash or subject, ignoring
/// case).
pub open spec fn tag_matches(t: TagCommit, q: Seq<char>) -> bool {
    has_sub(lowercase_of(t.tag@), lowercase_of(q)) || has_sub(lowercase_of(t.commit_short@), lowercase_of(q))
        || has_sub(lowercase_of(t.commit_subject@), lowercase_of(q))
}

/// Indices of the commits matching `q`, in order.
pub open spec fn commit_idx(cs: Seq<Commit>, q: Seq<char>) -> Seq<usize>
    decreases cs.len(),
{
    if cs.len() == 0 {
        Seq::empty()
    } else {
        let p = commit_idx(cs.drop_last(), q);
        if commit_matches(cs.last(), q) {
            p.push((cs.len() - 1) as usize)
        } else {
            p
        }
    }
}

/// Indices of the tags matching `q`, in order.
pub open spec fn tag_idx(ts: Seq<TagCommit>, q: Seq<char>) -> Seq<usize>
    decreases ts.len(),
{
    if ts.len() == 0 {
        Seq::empty()
    } else {
        let p = tag_idx(ts.drop_last(), q);
        if tag_matches(ts.last(), q) {
            p.push((ts.len() - 1) as usize)
        } else {
            p
        }
    }
}

/// A commit's searchable texts (short hash and subject), lower-cased.
pub open spec fn commit_texts(cs: Seq<Commit>) -> Seq<(Seq<char>, Seq<char>)> {
    cs.map_values(|c: Commit| (lowercase_of(c.short@), lowercase_of(c.subject@)))
}

/// Searching the lower-cased texts finds the matching commits.
proof fn lemma_commit_texts_hits(cs: Seq<Commit>, q: Seq<char>)
    ensures
        pair_hits(commit_texts(cs), lowercase_of(q)) == commit_idx(cs, q),
    decreases cs.len(),
{
    if cs.len() > 0 {
        lemma_commit_texts_hits(cs.drop_last(), q);
        assert(commit_texts(cs).drop_last() =~= commit_texts(cs.drop_last()));
    }
}

/// The commits shown: all of them for an empty search, else the matches.
pub open spec fn commit_filter(cs: Seq<Commit>, q: Seq<char>) -> Seq<usize> {
    if lowercase_of(q).len() == 0 {
        all_idx(cs.len())
    } else {
        commit_idx(cs, q)
    }
}

/// The tags shown: all of them for an empty search, else the matches.
pub open spec fn tag_filter(ts: Seq<TagCommit>, q: Seq<char>) -> Seq<usize> {
    if lowercase_of(q).len() == 0 {
        all_idx(ts.len())
    } else {
        tag_idx(ts, q)
    }
}

/// Number of rows the active view shows.
pub open spec fn core_len(c: CoreTab) -> nat {
    match c.filter {
        CoreFilter::All => commit_filter(c.commits@, c.search.value@).len(),
        CoreFilter::Stable => tag_filter(c.tags@, c.search.value@).len(),
    }
}

/// `b` is `a` with the grid replaced and the active view's saved list
/// position taken from the new grid.
pub open spec fn saved_as(a: CoreTab, b: CoreTab) -> bool {
    match a.filter {
        CoreFilter::Stable => b == (CoreTab {
            grid: b.grid,
            stable_list_selected: b.grid@.sel,
            stable_list_scroll: b.grid@.scroll,
            ..a
        }),
        CoreFilter::All => b == (CoreTab {
            grid: b.grid,
            all_list_selected: b.grid@.sel,
            all_list_scroll: b.grid@.scroll,
            ..a
        }),
    }
}

/// The grid prepared for a key: the list holds `n` rows (the selection
/// pulled back onto the last row when the list has focus), and `rows`
/// rows (at least one) fit on screen.
pub open spec fn prepared(g: GridModel, n: usize, rows: usize) -> GridModel {
    let g1 = if model_in_list(g) && g.sel >= n && n > 0 {
        GridModel { len: n, sel: (n - 1) as usize, ..g }
    } else {
        GridModel { len: n, ..g }
    };
    GridModel {
        visible: if rows >= 1 {
            rows
        } else {
            1usize
        },
        ..g1
    }
}

/// The grid focused on `row`, column 0 (what `set_focus(row, 0)` does on
/// the Core tab's two rows).
pub open spec fn focused_on(g: GridModel, row: usize) -> GridModel {
    let a = crate::widgets::focus_grid::model_save_col(g);
    let r = if row < a.rows.len() {
        row
    } else {
        (a.rows.len() - 1) as usize
    };
    GridModel { row: r, col: 0, last_col: a.last_col.update(r as int, 0), ..a }
}

/// A click at screen row `row` on the Core tab drawn over `area` (a
/// four-row header, the three-row search box, then the table with its
/// border and header row): the search box takes focus; anywhere else the
/// list takes focus, a click on a shown row selects it, and a click on the
/// selected row checks out its release or commit.
pub open spec fn core_click(a: CoreTab, b: CoreTab, row: int, area: Rect, cfg: Config, r: Option<
    TaskRequest,
>) -> bool {
    let search_top = area.y + 4;
    let table_top = search_top + 5;
    let kept = b == (CoreTab { grid: b.grid, ..a });
    if search_top <= row < search_top + 3 {
        r is None && kept && b.grid@ == focused_on(a.grid@, 0)
    } else {
        let g = focused_on(a.grid@, 1);
        let vi = g.scroll + (row - table_top);
        if row < table_top || vi >= core_len(a) {
            r is None && kept && b.grid@ == g
        } else if vi != g.sel {
            r is None && kept && b.grid@ == (GridModel { sel: vi as usize, ..g })
        } else {
            kept && b.grid@ == g && match a.filter {
                CoreFilter::All => core_checkout_task(
                    r,
                    cfg,
                    a.commits@[commit_filter(a.commits@, a.search.value@)[vi] as int].short,
                ),
                CoreFilter::Stable => core_checkout_task(
                    r,
                    cfg,
                    a.tags@[tag_filter(a.tags@, a.search.value@)[vi] as int].tag,
                ),
            }
        }
    }
}

/// The background reload of the Core repository at `root` (at most `limit`
/// commits).
pub fn load_request_with_env(root: String, env: EnvList, limit: usize) -> (t: TaskRequest)
    ensures
        t.follow_up == TaskKind::Nothing,
        t.is_refresh,
        t.job == (Job::CoreLoad { root, env, limit }),
{
    TaskRequest { job: Job::CoreLoad { root, env, limit }, follow_up: TaskKind::Nothing, is_refresh: true }
}

/// Whether `r` reloads the configured repository with up to `limit`
/// commits.
pub open spec fn core_load_task(r: Option<TaskRequest>, cfg: Config, limit: usize) -> bool {
    r matches Some(t) && t.follow_up == TaskKind::Nothing && t.is_refresh && (
    t.job matches Job::CoreLoad { root, env, limit: l } && root == cfg.general.comfyui_dir
        && env_for(env, cfg) && l == limit)
}

/// Whether `r` checks the configured repository out at `rev`.
pub open spec fn core_checkout_task(r: Option<TaskRequest>, cfg: Config, rev: String) -> bool {
    r matches Some(t) && t.follow_up == TaskKind::Nothing && !t.is_refresh && (
    t.job matches Job::CoreCheckout { root, rev: v, env, python } && root == cfg.general.comfyui_dir
        && v == rev && env_for(env, cfg) && python == cfg.general.python)
}

/// Whether `r` pulls the configured repository and then reloads it.
pub open spec fn core_pull_task(r: Option<TaskRequest>, cfg: Config) -> bool {
    r matches Some(t) && t.follow_up == TaskKind::CoreLoad(cfg.general.comfyui_dir) && !t.is_refresh
        && (t.job matches Job::CorePull { root, env, python } && root == cfg.general.comfyui_dir
        && env_for(env, cfg) && python == cfg.general.python)
}

/// A key while the search box has focus (`g` is the prepared grid): Esc,
/// Tab and BackTab go to the list; Enter and Down move down, Up moves up;
/// Left and Right are left to the caller; any other key edits the search
/// text and resets the list to its top. The position is saved.
pub open spec fn core_search_key(a: CoreTab, b: CoreTab, k: Key, g: GridModel) -> bool {
    match k {
        Key::Esc | Key::Tab | Key::BackTab => saved_as(a, b) && b.grid@ == focused_on(g, 1),
        Key::Enter | Key::Down => saved_as(a, b) && b.grid@ == model_move_down(g),
        Key::Up => saved_as(a, b) && b.grid@ == model_move_up(g),
        Key::Left | Key::Right => saved_as(a, b) && b.grid@ == g,
        _ => saved_as(CoreTab { search: b.search, ..a }, b) && b.grid@ == (GridModel {
            sel: 0,
            scroll: 0,
            ..g
        }) && b.search.placeholder_key == a.search.placeholder_key && (
        b.search.value@, b.search.cursor as int) == input_step(
            a.search.value@,
            a.search.cursor as int,
            k,
        ),
    }
}

/// A key while the list has focus (`g` is the prepared grid, `n` the
/// number of rows shown). Tab and BackTab go to the search box; Up, Down,
/// PageUp and PageDown move through the list, except that Down past the
/// end of an unfiltered, possibly incomplete commit log asks for a larger
/// reload; `r` reloads, `u` pulls, Enter checks out the selected release
/// or commit.
pub open spec fn core_list_key(
    a: CoreTab,
    b: CoreTab,
    k: Key,
    cfg: Config,
    r: Option<TaskRequest>,
    g: GridModel,
    n: int,
) -> bool {
    let kept = b == (CoreTab { grid: b.grid, ..a }) && b.grid@ == g;
    let sel = g.sel as int;
    match k {
        Key::Tab | Key::BackTab => r is None && b == (CoreTab { grid: b.grid, ..a })
            && b.grid@ == focused_on(g, 0),
        Key::Up => r is None && saved_as(a, b) && b.grid@ == model_move_up(g),
        Key::Down => if sel + 1 >= n && a.filter == CoreFilter::All && !a.end_reached
            && a.search.value@.len() == 0 {
            kept && core_load_task(
                r,
                cfg,
                (if a.limit + LIST_MAX_NUM > usize::MAX {
                    usize::MAX as int
                } else {
                    a.limit + LIST_MAX_NUM
                }) as usize,
            )
        } else {
            r is None && saved_as(a, b) && b.grid@ == model_move_down(g)
        },
        Key::PageUp => r is None && saved_as(a, b) && b.grid@ == model_page_up(g),
        Key::PageDown => r is None && saved_as(a, b) && b.grid@ == model_page_down(g),
        Key::Char(c) => if c == 'r' || c == 'R' {
            kept && core_load_task(r, cfg, a.limit)
        } else if c == 'u' || c == 'U' {
            kept && core_pull_task(r, cfg)
        } else {
            kept && r is None
        },
        Key::Enter => kept && match a.filter {
            CoreFilter::All => {
                let rows = commit_filter(a.commits@, a.search.value@);
                if sel < rows.len() {
                    core_checkout_task(r, cfg, a.commits@[rows[sel] as int].short)
                } else {
                    r is None
                }
            },
            CoreFilter::Stable => {
                let rows = tag_filter(a.tags@, a.search.value@);
                if sel < rows.len() {
                    core_checkout_task(r, cfg, a.tags@[rows[sel] as int].tag)
                } else {
                    r is None
                }
            },
        },
        _ => kept && r is None,
    }
}

/// The effect of a key on the Core tab: the list first learns its length
/// and how many rows fit, then the focused row (search box or list) takes
/// the key.
pub open spec fn core_key(a: CoreTab, b: CoreTab, k: Key, cfg: Config, r: Option<TaskRequest>) -> bool {
    let n = core_len(a);
    let g = prepared(a.grid@, n as usize, a.visible_rows);
    if g.row == 0 {
        r is None && core_search_key(a, b, k, g)
    } else {
        core_list_key(a, b, k, cfg, r, g, n as int)
    }
}

/// Every commit row shown is an index into the commit list.
pub proof fn lemma_commit_filter_in_range(cs: Seq<Commit>, q: Seq<char>)
    requires
        cs.len() <= usize::MAX,
    ensures
        forall|j: int|
            0 <= j < commit_filter(cs, q).len() ==> #[trigger] commit_filter(cs, q)[j] < cs.len(),
{
    crate::screens::version_mgmt::extensions_tab::lemma_all_idx_facts(cs.len());
    lemma_commit_idx(cs, q);
}

proof fn lemma_commit_idx(cs: Seq<Commit>, q: Seq<char>)
    requires
        cs.len() <= usize::MAX,
    ensures
        forall|j: int|
            0 <= j < commit_idx(cs, q).len() ==> #[trigger] commit_idx(cs, q)[j] < cs.len(),
    decreases cs.len(),
{
    if cs.len() > 0 {
        lemma_commit_idx(cs.drop_last(), q);
        let p = commit_idx(cs.drop_last(), q);
        assert forall|j: int| 0 <= j < commit_idx(cs, q).len() implies #[trigger] commit_idx(cs, q)[j] < cs.len() by {
            if j < p.len() {
                assert(commit_idx(cs, q)[j] == p[j]);
            }
        }
    }
}

/// Every tag row shown is an index into the tag list.
pub proof fn lemma_tag_filter_in_range(ts: Seq<TagCommit>, q: Seq<char>)
    requires
        ts.len() <= usize::MAX,
    ensures
        forall|j: int| 0 <= j < tag_filter(ts, q).len() ==> #[trigger] tag_filter(ts, q)[j] < ts.len(),
{
    crate::screens::version_mgmt::extensions_tab::lemma_all_idx_facts(ts.len());
    lemma_tag_idx(ts, q);
}

proof fn lemma_tag_idx(ts: Seq<TagCommit>, q: Seq<char>)
    requires
        ts.len() <= usize::MAX,
    ensures
        forall|j: int| 0 <= j < tag_idx(ts, q).len() ==> #[trigger] tag_idx(ts, q)[j] < ts.len(),
    decreases ts.len(),
{
    if ts.len() > 0 {
        lemma_tag_idx(ts.drop_last(), q);
        let p = tag_idx(ts.drop_last(), q);
        assert forall|j: int| 0 <= j < tag_idx(ts, q).len() implies #[trigger] tag_idx(ts, q)[j] < ts.len() by {
            if j < p.len() {
                assert(tag_idx(ts, q)[j] == p[j]);
            }
        }
    }
}

/// The grid after restoring the active view's saved list position (see
/// [`CoreTab::restore_filter_state`]).
pub open spec fn restored_grid(t: CoreTab) -> GridModel {
    match t.filter {
        CoreFilter::Stable => GridModel {
            sel: t.stable_list_selected,
            scroll: t.stable_list_scroll,
            ..t.grid@
        },
        CoreFilter::All => GridModel {
            sel: t.all_list_selected,
            scroll: t.all_list_scroll,
            ..t.grid@
        },
    }
}

/// Saving a view's list position and later restoring it gives the position
/// back, whatever the list did in between (as long as the view and the
/// saved slots were left alone); the other view's slots stay as they were.
pub proof fn law_save_then_restore(t0: CoreTab, t1: CoreTab, t2: CoreTab)
    requires
        saved_as(t0, t1),
        t1.grid == t0.grid,
        t2 == (CoreTab { grid: t2.grid, ..t1 }),
    ensures
        restored_grid(t2).sel == t0.grid@.sel,
        restored_grid(t2).scroll == t0.grid@.scroll,
        t0.filter == CoreFilter::Stable ==> t2.all_list_selected == t0.all_list_selected
            && t2.all_list_scroll == t0.all_list_scroll,
        t0.filter == CoreFilter::All ==> t2.stable_list_selected == t0.stable_list_selected
            && t2.stable_list_scroll == t0.stable_list_scroll,
{
}

/// `b` is `a` after one wheel step (see [`CoreTab::scroll`]): nothing
/// changes over an empty view; otherwise the grid learns the view's length
/// and moves one step, and the position is saved.
pub open spec fn core_scrolled(a: CoreTab, b: CoreTab, delta: i32) -> bool {
    if core_len(a) == 0 {
        b == a
    } else {
        saved_as(a, b) && b.grid@ == ({
            let g = prepared(a.grid@, core_len(a) as usize, a.grid@.visible);
            if delta < 0 {
                model_move_up(g)
            } else {
                model_move_down(g)
            }
        })
    }
}

/// `b` is the Core tab `a` after Esc that nothing else took, `used`
/// whether it was consumed (see [`CoreTab::eat_search_esc`]): from the
/// search box the focus goes down to the list; else a non-empty search is
/// cleared and the list goes back to its top (position saved); else Esc is
/// not used and nothing changes.
pub open spec fn core_esc(a: CoreTab, b: CoreTab, used: bool) -> bool {
    if a.grid@.row == 0 {
        used && b == (CoreTab { grid: b.grid, ..a }) && b.grid@ == focused_on(a.grid@, 1)
    } else if a.search.value@.len() > 0 {
        used && b.search.value@.len() == 0 && b.search.cursor == 0 && b.search.placeholder_key
            == a.search.placeholder_key && b.grid@ == (GridModel { sel: 0, scroll: 0, ..a.grid@ })
            && saved_as(CoreTab { search: b.search, ..a }, b)
    } else {
        !used && b == a
    }
}

impl CoreTab {
    /// The tab's invariant: a well-formed grid with the search row above
    /// the list row.
    pub open spec fn wf(&self) -> bool {
        self.grid.wf() && self.grid@.rows == core_rows()
    }

    /// Constructs a fresh Core tab showing the Stable view with the list
    /// focused.
    pub fn new() -> (t: Self)
        ensures
            t.wf(),
            t.grid@.row == 1,
            t.grid@.sel == 0,
            t.grid@.scroll == 0,
            t.commits@.len() == 0,
            t.tags@.len() == 0,
            t.filter == CoreFilter::Stable,
            t.stable_list_selected == 0 && t.stable_list_scroll == 0,
            t.all_list_selected == 0 && t.all_list_scroll == 0,
            t.current is None && t.current_tag is None && t.remote is None && t.branch is None,
            t.loaded_for is None,
            t.limit == LIST_MAX_NUM,
            !t.end_reached,
            t.visible_rows == 0,
            t.search.value@.len() == 0 && t.search.cursor == 0,
            t.search.placeholder_key == Some("placeholder_search"),
    {
        let mut rows: Vec<RowKind> = Vec::new();
        rows.push(RowKind::Fixed(1));
        rows.push(RowKind::List);
        assert(rows@ =~= core_rows());
        let mut grid = FocusGrid::new(rows);
        grid.set_focus(1, 0);
        CoreTab {
            commits: Vec::new(),
            tags: Vec::new(),
            filter: CoreFilter::Stable,
            grid,
            stable_list_selected: 0,
            stable_list_scroll: 0,
            all_list_selected: 0,
            all_list_scroll: 0,
            current: None,
            current_tag: None,
            remote: None,
            branch: None,
            loaded_for: None,
            limit: LIST_MAX_NUM,
            end_reached: false,
            visible_rows: 0,
            search: Input::default().placeholder("placeholder_search"),
        }
    }

    /// Whether the search input currently has keyboard focus.
    pub fn search_focused(&self) -> (b: bool)
        ensures
            b == (self.grid@.row == 0),
    {
        self.grid.row() == 0
    }

    /// Whether any text input widget currently has keyboard focus.
    pub fn text_input_focused(&self) -> (b: bool)
        ensures
            b == (self.grid@.row == 0),
    {
        self.search_focused()
    }

    /// Saves the grid's list position as the active view's.
    pub fn save_filter_state(&mut self)
        ensures
            saved_as(*old(self), *final(self)),
            final(self).grid == old(self).grid,
    {
        match self.filter {
            CoreFilter::Stable => {
                self.stable_list_selected = self.grid.list_selected();
                self.stable_list_scroll = self.grid.list_scroll();
            },
            CoreFilter::All => {
                self.all_list_selected = self.grid.list_selected();
                self.all_list_scroll = self.grid.list_scroll();
            },
        }
    }

    /// Restores the grid's list position from the active view's.
    pub fn restore_filter_state(&mut self)
        requires
            old(self).wf(),
        ensures
            final(self).wf(),
            *final(self) == (CoreTab { grid: final(self).grid, ..*old(self) }),
            final(self).grid@ == restored_grid(*old(self)),
    {
        match self.filter {
            CoreFilter::Stable => {
                self.grid.set_list_selected(self.stable_list_selected);
                self.grid.set_list_scroll(self.stable_list_scroll);
            },
            CoreFilter::All => {
                self.grid.set_list_selected(self.all_list_selected);
                self.grid.set_list_scroll(self.all_list_scroll);
            },
        }
    }

    /// Clamps the list scroll so the selected row is on-screen, and saves
    /// the position as the active view's.
    pub fn ensure_visible(&mut self)
        requires
            old(self).wf(),
        ensures
            final(self).wf(),
            final(self).grid@ == crate::widgets::focus_grid::model_ensure_visible(
                GridModel {
                    visible: if old(self).visible_rows >= 1 {
                        old(self).visible_rows
                    } else {
                        1usize
                    },
                    ..old(self).grid@
                },
            ),
            saved_as(*old(self), *final(self)),
    {
        let v = if self.visible_rows >= 1 {
            self.visible_rows
        } else {
            1
        };
        self.grid.set_visible_rows(v);
        self.grid.ensure_visible();
        self.save_filter_state();
    }

    /// Returns the indices of the commits matching the search input.
    pub fn filtered_commits(&self) -> (r: Vec<usize>)
        ensures
            r@ == commit_filter(self.commits@, self.search.value@),
            self.search.value@.len() == 0 ==> r@ == all_idx(self.commits@.len()),
    {
        let needle = lower_chars(&chars_of(self.search.value.as_str()));
        let mut rows: Vec<(Vec<char>, Vec<char>)> = Vec::new();
        let mut i: usize = 0;
        let n = self.commits.len();
        while i < n
            invariant
                i <= n == self.commits@.len(),
                pairs_view(rows@) == commit_texts(self.commits@.take(i as int)),
            decreases n - i,
        {
            let c = &self.commits[i];
            let pair = (lower_chars(&chars_of(c.short.as_str())), lower_chars(&chars_of(c.subject.as_str())));
            let ghost before = pairs_view(rows@);
            rows.push(pair);
            assert(pairs_view(rows@) =~= before.push((pair.0@, pair.1@)));
            i = i + 1;
            assert(commit_texts(self.commits@.take(i as int)) =~= commit_texts(self.commits@.take(i - 1)).push(
                (lowercase_of(self.commits@[i - 1].short@), lowercase_of(self.commits@[i - 1].subject@)),
            ));
        }
        assert(self.commits@.take(n as int) =~= self.commits@);
        proof {
            lemma_commit_texts_hits(self.commits@, self.search.value@);
        }
        matching_rows(&rows, &needle)
    }

    /// Returns the indices of the tags matching the search input.
    pub fn filtered_tags(&self) -> (r: Vec<usize>)
        ensures
            r@ == tag_filter(self.tags@, self.search.value@),
            self.search.value@.len() == 0 ==> r@ == all_idx(self.tags@.len()),
    {
        let needle = lower_chars(&chars_of(self.search.value.as_str()));
        let mut out: Vec<usize> = Vec::new();
        let mut i: usize = 0;
        let n = self.tags.len();
        if needle.len() == 0 {
            while i < n
                invariant
                    i <= n == self.tags@.len(),
                    out@ == all_idx(i as nat),
                decreases n - i,
            {
                out.push(i);
                i = i + 1;
            }
            return out;
        }
        assert(self.tags@.take(0) =~= Seq::<TagCommit>::empty());
        while i < n
            invariant
                i <= n == self.tags@.len(),
                needle@ == lowercase_of(self.search.value@),
                out@ == tag_idx(self.tags@.take(i as int), self.search.value@),
            decreases n - i,
        {
            assert(self.tags@.take(i + 1).drop_last() =~= self.tags@.take(i as int));
            let t = &self.tags[i];
            let hit = contains_chars(&lower_chars(&chars_of(t.tag.as_str())), &needle)
                || contains_chars(&lower_chars(&chars_of(t.commit_short.as_str())), &needle)
                || contains_chars(&lower_chars(&chars_of(t.commit_subject.as_str())), &needle);
            if hit {
                out.push(i);
            }
            i = i + 1;
        }
        assert(self.tags@.take(n as int) =~= self.tags@);
        out
    }

    /// Number of rows the active view shows.
    pub fn filtered_len(&self) -> (n: usize)
        ensures
            n == core_len(*self),
    {
        match self.filter {
            CoreFilter::All => self.filtered_commits().len(),
            CoreFilter::Stable => self.filtered_tags().len(),
        }
    }

    /// Handles one wheel step (`delta < 0` is up) over a non-empty view: the
    /// list learns its length, then the grid moves one step and the
    /// position is saved.
    pub fn scroll(&mut self, delta: i32)
        requires
            old(self).wf(),
        ensures
            final(self).wf(),
            core_scrolled(*old(self), *final(self), delta),
    {
        let n = self.filtered_len();
        if n == 0 {
            return;
        }
        self.grid.set_list_len(n);
        self.grid.scroll(delta);
        self.save_filter_state();
    }

    /// Handles Esc while nothing else takes it: leaves the search box, or
    /// else clears a non-empty search and resets the list to its top.
    /// Returns whether Esc was consumed.
    pub fn eat_search_esc(&mut self) -> (used: bool)
        requires
            old(self).wf(),
        ensures
            final(self).wf(),
            core_esc(*old(self), *final(self), used),
    {
        if self.search_focused() {
            self.grid.set_focus(1, 0);
            return true;
        }
        if !self.search.value.as_str().is_empty() {
            self.search.value = String::new();
            self.search.cursor = 0;
            self.grid.set_list_selected(0);
            self.grid.set_list_scroll(0);
            self.save_filter_state();
            return true;
        }
        false
    }

    /// Handles Left within the tab: in the search box it moves the cursor
    /// unless already at the start; otherwise the grid moves left. Returns
    /// whether it was consumed.
    pub fn on_left(&mut self) -> (used: bool)
        requires
            old(self).wf(),
        ensures
            final(self).wf(),
            old(self).grid@.row == 0 && old(self).search.cursor != 0 ==> used && *final(self) == (
            CoreTab { search: final(self).search, ..*old(self) })
                && final(self).search.placeholder_key == old(self).search.placeholder_key && (
            final(self).search.value@, final(self).search.cursor as int) == input_step(
                old(self).search.value@,
                old(self).search.cursor as int,
                Key::Left,
            ),
            !(old(self).grid@.row == 0 && old(self).search.cursor != 0) ==> *final(self) == (
            CoreTab { grid: final(self).grid, ..*old(self) }) && used == (old(self).grid@.row
                < old(self).grid@.rows.len() && old(self).grid@.rows[old(self).grid@.row as int] is Fixed
                && old(self).grid@.col > 0),
    {
        if self.search_focused() && !self.search.at_start() {
            self.search.on_key(Key::Left);
            return true;
        }
        self.grid.move_left()
    }

    /// Handles Right within the tab: in the search box it moves the cursor
    /// unless already at the end; otherwise the grid moves right. Returns
    /// whether it was consumed.
    pub fn on_right(&mut self) -> (used: bool)
        requires
            old(self).wf(),
        ensures
            final(self).wf(),
            old(self).grid@.row == 0 && old(self).search.cursor < old(self).search.value@.len()
                ==> used && *final(self) == (CoreTab { search: final(self).search, ..*old(self) })
                && final(self).search.placeholder_key == old(self).search.placeholder_key && (
            final(self).search.value@, final(self).search.cursor as int) == input_step(
                old(self).search.value@,
                old(self).search.cursor as int,
                Key::Right,
            ),
            !(old(self).grid@.row == 0 && old(self).search.cursor < old(self).search.value@.len())
                ==> *final(self) == (CoreTab { grid: final(self).grid, ..*old(self) }) && used == (
            old(self).grid@.row < old(self).grid@.rows.len() && (old(self).grid@.rows[old(
                self,
            ).grid@.row as int] matches RowKind::Fixed(n) && old(self).grid@.col + 1 < n)),
    {
        if self.search_focused() && !self.search.at_end() {
            self.search.on_key(Key::Right);
            return true;
        }
        self.grid.move_right()
    }

    fn checkout(&self, rev: String, cfg: &Config) -> (r: Option<TaskRequest>)
        ensures
            core_checkout_task(r, *cfg, rev),
    {
        Some(
            TaskRequest {
                job: Job::CoreCheckout {
                    root: cfg.general.comfyui_dir.clone(),
                    rev,
                    env: build(&cfg.network),
                    python: cfg.general.python.clone(),
                },
                follow_up: TaskKind::Nothing,
                is_refresh: false,
            },
        )
    }

    /// Handles a click on the tab drawn over `area` (see [`core_click`]).
    pub fn on_mouse(&mut self, m: Mouse, area: Rect, cfg: &Config) -> (r: Option<TaskRequest>)
        requires
            old(self).wf(),
            fits(area, 9),
        ensures
            final(self).wf(),
            core_click(*old(self), *final(self), m.row as int, area, *cfg, r),
    {
        let search_top = area.y + 4;
        let search_bottom = search_top + 3;
        if m.row >= search_top && m.row < search_bottom {
            self.grid.set_focus(0, 0);
            return None;
        }
        self.grid.set_focus(1, 0);
        let table_top = search_bottom + 2;
        if m.row < table_top {
            return None;
        }
        let rel = (m.row - table_top) as usize;
        let scroll = self.grid.list_scroll();
        match self.filter {
            CoreFilter::All => {
                let rows = self.filtered_commits();
                if rel >= rows.len() || scroll >= rows.len() - rel {
                    return None;
                }
                let vi = scroll + rel;
                if vi != self.grid.list_selected() {
                    self.grid.set_list_selected(vi);
                    return None;
                }
                proof {
                    assert(self.commits@.len() == self.commits.len());
                    lemma_commit_filter_in_range(self.commits@, self.search.value@);
                }
                let rev = self.commits[rows[vi]].short.clone();
                self.checkout(rev, cfg)
            },
            CoreFilter::Stable => {
                let rows = self.filtered_tags();
                if rel >= rows.len() || scroll >= rows.len() - rel {
                    return None;
                }
                let vi = scroll + rel;
                if vi != self.grid.list_selected() {
                    self.grid.set_list_selected(vi);
                    return None;
                }
                proof {
                    assert(self.tags@.len() == self.tags.len());
                    lemma_tag_filter_in_range(self.tags@, self.search.value@);
                }
                let rev = self.tags[rows[vi]].tag.clone();
                self.checkout(rev, cfg)
            },
        }
    }

    /// Handles a key press (see [`core_key`]).
    pub fn on_key(&mut self, k: Key, cfg: &Config) -> (r: Option<TaskRequest>)
        requires
            old(self).wf(),
            k is Char ==> old(self).search.cursor < usize::MAX,
        ensures
            final(self).wf(),
            core_key(*old(self), *final(self), k, *cfg, r),
    {
        let n = self.filtered_len();
        self.grid.set_list_len(n);
        let v = if self.visible_rows >= 1 {
            self.visible_rows
        } else {
            1
        };
        self.grid.set_visible_rows(v);
        if self.search_focused() {
            match k {
                Key::Esc | Key::Tab | Key::BackTab => {
                    self.grid.set_focus(1, 0);
                },
                Key::Enter | Key::Down => {
                    self.grid.move_down();
                },
                Key::Up => {
                    self.grid.move_up();
                },
                Key::Left | Key::Right => {},
                _ => {
                    self.search.on_key(k);
                    self.grid.set_list_selected(0);
                    self.grid.set_list_scroll(0);
                },
            }
            self.save_filter_state();
            return None;
        }
        let sel = self.grid.list_selected();
        match k {
            Key::Tab | Key::BackTab => {
                self.grid.set_focus(0, 0);
                None
            },
            Key::Up => {
                self.grid.move_up();
                self.save_filter_state();
                None
            },
            Key::Down => {
                let at_end = n == 0 || sel >= n - 1;
                if at_end && self.filter == CoreFilter::All && !self.end_reached
                    && self.search.value.as_str().is_empty() {
                    let more = self.limit.saturating_add(LIST_MAX_NUM);
                    return Some(
                        load_request_with_env(
                            cfg.general.comfyui_dir.clone(),
                            build(&cfg.network),
                            more,
                        ),
                    );
                }
                self.grid.move_down();
                self.save_filter_state();
                None
            },
            Key::PageUp => {
                self.grid.page_up();
                self.save_filter_state();
                None
            },
            Key::PageDown => {
                self.grid.page_down();
                self.save_filter_state();
                None
            },
            Key::Char(c) => {
                if c == 'r' || c == 'R' {
                    return Some(
                        load_request_with_env(
                            cfg.general.comfyui_dir.clone(),
                            build(&cfg.network),
                            self.limit,
                        ),
                    );
                }
                if c == 'u' || c == 'U' {
                    return Some(
                        TaskRequest {
                            job: Job::CorePull {
                                root: cfg.general.comfyui_dir.clone(),
                                env: build(&cfg.network),
                                python: cfg.general.python.clone(),
                            },
                            follow_up: TaskKind::CoreLoad(cfg.general.comfyui_dir.clone()),
                            is_refresh: false,
                        },
                    );
                }
                None
            },
            Key::Enter => {
                match self.filter {
                    CoreFilter::All => {
                        let f = self.filtered_commits();
                        if sel < f.len() {
                            assert(self.commits@.len() == self.commits.len());
                            proof {
                                lemma_commit_filter_in_range(self.commits@, self.search.value@);
                            }
                            let rev = self.commits[f[sel]].short.clone();
                            return self.checkout(rev, cfg);
                        }
                        None
                    },
                    CoreFilter::Stable => {
                        let f = self.filtered_tags();
                        if sel < f.len() {
                            assert(self.tags@.len() == self.tags.len());
                            proof {
                                lemma_tag_filter_in_range(self.tags@, self.search.value@);
                            }
                            let rev = self.tags[f[sel]].tag.clone();
                            return self.checkout(rev, cfg);
                        }
                        None
                    },
                }
            },
            _ => None,
        }
    }

}

} // verus!
