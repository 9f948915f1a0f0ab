//! Horizontal tab strip with scroll chevrons when the labels exceed the
//! available width.
//!
//! A label is drawn with one padding cell on each side and tabs are two
//! cells apart. When the strip is too narrow, it scrolls so that the
//! selected tab is visible, drawing a one-cell chevron on the side where
//! tabs are hidden.

use crate::geom::Rect;
use crate::text::{str_width_of, width};
use vstd::prelude::*;

verus! {

/// Horizontal tab strip.
pub struct Tabs<'a> {
    /// Tab labels in display order.
    pub items: &'a [String],
    /// Index of the selected tab.
    pub selected: usize,
    /// When set, tabs with `true` entries are drawn highlighted and the
    /// selected marker is suppressed (cross-tab search shows which tabs
    /// hold matches).
    pub highlighted: Option<&'a [bool]>,
}

/// Result of a click hit-test on the tab strip.
#[derive(Clone, Copy, Debug, PartialEq, Eq, Structural)]
pub enum HitResult {
    /// A tab at the given index.
    Tab(usize),
    /// The left scroll chevron.
    PrevChevron,
    /// The right scroll chevron.
    NextChevron,
}

/// Gap between adjacent tabs.
pub const GAP: usize = 2;

/// Cells taken by the label `s` as drawn: its width plus two padding cells
/// (saturating).
pub open spec fn cells_of(s: Seq<char>) -> usize {
    if str_width_of(s) + 2 <= usize::MAX {
        (str_width_of(s) + 2) as usize
    } else {
        usize::MAX
    }
}

/// Drawn widths of the labels `items`.
pub open spec fn widths_of(items: Seq<String>) -> Seq<usize> {
    items.map_values(|s: String| cells_of(s@))
}

/// Cells taken by tabs `s..e` of widths `ws`, gaps included.
pub open spec fn span(ws: Seq<usize>, s: int, e: int) -> int
    decreases e - s,
{
    if e <= s {
        0
    } else if e == s + 1 {
        ws[s] as int
    } else {
        span(ws, s, e - 1) + GAP + ws[e - 1]
    }
}

/// Whether tabs `s..e` fit in `budget` cells next to `extra` reserved cells.
pub open spec fn fits(ws: Seq<usize>, s: int, e: int, extra: int, budget: int) -> bool {
    extra + span(ws, s, e) <= budget
}

/// The cells reserved by chevrons when the strip scrolls to show tabs
/// `s..=sel` of `n`: one on the left when tabs are hidden before `s`, one
/// on the right when tabs follow `sel`.
pub open spec fn chevrons(s: int, sel: int, n: int) -> int {
    (if s > 0 {
        1int
    } else {
        0int
    }) + (if sel + 1 < n {
        1int
    } else {
        0int
    })
}

/// The smallest start `s` from `from` on (at most `sel`) at which tabs
/// `s..=sel` fit in `avail` with their chevrons; `sel` when none does.
pub open spec fn first_fit(ws: Seq<usize>, sel: int, avail: int, from: int) -> int
    decreases sel + 1 - from,
{
    if from >= sel {
        sel
    } else if fits(ws, from, sel + 1, chevrons(from, sel, ws.len() as int), avail) {
        from
    } else {
        first_fit(ws, sel, avail, from + 1)
    }
}

/// Cells available to tab `i` of `n`: one cell is kept for the right
/// chevron while more tabs follow.
pub open spec fn budget_for(i: int, n: int, avail: int) -> int {
    if i + 1 < n {
        if avail >= 1 {
            avail - 1
        } else {
            0
        }
    } else {
        avail
    }
}

/// Scanning from tab `i`, the first tab that no longer fits after the
/// tabs from `start` (with `l` cells of left chevron); `n` when all do.
pub open spec fn first_overflow(ws: Seq<usize>, start: int, avail: int, l: int, i: int) -> int
    decreases ws.len() - i,
{
    if i >= ws.len() {
        ws.len() as int
    } else if !fits(ws, start, i + 1, l, budget_for(i, ws.len() as int, avail)) {
        i
    } else {
        first_overflow(ws, start, avail, l, i + 1)
    }
}

/// The strip's layout for tab widths `ws`, the selected tab and `avail`
/// cells: the first tab drawn and whether the left and right chevrons are
/// drawn. Without scrolling (everything fits, or no tabs) it is
/// `(0, false, false)`. Otherwise the start is the smallest one at which
/// the selected tab (clamped to the last) is fully visible, and the right
/// chevron shows when tabs remain after the last one that fits.
pub open spec fn strip_layout(ws: Seq<usize>, selected: int, avail: int) -> (int, bool, bool) {
    let n = ws.len() as int;
    if n == 0 || span(ws, 0, n) <= avail {
        (0, false, false)
    } else {
        let sel = if selected < n - 1 {
            selected
        } else {
            n - 1
        };
        let start = first_fit(ws, sel, avail, 0);
        let left = start > 0;
        let stop = first_overflow(
            ws,
            start,
            avail,
            if left {
                1
            } else {
                0
            },
            start,
        );
        let last = if stop == start {
            start
        } else {
            stop - 1
        };
        (start, left, last + 1 < n)
    }
}

/// First cell of tab `i` when drawing from `start` after `l` cells.
pub open spec fn tab_pos(ws: Seq<usize>, start: int, l: int, i: int) -> int {
    l + span(ws, start, i) + if i > start {
        GAP as int
    } else {
        0
    }
}

/// Scanning the drawn tabs from `i`, the one whose cells hold column `rel`
/// (tabs are drawn while they fit in `avail` next to `rr` cells for the
/// right chevron).
pub open spec fn tab_at(
    ws: Seq<usize>,
    start: int,
    l: int,
    rr: int,
    avail: int,
    rel: int,
    i: int,
) -> Option<usize>
    decreases ws.len() - i,
{
    if i >= ws.len() || i < start || !fits(ws, start, i + 1, l + rr, avail) {
        None
    } else if tab_pos(ws, start, l, i) <= rel < tab_pos(ws, start, l, i) + ws[i] {
        Some(i as usize)
    } else {
        tab_at(ws, start, l, rr, avail, rel, i + 1)
    }
}

/// What a click at column `x` hits on a strip over `area`: the left
/// chevron in its cell, a drawn tab, the right chevron in the strip's last
/// cell, or nothing.
pub open spec fn strip_hit(ws: Seq<usize>, selected: int, area: Rect, x: int) -> Option<HitResult> {
    if x < area.x {
        None
    } else {
        let rel = x - area.x;
        let avail = area.width as int;
        let (start, left, right) = strip_layout(ws, selected, avail);
        let l = if left {
            1int
        } else {
            0
        };
        let rr = if right {
            1int
        } else {
            0
        };
        if left && rel == 0 {
            Some(HitResult::PrevChevron)
        } else {
            match tab_at(ws, start, l, rr, avail, rel, start) {
                Some(i) => Some(HitResult::Tab(i)),
                None => if right && rel == (if avail >= 1 {
                    avail - 1
                } else {
                    0
                }) {
                    Some(HitResult::NextChevron)
                } else {
                    None
                },
            }
        }
    }
}

/// Adding a tab never shrinks the span.
proof fn lemma_span_grows(ws: Seq<usize>, s: int, e: int)
    requires
        s <= e,
    ensures
        span(ws, s, e) <= span(ws, s, e + 1),
        span(ws, s, e + 1) == span(ws, s, e) + ws[e] + if e > s {
            GAP as int
        } else {
            0
        },
{
}

/// Cell width of one tab label as drawn (`label` width plus two padding
/// cells).
fn tab_cells(label: &str) -> (r: usize)
    ensures
        r == cells_of(label@),
{
    width(label).saturating_add(2)
}

/// Whether `extra` cells and tabs `s..e` fit in `budget`.
fn fits_span(ws: &Vec<usize>, s: usize, e: usize, extra: usize, budget: usize) -> (b: bool)
    requires
        s <= e <= ws@.len(),
    ensures
        b == fits(ws@, s as int, e as int, extra as int, budget as int),
{
    if extra > budget {
        proof {
            lemma_span_nonneg(ws@, s as int, e as int);
        }
        return false;
    }
    let mut used: usize = extra;
    let mut i: usize = s;
    while i < e
        invariant
            s <= i <= e <= ws@.len(),
            used == extra + span(ws@, s as int, i as int),
            used <= budget,
        decreases e - i,
    {
        let gap: usize = if i > s {
            GAP
        } else {
            0
        };
        proof {
            lemma_span_grows(ws@, s as int, i as int);
        }
        if ws[i] > budget - used || gap > budget - used - ws[i] {
            proof {
                lemma_span_mono(ws@, s as int, i + 1, e as int);
            }
            return false;
        }
        used = used + gap + ws[i];
        i = i + 1;
    }
    true
}

/// Spans are never negative.
proof fn lemma_span_nonneg(ws: Seq<usize>, s: int, e: int)
    ensures
        span(ws, s, e) >= 0,
    decreases e - s,
{
    if e > s + 1 {
        lemma_span_nonneg(ws, s, e - 1);
    }
}

/// The span grows with its end.
proof fn lemma_span_mono(ws: Seq<usize>, s: int, e1: int, e2: int)
    requires
        s <= e1 <= e2,
    ensures
        span(ws, s, e1) <= span(ws, s, e2),
    decreases e2 - e1,
{
    if e1 < e2 {
        lemma_span_mono(ws, s, e1, e2 - 1);
        lemma_span_grows(ws, s, e2 - 1);
    }
}

/// Computes the index of the first tab to draw and whether the left and
/// right scroll chevrons are drawn, for tab widths `ws`, the selected index
/// and `avail` cells.
pub fn layout(ws: &Vec<usize>, selected: usize, avail: usize) -> (r: (usize, bool, bool))
    ensures
        (r.0 as int, r.1, r.2) == strip_layout(ws@, selected as int, avail as int),
        r.0 < ws@.len() || r.0 == 0,
{
    let n = ws.len();
    if n == 0 || fits_span(ws, 0, n, 0, avail) {
        return (0, false, false);
    }
    let sel = if selected < n - 1 {
        selected
    } else {
        n - 1
    };
    let start = find_start(ws, sel, avail);
    let left = start > 0;
    let l: usize = if left {
        1
    } else {
        0
    };
    let i = find_stop(ws, start, avail, l);
    let last = if i == start {
        start
    } else {
        i - 1
    };
    (start, left, last + 1 < n)
}

/// The drawn width of each label.
fn widths(items: &[String]) -> (ws: Vec<usize>)
    ensures
        ws@ == widths_of(items@),
{
    let mut ws: Vec<usize> = Vec::new();
    let mut i: usize = 0;
    while i < items.len()
        invariant
            i <= items@.len(),
            ws@ == items@.take(i as int).map_values(|s: String| cells_of(s@)),
        decreases items@.len() - i,
    {
        ws.push(tab_cells(items[i].as_str()));
        i = i + 1;
        assert(ws@ =~= items@.take(i as int).map_values(|s: String| cells_of(s@)));
    }
    assert(items@.take(items@.len() as int) =~= items@);
    ws
}

/// The smallest start at which the selected tab `sel` fits with its
/// chevrons (`sel` when none does).
fn find_start(ws: &Vec<usize>, sel: usize, avail: usize) -> (s: usize)
    requires
        sel < ws@.len(),
    ensures
        s == first_fit(ws@, sel as int, avail as int, 0),
        s <= sel,
{
    let n = ws.len();
    let mut start: usize = 0;
    while start < sel
        invariant
            0 <= start <= sel < n == ws@.len(),
            first_fit(ws@, sel as int, avail as int, 0) == first_fit(
                ws@,
                sel as int,
                avail as int,
                start as int,
            ),
        decreases sel - start,
    {
        let extra: usize = (if start > 0 {
            1usize
        } else {
            0
        }) + (if sel + 1 < n {
            1usize
        } else {
            0
        });
        if fits_span(ws, start, sel + 1, extra, avail) {
            return start;
        }
        start = start + 1;
    }
    start
}

/// The first tab from `start` on that no longer fits (`n` when all do).
fn find_stop(ws: &Vec<usize>, start: usize, avail: usize, l: usize) -> (i: usize)
    requires
        start <= ws@.len(),
    ensures
        i == first_overflow(ws@, start as int, avail as int, l as int, start as int),
        start <= i <= ws@.len(),
{
    let n = ws.len();
    let mut i: usize = start;
    while i < n
        invariant
            start <= i <= n == ws@.len(),
            first_overflow(ws@, start as int, avail as int, l as int, start as int)
                == first_overflow(ws@, start as int, avail as int, l as int, i as int),
        decreases n - i,
    {
        let budget = if i + 1 < n {
            avail.saturating_sub(1)
        } else {
            avail
        };
        if !fits_span(ws, start, i + 1, l, budget) {
            return i;
        }
        i = i + 1;
    }
    i
}

/// The drawn tab whose cells hold column `rel`, scanning from `start`.
fn scan_tabs(ws: &Vec<usize>, start: usize, l: usize, rr: usize, avail: usize, rel: usize) -> (r:
    Option<usize>)
    requires
        start <= ws@.len(),
        l <= 1,
        rr <= 1,
    ensures
        r == tab_at(ws@, start as int, l as int, rr as int, avail as int, rel as int, start as int),
{
    let n = ws.len();
    let mut cur: usize = l;
    let mut i: usize = start;
    while i < n
        invariant
            start <= i <= n == ws@.len(),
            l <= 1,
            rr <= 1,
            i == start || l + rr + span(ws@, start as int, i as int) <= avail,
            cur == l + span(ws@, start as int, i as int),
            tab_at(ws@, start as int, l as int, rr as int, avail as int, rel as int, start as int)
                == tab_at(ws@, start as int, l as int, rr as int, avail as int, rel as int, i as int),
        decreases n - i,
    {
        if !fits_span(ws, start, i + 1, l + rr, avail) {
            return None;
        }
        proof {
            lemma_span_grows(ws@, start as int, i as int);
        }
        let gap: usize = if i > start {
            GAP
        } else {
            0
        };
        let pos = cur + gap;
        if rel >= pos && rel < pos + ws[i] {
            return Some(i);
        }
        cur = pos + ws[i];
        i = i + 1;
    }
    None
}

impl<'a> Tabs<'a> {
    /// Returns the hit-test result for a click at column `x` on a strip
    /// drawn over `area`.
    pub fn hit(&self, area: Rect, x: u16) -> (r: Option<HitResult>)
        ensures
            r == strip_hit(widths_of(self.items@), self.selected as int, area, x as int),
    {
        if x < area.x {
            return None;
        }
        let ws = widths(self.items);
        let rel = (x - area.x) as usize;
        let avail = area.width as usize;
        let (start, left, right) = layout(&ws, self.selected, avail);
        if left && rel == 0 {
            return Some(HitResult::PrevChevron);
        }
        let l: usize = if left {
            1
        } else {
            0
        };
        let rr: usize = if right {
            1
        } else {
            0
        };
        let found = scan_tabs(&ws, start, l, rr, avail, rel);
        match found {
            Some(t) => Some(HitResult::Tab(t)),
            None => {
                if right && rel == avail.saturating_sub(1) {
                    Some(HitResult::NextChevron)
                } else {
                    None
                }
            },
        }
    }
}

} // verus!
