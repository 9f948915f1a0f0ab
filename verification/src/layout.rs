//! Splitting a rectangle into rows or columns.

use crate::geom::Rect;
use vstd::prelude::*;

verus! {

/// One size rule of a split.
#[derive(Clone, Copy, Debug, PartialEq, Eq, Structural)]
pub enum Constraint {
    /// Exactly this many cells.
    Length(u16),
    /// At least this many cells.
    Min(u16),
}

/// Whether `p` is a piece that a split of `area` can produce: it spans the
/// whole area across the split direction and stays inside it along it.
pub open spec fn piece_of(p: Rect, area: Rect, vertical: bool) -> bool {
    if vertical {
        p.x == area.x && p.width == area.width && area.y <= p.y && p.y + p.height <= area.y
            + area.height
    } else {
        p.y == area.y && p.height == area.height && area.x <= p.x && p.x + p.width <= area.x
            + area.width
    }
}

/// Whether `r` is a split of `area` into `n` pieces (see [`piece_of`]).
pub open spec fn split_of(r: Seq<Rect>, area: Rect, vertical: bool, n: nat) -> bool {
    r.len() == n && forall|i: int| 0 <= i < r.len() ==> piece_of(#[trigger] r[i], area, vertical)
}

/// Where `r` starts along the split direction.
pub open spec fn start_along(r: Rect, vertical: bool) -> int {
    if vertical {
        r.y as int
    } else {
        r.x as int
    }
}

/// How long `r` is along the split direction.
pub open spec fn size_along(r: Rect, vertical: bool) -> int {
    if vertical {
        r.height as int
    } else {
        r.width as int
    }
}

/// Cells the rules ask for at least: each `Length` and each `Min` value.
pub open spec fn asked(cs: Seq<Constraint>) -> int
    decreases cs.len(),
{
    if cs.len() == 0 {
        0
    } else {
        asked(cs.drop_last()) + match cs.last() {
            Constraint::Length(n) => n as int,
            Constraint::Min(n) => n as int,
        }
    }
}

/// Cells the `Length` rules take.
pub open spec fn fixed(cs: Seq<Constraint>) -> int
    decreases cs.len(),
{
    if cs.len() == 0 {
        0
    } else {
        fixed(cs.drop_last()) + match cs.last() {
            Constraint::Length(n) => n as int,
            Constraint::Min(_) => 0,
        }
    }
}

/// How many `Min` rules there are.
pub open spec fn mins(cs: Seq<Constraint>) -> int
    decreases cs.len(),
{
    if cs.len() == 0 {
        0
    } else {
        mins(cs.drop_last()) + if cs.last() is Min {
            1int
        } else {
            0
        }
    }
}

/// The size a rule gets when all the rules fit in `size` cells and there
/// is one `Min` rule: a `Length` its length, the `Min` the rest.
pub open spec fn rule_size(c: Constraint, cs: Seq<Constraint>, size: int) -> int {
    match c {
        Constraint::Length(n) => n as int,
        Constraint::Min(_) => size - fixed(cs),
    }
}

/// Whether `r` is how `area` is split under the rules `cs` (top to bottom
/// when `vertical`, else left to right): one piece per rule, each spanning
/// the area across the split direction, laid end to end from the area's
/// start in the rules' order and inside the area; and, when there is one
/// `Min` rule and every rule fits, each piece exactly its rule's size (see
/// [`rule_size`]).
pub open spec fn laid_out(r: Seq<Rect>, area: Rect, vertical: bool, cs: Seq<Constraint>) -> bool {
    &&& split_of(r, area, vertical, cs.len())
    &&& (r.len() > 0 ==> start_along(r[0], vertical) == start_along(area, vertical))
    &&& forall|i: int|
        0 <= i < r.len() - 1 ==> start_along(#[trigger] r[i + 1], vertical) == start_along(
            r[i],
            vertical,
        ) + size_along(r[i], vertical)
    &&& (mins(cs) == 1 && asked(cs) <= size_along(area, vertical) ==> forall|i: int|
        0 <= i < r.len() ==> size_along(#[trigger] r[i], vertical) == rule_size(
            cs[i],
            cs,
            size_along(area, vertical),
        ))
}

/// Splits `area` with ratatui's `Layout::split` (direction, then the
/// constraints in order; default flex `Start`, no spacing, no margin).
/// Trusted, as ratatui 0.29's `try_split` shows:
/// - one piece per constraint; each copies the area across the split
///   direction (`changes_to_rects`) and lies inside it along it (every
///   variable is bound by the area's ends as a required constraint, and a
///   segment's start is required not to pass its end);
/// - the pieces lie end to end from the area's start in the constraints'
///   order: the first spacer is held empty (strength just below required)
///   and the spacers between segments at size 0 (`SPACER_SIZE_EQ`, stronger
///   than every size rule), and no overlap or gap can lower the solver's
///   objective, since each cell of overlap costs more than the `Length`
///   error it could save;
/// - when there is one `Min` rule and all rules fit, each `Length` piece
///   has its length and the `Min` piece the rest: every rule is then met at
///   no cost, and the `Min` segment's growth (`FILL_GROW`) outweighs the
///   last spacer's (`GROW`) and the equal-size preference
///   (`ALL_SEGMENT_GROW`), so the rest goes to it (ratatui's own example:
///   `Length(5), Min(0)` over 10 cells gives 5 and 5).
/// Where the rules cannot all be met, which answer the solver picks is not
/// stated: several are then optimal, and the solver walks hash maps seeded
/// anew in each process. The solver's own failure case (an internal
/// constraint error it turns into a panic) is not characterised.
#[verifier::external_body]
pub(crate) fn split(area: Rect, vertical: bool, cs: &Vec<Constraint>) -> (r: Vec<Rect>)
    requires
        area.x + area.width <= u16::MAX,
        area.y + area.height <= u16::MAX,
    ensures
        laid_out(r@, area, vertical, cs@),
{
    let dir = if vertical { ratatui::layout::Direction::Vertical } else { ratatui::layout::Direction::Horizontal };
    let rc: Vec<ratatui::layout::Constraint> = cs.iter().map(|c| match c {
        Constraint::Length(n) => ratatui::layout::Constraint::Length(*n),
        Constraint::Min(n) => ratatui::layout::Constraint::Min(*n),
    }).collect();
    let a = ratatui::layout::Rect { x: area.x, y: area.y, width: area.width, height: area.height };
    let parts = ratatui::layout::Layout::default().direction(dir).constraints(rc).split(a);
    parts.iter().map(|p| Rect { x: p.x, y: p.y, width: p.width, height: p.height }).collect()
}

} // verus!
