//! Focusable button with a click-then-fire-on-next-frame pipeline.

use crate::geom::{Mouse, MouseKind, Rect};
use vstd::prelude::*;

verus! {

/// Semantic flavour of a button; drives the text colour.
#[derive(Clone, Copy, Debug, PartialEq, Eq, Structural)]
pub enum ButtonKind {
    /// Plain button styled with the base foreground colour.
    Default,
    /// Primary action styled with the accent colour.
    Primary,
    /// Destructive action styled with the danger colour.
    Danger,
}

impl Default for ButtonKind {
    fn default() -> (k: Self)
        ensures
            k == ButtonKind::Default,
    {
        ButtonKind::Default
    }
}

/// Stateful button widget.
///
/// A click arms the button; the first `poll_fire` afterwards only lets the
/// highlight frame render, and the second one reports the press.
pub struct Button {
    /// Visual flavour.
    pub kind: ButtonKind,
    /// `None` is idle; `Some(false)` means a click just landed; `Some(true)`
    /// means the highlight frame has been drawn and the next poll fires.
    pending: Option<bool>,
}

impl View for Button {
    /// The flavour and the deferred-fire state: `None` idle, `Some(false)`
    /// just clicked, `Some(true)` about to fire.
    type V = (ButtonKind, Option<bool>);

    closed spec fn view(&self) -> (ButtonKind, Option<bool>) {
        (self.kind, self.pending)
    }
}

/// The deferred-fire state after one poll: a fresh click becomes ready,
/// anything else goes idle.
pub open spec fn poll_next(p: Option<bool>) -> Option<bool> {
    match p {
        Some(false) => Some(true),
        _ => None,
    }
}

impl Button {
    /// Returns whether `m` is a left-click that landed inside `area`.
    pub fn hit(area: Rect, m: Mouse) -> (b: bool)
        ensures
            b == (m.kind == MouseKind::LeftDown && area.holds(m.column as int, m.row as int)),
    {
        m.kind == MouseKind::LeftDown && area.contains(m.column, m.row)
    }

    /// The deferred-fire state: `None` idle, `Some(false)` just clicked,
    /// `Some(true)` about to fire.
    pub open spec fn pending_state(&self) -> Option<bool> {
        self@.1
    }

    /// Constructs an idle button of the given visual flavour.
    pub fn new(kind: ButtonKind) -> (b: Self)
        ensures
            b@.0 == kind,
            b.pending_state() is None,
    {
        Self { kind, pending: None }
    }

    /// Arms the deferred-fire pipeline after a mouse click.
    pub fn click(&mut self)
        ensures
            final(self)@.0 == old(self)@.0,
            final(self).pending_state() == Some(false),
    {
        self.pending = Some(false);
    }

    /// Polls the deferred-fire pipeline once per tick. Returns `true`
    /// exactly once, on the second poll after `click()`.
    pub fn poll_fire(&mut self) -> (fired: bool)
        ensures
            final(self)@.0 == old(self)@.0,
            fired == (old(self).pending_state() == Some(true)),
            final(self).pending_state() == poll_next(old(self).pending_state()),
    {
        match self.pending {
            None => false,
            Some(false) => {
                self.pending = Some(true);
                false
            },
            Some(true) => {
                self.pending = None;
                true
            },
        }
    }
}

/// A click fires on the second poll after it, exactly once: the polls
/// return `false`, `true`, then `false` again with the button idle.
pub proof fn lemma_click_fires_once(b0: Button, b1: Button, b2: Button, b3: Button)
    requires
        b0.pending_state() == Some(false),
        b1.pending_state() == poll_next(b0.pending_state()),
        b2.pending_state() == poll_next(b1.pending_state()),
        b3.pending_state() == poll_next(b2.pending_state()),
    ensures
        b0.pending_state() != Some(true),
        b1.pending_state() == Some(true),
        b2.pending_state() != Some(true),
        b3.pending_state() is None,
{
}

} // verus!
