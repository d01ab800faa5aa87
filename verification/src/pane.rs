//! Pane identity and the per-pane record kept in the layout tree.

use vstd::prelude::*;

verus! {

/// Unique identifier for a pane.
#[derive(Debug, Clone, Copy, PartialEq, Eq, Hash, Structural)]
pub struct PaneId(pub u64);

/// A single terminal pane as seen by the layout tree.
///
/// `session` carries whatever the host attaches to a pane (terminal state,
/// PTY channel, AI engines); the tree never looks inside it.
#[derive(Debug)]
pub struct Pane<S> {
    /// Unique identifier.
    pub id: PaneId,
    /// Tab title derived from this pane.
    pub title: String,
    /// Host-side state of the pane.
    pub session: S,
}

} // verus!
