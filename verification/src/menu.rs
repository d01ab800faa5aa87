//! Actions of the native menu bar.

use vstd::prelude::*;

verus! {

/// Actions that can be triggered from the macOS native menu bar.
#[derive(Debug, Clone, Copy, PartialEq, Eq, Structural)]
pub enum MenuAction {
    /// User chose "New Tab" from the menu.
    NewTab,
    /// User chose "Close Tab" from the menu.
    CloseTab,
    /// User chose "About Minal" from the menu.
    About,
}

} // verus!
