//! Layout classes of the responsive toolbar.
use vstd::prelude::*;

verus! {

/// How much room the toolbar has: everything fits, or some items move to the
/// overflow menu.
#[derive(Debug, Clone, Copy, PartialEq, Eq, Structural)]
pub enum ToolbarMode {
    /// All items visible.
    Full,
    /// Some items in the overflow menu.
    Compact,
    /// Most items in the overflow menu.
    Minimal,
}

/// How readily a toolbar item moves to the overflow menu, least readily
/// first.
#[derive(Debug, Clone, Copy, PartialEq, Eq, PartialOrd, Ord, Structural)]
pub enum ItemPriority {
    /// Always visible.
    Essential,
    /// Visible in full and compact toolbars.
    Standard,
    /// Visible in full toolbars only.
    Optional,
}

impl Default for ItemPriority {
    /// Items are standard unless marked otherwise.
    fn default() -> (r: Self)
        ensures
            r == ItemPriority::Standard,
    {
        ItemPriority::Standard
    }
}

} // verus!
