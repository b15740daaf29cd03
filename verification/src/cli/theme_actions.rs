//! Commands on themes.

use vstd::prelude::*;

verus! {

#[derive(Debug, Clone, PartialEq, Eq)]
pub enum ThemeActions {
    Remove { name: String },
    /// Create the theme, as a copy of `base` where one is named.
    Create { name: String, base: Option<String> },
    /// Put the theme to use: fill the places outside with its configs.
    Use { name: String, force: bool, device: Option<String> },
    List,
}

} // verus!
