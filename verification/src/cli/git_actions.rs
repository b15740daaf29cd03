//! Commands on the repository of a theme.

use vstd::prelude::*;

verus! {

#[derive(Debug, Clone, PartialEq, Eq)]
pub enum GitActions {
    SetUrl { url: String },
    InstallTheme { url: String },
    Push { commit_message: Option<String> },
    Pull,
}

} // verus!
