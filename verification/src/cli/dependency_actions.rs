//! Commands on the dependencies of the theme in use.

use vstd::prelude::*;

verus! {

#[derive(Debug, Clone, PartialEq, Eq)]
pub enum DependencyActions {
    Remove { dependency_name: String },
    /// Add the dependency, for one config where one is named.
    Add { dependency_name: String, config_name: Option<String> },
    /// List the dependencies of the config.
    List { config_name: String },
}

} // verus!
