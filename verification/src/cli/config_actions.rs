//! Commands on the configs of the theme in use.

use vstd::prelude::*;

verus! {

#[derive(Debug, Clone, PartialEq, Eq)]
pub enum ConfigActions {
    /// Give the config back: its content returns to its place outside.
    Remove { config_name: String },
    /// Take the file into the theme and leave a link in its place.
    Add { config_name: String, file: String, device_name: Option<String> },
    /// List the configs, of one device where one is named.
    List { device_name: Option<String> },
}

} // verus!
