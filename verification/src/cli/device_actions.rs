//! Commands on the devices of the theme in use.

use vstd::prelude::*;

verus! {

#[derive(Debug, Clone, PartialEq, Eq)]
pub enum DeviceActions {
    Remove { name: String },
    Use { name: String },
    List,
}

} // verus!
