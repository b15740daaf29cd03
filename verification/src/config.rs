//! The configs of a theme: files taken into the theme's storage, each with
//! the place outside where it belongs.

use vstd::prelude::*;
use crate::dependency::{dependency_names, Dependency};

pub mod add;
pub mod laws;
pub mod list;
pub mod remove;

verus! {

/// One file, or directory, that a theme manages.
///
/// `conf_location` is where the theme keeps the content, `symlink` is the
/// place outside the storage where the content is expected. `active` says
/// that the outside place is filled from the theme at present.
#[derive(Debug, Clone, PartialEq, Eq)]
pub struct Config {
    pub name: String,
    pub dependencies: Vec<Dependency>,
    pub symlink: String,
    pub conf_location: String,
    pub active: bool,
}

/// What a config holds, as plain values.
pub struct ConfigView {
    pub name: Seq<char>,
    pub dependencies: Seq<Seq<char>>,
    pub symlink: Seq<char>,
    pub conf_location: Seq<char>,
    pub active: bool,
}

impl View for Config {
    type V = ConfigView;

    open spec fn view(&self) -> ConfigView {
        ConfigView {
            name: self.name@,
            dependencies: dependency_names(self.dependencies@),
            symlink: self.symlink@,
            conf_location: self.conf_location@,
            active: self.active,
        }
    }
}

/// The config ledger of one theme: the configs that hold on every device,
/// and the configs that hold on one device, each with the name of that
/// device.
#[derive(Debug, Clone, PartialEq, Eq)]
pub struct ConfigFile {
    pub globals: Vec<Config>,
    pub device_bounds: Vec<(String, Config)>,
}

/// What a config ledger holds, as plain values.
pub struct ConfigFileView {
    pub globals: Seq<ConfigView>,
    pub device_bounds: Seq<(Seq<char>, ConfigView)>,
}

/// The views of a list of configs, in order.
pub open spec fn config_views(configs: Seq<Config>) -> Seq<ConfigView> {
    Seq::new(configs.len(), |i: int| configs[i]@)
}

/// The views of a list of device-bound configs, in order.
pub open spec fn bound_config_views(bounds: Seq<(String, Config)>) -> Seq<(Seq<char>, ConfigView)> {
    Seq::new(bounds.len(), |i: int| (bounds[i].0@, bounds[i].1@))
}

impl View for ConfigFile {
    type V = ConfigFileView;

    open spec fn view(&self) -> ConfigFileView {
        ConfigFileView {
            globals: config_views(self.globals@),
            device_bounds: bound_config_views(self.device_bounds@),
        }
    }
}

impl ConfigFileView {
    /// The configs bound to any device, in order, without their devices.
    pub open spec fn bound_entries(self) -> Seq<ConfigView> {
        Seq::new(self.device_bounds.len(), |i: int| self.device_bounds[i].1)
    }

    /// Every config of the ledger: the global ones, then the bound ones.
    pub open spec fn entries(self) -> Seq<ConfigView> {
        self.globals + self.bound_entries()
    }

    /// Whether some config of the ledger, global or bound, has this name.
    pub open spec fn names(self, name: Seq<char>) -> bool {
        exists|i: int| 0 <= i < self.entries().len() && #[trigger] self.entries()[i].name == name
    }

    /// Whether some config of the ledger keeps its content at this path.
    pub open spec fn keeps(self, path: Seq<char>) -> bool {
        exists|i: int|
            0 <= i < self.entries().len() && #[trigger] self.entries()[i].conf_location == path
    }

    /// The validity of a ledger: no two configs share a name.
    pub open spec fn well_formed(self) -> bool {
        forall|i: int, j: int|
            0 <= i < j < self.entries().len() ==> #[trigger] self.entries()[i].name
                != #[trigger] self.entries()[j].name
    }
}

impl Default for ConfigFile {
    /// The ledger of a new theme, which holds no config.
    fn default() -> (ledger: ConfigFile)
        ensures
            ledger@.globals.len() == 0,
            ledger@.device_bounds.len() == 0,
            ledger@.well_formed(),
    {
        ConfigFile { globals: Vec::new(), device_bounds: Vec::new() }
    }
}

impl Dependency {
    /// A copy of this dependency.
    pub fn duplicate(&self) -> (copy: Dependency)
        ensures
            copy@ == self@,
    {
        Dependency(self.0.clone())
    }
}

impl Config {
    /// A copy of this config.
    pub fn duplicate(&self) -> (copy: Config)
        ensures
            copy@ == self@,
    {
        let mut dependencies: Vec<Dependency> = Vec::new();
        let mut i: usize = 0;
        while i < self.dependencies.len()
            invariant
                i <= self.dependencies.len(),
                dependencies.len() == i,
                forall|j: int| 0 <= j < i ==> dependencies[j]@ == self.dependencies[j]@,
            decreases self.dependencies.len() - i,
        {
            dependencies.push(self.dependencies[i].duplicate());
            i += 1;
        }
        assert(dependency_names(dependencies@) =~= dependency_names(self.dependencies@));
        Config {
            name: self.name.clone(),
            dependencies,
            symlink: self.symlink.clone(),
            conf_location: self.conf_location.clone(),
            active: self.active,
        }
    }
}

} // verus!
