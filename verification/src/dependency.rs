//! Packages that a theme, or one config of a theme, needs installed.

use vstd::prelude::*;

pub mod add;
pub mod install;
pub mod laws;
pub mod list;
pub mod remove;
pub mod search;

verus! {

/// A package, known by the name under which the package manager offers it.
#[derive(Debug, Clone, PartialEq, Eq)]
pub struct Dependency(pub String);

impl View for Dependency {
    type V = Seq<char>;

    open spec fn view(&self) -> Seq<char> {
        self.0@
    }
}

/// The dependency ledger of one theme: the packages that the theme needs
/// whatever is used of it, and the packages that one config needs, each with
/// the name of that config.
#[derive(Debug, Clone, PartialEq, Eq)]
pub struct DependencyFile {
    pub globals: Vec<Dependency>,
    pub config_bounds: Vec<(String, Dependency)>,
}

/// What a dependency ledger holds: package names, and pairs of a config name
/// and a package name.
pub struct DependencyFileView {
    pub globals: Seq<Seq<char>>,
    pub config_bounds: Seq<(Seq<char>, Seq<char>)>,
}

/// The names of a list of dependencies, in order.
pub open spec fn dependency_names(deps: Seq<Dependency>) -> Seq<Seq<char>> {
    Seq::new(deps.len(), |i: int| deps[i]@)
}

/// The bindings of a list of bound dependencies, in order.
pub open spec fn binding_views(bounds: Seq<(String, Dependency)>) -> Seq<(Seq<char>, Seq<char>)> {
    Seq::new(bounds.len(), |i: int| (bounds[i].0@, bounds[i].1@))
}

impl View for DependencyFile {
    type V = DependencyFileView;

    open spec fn view(&self) -> DependencyFileView {
        DependencyFileView {
            globals: dependency_names(self.globals@),
            config_bounds: binding_views(self.config_bounds@),
        }
    }
}

impl DependencyFileView {
    /// The package names bound to any config, in order.
    pub open spec fn bound_names(self) -> Seq<Seq<char>> {
        Seq::new(self.config_bounds.len(), |i: int| self.config_bounds[i].1)
    }

    /// Every package name of the ledger: the bound ones, then the global ones.
    pub open spec fn all_names(self) -> Seq<Seq<char>> {
        self.bound_names() + self.globals
    }

    /// Whether the ledger names the package, globally or for a config.
    pub open spec fn holds(self, name: Seq<char>) -> bool {
        self.all_names().contains(name)
    }

    /// The validity of a ledger: no package is named twice.
    pub open spec fn well_formed(self) -> bool {
        self.all_names().no_duplicates()
    }

    /// A ledger names a package exactly if it does so for a config or
    /// globally.
    pub proof fn lemma_holds(self, name: Seq<char>)
        ensures
            self.holds(name) == (self.bound_names().contains(name) || self.globals.contains(
                name,
            )),
    {
        let bound = self.bound_names();
        let all = self.all_names();
        if bound.contains(name) {
            let i = choose|i: int| 0 <= i < bound.len() && bound[i] == name;
            assert(all[i] == name);
        }
        if self.globals.contains(name) {
            let j = choose|j: int| 0 <= j < self.globals.len() && self.globals[j] == name;
            assert(all[bound.len() + j] == name);
        }
        if all.contains(name) {
            let k = choose|k: int| 0 <= k < all.len() && all[k] == name;
            if k < bound.len() {
                assert(bound[k] == name);
            } else {
                assert(self.globals[k - bound.len()] == name);
            }
        }
    }
}

impl Default for DependencyFile {
    /// The ledger of a new theme, which names no package.
    fn default() -> (ledger: DependencyFile)
        ensures
            ledger@.globals.len() == 0,
            ledger@.config_bounds.len() == 0,
            ledger@.well_formed(),
    {
        DependencyFile { globals: Vec::new(), config_bounds: Vec::new() }
    }
}

impl DependencyFile {
    /// Whether a global dependency has this name.
    pub fn names_global(&self, name: &String) -> (found: bool)
        ensures
            found == self@.globals.contains(name@),
    {
        let mut i: usize = 0;
        while i < self.globals.len()
            invariant
                i <= self.globals.len(),
                forall|j: int| 0 <= j < i ==> self@.globals[j] != name@,
            decreases self.globals.len() - i,
        {
            if self.globals[i].0 == *name {
                assert(self@.globals[i as int] == name@);
                return true;
            }
            i += 1;
        }
        false
    }

    /// Whether a dependency bound to some config has this name.
    pub fn names_bound(&self, name: &String) -> (found: bool)
        ensures
            found == self@.bound_names().contains(name@),
    {
        let mut i: usize = 0;
        while i < self.config_bounds.len()
            invariant
                i <= self.config_bounds.len(),
                forall|j: int| 0 <= j < i ==> self@.bound_names()[j] != name@,
            decreases self.config_bounds.len() - i,
        {
            if self.config_bounds[i].1.0 == *name {
                assert(self@.bound_names()[i as int] == name@);
                return true;
            }
            i += 1;
        }
        false
    }
}

} // verus!
