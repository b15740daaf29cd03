//! Removing a package from a dependency ledger.

use vstd::prelude::*;
use crate::dependency::{DependencyFile, DependencyFileView};
use crate::error::ConfigCliError;

verus! {

/// Whether `i` is the place of the first occurrence of `name` in `names`.
pub open spec fn is_first_occurrence(names: Seq<Seq<char>>, name: Seq<char>, i: int) -> bool {
    &&& 0 <= i < names.len()
    &&& names[i] == name
    &&& forall|j: int| 0 <= j < i ==> names[j] != name
}

/// The place of the first occurrence of `name` in `names`.
pub open spec fn first_occurrence(names: Seq<Seq<char>>, name: Seq<char>) -> int {
    choose|i: int| is_first_occurrence(names, name, i)
}

/// A first occurrence is the only one.
pub proof fn lemma_first_occurrence(names: Seq<Seq<char>>, name: Seq<char>, i: int)
    requires
        is_first_occurrence(names, name, i),
    ensures
        first_occurrence(names, name) == i,
{
    let k = first_occurrence(names, name);
    assert(is_first_occurrence(names, name, k));
    if k < i {
        assert(names[k] != name);
    }
    if i < k {
        assert(names[i] != name);
    }
}

/// The ledger after `name` has been removed: without its first binding to a
/// config where there is one, else without its first global entry.
pub open spec fn without_dependency(ledger: DependencyFileView, name: Seq<char>)
    -> DependencyFileView {
    if ledger.bound_names().contains(name) {
        DependencyFileView {
            globals: ledger.globals,
            config_bounds: ledger.config_bounds.remove(
                first_occurrence(ledger.bound_names(), name),
            ),
        }
    } else {
        DependencyFileView {
            globals: ledger.globals.remove(first_occurrence(ledger.globals, name)),
            config_bounds: ledger.config_bounds,
        }
    }
}

/// Removes the package `dependency` from the ledger.
///
/// The entries bound to configs are searched first, then the global ones,
/// and the first entry found leaves the ledger; a package that the ledger
/// does not name is refused with `NotFound`.
pub fn remove_dependency(ledger: DependencyFile, dependency: String) -> (result: Result<
    DependencyFile,
    ConfigCliError,
>)
    ensures
        !ledger@.holds(dependency@) ==> result == Err::<DependencyFile, ConfigCliError>(
            ConfigCliError::NotFound(dependency),
        ),
        ledger@.holds(dependency@) ==> result is Ok && result->Ok_0@ == without_dependency(
            ledger@,
            dependency@,
        ),
{
    let ghost before = ledger@;
    let mut current = ledger;
    let mut i: usize = 0;
    while i < current.config_bounds.len()
        invariant
            i <= current.config_bounds.len(),
            current@ == before,
            ledger@ == before,
            forall|j: int| 0 <= j < i ==> before.bound_names()[j] != dependency@,
        decreases current.config_bounds.len() - i,
    {
        if current.config_bounds[i].1.0 == dependency {
            proof {
                before.lemma_holds(dependency@);
                assert(before.bound_names()[i as int] == dependency@);
                lemma_first_occurrence(before.bound_names(), dependency@, i as int);
            }
            current.config_bounds.remove(i);
            assert(current@.config_bounds =~= before.config_bounds.remove(i as int));
            assert(current@.globals =~= before.globals);
            return Ok(current);
        }
        i += 1;
    }
    let mut k: usize = 0;
    while k < current.globals.len()
        invariant
            k <= current.globals.len(),
            current@ == before,
            ledger@ == before,
            !before.bound_names().contains(dependency@),
            forall|j: int| 0 <= j < k ==> before.globals[j] != dependency@,
        decreases current.globals.len() - k,
    {
        if current.globals[k].0 == dependency {
            proof {
                before.lemma_holds(dependency@);
                assert(before.globals[k as int] == dependency@);
                lemma_first_occurrence(before.globals, dependency@, k as int);
            }
            current.globals.remove(k);
            assert(current@.globals =~= before.globals.remove(k as int));
            assert(current@.config_bounds =~= before.config_bounds);
            return Ok(current);
        }
        k += 1;
    }
    proof {
        before.lemma_holds(dependency@);
    }
    Err(ConfigCliError::NotFound(dependency))
}

} // verus!
