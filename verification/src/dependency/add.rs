//! Adding a package to a dependency ledger.

use vstd::prelude::*;
use crate::dependency::{Dependency, DependencyFile, DependencyFileView};
use crate::error::ConfigCliError;
use crate::utils::optional_text;

verus! {

/// The ledger after `name` has been added: bound to `config` where one is
/// given, global otherwise.
pub open spec fn with_dependency(
    ledger: DependencyFileView,
    config: Option<Seq<char>>,
    name: Seq<char>,
) -> DependencyFileView {
    match config {
        Some(c) => DependencyFileView {
            globals: ledger.globals,
            config_bounds: ledger.config_bounds.push((c, name)),
        },
        None => DependencyFileView {
            globals: ledger.globals.push(name),
            config_bounds: ledger.config_bounds,
        },
    }
}

/// A name that occurs neither in `front` nor in `back` can be put between
/// them without making a name occur twice.
proof fn lemma_insert_fresh(front: Seq<Seq<char>>, back: Seq<Seq<char>>, name: Seq<char>)
    requires
        !(front + back).contains(name),
    ensures
        (front + back).no_duplicates() ==> (front.push(name) + back).no_duplicates(),
        (front.push(name) + back).len() == (front + back).len() + 1,
{
    let old_all = front + back;
    let new_all = front.push(name) + back;
    if old_all.no_duplicates() {
        assert forall|i: int, j: int| 0 <= i < new_all.len() && 0 <= j < new_all.len() && i != j
            implies new_all[i] != new_all[j] by {
            let oi = if i < front.len() { i } else { i - 1 };
            let oj = if j < front.len() { j } else { j - 1 };
            if i != front.len() {
                assert(new_all[i] == old_all[oi]);
            }
            if j != front.len() {
                assert(new_all[j] == old_all[oj]);
            }
        }
    }
}

/// Adds the package `dependency` to the ledger, for the config `config` or,
/// without one, for the whole theme.
///
/// A package that the ledger names already, globally or for any config, is
/// refused with `DuplicateDependency`; otherwise the ledger comes back with
/// the one new entry at the end of its list.
pub fn add_dependency(
    ledger: DependencyFile,
    config: Option<String>,
    dependency: String,
) -> (result: Result<DependencyFile, ConfigCliError>)
    ensures
        ledger@.holds(dependency@) ==> result == Err::<DependencyFile, ConfigCliError>(
            ConfigCliError::DuplicateDependency(dependency),
        ),
        !ledger@.holds(dependency@) ==> result is Ok && result->Ok_0@ == with_dependency(
            ledger@,
            optional_text(config),
            dependency@,
        ),
        ledger@.well_formed() && result is Ok ==> result->Ok_0@.well_formed(),
{
    let in_bounds = ledger.names_bound(&dependency);
    let in_globals = ledger.names_global(&dependency);
    proof {
        ledger@.lemma_holds(dependency@);
    }
    if in_bounds || in_globals {
        return Err(ConfigCliError::DuplicateDependency(dependency));
    }
    let mut ledger = ledger;
    let ghost before = ledger@;
    match config {
        Some(c) => {
            ledger.config_bounds.push((c, Dependency(dependency)));
            assert(ledger@.config_bounds =~= before.config_bounds.push((c@, dependency@)));
            assert(ledger@.bound_names() =~= before.bound_names().push(dependency@));
            assert(ledger@.globals =~= before.globals);
            proof {
                lemma_insert_fresh(before.bound_names(), before.globals, dependency@);
            }
        },
        None => {
            ledger.globals.push(Dependency(dependency));
            assert(ledger@.globals =~= before.globals.push(dependency@));
            assert(ledger@.config_bounds =~= before.config_bounds);
            assert(ledger@.all_names() =~= before.all_names().push(dependency@));
            proof {
                lemma_insert_fresh(before.all_names(), Seq::empty(), dependency@);
                assert(before.all_names().push(dependency@) + Seq::<Seq<char>>::empty()
                    =~= before.all_names().push(dependency@));
                assert(before.all_names() + Seq::<Seq<char>>::empty() =~= before.all_names());
            }
        },
    }
    Ok(ledger)
}

} // verus!
