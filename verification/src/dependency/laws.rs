//! What adding and removing do to a dependency ledger, taken together.

use vstd::prelude::*;
use crate::dependency::add::with_dependency;
use crate::dependency::remove::{
    first_occurrence,
    is_first_occurrence,
    lemma_first_occurrence,
    without_dependency,
};
use crate::dependency::DependencyFileView;

verus! {

/// In a list without repetitions, the place of `name` is its first
/// occurrence, and without that place the list has no `name` left and still
/// no repetitions.
proof fn lemma_remove_only(names: Seq<Seq<char>>, name: Seq<char>, i: int)
    requires
        names.no_duplicates(),
        0 <= i < names.len(),
        names[i] == name,
    ensures
        !names.remove(i).contains(name),
        names.remove(i).no_duplicates(),
{
    let rest = names.remove(i);
    assert forall|k: int| 0 <= k < rest.len() implies rest[k] != name by {
        let at = if k < i { k } else { k + 1 };
        assert(rest[k] == names[at]);
    }
    assert forall|k: int, l: int| 0 <= k < rest.len() && 0 <= l < rest.len() && k != l implies rest[k]
        != rest[l] by {
        let ak = if k < i { k } else { k + 1 };
        let al = if l < i { l } else { l + 1 };
        assert(rest[k] == names[ak]);
        assert(rest[l] == names[al]);
    }
}

/// A ledger names a package once it has been added, whatever it was added
/// for: a second addition of the same name, global or for any config, is
/// refused as a duplicate.
pub proof fn lemma_added_is_held(
    ledger: DependencyFileView,
    config: Option<Seq<char>>,
    name: Seq<char>,
)
    ensures
        with_dependency(ledger, config, name).holds(name),
{
    let after = with_dependency(ledger, config, name);
    after.lemma_holds(name);
    match config {
        Some(c) => {
            let last = after.config_bounds.len() - 1;
            assert(after.bound_names()[last] == name);
        },
        None => {
            let last = after.globals.len() - 1;
            assert(after.globals[last] == name);
        },
    }
}

/// Removing a package from a valid ledger that names it leaves a valid
/// ledger that does not name it.
pub proof fn lemma_removed_is_gone(ledger: DependencyFileView, name: Seq<char>)
    requires
        ledger.well_formed(),
        ledger.holds(name),
    ensures
        !without_dependency(ledger, name).holds(name),
        without_dependency(ledger, name).well_formed(),
{
    let after = without_dependency(ledger, name);
    let bound = ledger.bound_names();
    let all = ledger.all_names();
    ledger.lemma_holds(name);
    if bound.contains(name) {
        let w = choose|w: int| 0 <= w < bound.len() && bound[w] == name;
        lemma_first_exists(bound, name, w);
        let i = first_occurrence(bound, name);
        assert(all[i] == name);
        lemma_remove_only(all, name, i);
        assert(after.bound_names() =~= bound.remove(i));
        assert(after.all_names() =~= all.remove(i));
    } else {
        let w = choose|w: int| 0 <= w < ledger.globals.len() && ledger.globals[w] == name;
        lemma_first_exists(ledger.globals, name, w);
        let j = first_occurrence(ledger.globals, name);
        assert(all[bound.len() + j] == name);
        lemma_remove_only(all, name, bound.len() + j);
        assert(after.bound_names() =~= bound);
        assert(after.all_names() =~= all.remove(bound.len() + j));
    }
}

/// A name that occurs in a list has a first occurrence there.
proof fn lemma_first_exists(names: Seq<Seq<char>>, name: Seq<char>, at: int)
    requires
        0 <= at < names.len(),
        names[at] == name,
    ensures
        is_first_occurrence(names, name, first_occurrence(names, name)),
    decreases at,
{
    if forall|j: int| 0 <= j < at ==> names[j] != name {
        assert(is_first_occurrence(names, name, at));
    } else {
        let j = choose|j: int| 0 <= j < at && names[j] == name;
        lemma_first_exists(names, name, j);
    }
}

/// Adding a package that a ledger does not name, and removing it again,
/// gives the ledger back as it was.
pub proof fn lemma_add_then_remove(
    ledger: DependencyFileView,
    config: Option<Seq<char>>,
    name: Seq<char>,
)
    requires
        !ledger.holds(name),
    ensures
        without_dependency(with_dependency(ledger, config, name), name) == ledger,
{
    let added = with_dependency(ledger, config, name);
    let after = without_dependency(added, name);
    ledger.lemma_holds(name);
    match config {
        Some(c) => {
            let last = ledger.config_bounds.len() as int;
            assert(added.bound_names()[last] == name);
            assert forall|j: int| 0 <= j < last implies added.bound_names()[j] != name by {
                assert(added.bound_names()[j] == ledger.bound_names()[j]);
            }
            lemma_first_occurrence(added.bound_names(), name, last);
            assert(after.config_bounds =~= ledger.config_bounds);
        },
        None => {
            assert(added.bound_names() =~= ledger.bound_names());
            let last = ledger.globals.len() as int;
            assert(added.globals[last] == name);
            assert forall|j: int| 0 <= j < last implies added.globals[j] != name by {
                assert(added.globals[j] == ledger.globals[j]);
            }
            lemma_first_occurrence(added.globals, name, last);
            assert(after.globals =~= ledger.globals);
        },
    }
}

} // verus!
