//! Listing the packages that a config needs.

use vstd::prelude::*;
use crate::config::{ConfigFile, ConfigView};
use crate::dependency::{dependency_names, Dependency};
use crate::sequences::{lemma_filter_ends, lemma_filter_step};
use crate::utils::texts;

verus! {

/// The test that a config has the name `name`.
pub open spec fn named(name: Seq<char>) -> spec_fn(ConfigView) -> bool {
    |c: ConfigView| c.name == name
}

/// The packages that a config names as needed.
pub open spec fn needs() -> spec_fn(ConfigView) -> Seq<Seq<char>> {
    |c: ConfigView| c.dependencies
}

/// The packages that the configs `entries` need, one config after the
/// other.
pub open spec fn needs_of(entries: Seq<ConfigView>) -> Seq<Seq<char>> {
    entries.map_values(needs()).flatten()
}

/// The packages that the configs named `name` among `entries` need.
pub open spec fn dependencies_of(entries: Seq<ConfigView>, name: Seq<char>) -> Seq<Seq<char>> {
    needs_of(entries.filter(named(name)))
}

/// One config more adds what it needs to the end.
pub proof fn lemma_needs_push(entries: Seq<ConfigView>, entry: ConfigView)
    ensures
        needs_of(entries.push(entry)) == needs_of(entries) + entry.dependencies,
{
    assert(entries.push(entry).map_values(needs()) =~= entries.map_values(needs()).push(
        entry.dependencies,
    ));
    entries.map_values(needs()).lemma_flatten_push(entry.dependencies);
}

/// Looking at one config more adds what it needs, if it has the name, to
/// the end.
pub proof fn lemma_dependencies_step(entries: Seq<ConfigView>, name: Seq<char>, n: int)
    requires
        0 <= n < entries.len(),
    ensures
        dependencies_of(entries.take(n + 1), name) == if entries[n].name == name {
            dependencies_of(entries.take(n), name) + entries[n].dependencies
        } else {
            dependencies_of(entries.take(n), name)
        },
{
    lemma_filter_step(entries, named(name), n);
    if entries[n].name == name {
        lemma_needs_push(entries.take(n).filter(named(name)), entries[n]);
    }
}

/// Adds the names of `deps`, in order, to the end of `names`.
fn append_names(names: &mut Vec<String>, deps: &Vec<Dependency>)
    ensures
        texts(final(names)@) == texts(old(names)@) + dependency_names(deps@),
{
    let ghost start = texts(names@);
    let ghost all = dependency_names(deps@);
    assert(texts(names@) =~= start + all.take(0));
    let mut i: usize = 0;
    while i < deps.len()
        invariant
            i <= deps.len(),
            all == dependency_names(deps@),
            texts(names@) == start + all.take(i as int),
        decreases deps.len() - i,
    {
        let ghost before = texts(names@);
        names.push(deps[i].0.clone());
        assert(texts(names@) =~= before.push(deps[i as int]@));
        assert(texts(names@) =~= start + all.take(i + 1));
        i += 1;
    }
    assert(all.take(all.len() as int) =~= all);
}

/// Lists the packages that the config `config_name` needs.
///
/// The packages are those that the config entries of that name carry
/// themselves, in the config ledger `ledger`: the dependency ledger is not
/// consulted. The global configs are looked at before the bound ones.
pub fn list_dependencies(ledger: &ConfigFile, config_name: &String) -> (names: Vec<String>)
    ensures
        texts(names@) == dependencies_of(ledger@.entries(), config_name@),
{
    let ghost entries = ledger@.entries();
    let mut names: Vec<String> = Vec::new();
    proof {
        lemma_filter_ends(entries, named(config_name@));
        assert(needs_of(Seq::<ConfigView>::empty()) =~= Seq::<Seq<char>>::empty());
        assert(texts(names@) =~= dependencies_of(entries.take(0), config_name@));
    }
    let mut i: usize = 0;
    while i < ledger.globals.len()
        invariant
            i <= ledger.globals.len(),
            entries == ledger@.entries(),
            texts(names@) == dependencies_of(entries.take(i as int), config_name@),
        decreases ledger.globals.len() - i,
    {
        proof {
            lemma_dependencies_step(entries, config_name@, i as int);
            assert(entries[i as int] == ledger.globals[i as int]@);
        }
        if ledger.globals[i].name == *config_name {
            append_names(&mut names, &ledger.globals[i].dependencies);
        }
        i += 1;
    }
    let mut k: usize = 0;
    while k < ledger.device_bounds.len()
        invariant
            k <= ledger.device_bounds.len(),
            entries == ledger@.entries(),
            texts(names@) == dependencies_of(
                entries.take(ledger.globals.len() + k),
                config_name@,
            ),
        decreases ledger.device_bounds.len() - k,
    {
        proof {
            lemma_dependencies_step(entries, config_name@, ledger.globals.len() + k);
            assert(entries[ledger.globals.len() + k] == ledger.device_bounds[k as int].1@);
        }
        if ledger.device_bounds[k].1.name == *config_name {
            append_names(&mut names, &ledger.device_bounds[k].1.dependencies);
        }
        k += 1;
    }
    proof {
        lemma_filter_ends(entries, named(config_name@));
    }
    names
}

} // verus!
