//! Devices: a device is a label on configs, and is known only as long as
//! some config carries it.

use itertools::Itertools;
use vstd::prelude::*;
use crate::config::list::{on_device, unbound};
use crate::config::{bound_config_views, Config, ConfigFile, ConfigFileView, ConfigView};
use crate::dependency::list::{lemma_needs_push, needs_of};
use crate::dependency::{dependency_names, Dependency};
use crate::config::laws::lemma_filtered_keeps_valid;
use crate::sequences::{lemma_filter_all, lemma_filter_ends, lemma_filter_step};
use crate::utils::texts;

verus! {

/// `names` with every run of equal neighbours reduced to its first element.
pub open spec fn without_repeats(names: Seq<Seq<char>>) -> Seq<Seq<char>>
    decreases names.len(),
{
    if names.len() <= 1 {
        names
    } else if names[names.len() - 2] == names.last() {
        without_repeats(names.drop_last())
    } else {
        without_repeats(names.drop_last()).push(names.last())
    }
}

/// The test that a bound config is bound to another device than `device`.
pub open spec fn off_device(device: Seq<char>) -> spec_fn((Seq<char>, ConfigView)) -> bool {
    |b: (Seq<char>, ConfigView)| b.0 != device
}

impl ConfigFileView {
    /// The device of every bound config, in order.
    pub open spec fn device_labels(self) -> Seq<Seq<char>> {
        Seq::new(self.device_bounds.len(), |i: int| self.device_bounds[i].0)
    }

    /// The ledger without the configs bound to `device`.
    pub open spec fn without_device(self, device: Seq<char>) -> ConfigFileView {
        ConfigFileView {
            globals: self.globals,
            device_bounds: self.device_bounds.filter(off_device(device)),
        }
    }
}

/// Removing a device leaves a valid ledger valid.
pub proof fn lemma_without_device_keeps_valid(ledger: ConfigFileView, device: Seq<char>)
    requires
        ledger.well_formed(),
    ensures
        ledger.without_device(device).well_formed(),
{
    let all = |c: ConfigView| true;
    lemma_filtered_keeps_valid(ledger, all, off_device(device));
    assert forall|i: int| 0 <= i < ledger.globals.len() implies all(#[trigger] ledger.globals[i]) by {}
    lemma_filter_all(ledger.globals, all);
}

/// Calls `Itertools::dedup` on the texts and collects what it yields.
/// Taken on trust: of every run of neighbours that are equal as texts only
/// the first stays, and the order is kept.
#[verifier::external_body]
fn dedup_texts(names: Vec<String>) -> (kept: Vec<String>)
    ensures
        texts(kept@) == without_repeats(texts(names@)),
{
    names.into_iter().dedup().collect()
}

/// `names` with every name kept where it comes first and dropped where it
/// comes again.
pub open spec fn first_occurrences(names: Seq<Seq<char>>) -> Seq<Seq<char>>
    decreases names.len(),
{
    if names.len() == 0 {
        names
    } else {
        let rest = first_occurrences(names.drop_last());
        if rest.contains(names.last()) {
            rest
        } else {
            rest.push(names.last())
        }
    }
}

/// The first occurrences name no name twice, and name exactly the names of
/// the list.
pub proof fn lemma_first_occurrences(names: Seq<Seq<char>>)
    ensures
        first_occurrences(names).no_duplicates(),
        forall|name: Seq<char>|
            first_occurrences(names).contains(name) <==> #[trigger] names.contains(name),
    decreases names.len(),
{
    let kept = first_occurrences(names);
    if names.len() > 0 {
        let front = names.drop_last();
        let rest = first_occurrences(front);
        lemma_first_occurrences(front);
        assert forall|name: Seq<char>| kept.contains(name) <==> #[trigger] names.contains(
            name,
        ) by {
            if names.contains(name) {
                let i = choose|i: int| 0 <= i < names.len() && names[i] == name;
                if i < front.len() {
                    assert(front[i] == name);
                    assert(front.contains(name));
                    let k = choose|k: int| 0 <= k < rest.len() && rest[k] == name;
                    assert(kept[k] == name);
                } else if !rest.contains(names.last()) {
                    assert(kept[rest.len() as int] == name);
                }
            }
            if kept.contains(name) {
                let k = choose|k: int| 0 <= k < kept.len() && kept[k] == name;
                if k < rest.len() {
                    assert(rest[k] == name);
                    assert(rest.contains(name));
                    assert(front.contains(name));
                    let i = choose|i: int| 0 <= i < front.len() && front[i] == name;
                    assert(names[i] == name);
                } else {
                    assert(names[names.len() - 1] == name);
                }
            }
        }
        if !rest.contains(names.last()) {
            assert forall|k: int, l: int|
                0 <= k < kept.len() && 0 <= l < kept.len() && k != l implies kept[k]
                != kept[l] by {
                if k < rest.len() {
                    assert(rest[k] == kept[k]);
                }
                if l < rest.len() {
                    assert(rest[l] == kept[l]);
                }
            }
        }
    }
}

/// Reducing runs of equal neighbours first changes nothing of the first
/// occurrences.
pub proof fn lemma_repeats_do_not_matter(names: Seq<Seq<char>>)
    ensures
        first_occurrences(without_repeats(names)) == first_occurrences(names),
    decreases names.len(),
{
    if names.len() > 1 {
        let front = names.drop_last();
        lemma_repeats_do_not_matter(front);
        lemma_first_occurrences(front);
        let reduced = without_repeats(front);
        if names[names.len() - 2] == names.last() {
            assert(front[front.len() - 1] == names.last());
            assert(front.contains(names.last()));
        } else {
            assert(reduced.push(names.last()).drop_last() =~= reduced);
            assert(reduced.push(names.last()).last() == names.last());
        }
    }
}

/// Whether one of the texts of `list` is `name`.
fn is_among(list: &Vec<String>, name: &String) -> (found: bool)
    ensures
        found == texts(list@).contains(name@),
{
    let mut i: usize = 0;
    while i < list.len()
        invariant
            i <= list.len(),
            forall|j: int| 0 <= j < i ==> texts(list@)[j] != name@,
        decreases list.len() - i,
    {
        if list[i] == *name {
            assert(texts(list@)[i as int] == name@);
            return true;
        }
        i += 1;
    }
    false
}

/// Lists the devices of a ledger: every device that labels a bound config,
/// once, in the order in which the devices first come in the ledger. A
/// device that labels no config is not listed.
pub fn list_devices(ledger: &ConfigFile) -> (devices: Vec<String>)
    ensures
        texts(devices@) == first_occurrences(ledger@.device_labels()),
        texts(devices@).no_duplicates(),
        forall|label: Seq<char>|
            texts(devices@).contains(label) <==> #[trigger] ledger@.device_labels().contains(
                label,
            ),
{
    let mut labels: Vec<String> = Vec::new();
    let mut i: usize = 0;
    while i < ledger.device_bounds.len()
        invariant
            i <= ledger.device_bounds.len(),
            labels.len() == i,
            forall|j: int| 0 <= j < i ==> labels[j]@ == ledger.device_bounds[j].0@,
        decreases ledger.device_bounds.len() - i,
    {
        labels.push(ledger.device_bounds[i].0.clone());
        i += 1;
    }
    assert(texts(labels@) =~= ledger@.device_labels());
    let runs = dedup_texts(labels);
    let ghost reduced = texts(runs@);
    let mut devices: Vec<String> = Vec::new();
    assert(texts(devices@) =~= first_occurrences(reduced.take(0)));
    for label in it: runs
        invariant
            it.seq() == runs@,
            reduced == texts(runs@),
            texts(devices@) == first_occurrences(reduced.take(it.index() as int)),
    {
        let ghost n = it.index() as int;
        let ghost before = texts(devices@);
        proof {
            assert(reduced.take(n + 1).drop_last() =~= reduced.take(n));
            assert(reduced.take(n + 1).last() == label@);
        }
        if !is_among(&devices, &label) {
            devices.push(label);
            assert(texts(devices@) =~= before.push(label@));
        }
    }
    proof {
        assert(reduced.take(reduced.len() as int) =~= reduced);
        lemma_repeats_do_not_matter(ledger@.device_labels());
        lemma_first_occurrences(ledger@.device_labels());
    }
    devices
}

/// Removes a device: every config bound to `name` leaves the ledger, and
/// nothing else changes.
pub fn remove_device(ledger: ConfigFile, name: &String) -> (remaining: ConfigFile)
    ensures
        remaining@ == ledger@.without_device(name@),
{
    let ghost all = ledger@.device_bounds;
    let ghost test = off_device(name@);
    let mut kept: Vec<(String, Config)> = Vec::new();
    proof {
        lemma_filter_ends(all, test);
        assert(bound_config_views(kept@) =~= all.take(0).filter(test));
    }
    for bound in it: ledger.device_bounds
        invariant
            it.seq() == ledger.device_bounds@,
            all == bound_config_views(ledger.device_bounds@),
            test == off_device(name@),
            bound_config_views(kept@) == all.take(it.index() as int).filter(test),
    {
        let ghost n = it.index() as int;
        proof {
            lemma_filter_step(all, test, n);
            assert(all[n] == (bound.0@, bound.1@));
        }
        let ghost before = bound_config_views(kept@);
        if bound.0 != *name {
            kept.push(bound);
            assert(bound_config_views(kept@) =~= before.push((bound.0@, bound.1@)));
        }
    }
    proof {
        lemma_filter_ends(all, test);
    }
    ConfigFile { globals: ledger.globals, device_bounds: kept }
}

/// Lists the packages to install when the device `name` is put to use: what
/// the configs bound to that device need, one config after the other.
pub fn use_device(ledger: &ConfigFile, name: &String) -> (packages: Vec<Dependency>)
    ensures
        dependency_names(packages@) == needs_of(ledger@.bound_to(name@)),
{
    let ghost all = ledger@.device_bounds;
    let ghost test = on_device(name@);
    let mut packages: Vec<Dependency> = Vec::new();
    proof {
        lemma_filter_ends(all, test);
        assert(needs_of(Seq::<ConfigView>::empty()) =~= Seq::<Seq<char>>::empty());
        assert(unbound(all.take(0).filter(test)) =~= Seq::<
            ConfigView,
        >::empty());
        assert(dependency_names(packages@) =~= Seq::<Seq<char>>::empty());
    }
    let mut i: usize = 0;
    while i < ledger.device_bounds.len()
        invariant
            i <= ledger.device_bounds.len(),
            all == ledger@.device_bounds,
            test == on_device(name@),
            dependency_names(packages@) == needs_of(
                unbound(all.take(i as int).filter(test)),
            ),
        decreases ledger.device_bounds.len() - i,
    {
        proof {
            lemma_filter_step(all, test, i as int);
            assert(all[i as int] == (
                ledger.device_bounds[i as int].0@,
                ledger.device_bounds[i as int].1@,
            ));
        }
        if ledger.device_bounds[i].0 == *name {
            let deps = &ledger.device_bounds[i].1.dependencies;
            let ghost before = dependency_names(packages@);
            let ghost filtered = all.take(i as int).filter(test);
            proof {
                lemma_needs_push(
                    unbound(filtered),
                    ledger.device_bounds[i as int].1@,
                );
                assert(unbound(filtered.push(all[i as int]))
                    =~= unbound(filtered).push(
                    ledger.device_bounds[i as int].1@,
                ));
            }
            let mut k: usize = 0;
            while k < deps.len()
                invariant
                    k <= deps.len(),
                    dependency_names(packages@) == before + dependency_names(deps@).take(
                        k as int,
                    ),
                decreases deps.len() - k,
            {
                let ghost so_far = dependency_names(packages@);
                packages.push(deps[k].duplicate());
                assert(dependency_names(packages@) =~= so_far.push(deps[k as int]@));
                assert(dependency_names(packages@) =~= before + dependency_names(deps@).take(
                    k + 1,
                ));
                k += 1;
            }
            assert(dependency_names(deps@).take(deps.len() as int) =~= dependency_names(deps@));
        }
        i += 1;
    }
    proof {
        lemma_filter_ends(all, test);
    }
    packages
}

} // verus!
