//! What taking a config in and giving it back do, taken together: to the
//! ledger, and to the filesystem once the steps have been carried out.

use vstd::prelude::*;
use crate::config::add::{add_config_plan, managed_path, new_entry, with_config};
use crate::config::list::{on_device, unbound};
use crate::config::remove::{
    is_last_named,
    last_named,
    lemma_last_named,
    other_bound_name,
    other_name,
    remove_config_plan,
    without_config,
};
use crate::config::{ConfigFileView, ConfigView};
use crate::storage::{
    after,
    after_all,
    apart,
    carried,
    lemma_carried,
    same_at,
    tree_copied,
    tree_moved,
    within,
    Node,
};
use crate::sequences::{lemma_filter_all, lemma_filter_places};
use crate::utils::configs_path;

verus! {

/// Two configs of one theme keep their content at different paths, unless
/// they have the same name.
pub proof fn lemma_managed_paths_differ(theme_dir: Seq<char>, one: Seq<char>, other: Seq<char>)
    requires
        one != other,
    ensures
        managed_path(theme_dir, one) != managed_path(theme_dir, other),
{
    let front = theme_dir + "/"@;
    if managed_path(theme_dir, one) == managed_path(theme_dir, other) {
        assert((front + one).skip(front.len() as int) =~= one);
        assert((front + other).skip(front.len() as int) =~= other);
    }
}

/// A config that has been added is listed, for the device it was added for
/// and in the listing of all configs.
pub proof fn lemma_added_is_listed(
    ledger: ConfigFileView,
    device: Option<Seq<char>>,
    entry: ConfigView,
)
    ensures
        with_config(ledger, device, entry).listed(device).contains(entry),
        with_config(ledger, device, entry).listed(None).contains(entry),
        with_config(ledger, device, entry).names(entry.name),
{
    let after = with_config(ledger, device, entry);
    match device {
        Some(d) => {
            ledger.device_bounds.lemma_filter_push((d, entry), on_device(d));
            let kept = ledger.device_bounds.filter(on_device(d));
            assert(after.bound_to(d) =~= unbound(kept).push(entry));
            assert(after.bound_to(d)[kept.len() as int] == entry);
            assert(after.entries()[after.entries().len() - 1] == entry);
        },
        None => {
            assert(after.entries()[ledger.globals.len() as int] == entry);
        },
    }
}

/// After a config has been given back, no config of the ledger has its
/// name.
pub proof fn lemma_removed_is_gone(ledger: ConfigFileView, name: Seq<char>)
    ensures
        !without_config(ledger, name).names(name),
{
    let after = without_config(ledger, name);
    assert forall|i: int| 0 <= i < after.entries().len() implies (#[trigger] after.entries()[i]).name
        != name by {
        if i < after.globals.len() {
            ledger.globals.lemma_filter_pred(other_name(name), i);
        } else {
            ledger.device_bounds.lemma_filter_pred(
                other_bound_name(name),
                i - after.globals.len(),
            );
        }
    }
}

/// Giving a config back leaves a valid ledger valid.
pub proof fn lemma_removed_keeps_valid(ledger: ConfigFileView, name: Seq<char>)
    requires
        ledger.well_formed(),
    ensures
        without_config(ledger, name).well_formed(),
{
    lemma_filtered_keeps_valid(ledger, other_name(name), other_bound_name(name));
}

/// A valid ledger stays valid when configs leave it.
pub proof fn lemma_filtered_keeps_valid(
    ledger: ConfigFileView,
    keep: spec_fn(ConfigView) -> bool,
    keep_bound: spec_fn((Seq<char>, ConfigView)) -> bool,
)
    requires
        ledger.well_formed(),
    ensures
        (ConfigFileView {
            globals: ledger.globals.filter(keep),
            device_bounds: ledger.device_bounds.filter(keep_bound),
        }).well_formed(),
{
    let after = ConfigFileView {
        globals: ledger.globals.filter(keep),
        device_bounds: ledger.device_bounds.filter(keep_bound),
    };
    let from_globals = lemma_filter_places(ledger.globals, keep);
    let from_bounds = lemma_filter_places(ledger.device_bounds, keep_bound);
    let kept = after.globals.len() as int;
    let origin = |i: int|
        if i < kept {
            from_globals[i]
        } else {
            ledger.globals.len() + from_bounds[i - kept]
        };
    assert forall|i: int, j: int| 0 <= i < j < after.entries().len() implies (
    #[trigger] after.entries()[i]).name != (#[trigger] after.entries()[j]).name by {
        let oi = origin(i);
        let oj = origin(j);
        if i < kept {
            assert(after.entries()[i] == ledger.entries()[from_globals[i]]);
        } else {
            assert(after.entries()[i] == ledger.device_bounds[from_bounds[i - kept]].1);
            assert(ledger.entries()[oi] == ledger.device_bounds[from_bounds[i - kept]].1);
        }
        if j < kept {
            assert(after.entries()[j] == ledger.entries()[from_globals[j]]);
        } else {
            assert(after.entries()[j] == ledger.device_bounds[from_bounds[j - kept]].1);
            assert(ledger.entries()[oj] == ledger.device_bounds[from_bounds[j - kept]].1);
        }
        assert(oi < oj);
        assert(ledger.entries()[oi].name != ledger.entries()[oj].name);
    }
}

/// Taking in a config of a new name and giving it back leaves the ledger as
/// it was, and the config given back is the one that was taken in.
pub proof fn lemma_add_then_remove(
    ledger: ConfigFileView,
    device: Option<Seq<char>>,
    entry: ConfigView,
)
    requires
        !ledger.names(entry.name),
    ensures
        without_config(with_config(ledger, device, entry), entry.name) == ledger,
        last_named(with_config(ledger, device, entry).entries(), entry.name) == entry,
{
    let added = with_config(ledger, device, entry);
    let name = entry.name;
    assert forall|i: int| 0 <= i < ledger.globals.len() implies other_name(name)(
        #[trigger] ledger.globals[i],
    ) by {
        assert(ledger.entries()[i] == ledger.globals[i]);
    }
    assert forall|i: int| 0 <= i < ledger.device_bounds.len() implies other_bound_name(name)(
        #[trigger] ledger.device_bounds[i],
    ) by {
        assert(ledger.entries()[ledger.globals.len() + i] == ledger.device_bounds[i].1);
    }
    lemma_filter_all(ledger.globals, other_name(name));
    lemma_filter_all(ledger.device_bounds, other_bound_name(name));
    let at = match device {
        Some(d) => {
            ledger.device_bounds.lemma_filter_push((d, entry), other_bound_name(name));
            added.entries().len() - 1
        },
        None => {
            ledger.globals.lemma_filter_push(entry, other_name(name));
            ledger.globals.len() as int
        },
    };
    assert(added.entries()[at] == entry);
    assert forall|j: int| at < j < added.entries().len() implies (#[trigger] added.entries()[j]).name
        != name by {
        assert(added.entries()[j] == ledger.entries()[j - 1]);
    }
    assert(is_last_named(added.entries(), name, at));
    lemma_last_named(added.entries(), name, at);
}

/// Two trees that both hold a path lie one in the other.
pub proof fn lemma_nested(a: Seq<char>, b: Seq<char>, path: Seq<char>)
    requires
        within(a, path),
        within(b, path),
    ensures
        within(a, b) || within(b, a),
{
    if a.len() <= b.len() {
        assert(b.take(a.len() as int) =~= path.take(a.len() as int));
        if a.len() < b.len() {
            assert(b[a.len() as int] == path.take(b.len() as int)[a.len() as int]);
        }
    } else {
        assert(a.take(b.len() as int) =~= path.take(b.len() as int));
        assert(a[b.len() as int] == path.take(a.len() as int)[b.len() as int]);
    }
}

/// Whether the paths of an addition keep out of each other's way: the tree
/// of the file and the tree where the theme keeps it are apart, and the
/// ledger file lies in neither.
pub open spec fn paths_apart(theme_dir: Seq<char>, name: Seq<char>, file: Seq<char>) -> bool {
    &&& apart(file, managed_path(theme_dir, name))
    &&& !within(file, configs_path(theme_dir))
    &&& !within(managed_path(theme_dir, name), configs_path(theme_dir))
}

/// Once the steps of an addition have been carried out, the place of the
/// file holds a link to where the theme keeps the content, and all that
/// was in the tree of the file is found there, path for path.
pub proof fn lemma_added_is_linked(
    fs: Map<Seq<char>, Node>,
    theme_dir: Seq<char>,
    name: Seq<char>,
    device: Option<Seq<char>>,
    file: Seq<char>,
    ledger: ConfigFileView,
)
    requires
        paths_apart(theme_dir, name, file),
    ensures
        ({
            let then = after_all(fs, add_config_plan(theme_dir, name, device, file, ledger));
            &&& then.contains_key(file)
            &&& then[file] == Node::Link { target: managed_path(theme_dir, name) }
            &&& forall|p: Seq<char>| #[trigger]
                within(file, p) ==> same_at_paths(
                    then,
                    carried(file, managed_path(theme_dir, name), p),
                    fs,
                    p,
                )
        }),
{
    let managed = managed_path(theme_dir, name);
    let plan = add_config_plan(theme_dir, name, device, file, ledger);
    lemma_unfold_three(fs, plan);
    let then = after_all(fs, plan);
    assert(within(file, file)) by {
        assert(file.take(file.len() as int) =~= file);
    }
    assert forall|p: Seq<char>| #[trigger] within(file, p) implies same_at_paths(
        then,
        carried(file, managed, p),
        fs,
        p,
    ) by {
        lemma_carried(file, managed, p);
        let q = carried(file, managed, p);
        if q == file {
        }
        if q == configs_path(theme_dir) {
        }
    }
}

/// Whether `a` has at `p` what `b` has at `q`, or both have nothing there.
pub open spec fn same_at_paths(
    a: Map<Seq<char>, Node>,
    p: Seq<char>,
    b: Map<Seq<char>, Node>,
    q: Seq<char>,
) -> bool {
    a.contains_key(p) == b.contains_key(q) && (a.contains_key(p) ==> a[p] == b[q])
}

/// A plan of three steps, step by step.
proof fn lemma_unfold_three(fs: Map<Seq<char>, Node>, plan: Seq<crate::plan::FsActionView>)
    requires
        plan.len() == 3,
    ensures
        after_all(fs, plan) == after(after(after(fs, plan[0]), plan[1]), plan[2]),
{
    let two = plan.drop_last();
    let one = two.drop_last();
    assert(after_all(fs, one.drop_last()) == fs);
    assert(after_all(fs, one) == after(fs, plan[0]));
    assert(after_all(fs, two) == after(after(fs, plan[0]), plan[1]));
}

/// Taking a file in and giving it back restores the tree of the file: once
/// the steps of both have been carried out, every path in that tree holds
/// what it held before, and a path that held nothing holds nothing.
pub proof fn lemma_round_trip_restores(
    fs: Map<Seq<char>, Node>,
    theme_dir: Seq<char>,
    name: Seq<char>,
    device: Option<Seq<char>>,
    file: Seq<char>,
    ledger: ConfigFileView,
    remaining: ConfigFileView,
)
    requires
        paths_apart(theme_dir, name, file),
    ensures
        ({
            let taken = after_all(fs, add_config_plan(theme_dir, name, device, file, ledger));
            let given = after_all(
                taken,
                remove_config_plan(theme_dir, new_entry(theme_dir, name, file), remaining),
            );
            forall|p: Seq<char>| #[trigger] within(file, p) ==> same_at(given, fs, p)
        }),
{
    let managed = managed_path(theme_dir, name);
    let entry = new_entry(theme_dir, name, file);
    let add = add_config_plan(theme_dir, name, device, file, ledger);
    let remove = remove_config_plan(theme_dir, entry, remaining);
    lemma_unfold_three(fs, add);
    let taken = after_all(fs, add);
    lemma_unfold_three(taken, remove);
    let given = after_all(taken, remove);
    assert forall|p: Seq<char>| #[trigger] within(file, p) implies same_at(given, fs, p) by {
        lemma_carried(file, managed, p);
        let q = carried(file, managed, p);
        if within(managed, p) {
            lemma_nested(file, managed, p);
        }
        if q == file {
        }
        if q == configs_path(theme_dir) {
        }
        if p == configs_path(theme_dir) {
        }
    }
}

} // verus!
