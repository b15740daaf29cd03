//! Giving a config back: its content returns to its place outside and its
//! entry leaves the ledger.

use vstd::prelude::*;
use crate::config::{
    bound_config_views,
    config_views,
    Config,
    ConfigFile,
    ConfigFileView,
    ConfigView,
};
use crate::error::ConfigCliError;
use crate::plan::{plan_view, FsAction, FsActionView};
use crate::utils::{configs_path, joined, theme_path};

verus! {

/// The test that a config has another name than `name`.
pub open spec fn other_name(name: Seq<char>) -> spec_fn(ConfigView) -> bool {
    |c: ConfigView| c.name != name
}

/// The test that a bound config has another name than `name`.
pub open spec fn other_bound_name(name: Seq<char>) -> spec_fn((Seq<char>, ConfigView)) -> bool {
    |b: (Seq<char>, ConfigView)| b.1.name != name
}

/// The ledger without any config named `name`, global or bound.
pub open spec fn without_config(ledger: ConfigFileView, name: Seq<char>) -> ConfigFileView {
    ConfigFileView {
        globals: ledger.globals.filter(other_name(name)),
        device_bounds: ledger.device_bounds.filter(other_bound_name(name)),
    }
}

/// Whether `i` is the place of the last config named `name` in `entries`.
pub open spec fn is_last_named(entries: Seq<ConfigView>, name: Seq<char>, i: int) -> bool {
    &&& 0 <= i < entries.len()
    &&& entries[i].name == name
    &&& forall|j: int| i < j < entries.len() ==> (#[trigger] entries[j]).name != name
}

/// The last config named `name` in `entries`.
pub open spec fn last_named(entries: Seq<ConfigView>, name: Seq<char>) -> ConfigView {
    entries[choose|i: int| is_last_named(entries, name, i)]
}

/// A last config of a name is the only one.
pub proof fn lemma_last_named(entries: Seq<ConfigView>, name: Seq<char>, i: int)
    requires
        is_last_named(entries, name, i),
    ensures
        last_named(entries, name) == entries[i],
{
    let k = choose|k: int| is_last_named(entries, name, k);
    if k < i {
        assert(entries[i].name != name);
    }
    if i < k {
        assert(entries[k].name != name);
    }
}

/// The steps that give back the config `target` of the theme in
/// `theme_dir` and store the ledger `remaining`: delete the link outside,
/// copy the content to its place, store the ledger.
pub open spec fn remove_config_plan(
    theme_dir: Seq<char>,
    target: ConfigView,
    remaining: ConfigFileView,
) -> Seq<FsActionView> {
    seq![
        FsActionView::Delete { path: target.symlink },
        FsActionView::CopyRecursive { from: target.conf_location, to: target.symlink },
        FsActionView::WriteConfigs { path: configs_path(theme_dir), ledger: remaining },
    ]
}

/// The configs of `configs` that have another name than `name`, in order.
fn configs_without(configs: Vec<Config>, name: &String) -> (kept: Vec<Config>)
    ensures
        config_views(kept@) == config_views(configs@).filter(other_name(name@)),
{
    let ghost all = config_views(configs@);
    let ghost test = other_name(name@);
    let mut kept: Vec<Config> = Vec::new();
    assert(all.take(0).filter(test) =~= Seq::empty()) by {
        reveal(Seq::filter);
    }
    assert(config_views(kept@) =~= Seq::empty());
    for entry in it: configs
        invariant
            it.seq() == configs@,
            all == config_views(configs@),
            test == other_name(name@),
            config_views(kept@) == all.take(it.index() as int).filter(test),
    {
        let ghost n = it.index() as int;
        proof {
            assert(all.take(n + 1) =~= all.take(n).push(all[n]));
            all.take(n).lemma_filter_push(all[n], test);
            assert(all[n] == entry@);
        }
        let ghost before = config_views(kept@);
        if entry.name != *name {
            kept.push(entry);
            assert(config_views(kept@) =~= before.push(entry@));
        }
    }
    assert(all.take(all.len() as int) =~= all);
    kept
}

/// The bound configs of `bounds` that have another name than `name`, in
/// order.
fn bounds_without(bounds: Vec<(String, Config)>, name: &String) -> (kept: Vec<(String, Config)>)
    ensures
        bound_config_views(kept@) == bound_config_views(bounds@).filter(other_bound_name(name@)),
{
    let ghost all = bound_config_views(bounds@);
    let ghost test = other_bound_name(name@);
    let mut kept: Vec<(String, Config)> = Vec::new();
    assert(all.take(0).filter(test) =~= Seq::empty()) by {
        reveal(Seq::filter);
    }
    assert(bound_config_views(kept@) =~= Seq::empty());
    for bound in it: bounds
        invariant
            it.seq() == bounds@,
            all == bound_config_views(bounds@),
            test == other_bound_name(name@),
            bound_config_views(kept@) == all.take(it.index() as int).filter(test),
    {
        let ghost n = it.index() as int;
        proof {
            assert(all.take(n + 1) =~= all.take(n).push(all[n]));
            all.take(n).lemma_filter_push(all[n], test);
            assert(all[n] == (bound.0@, bound.1@));
        }
        let ghost before = bound_config_views(kept@);
        if bound.1.name != *name {
            kept.push(bound);
            assert(bound_config_views(kept@) =~= before.push((bound.0@, bound.1@)));
        }
    }
    assert(all.take(all.len() as int) =~= all);
    kept
}

impl ConfigFile {
    /// The last config named `name` in the ledger, the global configs taken
    /// before the bound ones; `None` where no config has the name.
    pub fn find_last(&self, name: &String) -> (found: Option<&Config>)
        ensures
            found is Some == self@.names(name@),
            found matches Some(c) ==> c@ == last_named(self@.entries(), name@),
    {
        let ghost entries = self@.entries();
        let mut k: usize = self.device_bounds.len();
        while k > 0
            invariant
                k <= self.device_bounds.len(),
                entries == self@.entries(),
                forall|j: int|
                    self.globals.len() + k <= j < entries.len() ==> (#[trigger] entries[j]).name
                        != name@,
            decreases k,
        {
            k -= 1;
            if self.device_bounds[k].1.name == *name {
                proof {
                    let at = self.globals.len() + k;
                    assert(entries[at] == self.device_bounds[k as int].1@);
                    lemma_last_named(entries, name@, at);
                }
                return Some(&self.device_bounds[k].1);
            }
        }
        let mut i: usize = self.globals.len();
        while i > 0
            invariant
                i <= self.globals.len(),
                entries == self@.entries(),
                forall|j: int| i <= j < entries.len() ==> (#[trigger] entries[j]).name != name@,
            decreases i,
        {
            i -= 1;
            if self.globals[i].name == *name {
                proof {
                    assert(entries[i as int] == self.globals[i as int]@);
                    lemma_last_named(entries, name@, i as int);
                }
                return Some(&self.globals[i]);
            }
        }
        None
    }
}

/// Plans giving back the config `name` of the theme `theme`.
///
/// `base_dir` is the storage root. `ledger` is the config ledger of the
/// theme, `None` where the theme has no directory: that is refused with
/// `InvalidThemeName`. A name that no config of the ledger has is refused
/// with `ConfigNotFound`. Otherwise the last config of that name, the global
/// configs taken before the bound ones, is given back: the link outside is
/// deleted and the content copied to its place. The ledger is then stored
/// without any config of that name.
pub fn remove_config(name: String, theme: String, base_dir: &String, ledger: Option<ConfigFile>)
    -> (result: Result<Vec<FsAction>, ConfigCliError>)
    ensures
        ledger is None ==> result == Err::<Vec<FsAction>, ConfigCliError>(
            ConfigCliError::InvalidThemeName(theme),
        ),
        ledger matches Some(l) ==> (!l@.names(name@) ==> result == Err::<
            Vec<FsAction>,
            ConfigCliError,
        >(ConfigCliError::ConfigNotFound(name))),
        ledger matches Some(l) ==> (l@.names(name@) ==> result is Ok && plan_view(result->Ok_0@)
            == remove_config_plan(
            theme_path(base_dir@, theme@),
            last_named(l@.entries(), name@),
            without_config(l@, name@),
        )),
{
    let current = match ledger {
        Some(l) => l,
        None => {
            return Err(ConfigCliError::InvalidThemeName(theme));
        },
    };
    let (outside, managed) = match current.find_last(&name) {
        Some(target) => (target.symlink.clone(), target.conf_location.clone()),
        None => {
            return Err(ConfigCliError::ConfigNotFound(name));
        },
    };
    let ghost before = current@;
    let remaining = ConfigFile {
        globals: configs_without(current.globals, &name),
        device_bounds: bounds_without(current.device_bounds, &name),
    };
    assert(remaining@ == without_config(before, name@));
    let mut plan: Vec<FsAction> = Vec::new();
    plan.push(FsAction::Delete { path: outside.clone() });
    plan.push(FsAction::CopyRecursive { from: managed, to: outside });
    plan.push(
        FsAction::WriteConfigs {
            path: joined(&joined(base_dir, theme.as_str()), "/configs.toml"),
            ledger: remaining,
        },
    );
    assert(plan_view(plan@) =~= remove_config_plan(
        theme_path(base_dir@, theme@),
        last_named(before.entries(), name@),
        without_config(before, name@),
    ));
    Ok(plan)
}

} // verus!
