//! Taking a file into a theme.

use vstd::prelude::*;
use crate::config::{Config, ConfigFile, ConfigFileView, ConfigView};
use crate::error::ConfigCliError;
use crate::plan::{plan_view, FsAction, FsActionView};
use crate::utils::{configs_path, joined, optional_text, theme_path};

verus! {

/// Where the theme in `theme_dir` keeps the content of the config `name`.
pub open spec fn managed_path(theme_dir: Seq<char>, name: Seq<char>) -> Seq<char> {
    theme_dir + "/"@ + name
}

/// The entry of a config that has just been taken in.
pub open spec fn new_entry(theme_dir: Seq<char>, name: Seq<char>, file: Seq<char>) -> ConfigView {
    ConfigView {
        name,
        dependencies: Seq::empty(),
        symlink: file,
        conf_location: managed_path(theme_dir, name),
        active: false,
    }
}

/// The ledger after `entry` has been added: bound to `device` where one is
/// given, global otherwise.
pub open spec fn with_config(ledger: ConfigFileView, device: Option<Seq<char>>, entry: ConfigView)
    -> ConfigFileView {
    match device {
        Some(d) => ConfigFileView {
            globals: ledger.globals,
            device_bounds: ledger.device_bounds.push((d, entry)),
        },
        None => ConfigFileView {
            globals: ledger.globals.push(entry),
            device_bounds: ledger.device_bounds,
        },
    }
}

/// The steps that take `file` into the theme: move it into the storage, put
/// a link in its place, then store the ledger.
pub open spec fn add_config_plan(
    theme_dir: Seq<char>,
    name: Seq<char>,
    device: Option<Seq<char>>,
    file: Seq<char>,
    ledger: ConfigFileView,
) -> Seq<FsActionView> {
    seq![
        FsActionView::Rename { from: file, to: managed_path(theme_dir, name) },
        FsActionView::Symlink { target: managed_path(theme_dir, name), link: file },
        FsActionView::WriteConfigs {
            path: configs_path(theme_dir),
            ledger: with_config(ledger, device, new_entry(theme_dir, name, file)),
        },
    ]
}

/// A ledger stays valid when a config of a new name is added.
pub proof fn lemma_with_config_well_formed(
    ledger: ConfigFileView,
    device: Option<Seq<char>>,
    entry: ConfigView,
)
    requires
        ledger.well_formed(),
        !ledger.names(entry.name),
    ensures
        with_config(ledger, device, entry).well_formed(),
        with_config(ledger, device, entry).names(entry.name),
{
    let after = with_config(ledger, device, entry);
    let old_entries = ledger.entries();
    let new_entries = after.entries();
    let at = if device is Some {
        new_entries.len() - 1
    } else {
        ledger.globals.len() as int
    };
    assert(new_entries[at] == entry);
    assert forall|i: int, j: int| 0 <= i < j < new_entries.len() implies #[trigger] new_entries[i].name
        != #[trigger] new_entries[j].name by {
        let oi = if i < at { i } else { i - 1 };
        let oj = if j < at { j } else { j - 1 };
        if i != at {
            assert(new_entries[i] == old_entries[oi]);
        }
        if j != at {
            assert(new_entries[j] == old_entries[oj]);
        }
    }
}

impl ConfigFile {
    /// Whether some config of the ledger, global or bound, has this name.
    pub fn has_name(&self, name: &String) -> (found: bool)
        ensures
            found == self@.names(name@),
    {
        let mut i: usize = 0;
        while i < self.globals.len()
            invariant
                i <= self.globals.len(),
                forall|j: int| 0 <= j < i ==> self@.globals[j].name != name@,
            decreases self.globals.len() - i,
        {
            if self.globals[i].name == *name {
                assert(self@.entries()[i as int].name == name@);
                return true;
            }
            i += 1;
        }
        let mut k: usize = 0;
        while k < self.device_bounds.len()
            invariant
                k <= self.device_bounds.len(),
                forall|j: int| 0 <= j < self.globals.len() ==> self@.globals[j].name != name@,
                forall|j: int| 0 <= j < k ==> self@.bound_entries()[j].name != name@,
            decreases self.device_bounds.len() - k,
        {
            if self.device_bounds[k].1.name == *name {
                assert(self@.entries()[self.globals.len() + k].name == name@);
                return true;
            }
            k += 1;
        }
        assert forall|j: int| 0 <= j < self@.entries().len() implies #[trigger] self@.entries()[j].name
            != name@ by {
            if j < self.globals.len() {
                assert(self@.entries()[j] == self@.globals[j]);
            } else {
                assert(self@.entries()[j] == self@.bound_entries()[j - self.globals.len()]);
            }
        }
        false
    }
}

/// Plans taking the file `file` into the theme `theme` under the name
/// `name`, for the device `device` or, without one, for every device.
///
/// `base_dir` is the storage root. `ledger` is the config ledger of the
/// theme, `None` where the theme has no directory: that is refused with
/// `InvalidThemeName`. A name that any config of the ledger has already,
/// global or bound to whatever device, is refused with
/// `DuplicateConfigName`: two configs of one name would keep their content
/// at one path. Otherwise the plan moves the file into the theme, links it
/// back, and stores the ledger with the new entry at the end of its list.
pub fn add_config(
    name: String,
    device: Option<String>,
    theme: String,
    file: String,
    base_dir: &String,
    ledger: Option<ConfigFile>,
) -> (result: Result<Vec<FsAction>, ConfigCliError>)
    ensures
        ledger is None ==> result == Err::<Vec<FsAction>, ConfigCliError>(
            ConfigCliError::InvalidThemeName(theme),
        ),
        ledger matches Some(l) ==> (l@.names(name@) ==> result == Err::<
            Vec<FsAction>,
            ConfigCliError,
        >(ConfigCliError::DuplicateConfigName(name))),
        ledger matches Some(l) ==> (!l@.names(name@) ==> result is Ok && plan_view(
            result->Ok_0@,
        ) == add_config_plan(
            theme_path(base_dir@, theme@),
            name@,
            optional_text(device),
            file@,
            l@,
        )),
{
    let mut current = match ledger {
        Some(l) => l,
        None => {
            return Err(ConfigCliError::InvalidThemeName(theme));
        },
    };
    if current.has_name(&name) {
        return Err(ConfigCliError::DuplicateConfigName(name));
    }
    let ghost before = current@;
    let theme_dir = joined(base_dir, theme.as_str());
    let managed = joined(&joined(&theme_dir, "/"), name.as_str());
    let entry = Config {
        name,
        dependencies: Vec::new(),
        symlink: file.clone(),
        conf_location: managed.clone(),
        active: false,
    };
    let ghost fresh = entry@;
    assert(fresh.dependencies =~= Seq::empty());
    match device {
        Some(d) => {
            current.device_bounds.push((d, entry));
            assert(current@.device_bounds =~= before.device_bounds.push((d@, fresh)));
            assert(current@.globals =~= before.globals);
        },
        None => {
            current.globals.push(entry);
            assert(current@.globals =~= before.globals.push(fresh));
            assert(current@.device_bounds =~= before.device_bounds);
        },
    }
    let mut plan: Vec<FsAction> = Vec::new();
    plan.push(FsAction::Rename { from: file.clone(), to: managed.clone() });
    plan.push(FsAction::Symlink { target: managed, link: file });
    plan.push(
        FsAction::WriteConfigs { path: joined(&theme_dir, "/configs.toml"), ledger: current },
    );
    assert(plan_view(plan@) =~= add_config_plan(
        theme_path(base_dir@, theme@),
        fresh.name,
        optional_text(device),
        file@,
        before,
    ));
    Ok(plan)
}

} // verus!
