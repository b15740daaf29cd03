//! Putting a theme to use: the content of its configs is copied to the
//! places outside, one config after the other, and the theme then becomes
//! the one in use.

use vstd::prelude::*;
use crate::config::list::bound_to_device;
use crate::config::{config_views, Config, ConfigFile, ConfigFileView, ConfigView};
use crate::error::ConfigCliError;
use crate::plan::{plan_view, FsAction, FsActionView};
use crate::utils::{current_theme_path, joined, optional_text, CurrentTheme};

verus! {

/// What a look at a path has found there.
#[derive(Debug, Clone, Copy, PartialEq, Eq)]
pub enum SlotState {
    /// Neither a file nor a directory.
    Free,
    /// A file.
    File,
    /// A directory.
    Directory,
}

/// A theme about to be put to use: its configs are applied in the order of
/// `entries`, each after a look at its place outside, the `symlink`.
#[derive(Debug, Clone, PartialEq, Eq)]
pub struct Activation {
    pub theme: String,
    pub force: bool,
    pub entries: Vec<Config>,
}

/// How far putting a theme to use has come.
#[derive(Debug, Clone, PartialEq, Eq)]
pub enum ActivationProgress {
    /// This many configs have been applied, and no step has failed.
    Applied(usize),
    /// A step has failed, with this failure.
    Failed(ConfigCliError),
}

/// What to do next when a theme is put to use.
#[derive(Debug, Clone, PartialEq, Eq)]
pub enum ActivationStep {
    /// Take this step, which applies the next config, and come back with
    /// how it went.
    Apply(FsAction),
    /// Every config has been applied: take these steps, which make the
    /// theme the one in use, and the work is done.
    Finish(Vec<FsAction>),
    /// The work has ended with this failure: nothing more is to be done.
    Stop(ConfigCliError),
}

/// An `ActivationStep` with its steps as plain values.
pub enum ActivationStepView {
    Apply(FsActionView),
    Finish(Seq<FsActionView>),
    Stop(ConfigCliError),
}

impl View for ActivationStep {
    type V = ActivationStepView;

    open spec fn view(&self) -> ActivationStepView {
        match *self {
            ActivationStep::Apply(step) => ActivationStepView::Apply(step@),
            ActivationStep::Finish(plan) => ActivationStepView::Finish(plan_view(plan@)),
            ActivationStep::Stop(error) => ActivationStepView::Stop(error),
        }
    }
}

/// Whether a config may not be applied: something is at its place outside,
/// and overwriting was not asked for.
pub open spec fn refused(force: bool, slot: SlotState) -> bool {
    !force && !(slot is Free)
}

/// The failure that refuses `config` when a look has found its place
/// outside taken: the two kinds of thing found there give two failures,
/// both with the path of the place.
pub open spec fn refusal(config: Config, slot: SlotState) -> ConfigCliError {
    if slot is Directory {
        ConfigCliError::ConfigLocationUsed(config.symlink)
    } else {
        ConfigCliError::InvalidConfigLocation(config.symlink)
    }
}

/// The step that applies `entry`: copy its content to its place outside.
pub open spec fn copy_out(entry: ConfigView) -> FsActionView {
    FsActionView::CopyRecursive { from: entry.conf_location, to: entry.symlink }
}

/// The configs that putting a theme to use applies, in order: the global
/// ones, then, where a device is given, the ones bound to it.
pub open spec fn activation_entries(ledger: ConfigFileView, device: Option<Seq<char>>) -> Seq<
    ConfigView,
> {
    match device {
        Some(d) => ledger.globals + ledger.bound_to(d),
        None => ledger.globals,
    }
}

/// The steps that make `name` the theme in use: create the pointer file
/// below `base_dir` where it is missing, then store the name in it.
pub open spec fn pointer_plan(base_dir: Seq<char>, name: Seq<char>, exists: bool) -> Seq<
    FsActionView,
> {
    let write = FsActionView::WriteCurrentTheme { path: current_theme_path(base_dir), theme: name };
    if exists {
        seq![write]
    } else {
        seq![FsActionView::CreateFile { path: current_theme_path(base_dir) }, write]
    }
}

/// What is to be done next, given how far the work has come, what the look
/// at the place of the next config has found, and whether the pointer file
/// is there.
///
/// After a failed step nothing follows. While configs are left, the next
/// one is applied, or refused where its place is taken and overwriting was
/// not asked for; a refusal ends the work. Only when every config has been
/// applied is the theme made the one in use.
pub open spec fn planned_step(
    activation: Activation,
    progress: ActivationProgress,
    found: SlotState,
    base_dir: Seq<char>,
    pointer_exists: bool,
) -> ActivationStepView {
    match progress {
        ActivationProgress::Failed(error) => ActivationStepView::Stop(error),
        ActivationProgress::Applied(done) => {
            if done < activation.entries@.len() {
                let config = activation.entries@[done as int];
                if refused(activation.force, found) {
                    ActivationStepView::Stop(refusal(config, found))
                } else {
                    ActivationStepView::Apply(copy_out(config@))
                }
            } else {
                ActivationStepView::Finish(
                    pointer_plan(base_dir, activation.theme@, pointer_exists),
                )
            }
        },
    }
}

/// How far the work has come after the step `step`, asked for at
/// `progress`, has been taken: `failure` is `None` where it went well and
/// the error text of the operating system where it did not.
pub open spec fn progress_after(
    activation: Activation,
    progress: ActivationProgress,
    step: FsActionView,
    failure: Option<String>,
) -> ActivationProgress {
    match progress {
        ActivationProgress::Applied(done) if done < activation.entries@.len() => match failure {
            None => ActivationProgress::Applied((done + 1) as usize),
            Some(reason) => ActivationProgress::Failed(step.failure(reason)),
        },
        _ => progress,
    }
}

/// Decides on one config of a theme that is put to use, given what was
/// found at its place outside, the `symlink`.
///
/// Without `force` a file there is refused with `InvalidConfigLocation` and
/// a directory with `ConfigLocationUsed`, both with the path of the place,
/// and nothing is to be done. Otherwise the step to take copies the content
/// of the config to its place outside, over what is there.
pub fn apply_config(config: &Config, force: bool, slot: SlotState) -> (result: Result<
    FsAction,
    ConfigCliError,
>)
    ensures
        refused(force, slot) ==> result == Err::<FsAction, ConfigCliError>(refusal(*config, slot)),
        !refused(force, slot) ==> result is Ok && result->Ok_0@ == copy_out(config@),
        result is Err ==> result->Err_0.is_location_in_use() && result->Err_0.detail()
            == config.symlink@,
{
    if !force {
        match slot {
            SlotState::File => {
                return Err(ConfigCliError::InvalidConfigLocation(config.symlink.clone()));
            },
            SlotState::Directory => {
                return Err(ConfigCliError::ConfigLocationUsed(config.symlink.clone()));
            },
            SlotState::Free => {},
        }
    }
    Ok(
        FsAction::CopyRecursive {
            from: config.conf_location.clone(),
            to: config.symlink.clone(),
        },
    )
}

/// Plans making `name` the theme in use: `exists` says whether the pointer
/// file below the storage root `base_dir` is there.
pub fn change_current_theme(name: String, base_dir: &String, exists: bool) -> (plan: Vec<FsAction>)
    ensures
        plan_view(plan@) == pointer_plan(base_dir@, name@, exists),
{
    let mut plan: Vec<FsAction> = Vec::new();
    if !exists {
        plan.push(FsAction::CreateFile { path: joined(base_dir, "current_theme.toml") });
    }
    plan.push(
        FsAction::WriteCurrentTheme {
            path: joined(base_dir, "current_theme.toml"),
            pointer: CurrentTheme { current_theme: name },
        },
    );
    assert(plan_view(plan@) =~= pointer_plan(base_dir@, name@, exists));
    plan
}

/// Starts putting the theme `name` to use, on the device `device` where one
/// is given.
///
/// `ledger` is the config ledger of the theme, `None` where the theme has
/// no directory: that is refused with `InvalidThemeName`. Otherwise the
/// configs to apply come back in their order: the global ones, then those
/// bound to the device. The work then goes step by step, from
/// `ActivationProgress::Applied(0)`: `next_step` says what to do and
/// `after_apply` how far the work has come once that is done.
pub fn use_theme(name: String, force: bool, device: Option<String>, ledger: Option<ConfigFile>)
    -> (result: Result<Activation, ConfigCliError>)
    ensures
        ledger is None ==> result == Err::<Activation, ConfigCliError>(
            ConfigCliError::InvalidThemeName(name),
        ),
        ledger matches Some(l) ==> result is Ok && result->Ok_0.theme == name
            && result->Ok_0.force == force && config_views(result->Ok_0.entries@)
            == activation_entries(l@, optional_text(device)),
{
    let current = match ledger {
        Some(l) => l,
        None => {
            return Err(ConfigCliError::InvalidThemeName(name));
        },
    };
    let mut entries = current.globals;
    match device {
        Some(d) => {
            let ghost globals = config_views(entries@);
            let mut bound = bound_to_device(current.device_bounds, &d);
            let ghost tail = config_views(bound@);
            entries.append(&mut bound);
            assert(config_views(entries@) =~= globals + tail);
        },
        None => {},
    }
    Ok(Activation { theme: name, force, entries })
}

impl Activation {
    /// The place to look at before the next step: the place outside of the
    /// next config to apply, or `None` where no config is left or a step
    /// has failed.
    pub fn place_to_look(&self, progress: &ActivationProgress) -> (place: Option<&String>)
        ensures
            match *progress {
                ActivationProgress::Applied(done) if done < self.entries@.len() => place == Some(
                    &self.entries@[done as int].symlink,
                ),
                _ => place is None,
            },
    {
        match progress {
            ActivationProgress::Applied(done) => {
                if *done < self.entries.len() {
                    Some(&self.entries[*done].symlink)
                } else {
                    None
                }
            },
            ActivationProgress::Failed(_) => None,
        }
    }

    /// Says what to do next.
    ///
    /// `found` is what the look at `place_to_look` has found, `base_dir` the
    /// storage root, and `pointer_exists` whether the pointer file is
    /// there. The configs are applied in order. A config whose place is
    /// taken, without `force`, ends the work with the refusal of
    /// `apply_config`; a step that has failed ends it with its failure.
    /// Either way the configs that follow are left alone and the theme in
    /// use stays what it was. After the last config the theme is made the
    /// one in use.
    pub fn next_step(
        &self,
        progress: &ActivationProgress,
        found: SlotState,
        base_dir: &String,
        pointer_exists: bool,
    ) -> (step: ActivationStep)
        ensures
            step@ == planned_step(*self, *progress, found, base_dir@, pointer_exists),
    {
        match progress {
            ActivationProgress::Failed(error) => ActivationStep::Stop(error.duplicate()),
            ActivationProgress::Applied(done) => {
                if *done < self.entries.len() {
                    match apply_config(&self.entries[*done], self.force, found) {
                        Ok(step) => ActivationStep::Apply(step),
                        Err(error) => ActivationStep::Stop(error),
                    }
                } else {
                    ActivationStep::Finish(
                        change_current_theme(self.theme.clone(), base_dir, pointer_exists),
                    )
                }
            },
        }
    }

    /// Says how far the work has come after the step `step`, which
    /// `next_step` asked for at `progress`, has been taken: `failure` is
    /// `None` where it went well and the error text of the operating
    /// system where it did not.
    pub fn after_apply(
        &self,
        progress: ActivationProgress,
        step: &FsAction,
        failure: Option<String>,
    ) -> (next: ActivationProgress)
        ensures
            next == progress_after(*self, progress, step@, failure),
    {
        match progress {
            ActivationProgress::Applied(done) => {
                if done < self.entries.len() {
                    match failure {
                        None => ActivationProgress::Applied(done + 1),
                        Some(reason) => ActivationProgress::Failed(step.failure(reason)),
                    }
                } else {
                    ActivationProgress::Applied(done)
                }
            },
            ActivationProgress::Failed(error) => ActivationProgress::Failed(error),
        }
    }
}

} // verus!
