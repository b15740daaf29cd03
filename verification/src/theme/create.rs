//! Creating a theme, empty or as a copy of another.

use vstd::prelude::*;
use crate::config::{ConfigFile, ConfigFileView};
use crate::dependency::{DependencyFile, DependencyFileView};
use crate::error::ConfigCliError;
use crate::plan::{plan_view, FsAction, FsActionView};
use crate::utils::{configs_path, dependencies_path, joined, optional_text, theme_path};

verus! {

/// The steps that create the theme `name` below `base_dir`: make its
/// directory, then either copy all of the theme `base` into it or start
/// both ledgers empty.
pub open spec fn create_theme_plan(base_dir: Seq<char>, name: Seq<char>, base: Option<Seq<char>>)
    -> Seq<FsActionView> {
    let theme_dir = theme_path(base_dir, name);
    match base {
        Some(b) => seq![
            FsActionView::CreateDir { path: theme_dir },
            FsActionView::CopyRecursive { from: theme_path(base_dir, b), to: theme_dir },
        ],
        None => seq![
            FsActionView::CreateDir { path: theme_dir },
            FsActionView::CreateFile { path: dependencies_path(theme_dir) },
            FsActionView::WriteDependencies {
                path: dependencies_path(theme_dir),
                ledger: DependencyFileView { globals: Seq::empty(), config_bounds: Seq::empty() },
            },
            FsActionView::CreateFile { path: configs_path(theme_dir) },
            FsActionView::WriteConfigs {
                path: configs_path(theme_dir),
                ledger: ConfigFileView { globals: Seq::empty(), device_bounds: Seq::empty() },
            },
        ],
    }
}

/// Plans the creation of the theme `name`, as a copy of the theme `base`
/// where one is given.
///
/// `base_dir` is the storage root; `exists` says whether the directory of
/// the theme is there already, which is refused with `ThemeAlreadyExists`.
/// A copy owns all it holds: nothing of it is shared with `base`.
pub fn create_theme(name: String, base: Option<String>, base_dir: &String, exists: bool) -> (result:
    Result<Vec<FsAction>, ConfigCliError>)
    ensures
        exists ==> result == Err::<Vec<FsAction>, ConfigCliError>(
            ConfigCliError::ThemeAlreadyExists(name),
        ),
        !exists ==> result is Ok && plan_view(result->Ok_0@) == create_theme_plan(
            base_dir@,
            name@,
            optional_text(base),
        ),
{
    if exists {
        return Err(ConfigCliError::ThemeAlreadyExists(name));
    }
    let theme_dir = joined(base_dir, name.as_str());
    let mut plan: Vec<FsAction> = Vec::new();
    plan.push(FsAction::CreateDir { path: theme_dir.clone() });
    match base {
        Some(b) => {
            plan.push(
                FsAction::CopyRecursive { from: joined(base_dir, b.as_str()), to: theme_dir },
            );
            assert(plan_view(plan@) =~= create_theme_plan(base_dir@, name@, Some(b@)));
        },
        None => {
            let dependencies = DependencyFile::default();
            let configs = ConfigFile::default();
            assert(dependencies@.globals =~= Seq::empty());
            assert(dependencies@.config_bounds =~= Seq::empty());
            assert(configs@.globals =~= Seq::empty());
            assert(configs@.device_bounds =~= Seq::empty());
            plan.push(FsAction::CreateFile { path: joined(&theme_dir, "/dependencies.toml") });
            plan.push(
                FsAction::WriteDependencies {
                    path: joined(&theme_dir, "/dependencies.toml"),
                    ledger: dependencies,
                },
            );
            plan.push(FsAction::CreateFile { path: joined(&theme_dir, "/configs.toml") });
            plan.push(
                FsAction::WriteConfigs { path: joined(&theme_dir, "/configs.toml"), ledger: configs },
            );
            assert(plan_view(plan@) =~= create_theme_plan(base_dir@, name@, None));
        },
    }
    Ok(plan)
}

} // verus!
