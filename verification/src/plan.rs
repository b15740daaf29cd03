//! The steps on the filesystem that an operation asks its caller to take.

use vstd::prelude::*;
use crate::config::{ConfigFile, ConfigFileView};
use crate::dependency::{DependencyFile, DependencyFileView};
use crate::error::ConfigCliError;
use crate::utils::CurrentTheme;

verus! {

/// One step on the filesystem. A plan is a list of steps, to be taken in
/// order and given up at the first step that fails.
#[derive(Debug, Clone, PartialEq, Eq)]
pub enum FsAction {
    /// Create the directory `path`.
    CreateDir { path: String },
    /// Create the file `path`, empty.
    CreateFile { path: String },
    /// Move what is at `from` to `to`.
    Rename { from: String, to: String },
    /// Create at `link` a symbolic link to `target`.
    Symlink { target: String, link: String },
    /// Delete the file or link at `path`.
    Delete { path: String },
    /// Copy what is at `from`, with all it contains, to `to`.
    CopyRecursive { from: String, to: String },
    /// Delete the directory `path` with all it contains.
    DeleteRecursive { path: String },
    /// Store `ledger` in the file `path`, which exists.
    WriteConfigs { path: String, ledger: ConfigFile },
    /// Store `ledger` in the file `path`, which exists.
    WriteDependencies { path: String, ledger: DependencyFile },
    /// Store `pointer` in the file `path`, which exists.
    WriteCurrentTheme { path: String, pointer: CurrentTheme },
}

/// A step as plain values.
pub enum FsActionView {
    CreateDir { path: Seq<char> },
    CreateFile { path: Seq<char> },
    Rename { from: Seq<char>, to: Seq<char> },
    Symlink { target: Seq<char>, link: Seq<char> },
    Delete { path: Seq<char> },
    CopyRecursive { from: Seq<char>, to: Seq<char> },
    DeleteRecursive { path: Seq<char> },
    WriteConfigs { path: Seq<char>, ledger: ConfigFileView },
    WriteDependencies { path: Seq<char>, ledger: DependencyFileView },
    WriteCurrentTheme { path: Seq<char>, theme: Seq<char> },
}

impl View for FsAction {
    type V = FsActionView;

    open spec fn view(&self) -> FsActionView {
        match *self {
            FsAction::CreateDir { path } => FsActionView::CreateDir { path: path@ },
            FsAction::CreateFile { path } => FsActionView::CreateFile { path: path@ },
            FsAction::Rename { from, to } => FsActionView::Rename { from: from@, to: to@ },
            FsAction::Symlink { target, link } => FsActionView::Symlink {
                target: target@,
                link: link@,
            },
            FsAction::Delete { path } => FsActionView::Delete { path: path@ },
            FsAction::CopyRecursive { from, to } => FsActionView::CopyRecursive {
                from: from@,
                to: to@,
            },
            FsAction::DeleteRecursive { path } => FsActionView::DeleteRecursive { path: path@ },
            FsAction::WriteConfigs { path, ledger } => FsActionView::WriteConfigs {
                path: path@,
                ledger: ledger@,
            },
            FsAction::WriteDependencies { path, ledger } => FsActionView::WriteDependencies {
                path: path@,
                ledger: ledger@,
            },
            FsAction::WriteCurrentTheme { path, pointer } => FsActionView::WriteCurrentTheme {
                path: path@,
                theme: pointer.current_theme@,
            },
        }
    }
}

/// The views of a list of steps, in order.
pub open spec fn plan_view(plan: Seq<FsAction>) -> Seq<FsActionView> {
    Seq::new(plan.len(), |i: int| plan[i]@)
}

impl FsActionView {
    /// The failure to report when this step fails with the operating
    /// system's error text `reason`.
    pub open spec fn failure(self, reason: String) -> ConfigCliError {
        match self {
            FsActionView::CreateDir { .. } => ConfigCliError::FileCreationError(reason),
            FsActionView::CreateFile { .. } => ConfigCliError::FileCreationError(reason),
            FsActionView::Rename { .. } => ConfigCliError::RenameError(reason),
            FsActionView::Symlink { .. } => ConfigCliError::SymlinkError(reason),
            FsActionView::Delete { .. } => ConfigCliError::DeleteError(reason),
            FsActionView::CopyRecursive { .. } => ConfigCliError::CopyError(reason),
            FsActionView::DeleteRecursive { .. } => ConfigCliError::DeleteError(reason),
            FsActionView::WriteConfigs { .. } => ConfigCliError::FsWriteError(reason),
            FsActionView::WriteDependencies { .. } => ConfigCliError::FsWriteError(reason),
            FsActionView::WriteCurrentTheme { .. } => ConfigCliError::FsWriteError(reason),
        }
    }
}

impl FsAction {
    /// The failure to report when this step fails with the operating
    /// system's error text `reason`.
    pub fn failure(&self, reason: String) -> (error: ConfigCliError)
        ensures
            error == self@.failure(reason),
    {
        match self {
            FsAction::CreateDir { .. } => ConfigCliError::FileCreationError(reason),
            FsAction::CreateFile { .. } => ConfigCliError::FileCreationError(reason),
            FsAction::Rename { .. } => ConfigCliError::RenameError(reason),
            FsAction::Symlink { .. } => ConfigCliError::SymlinkError(reason),
            FsAction::Delete { .. } => ConfigCliError::DeleteError(reason),
            FsAction::CopyRecursive { .. } => ConfigCliError::CopyError(reason),
            FsAction::DeleteRecursive { .. } => ConfigCliError::DeleteError(reason),
            FsAction::WriteConfigs { .. } => ConfigCliError::FsWriteError(reason),
            FsAction::WriteDependencies { .. } => ConfigCliError::FsWriteError(reason),
            FsAction::WriteCurrentTheme { .. } => ConfigCliError::FsWriteError(reason),
        }
    }
}

} // verus!
