//! Installing a package: ask the package manager whether it is installed,
//! and install it where it is not.

use vstd::prelude::*;
use crate::dependency::Dependency;
use crate::error::ConfigCliError;
use crate::utils::texts;

verus! {

/// How a run of the package manager ended: its exit code, if it has one,
/// and its status in words.
#[derive(Debug, Clone, PartialEq, Eq)]
pub struct ProcessExit {
    pub code: Option<i32>,
    pub status: String,
}

impl ProcessExit {
    /// Whether the run ended well, with the exit code 0.
    pub open spec fn succeeded(self) -> bool {
        self.code == Some(0i32)
    }
}

/// How far the installation of a package has come.
#[derive(Debug, Clone, PartialEq, Eq)]
pub enum InstallProgress {
    /// Nothing has been run.
    Start,
    /// The question whether the package is installed has been run.
    Queried(ProcessExit),
    /// The installation has been run.
    Installed(ProcessExit),
}

/// What to do next for the installation of a package.
#[derive(Debug, Clone, PartialEq, Eq)]
pub enum InstallStep {
    /// Run this command, program first, and come back with how it ended.
    Run(Vec<String>),
    /// The package is installed.
    Done,
    /// The installation has failed.
    Failed(ConfigCliError),
}

/// The command that asks whether the package `name` is installed.
pub open spec fn query_words(name: Seq<char>) -> Seq<Seq<char>> {
    seq!["yay"@, "-Q"@, name]
}

/// The command that installs the package `name`.
pub open spec fn install_words(name: Seq<char>) -> Seq<Seq<char>> {
    seq!["yay"@, "-S"@, name]
}

/// The command `yay` with the option `option` for the package `name`.
fn package_command(option: &str, name: &String) -> (command: Vec<String>)
    ensures
        texts(command@) == seq!["yay"@, option@, name@],
{
    let mut command: Vec<String> = Vec::new();
    command.push(String::from_str("yay"));
    command.push(String::from_str(option));
    command.push(name.clone());
    assert(texts(command@) =~= seq!["yay"@, option@, name@]);
    command
}

impl Dependency {
    /// Decides the next step of the installation of this package.
    ///
    /// At the start the package manager is asked whether the package is
    /// installed. If that run ends with the exit code 0 nothing is left to
    /// do; otherwise the package is installed. If the installation ends
    /// with the exit code 0 the package is installed; otherwise the failure
    /// is `InstallError` with the status of that run.
    pub fn install(&self, progress: InstallProgress) -> (step: InstallStep)
        ensures
            progress is Start ==> step is Run && texts(step->Run_0@) == query_words(self@),
            progress matches InstallProgress::Queried(exit) ==> (if exit.succeeded() {
                step is Done
            } else {
                step is Run && texts(step->Run_0@) == install_words(self@)
            }),
            progress matches InstallProgress::Installed(exit) ==> (if exit.succeeded() {
                step is Done
            } else {
                step == InstallStep::Failed(ConfigCliError::InstallError(exit.status))
            }),
    {
        match progress {
            InstallProgress::Start => InstallStep::Run(package_command("-Q", &self.0)),
            InstallProgress::Queried(exit) => {
                if ended_well(&exit) {
                    InstallStep::Done
                } else {
                    InstallStep::Run(package_command("-S", &self.0))
                }
            },
            InstallProgress::Installed(exit) => {
                if ended_well(&exit) {
                    InstallStep::Done
                } else {
                    InstallStep::Failed(ConfigCliError::InstallError(exit.status))
                }
            },
        }
    }
}

/// Says how far the installation has come after the command that `install`
/// asked for at `progress` has been run and has ended with `exit`: the
/// first run is the question, every later one the installation.
pub fn after_run(progress: InstallProgress, exit: ProcessExit) -> (next: InstallProgress)
    ensures
        progress is Start ==> next == InstallProgress::Queried(exit),
        !(progress is Start) ==> next == InstallProgress::Installed(exit),
{
    match progress {
        InstallProgress::Start => InstallProgress::Queried(exit),
        _ => InstallProgress::Installed(exit),
    }
}

/// Whether the run ended with the exit code 0.
fn ended_well(exit: &ProcessExit) -> (well: bool)
    ensures
        well == exit.succeeded(),
{
    match exit.code {
        Some(code) => code == 0,
        None => false,
    }
}

} // verus!
