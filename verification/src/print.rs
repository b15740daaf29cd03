//! What to show of the outcome of a command.

use vstd::prelude::*;
use crate::config::{config_views, Config, ConfigView};
use crate::error::ConfigCliError;
use crate::utils::texts;

verus! {

/// The outcome of a command, by what there is to show of it.
#[derive(Debug, PartialEq, Eq)]
pub enum CommandResult {
    /// A list of names: of dependencies, devices or themes.
    DependencyThemeList(Result<Vec<String>, ConfigCliError>),
    /// A list of configs.
    ConfigList(Result<Vec<Config>, ConfigCliError>),
    /// A change, of which only a failure is shown.
    AddRemove(Result<(), ConfigCliError>),
}

/// The names of a list of configs, in order.
pub open spec fn config_names(configs: Seq<ConfigView>) -> Seq<Seq<char>> {
    Seq::new(configs.len(), |i: int| configs[i].name)
}

impl CommandResult {
    /// The lines to show: of a failure its description, of a list of names
    /// the names, of a list of configs their names, of a change that went
    /// well nothing.
    pub open spec fn shown(self) -> Seq<Seq<char>> {
        match self {
            CommandResult::DependencyThemeList(Ok(names)) => texts(names@),
            CommandResult::DependencyThemeList(Err(error)) => seq![error.description()],
            CommandResult::ConfigList(Ok(configs)) => config_names(config_views(configs@)),
            CommandResult::ConfigList(Err(error)) => seq![error.description()],
            CommandResult::AddRemove(Ok(_)) => Seq::empty(),
            CommandResult::AddRemove(Err(error)) => seq![error.description()],
        }
    }

    /// The lines to show of this outcome, one text per line.
    pub fn lines(&self) -> (lines: Vec<String>)
        ensures
            texts(lines@) == self.shown(),
    {
        let mut lines: Vec<String> = Vec::new();
        match self {
            CommandResult::DependencyThemeList(Ok(names)) => {
                let mut i: usize = 0;
                while i < names.len()
                    invariant
                        i <= names.len(),
                        lines.len() == i,
                        forall|j: int| 0 <= j < i ==> lines[j]@ == names[j]@,
                    decreases names.len() - i,
                {
                    lines.push(names[i].clone());
                    i += 1;
                }
                assert(texts(lines@) =~= texts(names@));
            },
            CommandResult::ConfigList(Ok(configs)) => {
                let mut i: usize = 0;
                while i < configs.len()
                    invariant
                        i <= configs.len(),
                        lines.len() == i,
                        forall|j: int| 0 <= j < i ==> lines[j]@ == configs[j].name@,
                    decreases configs.len() - i,
                {
                    lines.push(configs[i].name.clone());
                    i += 1;
                }
                assert(texts(lines@) =~= config_names(config_views(configs@)));
            },
            CommandResult::AddRemove(Ok(_)) => {
                assert(texts(lines@) =~= Seq::<Seq<char>>::empty());
            },
            CommandResult::DependencyThemeList(Err(error)) => {
                lines.push(error.message());
                assert(texts(lines@) =~= seq![error.description()]);
            },
            CommandResult::ConfigList(Err(error)) => {
                lines.push(error.message());
                assert(texts(lines@) =~= seq![error.description()]);
            },
            CommandResult::AddRemove(Err(error)) => {
                lines.push(error.message());
                assert(texts(lines@) =~= seq![error.description()]);
            },
        }
        lines
    }
}

} // verus!
