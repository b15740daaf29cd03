//! The commands that a user can give, as values.

use vstd::prelude::*;
use crate::cli::config_actions::ConfigActions;
use crate::cli::dependency_actions::DependencyActions;
use crate::cli::device_actions::DeviceActions;
use crate::cli::git_actions::GitActions;
use crate::cli::theme_actions::ThemeActions;

pub mod config_actions;
pub mod dependency_actions;
pub mod device_actions;
pub mod git_actions;
pub mod theme_actions;

verus! {

/// One invocation: the command to carry out.
#[derive(Debug, Clone, PartialEq, Eq)]
pub struct ConfigCli {
    pub command: ConfigSubCommands,
}

/// A command, by the kind of thing it works on.
#[derive(Debug, Clone, PartialEq, Eq)]
pub enum ConfigSubCommands {
    Dependency { action: DependencyActions },
    Config { action: ConfigActions },
    Device { action: DeviceActions },
    Theme { action: ThemeActions },
    Git { action: GitActions },
}

impl ConfigSubCommands {
    /// Whether the command works on the theme in use, so that the pointer
    /// to it has to be read first.
    pub open spec fn on_current_theme(self) -> bool {
        match self {
            ConfigSubCommands::Dependency { .. } => true,
            ConfigSubCommands::Config { .. } => true,
            ConfigSubCommands::Device { .. } => true,
            ConfigSubCommands::Theme { .. } => false,
            ConfigSubCommands::Git { action } => !(action is InstallTheme),
        }
    }

    /// Whether the command works on the theme in use: commands on
    /// dependencies, configs and devices do, and those on the repository of
    /// a theme, but for installing one. Commands on themes name their theme
    /// themselves.
    pub fn needs_current_theme(&self) -> (needed: bool)
        ensures
            needed == self.on_current_theme(),
    {
        match self {
            ConfigSubCommands::Dependency { .. } => true,
            ConfigSubCommands::Config { .. } => true,
            ConfigSubCommands::Device { .. } => true,
            ConfigSubCommands::Theme { .. } => false,
            ConfigSubCommands::Git { action } => match action {
                GitActions::InstallTheme { .. } => false,
                _ => true,
            },
        }
    }
}

impl ConfigCli {
    /// Whether carrying the invocation out changes which theme is in use:
    /// only putting a theme to use does.
    pub fn selects_theme(&self) -> (selects: bool)
        ensures
            selects == (self.command matches ConfigSubCommands::Theme { action }
                && action is Use),
    {
        match &self.command {
            ConfigSubCommands::Theme { action } => match action {
                ThemeActions::Use { .. } => true,
                _ => false,
            },
            _ => false,
        }
    }
}

} // verus!
