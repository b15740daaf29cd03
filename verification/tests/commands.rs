use config_manager::cli::config_actions::ConfigActions;
use config_manager::cli::dependency_actions::DependencyActions;
use config_manager::cli::device_actions::DeviceActions;
use config_manager::cli::git_actions::GitActions;
use config_manager::cli::theme_actions::ThemeActions;
use config_manager::cli::{ConfigCli, ConfigSubCommands};

fn text(s: &str) -> String {
    s.to_string()
}

#[test]
fn commands_on_the_theme_in_use() {
    let commands = vec![
        ConfigSubCommands::Dependency { action: DependencyActions::List { config_name: text("vim") } },
        ConfigSubCommands::Dependency {
            action: DependencyActions::Add { dependency_name: text("fzf"), config_name: None },
        },
        ConfigSubCommands::Dependency {
            action: DependencyActions::Remove { dependency_name: text("fzf") },
        },
        ConfigSubCommands::Config { action: ConfigActions::List { device_name: None } },
        ConfigSubCommands::Config {
            action: ConfigActions::Add {
                config_name: text("vim"),
                file: text("/home/u/.vimrc"),
                device_name: None,
            },
        },
        ConfigSubCommands::Config { action: ConfigActions::Remove { config_name: text("vim") } },
        ConfigSubCommands::Device { action: DeviceActions::List },
        ConfigSubCommands::Device { action: DeviceActions::Use { name: text("laptop") } },
        ConfigSubCommands::Device { action: DeviceActions::Remove { name: text("laptop") } },
        ConfigSubCommands::Git { action: GitActions::Pull },
        ConfigSubCommands::Git { action: GitActions::Push { commit_message: None } },
        ConfigSubCommands::Git { action: GitActions::SetUrl { url: text("git@host:repo") } },
    ];
    for command in commands {
        assert!(command.needs_current_theme());
        assert!(!ConfigCli { command }.selects_theme());
    }
}

#[test]
fn commands_that_name_their_theme() {
    let commands = vec![
        ConfigSubCommands::Theme { action: ThemeActions::List },
        ConfigSubCommands::Theme { action: ThemeActions::Create { name: text("dark"), base: None } },
        ConfigSubCommands::Theme { action: ThemeActions::Remove { name: text("dark") } },
        ConfigSubCommands::Theme {
            action: ThemeActions::Use { name: text("dark"), force: false, device: None },
        },
        ConfigSubCommands::Git { action: GitActions::InstallTheme { url: text("git@host:repo") } },
    ];
    for command in commands {
        assert!(!command.needs_current_theme());
    }
}

#[test]
fn only_use_selects_a_theme() {
    let using = ConfigCli {
        command: ConfigSubCommands::Theme {
            action: ThemeActions::Use { name: text("dark"), force: true, device: Some(text("desk")) },
        },
    };
    assert!(using.selects_theme());
    let listing = ConfigCli { command: ConfigSubCommands::Theme { action: ThemeActions::List } };
    assert!(!listing.selects_theme());
}
