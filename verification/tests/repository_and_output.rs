use config_manager::config::Config;
use config_manager::error::ConfigCliError;
use config_manager::git::{git_init, install_theme, pull, push, set_url, GitCommand};
use config_manager::print::CommandResult;

fn text(s: &str) -> String {
    s.to_string()
}

fn run(words: &[&str], directory: &str) -> GitCommand {
    GitCommand { arguments: words.iter().map(|w| text(w)).collect(), directory: text(directory) }
}

#[test]
fn install_theme_clones_into_the_storage_root() {
    assert_eq!(
        install_theme(text("https://host/themes.git"), &text("/store/")),
        run(&["clone", "https://host/themes.git"], "/store/")
    );
}

#[test]
fn git_init_sets_the_origin() {
    assert_eq!(
        git_init(text("git@host:dark.git"), &text("/store/dark")),
        vec![
            run(&["init"], "/store/dark"),
            run(&["remote", "add", "origin", "git@host:dark.git"], "/store/dark"),
        ]
    );
}

#[test]
fn set_url_changes_the_origin() {
    assert_eq!(
        set_url(text("git@host:dark.git"), &text("/store/dark")),
        run(&["remote", "set-url", "origin", "git@host:dark.git"], "/store/dark")
    );
}

#[test]
fn pull_runs_in_the_theme_directory() {
    assert_eq!(pull(&text("/store/dark")), run(&["pull"], "/store/dark"));
}

#[test]
fn push_commits_with_the_given_message() {
    assert_eq!(
        push(Some(text("new colours")), &text("/store/dark")),
        vec![
            run(&["add", "."], "/store/dark"),
            run(&["commit", "-m", "new colours"], "/store/dark"),
            run(&["push"], "/store/dark"),
        ]
    );
}

#[test]
fn push_commits_with_the_default_message() {
    assert_eq!(
        push(None, &text("/store/dark")),
        vec![
            run(&["add", "."], "/store/dark"),
            run(&["commit", "-m", "Automated commit from config_manager"], "/store/dark"),
            run(&["push"], "/store/dark"),
        ]
    );
}

#[test]
fn a_change_that_went_well_shows_nothing() {
    assert_eq!(CommandResult::AddRemove(Ok(())).lines(), Vec::<String>::new());
}

#[test]
fn a_failure_shows_its_description() {
    let failure = ConfigCliError::DuplicateConfigName(text("vim"));
    assert_eq!(
        CommandResult::AddRemove(Err(failure.clone())).lines(),
        vec![text("Config already exists: \nvim")]
    );
    assert_eq!(
        CommandResult::DependencyThemeList(Err(ConfigCliError::NoThemeSelected)).lines(),
        vec![text("No theme selected")]
    );
    assert_eq!(
        CommandResult::ConfigList(Err(ConfigCliError::FsReadError(text("gone")))).lines(),
        vec![text("Read Error: \ngone")]
    );
}

#[test]
fn a_list_of_names_shows_each_name() {
    let names = vec![text("dark"), text("light")];
    assert_eq!(CommandResult::DependencyThemeList(Ok(names.clone())).lines(), names);
    assert_eq!(CommandResult::DependencyThemeList(Ok(vec![])).lines(), Vec::<String>::new());
}

#[test]
fn a_list_of_configs_shows_their_names() {
    let configs = vec![
        Config {
            name: text("vim"),
            dependencies: vec![],
            symlink: text("/home/u/.vimrc"),
            conf_location: text("/store/dark/vim"),
            active: false,
        },
        Config {
            name: text("zsh"),
            dependencies: vec![],
            symlink: text("/home/u/.zshrc"),
            conf_location: text("/store/dark/zsh"),
            active: true,
        },
    ];
    assert_eq!(CommandResult::ConfigList(Ok(configs)).lines(), vec![text("vim"), text("zsh")]);
}
