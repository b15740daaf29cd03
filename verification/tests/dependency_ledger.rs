use config_manager::config::{Config, ConfigFile};
use config_manager::dependency::add::add_dependency;
use config_manager::dependency::install::{after_run, InstallProgress, InstallStep, ProcessExit};
use config_manager::dependency::list::list_dependencies;
use config_manager::dependency::remove::remove_dependency;
use config_manager::dependency::{Dependency, DependencyFile};
use config_manager::error::ConfigCliError;

fn dep(name: &str) -> Dependency {
    Dependency(name.to_string())
}

fn text(s: &str) -> String {
    s.to_string()
}

fn ledger(globals: &[&str], bounds: &[(&str, &str)]) -> DependencyFile {
    DependencyFile {
        globals: globals.iter().map(|n| dep(n)).collect(),
        config_bounds: bounds.iter().map(|(c, n)| (text(c), dep(n))).collect(),
    }
}

fn config(name: &str, deps: &[&str]) -> Config {
    Config {
        name: text(name),
        dependencies: deps.iter().map(|n| dep(n)).collect(),
        symlink: format!("/home/u/.{}", name),
        conf_location: format!("/store/dark/{}", name),
        active: false,
    }
}

#[test]
fn default_ledger_is_empty() {
    let empty = DependencyFile::default();
    assert!(empty.globals.is_empty());
    assert!(empty.config_bounds.is_empty());
}

#[test]
fn add_global_dependency_appends() {
    let added = add_dependency(ledger(&["git"], &[("vim", "fzf")]), None, text("curl")).unwrap();
    assert_eq!(added, ledger(&["git", "curl"], &[("vim", "fzf")]));
}

#[test]
fn add_bound_dependency_appends_to_bindings() {
    let added =
        add_dependency(ledger(&["git"], &[("vim", "fzf")]), Some(text("zsh")), text("curl"))
            .unwrap();
    assert_eq!(added, ledger(&["git"], &[("vim", "fzf"), ("zsh", "curl")]));
}

#[test]
fn add_to_empty_ledger_succeeds() {
    let added = add_dependency(DependencyFile::default(), None, text("git")).unwrap();
    assert_eq!(added, ledger(&["git"], &[]));
}

#[test]
fn add_same_global_twice_is_refused() {
    let once = add_dependency(DependencyFile::default(), None, text("git")).unwrap();
    let again = add_dependency(once, None, text("git"));
    assert_eq!(again, Err(ConfigCliError::DuplicateDependency(text("git"))));
}

#[test]
fn add_global_then_bound_is_refused() {
    let once = add_dependency(DependencyFile::default(), None, text("git")).unwrap();
    let again = add_dependency(once, Some(text("vim")), text("git"));
    assert_eq!(again, Err(ConfigCliError::DuplicateDependency(text("git"))));
}

#[test]
fn add_bound_then_global_is_refused() {
    let once = add_dependency(DependencyFile::default(), Some(text("vim")), text("git")).unwrap();
    let again = add_dependency(once, None, text("git"));
    assert_eq!(again, Err(ConfigCliError::DuplicateDependency(text("git"))));
}

#[test]
fn add_bound_then_bound_to_other_config_is_refused() {
    let once = add_dependency(DependencyFile::default(), Some(text("vim")), text("git")).unwrap();
    let again = add_dependency(once, Some(text("zsh")), text("git"));
    assert_eq!(again, Err(ConfigCliError::DuplicateDependency(text("git"))));
}

#[test]
fn remove_global_dependency() {
    let left = remove_dependency(ledger(&["git", "curl"], &[("vim", "fzf")]), text("git")).unwrap();
    assert_eq!(left, ledger(&["curl"], &[("vim", "fzf")]));
}

#[test]
fn remove_bound_dependency() {
    let left = remove_dependency(ledger(&["git"], &[("vim", "fzf"), ("zsh", "bat")]), text("fzf"))
        .unwrap();
    assert_eq!(left, ledger(&["git"], &[("zsh", "bat")]));
}

#[test]
fn remove_prefers_the_binding_over_the_global_entry() {
    let left = remove_dependency(ledger(&["git"], &[("vim", "git")]), text("git")).unwrap();
    assert_eq!(left, ledger(&["git"], &[]));
}

#[test]
fn remove_takes_the_first_match_only() {
    let left = remove_dependency(ledger(&["git", "curl", "git"], &[]), text("git")).unwrap();
    assert_eq!(left, ledger(&["curl", "git"], &[]));
    let left = remove_dependency(ledger(&[], &[("a", "git"), ("b", "git")]), text("git")).unwrap();
    assert_eq!(left, ledger(&[], &[("b", "git")]));
}

#[test]
fn remove_absent_dependency_is_not_found() {
    let result = remove_dependency(ledger(&["git"], &[("vim", "fzf")]), text("curl"));
    assert_eq!(result, Err(ConfigCliError::NotFound(text("curl"))));
    let result = remove_dependency(DependencyFile::default(), text("curl"));
    assert_eq!(result, Err(ConfigCliError::NotFound(text("curl"))));
}

#[test]
fn add_then_remove_gives_the_ledger_back() {
    let start = ledger(&["git"], &[("vim", "fzf")]);
    let added = add_dependency(start.clone(), Some(text("vim")), text("curl")).unwrap();
    assert_eq!(remove_dependency(added, text("curl")).unwrap(), start);
    let added = add_dependency(start.clone(), None, text("curl")).unwrap();
    assert_eq!(remove_dependency(added, text("curl")).unwrap(), start);
}

#[test]
fn removed_dependency_can_be_added_again() {
    let start = ledger(&["git"], &[]);
    let left = remove_dependency(start, text("git")).unwrap();
    let again = add_dependency(left, None, text("git")).unwrap();
    assert_eq!(again, ledger(&["git"], &[]));
}

#[test]
fn list_dependencies_reads_the_config_entries() {
    let configs = ConfigFile {
        globals: vec![config("vim", &["fzf", "ripgrep"]), config("zsh", &["bat"])],
        device_bounds: vec![
            (text("laptop"), config("sway", &["wl-clipboard"])),
            (text("desk"), config("i3", &[])),
        ],
    };
    assert_eq!(list_dependencies(&configs, &text("vim")), vec![text("fzf"), text("ripgrep")]);
    assert_eq!(list_dependencies(&configs, &text("sway")), vec![text("wl-clipboard")]);
    assert_eq!(list_dependencies(&configs, &text("i3")), Vec::<String>::new());
    assert_eq!(list_dependencies(&configs, &text("none")), Vec::<String>::new());
}

#[test]
fn list_dependencies_joins_entries_of_one_name() {
    let configs = ConfigFile {
        globals: vec![config("vim", &["fzf"]), config("zsh", &["bat"])],
        device_bounds: vec![(text("laptop"), config("vim", &["xclip", "fd"]))],
    };
    assert_eq!(
        list_dependencies(&configs, &text("vim")),
        vec![text("fzf"), text("xclip"), text("fd")]
    );
}

#[test]
fn install_starts_with_the_query() {
    let step = dep("git").install(InstallProgress::Start);
    assert_eq!(step, InstallStep::Run(vec![text("yay"), text("-Q"), text("git")]));
}

#[test]
fn install_is_done_when_the_query_succeeds() {
    let exit = ProcessExit { code: Some(0), status: text("exit status: 0") };
    assert_eq!(dep("git").install(InstallProgress::Queried(exit)), InstallStep::Done);
}

#[test]
fn install_runs_the_installation_when_the_query_fails() {
    let exit = ProcessExit { code: Some(1), status: text("exit status: 1") };
    assert_eq!(
        dep("git").install(InstallProgress::Queried(exit)),
        InstallStep::Run(vec![text("yay"), text("-S"), text("git")])
    );
    let killed = ProcessExit { code: None, status: text("signal: 9") };
    assert_eq!(
        dep("git").install(InstallProgress::Queried(killed)),
        InstallStep::Run(vec![text("yay"), text("-S"), text("git")])
    );
}

#[test]
fn install_reports_a_failed_installation() {
    let exit = ProcessExit { code: Some(2), status: text("exit status: 2") };
    assert_eq!(
        dep("git").install(InstallProgress::Installed(exit)),
        InstallStep::Failed(ConfigCliError::InstallError(text("exit status: 2")))
    );
    let killed = ProcessExit { code: None, status: text("signal: 9") };
    assert_eq!(
        dep("git").install(InstallProgress::Installed(killed)),
        InstallStep::Failed(ConfigCliError::InstallError(text("signal: 9")))
    );
}

#[test]
fn install_is_done_when_the_installation_succeeds() {
    let exit = ProcessExit { code: Some(0), status: text("exit status: 0") };
    assert_eq!(dep("git").install(InstallProgress::Installed(exit)), InstallStep::Done);
}

#[test]
fn search_command_names_the_package() {
    assert_eq!(
        Dependency::search_command(&text("git")),
        vec![text("yay"), text("-Ssq"), text("git")]
    );
}

#[test]
fn try_from_accepts_a_listed_name() {
    let found = Dependency::try_from(text("git"), b"gitea\ngit\ngit-lfs\n");
    assert_eq!(found, Ok(dep("git")));
}

#[test]
fn try_from_accepts_the_last_line_without_line_feed() {
    assert_eq!(Dependency::try_from(text("git"), b"gitea\ngit"), Ok(dep("git")));
}

#[test]
fn try_from_strips_carriage_returns_before_line_feeds() {
    assert_eq!(Dependency::try_from(text("git"), b"gitea\r\ngit\r\n"), Ok(dep("git")));
}

#[test]
fn try_from_keeps_a_carriage_return_at_the_very_end() {
    assert_eq!(
        Dependency::try_from(text("git"), b"gitea\ngit\r"),
        Err(ConfigCliError::NoPackageWithName(text("git")))
    );
    assert_eq!(Dependency::try_from(text("git\r"), b"gitea\ngit\r"), Ok(dep("git\r")));
}

#[test]
fn try_from_wants_a_whole_line() {
    assert_eq!(
        Dependency::try_from(text("git"), b"gitea\ngit-lfs\n"),
        Err(ConfigCliError::NoPackageWithName(text("git")))
    );
    assert_eq!(
        Dependency::try_from(text("git"), b"gitea git\n"),
        Err(ConfigCliError::NoPackageWithName(text("git")))
    );
    assert_eq!(
        Dependency::try_from(text("a\nb"), b"a\nb\n"),
        Err(ConfigCliError::NoPackageWithName(text("a\nb")))
    );
}

#[test]
fn try_from_refuses_on_empty_output() {
    assert_eq!(
        Dependency::try_from(text("git"), b""),
        Err(ConfigCliError::NoPackageWithName(text("git")))
    );
    assert_eq!(
        Dependency::try_from(text(""), b""),
        Err(ConfigCliError::NoPackageWithName(text("")))
    );
    assert_eq!(Dependency::try_from(text(""), b"\n"), Ok(dep("")));
}

#[test]
fn try_from_refuses_bytes_that_are_no_text() {
    let result = Dependency::try_from(text("git"), &[b'g', b'i', b't', b'\n', 0xff, 0xfe]);
    assert!(matches!(result, Err(ConfigCliError::StringConversionError(_))));
}

#[test]
fn try_from_reads_text_beyond_ascii() {
    let output = "grün\nblau\n".as_bytes();
    assert_eq!(Dependency::try_from(text("grün"), output), Ok(dep("grün")));
}

#[test]
fn after_run_moves_from_the_question_to_the_installation() {
    let failed = ProcessExit { code: Some(1), status: text("exit status: 1") };
    let done = ProcessExit { code: Some(0), status: text("exit status: 0") };
    assert_eq!(after_run(InstallProgress::Start, failed.clone()), InstallProgress::Queried(failed.clone()));
    assert_eq!(
        after_run(InstallProgress::Queried(failed.clone()), done.clone()),
        InstallProgress::Installed(done.clone())
    );
    assert_eq!(
        after_run(InstallProgress::Installed(done), failed.clone()),
        InstallProgress::Installed(failed)
    );
}

#[test]
fn install_runs_at_most_two_commands() {
    let package = dep("git");
    let exits = [
        ProcessExit { code: Some(1), status: text("exit status: 1") },
        ProcessExit { code: Some(0), status: text("exit status: 0") },
    ];
    let mut progress = InstallProgress::Start;
    let mut commands = vec![];
    let outcome = loop {
        match package.install(progress.clone()) {
            InstallStep::Run(command) => {
                let exit = exits[commands.len()].clone();
                commands.push(command);
                progress = after_run(progress, exit);
            }
            other => break other,
        }
    };
    assert_eq!(outcome, InstallStep::Done);
    assert_eq!(
        commands,
        vec![
            vec![text("yay"), text("-Q"), text("git")],
            vec![text("yay"), text("-S"), text("git")],
        ]
    );
}
