use config_manager::config::ConfigFile;
use config_manager::dependency::DependencyFile;
use config_manager::error::ConfigCliError;
use config_manager::plan::FsAction;
use config_manager::utils::{get_base_dir, get_current_theme, joined, CurrentTheme};

fn text(s: &str) -> String {
    s.to_string()
}

#[test]
fn messages_of_filesystem_failures() {
    assert_eq!(ConfigCliError::FsReadError(text("gone")).message(), "Read Error: \ngone");
    assert_eq!(ConfigCliError::FsWriteError(text("full")).message(), "Write Error: \nfull");
    assert_eq!(ConfigCliError::FileCreationError(text("no")).message(), "Creation Error: \nno");
    assert_eq!(ConfigCliError::CopyError(text("no")).message(), "Copy Error: \nno");
    assert_eq!(ConfigCliError::DeleteError(text("no")).message(), "Delete Error: \nno");
    assert_eq!(ConfigCliError::SymlinkError(text("no")).message(), "Symlink Error: \nno");
    assert_eq!(ConfigCliError::RenameError(text("no")).message(), "Rename Error: \nno");
}

#[test]
fn messages_of_encoding_failures() {
    assert_eq!(
        ConfigCliError::DeserializeError(text("bad")).message(),
        "TOML Parse Error while deserializing: \nbad"
    );
    assert_eq!(
        ConfigCliError::SerializeError(text("bad")).message(),
        "TOML Parse Error while serializing: \nbad"
    );
    assert_eq!(ConfigCliError::StringConversionError(text("bad")).message(), "Invalid String: \nbad");
}

#[test]
fn messages_of_helper_program_failures() {
    assert_eq!(
        ConfigCliError::ShellInitError(text("not found")).message(),
        "Failed to initialize shell: \nnot found"
    );
    assert_eq!(ConfigCliError::GitCommandError(text("1")).message(), "Git Command Error: \n1");
    assert_eq!(ConfigCliError::InstallError(text("exit status: 1")).message(), "Install Error: \nexit status: 1");
}

#[test]
fn messages_of_refusals() {
    assert_eq!(ConfigCliError::InvalidThemeName(text("dark")).message(), "Invalid Theme Name:  \ndark");
    assert_eq!(
        ConfigCliError::ThemeAlreadyExists(text("dark")).message(),
        "Theme already exists: \ndark"
    );
    assert_eq!(
        ConfigCliError::DuplicateConfigName(text("vim")).message(),
        "Config already exists: \nvim"
    );
    assert_eq!(ConfigCliError::ConfigNotFound(text("vim")).message(), "Invalid Config Name: \nvim");
    assert_eq!(
        ConfigCliError::InvalidConfigLocation(text("/a")).message(),
        "Invalid Config Location: \n/a"
    );
    assert_eq!(
        ConfigCliError::ConfigLocationUsed(text("/a")).message(),
        "Config Location /a already used"
    );
    assert_eq!(ConfigCliError::NoPackageWithName(text("x")).message(), "No Package with name: \nx");
    assert_eq!(
        ConfigCliError::DuplicateDependency(text("x")).message(),
        "Dependency already exists: \nx"
    );
    assert_eq!(ConfigCliError::NotFound(text("x")).message(), "Invalid Dependency Name: \nx");
    assert_eq!(ConfigCliError::UnableToFindHomeDir.message(), "Unable to find home directory");
    assert_eq!(ConfigCliError::NoThemeSelected.message(), "No theme selected");
}

#[test]
fn message_with_empty_detail() {
    assert_eq!(ConfigCliError::FsReadError(text("")).message(), "Read Error: \n");
    assert_eq!(ConfigCliError::ConfigLocationUsed(text("")).message(), "Config Location  already used");
}

#[test]
fn failure_of_each_step() {
    let reason = text("denied");
    let p = text("/p");
    let cases = vec![
        (FsAction::CreateDir { path: p.clone() }, ConfigCliError::FileCreationError(reason.clone())),
        (FsAction::CreateFile { path: p.clone() }, ConfigCliError::FileCreationError(reason.clone())),
        (
            FsAction::Rename { from: p.clone(), to: p.clone() },
            ConfigCliError::RenameError(reason.clone()),
        ),
        (
            FsAction::Symlink { target: p.clone(), link: p.clone() },
            ConfigCliError::SymlinkError(reason.clone()),
        ),
        (FsAction::Delete { path: p.clone() }, ConfigCliError::DeleteError(reason.clone())),
        (
            FsAction::CopyRecursive { from: p.clone(), to: p.clone() },
            ConfigCliError::CopyError(reason.clone()),
        ),
        (FsAction::DeleteRecursive { path: p.clone() }, ConfigCliError::DeleteError(reason.clone())),
        (
            FsAction::WriteConfigs { path: p.clone(), ledger: ConfigFile::default() },
            ConfigCliError::FsWriteError(reason.clone()),
        ),
        (
            FsAction::WriteDependencies { path: p.clone(), ledger: DependencyFile::default() },
            ConfigCliError::FsWriteError(reason.clone()),
        ),
        (
            FsAction::WriteCurrentTheme {
                path: p.clone(),
                pointer: CurrentTheme { current_theme: text("dark") },
            },
            ConfigCliError::FsWriteError(reason.clone()),
        ),
    ];
    for (step, expected) in cases {
        assert_eq!(step.failure(reason.clone()), expected);
    }
}

#[test]
fn base_dir_lies_below_home() {
    assert_eq!(get_base_dir(Some(text("/home/u"))), Ok(text("/home/u/.local/share/configmanager/")));
    assert_eq!(get_base_dir(Some(text(""))), Ok(text("/.local/share/configmanager/")));
}

#[test]
fn base_dir_needs_a_home() {
    assert_eq!(get_base_dir(None), Err(ConfigCliError::UnableToFindHomeDir));
}

#[test]
fn current_theme_is_what_the_pointer_names() {
    let pointer = CurrentTheme { current_theme: text("dark") };
    assert_eq!(get_current_theme(Some(pointer)), Ok(text("dark")));
}

#[test]
fn current_theme_before_any_selection() {
    assert_eq!(get_current_theme(None), Err(ConfigCliError::NoThemeSelected));
}

#[test]
fn joined_puts_one_text_after_the_other() {
    assert_eq!(joined(&text("/store/"), "dark"), "/store/dark");
    assert_eq!(joined(&text(""), ""), "");
}

#[test]
fn decode_reads_valid_text() {
    assert_eq!(config_manager::record::decode(b"current_theme = \"dark\"\n"), Ok(text("current_theme = \"dark\"\n")));
    assert_eq!(config_manager::record::decode("grün".as_bytes()), Ok(text("grün")));
    assert_eq!(config_manager::record::decode(b""), Ok(text("")));
}

#[test]
fn decode_refuses_bytes_that_are_no_text() {
    let result = config_manager::record::decode(&[0x66, 0x6f, 0x80]);
    assert!(matches!(result, Err(ConfigCliError::StringConversionError(_))));
    let cut_short = config_manager::record::decode(&"grün".as_bytes()[..3]);
    assert!(matches!(cut_short, Err(ConfigCliError::StringConversionError(_))));
}

#[test]
fn source_is_the_text_of_the_error_underneath() {
    assert_eq!(ConfigCliError::FsReadError(text("gone")).source(), Some(&text("gone")));
    assert_eq!(ConfigCliError::SerializeError(text("bad")).source(), Some(&text("bad")));
    assert_eq!(ConfigCliError::ShellInitError(text("no yay")).source(), Some(&text("no yay")));
    assert_eq!(ConfigCliError::GitCommandError(text("1")).source(), None);
    assert_eq!(ConfigCliError::InvalidThemeName(text("dark")).source(), None);
    assert_eq!(ConfigCliError::NoThemeSelected.source(), None);
}
