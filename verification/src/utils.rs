//! The storage root, the paths below it, and the pointer to the theme in
//! use.

use vstd::prelude::*;
use crate::error::ConfigCliError;

verus! {

/// The record that names the theme in use.
#[derive(Debug, Clone, PartialEq, Eq)]
pub struct CurrentTheme {
    pub current_theme: String,
}

impl View for CurrentTheme {
    type V = Seq<char>;

    open spec fn view(&self) -> Seq<char> {
        self.current_theme@
    }
}

/// The views of a list of texts, in order.
pub open spec fn texts(list: Seq<String>) -> Seq<Seq<char>> {
    Seq::new(list.len(), |i: int| list[i]@)
}

/// The view of a text that may be missing.
pub open spec fn optional_text(value: Option<String>) -> Option<Seq<char>> {
    match value {
        Some(text) => Some(text@),
        None => None,
    }
}

/// `front` followed by `back`, as a new text.
pub fn joined(front: &String, back: &str) -> (text: String)
    ensures
        text@ == front@ + back@,
{
    let mut text = front.clone();
    text.append(back);
    text
}

/// The storage root below the home directory `home`.
pub open spec fn base_dir_of(home: Seq<char>) -> Seq<char> {
    home + "/.local/share/configmanager/"@
}

/// The storage root, given the home directory where one is known.
///
/// Without a home directory there is no storage root, and the failure is
/// `UnableToFindHomeDir`.
pub fn get_base_dir(home: Option<String>) -> (result: Result<String, ConfigCliError>)
    ensures
        home is None ==> result == Err::<String, ConfigCliError>(
            ConfigCliError::UnableToFindHomeDir,
        ),
        home matches Some(h) ==> result is Ok && result->Ok_0@ == base_dir_of(h@),
{
    match home {
        Some(h) => Ok(joined(&h, "/.local/share/configmanager/")),
        None => Err(ConfigCliError::UnableToFindHomeDir),
    }
}

/// The directory of the theme `name` below the storage root `base_dir`.
pub open spec fn theme_path(base_dir: Seq<char>, name: Seq<char>) -> Seq<char> {
    base_dir + name
}

/// The file of the config ledger in the theme directory `theme_dir`.
pub open spec fn configs_path(theme_dir: Seq<char>) -> Seq<char> {
    theme_dir + "/configs.toml"@
}

/// The file of the dependency ledger in the theme directory `theme_dir`.
pub open spec fn dependencies_path(theme_dir: Seq<char>) -> Seq<char> {
    theme_dir + "/dependencies.toml"@
}

/// The file below the storage root `base_dir` that names the theme in use.
pub open spec fn current_theme_path(base_dir: Seq<char>) -> Seq<char> {
    base_dir + "current_theme.toml"@
}

/// The name of the theme in use, given what the pointer file holds: `None`
/// stands for a pointer file that is missing or still empty.
///
/// Before any theme has been selected the failure is `NoThemeSelected`.
pub fn get_current_theme(stored: Option<CurrentTheme>) -> (result: Result<String, ConfigCliError>)
    ensures
        stored is None ==> result == Err::<String, ConfigCliError>(
            ConfigCliError::NoThemeSelected,
        ),
        stored matches Some(pointer) ==> result == Ok::<String, ConfigCliError>(
            pointer.current_theme,
        ),
{
    match stored {
        Some(pointer) => Ok(pointer.current_theme),
        None => Err(ConfigCliError::NoThemeSelected),
    }
}

} // verus!
