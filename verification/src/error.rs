//! The failures that operations on themes, configs and dependencies report.

use vstd::prelude::*;

verus! {

/// A failure of one operation.
///
/// Failures of the filesystem and of the helper programs carry the text of
/// the underlying error; failures of the rules carry the name or the path
/// that was refused.
#[derive(Debug, Clone, PartialEq, Eq)]
pub enum ConfigCliError {
    /// A file or directory could not be read.
    FsReadError(String),
    /// A file could not be opened for writing or written.
    FsWriteError(String),
    /// A file or directory could not be created.
    FileCreationError(String),
    /// A recursive copy failed.
    CopyError(String),
    /// A file, link or directory tree could not be deleted.
    DeleteError(String),
    /// A symbolic link could not be created.
    SymlinkError(String),
    /// A file could not be moved.
    RenameError(String),
    /// Stored records do not have the expected shape.
    DeserializeError(String),
    /// Records could not be turned into text.
    SerializeError(String),
    /// Bytes that should be text are not valid UTF-8.
    StringConversionError(String),
    /// A helper program could not be started.
    ShellInitError(String),
    /// The version-control program ended with a failure.
    GitCommandError(String),
    /// The package manager failed to install a package.
    InstallError(String),
    /// No theme of this name exists.
    InvalidThemeName(String),
    /// A theme of this name exists already.
    ThemeAlreadyExists(String),
    /// The ledger already holds a config of this name.
    DuplicateConfigName(String),
    /// The ledger holds no config of this name.
    ConfigNotFound(String),
    /// The location to fill is taken by a file.
    InvalidConfigLocation(String),
    /// The location to fill is taken by a directory.
    ConfigLocationUsed(String),
    /// The package manager knows no package of this name.
    NoPackageWithName(String),
    /// The ledger already holds a dependency of this name.
    DuplicateDependency(String),
    /// The ledger holds no dependency of this name.
    NotFound(String),
    /// The home directory is unknown.
    UnableToFindHomeDir,
    /// No theme has been selected yet.
    NoThemeSelected,
}

impl ConfigCliError {
    /// Whether this is one of the two failures that report a taken location.
    pub open spec fn is_location_in_use(self) -> bool {
        self is InvalidConfigLocation || self is ConfigLocationUsed
    }

    /// The words that introduce the carried text in the description.
    pub open spec fn heading(self) -> Seq<char> {
        match self {
            ConfigCliError::FsReadError(_) => "Read Error: \n"@,
            ConfigCliError::FsWriteError(_) => "Write Error: \n"@,
            ConfigCliError::FileCreationError(_) => "Creation Error: \n"@,
            ConfigCliError::CopyError(_) => "Copy Error: \n"@,
            ConfigCliError::DeleteError(_) => "Delete Error: \n"@,
            ConfigCliError::SymlinkError(_) => "Symlink Error: \n"@,
            ConfigCliError::RenameError(_) => "Rename Error: \n"@,
            ConfigCliError::DeserializeError(_) => "TOML Parse Error while deserializing: \n"@,
            ConfigCliError::SerializeError(_) => "TOML Parse Error while serializing: \n"@,
            ConfigCliError::StringConversionError(_) => "Invalid String: \n"@,
            ConfigCliError::ShellInitError(_) => "Failed to initialize shell: \n"@,
            ConfigCliError::GitCommandError(_) => "Git Command Error: \n"@,
            ConfigCliError::InstallError(_) => "Install Error: \n"@,
            ConfigCliError::InvalidThemeName(_) => "Invalid Theme Name:  \n"@,
            ConfigCliError::ThemeAlreadyExists(_) => "Theme already exists: \n"@,
            ConfigCliError::DuplicateConfigName(_) => "Config already exists: \n"@,
            ConfigCliError::ConfigNotFound(_) => "Invalid Config Name: \n"@,
            ConfigCliError::InvalidConfigLocation(_) => "Invalid Config Location: \n"@,
            ConfigCliError::ConfigLocationUsed(_) => "Config Location "@,
            ConfigCliError::NoPackageWithName(_) => "No Package with name: \n"@,
            ConfigCliError::DuplicateDependency(_) => "Dependency already exists: \n"@,
            ConfigCliError::NotFound(_) => "Invalid Dependency Name: \n"@,
            ConfigCliError::UnableToFindHomeDir => "Unable to find home directory"@,
            ConfigCliError::NoThemeSelected => "No theme selected"@,
        }
    }

    /// The text that the failure carries, empty where it carries none.
    pub open spec fn detail(self) -> Seq<char> {
        match self {
            ConfigCliError::FsReadError(t) => t@,
            ConfigCliError::FsWriteError(t) => t@,
            ConfigCliError::FileCreationError(t) => t@,
            ConfigCliError::CopyError(t) => t@,
            ConfigCliError::DeleteError(t) => t@,
            ConfigCliError::SymlinkError(t) => t@,
            ConfigCliError::RenameError(t) => t@,
            ConfigCliError::DeserializeError(t) => t@,
            ConfigCliError::SerializeError(t) => t@,
            ConfigCliError::StringConversionError(t) => t@,
            ConfigCliError::ShellInitError(t) => t@,
            ConfigCliError::GitCommandError(t) => t@,
            ConfigCliError::InstallError(t) => t@,
            ConfigCliError::InvalidThemeName(t) => t@,
            ConfigCliError::ThemeAlreadyExists(t) => t@,
            ConfigCliError::DuplicateConfigName(t) => t@,
            ConfigCliError::ConfigNotFound(t) => t@,
            ConfigCliError::InvalidConfigLocation(t) => t@,
            ConfigCliError::ConfigLocationUsed(t) => t@,
            ConfigCliError::NoPackageWithName(t) => t@,
            ConfigCliError::DuplicateDependency(t) => t@,
            ConfigCliError::NotFound(t) => t@,
            ConfigCliError::UnableToFindHomeDir => Seq::empty(),
            ConfigCliError::NoThemeSelected => Seq::empty(),
        }
    }

    /// The words that close the description, after the carried text.
    pub open spec fn closing(self) -> Seq<char> {
        match self {
            ConfigCliError::ConfigLocationUsed(_) => " already used"@,
            _ => Seq::empty(),
        }
    }

    /// The text of the error underneath, for the failures that pass on an
    /// error of the operating system, of the record format or of the text
    /// encoding; the other failures have none.
    pub open spec fn underlying(self) -> Option<Seq<char>> {
        match self {
            ConfigCliError::FsReadError(t) => Some(t@),
            ConfigCliError::FsWriteError(t) => Some(t@),
            ConfigCliError::FileCreationError(t) => Some(t@),
            ConfigCliError::CopyError(t) => Some(t@),
            ConfigCliError::DeleteError(t) => Some(t@),
            ConfigCliError::SymlinkError(t) => Some(t@),
            ConfigCliError::RenameError(t) => Some(t@),
            ConfigCliError::DeserializeError(t) => Some(t@),
            ConfigCliError::SerializeError(t) => Some(t@),
            ConfigCliError::StringConversionError(t) => Some(t@),
            ConfigCliError::ShellInitError(t) => Some(t@),
            _ => None,
        }
    }

    /// The whole description: heading, carried text, closing words.
    pub open spec fn description(self) -> Seq<char> {
        self.heading() + self.detail() + self.closing()
    }

    /// The text of the error underneath this failure, where it has one.
    pub fn source(&self) -> (text: Option<&String>)
        ensures
            match text {
                Some(t) => self.underlying() == Some(t@),
                None => self.underlying() is None,
            },
    {
        match self {
            ConfigCliError::FsReadError(t) => Some(t),
            ConfigCliError::FsWriteError(t) => Some(t),
            ConfigCliError::FileCreationError(t) => Some(t),
            ConfigCliError::CopyError(t) => Some(t),
            ConfigCliError::DeleteError(t) => Some(t),
            ConfigCliError::SymlinkError(t) => Some(t),
            ConfigCliError::RenameError(t) => Some(t),
            ConfigCliError::DeserializeError(t) => Some(t),
            ConfigCliError::SerializeError(t) => Some(t),
            ConfigCliError::StringConversionError(t) => Some(t),
            ConfigCliError::ShellInitError(t) => Some(t),
            _ => None,
        }
    }

    /// A copy of this failure.
    pub fn duplicate(&self) -> (copy: ConfigCliError)
        ensures
            copy == *self,
    {
        match self {
            ConfigCliError::FsReadError(t) => ConfigCliError::FsReadError(t.clone()),
            ConfigCliError::FsWriteError(t) => ConfigCliError::FsWriteError(t.clone()),
            ConfigCliError::FileCreationError(t) => ConfigCliError::FileCreationError(t.clone()),
            ConfigCliError::CopyError(t) => ConfigCliError::CopyError(t.clone()),
            ConfigCliError::DeleteError(t) => ConfigCliError::DeleteError(t.clone()),
            ConfigCliError::SymlinkError(t) => ConfigCliError::SymlinkError(t.clone()),
            ConfigCliError::RenameError(t) => ConfigCliError::RenameError(t.clone()),
            ConfigCliError::DeserializeError(t) => ConfigCliError::DeserializeError(t.clone()),
            ConfigCliError::SerializeError(t) => ConfigCliError::SerializeError(t.clone()),
            ConfigCliError::StringConversionError(t) => ConfigCliError::StringConversionError(t.clone()),
            ConfigCliError::ShellInitError(t) => ConfigCliError::ShellInitError(t.clone()),
            ConfigCliError::GitCommandError(t) => ConfigCliError::GitCommandError(t.clone()),
            ConfigCliError::InstallError(t) => ConfigCliError::InstallError(t.clone()),
            ConfigCliError::InvalidThemeName(t) => ConfigCliError::InvalidThemeName(t.clone()),
            ConfigCliError::ThemeAlreadyExists(t) => ConfigCliError::ThemeAlreadyExists(t.clone()),
            ConfigCliError::DuplicateConfigName(t) => ConfigCliError::DuplicateConfigName(t.clone()),
            ConfigCliError::ConfigNotFound(t) => ConfigCliError::ConfigNotFound(t.clone()),
            ConfigCliError::InvalidConfigLocation(t) => ConfigCliError::InvalidConfigLocation(t.clone()),
            ConfigCliError::ConfigLocationUsed(t) => ConfigCliError::ConfigLocationUsed(t.clone()),
            ConfigCliError::NoPackageWithName(t) => ConfigCliError::NoPackageWithName(t.clone()),
            ConfigCliError::DuplicateDependency(t) => ConfigCliError::DuplicateDependency(t.clone()),
            ConfigCliError::NotFound(t) => ConfigCliError::NotFound(t.clone()),
            ConfigCliError::UnableToFindHomeDir => ConfigCliError::UnableToFindHomeDir,
            ConfigCliError::NoThemeSelected => ConfigCliError::NoThemeSelected,
        }
    }

    /// Describes the failure for a reader, in one text.
    pub fn message(&self) -> (text: String)
        ensures
            text@ == self.description(),
    {
        let text = match self {
            ConfigCliError::FsReadError(t) => labelled("Read Error: \n", t),
            ConfigCliError::FsWriteError(t) => labelled("Write Error: \n", t),
            ConfigCliError::FileCreationError(t) => labelled("Creation Error: \n", t),
            ConfigCliError::CopyError(t) => labelled("Copy Error: \n", t),
            ConfigCliError::DeleteError(t) => labelled("Delete Error: \n", t),
            ConfigCliError::SymlinkError(t) => labelled("Symlink Error: \n", t),
            ConfigCliError::RenameError(t) => labelled("Rename Error: \n", t),
            ConfigCliError::DeserializeError(t) => labelled(
                "TOML Parse Error while deserializing: \n",
                t,
            ),
            ConfigCliError::SerializeError(t) => labelled(
                "TOML Parse Error while serializing: \n",
                t,
            ),
            ConfigCliError::StringConversionError(t) => labelled("Invalid String: \n", t),
            ConfigCliError::ShellInitError(t) => labelled("Failed to initialize shell: \n", t),
            ConfigCliError::GitCommandError(t) => labelled("Git Command Error: \n", t),
            ConfigCliError::InstallError(t) => labelled("Install Error: \n", t),
            ConfigCliError::InvalidThemeName(t) => labelled("Invalid Theme Name:  \n", t),
            ConfigCliError::ThemeAlreadyExists(t) => labelled("Theme already exists: \n", t),
            ConfigCliError::DuplicateConfigName(t) => labelled("Config already exists: \n", t),
            ConfigCliError::ConfigNotFound(t) => labelled("Invalid Config Name: \n", t),
            ConfigCliError::InvalidConfigLocation(t) => labelled("Invalid Config Location: \n", t),
            ConfigCliError::ConfigLocationUsed(t) => {
                let mut text = labelled("Config Location ", t);
                text.append(" already used");
                text
            },
            ConfigCliError::NoPackageWithName(t) => labelled("No Package with name: \n", t),
            ConfigCliError::DuplicateDependency(t) => labelled("Dependency already exists: \n", t),
            ConfigCliError::NotFound(t) => labelled("Invalid Dependency Name: \n", t),
            ConfigCliError::UnableToFindHomeDir => String::from_str(
                "Unable to find home directory",
            ),
            ConfigCliError::NoThemeSelected => String::from_str("No theme selected"),
        };
        assert(text@ =~= self.description());
        text
    }
}

/// Puts `heading` in front of `detail`.
fn labelled(heading: &str, detail: &String) -> (text: String)
    ensures
        text@ == heading@ + detail@,
{
    let mut text = String::from_str(heading);
    text.append(detail.as_str());
    text
}

} // verus!
