//! The commands for the version-control program that keep a theme in a
//! repository. The library only words them; running them is the caller's.

use vstd::prelude::*;
use crate::utils::texts;

verus! {

/// One run of `git`: its arguments, and the directory to run it in.
#[derive(Debug, Clone, PartialEq, Eq)]
pub struct GitCommand {
    pub arguments: Vec<String>,
    pub directory: String,
}

impl View for GitCommand {
    type V = (Seq<Seq<char>>, Seq<char>);

    open spec fn view(&self) -> (Seq<Seq<char>>, Seq<char>) {
        (texts(self.arguments@), self.directory@)
    }
}

/// The views of a list of commands, in order.
pub open spec fn command_views(commands: Seq<GitCommand>) -> Seq<(Seq<Seq<char>>, Seq<char>)> {
    Seq::new(commands.len(), |i: int| commands[i]@)
}

/// The message of a commit for which the user gave none.
pub open spec fn default_message() -> Seq<char> {
    "Automated commit from config_manager"@
}

/// A command of the given words, to run in `directory`.
fn command(words: Vec<String>, directory: &String) -> (run: GitCommand)
    ensures
        run@ == (texts(words@), directory@),
{
    GitCommand { arguments: words, directory: directory.clone() }
}

/// The command that fetches the theme at `url` into the storage root
/// `base_dir`.
pub fn install_theme(url: String, base_dir: &String) -> (run: GitCommand)
    ensures
        run@ == (seq!["clone"@, url@], base_dir@),
{
    let mut words: Vec<String> = Vec::new();
    words.push(String::from_str("clone"));
    words.push(url);
    assert(texts(words@) =~= seq!["clone"@, url@]);
    command(words, base_dir)
}

/// The commands that make the theme directory `theme_dir` a repository
/// with `url` as its origin.
pub fn git_init(url: String, theme_dir: &String) -> (runs: Vec<GitCommand>)
    ensures
        command_views(runs@) == seq![
            (seq!["init"@], theme_dir@),
            (seq!["remote"@, "add"@, "origin"@, url@], theme_dir@),
        ],
{
    let mut init: Vec<String> = Vec::new();
    init.push(String::from_str("init"));
    assert(texts(init@) =~= seq!["init"@]);
    let mut remote: Vec<String> = Vec::new();
    remote.push(String::from_str("remote"));
    remote.push(String::from_str("add"));
    remote.push(String::from_str("origin"));
    remote.push(url);
    assert(texts(remote@) =~= seq!["remote"@, "add"@, "origin"@, url@]);
    let mut runs: Vec<GitCommand> = Vec::new();
    runs.push(command(init, theme_dir));
    runs.push(command(remote, theme_dir));
    assert(command_views(runs@) =~= seq![
        (seq!["init"@], theme_dir@),
        (seq!["remote"@, "add"@, "origin"@, url@], theme_dir@),
    ]);
    runs
}

/// The command that makes `url` the origin of the repository in
/// `theme_dir`.
pub fn set_url(url: String, theme_dir: &String) -> (run: GitCommand)
    ensures
        run@ == (seq!["remote"@, "set-url"@, "origin"@, url@], theme_dir@),
{
    let mut words: Vec<String> = Vec::new();
    words.push(String::from_str("remote"));
    words.push(String::from_str("set-url"));
    words.push(String::from_str("origin"));
    words.push(url);
    assert(texts(words@) =~= seq!["remote"@, "set-url"@, "origin"@, url@]);
    command(words, theme_dir)
}

/// The command that brings the repository in `theme_dir` up to date.
pub fn pull(theme_dir: &String) -> (run: GitCommand)
    ensures
        run@ == (seq!["pull"@], theme_dir@),
{
    let mut words: Vec<String> = Vec::new();
    words.push(String::from_str("pull"));
    assert(texts(words@) =~= seq!["pull"@]);
    command(words, theme_dir)
}

/// The message of a commit: the one given, or the default one.
pub open spec fn message_of(commit_message: Option<String>) -> Seq<char> {
    match commit_message {
        Some(m) => m@,
        None => default_message(),
    }
}

/// The commands that record everything in `theme_dir` in a commit with the
/// message `message` and send it to the origin.
pub open spec fn push_commands(message: Seq<char>, theme_dir: Seq<char>) -> Seq<
    (Seq<Seq<char>>, Seq<char>),
> {
    seq![
        (seq!["add"@, "."@], theme_dir),
        (seq!["commit"@, "-m"@, message], theme_dir),
        (seq!["push"@], theme_dir),
    ]
}

/// The commands that record everything in `theme_dir` in a commit and send
/// it to the origin. Without a message the commit gets the default one.
pub fn push(commit_message: Option<String>, theme_dir: &String) -> (runs: Vec<GitCommand>)
    ensures
        command_views(runs@) == push_commands(message_of(commit_message), theme_dir@),
{
    let ghost wanted = message_of(commit_message);
    let message = match commit_message {
        Some(m) => m,
        None => String::from_str("Automated commit from config_manager"),
    };
    assert(message@ == wanted);
    let mut add: Vec<String> = Vec::new();
    add.push(String::from_str("add"));
    add.push(String::from_str("."));
    assert(texts(add@) =~= seq!["add"@, "."@]);
    let mut commit: Vec<String> = Vec::new();
    commit.push(String::from_str("commit"));
    commit.push(String::from_str("-m"));
    commit.push(message);
    assert(texts(commit@) =~= seq!["commit"@, "-m"@, wanted]);
    let mut send: Vec<String> = Vec::new();
    send.push(String::from_str("push"));
    assert(texts(send@) =~= seq!["push"@]);
    let mut runs: Vec<GitCommand> = Vec::new();
    runs.push(command(add, theme_dir));
    runs.push(command(commit, theme_dir));
    runs.push(command(send, theme_dir));
    assert(command_views(runs@) =~= push_commands(wanted, theme_dir@));
    runs
}

} // verus!
