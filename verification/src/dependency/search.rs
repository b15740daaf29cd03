//! Accepting a package name: a name is accepted when the package manager's
//! search lists it.

use vstd::prelude::*;
use vstd::utf8::{decode_utf8, valid_utf8};
use crate::dependency::Dependency;
use crate::error::ConfigCliError;
use crate::record::decode;
use crate::utils::texts;

verus! {

/// The place of the first line feed in `text`, or its length where it has
/// none.
pub open spec fn line_end(text: Seq<char>) -> int
    decreases text.len(),
{
    if text.len() == 0 || text[0] == '\n' {
        0
    } else {
        1 + line_end(text.drop_first())
    }
}

/// `line` without the carriage return at its end, if it has one there.
pub open spec fn without_return(line: Seq<char>) -> Seq<char> {
    if line.len() > 0 && line.last() == '\r' {
        line.drop_last()
    } else {
        line
    }
}

/// The place of the first line feed lies within the text or at its end.
pub proof fn lemma_line_end_bounds(text: Seq<char>)
    ensures
        0 <= line_end(text) <= text.len(),
    decreases text.len(),
{
    if !(text.len() == 0 || text[0] == '\n') {
        lemma_line_end_bounds(text.drop_first());
    }
}

/// The lines of `text`. A line reaches up to the next line feed, and a
/// carriage return just before that line feed is no part of it. What
/// follows the last line feed, if anything, is a line as it stands, with a
/// carriage return at its end kept.
pub open spec fn split_lines(text: Seq<char>) -> Seq<Seq<char>>
    decreases text.len(),
    via split_lines_decreases
{
    if text.len() == 0 {
        Seq::empty()
    } else {
        let end = line_end(text);
        if end == text.len() {
            seq![text]
        } else {
            seq![without_return(text.take(end))] + split_lines(text.skip(end + 1))
        }
    }
}

#[via_fn]
proof fn split_lines_decreases(text: Seq<char>) {
    lemma_line_end_bounds(text);
}

/// Calls `str::lines` and collects the lines as texts of their own. Taken
/// on trust: the lines are those of `split_lines`, which words what the
/// documentation of `lines` says.
#[verifier::external_body]
fn text_lines(text: &str) -> (lines: Vec<String>)
    ensures
        texts(lines@) == split_lines(text@),
{
    text.lines().map(String::from).collect()
}

/// The command that asks the package manager for the names of the packages
/// that match `value`.
pub open spec fn search_words(value: Seq<char>) -> Seq<Seq<char>> {
    seq!["yay"@, "-Ssq"@, value]
}

impl Dependency {
    /// The command, program first, whose output `try_from` reads.
    pub fn search_command(value: &String) -> (command: Vec<String>)
        ensures
            texts(command@) == search_words(value@),
    {
        let mut command: Vec<String> = Vec::new();
        command.push(String::from_str("yay"));
        command.push(String::from_str("-Ssq"));
        command.push(value.clone());
        assert(texts(command@) =~= search_words(value@));
        command
    }

    /// Accepts `value` as the name of a package, given the bytes that the
    /// package manager's search for it has printed.
    ///
    /// Output that is not valid UTF-8 is refused with
    /// `StringConversionError`. The name is accepted exactly if one line of
    /// the output is the name; otherwise the failure is
    /// `NoPackageWithName`.
    pub fn try_from(value: String, output: &[u8]) -> (result: Result<Dependency, ConfigCliError>)
        ensures
            !valid_utf8(output@) ==> result is Err && result->Err_0 is StringConversionError,
            valid_utf8(output@) && split_lines(decode_utf8(output@)).contains(value@) ==> result
                == Ok::<Dependency, ConfigCliError>(Dependency(value)),
            valid_utf8(output@) && !split_lines(decode_utf8(output@)).contains(value@) ==> result
                == Err::<Dependency, ConfigCliError>(ConfigCliError::NoPackageWithName(value)),
    {
        let text = match decode(output) {
            Ok(text) => text,
            Err(error) => {
                return Err(error);
            },
        };
        let lines = text_lines(text.as_str());
        let mut i: usize = 0;
        while i < lines.len()
            invariant
                i <= lines.len(),
                valid_utf8(output@),
                texts(lines@) == split_lines(decode_utf8(output@)),
                forall|j: int| 0 <= j < i ==> texts(lines@)[j] != value@,
            decreases lines.len() - i,
        {
            if lines[i] == value {
                assert(texts(lines@)[i as int] == value@);
                return Ok(Dependency(value));
            }
            i += 1;
        }
        Err(ConfigCliError::NoPackageWithName(value))
    }
}

} // verus!
