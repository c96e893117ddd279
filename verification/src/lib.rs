//! One command surface over several native package managers.
//!
//! A request names an operation (`list`, `info`, `search`, `refresh`,
//! `update`, `install`, `uninstall`). The library turns it into the command
//! line of the manager of the running system, and turns what the manager
//! printed into one response of packages and notices. It runs no program
//! itself: `packages::match_packages_command` says what to run next, given
//! what has run so far, and what the result is once nothing is left to run.

use crate::packages::{PackagesResponse, ParseError, ResponseView};
use crate::text::{from_chars, lines, pieces, same_text, split_lines, split_on, to_chars, views};
use vstd::prelude::*;

pub mod packages;
pub mod pattern;
pub mod size;
pub mod text;

verus! {

/// The arguments of the program.
pub struct CliArgs {
    pub command: CliCommands,
    pub output: OutputType,
}

/// The areas of administration that the program covers.
pub enum CliCommands {
    Packages(PackagesArgs),
}

/// The form in which the result is written out.
#[derive(Copy, Clone, Debug, PartialEq, Eq, PartialOrd, Ord, Structural)]
pub enum OutputType {
    /// The text that the manager printed.
    Stdout,
    /// The result as a structured document.
    Json,
    /// The result as a compact binary envelope.
    Msgpack,
}

/// The arguments of the `packages` area.
pub struct PackagesArgs {
    pub command: PackagesCommands,
}

/// The operations on packages, each with its flags and terms.
pub enum PackagesCommands {
    List { installed: bool, available: bool, extras: bool, packages: Option<Vec<String>> },
    Info { packages: Option<Vec<String>> },
    Search { terms: Option<Vec<String>> },
    Refresh,
    Update { fake: bool },
    Install { packages: Option<Vec<String>> },
    Uninstall { packages: Option<Vec<String>> },
}

/// The result of an operation as it is handed to the caller.
#[derive(Clone, Debug, PartialEq, Eq)]
pub struct Exit {
    /// 0 for success; else the code of the manager, or 1.
    pub exit_code: i32,
    /// The program that was run, or `none`.
    pub real_command: &'static str,
    /// The text for the reader: what the manager printed, or what failed.
    pub out: String,
    /// The normalized response, where one was asked for and could be had.
    pub packages_response: Option<PackagesResponse>,
    /// The detail of a failure.
    pub error_message: Option<String>,
}

/// The mathematical value of an `Exit`.
pub struct ExitView {
    pub exit_code: int,
    pub real_command: Seq<char>,
    pub out: Seq<char>,
    pub packages_response: Option<ResponseView>,
    pub error_message: Option<Seq<char>>,
}

impl View for Exit {
    type V = ExitView;

    open spec fn view(&self) -> ExitView {
        ExitView {
            exit_code: self.exit_code as int,
            real_command: self.real_command@,
            out: self.out@,
            packages_response: match self.packages_response {
                Some(res) => Some(res@),
                None => None,
            },
            error_message: match self.error_message {
                Some(s) => Some(s@),
                None => None,
            },
        }
    }
}

/// The identifier that stands for a system whose descriptor names none.
pub open spec fn no_os() -> Seq<char> {
    "none"@
}

/// The identifier that the lines of an operating-system descriptor state,
/// read from line `from` on: the text after the first `=` of the first line
/// whose text before its first `=` is `ID`, up to the next `=` if there is
/// one. Without such a line it is `none`. A line that is `ID` alone states
/// no identifier, which is an error.
pub open spec fn release_id(lines: Seq<Seq<char>>, from: int) -> Result<Seq<char>, ParseError>
    decreases lines.len() - from,
{
    if from >= lines.len() {
        Ok(no_os())
    } else {
        let parts = pieces(lines[from], '=');
        if parts[0] == "ID"@ {
            if parts.len() < 2 {
                Err(ParseError::MissingField)
            } else {
                Ok(parts[1])
            }
        } else {
            release_id(lines, from + 1)
        }
    }
}

/// The identifier of the operating system that the text of its descriptor
/// states.
pub fn os_from_release(contents: &str) -> (r: Result<String, ParseError>)
    ensures
        match r {
            Ok(id) => release_id(lines(contents@), 0) == Ok::<Seq<char>, ParseError>(id@),
            Err(e) => release_id(lines(contents@), 0) == Err::<Seq<char>, ParseError>(e),
        },
{
    let all = split_lines(&to_chars(contents));
    let key = to_chars("ID");
    let mut at: usize = 0;
    while at < all.len()
        invariant
            at <= all.len(),
            key@ == "ID"@,
            views(all@) == lines(contents@),
            release_id(views(all@), at as int) == release_id(views(all@), 0),
        decreases all.len() - at,
    {
        let parts = split_on(&all[at], '=');
        assert(views(all@)[at as int] == all@[at as int]@);
        if same_text(&parts[0], &key) {
            if parts.len() < 2 {
                return Err(ParseError::MissingField);
            }
            return Ok(from_chars(&parts[1]));
        }
        at = at + 1;
    }
    Ok("none".to_owned())
}

} // verus!
