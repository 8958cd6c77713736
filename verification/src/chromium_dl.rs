//! Fetching a page with a headless browser: the command to run, and reading
//! what it wrote.

use crate::repo_cache::RepoCacheOptions;
use crate::subprocess::{words, CommandLine, ExecError};
use std::string::FromUtf8Error;
use vstd::prelude::*;
use vstd::string::*;
use vstd::utf8::{decode_utf8, valid_utf8};

verus! {

/// The error of `String::from_utf8`.
#[verifier::external_type_specification]
#[verifier::external_body]
pub struct ExFromUtf8Error(FromUtf8Error);

/// `String::from_utf8` gives the text that the bytes encode where they are
/// valid UTF-8, and an error where they are not.
pub assume_specification[ String::from_utf8 ](bytes: Vec<u8>) -> (r: Result<String, FromUtf8Error>)
    ensures
        r is Ok <==> valid_utf8(bytes@),
        r matches Ok(text) ==> text@ == decode_utf8(bytes@),
;

/// Why no page came.
#[derive(Debug, PartialEq, Eq)]
pub enum ChromeError {
    /// Running the browser failed.
    ProcessError(ExecError),
    /// What the browser wrote is not UTF-8.
    StdoutParseError(FromUtf8Error),
}

impl From<ExecError> for ChromeError {
    fn from(e: ExecError) -> (wrapped: Self) {
        ChromeError::ProcessError(e)
    }
}

impl vstd::std_specs::convert::FromSpecImpl<ExecError> for ChromeError {
    open spec fn obeys_from_spec() -> bool {
        true
    }

    open spec fn from_spec(e: ExecError) -> Self {
        ChromeError::ProcessError(e)
    }
}

/// How many seconds the browser may take for a page.
pub const PAGE_TIMEOUT_SECS: u64 = 10;

/// The arguments that make the browser write the document of `url`.
pub open spec fn dump_args(url: Seq<char>) -> Seq<Seq<char>> {
    seq!["--headless"@, "--disable-gpu"@, "--dump-dom"@, url]
}

/// The command that writes the document of the page at `url`.
pub fn chrome_dl(url: &str, o: &RepoCacheOptions) -> (command: CommandLine)
    ensures
        command.program@ == o.chromium_bin_path@,
        words(command.args@) == dump_args(url@),
        command.env is None,
        command.timeout_secs == PAGE_TIMEOUT_SECS,
{
    let mut args: Vec<String> = Vec::new();
    args.push(String::from_str("--headless"));
    args.push(String::from_str("--disable-gpu"));
    args.push(String::from_str("--dump-dom"));
    args.push(String::from_str(url));
    assert(words(args@) =~= dump_args(url@));
    CommandLine {
        program: o.chromium_bin_path.clone(),
        args,
        env: None,
        timeout_secs: PAGE_TIMEOUT_SECS,
    }
}

/// The page that the browser wrote: the text that its output encodes, or an
/// error where the output is not UTF-8.
pub fn page_text(stdout: Vec<u8>) -> (r: Result<String, ChromeError>)
    ensures
        valid_utf8(stdout@) ==> (r matches Ok(text) && text@ == decode_utf8(stdout@)),
        !valid_utf8(stdout@) ==> r matches Err(ChromeError::StdoutParseError(_)),
{
    match String::from_utf8(stdout) {
        Ok(output) => Ok(output),
        Err(e) => Err(ChromeError::StdoutParseError(e)),
    }
}

} // verus!
