//! What the library's errors say of themselves.

use crate::chromium_dl::ChromeError;
use crate::db_queries::UpdateUrlError;
use crate::elm_package::ElmPackageError;
use crate::git_repo::GitError;
use crate::repo_cache::SyncRepoError;
use crate::subprocess::ExecError;
use std::string::FromUtf8Error;
use vstd::prelude::*;
use vstd::string::*;
use vstd::utf8::{decode_utf8, valid_utf8};

verus! {

/// The text that `String::from_utf8_lossy` reads out of some bytes: the text
/// they encode, with a replacement character wherever they encode none.
pub uninterp spec fn lossy_text(bytes: Seq<u8>) -> Seq<char>;

/// `String::from_utf8_lossy`: the text, which is named `lossy_text`; for bytes
/// that are valid UTF-8 it is the text they encode.
#[verifier::external_body]
fn lossy(bytes: &Vec<u8>) -> (text: String)
    ensures
        text@ == lossy_text(bytes@),
        valid_utf8(bytes@) ==> text@ == decode_utf8(bytes@),
{
    String::from_utf8_lossy(bytes.as_slice()).into_owned()
}

/// `ToString::to_string` of the error of `String::from_utf8`: what the error
/// says of itself.
#[verifier::external_body]
fn utf8_error_text(e: &FromUtf8Error) -> String {
    e.to_string()
}

/// The character of a digit.
pub open spec fn digit(d: nat) -> char {
    if d == 0 {
        '0'
    } else if d == 1 {
        '1'
    } else if d == 2 {
        '2'
    } else if d == 3 {
        '3'
    } else if d == 4 {
        '4'
    } else if d == 5 {
        '5'
    } else if d == 6 {
        '6'
    } else if d == 7 {
        '7'
    } else if d == 8 {
        '8'
    } else {
        '9'
    }
}

/// The decimal digits of a number, the first not `0` unless it is the only one.
pub open spec fn digits(n: nat) -> Seq<char>
    decreases n,
{
    if n < 10 {
        seq![digit(n)]
    } else {
        digits(n / 10).push(digit(n % 10))
    }
}

/// A number in decimal, with a minus sign where it is negative.
pub open spec fn decimal(n: int) -> Seq<char> {
    if n < 0 {
        seq!['-'] + digits((-n) as nat)
    } else {
        digits(n as nat)
    }
}

/// An exit code as text: the code in decimal, or `none` where the program
/// ended without one.
pub open spec fn status_text(status: Option<i32>) -> Seq<char> {
    match status {
        Some(code) => decimal(code as int),
        None => "none"@,
    }
}

/// What was written to the two streams, as text.
pub open spec fn streams_text(stdout: Seq<u8>, stderr: Seq<u8>) -> Seq<char> {
    "\nstdout:\n"@ + lossy_text(stdout) + "\nstderr:\n"@ + lossy_text(stderr) + "\n"@
}

/// What a failed run says of itself.
pub open spec fn exec_message(e: ExecError) -> Seq<char> {
    match e {
        ExecError::TimeoutError { stdout, stderr } => "TimeoutError:"@ + streams_text(
            stdout@,
            stderr@,
        ),
        ExecError::IoError(text) => "IoError: "@ + text@,
        ExecError::ProcessError { status, stdout, stderr } => "ProcessError:\nstatus code: "@
            + status_text(status) + streams_text(stdout@, stderr@),
        ExecError::ProcessNotStarted => "ProcessNotStarted"@,
        ExecError::DurationError => "DurationError"@,
    }
}

/// What a failed call of git says of itself.
pub open spec fn git_message(e: GitError) -> Seq<char> {
    match e {
        GitError::ParseError(link) => "error parsing git url "@ + link@,
        GitError::ProcessError(run) => "error while running git: "@ + exec_message(run),
    }
}

/// What a failed change of the database says of itself.
pub open spec fn update_url_message(e: UpdateUrlError) -> Seq<char> {
    match e {
        UpdateUrlError::DieselConnectionError(text) => "DieselConnectionError: "@ + text@,
        UpdateUrlError::DieselError(text) => "DieselError: "@ + text@,
        UpdateUrlError::RepoNotFound => "RepoNotFound"@,
    }
}

/// `text` is what a failed fetch of a page says of itself: for a failed run
/// what the run says, for output that is not UTF-8 what the check of it says.
pub open spec fn chrome_says(e: ChromeError, text: Seq<char>) -> bool {
    match e {
        ChromeError::ProcessError(run) => text == "error during execution of chrome: "@
            + exec_message(run),
        ChromeError::StdoutParseError(_) => "chrome returned invalid utf8 in output: "@.is_prefix_of(
            text,
        ),
    }
}

/// `text` is what a failure with a package says of itself.
pub open spec fn elm_package_says(e: ElmPackageError, text: Seq<char>) -> bool {
    match e {
        ElmPackageError::GitError(inner) => text == git_message(inner),
        ElmPackageError::ChromeError(inner) => chrome_says(inner, text),
        ElmPackageError::InvalidRepoPath(path) => text == "invalid repository path: "@ + path@,
        ElmPackageError::CantFindUrl(url) => text == "can't find url: "@ + url@,
        ElmPackageError::GlobError(said) => text == "error while globbing: "@ + said@,
        ElmPackageError::GlobPatternError(said) => text == "invalid glob pattern: "@ + said@,
        ElmPackageError::IoError(said) => text == "io error while getting exports: "@ + said@,
    }
}

/// `text` is what a failure to bring a repository up to date says of itself:
/// what the error inside it says.
pub open spec fn sync_repo_says(e: SyncRepoError, text: Seq<char>) -> bool {
    match e {
        SyncRepoError::GitError(inner) => text == git_message(inner),
        SyncRepoError::ElmPackageError(inner) => elm_package_says(inner, text),
        SyncRepoError::UpdateUrlError(inner) => text == update_url_message(inner),
    }
}

/// The character `d` stands for.
fn digit_char(d: u64) -> (c: char)
    requires
        d < 10,
    ensures
        c == digit(d as nat),
{
    if d == 0 {
        '0'
    } else if d == 1 {
        '1'
    } else if d == 2 {
        '2'
    } else if d == 3 {
        '3'
    } else if d == 4 {
        '4'
    } else if d == 5 {
        '5'
    } else if d == 6 {
        '6'
    } else if d == 7 {
        '7'
    } else if d == 8 {
        '8'
    } else {
        '9'
    }
}

/// Appends the decimal digits of `n`.
fn push_digits(text: &mut String, n: u64)
    ensures
        final(text)@ == old(text)@ + digits(n as nat),
    decreases n,
{
    if n >= 10 {
        push_digits(text, n / 10);
    }
    text.push(digit_char(n % 10));
    assert(text@ =~= old(text)@ + digits(n as nat));
}

/// Appends `n` in decimal.
fn push_decimal(text: &mut String, n: i32)
    ensures
        final(text)@ == old(text)@ + decimal(n as int),
{
    if n < 0 {
        text.push('-');
        let size: u64 = (-(n as i64)) as u64;
        push_digits(text, size);
        assert(text@ =~= old(text)@ + decimal(n as int));
    } else {
        push_digits(text, n as u64);
    }
}

/// Appends what was written to the two streams.
fn push_streams(text: &mut String, stdout: &Vec<u8>, stderr: &Vec<u8>)
    ensures
        final(text)@ == old(text)@ + streams_text(stdout@, stderr@),
{
    text.append("\nstdout:\n");
    text.append(lossy(stdout).as_str());
    text.append("\nstderr:\n");
    text.append(lossy(stderr).as_str());
    text.append("\n");
    assert(text@ =~= old(text)@ + streams_text(stdout@, stderr@));
}

impl ExecError {
    /// What the error says of itself: its kind and, for a program that ran,
    /// what it wrote.
    pub fn message(&self) -> (text: String)
        ensures
            text@ == exec_message(*self),
    {
        match self {
            ExecError::TimeoutError { stdout, stderr } => {
                let mut text = String::from_str("TimeoutError:");
                push_streams(&mut text, stdout, stderr);
                text
            },
            ExecError::IoError(said) => {
                let mut text = String::from_str("IoError: ");
                text.append(said.as_str());
                text
            },
            ExecError::ProcessError { status, stdout, stderr } => {
                let mut text = String::from_str("ProcessError:\nstatus code: ");
                match status {
                    Some(code) => {
                        push_decimal(&mut text, *code);
                    },
                    None => {
                        text.append("none");
                    },
                }
                push_streams(&mut text, stdout, stderr);
                assert(text@ =~= exec_message(*self));
                text
            },
            ExecError::ProcessNotStarted => String::from_str("ProcessNotStarted"),
            ExecError::DurationError => String::from_str("DurationError"),
        }
    }
}

impl GitError {
    /// What the error says of itself.
    pub fn message(&self) -> (text: String)
        ensures
            text@ == git_message(*self),
    {
        match self {
            GitError::ParseError(link) => {
                let mut text = String::from_str("error parsing git url ");
                text.append(link.as_str());
                text
            },
            GitError::ProcessError(run) => {
                let mut text = String::from_str("error while running git: ");
                text.append(run.message().as_str());
                text
            },
        }
    }
}

impl UpdateUrlError {
    /// What the error says of itself.
    pub fn message(&self) -> (text: String)
        ensures
            text@ == update_url_message(*self),
    {
        match self {
            UpdateUrlError::DieselConnectionError(said) => {
                let mut text = String::from_str("DieselConnectionError: ");
                text.append(said.as_str());
                text
            },
            UpdateUrlError::DieselError(said) => {
                let mut text = String::from_str("DieselError: ");
                text.append(said.as_str());
                text
            },
            UpdateUrlError::RepoNotFound => String::from_str("RepoNotFound"),
        }
    }
}

impl ChromeError {
    /// What the error says of itself: for a failed run what the run says,
    /// for output that is not UTF-8 what the check of it says.
    pub fn message(&self) -> (text: String)
        ensures
            chrome_says(*self, text@),
    {
        match self {
            ChromeError::ProcessError(run) => {
                let mut text = String::from_str("error during execution of chrome: ");
                text.append(run.message().as_str());
                text
            },
            ChromeError::StdoutParseError(e) => {
                let mut text = String::from_str("chrome returned invalid utf8 in output: ");
                text.append(utf8_error_text(e).as_str());
                text
            },
        }
    }
}

impl ElmPackageError {
    /// What the error says of itself.
    pub fn message(&self) -> (text: String)
        ensures
            elm_package_says(*self, text@),
    {
        match self {
            ElmPackageError::GitError(e) => e.message(),
            ElmPackageError::ChromeError(e) => e.message(),
            ElmPackageError::InvalidRepoPath(path) => {
                let mut text = String::from_str("invalid repository path: ");
                text.append(path.as_str());
                text
            },
            ElmPackageError::CantFindUrl(url) => {
                let mut text = String::from_str("can't find url: ");
                text.append(url.as_str());
                text
            },
            ElmPackageError::GlobError(said) => {
                let mut text = String::from_str("error while globbing: ");
                text.append(said.as_str());
                text
            },
            ElmPackageError::GlobPatternError(said) => {
                let mut text = String::from_str("invalid glob pattern: ");
                text.append(said.as_str());
                text
            },
            ElmPackageError::IoError(said) => {
                let mut text = String::from_str("io error while getting exports: ");
                text.append(said.as_str());
                text
            },
        }
    }
}

impl SyncRepoError {
    /// What the error says of itself: what the error inside it says.
    pub fn message(&self) -> (text: String)
        ensures
            sync_repo_says(*self, text@),
    {
        match self {
            SyncRepoError::GitError(e) => e.message(),
            SyncRepoError::ElmPackageError(e) => e.message(),
            SyncRepoError::UpdateUrlError(e) => e.message(),
        }
    }
}

} // verus!
