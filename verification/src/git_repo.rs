//! Git repositories of packages: reading the address of one out of a link to
//! its source tree, and the git commands that fetch it.

use crate::config::Config;
use crate::repo_cache::RepoCacheOptions;
use crate::subprocess::{words, CommandLine, ExecError};
use regex::Regex;
use vstd::prelude::*;
use vstd::string::*;

verus! {

/// A repository and the version of it to fetch.
#[derive(Debug, Clone, PartialEq, Eq)]
pub struct GitRepo {
    pub url: String,
    pub version: String,
}

/// Why nothing came of a repository.
#[derive(Debug, Clone, PartialEq, Eq)]
pub enum GitError {
    /// The link is not one to a source tree; the link.
    ParseError(String),
    /// Running git failed.
    ProcessError(ExecError),
}

impl From<ExecError> for GitError {
    fn from(e: ExecError) -> (wrapped: Self) {
        GitError::ProcessError(e)
    }
}

impl vstd::std_specs::convert::FromSpecImpl<ExecError> for GitError {
    open spec fn obeys_from_spec() -> bool {
        true
    }

    open spec fn from_spec(e: ExecError) -> Self {
        GitError::ProcessError(e)
    }
}

/// The error of `Regex::new`.
#[verifier::external_type_specification]
#[verifier::external_body]
pub struct ExRegexError(regex::Error);

/// What a match of a regular expression gave for two of its groups: for each
/// the text it took, where it took part in the match.
pub type Groups = (Option<String>, Option<String>);

/// The groups, as text.
pub open spec fn groups_text(groups: Groups) -> (Option<Seq<char>>, Option<Seq<char>>) {
    (
        match groups.0 {
            Some(text) => Some(text@),
            None => None,
        },
        match groups.1 {
            Some(text) => Some(text@),
            None => None,
        },
    )
}

/// What the first match of the regular expression `pattern` in `text` gives
/// for the two named groups `first` and `second`. The outer nothing stands for
/// an expression that is not well formed, the inner one for no match.
pub uninterp spec fn regex_groups(
    pattern: Seq<char>,
    text: Seq<char>,
    first: Seq<char>,
    second: Seq<char>,
) -> Option<Option<(Option<Seq<char>>, Option<Seq<char>>)>>;

/// `Regex::new`, `Regex::captures` and `Captures::name` for two groups: the
/// error of an expression that is not well formed, nothing where the
/// expression does not match, else what each group took. The result is named
/// `regex_groups`.
#[verifier::external_body]
fn two_groups(pattern: &str, text: &str, first: &str, second: &str) -> (r: Result<
    Option<Groups>,
    regex::Error,
>)
    ensures
        match regex_groups(pattern@, text@, first@, second@) {
            None => r is Err,
            Some(None) => r matches Ok(found) && found is None,
            Some(Some(groups)) => r matches Ok(Some(found)) && groups_text(found) == groups,
        },
{
    match Regex::new(pattern) {
        Err(e) => Err(e),
        Ok(re) => Ok(
            re.captures(text).map(
                |found|
                    (
                        found.name(first).map(|m| m.as_str().to_string()),
                        found.name(second).map(|m| m.as_str().to_string()),
                    ),
            ),
        ),
    }
}

/// A link to a source tree: an address that begins with `http`, `/tree/`, and
/// a version made of digits and dots.
pub const TREE_LINK: &'static str = "^(?P<url>http.+)/tree/(?P<version>[\\.\\d]+)$";

/// How many seconds `git reset` may take.
pub const RESET_TIMEOUT_SECS: u64 = 5;

/// The address and the version that the groups of a match hold, where both
/// took part in it.
pub open spec fn both_groups(found: Option<Option<(Option<Seq<char>>, Option<Seq<char>>)>>) -> Option<
    (Seq<char>, Seq<char>),
> {
    match found {
        Some(Some((Some(address), Some(version)))) => Some((address, version)),
        _ => None,
    }
}

/// The address and the version that a link to a source tree holds.
pub open spec fn tree_link_parts(link: Seq<char>) -> Option<(Seq<char>, Seq<char>)> {
    both_groups(regex_groups(TREE_LINK@, link, "url"@, "version"@))
}

/// The arguments of `git clone` for one version of a repository.
pub open spec fn clone_args(url: Seq<char>, version: Seq<char>, repo_path: Seq<char>) -> Seq<
    Seq<char>,
> {
    seq!["clone"@, "--branch"@, version, "--depth"@, "1"@, url, repo_path]
}

/// The arguments of `git fetch` in a local copy.
pub open spec fn fetch_args(repo_path: Seq<char>) -> Seq<Seq<char>> {
    seq!["-C"@, repo_path, "fetch"@, "--depth"@, "1"@, "--tags"@, "origin"@]
}

/// The arguments of `git reset` to a version in a local copy.
pub open spec fn reset_args(version: Seq<char>, repo_path: Seq<char>) -> Seq<Seq<char>> {
    seq!["-C"@, repo_path, "reset"@, "--hard"@, version]
}

/// The variable that keeps git from asking on the terminal.
pub open spec fn no_prompt(env: Option<(String, String)>) -> bool {
    env matches Some((name, value)) && name@ == "GIT_TERMINAL_PROMPT"@ && value@ == "0"@
}

/// A git command line.
fn git_command(o: &RepoCacheOptions, args: Vec<String>, timeout_secs: u64) -> (command: CommandLine)
    ensures
        command.program@ == o.git_bin_path@,
        command.args == args,
        no_prompt(command.env),
        command.timeout_secs == timeout_secs,
{
    CommandLine {
        program: o.git_bin_path.clone(),
        args,
        env: Some((String::from_str("GIT_TERMINAL_PROMPT"), String::from_str("0"))),
        timeout_secs,
    }
}

impl GitRepo {
    /// The repository that a match of the link pattern in `url` gives: the one
    /// whose address and version the two groups took. Where there was no
    /// match, or a group took no part in it, `url` is no link to a source tree.
    pub fn from_captures(url: &str, found: Option<Groups>) -> (r: Result<Self, GitError>)
        ensures
            match found {
                Some((Some(address), Some(version))) => r matches Ok(repo) && repo.url == address
                    && repo.version == version,
                _ => r matches Err(GitError::ParseError(link)) && link@ == url@,
            },
    {
        match found {
            Some((Some(address), Some(version))) => Ok(GitRepo { url: address, version }),
            _ => Err(GitError::ParseError(String::from_str(url))),
        }
    }

    /// The repository and version that a link to a source tree names. Any
    /// other text is an error that holds the text.
    pub fn from_url(url: &str) -> (r: Result<Self, GitError>)
        ensures
            match tree_link_parts(url@) {
                Some((address, version)) => r matches Ok(repo) && repo.url@ == address
                    && repo.version@ == version,
                None => r matches Err(GitError::ParseError(link)) && link@ == url@,
            },
    {
        match two_groups(TREE_LINK, url, "url", "version") {
            Ok(found) => GitRepo::from_captures(url, found),
            Err(_) => Err(GitError::ParseError(String::from_str(url))),
        }
    }

    /// The command that clones this version of the repository to `repo_path`.
    pub fn clone_repo(&self, repo_path: &str, config: &Config, o: &RepoCacheOptions) -> (command:
        CommandLine)
        ensures
            command.program@ == o.git_bin_path@,
            words(command.args@) == clone_args(self.url@, self.version@, repo_path@),
            no_prompt(command.env),
            command.timeout_secs == config.scrape.git_timeout,
    {
        let mut args: Vec<String> = Vec::new();
        args.push(String::from_str("clone"));
        args.push(String::from_str("--branch"));
        args.push(self.version.clone());
        args.push(String::from_str("--depth"));
        args.push(String::from_str("1"));
        args.push(self.url.clone());
        args.push(String::from_str(repo_path));
        assert(words(args@) =~= clone_args(self.url@, self.version@, repo_path@));
        git_command(o, args, config.scrape.git_timeout)
    }

    /// The two commands that bring the local copy at `repo_path` to this
    /// version: a fetch, then a reset.
    pub fn update_repo(&self, repo_path: &str, config: &Config, o: &RepoCacheOptions) -> (commands:
        (CommandLine, CommandLine))
        ensures
            commands.0.program@ == o.git_bin_path@,
            words(commands.0.args@) == fetch_args(repo_path@),
            no_prompt(commands.0.env),
            commands.0.timeout_secs == config.scrape.git_timeout,
            commands.1.program@ == o.git_bin_path@,
            words(commands.1.args@) == reset_args(self.version@, repo_path@),
            no_prompt(commands.1.env),
            commands.1.timeout_secs == RESET_TIMEOUT_SECS,
    {
        let mut fetch: Vec<String> = Vec::new();
        fetch.push(String::from_str("-C"));
        fetch.push(String::from_str(repo_path));
        fetch.push(String::from_str("fetch"));
        fetch.push(String::from_str("--depth"));
        fetch.push(String::from_str("1"));
        fetch.push(String::from_str("--tags"));
        fetch.push(String::from_str("origin"));
        assert(words(fetch@) =~= fetch_args(repo_path@));
        let mut reset: Vec<String> = Vec::new();
        reset.push(String::from_str("-C"));
        reset.push(String::from_str(repo_path));
        reset.push(String::from_str("reset"));
        reset.push(String::from_str("--hard"));
        reset.push(self.version.clone());
        assert(words(reset@) =~= reset_args(self.version@, repo_path@));
        (
            git_command(o, fetch, config.scrape.git_timeout),
            git_command(o, reset, RESET_TIMEOUT_SECS),
        )
    }
}

} // verus!
