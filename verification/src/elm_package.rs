//! Packages of the Elm package site: where their pages and local copies are,
//! which repository a package page links to, and the exports of their files.

use crate::chromium_dl::ChromeError;
use crate::exports::{exports_of_text, get_elm_exports, ElmExportView, ElmExports};
use crate::git_repo::{tree_link_parts, GitError, GitRepo};
use crate::helpers::same_text;
use crate::repo_cache::RepoCacheOptions;
use select::document::Document;
use select::predicate::{Attr, Class, Predicate};
use std::path::PathBuf;
use vstd::prelude::*;
use vstd::string::*;

verus! {

/// A package, by its name on the package site.
#[derive(Debug, Clone, PartialEq, Eq)]
pub struct ElmPackage {
    pub name: String,
}

/// One source file of a package with its exports.
#[derive(Debug, Clone)]
pub struct ElmFile {
    pub repository: String,
    pub path: String,
    pub exports: ElmExports,
}

/// A source file with its exports, as text.
pub struct ElmFileView {
    pub repository: Seq<char>,
    pub path: Seq<char>,
    pub exports: Seq<ElmExportView>,
}

impl View for ElmFile {
    type V = ElmFileView;

    open spec fn view(&self) -> ElmFileView {
        ElmFileView { repository: self.repository@, path: self.path@, exports: self.exports@ }
    }
}

impl ElmFile {
    /// A copy of the file.
    pub fn duplicate(&self) -> (copy: Self)
        ensures
            copy@ == self@,
    {
        ElmFile {
            repository: self.repository.clone(),
            path: self.path.clone(),
            exports: self.exports.duplicate(),
        }
    }
}

/// Why nothing came of a package.
#[derive(Debug, PartialEq)]
pub enum ElmPackageError {
    GitError(GitError),
    ChromeError(ChromeError),
    /// The place of the local copy is no text; the package's name.
    InvalidRepoPath(String),
    /// The package page links to no source tree; the page's address.
    CantFindUrl(String),
    /// A directory could not be read while looking for source files.
    GlobError(String),
    /// The search pattern for source files is not well formed.
    GlobPatternError(String),
    /// A source file could not be read.
    IoError(String),
}

impl From<GitError> for ElmPackageError {
    fn from(e: GitError) -> (wrapped: Self) {
        ElmPackageError::GitError(e)
    }
}

impl vstd::std_specs::convert::FromSpecImpl<GitError> for ElmPackageError {
    open spec fn obeys_from_spec() -> bool {
        true
    }

    open spec fn from_spec(e: GitError) -> Self {
        ElmPackageError::GitError(e)
    }
}

impl From<ChromeError> for ElmPackageError {
    fn from(e: ChromeError) -> (wrapped: Self) {
        ElmPackageError::ChromeError(e)
    }
}

impl vstd::std_specs::convert::FromSpecImpl<ChromeError> for ElmPackageError {
    open spec fn obeys_from_spec() -> bool {
        true
    }

    open spec fn from_spec(e: ChromeError) -> Self {
        ElmPackageError::ChromeError(e)
    }
}

/// The elements of the HTML document `page` that have the class `class` and
/// the attribute `attr`, in document order: the text inside each, and what
/// the element gives as the value of its attribute.
pub uninterp spec fn marked_elements(page: Seq<char>, class: Seq<char>, attr: Seq<char>) -> Seq<
    (Seq<char>, Option<Seq<char>>),
>;

/// The text of an optional string.
pub open spec fn optional_text(s: Option<String>) -> Option<Seq<char>> {
    match s {
        Some(t) => Some(t@),
        None => None,
    }
}

/// Links, as text.
pub open spec fn pairs_text(pairs: Seq<(String, Option<String>)>) -> Seq<
    (Seq<char>, Option<Seq<char>>),
> {
    Seq::new(pairs.len(), |i: int| (pairs[i].0@, optional_text(pairs[i].1)))
}

/// `Document::from` and `Document::find` with the predicates `Class` and
/// `Attr`, then `Node::text` and `Node::attr` on each element found: the
/// result is named `marked_elements`.
#[verifier::external_body]
fn elements_in(page: &str, class: &str, attr: &str) -> (found: Vec<(String, Option<String>)>)
    ensures
        pairs_text(found@) == marked_elements(page@, class@, attr@),
{
    Document::from(page).find(Class(class).and(Attr(attr, ()))).map(
        |n| (n.text(), n.attr(attr).map(String::from)),
    ).collect()
}

/// `std::path::PathBuf`, a path as the system has it.
#[verifier::external_type_specification]
#[verifier::external_body]
pub struct ExPathBuf(PathBuf);

/// `PathBuf::from`: the path that the text `base` names.
#[verifier::external_body]
fn path_of(base: &str) -> PathBuf {
    PathBuf::from(base)
}

/// `Path::join`: `name` below the directory `base`. How the two are joined
/// depends on the system.
#[verifier::external_body]
fn path_below(base: &PathBuf, name: &str) -> PathBuf {
    base.join(name)
}

/// `Path::to_str`: the path as text, where it is text.
#[verifier::external_body]
fn path_text(path: &PathBuf) -> Option<String> {
    path.to_str().map(String::from)
}

/// The address of the package site.
pub const PACKAGES_BASE_URL: &'static str = "https://package.elm-lang.org";

/// The address of the list of all packages.
pub const PACKAGES_SEARCH_URL: &'static str = "https://package.elm-lang.org/search.json";

/// The address of the page of the latest version of the package `name`.
pub open spec fn latest_page(name: Seq<char>) -> Seq<char> {
    PACKAGES_BASE_URL@ + "/packages/"@ + name + "/latest/"@
}

/// The pattern that finds the source files below the local copy at `path`.
pub open spec fn source_pattern(path: Seq<char>) -> Seq<char> {
    path + "/src/**/*.elm"@
}

/// The first of `links` from `i` on whose text is `Browse Source` and that
/// has an address: its address.
pub open spec fn source_link(links: Seq<(Seq<char>, Option<Seq<char>>)>, i: int) -> Option<
    Seq<char>,
>
    decreases links.len() - i,
{
    if i < 0 || i >= links.len() {
        None
    } else if links[i].0 == "Browse Source"@ && links[i].1 is Some {
        links[i].1
    } else {
        source_link(links, i + 1)
    }
}

/// The repository that a package page with the navigation links `links`
/// names: that of its first `Browse Source` link.
pub open spec fn repo_among(page_url: Seq<char>, links: Seq<(Seq<char>, Option<Seq<char>>)>) -> Result<
    (Seq<char>, Seq<char>),
    Seq<char>,
> {
    match source_link(links, 0) {
        Some(link) => match tree_link_parts(link) {
            Some(parts) => Ok(parts),
            None => Err(link),
        },
        None => Err(page_url),
    }
}

/// The file at `path` with the exports that its text `code` has, or `path`
/// where `code` is no module.
pub fn elm_file(path: &str, code: &str) -> (r: Result<ElmFile, String>)
    ensures
        match exports_of_text(code@) {
            Ok(exports) => r matches Ok(file) && file.repository@ == path@ && file.path@ == path@
                && file.exports@ == exports,
            Err(_) => r matches Err(failed) && failed@ == path@,
        },
{
    match get_elm_exports(code) {
        Ok(e) => Ok(
            ElmFile { repository: String::from_str(path), path: String::from_str(path), exports: e },
        ),
        Err(_) => Err(String::from_str(path)),
    }
}

impl ElmPackage {
    /// The address of the page of the package's latest version.
    pub fn latest_url(&self) -> (url: String)
        ensures
            url@ == latest_page(self.name@),
    {
        let mut url = String::from_str(PACKAGES_BASE_URL);
        url.append("/packages/");
        url.append(self.name.as_str());
        url.append("/latest/");
        url
    }

    /// The place of the package's local copy, given what joining the cache
    /// directory and the package's name came to: that place where it is text,
    /// an error with the package's name where it is not.
    pub fn repo_path_from(&self, joined: Option<String>) -> (r: Result<String, ElmPackageError>)
        ensures
            match joined {
                Some(path) => r matches Ok(place) && place == path,
                None => r matches Err(ElmPackageError::InvalidRepoPath(name)) && name@
                    == self.name@,
            },
    {
        match joined {
            Some(path) => Ok(path),
            None => Err(ElmPackageError::InvalidRepoPath(self.name.clone())),
        }
    }

    /// The place of the package's local copy below the cache directory. An
    /// error with the package's name where that place is no text. What the
    /// place reads like is the system's matter: its separator, and what it
    /// does with a name that is itself a full path.
    pub fn get_repo_path(&self, o: &RepoCacheOptions) -> (r: Result<String, ElmPackageError>)
        ensures
            r matches Err(e) ==> e matches ElmPackageError::InvalidRepoPath(name) && name@
                == self.name@,
    {
        let cache = path_of(o.cache_path.as_str());
        let place = path_below(&cache, self.name.as_str());
        self.repo_path_from(path_text(&place))
    }

    /// The pattern that finds the source files of the local copy at `path`.
    pub fn source_files(path: &str) -> (pattern: String)
        ensures
            pattern@ == source_pattern(path@),
    {
        let mut pattern = String::from_str(path);
        pattern.append("/src/**/*.elm");
        pattern
    }

    /// The repository that the package page names, given the navigation links
    /// of the page: each with its text and its address. The first link with
    /// the text `Browse Source` decides; without one the page's address comes
    /// back as an error.
    pub fn repo_in_links(&self, links: &Vec<(String, Option<String>)>) -> (r: Result<
        GitRepo,
        ElmPackageError,
    >)
        ensures
            match repo_among(latest_page(self.name@), pairs_text(links@)) {
                Ok((address, version)) => r matches Ok(repo) && repo.url@ == address
                    && repo.version@ == version,
                Err(text) => match source_link(pairs_text(links@), 0) {
                    Some(_) => r matches Err(ElmPackageError::GitError(GitError::ParseError(link)))
                        && link@ == text,
                    None => r matches Err(ElmPackageError::CantFindUrl(url)) && url@ == text,
                },
            },
    {
        let mut i: usize = 0;
        while i < links.len()
            invariant
                i <= links.len(),
                source_link(pairs_text(links@), i as int) == source_link(pairs_text(links@), 0),
            decreases links.len() - i,
        {
            let link = &links[i];
            assert(pairs_text(links@)[i as int] == (link.0@, optional_text(link.1)));
            if same_text(link.0.as_str(), "Browse Source") {
                match &link.1 {
                    Some(address) => {
                        return match GitRepo::from_url(address.as_str()) {
                            Ok(repo) => Ok(repo),
                            Err(e) => Err(ElmPackageError::GitError(e)),
                        };
                    },
                    None => {},
                }
            }
            i += 1;
        }
        Err(ElmPackageError::CantFindUrl(self.latest_url()))
    }

    /// The repository that the package page with the text `page_text` names.
    pub fn find_git_repo(&self, page_text: &str) -> (r: Result<GitRepo, ElmPackageError>)
        ensures
            ({
                let links = marked_elements(page_text@, "pkg-nav-module"@, "href"@);
                match repo_among(latest_page(self.name@), links) {
                    Ok((address, version)) => r matches Ok(repo) && repo.url@ == address
                        && repo.version@ == version,
                    Err(text) => match source_link(links, 0) {
                        Some(_) => r matches Err(
                            ElmPackageError::GitError(GitError::ParseError(link)),
                        ) && link@ == text,
                        None => r matches Err(ElmPackageError::CantFindUrl(url)) && url@ == text,
                    },
                }
            }),
    {
        let links = elements_in(page_text, "pkg-nav-module", "href");
        self.repo_in_links(&links)
    }
}

} // verus!
