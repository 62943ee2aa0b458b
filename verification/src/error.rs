//! The crate's error type, the user-facing rendering of an error, and the rules that decide
//! whether a GitHub API failure is worth retrying.
use vstd::prelude::*;
use crate::text::{cat, cat3, contains, contains_seq, owned, push_char, concat_all};

verus! {

/// The digits of `n` in base ten, as `u64`'s `Display` writes them.
pub open spec fn decimal(n: nat) -> Seq<char>
    decreases n,
{
    if n < 10 {
        seq![digit_char(n)]
    } else {
        decimal(n / 10).push(digit_char(n % 10))
    }
}

/// The ASCII digit for `d < 10`.
pub open spec fn digit_char(d: nat) -> char {
    (d + 48) as char
}

/// `n` written in base ten.
pub fn decimal_string(n: u64) -> (r: String)
    ensures
        r@ == decimal(n as nat),
    decreases n,
{
    if n < 10 {
        let mut r = String::new();
        push_char(&mut r, digit(n));
        assert(r@ =~= seq![digit_char(n as nat)]);
        r
    } else {
        let mut r = decimal_string(n / 10);
        push_char(&mut r, digit(n % 10));
        r
    }
}

/// The digits of `n` in base ten, with a leading `-` for a negative number, as `i64`'s
/// `Display` writes them.
pub open spec fn signed_decimal(n: int) -> Seq<char> {
    if n < 0 {
        seq!['-'] + decimal((-n) as nat)
    } else {
        decimal(n as nat)
    }
}

/// `n` written in base ten.
pub fn signed_decimal_string(n: i64) -> (r: String)
    ensures
        r@ == signed_decimal(n as int),
{
    if n < 0 {
        let magnitude: u64 = ((-(n + 1)) as u64) + 1;
        let digits = decimal_string(magnitude);
        let mut r = String::new();
        push_char(&mut r, '-');
        r.append(digits.as_str());
        assert(r@ =~= seq!['-'] + decimal((-n) as nat));
        r
    } else {
        decimal_string(n as u64)
    }
}

fn digit(d: u64) -> (c: char)
    requires
        d < 10,
    ensures
        c == digit_char(d as nat),
{
    let b = (d as u8) + 48;
    b as char
}

/// What an error of an outside library said of itself, taken when it was converted into a
/// [`GitError`]: its `Display` text, and whether an I/O error of kind `BrokenPipe` lies on its
/// chain of sources.
#[derive(Debug, Clone)]
pub struct OutsideFailure {
    /// The error's `Display` text.
    pub message: String,
    /// The error's `Debug` text.
    pub debug: String,
    /// Whether a broken pipe lies on the error's chain of sources.
    pub broken_pipe: bool,
}

/// The variants of a GitHub client error that the retry and reporting rules tell apart.
#[derive(Debug, Clone, Copy, PartialEq, Eq, Structural)]
pub enum ApiErrorKind {
    /// GitHub answered with an error status.
    GitHub,
    /// The HTTP layer failed.
    Http,
    /// The HTTP connection failed.
    Hyper,
    /// A middleware service failed.
    Service,
    /// Any other failure of the client.
    Other,
}

/// A failed GitHub API call, held as the plain values that this crate's rules read.
#[derive(Debug, Clone)]
pub struct ApiFailure {
    /// Which kind of client error this was.
    pub kind: ApiErrorKind,
    /// The HTTP status that GitHub answered with, for [`ApiErrorKind::GitHub`].
    pub status: Option<u16>,
    /// GitHub's own message for [`ApiErrorKind::GitHub`]; for the other kinds, the text of the
    /// underlying source error.
    pub message: String,
    /// The `message` fields of the detailed errors that GitHub attached, in order.
    pub details: Vec<String>,
    /// The client error's `Display` text.
    pub display: String,
    /// The client error's `Debug` text.
    pub debug: String,
    /// Whether a network failure lies on the error's chain of sources.
    pub network: bool,
    /// Whether a broken pipe lies on the error's chain of sources.
    pub broken_pipe: bool,
}

/// Error type to make it easier to handle returning from functions.
#[derive(Debug)]
pub enum GitError {
    /// Generic holder for multiple errors, each with the context it arose in.
    MultipleErrors(Vec<(String, GitError)>),
    /// A GitHub API error.
    GithubApiError(ApiFailure),
    /// PR merge error, with the pull request's number.
    PRNotMergeable(u64),
    /// No upstream repository found for a fork.
    NoUpstreamRepo(String),
    /// Generic AWS error.
    AWSError(String),
    /// Failure to parse a date.
    DateParseError(OutsideFailure),
    /// URL is not a valid repository.
    InvalidRepository(String),
    /// Generic sync failure.
    SyncFailure { ref_type: String, repository: String },
    /// A regular expression could not be compiled or run.
    RegexError(OutsideFailure),
    /// Repository list is empty.
    NoReposConfigured,
    /// Repository is not a fork for an action that requires a fork.
    NotAFork,
    /// No repository name was provided.
    MissingRepositoryName,
    /// Some git reference cannot be found.
    NoSuchReference(String),
    /// Branch does not exist.
    NoSuchBranch(String),
    /// Tag does not exist.
    NoSuchTag(String),
    /// Pull request cannot be found.
    NoSuchPR { repository: String, head: String, base: String },
    /// Some TOML parsing error.
    TomlError(OutsideFailure),
    /// File could not be found.
    FileDoesNotExist(String),
    /// GitHub token is missing.
    MissingToken,
    /// A spawned task could not be joined.
    JoinError(OutsideFailure),
    /// Some I/O error.
    IoError(OutsideFailure),
    /// Failure to parse JSON.
    JsonError(OutsideFailure),
    /// Timezone could not be found.
    GetTimezoneError(OutsideFailure),
    /// A failure to acquire a semaphore permit.
    SemaphoreError(OutsideFailure),
    /// A failure to push changes to a repository.
    GitPushError(String),
    /// Git clone failure.
    GitCloneError { repository: String, branch: String },
    /// A branch could not be fast-forwarded.
    GitFFMergeError { branch: String, repository: String },
    /// Could not upload a file.
    FileUploadError(String),
    /// Provided path is something other than a directory.
    NotADirectory(String),
    /// Did not detect a valid git mirror.
    NotGitMirror(String),
    /// Failed to run an external command.
    ExecutionError { command: String, status: String },
    /// File has no contents.
    EmptyFile(String),
    /// File already exists.
    FileExists(String),
    /// Invalid version for odp-bigtop.
    InvalidBigtopVersion(String),
    /// Group not found in configuration file.
    InvalidGroup(String),
    /// Group exists but has no repositories in it.
    EmptyGroup(String),
    /// Unclassified error.
    Other(String),
}

/// Different categories of errors for user-friendly messages.
#[derive(Debug, Clone, Copy, PartialEq, Eq, Structural)]
pub enum ErrorCategory {
    NotFound,
    Auth,
    RateLimit,
    Network,
    Input,
    Server,
    Unknown,
}

/// Holds information about an error to present to the user.
#[derive(Debug)]
pub struct UserError {
    /// The HTTP status of the failed request, if there was one.
    pub code: Option<u16>,
    /// What went wrong.
    pub message: String,
    /// How the user might proceed.
    pub suggestion: Option<String>,
}

/// The view of a [`UserError`]: its code, message and suggestion as plain values.
pub open spec fn user_view(u: UserError) -> (Option<u16>, Seq<char>, Option<Seq<char>>) {
    (u.code, u.message@, opt_view(u.suggestion))
}

/// The view of an optional string.
pub open spec fn opt_view(o: Option<String>) -> Option<Seq<char>> {
    match o {
        Some(s) => Some(s@),
        None => None,
    }
}

/// How an HTTP status and the network flag sort a GitHub API failure.
pub open spec fn category_of(network: bool, code: Option<u16>) -> ErrorCategory {
    if network {
        ErrorCategory::Network
    } else {
        match code {
            Some(c) => if c == 401 || c == 403 {
                ErrorCategory::Auth
            } else if c == 404 {
                ErrorCategory::NotFound
            } else if c == 429 {
                ErrorCategory::RateLimit
            } else if 500 <= c && c <= 599 {
                ErrorCategory::Server
            } else if 400 <= c && c <= 499 {
                ErrorCategory::Input
            } else {
                ErrorCategory::Unknown
            },
            None => ErrorCategory::Unknown,
        }
    }
}

/// The advice given for each category of GitHub API failure.
pub open spec fn category_advice(c: ErrorCategory) -> Option<Seq<char>> {
    match c {
        ErrorCategory::Auth => Some("Check your credentials and repository permissions."@),
        ErrorCategory::RateLimit => Some(
            "You are being rate-limited by GitHub. Wait and try again later."@,
        ),
        ErrorCategory::Network => Some("Check your Internet connection."@),
        ErrorCategory::NotFound => Some("Check the repository or resource name."@),
        _ => None,
    }
}

/// The detail lines that GitHub attached to an error, each as `"\n- " + message`.
pub open spec fn detail_lines(details: Seq<String>) -> Seq<char>
    decreases details.len(),
{
    if details.len() == 0 {
        seq![]
    } else {
        detail_lines(details.drop_last()) + "\n- "@ + details.last()@
    }
}

/// The status and message that are reported for a GitHub API failure.
pub open spec fn api_info(a: ApiFailure) -> (Option<u16>, Seq<char>) {
    if a.kind == ApiErrorKind::GitHub {
        (a.status, a.message@ + detail_lines(a.details@))
    } else {
        (None, a.message@)
    }
}

/// Whether a GitHub API failure is worth retrying: GitHub answered with a server error, or the
/// HTTP, connection or service layer failed.
pub open spec fn retryable(a: ApiFailure) -> bool {
    match a.kind {
        ApiErrorKind::GitHub => match a.status {
            Some(c) => 500 <= c && c <= 599,
            None => false,
        },
        ApiErrorKind::Http | ApiErrorKind::Hyper | ApiErrorKind::Service => true,
        ApiErrorKind::Other => false,
    }
}

/// Whether a GitHub API failure reports rate limiting, which the user is told of.
pub open spec fn reports_rate_limit(a: ApiFailure) -> bool {
    a.kind == ApiErrorKind::GitHub && (a.status == Some(429u16) || (a.status == Some(403u16) && (
    contains_seq(a.message@, "rate limit"@) || contains_seq(a.message@, "abuse detection"@))))
}

/// The user-facing report of an error: code, message and suggestion.
pub open spec fn user_report(e: GitError) -> (Option<u16>, Seq<char>, Option<Seq<char>>)
    decreases e, 0int,
{
    match e {
        GitError::GithubApiError(a) => {
            let (code, msg) = api_info(a);
            (code, msg, category_advice(category_of(a.network, code)))
        },
        GitError::SyncFailure { ref_type, repository } => (
            None,
            "Could not sync "@ + ref_type@ + " for repository "@ + repository@,
            Some("Check that the your references exist in {repository}."@),
        ),
        GitError::PRNotMergeable(n) => (
            None,
            "PR #"@ + decimal(n as nat) + " cannot be merged automatically"@,
            Some("Human intervention may be required."@),
        ),
        GitError::NoSuchPR { repository, head, base } => (
            None,
            "No such PR for "@ + repository@ + " with head '"@ + head@ + "' and base '"@ + base@
                + "'"@,
            Some("Check that the branch names are correct."@),
        ),
        GitError::NoUpstreamRepo(repo) => (
            None,
            "Could not find an upstream repository for "@ + repo@,
            Some("Try adding "@ + repo@ + " to the fork_with_workaround group in your config file"@),
        ),
        GitError::DateParseError(f) => (
            None,
            "Invalid date: "@ + f.message@,
            Some("Use a valid date format."@),
        ),
        GitError::GitFFMergeError { branch, repository } => (
            None,
            "Could not fast forward merge branch "@ + branch@ + " for repository "@ + repository@,
            Some("Check that the branch exists and that there are no merge conflicts."@),
        ),
        GitError::InvalidRepository(url) => (
            None,
            "Invalid repository URL: "@ + url@,
            Some("Check the repository URL."@),
        ),
        GitError::InvalidBigtopVersion(v) => (
            None,
            "Invalid odp-bigtop version: "@ + v@,
            Some(
                "Try fixing your version string; if you do not want to modify the version of files and build numbers in odp-bigtop, add the --not-version flag"@,
            ),
        ),
        GitError::RegexError(f) => (
            None,
            "Regex error: "@ + f.message@,
            Some("Check your regular expression syntax."@),
        ),
        GitError::NoReposConfigured => (
            None,
            "No repositories are configured."@,
            Some("Add repositories to your configuration."@),
        ),
        GitError::NotAFork => (
            None,
            "Repository is not a fork."@,
            Some("Choose a repository that is a fork."@),
        ),
        GitError::MissingRepositoryName => (
            None,
            "Repository name is missing."@,
            Some("Specify the repository name."@),
        ),
        GitError::InvalidGroup(g) => (
            None,
            "Invalid group '"@ + g@ + "'"@,
            Some("Check your config file for typos."@),
        ),
        GitError::EmptyGroup(g) => (
            None,
            "Group '"@ + g@ + "' is empty"@,
            Some("Add repositories to '{group}' in your config file."@),
        ),
        GitError::GitCloneError { repository, branch } => (
            None,
            "Failed to clone "@ + repository@ + ":"@ + branch@,
            Some(
                "Check that the "@ + repository@ + " and the branch '"@ + branch@
                    + "' exist and that you have access."@,
            ),
        ),
        GitError::GitPushError(r) => (
            None,
            "Failed to push changes to "@ + r@,
            Some(
                "Check that you have write access to '"@ + r@
                    + "' and that your local branch is up to date."@,
            ),
        ),
        GitError::NoSuchBranch(b) => (
            None,
            "No such branch: "@ + b@,
            Some("Check the branch name or create it first."@),
        ),
        GitError::NoSuchTag(t) => (
            None,
            "No such tag: "@ + t@,
            Some("Check the tag name or create it first."@),
        ),
        GitError::NoSuchReference(r) => (
            None,
            "No such reference: "@ + r@,
            Some("Make sure your reference "@ + r@ + " exists"@),
        ),
        GitError::ExecutionError { command, status } => (
            None,
            "Execution error while running '"@ + command@ + "': '"@ + status@ + "'"@,
            Some(
                "Ensure that '"@ + command@
                    + "' is correct and that the base command is available in your PATH"@,
            ),
        ),
        GitError::FileDoesNotExist(f) => (
            None,
            "'"@ + f@ + "' does not exist"@,
            Some("Check that you passed the right path."@),
        ),
        GitError::EmptyFile(f) => (
            None,
            "'"@ + f@ + "' is an empty file"@,
            Some("Try restarting the backup process."@),
        ),
        GitError::NotADirectory(d) => (
            None,
            "'"@ + d@ + "' is not a directory"@,
            Some("Check that you passed the right path."@),
        ),
        GitError::NotGitMirror(d) => (
            None,
            "'"@ + d@ + "' is not a git mirror"@,
            Some("Check that you passed the right path."@),
        ),
        GitError::FileExists(f) => (
            None,
            "File '"@ + f@ + "' already exists"@,
            Some("Use --force to overwrite the existing file."@),
        ),
        GitError::FileUploadError(m) => (
            None,
            "Failed to upload file: "@ + m@,
            Some("Check the file path and permissions."@),
        ),
        GitError::TomlError(f) => (
            None,
            "TOML parsing error: "@ + f.message@,
            Some("Check your config file for syntax errors."@),
        ),
        GitError::MissingToken => (
            None,
            "Missing GitHub token. Please provide a token via --token, GITHUB_TOKEN environment variable, or in your config file."@,
            Some(
                "Provide a GitHub token using --token, environment variable, or config file."@,
            ),
        ),
        GitError::JoinError(f) => (None, "Failed to join tasks: "@ + f.message@, None),
        GitError::AWSError(m) => (None, "AWS Error: "@ + m@, None),
        GitError::IoError(f) => (
            None,
            "IO error: "@ + f.message@,
            Some("Check file paths and permissions, or try again."@),
        ),
        GitError::JsonError(f) => (
            None,
            "JSON error: "@ + f.message@,
            Some("Check your JSON syntax."@),
        ),
        GitError::GetTimezoneError(f) => (
            None,
            "Timezone error: "@ + f.message@,
            Some("Check your timezone string or system settings."@),
        ),
        GitError::SemaphoreError(f) => (None, "Semaphore Error: "@ + f.message@, None),
        GitError::Other(msg) => (None, msg@, None),
        GitError::MultipleErrors(errors) => {
            if errors@.len() == 0 {
                (None, "Multiple unknown errors occurred."@, None)
            } else {
                (None, "Multiple errors: "@ + multiple_lines(errors@, errors@.len() as int), None)
            }
        },
    }
}

/// The lines that report the first `n` of several errors, one `"\n\t- context: message\n"` each.
pub open spec fn multiple_lines(errors: Seq<(String, GitError)>, n: int) -> Seq<char>
    decreases errors, n,
{
    if n <= 0 || n > errors.len() {
        seq![]
    } else {
        multiple_lines(errors, n - 1) + "\n\t- "@ + errors[n - 1].0@ + ": "@ + user_report(
            errors[n - 1].1,
        ).1 + "\n"@
    }
}


/// The one-line description of an error, which is what the error's `Display` shows. Several
/// errors are listed as `context: description` pairs separated by `"; "`.
pub open spec fn describe(e: GitError) -> Seq<char>
    decreases e, 0int,
{
    match e {
        GitError::MultipleErrors(errors) => "Multiple errors: "@ + debug_list(errors@),
        GitError::GithubApiError(a) => "Github API error: "@ + a.display@,
        GitError::PRNotMergeable(n) => "PR #"@ + decimal(n as nat) + " not mergeable"@,
        GitError::NoUpstreamRepo(r) => "Upstream not found for "@ + r@,
        GitError::AWSError(m) => "AWS error: "@ + m@,
        GitError::DateParseError(f) => "Date parse error: "@ + f.message@,
        GitError::InvalidRepository(u) => "Invalid repository URL: "@ + u@,
        GitError::SyncFailure { ref_type, repository } => "Could not sync "@ + ref_type@ + " for "@
            + repository@,
        GitError::RegexError(f) => "Regex error: "@ + f.message@,
        GitError::NoReposConfigured => "No repos configured"@,
        GitError::NotAFork => "Repository is not a fork"@,
        GitError::MissingRepositoryName => "Missing repository name"@,
        GitError::NoSuchReference(r) => "No such reference: "@ + r@,
        GitError::NoSuchBranch(b) => "No such branch: "@ + b@,
        GitError::NoSuchTag(t) => "No such tag: "@ + t@,
        GitError::NoSuchPR { repository, head, base } => "No such pull request for "@
            + repository@ + " with head '"@ + head@ + "' and base '"@ + base@ + "'"@,
        GitError::TomlError(f) => "TOML parsing error: "@ + f.message@,
        GitError::FileDoesNotExist(f) => "File does not exist: "@ + f@,
        GitError::MissingToken => "Missing GitHub token. Please provide a token via --token, GITHUB_TOKEN environment variable, or in your config file."@,
        GitError::JoinError(f) => "Join error: "@ + f.message@,
        GitError::IoError(f) => "IO error: "@ + f.message@,
        GitError::JsonError(f) => "JSON error: "@ + f.message@,
        GitError::GetTimezoneError(f) => "Timezone error: "@ + f.message@,
        GitError::SemaphoreError(f) => "Failed to acquire semaphore: "@ + f.message@,
        GitError::GitPushError(r) => "Failed to push changes to "@ + r@,
        GitError::GitCloneError { repository, branch } => "Failed to clone "@ + repository@ + ":"@
            + branch@,
        GitError::GitFFMergeError { branch, repository } => "Could not fast forward merge branch "@
            + branch@ + " for repository "@ + repository@,
        GitError::FileUploadError(m) => "Failed to upload file: "@ + m@,
        GitError::NotADirectory(d) => "'"@ + d@ + "' is not a directory"@,
        GitError::NotGitMirror(d) => "'"@ + d@ + "' is not a git mirror"@,
        GitError::ExecutionError { command, status } => "Execution error while running "@
            + command@ + ": "@ + status@,
        GitError::EmptyFile(f) => "'"@ + f@ + "' is an empty file"@,
        GitError::FileExists(f) => "File "@ + f@ + " already exists"@,
        GitError::InvalidBigtopVersion(v) => "Invalid odp-bigtop version: "@ + v@,
        GitError::InvalidGroup(g) => "Invalid group '"@ + g@ + "'"@,
        GitError::EmptyGroup(g) => "Group '"@ + g@ + "' is empty"@,
        GitError::Other(m) => m@,
    }
}

/// What `str`'s `Debug` writes for `text`: the text in double quotes, with its escapes.
pub uninterp spec fn debug_quoted(text: Seq<char>) -> Seq<char>;

/// `<str as Debug>::fmt`: the text as `Debug` writes it.
#[verifier::external_body]
fn quote_debug(text: &str) -> (r: String)
    ensures
        r@ == debug_quoted(text@),
{
    format!("{:?}", text)
}

/// `Debug` of a tuple variant with one field written as `field`.
pub open spec fn tuple_debug(name: Seq<char>, field: Seq<char>) -> Seq<char> {
    name + "("@ + field + ")"@
}

/// `Debug` of a tuple variant with one string field.
pub open spec fn string_debug(name: Seq<char>, field: Seq<char>) -> Seq<char> {
    tuple_debug(name, debug_quoted(field))
}

/// `Debug` of a struct variant with two string fields.
pub open spec fn pair_debug(name: Seq<char>, f1: Seq<char>, v1: Seq<char>, f2: Seq<char>, v2: Seq<char>) -> Seq<char> {
    name + " { "@ + f1 + ": "@ + debug_quoted(v1) + ", "@ + f2 + ": "@ + debug_quoted(v2) + " }"@
}

/// What the derived `Debug` of an error writes: the variant's name, then its fields as their
/// own `Debug` writes them.
pub open spec fn debug_text(e: GitError) -> Seq<char>
    decreases e, 0int,
{
    match e {
        GitError::MultipleErrors(errors) => tuple_debug(
            "MultipleErrors"@,
            "["@ + debug_items(errors@, errors@.len() as int) + "]"@,
        ),
        GitError::GithubApiError(a) => tuple_debug("GithubApiError"@, a.debug@),
        GitError::PRNotMergeable(n) => tuple_debug("PRNotMergeable"@, decimal(n as nat)),
        GitError::NoUpstreamRepo(r) => string_debug("NoUpstreamRepo"@, r@),
        GitError::AWSError(m) => string_debug("AWSError"@, m@),
        GitError::DateParseError(f) => tuple_debug("DateParseError"@, f.debug@),
        GitError::InvalidRepository(u) => string_debug("InvalidRepository"@, u@),
        GitError::SyncFailure { ref_type, repository } => pair_debug(
            "SyncFailure"@,
            "ref_type"@,
            ref_type@,
            "repository"@,
            repository@,
        ),
        GitError::RegexError(f) => tuple_debug("RegexError"@, f.debug@),
        GitError::NoReposConfigured => "NoReposConfigured"@,
        GitError::NotAFork => "NotAFork"@,
        GitError::MissingRepositoryName => "MissingRepositoryName"@,
        GitError::NoSuchReference(r) => string_debug("NoSuchReference"@, r@),
        GitError::NoSuchBranch(b) => string_debug("NoSuchBranch"@, b@),
        GitError::NoSuchTag(t) => string_debug("NoSuchTag"@, t@),
        GitError::NoSuchPR { repository, head, base } => "NoSuchPR { repository: "@
            + debug_quoted(repository@) + ", head: "@ + debug_quoted(head@) + ", base: "@
            + debug_quoted(base@) + " }"@,
        GitError::TomlError(f) => tuple_debug("TomlError"@, f.debug@),
        GitError::FileDoesNotExist(f) => string_debug("FileDoesNotExist"@, f@),
        GitError::MissingToken => "MissingToken"@,
        GitError::JoinError(f) => tuple_debug("JoinError"@, f.debug@),
        GitError::IoError(f) => tuple_debug("IoError"@, f.debug@),
        GitError::JsonError(f) => tuple_debug("JsonError"@, f.debug@),
        GitError::GetTimezoneError(f) => tuple_debug("GetTimezoneError"@, f.debug@),
        GitError::SemaphoreError(f) => tuple_debug("SemaphoreError"@, f.debug@),
        GitError::GitPushError(r) => string_debug("GitPushError"@, r@),
        GitError::GitCloneError { repository, branch } => pair_debug(
            "GitCloneError"@,
            "repository"@,
            repository@,
            "branch"@,
            branch@,
        ),
        GitError::GitFFMergeError { branch, repository } => pair_debug(
            "GitFFMergeError"@,
            "branch"@,
            branch@,
            "repository"@,
            repository@,
        ),
        GitError::FileUploadError(m) => string_debug("FileUploadError"@, m@),
        GitError::NotADirectory(d) => string_debug("NotADirectory"@, d@),
        GitError::NotGitMirror(d) => string_debug("NotGitMirror"@, d@),
        GitError::ExecutionError { command, status } => pair_debug(
            "ExecutionError"@,
            "command"@,
            command@,
            "status"@,
            status@,
        ),
        GitError::EmptyFile(f) => string_debug("EmptyFile"@, f@),
        GitError::FileExists(f) => string_debug("FileExists"@, f@),
        GitError::InvalidBigtopVersion(v) => string_debug("InvalidBigtopVersion"@, v@),
        GitError::InvalidGroup(g) => string_debug("InvalidGroup"@, g@),
        GitError::EmptyGroup(g) => string_debug("EmptyGroup"@, g@),
        GitError::Other(m) => string_debug("Other"@, m@),
    }
}

/// The `Debug` of one `(context, error)` pair.
pub open spec fn entry_debug(context: Seq<char>, e_debug: Seq<char>) -> Seq<char> {
    "("@ + debug_quoted(context) + ", "@ + e_debug + ")"@
}

/// The `Debug` of the first `n` of several errors, without the brackets: their pairs separated
/// by `", "`.
pub open spec fn debug_items(errors: Seq<(String, GitError)>, n: int) -> Seq<char>
    decreases errors, n,
{
    if n <= 0 || n > errors.len() {
        seq![]
    } else if n == 1 {
        entry_debug(errors[0].0@, debug_text(errors[0].1))
    } else {
        debug_items(errors, n - 1) + ", "@ + entry_debug(errors[n - 1].0@, debug_text(errors[n - 1].1))
    }
}

/// The `Debug` of a list of errors, each with its context, as `Vec`'s `Debug` writes it.
pub open spec fn debug_list(errors: Seq<(String, GitError)>) -> Seq<char> {
    "["@ + debug_items(errors, errors.len() as int) + "]"@
}

/// A tuple variant's `Debug` with its one field written as `field`.
fn debug_tuple(name: &str, field: &str) -> (r: String)
    ensures
        r@ == tuple_debug(name@, field@),
{
    let mut m = cat3(name, "(", field);
    m.append(")");
    m
}

/// A tuple variant's `Debug` with its one string field.
fn debug_string_field(name: &str, field: &str) -> (r: String)
    ensures
        r@ == string_debug(name@, field@),
{
    let q = quote_debug(field);
    debug_tuple(name, q.as_str())
}

/// A struct variant's `Debug` with two string fields.
fn debug_pair(name: &str, f1: &str, v1: &str, f2: &str, v2: &str) -> (r: String)
    ensures
        r@ == pair_debug(name@, f1@, v1@, f2@, v2@),
{
    let q1 = quote_debug(v1);
    let q2 = quote_debug(v2);
    let mut m = cat3(name, " { ", f1);
    m.append(": ");
    m.append(q1.as_str());
    m.append(", ");
    m.append(f2);
    m.append(": ");
    m.append(q2.as_str());
    m.append(" }");
    m
}

/// The `Debug` of one `(context, error)` pair.
fn entry_debug_string(context: &str, e: &GitError) -> (r: String)
    ensures
        r@ == entry_debug(context@, debug_text(*e)),
{
    let q = quote_debug(context);
    let d = e.debug_string();
    let mut m = cat3("(", q.as_str(), ", ");
    m.append(d.as_str());
    m.append(")");
    m
}

/// Whether an I/O error of kind `BrokenPipe` lies on the error's chain of sources: only the
/// variants that wrap an outside error have a source.
pub open spec fn broken_pipe_of(e: GitError) -> bool {
    match e {
        GitError::GithubApiError(a) => a.broken_pipe,
        GitError::DateParseError(f) => f.broken_pipe,
        GitError::RegexError(f) => f.broken_pipe,
        GitError::TomlError(f) => f.broken_pipe,
        GitError::JoinError(f) => f.broken_pipe,
        GitError::IoError(f) => f.broken_pipe,
        GitError::JsonError(f) => f.broken_pipe,
        GitError::GetTimezoneError(f) => f.broken_pipe,
        GitError::SemaphoreError(f) => f.broken_pipe,
        _ => false,
    }
}

fn some_text(s: &str) -> (r: Option<String>)
    ensures
        opt_view(r) == Some(s@),
{
    Some(owned(s))
}

fn report(message: String, suggestion: Option<String>) -> (r: UserError)
    ensures
        r.code is None,
        r.message == message,
        r.suggestion == suggestion,
{
    UserError { code: None, message, suggestion }
}

/// The status and message that are reported for a GitHub API failure, with GitHub's detailed
/// error messages appended one per line.
pub fn octocrab_error_info(a: &ApiFailure) -> (r: (Option<u16>, String))
    ensures
        (r.0, r.1@) == api_info(*a),
{
    if a.kind == ApiErrorKind::GitHub {
        let mut message = owned(a.message.as_str());
        let mut i: usize = 0;
        while i < a.details.len()
            invariant
                i <= a.details@.len(),
                message@ == a.message@ + detail_lines(a.details@.subrange(0, i as int)),
            decreases a.details@.len() - i,
        {
            message.append("\n- ");
            message.append(a.details[i].as_str());
            assert(a.details@.subrange(0, i + 1).drop_last() =~= a.details@.subrange(0, i as int));
            i += 1;
        }
        assert(a.details@.subrange(0, a.details@.len() as int) =~= a.details@);
        (a.status, message)
    } else {
        (None, owned(a.message.as_str()))
    }
}

/// Check if a GitHub API failure is reasonably retryable. Most errors aren't, but server errors
/// and failures of the HTTP, connection or service layers can be tried again.
pub fn is_retryable(a: &ApiFailure) -> (r: bool)
    ensures
        r == retryable(*a),
{
    match a.kind {
        ApiErrorKind::GitHub => match a.status {
            Some(c) => 500 <= c && c <= 599,
            None => false,
        },
        ApiErrorKind::Http | ApiErrorKind::Hyper | ApiErrorKind::Service => true,
        ApiErrorKind::Other => false,
    }
}

/// The notice that is printed when GitHub reports rate limiting, either with a 429 or with a 403
/// whose message mentions a rate limit or abuse detection.
pub fn rate_limit_notice(a: &ApiFailure) -> (r: Option<String>)
    ensures
        r is Some <==> reports_rate_limit(*a),
        r matches Some(s) ==> s@ == "Rate limited by GitHub API: "@ + a.message@,
{
    if a.kind != ApiErrorKind::GitHub {
        return None;
    }
    let limited = match a.status {
        Some(c) => c == 429 || (c == 403 && (contains(a.message.as_str(), "rate limit")
            || contains(a.message.as_str(), "abuse detection"))),
        None => false,
    };
    if limited {
        Some(cat("Rate limited by GitHub API: ", a.message.as_str()))
    } else {
        None
    }
}

/// Sort a GitHub API failure into a category by the network flag and the HTTP status.
pub fn categorize(network: bool, code: Option<u16>) -> (r: ErrorCategory)
    ensures
        r == category_of(network, code),
{
    if network {
        ErrorCategory::Network
    } else {
        match code {
            Some(c) => if c == 401 || c == 403 {
                ErrorCategory::Auth
            } else if c == 404 {
                ErrorCategory::NotFound
            } else if c == 429 {
                ErrorCategory::RateLimit
            } else if 500 <= c && c <= 599 {
                ErrorCategory::Server
            } else if 400 <= c && c <= 499 {
                ErrorCategory::Input
            } else {
                ErrorCategory::Unknown
            },
            None => ErrorCategory::Unknown,
        }
    }
}

fn advice(c: ErrorCategory) -> (r: Option<String>)
    ensures
        opt_view(r) == category_advice(c),
{
    match c {
        ErrorCategory::Auth => some_text("Check your credentials and repository permissions."),
        ErrorCategory::RateLimit => some_text(
            "You are being rate-limited by GitHub. Wait and try again later.",
        ),
        ErrorCategory::Network => some_text("Check your Internet connection."),
        ErrorCategory::NotFound => some_text("Check the repository or resource name."),
        _ => None,
    }
}

impl GitError {
    /// Convert errors into a user-friendly format, with a suggestion on how to proceed where
    /// there is one.
    pub fn to_user_error(&self) -> (r: UserError)
        ensures
            user_view(r) == user_report(*self),
        decreases *self, 0int,
    {
        match self {
            GitError::GithubApiError(a) => {
                let (code, message) = octocrab_error_info(a);
                let suggestion = advice(categorize(a.network, code));
                UserError { code, message, suggestion }
            },
            GitError::SyncFailure { ref_type, repository } => {
                let mut m = cat("Could not sync ", ref_type.as_str());
                m.append(" for repository ");
                m.append(repository.as_str());
                report(m, some_text("Check that the your references exist in {repository}."))
            },
            GitError::PRNotMergeable(n) => {
                let num = decimal_string(*n);
                report(
                    cat3("PR #", num.as_str(), " cannot be merged automatically"),
                    some_text("Human intervention may be required."),
                )
            },
            GitError::NoSuchPR { repository, head, base } => {
                let mut m = cat("No such PR for ", repository.as_str());
                m.append(" with head '");
                m.append(head.as_str());
                m.append("' and base '");
                m.append(base.as_str());
                m.append("'");
                report(m, some_text("Check that the branch names are correct."))
            },
            GitError::NoUpstreamRepo(repo) => report(
                cat("Could not find an upstream repository for ", repo.as_str()),
                Some(
                    cat3(
                        "Try adding ",
                        repo.as_str(),
                        " to the fork_with_workaround group in your config file",
                    ),
                ),
            ),
            GitError::DateParseError(f) => report(
                cat("Invalid date: ", f.message.as_str()),
                some_text("Use a valid date format."),
            ),
            GitError::GitFFMergeError { branch, repository } => {
                let mut m = cat("Could not fast forward merge branch ", branch.as_str());
                m.append(" for repository ");
                m.append(repository.as_str());
                report(
                    m,
                    some_text("Check that the branch exists and that there are no merge conflicts."),
                )
            },
            GitError::InvalidRepository(url) => report(
                cat("Invalid repository URL: ", url.as_str()),
                some_text("Check the repository URL."),
            ),
            GitError::InvalidBigtopVersion(v) => report(
                cat("Invalid odp-bigtop version: ", v.as_str()),
                some_text(
                    "Try fixing your version string; if you do not want to modify the version of files and build numbers in odp-bigtop, add the --not-version flag",
                ),
            ),
            GitError::RegexError(f) => report(
                cat("Regex error: ", f.message.as_str()),
                some_text("Check your regular expression syntax."),
            ),
            GitError::NoReposConfigured => report(
                owned("No repositories are configured."),
                some_text("Add repositories to your configuration."),
            ),
            GitError::NotAFork => report(
                owned("Repository is not a fork."),
                some_text("Choose a repository that is a fork."),
            ),
            GitError::MissingRepositoryName => report(
                owned("Repository name is missing."),
                some_text("Specify the repository name."),
            ),
            GitError::InvalidGroup(g) => report(
                cat3("Invalid group '", g.as_str(), "'"),
                some_text("Check your config file for typos."),
            ),
            GitError::EmptyGroup(g) => report(
                cat3("Group '", g.as_str(), "' is empty"),
                some_text("Add repositories to '{group}' in your config file."),
            ),
            GitError::GitCloneError { repository, branch } => {
                let m = cat3("Failed to clone ", repository.as_str(), ":");
                let m = cat(m.as_str(), branch.as_str());
                let mut s = cat3("Check that the ", repository.as_str(), " and the branch '");
                s.append(branch.as_str());
                s.append("' exist and that you have access.");
                report(m, Some(s))
            },
            GitError::GitPushError(r) => report(
                cat("Failed to push changes to ", r.as_str()),
                Some(
                    cat3(
                        "Check that you have write access to '",
                        r.as_str(),
                        "' and that your local branch is up to date.",
                    ),
                ),
            ),
            GitError::NoSuchBranch(b) => report(
                cat("No such branch: ", b.as_str()),
                some_text("Check the branch name or create it first."),
            ),
            GitError::NoSuchTag(t) => report(
                cat("No such tag: ", t.as_str()),
                some_text("Check the tag name or create it first."),
            ),
            GitError::NoSuchReference(r) => report(
                cat("No such reference: ", r.as_str()),
                Some(cat3("Make sure your reference ", r.as_str(), " exists")),
            ),
            GitError::ExecutionError { command, status } => {
                let mut m = cat3("Execution error while running '", command.as_str(), "': '");
                m.append(status.as_str());
                m.append("'");
                report(
                    m,
                    Some(
                        cat3(
                            "Ensure that '",
                            command.as_str(),
                            "' is correct and that the base command is available in your PATH",
                        ),
                    ),
                )
            },
            GitError::FileDoesNotExist(f) => report(
                cat3("'", f.as_str(), "' does not exist"),
                some_text("Check that you passed the right path."),
            ),
            GitError::EmptyFile(f) => report(
                cat3("'", f.as_str(), "' is an empty file"),
                some_text("Try restarting the backup process."),
            ),
            GitError::NotADirectory(d) => report(
                cat3("'", d.as_str(), "' is not a directory"),
                some_text("Check that you passed the right path."),
            ),
            GitError::NotGitMirror(d) => report(
                cat3("'", d.as_str(), "' is not a git mirror"),
                some_text("Check that you passed the right path."),
            ),
            GitError::FileExists(f) => report(
                cat3("File '", f.as_str(), "' already exists"),
                some_text("Use --force to overwrite the existing file."),
            ),
            GitError::FileUploadError(m) => report(
                cat("Failed to upload file: ", m.as_str()),
                some_text("Check the file path and permissions."),
            ),
            GitError::TomlError(f) => report(
                cat("TOML parsing error: ", f.message.as_str()),
                some_text("Check your config file for syntax errors."),
            ),
            GitError::MissingToken => report(
                owned(
                    "Missing GitHub token. Please provide a token via --token, GITHUB_TOKEN environment variable, or in your config file.",
                ),
                some_text(
                    "Provide a GitHub token using --token, environment variable, or config file.",
                ),
            ),
            GitError::JoinError(f) => report(cat("Failed to join tasks: ", f.message.as_str()), None),
            GitError::AWSError(m) => report(cat("AWS Error: ", m.as_str()), None),
            GitError::IoError(f) => report(
                cat("IO error: ", f.message.as_str()),
                some_text("Check file paths and permissions, or try again."),
            ),
            GitError::JsonError(f) => report(
                cat("JSON error: ", f.message.as_str()),
                some_text("Check your JSON syntax."),
            ),
            GitError::GetTimezoneError(f) => report(
                cat("Timezone error: ", f.message.as_str()),
                some_text("Check your timezone string or system settings."),
            ),
            GitError::SemaphoreError(f) => report(cat("Semaphore Error: ", f.message.as_str()), None),
            GitError::Other(msg) => report(owned(msg.as_str()), None),
            GitError::MultipleErrors(errors) => {
                if errors.len() == 0 {
                    report(owned("Multiple unknown errors occurred."), None)
                } else {
                    let mut message = owned("Multiple errors: ");
                    let mut i: usize = 0;
                    while i < errors.len()
                        invariant
                            *self == GitError::MultipleErrors(*errors),
                            i <= errors@.len(),
                            message@ == "Multiple errors: "@ + multiple_lines(errors@, i as int),
                        decreases errors@.len() - i,
                    {
                        let (context, err) = &errors[i];
                        proof {
                            let ghost pair = errors@[i as int];
                            assert(decreases_to!(*self => (*self)->MultipleErrors_0));
                            assert(decreases_to!(*errors => errors@));
                            assert(decreases_to!(errors@ => pair));
                            assert(decreases_to!(pair => pair.1));
                            assert(decreases_to!(*self => errors@[i as int].1));
                        }
                        let child = err.to_user_error();
                        message.append("\n\t- ");
                        message.append(context.as_str());
                        message.append(": ");
                        message.append(child.message.as_str());
                        message.append("\n");
                        i += 1;
                    }
                    report(message, None)
                }
            },
        }
    }

    /// The one-line description of the error, which is what its `Display` shows.
    pub fn message(&self) -> (r: String)
        ensures
            r@ == describe(*self),
    {
        match self {
            GitError::MultipleErrors(errors) => {
                let mut m = owned("Multiple errors: [");
                let mut i: usize = 0;
                while i < errors.len()
                    invariant
                        *self == GitError::MultipleErrors(*errors),
                        i <= errors@.len(),
                        m@ == "Multiple errors: ["@ + debug_items(errors@, i as int),
                    decreases errors@.len() - i,
                {
                    let (context, err) = &errors[i];
                    let entry = entry_debug_string(context.as_str(), err);
                    if i > 0 {
                        m.append(", ");
                    }
                    m.append(entry.as_str());
                    i += 1;
                }
                m.append("]");
                proof {
                    reveal_strlit("Multiple errors: [");
                    reveal_strlit("Multiple errors: ");
                    reveal_strlit("[");
                    reveal_strlit("]");
                    assert(m@ =~= "Multiple errors: "@ + debug_list(errors@));
                }
                m
            },
            GitError::GithubApiError(a) => cat("Github API error: ", a.display.as_str()),
            GitError::PRNotMergeable(n) => {
                let num = decimal_string(*n);
                cat3("PR #", num.as_str(), " not mergeable")
            },
            GitError::NoUpstreamRepo(r) => cat("Upstream not found for ", r.as_str()),
            GitError::AWSError(m) => cat("AWS error: ", m.as_str()),
            GitError::DateParseError(f) => cat("Date parse error: ", f.message.as_str()),
            GitError::InvalidRepository(u) => cat("Invalid repository URL: ", u.as_str()),
            GitError::SyncFailure { ref_type, repository } => {
                let m = cat3("Could not sync ", ref_type.as_str(), " for ");
                cat(m.as_str(), repository.as_str())
            },
            GitError::RegexError(f) => cat("Regex error: ", f.message.as_str()),
            GitError::NoReposConfigured => owned("No repos configured"),
            GitError::NotAFork => owned("Repository is not a fork"),
            GitError::MissingRepositoryName => owned("Missing repository name"),
            GitError::NoSuchReference(r) => cat("No such reference: ", r.as_str()),
            GitError::NoSuchBranch(b) => cat("No such branch: ", b.as_str()),
            GitError::NoSuchTag(t) => cat("No such tag: ", t.as_str()),
            GitError::NoSuchPR { repository, head, base } => {
                let mut m = cat3("No such pull request for ", repository.as_str(), " with head '");
                m.append(head.as_str());
                m.append("' and base '");
                m.append(base.as_str());
                m.append("'");
                m
            },
            GitError::TomlError(f) => cat("TOML parsing error: ", f.message.as_str()),
            GitError::FileDoesNotExist(f) => cat("File does not exist: ", f.as_str()),
            GitError::MissingToken => owned(
                "Missing GitHub token. Please provide a token via --token, GITHUB_TOKEN environment variable, or in your config file.",
            ),
            GitError::JoinError(f) => cat("Join error: ", f.message.as_str()),
            GitError::IoError(f) => cat("IO error: ", f.message.as_str()),
            GitError::JsonError(f) => cat("JSON error: ", f.message.as_str()),
            GitError::GetTimezoneError(f) => cat("Timezone error: ", f.message.as_str()),
            GitError::SemaphoreError(f) => cat("Failed to acquire semaphore: ", f.message.as_str()),
            GitError::GitPushError(r) => cat("Failed to push changes to ", r.as_str()),
            GitError::GitCloneError { repository, branch } => {
                let m = cat3("Failed to clone ", repository.as_str(), ":");
                cat(m.as_str(), branch.as_str())
            },
            GitError::GitFFMergeError { branch, repository } => {
                let m = cat3("Could not fast forward merge branch ", branch.as_str(), " for repository ");
                cat(m.as_str(), repository.as_str())
            },
            GitError::FileUploadError(m) => cat("Failed to upload file: ", m.as_str()),
            GitError::NotADirectory(d) => cat3("'", d.as_str(), "' is not a directory"),
            GitError::NotGitMirror(d) => cat3("'", d.as_str(), "' is not a git mirror"),
            GitError::ExecutionError { command, status } => {
                let m = cat3("Execution error while running ", command.as_str(), ": ");
                cat(m.as_str(), status.as_str())
            },
            GitError::EmptyFile(f) => cat3("'", f.as_str(), "' is an empty file"),
            GitError::FileExists(f) => cat3("File ", f.as_str(), " already exists"),
            GitError::InvalidBigtopVersion(v) => cat("Invalid odp-bigtop version: ", v.as_str()),
            GitError::InvalidGroup(g) => cat3("Invalid group '", g.as_str(), "'"),
            GitError::EmptyGroup(g) => cat3("Group '", g.as_str(), "' is empty"),
            GitError::Other(m) => owned(m.as_str()),
        }
    }

    /// The error as its derived `Debug` writes it: the variant's name, then its fields.
    pub fn debug_string(&self) -> (r: String)
        ensures
            r@ == debug_text(*self),
        decreases *self, 0int,
    {
        match self {
            GitError::MultipleErrors(errors) => {
                let mut m = owned("MultipleErrors([");
                let mut i: usize = 0;
                while i < errors.len()
                    invariant
                        *self == GitError::MultipleErrors(*errors),
                        i <= errors@.len(),
                        m@ == "MultipleErrors(["@ + debug_items(errors@, i as int),
                    decreases errors@.len() - i,
                {
                    let (context, err) = &errors[i];
                    proof {
                        let ghost pair = errors@[i as int];
                        assert(decreases_to!(*self => (*self)->MultipleErrors_0));
                        assert(decreases_to!(*errors => errors@));
                        assert(decreases_to!(errors@ => pair));
                        assert(decreases_to!(pair => pair.1));
                    }
                    let child = err.debug_string();
                    let quoted = quote_debug(context.as_str());
                    if i > 0 {
                        m.append(", ");
                    }
                    m.append("(");
                    m.append(quoted.as_str());
                    m.append(", ");
                    m.append(child.as_str());
                    m.append(")");
                    i += 1;
                }
                m.append("])");
                proof {
                    reveal_strlit("MultipleErrors([");
                    reveal_strlit("MultipleErrors");
                    reveal_strlit("(");
                    reveal_strlit("[");
                    reveal_strlit("]");
                    reveal_strlit(")");
                    reveal_strlit("])");
                    assert(m@ =~= tuple_debug(
                        "MultipleErrors"@,
                        "["@ + debug_items(errors@, errors@.len() as int) + "]"@,
                    ));
                }
                m
            },
            GitError::GithubApiError(a) => debug_tuple("GithubApiError", a.debug.as_str()),
            GitError::PRNotMergeable(n) => {
                let num = decimal_string(*n);
                debug_tuple("PRNotMergeable", num.as_str())
            },
            GitError::NoUpstreamRepo(r) => debug_string_field("NoUpstreamRepo", r.as_str()),
            GitError::AWSError(m) => debug_string_field("AWSError", m.as_str()),
            GitError::DateParseError(f) => debug_tuple("DateParseError", f.debug.as_str()),
            GitError::InvalidRepository(u) => debug_string_field("InvalidRepository", u.as_str()),
            GitError::SyncFailure { ref_type, repository } => debug_pair(
                "SyncFailure",
                "ref_type",
                ref_type.as_str(),
                "repository",
                repository.as_str(),
            ),
            GitError::RegexError(f) => debug_tuple("RegexError", f.debug.as_str()),
            GitError::NoReposConfigured => owned("NoReposConfigured"),
            GitError::NotAFork => owned("NotAFork"),
            GitError::MissingRepositoryName => owned("MissingRepositoryName"),
            GitError::NoSuchReference(r) => debug_string_field("NoSuchReference", r.as_str()),
            GitError::NoSuchBranch(b) => debug_string_field("NoSuchBranch", b.as_str()),
            GitError::NoSuchTag(t) => debug_string_field("NoSuchTag", t.as_str()),
            GitError::NoSuchPR { repository, head, base } => {
                let r = quote_debug(repository.as_str());
                let h = quote_debug(head.as_str());
                let b = quote_debug(base.as_str());
                let mut m = cat("NoSuchPR { repository: ", r.as_str());
                m.append(", head: ");
                m.append(h.as_str());
                m.append(", base: ");
                m.append(b.as_str());
                m.append(" }");
                m
            },
            GitError::TomlError(f) => debug_tuple("TomlError", f.debug.as_str()),
            GitError::FileDoesNotExist(f) => debug_string_field("FileDoesNotExist", f.as_str()),
            GitError::MissingToken => owned("MissingToken"),
            GitError::JoinError(f) => debug_tuple("JoinError", f.debug.as_str()),
            GitError::IoError(f) => debug_tuple("IoError", f.debug.as_str()),
            GitError::JsonError(f) => debug_tuple("JsonError", f.debug.as_str()),
            GitError::GetTimezoneError(f) => debug_tuple("GetTimezoneError", f.debug.as_str()),
            GitError::SemaphoreError(f) => debug_tuple("SemaphoreError", f.debug.as_str()),
            GitError::GitPushError(r) => debug_string_field("GitPushError", r.as_str()),
            GitError::GitCloneError { repository, branch } => debug_pair(
                "GitCloneError",
                "repository",
                repository.as_str(),
                "branch",
                branch.as_str(),
            ),
            GitError::GitFFMergeError { branch, repository } => debug_pair(
                "GitFFMergeError",
                "branch",
                branch.as_str(),
                "repository",
                repository.as_str(),
            ),
            GitError::FileUploadError(m) => debug_string_field("FileUploadError", m.as_str()),
            GitError::NotADirectory(d) => debug_string_field("NotADirectory", d.as_str()),
            GitError::NotGitMirror(d) => debug_string_field("NotGitMirror", d.as_str()),
            GitError::ExecutionError { command, status } => debug_pair(
                "ExecutionError",
                "command",
                command.as_str(),
                "status",
                status.as_str(),
            ),
            GitError::EmptyFile(f) => debug_string_field("EmptyFile", f.as_str()),
            GitError::FileExists(f) => debug_string_field("FileExists", f.as_str()),
            GitError::InvalidBigtopVersion(v) => debug_string_field("InvalidBigtopVersion", v.as_str()),
            GitError::InvalidGroup(g) => debug_string_field("InvalidGroup", g.as_str()),
            GitError::EmptyGroup(g) => debug_string_field("EmptyGroup", g.as_str()),
            GitError::Other(m) => debug_string_field("Other", m.as_str()),
        }
    }

    /// Walk through the error's chain of sources to find out if it holds a broken pipe.
    pub fn is_broken_pipe(&self) -> (r: bool)
        ensures
            r == broken_pipe_of(*self),
    {
        match self {
            GitError::GithubApiError(a) => a.broken_pipe,
            GitError::DateParseError(f) => f.broken_pipe,
            GitError::RegexError(f) => f.broken_pipe,
            GitError::TomlError(f) => f.broken_pipe,
            GitError::JoinError(f) => f.broken_pipe,
            GitError::IoError(f) => f.broken_pipe,
            GitError::JsonError(f) => f.broken_pipe,
            GitError::GetTimezoneError(f) => f.broken_pipe,
            GitError::SemaphoreError(f) => f.broken_pipe,
            _ => false,
        }
    }
}

} // verus!
