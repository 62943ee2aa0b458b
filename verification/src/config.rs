//! The settings read from `git-manage.toml`, and the rules that combine them with the
//! environment.
use vstd::prelude::*;
use crate::error::GitError;
use crate::text::{cat3, owned};
use crate::utils::user::UserDetails;

verus! {

/// The currently defined name of the config file.
/// This may change in the future.
pub const CONFIG_NAME: &'static str = "git-manage.toml";

/// This is the root level of the configuration file
#[derive(Debug)]
pub struct Config {
    pub github: GithubConfig,
    pub slack: SlackConfig,
    pub git: GitConfig,
    pub repos: RepoConfig,
    pub info: InfoConfig,
    pub misc: MiscSettings,
}

/// Settings that fit nowhere else.
#[derive(Debug)]
pub struct MiscSettings {
    /// Branch names that are never reported as stale, each once.
    pub branch_blacklist: Option<Vec<String>>,
    /// SPDX identifiers of licenses that are reported when a repository uses them, each once.
    pub license_blacklist: Option<Vec<String>>,
}

/// Where Slack notifications go.
#[derive(Debug)]
pub struct SlackConfig {
    pub webhook_url: Option<String>,
}

/// Github configuration struct
#[derive(Debug)]
pub struct GithubConfig {
    pub token: Option<String>,
}

/// Options for git.
#[derive(Debug)]
pub struct GitConfig {
    pub default_directory: Option<String>,
    pub shallow_by_default: Option<bool>,
    pub owner: Option<String>,
}

/// Who the git user is.
#[derive(Debug)]
pub struct InfoConfig {
    pub name: Option<String>,
    pub email: Option<String>,
}

/// The configuration for the different types of repositories
#[derive(Debug)]
pub struct RepoConfig {
    pub fork: Option<Vec<String>>,
    pub private: Option<Vec<String>>,
    pub public: Option<Vec<String>>,
    /// Named groups of repositories, each name once.
    pub custom: Option<Vec<(String, Vec<String>)>>,
    /// Forks whose parent GitHub does not know, with the repository to sync them from; each
    /// fork once.
    pub fork_workaround: Option<Vec<(String, String)>>,
}

impl Default for Config {
    /// Every setting absent.
    fn default() -> (r: Self)
        ensures
            r.github.token is None,
            r.slack.webhook_url is None,
            r.repos.custom is None,
            r.repos.fork_workaround is None,
            r.misc.license_blacklist is None,
            r.git.default_directory is None,
            r.git.shallow_by_default is None,
            r.git.owner is None,
            r.repos.fork is None,
            r.repos.private is None,
            r.repos.public is None,
            r.info.name is None,
            r.info.email is None,
            r.misc.branch_blacklist is None,
    {
        Config {
            github: GithubConfig { token: None },
            slack: SlackConfig { webhook_url: None },
            git: GitConfig { default_directory: None, shallow_by_default: None, owner: None },
            repos: RepoConfig {
                fork: None,
                private: None,
                public: None,
                custom: None,
                fork_workaround: None,
            },
            info: InfoConfig { name: None, email: None },
            misc: MiscSettings { branch_blacklist: None, license_blacklist: None },
        }
    }
}

/// The views of a list of strings.
pub open spec fn string_views(v: Seq<String>) -> Seq<Seq<char>> {
    v.map_values(|s: String| s@)
}

/// The repositories of one category: none when the category is absent.
pub open spec fn category(v: Option<Vec<String>>) -> Seq<Seq<char>> {
    match v {
        Some(v) => string_views(v@),
        None => seq![],
    }
}

/// The view of an optional string.
pub open spec fn opt_view(o: Option<String>) -> Option<Seq<char>> {
    match o {
        Some(s) => Some(s@),
        None => None,
    }
}

/// A copy of a list of strings.
fn copy_strings(v: &Vec<String>) -> (r: Vec<String>)
    ensures
        string_views(r@) == string_views(v@),
{
    let mut out: Vec<String> = Vec::new();
    let mut i: usize = 0;
    while i < v.len()
        invariant
            i <= v@.len(),
            string_views(out@) == string_views(v@.subrange(0, i as int)),
        decreases v@.len() - i,
    {
        out.push(owned(v[i].as_str()));
        assert(string_views(v@.subrange(0, i + 1)) =~= string_views(v@.subrange(0, i as int)).push(
            v@[i as int]@,
        ));
        assert(string_views(out@) =~= string_views(v@.subrange(0, i as int)).push(v@[i as int]@));
        i += 1;
    }
    assert(v@.subrange(0, v@.len() as int) =~= v@);
    out
}

fn copy_category(v: &Option<Vec<String>>) -> (r: Vec<String>)
    ensures
        string_views(r@) == category(*v),
{
    match v {
        Some(v) => copy_strings(v),
        None => {
            let out: Vec<String> = Vec::new();
            assert(string_views(out@) =~= Seq::<Seq<char>>::empty());
            out
        },
    }
}

fn copy_opt(o: &Option<String>) -> (r: Option<String>)
    ensures
        opt_view(r) == opt_view(*o),
{
    match o {
        Some(s) => Some(owned(s.as_str())),
        None => None,
    }
}

/// Where to look for the configuration when no file is given: `git-manage.toml` in the
/// current directory, then in `.config` under the home directory, if there is one.
pub fn config_search_paths(home_dir: Option<&str>) -> (r: Vec<String>)
    ensures
        home_dir is None ==> string_views(r@) == seq![CONFIG_NAME@],
        home_dir matches Some(h) ==> string_views(r@) == seq![
            CONFIG_NAME@,
            h@ + "/.config/"@ + CONFIG_NAME@,
        ],
{
    let mut paths: Vec<String> = Vec::new();
    paths.push(owned(CONFIG_NAME));
    if let Some(h) = home_dir {
        paths.push(cat3(h, "/.config/", CONFIG_NAME));
    }
    assert(string_views(paths@) =~= match home_dir {
        Some(h) => seq![CONFIG_NAME@, h@ + "/.config/"@ + CONFIG_NAME@],
        None => seq![CONFIG_NAME@],
    });
    paths
}

impl Config {
    /// Get a github api token: the `GITHUB_TOKEN` environment variable (`env_token`) first,
    /// then the config file's value.
    pub fn get_github_token(&self, env_token: Option<String>) -> (r: Option<String>)
        ensures
            env_token is Some ==> r == env_token,
            env_token is None ==> opt_view(r) == opt_view(self.github.token),
    {
        match env_token {
            Some(t) => Some(t),
            None => copy_opt(&self.github.token),
        }
    }

    /// Get git information about the current user: each of the name and email from the
    /// environment (`GIT_USER`, `GIT_EMAIL`) first, then from the configuration. `None` when
    /// either is still missing, in which case git itself is to be asked.
    pub fn get_user_info(&self, env_name: Option<String>, env_email: Option<String>) -> (r: Option<UserDetails>)
        ensures
            ({
                let name = if env_name is Some { opt_view(env_name) } else { opt_view(self.info.name) };
                let email = if env_email is Some { opt_view(env_email) } else { opt_view(self.info.email) };
                &&& (name is Some && email is Some) <==> r is Some
                &&& r matches Some(u) ==> Some(u.name@) == name && Some(u.email@) == email
            }),
    {
        let name = match env_name {
            Some(n) => Some(n),
            None => copy_opt(&self.info.name),
        };
        let email = match env_email {
            Some(e) => Some(e),
            None => copy_opt(&self.info.email),
        };
        match (name, email) {
            (Some(name), Some(email)) => Some(UserDetails::new(name, email)),
            _ => None,
        }
    }

    /// Get the repo owner: the `GIT_OWNER` environment variable first, then the configuration.
    pub fn get_owner(&self, env_owner: Option<String>) -> (r: Option<String>)
        ensures
            env_owner is Some ==> r == env_owner,
            env_owner is None ==> opt_view(r) == opt_view(self.git.owner),
    {
        match env_owner {
            Some(o) => Some(o),
            None => copy_opt(&self.git.owner),
        }
    }

    /// Get a vector of repositories defined in the config file that are forks
    pub fn get_fork_repositories(&self) -> (r: Vec<String>)
        ensures
            string_views(r@) == category(self.repos.fork),
    {
        copy_category(&self.repos.fork)
    }

    /// Get a vector of private repositories defined in the config file
    pub fn get_private_repositories(&self) -> (r: Vec<String>)
        ensures
            string_views(r@) == category(self.repos.private),
    {
        copy_category(&self.repos.private)
    }

    /// Get a vector of public repositories defined in the config file
    pub fn get_public_repositories(&self) -> (r: Vec<String>)
        ensures
            string_views(r@) == category(self.repos.public),
    {
        copy_category(&self.repos.public)
    }

    /// Every configured repository: the public ones, then the forks, then the private ones.
    pub fn get_all_repositories(&self) -> (r: Vec<String>)
        ensures
            string_views(r@) == category(self.repos.public) + category(self.repos.fork)
                + category(self.repos.private),
    {
        let mut all = self.get_public_repositories();
        let mut forks = self.get_fork_repositories();
        let mut private = self.get_private_repositories();
        let ghost a = string_views(all@);
        let ghost b = string_views(forks@);
        let ghost c = string_views(private@);
        all.append(&mut forks);
        assert(string_views(all@) =~= a + b);
        all.append(&mut private);
        assert(string_views(all@) =~= a + b + c);
        all
    }
}

impl Config {
    /// The forks to sync from a repository that GitHub does not know as their parent, with that
    /// repository; none when none are configured.
    pub fn get_fork_workaround_repositories(&self) -> (r: Vec<(String, String)>)
        ensures
            pair_views(r@) == match self.repos.fork_workaround {
                Some(v) => pair_views(v@),
                None => seq![],
            },
    {
        let mut out: Vec<(String, String)> = Vec::new();
        if let Some(v) = &self.repos.fork_workaround {
            let mut i: usize = 0;
            while i < v.len()
                invariant
                    i <= v@.len(),
                    pair_views(out@) == pair_views(v@.subrange(0, i as int)),
                decreases v@.len() - i,
            {
                out.push((owned(v[i].0.as_str()), owned(v[i].1.as_str())));
                assert(pair_views(v@.subrange(0, i + 1)) =~= pair_views(v@.subrange(0, i as int)).push((v@[i as int].0@, v@[i as int].1@)));
                assert(pair_views(out@) =~= pair_views(v@.subrange(0, i as int)).push((v@[i as int].0@, v@[i as int].1@)));
                i += 1;
            }
            assert(v@.subrange(0, v@.len() as int) =~= v@);
        } else {
            assert(pair_views(out@) =~= Seq::<(Seq<char>, Seq<char>)>::empty());
        }
        out
    }
}

/// The text of a list of string pairs.
pub open spec fn pair_views(v: Seq<(String, String)>) -> Seq<(Seq<char>, Seq<char>)> {
    v.map_values(|p: (String, String)| (p.0@, p.1@))
}

// ---------------------------------------------------------------------------------------------
// Writing a sample configuration
// ---------------------------------------------------------------------------------------------

/// A basic sample configuration, written by the `config` command.
pub const SAMPLE_CONFIG: &'static str = r#"#Git repo syncing configuration
[github]
#token = "Add your github api token here"

# Needed if you want slack integration
# webhook_url should be an https address
[slack]
# Eventually, the enabled option will be added to always enable slack for each run
#enable=true
webhook_url = ""

# This can be used to change who is commiting changes and creating
# releases, instead of using the user who is already set up for git
# in the environment.
[info]
#name = "set the name of who is commiting changes"
#email = "set the email of who is commiting changes"

# All repositories should be an https url to the repository
# Any operation that needs an ssh url will be automatically
# converted.
[repos]
#fork = ["repo1", "repo2"]
# This is for forked repositories that do not have a configured parent repository.
# This is a map of {"forked_url": "real_upstream_url"}
#fork_with_workaround = {}
#private = ["repo1", "repo2"]
#public = []

[misc]
# A list of branches that should be ignored when performing
# a search of stale branches, AKA branches that should never be
# reported as being old, no matter when they were last updated.
branch_blacklist = ["main", "master"]
# A list of licenses that you will be warned about. 
# You must use their spdx id
# A list of many of these can be found at https://spdx.org/licenses/
license_blacklist = [
    "CC-BY-NC-4.0", 
    "GPL-3.0-or-later", 
    "GPL-3.0-only", 
    "GPL-2.0-or-later"
    "GPL-2.0-only",
]
"#;

/// Where the sample configuration is written: the path given, else the configuration file of
/// the user's XDG configuration directory; with neither there is nowhere to write it.
pub fn config_target(path: Option<String>, xdg_path: Option<String>) -> (r: Result<String, GitError>)
    ensures
        path is Some ==> r == Ok::<String, GitError>(path->0),
        path is None && xdg_path is Some ==> r == Ok::<String, GitError>(xdg_path->0),
        path is None && xdg_path is None ==> (r matches Err(GitError::Other(m)) && m@
            == "No config file specified and $XDG_CONFIG_HOME or $HOME/.config could not be determined. Cannot continue"@),
{
    match path {
        Some(p) => Ok(p),
        None => match xdg_path {
            Some(x) => Ok(x),
            None => Err(GitError::Other(owned(
                "No config file specified and $XDG_CONFIG_HOME or $HOME/.config could not be determined. Cannot continue",
            ))),
        },
    }
}

/// How the sample configuration is written to its target.
#[derive(Debug)]
pub enum ConfigWrite {
    /// Nothing is there yet: write the file.
    Write,
    /// A file is there and may be replaced: copy it to this path first, then write.
    BackUpThenWrite(String),
}

/// How to write the sample configuration to `target`: an existing file is only replaced with
/// `force`, after it is copied to the same path with `.bak` added.
pub fn config_write(target: &str, exists: bool, force: bool) -> (r: Result<ConfigWrite, GitError>)
    ensures
        !exists ==> r matches Ok(ConfigWrite::Write),
        exists && force ==> (r matches Ok(ConfigWrite::BackUpThenWrite(b)) && b@ == target@ + ".bak"@),
        exists && !force ==> (r matches Err(GitError::Other(m)) && m@ == "Config file already exists at "@
            + target@ + ". Use --force to overwrite"@),
{
    if !exists {
        Ok(ConfigWrite::Write)
    } else if force {
        let mut b = owned(target);
        b.append(".bak");
        Ok(ConfigWrite::BackUpThenWrite(b))
    } else {
        Err(GitError::Other(cat3("Config file already exists at ", target, ". Use --force to overwrite")))
    }
}

} // verus!
