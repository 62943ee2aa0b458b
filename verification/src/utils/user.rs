//! The identity of the git user.
use vstd::prelude::*;
use crate::text::{owned, trim, trim_ws};

verus! {

/// Hold information about the git user
#[derive(Debug)]
pub struct UserDetails {
    /// Name of the user
    pub name: String,
    /// Email of the user
    pub email: String,
}

/// What one `git config get` command reported: whether it succeeded, and what it printed.
pub struct GitConfigOutput {
    pub success: bool,
    pub stdout: String,
}

impl UserDetails {
    /// Create a new UserDetails instance
    pub fn new(name: String, email: String) -> (r: Self)
        ensures
            r.name == name,
            r.email == email,
    {
        UserDetails { name, email }
    }

    /// The user that git reports, from the outputs of `git config get user.name` and
    /// `git config get user.email`: both must have succeeded, and their output is trimmed. A
    /// failed name lookup is reported first.
    pub fn from_git_outputs(name: &GitConfigOutput, email: &GitConfigOutput) -> (r: Result<Self, String>)
        ensures
            name.success && email.success ==> (r matches Ok(u) && u.name@ == trim_ws(name.stdout@)
                && u.email@ == trim_ws(email.stdout@)),
            !name.success ==> (r matches Err(m) && m@ == "Failed to get git user name"@),
            name.success && !email.success ==> (r matches Err(m) && m@
                == "Failed to get git email address"@),
    {
        if !name.success {
            return Err(owned("Failed to get git user name"));
        }
        if !email.success {
            return Err(owned("Failed to get git email address"));
        }
        Ok(
            UserDetails {
                name: owned(trim(name.stdout.as_str())),
                email: owned(trim(email.stdout.as_str())),
            },
        )
    }
}

} // verus!
