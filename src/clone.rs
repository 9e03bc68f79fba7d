//! Planning a clone: from an identifier, a template and transport choices to
//! the address to clone from and the directory to clone into.

use vstd::prelude::*;
use crate::address::{
    address_of, build_repo_path, get_repo_meta, get_repo_type, kind_of, meta_of, RepoError,
    RepoType,
};
use crate::config::AppConfig;
use crate::template::{build_target_path, home_view, resolved};
use crate::text::{chars_of, occurs_in, occurs_in_exec, remove_all, remove_all_exec, string_of};

verus! {

/// The key used when none is named: the `.ssh` directory under `home`.
pub open spec fn default_key_path(home: Seq<char>) -> Seq<char> {
    home + "/.ssh/"@
}

/// Index of the first path that names a public key (holds `.pub`).
pub open spec fn first_public_key(paths: Seq<String>, from: int) -> Option<int>
    decreases paths.len() - from,
{
    if from < 0 || from >= paths.len() {
        None
    } else if occurs_in(paths[from]@, ".pub"@) {
        Some(from)
    } else {
        first_public_key(paths, from + 1)
    }
}

/// Whether some file of the ssh directory names a public key.
pub fn has_public_key(paths: &Vec<String>) -> (r: bool)
    ensures
        r == first_public_key(paths@, 0) is Some,
{
    let suffix = chars_of(".pub");
    let mut i: usize = 0;
    while i < paths.len()
        invariant
            i <= paths.len(),
            suffix@ == ".pub"@,
            first_public_key(paths@, 0) == first_public_key(paths@, i as int),
        decreases paths.len() - i,
    {
        if occurs_in_exec(&chars_of(paths[i].as_str()), &suffix) {
            return true;
        }
        i = i + 1;
    }
    false
}

/// The key to use among the files of the ssh directory, which must name a
/// public key: the first file that does, with `.pub` taken out.
pub fn pick_ssh_key(paths: &Vec<String>) -> (r: String)
    requires
        first_public_key(paths@, 0) is Some,
    ensures
        r@ == remove_all(paths@[first_public_key(paths@, 0)->0]@, ".pub"@),
{
    let suffix = chars_of(".pub");
    let mut i: usize = 0;
    while i < paths.len()
        invariant
            i <= paths.len(),
            suffix@ == ".pub"@,
            first_public_key(paths@, 0) == first_public_key(paths@, i as int),
        decreases paths.len() - i,
    {
        let path = chars_of(paths[i].as_str());
        if occurs_in_exec(&path, &suffix) {
            return string_of(&remove_all_exec(&path, &suffix));
        }
        i = i + 1;
    }
    String::new()
}

/// The ssh key path used when none is named: the `.ssh` directory under
/// `home`.
pub fn default_ssh_key_path(home: &str) -> (r: String)
    ensures
        r@ == default_key_path(home@),
{
    let mut k = home.to_owned();
    k.append("/.ssh/");
    k
}

/// How the credentials for a clone are obtained.
#[derive(Debug, Clone, Copy, PartialEq, Eq, Structural)]
pub enum CredentialMethod {
    /// from the named ssh key file
    KeyFile,
    /// from the running ssh agent
    Agent,
    /// from the credential helper of the local git configuration
    Helper,
}

/// The credential method for a clone: an ssh identifier uses the key file
/// when ssh was asked for and the agent otherwise; any other identifier uses
/// the credential helper.
pub fn credential_method(repo_type: &RepoType, ssh: bool) -> (r: CredentialMethod)
    ensures
        r == match *repo_type {
            RepoType::Ssh => if ssh {
                CredentialMethod::KeyFile
            } else {
                CredentialMethod::Agent
            },
            _ => CredentialMethod::Helper,
        },
{
    match (repo_type, ssh) {
        (RepoType::Ssh, true) => CredentialMethod::KeyFile,
        (RepoType::Ssh, false) => CredentialMethod::Agent,
        _ => CredentialMethod::Helper,
    }
}

/// What the user asked to clone, and how.
pub struct CloneCommand {
    /// the repository identifier, in any of the three schemes
    pub repo: String,
    /// clone over ssh
    pub ssh: bool,
    /// path of the ssh key
    pub ssh_key: String,
    pub ssh_username: Option<String>,
    pub ssh_password: Option<String>,
    /// branch to check out after the clone
    pub branch: Option<String>,
    /// name of a stored template, or a template written out
    pub template: String,
}

/// Everything a clone needs: where from, where to, and the credentials.
pub struct CloneOptions {
    /// the address to clone from
    pub repo_path: String,
    pub repo_type: RepoType,
    /// the directory to clone into
    pub target_path: String,
    pub branch: Option<String>,
    pub ssh: bool,
    pub ssh_key: String,
    pub ssh_username: Option<String>,
    pub ssh_password: Option<String>,
}

impl CloneOptions {
    /// Plans the clone of `repo_path`: classifies and reads the identifier,
    /// builds the address for the chosen transport and resolves the template
    /// that `template` selects in `config`. Fails exactly when the identifier
    /// cannot be read.
    pub fn new(
        repo_path: String,
        template: &str,
        branch: Option<String>,
        ssh: bool,
        ssh_key: Option<String>,
        ssh_username: Option<String>,
        ssh_password: Option<String>,
        config: &AppConfig,
        home: Option<&str>,
    ) -> (r: Result<Self, RepoError>)
        requires
            config.wf(),
            config.can_answer(template@),
            ssh_key is Some || home is Some,
        ensures
            match r {
                Ok(o) => {
                    let kind = kind_of(repo_path@);
                    &&& meta_of(repo_path@, kind) is Some
                    &&& o.repo_type == kind
                    &&& o.repo_path@ == address_of(
                        repo_path@,
                        kind,
                        ssh,
                        meta_of(repo_path@, kind)->0,
                        ssh_username.deep_view(),
                    )
                    &&& o.target_path@ == resolved(
                        config.template_for(template@),
                        meta_of(repo_path@, kind)->0,
                        home_view(home),
                    )
                    &&& o.ssh_key@ == match ssh_key {
                        Some(k) => k@,
                        None => default_key_path(home->0@),
                    }
                    &&& o.branch == branch
                    &&& o.ssh == ssh
                    &&& o.ssh_username == ssh_username
                    &&& o.ssh_password == ssh_password
                },
                Err(RepoError::MalformedIdentifier(s)) => {
                    &&& meta_of(repo_path@, kind_of(repo_path@)) is None
                    &&& s@ == repo_path@
                },
            },
    {
        let repo_type = get_repo_type(repo_path.as_str());
        let repo_meta = match get_repo_meta(repo_path.as_str(), &repo_type) {
            Ok(m) => m,
            Err(e) => return Err(e),
        };
        let template_path = config.get_template(template);
        let target_path = build_target_path(template_path.as_str(), &repo_meta, home);
        let ssh_key = match ssh_key {
            Some(k) => k,
            None => match home {
                Some(h) => default_ssh_key_path(h),
                None => String::new(),
            },
        };
        let name = match &ssh_username {
            Some(u) => Some(u.clone()),
            None => None,
        };
        let repo = build_repo_path(&repo_path, &repo_type, &ssh, &repo_meta, name);
        Ok(
            CloneOptions {
                repo_path: repo,
                repo_type,
                target_path,
                branch,
                ssh,
                ssh_key,
                ssh_username,
                ssh_password,
            },
        )
    }
}

impl CloneCommand {
    /// Plans the clone this command asks for: see `CloneOptions::new`.
    pub fn options(self, config: &AppConfig, home: Option<&str>) -> (r: Result<
        CloneOptions,
        RepoError,
    >)
        requires
            config.wf(),
            config.can_answer(self.template@),
        ensures
            match r {
                Ok(o) => {
                    let kind = kind_of(self.repo@);
                    &&& meta_of(self.repo@, kind) is Some
                    &&& o.repo_type == kind
                    &&& o.repo_path@ == address_of(
                        self.repo@,
                        kind,
                        self.ssh,
                        meta_of(self.repo@, kind)->0,
                        self.ssh_username.deep_view(),
                    )
                    &&& o.target_path@ == resolved(
                        config.template_for(self.template@),
                        meta_of(self.repo@, kind)->0,
                        home_view(home),
                    )
                    &&& o.ssh_key@ == self.ssh_key@
                    &&& o.branch == self.branch
                    &&& o.ssh == self.ssh
                    &&& o.ssh_username == self.ssh_username
                    &&& o.ssh_password == self.ssh_password
                },
                Err(RepoError::MalformedIdentifier(s)) => {
                    &&& meta_of(self.repo@, kind_of(self.repo@)) is None
                    &&& s@ == self.repo@
                },
            },
    {
        CloneOptions::new(
            self.repo,
            self.template.as_str(),
            self.branch,
            self.ssh,
            Some(self.ssh_key),
            self.ssh_username,
            self.ssh_password,
            config,
            home,
        )
    }
}

} // verus!
