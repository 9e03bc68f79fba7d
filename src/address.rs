//! Repository identifiers: which addressing scheme one uses, the identity
//! (host, provider, owner, repository) it names, and the address to clone from.

use vstd::prelude::*;
use crate::text::{
    chars_of, contains_char, lemma_remove_all_len, occurs_in, occurs_in_exec, remove_all,
    remove_all_exec, same_chars, segment_head, segment_rest, slice_chars, split_once, string_of,
};

verus! {

/// The addressing scheme of a repository identifier.
#[derive(Debug, Clone, Copy, PartialEq, Eq, Structural)]
pub enum RepoType {
    /// `https://host/owner/repo[.git]`
    Http,
    /// `user@host:owner/repo[.git]`
    Ssh,
    /// bare `owner/repo`, on github.com
    Github,
}

/// The identity of a repository, as character sequences.
pub struct Identity {
    pub repo: Seq<char>,
    pub owner: Seq<char>,
    pub provider: Seq<char>,
    pub host: Seq<char>,
}

/// The identity of a repository, extracted from its identifier.
#[derive(Debug, Clone, PartialEq, Eq)]
pub struct RepoMeta {
    /// repository name; it never holds `.git`
    pub repo: String,
    pub owner: String,
    /// short name of the hosting service, such as `github`
    pub provider: String,
    /// full domain of the host, such as `github.com`
    pub host: String,
}

impl View for RepoMeta {
    type V = Identity;

    open spec fn view(&self) -> Identity {
        Identity {
            repo: self.repo@,
            owner: self.owner@,
            provider: self.provider@,
            host: self.host@,
        }
    }
}

/// Why an identifier could not be read.
#[derive(Debug, Clone, PartialEq, Eq)]
pub enum RepoError {
    /// The identifier lacks the separators or segments its scheme needs; it
    /// holds the identifier as given.
    MalformedIdentifier(String),
}

/// A pair of DNS labels (`label.label`), in any letter case; group 1 is the
/// provider, the whole match the host.
pub const DOMAIN_PATTERN: &'static str =
    "(?i)([a-z0-9](?:[a-z0-9-]{0,61}[a-z0-9])?)\\.+[a-z0-9][a-z0-9-]{0,61}[a-z0-9]";

/// The scheme of an identifier: web if it holds `http`, else ssh if it holds
/// `@`, else shorthand.
pub open spec fn kind_of(raw: Seq<char>) -> RepoType {
    if occurs_in(raw, "http"@) {
        RepoType::Http
    } else if raw.contains('@') {
        RepoType::Ssh
    } else {
        RepoType::Github
    }
}

/// Classifies a repository identifier. Total: every identifier has a kind.
pub fn get_repo_type(repo_path: &str) -> (r: RepoType)
    ensures
        r == kind_of(repo_path@),
{
    let raw = chars_of(repo_path);
    let marker = chars_of("http");
    if occurs_in_exec(&raw, &marker) {
        RepoType::Http
    } else if contains_char(&raw, '@') {
        RepoType::Ssh
    } else {
        RepoType::Github
    }
}

/// What `regex::Regex::new` and `regex::Regex::captures` report for `pattern`
/// on `hay`: the text of the leftmost-first match and of its group 1, or
/// `None` when nothing matches or the pattern does not compile.
pub uninterp spec fn regex_captures(pattern: Seq<char>, hay: Seq<char>) -> Option<
    (Seq<char>, Option<Seq<char>>),
>;

/// Relies on `regex::Regex::new` and `regex::Regex::captures`: the pattern is
/// compiled and searched for in `hay`; the whole match and group 1 are handed
/// back as text. The result depends on the two texts alone.
#[verifier::external_body]
fn first_captures(pattern: &str, hay: &str) -> (r: Option<(String, Option<String>)>)
    ensures
        r.deep_view() == regex_captures(pattern@, hay@),
{
    let re = match regex::Regex::new(pattern) {
        Ok(re) => re,
        Err(_) => return None,
    };
    let caps = re.captures(hay)?;
    let group = match caps.get(1) {
        Some(m) => Some(m.as_str().to_string()),
        None => None,
    };
    Some((caps[0].to_string(), group))
}

/// `s` with `.git` taken out until none is left: a trailing `.git` goes, and
/// the name never holds `.git`.
pub open spec fn without_git(s: Seq<char>) -> Seq<char>
    decreases s.len(),
    via without_git_decreases
{
    if occurs_in(s, ".git"@) {
        without_git(remove_all(s, ".git"@))
    } else {
        s
    }
}

#[via_fn]
proof fn without_git_decreases(s: Seq<char>) {
    reveal_strlit(".git");
    lemma_remove_all_len(s, ".git"@);
}

/// A name with `.git` taken out holds no `.git`.
pub proof fn lemma_without_git(s: Seq<char>)
    ensures
        !occurs_in(without_git(s), ".git"@),
    decreases s.len(),
{
    if occurs_in(s, ".git"@) {
        reveal_strlit(".git");
        lemma_remove_all_len(s, ".git"@);
        lemma_without_git(remove_all(s, ".git"@));
    }
}

/// `s` without a leading `https://`.
pub open spec fn strip_https(s: Seq<char>) -> Seq<char> {
    if s.len() >= 8 && s.subrange(0, 8) == "https://"@ {
        s.subrange(8, s.len() as int)
    } else {
        s
    }
}

/// Shorthand grammar: `owner/repo[.git]`; provider and host are github's.
pub open spec fn shorthand_identity(raw: Seq<char>) -> Option<Identity> {
    match segment_rest(raw, '/') {
        Some(rest) => Some(
            Identity {
                repo: without_git(segment_head(rest, '/')),
                owner: segment_head(raw, '/'),
                provider: "github"@,
                host: "github.com"@,
            },
        ),
        None => None,
    }
}

/// The identity whose host and provider are the whole match and group 1 of
/// `captures`, a search for the domain pattern; `None` when it found nothing.
pub open spec fn identity_from_match(
    captures: Option<(Seq<char>, Option<Seq<char>>)>,
    owner: Seq<char>,
    repo: Seq<char>,
) -> Option<Identity> {
    match captures {
        Some((host, Some(provider))) => Some(
            Identity { repo: without_git(repo), owner, provider, host },
        ),
        _ => None,
    }
}

/// Identity whose provider and host come from the domain pattern found in
/// `authority`.
pub open spec fn hosted_identity(authority: Seq<char>, owner: Seq<char>, repo: Seq<char>) -> Option<
    Identity,
> {
    identity_from_match(regex_captures(DOMAIN_PATTERN@, authority), owner, repo)
}

/// Web grammar: `[https://]host/owner/repo[.git]...`.
pub open spec fn web_identity(raw: Seq<char>) -> Option<Identity> {
    let path = strip_https(raw);
    match segment_rest(path, '/') {
        Some(r1) => match segment_rest(r1, '/') {
            Some(r2) => hosted_identity(
                segment_head(path, '/'),
                segment_head(r1, '/'),
                segment_head(r2, '/'),
            ),
            None => None,
        },
        None => None,
    }
}

/// Ssh grammar: `user@host:owner/repo[.git]`.
pub open spec fn ssh_identity(raw: Seq<char>) -> Option<Identity> {
    match segment_rest(raw, ':') {
        Some(after) => {
            let path = segment_head(after, ':');
            match segment_rest(path, '/') {
                Some(r) => hosted_identity(
                    segment_head(raw, ':'),
                    segment_head(path, '/'),
                    segment_head(r, '/'),
                ),
                None => None,
            }
        },
        None => None,
    }
}

/// The identity that the grammar of `kind` reads from `raw`, if it can.
pub open spec fn meta_of(raw: Seq<char>, kind: RepoType) -> Option<Identity> {
    match kind {
        RepoType::Github => shorthand_identity(raw),
        RepoType::Http => web_identity(raw),
        RepoType::Ssh => ssh_identity(raw),
    }
}

/// The result of reading `raw` with a grammar whose reading is `id`.
pub open spec fn meta_result(raw: Seq<char>, id: Option<Identity>, r: Result<RepoMeta, RepoError>) -> bool {
    match r {
        Ok(m) => id == Some(m@),
        Err(RepoError::MalformedIdentifier(s)) => id is None && s@ == raw,
    }
}

fn malformed(raw: &str) -> (e: RepoError)
    ensures
        e matches RepoError::MalformedIdentifier(s) && s@ == raw@,
{
    RepoError::MalformedIdentifier(raw.to_owned())
}

/// `v` with `.git` taken out until none is left.
fn without_git_exec(name: Vec<char>) -> (r: Vec<char>)
    ensures
        r@ == without_git(name@),
{
    let suffix = chars_of(".git");
    let mut v = name;
    proof {
        reveal_strlit(".git");
    }
    loop
        invariant
            suffix@ == ".git"@,
            suffix@.len() == 4,
            without_git(v@) == without_git(name@),
        decreases v.len(),
    {
        if !occurs_in_exec(&v, &suffix) {
            assert(without_git(v@) == v@);
            return v;
        }
        proof {
            lemma_remove_all_len(v@, suffix@);
        }
        v = remove_all_exec(&v, &suffix);
    }
}

/// `v` without a leading `https://`.
fn strip_https_exec(v: Vec<char>) -> (r: Vec<char>)
    ensures
        r@ == strip_https(v@),
{
    if v.len() >= 8 {
        let head = slice_chars(&v, 0, 8);
        let prefix = chars_of("https://");
        if same_chars(&head, &prefix) {
            return slice_chars(&v, 8, v.len());
        }
    }
    v
}

/// Reads a shorthand identifier, `owner/repo`.
pub fn parse_shorthand(raw: &str) -> (r: Result<RepoMeta, RepoError>)
    ensures
        meta_result(raw@, shorthand_identity(raw@), r),
{
    let v = chars_of(raw);
    let (owner, rest) = split_once(&v, '/');
    match rest {
        Some(rest) => {
            let (repo, _) = split_once(&rest, '/');
            let repo = without_git_exec(repo);
            Ok(
                RepoMeta {
                    repo: string_of(&repo),
                    owner: string_of(&owner),
                    provider: "github".to_owned(),
                    host: "github.com".to_owned(),
                },
            )
        },
        None => Err(malformed(raw)),
    }
}

/// The identity whose host and provider come from `captures`, the result of
/// a search for the domain pattern: see `identity_from_match`.
pub fn meta_from_match(captures: Option<(String, Option<String>)>, owner: &str, repo: &str) -> (r:
    Option<RepoMeta>)
    ensures
        match r {
            Some(m) => identity_from_match(captures.deep_view(), owner@, repo@) == Some(m@),
            None => identity_from_match(captures.deep_view(), owner@, repo@) is None,
        },
{
    match captures {
        Some((host, Some(provider))) => {
            let repo = without_git_exec(chars_of(repo));
            Some(RepoMeta { repo: string_of(&repo), owner: owner.to_owned(), provider, host })
        },
        _ => None,
    }
}

/// Identity whose provider and host come from the domain pattern found in
/// `authority`.
fn hosted_meta(authority: &Vec<char>, owner: Vec<char>, repo: Vec<char>) -> (r: Option<RepoMeta>)
    ensures
        match r {
            Some(m) => hosted_identity(authority@, owner@, repo@) == Some(m@),
            None => hosted_identity(authority@, owner@, repo@) is None,
        },
{
    let hay = string_of(authority);
    let captures = first_captures(DOMAIN_PATTERN, hay.as_str());
    meta_from_match(captures, string_of(&owner).as_str(), string_of(&repo).as_str())
}

/// Reads a web identifier, `[https://]host/owner/repo[.git]`.
pub fn parse_web(raw: &str) -> (r: Result<RepoMeta, RepoError>)
    ensures
        meta_result(raw@, web_identity(raw@), r),
{
    let path = strip_https_exec(chars_of(raw));
    let (authority, r1) = split_once(&path, '/');
    if let Some(r1) = r1 {
        let (owner, r2) = split_once(&r1, '/');
        if let Some(r2) = r2 {
            let (repo, _) = split_once(&r2, '/');
            if let Some(m) = hosted_meta(&authority, owner, repo) {
                return Ok(m);
            }
        }
    }
    Err(malformed(raw))
}

/// Reads an ssh identifier, `user@host:owner/repo[.git]`.
pub fn parse_ssh(raw: &str) -> (r: Result<RepoMeta, RepoError>)
    ensures
        meta_result(raw@, ssh_identity(raw@), r),
{
    let v = chars_of(raw);
    let (authority, after) = split_once(&v, ':');
    if let Some(after) = after {
        let (path, _) = split_once(&after, ':');
        let (owner, r) = split_once(&path, '/');
        if let Some(r) = r {
            let (repo, _) = split_once(&r, '/');
            if let Some(m) = hosted_meta(&authority, owner, repo) {
                return Ok(m);
            }
        }
    }
    Err(malformed(raw))
}

/// Extracts the identity of a repository with the grammar of `repo_type`;
/// fails exactly when that grammar cannot read `repo_path`.
pub fn get_repo_meta(repo_path: &str, repo_type: &RepoType) -> (r: Result<RepoMeta, RepoError>)
    ensures
        meta_result(repo_path@, meta_of(repo_path@, *repo_type), r),
{
    match repo_type {
        RepoType::Github => parse_shorthand(repo_path),
        RepoType::Http => parse_web(repo_path),
        RepoType::Ssh => parse_ssh(repo_path),
    }
}

/// The address to clone from. A shorthand identifier is rewritten into a
/// github address for the chosen transport; any other identifier is kept as
/// given unless ssh is asked for, when an ssh address is built from its identity.
pub open spec fn address_of(
    raw: Seq<char>,
    kind: RepoType,
    ssh: bool,
    id: Identity,
    user: Option<Seq<char>>,
) -> Seq<char> {
    match kind {
        RepoType::Github => if ssh {
            "git@github.com:"@ + id.owner + "/"@ + id.repo + ".git"@
        } else {
            "https://github.com/"@ + id.owner + "/"@ + id.repo
        },
        _ => if ssh {
            user.unwrap_or("git"@) + "@"@ + id.host + ":"@ + id.owner + "/"@ + id.repo + ".git"@
        } else {
            raw
        },
    }
}

/// Builds the address to clone from: see `address_of`.
pub fn build_repo_path(
    repo: &String,
    repo_type: &RepoType,
    ssh: &bool,
    repo_meta: &RepoMeta,
    username: Option<String>,
) -> (r: String)
    ensures
        r@ == address_of(repo@, *repo_type, *ssh, repo_meta@, username.deep_view()),
{
    match (repo_type, *ssh) {
        (RepoType::Github, true) => {
            let mut s = "git@github.com:".to_owned();
            s.append(repo_meta.owner.as_str());
            s.append("/");
            s.append(repo_meta.repo.as_str());
            s.append(".git");
            s
        },
        (RepoType::Github, false) => {
            let mut s = "https://github.com/".to_owned();
            s.append(repo_meta.owner.as_str());
            s.append("/");
            s.append(repo_meta.repo.as_str());
            s
        },
        (_, false) => repo.clone(),
        (_, true) => {
            let mut s = match username {
                Some(u) => u,
                None => "git".to_owned(),
            };
            s.append("@");
            s.append(repo_meta.host.as_str());
            s.append(":");
            s.append(repo_meta.owner.as_str());
            s.append("/");
            s.append(repo_meta.repo.as_str());
            s.append(".git");
            s
        },
    }
}

} // verus!
