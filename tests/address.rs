use global_clone::address::{
    build_repo_path, get_repo_meta, get_repo_type, meta_from_match, parse_shorthand, parse_ssh,
    parse_web, RepoError, RepoMeta, RepoType,
};

fn global_clone_meta() -> RepoMeta {
    RepoMeta {
        repo: "global-clone".to_string(),
        owner: "NatoNathan".to_string(),
        provider: "github".to_string(),
        host: "github.com".to_string(),
    }
}

#[test]
fn classify_shorthand() {
    assert_eq!(get_repo_type("NatoNathan/global-clone"), RepoType::Github);
}

#[test]
fn classify_web() {
    assert_eq!(get_repo_type("https://github.com/NatoNathan/global-clone.git"), RepoType::Http);
    assert_eq!(get_repo_type("http://example.com/a/b"), RepoType::Http);
}

#[test]
fn classify_ssh() {
    assert_eq!(get_repo_type("git@github.com:NatoNathan/global-clone.git"), RepoType::Ssh);
}

#[test]
fn classify_web_before_ssh() {
    assert_eq!(get_repo_type("https://user@github.com/a/b"), RepoType::Http);
}

#[test]
fn classify_is_deterministic() {
    for raw in ["a/b", "https://h.com/a/b", "u@h.com:a/b", "", "plain"] {
        assert_eq!(get_repo_type(raw), get_repo_type(raw));
    }
    assert_eq!(get_repo_type(""), RepoType::Github);
}

#[test]
fn extract_shorthand() {
    let raw = "NatoNathan/global-clone";
    let kind = get_repo_type(raw);
    assert_eq!(kind, RepoType::Github);
    assert_eq!(get_repo_meta(raw, &kind), Ok(global_clone_meta()));
}

#[test]
fn extract_web() {
    let raw = "https://github.com/NatoNathan/global-clone.git";
    let kind = get_repo_type(raw);
    assert_eq!(get_repo_meta(raw, &kind), Ok(global_clone_meta()));
}

#[test]
fn extract_ssh() {
    let raw = "git@github.com:NatoNathan/global-clone.git";
    let kind = get_repo_type(raw);
    assert_eq!(get_repo_meta(raw, &kind), Ok(global_clone_meta()));
}

#[test]
fn extract_web_other_host_takes_first_label_pair() {
    let meta = parse_web("https://gitlab.example.com/team/tool").unwrap();
    assert_eq!(meta.provider, "gitlab");
    assert_eq!(meta.host, "gitlab.example");
    assert_eq!(meta.owner, "team");
    assert_eq!(meta.repo, "tool");
}

#[test]
fn extract_web_domain_is_case_insensitive() {
    let meta = parse_web("https://GitHub.com/Owner/Repo.git").unwrap();
    assert_eq!(meta.provider, "GitHub");
    assert_eq!(meta.host, "GitHub.com");
    assert_eq!(meta.repo, "Repo");
}

#[test]
fn extract_web_without_scheme() {
    let meta = parse_web("bitbucket.org/team/tool.git").unwrap();
    assert_eq!(meta.provider, "bitbucket");
    assert_eq!(meta.host, "bitbucket.org");
    assert_eq!(meta.repo, "tool");
}

#[test]
fn extract_repository_never_holds_git() {
    assert_eq!(parse_shorthand("o/r.git").unwrap().repo, "r");
    assert_eq!(parse_web("https://github.com/o/r.git").unwrap().repo, "r");
    assert_eq!(parse_ssh("git@github.com:o/my.gitrepo.git").unwrap().repo, "myrepo");
    assert_eq!(parse_shorthand("o/a.git.b").unwrap().repo, "a.b");
    assert_eq!(parse_shorthand("o/..gitgit").unwrap().repo, "");
}

#[test]
fn shorthand_with_git_suffix_builds_one_suffix() {
    let raw = "o/r.git".to_string();
    let meta = parse_shorthand(&raw).unwrap();
    assert_eq!(
        build_repo_path(&raw, &RepoType::Github, &true, &meta, None),
        "git@github.com:o/r.git"
    );
}

#[test]
fn extract_ssh_other_user() {
    let meta = parse_ssh("deploy@gitlab.com:group/project.git").unwrap();
    assert_eq!(meta.provider, "gitlab");
    assert_eq!(meta.host, "gitlab.com");
    assert_eq!(meta.owner, "group");
    assert_eq!(meta.repo, "project");
}

#[test]
fn malformed_shorthand() {
    assert_eq!(
        parse_shorthand("justaname"),
        Err(RepoError::MalformedIdentifier("justaname".to_string()))
    );
}

#[test]
fn malformed_web_too_few_segments() {
    assert_eq!(
        parse_web("https://github.com/owner"),
        Err(RepoError::MalformedIdentifier("https://github.com/owner".to_string()))
    );
}

#[test]
fn malformed_web_no_domain() {
    assert_eq!(
        parse_web("https://localhost/a/b"),
        Err(RepoError::MalformedIdentifier("https://localhost/a/b".to_string()))
    );
}

#[test]
fn malformed_ssh() {
    assert!(parse_ssh("git@github.com").is_err());
    assert!(parse_ssh("git@github.com:owner").is_err());
    assert!(parse_ssh("git@nodomain:owner/repo").is_err());
}

#[test]
fn address_shorthand_https() {
    let raw = "NatoNathan/global-clone".to_string();
    let meta = global_clone_meta();
    assert_eq!(
        build_repo_path(&raw, &RepoType::Github, &false, &meta, None),
        "https://github.com/NatoNathan/global-clone"
    );
}

#[test]
fn address_shorthand_ssh() {
    let raw = "NatoNathan/global-clone".to_string();
    let meta = global_clone_meta();
    assert_eq!(
        build_repo_path(&raw, &RepoType::Github, &true, &meta, None),
        "git@github.com:NatoNathan/global-clone.git"
    );
}

#[test]
fn address_kept_without_ssh() {
    let meta = global_clone_meta();
    let web = "https://github.com/NatoNathan/global-clone.git".to_string();
    assert_eq!(build_repo_path(&web, &RepoType::Http, &false, &meta, None), web);
    let ssh = "git@github.com:NatoNathan/global-clone.git".to_string();
    assert_eq!(build_repo_path(&ssh, &RepoType::Ssh, &false, &meta, Some("me".to_string())), ssh);
}

#[test]
fn address_ssh_from_web() {
    let web = "https://github.com/NatoNathan/global-clone.git".to_string();
    let meta = global_clone_meta();
    assert_eq!(
        build_repo_path(&web, &RepoType::Http, &true, &meta, None),
        "git@github.com:NatoNathan/global-clone.git"
    );
    assert_eq!(
        build_repo_path(&web, &RepoType::Http, &true, &meta, Some("me".to_string())),
        "me@github.com:NatoNathan/global-clone.git"
    );
}

#[test]
fn identity_from_domain_match() {
    let found = Some(("example.org".to_string(), Some("example".to_string())));
    let meta = meta_from_match(found, "team", "tool.git").unwrap();
    assert_eq!(meta.host, "example.org");
    assert_eq!(meta.provider, "example");
    assert_eq!(meta.owner, "team");
    assert_eq!(meta.repo, "tool");
    assert_eq!(meta_from_match(None, "team", "tool"), None);
    assert_eq!(meta_from_match(Some(("a.b".to_string(), None)), "team", "tool"), None);
}
