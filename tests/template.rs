use global_clone::address::{get_repo_meta, get_repo_type, RepoMeta};
use global_clone::template::build_target_path;

fn global_clone_meta() -> RepoMeta {
    RepoMeta {
        repo: "global-clone".to_string(),
        owner: "NatoNathan".to_string(),
        provider: "github".to_string(),
        host: "github.com".to_string(),
    }
}

#[test]
fn resolve_with_home() {
    assert_eq!(
        build_target_path("~/git/{provider}/{owner}/{repo}", &global_clone_meta(), Some("/home/nato")),
        "/home/nato/git/github/NatoNathan/global-clone"
    );
}

#[test]
fn resolve_without_tilde() {
    assert_eq!(
        build_target_path("ci/{provider}/{owner}/{repo}", &global_clone_meta(), Some("/home/nato")),
        "ci/github/NatoNathan/global-clone"
    );
}

#[test]
fn resolve_without_home_keeps_tilde() {
    assert_eq!(
        build_target_path("~/{repo}", &global_clone_meta(), None),
        "~/global-clone"
    );
}

#[test]
fn resolve_only_leading_tilde() {
    assert_eq!(
        build_target_path("a/~/{repo}", &global_clone_meta(), Some("/h")),
        "a/~/global-clone"
    );
}

#[test]
fn resolve_unknown_placeholder_is_empty() {
    assert_eq!(
        build_target_path("x/{branch}/{repo}", &global_clone_meta(), None),
        "x//global-clone"
    );
}

#[test]
fn resolve_leaves_names_outside_braces() {
    assert_eq!(
        build_target_path("repo/owner/{owner}", &global_clone_meta(), None),
        "repo/owner/NatoNathan"
    );
}

#[test]
fn resolve_unclosed_brace_is_text() {
    assert_eq!(
        build_target_path("a/{repo", &global_clone_meta(), None),
        "a/{repo"
    );
    assert_eq!(
        build_target_path("{x{repo}", &global_clone_meta(), None),
        ""
    );
}

#[test]
fn resolve_twice_is_identical() {
    let t = "~/git/{provider}/{owner}/{repo}";
    let a = build_target_path(t, &global_clone_meta(), Some("/home/nato"));
    let b = build_target_path(t, &global_clone_meta(), Some("/home/nato"));
    assert_eq!(a.as_bytes(), b.as_bytes());
}

#[test]
fn round_trip_owner_repo_any_host() {
    for raw in [
        "NatoNathan/global-clone",
        "https://github.com/NatoNathan/global-clone.git",
        "git@github.com:NatoNathan/global-clone.git",
        "https://gitlab.example.com/NatoNathan/global-clone",
    ] {
        let meta = get_repo_meta(raw, &get_repo_type(raw)).unwrap();
        let path = build_target_path("{owner}/{repo}", &meta, None);
        assert_eq!(path, "NatoNathan/global-clone");
        assert!(raw.contains(path.as_str()));
    }
}
