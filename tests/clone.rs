use global_clone::address::{RepoError, RepoType};
use global_clone::clone::{
    credential_method, default_ssh_key_path, has_public_key, pick_ssh_key, CloneCommand, CloneOptions,
    CredentialMethod,
};
use global_clone::config::AppConfig;

#[test]
fn clone_options_shorthand_over_ssh() {
    let config = AppConfig::default();
    let options = CloneOptions::new(
        "NatoNathan/global-clone".to_string(),
        "default",
        None,
        true,
        None,
        None,
        None,
        &config,
        Some("/home/nato"),
    )
    .unwrap();
    assert_eq!(options.repo_path, "git@github.com:NatoNathan/global-clone.git");
    assert_eq!(options.repo_type, RepoType::Github);
    assert_eq!(options.target_path, "/home/nato/git/github/NatoNathan/global-clone");
    assert_eq!(options.ssh_key, "/home/nato/.ssh/");
    assert!(options.ssh);
}

#[test]
fn clone_command_adhoc_template() {
    let config = AppConfig::default();
    let command = CloneCommand {
        repo: "https://github.com/NatoNathan/global_clone.git".to_string(),
        ssh: false,
        ssh_key: "/k/id".to_string(),
        ssh_username: None,
        ssh_password: None,
        branch: Some("main".to_string()),
        template: "ci/{provider}/{owner}/{repo}".to_string(),
    };
    let options = command.options(&config, Some("/home/nato")).unwrap();
    assert_eq!(options.repo_path, "https://github.com/NatoNathan/global_clone.git");
    assert_eq!(options.target_path, "ci/github/NatoNathan/global_clone");
    assert_eq!(options.branch, Some("main".to_string()));
    assert_eq!(options.ssh_key, "/k/id");
}

#[test]
fn clone_options_malformed() {
    let config = AppConfig::default();
    let result = CloneOptions::new(
        "nothing".to_string(),
        "default",
        None,
        false,
        Some("k".to_string()),
        None,
        None,
        &config,
        None,
    );
    assert!(matches!(result, Err(RepoError::MalformedIdentifier(s)) if s == "nothing"));
}

#[test]
fn pick_first_public_key() {
    let files = vec![
        "/home/nato/.ssh/config".to_string(),
        "/home/nato/.ssh/id_ed25519.pub".to_string(),
        "/home/nato/.ssh/id_rsa.pub".to_string(),
    ];
    assert!(has_public_key(&files));
    assert_eq!(pick_ssh_key(&files), "/home/nato/.ssh/id_ed25519");
}

#[test]
fn pick_no_public_key() {
    let files = vec!["/home/nato/.ssh/known_hosts".to_string()];
    assert!(!has_public_key(&files));
    assert!(!has_public_key(&Vec::new()));
}

#[test]
fn pick_removes_every_pub() {
    let files = vec!["/keys.pub/a.pub".to_string()];
    assert_eq!(pick_ssh_key(&files), "/keys/a");
}

#[test]
fn default_key_under_home() {
    assert_eq!(default_ssh_key_path("/home/nato"), "/home/nato/.ssh/");
}

#[test]
fn credential_methods() {
    assert_eq!(credential_method(&RepoType::Ssh, true), CredentialMethod::KeyFile);
    assert_eq!(credential_method(&RepoType::Ssh, false), CredentialMethod::Agent);
    assert_eq!(credential_method(&RepoType::Http, true), CredentialMethod::Helper);
    assert_eq!(credential_method(&RepoType::Github, false), CredentialMethod::Helper);
}

#[test]
fn clone_command_carries_credentials() {
    let config = AppConfig::default();
    let command = CloneCommand {
        repo: "git@gitlab.com:group/project.git".to_string(),
        ssh: true,
        ssh_key: "/k/id".to_string(),
        ssh_username: Some("deploy".to_string()),
        ssh_password: Some("pw".to_string()),
        branch: None,
        template: "ci/{provider}/{owner}/{repo}".to_string(),
    };
    let options = command.options(&config, None).unwrap();
    assert_eq!(options.repo_path, "deploy@gitlab.com:group/project.git");
    assert_eq!(options.target_path, "ci/gitlab/group/project");
    assert_eq!(options.ssh_username, Some("deploy".to_string()));
    assert_eq!(options.ssh_password, Some("pw".to_string()));
}
