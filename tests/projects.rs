use global_clone::config::AppConfig;
use global_clone::projects::{Descent, ListError, ListProjects};

#[test]
fn test_build_path() {
    let path = "/tmp/".to_string();
    let template = "git/*/{owner}/{repo}".to_string();
    let result = ListProjects::build_path(path, &template);
    assert!(result.is_ok());
    assert_eq!(result.unwrap(), "/tmp/git/*");
}

#[test]
fn build_path_adds_separator() {
    let result = ListProjects::build_path("/tmp".to_string(), &"git/{provider}".to_string());
    assert_eq!(result, Ok("/tmp/git".to_string()));
}

#[test]
fn build_path_placeholder_first() {
    let result = ListProjects::build_path("/tmp".to_string(), &"{provider}/{repo}".to_string());
    assert_eq!(result, Err(ListError::NoStaticPrefix));
}

#[test]
fn build_path_static_template() {
    let result = ListProjects::build_path("/srv".to_string(), &"a/b".to_string());
    assert_eq!(result, Ok("/srv/a/b".to_string()));
}

#[test]
fn list_projects_uses_default_name() {
    let config = AppConfig::default();
    let list = ListProjects::new(&config);
    assert_eq!(list.template, "default");
}

#[test]
fn descent_follows_template() {
    let template = "~/git/{provider}/{owner}/{repo}".to_string();
    let names = |v: &[&str]| v.iter().map(|s| s.to_string()).collect::<Vec<String>>();
    assert_eq!(ListProjects::descent(&template, &names(&[])), Descent::Descend);
    assert_eq!(ListProjects::descent(&template, &names(&["github"])), Descent::Descend);
    assert_eq!(ListProjects::descent(&template, &names(&["github", "NatoNathan"])), Descent::Descend);
    assert_eq!(
        ListProjects::descent(&template, &names(&["github", "NatoNathan", "global-clone"])),
        Descent::Project
    );
    assert_eq!(
        ListProjects::descent(&template, &names(&["github", "NatoNathan", "global-clone", "src"])),
        Descent::Skip
    );
}

#[test]
fn descent_static_segment_after_placeholder() {
    let template = "git/{provider}/mirrors/{repo}".to_string();
    let names = |v: &[&str]| v.iter().map(|s| s.to_string()).collect::<Vec<String>>();
    assert_eq!(ListProjects::descent(&template, &names(&["github", "mirrors"])), Descent::Descend);
    assert_eq!(ListProjects::descent(&template, &names(&["github", "other"])), Descent::Skip);
    assert_eq!(ListProjects::descent(&template, &names(&["github", "mirrors", "x"])), Descent::Project);
}

#[test]
fn descent_template_without_placeholders() {
    let template = "a/b".to_string();
    assert_eq!(ListProjects::descent(&template, &Vec::new()), Descent::Project);
    assert_eq!(ListProjects::descent(&template, &vec!["x".to_string()]), Descent::Skip);
}

#[test]
fn root_expands_home() {
    let template = "~/git/{provider}/{owner}/{repo}".to_string();
    assert_eq!(ListProjects::root(&template, Some("/home/nato")), Ok("/home/nato/git".to_string()));
    assert_eq!(ListProjects::root(&template, None), Ok("~/git".to_string()));
    assert_eq!(
        ListProjects::root(&"{provider}/{repo}".to_string(), Some("/h")),
        Err(ListError::NoStaticPrefix)
    );
}

#[test]
fn listing_start_for_default_template() {
    let config = AppConfig::default();
    let listing = ListProjects::new(&config);
    assert_eq!(
        listing.command(&config, Some("/home/nato")),
        Ok(("~/git/{provider}/{owner}/{repo}".to_string(), "/home/nato/git".to_string()))
    );
    let adhoc = ListProjects { template: "{provider}/{repo}".to_string() };
    assert_eq!(adhoc.command(&config, None), Err(ListError::NoStaticPrefix));
}
