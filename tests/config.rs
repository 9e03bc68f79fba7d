use global_clone::config::{listing_rows, standard_template, AppConfig};

#[test]
fn config_test_get_template() {
    let config = AppConfig::default();
    let template = config.get_template("default");
    assert_eq!(template, "~/git/{provider}/{owner}/{repo}");
}

#[test]
fn windows_default_template() {
    let config = AppConfig::default_for(true);
    let template = config.get_template("default");
    assert_eq!(template, "C:\\git\\{provider}\\{owner}\\{repo}");
    assert_eq!(standard_template(true), "C:\\git\\{provider}\\{owner}\\{repo}");
}

#[test]
fn default_config_values() {
    let config = AppConfig::default();
    assert_eq!(config.version(), "0.1.0");
    assert_eq!(config.default_template(), "default");
    assert_eq!(config.get_default_template(), "~/git/{provider}/{owner}/{repo}");
}

#[test]
fn template_written_out_is_used_as_is() {
    let config = AppConfig::default();
    assert_eq!(config.get_template("ci/{provider}/{owner}/{repo}"), "ci/{provider}/{owner}/{repo}");
    assert_eq!(config.get_template("{repo}"), "{repo}");
    assert_eq!(config.get_template("a/b"), "a/b");
}

#[test]
fn unknown_template_falls_back_to_default() {
    let config = AppConfig::default();
    assert_eq!(config.get_template("missing"), "~/git/{provider}/{owner}/{repo}");
}

#[test]
fn add_lookup_replace_remove() {
    let mut config = AppConfig::default();
    config.add_template("ci", "ci/{provider}/{owner}/{repo}");
    assert_eq!(config.get_template("ci"), "ci/{provider}/{owner}/{repo}");
    config.add_template("ci", "build/{repo}");
    assert_eq!(config.lookup("ci"), Some("build/{repo}".to_string()));
    config.remove_template("ci");
    assert_eq!(config.lookup("ci"), None);
    assert_eq!(config.get_template("ci"), "~/git/{provider}/{owner}/{repo}");
    config.remove_template("ci");
    assert_eq!(config.lookup("default"), Some("~/git/{provider}/{owner}/{repo}".to_string()));
}

#[test]
fn set_default_changes_fallback() {
    let mut config = AppConfig::default();
    config.add_template("work", "work/{repo}");
    config.set_default_template("work");
    assert_eq!(config.default_template(), "work");
    assert_eq!(config.get_default_template(), "work/{repo}");
    assert_eq!(config.get_template("nothing"), "work/{repo}");
}

#[test]
fn new_store_is_empty() {
    let config = AppConfig::new("0.2.0".to_string(), "x".to_string());
    assert_eq!(config.lookup("x"), None);
    assert_eq!(config.version(), "0.2.0");
}

#[test]
fn listing_marks_default() {
    let mut config = AppConfig::default();
    config.add_template("ci", "ci/{repo}");
    let mut rows = listing_rows(&config.entries(), config.default_template());
    rows.sort();
    assert_eq!(
        rows,
        vec![
            ("ci".to_string(), "ci/{repo}".to_string()),
            ("default*".to_string(), "~/git/{provider}/{owner}/{repo}".to_string()),
        ]
    );
}

#[test]
fn answers_requests() {
    let mut config = AppConfig::default();
    assert!(config.answers("default"));
    assert!(config.answers("unknown"));
    config.remove_template("default");
    assert!(!config.answers("unknown"));
    assert!(config.answers("x/{repo}"));
    config.add_template("mine", "m/{repo}");
    assert!(config.answers("mine"));
}
