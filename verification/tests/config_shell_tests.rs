use tempdir::TempDir;
use try_rs::config::config_candidates;
use try_rs::config::find_config_path;
use try_rs::config::load_app_config;
use try_rs::config::Config;
use try_rs::shell::get_shell_content;
use try_rs::shell::get_shell_integration_path;
use try_rs::shell::is_shell_integration_configured;
use try_rs::shell::Shell;

fn empty_config() -> Config {
    Config {
        tries_path: None,
        theme: None,
        colors: None,
        editor: None,
        apply_date_prefix: None,
        transparent_background: None,
    }
}

#[test]
fn shell_content_defines_the_wrapper() {
    assert!(get_shell_content(&Shell::Fish).contains("function try-rs"));
    assert!(get_shell_content(&Shell::Zsh).contains("try-rs()"));
    assert!(get_shell_content(&Shell::Bash).contains("try-rs()"));
    assert!(get_shell_content(&Shell::PowerShell).contains("function try-rs"));
    assert!(get_shell_content(&Shell::NuShell).contains("try-rs"));
}

#[test]
fn shell_integration_paths() {
    assert_eq!(
        get_shell_integration_path(&Shell::Fish, "/base", "/cfg"),
        "/base/fish/functions/try-rs.fish"
    );
    assert_eq!(get_shell_integration_path(&Shell::Zsh, "/base", "/cfg"), "/cfg/try-rs.zsh");
    assert_eq!(get_shell_integration_path(&Shell::Bash, "/base", "/cfg"), "/cfg/try-rs.bash");
    assert_eq!(
        get_shell_integration_path(&Shell::PowerShell, "/base", "/cfg"),
        "/cfg/try-rs.ps1"
    );
    assert_eq!(get_shell_integration_path(&Shell::NuShell, "/base", "/cfg"), "/cfg/try-rs.nu");
}

#[test]
fn shell_integration_missing_on_fresh_dir() {
    let tmp = TempDir::new("integration-test").unwrap();
    let cfg = tmp.path().to_str().unwrap().to_string();
    assert!(!is_shell_integration_configured(&Shell::Zsh, &cfg, &cfg));
    assert!(!is_shell_integration_configured(&Shell::Fish, &cfg, &cfg));
}

#[test]
fn config_candidates_priority_order() {
    let candidates = config_candidates(
        &Some("/override".to_string()),
        &Some("/sys".to_string()),
        &Some("/home/user".to_string()),
        "config.toml",
    );
    assert_eq!(
        candidates,
        vec![
            "/override/config.toml".to_string(),
            "/sys/try-rs/config.toml".to_string(),
            "/home/user/.config/try-rs/config.toml".to_string(),
        ]
    );
}

#[test]
fn config_candidates_skip_unknown_dirs() {
    let candidates = config_candidates(&None, &None, &Some("/h".to_string()), "config.toml");
    assert_eq!(candidates, vec!["/h/.config/try-rs/config.toml".to_string()]);
}

#[test]
fn find_config_path_picks_an_existing_candidate() {
    let tmp = TempDir::new("find-config").unwrap();
    let present = tmp.path().to_str().unwrap().to_string();
    let candidates = vec!["/nonexistent/config.toml".to_string(), present.clone()];
    assert_eq!(find_config_path(&candidates).as_deref(), Some(present.as_str()));
    assert!(find_config_path(&vec!["/nonexistent/config.toml".to_string()]).is_none());
}

#[test]
fn try_path_env_overrides_config() {
    let file = Config { tries_path: Some("/cfg/tries".to_string()), ..empty_config() };
    let merged = load_app_config(
        Some(file),
        Some("/env/tries".to_string()),
        None,
        None,
        &"/home/user".to_string(),
        None,
    );
    assert_eq!(merged.tries_dir, "/env/tries");
}

#[test]
fn configured_tries_path_is_expanded() {
    let file = Config { tries_path: Some("~/work/tries".to_string()), ..empty_config() };
    let merged = load_app_config(Some(file), None, None, None, &"/home/user".to_string(), None);
    assert_eq!(merged.tries_dir, "/home/user/work/tries");
}

#[test]
fn default_tries_path_under_home() {
    let merged = load_app_config(None, None, None, None, &"/home/user".to_string(), None);
    assert_eq!(merged.tries_dir, "/home/user/work/tries");
    assert!(merged.is_first_run);
    assert_eq!(merged.theme, "Default");
}

#[test]
fn editor_precedence_config_over_environment() {
    let file = Config { editor: Some("code".to_string()), ..empty_config() };
    let merged = load_app_config(
        Some(file),
        None,
        Some("visual-editor".to_string()),
        Some("env-editor".to_string()),
        &"/h".to_string(),
        None,
    );
    assert_eq!(merged.editor_cmd.as_deref(), Some("code"));

    let merged = load_app_config(
        Some(empty_config()),
        None,
        Some("visual-editor".to_string()),
        Some("env-editor".to_string()),
        &"/h".to_string(),
        None,
    );
    assert_eq!(merged.editor_cmd.as_deref(), Some("visual-editor"));

    let merged = load_app_config(
        Some(empty_config()),
        None,
        None,
        Some("env-editor".to_string()),
        &"/h".to_string(),
        None,
    );
    assert_eq!(merged.editor_cmd.as_deref(), Some("env-editor"));
}

#[test]
fn named_theme_is_passed_through() {
    let file = Config { theme: Some("Tokyo Night".to_string()), ..empty_config() };
    let merged = load_app_config(Some(file), None, None, None, &"/h".to_string(), None);
    assert_eq!(merged.theme, "Tokyo Night");
    assert!(merged.colors.is_none());
}

#[test]
fn date_prefix_option_is_carried_over() {
    let file = Config { apply_date_prefix: Some(true), ..empty_config() };
    let merged = load_app_config(Some(file), None, None, None, &"/h".to_string(), None);
    assert_eq!(merged.apply_date_prefix, Some(true));
    assert!(!merged.is_first_run);
}
