use std::path::PathBuf;

use saga::config::choose_db_path;

#[test]
fn env_override_wins() {
    let chosen = choose_db_path(
        Some("/tmp/custom.db".to_string()),
        Some("/configured/saga.db".to_string()),
        "/default/saga.db".to_string(),
    );
    assert_eq!(PathBuf::from(chosen), PathBuf::from("/tmp/custom.db"));
}

#[test]
fn configured_used_when_no_env() {
    let chosen = choose_db_path(
        None,
        Some("/configured/saga.db".to_string()),
        "/default/saga.db".to_string(),
    );
    assert_eq!(PathBuf::from(chosen), PathBuf::from("/configured/saga.db"));
}

#[test]
fn default_used_when_nothing_set() {
    let chosen = choose_db_path(None, None, "/default/saga.db".to_string());
    assert_eq!(PathBuf::from(chosen), PathBuf::from("/default/saga.db"));
}

#[test]
fn env_override_wins_without_configuration() {
    let chosen = choose_db_path(Some("/env.db".to_string()), None, "/default.db".to_string());
    assert_eq!(chosen, "/env.db");
}
