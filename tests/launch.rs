use moneywright_desktop::launch::{data_dir_notice, database_notice, migrations_kind, sidecar_env};
use moneywright_desktop::updater::{release_notes, UpdateState};
use moneywright_desktop::{get_server_url, SERVER_PORT};

fn pair(a: &str, b: &str) -> (String, String) {
    (a.to_string(), b.to_string())
}

#[test]
fn server_url_names_the_port() {
    assert_eq!(SERVER_PORT, 17777);
    assert_eq!(get_server_url(), "http://localhost:17777");
}

#[test]
fn sqlite_environment() {
    assert_eq!(
        sidecar_env(17777, "/data", None, None, None),
        vec![pair("PORT", "17777"), pair("DATA_DIR", "/data")]
    );
}

#[test]
fn full_environment() {
    assert_eq!(
        sidecar_env(17777, "/data", Some("pg://x"), Some("/res/drizzle/pg"), Some("/res/public")),
        vec![
            pair("PORT", "17777"),
            pair("DATA_DIR", "/data"),
            pair("DATABASE_URL", "pg://x"),
            pair("MIGRATIONS_PATH", "/res/drizzle/pg"),
            pair("PUBLIC_DIR", "/res/public"),
        ]
    );
}

#[test]
fn environment_without_database_keeps_order() {
    assert_eq!(
        sidecar_env(80, "d", None, Some("m"), Some("p")),
        vec![pair("PORT", "80"), pair("DATA_DIR", "d"), pair("MIGRATIONS_PATH", "m"), pair("PUBLIC_DIR", "p")]
    );
}

#[test]
fn database_choice_notices() {
    assert_eq!(migrations_kind(true), "pg");
    assert_eq!(migrations_kind(false), "sqlite");
    assert_eq!(database_notice(true), "Using PostgreSQL database");
    assert_eq!(database_notice(false), "Using SQLite database");
    assert_eq!(data_dir_notice("/home/u/.moneywright"), "Data directory: /home/u/.moneywright");
}

#[test]
fn update_state_starts_empty() {
    assert!(UpdateState::new().ready.is_none());
}

#[test]
fn release_notes_default() {
    assert_eq!(release_notes(None), "Bug fixes and improvements");
    assert_eq!(release_notes(Some("Fixes")), "Fixes");
}
