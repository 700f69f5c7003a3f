use auth_core::config::{Config, DatabaseClient, DatabaseConfig, PresetField};
use auth_core::errors::{error_class, error_text, AuthError, DecryptionError, ServerErrorType};
use auth_core::numbers::{fmt_u64, parse_u64};
use auth_core::text::split_once;

#[test]
fn decimal_formatting_round_trips() {
    for n in [0u64, 1, 9, 10, 42, 1000, 65535, u64::MAX] {
        let s = fmt_u64(n);
        assert_eq!(s, n.to_string());
        assert_eq!(parse_u64(&s), Some(n));
    }
}

#[test]
fn decimal_parsing_rejects_bad_input() {
    assert_eq!(parse_u64(""), None);
    assert_eq!(parse_u64("-1"), None);
    assert_eq!(parse_u64("12x"), None);
    assert_eq!(parse_u64("1 2"), None);
    // one past u64::MAX
    assert_eq!(parse_u64("18446744073709551616"), None);
    assert_eq!(parse_u64("18446744073709551615"), Some(u64::MAX));
    // leading zeroes are accepted
    assert_eq!(parse_u64("0042"), Some(42));
}

#[test]
fn split_once_splits_at_the_first_separator() {
    assert_eq!(split_once("3-15", '-'), Some(("3", "15")));
    assert_eq!(split_once("a-b-c", '-'), Some(("a", "b-c")));
    assert_eq!(split_once("-x", '-'), Some(("", "x")));
    assert_eq!(split_once("nodash", '-'), None);
    assert_eq!(split_once("", '-'), None);
}

#[test]
fn error_classes_follow_the_taxonomy() {
    assert_eq!(
        error_class(AuthError::TokenExpired),
        Some(ServerErrorType::Unauthorized)
    );
    assert_eq!(
        error_class(AuthError::TokenRevoked),
        Some(ServerErrorType::Unauthorized)
    );
    assert_eq!(
        error_class(AuthError::CredentialMismatch),
        Some(ServerErrorType::Unauthorized)
    );
    assert_eq!(
        error_class(AuthError::PrincipalDisabled),
        Some(ServerErrorType::Unauthorized)
    );
    assert_eq!(
        error_class(AuthError::EntityNotFound),
        Some(ServerErrorType::NotFound)
    );
    assert_eq!(
        error_class(AuthError::EntityKeyNotFound),
        Some(ServerErrorType::NotFound)
    );
    assert_eq!(
        error_class(AuthError::DecryptionFailed(DecryptionError::Encoding)),
        None
    );
    assert_eq!(error_class(AuthError::StoreUnavailable), None);
}

#[test]
fn error_text_leaks_detail_only_in_dev_mode() {
    assert_eq!(error_text("Database Error", "row 7 missing", false), "Database Error");
    assert_eq!(
        error_text("Database Error", "row 7 missing", true),
        "Database Error: row 7 missing"
    );
}

#[test]
fn config_lookup_finds_named_database() {
    let config = Config {
        database_clients: vec![
            DatabaseClient {
                name: "postgres".to_string(),
                config: DatabaseConfig {
                    db_user: "svc".to_string(),
                    db_pass: "pw".to_string(),
                    db_host: "localhost".to_string(),
                    db_port: 5432,
                    db_name: "principals".to_string(),
                },
            },
            DatabaseClient {
                name: "keys".to_string(),
                config: DatabaseConfig {
                    db_user: "svc".to_string(),
                    db_pass: "pw".to_string(),
                    db_host: "localhost".to_string(),
                    db_port: 5433,
                    db_name: "entity_keys".to_string(),
                },
            },
        ],
        server_port: 3000,
        jwt_secret: "secret".to_string(),
        dev_mode: false,
    };
    assert_eq!(config.get_database_config("postgres").db_port, 5432);
    assert_eq!(config.get_database_config("keys").db_name, "entity_keys");
}

#[test]
fn preset_field_keeps_its_parts() {
    let f = PresetField::new("DB_PORT", "5432");
    assert_eq!(f.field, "DB_PORT");
    assert_eq!(f.default, "5432");
}
