use auth_core::account::{
    external_client_login, external_client_register, login, logout, register, validate_token,
};
use auth_core::directory::{delete_user, get_user, get_users, update_user};
use auth_core::entity::EntityType;
use auth_core::errors::AuthError;
use auth_core::keystore::EntityKeyStore;
use auth_core::ledger::RevocationLedger;
use auth_core::models::{
    LoginRequest, PaginatedRequest, UserRegisterRequest, UserUpdate, ValidateRequest,
};
use auth_core::principal::PrincipalStore;

const SECRET: &str = "server-secret";
const NOW: u64 = 1_700_000_000;

fn alice_request() -> UserRegisterRequest {
    UserRegisterRequest {
        name: "Alice Example".to_string(),
        login: "alice".to_string(),
        email: "alice@example.com".to_string(),
        password: "s3cret!".to_string(),
        version_terms: "v1".to_string(),
        role_id: 2,
    }
}

fn login_request(login: &str, password: &str) -> LoginRequest {
    LoginRequest {
        login: login.to_string(),
        password: password.to_string(),
    }
}

#[test]
fn register_login_validate_logout_scenario() {
    let mut users = PrincipalStore::new();
    let mut keys = EntityKeyStore::new();
    let mut ledger = RevocationLedger::new();

    let alice_id = register(&mut users, &mut keys, &alice_request(), NOW).unwrap();

    let resp = login(
        &users,
        &keys,
        &login_request("alice", "s3cret!"),
        vec!["profile:read".to_string()],
        SECRET,
        NOW + 1,
    )
    .unwrap();
    assert_eq!(resp.id, alice_id);
    assert_eq!(resp.permissions, vec!["profile:read".to_string()]);

    let claims = validate_token(
        &ValidateRequest {
            token: resp.token.clone(),
        },
        &ledger,
        SECRET,
        NOW + 2,
    )
    .unwrap();
    let subject = claims.parse_subject().unwrap();
    assert_eq!(subject.entity_type, EntityType::User);
    assert_eq!(subject.id, alice_id.to_string());

    let header = format!("Bearer {}", resp.token);
    logout(&header, SECRET, &mut ledger, NOW + 3).unwrap();

    let r = validate_token(
        &ValidateRequest { token: resp.token },
        &ledger,
        SECRET,
        NOW + 4,
    );
    assert!(matches!(r, Err(AuthError::TokenRevoked)));
}

#[test]
fn wrong_password_and_unknown_login_are_indistinguishable() {
    let mut users = PrincipalStore::new();
    let mut keys = EntityKeyStore::new();
    register(&mut users, &mut keys, &alice_request(), NOW).unwrap();

    let wrong_password = login(
        &users,
        &keys,
        &login_request("alice", "wrong"),
        vec![],
        SECRET,
        NOW + 1,
    )
    .unwrap_err();
    let unknown_login = login(
        &users,
        &keys,
        &login_request("nobody", "s3cret!"),
        vec![],
        SECRET,
        NOW + 1,
    )
    .unwrap_err();
    assert_eq!(wrong_password, AuthError::CredentialMismatch);
    assert_eq!(unknown_login, AuthError::CredentialMismatch);
}

#[test]
fn duplicate_login_is_refused() {
    let mut users = PrincipalStore::new();
    let mut keys = EntityKeyStore::new();
    register(&mut users, &mut keys, &alice_request(), NOW).unwrap();
    let r = register(&mut users, &mut keys, &alice_request(), NOW + 1);
    assert!(matches!(r, Err(AuthError::StoreUnavailable)));
}

#[test]
fn disabled_user_cannot_login() {
    let mut users = PrincipalStore::new();
    let mut keys = EntityKeyStore::new();
    let alice_id = register(&mut users, &mut keys, &alice_request(), NOW).unwrap();

    // the previously issued token stays independently valid
    let ledger = RevocationLedger::new();
    let before = login(
        &users,
        &keys,
        &login_request("alice", "s3cret!"),
        vec![],
        SECRET,
        NOW + 1,
    )
    .unwrap();

    let disable = UserUpdate {
        name: None,
        login: None,
        email: None,
        password: None,
        version_terms: None,
        role_id: None,
        disabled_since: Some(Some(NOW + 2)),
    };
    update_user(&mut users, &keys, alice_id, &disable, NOW + 2).unwrap();

    let r = login(
        &users,
        &keys,
        &login_request("alice", "s3cret!"),
        vec![],
        SECRET,
        NOW + 3,
    );
    assert!(matches!(r, Err(AuthError::PrincipalDisabled)));

    let still_valid = validate_token(
        &ValidateRequest {
            token: before.token,
        },
        &ledger,
        SECRET,
        NOW + 4,
    );
    assert!(still_valid.is_ok());
}

#[test]
fn stored_fields_are_encrypted_and_get_user_decrypts_them() {
    let mut users = PrincipalStore::new();
    let mut keys = EntityKeyStore::new();
    let alice_id = register(&mut users, &mut keys, &alice_request(), NOW).unwrap();

    let raw = users.find_by_login("alice").unwrap();
    assert_eq!(raw.login, "alice");
    assert_ne!(raw.name_enc, "Alice Example");
    assert_ne!(raw.email_enc, "alice@example.com");
    assert_ne!(raw.password_enc, "s3cret!");

    let public = get_user(&users, &keys, alice_id, NOW + 1).unwrap();
    assert_eq!(public.id, alice_id);
    assert_eq!(public.name, "Alice Example");
    assert_eq!(public.login, "alice");
    assert_eq!(public.email, "alice@example.com");
    assert_eq!(public.version_terms, "v1");
    assert_eq!(public.role_id, 2);
    assert_eq!(public.disabled_since, None);
}

#[test]
fn get_unknown_user_is_not_found() {
    let users = PrincipalStore::new();
    let keys = EntityKeyStore::new();
    let r = get_user(&users, &keys, 99, NOW);
    assert!(matches!(r, Err(AuthError::EntityNotFound)));
}

#[test]
fn update_user_changes_email_and_password() {
    let mut users = PrincipalStore::new();
    let mut keys = EntityKeyStore::new();
    let alice_id = register(&mut users, &mut keys, &alice_request(), NOW).unwrap();

    let upd = UserUpdate {
        name: None,
        login: None,
        email: Some("alice@new.example".to_string()),
        password: Some("n3w-pass".to_string()),
        version_terms: None,
        role_id: Some(5),
        disabled_since: None,
    };
    update_user(&mut users, &keys, alice_id, &upd, NOW + 1).unwrap();

    let public = get_user(&users, &keys, alice_id, NOW + 2).unwrap();
    assert_eq!(public.email, "alice@new.example");
    assert_eq!(public.name, "Alice Example");
    assert_eq!(public.role_id, 5);

    let old_pw = login(
        &users,
        &keys,
        &login_request("alice", "s3cret!"),
        vec![],
        SECRET,
        NOW + 3,
    );
    assert!(matches!(old_pw, Err(AuthError::CredentialMismatch)));
    let new_pw = login(
        &users,
        &keys,
        &login_request("alice", "n3w-pass"),
        vec![],
        SECRET,
        NOW + 3,
    );
    assert!(new_pw.is_ok());
}

#[test]
fn delete_user_removes_the_record() {
    let mut users = PrincipalStore::new();
    let mut keys = EntityKeyStore::new();
    let alice_id = register(&mut users, &mut keys, &alice_request(), NOW).unwrap();
    delete_user(&mut users, alice_id).unwrap();
    assert!(matches!(
        get_user(&users, &keys, alice_id, NOW),
        Err(AuthError::EntityNotFound)
    ));
    assert!(matches!(
        delete_user(&mut users, alice_id),
        Err(AuthError::EntityNotFound)
    ));
}

#[test]
fn user_listing_paginates() {
    let mut users = PrincipalStore::new();
    let mut keys = EntityKeyStore::new();
    for (login, name) in [("a", "Ann"), ("b", "Ben"), ("c", "Cyd")] {
        let req = UserRegisterRequest {
            name: name.to_string(),
            login: login.to_string(),
            email: format!("{}@example.com", login),
            password: "pw".to_string(),
            version_terms: "v1".to_string(),
            role_id: 1,
        };
        register(&mut users, &mut keys, &req, NOW).unwrap();
    }
    let page1 = get_users(
        &users,
        &keys,
        &PaginatedRequest {
            page: Some(1),
            size: Some(2),
        },
        NOW + 1,
    )
    .unwrap();
    assert_eq!(page1.items.len(), 2);
    assert_eq!(page1.total, 2);
    assert_eq!(page1.total_pages, 2);
    assert_eq!(page1.items[0].name, "Ann");
    assert_eq!(page1.items[1].name, "Ben");

    let page2 = get_users(
        &users,
        &keys,
        &PaginatedRequest {
            page: Some(2),
            size: Some(2),
        },
        NOW + 1,
    )
    .unwrap();
    assert_eq!(page2.items.len(), 1);
    assert_eq!(page2.items[0].name, "Cyd");

    let page3 = get_users(
        &users,
        &keys,
        &PaginatedRequest {
            page: Some(3),
            size: Some(2),
        },
        NOW + 1,
    )
    .unwrap();
    assert!(page3.items.is_empty());
}

#[test]
fn external_client_register_and_login() {
    let mut clients = PrincipalStore::new();
    let mut keys = EntityKeyStore::new();
    let ledger = RevocationLedger::new();
    let req = auth_core::models::ExternalClientRegisterRequest {
        name: "Acme Corp".to_string(),
        login: "acme".to_string(),
        password: "client-pw".to_string(),
    };
    let acme_id = external_client_register(&mut clients, &mut keys, &req, NOW).unwrap();

    let resp = external_client_login(
        &clients,
        &keys,
        &login_request("acme", "client-pw"),
        SECRET,
        NOW + 1,
    )
    .unwrap();
    let claims = validate_token(
        &ValidateRequest { token: resp.token },
        &ledger,
        SECRET,
        NOW + 2,
    )
    .unwrap();
    let subject = claims.parse_subject().unwrap();
    assert_eq!(subject.entity_type, EntityType::ExternalClient);
    assert_eq!(subject.id, acme_id.to_string());

    let bad = external_client_login(
        &clients,
        &keys,
        &login_request("acme", "nope"),
        SECRET,
        NOW + 1,
    );
    assert!(matches!(bad, Err(AuthError::CredentialMismatch)));
}
