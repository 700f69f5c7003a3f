use auth_core::account::{external_client_login, external_client_register, register};
use auth_core::entity::EntityType;
use auth_core::errors::AuthError;
use auth_core::keystore::EntityKeyStore;
use auth_core::ledger::RevocationLedger;
use auth_core::models::{ExternalClientRegisterRequest, LoginRequest, UserRegisterRequest};
use auth_core::portability::{authorize, portability, screen};
use auth_core::principal::PrincipalStore;
use auth_core::token::{create_jwt, decode_claims, revoke_token};

const SECRET: &str = "server-secret";
const NOW: u64 = 1_700_000_000;

struct World {
    users: PrincipalStore,
    clients: PrincipalStore,
    keys: EntityKeyStore,
    ledger: RevocationLedger,
    alice_id: u64,
    acme_id: u64,
    acme_token: String,
}

fn setup() -> World {
    let mut users = PrincipalStore::new();
    let mut clients = PrincipalStore::new();
    let mut keys = EntityKeyStore::new();
    let ledger = RevocationLedger::new();

    let alice = UserRegisterRequest {
        name: "Alice Example".to_string(),
        login: "alice".to_string(),
        email: "alice@example.com".to_string(),
        password: "s3cret!".to_string(),
        version_terms: "v1".to_string(),
        role_id: 1,
    };
    let alice_id = register(&mut users, &mut keys, &alice, NOW).unwrap();

    let acme = ExternalClientRegisterRequest {
        name: "Acme Corp".to_string(),
        login: "acme".to_string(),
        password: "client-pw".to_string(),
    };
    let acme_id = external_client_register(&mut clients, &mut keys, &acme, NOW).unwrap();

    let resp = external_client_login(
        &clients,
        &keys,
        &LoginRequest {
            login: "acme".to_string(),
            password: "client-pw".to_string(),
        },
        SECRET,
        NOW + 1,
    )
    .unwrap();

    World {
        users,
        clients,
        keys,
        ledger,
        alice_id,
        acme_id,
        acme_token: resp.token,
    }
}

fn alice_credentials() -> LoginRequest {
    LoginRequest {
        login: "alice".to_string(),
        password: "s3cret!".to_string(),
    }
}

#[test]
fn authorize_then_release_scenario() {
    let w = setup();
    let session = authorize(
        &w.clients,
        &w.users,
        &w.keys,
        &w.ledger,
        &w.acme_token,
        &alice_credentials(),
        SECRET,
        NOW + 2,
    )
    .unwrap();

    // the session token's subject binds (acme_id, alice_id), split on `-`
    let claims = decode_claims(&session.token, SECRET).unwrap();
    let subject = claims.parse_subject().unwrap();
    assert_eq!(subject.entity_type, EntityType::AuthorizedClient);
    let (client_part, user_part) = subject.id.split_once('-').unwrap();
    assert_eq!(client_part, w.acme_id.to_string());
    assert_eq!(user_part, w.alice_id.to_string());

    let released = portability(
        &w.clients,
        &w.users,
        &w.keys,
        &w.ledger,
        &session.token,
        SECRET,
        NOW + 3,
    )
    .unwrap();
    assert_eq!(released.name, "Alice Example");
    assert_eq!(released.login, "alice");
    assert_eq!(released.email, "alice@example.com");

    // the session token is not single-use
    assert!(portability(
        &w.clients,
        &w.users,
        &w.keys,
        &w.ledger,
        &session.token,
        SECRET,
        NOW + 4,
    )
    .is_ok());
}

#[test]
fn release_rejects_user_and_client_tokens() {
    let w = setup();
    let user_token = create_jwt(&w.alice_id.to_string(), EntityType::User, SECRET, NOW + 2);
    let r = portability(
        &w.clients,
        &w.users,
        &w.keys,
        &w.ledger,
        &user_token,
        SECRET,
        NOW + 3,
    );
    assert!(matches!(r, Err(AuthError::EntityTypeMismatch)));

    let r2 = portability(
        &w.clients,
        &w.users,
        &w.keys,
        &w.ledger,
        &w.acme_token,
        SECRET,
        NOW + 3,
    );
    assert!(matches!(r2, Err(AuthError::EntityTypeMismatch)));
}

#[test]
fn authorize_rejects_wrong_user_password() {
    let w = setup();
    let r = authorize(
        &w.clients,
        &w.users,
        &w.keys,
        &w.ledger,
        &w.acme_token,
        &LoginRequest {
            login: "alice".to_string(),
            password: "wrong".to_string(),
        },
        SECRET,
        NOW + 2,
    );
    assert!(matches!(r, Err(AuthError::CredentialMismatch)));
}

#[test]
fn authorize_rejects_empty_credentials() {
    let w = setup();
    let r = authorize(
        &w.clients,
        &w.users,
        &w.keys,
        &w.ledger,
        &w.acme_token,
        &LoginRequest {
            login: "".to_string(),
            password: "".to_string(),
        },
        SECRET,
        NOW + 2,
    );
    assert!(matches!(r, Err(AuthError::CredentialMismatch)));
}

#[test]
fn authorize_rejects_user_token_as_client_token() {
    let w = setup();
    let user_token = create_jwt(&w.alice_id.to_string(), EntityType::User, SECRET, NOW + 2);
    let r = authorize(
        &w.clients,
        &w.users,
        &w.keys,
        &w.ledger,
        &user_token,
        &alice_credentials(),
        SECRET,
        NOW + 3,
    );
    assert!(matches!(r, Err(AuthError::EntityTypeMismatch)));
}

#[test]
fn disabled_user_blocks_authorize_and_release() {
    let mut w = setup();
    let session = authorize(
        &w.clients,
        &w.users,
        &w.keys,
        &w.ledger,
        &w.acme_token,
        &alice_credentials(),
        SECRET,
        NOW + 2,
    )
    .unwrap();

    let disable = auth_core::models::UserUpdate {
        name: None,
        login: None,
        email: None,
        password: None,
        version_terms: None,
        role_id: None,
        disabled_since: Some(Some(NOW + 3)),
    };
    auth_core::directory::update_user(&mut w.users, &w.keys, w.alice_id, &disable, NOW + 3)
        .unwrap();

    let r = authorize(
        &w.clients,
        &w.users,
        &w.keys,
        &w.ledger,
        &w.acme_token,
        &alice_credentials(),
        SECRET,
        NOW + 4,
    );
    assert!(matches!(r, Err(AuthError::PrincipalDisabled)));

    let r2 = portability(
        &w.clients,
        &w.users,
        &w.keys,
        &w.ledger,
        &session.token,
        SECRET,
        NOW + 4,
    );
    assert!(matches!(r2, Err(AuthError::PrincipalDisabled)));
}

#[test]
fn disabled_client_blocks_the_protocol() {
    let mut w = setup();
    let disable = auth_core::models::ExternalClientUpdate {
        name: None,
        login: None,
        password: None,
        disabled_since: Some(Some(NOW + 2)),
    };
    auth_core::directory::update_external_client(
        &mut w.clients,
        &w.keys,
        w.acme_id,
        &disable,
        NOW + 2,
    )
    .unwrap();

    let r = authorize(
        &w.clients,
        &w.users,
        &w.keys,
        &w.ledger,
        &w.acme_token,
        &alice_credentials(),
        SECRET,
        NOW + 3,
    );
    assert!(matches!(r, Err(AuthError::PrincipalDisabled)));

    let r2 = screen(
        &w.clients,
        &w.keys,
        &w.ledger,
        &w.acme_token,
        SECRET,
        NOW + 3,
    );
    assert!(matches!(r2, Err(AuthError::PrincipalDisabled)));
}

#[test]
fn screen_shows_the_client_name() {
    let w = setup();
    let name = screen(
        &w.clients,
        &w.keys,
        &w.ledger,
        &w.acme_token,
        SECRET,
        NOW + 2,
    )
    .unwrap();
    assert_eq!(name, "Acme Corp");
}

#[test]
fn revoked_session_token_cannot_release() {
    let mut w = setup();
    let session = authorize(
        &w.clients,
        &w.users,
        &w.keys,
        &w.ledger,
        &w.acme_token,
        &alice_credentials(),
        SECRET,
        NOW + 2,
    )
    .unwrap();
    revoke_token(&session.token, SECRET, &mut w.ledger, NOW + 3).unwrap();
    let r = portability(
        &w.clients,
        &w.users,
        &w.keys,
        &w.ledger,
        &session.token,
        SECRET,
        NOW + 4,
    );
    assert!(matches!(r, Err(AuthError::TokenRevoked)));
}
