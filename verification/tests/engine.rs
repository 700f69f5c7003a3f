use auth_core::entity::EntityType;
use auth_core::errors::AuthError;
use auth_core::ledger::RevocationLedger;
use auth_core::token::{
    create_jwt, decode_claims, encode_subject, extract_bearer, revoke_token, validate_entity_type,
    verify_jwt, Claims,
};
use base64::Engine;

const SECRET: &str = "test-secret";
const NOW: u64 = 1_700_000_000;

#[test]
fn issue_then_verify_round_trip() {
    let ledger = RevocationLedger::new();
    let token = create_jwt("42", EntityType::User, SECRET, NOW);
    let (claims, subject) = verify_jwt(&token, SECRET, &ledger, NOW + 10).unwrap();
    assert_eq!(subject.entity_type, EntityType::User);
    assert_eq!(subject.id, "42");
    assert_eq!(claims.iat, NOW);
    assert_eq!(claims.exp, NOW + 86400);
    assert!(!claims.jti.is_empty());
}

#[test]
fn verify_immediately_after_issue() {
    let ledger = RevocationLedger::new();
    let token = create_jwt("7", EntityType::ExternalClient, SECRET, NOW);
    let (_, subject) = verify_jwt(&token, SECRET, &ledger, NOW).unwrap();
    assert_eq!(subject.entity_type, EntityType::ExternalClient);
    assert_eq!(subject.id, "7");
}

#[test]
fn token_rejected_at_exact_expiry() {
    let ledger = RevocationLedger::new();
    let token = create_jwt("42", EntityType::User, SECRET, NOW);
    let r = verify_jwt(&token, SECRET, &ledger, NOW + 86400);
    assert!(matches!(r, Err(AuthError::TokenExpired)));
}

#[test]
fn token_accepted_one_second_before_expiry() {
    let ledger = RevocationLedger::new();
    let token = create_jwt("42", EntityType::User, SECRET, NOW);
    assert!(verify_jwt(&token, SECRET, &ledger, NOW + 86399).is_ok());
}

#[test]
fn revoked_token_fails_verification() {
    let mut ledger = RevocationLedger::new();
    let token = create_jwt("42", EntityType::User, SECRET, NOW);
    assert!(verify_jwt(&token, SECRET, &ledger, NOW + 5).is_ok());
    revoke_token(&token, SECRET, &mut ledger, NOW + 6).unwrap();
    let r = verify_jwt(&token, SECRET, &ledger, NOW + 7);
    assert!(matches!(r, Err(AuthError::TokenRevoked)));
}

#[test]
fn expired_token_is_still_revocable() {
    let mut ledger = RevocationLedger::new();
    let token = create_jwt("42", EntityType::User, SECRET, NOW);
    let far_future = NOW + 2 * 86400;
    assert!(matches!(
        verify_jwt(&token, SECRET, &ledger, far_future),
        Err(AuthError::TokenExpired)
    ));
    assert!(revoke_token(&token, SECRET, &mut ledger, far_future).is_ok());
    // revocation is idempotent in effect
    assert!(revoke_token(&token, SECRET, &mut ledger, far_future).is_ok());
}

#[test]
fn garbage_token_is_malformed() {
    let ledger = RevocationLedger::new();
    let r = verify_jwt("not-a-token", SECRET, &ledger, NOW);
    assert!(matches!(r, Err(AuthError::TokenMalformed)));
}

#[test]
fn wrong_secret_is_malformed() {
    let ledger = RevocationLedger::new();
    let token = create_jwt("42", EntityType::User, SECRET, NOW);
    let r = verify_jwt(&token, "other-secret", &ledger, NOW + 1);
    assert!(matches!(r, Err(AuthError::TokenMalformed)));
}

#[test]
fn tampered_token_is_malformed() {
    let ledger = RevocationLedger::new();
    let token = create_jwt("42", EntityType::User, SECRET, NOW);
    let mut tampered = token.clone();
    tampered.pop();
    tampered.push('A');
    let r = verify_jwt(&tampered, SECRET, &ledger, NOW + 1);
    assert!(matches!(r, Err(AuthError::TokenMalformed)));
}

#[test]
fn subject_encoding_round_trips() {
    let sub = encode_subject(EntityType::AuthorizedClient, "3-15");
    let claims = Claims {
        sub,
        exp: NOW + 86400,
        iat: NOW,
        jti: "x".to_string(),
    };
    let subject = claims.parse_subject().unwrap();
    assert_eq!(subject.entity_type, EntityType::AuthorizedClient);
    assert_eq!(subject.id, "3-15");
}

#[test]
fn subject_with_unknown_tag_is_rejected() {
    let sub = base64::engine::general_purpose::STANDARD.encode("banana:1".as_bytes());
    let claims = Claims {
        sub,
        exp: NOW + 86400,
        iat: NOW,
        jti: "x".to_string(),
    };
    assert!(matches!(
        claims.parse_subject(),
        Err(AuthError::UnknownEntityType)
    ));
}

#[test]
fn subject_without_separator_is_rejected() {
    let sub = base64::engine::general_purpose::STANDARD.encode("user42".as_bytes());
    let claims = Claims {
        sub,
        exp: NOW + 86400,
        iat: NOW,
        jti: "x".to_string(),
    };
    assert!(matches!(
        claims.parse_subject(),
        Err(AuthError::InvalidSubjectEncoding)
    ));
}

#[test]
fn subject_that_is_not_base64_is_rejected() {
    let claims = Claims {
        sub: "###".to_string(),
        exp: NOW + 86400,
        iat: NOW,
        jti: "x".to_string(),
    };
    assert!(matches!(
        claims.parse_subject(),
        Err(AuthError::InvalidSubjectEncoding)
    ));
}

#[test]
fn entity_type_tags_round_trip() {
    for et in [
        EntityType::User,
        EntityType::ExternalClient,
        EntityType::AuthorizedClient,
    ] {
        assert_eq!(EntityType::from_str(et.as_str()), Some(et));
    }
    assert_eq!(EntityType::User.as_str(), "user");
    assert_eq!(EntityType::ExternalClient.as_str(), "external_client");
    assert_eq!(EntityType::AuthorizedClient.as_str(), "authorized_client");
    assert_eq!(EntityType::from_str("banana"), None);
    assert_eq!(EntityType::from_str(""), None);
}

#[test]
fn validate_entity_type_rejects_mismatch() {
    let token = create_jwt("42", EntityType::User, SECRET, NOW);
    let claims = decode_claims(&token, SECRET).unwrap();
    assert!(validate_entity_type(&claims, EntityType::User).is_ok());
    assert!(matches!(
        validate_entity_type(&claims, EntityType::ExternalClient),
        Err(AuthError::EntityTypeMismatch)
    ));
    assert!(matches!(
        validate_entity_type(&claims, EntityType::AuthorizedClient),
        Err(AuthError::EntityTypeMismatch)
    ));
}

#[test]
fn bearer_extraction() {
    assert_eq!(extract_bearer("Bearer abc.def.ghi"), Some("abc.def.ghi"));
    assert_eq!(extract_bearer("Bearer "), Some(""));
    assert_eq!(extract_bearer("Token abc"), None);
    assert_eq!(extract_bearer("bearer abc"), None);
    assert_eq!(extract_bearer(""), None);
}
