use vstd::prelude::*;

verus! {

use crate::cipher::{field_decryption, decrypt_field};
use crate::entity::EntityType;
use crate::errors::AuthError;
use crate::keystore::EntityKeyStore;
use crate::principal::{PrincipalStore, PrincipalRecord};

/// What a bcrypt check of a candidate password against a stored hash
/// yields: a match verdict, or nothing on a malformed hash. A fixed
/// function of the two strings alone.
pub uninterp spec fn bcrypt_check(password: Seq<char>, hash: Seq<char>) -> Option<bool>;

/// Relies on bcrypt's `verify`: the outcome is exactly what the bcrypt
/// check yields for this password and hash.
#[verifier::external_body]
fn bcrypt_verify(password: &str, hash: &str) -> (r: Option<bool>)
    ensures
        r matches Some(b) ==> bcrypt_check(password@, hash@) == Some(b),
        r is None ==> bcrypt_check(password@, hash@) is None,
{
    bcrypt::verify(password, hash).ok()
}

/// Relies on bcrypt's `hash` with its default cost: whatever salted hash
/// comes back, checking the same password against it succeeds.
#[verifier::external_body]
pub(crate) fn bcrypt_hash(password: &str) -> (r: Option<String>)
    ensures
        r matches Some(h) ==> bcrypt_check(password@, h@) == Some(true),
{
    bcrypt::hash(password, bcrypt::DEFAULT_COST).ok()
}

/// Whether a candidate password is accepted against a stored bcrypt hash.
pub open spec fn spec_password_accepted(password: Seq<char>, hash: Seq<char>) -> bool {
    bcrypt_check(password, hash) == Some(true)
}

/// One-way comparison of a candidate password against a stored bcrypt
/// hash; a malformed hash counts as a mismatch.
pub fn password_matches(password: &str, hash: &str) -> (r: bool)
    ensures
        r == spec_password_accepted(password@, hash@),
{
    match bcrypt_verify(password, hash) {
        Some(b) => b,
        None => false,
    }
}

/// The outcome of checking a login and candidate password against a
/// principal store and the key store, at clock reading `now`: look the
/// principal up by login, refuse disabled principals, fetch its key,
/// decrypt the stored password hash, and run the one-way comparison. An
/// unknown login and a wrong password are deliberately the same error.
pub open spec fn spec_credentials(
    store: PrincipalStore,
    keys: EntityKeyStore,
    entity_type: EntityType,
    login: Seq<char>,
    password: Seq<char>,
    now: u64,
) -> Result<PrincipalRecord, AuthError> {
    match store.spec_by_login(login) {
        Option::None => Err(AuthError::CredentialMismatch),
        Option::Some(rec) => if rec.disabled_since is Some {
            Err(AuthError::PrincipalDisabled)
        } else {
            match keys.key_of(rec.id, entity_type) {
                Option::None => Err(AuthError::EntityKeyNotFound),
                Option::Some(key) => match field_decryption(key, rec.password_enc@, now) {
                    Err(e) => Err(AuthError::DecryptionFailed(e)),
                    Ok(hash) => if spec_password_accepted(password, hash) {
                        Ok(rec)
                    } else {
                        Err(AuthError::CredentialMismatch)
                    },
                },
            }
        },
    }
}

/// Checks a login and candidate password, returning the authenticated
/// principal's record. Exactly the outcome `spec_credentials` describes:
/// `CredentialMismatch` both for an unknown login and for a wrong password
/// (indistinguishable to the caller), `PrincipalDisabled` for a disabled
/// principal, `EntityKeyNotFound` for a principal missing its key (an
/// integrity violation), and the decryption error of a corrupt stored hash.
pub fn verify_credentials<'a>(
    store: &'a PrincipalStore,
    keys: &EntityKeyStore,
    entity_type: EntityType,
    login: &str,
    password: &str,
    now: u64,
) -> (r: Result<&'a PrincipalRecord, AuthError>)
    requires
        now <= u64::MAX - 60,
    ensures
        match r {
            Ok(rec) => spec_credentials(*store, *keys, entity_type, login@, password@, now)
                == Ok::<PrincipalRecord, AuthError>(*rec),
            Err(e) => spec_credentials(*store, *keys, entity_type, login@, password@, now)
                == Err::<PrincipalRecord, AuthError>(e),
        },
{
    let rec = match store.find_by_login(login) {
        None => {
            return Err(AuthError::CredentialMismatch);
        },
        Some(rec) => rec,
    };
    if rec.disabled_since.is_some() {
        return Err(AuthError::PrincipalDisabled);
    }
    let key = match keys.find_key(rec.id, entity_type) {
        None => {
            return Err(AuthError::EntityKeyNotFound);
        },
        Some(key) => key,
    };
    let hash = match decrypt_field(key.as_str(), rec.password_enc.as_str(), now) {
        Err(e) => {
            return Err(AuthError::DecryptionFailed(e));
        },
        Ok(h) => h,
    };
    if password_matches(password, hash.as_str()) {
        Ok(rec)
    } else {
        Err(AuthError::CredentialMismatch)
    }
}

/// Law: a disabled principal can authenticate in no flow that checks
/// credentials — the outcome is `PrincipalDisabled` whatever the password.
pub proof fn lemma_disabled_rejected(
    store: PrincipalStore,
    keys: EntityKeyStore,
    entity_type: EntityType,
    login: Seq<char>,
    password: Seq<char>,
    now: u64,
)
    requires
        store.spec_by_login(login) is Some,
        store.spec_by_login(login).unwrap().disabled_since is Some,
    ensures
        spec_credentials(store, keys, entity_type, login, password, now) == Err::<
            PrincipalRecord,
            AuthError,
        >(AuthError::PrincipalDisabled),
{
}

} // verus!
