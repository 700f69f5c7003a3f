use vstd::prelude::*;

verus! {

use crate::cipher::{field_decryption, encrypt_field, decrypt_field, fernet_generate_key};
use crate::credential::{spec_credentials, spec_password_accepted, verify_credentials, bcrypt_hash};
use crate::entity::EntityType;
use crate::errors::{AuthError, DecryptionError};
use crate::keystore::EntityKeyStore;
use crate::ledger::RevocationLedger;
use crate::models::{
    UserRegisterRequest,
    ExternalClientRegisterRequest,
    LoginRequest,
    UserLoginResponse,
    ExternalClientLoginResponse,
    ValidateRequest,
    UserPublic,
    ExternalClientPublic,
};
use crate::numbers::{dec_str, fmt_u64};
use crate::principal::{PrincipalStore, PrincipalRecord};
use crate::token::{
    Claims,
    spec_issued,
    spec_verify,
    spec_bearer,
    jwt_parse,
    spec_parse_subject,
    create_jwt,
    verify_jwt,
    revoke_token,
    extract_bearer,
};

/// An encrypted field that decrypts back to `plain` under `key` at every
/// clock reading the cipher admits, from `now` on — what the field cipher
/// guarantees of everything it seals.
pub open spec fn spec_sealed(key: Seq<char>, enc: Seq<char>, plain: Seq<char>, now: u64) -> bool {
    forall|t: u64|
        now <= t <= u64::MAX - 60 ==> field_decryption(key, enc, t) == Ok::<
            Seq<char>,
            DecryptionError,
        >(plain)
}

/// An encrypted password field: it decrypts to some bcrypt hash that
/// accepts exactly this password.
pub open spec fn spec_sealed_password(
    key: Seq<char>,
    enc: Seq<char>,
    password: Seq<char>,
    now: u64,
) -> bool {
    forall|t: u64|
        now <= t <= u64::MAX - 60 ==> match #[trigger] field_decryption(key, enc, t) {
            Ok(h) => spec_password_accepted(password, h),
            Err(_) => false,
        }
}

/// A principal registered at time `now` from these plaintext fields: its
/// record is stored under the login, enabled, and its identifying fields
/// and password hash are sealed under the principal's own key.
pub open spec fn spec_registered(
    store: PrincipalStore,
    keys: EntityKeyStore,
    entity_type: EntityType,
    id: u64,
    name: Seq<char>,
    login: Seq<char>,
    email: Seq<char>,
    version_terms: Seq<char>,
    password: Seq<char>,
    role_id: u64,
    now: u64,
) -> bool {
    match store.spec_by_id(id) {
        Option::None => false,
        Option::Some(rec) => {
            &&& rec.id == id
            &&& rec.login@ == login
            &&& rec.role_id == role_id
            &&& rec.created_at == now
            &&& rec.disabled_since is None
            &&& match keys.key_of(id, entity_type) {
                Option::None => false,
                Option::Some(key) => {
                    &&& spec_sealed(key, rec.name_enc@, name, now)
                    &&& spec_sealed(key, rec.email_enc@, email, now)
                    &&& spec_sealed(key, rec.version_terms_enc@, version_terms, now)
                    &&& spec_sealed_password(key, rec.password_enc@, password, now)
                },
            }
        },
    }
}

/// No principal absent from the store has a key of the given type: the
/// invariant that keeps registration from colliding with an orphaned key.
pub open spec fn spec_no_orphan_keys(
    store: PrincipalStore,
    keys: EntityKeyStore,
    entity_type: EntityType,
) -> bool {
    forall|id: u64|
        store.spec_by_id(id) is None ==> #[trigger] keys.key_of(id, entity_type) is None
}

/// A token freshly issued at `now` for the principal with this id: it
/// decodes under the secret to this entity and expires 24 hours later,
/// under some token identifier.
pub open spec fn spec_fresh_token(
    token: Seq<char>,
    secret: Seq<char>,
    entity_type: EntityType,
    id: u64,
    now: u64,
) -> bool {
    exists|jti: Seq<char>|
        #[trigger] spec_issued(token, secret, entity_type, dec_str(id as nat), now, jti)
}

/// Registers a principal: bcrypt-hash the password, generate the
/// principal's own encryption key, seal every identifying field and the
/// hash under it, store the record under its plaintext login, and store the
/// key — the pair that must not leave an orphan. Fails only when hashing
/// fails, the login is taken, or the id space is exhausted; on failure
/// neither store changes.
fn register_principal(
    store: &mut PrincipalStore,
    keys: &mut EntityKeyStore,
    entity_type: EntityType,
    name: &str,
    login: &str,
    email: &str,
    version_terms: &str,
    password: &str,
    role_id: u64,
    now: u64,
) -> (r: Result<u64, AuthError>)
    requires
        old(store).wf(),
        old(keys).wf(),
        entity_type != EntityType::AuthorizedClient,
        spec_no_orphan_keys(*old(store), *old(keys), entity_type),
    ensures
        final(store).wf(),
        final(keys).wf(),
        spec_no_orphan_keys(*final(store), *final(keys), entity_type),
        match r {
            Ok(id) => {
                &&& old(store).spec_by_login(login@) is None
                &&& spec_registered(
                    *final(store),
                    *final(keys),
                    entity_type,
                    id,
                    name@,
                    login@,
                    email@,
                    version_terms@,
                    password@,
                    role_id,
                    now,
                )
                &&& forall|l: Seq<char>|
                    l != login@ ==> #[trigger] final(store).spec_by_login(l) == old(store).spec_by_login(l)
                &&& forall|i2: u64|
                    i2 != id ==> #[trigger] final(store).spec_by_id(i2) == old(store).spec_by_id(i2)
                &&& forall|i2: u64, et2: EntityType|
                    !(i2 == id && et2 == entity_type) ==> #[trigger] final(keys).key_of(i2, et2)
                        == old(keys).key_of(i2, et2)
            },
            Err(e) => {
                &&& *final(store) == *old(store)
                &&& *final(keys) == *old(keys)
                &&& (e == AuthError::HashingFailed || (e == AuthError::StoreUnavailable && (old(store).spec_by_login(login@) is Some || !old(store).spec_can_assign())))
            },
        },
{
    let hashed = match bcrypt_hash(password) {
        Option::None => {
            return Err(AuthError::HashingFailed);
        },
        Option::Some(h) => h,
    };
    let key = fernet_generate_key();
    let name_enc = match encrypt_field(key.as_str(), name, now) {
        Option::Some(v) => v,
        Option::None => {
            // dead: the freshly generated key is valid, so sealing succeeds
            proof {
                assert(false);
            }
            return Err(AuthError::HashingFailed);
        },
    };
    let email_enc = match encrypt_field(key.as_str(), email, now) {
        Option::Some(v) => v,
        Option::None => {
            // dead: the freshly generated key is valid, so sealing succeeds
            proof {
                assert(false);
            }
            return Err(AuthError::HashingFailed);
        },
    };
    let version_terms_enc = match encrypt_field(key.as_str(), version_terms, now) {
        Option::Some(v) => v,
        Option::None => {
            // dead: the freshly generated key is valid, so sealing succeeds
            proof {
                assert(false);
            }
            return Err(AuthError::HashingFailed);
        },
    };
    let password_enc = match encrypt_field(key.as_str(), hashed.as_str(), now) {
        Option::Some(v) => v,
        Option::None => {
            // dead: the freshly generated key is valid, so sealing succeeds
            proof {
                assert(false);
            }
            return Err(AuthError::HashingFailed);
        },
    };
    let rec = PrincipalRecord {
        id: 0,
        login: login.to_owned(),
        name_enc,
        email_enc,
        password_enc,
        version_terms_enc,
        role_id,
        created_at: now,
        disabled_since: None,
    };
    let id = match store.insert(rec) {
        Err(e) => {
            return Err(e);
        },
        Ok(id) => id,
    };
    match keys.insert_key(id, entity_type, key.as_str()) {
        Err(_) => {
            // dead: the fresh id had no record, so (by the no-orphan-keys
            // invariant) it had no key either, and the type is persisted
            proof {
                assert(false);
            }
            Err(AuthError::StoreUnavailable)
        },
        Ok(_) => {
            proof {
                assert(final(store).spec_by_id(id).unwrap().password_enc@ == password_enc@);
                assert forall|i2: u64|
                    final(store).spec_by_id(i2) is None implies #[trigger] final(keys).key_of(
                    i2,
                    entity_type,
                ) is None by {
                    assert(i2 != id);
                    assert(old(store).spec_by_id(i2) is None);
                }
            }
            Ok(id)
        },
    }
}

/// Registers a user from the request's fields at time `now`.
pub fn register(
    users: &mut PrincipalStore,
    keys: &mut EntityKeyStore,
    data: &UserRegisterRequest,
    now: u64,
) -> (r: Result<u64, AuthError>)
    requires
        old(users).wf(),
        old(keys).wf(),
        spec_no_orphan_keys(*old(users), *old(keys), EntityType::User),
    ensures
        final(users).wf(),
        final(keys).wf(),
        spec_no_orphan_keys(*final(users), *final(keys), EntityType::User),
        match r {
            Ok(id) => {
                &&& old(users).spec_by_login(data.login@) is None
                &&& spec_registered(
                    *final(users),
                    *final(keys),
                    EntityType::User,
                    id,
                    data.name@,
                    data.login@,
                    data.email@,
                    data.version_terms@,
                    data.password@,
                    data.role_id,
                    now,
                )
                &&& forall|l: Seq<char>|
                    l != data.login@ ==> #[trigger] final(users).spec_by_login(l) == old(users).spec_by_login(l)
            },
            Err(e) => {
                &&& *final(users) == *old(users)
                &&& *final(keys) == *old(keys)
                &&& (e == AuthError::HashingFailed || (e == AuthError::StoreUnavailable && (old(users).spec_by_login(data.login@) is Some || !old(users).spec_can_assign())))
            },
        },
{
    register_principal(
        users,
        keys,
        EntityType::User,
        data.name.as_str(),
        data.login.as_str(),
        data.email.as_str(),
        data.version_terms.as_str(),
        data.password.as_str(),
        data.role_id,
        now,
    )
}

/// Registers an external client from the request's fields at time `now`.
/// Clients have no email, terms-version or role; those fields stay empty.
pub fn external_client_register(
    clients: &mut PrincipalStore,
    keys: &mut EntityKeyStore,
    data: &ExternalClientRegisterRequest,
    now: u64,
) -> (r: Result<u64, AuthError>)
    requires
        old(clients).wf(),
        old(keys).wf(),
        spec_no_orphan_keys(*old(clients), *old(keys), EntityType::ExternalClient),
    ensures
        final(clients).wf(),
        final(keys).wf(),
        spec_no_orphan_keys(*final(clients), *final(keys), EntityType::ExternalClient),
        match r {
            Ok(id) => {
                &&& old(clients).spec_by_login(data.login@) is None
                &&& spec_registered(
                    *final(clients),
                    *final(keys),
                    EntityType::ExternalClient,
                    id,
                    data.name@,
                    data.login@,
                    ""@,
                    ""@,
                    data.password@,
                    0,
                    now,
                )
                &&& forall|l: Seq<char>|
                    l != data.login@ ==> #[trigger] final(clients).spec_by_login(l) == old(clients).spec_by_login(l)
            },
            Err(e) => {
                &&& *final(clients) == *old(clients)
                &&& *final(keys) == *old(keys)
                &&& (e == AuthError::HashingFailed || (e == AuthError::StoreUnavailable && (old(clients).spec_by_login(data.login@) is Some || !old(clients).spec_can_assign())))
            },
        },
{
    register_principal(
        clients,
        keys,
        EntityType::ExternalClient,
        data.name.as_str(),
        data.login.as_str(),
        "",
        "",
        data.password.as_str(),
        0,
        now,
    )
}

/// Checks credentials against the store and, on success, issues a bearer
/// token for the authenticated principal, its subject carrying the decimal
/// id.
pub fn login_principal(
    store: &PrincipalStore,
    keys: &EntityKeyStore,
    entity_type: EntityType,
    data: &LoginRequest,
    jwt_secret: &str,
    now: u64,
) -> (r: Result<(u64, String), AuthError>)
    requires
        now + 86400 <= u64::MAX,
    ensures
        match r {
            Ok(pair) => {
                &&& spec_credentials(*store, *keys, entity_type, data.login@, data.password@, now)
                    matches Ok(rec) && pair.0 == rec.id
                &&& spec_fresh_token(pair.1@, jwt_secret@, entity_type, pair.0, now)
            },
            Err(e) => spec_credentials(*store, *keys, entity_type, data.login@, data.password@, now)
                == Err::<PrincipalRecord, AuthError>(e),
        },
{
    let rec = match verify_credentials(
        store,
        keys,
        entity_type,
        data.login.as_str(),
        data.password.as_str(),
        now,
    ) {
        Err(e) => {
            return Err(e);
        },
        Ok(rec) => rec,
    };
    let id = rec.id;
    let id_str = fmt_u64(id);
    let token = create_jwt(id_str.as_str(), entity_type, jwt_secret, now);
    proof {
        let jti0 = choose|jti: Seq<char>|
            #[trigger] spec_issued(token@, jwt_secret@, entity_type, id_str@, now, jti);
        assert(spec_issued(token@, jwt_secret@, entity_type, dec_str(id as nat), now, jti0));
        assert(spec_fresh_token(token@, jwt_secret@, entity_type, id, now));
    }
    Ok((id, token))
}

/// Logs a user in: on matching credentials the response holds a fresh
/// `User` token, the user's id, and the permissions the caller looked up.
pub fn login(
    users: &PrincipalStore,
    keys: &EntityKeyStore,
    data: &LoginRequest,
    permissions: Vec<String>,
    jwt_secret: &str,
    now: u64,
) -> (r: Result<UserLoginResponse, AuthError>)
    requires
        now + 86400 <= u64::MAX,
    ensures
        match r {
            Ok(resp) => {
                &&& spec_credentials(
                    *users,
                    *keys,
                    EntityType::User,
                    data.login@,
                    data.password@,
                    now,
                ) matches Ok(rec) && resp.id == rec.id
                &&& resp.permissions == permissions
                &&& spec_fresh_token(resp.token@, jwt_secret@, EntityType::User, resp.id, now)
            },
            Err(e) => spec_credentials(
                *users,
                *keys,
                EntityType::User,
                data.login@,
                data.password@,
                now,
            ) == Err::<PrincipalRecord, AuthError>(e),
        },
{
    match login_principal(users, keys, EntityType::User, data, jwt_secret, now) {
        Err(e) => Err(e),
        Ok(pair) => {
            let id = pair.0;
            let token = pair.1;
            Ok(UserLoginResponse { token, id, permissions })
        },
    }
}

/// Logs an external client in: on matching credentials the response holds
/// a fresh `ExternalClient` token.
pub fn external_client_login(
    clients: &PrincipalStore,
    keys: &EntityKeyStore,
    data: &LoginRequest,
    jwt_secret: &str,
    now: u64,
) -> (r: Result<ExternalClientLoginResponse, AuthError>)
    requires
        now + 86400 <= u64::MAX,
    ensures
        match r {
            Ok(resp) => spec_credentials(
                *clients,
                *keys,
                EntityType::ExternalClient,
                data.login@,
                data.password@,
                now,
            ) matches Ok(rec) && spec_fresh_token(
                resp.token@,
                jwt_secret@,
                EntityType::ExternalClient,
                rec.id,
                now,
            ),
            Err(e) => spec_credentials(
                *clients,
                *keys,
                EntityType::ExternalClient,
                data.login@,
                data.password@,
                now,
            ) == Err::<PrincipalRecord, AuthError>(e),
        },
{
    match login_principal(clients, keys, EntityType::ExternalClient, data, jwt_secret, now) {
        Err(e) => Err(e),
        Ok(pair) => {
            let token = pair.1;
            Ok(ExternalClientLoginResponse { token })
        },
    }
}

/// Validates a token against the secret, the clock and the revocation
/// ledger, returning its claims.
pub fn validate_token(
    data: &ValidateRequest,
    ledger: &RevocationLedger,
    jwt_secret: &str,
    now: u64,
) -> (r: Result<Claims, AuthError>)
    ensures
        match r {
            Ok(c) => {
                &&& spec_verify(data.token@, jwt_secret@, now, ledger.jtis()) is Ok
                &&& jwt_parse(data.token@, jwt_secret@) == Some((c.sub@, c.exp, c.iat, c.jti@))
            },
            Err(e) => spec_verify(data.token@, jwt_secret@, now, ledger.jtis()) == Err::<
                (EntityType, Seq<char>),
                AuthError,
            >(e),
        },
{
    match verify_jwt(data.token.as_str(), jwt_secret, ledger, now) {
        Err(e) => Err(e),
        Ok(out) => Ok(out.0),
    }
}

/// The external-client variant of token validation; the engine's checks are
/// the same.
pub fn external_client_validate_token(
    data: &ValidateRequest,
    ledger: &RevocationLedger,
    jwt_secret: &str,
    now: u64,
) -> (r: Result<Claims, AuthError>)
    ensures
        match r {
            Ok(c) => {
                &&& spec_verify(data.token@, jwt_secret@, now, ledger.jtis()) is Ok
                &&& jwt_parse(data.token@, jwt_secret@) == Some((c.sub@, c.exp, c.iat, c.jti@))
            },
            Err(e) => spec_verify(data.token@, jwt_secret@, now, ledger.jtis()) == Err::<
                (EntityType, Seq<char>),
                AuthError,
            >(e),
        },
{
    validate_token(data, ledger, jwt_secret, now)
}

/// Logs out: the bearer token named by the `Authorization` header value is
/// revoked, expired or not. A missing `Bearer` prefix is reported as a
/// malformed token and changes nothing.
pub fn logout(
    authorization: &str,
    jwt_secret: &str,
    ledger: &mut RevocationLedger,
    now: u64,
) -> (r: Result<(), AuthError>)
    requires
        old(ledger).wf(),
    ensures
        final(ledger).wf(),
        match spec_bearer(authorization@) {
            Option::None => r == Err::<(), AuthError>(AuthError::TokenMalformed) && final(ledger).jtis() == old(ledger).jtis(),
            Option::Some(tok) => match r {
                Ok(_) => {
                    &&& jwt_parse(tok, jwt_secret@) is Some
                    &&& spec_parse_subject(jwt_parse(tok, jwt_secret@).unwrap().0) is Ok
                    &&& final(ledger).jtis() =~= old(ledger).jtis().insert(
                        jwt_parse(tok, jwt_secret@).unwrap().3,
                    )
                },
                Err(e) => {
                    &&& final(ledger).jtis() == old(ledger).jtis()
                    &&& match jwt_parse(tok, jwt_secret@) {
                        Option::None => e == AuthError::TokenMalformed,
                        Option::Some(parts) => spec_parse_subject(parts.0) == Err::<
                            (EntityType, Seq<char>),
                            AuthError,
                        >(e),
                    }
                },
            },
        },
{
    let token = match extract_bearer(authorization) {
        Option::None => {
            return Err(AuthError::TokenMalformed);
        },
        Option::Some(t) => t,
    };
    revoke_token(token, jwt_secret, ledger, now)
}

/// The external-client variant of logout; revocation is the same.
pub fn external_client_logout(
    authorization: &str,
    jwt_secret: &str,
    ledger: &mut RevocationLedger,
    now: u64,
) -> (r: Result<(), AuthError>)
    requires
        old(ledger).wf(),
    ensures
        final(ledger).wf(),
        match spec_bearer(authorization@) {
            Option::None => r == Err::<(), AuthError>(AuthError::TokenMalformed) && final(ledger).jtis() == old(ledger).jtis(),
            Option::Some(tok) => match r {
                Ok(_) => {
                    &&& jwt_parse(tok, jwt_secret@) is Some
                    &&& spec_parse_subject(jwt_parse(tok, jwt_secret@).unwrap().0) is Ok
                    &&& final(ledger).jtis() =~= old(ledger).jtis().insert(
                        jwt_parse(tok, jwt_secret@).unwrap().3,
                    )
                },
                Err(e) => {
                    &&& final(ledger).jtis() == old(ledger).jtis()
                    &&& match jwt_parse(tok, jwt_secret@) {
                        Option::None => e == AuthError::TokenMalformed,
                        Option::Some(parts) => spec_parse_subject(parts.0) == Err::<
                            (EntityType, Seq<char>),
                            AuthError,
                        >(e),
                    }
                },
            },
        },
{
    logout(authorization, jwt_secret, ledger, now)
}

/// What decrypting a user's identifying fields yields: the name, email and
/// terms-version in order, or the error of the first field that failed.
pub open spec fn spec_decrypt_user(rec: PrincipalRecord, key: Seq<char>, now: u64) -> Result<
    (Seq<char>, Seq<char>, Seq<char>),
    AuthError,
> {
    match field_decryption(key, rec.name_enc@, now) {
        Err(e) => Err(AuthError::DecryptionFailed(e)),
        Ok(name) => match field_decryption(key, rec.email_enc@, now) {
            Err(e) => Err(AuthError::DecryptionFailed(e)),
            Ok(email) => match field_decryption(key, rec.version_terms_enc@, now) {
                Err(e) => Err(AuthError::DecryptionFailed(e)),
                Ok(version_terms) => Ok((name, email, version_terms)),
            },
        },
    }
}

/// Decrypts a stored user into its public form. The password field is
/// never decrypted and never part of the result.
pub fn decrypt_database_user(
    user_decryption_key: &str,
    user: &PrincipalRecord,
    now: u64,
) -> (r: Result<UserPublic, AuthError>)
    requires
        now <= u64::MAX - 60,
    ensures
        match r {
            Ok(p) => {
                &&& spec_decrypt_user(*user, user_decryption_key@, now) == Ok::<
                    (Seq<char>, Seq<char>, Seq<char>),
                    AuthError,
                >((p.name@, p.email@, p.version_terms@))
                &&& p.id == user.id
                &&& p.login@ == user.login@
                &&& p.role_id == user.role_id
                &&& p.disabled_since == user.disabled_since
            },
            Err(e) => spec_decrypt_user(*user, user_decryption_key@, now) == Err::<
                (Seq<char>, Seq<char>, Seq<char>),
                AuthError,
            >(e),
        },
{
    let name = match decrypt_field(user_decryption_key, user.name_enc.as_str(), now) {
        Err(e) => {
            return Err(AuthError::DecryptionFailed(e));
        },
        Ok(v) => v,
    };
    let email = match decrypt_field(user_decryption_key, user.email_enc.as_str(), now) {
        Err(e) => {
            return Err(AuthError::DecryptionFailed(e));
        },
        Ok(v) => v,
    };
    let version_terms = match decrypt_field(user_decryption_key, user.version_terms_enc.as_str(), now) {
        Err(e) => {
            return Err(AuthError::DecryptionFailed(e));
        },
        Ok(v) => v,
    };
    Ok(
        UserPublic {
            id: user.id,
            name,
            login: user.login.clone(),
            email,
            version_terms,
            role_id: user.role_id,
            disabled_since: user.disabled_since,
        },
    )
}

/// What decrypting an external client's identifying fields yields: the
/// name, or the error it failed with.
pub open spec fn spec_decrypt_client(rec: PrincipalRecord, key: Seq<char>, now: u64) -> Result<
    Seq<char>,
    AuthError,
> {
    match field_decryption(key, rec.name_enc@, now) {
        Err(e) => Err(AuthError::DecryptionFailed(e)),
        Ok(name) => Ok(name),
    }
}

/// Decrypts a stored external client into its public form.
pub fn decrypt_database_external_client(
    external_client_decryption_key: &str,
    external_client: &PrincipalRecord,
    now: u64,
) -> (r: Result<ExternalClientPublic, AuthError>)
    requires
        now <= u64::MAX - 60,
    ensures
        match r {
            Ok(p) => {
                &&& spec_decrypt_client(*external_client, external_client_decryption_key@, now)
                    == Ok::<Seq<char>, AuthError>(p.name@)
                &&& p.id == external_client.id
                &&& p.login@ == external_client.login@
                &&& p.created_at == external_client.created_at
                &&& p.disabled_since == external_client.disabled_since
            },
            Err(e) => spec_decrypt_client(*external_client, external_client_decryption_key@, now)
                == Err::<Seq<char>, AuthError>(e),
        },
{
    let name = match decrypt_field(
        external_client_decryption_key,
        external_client.name_enc.as_str(),
        now,
    ) {
        Err(e) => {
            return Err(AuthError::DecryptionFailed(e));
        },
        Ok(v) => v,
    };
    Ok(
        ExternalClientPublic {
            id: external_client.id,
            name,
            login: external_client.login.clone(),
            created_at: external_client.created_at,
            disabled_since: external_client.disabled_since,
        },
    )
}

/// Law: a freshly registered principal's credentials are accepted at any
/// later clock reading — registering and then logging in succeeds, and
/// authenticates exactly the registered principal.
pub proof fn lemma_register_then_login(
    store: PrincipalStore,
    keys: EntityKeyStore,
    entity_type: EntityType,
    id: u64,
    name: Seq<char>,
    login: Seq<char>,
    email: Seq<char>,
    version_terms: Seq<char>,
    password: Seq<char>,
    role_id: u64,
    now: u64,
    t: u64,
)
    requires
        store.wf(),
        spec_registered(
            store,
            keys,
            entity_type,
            id,
            name,
            login,
            email,
            version_terms,
            password,
            role_id,
            now,
        ),
        now <= t <= u64::MAX - 60,
    ensures
        spec_credentials(store, keys, entity_type, login, password, t) == Ok::<
            PrincipalRecord,
            AuthError,
        >(store.spec_by_id(id).unwrap()),
{
    store.lemma_by_id_gives_by_login(id);
}

} // verus!
