use vstd::prelude::*;

verus! {

use vstd::string::StringExecFns;
use crate::account::{spec_decrypt_user, decrypt_database_user};
use crate::credential::{spec_credentials, verify_credentials};
use crate::entity::EntityType;
use crate::errors::AuthError;
use crate::keystore::EntityKeyStore;
use crate::ledger::RevocationLedger;
use crate::models::{LoginRequest, ExternalClientLoginResponse, UserPortability};
use crate::numbers::{
    dec_str,
    dec_val,
    is_dec_digits,
    fmt_u64,
    parse_u64,
    lemma_dec_str_digits,
    lemma_digits_are_plain,
    lemma_dec_round_trip,
};
use crate::principal::{PrincipalStore, PrincipalRecord};
use crate::text::{spec_split_once, split_once, lemma_split_once_concat};
use crate::token::{spec_verify, spec_issued, create_jwt, verify_jwt};

/// The composite subject id of a portability session: the external client's
/// and the user's decimal ids, joined by a dash. Decimal renderings hold no
/// dash, so the first dash always splits the pair apart again.
pub open spec fn spec_composite_id(client_id: u64, user_id: u64) -> Seq<char> {
    dec_str(client_id as nat) + seq!['-'] + dec_str(user_id as nat)
}

/// Law: splitting a composite subject id at its first dash recovers
/// exactly the two ids it binds.
pub proof fn lemma_composite_round_trip(client_id: u64, user_id: u64)
    ensures
        spec_split_once(spec_composite_id(client_id, user_id), '-') == Some(
            (dec_str(client_id as nat), dec_str(user_id as nat)),
        ),
        dec_val(dec_str(client_id as nat)) == client_id,
        dec_val(dec_str(user_id as nat)) == user_id,
        is_dec_digits(dec_str(client_id as nat)),
        is_dec_digits(dec_str(user_id as nat)),
{
    lemma_dec_str_digits(client_id as nat);
    lemma_dec_str_digits(user_id as nat);
    lemma_digits_are_plain(dec_str(client_id as nat));
    lemma_split_once_concat(dec_str(client_id as nat), '-', dec_str(user_id as nat));
    lemma_dec_round_trip(client_id as nat);
    lemma_dec_round_trip(user_id as nat);
}

/// The entry step of the protocol, behind the consent screen: the external
/// client named by a verified `ExternalClient` token, provided it exists
/// and is not disabled.
pub open spec fn spec_screen_client(
    clients: PrincipalStore,
    token: Seq<char>,
    secret: Seq<char>,
    now: u64,
    revoked: Set<Seq<char>>,
) -> Result<PrincipalRecord, AuthError> {
    match spec_verify(token, secret, now, revoked) {
        Err(e) => Err(e),
        Ok(decoded) => if decoded.0 != EntityType::ExternalClient {
            Err(AuthError::EntityTypeMismatch)
        } else if !(is_dec_digits(decoded.1) && dec_val(decoded.1) <= u64::MAX) {
            Err(AuthError::InvalidSubjectEncoding)
        } else {
            match clients.spec_by_id(dec_val(decoded.1) as u64) {
                Option::None => Err(AuthError::EntityNotFound),
                Option::Some(rec) => if rec.disabled_since is Some {
                    Err(AuthError::PrincipalDisabled)
                } else {
                    Ok(rec)
                },
            }
        },
    }
}

/// Resolves the external client behind a bearer token: verifies the token,
/// requires its entity type to be `ExternalClient`, reads the decimal id
/// out of its subject, and refuses missing or disabled clients.
fn resolve_client<'a>(
    clients: &'a PrincipalStore,
    ledger: &RevocationLedger,
    token: &str,
    jwt_secret: &str,
    now: u64,
) -> (r: Result<&'a PrincipalRecord, AuthError>)
    ensures
        match r {
            Ok(rec) => spec_screen_client(*clients, token@, jwt_secret@, now, ledger.jtis())
                == Ok::<PrincipalRecord, AuthError>(*rec),
            Err(e) => spec_screen_client(*clients, token@, jwt_secret@, now, ledger.jtis())
                == Err::<PrincipalRecord, AuthError>(e),
        },
{
    let out = match verify_jwt(token, jwt_secret, ledger, now) {
        Err(e) => {
            return Err(e);
        },
        Ok(out) => out,
    };
    let subject = out.1;
    if !(subject.entity_type == EntityType::ExternalClient) {
        return Err(AuthError::EntityTypeMismatch);
    }
    let client_id = match parse_u64(subject.id.as_str()) {
        Option::None => {
            return Err(AuthError::InvalidSubjectEncoding);
        },
        Option::Some(v) => v,
    };
    let rec = match clients.find_by_id(client_id) {
        Option::None => {
            return Err(AuthError::EntityNotFound);
        },
        Option::Some(rec) => rec,
    };
    if rec.disabled_since.is_some() {
        return Err(AuthError::PrincipalDisabled);
    }
    Ok(rec)
}

/// The consent screen's data: the decrypted display name of the external
/// client asking for access, fetched with the client's own key.
pub fn screen(
    clients: &PrincipalStore,
    keys: &EntityKeyStore,
    ledger: &RevocationLedger,
    token: &str,
    jwt_secret: &str,
    now: u64,
) -> (r: Result<String, AuthError>)
    requires
        now <= u64::MAX - 60,
    ensures
        match r {
            Ok(name) => spec_screen_client(*clients, token@, jwt_secret@, now, ledger.jtis())
                matches Ok(rec) && match keys.key_of(rec.id, EntityType::ExternalClient) {
                Option::None => false,
                Option::Some(key) => crate::account::spec_decrypt_client(rec, key, now) == Ok::<
                    Seq<char>,
                    AuthError,
                >(name@),
            },
            Err(e) => match spec_screen_client(*clients, token@, jwt_secret@, now, ledger.jtis()) {
                Err(se) => e == se,
                Ok(rec) => match keys.key_of(rec.id, EntityType::ExternalClient) {
                    Option::None => e == AuthError::EntityKeyNotFound,
                    Option::Some(key) => crate::account::spec_decrypt_client(rec, key, now)
                        == Err::<Seq<char>, AuthError>(e),
                },
            },
        },
{
    let rec = match resolve_client(clients, ledger, token, jwt_secret, now) {
        Err(e) => {
            return Err(e);
        },
        Ok(rec) => rec,
    };
    let key = match keys.find_key(rec.id, EntityType::ExternalClient) {
        Option::None => {
            return Err(AuthError::EntityKeyNotFound);
        },
        Option::Some(k) => k,
    };
    match crate::account::decrypt_database_external_client(key.as_str(), rec, now) {
        Err(e) => Err(e),
        Ok(p) => Ok(p.name),
    }
}

/// A portability session token freshly issued at `now`, binding this
/// client id and user id in its composite subject, under some token
/// identifier.
pub open spec fn spec_fresh_session(
    token: Seq<char>,
    secret: Seq<char>,
    client_id: u64,
    user_id: u64,
    now: u64,
) -> bool {
    exists|jti: Seq<char>|
        #[trigger] spec_issued(
            token,
            secret,
            EntityType::AuthorizedClient,
            spec_composite_id(client_id, user_id),
            now,
            jti,
        )
}

/// The authorization step's outcome: the ids bound by the session to be
/// issued — the authenticated external client's and the consenting user's.
pub open spec fn spec_authorize(
    clients: PrincipalStore,
    users: PrincipalStore,
    keys: EntityKeyStore,
    token: Seq<char>,
    login: Seq<char>,
    password: Seq<char>,
    secret: Seq<char>,
    now: u64,
    revoked: Set<Seq<char>>,
) -> Result<(u64, u64), AuthError> {
    match spec_screen_client(clients, token, secret, now, revoked) {
        Err(e) => Err(e),
        Ok(client) => if login.len() == 0 || password.len() == 0 {
            Err(AuthError::CredentialMismatch)
        } else {
            match spec_credentials(users, keys, EntityType::User, login, password, now) {
                Err(e) => Err(e),
                Ok(user) => Ok((client.id, user.id)),
            }
        },
    }
}

/// The authorization step: an external client, authenticated by its own
/// bearer token, presents a user's credentials; on success a new
/// `AuthorizedClient` token is issued whose subject binds the client's and
/// the user's ids. The token represents the user's consent and is
/// interchangeable with neither party's own token.
pub fn authorize(
    clients: &PrincipalStore,
    users: &PrincipalStore,
    keys: &EntityKeyStore,
    ledger: &RevocationLedger,
    token: &str,
    data: &LoginRequest,
    jwt_secret: &str,
    now: u64,
) -> (r: Result<ExternalClientLoginResponse, AuthError>)
    requires
        now + 86400 <= u64::MAX,
    ensures
        match r {
            Ok(resp) => spec_authorize(
                *clients,
                *users,
                *keys,
                token@,
                data.login@,
                data.password@,
                jwt_secret@,
                now,
                ledger.jtis(),
            ) matches Ok(ids) && spec_fresh_session(
                resp.token@,
                jwt_secret@,
                ids.0,
                ids.1,
                now,
            ),
            Err(e) => spec_authorize(
                *clients,
                *users,
                *keys,
                token@,
                data.login@,
                data.password@,
                jwt_secret@,
                now,
                ledger.jtis(),
            ) == Err::<(u64, u64), AuthError>(e),
        },
{
    let client = match resolve_client(clients, ledger, token, jwt_secret, now) {
        Err(e) => {
            return Err(e);
        },
        Ok(rec) => rec,
    };
    if data.login.as_str().is_empty() || data.password.as_str().is_empty() {
        return Err(AuthError::CredentialMismatch);
    }
    let user = match verify_credentials(
        users,
        keys,
        EntityType::User,
        data.login.as_str(),
        data.password.as_str(),
        now,
    ) {
        Err(e) => {
            return Err(e);
        },
        Ok(rec) => rec,
    };
    let mut composite = fmt_u64(client.id);
    composite.append("-");
    let user_id_str = fmt_u64(user.id);
    composite.append(user_id_str.as_str());
    proof {
        reveal_strlit("-");
        assert(composite@ =~= spec_composite_id(client.id, user.id));
    }
    let session_token = create_jwt(
        composite.as_str(),
        EntityType::AuthorizedClient,
        jwt_secret,
        now,
    );
    proof {
        let jti0 = choose|jti: Seq<char>|
            #[trigger] spec_issued(
                session_token@,
                jwt_secret@,
                EntityType::AuthorizedClient,
                composite@,
                now,
                jti,
            );
        assert(spec_issued(
            session_token@,
            jwt_secret@,
            EntityType::AuthorizedClient,
            spec_composite_id(client.id, user.id),
            now,
            jti0,
        ));
        assert(spec_fresh_session(session_token@, jwt_secret@, client.id, user.id, now));
    }
    Ok(ExternalClientLoginResponse { token: session_token })
}

/// The release step's outcome: the decrypted portable profile fields of
/// the user bound by a verified `AuthorizedClient` token, after both bound
/// principals were found enabled and the user's key was fetched.
pub open spec fn spec_release(
    clients: PrincipalStore,
    users: PrincipalStore,
    keys: EntityKeyStore,
    token: Seq<char>,
    secret: Seq<char>,
    now: u64,
    revoked: Set<Seq<char>>,
) -> Result<(Seq<char>, Seq<char>, Seq<char>), AuthError> {
    match spec_verify(token, secret, now, revoked) {
        Err(e) => Err(e),
        Ok(decoded) => if decoded.0 != EntityType::AuthorizedClient {
            Err(AuthError::EntityTypeMismatch)
        } else {
            match spec_split_once(decoded.1, '-') {
                Option::None => Err(AuthError::InvalidSubjectEncoding),
                Option::Some(parts) => if !(is_dec_digits(parts.0) && dec_val(parts.0) <= u64::MAX
                    && is_dec_digits(parts.1) && dec_val(parts.1) <= u64::MAX) {
                    Err(AuthError::InvalidSubjectEncoding)
                } else {
                    spec_release_for(
                        clients,
                        users,
                        keys,
                        dec_val(parts.0) as u64,
                        dec_val(parts.1) as u64,
                        now,
                    )
                },
            }
        },
    }
}

/// The data-release outcome for an already-decoded pair of ids.
pub open spec fn spec_release_for(
    clients: PrincipalStore,
    users: PrincipalStore,
    keys: EntityKeyStore,
    client_id: u64,
    user_id: u64,
    now: u64,
) -> Result<(Seq<char>, Seq<char>, Seq<char>), AuthError> {
    match clients.spec_by_id(client_id) {
        Option::None => Err(AuthError::EntityNotFound),
        Option::Some(client) => if client.disabled_since is Some {
            Err(AuthError::PrincipalDisabled)
        } else {
            match users.spec_by_id(user_id) {
                Option::None => Err(AuthError::EntityNotFound),
                Option::Some(user) => if user.disabled_since is Some {
                    Err(AuthError::PrincipalDisabled)
                } else {
                    match keys.key_of(user_id, EntityType::User) {
                        Option::None => Err(AuthError::EntityKeyNotFound),
                        Option::Some(key) => match spec_decrypt_user(user, key, now) {
                            Err(e) => Err(e),
                            Ok(fields) => Ok((fields.0, user.login@, fields.1)),
                        },
                    }
                },
            }
        },
    }
}

/// The release step: a holder of an `AuthorizedClient` token obtains the
/// consenting user's decrypted portable fields — name, login and email,
/// never the password. Both bound principals must still exist and be
/// enabled; the token stays valid until its natural expiry or revocation.
pub fn portability(
    clients: &PrincipalStore,
    users: &PrincipalStore,
    keys: &EntityKeyStore,
    ledger: &RevocationLedger,
    token: &str,
    jwt_secret: &str,
    now: u64,
) -> (r: Result<UserPortability, AuthError>)
    requires
        now <= u64::MAX - 60,
    ensures
        match r {
            Ok(p) => spec_release(*clients, *users, *keys, token@, jwt_secret@, now, ledger.jtis())
                == Ok::<(Seq<char>, Seq<char>, Seq<char>), AuthError>((p.name@, p.login@, p.email@)),
            Err(e) => spec_release(*clients, *users, *keys, token@, jwt_secret@, now, ledger.jtis())
                == Err::<(Seq<char>, Seq<char>, Seq<char>), AuthError>(e),
        },
{
    let out = match verify_jwt(token, jwt_secret, ledger, now) {
        Err(e) => {
            return Err(e);
        },
        Ok(out) => out,
    };
    let subject = out.1;
    if !(subject.entity_type == EntityType::AuthorizedClient) {
        return Err(AuthError::EntityTypeMismatch);
    }
    let parts = match split_once(subject.id.as_str(), '-') {
        Option::None => {
            return Err(AuthError::InvalidSubjectEncoding);
        },
        Option::Some(p) => p,
    };
    let client_id = match parse_u64(parts.0) {
        Option::None => {
            return Err(AuthError::InvalidSubjectEncoding);
        },
        Option::Some(v) => v,
    };
    let user_id = match parse_u64(parts.1) {
        Option::None => {
            return Err(AuthError::InvalidSubjectEncoding);
        },
        Option::Some(v) => v,
    };
    let client = match clients.find_by_id(client_id) {
        Option::None => {
            return Err(AuthError::EntityNotFound);
        },
        Option::Some(rec) => rec,
    };
    if client.disabled_since.is_some() {
        return Err(AuthError::PrincipalDisabled);
    }
    let user = match users.find_by_id(user_id) {
        Option::None => {
            return Err(AuthError::EntityNotFound);
        },
        Option::Some(rec) => rec,
    };
    if user.disabled_since.is_some() {
        return Err(AuthError::PrincipalDisabled);
    }
    let key = match keys.find_key(user_id, EntityType::User) {
        Option::None => {
            return Err(AuthError::EntityKeyNotFound);
        },
        Option::Some(k) => k,
    };
    match decrypt_database_user(key.as_str(), user, now) {
        Err(e) => Err(e),
        Ok(p) => Ok(UserPortability { name: p.name, login: p.login, email: p.email }),
    }
}

/// Law: the release step accepts only `AuthorizedClient` tokens — a valid
/// token whose subject names a `User` or an `ExternalClient` is rejected
/// with `EntityTypeMismatch`.
pub proof fn lemma_release_rejects_other_types(
    clients: PrincipalStore,
    users: PrincipalStore,
    keys: EntityKeyStore,
    token: Seq<char>,
    secret: Seq<char>,
    now: u64,
    revoked: Set<Seq<char>>,
)
    requires
        spec_verify(token, secret, now, revoked) is Ok,
        spec_verify(token, secret, now, revoked).unwrap().0 != EntityType::AuthorizedClient,
    ensures
        spec_release(clients, users, keys, token, secret, now, revoked) == Err::<
            (Seq<char>, Seq<char>, Seq<char>),
            AuthError,
        >(AuthError::EntityTypeMismatch),
{
}

/// Law: a session issued by the authorization step releases exactly the
/// bound user's fields — the token's composite subject decodes back to the
/// two ids it was built from, and release at a time within the token's
/// window (identifier unrevoked) reaches exactly those principals.
pub proof fn lemma_authorized_session_releases(
    clients: PrincipalStore,
    users: PrincipalStore,
    keys: EntityKeyStore,
    token: Seq<char>,
    secret: Seq<char>,
    client_id: u64,
    user_id: u64,
    iat: u64,
    jti: Seq<char>,
    now: u64,
    revoked: Set<Seq<char>>,
)
    requires
        spec_issued(
            token,
            secret,
            EntityType::AuthorizedClient,
            spec_composite_id(client_id, user_id),
            iat,
            jti,
        ),
        iat <= now < iat + 86400,
        !revoked.contains(jti),
    ensures
        spec_release(clients, users, keys, token, secret, now, revoked) == spec_release_for(
            clients,
            users,
            keys,
            client_id,
            user_id,
            now,
        ),
{
    crate::token::lemma_issue_then_verify(
        token,
        secret,
        EntityType::AuthorizedClient,
        spec_composite_id(client_id, user_id),
        iat,
        jti,
        now,
        revoked,
    );
    lemma_composite_round_trip(client_id, user_id);
}

} // verus!
