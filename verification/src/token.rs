use vstd::prelude::*;

verus! {

use vstd::string::{StrSliceExecFns, StringExecFns};
use vstd::utf8::{valid_utf8, decode_utf8};
use crate::entity::{EntityType, spec_tag, spec_entity_type_of_tag, str_eq, lemma_tag_round_trip};
use crate::errors::AuthError;
use crate::codec::{b64_parse, b64_encode, b64_decode, bytes_to_string};
use crate::text::{spec_split_once, split_once, lemma_split_once_concat};
use crate::ledger::RevocationLedger;

broadcast use vstd::utf8::encode_utf8_valid_utf8, vstd::utf8::encode_utf8_decode_utf8;

/// The claims carried by every token this engine issues: the encoded
/// subject, expiry and issue times (Unix seconds), and a unique token
/// identifier used solely for revocation.
pub struct Claims {
    /// Subject: base64 of the UTF-8 string `"<entity_type_tag>:<entity_id>"`.
    pub sub: String,
    /// Expiration time, fixed at issue time plus 24 hours.
    pub exp: u64,
    /// Issued-at time.
    pub iat: u64,
    /// Unique token identifier, one per issuance.
    pub jti: String,
}

/// A decoded token subject: the entity type tag and the entity id string.
pub struct ClaimsSubject {
    pub entity_type: EntityType,
    pub id: String,
}

/// What decoding and signature-checking a token yields under a secret, as
/// `(sub, exp, iat, jti)`: a fixed function of token and secret alone (the
/// clock plays no part in it).
pub uninterp spec fn jwt_parse(token: Seq<char>, secret: Seq<char>) -> Option<
    (Seq<char>, u64, u64, Seq<char>),
>;

/// Relies on jsonwebtoken's `encode` with the default (HS256) header and an
/// HMAC secret: signing cannot fail for this algorithm, and decoding the
/// returned token with the same secret yields exactly the encoded claims.
#[verifier::external_body]
fn jwt_encode(sub: &str, exp: u64, iat: u64, jti: &str, secret: &str) -> (r: Option<String>)
    ensures
        r is Some,
        r matches Some(t) ==> jwt_parse(t@, secret@) == Some((sub@, exp, iat, jti@)),
{
    let mut claims = serde_json::Map::new();
    claims.insert("sub".to_string(), serde_json::Value::String(sub.to_string()));
    claims.insert("exp".to_string(), serde_json::Value::from(exp));
    claims.insert("iat".to_string(), serde_json::Value::from(iat));
    claims.insert("jti".to_string(), serde_json::Value::String(jti.to_string()));
    let key = jsonwebtoken::EncodingKey::from_secret(secret.as_bytes());
    jsonwebtoken::encode(&jsonwebtoken::Header::default(), &serde_json::Value::Object(claims), &key)
        .ok()
}

/// Relies on jsonwebtoken's `decode` for HS256 with expiry validation
/// switched off: the outcome is exactly what structure and signature
/// checking yield for this token and secret, and the clock is never
/// consulted.
#[verifier::external_body]
fn jwt_decode(token: &str, secret: &str) -> (r: Option<Claims>)
    ensures
        r matches Some(c) ==> jwt_parse(token@, secret@) == Some((c.sub@, c.exp, c.iat, c.jti@)),
        r is None ==> jwt_parse(token@, secret@) is None,
{
    let mut validation = jsonwebtoken::Validation::new(jsonwebtoken::Algorithm::HS256);
    validation.validate_exp = false;
    let key = jsonwebtoken::DecodingKey::from_secret(secret.as_bytes());
    let data = jsonwebtoken::decode::<serde_json::Value>(token, &key, &validation).ok()?;
    let sub = data.claims.get("sub")?.as_str()?.to_string();
    let exp = data.claims.get("exp")?.as_u64()?;
    let iat = data.claims.get("iat")?.as_u64()?;
    let jti = data.claims.get("jti")?.as_str()?.to_string();
    Some(Claims { sub, exp, iat, jti })
}

/// Relies on uuid's `Uuid::new_v4` and its `to_string`: a freshly
/// generated random token identifier, rendered in the 36-character
/// hyphenated form. Nothing is assumed of the randomness.
#[verifier::external_body]
fn fresh_token_id() -> (r: String)
    ensures
        r@.len() == 36,
{
    uuid::Uuid::new_v4().to_string()
}

/// The plain text a subject encodes: the entity-type tag, a colon, and the
/// entity id.
pub open spec fn spec_subject_plain(et: EntityType, id: Seq<char>) -> Seq<char> {
    spec_tag(et) + seq![':'] + id
}

/// What decoding a subject string yields: base64-decode it, read the bytes
/// as UTF-8, split at the first colon, and match the tag against the known
/// entity types.
pub open spec fn spec_parse_subject(sub: Seq<char>) -> Result<(EntityType, Seq<char>), AuthError> {
    match b64_parse(sub) {
        Option::None => Err(AuthError::InvalidSubjectEncoding),
        Option::Some(bytes) => if !valid_utf8(bytes) {
            Err(AuthError::InvalidSubjectEncoding)
        } else {
            match spec_split_once(decode_utf8(bytes), ':') {
                Option::None => Err(AuthError::InvalidSubjectEncoding),
                Option::Some((tag, id)) => match spec_entity_type_of_tag(tag) {
                    Option::None => Err(AuthError::UnknownEntityType),
                    Option::Some(et) => Ok((et, id)),
                },
            }
        },
    }
}

/// No entity-type tag contains the subject separator.
proof fn lemma_tag_no_colon(et: EntityType)
    ensures
        !spec_tag(et).contains(':'),
{
    reveal_strlit("user");
    reveal_strlit("external_client");
    reveal_strlit("authorized_client");
    if spec_tag(et).contains(':') {
        let i = choose|i: int| 0 <= i < spec_tag(et).len() && spec_tag(et)[i] == ':';
        assert(false);
    }
}

/// Encodes an entity type and id into a token subject: base64 of the UTF-8
/// bytes of `"<tag>:<id>"`. Decoding the result yields the pair back.
pub fn encode_subject(entity_type: EntityType, entity_id: &str) -> (r: String)
    ensures
        spec_parse_subject(r@) == Ok::<(EntityType, Seq<char>), AuthError>(
            (entity_type, entity_id@),
        ),
{
    let mut plain = entity_type.as_str().to_owned();
    plain.append(":");
    plain.append(entity_id);
    let bytes = plain.as_str().as_bytes_vec();
    let sub = b64_encode(&bytes);
    proof {
        reveal_strlit(":");
        assert(plain@ =~= spec_subject_plain(entity_type, entity_id@));
        lemma_tag_no_colon(entity_type);
        lemma_split_once_concat(spec_tag(entity_type), ':', entity_id@);
        lemma_tag_round_trip(entity_type);
    }
    sub
}

impl Claims {
    /// Decodes this token's subject back into an entity type and id,
    /// rejecting malformed encodings and unknown tags explicitly.
    pub fn parse_subject(&self) -> (r: Result<ClaimsSubject, AuthError>)
        ensures
            match r {
                Ok(cs) => spec_parse_subject(self.sub@) == Ok::<(EntityType, Seq<char>), AuthError>(
                    (cs.entity_type, cs.id@),
                ),
                Err(e) => spec_parse_subject(self.sub@) == Err::<(EntityType, Seq<char>), AuthError>(
                    e,
                ),
            },
    {
        let decoded = match b64_decode(self.sub.as_str()) {
            Option::None => {
                return Err(AuthError::InvalidSubjectEncoding);
            },
            Option::Some(d) => d,
        };
        let plain = match bytes_to_string(decoded) {
            Option::None => {
                return Err(AuthError::InvalidSubjectEncoding);
            },
            Option::Some(p) => p,
        };
        let parts = match split_once(plain.as_str(), ':') {
            Option::None => {
                return Err(AuthError::InvalidSubjectEncoding);
            },
            Option::Some(p) => p,
        };
        match EntityType::from_str(parts.0) {
            Option::None => Err(AuthError::UnknownEntityType),
            Option::Some(et) => Ok(ClaimsSubject { entity_type: et, id: parts.1.to_owned() }),
        }
    }
}

/// Whether `token` is a token this engine issued under `secret` at time
/// `iat` for the given subject, carrying identifier `jti`: it decodes under
/// the secret, expires exactly 24 hours after `iat`, and its subject decodes
/// back to the entity.
pub open spec fn spec_issued(
    token: Seq<char>,
    secret: Seq<char>,
    et: EntityType,
    id: Seq<char>,
    iat: u64,
    jti: Seq<char>,
) -> bool {
    match jwt_parse(token, secret) {
        Option::Some(parts) => {
            &&& spec_parse_subject(parts.0) == Ok::<(EntityType, Seq<char>), AuthError>((et, id))
            &&& parts.1 == iat + 86400
            &&& parts.2 == iat
            &&& parts.3 == jti
        },
        Option::None => false,
    }
}

/// Creates a signed token for an entity: a fresh unique identifier, issue
/// time `now`, expiry fixed at 24 hours later, subject encoding the entity.
/// The returned token verifies (under the same secret) to this entity at
/// any time within its validity window, so long as its identifier is not in
/// the revocation ledger.
pub fn create_jwt(entity_id: &str, entity_type: EntityType, jwt_secret: &str, now: u64) -> (r:
    String)
    requires
        now + 86400 <= u64::MAX,
    ensures
        exists|jti: Seq<char>|
            #[trigger] spec_issued(r@, jwt_secret@, entity_type, entity_id@, now, jti),
{
    let jti = fresh_token_id();
    let sub = encode_subject(entity_type, entity_id);
    match jwt_encode(sub.as_str(), now + 86400, now, jti.as_str(), jwt_secret) {
        Option::Some(token) => {
            proof {
                assert(spec_issued(token@, jwt_secret@, entity_type, entity_id@, now, jti@));
            }
            token
        },
        Option::None => {
            // dead: HS256 signing cannot fail
            proof {
                assert(false);
            }
            String::new()
        },
    }
}

/// The outcome of verifying a token at time `now` against a secret and the
/// set of revoked identifiers: structure and signature first, then expiry
/// (a token is already rejected when `now` equals its expiry time), then
/// revocation, then the subject decoding.
pub open spec fn spec_verify(
    token: Seq<char>,
    secret: Seq<char>,
    now: u64,
    revoked: Set<Seq<char>>,
) -> Result<(EntityType, Seq<char>), AuthError> {
    match jwt_parse(token, secret) {
        Option::None => Err(AuthError::TokenMalformed),
        Option::Some(parts) => if now >= parts.1 {
            Err(AuthError::TokenExpired)
        } else if revoked.contains(parts.3) {
            Err(AuthError::TokenRevoked)
        } else {
            spec_parse_subject(parts.0)
        },
    }
}

/// Verifies a token: decodes and checks the signature, rejects expired and
/// revoked tokens, and decodes the subject. Returns the claims and the
/// decoded subject exactly when `spec_verify` says so.
pub fn verify_jwt(token: &str, jwt_secret: &str, ledger: &RevocationLedger, now: u64) -> (r: Result<
    (Claims, ClaimsSubject),
    AuthError,
>)
    ensures
        match r {
            Ok(out) => {
                &&& spec_verify(token@, jwt_secret@, now, ledger.jtis()) == Ok::<
                    (EntityType, Seq<char>),
                    AuthError,
                >((out.1.entity_type, out.1.id@))
                &&& jwt_parse(token@, jwt_secret@) == Some(
                    (out.0.sub@, out.0.exp, out.0.iat, out.0.jti@),
                )
            },
            Err(e) => spec_verify(token@, jwt_secret@, now, ledger.jtis()) == Err::<
                (EntityType, Seq<char>),
                AuthError,
            >(e),
        },
{
    let claims = match jwt_decode(token, jwt_secret) {
        Option::None => {
            return Err(AuthError::TokenMalformed);
        },
        Option::Some(c) => c,
    };
    if now >= claims.exp {
        return Err(AuthError::TokenExpired);
    }
    if ledger.contains(claims.jti.as_str()) {
        return Err(AuthError::TokenRevoked);
    }
    match claims.parse_subject() {
        Err(e) => Err(e),
        Ok(subject) => Ok((claims, subject)),
    }
}

/// Decodes a token's claims and checks that its subject decodes, without
/// checking expiry or revocation: exactly the checks revocation needs, so
/// that an already-expired token can still be revoked.
pub fn decode_claims(token: &str, jwt_secret: &str) -> (r: Result<Claims, AuthError>)
    ensures
        match r {
            Ok(c) => {
                &&& jwt_parse(token@, jwt_secret@) == Some((c.sub@, c.exp, c.iat, c.jti@))
                &&& spec_parse_subject(c.sub@) is Ok
            },
            Err(e) => match jwt_parse(token@, jwt_secret@) {
                Option::None => e == AuthError::TokenMalformed,
                Option::Some(parts) => spec_parse_subject(parts.0) == Err::<
                    (EntityType, Seq<char>),
                    AuthError,
                >(e),
            },
        },
{
    let claims = match jwt_decode(token, jwt_secret) {
        Option::None => {
            return Err(AuthError::TokenMalformed);
        },
        Option::Some(c) => c,
    };
    match claims.parse_subject() {
        Err(e) => Err(e),
        Ok(_) => Ok(claims),
    }
}

/// Revokes a token: checks its signature and subject decodability (but
/// neither expiry nor prior revocation), then records its identifier in the
/// ledger. Recording is idempotent; on failure the ledger is unchanged.
pub fn revoke_token(token: &str, jwt_secret: &str, ledger: &mut RevocationLedger, now: u64) -> (r:
    Result<(), AuthError>)
    requires
        old(ledger).wf(),
    ensures
        final(ledger).wf(),
        match r {
            Ok(_) => {
                &&& jwt_parse(token@, jwt_secret@) is Some
                &&& spec_parse_subject(jwt_parse(token@, jwt_secret@).unwrap().0) is Ok
                &&& final(ledger).jtis() =~= old(ledger).jtis().insert(
                    jwt_parse(token@, jwt_secret@).unwrap().3,
                )
            },
            Err(e) => {
                &&& final(ledger).jtis() == old(ledger).jtis()
                &&& match jwt_parse(token@, jwt_secret@) {
                    Option::None => e == AuthError::TokenMalformed,
                    Option::Some(parts) => spec_parse_subject(parts.0) == Err::<
                        (EntityType, Seq<char>),
                        AuthError,
                    >(e),
                }
            },
        },
{
    let claims = match decode_claims(token, jwt_secret) {
        Err(e) => {
            return Err(e);
        },
        Ok(c) => c,
    };
    ledger.insert(claims.jti.as_str(), now);
    Ok(())
}

/// A refinement of verification: additionally rejects a decoded subject
/// whose entity type is not the expected one, so a token of one kind cannot
/// be used where another kind is required.
pub fn validate_entity_type(claims: &Claims, entity_type: EntityType) -> (r: Result<
    ClaimsSubject,
    AuthError,
>)
    ensures
        match r {
            Ok(cs) => {
                &&& cs.entity_type == entity_type
                &&& spec_parse_subject(claims.sub@) == Ok::<(EntityType, Seq<char>), AuthError>(
                    (entity_type, cs.id@),
                )
            },
            Err(e) => match spec_parse_subject(claims.sub@) {
                Err(pe) => e == pe,
                Ok(decoded) => {
                    &&& decoded.0 != entity_type
                    &&& e == AuthError::EntityTypeMismatch
                },
            },
        },
{
    let subject = match claims.parse_subject() {
        Err(e) => {
            return Err(e);
        },
        Ok(s) => s,
    };
    if subject.entity_type != entity_type {
        return Err(AuthError::EntityTypeMismatch);
    }
    Ok(subject)
}

/// The token carried by an `Authorization` header: the text after the
/// `"Bearer "` prefix, or nothing when the prefix is absent.
pub open spec fn spec_bearer(header: Seq<char>) -> Option<Seq<char>> {
    if header.len() >= 7 && header.subrange(0, 7) == "Bearer "@ {
        Option::Some(header.subrange(7, header.len() as int))
    } else {
        Option::None
    }
}

/// Extracts the bearer token from an `Authorization` header value; a
/// missing `"Bearer "` prefix is the caller's error.
pub fn extract_bearer<'a>(header: &'a str) -> (r: Option<&'a str>)
    ensures
        r matches Some(t) ==> spec_bearer(header@) == Some(t@),
        r is None ==> spec_bearer(header@) is None,
{
    proof {
        reveal_strlit("Bearer ");
    }
    let n = header.unicode_len();
    if n < 7 {
        return None;
    }
    let prefix = header.substring_char(0, 7);
    if !str_eq(prefix, "Bearer ") {
        return None;
    }
    Some(header.substring_char(7, n))
}

/// Law: a token issued for an entity verifies back to exactly that entity,
/// at every time within its 24-hour validity window, against every
/// revocation set that does not contain its identifier.
pub proof fn lemma_issue_then_verify(
    token: Seq<char>,
    secret: Seq<char>,
    et: EntityType,
    id: Seq<char>,
    iat: u64,
    jti: Seq<char>,
    now: u64,
    revoked: Set<Seq<char>>,
)
    requires
        spec_issued(token, secret, et, id, iat, jti),
        iat <= now < iat + 86400,
        !revoked.contains(jti),
    ensures
        spec_verify(token, secret, now, revoked) == Ok::<(EntityType, Seq<char>), AuthError>(
            (et, id),
        ),
{
}

/// Law: at exactly its expiry time a token is already rejected as expired
/// (there is no grace window), whatever the revocation set holds.
pub proof fn lemma_expired_at_boundary(
    token: Seq<char>,
    secret: Seq<char>,
    now: u64,
    revoked: Set<Seq<char>>,
)
    requires
        jwt_parse(token, secret) is Some,
        now >= jwt_parse(token, secret).unwrap().1,
    ensures
        spec_verify(token, secret, now, revoked) == Err::<(EntityType, Seq<char>), AuthError>(
            AuthError::TokenExpired,
        ),
{
}

/// Law: once a token's identifier is in the revocation set, verification
/// yields `TokenRevoked` — even before the token's natural expiry.
pub proof fn lemma_revoked_is_rejected(
    token: Seq<char>,
    secret: Seq<char>,
    now: u64,
    revoked: Set<Seq<char>>,
)
    requires
        jwt_parse(token, secret) is Some,
        now < jwt_parse(token, secret).unwrap().1,
        revoked.contains(jwt_parse(token, secret).unwrap().3),
    ensures
        spec_verify(token, secret, now, revoked) == Err::<(EntityType, Seq<char>), AuthError>(
            AuthError::TokenRevoked,
        ),
{
}

} // verus!
