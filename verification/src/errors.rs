use vstd::prelude::*;

verus! {

/// The stage of field decryption at which a failure occurred (see the field
/// cipher): decoding the stored string, authenticating/decrypting the token,
/// or interpreting the plaintext bytes.
#[derive(Clone, Copy, Debug, PartialEq, Eq, Structural)]
pub enum DecryptionError {
    /// The stored string is not valid standard base64.
    Encoding,
    /// The decoded token failed authentication or decryption under the key.
    Decryption,
    /// Decoded or decrypted bytes are not valid UTF-8.
    Utf8,
}

/// Error taxonomy of the credential core. Every failure of the token engine,
/// the field cipher, the key store, the credential verifier and the
/// portability protocol is one of these; none of them aborts the process.
#[derive(Clone, Copy, Debug, PartialEq, Eq, Structural)]
pub enum AuthError {
    /// The token's structure or signature could not be validated.
    TokenMalformed,
    /// The token's expiry time is not in the future.
    TokenExpired,
    /// The token's unique identifier is recorded in the revocation ledger.
    TokenRevoked,
    /// The token subject could not be decoded back into a type tag and an id.
    InvalidSubjectEncoding,
    /// The subject's type tag matches no known entity type.
    UnknownEntityType,
    /// The subject's entity type is not the one this operation requires.
    EntityTypeMismatch,
    /// No principal with the given identity exists.
    EntityNotFound,
    /// A principal exists without its encryption key: an integrity violation,
    /// reported to the caller rather than treated as "unauthenticated".
    EntityKeyNotFound,
    /// A stored field could not be decrypted.
    DecryptionFailed(DecryptionError),
    /// The login is unknown or the password does not match. The two cases are
    /// deliberately indistinguishable to the caller.
    CredentialMismatch,
    /// The principal has been disabled (`disabled_since` is set).
    PrincipalDisabled,
    /// The backing store rejected an operation.
    StoreUnavailable,
    /// The one-way password hash could not be computed.
    HashingFailed,
}

/// The response class a reported error belongs to; `None` from
/// [`error_class`] stands for an internal server error.
#[derive(Clone, Copy, Debug, PartialEq, Eq, Structural)]
pub enum ServerErrorType {
    NotFound,
    BadRequest,
    Unauthorized,
    Forbidden,
}

/// Which response class each error maps to: authentication-shaped failures
/// are unauthorized, missing records are not found, and infrastructure
/// failures (decryption, hashing, store) stay internal (`None`).
pub open spec fn spec_error_class(e: AuthError) -> Option<ServerErrorType> {
    match e {
        AuthError::TokenMalformed => Some(ServerErrorType::Unauthorized),
        AuthError::TokenExpired => Some(ServerErrorType::Unauthorized),
        AuthError::TokenRevoked => Some(ServerErrorType::Unauthorized),
        AuthError::InvalidSubjectEncoding => Some(ServerErrorType::Unauthorized),
        AuthError::UnknownEntityType => Some(ServerErrorType::Unauthorized),
        AuthError::EntityTypeMismatch => Some(ServerErrorType::Unauthorized),
        AuthError::EntityNotFound => Some(ServerErrorType::NotFound),
        AuthError::EntityKeyNotFound => Some(ServerErrorType::NotFound),
        AuthError::DecryptionFailed(_) => None,
        AuthError::CredentialMismatch => Some(ServerErrorType::Unauthorized),
        AuthError::PrincipalDisabled => Some(ServerErrorType::Unauthorized),
        AuthError::StoreUnavailable => None,
        AuthError::HashingFailed => None,
    }
}

/// Maps an error to its response class; `None` means an internal server
/// error.
pub fn error_class(e: AuthError) -> (r: Option<ServerErrorType>)
    ensures
        r == spec_error_class(e),
{
    match e {
        AuthError::TokenMalformed => Some(ServerErrorType::Unauthorized),
        AuthError::TokenExpired => Some(ServerErrorType::Unauthorized),
        AuthError::TokenRevoked => Some(ServerErrorType::Unauthorized),
        AuthError::InvalidSubjectEncoding => Some(ServerErrorType::Unauthorized),
        AuthError::UnknownEntityType => Some(ServerErrorType::Unauthorized),
        AuthError::EntityTypeMismatch => Some(ServerErrorType::Unauthorized),
        AuthError::EntityNotFound => Some(ServerErrorType::NotFound),
        AuthError::EntityKeyNotFound => Some(ServerErrorType::NotFound),
        AuthError::DecryptionFailed(_) => None,
        AuthError::CredentialMismatch => Some(ServerErrorType::Unauthorized),
        AuthError::PrincipalDisabled => Some(ServerErrorType::Unauthorized),
        AuthError::StoreUnavailable => None,
        AuthError::HashingFailed => None,
    }
}

/// The text reported for an error: the generic text alone, unless the
/// development-mode flag is set, in which case the detail is appended after
/// a separator. Outside development mode no internal detail leaks.
pub fn error_text(generic: &str, detail: &str, dev_mode: bool) -> (r: String)
    ensures
        dev_mode ==> r@ == generic@ + ": "@ + detail@,
        !dev_mode ==> r@ == generic@,
{
    let mut out = generic.to_owned();
    if dev_mode {
        out.append(": ");
        out.append(detail);
    }
    out
}

} // verus!
