use vstd::prelude::*;

verus! {

/// A request to register a user.
#[derive(Debug)]
pub struct UserRegisterRequest {
    pub name: String,
    pub login: String,
    pub email: String,
    pub password: String,
    pub version_terms: String,
    pub role_id: u64,
}

/// A request to register an external client application.
#[derive(Debug)]
pub struct ExternalClientRegisterRequest {
    pub name: String,
    pub login: String,
    pub password: String,
}

/// A login or portability-authorization request: a principal's login and
/// candidate password.
#[derive(Debug)]
pub struct LoginRequest {
    pub login: String,
    pub password: String,
}

/// A successful user login: the bearer token, the user's id, and the
/// permission names the caller looked up for the user's role.
#[derive(Debug)]
pub struct UserLoginResponse {
    pub token: String,
    pub id: u64,
    pub permissions: Vec<String>,
}

/// A successful external-client login or portability authorization.
#[derive(Debug)]
pub struct ExternalClientLoginResponse {
    pub token: String,
}

/// A request to validate a token.
#[derive(Debug)]
pub struct ValidateRequest {
    pub token: String,
}

/// The query of the portability consent screen: the external client's own
/// bearer token.
#[derive(Debug)]
pub struct PortabilityScreenQuery {
    pub token: String,
}

/// A user with its identifying fields decrypted, as handed back to callers.
/// The password hash is never part of it.
#[derive(Debug)]
pub struct UserPublic {
    pub id: u64,
    pub name: String,
    pub login: String,
    pub email: String,
    pub version_terms: String,
    pub role_id: u64,
    pub disabled_since: Option<u64>,
}

/// A partial user update; fields left `None` keep their stored value.
#[derive(Debug)]
pub struct UserUpdate {
    pub name: Option<String>,
    pub login: Option<String>,
    pub email: Option<String>,
    pub password: Option<String>,
    pub version_terms: Option<String>,
    pub role_id: Option<u64>,
    pub disabled_since: Option<Option<u64>>,
}

/// The portable profile fields released by the portability protocol: no id,
/// no role, and no password field.
#[derive(Debug)]
pub struct UserPortability {
    pub name: String,
    pub login: String,
    pub email: String,
}

/// An external client with its identifying fields decrypted.
#[derive(Debug)]
pub struct ExternalClientPublic {
    pub id: u64,
    pub name: String,
    pub login: String,
    pub created_at: u64,
    pub disabled_since: Option<u64>,
}

/// A partial external-client update.
#[derive(Debug)]
pub struct ExternalClientUpdate {
    pub name: Option<String>,
    pub login: Option<String>,
    pub password: Option<String>,
    pub disabled_since: Option<Option<u64>>,
}

/// A page request; missing values fall back to the first page of ten.
#[derive(Debug)]
pub struct PaginatedRequest {
    pub page: Option<u64>,
    pub size: Option<u64>,
}

/// One page of results.
#[derive(Debug)]
pub struct PaginatedResponse<T> {
    pub total: u64,
    pub page: u64,
    pub total_pages: u64,
    pub items: Vec<T>,
}

} // verus!
