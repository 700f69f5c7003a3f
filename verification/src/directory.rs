use vstd::prelude::*;

verus! {

use crate::account::{spec_decrypt_user, spec_decrypt_client, spec_sealed, spec_sealed_password};
use crate::account::{decrypt_database_user, decrypt_database_external_client};
use crate::cipher::{encrypt_field, fernet_key_ok};
use crate::credential::bcrypt_hash;
use crate::entity::EntityType;
use crate::errors::{AuthError, DecryptionError};
use crate::keystore::EntityKeyStore;
use crate::models::{
    UserPublic,
    UserUpdate,
    ExternalClientPublic,
    ExternalClientUpdate,
    PaginatedRequest,
    PaginatedResponse,
};
use crate::principal::{PrincipalStore, PrincipalUpdate};

/// The page asked for, first page when absent or zero.
pub open spec fn spec_page(req: PaginatedRequest) -> u64 {
    match req.page {
        Option::Some(p) => if p >= 1 {
            p
        } else {
            1
        },
        Option::None => 1,
    }
}

/// The page size asked for, ten when absent, at least one.
pub open spec fn spec_size(req: PaginatedRequest) -> u64 {
    match req.size {
        Option::Some(s) => if s >= 1 {
            s
        } else {
            1
        },
        Option::None => 10,
    }
}

/// How many pages a listing of `total` records has, by pages of `size`.
pub open spec fn spec_total_pages(total: nat, size: nat) -> nat {
    if total == 0 {
        0
    } else {
        (((total - 1) / (size as int)) + 1) as nat
    }
}

/// What fetching row `j` of a user listing yields: the row's key, then its
/// decrypted fields.
pub open spec fn spec_user_row(
    users: PrincipalStore,
    keys: EntityKeyStore,
    j: int,
    now: u64,
) -> Result<(Seq<char>, Seq<char>, Seq<char>), AuthError> {
    match keys.key_of(users.spec_rows()[j].id, EntityType::User) {
        Option::None => Err(AuthError::EntityKeyNotFound),
        Option::Some(key) => spec_decrypt_user(users.spec_rows()[j], key, now),
    }
}

/// Whether a public user entry faithfully renders row `j`.
pub open spec fn spec_user_entry(
    users: PrincipalStore,
    keys: EntityKeyStore,
    j: int,
    p: UserPublic,
    now: u64,
) -> bool {
    let rec = users.spec_rows()[j];
    &&& spec_user_row(users, keys, j, now) == Ok::<(Seq<char>, Seq<char>, Seq<char>), AuthError>(
        (p.name@, p.email@, p.version_terms@),
    )
    &&& p.id == rec.id
    &&& p.login@ == rec.login@
    &&& p.role_id == rec.role_id
    &&& p.disabled_since == rec.disabled_since
}

/// Fetches one user by id and decrypts it with its own key.
pub fn get_user(users: &PrincipalStore, keys: &EntityKeyStore, user_id: u64, now: u64) -> (r:
    Result<UserPublic, AuthError>)
    requires
        now <= u64::MAX - 60,
    ensures
        match r {
            Ok(p) => users.spec_by_id(user_id) matches Some(rec) && p.id == rec.id && p.login@
                == rec.login@ && p.role_id == rec.role_id && p.disabled_since == rec.disabled_since
                && match keys.key_of(rec.id, EntityType::User) {
                Option::None => false,
                Option::Some(key) => spec_decrypt_user(rec, key, now) == Ok::<
                    (Seq<char>, Seq<char>, Seq<char>),
                    AuthError,
                >((p.name@, p.email@, p.version_terms@)),
            },
            Err(e) => match users.spec_by_id(user_id) {
                Option::None => e == AuthError::EntityNotFound,
                Option::Some(rec) => match keys.key_of(rec.id, EntityType::User) {
                    Option::None => e == AuthError::EntityKeyNotFound,
                    Option::Some(key) => spec_decrypt_user(rec, key, now) == Err::<
                        (Seq<char>, Seq<char>, Seq<char>),
                        AuthError,
                    >(e),
                },
            },
        },
{
    let rec = match users.find_by_id(user_id) {
        Option::None => {
            return Err(AuthError::EntityNotFound);
        },
        Option::Some(rec) => rec,
    };
    let key = match keys.find_key(rec.id, EntityType::User) {
        Option::None => {
            return Err(AuthError::EntityKeyNotFound);
        },
        Option::Some(k) => k,
    };
    decrypt_database_user(key.as_str(), rec, now)
}

/// Fetches one external client by id and decrypts it with its own key.
pub fn get_external_client(
    clients: &PrincipalStore,
    keys: &EntityKeyStore,
    client_id: u64,
    now: u64,
) -> (r: Result<ExternalClientPublic, AuthError>)
    requires
        now <= u64::MAX - 60,
    ensures
        match r {
            Ok(p) => clients.spec_by_id(client_id) matches Some(rec) && p.id == rec.id && p.login@
                == rec.login@ && p.created_at == rec.created_at && p.disabled_since
                == rec.disabled_since && match keys.key_of(rec.id, EntityType::ExternalClient) {
                Option::None => false,
                Option::Some(key) => spec_decrypt_client(rec, key, now) == Ok::<
                    Seq<char>,
                    AuthError,
                >(p.name@),
            },
            Err(e) => match clients.spec_by_id(client_id) {
                Option::None => e == AuthError::EntityNotFound,
                Option::Some(rec) => match keys.key_of(rec.id, EntityType::ExternalClient) {
                    Option::None => e == AuthError::EntityKeyNotFound,
                    Option::Some(key) => spec_decrypt_client(rec, key, now) == Err::<
                        Seq<char>,
                        AuthError,
                    >(e),
                },
            },
        },
{
    let rec = match clients.find_by_id(client_id) {
        Option::None => {
            return Err(AuthError::EntityNotFound);
        },
        Option::Some(rec) => rec,
    };
    let key = match keys.find_key(rec.id, EntityType::ExternalClient) {
        Option::None => {
            return Err(AuthError::EntityKeyNotFound);
        },
        Option::Some(k) => k,
    };
    decrypt_database_external_client(key.as_str(), rec, now)
}

/// Lists one page of users, each decrypted with its own key: rows
/// `(page-1)*size` up to the page's end, in store order. The reported
/// total counts the entries on this page.
pub fn get_users(
    users: &PrincipalStore,
    keys: &EntityKeyStore,
    pagination: &PaginatedRequest,
    now: u64,
) -> (r: Result<PaginatedResponse<UserPublic>, AuthError>)
    requires
        now <= u64::MAX - 60,
    ensures
        match r {
            Ok(resp) => {
                let page = spec_page(*pagination);
                let size = spec_size(*pagination);
                let total = users.spec_rows().len() as int;
                let offset = (page - 1) * size;
                &&& resp.page == page
                &&& resp.total_pages == spec_total_pages(users.spec_rows().len(), size as nat)
                &&& resp.total == resp.items@.len()
                &&& resp.items@.len() == (if offset >= total {
                    0
                } else if offset + size <= total {
                    size as int
                } else {
                    total - offset
                })
                &&& forall|k: int|
                    0 <= k < resp.items@.len() ==> spec_user_entry(
                        *users,
                        *keys,
                        offset + k,
                        #[trigger] resp.items@[k],
                        now,
                    )
            },
            Err(e) => {
                let page = spec_page(*pagination);
                let size = spec_size(*pagination);
                let total = users.spec_rows().len() as int;
                let offset = (page - 1) * size;
                exists|j: int|
                    offset <= j < total && #[trigger] spec_user_row(*users, *keys, j, now) == Err::<
                        (Seq<char>, Seq<char>, Seq<char>),
                        AuthError,
                    >(e)
            },
        },
{
    let page: u64 = match pagination.page {
        Option::Some(p) => if p >= 1 {
            p
        } else {
            1
        },
        Option::None => 1,
    };
    let size: u64 = match pagination.size {
        Option::Some(s) => if s >= 1 {
            s
        } else {
            1
        },
        Option::None => 10,
    };
    let count = users.count();
    let p64: u64 = page - 1;
    proof {
        assert((p64 as int) * (size as int) <= (u64::MAX as int) * (u64::MAX as int))
            by (nonlinear_arith)
            requires
                0 <= p64 as int <= u64::MAX as int,
                0 <= size as int <= u64::MAX as int,
        ;
    }
    let offset128: u128 = (p64 as u128) * (size as u128);
    let take: usize = if offset128 >= count as u128 {
        0
    } else {
        let off = offset128 as usize;
        let rem = count - off;
        if (size as u128) < (rem as u128) {
            size as usize
        } else {
            rem
        }
    };
    let offset: usize = if take == 0 {
        0
    } else {
        offset128 as usize
    };
    let ghost spec_offset = (spec_page(*pagination) - 1) * spec_size(*pagination);
    proof {
        assert(offset128 as int == spec_offset);
    }
    let mut items: Vec<UserPublic> = Vec::new();
    let mut k: usize = 0;
    while k < take
        invariant
            k <= take,
            spec_offset == (spec_page(*pagination) - 1) * spec_size(*pagination),
            take == 0 || offset == spec_offset,
            offset + take <= users.spec_rows().len(),
            users.spec_rows().len() <= usize::MAX,
            now <= u64::MAX - 60,
            items@.len() == k,
            forall|j: int|
                0 <= j < k ==> spec_user_entry(
                    *users,
                    *keys,
                    spec_offset + j,
                    #[trigger] items@[j],
                    now,
                ),
        decreases take - k,
    {
        let rec = users.row(offset + k);
        let ghost j = spec_offset + k;
        let key = match keys.find_key(rec.id, EntityType::User) {
            Option::None => {
                proof {
                    assert(spec_user_row(*users, *keys, j, now) == Err::<
                        (Seq<char>, Seq<char>, Seq<char>),
                        AuthError,
                    >(AuthError::EntityKeyNotFound));
                }
                return Err(AuthError::EntityKeyNotFound);
            },
            Option::Some(key) => key,
        };
        let entry = match decrypt_database_user(key.as_str(), rec, now) {
            Err(e) => {
                proof {
                    assert(spec_user_row(*users, *keys, j, now) == Err::<
                        (Seq<char>, Seq<char>, Seq<char>),
                        AuthError,
                    >(e));
                }
                return Err(e);
            },
            Ok(p) => p,
        };
        items.push(entry);
        k += 1;
    }
    let total_pages: u64 = if count == 0 {
        0
    } else {
        ((count - 1) as u64) / size + 1
    };
    let total: u64 = items.len() as u64;
    Ok(PaginatedResponse { total, page, total_pages, items })
}

/// What fetching row `j` of a client listing yields.
pub open spec fn spec_client_row(
    clients: PrincipalStore,
    keys: EntityKeyStore,
    j: int,
    now: u64,
) -> Result<Seq<char>, AuthError> {
    match keys.key_of(clients.spec_rows()[j].id, EntityType::ExternalClient) {
        Option::None => Err(AuthError::EntityKeyNotFound),
        Option::Some(key) => spec_decrypt_client(clients.spec_rows()[j], key, now),
    }
}

/// Whether a public client entry faithfully renders row `j`.
pub open spec fn spec_client_entry(
    clients: PrincipalStore,
    keys: EntityKeyStore,
    j: int,
    p: ExternalClientPublic,
    now: u64,
) -> bool {
    let rec = clients.spec_rows()[j];
    &&& spec_client_row(clients, keys, j, now) == Ok::<Seq<char>, AuthError>(p.name@)
    &&& p.id == rec.id
    &&& p.login@ == rec.login@
    &&& p.created_at == rec.created_at
    &&& p.disabled_since == rec.disabled_since
}

/// Lists one page of external clients, each decrypted with its own key.
pub fn get_external_clients(
    clients: &PrincipalStore,
    keys: &EntityKeyStore,
    pagination: &PaginatedRequest,
    now: u64,
) -> (r: Result<PaginatedResponse<ExternalClientPublic>, AuthError>)
    requires
        now <= u64::MAX - 60,
    ensures
        match r {
            Ok(resp) => {
                let page = spec_page(*pagination);
                let size = spec_size(*pagination);
                let total = clients.spec_rows().len() as int;
                let offset = (page - 1) * size;
                &&& resp.page == page
                &&& resp.total_pages == spec_total_pages(clients.spec_rows().len(), size as nat)
                &&& resp.total == resp.items@.len()
                &&& resp.items@.len() == (if offset >= total {
                    0
                } else if offset + size <= total {
                    size as int
                } else {
                    total - offset
                })
                &&& forall|k: int|
                    0 <= k < resp.items@.len() ==> spec_client_entry(
                        *clients,
                        *keys,
                        offset + k,
                        #[trigger] resp.items@[k],
                        now,
                    )
            },
            Err(e) => {
                let page = spec_page(*pagination);
                let size = spec_size(*pagination);
                let total = clients.spec_rows().len() as int;
                let offset = (page - 1) * size;
                exists|j: int|
                    offset <= j < total && #[trigger] spec_client_row(*clients, *keys, j, now)
                        == Err::<Seq<char>, AuthError>(e)
            },
        },
{
    let page: u64 = match pagination.page {
        Option::Some(p) => if p >= 1 {
            p
        } else {
            1
        },
        Option::None => 1,
    };
    let size: u64 = match pagination.size {
        Option::Some(s) => if s >= 1 {
            s
        } else {
            1
        },
        Option::None => 10,
    };
    let count = clients.count();
    let p64: u64 = page - 1;
    proof {
        assert((p64 as int) * (size as int) <= (u64::MAX as int) * (u64::MAX as int))
            by (nonlinear_arith)
            requires
                0 <= p64 as int <= u64::MAX as int,
                0 <= size as int <= u64::MAX as int,
        ;
    }
    let offset128: u128 = (p64 as u128) * (size as u128);
    let take: usize = if offset128 >= count as u128 {
        0
    } else {
        let off = offset128 as usize;
        let rem = count - off;
        if (size as u128) < (rem as u128) {
            size as usize
        } else {
            rem
        }
    };
    let offset: usize = if take == 0 {
        0
    } else {
        offset128 as usize
    };
    let ghost spec_offset = (spec_page(*pagination) - 1) * spec_size(*pagination);
    proof {
        assert(offset128 as int == spec_offset);
    }
    let mut items: Vec<ExternalClientPublic> = Vec::new();
    let mut k: usize = 0;
    while k < take
        invariant
            k <= take,
            spec_offset == (spec_page(*pagination) - 1) * spec_size(*pagination),
            take == 0 || offset == spec_offset,
            offset + take <= clients.spec_rows().len(),
            clients.spec_rows().len() <= usize::MAX,
            now <= u64::MAX - 60,
            items@.len() == k,
            forall|j: int|
                0 <= j < k ==> spec_client_entry(
                    *clients,
                    *keys,
                    spec_offset + j,
                    #[trigger] items@[j],
                    now,
                ),
        decreases take - k,
    {
        let rec = clients.row(offset + k);
        let ghost j = spec_offset + k;
        let key = match keys.find_key(rec.id, EntityType::ExternalClient) {
            Option::None => {
                proof {
                    assert(spec_client_row(*clients, *keys, j, now) == Err::<
                        Seq<char>,
                        AuthError,
                    >(AuthError::EntityKeyNotFound));
                }
                return Err(AuthError::EntityKeyNotFound);
            },
            Option::Some(key) => key,
        };
        let entry = match decrypt_database_external_client(key.as_str(), rec, now) {
            Err(e) => {
                proof {
                    assert(spec_client_row(*clients, *keys, j, now) == Err::<Seq<char>, AuthError>(
                        e,
                    ));
                }
                return Err(e);
            },
            Ok(p) => p,
        };
        items.push(entry);
        k += 1;
    }
    let total_pages: u64 = if count == 0 {
        0
    } else {
        ((count - 1) as u64) / size + 1
    };
    let total: u64 = items.len() as u64;
    Ok(PaginatedResponse { total, page, total_pages, items })
}

/// Applies a partial update to a user: a new password is bcrypt-hashed,
/// and every supplied identifying field is freshly sealed under the user's
/// own key before it replaces the stored one.
pub fn update_user(
    users: &mut PrincipalStore,
    keys: &EntityKeyStore,
    user_id: u64,
    upd: &UserUpdate,
    now: u64,
) -> (r: Result<(), AuthError>)
    requires
        old(users).wf(),
    ensures
        final(users).wf(),
        match r {
            Ok(_) => {
                &&& old(users).spec_by_id(user_id) is Some
                &&& keys.key_of(user_id, EntityType::User) matches Some(key)
                    && final(users).spec_by_id(user_id) matches Some(rec2) && {
                    &&& rec2.id == user_id
                    &&& (match upd.login {
                        Option::Some(l) => rec2.login@ == l@,
                        Option::None => rec2.login@ == old(users).spec_by_id(
                            user_id,
                        ).unwrap().login@,
                    })
                    &&& (match upd.role_id {
                        Option::Some(v) => rec2.role_id == v,
                        Option::None => rec2.role_id == old(users).spec_by_id(
                            user_id,
                        ).unwrap().role_id,
                    })
                    &&& (match upd.disabled_since {
                        Option::Some(d) => rec2.disabled_since == d,
                        Option::None => rec2.disabled_since == old(users).spec_by_id(
                            user_id,
                        ).unwrap().disabled_since,
                    })
                    &&& (match upd.name {
                        Option::Some(v) => spec_sealed(key, rec2.name_enc@, v@, now),
                        Option::None => rec2.name_enc@ == old(users).spec_by_id(
                            user_id,
                        ).unwrap().name_enc@,
                    })
                    &&& (match upd.email {
                        Option::Some(v) => spec_sealed(key, rec2.email_enc@, v@, now),
                        Option::None => rec2.email_enc@ == old(users).spec_by_id(
                            user_id,
                        ).unwrap().email_enc@,
                    })
                    &&& (match upd.version_terms {
                        Option::Some(v) => spec_sealed(key, rec2.version_terms_enc@, v@, now),
                        Option::None => rec2.version_terms_enc@ == old(users).spec_by_id(
                            user_id,
                        ).unwrap().version_terms_enc@,
                    })
                    &&& (match upd.password {
                        Option::Some(v) => spec_sealed_password(key, rec2.password_enc@, v@, now),
                        Option::None => rec2.password_enc@ == old(users).spec_by_id(
                            user_id,
                        ).unwrap().password_enc@,
                    })
                }
                &&& forall|i2: u64|
                    i2 != user_id ==> #[trigger] final(users).spec_by_id(i2) == old(
                        users,
                    ).spec_by_id(i2)
            },
            Err(e) => {
                &&& *final(users) == *old(users)
                &&& match e {
                    AuthError::EntityNotFound => old(users).spec_by_id(user_id) is None,
                    AuthError::EntityKeyNotFound => old(users).spec_by_id(user_id) is Some
                        && keys.key_of(user_id, EntityType::User) is None,
                    AuthError::HashingFailed => {
                        &&& old(users).spec_by_id(user_id) is Some
                        &&& keys.key_of(user_id, EntityType::User) is Some
                        &&& upd.password is Some
                    },
                    AuthError::DecryptionFailed(_) => {
                        &&& old(users).spec_by_id(user_id) is Some
                        &&& keys.key_of(user_id, EntityType::User) matches Some(key)
                            && !fernet_key_ok(key)
                        &&& (upd.name is Some || upd.email is Some || upd.version_terms is Some
                            || upd.password is Some)
                    },
                    AuthError::StoreUnavailable => {
                        &&& old(users).spec_by_id(user_id) is Some
                        &&& keys.key_of(user_id, EntityType::User) is Some
                        &&& upd.login matches Some(l) && old(users).spec_by_login(l@)
                            matches Some(other) && other.id != user_id
                    },
                    _ => false,
                }
            },
        },
{
    let rec = match users.find_by_id(user_id) {
        Option::None => {
            return Err(AuthError::EntityNotFound);
        },
        Option::Some(rec) => rec,
    };
    let key = match keys.find_key(user_id, EntityType::User) {
        Option::None => {
            return Err(AuthError::EntityKeyNotFound);
        },
        Option::Some(k) => k,
    };
    let name_enc = match &upd.name {
        Option::None => Option::None,
        Option::Some(v) => match encrypt_field(key.as_str(), v.as_str(), now) {
            Option::None => {
                return Err(AuthError::DecryptionFailed(DecryptionError::Decryption));
            },
            Option::Some(c) => Option::Some(c),
        },
    };
    let email_enc = match &upd.email {
        Option::None => Option::None,
        Option::Some(v) => match encrypt_field(key.as_str(), v.as_str(), now) {
            Option::None => {
                return Err(AuthError::DecryptionFailed(DecryptionError::Decryption));
            },
            Option::Some(c) => Option::Some(c),
        },
    };
    let version_terms_enc = match &upd.version_terms {
        Option::None => Option::None,
        Option::Some(v) => match encrypt_field(key.as_str(), v.as_str(), now) {
            Option::None => {
                return Err(AuthError::DecryptionFailed(DecryptionError::Decryption));
            },
            Option::Some(c) => Option::Some(c),
        },
    };
    let password_enc = match &upd.password {
        Option::None => Option::None,
        Option::Some(v) => match bcrypt_hash(v.as_str()) {
            Option::None => {
                return Err(AuthError::HashingFailed);
            },
            Option::Some(h) => match encrypt_field(key.as_str(), h.as_str(), now) {
                Option::None => {
                    return Err(AuthError::DecryptionFailed(DecryptionError::Decryption));
                },
                Option::Some(c) => Option::Some(c),
            },
        },
    };
    let login = match &upd.login {
        Option::None => Option::None,
        Option::Some(l) => Option::Some(l.clone()),
    };
    let merged = PrincipalUpdate {
        login,
        name_enc,
        email_enc,
        password_enc,
        version_terms_enc,
        role_id: upd.role_id,
        disabled_since: upd.disabled_since,
    };
    users.update(user_id, merged)
}

/// Applies a partial update to an external client, sealing supplied fields
/// under the client's own key.
pub fn update_external_client(
    clients: &mut PrincipalStore,
    keys: &EntityKeyStore,
    client_id: u64,
    upd: &ExternalClientUpdate,
    now: u64,
) -> (r: Result<(), AuthError>)
    requires
        old(clients).wf(),
    ensures
        final(clients).wf(),
        match r {
            Ok(_) => {
                &&& old(clients).spec_by_id(client_id) is Some
                &&& keys.key_of(client_id, EntityType::ExternalClient) matches Some(key)
                    && final(clients).spec_by_id(client_id) matches Some(rec2) && {
                    &&& rec2.id == client_id
                    &&& (match upd.login {
                        Option::Some(l) => rec2.login@ == l@,
                        Option::None => rec2.login@ == old(clients).spec_by_id(
                            client_id,
                        ).unwrap().login@,
                    })
                    &&& (match upd.disabled_since {
                        Option::Some(d) => rec2.disabled_since == d,
                        Option::None => rec2.disabled_since == old(clients).spec_by_id(
                            client_id,
                        ).unwrap().disabled_since,
                    })
                    &&& (match upd.name {
                        Option::Some(v) => spec_sealed(key, rec2.name_enc@, v@, now),
                        Option::None => rec2.name_enc@ == old(clients).spec_by_id(
                            client_id,
                        ).unwrap().name_enc@,
                    })
                    &&& (match upd.password {
                        Option::Some(v) => spec_sealed_password(key, rec2.password_enc@, v@, now),
                        Option::None => rec2.password_enc@ == old(clients).spec_by_id(
                            client_id,
                        ).unwrap().password_enc@,
                    })
                }
                &&& forall|i2: u64|
                    i2 != client_id ==> #[trigger] final(clients).spec_by_id(i2) == old(
                        clients,
                    ).spec_by_id(i2)
            },
            Err(e) => {
                &&& *final(clients) == *old(clients)
                &&& match e {
                    AuthError::EntityNotFound => old(clients).spec_by_id(client_id) is None,
                    AuthError::EntityKeyNotFound => old(clients).spec_by_id(client_id) is Some
                        && keys.key_of(client_id, EntityType::ExternalClient) is None,
                    AuthError::HashingFailed => {
                        &&& old(clients).spec_by_id(client_id) is Some
                        &&& keys.key_of(client_id, EntityType::ExternalClient) is Some
                        &&& upd.password is Some
                    },
                    AuthError::DecryptionFailed(_) => {
                        &&& old(clients).spec_by_id(client_id) is Some
                        &&& keys.key_of(client_id, EntityType::ExternalClient) matches Some(key)
                            && !fernet_key_ok(key)
                        &&& (upd.name is Some || upd.password is Some)
                    },
                    AuthError::StoreUnavailable => {
                        &&& old(clients).spec_by_id(client_id) is Some
                        &&& keys.key_of(client_id, EntityType::ExternalClient) is Some
                        &&& upd.login matches Some(l) && old(clients).spec_by_login(l@)
                            matches Some(other) && other.id != client_id
                    },
                    _ => false,
                }
            },
        },
{
    let rec = match clients.find_by_id(client_id) {
        Option::None => {
            return Err(AuthError::EntityNotFound);
        },
        Option::Some(rec) => rec,
    };
    let key = match keys.find_key(client_id, EntityType::ExternalClient) {
        Option::None => {
            return Err(AuthError::EntityKeyNotFound);
        },
        Option::Some(k) => k,
    };
    let name_enc = match &upd.name {
        Option::None => Option::None,
        Option::Some(v) => match encrypt_field(key.as_str(), v.as_str(), now) {
            Option::None => {
                return Err(AuthError::DecryptionFailed(DecryptionError::Decryption));
            },
            Option::Some(c) => Option::Some(c),
        },
    };
    let password_enc = match &upd.password {
        Option::None => Option::None,
        Option::Some(v) => match bcrypt_hash(v.as_str()) {
            Option::None => {
                return Err(AuthError::HashingFailed);
            },
            Option::Some(h) => match encrypt_field(key.as_str(), h.as_str(), now) {
                Option::None => {
                    return Err(AuthError::DecryptionFailed(DecryptionError::Decryption));
                },
                Option::Some(c) => Option::Some(c),
            },
        },
    };
    let login = match &upd.login {
        Option::None => Option::None,
        Option::Some(l) => Option::Some(l.clone()),
    };
    let merged = PrincipalUpdate {
        login,
        name_enc,
        email_enc: Option::None,
        password_enc,
        version_terms_enc: Option::None,
        role_id: Option::None,
        disabled_since: upd.disabled_since,
    };
    clients.update(client_id, merged)
}

/// Deletes a user by id.
pub fn delete_user(users: &mut PrincipalStore, user_id: u64) -> (r: Result<(), AuthError>)
    requires
        old(users).wf(),
    ensures
        final(users).wf(),
        match r {
            Ok(_) => {
                &&& old(users).spec_by_id(user_id) is Some
                &&& final(users).spec_by_id(user_id) is None
                &&& forall|i2: u64|
                    i2 != user_id ==> #[trigger] final(users).spec_by_id(i2) == old(
                        users,
                    ).spec_by_id(i2)
            },
            Err(e) => {
                &&& *final(users) == *old(users)
                &&& e == AuthError::EntityNotFound
                &&& old(users).spec_by_id(user_id) is None
            },
        },
{
    users.remove(user_id)
}

/// Deletes an external client by id.
pub fn delete_external_client(clients: &mut PrincipalStore, client_id: u64) -> (r: Result<
    (),
    AuthError,
>)
    requires
        old(clients).wf(),
    ensures
        final(clients).wf(),
        match r {
            Ok(_) => {
                &&& old(clients).spec_by_id(client_id) is Some
                &&& final(clients).spec_by_id(client_id) is None
                &&& forall|i2: u64|
                    i2 != client_id ==> #[trigger] final(clients).spec_by_id(i2) == old(
                        clients,
                    ).spec_by_id(i2)
            },
            Err(e) => {
                &&& *final(clients) == *old(clients)
                &&& e == AuthError::EntityNotFound
                &&& old(clients).spec_by_id(client_id) is None
            },
        },
{
    clients.remove(client_id)
}

} // verus!
