use vstd::prelude::*;

verus! {

use crate::entity::str_eq;
use crate::errors::AuthError;

/// One stored principal (a user or an external client). Identifying fields
/// are kept encrypted under the principal's own key; only `login` is plain,
/// as the lookup key. Fields a kind does not use stay empty.
pub struct PrincipalRecord {
    pub id: u64,
    /// Plaintext lookup key, unique across the store.
    pub login: String,
    pub name_enc: String,
    pub email_enc: String,
    /// The bcrypt hash of the password, encrypted at rest.
    pub password_enc: String,
    pub version_terms_enc: String,
    pub role_id: u64,
    pub created_at: u64,
    /// Set when the principal is disabled; a disabled principal cannot
    /// authenticate in any flow.
    pub disabled_since: Option<u64>,
}

/// A partial update: fields left `None` keep their stored value.
pub struct PrincipalUpdate {
    pub login: Option<String>,
    pub name_enc: Option<String>,
    pub email_enc: Option<String>,
    pub password_enc: Option<String>,
    pub version_terms_enc: Option<String>,
    pub role_id: Option<u64>,
    pub disabled_since: Option<Option<u64>>,
}

/// The record as stored after assigning it an id.
pub open spec fn spec_with_id(rec: PrincipalRecord, id: u64) -> PrincipalRecord {
    PrincipalRecord { id, ..rec }
}

/// The record resulting from applying a partial update.
pub open spec fn spec_merge(rec: PrincipalRecord, upd: PrincipalUpdate) -> PrincipalRecord {
    PrincipalRecord {
        id: rec.id,
        login: if upd.login is Some {
            upd.login.unwrap()
        } else {
            rec.login
        },
        name_enc: if upd.name_enc is Some {
            upd.name_enc.unwrap()
        } else {
            rec.name_enc
        },
        email_enc: if upd.email_enc is Some {
            upd.email_enc.unwrap()
        } else {
            rec.email_enc
        },
        password_enc: if upd.password_enc is Some {
            upd.password_enc.unwrap()
        } else {
            rec.password_enc
        },
        version_terms_enc: if upd.version_terms_enc is Some {
            upd.version_terms_enc.unwrap()
        } else {
            rec.version_terms_enc
        },
        role_id: if upd.role_id is Some {
            upd.role_id.unwrap()
        } else {
            rec.role_id
        },
        created_at: rec.created_at,
        disabled_since: if upd.disabled_since is Some {
            upd.disabled_since.unwrap()
        } else {
            rec.disabled_since
        },
    }
}

/// The first record in `rows` with this login, if any.
pub open spec fn spec_login_in(rows: Seq<PrincipalRecord>, login: Seq<char>) -> Option<
    PrincipalRecord,
>
    decreases rows.len(),
{
    if rows.len() == 0 {
        Option::None
    } else if rows[0].login@ == login {
        Option::Some(rows[0])
    } else {
        spec_login_in(rows.drop_first(), login)
    }
}

/// The first record in `rows` with this id, if any.
pub open spec fn spec_id_in(rows: Seq<PrincipalRecord>, id: u64) -> Option<PrincipalRecord>
    decreases rows.len(),
{
    if rows.len() == 0 {
        Option::None
    } else if rows[0].id == id {
        Option::Some(rows[0])
    } else {
        spec_id_in(rows.drop_first(), id)
    }
}

proof fn lemma_login_found(rows: Seq<PrincipalRecord>, login: Seq<char>)
    requires
        spec_login_in(rows, login) is Some,
    ensures
        exists|j: int|
            0 <= j < rows.len() && rows[j] == spec_login_in(rows, login).unwrap() && #[trigger] rows[j].login@
                == login,
    decreases rows.len(),
{
    if rows.len() > 0 && rows[0].login@ != login {
        lemma_login_found(rows.drop_first(), login);
        let j = choose|j: int|
            0 <= j < rows.drop_first().len() && rows.drop_first()[j] == spec_login_in(
                rows.drop_first(),
                login,
            ).unwrap() && #[trigger] rows.drop_first()[j].login@ == login;
        assert(rows[j + 1] == rows.drop_first()[j]);
    }
}

proof fn lemma_login_all_absent(rows: Seq<PrincipalRecord>, login: Seq<char>)
    requires
        forall|j: int| 0 <= j < rows.len() ==> #[trigger] rows[j].login@ != login,
    ensures
        spec_login_in(rows, login) is None,
    decreases rows.len(),
{
    if rows.len() > 0 {
        assert forall|j: int| 0 <= j < rows.drop_first().len() implies #[trigger] rows.drop_first()[j].login@
            != login by {
            assert(rows.drop_first()[j] == rows[j + 1]);
        }
        lemma_login_all_absent(rows.drop_first(), login);
    }
}

proof fn lemma_login_absent(rows: Seq<PrincipalRecord>, login: Seq<char>)
    requires
        spec_login_in(rows, login) is None,
    ensures
        forall|j: int| 0 <= j < rows.len() ==> #[trigger] rows[j].login@ != login,
    decreases rows.len(),
{
    if rows.len() > 0 {
        lemma_login_absent(rows.drop_first(), login);
        assert forall|j: int| 0 <= j < rows.len() implies #[trigger] rows[j].login@ != login by {
            if j > 0 {
                assert(rows.drop_first()[j - 1] == rows[j]);
            }
        }
    }
}

proof fn lemma_login_at(rows: Seq<PrincipalRecord>, j: int)
    requires
        forall|a: int, b: int|
            0 <= a < b < rows.len() ==> #[trigger] rows[a].login@ != #[trigger] rows[b].login@,
        0 <= j < rows.len(),
    ensures
        spec_login_in(rows, rows[j].login@) == Some(rows[j]),
    decreases rows.len(),
{
    if j > 0 {
        assert(rows[0].login@ != rows[j].login@);
        assert forall|a: int, b: int|
            0 <= a < b < rows.drop_first().len() implies #[trigger] rows.drop_first()[a].login@
            != #[trigger] rows.drop_first()[b].login@ by {
            assert(rows.drop_first()[a] == rows[a + 1]);
            assert(rows.drop_first()[b] == rows[b + 1]);
        }
        lemma_login_at(rows.drop_first(), j - 1);
        assert(rows.drop_first()[j - 1] == rows[j]);
    }
}

proof fn lemma_id_found(rows: Seq<PrincipalRecord>, id: u64)
    requires
        spec_id_in(rows, id) is Some,
    ensures
        exists|j: int|
            0 <= j < rows.len() && rows[j] == spec_id_in(rows, id).unwrap() && #[trigger] rows[j].id
                == id,
    decreases rows.len(),
{
    if rows.len() > 0 && rows[0].id != id {
        lemma_id_found(rows.drop_first(), id);
        let j = choose|j: int|
            0 <= j < rows.drop_first().len() && rows.drop_first()[j] == spec_id_in(
                rows.drop_first(),
                id,
            ).unwrap() && #[trigger] rows.drop_first()[j].id == id;
        assert(rows[j + 1] == rows.drop_first()[j]);
    }
}

proof fn lemma_id_all_absent(rows: Seq<PrincipalRecord>, id: u64)
    requires
        forall|j: int| 0 <= j < rows.len() ==> #[trigger] rows[j].id != id,
    ensures
        spec_id_in(rows, id) is None,
    decreases rows.len(),
{
    if rows.len() > 0 {
        assert forall|j: int| 0 <= j < rows.drop_first().len() implies #[trigger] rows.drop_first()[j].id
            != id by {
            assert(rows.drop_first()[j] == rows[j + 1]);
        }
        lemma_id_all_absent(rows.drop_first(), id);
    }
}

proof fn lemma_id_absent(rows: Seq<PrincipalRecord>, id: u64)
    requires
        spec_id_in(rows, id) is None,
    ensures
        forall|j: int| 0 <= j < rows.len() ==> #[trigger] rows[j].id != id,
    decreases rows.len(),
{
    if rows.len() > 0 {
        lemma_id_absent(rows.drop_first(), id);
        assert forall|j: int| 0 <= j < rows.len() implies #[trigger] rows[j].id != id by {
            if j > 0 {
                assert(rows.drop_first()[j - 1] == rows[j]);
            }
        }
    }
}

proof fn lemma_id_at(rows: Seq<PrincipalRecord>, j: int)
    requires
        forall|a: int, b: int|
            0 <= a < b < rows.len() ==> #[trigger] rows[a].id != #[trigger] rows[b].id,
        0 <= j < rows.len(),
    ensures
        spec_id_in(rows, rows[j].id) == Some(rows[j]),
    decreases rows.len(),
{
    if j > 0 {
        assert(rows[0].id != rows[j].id);
        assert forall|a: int, b: int|
            0 <= a < b < rows.drop_first().len() implies #[trigger] rows.drop_first()[a].id
            != #[trigger] rows.drop_first()[b].id by {
            assert(rows.drop_first()[a] == rows[a + 1]);
            assert(rows.drop_first()[b] == rows[b + 1]);
        }
        lemma_id_at(rows.drop_first(), j - 1);
        assert(rows.drop_first()[j - 1] == rows[j]);
    }
}

/// The store of principal records of one kind, with unique ids (assigned at
/// insertion) and unique logins.
pub struct PrincipalStore {
    next_id: u64,
    rows: Vec<PrincipalRecord>,
}

impl PrincipalStore {
    /// Ids and logins are unique, and every stored id is below the next one
    /// to be assigned.
    pub closed spec fn wf(self) -> bool {
        &&& forall|a: int, b: int|
            0 <= a < b < self.rows@.len() ==> #[trigger] self.rows@[a].id
                != #[trigger] self.rows@[b].id
        &&& forall|a: int, b: int|
            0 <= a < b < self.rows@.len() ==> #[trigger] self.rows@[a].login@
                != #[trigger] self.rows@[b].login@
        &&& forall|a: int| 0 <= a < self.rows@.len() ==> #[trigger] self.rows@[a].id < self.next_id
    }

    /// The record with this login, if any.
    pub closed spec fn spec_by_login(self, login: Seq<char>) -> Option<PrincipalRecord> {
        spec_login_in(self.rows@, login)
    }

    /// The record with this id, if any.
    pub closed spec fn spec_by_id(self, id: u64) -> Option<PrincipalRecord> {
        spec_id_in(self.rows@, id)
    }

    /// All records, in insertion order.
    pub closed spec fn spec_rows(self) -> Seq<PrincipalRecord> {
        self.rows@
    }

    /// Whether a fresh id can still be assigned.
    pub closed spec fn spec_can_assign(self) -> bool {
        self.next_id < u64::MAX
    }

    /// In a well-formed store, the record found by id is also the record
    /// found by its own login.
    pub proof fn lemma_by_id_gives_by_login(self, id: u64)
        requires
            self.wf(),
            self.spec_by_id(id) is Some,
        ensures
            self.spec_by_login(self.spec_by_id(id).unwrap().login@) == self.spec_by_id(id),
    {
        lemma_id_found(self.rows@, id);
        let j = choose|j: int|
            0 <= j < self.rows@.len() && self.rows@[j] == spec_id_in(self.rows@, id).unwrap()
                && #[trigger] self.rows@[j].id == id;
        lemma_login_at(self.rows@, j);
    }

    /// An empty store.
    pub fn new() -> (r: PrincipalStore)
        ensures
            r.wf(),
            r.spec_can_assign(),
            forall|login: Seq<char>| #[trigger] r.spec_by_login(login) is None,
            forall|id: u64| #[trigger] r.spec_by_id(id) is None,
            r.spec_rows() =~= Seq::<PrincipalRecord>::empty(),
    {
        PrincipalStore { next_id: 0, rows: Vec::new() }
    }

    /// How many records the store holds.
    pub fn count(&self) -> (r: usize)
        ensures
            r == self.spec_rows().len(),
    {
        self.rows.len()
    }

    /// The record at one position, in insertion order.
    pub fn row(&self, i: usize) -> (r: &PrincipalRecord)
        requires
            i < self.spec_rows().len(),
        ensures
            *r == self.spec_rows()[i as int],
    {
        &self.rows[i]
    }

    /// Looks a principal up by its plaintext login.
    pub fn find_by_login(&self, login: &str) -> (r: Option<&PrincipalRecord>)
        ensures
            r matches Some(rec) ==> self.spec_by_login(login@) == Some(*rec) && rec.login@
                == login@,
            r is None ==> self.spec_by_login(login@) is None,
    {
        proof {
            assert(self.rows@.skip(0) =~= self.rows@);
        }
        let n = self.rows.len();
        let mut i: usize = 0;
        while i < n
            invariant
                i <= n,
                n == self.rows@.len(),
                spec_login_in(self.rows@, login@) == spec_login_in(
                    self.rows@.skip(i as int),
                    login@,
                ),
            decreases n - i,
        {
            proof {
                assert(self.rows@.skip(i as int).drop_first() =~= self.rows@.skip(i + 1));
                assert(self.rows@.skip(i as int)[0] == self.rows@[i as int]);
            }
            let row = &self.rows[i];
            if str_eq(row.login.as_str(), login) {
                return Some(row);
            }
            i += 1;
        }
        proof {
            assert(self.rows@.skip(n as int) =~= Seq::<PrincipalRecord>::empty());
        }
        None
    }

    /// Looks a principal up by its id.
    pub fn find_by_id(&self, id: u64) -> (r: Option<&PrincipalRecord>)
        ensures
            r matches Some(rec) ==> self.spec_by_id(id) == Some(*rec) && rec.id == id,
            r is None ==> self.spec_by_id(id) is None,
    {
        proof {
            assert(self.rows@.skip(0) =~= self.rows@);
        }
        let n = self.rows.len();
        let mut i: usize = 0;
        while i < n
            invariant
                i <= n,
                n == self.rows@.len(),
                spec_id_in(self.rows@, id) == spec_id_in(self.rows@.skip(i as int), id),
            decreases n - i,
        {
            proof {
                assert(self.rows@.skip(i as int).drop_first() =~= self.rows@.skip(i + 1));
                assert(self.rows@.skip(i as int)[0] == self.rows@[i as int]);
            }
            let row = &self.rows[i];
            if row.id == id {
                return Some(row);
            }
            i += 1;
        }
        proof {
            assert(self.rows@.skip(n as int) =~= Seq::<PrincipalRecord>::empty());
        }
        None
    }

    /// Inserts a new principal, assigning it a fresh id. A duplicate login
    /// (the store's unique-login invariant) or an exhausted id space is
    /// refused, leaving the store unchanged.
    pub fn insert(&mut self, rec: PrincipalRecord) -> (r: Result<u64, AuthError>)
        requires
            old(self).wf(),
        ensures
            final(self).wf(),
            match r {
                Ok(id) => {
                    &&& old(self).spec_by_login(rec.login@) is None
                    &&& old(self).spec_by_id(id) is None
                    &&& final(self).spec_by_id(id) == Some(spec_with_id(rec, id))
                    &&& final(self).spec_by_login(rec.login@) == Some(spec_with_id(rec, id))
                    &&& final(self).spec_rows() =~= old(self).spec_rows().push(
                        spec_with_id(rec, id),
                    )
                    &&& forall|l: Seq<char>|
                        l != rec.login@ ==> #[trigger] final(self).spec_by_login(l) == old(self).spec_by_login(l)
                    &&& forall|i2: u64|
                        i2 != id ==> #[trigger] final(self).spec_by_id(i2) == old(self).spec_by_id(i2)
                },
                Err(e) => {
                    &&& *final(self) == *old(self)
                    &&& e == AuthError::StoreUnavailable
                    &&& (old(self).spec_by_login(rec.login@) is Some || !old(self).spec_can_assign())
                },
            },
    {
        if self.next_id == u64::MAX {
            return Err(AuthError::StoreUnavailable);
        }
        match self.find_by_login(rec.login.as_str()) {
            Some(_) => {
                return Err(AuthError::StoreUnavailable);
            },
            None => {},
        }
        let id = self.next_id;
        self.next_id = id + 1;
        let ghost login_view = rec.login@;
        let stored = PrincipalRecord { id, ..rec };
        self.rows.push(stored);
        proof {
            let post = self.rows@;
            let pre = old(self).rows@;
            assert(post.drop_last() =~= pre);
            assert(post[post.len() - 1] == spec_with_id(rec, id));
            lemma_login_absent(pre, login_view);
            assert forall|a: int, b: int| 0 <= a < b < post.len() implies #[trigger] post[a].id
                != #[trigger] post[b].id by {
                if b == post.len() - 1 {
                    assert(pre[a].id < id);
                }
            }
            assert forall|a: int, b: int| 0 <= a < b < post.len() implies #[trigger] post[a].login@
                != #[trigger] post[b].login@ by {
                if b == post.len() - 1 {
                    assert(pre[a].login@ != login_view);
                }
            }
            lemma_id_at(post, post.len() - 1);
            lemma_login_at(post, post.len() - 1);
            assert forall|j: int| 0 <= j < pre.len() implies #[trigger] pre[j].id != id by {
                assert(pre[j].id < id);
            }
            lemma_id_all_absent(pre, id);
            assert forall|l: Seq<char>| l != login_view implies #[trigger] final(self).spec_by_login(l) == old(self).spec_by_login(l) by {
                lemma_frame_login(pre, post, l);
            }
            assert forall|i2: u64| i2 != id implies #[trigger] final(self).spec_by_id(i2) == old(self).spec_by_id(i2) by {
                lemma_frame_id(pre, post, i2);
            }
        }
        Ok(id)
    }

    /// Applies a partial update to the principal with this id. A missing
    /// principal, or a login change that would collide with another
    /// principal's login, is refused, leaving the store unchanged.
    pub fn update(&mut self, id: u64, upd: PrincipalUpdate) -> (r: Result<(), AuthError>)
        requires
            old(self).wf(),
        ensures
            final(self).wf(),
            match r {
                Ok(_) => {
                    &&& old(self).spec_by_id(id) is Some
                    &&& final(self).spec_by_id(id) == Some(
                        spec_merge(old(self).spec_by_id(id).unwrap(), upd),
                    )
                    &&& forall|i2: u64|
                        i2 != id ==> #[trigger] final(self).spec_by_id(i2) == old(self).spec_by_id(i2)
                    &&& final(self).spec_by_login(
                        spec_merge(old(self).spec_by_id(id).unwrap(), upd).login@,
                    ) == Some(spec_merge(old(self).spec_by_id(id).unwrap(), upd))
                },
                Err(e) => {
                    &&& *final(self) == *old(self)
                    &&& if old(self).spec_by_id(id) is None {
                        e == AuthError::EntityNotFound
                    } else {
                        &&& e == AuthError::StoreUnavailable
                        &&& upd.login matches Some(l) && old(self).spec_by_login(l@)
                            matches Some(other) && other.id != id
                    }
                },
            },
    {
        proof {
            assert(self.rows@.skip(0) =~= self.rows@);
        }
        let n = self.rows.len();
        let mut i: usize = 0;
        while i < n
            invariant
                i <= n,
                *self == *old(self),
                old(self).wf(),
                n == self.rows@.len(),
                spec_id_in(self.rows@, id) == spec_id_in(self.rows@.skip(i as int), id),
            decreases n - i,
        {
            proof {
                assert(self.rows@.skip(i as int).drop_first() =~= self.rows@.skip(i + 1));
                assert(self.rows@.skip(i as int)[0] == self.rows@[i as int]);
            }
            if self.rows[i].id == id {
                proof {
                    assert(self.spec_by_id(id) == Some(self.spec_rows()[i as int]));
                }
                return self.update_at(i, id, upd);
            }
            i += 1;
        }
        proof {
            assert(self.rows@.skip(n as int) =~= Seq::<PrincipalRecord>::empty());
        }
        Err(AuthError::EntityNotFound)
    }

    /// Applies the update at a known row position.
    fn update_at(&mut self, i: usize, id: u64, upd: PrincipalUpdate) -> (r: Result<(), AuthError>)
        requires
            old(self).wf(),
            i < old(self).spec_rows().len(),
            old(self).spec_rows()[i as int].id == id,
            old(self).spec_by_id(id) == Some(old(self).spec_rows()[i as int]),
        ensures
            final(self).wf(),
            match r {
                Ok(_) => {
                    &&& old(self).spec_by_id(id) is Some
                    &&& final(self).spec_by_id(id) == Some(
                        spec_merge(old(self).spec_by_id(id).unwrap(), upd),
                    )
                    &&& forall|i2: u64|
                        i2 != id ==> #[trigger] final(self).spec_by_id(i2) == old(self).spec_by_id(i2)
                    &&& final(self).spec_by_login(
                        spec_merge(old(self).spec_by_id(id).unwrap(), upd).login@,
                    ) == Some(spec_merge(old(self).spec_by_id(id).unwrap(), upd))
                },
                Err(e) => {
                    &&& *final(self) == *old(self)
                    &&& e == AuthError::StoreUnavailable
                    &&& upd.login matches Some(l) && old(self).spec_by_login(l@) matches Some(other)
                        && other.id != id
                },
            },
    {
        if let Some(ref new_login) = upd.login {
            match self.find_by_login(new_login.as_str()) {
                Some(other) => {
                    if other.id != id {
                        return Err(AuthError::StoreUnavailable);
                    }
                },
                None => {},
            }
        }
        let merged = {
            let orig = &self.rows[i];
            PrincipalRecord {
                id: orig.id,
                login: match upd.login {
                    Some(l) => l,
                    None => orig.login.clone(),
                },
                name_enc: match upd.name_enc {
                    Some(v) => v,
                    None => orig.name_enc.clone(),
                },
                email_enc: match upd.email_enc {
                    Some(v) => v,
                    None => orig.email_enc.clone(),
                },
                password_enc: match upd.password_enc {
                    Some(v) => v,
                    None => orig.password_enc.clone(),
                },
                version_terms_enc: match upd.version_terms_enc {
                    Some(v) => v,
                    None => orig.version_terms_enc.clone(),
                },
                role_id: match upd.role_id {
                    Some(v) => v,
                    None => orig.role_id,
                },
                created_at: orig.created_at,
                disabled_since: match upd.disabled_since {
                    Some(v) => v,
                    None => orig.disabled_since,
                },
            }
        };
        let ghost pre = self.rows@;
        let ghost orig_rec = self.rows@[i as int];
        self.rows[i] = merged;
        proof {
            let post = self.rows@;
            assert(post =~= pre.update(i as int, spec_merge(orig_rec, upd)));
            let m = spec_merge(orig_rec, upd);
            assert(post[i as int] == m);
            // well-formedness: ids are unchanged; the merged login collides
            // with no other row.
            assert forall|a: int, b: int| 0 <= a < b < post.len() implies #[trigger] post[a].id
                != #[trigger] post[b].id by {
                assert(pre[a].id != pre[b].id);
            }
            if upd.login is Some {
                assert forall|j: int| 0 <= j < pre.len() && j != i implies #[trigger] pre[j].login@
                    != m.login@ by {
                    if pre[j].login@ == m.login@ {
                        lemma_login_at(pre, j);
                        lemma_id_found(pre, id);
                    }
                }
            }
            assert forall|a: int, b: int| 0 <= a < b < post.len() implies #[trigger] post[a].login@
                != #[trigger] post[b].login@ by {
                if a != i && b != i {
                    assert(pre[a].login@ != pre[b].login@);
                } else if upd.login is None {
                    assert(m.login@ == orig_rec.login@);
                    assert(pre[a].login@ != pre[b].login@);
                }
            }
            lemma_id_at(post, i as int);
            lemma_login_at(post, i as int);
            assert forall|i2: u64| i2 != id implies #[trigger] final(self).spec_by_id(i2) == old(self).spec_by_id(i2) by {
                lemma_id_update_frame(pre, post, i as int, i2);
            }
        }
        Ok(())
    }
}

impl PrincipalStore {
    /// Deletes the principal with this id; deleting an unknown id is
    /// refused and changes nothing.
    pub fn remove(&mut self, id: u64) -> (r: Result<(), AuthError>)
        requires
            old(self).wf(),
        ensures
            final(self).wf(),
            match r {
                Ok(_) => {
                    &&& old(self).spec_by_id(id) is Some
                    &&& final(self).spec_by_id(id) is None
                    &&& final(self).spec_by_login(old(self).spec_by_id(id).unwrap().login@)
                        is None
                    &&& forall|i2: u64|
                        i2 != id ==> #[trigger] final(self).spec_by_id(i2) == old(self).spec_by_id(i2)
                    &&& forall|l: Seq<char>|
                        l != old(self).spec_by_id(id).unwrap().login@ ==> #[trigger] final(self).spec_by_login(l) == old(self).spec_by_login(l)
                },
                Err(e) => {
                    &&& *final(self) == *old(self)
                    &&& e == AuthError::EntityNotFound
                    &&& old(self).spec_by_id(id) is None
                },
            },
    {
        proof {
            assert(self.rows@.skip(0) =~= self.rows@);
        }
        let n = self.rows.len();
        let mut i: usize = 0;
        while i < n
            invariant
                i <= n,
                *self == *old(self),
                old(self).wf(),
                n == self.rows@.len(),
                spec_id_in(self.rows@, id) == spec_id_in(self.rows@.skip(i as int), id),
            decreases n - i,
        {
            proof {
                assert(self.rows@.skip(i as int).drop_first() =~= self.rows@.skip(i + 1));
                assert(self.rows@.skip(i as int)[0] == self.rows@[i as int]);
            }
            if self.rows[i].id == id {
                proof {
                    assert(self.spec_by_id(id) == Some(self.rows@[i as int]));
                }
                return self.remove_at(i, id);
            }
            i += 1;
        }
        proof {
            assert(self.rows@.skip(n as int) =~= Seq::<PrincipalRecord>::empty());
        }
        Err(AuthError::EntityNotFound)
    }

    /// Removes the row at a known position.
    fn remove_at(&mut self, i: usize, id: u64) -> (r: Result<(), AuthError>)
        requires
            old(self).wf(),
            i < old(self).spec_rows().len(),
            old(self).spec_rows()[i as int].id == id,
            old(self).spec_by_id(id) == Some(old(self).spec_rows()[i as int]),
        ensures
            final(self).wf(),
            r is Ok,
            old(self).spec_by_id(id) is Some,
            final(self).spec_by_id(id) is None,
            final(self).spec_by_login(old(self).spec_by_id(id).unwrap().login@) is None,
            forall|i2: u64|
                i2 != id ==> #[trigger] final(self).spec_by_id(i2) == old(self).spec_by_id(i2),
            forall|l: Seq<char>|
                l != old(self).spec_by_id(id).unwrap().login@ ==> #[trigger] final(self).spec_by_login(l) == old(self).spec_by_login(l),
    {
        let removed = self.rows.swap_remove(i);
        proof {
            let pre = old(self).rows@;
            let post = self.rows@;
            let last = pre.len() - 1;
            // each remaining position holds a row from the old sequence, at
            // a position other than i
            assert forall|k: int| 0 <= k < post.len() implies #[trigger] post[k] == (if k == i
                && i < last {
                pre[last]
            } else {
                pre[k]
            }) by {}
            assert forall|a: int, b: int| 0 <= a < b < post.len() implies #[trigger] post[a].id
                != #[trigger] post[b].id by {}
            assert forall|a: int, b: int| 0 <= a < b < post.len() implies #[trigger] post[a].login@
                != #[trigger] post[b].login@ by {}
            assert forall|a: int| 0 <= a < post.len() implies #[trigger] post[a].id
                < self.next_id by {}
            // the removed id and login occur nowhere any more
            assert forall|k: int| 0 <= k < post.len() implies #[trigger] post[k].id != id by {}
            lemma_id_all_absent(post, id);
            assert forall|k: int| 0 <= k < post.len() implies #[trigger] post[k].login@
                != pre[i as int].login@ by {}
            lemma_login_all_absent(post, pre[i as int].login@);
            // other ids and logins are found exactly as before
            assert forall|i2: u64| i2 != id implies #[trigger] final(self).spec_by_id(i2) == old(self).spec_by_id(i2) by {
                if spec_id_in(pre, i2) is Some {
                    lemma_id_found(pre, i2);
                    let j = choose|j: int|
                        0 <= j < pre.len() && pre[j] == spec_id_in(pre, i2).unwrap()
                            && #[trigger] pre[j].id == i2;
                    lemma_id_at(pre, j);
                    if j == last && i < last {
                        assert(post[i as int] == pre[j]);
                        lemma_id_at(post, i as int);
                    } else {
                        assert(post[j] == pre[j]);
                        lemma_id_at(post, j);
                    }
                } else {
                    lemma_id_absent(pre, i2);
                    assert forall|k: int| 0 <= k < post.len() implies #[trigger] post[k].id
                        != i2 by {}
                    lemma_id_all_absent(post, i2);
                }
            }
            assert forall|l: Seq<char>| l != pre[i as int].login@ implies #[trigger] final(self).spec_by_login(l) == old(self).spec_by_login(l) by {
                if spec_login_in(pre, l) is Some {
                    lemma_login_found(pre, l);
                    let j = choose|j: int|
                        0 <= j < pre.len() && pre[j] == spec_login_in(pre, l).unwrap()
                            && #[trigger] pre[j].login@ == l;
                    lemma_login_at(pre, j);
                    if j == last && i < last {
                        assert(post[i as int] == pre[j]);
                        lemma_login_at(post, i as int);
                    } else {
                        assert(j != i);
                        assert(post[j] == pre[j]);
                        lemma_login_at(post, j);
                    }
                } else {
                    lemma_login_absent(pre, l);
                    assert forall|k: int| 0 <= k < post.len() implies #[trigger] post[k].login@
                        != l by {}
                    lemma_login_all_absent(post, l);
                }
            }
        }
        Ok(())
    }
}

/// Two row sequences that agree on which rows carry a login agree on the
/// lookup for that login, provided matching positions hold equal records.
proof fn lemma_frame_login(pre: Seq<PrincipalRecord>, post: Seq<PrincipalRecord>, l: Seq<char>)
    requires
        pre.len() <= post.len(),
        forall|j: int| 0 <= j < pre.len() ==> #[trigger] post[j] == pre[j],
        forall|j: int| pre.len() <= j < post.len() ==> #[trigger] post[j].login@ != l,
    ensures
        spec_login_in(post, l) == spec_login_in(pre, l),
    decreases pre.len(),
{
    if pre.len() == 0 {
        assert forall|j: int| 0 <= j < post.len() implies #[trigger] post[j].login@ != l by {}
        lemma_login_all_absent(post, l);
    } else {
        assert(post[0] == pre[0]);
        if pre[0].login@ != l {
            assert forall|j: int| 0 <= j < pre.drop_first().len() implies #[trigger] post.drop_first()[j]
                == pre.drop_first()[j] by {
                assert(post.drop_first()[j] == post[j + 1]);
                assert(pre.drop_first()[j] == pre[j + 1]);
            }
            assert forall|j: int|
                pre.drop_first().len() <= j < post.drop_first().len() implies #[trigger] post.drop_first()[j].login@
                != l by {
                assert(post.drop_first()[j] == post[j + 1]);
            }
            lemma_frame_login(pre.drop_first(), post.drop_first(), l);
        }
    }
}

/// Replacing one row with another of the same id leaves every other
/// id-lookup unchanged.
proof fn lemma_id_update_frame(
    pre: Seq<PrincipalRecord>,
    post: Seq<PrincipalRecord>,
    i: int,
    id2: u64,
)
    requires
        pre.len() == post.len(),
        0 <= i < pre.len(),
        forall|j: int| 0 <= j < pre.len() && j != i ==> #[trigger] post[j] == pre[j],
        pre[i].id != id2,
        post[i].id != id2,
    ensures
        spec_id_in(post, id2) == spec_id_in(pre, id2),
    decreases pre.len(),
{
    if i == 0 {
        assert(post.drop_first() =~= pre.drop_first());
    } else {
        assert(post[0] == pre[0]);
        if pre[0].id != id2 {
            assert forall|j: int|
                0 <= j < pre.drop_first().len() && j != i - 1 implies #[trigger] post.drop_first()[j]
                == pre.drop_first()[j] by {
                assert(post.drop_first()[j] == post[j + 1]);
                assert(pre.drop_first()[j] == pre[j + 1]);
            }
            assert(pre.drop_first()[i - 1] == pre[i]);
            assert(post.drop_first()[i - 1] == post[i]);
            lemma_id_update_frame(pre.drop_first(), post.drop_first(), i - 1, id2);
        }
    }
}

/// The id-lookup analogue of `lemma_frame_login`.
proof fn lemma_frame_id(pre: Seq<PrincipalRecord>, post: Seq<PrincipalRecord>, id: u64)
    requires
        pre.len() <= post.len(),
        forall|j: int| 0 <= j < pre.len() ==> #[trigger] post[j] == pre[j],
        forall|j: int| pre.len() <= j < post.len() ==> #[trigger] post[j].id != id,
    ensures
        spec_id_in(post, id) == spec_id_in(pre, id),
    decreases pre.len(),
{
    if pre.len() == 0 {
        assert forall|j: int| 0 <= j < post.len() implies #[trigger] post[j].id != id by {}
        lemma_id_all_absent(post, id);
    } else {
        assert(post[0] == pre[0]);
        if pre[0].id != id {
            assert forall|j: int| 0 <= j < pre.drop_first().len() implies #[trigger] post.drop_first()[j]
                == pre.drop_first()[j] by {
                assert(post.drop_first()[j] == post[j + 1]);
                assert(pre.drop_first()[j] == pre[j + 1]);
            }
            assert forall|j: int|
                pre.drop_first().len() <= j < post.drop_first().len() implies #[trigger] post.drop_first()[j].id
                != id by {
                assert(post.drop_first()[j] == post[j + 1]);
            }
            lemma_frame_id(pre.drop_first(), post.drop_first(), id);
        }
    }
}

} // verus!
