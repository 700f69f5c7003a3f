use vstd::prelude::*;

verus! {

use crate::entity::{EntityType, str_eq};
use crate::errors::AuthError;

/// One entity-key row: the symmetric key material belonging to one
/// `(entity_id, entity_type)` pair, generated once at registration and
/// never rotated.
pub struct EntityKey {
    pub entity_id: u64,
    pub entity_type: EntityType,
    pub key: String,
}

/// The store of per-entity encryption keys. At most one row exists per
/// `(entity_id, entity_type)` pair, and the virtual `AuthorizedClient` type
/// never has a row.
pub struct EntityKeyStore {
    rows: Vec<EntityKey>,
}

/// The first key in `rows` registered for this identity, if any.
pub open spec fn spec_key_in(rows: Seq<EntityKey>, id: u64, et: EntityType) -> Option<Seq<char>>
    decreases rows.len(),
{
    if rows.len() == 0 {
        Option::None
    } else if rows[0].entity_id == id && rows[0].entity_type == et {
        Option::Some(rows[0].key@)
    } else {
        spec_key_in(rows.drop_first(), id, et)
    }
}

impl EntityKeyStore {
    /// At most one row per identity, and none for `AuthorizedClient`.
    pub closed spec fn wf(self) -> bool {
        &&& forall|i: int, j: int|
            0 <= i < j < self.rows@.len() ==> !(self.rows@[i].entity_id == self.rows@[j].entity_id
                && self.rows@[i].entity_type == self.rows@[j].entity_type)
        &&& forall|i: int|
            0 <= i < self.rows@.len() ==> self.rows@[i].entity_type
                != EntityType::AuthorizedClient
    }

    /// The key registered for this identity, if any.
    pub closed spec fn key_of(self, id: u64, et: EntityType) -> Option<Seq<char>> {
        spec_key_in(self.rows@, id, et)
    }

    /// An empty store: no entity has a key.
    pub fn new() -> (r: EntityKeyStore)
        ensures
            r.wf(),
            forall|id: u64, et: EntityType| #[trigger] r.key_of(id, et) is None,
    {
        EntityKeyStore { rows: Vec::new() }
    }

    /// Fetches the key for an identity. `None` reports a principal without
    /// a key row: an integrity violation for persisted entities.
    pub fn find_key(&self, entity_id: u64, entity_type: EntityType) -> (r: Option<&String>)
        ensures
            r matches Some(k) ==> self.key_of(entity_id, entity_type) == Some(k@),
            r is None ==> self.key_of(entity_id, entity_type) is None,
    {
        proof {
            assert(self.rows@.skip(0) =~= self.rows@);
        }
        let n = self.rows.len();
        let mut i: usize = 0;
        while i < n
            invariant
                i <= n,
                n == self.rows@.len(),
                spec_key_in(self.rows@, entity_id, entity_type) == spec_key_in(
                    self.rows@.skip(i as int),
                    entity_id,
                    entity_type,
                ),
            decreases n - i,
        {
            proof {
                assert(self.rows@.skip(i as int).drop_first() =~= self.rows@.skip(i + 1));
                assert(self.rows@.skip(i as int)[0] == self.rows@[i as int]);
            }
            let row = &self.rows[i];
            if row.entity_id == entity_id && row.entity_type == entity_type {
                return Some(&row.key);
            }
            i += 1;
        }
        proof {
            assert(self.rows@.skip(n as int) =~= Seq::<EntityKey>::empty());
        }
        None
    }

    /// Registers the key for an identity, exactly once: a second key for the
    /// same identity is refused, as is a key for the virtual
    /// `AuthorizedClient` type; on failure the store is unchanged.
    pub fn insert_key(&mut self, entity_id: u64, entity_type: EntityType, key: &str) -> (r: Result<
        (),
        AuthError,
    >)
        requires
            old(self).wf(),
        ensures
            final(self).wf(),
            match r {
                Ok(_) => {
                    &&& old(self).key_of(entity_id, entity_type) is None
                    &&& entity_type != EntityType::AuthorizedClient
                    &&& final(self).key_of(entity_id, entity_type) == Some(key@)
                    &&& forall|id2: u64, et2: EntityType|
                        !(id2 == entity_id && et2 == entity_type) ==> #[trigger] final(self).key_of(id2, et2) == old(self).key_of(id2, et2)
                },
                Err(e) => {
                    &&& *final(self) == *old(self)
                    &&& if entity_type == EntityType::AuthorizedClient {
                        e == AuthError::EntityTypeMismatch
                    } else {
                        e == AuthError::StoreUnavailable && old(self).key_of(
                            entity_id,
                            entity_type,
                        ) is Some
                    }
                },
            },
    {
        match entity_type {
            EntityType::AuthorizedClient => {
                return Err(AuthError::EntityTypeMismatch);
            },
            _ => {},
        }
        match self.find_key(entity_id, entity_type) {
            Some(_) => {
                return Err(AuthError::StoreUnavailable);
            },
            None => {},
        }
        let row = EntityKey { entity_id, entity_type, key: key.to_owned() };
        self.rows.push(row);
        proof {
            let post = self.rows@;
            let pre = old(self).rows@;
            assert(post.drop_last() =~= pre);
            assert forall|i: int, j: int| 0 <= i < j < post.len() implies !(post[i].entity_id
                == post[j].entity_id && post[i].entity_type == post[j].entity_type) by {
                if j == post.len() - 1 {
                    lemma_absent_everywhere(pre, entity_id, entity_type);
                }
            }
            lemma_key_in_push(pre, post.last(), entity_id, entity_type);
            assert(final(self).key_of(entity_id, entity_type) == Some(key@));
            assert forall|id2: u64, et2: EntityType|
                !(id2 == entity_id && et2 == entity_type) implies #[trigger] final(self).key_of(id2, et2) == old(self).key_of(id2, et2) by {
                lemma_key_in_push(pre, post.last(), id2, et2);
            }
        }
        Ok(())
    }
}

/// If a lookup over `rows` finds nothing, no row matches the identity.
proof fn lemma_absent_everywhere(rows: Seq<EntityKey>, id: u64, et: EntityType)
    requires
        spec_key_in(rows, id, et) is None,
    ensures
        forall|i: int|
            0 <= i < rows.len() ==> !(rows[i].entity_id == id && #[trigger] rows[i].entity_type
                == et),
    decreases rows.len(),
{
    if rows.len() > 0 {
        lemma_absent_everywhere(rows.drop_first(), id, et);
        assert forall|i: int|
            0 <= i < rows.len() implies !(rows[i].entity_id == id && #[trigger] rows[i].entity_type
            == et) by {
            if i > 0 {
                assert(rows.drop_first()[i - 1] == rows[i]);
            }
        }
    }
}

/// Appending a row changes lookups only where nothing was found before,
/// and only for the appended row's own identity.
proof fn lemma_key_in_push(rows: Seq<EntityKey>, row: EntityKey, id: u64, et: EntityType)
    ensures
        spec_key_in(rows.push(row), id, et) == if spec_key_in(rows, id, et) is Some {
            spec_key_in(rows, id, et)
        } else if row.entity_id == id && row.entity_type == et {
            Option::Some(row.key@)
        } else {
            Option::<Seq<char>>::None
        },
    decreases rows.len(),
{
    let pushed = rows.push(row);
    assert(pushed.len() == rows.len() + 1);
    if rows.len() == 0 {
        assert(pushed[0] == row);
        assert(pushed.drop_first() =~= Seq::<EntityKey>::empty());
        assert(spec_key_in(pushed.drop_first(), id, et) is None);
    } else {
        assert(pushed[0] == rows[0]);
        lemma_key_in_push(rows.drop_first(), row, id, et);
        assert(pushed.drop_first() =~= rows.drop_first().push(row));
        if rows[0].entity_id == id && rows[0].entity_type == et {
            assert(spec_key_in(pushed, id, et) == Some(rows[0].key@));
            assert(spec_key_in(rows, id, et) == Some(rows[0].key@));
        } else {
            assert(spec_key_in(pushed, id, et) == spec_key_in(pushed.drop_first(), id, et));
            assert(spec_key_in(rows, id, et) == spec_key_in(rows.drop_first(), id, et));
        }
    }
}

} // verus!
