use vstd::prelude::*;

verus! {

/// The closed set of principal kinds a token subject can name.
///
/// `User` and `ExternalClient` are persisted principals, each owning one
/// encryption key. `AuthorizedClient` is virtual: it only ever appears as the
/// subject tag of a portability session token and never has a stored key.
#[derive(Clone, Copy, Debug, PartialEq, Eq, Structural)]
pub enum EntityType {
    User,
    ExternalClient,
    AuthorizedClient,
}

/// The stable lowercase tag under which each entity type is stored and
/// encoded into token subjects.
pub open spec fn spec_tag(et: EntityType) -> Seq<char> {
    match et {
        EntityType::User => "user"@,
        EntityType::ExternalClient => "external_client"@,
        EntityType::AuthorizedClient => "authorized_client"@,
    }
}

/// The inverse of `spec_tag`: which entity type a tag names, if any.
pub open spec fn spec_entity_type_of_tag(s: Seq<char>) -> Option<EntityType> {
    if s == spec_tag(EntityType::User) {
        Some(EntityType::User)
    } else if s == spec_tag(EntityType::ExternalClient) {
        Some(EntityType::ExternalClient)
    } else if s == spec_tag(EntityType::AuthorizedClient) {
        Some(EntityType::AuthorizedClient)
    } else {
        None
    }
}

/// The tags of distinct entity types differ.
pub proof fn lemma_tags_distinct()
    ensures
        forall|a: EntityType, b: EntityType| spec_tag(a) == spec_tag(b) ==> a == b,
{
    reveal_strlit("user");
    reveal_strlit("external_client");
    reveal_strlit("authorized_client");
    assert forall|a: EntityType, b: EntityType| spec_tag(a) == spec_tag(b) implies a == b by {
        if a != b {
            assert(spec_tag(EntityType::User).len() == 4);
            assert(spec_tag(EntityType::ExternalClient).len() == 15);
            assert(spec_tag(EntityType::AuthorizedClient).len() == 17);
        }
    }
}

/// Decoding a type's own tag yields that type back.
pub proof fn lemma_tag_round_trip(et: EntityType)
    ensures
        spec_entity_type_of_tag(spec_tag(et)) == Some(et),
{
    lemma_tags_distinct();
}

impl EntityType {
    /// The stable tag used for storage and token encoding.
    pub fn as_str(self) -> (r: &'static str)
        ensures
            r@ == spec_tag(self),
    {
        match self {
            EntityType::User => "user",
            EntityType::ExternalClient => "external_client",
            EntityType::AuthorizedClient => "authorized_client",
        }
    }

    /// Parses a tag back into an entity type; unknown tags are rejected
    /// explicitly rather than defaulted.
    pub fn from_str(s: &str) -> (r: Option<EntityType>)
        ensures
            r == spec_entity_type_of_tag(s@),
    {
        if str_eq(s, "user") {
            Some(EntityType::User)
        } else if str_eq(s, "external_client") {
            Some(EntityType::ExternalClient)
        } else if str_eq(s, "authorized_client") {
            Some(EntityType::AuthorizedClient)
        } else {
            None
        }
    }
}

/// Whether two string slices hold the same characters.
pub fn str_eq(a: &str, b: &str) -> (r: bool)
    ensures
        r == (a@ == b@),
{
    a.to_owned() == b.to_owned()
}

} // verus!
