use vstd::prelude::*;

verus! {

use crate::entity::str_eq;

/// One revocation record: a token's unique identifier and when it was
/// revoked.
pub struct RevokedToken {
    pub jti: String,
    pub revoked_at: u64,
}

/// The append-only ledger of revoked token identifiers. A `jti` appears at
/// most once; once present, it never leaves.
pub struct RevocationLedger {
    entries: Vec<RevokedToken>,
}

impl RevocationLedger {
    /// Each revoked identifier is recorded at most once.
    pub closed spec fn wf(self) -> bool {
        forall|i: int, j: int|
            0 <= i < j < self.entries@.len() ==> self.entries@[i].jti@ != self.entries@[j].jti@
    }

    /// The set of revoked token identifiers.
    pub closed spec fn jtis(self) -> Set<Seq<char>> {
        Set::new(
            |j: Seq<char>|
                exists|i: int| 0 <= i < self.entries@.len() && self.entries@[i].jti@ == j,
        )
    }

    /// An empty ledger: nothing is revoked.
    pub fn new() -> (r: RevocationLedger)
        ensures
            r.wf(),
            r.jtis() =~= Set::<Seq<char>>::empty(),
    {
        RevocationLedger { entries: Vec::new() }
    }

    /// Whether a token identifier has been revoked.
    pub fn contains(&self, jti: &str) -> (r: bool)
        ensures
            r == self.jtis().contains(jti@),
    {
        let n = self.entries.len();
        let mut i: usize = 0;
        while i < n
            invariant
                i <= n,
                n == self.entries@.len(),
                forall|j: int| 0 <= j < i ==> self.entries@[j].jti@ != jti@,
            decreases n - i,
        {
            if str_eq(self.entries[i].jti.as_str(), jti) {
                return true;
            }
            i += 1;
        }
        false
    }

    /// Records a token identifier as revoked at the given time. Idempotent:
    /// recording an identifier that is already present leaves the ledger
    /// unchanged rather than failing.
    pub fn insert(&mut self, jti: &str, revoked_at: u64)
        requires
            old(self).wf(),
        ensures
            final(self).wf(),
            final(self).jtis() =~= old(self).jtis().insert(jti@),
    {
        if !self.contains(jti) {
            let entry = RevokedToken { jti: jti.to_owned(), revoked_at };
            self.entries.push(entry);
            proof {
                let post = self.entries@;
                let pre = old(self).entries@;
                assert(post.drop_last() =~= pre);
                let target = old(self).jtis().insert(jti@);
                assert forall|x: Seq<char>| final(self).jtis().contains(x) implies target.contains(x) by {
                    let i = choose|i: int| 0 <= i < post.len() && post[i].jti@ == x;
                    if i < post.len() - 1 {
                        assert(pre[i].jti@ == x);
                    }
                }
                assert forall|x: Seq<char>| target.contains(x) implies final(self).jtis().contains(x) by {
                    if x == jti@ {
                        assert(post[post.len() - 1].jti@ == x);
                    } else {
                        let i = choose|i: int| 0 <= i < pre.len() && pre[i].jti@ == x;
                        assert(post[i].jti@ == x);
                    }
                }
            }
        }
    }
}

} // verus!
