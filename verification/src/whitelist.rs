//! Whitelist snapshots: who may claim from which pool.

use vstd::prelude::*;
use crate::error::ValidationError;
use crate::fraction::{ratio_bps, Fraction};
use crate::identity::Identity;
use crate::pool::{lemma_tag_names_pool, Pool, POOL_COUNT};

verus! {

/// What a whitelist snapshot holds: its version, and for each pool, by the
/// pool's tag, the recipients that may claim from it.
pub struct WhitelistView {
    pub version: u64,
    pub members: Seq<Seq<Identity>>,
}

impl WhitelistView {
    /// The snapshot's invariant: one list for each pool, and no recipient
    /// twice in a list.
    pub open spec fn wf(self) -> bool {
        &&& self.members.len() == POOL_COUNT
        &&& forall|i: int| 0 <= i < self.members.len() ==> (#[trigger] self.members[i]).no_duplicates()
    }

    /// The recipients of a pool.
    pub open spec fn members_of(self, pool: Pool) -> Seq<Identity> {
        self.members[pool.tag()]
    }

    /// Whether a recipient may claim from a pool.
    pub open spec fn is_member(self, pool: Pool, recipient: Identity) -> bool {
        self.members_of(pool).contains(recipient)
    }

    /// The share of each recipient of a pool, in basis points: the pool is
    /// split equally among its recipients.
    pub open spec fn share_bps(self, pool: Pool) -> int {
        ratio_bps(1, self.members_of(pool).len() as int)
    }
}

/// A versioned snapshot of the per-pool sets of eligible recipients. The
/// claims engine only reads it.
pub struct Whitelist {
    version: u64,
    members: Vec<Vec<Identity>>,
}

impl View for Whitelist {
    type V = WhitelistView;

    closed spec fn view(&self) -> WhitelistView {
        WhitelistView {
            version: self.version,
            members: Seq::new(self.members@.len(), |i: int| self.members@[i]@),
        }
    }
}

/// The position of `recipient` in `list`, if it is there.
fn position(list: &Vec<Identity>, recipient: &Identity) -> (r: Option<usize>)
    ensures
        r is Some <==> list@.contains(*recipient),
        r matches Some(i) ==> i < list.len() && list[i as int] == *recipient,
{
    let mut i: usize = 0;
    while i < list.len()
        invariant
            0 <= i <= list.len(),
            forall|k: int| 0 <= k < i ==> list[k] != *recipient,
        decreases list.len() - i,
    {
        if list[i].same(recipient) {
            return Some(i);
        }
        i += 1;
    }
    None
}

impl Whitelist {
    /// The snapshot's invariant.
    pub open spec fn wf(&self) -> bool {
        self@.wf()
    }

    /// A snapshot with the given version and no recipient in any pool.
    pub fn new(version: u64) -> (r: Whitelist)
        ensures
            r.wf(),
            r@.version == version,
            forall|pool: Pool| #[trigger] r@.members_of(pool) == Seq::<Identity>::empty(),
    {
        let mut members: Vec<Vec<Identity>> = Vec::new();
        let mut i: usize = 0;
        while i < POOL_COUNT
            invariant
                0 <= i <= POOL_COUNT,
                members.len() == i,
                forall|k: int| 0 <= k < i ==> (#[trigger] members[k])@ == Seq::<Identity>::empty(),
            decreases POOL_COUNT - i,
        {
            members.push(Vec::new());
            i += 1;
        }
        let r = Whitelist { version, members };
        proof {
            assert forall|pool: Pool| #[trigger] r@.members_of(pool) == Seq::<
                Identity,
            >::empty() by {
                lemma_tag_names_pool(pool);
            }
        }
        r
    }

    /// Adds a recipient to a pool. Returns whether it was added: a
    /// recipient that is already in the pool is not added again.
    pub fn add(&mut self, pool: Pool, recipient: Identity) -> (added: bool)
        requires
            old(self).wf(),
        ensures
            final(self).wf(),
            final(self)@.version == old(self)@.version,
            added == !old(self)@.is_member(pool, recipient),
            final(self)@.members_of(pool) == if added {
                old(self)@.members_of(pool).push(recipient)
            } else {
                old(self)@.members_of(pool)
            },
            forall|other: Pool|
                other != pool ==> #[trigger] final(self)@.members_of(other) == old(
                    self,
                )@.members_of(other),
    {
        let slot: usize = pool.index();
        if position(&self.members[slot], &recipient).is_some() {
            return false;
        }
        let ghost before = self.members@;
        self.members[slot].push(recipient);
        proof {
            assert(self.members@[slot as int]@ == before[slot as int]@.push(recipient));
            assert forall|i: int| 0 <= i < self.members@.len() && i != slot implies self.members@[i]
                == before[i] by {}
            assert forall|i: int| 0 <= i < self@.members.len() implies (
            #[trigger] self@.members[i]).no_duplicates() by {
                if i != slot {
                    assert(self@.members[i] == old(self)@.members[i]);
                } else {
                    assert(old(self)@.members[i].no_duplicates());
                }
            }
            assert forall|other: Pool| other != pool implies #[trigger] self@.members_of(other)
                == old(self)@.members_of(other) by {
                lemma_tag_names_pool(other);
                lemma_tag_names_pool(pool);
            }
        }
        true
    }

    /// The snapshot's version.
    pub fn version(&self) -> (r: u64)
        ensures
            r == self@.version,
    {
        self.version
    }

    /// The number of recipients of a pool.
    pub fn member_count(&self, pool: Pool) -> (r: usize)
        requires
            self.wf(),
        ensures
            r == self@.members_of(pool).len(),
    {
        self.members[pool.index()].len()
    }

    /// The recipient at a position in a pool's list, in the order in which
    /// the recipients were added.
    pub fn member_at(&self, pool: Pool, index: usize) -> (r: Option<Identity>)
        requires
            self.wf(),
        ensures
            r is Some <==> index < self@.members_of(pool).len(),
            r matches Some(m) ==> m == self@.members_of(pool)[index as int],
    {
        let slot: usize = pool.index();
        if index < self.members[slot].len() {
            Some(self.members[slot][index])
        } else {
            None
        }
    }

    /// Whether a recipient may claim from a pool.
    pub fn is_member(&self, pool: Pool, recipient: &Identity) -> (r: bool)
        requires
            self.wf(),
        ensures
            r == self@.is_member(pool, *recipient),
    {
        position(&self.members[pool.index()], recipient).is_some()
    }

    /// The recipient's share of a pool: an equal split among the pool's
    /// recipients, rounded down to a basis point. Fails with
    /// `NotWhitelisted` where the recipient is not in the pool.
    pub fn share_of(&self, pool: Pool, recipient: &Identity) -> (r: Result<
        Fraction,
        ValidationError,
    >)
        requires
            self.wf(),
        ensures
            r is Ok <==> self@.is_member(pool, *recipient),
            r matches Ok(f) ==> f.wf() && f@ == self@.share_bps(pool),
            r matches Err(e) ==> e == ValidationError::NotWhitelisted,
    {
        if self.is_member(pool, recipient) {
            let count: usize = self.member_count(pool);
            Ok(Fraction::ratio(1, count as u64))
        } else {
            Err(ValidationError::NotWhitelisted)
        }
    }
}

} // verus!
