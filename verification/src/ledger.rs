//! The claim ledger: what each recipient has been paid from each pool.

use vstd::prelude::*;
use crate::error::AccountingError;
use crate::identity::Identity;
use crate::pair_map::PairMap;
use crate::pool::Pool;

verus! {

/// The record of one recipient in one pool: the entitlement under which
/// the last payment was made, and the sum of all payments so far.
#[derive(Clone, Copy, Debug, PartialEq, Eq, Structural)]
pub struct TokenClaim {
    pub total_allocation: u64,
    pub claimed_token: u64,
}

/// The sum paid so far to a recipient from a pool: that of its record, or 0
/// where it has none.
pub open spec fn claimed_in(
    ledger: Map<(Pool, Identity), TokenClaim>,
    pool: Pool,
    recipient: Identity,
) -> int {
    if ledger.contains_key((pool, recipient)) {
        ledger[(pool, recipient)].claimed_token as int
    } else {
        0
    }
}

/// The ledger's invariant on its records: nobody has been paid more than
/// the entitlement that the record holds.
pub open spec fn ledger_wf(ledger: Map<(Pool, Identity), TokenClaim>) -> bool {
    forall|k: (Pool, Identity)| #[trigger]
        ledger.contains_key(k) ==> ledger[k].claimed_token <= ledger[k].total_allocation
}

/// Whether a sequence of records can be those of a ledger: no record holds
/// more than its entitlement, and no pool and recipient have two records.
pub open spec fn records_wf(records: Seq<(Pool, Identity, TokenClaim)>) -> bool {
    &&& forall|i: int|
        0 <= i < records.len() ==> (#[trigger] records[i]).2.claimed_token
            <= records[i].2.total_allocation
    &&& forall|i: int, j: int|
        0 <= i < j < records.len() ==> (#[trigger] records[i]).0 != (#[trigger] records[j]).0
            || records[i].1 != records[j].1
}

/// The durable record of cumulative payments. A record comes into being
/// with the first payment to a recipient from a pool; it is never removed
/// and its sum never shrinks.
pub struct ClaimLedger {
    records: PairMap<TokenClaim>,
}

impl View for ClaimLedger {
    type V = Map<(Pool, Identity), TokenClaim>;

    closed spec fn view(&self) -> Map<(Pool, Identity), TokenClaim> {
        self.records@
    }
}

impl ClaimLedger {
    /// The records are stored soundly.
    pub closed spec fn sound(&self) -> bool {
        self.records.wf()
    }

    /// The records in the order in which they came into being.
    pub closed spec fn records(&self) -> Seq<(Pool, Identity, TokenClaim)> {
        Seq::new(
            self.records.entries().len(),
            |i: int|
                (
                    self.records.entries()[i].pool,
                    self.records.entries()[i].recipient,
                    self.records.entries()[i].value,
                ),
        )
    }

    /// The ledger's invariant.
    pub open spec fn wf(&self) -> bool {
        &&& self.sound()
        &&& ledger_wf(self@)
    }

    /// The records are the view: every record is the view's record of its
    /// pool and recipient, every pair of the view has a record, and no pair
    /// has two.
    pub proof fn lemma_records(&self)
        requires
            self.wf(),
        ensures
            forall|i: int|
                0 <= i < self.records().len() ==> self@.contains_key(
                    ((#[trigger] self.records()[i]).0, self.records()[i].1),
                ) && self@[(self.records()[i].0, self.records()[i].1)] == self.records()[i].2,
            forall|k: (Pool, Identity)| #[trigger]
                self@.contains_key(k) ==> exists|i: int|
                    0 <= i < self.records().len() && (#[trigger] self.records()[i]).0 == k.0
                        && self.records()[i].1 == k.1,
            forall|i: int, j: int|
                0 <= i < j < self.records().len() ==> (#[trigger] self.records()[i]).0 != (
                #[trigger] self.records()[j]).0 || self.records()[i].1 != self.records()[j].1,
    {
        self.records.lemma_entries();
        assert forall|i: int| 0 <= i < self.records().len() implies self@.contains_key(
            ((#[trigger] self.records()[i]).0, self.records()[i].1),
        ) && self@[(self.records()[i].0, self.records()[i].1)] == self.records()[i].2 by {
            assert(self.records.entries()[i].key() == (self.records()[i].0, self.records()[i].1));
        }
        assert forall|k: (Pool, Identity)| #[trigger] self@.contains_key(k) implies exists|i: int|
            0 <= i < self.records().len() && (#[trigger] self.records()[i]).0 == k.0
                && self.records()[i].1 == k.1 by {
            let i = choose|i: int|
                0 <= i < self.records.entries().len() && (#[trigger] self.records.entries()[i]).key()
                    == k;
            assert(self.records()[i].0 == k.0 && self.records()[i].1 == k.1);
        }
        assert forall|i: int, j: int| 0 <= i < j < self.records().len() implies (
        #[trigger] self.records()[i]).0 != (#[trigger] self.records()[j]).0 || self.records()[i].1
            != self.records()[j].1 by {
            assert(self.records.entries()[i].key() != self.records.entries()[j].key());
        }
    }

    /// A ledger without records.
    pub fn new() -> (r: ClaimLedger)
        ensures
            r.wf(),
            r@ == Map::<(Pool, Identity), TokenClaim>::empty(),
            r.records().len() == 0,
    {
        ClaimLedger { records: PairMap::new() }
    }

    /// The ledger of the given records, in their order; for a ledger that
    /// was stored record by record. There is none where a record holds
    /// more than its entitlement or a pool and recipient have two records.
    pub fn restore(records: &Vec<(Pool, Identity, TokenClaim)>) -> (r: Option<ClaimLedger>)
        ensures
            r is Some <==> records_wf(records@),
            r matches Some(ledger) ==> ledger.wf() && ledger.records() == records@,
    {
        let mut ledger = ClaimLedger::new();
        let mut i: usize = 0;
        while i < records.len()
            invariant
                0 <= i <= records.len(),
                ledger.wf(),
                ledger.records() == records@.take(i as int),
                records_wf(records@.take(i as int)),
            decreases records.len() - i,
        {
            let (pool, recipient, claim) = records[i];
            proof {
                ledger.lemma_records();
            }
            if ledger.record(pool, &recipient).is_some() {
                proof {
                    let j = choose|j: int|
                        0 <= j < ledger.records().len() && (#[trigger] ledger.records()[j]).0
                            == pool && ledger.records()[j].1 == recipient;
                    assert(records@[j] == records@.take(i as int)[j]);
                    assert(records@[j].0 == records@[i as int].0 && records@[j].1
                        == records@[i as int].1);
                }
                return None;
            }
            if claim.claimed_token > claim.total_allocation {
                assert(!(records@[i as int].2.claimed_token
                    <= records@[i as int].2.total_allocation));
                return None;
            }
            let ghost before = ledger;
            match ledger.record_claim(
                pool,
                recipient,
                claim.claimed_token,
                claim.total_allocation,
            ) {
                Ok(()) => {},
                Err(_) => {
                    return None;
                },
            }
            proof {
                let next = records@.take(i + 1);
                assert(next =~= records@.take(i as int).push(records@[i as int]));
                assert forall|a: int, b: int| 0 <= a < b < next.len() implies (#[trigger] next[a]).0
                    != (#[trigger] next[b]).0 || next[a].1 != next[b].1 by {
                    if b == i {
                        assert(before.records()[a] == next[a]);
                        assert(before@.contains_key((before.records()[a].0, before.records()[a].1)));
                    } else {
                        assert(next[a] == records@.take(i as int)[a]);
                        assert(next[b] == records@.take(i as int)[b]);
                    }
                }
                assert forall|a: int| 0 <= a < next.len() implies (#[trigger] next[a]).2.claimed_token
                    <= next[a].2.total_allocation by {
                    if a < i {
                        assert(next[a] == records@.take(i as int)[a]);
                    }
                }
            }
            i += 1;
        }
        assert(records@.take(i as int) =~= records@);
        Some(ledger)
    }

    /// The record of a recipient in a pool, if there is one.
    pub fn record(&self, pool: Pool, recipient: &Identity) -> (r: Option<TokenClaim>)
        requires
            self.wf(),
        ensures
            r is Some <==> self@.contains_key((pool, *recipient)),
            r matches Some(c) ==> c == self@[(pool, *recipient)],
    {
        self.records.get(pool, recipient)
    }

    /// The sum paid so far to a recipient from a pool; 0 where there is no
    /// record.
    pub fn claimed(&self, pool: Pool, recipient: &Identity) -> (r: u64)
        requires
            self.wf(),
        ensures
            r == claimed_in(self@, pool, *recipient),
    {
        match self.records.get(pool, recipient) {
            Some(c) => c.claimed_token,
            None => 0,
        }
    }

    /// Adds `delta` to the sum paid to a recipient from a pool, under the
    /// given entitlement. Fails with `Overflow`, and changes nothing, where
    /// the new sum would exceed the entitlement (and so the range of
    /// `u64`).
    pub fn record_claim(&mut self, pool: Pool, recipient: Identity, delta: u64, entitlement: u64) -> (r:
        Result<(), AccountingError>)
        requires
            old(self).wf(),
        ensures
            final(self).wf(),
            r is Ok <==> claimed_in(old(self)@, pool, recipient) + delta <= entitlement,
            r is Ok ==> final(self)@ == old(self)@.insert(
                (pool, recipient),
                TokenClaim {
                    total_allocation: entitlement,
                    claimed_token: (claimed_in(old(self)@, pool, recipient) + delta) as u64,
                },
            ),
            r is Ok && !old(self)@.contains_key((pool, recipient)) ==> final(self).records()
                == old(self).records().push(
                (
                    pool,
                    recipient,
                    TokenClaim { total_allocation: entitlement, claimed_token: delta },
                ),
            ),
            r is Ok && old(self)@.contains_key((pool, recipient)) ==> final(self).records().len()
                == old(self).records().len() && forall|i: int|
                0 <= i < old(self).records().len() ==> #[trigger] final(self).records()[i] == if old(
                    self,
                ).records()[i].0 == pool && old(self).records()[i].1 == recipient {
                    (pool, recipient, final(self)@[(pool, recipient)])
                } else {
                    old(self).records()[i]
                },
            r matches Err(e) ==> e == AccountingError::Overflow && final(self)@ == old(self)@
                && final(self).records() == old(self).records(),
    {
        let before: u64 = self.claimed(pool, &recipient);
        if delta > entitlement || before > entitlement - delta {
            return Err(AccountingError::Overflow);
        }
        let total: u64 = before + delta;
        self.records.put(
            pool,
            recipient,
            TokenClaim { total_allocation: entitlement, claimed_token: total },
        );
        Ok(())
    }

    /// The number of records.
    pub fn len(&self) -> (r: usize)
        ensures
            r == self.records().len(),
    {
        self.records.len()
    }

    /// The record at a position, in the order in which the records came
    /// into being, with its pool and recipient.
    pub fn record_at(&self, index: usize) -> (r: Option<(Pool, Identity, TokenClaim)>)
        requires
            self.wf(),
        ensures
            r is Some <==> index < self.records().len(),
            r matches Some(e) ==> e == self.records()[index as int] && self@.contains_key(
                (e.0, e.1),
            ) && self@[(e.0, e.1)] == e.2,
    {
        proof {
            self.lemma_records();
            if index < self.records().len() {
                let e = self.records()[index as int];
                assert(self@.contains_key((e.0, e.1)) && self@[(e.0, e.1)] == e.2);
            }
        }
        self.records.entry_at(index)
    }
}

} // verus!
