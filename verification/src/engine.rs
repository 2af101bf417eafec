//! The claims engine: the state machine of a claim attempt.
//!
//! An attempt is requested, validated, and evaluated; where something is
//! payable the engine orders a transfer and holds the pair of pool and
//! recipient until the transfer's outcome is known. A confirmed transfer
//! is written to the ledger; any other outcome leaves the ledger as it
//! was. The caller performs the transfer between `begin_claim` and
//! `complete_claim`.

use vstd::prelude::*;
use crate::allocation::{lemma_cap_bounds, AllocationTable, AllocationTableView};
use crate::error::{Rejection, TransferError, ValidationError};
use crate::fraction::{lemma_portion_bounds, lemma_ratio_bounds, portion};
use crate::identity::Identity;
use crate::ledger::{claimed_in, ledger_wf, ClaimLedger, TokenClaim};
use crate::pair_map::PairMap;
use crate::pool::Pool;
use crate::vesting::{lemma_unlocked_bps_bounds, VestingPolicy, VestingScheduleView};
use crate::whitelist::{Whitelist, WhitelistView};

verus! {

/// A request to withdraw what is unlocked and not yet paid.
#[derive(Clone, Copy, Debug, PartialEq, Eq)]
pub struct ClaimRequest {
    pub pool: Pool,
    pub recipient: Identity,
    /// The current time, as the caller's clock gives it.
    pub now: i64,
    /// Whether the identity collaborator has verified the recipient's
    /// authorization proof.
    pub authorized: bool,
}

/// What the asset-transfer collaborator reported.
#[derive(Clone, Copy, Debug, PartialEq, Eq, Structural)]
pub enum TransferOutcome {
    /// An explicit, confirmed success.
    Success,
    /// Anything else.
    Failure(TransferError),
}

/// The state of a claim attempt.
#[derive(Clone, Copy, Debug, PartialEq, Eq, Structural)]
pub enum ClaimState {
    /// The request has been received.
    Requested,
    /// The request has passed validation.
    Validated,
    /// A transfer of `amount` has been ordered and its outcome is awaited.
    TransferPending { amount: u64 },
    /// The transfer was confirmed and `amount` was written to the ledger.
    Committed { amount: u64 },
    /// The attempt ended before a transfer was ordered.
    Rejected(Rejection),
    /// The transfer was not confirmed; the ledger is as it was.
    Failed(TransferError),
}

/// A claim whose transfer has been ordered and not yet settled.
#[derive(Clone, Copy, Debug, PartialEq, Eq, Structural)]
pub struct PendingClaim {
    /// The amount that the transfer moves.
    pub amount: u64,
    /// The recipient's entitlement when the claim was evaluated.
    pub entitlement: u64,
    /// The version of the whitelist snapshot that the claim was evaluated
    /// against.
    pub whitelist_version: u64,
}

/// The figures of an evaluation.
#[derive(Clone, Copy, Debug, PartialEq, Eq, Structural)]
pub struct Assessment {
    /// The recipient's total eventual share of the pool's cap.
    pub entitlement: u64,
    /// The part of the entitlement that is unlocked now.
    pub unlocked: u64,
    /// What the ledger says has been paid.
    pub claimed: u64,
    /// What may be withdrawn now: unlocked less claimed, and never less
    /// than 0.
    pub payable: u64,
}

/// What a claims engine holds.
pub struct ClaimEngineView {
    pub table: AllocationTableView,
    pub schedules: Map<Pool, VestingScheduleView>,
    pub ledger: Map<(Pool, Identity), TokenClaim>,
    pub in_flight: Map<(Pool, Identity), PendingClaim>,
}

impl ClaimEngineView {
    /// The engine's invariant: its reference data and its ledger meet
    /// theirs, and the ledger has room for every claim in flight.
    pub open spec fn wf(self) -> bool {
        &&& self.table.wf()
        &&& forall|pool: Pool| #[trigger]
            self.schedules.contains_key(pool) ==> self.schedules[pool].wf()
        &&& ledger_wf(self.ledger)
        &&& forall|k: (Pool, Identity)| #[trigger]
            self.in_flight.contains_key(k) ==> 0 < self.in_flight[k].amount && claimed_in(
                self.ledger,
                k.0,
                k.1,
            ) + self.in_flight[k].amount <= self.in_flight[k].entitlement
    }

    /// The first reason, if any, for which validation turns a request
    /// down: authorization, then the pool, then the whitelist, then the
    /// time.
    pub open spec fn validation(self, whitelist: WhitelistView, request: ClaimRequest) -> Option<
        ValidationError,
    > {
        if !request.authorized {
            Some(ValidationError::Unauthorized)
        } else if self.table.cap(request.pool) is None || !self.schedules.contains_key(
            request.pool,
        ) {
            Some(ValidationError::UnknownPool)
        } else if !whitelist.is_member(request.pool, request.recipient) {
            Some(ValidationError::NotWhitelisted)
        } else if request.now < self.schedules[request.pool].earliest_unlock() {
            Some(ValidationError::NotYetVested)
        } else {
            None
        }
    }

    /// The state that a requested attempt reaches by validation alone.
    pub open spec fn validated(self, whitelist: WhitelistView, request: ClaimRequest) -> ClaimState {
        match self.validation(whitelist, request) {
            Some(e) => ClaimState::Rejected(Rejection::Invalid(e)),
            None => ClaimState::Validated,
        }
    }

    /// A recipient's entitlement in a pool: its share of the pool's cap,
    /// rounded down.
    pub open spec fn entitlement(self, whitelist: WhitelistView, pool: Pool) -> int {
        portion(self.table.cap_or_zero(pool), whitelist.share_bps(pool))
    }

    /// The part of the entitlement that is unlocked at `now`, rounded
    /// down.
    pub open spec fn unlocked(self, whitelist: WhitelistView, pool: Pool, now: int) -> int {
        portion(self.entitlement(whitelist, pool), self.schedules[pool].unlocked_bps(now))
    }

    /// What the ledger says has been paid to a recipient from a pool.
    pub open spec fn claimed(self, pool: Pool, recipient: Identity) -> int {
        claimed_in(self.ledger, pool, recipient)
    }

    /// What a recipient may withdraw at `now`: unlocked less claimed, and
    /// never less than 0.
    pub open spec fn payable(
        self,
        whitelist: WhitelistView,
        pool: Pool,
        recipient: Identity,
        now: int,
    ) -> int {
        let unlocked = self.unlocked(whitelist, pool, now);
        let claimed = self.claimed(pool, recipient);
        if unlocked > claimed {
            unlocked - claimed
        } else {
            0
        }
    }

    /// The figures of the evaluation of a request.
    pub open spec fn assessment(self, whitelist: WhitelistView, request: ClaimRequest) -> Assessment {
        Assessment {
            entitlement: self.entitlement(whitelist, request.pool) as u64,
            unlocked: self.unlocked(whitelist, request.pool, request.now as int) as u64,
            claimed: self.claimed(request.pool, request.recipient) as u64,
            payable: self.payable(
                whitelist,
                request.pool,
                request.recipient,
                request.now as int,
            ) as u64,
        }
    }

    /// The engine after a request, and the state that the attempt
    /// reaches. Only an ordered transfer changes the engine: the pair is
    /// then in flight.
    pub open spec fn begin(self, whitelist: WhitelistView, request: ClaimRequest) -> (
        ClaimEngineView,
        ClaimState,
    ) {
        let key = (request.pool, request.recipient);
        let figures = self.assessment(whitelist, request);
        match self.validation(whitelist, request) {
            Some(e) => (self, ClaimState::Rejected(Rejection::Invalid(e))),
            None => {
                if self.in_flight.contains_key(key) {
                    (self, ClaimState::Rejected(Rejection::ClaimInFlight))
                } else if figures.payable == 0 {
                    (self, ClaimState::Rejected(Rejection::NothingToClaim))
                } else {
                    (
                        ClaimEngineView {
                            in_flight: self.in_flight.insert(
                                key,
                                PendingClaim {
                                    amount: figures.payable,
                                    entitlement: figures.entitlement,
                                    whitelist_version: whitelist.version,
                                },
                            ),
                            ..self
                        },
                        ClaimState::TransferPending { amount: figures.payable },
                    )
                }
            },
        }
    }

    /// The engine after the outcome of a transfer, and the state that the
    /// attempt reaches. A refusal leaves the engine as it was. Only a
    /// confirmed success, under the whitelist version that the claim was
    /// evaluated against, writes to the ledger.
    pub open spec fn complete(
        self,
        whitelist_version: u64,
        pool: Pool,
        recipient: Identity,
        outcome: TransferOutcome,
    ) -> (ClaimEngineView, Result<ClaimState, Rejection>) {
        let key = (pool, recipient);
        if !self.in_flight.contains_key(key) {
            (self, Err(Rejection::NoClaimInFlight))
        } else {
            let pending = self.in_flight[key];
            match outcome {
                TransferOutcome::Failure(reason) => (
                    ClaimEngineView { in_flight: self.in_flight.remove(key), ..self },
                    Ok(ClaimState::Failed(reason)),
                ),
                TransferOutcome::Success => {
                    if whitelist_version != pending.whitelist_version {
                        (self, Err(Rejection::Invalid(ValidationError::WhitelistChanged)))
                    } else {
                        (
                            ClaimEngineView {
                                ledger: self.ledger.insert(
                                    key,
                                    TokenClaim {
                                        total_allocation: pending.entitlement,
                                        claimed_token: (self.claimed(pool, recipient)
                                            + pending.amount) as u64,
                                    },
                                ),
                                in_flight: self.in_flight.remove(key),
                                ..self
                            },
                            Ok(ClaimState::Committed { amount: pending.amount }),
                        )
                    }
                },
            }
        }
    }
}

/// The figures of an evaluation are in range: what is unlocked is at most
/// the entitlement, which is at most the pool's cap, which is at most the
/// total supply.
pub proof fn lemma_figures_in_range(
    engine: ClaimEngineView,
    whitelist: WhitelistView,
    pool: Pool,
    now: int,
)
    requires
        engine.wf(),
        engine.schedules.contains_key(pool),
        whitelist.members_of(pool).len() > 0,
    ensures
        0 <= engine.unlocked(whitelist, pool, now) <= engine.entitlement(whitelist, pool)
            <= engine.table.cap_or_zero(pool) <= engine.table.total_supply <= u64::MAX,
{
    lemma_cap_bounds(engine.table, pool);
    lemma_ratio_bounds(1, whitelist.members_of(pool).len() as int);
    lemma_portion_bounds(engine.table.cap_or_zero(pool), whitelist.share_bps(pool));
    lemma_unlocked_bps_bounds(engine.schedules[pool], now);
    lemma_portion_bounds(
        engine.entitlement(whitelist, pool),
        engine.schedules[pool].unlocked_bps(now),
    );
}

/// The claims engine. It owns the reference data, the ledger, and the
/// table of claims in flight.
pub struct ClaimEngine {
    table: AllocationTable,
    policy: VestingPolicy,
    ledger: ClaimLedger,
    in_flight: PairMap<PendingClaim>,
}

impl View for ClaimEngine {
    type V = ClaimEngineView;

    closed spec fn view(&self) -> ClaimEngineView {
        ClaimEngineView {
            table: self.table@,
            schedules: self.policy@,
            ledger: self.ledger@,
            in_flight: self.in_flight@,
        }
    }
}

impl ClaimEngine {
    /// The engine's parts are stored soundly.
    pub closed spec fn sound(&self) -> bool {
        &&& self.policy.well_sized()
        &&& self.ledger.sound()
        &&& self.in_flight.wf()
    }

    /// The engine's invariant.
    pub open spec fn wf(&self) -> bool {
        &&& self.sound()
        &&& self@.wf()
    }

    /// An engine over validated reference data and a ledger, with no claim
    /// in flight.
    pub fn new(table: AllocationTable, policy: VestingPolicy, ledger: ClaimLedger) -> (r:
        ClaimEngine)
        requires
            table.wf(),
            policy.wf(),
            ledger.wf(),
        ensures
            r.wf(),
            r@ == (ClaimEngineView {
                table: table@,
                schedules: policy@,
                ledger: ledger@,
                in_flight: Map::empty(),
            }),
    {
        ClaimEngine { table, policy, ledger, in_flight: PairMap::new() }
    }

    /// Takes a requested attempt through validation: it is then validated,
    /// or rejected for the first reason that validation finds.
    pub fn validate(&self, whitelist: &Whitelist, request: &ClaimRequest) -> (state: ClaimState)
        requires
            self.wf(),
            whitelist.wf(),
        ensures
            state == self@.validated(whitelist@, *request),
    {
        match self.assess(whitelist, request) {
            Ok(_) => ClaimState::Validated,
            Err(e) => ClaimState::Rejected(Rejection::Invalid(e)),
        }
    }

    /// Validates and evaluates a request without changing anything.
    /// Fails with the first reason for which validation turns the request
    /// down.
    pub fn assess(&self, whitelist: &Whitelist, request: &ClaimRequest) -> (r: Result<
        Assessment,
        ValidationError,
    >)
        requires
            self.wf(),
            whitelist.wf(),
        ensures
            match self@.validation(whitelist@, *request) {
                Some(e) => r == Err::<Assessment, ValidationError>(e),
                None => r == Ok::<Assessment, ValidationError>(
                    self@.assessment(whitelist@, *request),
                ),
            },
            r matches Ok(a) ==> a.unlocked <= a.entitlement && a.entitlement
                == self@.entitlement(whitelist@, request.pool) && a.unlocked == self@.unlocked(
                whitelist@,
                request.pool,
                request.now as int,
            ) && a.payable == self@.payable(
                whitelist@,
                request.pool,
                request.recipient,
                request.now as int,
            ),
    {
        if !request.authorized {
            return Err(ValidationError::Unauthorized);
        }
        let cap: u64 = match self.table.cap_for(request.pool) {
            Ok(cap) => cap,
            Err(e) => {
                return Err(e);
            },
        };
        let schedule = match self.policy.schedule_for(request.pool) {
            Ok(schedule) => schedule,
            Err(e) => {
                return Err(e);
            },
        };
        let share = match whitelist.share_of(request.pool, &request.recipient) {
            Ok(share) => share,
            Err(e) => {
                return Err(e);
            },
        };
        if !schedule.unlock_reached(request.now) {
            return Err(ValidationError::NotYetVested);
        }
        proof {
            lemma_figures_in_range(self@, whitelist@, request.pool, request.now as int);
        }
        let entitlement: u64 = share.of(cap);
        let unlocked: u64 = schedule.unlocked_fraction(request.now).of(entitlement);
        let claimed: u64 = self.ledger.claimed(request.pool, &request.recipient);
        let payable: u64 = if unlocked > claimed {
            unlocked - claimed
        } else {
            0
        };
        Ok(Assessment { entitlement, unlocked, claimed, payable })
    }

    /// Takes a claim attempt from its request to a terminal rejection or
    /// to an ordered transfer.
    ///
    /// Where the attempt reaches `TransferPending`, the caller must ask the
    /// asset-transfer collaborator, exactly once, to move `amount` to the
    /// recipient, and hand the outcome to `complete_claim`. Until then the
    /// pair of pool and recipient is held: another request for it is
    /// rejected with `ClaimInFlight`.
    pub fn begin_claim(&mut self, whitelist: &Whitelist, request: &ClaimRequest) -> (state:
        ClaimState)
        requires
            old(self).wf(),
            whitelist.wf(),
        ensures
            final(self).wf(),
            (final(self)@, state) == old(self)@.begin(whitelist@, *request),
    {
        let figures = match self.assess(whitelist, request) {
            Ok(figures) => figures,
            Err(e) => {
                return ClaimState::Rejected(Rejection::Invalid(e));
            },
        };
        if self.in_flight.get(request.pool, &request.recipient).is_some() {
            return ClaimState::Rejected(Rejection::ClaimInFlight);
        }
        if figures.payable == 0 {
            return ClaimState::Rejected(Rejection::NothingToClaim);
        }
        self.in_flight.put(
            request.pool,
            request.recipient,
            PendingClaim {
                amount: figures.payable,
                entitlement: figures.entitlement,
                whitelist_version: whitelist.version(),
            },
        );
        proof {
            let key = (request.pool, request.recipient);
            assert(claimed_in(self@.ledger, key.0, key.1) + figures.payable
                <= figures.entitlement);
            assert forall|k: (Pool, Identity)| #[trigger]
                self@.in_flight.contains_key(k) implies 0 < self@.in_flight[k].amount
                && claimed_in(self@.ledger, k.0, k.1) + self@.in_flight[k].amount
                <= self@.in_flight[k].entitlement by {
                if k != key {
                    assert(old(self)@.in_flight.contains_key(k));
                }
            }
        }
        ClaimState::TransferPending { amount: figures.payable }
    }

    /// Settles the claim in flight for a pool and recipient with the
    /// outcome of its transfer.
    ///
    /// A confirmed success adds the amount to the ledger, once, and
    /// releases the pair. Any other outcome releases the pair and leaves
    /// the ledger as it was, so that the claim can be tried again. The
    /// request is refused, and nothing changes, where no claim is in
    /// flight for the pair, or where a success is reported under a
    /// whitelist snapshot other than the one the claim was evaluated
    /// against.
    pub fn complete_claim(
        &mut self,
        whitelist: &Whitelist,
        pool: Pool,
        recipient: &Identity,
        outcome: TransferOutcome,
    ) -> (r: Result<ClaimState, Rejection>)
        requires
            old(self).wf(),
        ensures
            final(self).wf(),
            (final(self)@, r) == old(self)@.complete(
                whitelist@.version,
                pool,
                *recipient,
                outcome,
            ),
    {
        let pending = match self.in_flight.get(pool, recipient) {
            Some(pending) => pending,
            None => {
                return Err(Rejection::NoClaimInFlight);
            },
        };
        match outcome {
            TransferOutcome::Failure(reason) => {
                self.in_flight.remove(pool, recipient);
                Ok(ClaimState::Failed(reason))
            },
            TransferOutcome::Success => {
                if whitelist.version() != pending.whitelist_version {
                    return Err(Rejection::Invalid(ValidationError::WhitelistChanged));
                }
                match self.ledger.record_claim(
                    pool,
                    *recipient,
                    pending.amount,
                    pending.entitlement,
                ) {
                    Ok(()) => {
                        self.in_flight.remove(pool, recipient);
                        Ok(ClaimState::Committed { amount: pending.amount })
                    },
                    Err(e) => Err(Rejection::Internal(e)),
                }
            },
        }
    }

    /// What the ledger says has been paid to a recipient from a pool.
    pub fn claimed(&self, pool: Pool, recipient: &Identity) -> (r: u64)
        requires
            self.wf(),
        ensures
            r == self@.claimed(pool, *recipient),
    {
        self.ledger.claimed(pool, recipient)
    }

    /// The claim in flight for a pool and recipient, if there is one.
    pub fn pending(&self, pool: Pool, recipient: &Identity) -> (r: Option<PendingClaim>)
        requires
            self.wf(),
        ensures
            r is Some <==> self@.in_flight.contains_key((pool, *recipient)),
            r matches Some(p) ==> p == self@.in_flight[(pool, *recipient)],
    {
        self.in_flight.get(pool, recipient)
    }

    /// The ledger, for the caller to persist.
    pub fn ledger(&self) -> (r: &ClaimLedger)
        requires
            self.wf(),
        ensures
            r.wf(),
            r@ == self@.ledger,
    {
        &self.ledger
    }
}

} // verus!
