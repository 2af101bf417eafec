//! What holds of the library as a whole.
//!
//! Each law is a proof over the views and spec functions that the
//! contracts of the executable functions speak of.

use vstd::prelude::*;
use crate::allocation::{cap_tokens, lemma_cap_bounds, AllocationTableView};
use crate::engine::{
    lemma_figures_in_range, ClaimEngineView, ClaimRequest, ClaimState, TransferOutcome,
};
use crate::error::{Rejection, TransferError};
use crate::fraction::{lemma_portion_monotonic, lemma_ratio_bounds};
use crate::identity::Identity;
use crate::ledger::claimed_in;
use crate::pool::Pool;
use crate::vesting::{
    lemma_unlocked_bps_bounds, lemma_unlocked_bps_monotonic, VestingScheduleView,
};
use crate::whitelist::WhitelistView;

verus! {

/// In every allocation table the percentages sum to 100, none exceeds
/// 100, and the caps of all pools together do not exceed the total supply.
pub proof fn law_allocation_is_a_partition(table: AllocationTableView)
    requires
        table.wf(),
    ensures
        table.percent_sum() == 100,
        forall|pool: Pool| #[trigger] table.percent(pool) matches Some(p) ==> 0 <= p <= 100,
        0 <= table.cap_sum() <= table.total_supply,
{
    let s = table.total_supply;
    let a = table.allocation;
    assert forall|p: int| 0 <= p implies 0 <= #[trigger] cap_tokens(s, p) && 100 * cap_tokens(s, p)
        <= s * p by {
        assert(0 <= s * p / 100 && 100 * (s * p / 100) <= s * p) by (nonlinear_arith)
            requires
                0 <= s,
                0 <= p,
        ;
    }
    let main = cap_tokens(s, a.team as int) + cap_tokens(s, a.research as int) + cap_tokens(
        s,
        a.marketing as int,
    ) + cap_tokens(s, a.partners as int) + cap_tokens(s, a.staking_reward as int) + cap_tokens(
        s,
        a.ecosystem_reward as int,
    ) + cap_tokens(s, a.airdrop as int) + cap_tokens(s, a.private_sale as int) + cap_tokens(
        s,
        a.pre_sale_1 as int,
    ) + cap_tokens(s, a.pre_sale_2 as int) + cap_tokens(s, a.investors as int) + cap_tokens(
        s,
        a.ido as int,
    );
    assert(s * a.team + s * a.research + s * a.marketing + s * a.partners + s * a.staking_reward
        + s * a.ecosystem_reward + s * a.airdrop + s * a.private_sale + s * a.pre_sale_1 + s
        * a.pre_sale_2 + s * a.investors + s * a.ido == s * a.percent_sum()) by (nonlinear_arith);
    match table.liquidity {
        Some(l) => {
            assert(s * a.percent_sum() + s * l.centralize_exchange + s * l.decentralized_exchange
                == s * 100) by (nonlinear_arith)
                requires
                    a.percent_sum() + l.centralize_exchange + l.decentralized_exchange == 100,
            ;
            assert(table.cap_sum() == main + cap_tokens(s, l.centralize_exchange as int)
                + cap_tokens(s, l.decentralized_exchange as int));
        },
        None => {
            assert(table.cap_sum() == main);
        },
    }
}

/// The unlocked fraction of a schedule lies between 0 and one whole and
/// never shrinks as time passes.
pub proof fn law_unlocked_fraction_is_monotonic(schedule: VestingScheduleView, t1: int, t2: int)
    requires
        schedule.wf(),
        t1 <= t2,
    ensures
        0 <= schedule.unlocked_bps(t1) <= schedule.unlocked_bps(t2) <= 10_000,
{
    lemma_unlocked_bps_bounds(schedule, t1);
    lemma_unlocked_bps_bounds(schedule, t2);
    lemma_unlocked_bps_monotonic(schedule, t1, t2);
}

/// For every pool with a schedule and every recipient, what is unlocked
/// never shrinks as time passes, and what is payable never shrinks while
/// the ledger stays as it is.
pub proof fn law_unlocked_amount_is_monotonic(
    engine: ClaimEngineView,
    whitelist: WhitelistView,
    pool: Pool,
    recipient: Identity,
    t1: int,
    t2: int,
)
    requires
        engine.wf(),
        whitelist.wf(),
        engine.schedules.contains_key(pool),
        whitelist.is_member(pool, recipient),
        t1 <= t2,
    ensures
        0 <= engine.unlocked(whitelist, pool, t1) <= engine.unlocked(whitelist, pool, t2)
            <= engine.entitlement(whitelist, pool),
        engine.payable(whitelist, pool, recipient, t1) <= engine.payable(
            whitelist,
            pool,
            recipient,
            t2,
        ),
{
    lemma_figures_in_range(engine, whitelist, pool, t1);
    lemma_figures_in_range(engine, whitelist, pool, t2);
    law_unlocked_fraction_is_monotonic(engine.schedules[pool], t1, t2);
    lemma_portion_monotonic(
        engine.entitlement(whitelist, pool),
        engine.schedules[pool].unlocked_bps(t1),
        engine.entitlement(whitelist, pool),
        engine.schedules[pool].unlocked_bps(t2),
    );
}

/// The entitlements of all recipients of a pool together do not exceed
/// the pool's cap.
pub proof fn law_entitlements_within_cap(
    engine: ClaimEngineView,
    whitelist: WhitelistView,
    pool: Pool,
)
    requires
        engine.wf(),
        whitelist.wf(),
        whitelist.members_of(pool).len() > 0,
    ensures
        0 <= whitelist.members_of(pool).len() * engine.entitlement(whitelist, pool)
            <= engine.table.cap_or_zero(pool),
{
    let n = whitelist.members_of(pool).len() as int;
    let cap = engine.table.cap_or_zero(pool);
    let share = whitelist.share_bps(pool);
    lemma_cap_bounds(engine.table, pool);
    lemma_ratio_bounds(1, n);
    assert(0 <= n * (cap * share / 10_000) <= cap) by (nonlinear_arith)
        requires
            0 < n,
            0 <= cap,
            0 <= share,
            share == 1int * 10_000 / n,
    ;
}

/// A request leaves the engine's invariant in place, never touches the
/// ledger or the reference data, and changes nothing unless it orders a
/// transfer.
pub proof fn law_begin_keeps_invariant(
    engine: ClaimEngineView,
    whitelist: WhitelistView,
    request: ClaimRequest,
)
    requires
        engine.wf(),
        whitelist.wf(),
    ensures
        engine.begin(whitelist, request).0.wf(),
        engine.begin(whitelist, request).0.ledger == engine.ledger,
        engine.begin(whitelist, request).0.table == engine.table,
        engine.begin(whitelist, request).0.schedules == engine.schedules,
        engine.begin(whitelist, request).1 is TransferPending || (engine.begin(
            whitelist,
            request,
        ).1 is Rejected && engine.begin(whitelist, request).0 == engine),
        engine.begin(whitelist, request).1 matches ClaimState::TransferPending { amount } ==> 0
            < amount == engine.payable(
            whitelist,
            request.pool,
            request.recipient,
            request.now as int,
        ) && engine.claimed(request.pool, request.recipient) + amount == engine.unlocked(
            whitelist,
            request.pool,
            request.now as int,
        ),
{
    let after = engine.begin(whitelist, request).0;
    let key = (request.pool, request.recipient);
    if engine.validation(whitelist, request) is None {
        lemma_figures_in_range(engine, whitelist, request.pool, request.now as int);
        assert forall|k: (Pool, Identity)| #[trigger] after.in_flight.contains_key(k) implies 0
            < after.in_flight[k].amount && claimed_in(after.ledger, k.0, k.1)
            + after.in_flight[k].amount <= after.in_flight[k].entitlement by {
            if k != key {
                assert(engine.in_flight.contains_key(k));
            }
        }
    }
}

/// The outcome of a transfer leaves the engine's invariant in place. The
/// ledger changes only on a confirmed success, and then by exactly the
/// amount of the claim in flight, for its pair alone.
pub proof fn law_complete_keeps_invariant(
    engine: ClaimEngineView,
    whitelist_version: u64,
    pool: Pool,
    recipient: Identity,
    outcome: TransferOutcome,
)
    requires
        engine.wf(),
    ensures
        engine.complete(whitelist_version, pool, recipient, outcome).0.wf(),
        engine.complete(whitelist_version, pool, recipient, outcome).0.table == engine.table,
        engine.complete(whitelist_version, pool, recipient, outcome).0.schedules
            == engine.schedules,
        engine.complete(whitelist_version, pool, recipient, outcome).1 matches Ok(
            ClaimState::Committed { amount },
        ) ==> outcome == TransferOutcome::Success && engine.in_flight.contains_key(
            (pool, recipient),
        ) && amount == engine.in_flight[(pool, recipient)].amount && engine.complete(
            whitelist_version,
            pool,
            recipient,
            outcome,
        ).0.claimed(pool, recipient) == engine.claimed(pool, recipient) + amount,
        !(engine.complete(whitelist_version, pool, recipient, outcome).1 matches Ok(
            ClaimState::Committed { amount },
        )) ==> engine.complete(whitelist_version, pool, recipient, outcome).0.ledger
            == engine.ledger,
        forall|other: (Pool, Identity)|
            other != (pool, recipient) ==> #[trigger] engine.complete(
                whitelist_version,
                pool,
                recipient,
                outcome,
            ).0.claimed(other.0, other.1) == engine.claimed(other.0, other.1),
{
    let after = engine.complete(whitelist_version, pool, recipient, outcome).0;
    let key = (pool, recipient);
    assert forall|k: (Pool, Identity)| #[trigger] after.in_flight.contains_key(k) implies 0
        < after.in_flight[k].amount && claimed_in(after.ledger, k.0, k.1)
        + after.in_flight[k].amount <= after.in_flight[k].entitlement by {
        assert(engine.in_flight.contains_key(k));
    }
}

/// The ledger only grows. The outcome of a transfer never removes a record
/// and never lowers the sum that a record holds.
pub proof fn law_ledger_only_grows(
    engine: ClaimEngineView,
    whitelist_version: u64,
    pool: Pool,
    recipient: Identity,
    outcome: TransferOutcome,
)
    requires
        engine.wf(),
    ensures
        forall|k: (Pool, Identity)| #[trigger]
            engine.ledger.contains_key(k) ==> engine.complete(
                whitelist_version,
                pool,
                recipient,
                outcome,
            ).0.ledger.contains_key(k),
        forall|k: (Pool, Identity)|
            engine.claimed(k.0, k.1) <= #[trigger] engine.complete(
                whitelist_version,
                pool,
                recipient,
                outcome,
            ).0.claimed(k.0, k.1),
{
}

/// One claim, from its request to the end: where a transfer is ordered it
/// is confirmed, under the snapshot that the claim was evaluated against.
/// Gives the engine afterwards and the amount committed.
pub open spec fn claim_once(
    engine: ClaimEngineView,
    whitelist: WhitelistView,
    request: ClaimRequest,
) -> (ClaimEngineView, int) {
    let begun = engine.begin(whitelist, request);
    match begun.1 {
        ClaimState::TransferPending { amount } => (
            begun.0.complete(
                whitelist.version,
                request.pool,
                request.recipient,
                TransferOutcome::Success,
            ).0,
            amount as int,
        ),
        _ => (begun.0, 0),
    }
}

/// A sequence of claims, one after the other. Gives the engine afterwards
/// and the sum of all amounts committed.
pub open spec fn claim_all(
    engine: ClaimEngineView,
    whitelist: WhitelistView,
    requests: Seq<ClaimRequest>,
) -> (ClaimEngineView, int)
    decreases requests.len(),
{
    if requests.len() == 0 {
        (engine, 0)
    } else {
        let before = claim_all(engine, whitelist, requests.drop_last());
        let last = claim_once(before.0, whitelist, requests.last());
        (last.0, before.1 + last.1)
    }
}

/// All requests of a sequence are for one pool and recipient, and their
/// times do not run backwards.
pub open spec fn claim_sequence(requests: Seq<ClaimRequest>, pool: Pool, recipient: Identity) -> bool {
    &&& forall|i: int|
        0 <= i < requests.len() ==> (#[trigger] requests[i]).pool == pool && requests[i].recipient
            == recipient
    &&& forall|i: int, j: int|
        0 <= i <= j < requests.len() ==> (#[trigger] requests[i]).now <= (#[trigger] requests[j]).now
}

/// No over-payment and no early payment. Over any sequence of claims for
/// one pool and recipient, the ledger grows by exactly the sum of the
/// amounts committed; and where anything was committed, what the ledger
/// then holds is at most what is unlocked at the time of the last claim,
/// which is at most the entitlement.
pub proof fn law_no_over_payment(
    engine: ClaimEngineView,
    whitelist: WhitelistView,
    pool: Pool,
    recipient: Identity,
    requests: Seq<ClaimRequest>,
)
    requires
        engine.wf(),
        whitelist.wf(),
        claim_sequence(requests, pool, recipient),
        !engine.in_flight.contains_key((pool, recipient)),
    ensures
        claim_all(engine, whitelist, requests).0.wf(),
        claim_all(engine, whitelist, requests).0.table == engine.table,
        claim_all(engine, whitelist, requests).0.schedules == engine.schedules,
        !claim_all(engine, whitelist, requests).0.in_flight.contains_key((pool, recipient)),
        0 <= claim_all(engine, whitelist, requests).1,
        claim_all(engine, whitelist, requests).0.claimed(pool, recipient) == engine.claimed(
            pool,
            recipient,
        ) + claim_all(engine, whitelist, requests).1,
        claim_all(engine, whitelist, requests).1 > 0 ==> engine.claimed(pool, recipient)
            + claim_all(engine, whitelist, requests).1 <= engine.unlocked(
            whitelist,
            pool,
            requests.last().now as int,
        ) <= engine.entitlement(whitelist, pool),
    decreases requests.len(),
{
    if requests.len() > 0 {
        let earlier = requests.drop_last();
        let request = requests.last();
        assert(claim_sequence(earlier, pool, recipient)) by {
            assert forall|i: int| 0 <= i < earlier.len() implies earlier[i] == requests[i] by {}
        }
        law_no_over_payment(engine, whitelist, pool, recipient, earlier);
        let before = claim_all(engine, whitelist, earlier);
        law_begin_keeps_invariant(before.0, whitelist, request);
        let begun = before.0.begin(whitelist, request);
        law_complete_keeps_invariant(
            begun.0,
            whitelist.version,
            pool,
            recipient,
            TransferOutcome::Success,
        );
        assert(request.pool == pool && request.recipient == recipient);
        if before.1 > 0 {
            assert(earlier.last() == requests[requests.len() - 2]);
            assert(engine.schedules.contains_key(pool) && whitelist.is_member(pool, recipient))
                by {
                lemma_paid_means_valid(engine, whitelist, pool, recipient, earlier);
            }
            law_unlocked_amount_is_monotonic(
                before.0,
                whitelist,
                pool,
                recipient,
                earlier.last().now as int,
                request.now as int,
            );
        }
        if begun.1 is TransferPending {
            lemma_figures_in_range(before.0, whitelist, pool, request.now as int);
        }
    }
}

/// Where a sequence of claims has committed anything, the pool has a
/// schedule and the recipient is on the whitelist.
proof fn lemma_paid_means_valid(
    engine: ClaimEngineView,
    whitelist: WhitelistView,
    pool: Pool,
    recipient: Identity,
    requests: Seq<ClaimRequest>,
)
    requires
        engine.wf(),
        whitelist.wf(),
        claim_sequence(requests, pool, recipient),
        !engine.in_flight.contains_key((pool, recipient)),
        claim_all(engine, whitelist, requests).1 > 0,
    ensures
        engine.schedules.contains_key(pool),
        whitelist.is_member(pool, recipient),
    decreases requests.len(),
{
    if requests.len() > 0 {
        let earlier = requests.drop_last();
        assert(claim_sequence(earlier, pool, recipient)) by {
            assert forall|i: int| 0 <= i < earlier.len() implies earlier[i] == requests[i] by {}
        }
        law_no_over_payment(engine, whitelist, pool, recipient, earlier);
        let before = claim_all(engine, whitelist, earlier);
        if before.1 > 0 {
            lemma_paid_means_valid(engine, whitelist, pool, recipient, earlier);
        } else {
            assert(requests.last().pool == pool && requests.last().recipient == recipient);
        }
    }
}

/// A failed transfer undoes its request. After a request that ordered a
/// transfer and a report that the transfer failed, the engine is as it
/// was before the request, so the same request gives the same figures and
/// orders the same transfer again.
pub proof fn law_failed_claim_can_be_replayed(
    engine: ClaimEngineView,
    whitelist: WhitelistView,
    request: ClaimRequest,
    whitelist_version: u64,
    reason: TransferError,
)
    requires
        engine.wf(),
        whitelist.wf(),
        engine.begin(whitelist, request).1 is TransferPending,
    ensures
        engine.begin(whitelist, request).0.complete(
            whitelist_version,
            request.pool,
            request.recipient,
            TransferOutcome::Failure(reason),
        ) == (engine, Ok::<ClaimState, Rejection>(ClaimState::Failed(reason))),
        engine.begin(whitelist, request).0.complete(
            whitelist_version,
            request.pool,
            request.recipient,
            TransferOutcome::Failure(reason),
        ).0.begin(whitelist, request) == engine.begin(whitelist, request),
{
    let key = (request.pool, request.recipient);
    let begun = engine.begin(whitelist, request).0;
    let settled = begun.complete(
        whitelist_version,
        request.pool,
        request.recipient,
        TransferOutcome::Failure(reason),
    ).0;
    assert(settled.in_flight =~= engine.in_flight);
}

/// At most one claim is in flight for a pool and recipient. While a
/// transfer is awaited, every other request for the same pair, at any time
/// and under any snapshot, is rejected and changes nothing; no second
/// transfer is ordered.
pub proof fn law_one_claim_in_flight(
    engine: ClaimEngineView,
    whitelist: WhitelistView,
    request: ClaimRequest,
    other_whitelist: WhitelistView,
    other: ClaimRequest,
)
    requires
        engine.wf(),
        whitelist.wf(),
        engine.begin(whitelist, request).1 is TransferPending,
        other.pool == request.pool,
        other.recipient == request.recipient,
    ensures
        engine.begin(whitelist, request).0.begin(other_whitelist, other).1 is Rejected,
        engine.begin(whitelist, request).0.begin(other_whitelist, other).0 == engine.begin(
            whitelist,
            request,
        ).0,
        engine.begin(whitelist, request).0.validation(other_whitelist, other) is None
            ==> engine.begin(whitelist, request).0.begin(other_whitelist, other).1
            == ClaimState::Rejected(Rejection::ClaimInFlight),
{
}

/// A committed claim pays the full payable amount, and a second claim at
/// the same instant finds nothing left to claim.
pub proof fn law_second_claim_finds_nothing(
    engine: ClaimEngineView,
    whitelist: WhitelistView,
    request: ClaimRequest,
)
    requires
        engine.wf(),
        whitelist.wf(),
        engine.begin(whitelist, request).1 is TransferPending,
    ensures
        claim_once(engine, whitelist, request).1 == engine.payable(
            whitelist,
            request.pool,
            request.recipient,
            request.now as int,
        ),
        claim_once(engine, whitelist, request).0.claimed(request.pool, request.recipient)
            == engine.unlocked(whitelist, request.pool, request.now as int),
        claim_once(engine, whitelist, request).0.begin(whitelist, request).1
            == ClaimState::Rejected(Rejection::NothingToClaim),
        claim_once(claim_once(engine, whitelist, request).0, whitelist, request) == (
            claim_once(engine, whitelist, request).0,
            0int,
        ),
{
    law_begin_keeps_invariant(engine, whitelist, request);
    lemma_figures_in_range(engine, whitelist, request.pool, request.now as int);
    let begun = engine.begin(whitelist, request).0;
    let key = (request.pool, request.recipient);
    let after = claim_once(engine, whitelist, request).0;
    assert(!after.in_flight.contains_key(key));
}

/// Claims for different pairs of pool and recipient do not touch each
/// other: a request for one pair leaves what is claimed, what is payable
/// and what is in flight for every other pair as it was.
pub proof fn law_pairs_are_independent(
    engine: ClaimEngineView,
    whitelist: WhitelistView,
    request: ClaimRequest,
    other_whitelist: WhitelistView,
    other: ClaimRequest,
)
    requires
        engine.wf(),
        whitelist.wf(),
        (other.pool, other.recipient) != (request.pool, request.recipient),
    ensures
        engine.begin(whitelist, request).0.begin(other_whitelist, other).1 == engine.begin(
            other_whitelist,
            other,
        ).1,
        claim_once(engine, whitelist, request).0.begin(other_whitelist, other).1 == engine.begin(
            other_whitelist,
            other,
        ).1,
{
    law_begin_keeps_invariant(engine, whitelist, request);
    law_complete_keeps_invariant(
        engine.begin(whitelist, request).0,
        whitelist.version,
        request.pool,
        request.recipient,
        TransferOutcome::Success,
    );
}

} // verus!
