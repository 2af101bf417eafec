use token_vesting::pool::Pool;
use token_vesting::{
    AllocationTable, ClaimEngine, ClaimLedger, ClaimRequest, ClaimState, Identity, Liquidity,
    Rejection, TokenAllocation, TransferOutcome, ValidationError, VestingPolicy, VestingSchedule,
    Whitelist,
};

const SECONDS_PER_DAY: i64 = 86_400;
const START: i64 = 1_650_000_000;

fn at_day(days: i64) -> i64 {
    START + days * SECONDS_PER_DAY
}

#[test]
fn team_pool_vests_over_a_year_after_a_cliff() {
    let allocation = TokenAllocation {
        team: 8,
        research: 7,
        marketing: 5,
        partners: 4,
        staking_reward: 10,
        ecosystem_reward: 7,
        airdrop: 4,
        private_sale: 6,
        pre_sale_1: 7,
        pre_sale_2: 8,
        investors: 4,
        ido: 9,
    };
    let liquidity = Liquidity { centralize_exchange: 11, decentralized_exchange: 10 };
    let table = AllocationTable::new(100_000_000, allocation, Some(liquidity)).unwrap();
    assert_eq!(table.cap_for(Pool::Team), Ok(8_000_000));

    let schedule = VestingSchedule::cliff_linear(
        START,
        90 * SECONDS_PER_DAY as u64,
        365 * SECONDS_PER_DAY as u64,
    )
    .unwrap();
    let mut policy = VestingPolicy::new();
    policy.bind(Pool::Team, schedule);

    let recipient = Identity::new([7; 32]);
    let mut whitelist = Whitelist::new(1);
    assert!(whitelist.add(Pool::Team, recipient));
    assert_eq!(whitelist.share_of(Pool::Team, &recipient).map(|f| f.bps()), Ok(10_000));

    let mut engine = ClaimEngine::new(table, policy, ClaimLedger::new());
    let claim_at = |now: i64| ClaimRequest { pool: Pool::Team, recipient, now, authorized: true };

    // 45 days in: the cliff has not ended.
    assert_eq!(
        engine.begin_claim(&whitelist, &claim_at(at_day(45))),
        ClaimState::Rejected(Rejection::Invalid(ValidationError::NotYetVested))
    );

    // At the end of the cliff nothing is unlocked yet.
    let at_cliff = engine.assess(&whitelist, &claim_at(at_day(90))).unwrap();
    assert_eq!(at_cliff.unlocked, 0);
    assert_eq!(at_cliff.payable, 0);
    assert_eq!(
        engine.begin_claim(&whitelist, &claim_at(at_day(90))),
        ClaimState::Rejected(Rejection::NothingToClaim)
    );

    // Halfway through the 275 days of the line: 90 + 137.5 days.
    let half_way = at_day(90) + 275 * SECONDS_PER_DAY / 2;
    let at_half = engine.assess(&whitelist, &claim_at(half_way)).unwrap();
    assert_eq!(at_half.unlocked, 4_000_000);
    assert_eq!(at_half.payable, 4_000_000);
    assert_eq!(
        engine.begin_claim(&whitelist, &claim_at(half_way)),
        ClaimState::TransferPending { amount: 4_000_000 }
    );
    assert_eq!(
        engine.complete_claim(&whitelist, Pool::Team, &recipient, TransferOutcome::Success),
        Ok(ClaimState::Committed { amount: 4_000_000 })
    );
    assert_eq!(engine.claimed(Pool::Team, &recipient), 4_000_000);

    // A second claim at the same instant.
    assert_eq!(engine.assess(&whitelist, &claim_at(half_way)).unwrap().payable, 0);
    assert_eq!(
        engine.begin_claim(&whitelist, &claim_at(half_way)),
        ClaimState::Rejected(Rejection::NothingToClaim)
    );

    // At full vest the other half is paid.
    assert_eq!(
        engine.begin_claim(&whitelist, &claim_at(at_day(365))),
        ClaimState::TransferPending { amount: 4_000_000 }
    );
    assert_eq!(
        engine.complete_claim(&whitelist, Pool::Team, &recipient, TransferOutcome::Success),
        Ok(ClaimState::Committed { amount: 4_000_000 })
    );
    assert_eq!(engine.claimed(Pool::Team, &recipient), 8_000_000);

    // Nothing is payable ever after.
    for now in [at_day(365), at_day(366), at_day(10_000), i64::MAX] {
        assert_eq!(engine.assess(&whitelist, &claim_at(now)).unwrap().payable, 0);
        assert_eq!(
            engine.begin_claim(&whitelist, &claim_at(now)),
            ClaimState::Rejected(Rejection::NothingToClaim)
        );
    }
    assert_eq!(engine.claimed(Pool::Team, &recipient), 8_000_000);
}
