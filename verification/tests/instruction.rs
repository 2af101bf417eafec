use token_vesting::pool::Pool;
use token_vesting::{
    process_instruction, AllocationTable, ClaimEngine, ClaimLedger, ClaimState, Identity,
    InstructionError, Liquidity, PendingClaim, Rejection, TokenAllocation, TransferOutcome,
    ValidationError, VestingPolicy, VestingSchedule, Whitelist,
};

const RELEASE: i64 = 90 * 86_400;

fn signer(n: u8) -> Identity {
    Identity::new([n; 32])
}

fn program() -> ClaimEngine {
    let allocation = TokenAllocation {
        team: 8,
        research: 7,
        marketing: 5,
        partners: 4,
        staking_reward: 10,
        ecosystem_reward: 7,
        airdrop: 4,
        private_sale: 6,
        pre_sale_1: 7,
        pre_sale_2: 8,
        investors: 4,
        ido: 9,
    };
    let liquidity = Liquidity { centralize_exchange: 11, decentralized_exchange: 10 };
    let table = AllocationTable::new(1_000_000, allocation, Some(liquidity)).unwrap();
    let mut policy = VestingPolicy::new();
    policy.bind(Pool::Team, VestingSchedule::cliff_linear(0, RELEASE as u64, RELEASE as u64).unwrap());
    policy.bind(
        Pool::EcosystemReward,
        VestingSchedule::cliff_linear(0, 300 * 86_400, 300 * 86_400).unwrap(),
    );
    ClaimEngine::new(table, policy, ClaimLedger::new())
}

fn members() -> Whitelist {
    let mut whitelist = Whitelist::new(4);
    whitelist.add(Pool::Team, signer(1));
    whitelist.add(Pool::EcosystemReward, signer(1));
    whitelist
}

#[test]
fn an_instruction_without_data_is_invalid() {
    let mut engine = program();
    assert_eq!(
        process_instruction(&mut engine, &members(), signer(1), true, RELEASE, &[]),
        Err(InstructionError::InvalidInstructionData)
    );
    assert_eq!(engine.pending(Pool::Team, &signer(1)), None);
}

#[test]
fn an_unauthorized_caller_is_rejected_before_the_data_is_read() {
    let mut engine = program();
    let expected = Ok(ClaimState::Rejected(Rejection::Invalid(ValidationError::Unauthorized)));
    assert_eq!(
        process_instruction(&mut engine, &members(), signer(1), false, RELEASE, &[]),
        expected
    );
    assert_eq!(
        process_instruction(&mut engine, &members(), signer(1), false, RELEASE, &[0]),
        expected
    );
    assert_eq!(
        process_instruction(&mut engine, &members(), signer(1), false, RELEASE, &[200]),
        expected
    );
    assert_eq!(engine.pending(Pool::Team, &signer(1)), None);
}

#[test]
fn tag_zero_claims_from_the_team_pool() {
    let mut engine = program();
    assert_eq!(
        process_instruction(&mut engine, &members(), signer(1), true, RELEASE, &[0]),
        Ok(ClaimState::TransferPending { amount: 80_000 })
    );
    assert_eq!(
        engine.pending(Pool::Team, &signer(1)),
        Some(PendingClaim { amount: 80_000, entitlement: 80_000, whitelist_version: 4 })
    );
    assert_eq!(
        engine.complete_claim(&members(), Pool::Team, &signer(1), TransferOutcome::Success),
        Ok(ClaimState::Committed { amount: 80_000 })
    );
    assert_eq!(engine.claimed(Pool::Team, &signer(1)), 80_000);
}

#[test]
fn the_tag_names_the_pool() {
    let mut engine = program();
    assert_eq!(
        process_instruction(&mut engine, &members(), signer(1), true, 300 * 86_400, &[5]),
        Ok(ClaimState::TransferPending { amount: 70_000 })
    );
    assert!(engine.pending(Pool::EcosystemReward, &signer(1)).is_some());
    assert_eq!(engine.pending(Pool::Team, &signer(1)), None);
}

#[test]
fn bytes_after_the_tag_are_ignored() {
    let mut engine = program();
    assert_eq!(
        process_instruction(&mut engine, &members(), signer(1), true, RELEASE, &[0, 9, 9, 9]),
        Ok(ClaimState::TransferPending { amount: 80_000 })
    );
}

#[test]
fn a_tag_outside_the_set_is_an_unknown_pool() {
    let mut engine = program();
    let expected = Ok(ClaimState::Rejected(Rejection::Invalid(ValidationError::UnknownPool)));
    assert_eq!(
        process_instruction(&mut engine, &members(), signer(1), true, RELEASE, &[14]),
        expected
    );
    assert_eq!(
        process_instruction(&mut engine, &members(), signer(1), true, RELEASE, &[255, 0]),
        expected
    );
}

#[test]
fn a_claim_before_the_release_is_not_yet_vested() {
    let mut engine = program();
    assert_eq!(
        process_instruction(&mut engine, &members(), signer(1), true, RELEASE - 1, &[0]),
        Ok(ClaimState::Rejected(Rejection::Invalid(ValidationError::NotYetVested)))
    );
    assert_eq!(
        process_instruction(&mut engine, &members(), signer(1), true, RELEASE, &[5]),
        Ok(ClaimState::Rejected(Rejection::Invalid(ValidationError::NotYetVested)))
    );
}

#[test]
fn a_claim_by_a_stranger_is_not_whitelisted() {
    let mut engine = program();
    assert_eq!(
        process_instruction(&mut engine, &members(), signer(2), true, RELEASE, &[0]),
        Ok(ClaimState::Rejected(Rejection::Invalid(ValidationError::NotWhitelisted)))
    );
}

#[test]
fn a_pool_without_a_schedule_cannot_be_claimed_from() {
    let mut engine = program();
    assert_eq!(
        process_instruction(&mut engine, &members(), signer(1), true, RELEASE, &[1]),
        Ok(ClaimState::Rejected(Rejection::Invalid(ValidationError::UnknownPool)))
    );
}

#[test]
fn a_repeated_instruction_is_held_and_then_finds_nothing() {
    let mut engine = program();
    assert_eq!(
        process_instruction(&mut engine, &members(), signer(1), true, RELEASE, &[0]),
        Ok(ClaimState::TransferPending { amount: 80_000 })
    );
    assert_eq!(
        process_instruction(&mut engine, &members(), signer(1), true, RELEASE, &[0]),
        Ok(ClaimState::Rejected(Rejection::ClaimInFlight))
    );
    assert_eq!(
        engine.complete_claim(&members(), Pool::Team, &signer(1), TransferOutcome::Success),
        Ok(ClaimState::Committed { amount: 80_000 })
    );
    assert_eq!(
        process_instruction(&mut engine, &members(), signer(1), true, RELEASE, &[0]),
        Ok(ClaimState::Rejected(Rejection::NothingToClaim))
    );
}
