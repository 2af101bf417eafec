use token_vesting::pool::Pool;
use token_vesting::{AllocationTable, ConfigError, Liquidity, TokenAllocation, ValidationError};

const ALLOCATION_POOLS: [Pool; 14] = [
    Pool::Team,
    Pool::Research,
    Pool::Marketing,
    Pool::Partners,
    Pool::StakingReward,
    Pool::EcosystemReward,
    Pool::Airdrop,
    Pool::PrivateSale,
    Pool::PreSale1,
    Pool::PreSale2,
    Pool::Investors,
    Pool::Ido,
    Pool::LiquidityCentralized,
    Pool::LiquidityDecentralized,
];

fn main_pools() -> TokenAllocation {
    TokenAllocation {
        team: 8,
        research: 7,
        marketing: 5,
        partners: 4,
        staking_reward: 10,
        ecosystem_reward: 7,
        airdrop: 4,
        private_sale: 6,
        pre_sale_1: 7,
        pre_sale_2: 8,
        investors: 4,
        ido: 9,
    }
}

fn only_team(percent: u8) -> TokenAllocation {
    TokenAllocation {
        team: percent,
        research: 0,
        marketing: 0,
        partners: 0,
        staking_reward: 0,
        ecosystem_reward: 0,
        airdrop: 0,
        private_sale: 0,
        pre_sale_1: 0,
        pre_sale_2: 0,
        investors: 0,
        ido: 0,
    }
}

fn split() -> Liquidity {
    Liquidity { centralize_exchange: 11, decentralized_exchange: 10 }
}

#[test]
fn total_percent_adds_all_fields() {
    assert_eq!(main_pools().total_percent(), 79);
    assert_eq!(split().total_percent(), 21);
    assert_eq!(only_team(255).total_percent(), 255);
}

#[test]
fn total_percent_cannot_overflow() {
    let full = TokenAllocation {
        team: 255,
        research: 255,
        marketing: 255,
        partners: 255,
        staking_reward: 255,
        ecosystem_reward: 255,
        airdrop: 255,
        private_sale: 255,
        pre_sale_1: 255,
        pre_sale_2: 255,
        investors: 255,
        ido: 255,
    };
    assert_eq!(full.total_percent(), 3_060);
    let liquidity = Liquidity { centralize_exchange: 255, decentralized_exchange: 255 };
    assert_eq!(liquidity.total_percent(), 510);
    assert_eq!(
        AllocationTable::new(1, full, Some(liquidity)).err(),
        Some(ConfigError::InvalidAllocationTable)
    );
}

#[test]
fn table_needs_the_percentages_to_sum_to_100() {
    assert!(AllocationTable::new(100_000_000, main_pools(), Some(split())).is_ok());
    assert!(AllocationTable::new(100_000_000, only_team(100), None).is_ok());
}

#[test]
fn table_with_a_sum_below_100_is_refused() {
    assert_eq!(
        AllocationTable::new(100_000_000, main_pools(), None).err(),
        Some(ConfigError::InvalidAllocationTable)
    );
    assert_eq!(
        AllocationTable::new(100_000_000, only_team(99), None).err(),
        Some(ConfigError::InvalidAllocationTable)
    );
    assert_eq!(
        AllocationTable::new(100_000_000, only_team(0), None).err(),
        Some(ConfigError::InvalidAllocationTable)
    );
}

#[test]
fn table_with_a_sum_above_100_is_refused() {
    assert_eq!(
        AllocationTable::new(100_000_000, only_team(101), None).err(),
        Some(ConfigError::InvalidAllocationTable)
    );
    assert_eq!(
        AllocationTable::new(100_000_000, only_team(200), None).err(),
        Some(ConfigError::InvalidAllocationTable)
    );
    let liquidity = Liquidity { centralize_exchange: 11, decentralized_exchange: 11 };
    assert_eq!(
        AllocationTable::new(100_000_000, main_pools(), Some(liquidity)).err(),
        Some(ConfigError::InvalidAllocationTable)
    );
}

#[test]
fn caps_are_the_percentages_of_the_supply() {
    let table = AllocationTable::new(100_000_000, main_pools(), Some(split())).unwrap();
    assert_eq!(table.total_supply(), 100_000_000);
    assert_eq!(table.cap_for(Pool::Team), Ok(8_000_000));
    assert_eq!(table.cap_for(Pool::Research), Ok(7_000_000));
    assert_eq!(table.cap_for(Pool::Marketing), Ok(5_000_000));
    assert_eq!(table.cap_for(Pool::Partners), Ok(4_000_000));
    assert_eq!(table.cap_for(Pool::StakingReward), Ok(10_000_000));
    assert_eq!(table.cap_for(Pool::EcosystemReward), Ok(7_000_000));
    assert_eq!(table.cap_for(Pool::Airdrop), Ok(4_000_000));
    assert_eq!(table.cap_for(Pool::PrivateSale), Ok(6_000_000));
    assert_eq!(table.cap_for(Pool::PreSale1), Ok(7_000_000));
    assert_eq!(table.cap_for(Pool::PreSale2), Ok(8_000_000));
    assert_eq!(table.cap_for(Pool::Investors), Ok(4_000_000));
    assert_eq!(table.cap_for(Pool::Ido), Ok(9_000_000));
    assert_eq!(table.cap_for(Pool::LiquidityCentralized), Ok(11_000_000));
    assert_eq!(table.cap_for(Pool::LiquidityDecentralized), Ok(10_000_000));
}

#[test]
fn percent_for_gives_each_pool_its_field() {
    let table = AllocationTable::new(100_000_000, main_pools(), Some(split())).unwrap();
    let expected: [u8; 14] = [8, 7, 5, 4, 10, 7, 4, 6, 7, 8, 4, 9, 11, 10];
    for (pool, percent) in ALLOCATION_POOLS.iter().zip(expected) {
        assert_eq!(table.percent_for(*pool), Ok(percent));
    }
}

#[test]
fn caps_round_down() {
    let table = AllocationTable::new(999, main_pools(), Some(split())).unwrap();
    assert_eq!(table.cap_for(Pool::Team), Ok(79));
    assert_eq!(table.cap_for(Pool::Research), Ok(69));
    assert_eq!(table.cap_for(Pool::Partners), Ok(39));
    let tiny = AllocationTable::new(12, main_pools(), Some(split())).unwrap();
    assert_eq!(tiny.cap_for(Pool::Team), Ok(0));
    assert_eq!(tiny.cap_for(Pool::StakingReward), Ok(1));
}

#[test]
fn caps_of_the_largest_supply_do_not_overflow() {
    let table = AllocationTable::new(u64::MAX, main_pools(), Some(split())).unwrap();
    assert_eq!(table.cap_for(Pool::Team), Ok(1_475_739_525_896_764_129));
    let whole = AllocationTable::new(u64::MAX, only_team(100), None).unwrap();
    assert_eq!(whole.cap_for(Pool::Team), Ok(u64::MAX));
    assert_eq!(whole.cap_for(Pool::Research), Ok(0));
}

#[test]
fn liquidity_pools_are_unknown_without_a_split() {
    let table = AllocationTable::new(1_000, only_team(100), None).unwrap();
    assert_eq!(table.cap_for(Pool::LiquidityCentralized), Err(ValidationError::UnknownPool));
    assert_eq!(table.cap_for(Pool::LiquidityDecentralized), Err(ValidationError::UnknownPool));
    assert_eq!(table.percent_for(Pool::LiquidityCentralized), Err(ValidationError::UnknownPool));
    assert_eq!(
        table.percent_for(Pool::LiquidityDecentralized),
        Err(ValidationError::UnknownPool)
    );
    assert_eq!(table.cap_for(Pool::Team), Ok(1_000));
}

#[test]
fn caps_together_stay_within_the_supply() {
    let supplies: [u64; 5] = [0, 1, 999, 100_000_000, u64::MAX];
    for supply in supplies {
        let table = AllocationTable::new(supply, main_pools(), Some(split())).unwrap();
        let mut sum: u128 = 0;
        let mut percents: u32 = 0;
        for pool in ALLOCATION_POOLS {
            sum += table.cap_for(pool).unwrap() as u128;
            percents += table.percent_for(pool).unwrap() as u32;
        }
        assert_eq!(percents, 100);
        assert!(sum <= supply as u128);
    }
}
