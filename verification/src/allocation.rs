//! The allocation table: each pool's share of the total supply.

use vstd::prelude::*;
use crate::error::{ConfigError, ValidationError};
use crate::pool::Pool;

verus! {

/// The percentage of the total supply given to each of the twelve main
/// pools.
#[derive(Clone, Copy, Debug, PartialEq, Eq, Structural)]
pub struct TokenAllocation {
    pub team: u8,
    pub research: u8,
    pub marketing: u8,
    pub partners: u8,
    pub staking_reward: u8,
    pub ecosystem_reward: u8,
    pub airdrop: u8,
    pub private_sale: u8,
    pub pre_sale_1: u8,
    pub pre_sale_2: u8,
    pub investors: u8,
    pub ido: u8,
}

/// The percentage of the total supply given to each half of the liquidity
/// split.
#[derive(Clone, Copy, Debug, PartialEq, Eq, Structural)]
pub struct Liquidity {
    pub centralize_exchange: u8,
    pub decentralized_exchange: u8,
}

impl TokenAllocation {
    /// The sum of the twelve percentages.
    pub open spec fn percent_sum(self) -> int {
        self.team + self.research + self.marketing + self.partners + self.staking_reward
            + self.ecosystem_reward + self.airdrop + self.private_sale + self.pre_sale_1
            + self.pre_sale_2 + self.investors + self.ido
    }

    /// The sum of the twelve percentages.
    pub fn total_percent(&self) -> (r: u16)
        ensures
            r == self.percent_sum(),
    {
        let a: u16 = self.team as u16 + self.research as u16 + self.marketing as u16
            + self.partners as u16;
        let b: u16 = self.staking_reward as u16 + self.ecosystem_reward as u16
            + self.airdrop as u16 + self.private_sale as u16;
        let c: u16 = self.pre_sale_1 as u16 + self.pre_sale_2 as u16 + self.investors as u16
            + self.ido as u16;
        a + b + c
    }
}

impl Liquidity {
    /// The sum of the two percentages.
    pub open spec fn percent_sum(self) -> int {
        self.centralize_exchange + self.decentralized_exchange
    }

    /// The sum of the two percentages.
    pub fn total_percent(&self) -> (r: u16)
        ensures
            r == self.percent_sum(),
    {
        self.centralize_exchange as u16 + self.decentralized_exchange as u16
    }
}

/// `floor(total_supply * percent / 100)`: the absolute cap of a pool.
pub open spec fn cap_tokens(total_supply: int, percent: int) -> int {
    total_supply * percent / 100
}

/// What an allocation table holds.
pub struct AllocationTableView {
    pub total_supply: int,
    pub allocation: TokenAllocation,
    pub liquidity: Option<Liquidity>,
}

impl AllocationTableView {
    /// The percentage of a pool, or `None` where the table does not define
    /// the pool: the two liquidity pools of a table without a liquidity
    /// split.
    pub open spec fn percent(self, pool: Pool) -> Option<int> {
        match pool {
            Pool::Team => Some(self.allocation.team as int),
            Pool::Research => Some(self.allocation.research as int),
            Pool::Marketing => Some(self.allocation.marketing as int),
            Pool::Partners => Some(self.allocation.partners as int),
            Pool::StakingReward => Some(self.allocation.staking_reward as int),
            Pool::EcosystemReward => Some(self.allocation.ecosystem_reward as int),
            Pool::Airdrop => Some(self.allocation.airdrop as int),
            Pool::PrivateSale => Some(self.allocation.private_sale as int),
            Pool::PreSale1 => Some(self.allocation.pre_sale_1 as int),
            Pool::PreSale2 => Some(self.allocation.pre_sale_2 as int),
            Pool::Investors => Some(self.allocation.investors as int),
            Pool::Ido => Some(self.allocation.ido as int),
            Pool::LiquidityCentralized => match self.liquidity {
                Some(l) => Some(l.centralize_exchange as int),
                None => None,
            },
            Pool::LiquidityDecentralized => match self.liquidity {
                Some(l) => Some(l.decentralized_exchange as int),
                None => None,
            },
        }
    }

    /// The sum of the percentages of all pools that the table defines.
    pub open spec fn percent_sum(self) -> int {
        self.allocation.percent_sum() + match self.liquidity {
            Some(l) => l.percent_sum(),
            None => 0,
        }
    }

    /// The absolute cap of a pool that the table defines.
    pub open spec fn cap(self, pool: Pool) -> Option<int> {
        match self.percent(pool) {
            Some(p) => Some(cap_tokens(self.total_supply, p)),
            None => None,
        }
    }

    /// The cap of a pool, counted as 0 where the table does not define it.
    pub open spec fn cap_or_zero(self, pool: Pool) -> int {
        match self.cap(pool) {
            Some(c) => c,
            None => 0,
        }
    }

    /// The sum of the caps of all fourteen pools.
    pub open spec fn cap_sum(self) -> int {
        self.cap_or_zero(Pool::Team) + self.cap_or_zero(Pool::Research) + self.cap_or_zero(
            Pool::Marketing,
        ) + self.cap_or_zero(Pool::Partners) + self.cap_or_zero(Pool::StakingReward)
            + self.cap_or_zero(Pool::EcosystemReward) + self.cap_or_zero(Pool::Airdrop)
            + self.cap_or_zero(Pool::PrivateSale) + self.cap_or_zero(Pool::PreSale1)
            + self.cap_or_zero(Pool::PreSale2) + self.cap_or_zero(Pool::Investors)
            + self.cap_or_zero(Pool::Ido) + self.cap_or_zero(Pool::LiquidityCentralized)
            + self.cap_or_zero(Pool::LiquidityDecentralized)
    }

    /// The table's invariant: the percentages sum to exactly 100.
    pub open spec fn wf(self) -> bool {
        &&& 0 <= self.total_supply <= u64::MAX
        &&& self.percent_sum() == 100
    }
}

/// The static definition of the pools: the total supply and each pool's
/// percentage of it. Built once and never changed.
pub struct AllocationTable {
    total_supply: u64,
    allocation: TokenAllocation,
    liquidity: Option<Liquidity>,
}

impl View for AllocationTable {
    type V = AllocationTableView;

    closed spec fn view(&self) -> AllocationTableView {
        AllocationTableView {
            total_supply: self.total_supply as int,
            allocation: self.allocation,
            liquidity: self.liquidity,
        }
    }
}

impl AllocationTable {
    /// The table's invariant: the percentages sum to exactly 100.
    pub open spec fn wf(&self) -> bool {
        self@.wf()
    }

    /// Builds the table. The percentages of all pools, the liquidity split
    /// included where there is one, must sum to exactly 100.
    pub fn new(total_supply: u64, allocation: TokenAllocation, liquidity: Option<Liquidity>) -> (r:
        Result<AllocationTable, ConfigError>)
        ensures
            r is Ok <==> (AllocationTableView {
                total_supply: total_supply as int,
                allocation,
                liquidity,
            }).percent_sum() == 100,
            r matches Ok(t) ==> t.wf() && t@ == (AllocationTableView {
                total_supply: total_supply as int,
                allocation,
                liquidity,
            }),
            r matches Err(e) ==> e == ConfigError::InvalidAllocationTable,
    {
        let main: u16 = allocation.total_percent();
        let split: u16 = match liquidity {
            Some(l) => l.total_percent(),
            None => 0,
        };
        if main + split == 100 {
            Ok(AllocationTable { total_supply, allocation, liquidity })
        } else {
            Err(ConfigError::InvalidAllocationTable)
        }
    }

    /// The total supply that the table partitions.
    pub fn total_supply(&self) -> (r: u64)
        ensures
            r == self@.total_supply,
    {
        self.total_supply
    }

    /// The percentage of a pool. Fails with `UnknownPool` where the table
    /// does not define the pool.
    pub fn percent_for(&self, pool: Pool) -> (r: Result<u8, ValidationError>)
        ensures
            match self@.percent(pool) {
                Some(p) => r == Ok::<u8, ValidationError>(p as u8),
                None => r == Err::<u8, ValidationError>(ValidationError::UnknownPool),
            },
    {
        match pool {
            Pool::Team => Ok(self.allocation.team),
            Pool::Research => Ok(self.allocation.research),
            Pool::Marketing => Ok(self.allocation.marketing),
            Pool::Partners => Ok(self.allocation.partners),
            Pool::StakingReward => Ok(self.allocation.staking_reward),
            Pool::EcosystemReward => Ok(self.allocation.ecosystem_reward),
            Pool::Airdrop => Ok(self.allocation.airdrop),
            Pool::PrivateSale => Ok(self.allocation.private_sale),
            Pool::PreSale1 => Ok(self.allocation.pre_sale_1),
            Pool::PreSale2 => Ok(self.allocation.pre_sale_2),
            Pool::Investors => Ok(self.allocation.investors),
            Pool::Ido => Ok(self.allocation.ido),
            Pool::LiquidityCentralized => match self.liquidity {
                Some(l) => Ok(l.centralize_exchange),
                None => Err(ValidationError::UnknownPool),
            },
            Pool::LiquidityDecentralized => match self.liquidity {
                Some(l) => Ok(l.decentralized_exchange),
                None => Err(ValidationError::UnknownPool),
            },
        }
    }

    /// The absolute cap of a pool: `floor(total_supply * percent / 100)`.
    /// Fails with `UnknownPool` where the table does not define the pool.
    pub fn cap_for(&self, pool: Pool) -> (r: Result<u64, ValidationError>)
        requires
            self.wf(),
        ensures
            match self@.cap(pool) {
                Some(c) => r == Ok::<u64, ValidationError>(c as u64) && c <= self@.total_supply,
                None => r == Err::<u64, ValidationError>(ValidationError::UnknownPool),
            },
    {
        match self.percent_for(pool) {
            Ok(percent) => {
                proof {
                    lemma_cap_bounds(self@, pool);
                    assert(self.total_supply * percent <= u128::MAX) by (nonlinear_arith)
                        requires
                            0 <= self.total_supply <= u64::MAX,
                            0 <= percent <= 255,
                    ;
                }
                let scaled: u128 = (self.total_supply as u128) * (percent as u128);
                let cap: u128 = scaled / 100u128;
                Ok(cap as u64)
            },
            Err(e) => Err(e),
        }
    }
}

/// In a well-formed table every percentage is at most 100 and every cap is
/// at most the total supply.
pub proof fn lemma_cap_bounds(table: AllocationTableView, pool: Pool)
    requires
        table.wf(),
    ensures
        table.percent(pool) matches Some(p) ==> 0 <= p <= 100 && 0 <= cap_tokens(
            table.total_supply,
            p,
        ) <= table.total_supply,
        0 <= table.cap_or_zero(pool) <= table.total_supply,
{
    if let Some(p) = table.percent(pool) {
        assert(0 <= p <= 100);
        let s = table.total_supply;
        assert(0 <= s * p / 100 <= s) by (nonlinear_arith)
            requires
                0 <= s,
                0 <= p <= 100,
        ;
    }
}

} // verus!
