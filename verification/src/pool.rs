//! The fixed set of allocation pools.

use vstd::prelude::*;
use crate::error::ValidationError;

verus! {

/// The number of pools in the fixed set.
pub const POOL_COUNT: usize = 14;

/// A named partition of the total supply.
///
/// The last two pools are the two halves of the optional liquidity split;
/// an allocation table may or may not define them.
#[derive(Clone, Copy, Debug, PartialEq, Eq, Hash, Structural)]
pub enum Pool {
    Team,
    Research,
    Marketing,
    Partners,
    StakingReward,
    EcosystemReward,
    Airdrop,
    PrivateSale,
    PreSale1,
    PreSale2,
    Investors,
    Ido,
    LiquidityCentralized,
    LiquidityDecentralized,
}

/// The pool with the given tag; tags outside the fixed set give the first
/// pool.
pub open spec fn pool_of_tag(tag: int) -> Pool {
    if tag == 1 {
        Pool::Research
    } else if tag == 2 {
        Pool::Marketing
    } else if tag == 3 {
        Pool::Partners
    } else if tag == 4 {
        Pool::StakingReward
    } else if tag == 5 {
        Pool::EcosystemReward
    } else if tag == 6 {
        Pool::Airdrop
    } else if tag == 7 {
        Pool::PrivateSale
    } else if tag == 8 {
        Pool::PreSale1
    } else if tag == 9 {
        Pool::PreSale2
    } else if tag == 10 {
        Pool::Investors
    } else if tag == 11 {
        Pool::Ido
    } else if tag == 12 {
        Pool::LiquidityCentralized
    } else if tag == 13 {
        Pool::LiquidityDecentralized
    } else {
        Pool::Team
    }
}

impl Pool {
    /// The pool's number in the fixed set, from 0 for `Team` to 13 for
    /// `LiquidityDecentralized`.
    pub open spec fn tag(self) -> int {
        match self {
            Pool::Team => 0,
            Pool::Research => 1,
            Pool::Marketing => 2,
            Pool::Partners => 3,
            Pool::StakingReward => 4,
            Pool::EcosystemReward => 5,
            Pool::Airdrop => 6,
            Pool::PrivateSale => 7,
            Pool::PreSale1 => 8,
            Pool::PreSale2 => 9,
            Pool::Investors => 10,
            Pool::Ido => 11,
            Pool::LiquidityCentralized => 12,
            Pool::LiquidityDecentralized => 13,
        }
    }

    /// The pool's number in the fixed set.
    pub fn index(&self) -> (r: usize)
        ensures
            r == self.tag(),
            r < POOL_COUNT,
            pool_of_tag(r as int) == *self,
    {
        match self {
            Pool::Team => 0,
            Pool::Research => 1,
            Pool::Marketing => 2,
            Pool::Partners => 3,
            Pool::StakingReward => 4,
            Pool::EcosystemReward => 5,
            Pool::Airdrop => 6,
            Pool::PrivateSale => 7,
            Pool::PreSale1 => 8,
            Pool::PreSale2 => 9,
            Pool::Investors => 10,
            Pool::Ido => 11,
            Pool::LiquidityCentralized => 12,
            Pool::LiquidityDecentralized => 13,
        }
    }

    /// The pool that a tag names. A tag outside the fixed set names no
    /// pool.
    pub fn from_tag(tag: u8) -> (r: Result<Pool, ValidationError>)
        ensures
            r is Ok <==> tag < POOL_COUNT,
            r matches Ok(p) ==> p == pool_of_tag(tag as int) && p.tag() == tag,
            r matches Err(e) ==> e == ValidationError::UnknownPool,
    {
        match tag {
            0 => Ok(Pool::Team),
            1 => Ok(Pool::Research),
            2 => Ok(Pool::Marketing),
            3 => Ok(Pool::Partners),
            4 => Ok(Pool::StakingReward),
            5 => Ok(Pool::EcosystemReward),
            6 => Ok(Pool::Airdrop),
            7 => Ok(Pool::PrivateSale),
            8 => Ok(Pool::PreSale1),
            9 => Ok(Pool::PreSale2),
            10 => Ok(Pool::Investors),
            11 => Ok(Pool::Ido),
            12 => Ok(Pool::LiquidityCentralized),
            13 => Ok(Pool::LiquidityDecentralized),
            _ => Err(ValidationError::UnknownPool),
        }
    }
}

/// Every pool has a tag of its own, below the number of pools.
pub proof fn lemma_tag_names_pool(pool: Pool)
    ensures
        0 <= pool.tag() < POOL_COUNT,
        pool_of_tag(pool.tag()) == pool,
{
}

} // verus!
