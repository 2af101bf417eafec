//! Token vesting and claims engine.
//!
//! A fixed token supply is split into named pools. Each pool has a cap, a
//! release schedule and a whitelist of recipients. The engine computes how
//! many tokens a recipient may withdraw at a given time and keeps a ledger
//! of what has been paid, so that no token is paid twice, before it is
//! unlocked, or beyond the recipient's entitlement.

pub mod allocation;
pub mod engine;
pub mod error;
pub mod fraction;
pub mod identity;
pub mod instruction;
pub mod laws;
pub mod ledger;
pub mod pair_map;
pub mod pool;
pub mod vesting;
pub mod whitelist;

pub use crate::allocation::{AllocationTable, Liquidity, TokenAllocation};
pub use crate::engine::{
    Assessment, ClaimEngine, ClaimRequest, ClaimState, PendingClaim, TransferOutcome,
};
pub use crate::error::{
    AccountingError, ConfigError, Rejection, TransferError, ValidationError,
};
pub use crate::fraction::Fraction;
pub use crate::identity::Identity;
pub use crate::instruction::{process_instruction, InstructionError};
pub use crate::ledger::{ClaimLedger, TokenClaim};
pub use crate::pool::Pool;
pub use crate::vesting::{Tranche, VestingPolicy, VestingSchedule};
pub use crate::whitelist::Whitelist;
