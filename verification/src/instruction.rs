//! The entry point of a claim instruction.

use vstd::prelude::*;
use crate::engine::{ClaimEngine, ClaimEngineView, ClaimRequest, ClaimState};
use crate::error::{Rejection, ValidationError};
use crate::identity::Identity;
use crate::pool::{pool_of_tag, Pool, POOL_COUNT};
use crate::whitelist::{Whitelist, WhitelistView};

verus! {

/// Why an instruction could not be read.
#[derive(Clone, Copy, Debug, PartialEq, Eq, Structural)]
pub enum InstructionError {
    /// The instruction holds no data.
    InvalidInstructionData,
}

/// What `process_instruction` does to an engine and returns.
///
/// An unauthorized caller is rejected before the instruction is read. An
/// instruction without data is an error. Its first byte is the tag of the
/// pool to claim from, and the bytes after it are ignored; a tag outside
/// the fixed set is rejected as an unknown pool. Anything else is a claim
/// request for that pool at `now`.
pub open spec fn instruction_outcome(
    engine: ClaimEngineView,
    whitelist: WhitelistView,
    recipient: Identity,
    authorized: bool,
    now: i64,
    instruction_data: Seq<u8>,
) -> (ClaimEngineView, Result<ClaimState, InstructionError>) {
    if !authorized {
        (engine, Ok(ClaimState::Rejected(Rejection::Invalid(ValidationError::Unauthorized))))
    } else if instruction_data.len() == 0 {
        (engine, Err(InstructionError::InvalidInstructionData))
    } else if instruction_data[0] >= POOL_COUNT {
        (engine, Ok(ClaimState::Rejected(Rejection::Invalid(ValidationError::UnknownPool))))
    } else {
        let outcome = engine.begin(
            whitelist,
            ClaimRequest { pool: pool_of_tag(instruction_data[0] as int), recipient, now, authorized },
        );
        (outcome.0, Ok(outcome.1))
    }
}

/// Reads a claim instruction and takes the claim attempt that it asks for
/// to a rejection or to an ordered transfer.
///
/// `authorized` is the identity collaborator's verdict on the caller,
/// `recipient` the identity that it verified, and `now` the time of the
/// caller's clock.
pub fn process_instruction(
    engine: &mut ClaimEngine,
    whitelist: &Whitelist,
    recipient: Identity,
    authorized: bool,
    now: i64,
    instruction_data: &[u8],
) -> (r: Result<ClaimState, InstructionError>)
    requires
        old(engine).wf(),
        whitelist.wf(),
    ensures
        final(engine).wf(),
        (final(engine)@, r) == instruction_outcome(
            old(engine)@,
            whitelist@,
            recipient,
            authorized,
            now,
            instruction_data@,
        ),
{
    if !authorized {
        return Ok(ClaimState::Rejected(Rejection::Invalid(ValidationError::Unauthorized)));
    }
    if instruction_data.len() == 0 {
        return Err(InstructionError::InvalidInstructionData);
    }
    let pool: Pool = match Pool::from_tag(instruction_data[0]) {
        Ok(pool) => pool,
        Err(e) => {
            return Ok(ClaimState::Rejected(Rejection::Invalid(e)));
        },
    };
    let request = ClaimRequest { pool, recipient, now, authorized };
    Ok(engine.begin_claim(whitelist, &request))
}

} // verus!
