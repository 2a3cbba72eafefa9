//! The command set, and the decoder for the wire form a caller submits:
//! a single tag byte, followed — for the amount-carrying commands — by the
//! amount as a little-endian `u64`, with nothing after it.

use vstd::prelude::*;
use vstd::bytes::*;
use vstd::slice::slice_subrange;
use crate::error::DepositError;

verus! {

/// A decoded command for the vault.
#[derive(Clone, Copy, Debug, PartialEq, Eq, Structural)]
pub enum DepositInstruction {
    /// Create the vault's record for its creator.
    InitializeVault,
    /// Move `amount` from the caller into the vault.
    Deposit { amount: u64 },
    /// Move `amount`, minus the fee, from the vault back to the caller.
    Refund { amount: u64 },
}

/// The instruction encoded by `b`, if any: tag 0 alone initializes; tag 1
/// or 2 followed by exactly eight amount bytes deposits or refunds.
pub open spec fn spec_parse_instruction(b: Seq<u8>) -> Option<DepositInstruction> {
    if b.len() == 1 && b[0] == 0u8 {
        Some(DepositInstruction::InitializeVault)
    } else if b.len() == 9 && b[0] == 1u8 {
        Some(DepositInstruction::Deposit { amount: spec_u64_from_le_bytes(b.skip(1)) })
    } else if b.len() == 9 && b[0] == 2u8 {
        Some(DepositInstruction::Refund { amount: spec_u64_from_le_bytes(b.skip(1)) })
    } else {
        None
    }
}

/// Decodes a command; fails with `InvalidInstruction` on anything that is
/// not exactly one well-formed command.
pub fn parse_instruction(data: &Vec<u8>) -> (r: Result<DepositInstruction, DepositError>)
    ensures
        match r {
            Ok(ins) => spec_parse_instruction(data@) == Some(ins),
            Err(e) => e == DepositError::InvalidInstruction && spec_parse_instruction(data@) is None,
        },
{
    if data.len() == 0 {
        return Err(DepositError::InvalidInstruction);
    }
    let tag = data[0];
    if tag == 0 && data.len() == 1 {
        Ok(DepositInstruction::InitializeVault)
    } else if tag == 1 && data.len() == 9 {
        let amount = u64_from_le_bytes(slice_subrange(data.as_slice(), 1, 9));
        assert(data@.subrange(1, 9) =~= data@.skip(1));
        Ok(DepositInstruction::Deposit { amount })
    } else if tag == 2 && data.len() == 9 {
        let amount = u64_from_le_bytes(slice_subrange(data.as_slice(), 1, 9));
        assert(data@.subrange(1, 9) =~= data@.skip(1));
        Ok(DepositInstruction::Refund { amount })
    } else {
        Err(DepositError::InvalidInstruction)
    }
}

} // verus!
