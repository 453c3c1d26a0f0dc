//! The five requests the registry accepts, and their tagged byte encoding.
use vstd::prelude::*;
use crate::error::{ProgramError, TokenWhitelistError};
use crate::le::{le_u64, lemma_u64_le_round_trip, push_u64_le, read_u64_le, u64_le_bytes};

verus! {

/// A request to the registry. The participant it concerns, if any, travels
/// as a separate record reference, never in the payload.
#[derive(Clone, Debug, PartialEq, Eq, Structural)]
pub enum TokenWhitelistInstruction {
    /// Records: 0. `[signer]` the authority; 1. `[writable]` the registry.
    InitTokenWhitelist {
        /// The maximum number of entries.
        max_whitelist_size: u64,
    },
    /// Records: 0. `[signer]` the authority; 1. `[writable]` the registry;
    /// 2. `[]` the participant to add.
    AddToWhitelist {
        /// The participant's allocation limit, in base units.
        allocation_amount: u64,
    },
    /// Records: 0. `[signer]` the authority; 1. `[writable]` the registry;
    /// 2. `[]` the participant to remove.
    RemoveFromWhitelist {},
    /// Records: 0. `[signer]` the participant; 1. `[writable]` the registry;
    /// 2. `[]` the participant whose allocation drops to zero.
    SetAllocationToZero {},
    /// Records: 0. `[signer]` the authority; 1. `[writable]` the registry;
    /// 2. `[writable]` the record that receives the registry's balance.
    CloseWhitelistAccount {},
}

impl TokenWhitelistInstruction {
    /// What decoding `input` gives.
    pub open spec fn spec_unpack(input: Seq<u8>) -> Result<Self, ProgramError> {
        let invalid = ProgramError::Custom(TokenWhitelistError::InvalidInstruction);
        if input.len() == 0 {
            Err(invalid)
        } else {
            let rest = input.drop_first();
            if input[0] == 0 {
                if rest.len() < 8 {
                    Err(invalid)
                } else {
                    Ok(TokenWhitelistInstruction::InitTokenWhitelist {
                        max_whitelist_size: le_u64(rest),
                    })
                }
            } else if input[0] == 1 {
                if rest.len() < 8 {
                    Err(invalid)
                } else {
                    Ok(TokenWhitelistInstruction::AddToWhitelist { allocation_amount: le_u64(rest) })
                }
            } else if input[0] == 2 {
                Ok(TokenWhitelistInstruction::RemoveFromWhitelist {  })
            } else if input[0] == 3 {
                Ok(TokenWhitelistInstruction::SetAllocationToZero {  })
            } else if input[0] == 4 {
                Ok(TokenWhitelistInstruction::CloseWhitelistAccount {  })
            } else {
                Err(invalid)
            }
        }
    }

    /// The encoding of this instruction: a tag byte, then the payload.
    pub open spec fn spec_pack(self) -> Seq<u8> {
        match self {
            TokenWhitelistInstruction::InitTokenWhitelist { max_whitelist_size } => seq![0u8]
                + u64_le_bytes(max_whitelist_size),
            TokenWhitelistInstruction::AddToWhitelist { allocation_amount } => seq![1u8]
                + u64_le_bytes(allocation_amount),
            TokenWhitelistInstruction::RemoveFromWhitelist {  } => seq![2u8],
            TokenWhitelistInstruction::SetAllocationToZero {  } => seq![3u8],
            TokenWhitelistInstruction::CloseWhitelistAccount {  } => seq![4u8],
        }
    }

    /// Decodes an instruction. Bytes after the payload are ignored.
    pub fn unpack(input: &[u8]) -> (r: Result<Self, ProgramError>)
        ensures
            r == Self::spec_unpack(input@),
    {
        let invalid = ProgramError::Custom(TokenWhitelistError::InvalidInstruction);
        if input.len() == 0 {
            return Err(invalid);
        }
        let tag = input[0];
        let ghost rest = input@.drop_first();
        if tag == 0 || tag == 1 {
            if input.len() < 9 {
                return Err(invalid);
            }
            let value = read_u64_le(input, 1);
            assert(input@.subrange(1, 9) =~= rest.subrange(0, 8));
            assert(le_u64(rest.subrange(0, 8)) == le_u64(rest));
            if tag == 0 {
                Ok(TokenWhitelistInstruction::InitTokenWhitelist { max_whitelist_size: value })
            } else {
                Ok(TokenWhitelistInstruction::AddToWhitelist { allocation_amount: value })
            }
        } else if tag == 2 {
            Ok(TokenWhitelistInstruction::RemoveFromWhitelist {  })
        } else if tag == 3 {
            Ok(TokenWhitelistInstruction::SetAllocationToZero {  })
        } else if tag == 4 {
            Ok(TokenWhitelistInstruction::CloseWhitelistAccount {  })
        } else {
            Err(invalid)
        }
    }

    /// Encodes this instruction.
    pub fn pack(&self) -> (r: Vec<u8>)
        ensures
            r@ == self.spec_pack(),
    {
        let mut buf: Vec<u8> = Vec::new();
        match self {
            TokenWhitelistInstruction::InitTokenWhitelist { max_whitelist_size } => {
                buf.push(0);
                push_u64_le(&mut buf, *max_whitelist_size);
            },
            TokenWhitelistInstruction::AddToWhitelist { allocation_amount } => {
                buf.push(1);
                push_u64_le(&mut buf, *allocation_amount);
            },
            TokenWhitelistInstruction::RemoveFromWhitelist {  } => {
                buf.push(2);
            },
            TokenWhitelistInstruction::SetAllocationToZero {  } => {
                buf.push(3);
            },
            TokenWhitelistInstruction::CloseWhitelistAccount {  } => {
                buf.push(4);
            },
        }
        assert(buf@ =~= self.spec_pack());
        buf
    }
}

/// Decoding the encoding of any instruction gives that instruction back.
pub proof fn lemma_instruction_round_trip(i: TokenWhitelistInstruction)
    ensures
        TokenWhitelistInstruction::spec_unpack(i.spec_pack()) == Ok::<
            TokenWhitelistInstruction,
            ProgramError,
        >(i),
{
    let b = i.spec_pack();
    match i {
        TokenWhitelistInstruction::InitTokenWhitelist { max_whitelist_size: v } => {
            lemma_u64_le_round_trip(v);
            assert(b.drop_first() =~= u64_le_bytes(v));
        },
        TokenWhitelistInstruction::AddToWhitelist { allocation_amount: v } => {
            lemma_u64_le_round_trip(v);
            assert(b.drop_first() =~= u64_le_bytes(v));
        },
        _ => {},
    }
}

} // verus!
