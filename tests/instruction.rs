use token_whitelist::error::{ProgramError, TokenWhitelistError};
use token_whitelist::instruction::TokenWhitelistInstruction;

#[test]
fn test_pack_init_whitelist() {
    let whitelist_size: u64 = 50;
    let check = TokenWhitelistInstruction::InitTokenWhitelist {
        max_whitelist_size: whitelist_size,
    };
    let packed = check.pack();
    let mut expect = vec![0];
    expect.extend_from_slice(&whitelist_size.to_le_bytes());
    assert_eq!(packed, expect);
    let unpacked = TokenWhitelistInstruction::unpack(&expect).unwrap();
    assert_eq!(unpacked, check);
}

#[test]
fn test_pack_add_to_whitelist() {
    let allocation: u64 = 250;
    let check = TokenWhitelistInstruction::AddToWhitelist {
        allocation_amount: allocation,
    };
    let packed = check.pack();
    let mut expect = vec![1];
    expect.extend_from_slice(&allocation.to_le_bytes());
    assert_eq!(packed, expect);
    let unpacked = TokenWhitelistInstruction::unpack(&expect).unwrap();
    assert_eq!(unpacked, check);
}

#[test]
fn test_pack_remove_from_whitelist() {
    let check = TokenWhitelistInstruction::RemoveFromWhitelist {};
    let packed = check.pack();
    let expect = vec![2];
    assert_eq!(packed, expect);
    let unpacked = TokenWhitelistInstruction::unpack(&expect).unwrap();
    assert_eq!(unpacked, check);
}

#[test]
fn test_pack_set_allocation_zero() {
    let check = TokenWhitelistInstruction::SetAllocationToZero {};
    let packed = check.pack();
    let expect = vec![3];
    assert_eq!(packed, expect);
    let unpacked = TokenWhitelistInstruction::unpack(&expect).unwrap();
    assert_eq!(unpacked, check);
}

#[test]
fn test_pack_close_whitelist_account() {
    let check = TokenWhitelistInstruction::CloseWhitelistAccount {};
    let packed = check.pack();
    let expect = vec![4];
    assert_eq!(packed, expect);
    let unpacked = TokenWhitelistInstruction::unpack(&expect).unwrap();
    assert_eq!(unpacked, check);
}

fn invalid() -> ProgramError {
    ProgramError::Custom(TokenWhitelistError::InvalidInstruction)
}

#[test]
fn unpack_rejects_empty_input() {
    assert_eq!(TokenWhitelistInstruction::unpack(&[]), Err(invalid()));
}

#[test]
fn unpack_rejects_unknown_tag() {
    assert_eq!(TokenWhitelistInstruction::unpack(&[5]), Err(invalid()));
    assert_eq!(TokenWhitelistInstruction::unpack(&[255, 1, 2]), Err(invalid()));
}

#[test]
fn unpack_rejects_short_payload() {
    assert_eq!(TokenWhitelistInstruction::unpack(&[0]), Err(invalid()));
    assert_eq!(TokenWhitelistInstruction::unpack(&[1, 1, 2, 3, 4, 5, 6, 7]), Err(invalid()));
}

#[test]
fn unpack_reads_little_endian_and_ignores_trailing_bytes() {
    let r = TokenWhitelistInstruction::unpack(&[1, 0x01, 0x02, 0, 0, 0, 0, 0, 0x80, 9, 9]);
    assert_eq!(
        r,
        Ok(TokenWhitelistInstruction::AddToWhitelist {
            allocation_amount: 0x8000_0000_0000_0201
        })
    );
    assert_eq!(
        TokenWhitelistInstruction::unpack(&[4, 7]),
        Ok(TokenWhitelistInstruction::CloseWhitelistAccount {})
    );
}

#[test]
fn instruction_round_trip_on_extreme_payloads() {
    for v in [0u64, 1, 255, 256, u64::MAX] {
        for i in [
            TokenWhitelistInstruction::InitTokenWhitelist { max_whitelist_size: v },
            TokenWhitelistInstruction::AddToWhitelist { allocation_amount: v },
        ] {
            assert_eq!(TokenWhitelistInstruction::unpack(&i.pack()), Ok(i.clone()));
        }
    }
    assert_eq!(
        TokenWhitelistInstruction::InitTokenWhitelist { max_whitelist_size: u64::MAX }.pack(),
        vec![0, 255, 255, 255, 255, 255, 255, 255, 255]
    );
}

#[test]
fn error_codes_and_conversion() {
    assert_eq!(TokenWhitelistError::InvalidInstruction.code(), 0);
    assert_eq!(TokenWhitelistError::Overflow.code(), 7);
    assert_eq!(
        ProgramError::from(TokenWhitelistError::NotOwner),
        ProgramError::Custom(TokenWhitelistError::NotOwner)
    );
}
