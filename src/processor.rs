//! The registry's state transitions: each instruction checks its
//! preconditions, then applies its change to the records it was handed.
use vstd::prelude::*;
use crate::error::{ProgramError, TokenWhitelistError};
use crate::instruction::TokenWhitelistInstruction;
use crate::state::{map_fits, record_layout, spec_unpack_record, TokenWhitelist, WhitelistState,
    ACCOUNT_STATE_SPACE};
use crate::whitelist_map::borsh_map_bytes;

verus! {

/// A record handed to an invocation: its identity, whether the caller proved
/// control of that identity, its balance and its bytes.
pub struct Account {
    pub key: [u8; 32],
    pub is_signer: bool,
    pub lamports: u64,
    pub data: Vec<u8>,
}

/// A record as a mathematical value.
pub struct AccountState {
    pub key: Seq<u8>,
    pub is_signer: bool,
    pub lamports: u64,
    pub data: Seq<u8>,
}

impl View for Account {
    type V = AccountState;

    open spec fn view(&self) -> AccountState {
        AccountState {
            key: self.key@,
            is_signer: self.is_signer,
            lamports: self.lamports,
            data: self.data@,
        }
    }
}

/// The records of an invocation as mathematical values.
pub open spec fn accounts_view(a: Seq<Account>) -> Seq<AccountState> {
    a.map_values(|x: Account| x@)
}

/// The text form of a participant's identity, under which it is entered in
/// the registry.
pub uninterp spec fn participant_id_of(key: Seq<u8>) -> Seq<char>;

/// Relies on solana_program's `Display` for `Pubkey`, which depends on the
/// 32 bytes alone (their base-58 text).
#[verifier::external_body]
fn participant_id(key: &[u8; 32]) -> (r: String)
    ensures
        r@ == participant_id_of(key@),
{
    solana_program::pubkey::Pubkey::new_from_array(*key).to_string()
}

/// `a` with its first `ACCOUNT_STATE_SPACE` bytes holding `st`.
pub open spec fn with_state(a: AccountState, st: WhitelistState) -> AccountState {
    AccountState {
        data: record_layout(st, borsh_map_bytes(st.whitelist_map).unwrap()) + a.data.subrange(
            ACCOUNT_STATE_SPACE as int,
            a.data.len() as int,
        ),
        ..a
    }
}

/// Persisting `st` into the registry record, the second one.
pub open spec fn spec_store(
    accts: Seq<AccountState>,
    st: WhitelistState,
) -> Result<Seq<AccountState>, ProgramError> {
    if map_fits(st.whitelist_map) {
        Ok(accts.update(1, with_state(accts[1], st)))
    } else {
        Err(ProgramError::Custom(TokenWhitelistError::TokenWhitelistSizeExceeds))
    }
}

/// The checks common to the instructions that a signer issues on a
/// participant: signer, registry, participant, decodable and initialized
/// registry. On success, the decoded registry.
pub open spec fn spec_signed_target(accts: Seq<AccountState>) -> Result<
    WhitelistState,
    ProgramError,
> {
    if accts.len() < 1 {
        Err(ProgramError::NotEnoughAccountKeys)
    } else if !accts[0].is_signer {
        Err(ProgramError::MissingRequiredSignature)
    } else if accts.len() < 3 {
        Err(ProgramError::NotEnoughAccountKeys)
    } else {
        match spec_unpack_record(accts[1].data) {
            Err(e) => Err(e),
            Ok(st) => if !st.is_initialized {
                Err(ProgramError::Custom(TokenWhitelistError::TokenWhitelistNotInit))
            } else {
                Ok(st)
            },
        }
    }
}

/// Init: the signer becomes the authority of an uninitialized registry that
/// holds at least `rent_minimum`.
pub open spec fn spec_init(accts: Seq<AccountState>, capacity: u64, rent_minimum: u64) -> Result<
    Seq<AccountState>,
    ProgramError,
> {
    if accts.len() < 1 {
        Err(ProgramError::NotEnoughAccountKeys)
    } else if !accts[0].is_signer {
        Err(ProgramError::MissingRequiredSignature)
    } else if accts.len() < 3 {
        Err(ProgramError::NotEnoughAccountKeys)
    } else if accts[1].lamports < rent_minimum {
        Err(ProgramError::Custom(TokenWhitelistError::NotRentExempt))
    } else {
        match spec_unpack_record(accts[1].data) {
            Err(e) => Err(e),
            Ok(st) => if st.is_initialized {
                Err(ProgramError::AccountAlreadyInitialized)
            } else {
                spec_store(
                    accts,
                    WhitelistState {
                        is_initialized: true,
                        init_pubkey: accts[0].key,
                        max_whitelist_size: capacity,
                        ..st
                    },
                )
            },
        }
    }
}

/// Add: the authority sets the participant's allocation. A participant not
/// yet entered is refused once the registry holds its capacity.
pub open spec fn spec_add(accts: Seq<AccountState>, amount: u64) -> Result<
    Seq<AccountState>,
    ProgramError,
> {
    match spec_signed_target(accts) {
        Err(e) => Err(e),
        Ok(st) => {
            let id = participant_id_of(accts[2].key);
            if accts[0].key != st.init_pubkey {
                Err(ProgramError::Custom(TokenWhitelistError::TokenWhitelistNotOwner))
            } else if !st.whitelist_map.contains_key(id) && st.whitelist_map.len()
                >= st.max_whitelist_size {
                Err(ProgramError::Custom(TokenWhitelistError::TokenWhitelistSizeExceeds))
            } else {
                spec_store(
                    accts,
                    WhitelistState { whitelist_map: st.whitelist_map.insert(id, amount), ..st },
                )
            }
        },
    }
}

/// Remove: the authority drops the participant's entry, if it has one.
pub open spec fn spec_remove(accts: Seq<AccountState>) -> Result<Seq<AccountState>, ProgramError> {
    match spec_signed_target(accts) {
        Err(e) => Err(e),
        Ok(st) => {
            let id = participant_id_of(accts[2].key);
            if accts[0].key != st.init_pubkey {
                Err(ProgramError::Custom(TokenWhitelistError::TokenWhitelistNotOwner))
            } else {
                spec_store(accts, WhitelistState { whitelist_map: st.whitelist_map.remove(id), ..st })
            }
        },
    }
}

/// Zero: an entered participant, signing for itself, sets its own
/// allocation to zero.
pub open spec fn spec_zero(accts: Seq<AccountState>) -> Result<Seq<AccountState>, ProgramError> {
    match spec_signed_target(accts) {
        Err(e) => Err(e),
        Ok(st) => {
            let id = participant_id_of(accts[2].key);
            if accts[0].key != accts[2].key {
                Err(ProgramError::Custom(TokenWhitelistError::NotOwner))
            } else if !st.whitelist_map.contains_key(id) {
                Err(ProgramError::InvalidAccountData)
            } else {
                spec_store(accts, WhitelistState { whitelist_map: st.whitelist_map.insert(id, 0), ..st })
            }
        },
    }
}

/// Close: the signing authority moves the registry's whole balance to the
/// third record and zeroes the registry's bytes.
pub open spec fn spec_close(accts: Seq<AccountState>) -> Result<Seq<AccountState>, ProgramError> {
    if accts.len() < 3 {
        Err(ProgramError::NotEnoughAccountKeys)
    } else {
        match spec_unpack_record(accts[1].data) {
            Err(e) => Err(e),
            Ok(st) => if !st.is_initialized {
                Err(ProgramError::Custom(TokenWhitelistError::TokenWhitelistNotInit))
            } else if accts[0].key != st.init_pubkey {
                Err(ProgramError::Custom(TokenWhitelistError::InvalidAuthority))
            } else if !accts[0].is_signer {
                Err(ProgramError::MissingRequiredSignature)
            } else if accts[2].lamports + accts[1].lamports > u64::MAX {
                Err(ProgramError::Custom(TokenWhitelistError::Overflow))
            } else {
                let reg = accts[1];
                let dest = accts[2];
                Ok(
                    accts.update(
                        2,
                        AccountState { lamports: (dest.lamports + reg.lamports) as u64, ..dest },
                    ).update(
                        1,
                        AccountState {
                            lamports: 0,
                            data: Seq::new(reg.data.len(), |i: int| 0u8),
                            ..reg
                        },
                    ),
                )
            },
        }
    }
}

/// What processing `data` over `accts` gives: the records afterwards, or the error.
pub open spec fn spec_process(accts: Seq<AccountState>, data: Seq<u8>, rent_minimum: u64) -> Result<
    Seq<AccountState>,
    ProgramError,
> {
    match TokenWhitelistInstruction::spec_unpack(data) {
        Err(e) => Err(e),
        Ok(TokenWhitelistInstruction::InitTokenWhitelist { max_whitelist_size }) => spec_init(
            accts,
            max_whitelist_size,
            rent_minimum,
        ),
        Ok(TokenWhitelistInstruction::AddToWhitelist { allocation_amount }) => spec_add(
            accts,
            allocation_amount,
        ),
        Ok(TokenWhitelistInstruction::RemoveFromWhitelist {  }) => spec_remove(accts),
        Ok(TokenWhitelistInstruction::SetAllocationToZero {  }) => spec_zero(accts),
        Ok(TokenWhitelistInstruction::CloseWhitelistAccount {  }) => spec_close(accts),
    }
}

/// `r` and the records `after` are what `expected` says of the records
/// `before`: on failure the error, with every record left as it was.
pub open spec fn outcome(
    expected: Result<Seq<AccountState>, ProgramError>,
    before: Seq<Account>,
    after: Seq<Account>,
    r: Result<(), ProgramError>,
) -> bool {
    match expected {
        Ok(new) => r is Ok && accounts_view(after) == new,
        Err(e) => r == Err::<(), ProgramError>(e) && accounts_view(after) == accounts_view(before),
    }
}

/// Whether two identities are equal.
fn keys_equal(a: &[u8; 32], b: &[u8; 32]) -> (r: bool)
    ensures
        r == (a@ == b@),
{
    let mut i: usize = 0;
    while i < 32
        invariant
            0 <= i <= 32,
            a@.len() == 32,
            b@.len() == 32,
            forall|j: int| 0 <= j < i ==> a@[j] == b@[j],
        decreases 32 - i,
    {
        if a[i] != b[i] {
            return false;
        }
        i = i + 1;
    }
    assert(a@ =~= b@);
    true
}

} // verus!

verus! {

/// Writes `st` into the registry record, the second one.
fn store(accounts: &mut Vec<Account>, st: &TokenWhitelist) -> (r: Result<(), ProgramError>)
    requires
        old(accounts)@.len() >= 2,
        old(accounts)@[1].data@.len() >= ACCOUNT_STATE_SPACE,
    ensures
        outcome(spec_store(accounts_view(old(accounts)@), st@), old(accounts)@, final(accounts)@, r),
{
    let ghost before = accounts_view(accounts@);
    let r = st.pack_into_slice(accounts[1].data.as_mut_slice());
    assert(before[1] == old(accounts)@[1]@);
    assert(accounts_view(accounts@) =~= before.update(1, accounts@[1]@));
    if r.is_ok() {
        assert(accounts@[1]@ =~= with_state(before[1], st@));
        assert(spec_store(before, st@) == Ok::<Seq<AccountState>, ProgramError>(before.update(1, with_state(before[1], st@))));
    } else {
        assert(accounts@[1]@ =~= old(accounts)@[1]@);
        assert(accounts_view(accounts@) =~= before);
        assert(!map_fits(st@.whitelist_map));
    }
    r
}

/// Decodes the registry record, the second one, and checks that it is
/// initialized; for instructions whose first record signs and whose third
/// names a participant.
fn signed_target(accounts: &Vec<Account>) -> (r: Result<TokenWhitelist, ProgramError>)
    ensures
        match r {
            Ok(st) => spec_signed_target(accounts_view(accounts@)) == Ok::<
                WhitelistState,
                ProgramError,
            >(st@),
            Err(e) => spec_signed_target(accounts_view(accounts@)) == Err::<
                WhitelistState,
                ProgramError,
            >(e),
        },
{
    let ghost v = accounts_view(accounts@);
    if accounts.len() < 1 {
        return Err(ProgramError::NotEnoughAccountKeys);
    }
    assert(v[0] == accounts@[0]@);
    if !accounts[0].is_signer {
        return Err(ProgramError::MissingRequiredSignature);
    }
    if accounts.len() < 3 {
        return Err(ProgramError::NotEnoughAccountKeys);
    }
    assert(v[1] == accounts@[1]@);
    let st = match TokenWhitelist::unpack_from_slice(accounts[1].data.as_slice()) {
        Ok(st) => st,
        Err(e) => {
            return Err(e);
        },
    };
    if !st.is_initialized() {
        return Err(ProgramError::Custom(TokenWhitelistError::TokenWhitelistNotInit));
    }
    Ok(st)
}

} // verus!

verus! {

/// The dispatcher of the registry's instructions.
pub struct Processor;

impl Processor {
    /// Decodes `instruction_data` and applies it to `accounts`. The registry
    /// record is the second record. `rent_minimum` is the balance that the
    /// host's retention policy demands of the registry record, consulted by
    /// Init alone. On failure no record changes.
    pub fn process(
        _program_id: &[u8; 32],
        accounts: &mut Vec<Account>,
        instruction_data: &[u8],
        rent_minimum: u64,
    ) -> (r: Result<(), ProgramError>)
        ensures
            outcome(
                spec_process(accounts_view(old(accounts)@), instruction_data@, rent_minimum),
                old(accounts)@,
                final(accounts)@,
                r,
            ),
    {
        let instruction = match TokenWhitelistInstruction::unpack(instruction_data) {
            Ok(i) => i,
            Err(e) => {
                return Err(e);
            },
        };
        match instruction {
            TokenWhitelistInstruction::InitTokenWhitelist { max_whitelist_size } => {
                Self::process_init_whitelist(accounts, max_whitelist_size, rent_minimum)
            },
            TokenWhitelistInstruction::AddToWhitelist { allocation_amount } => {
                Self::process_add_whitelist(accounts, allocation_amount)
            },
            TokenWhitelistInstruction::RemoveFromWhitelist {  } => {
                Self::process_remove_whitelist(accounts)
            },
            TokenWhitelistInstruction::SetAllocationToZero {  } => {
                Self::process_set_allocation_to_zero(accounts)
            },
            TokenWhitelistInstruction::CloseWhitelistAccount {  } => {
                Self::process_close_whitelist_account(accounts)
            },
        }
    }

    fn process_init_whitelist(
        accounts: &mut Vec<Account>,
        max_whitelist_size: u64,
        rent_minimum: u64,
    ) -> (r: Result<(), ProgramError>)
        ensures
            outcome(
                spec_init(accounts_view(old(accounts)@), max_whitelist_size, rent_minimum),
                old(accounts)@,
                final(accounts)@,
                r,
            ),
    {
        let ghost v = accounts_view(accounts@);
        if accounts.len() < 1 {
            return Err(ProgramError::NotEnoughAccountKeys);
        }
        assert(v[0] == accounts@[0]@);
        if !accounts[0].is_signer {
            return Err(ProgramError::MissingRequiredSignature);
        }
        if accounts.len() < 3 {
            return Err(ProgramError::NotEnoughAccountKeys);
        }
        assert(v[1] == accounts@[1]@);
        if accounts[1].lamports < rent_minimum {
            return Err(ProgramError::Custom(TokenWhitelistError::NotRentExempt));
        }
        let mut st = match TokenWhitelist::unpack_from_slice(accounts[1].data.as_slice()) {
            Ok(st) => st,
            Err(e) => {
                return Err(e);
            },
        };
        if st.is_initialized() {
            return Err(ProgramError::AccountAlreadyInitialized);
        }
        st.is_initialized = true;
        st.init_pubkey = accounts[0].key;
        st.max_whitelist_size = max_whitelist_size;
        store(accounts, &st)
    }

    fn process_add_whitelist(accounts: &mut Vec<Account>, allocation_amount: u64) -> (r: Result<
        (),
        ProgramError,
    >)
        ensures
            outcome(
                spec_add(accounts_view(old(accounts)@), allocation_amount),
                old(accounts)@,
                final(accounts)@,
                r,
            ),
    {
        let ghost v = accounts_view(accounts@);
        let mut st = match signed_target(accounts) {
            Ok(st) => st,
            Err(e) => {
                return Err(e);
            },
        };
        assert(v[0] == accounts@[0]@ && v[2] == accounts@[2]@);
        if !keys_equal(&accounts[0].key, &st.init_pubkey) {
            return Err(ProgramError::Custom(TokenWhitelistError::TokenWhitelistNotOwner));
        }
        let id = participant_id(&accounts[2].key);
        if !st.contains_key(&id) && st.whitelist_map.len() as u64 >= st.max_whitelist_size {
            return Err(ProgramError::Custom(TokenWhitelistError::TokenWhitelistSizeExceeds));
        }
        st.add_keypair(&id, &allocation_amount);
        store(accounts, &st)
    }

    fn process_remove_whitelist(accounts: &mut Vec<Account>) -> (r: Result<(), ProgramError>)
        ensures
            outcome(spec_remove(accounts_view(old(accounts)@)), old(accounts)@, final(accounts)@, r),
    {
        let ghost v = accounts_view(accounts@);
        let mut st = match signed_target(accounts) {
            Ok(st) => st,
            Err(e) => {
                return Err(e);
            },
        };
        assert(v[0] == accounts@[0]@ && v[2] == accounts@[2]@);
        if !keys_equal(&accounts[0].key, &st.init_pubkey) {
            return Err(ProgramError::Custom(TokenWhitelistError::TokenWhitelistNotOwner));
        }
        let id = participant_id(&accounts[2].key);
        st.drop_key(&id);
        store(accounts, &st)
    }

    fn process_set_allocation_to_zero(accounts: &mut Vec<Account>) -> (r: Result<(), ProgramError>)
        ensures
            outcome(spec_zero(accounts_view(old(accounts)@)), old(accounts)@, final(accounts)@, r),
    {
        let ghost v = accounts_view(accounts@);
        let mut st = match signed_target(accounts) {
            Ok(st) => st,
            Err(e) => {
                return Err(e);
            },
        };
        assert(v[0] == accounts@[0]@ && v[2] == accounts@[2]@);
        if !keys_equal(&accounts[0].key, &accounts[2].key) {
            return Err(ProgramError::Custom(TokenWhitelistError::NotOwner));
        }
        let id = participant_id(&accounts[2].key);
        if !st.contains_key(&id) {
            return Err(ProgramError::InvalidAccountData);
        }
        st.add_keypair(&id, &0);
        store(accounts, &st)
    }

    fn process_close_whitelist_account(accounts: &mut Vec<Account>) -> (r: Result<(), ProgramError>)
        ensures
            outcome(spec_close(accounts_view(old(accounts)@)), old(accounts)@, final(accounts)@, r),
    {
        let ghost v = accounts_view(accounts@);
        if accounts.len() < 3 {
            return Err(ProgramError::NotEnoughAccountKeys);
        }
        assert(v[0] == accounts@[0]@ && v[1] == accounts@[1]@ && v[2] == accounts@[2]@);
        let st = match TokenWhitelist::unpack_from_slice(accounts[1].data.as_slice()) {
            Ok(st) => st,
            Err(e) => {
                return Err(e);
            },
        };
        if !st.is_initialized() {
            return Err(ProgramError::Custom(TokenWhitelistError::TokenWhitelistNotInit));
        }
        match Self::check_authority(&accounts[0], &st.init_pubkey) {
            Ok(()) => {},
            Err(e) => {
                return Err(e);
            },
        }
        let destination_lamports = match accounts[2].lamports.checked_add(accounts[1].lamports) {
            Some(n) => n,
            None => {
                return Err(ProgramError::Custom(TokenWhitelistError::Overflow));
            },
        };
        accounts[2].lamports = destination_lamports;
        accounts[1].lamports = 0;
        let n = accounts[1].data.len();
        let mut i: usize = 0;
        while i < n
            invariant
                0 <= i <= n,
                accounts@.len() == old(accounts)@.len(),
                old(accounts)@.len() >= 3,
                n == old(accounts)@[1].data@.len(),
                accounts@[1].data@.len() == n,
                forall|j: int| 0 <= j < i ==> accounts@[1].data@[j] == 0u8,
                accounts@[1].key == old(accounts)@[1].key,
                accounts@[1].is_signer == old(accounts)@[1].is_signer,
                accounts@[1].lamports == 0,
                accounts@[2]@ == (AccountState { lamports: destination_lamports, ..v[2] }),
                forall|j: int| 0 <= j < accounts@.len() && j != 1 && j != 2 ==> accounts@[j]
                    == old(accounts)@[j],
            decreases n - i,
        {
            accounts[1].data[i] = 0;
            i = i + 1;
        }
        proof {
            let expected = v.update(2, AccountState { lamports: destination_lamports, ..v[2] }).update(
                1,
                AccountState { lamports: 0, data: Seq::new(v[1].data.len(), |i: int| 0u8), ..v[1] },
            );
            assert(accounts@[1].data@ =~= Seq::new(v[1].data.len(), |i: int| 0u8));
            assert(accounts_view(accounts@) =~= expected);
        }
        Ok(())
    }

    /// Checks that `authority_info` is the expected authority and signed.
    fn check_authority(authority_info: &Account, expected_authority: &[u8; 32]) -> (r: Result<
        (),
        ProgramError,
    >)
        ensures
            r == (if authority_info.key@ != expected_authority@ {
                Err::<(), ProgramError>(ProgramError::Custom(TokenWhitelistError::InvalidAuthority))
            } else if !authority_info.is_signer {
                Err(ProgramError::MissingRequiredSignature)
            } else {
                Ok(())
            }),
    {
        if !keys_equal(expected_authority, &authority_info.key) {
            return Err(ProgramError::Custom(TokenWhitelistError::InvalidAuthority));
        }
        if !authority_info.is_signer {
            return Err(ProgramError::MissingRequiredSignature);
        }
        Ok(())
    }
}

} // verus!

verus! {

/// AddEntry and RemoveEntry issued by a signer other than the stored
/// authority fail with `TokenWhitelistNotOwner`, and CloseRegistry issued by
/// anyone other than the authority fails with `InvalidAuthority`; by the
/// contract of `Processor::process`, no record changes.
pub proof fn lemma_non_authority_rejected(
    accts: Seq<AccountState>,
    data: Seq<u8>,
    rent_minimum: u64,
)
    requires
        accts.len() >= 3,
        spec_unpack_record(accts[1].data) is Ok,
        spec_unpack_record(accts[1].data).unwrap().is_initialized,
        accts[0].key != spec_unpack_record(accts[1].data).unwrap().init_pubkey,
    ensures
        accts[0].is_signer && (TokenWhitelistInstruction::spec_unpack(data) matches Ok(
            TokenWhitelistInstruction::AddToWhitelist { .. },
        )) ==> spec_process(accts, data, rent_minimum) == Err::<Seq<AccountState>, ProgramError>(
            ProgramError::Custom(TokenWhitelistError::TokenWhitelistNotOwner),
        ),
        accts[0].is_signer && TokenWhitelistInstruction::spec_unpack(data) == Ok::<
            TokenWhitelistInstruction,
            ProgramError,
        >(TokenWhitelistInstruction::RemoveFromWhitelist {  }) ==> spec_process(
            accts,
            data,
            rent_minimum,
        ) == Err::<Seq<AccountState>, ProgramError>(
            ProgramError::Custom(TokenWhitelistError::TokenWhitelistNotOwner),
        ),
        TokenWhitelistInstruction::spec_unpack(data) == Ok::<TokenWhitelistInstruction, ProgramError>(
            TokenWhitelistInstruction::CloseWhitelistAccount {  },
        ) ==> spec_process(accts, data, rent_minimum) == Err::<Seq<AccountState>, ProgramError>(
            ProgramError::Custom(TokenWhitelistError::InvalidAuthority),
        ),
{
}

/// ZeroAllocation by a participant signing for itself, on an initialized
/// registry: an absent participant is refused with `InvalidAccountData`; for
/// a present one the registry record afterwards holds the same registry with
/// that participant mapped to 0 and every other identity mapped as before,
/// and no other record changes, unless the re-encoded map does not fit its
/// reserved space.
pub proof fn lemma_zero_allocation(accts: Seq<AccountState>, data: Seq<u8>, rent_minimum: u64)
    requires
        accts.len() >= 3,
        accts[0].is_signer,
        accts[0].key == accts[2].key,
        spec_unpack_record(accts[1].data) is Ok,
        spec_unpack_record(accts[1].data).unwrap().is_initialized,
        TokenWhitelistInstruction::spec_unpack(data) == Ok::<TokenWhitelistInstruction, ProgramError>(
            TokenWhitelistInstruction::SetAllocationToZero {  },
        ),
    ensures
        ({
            let st = spec_unpack_record(accts[1].data).unwrap();
            let id = participant_id_of(accts[2].key);
            let m = st.whitelist_map;
            let after = m.insert(id, 0);
            &&& !m.contains_key(id) ==> spec_process(accts, data, rent_minimum) == Err::<
                Seq<AccountState>,
                ProgramError,
            >(ProgramError::InvalidAccountData)
            &&& m.contains_key(id) && map_fits(after) ==> spec_process(accts, data, rent_minimum)
                == Ok::<Seq<AccountState>, ProgramError>(
                accts.update(1, with_state(accts[1], WhitelistState { whitelist_map: after, ..st })),
            )
            &&& m.contains_key(id) ==> after.dom() == m.dom() && after[id] == 0 && forall|
                k: Seq<char>,
            | m.contains_key(k) && k != id ==> #[trigger] after[k] == m[k]
        }),
{
    let m = spec_unpack_record(accts[1].data).unwrap().whitelist_map;
    let id = participant_id_of(accts[2].key);
    if m.contains_key(id) {
        assert(m.insert(id, 0).dom() =~= m.dom());
    }
}

} // verus!
