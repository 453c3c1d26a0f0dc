//! The registry's persistent state and its fixed-size record layout.
use vstd::prelude::*;
use crate::error::{ProgramError, TokenWhitelistError};
use crate::le::{le_u32, le_u64, read_u64_le, u32_le_bytes, u64_le_bytes, u64_to_le,
    lemma_u32_le_round_trip, lemma_u64_le_round_trip};
use crate::whitelist_map::{borsh_map_bytes, borsh_map_decoded, WhitelistMap};

verus! {

/// Bytes of the initialization flag.
pub const INITIALIZED_BYTES: usize = 1;

/// Bytes of the authority's identity.
pub const PUBKEY_BYTES: usize = 32;

/// Bytes of the declared capacity.
pub const WHITELIST_SIZE_BYTES: usize = 8;

/// Bytes of the encoded map's declared length.
pub const MAP_LENGTH: usize = 4;

/// Bytes reserved for the encoded map.
pub const MAP_BYTES: usize = 5116;

/// Bytes of the whole record.
pub const ACCOUNT_STATE_SPACE: usize = INITIALIZED_BYTES + PUBKEY_BYTES + WHITELIST_SIZE_BYTES
    + MAP_LENGTH + MAP_BYTES;

/// Offset of the authority's identity.
pub const PUBKEY_OFFSET: usize = 1;

/// Offset of the declared capacity.
pub const SIZE_OFFSET: usize = 33;

/// Offset of the encoded map's declared length.
pub const MAP_LENGTH_OFFSET: usize = 41;

/// Offset of the encoded map.
pub const MAP_OFFSET: usize = 45;

/// The registry's state as a mathematical value.
pub struct WhitelistState {
    pub is_initialized: bool,
    pub init_pubkey: Seq<u8>,
    pub max_whitelist_size: u64,
    pub whitelist_map: Map<Seq<char>, u64>,
}

/// The persistent state of one registry.
#[derive(Debug)]
pub struct TokenWhitelist {
    pub is_initialized: bool,
    /// The identity of the owning authority.
    pub init_pubkey: [u8; 32],
    /// The number of entries the registry may hold.
    pub max_whitelist_size: u64,
    /// Participant identities and their allocation limits.
    pub whitelist_map: WhitelistMap,
}

impl View for TokenWhitelist {
    type V = WhitelistState;

    open spec fn view(&self) -> WhitelistState {
        WhitelistState {
            is_initialized: self.is_initialized,
            init_pubkey: self.init_pubkey@,
            max_whitelist_size: self.max_whitelist_size,
            whitelist_map: self.whitelist_map@,
        }
    }
}

/// The record bytes for `st`, given the encoding `payload` of its map:
/// flag, authority, capacity, payload length, payload, zero padding.
pub open spec fn record_layout(st: WhitelistState, payload: Seq<u8>) -> Seq<u8> {
    seq![if st.is_initialized { 1u8 } else { 0u8 }] + st.init_pubkey + u64_le_bytes(
        st.max_whitelist_size,
    ) + u32_le_bytes(payload.len() as u32) + payload + Seq::new(
        (MAP_BYTES - payload.len()) as nat,
        |i: int| 0u8,
    )
}

/// What decoding the record `src` gives.
pub open spec fn spec_unpack_record(src: Seq<u8>) -> Result<WhitelistState, ProgramError> {
    if src.len() < ACCOUNT_STATE_SPACE {
        Err(ProgramError::AccountDataTooSmall)
    } else {
        let declared = le_u32(src.subrange(MAP_LENGTH_OFFSET as int, MAP_OFFSET as int)) as int;
        let map = if declared == 0 {
            Some(Map::<Seq<char>, u64>::empty())
        } else {
            borsh_map_decoded(src.subrange(MAP_OFFSET as int, MAP_OFFSET + declared))
        };
        if src[0] > 1 || declared > MAP_BYTES || map is None {
            Err(ProgramError::InvalidAccountData)
        } else {
            Ok(
                WhitelistState {
                    is_initialized: src[0] == 1,
                    init_pubkey: src.subrange(PUBKEY_OFFSET as int, SIZE_OFFSET as int),
                    max_whitelist_size: le_u64(
                        src.subrange(SIZE_OFFSET as int, MAP_LENGTH_OFFSET as int),
                    ),
                    whitelist_map: map.unwrap(),
                },
            )
        }
    }
}

/// Decoding the layout of a state, with whatever bytes follow it, gives the
/// state back, provided its map encoding fits and decodes to its map.
pub proof fn lemma_record_round_trip(st: WhitelistState, payload: Seq<u8>, tail: Seq<u8>)
    requires
        st.init_pubkey.len() == PUBKEY_BYTES,
        0 < payload.len() <= MAP_BYTES,
        borsh_map_decoded(payload) == Some(st.whitelist_map),
    ensures
        spec_unpack_record(record_layout(st, payload) + tail) == Ok::<WhitelistState, ProgramError>(
            st,
        ),
{
    let b = record_layout(st, payload) + tail;
    let n = payload.len() as u32;
    lemma_u32_le_round_trip(n);
    lemma_u64_le_round_trip(st.max_whitelist_size);
    assert(b.subrange(MAP_LENGTH_OFFSET as int, MAP_OFFSET as int) =~= u32_le_bytes(n));
    assert(b.subrange(MAP_OFFSET as int, MAP_OFFSET + payload.len()) =~= payload);
    assert(b.subrange(PUBKEY_OFFSET as int, SIZE_OFFSET as int) =~= st.init_pubkey);
    assert(b.subrange(SIZE_OFFSET as int, MAP_LENGTH_OFFSET as int) =~= u64_le_bytes(
        st.max_whitelist_size,
    ));
}

/// Whether the map has an encoding that fits the space reserved for it.
pub open spec fn map_fits(m: Map<Seq<char>, u64>) -> bool {
    &&& borsh_map_bytes(m) is Some
    &&& borsh_map_bytes(m).unwrap().len() <= MAP_BYTES
}

/// Appends the bytes of `src` to `buf`.
fn push_all(buf: &mut Vec<u8>, src: &[u8])
    ensures
        final(buf)@ == old(buf)@ + src@,
{
    let mut i: usize = 0;
    while i < src.len()
        invariant
            0 <= i <= src@.len(),
            buf@ == old(buf)@ + src@.subrange(0, i as int),
        decreases src@.len() - i,
    {
        buf.push(src[i]);
        i = i + 1;
        assert(src@.subrange(0, i as int) =~= src@.subrange(0, i - 1) + seq![src@[i - 1]]);
    }
    assert(src@.subrange(0, src@.len() as int) =~= src@);
}

/// Appends `n` zero bytes to `buf`.
fn push_zeros(buf: &mut Vec<u8>, n: usize)
    ensures
        final(buf)@ == old(buf)@ + Seq::new(n as nat, |i: int| 0u8),
{
    let mut i: usize = 0;
    while i < n
        invariant
            0 <= i <= n,
            buf@ == old(buf)@ + Seq::new(i as nat, |j: int| 0u8),
        decreases n - i,
    {
        buf.push(0);
        i = i + 1;
        assert(Seq::new(i as nat, |j: int| 0u8) =~= Seq::new((i - 1) as nat, |j: int| 0u8) + seq![
            0u8,
        ]);
    }
}

/// Reads the Borsh container count, a little-endian `u32`, from the first
/// four bytes of `array`.
pub fn count_from_le(array: &[u8]) -> (r: usize)
    requires
        array@.len() >= 4,
    ensures
        r == le_u32(array@) as usize,
{
    ((array[0] as u32) | ((array[1] as u32) << 8u32) | ((array[2] as u32) << 16u32) | ((
    array[3] as u32) << 24u32)) as usize
}

/// The four little-endian bytes of `x`.
pub fn transform_u32_to_array_of_u8(x: u32) -> (r: [u8; 4])
    ensures
        r@ == u32_le_bytes(x),
{
    let b1: u8 = ((x >> 24u32) & 0xff) as u8;
    let b2: u8 = ((x >> 16u32) & 0xff) as u8;
    let b3: u8 = ((x >> 8u32) & 0xff) as u8;
    let b4: u8 = (x & 0xff) as u8;
    let r = [b4, b3, b2, b1];
    assert(r@ =~= u32_le_bytes(x));
    r
}

impl TokenWhitelist {
    /// A fresh, uninitialized registry with no entries.
    pub fn new() -> (r: Self)
        ensures
            r@ == (WhitelistState {
                is_initialized: false,
                init_pubkey: Seq::new(32, |i: int| 0u8),
                max_whitelist_size: 0,
                whitelist_map: Map::empty(),
            }),
    {
        let r = TokenWhitelist {
            is_initialized: false,
            init_pubkey: [0u8; 32],
            max_whitelist_size: 0,
            whitelist_map: WhitelistMap::new(),
        };
        assert(r.init_pubkey@ =~= Seq::new(32, |i: int| 0u8));
        r
    }

    pub fn is_initialized(&self) -> (r: bool)
        ensures
            r == self.is_initialized,
    {
        self.is_initialized
    }

    /// Sets the allocation of `key`, adding the entry if absent.
    pub fn add_keypair(&mut self, key: &String, value: &u64)
        ensures
            final(self)@ == (WhitelistState {
                whitelist_map: old(self)@.whitelist_map.insert(key@, *value),
                ..old(self)@
            }),
    {
        self.whitelist_map.insert(key.clone(), *value);
    }

    /// Removes the entry of `key`, if any.
    pub fn drop_key(&mut self, key: &String)
        ensures
            final(self)@ == (WhitelistState {
                whitelist_map: old(self)@.whitelist_map.remove(key@),
                ..old(self)@
            }),
    {
        self.whitelist_map.remove(key);
    }

    pub fn contains_key(&self, key: &String) -> (r: bool)
        ensures
            r == self@.whitelist_map.contains_key(key@),
    {
        self.whitelist_map.contains_key(key)
    }

    pub fn get(&self, key: &String) -> (r: Option<u64>)
        ensures
            r == (if self@.whitelist_map.contains_key(key@) {
                Some(self@.whitelist_map[key@])
            } else {
                None
            }),
    {
        self.whitelist_map.get(key)
    }

    /// Decodes a registry from the first `ACCOUNT_STATE_SPACE` bytes of `src`.
    pub fn unpack_from_slice(src: &[u8]) -> (r: Result<Self, ProgramError>)
        ensures
            match r {
                Ok(s) => spec_unpack_record(src@) == Ok::<WhitelistState, ProgramError>(s@),
                Err(e) => spec_unpack_record(src@) == Err::<WhitelistState, ProgramError>(e),
            },
    {
        if src.len() < ACCOUNT_STATE_SPACE {
            return Err(ProgramError::AccountDataTooSmall);
        }
        let declared = count_from_le(&src[MAP_LENGTH_OFFSET..MAP_OFFSET]);
        let flag = src[0];
        if flag > 1 || declared > MAP_BYTES {
            return Err(ProgramError::InvalidAccountData);
        }
        let whitelist_map = if declared == 0 {
            WhitelistMap::new()
        } else {
            match WhitelistMap::from_borsh(&src[MAP_OFFSET..MAP_OFFSET + declared]) {
                Some(m) => m,
                None => {
                    return Err(ProgramError::InvalidAccountData);
                },
            }
        };
        let mut init_pubkey = [0u8; 32];
        let mut i: usize = 0;
        while i < PUBKEY_BYTES
            invariant
                0 <= i <= PUBKEY_BYTES,
                src@.len() >= ACCOUNT_STATE_SPACE,
                init_pubkey@.len() == PUBKEY_BYTES,
                forall|j: int| 0 <= j < i ==> init_pubkey@[j] == src@[PUBKEY_OFFSET + j],
            decreases PUBKEY_BYTES - i,
        {
            init_pubkey[i] = src[PUBKEY_OFFSET + i];
            i = i + 1;
        }
        assert(init_pubkey@ =~= src@.subrange(PUBKEY_OFFSET as int, SIZE_OFFSET as int));
        let max_whitelist_size = read_u64_le(src, SIZE_OFFSET);
        Ok(TokenWhitelist { is_initialized: flag == 1, init_pubkey, max_whitelist_size, whitelist_map })
    }

    /// Encodes the registry into the first `ACCOUNT_STATE_SPACE` bytes of
    /// `dst`, or fails without writing anything: when `dst` is too short, or
    /// when the map's encoding does not fit its reserved space.
    pub fn pack_into_slice(&self, dst: &mut [u8]) -> (r: Result<(), ProgramError>)
        ensures
            r is Ok <==> old(dst)@.len() >= ACCOUNT_STATE_SPACE && map_fits(self@.whitelist_map),
            r is Ok ==> {
                &&& final(dst)@ == record_layout(self@, borsh_map_bytes(self@.whitelist_map).unwrap())
                    + old(dst)@.subrange(ACCOUNT_STATE_SPACE as int, old(dst)@.len() as int)
                &&& spec_unpack_record(final(dst)@) == Ok::<WhitelistState, ProgramError>(self@)
            },
            r is Err ==> final(dst)@ == old(dst)@,
            old(dst)@.len() < ACCOUNT_STATE_SPACE ==> r == Err::<(), ProgramError>(
                ProgramError::AccountDataTooSmall,
            ),
            old(dst)@.len() >= ACCOUNT_STATE_SPACE && !map_fits(self@.whitelist_map) ==> r == Err::<
                (),
                ProgramError,
            >(ProgramError::Custom(TokenWhitelistError::TokenWhitelistSizeExceeds)),
    {
        if dst.len() < ACCOUNT_STATE_SPACE {
            return Err(ProgramError::AccountDataTooSmall);
        }
        let exceeds = ProgramError::Custom(TokenWhitelistError::TokenWhitelistSizeExceeds);
        let payload = match self.whitelist_map.to_borsh() {
            Some(p) => p,
            None => {
                return Err(exceeds);
            },
        };
        if payload.len() > MAP_BYTES {
            return Err(exceeds);
        }
        let ghost layout = record_layout(self@, payload@);
        let mut out: Vec<u8> = Vec::new();
        out.push(if self.is_initialized { 1u8 } else { 0u8 });
        push_all(&mut out, &self.init_pubkey);
        push_all(&mut out, &u64_to_le(self.max_whitelist_size));
        push_all(&mut out, &transform_u32_to_array_of_u8(payload.len() as u32));
        push_all(&mut out, payload.as_slice());
        push_zeros(&mut out, MAP_BYTES - payload.len());
        assert(out@ =~= layout);
        let ghost tail = dst@.subrange(ACCOUNT_STATE_SPACE as int, dst@.len() as int);
        let mut i: usize = 0;
        while i < ACCOUNT_STATE_SPACE
            invariant
                0 <= i <= ACCOUNT_STATE_SPACE,
                out@ == layout,
                layout.len() == ACCOUNT_STATE_SPACE,
                dst@.len() == old(dst)@.len(),
                old(dst)@.len() >= ACCOUNT_STATE_SPACE,
                forall|j: int| 0 <= j < i ==> dst@[j] == layout[j],
                forall|j: int| i <= j < dst@.len() ==> dst@[j] == old(dst)@[j],
            decreases ACCOUNT_STATE_SPACE - i,
        {
            dst[i] = out[i];
            i = i + 1;
        }
        assert(dst@ =~= layout + tail);
        proof {
            lemma_record_round_trip(self@, payload@, tail);
        }
        Ok(())
    }
}

/// Small fixed-size data, for easy testing.
#[derive(Clone, Debug, Default, PartialEq, Eq)]
pub struct SmallData {
    /// The data held, in whatever encoding its user chooses.
    pub bytes: [u8; 8],
}

impl SmallData {
    /// The number of bytes held.
    pub const DATA_SIZE: usize = 8;
}

} // verus!
