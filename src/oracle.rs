//! Price feeds: a cheap prefix sniff tells the two supported layouts apart,
//! then exactly one fixed-layout decoder runs.
use vstd::prelude::*;
use crate::error::MangoError;
use crate::fixed_point::{fx_from_i64, one};

verus! {

/// The known oracle account layouts.
#[derive(Clone, Copy, Debug, PartialEq, Eq, Structural)]
pub enum OracleType {
    Stub,
    Pyth,
}

/// Identity of an account: its 32 bytes, read as two little-endian halves.
#[derive(Clone, Copy, Debug, PartialEq, Eq, Structural)]
pub struct Pubkey {
    pub lo: u128,
    pub hi: u128,
}

/// A price set by the group's admin, stored after its 8-byte account tag.
#[derive(Clone, Copy, Debug, PartialEq, Eq, Structural)]
pub struct StubOracle {
    pub group: Pubkey,
    /// Fixed-point price bits.
    pub price: i128,
    pub last_updated: i64,
}

/// Pyth's magic number, as the first four bytes hold it (little endian 0xa1b2c3d4).
pub const PYTH_MAGIC: [u8; 4] = [0xd4, 0xc3, 0xb2, 0xa1];

/// Tag of a stub oracle account: the first eight bytes of the SHA-256 digest
/// of "account:StubOracle".
pub const STUB_ORACLE_TAG: [u8; 8] = [224, 251, 254, 99, 177, 174, 137, 4];

/// Size of a stub oracle account: tag, group, price, timestamp, reserved.
pub const STUB_ORACLE_LEN: usize = 72;

/// Size of a Pyth price account.
pub const PYTH_PRICE_LEN: usize = 3312;

/// Offset of the aggregate price in a Pyth price account.
pub const PYTH_AGG_PRICE_OFFSET: usize = 208;

pub open spec fn pyth_magic_seq() -> Seq<u8> {
    seq![0xd4u8, 0xc3u8, 0xb2u8, 0xa1u8]
}

pub open spec fn stub_tag_seq() -> Seq<u8> {
    seq![224u8, 251u8, 254u8, 99u8, 177u8, 174u8, 137u8, 4u8]
}

/// Unsigned little-endian value of a byte string.
pub open spec fn le_nat(s: Seq<u8>) -> nat
    decreases s.len(),
{
    if s.len() == 0 {
        0
    } else {
        s[0] as nat + 256 * le_nat(s.drop_first())
    }
}

/// Two's-complement little-endian value of a byte string of `n` bits.
pub open spec fn le_signed(s: Seq<u8>, n: nat) -> int {
    let u = le_nat(s) as int;
    if u >= pow2(n) / 2 {
        u - pow2(n)
    } else {
        u
    }
}

pub open spec fn pow2(n: nat) -> int
    decreases n,
{
    if n == 0 {
        1
    } else {
        2 * pow2((n - 1) as nat)
    }
}

pub open spec fn is_pyth(d: Seq<u8>) -> bool {
    d.len() >= 4 && d.subrange(0, 4) == pyth_magic_seq()
}

pub open spec fn is_stub(d: Seq<u8>) -> bool {
    d.len() >= 8 && d.subrange(0, 8) == stub_tag_seq()
}

/// Classification of account bytes: the Pyth magic first, then the stub tag.
pub open spec fn oracle_type_of(d: Seq<u8>) -> Result<OracleType, MangoError> {
    if is_pyth(d) {
        Ok(OracleType::Pyth)
    } else if is_stub(d) {
        Ok(OracleType::Stub)
    } else {
        Err(MangoError::UnknownOracleType)
    }
}

/// What Pyth's loader accepts: large enough, magic, version 2, price account type.
pub open spec fn pyth_price_valid(d: Seq<u8>) -> bool {
    &&& d.len() >= PYTH_PRICE_LEN
    &&& le_nat(d.subrange(0, 4)) == 0xa1b2c3d4
    &&& le_nat(d.subrange(4, 8)) == 2
    &&& le_nat(d.subrange(8, 12)) == 3
}

pub open spec fn pyth_agg_price(d: Seq<u8>) -> int {
    le_signed(d.subrange(PYTH_AGG_PRICE_OFFSET as int, PYTH_AGG_PRICE_OFFSET + 8), 64)
}

pub open spec fn pyth_valid_slot(d: Seq<u8>) -> int {
    le_nat(d.subrange(40, 48)) as int
}

pub open spec fn stub_last_updated(d: Seq<u8>) -> int {
    le_signed(d.subrange(56, 64), 64)
}

/// The price of oracle account bytes, refused as stale when its feed is
/// older than the bound at the given time (stub) or slot (Pyth).
pub open spec fn fresh_price_of(
    d: Seq<u8>,
    now_ts: int,
    now_slot: int,
    max_age_secs: int,
    max_age_slots: int,
) -> Result<int, MangoError> {
    match oracle_price_of(d) {
        Err(e) => Err(e),
        Ok(p) => if is_pyth(d) {
            if now_slot - pyth_valid_slot(d) > max_age_slots {
                Err(MangoError::StaleOracle)
            } else {
                Ok(p)
            }
        } else if now_ts - stub_last_updated(d) > max_age_secs {
            Err(MangoError::StaleOracle)
        } else {
            Ok(p)
        },
    }
}

pub open spec fn stub_price(d: Seq<u8>) -> int {
    le_signed(d.subrange(40, 56), 128)
}

/// The canonical fixed-point price (raw bits) of oracle account bytes.
pub open spec fn oracle_price_of(d: Seq<u8>) -> Result<int, MangoError> {
    match oracle_type_of(d) {
        Err(e) => Err(e),
        Ok(OracleType::Stub) => if d.len() < STUB_ORACLE_LEN {
            Err(MangoError::DecodeError)
        } else {
            Ok(stub_price(d))
        },
        Ok(OracleType::Pyth) => if pyth_price_valid(d) {
            Ok(pyth_agg_price(d) * one())
        } else {
            Err(MangoError::DecodeError)
        },
    }
}

fn prefix_equals(data: &[u8], tag: &[u8]) -> (r: bool)
    ensures
        r == (data@.len() >= tag@.len() && data@.subrange(0, tag@.len() as int) == tag@),
{
    if data.len() < tag.len() {
        return false;
    }
    let mut i: usize = 0;
    while i < tag.len()
        invariant
            i <= tag@.len() <= data@.len(),
            forall|k: int| 0 <= k < i ==> data@[k] == tag@[k],
        decreases tag@.len() - i,
    {
        if data[i] != tag[i] {
            proof {
                assert(data@.subrange(0, tag@.len() as int)[i as int] != tag@[i as int]);
            }
            return false;
        }
        i = i + 1;
    }
    proof {
        assert(data@.subrange(0, tag@.len() as int) =~= tag@);
    }
    true
}

/// Classifies oracle account bytes by their leading tag. Total: bytes too
/// short for a tag, or with no known tag, give `UnknownOracleType`.
pub fn determine_oracle_type(data: &[u8]) -> (r: Result<OracleType, MangoError>)
    ensures
        r == oracle_type_of(data@),
{
    let magic = PYTH_MAGIC;
    let tag = STUB_ORACLE_TAG;
    proof {
        assert(magic@ =~= pyth_magic_seq());
        assert(tag@ =~= stub_tag_seq());
    }
    if prefix_equals(data, magic.as_slice()) {
        Ok(OracleType::Pyth)
    } else if prefix_equals(data, tag.as_slice()) {
        Ok(OracleType::Stub)
    } else {
        Err(MangoError::UnknownOracleType)
    }
}

/// Relies on `i128::from_le_bytes`: the two's-complement little-endian value
/// of the sixteen bytes at `at`.
#[verifier::external_body]
fn read_i128_le(data: &[u8], at: usize) -> (r: i128)
    requires
        at + 16 <= data@.len(),
    ensures
        r as int == le_signed(data@.subrange(at as int, at + 16), 128),
{
    i128::from_le_bytes(data[at..at + 16].try_into().unwrap())
}

/// Relies on `u128::from_le_bytes`: the little-endian value of the sixteen
/// bytes at `at`.
#[verifier::external_body]
fn read_u128_le(data: &[u8], at: usize) -> (r: u128)
    requires
        at + 16 <= data@.len(),
    ensures
        r as int == le_nat(data@.subrange(at as int, at + 16)),
{
    u128::from_le_bytes(data[at..at + 16].try_into().unwrap())
}

/// Relies on `i64::from_le_bytes`: the two's-complement little-endian value
/// of the eight bytes at `at`.
#[verifier::external_body]
fn read_i64_le(data: &[u8], at: usize) -> (r: i64)
    requires
        at + 8 <= data@.len(),
    ensures
        r as int == le_signed(data@.subrange(at as int, at + 8), 64),
{
    i64::from_le_bytes(data[at..at + 8].try_into().unwrap())
}

/// Relies on `pyth_client::load_price`: it accepts bytes of at least the
/// price account's size whose magic, version (2) and account type (price, 3)
/// match; the aggregate price is the `i64` at offset 208 and the valid slot
/// the `u64` at offset 40. The loader reads the bytes in place and needs them
/// 8-byte aligned, so they are first copied into a buffer of `u64` words.
#[verifier::external_body]
fn pyth_load_price(data: &[u8]) -> (r: Option<(i64, u64)>)
    ensures
        r.is_some() == pyth_price_valid(data@),
        r.is_some() ==> r.unwrap().0 as int == pyth_agg_price(data@),
        r.is_some() ==> r.unwrap().1 as int == pyth_valid_slot(data@),
{
    let mut words: Vec<u64> = vec![0u64; (data.len() + 7) / 8];
    bytemuck::cast_slice_mut::<u64, u8>(&mut words)[..data.len()].copy_from_slice(data);
    let aligned = &bytemuck::cast_slice::<u64, u8>(&words)[..data.len()];
    match pyth_client::load_price(aligned) {
        Ok(p) => Some((p.agg.price, p.valid_slot)),
        Err(_) => None,
    }
}

impl StubOracle {
    /// Decodes a stub oracle account; the tag must already have matched.
    pub fn decode(data: &[u8]) -> (r: Result<StubOracle, MangoError>)
        ensures
            data@.len() < STUB_ORACLE_LEN ==> r == Err::<StubOracle, MangoError>(MangoError::DecodeError),
            data@.len() >= STUB_ORACLE_LEN ==> r is Ok && r->Ok_0.price == stub_price(data@)
                && r->Ok_0.group.lo == le_nat(data@.subrange(8, 24))
                && r->Ok_0.group.hi == le_nat(data@.subrange(24, 40))
                && r->Ok_0.last_updated == le_signed(data@.subrange(56, 64), 64),
    {
        if data.len() < STUB_ORACLE_LEN {
            return Err(MangoError::DecodeError);
        }
        let lo = read_u128_le(data, 8);
        let hi = read_u128_le(data, 24);
        let price = read_i128_le(data, 40);
        let last_updated = read_i64_le(data, 56);
        Ok(StubOracle { group: Pubkey { lo, hi }, price, last_updated })
    }
}

/// The canonical fixed-point price (raw bits) held by oracle account bytes.
/// Unknown tags give `UnknownOracleType`; a known tag on malformed bytes
/// gives `DecodeError`. No placeholder price is ever returned.
pub fn oracle_price(data: &[u8]) -> (r: Result<i128, MangoError>)
    ensures
        r matches Ok(p) ==> oracle_price_of(data@) == Ok::<int, MangoError>(p as int),
        r matches Err(e) ==> oracle_price_of(data@) == Err::<int, MangoError>(e),
{
    match determine_oracle_type(data) {
        Err(e) => Err(e),
        Ok(OracleType::Stub) => match StubOracle::decode(data) {
            Ok(s) => Ok(s.price),
            Err(e) => Err(e),
        },
        Ok(OracleType::Pyth) => match pyth_load_price(data) {
            Some((p, _)) => Ok(fx_from_i64(p)),
            None => Err(MangoError::DecodeError),
        },
    }
}

/// The price of oracle account bytes for a health computation: as
/// `oracle_price`, but a feed last updated more than `max_age_secs` before
/// `now_ts` (stub) or more than `max_age_slots` before `now_slot` (Pyth's
/// valid slot) fails closed with `StaleOracle`.
pub fn oracle_price_fresh(
    data: &[u8],
    now_ts: i64,
    now_slot: u64,
    max_age_secs: u64,
    max_age_slots: u64,
) -> (r: Result<i128, MangoError>)
    ensures
        r matches Ok(p) ==> fresh_price_of(data@, now_ts as int, now_slot as int, max_age_secs as int, max_age_slots as int)
            == Ok::<int, MangoError>(p as int),
        r matches Err(e) ==> fresh_price_of(data@, now_ts as int, now_slot as int, max_age_secs as int, max_age_slots as int)
            == Err::<int, MangoError>(e),
{
    match determine_oracle_type(data) {
        Err(e) => Err(e),
        Ok(OracleType::Stub) => match StubOracle::decode(data) {
            Err(e) => Err(e),
            Ok(s) => if (now_ts as i128) - (s.last_updated as i128) > max_age_secs as i128 {
                Err(MangoError::StaleOracle)
            } else {
                Ok(s.price)
            },
        },
        Ok(OracleType::Pyth) => match pyth_load_price(data) {
            None => Err(MangoError::DecodeError),
            Some((p, slot)) => if now_slot > slot && now_slot - slot > max_age_slots {
                Err(MangoError::StaleOracle)
            } else {
                Ok(fx_from_i64(p))
            },
        },
    }
}

/// Identification depends on the bytes alone, and bytes carrying neither
/// known tag are always refused as an unknown oracle type.
pub proof fn lemma_oracle_type_total(a: Seq<u8>, b: Seq<u8>)
    ensures
        a == b ==> oracle_type_of(a) == oracle_type_of(b),
        !is_pyth(a) && !is_stub(a) ==> oracle_type_of(a) == Err::<OracleType, MangoError>(
            MangoError::UnknownOracleType,
        ),
        oracle_type_of(a) is Ok || oracle_type_of(a) == Err::<OracleType, MangoError>(
            MangoError::UnknownOracleType,
        ),
{
}

} // verus!
