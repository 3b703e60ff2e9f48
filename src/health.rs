//! Init and maintenance health of an account, from the banks, oracle prices
//! and perp markets that its active slots implicate.
use vstd::prelude::*;
use crate::account::{MangoAccount, PerpPosition, Serum3Orders, TokenPosition};
use crate::error::MangoError;
use crate::fixed_point::{fx_add, fx_from_u64, fx_mul, in_i128, mul_bits, one};
use crate::oracle::{fresh_price_of, oracle_price_fresh};

verus! {

/// Which gating threshold a health computation is for.
#[derive(Clone, Copy, Debug, PartialEq, Eq, Structural)]
pub enum HealthType {
    /// Gates new risk-increasing actions.
    Init,
    /// Gates liquidation eligibility.
    Maint,
}

/// A token's bank together with its oracle price, all fixed-point bits.
#[derive(Clone, Copy, Debug, PartialEq, Eq, Structural)]
pub struct TokenInfo {
    pub token_index: u16,
    pub deposit_index: i128,
    pub borrow_index: i128,
    pub oracle_price: i128,
    pub init_asset_weight: i128,
    pub init_liab_weight: i128,
    pub maint_asset_weight: i128,
    pub maint_liab_weight: i128,
}

/// A perp market together with its oracle price, all fixed-point bits but
/// the lot size.
#[derive(Clone, Copy, Debug, PartialEq, Eq, Structural)]
pub struct PerpInfo {
    pub market_index: u16,
    pub base_lot_size: i64,
    pub oracle_price: i128,
    pub init_asset_weight: i128,
    pub init_liab_weight: i128,
    pub maint_asset_weight: i128,
    pub maint_liab_weight: i128,
}

/// An open-orders account on a spot market: what it holds in base and quote
/// (free and reserved, native units), with the prices and asset weights of
/// the market's base and quote banks.
#[derive(Clone, Copy, Debug, PartialEq, Eq, Structural)]
pub struct OpenOrdersInfo {
    pub market_index: u16,
    pub base_total: u64,
    pub quote_total: u64,
    pub base_price: i128,
    pub quote_price: i128,
    pub base_init_asset_weight: i128,
    pub base_maint_asset_weight: i128,
    pub quote_init_asset_weight: i128,
    pub quote_maint_asset_weight: i128,
}

/// The auxiliary accounts of a health computation, in the order of the
/// account's active slots: token banks with their oracles, then perp
/// markets, then open-orders accounts.
#[derive(Clone, Debug)]
pub struct HealthAccounts {
    pub tokens: Vec<TokenInfo>,
    pub perps: Vec<PerpInfo>,
    pub open_orders: Vec<OpenOrdersInfo>,
}

impl TokenInfo {
    /// The bank's data with the price read from its oracle account bytes.
    /// A stale feed (older than `max_age_secs` before `now_ts` for a stub,
    /// or `max_age_slots` before `now_slot` for Pyth) fails closed with
    /// `StaleOracle`, as do undecodable bytes with their error.
    pub fn with_oracle(
        bank: &TokenInfo,
        oracle_data: &[u8],
        now_ts: i64,
        now_slot: u64,
        max_age_secs: u64,
        max_age_slots: u64,
    ) -> (r: Result<TokenInfo, MangoError>)
        ensures
            r matches Ok(i) ==> fresh_price_of(
                oracle_data@,
                now_ts as int,
                now_slot as int,
                max_age_secs as int,
                max_age_slots as int,
            ) == Ok::<int, MangoError>(i.oracle_price as int) && i == (TokenInfo {
                oracle_price: i.oracle_price,
                ..*bank
            }),
            r matches Err(e) ==> fresh_price_of(
                oracle_data@,
                now_ts as int,
                now_slot as int,
                max_age_secs as int,
                max_age_slots as int,
            ) == Err::<int, MangoError>(e),
    {
        match oracle_price_fresh(oracle_data, now_ts, now_slot, max_age_secs, max_age_slots) {
            Ok(p) => Ok(TokenInfo { oracle_price: p, ..*bank }),
            Err(e) => Err(e),
        }
    }
}

impl PerpInfo {
    /// The market's data with the price read from its oracle account bytes,
    /// failing closed on a stale feed as `TokenInfo::with_oracle` does.
    pub fn with_oracle(
        market: &PerpInfo,
        oracle_data: &[u8],
        now_ts: i64,
        now_slot: u64,
        max_age_secs: u64,
        max_age_slots: u64,
    ) -> (r: Result<PerpInfo, MangoError>)
        ensures
            r matches Ok(i) ==> fresh_price_of(
                oracle_data@,
                now_ts as int,
                now_slot as int,
                max_age_secs as int,
                max_age_slots as int,
            ) == Ok::<int, MangoError>(i.oracle_price as int) && i == (PerpInfo {
                oracle_price: i.oracle_price,
                ..*market
            }),
            r matches Err(e) ==> fresh_price_of(
                oracle_data@,
                now_ts as int,
                now_slot as int,
                max_age_secs as int,
                max_age_slots as int,
            ) == Err::<int, MangoError>(e),
    {
        match oracle_price_fresh(oracle_data, now_ts, now_slot, max_age_secs, max_age_slots) {
            Ok(p) => Ok(PerpInfo { oracle_price: p, ..*market }),
            Err(e) => Err(e),
        }
    }
}

pub open spec fn token_asset_weight(i: TokenInfo, ht: HealthType) -> int {
    match ht {
        HealthType::Init => i.init_asset_weight as int,
        HealthType::Maint => i.maint_asset_weight as int,
    }
}

pub open spec fn token_liab_weight(i: TokenInfo, ht: HealthType) -> int {
    match ht {
        HealthType::Init => i.init_liab_weight as int,
        HealthType::Maint => i.maint_liab_weight as int,
    }
}

pub open spec fn perp_asset_weight(i: PerpInfo, ht: HealthType) -> int {
    match ht {
        HealthType::Init => i.init_asset_weight as int,
        HealthType::Maint => i.maint_asset_weight as int,
    }
}

pub open spec fn perp_liab_weight(i: PerpInfo, ht: HealthType) -> int {
    match ht {
        HealthType::Init => i.init_liab_weight as int,
        HealthType::Maint => i.maint_liab_weight as int,
    }
}

/// Native amount of an indexed position: scaled by the deposit index when
/// positive, by the borrow index when negative.
pub open spec fn native_of(indexed: int, info: TokenInfo) -> int {
    if indexed >= 0 {
        mul_bits(indexed, info.deposit_index as int)
    } else {
        mul_bits(indexed, info.borrow_index as int)
    }
}

/// Weighted value of a token position at the oracle price; `None` when an
/// intermediate leaves the 128-bit range.
pub open spec fn token_contribution(indexed: int, info: TokenInfo, ht: HealthType) -> Option<int> {
    let native = native_of(indexed, info);
    let value = mul_bits(native, info.oracle_price as int);
    let weight = if native >= 0 {
        token_asset_weight(info, ht)
    } else {
        token_liab_weight(info, ht)
    };
    let h = mul_bits(value, weight);
    if in_i128(native) && in_i128(value) && in_i128(h) {
        Some(h)
    } else {
        None
    }
}

/// Weighted value of a perp position: base marked at the oracle price, plus
/// the quote position with its unsettled PnL.
pub open spec fn perp_contribution(p: PerpPosition, info: PerpInfo, ht: HealthType) -> Option<int> {
    let base = p.base_position_lots as int * info.base_lot_size as int * one();
    let value = mul_bits(base, info.oracle_price as int);
    let weight = if p.base_position_lots >= 0 {
        perp_asset_weight(info, ht)
    } else {
        perp_liab_weight(info, ht)
    };
    let weighted = mul_bits(value, weight);
    let h = weighted + p.quote_position_native as int;
    if in_i128(base) && in_i128(value) && in_i128(weighted) && in_i128(h) {
        Some(h)
    } else {
        None
    }
}

/// The smaller of the base and quote asset weights: the worst settlement.
pub open spec fn open_orders_weight(o: OpenOrdersInfo, ht: HealthType) -> int {
    let (b, q) = match ht {
        HealthType::Init => (o.base_init_asset_weight as int, o.quote_init_asset_weight as int),
        HealthType::Maint => (o.base_maint_asset_weight as int, o.quote_maint_asset_weight as int),
    };
    if b <= q {
        b
    } else {
        q
    }
}

/// Value of an open-orders account at oracle prices, weighted as if it all
/// settled into whichever of base or quote has the smaller asset weight.
pub open spec fn open_orders_contribution(o: OpenOrdersInfo, ht: HealthType) -> Option<int> {
    let base = mul_bits(o.base_total as int * one(), o.base_price as int);
    let quote = mul_bits(o.quote_total as int * one(), o.quote_price as int);
    let h = mul_bits(base + quote, open_orders_weight(o, ht));
    if in_i128(base) && in_i128(quote) && in_i128(base + quote) && in_i128(h) {
        Some(h)
    } else {
        None
    }
}

/// The first `n` open-orders slots folded into (infos consumed, running sum).
pub open spec fn fold_open_orders(
    slots: Seq<Serum3Orders>,
    infos: Seq<OpenOrdersInfo>,
    ht: HealthType,
    n: nat,
) -> Result<(nat, int), MangoError>
    decreases n,
{
    if n == 0 {
        Ok((0, 0))
    } else {
        match fold_open_orders(slots, infos, ht, (n - 1) as nat) {
            Err(e) => Err(e),
            Ok((j, s)) => {
                let o = slots[n - 1];
                if !o.active {
                    Ok((j, s))
                } else if j >= infos.len() || infos[j as int].market_index != o.market_index {
                    Err(MangoError::MissingHealthAccount)
                } else {
                    match open_orders_contribution(infos[j as int], ht) {
                        None => Err(MangoError::ArithmeticError),
                        Some(c) => if in_i128(s + c) {
                            Ok((j + 1, s + c))
                        } else {
                            Err(MangoError::ArithmeticError)
                        },
                    }
                }
            },
        }
    }
}

/// The first `n` token slots folded into (infos consumed, running sum).
pub open spec fn fold_tokens(
    slots: Seq<TokenPosition>,
    infos: Seq<TokenInfo>,
    ht: HealthType,
    n: nat,
) -> Result<(nat, int), MangoError>
    decreases n,
{
    if n == 0 {
        Ok((0, 0))
    } else {
        match fold_tokens(slots, infos, ht, (n - 1) as nat) {
            Err(e) => Err(e),
            Ok((j, s)) => {
                let t = slots[n - 1];
                if !t.active {
                    Ok((j, s))
                } else if j >= infos.len() || infos[j as int].token_index != t.token_index {
                    Err(MangoError::MissingHealthAccount)
                } else {
                    match token_contribution(t.indexed_position as int, infos[j as int], ht) {
                        None => Err(MangoError::ArithmeticError),
                        Some(c) => if in_i128(s + c) {
                            Ok((j + 1, s + c))
                        } else {
                            Err(MangoError::ArithmeticError)
                        },
                    }
                }
            },
        }
    }
}

/// The first `n` perp slots folded into (infos consumed, running sum).
pub open spec fn fold_perps(
    slots: Seq<PerpPosition>,
    infos: Seq<PerpInfo>,
    ht: HealthType,
    n: nat,
) -> Result<(nat, int), MangoError>
    decreases n,
{
    if n == 0 {
        Ok((0, 0))
    } else {
        match fold_perps(slots, infos, ht, (n - 1) as nat) {
            Err(e) => Err(e),
            Ok((j, s)) => {
                let p = slots[n - 1];
                if !p.active {
                    Ok((j, s))
                } else if j >= infos.len() || infos[j as int].market_index != p.market_index {
                    Err(MangoError::MissingHealthAccount)
                } else {
                    match perp_contribution(p, infos[j as int], ht) {
                        None => Err(MangoError::ArithmeticError),
                        Some(c) => if in_i128(s + c) {
                            Ok((j + 1, s + c))
                        } else {
                            Err(MangoError::ArithmeticError)
                        },
                    }
                }
            },
        }
    }
}

/// Health of positions against the supplied accounts. Every supplied
/// account must be used, in order: otherwise `MissingHealthAccount`.
pub open spec fn health_of(
    tokens: Seq<TokenPosition>,
    perps: Seq<PerpPosition>,
    token_infos: Seq<TokenInfo>,
    perp_infos: Seq<PerpInfo>,
    ht: HealthType,
) -> Result<int, MangoError> {
    match fold_tokens(tokens, token_infos, ht, tokens.len()) {
        Err(e) => Err(e),
        Ok((j, s)) => if j != token_infos.len() {
            Err(MangoError::MissingHealthAccount)
        } else {
            match fold_perps(perps, perp_infos, ht, perps.len()) {
                Err(e) => Err(e),
                Ok((k, p)) => if k != perp_infos.len() {
                    Err(MangoError::MissingHealthAccount)
                } else if in_i128(s + p) {
                    Ok(s + p)
                } else {
                    Err(MangoError::ArithmeticError)
                },
            }
        },
    }
}

/// Health of all positions: tokens and perps, then open-orders accounts,
/// each of which must be supplied in order.
pub open spec fn full_health(
    tokens: Seq<TokenPosition>,
    perps: Seq<PerpPosition>,
    serum3: Seq<Serum3Orders>,
    token_infos: Seq<TokenInfo>,
    perp_infos: Seq<PerpInfo>,
    oo_infos: Seq<OpenOrdersInfo>,
    ht: HealthType,
) -> Result<int, MangoError> {
    match health_of(tokens, perps, token_infos, perp_infos, ht) {
        Err(e) => Err(e),
        Ok(s) => match fold_open_orders(serum3, oo_infos, ht, serum3.len()) {
            Err(e) => Err(e),
            Ok((k, q)) => if k != oo_infos.len() {
                Err(MangoError::MissingHealthAccount)
            } else if in_i128(s + q) {
                Ok(s + q)
            } else {
                Err(MangoError::ArithmeticError)
            },
        },
    }
}

/// Health of an account against the supplied accounts.
pub open spec fn account_health(a: MangoAccount, h: HealthAccounts, ht: HealthType) -> Result<
    int,
    MangoError,
> {
    full_health(a.tokens@, a.perps@, a.serum3@, h.tokens@, h.perps@, h.open_orders@, ht)
}

proof fn lemma_fold_open_orders_err(
    slots: Seq<Serum3Orders>,
    infos: Seq<OpenOrdersInfo>,
    ht: HealthType,
    n: nat,
    m: nat,
)
    requires
        n <= m,
        fold_open_orders(slots, infos, ht, n) is Err,
    ensures
        fold_open_orders(slots, infos, ht, m) == fold_open_orders(slots, infos, ht, n),
    decreases m - n,
{
    if n < m {
        lemma_fold_open_orders_err(slots, infos, ht, n, (m - 1) as nat);
    }
}

proof fn lemma_fold_open_orders_error_kind(
    slots: Seq<Serum3Orders>,
    infos: Seq<OpenOrdersInfo>,
    ht: HealthType,
    n: nat,
)
    ensures
        fold_open_orders(slots, infos, ht, n) matches Err(e) ==> is_health_error(e),
    decreases n,
{
    if n > 0 {
        lemma_fold_open_orders_error_kind(slots, infos, ht, (n - 1) as nat);
    }
}

proof fn lemma_fold_tokens_err(
    slots: Seq<TokenPosition>,
    infos: Seq<TokenInfo>,
    ht: HealthType,
    n: nat,
    m: nat,
)
    requires
        n <= m,
        fold_tokens(slots, infos, ht, n) is Err,
    ensures
        fold_tokens(slots, infos, ht, m) == fold_tokens(slots, infos, ht, n),
    decreases m - n,
{
    if n < m {
        lemma_fold_tokens_err(slots, infos, ht, n, (m - 1) as nat);
    }
}

proof fn lemma_fold_perps_err(
    slots: Seq<PerpPosition>,
    infos: Seq<PerpInfo>,
    ht: HealthType,
    n: nat,
    m: nat,
)
    requires
        n <= m,
        fold_perps(slots, infos, ht, n) is Err,
    ensures
        fold_perps(slots, infos, ht, m) == fold_perps(slots, infos, ht, n),
    decreases m - n,
{
    if n < m {
        lemma_fold_perps_err(slots, infos, ht, n, (m - 1) as nat);
    }
}

proof fn lemma_health_perps_err(
    ts: Seq<TokenPosition>,
    ps: Seq<PerpPosition>,
    tis: Seq<TokenInfo>,
    pis: Seq<PerpInfo>,
    ht: HealthType,
)
    requires
        fold_tokens(ts, tis, ht, ts.len()) matches Ok((j, _)) && j == tis.len(),
        fold_perps(ps, pis, ht, ps.len()) is Err,
    ensures
        health_of(ts, ps, tis, pis, ht) == Err::<int, MangoError>(
            fold_perps(ps, pis, ht, ps.len())->Err_0,
        ),
{
}

pub open spec fn is_health_error(e: MangoError) -> bool {
    e == MangoError::MissingHealthAccount || e == MangoError::ArithmeticError
}

proof fn lemma_fold_tokens_error_kind(
    slots: Seq<TokenPosition>,
    infos: Seq<TokenInfo>,
    ht: HealthType,
    n: nat,
)
    ensures
        fold_tokens(slots, infos, ht, n) matches Err(e) ==> is_health_error(e),
    decreases n,
{
    if n > 0 {
        lemma_fold_tokens_error_kind(slots, infos, ht, (n - 1) as nat);
    }
}

proof fn lemma_fold_perps_error_kind(
    slots: Seq<PerpPosition>,
    infos: Seq<PerpInfo>,
    ht: HealthType,
    n: nat,
)
    ensures
        fold_perps(slots, infos, ht, n) matches Err(e) ==> is_health_error(e),
    decreases n,
{
    if n > 0 {
        lemma_fold_perps_error_kind(slots, infos, ht, (n - 1) as nat);
    }
}

/// A health computation fails only for a missing account or on overflow.
pub proof fn lemma_health_error_kind(
    tokens: Seq<TokenPosition>,
    perps: Seq<PerpPosition>,
    token_infos: Seq<TokenInfo>,
    perp_infos: Seq<PerpInfo>,
    ht: HealthType,
)
    ensures
        health_of(tokens, perps, token_infos, perp_infos, ht) matches Err(e) ==> is_health_error(e),
{
    lemma_fold_tokens_error_kind(tokens, token_infos, ht, tokens.len());
    lemma_fold_perps_error_kind(perps, perp_infos, ht, perps.len());
}

/// Weighted value of one token position.
pub fn token_health_contribution(indexed: i128, info: &TokenInfo, ht: HealthType) -> (r: Result<
    i128,
    MangoError,
>)
    ensures
        r matches Ok(c) ==> token_contribution(indexed as int, *info, ht) == Some(c as int),
        r matches Err(e) ==> token_contribution(indexed as int, *info, ht) is None && e
            == MangoError::ArithmeticError,
{
    let index = if indexed >= 0 {
        info.deposit_index
    } else {
        info.borrow_index
    };
    let native = match fx_mul(indexed, index) {
        Some(n) => n,
        None => return Err(MangoError::ArithmeticError),
    };
    let value = match fx_mul(native, info.oracle_price) {
        Some(v) => v,
        None => return Err(MangoError::ArithmeticError),
    };
    let weight = if native >= 0 {
        match ht {
            HealthType::Init => info.init_asset_weight,
            HealthType::Maint => info.maint_asset_weight,
        }
    } else {
        match ht {
            HealthType::Init => info.init_liab_weight,
            HealthType::Maint => info.maint_liab_weight,
        }
    };
    match fx_mul(value, weight) {
        Some(h) => Ok(h),
        None => Err(MangoError::ArithmeticError),
    }
}

/// Weighted value of one perp position.
pub fn perp_health_contribution(p: &PerpPosition, info: &PerpInfo, ht: HealthType) -> (r: Result<
    i128,
    MangoError,
>)
    ensures
        r matches Ok(c) ==> perp_contribution(*p, *info, ht) == Some(c as int),
        r matches Err(e) ==> perp_contribution(*p, *info, ht) is None && e
            == MangoError::ArithmeticError,
{
    let lots = p.base_position_lots as i128;
    let lot_size = info.base_lot_size as i128;
    proof {
        assert(-0x8000_0000_0000_0000 <= lots <= 0x7fff_ffff_ffff_ffff);
        assert(-0x8000_0000_0000_0000 <= lot_size <= 0x7fff_ffff_ffff_ffff);
        assert(lots * lot_size <= 0x4000_0000_0000_0000_0000_0000_0000_0000) by (nonlinear_arith)
            requires
                -0x8000_0000_0000_0000 <= lots <= 0x7fff_ffff_ffff_ffff,
                -0x8000_0000_0000_0000 <= lot_size <= 0x7fff_ffff_ffff_ffff,
        ;
        assert(lots * lot_size >= -0x4000_0000_0000_0000_0000_0000_0000_0000) by (nonlinear_arith)
            requires
                -0x8000_0000_0000_0000 <= lots <= 0x7fff_ffff_ffff_ffff,
                -0x8000_0000_0000_0000 <= lot_size <= 0x7fff_ffff_ffff_ffff,
        ;
    }
    let native = lots * lot_size;
    let base = match native.checked_mul(0x1_0000_0000_0000i128) {
        Some(b) => b,
        None => return Err(MangoError::ArithmeticError),
    };
    let value = match fx_mul(base, info.oracle_price) {
        Some(v) => v,
        None => return Err(MangoError::ArithmeticError),
    };
    let weight = if p.base_position_lots >= 0 {
        match ht {
            HealthType::Init => info.init_asset_weight,
            HealthType::Maint => info.maint_asset_weight,
        }
    } else {
        match ht {
            HealthType::Init => info.init_liab_weight,
            HealthType::Maint => info.maint_liab_weight,
        }
    };
    let weighted = match fx_mul(value, weight) {
        Some(w) => w,
        None => return Err(MangoError::ArithmeticError),
    };
    match fx_add(weighted, p.quote_position_native) {
        Some(h) => Ok(h),
        None => Err(MangoError::ArithmeticError),
    }
}

/// Health of positions against the supplied accounts; fails closed with
/// `MissingHealthAccount` when the accounts do not match the active slots
/// exactly, and with `ArithmeticError` on overflow.
pub fn compute_health_from_slots(
    tokens: &Vec<TokenPosition>,
    perps: &Vec<PerpPosition>,
    accounts: &HealthAccounts,
    ht: HealthType,
) -> (r: Result<i128, MangoError>)
    ensures
        r matches Ok(h) ==> health_of(tokens@, perps@, accounts.tokens@, accounts.perps@, ht)
            == Ok::<int, MangoError>(h as int),
        r matches Err(e) ==> health_of(tokens@, perps@, accounts.tokens@, accounts.perps@, ht)
            == Err::<int, MangoError>(e),
{
    let ghost ts = tokens@;
    let ghost tis = accounts.tokens@;
    let mut i: usize = 0;
    let mut j: usize = 0;
    let mut sum: i128 = 0;
    while i < tokens.len()
        invariant
            i <= ts.len(),
            ts == tokens@,
            tis == accounts.tokens@,
            fold_tokens(ts, tis, ht, i as nat) == Ok::<(nat, int), MangoError>((j as nat, sum as int)),
        decreases ts.len() - i,
    {
        let t = tokens[i];
        if t.active {
            if j >= accounts.tokens.len() || accounts.tokens[j].token_index != t.token_index {
                proof {
                    lemma_fold_tokens_err(ts, tis, ht, (i + 1) as nat, ts.len());
                }
                return Err(MangoError::MissingHealthAccount);
            }
            let c = match token_health_contribution(t.indexed_position, &accounts.tokens[j], ht) {
                Ok(c) => c,
                Err(e) => {
                    proof {
                        lemma_fold_tokens_err(ts, tis, ht, (i + 1) as nat, ts.len());
                    }
                    return Err(e);
                },
            };
            sum = match fx_add(sum, c) {
                Some(s) => s,
                None => {
                    proof {
                        lemma_fold_tokens_err(ts, tis, ht, (i + 1) as nat, ts.len());
                    }
                    return Err(MangoError::ArithmeticError);
                },
            };
            j = j + 1;
        }
        i = i + 1;
    }
    if j != accounts.tokens.len() {
        return Err(MangoError::MissingHealthAccount);
    }
    let ghost ps = perps@;
    let ghost pis = accounts.perps@;
    let mut i: usize = 0;
    let mut k: usize = 0;
    let mut psum: i128 = 0;
    while i < perps.len()
        invariant
            i <= ps.len(),
            ps == perps@,
            pis == accounts.perps@,
            ts == tokens@,
            tis == accounts.tokens@,
            fold_tokens(ts, tis, ht, ts.len()) == Ok::<(nat, int), MangoError>((j as nat, sum as int)),
            j == tis.len(),
            fold_perps(ps, pis, ht, i as nat) == Ok::<(nat, int), MangoError>((k as nat, psum as int)),
        decreases ps.len() - i,
    {
        let p = perps[i];
        if p.active {
            if k >= accounts.perps.len() || accounts.perps[k].market_index != p.market_index {
                proof {
                    assert(fold_perps(ps, pis, ht, (i + 1) as nat) == Err::<(nat, int), MangoError>(
                        MangoError::MissingHealthAccount,
                    ));
                    lemma_fold_perps_err(ps, pis, ht, (i + 1) as nat, ps.len());
                    lemma_health_perps_err(ts, ps, tis, pis, ht);
                }
                return Err(MangoError::MissingHealthAccount);
            }
            let c = match perp_health_contribution(&p, &accounts.perps[k], ht) {
                Ok(c) => c,
                Err(e) => {
                    proof {
                        lemma_fold_perps_err(ps, pis, ht, (i + 1) as nat, ps.len());
                        lemma_health_perps_err(ts, ps, tis, pis, ht);
                    }
                    return Err(e);
                },
            };
            psum = match fx_add(psum, c) {
                Some(s) => s,
                None => {
                    proof {
                        assert(fold_perps(ps, pis, ht, (i + 1) as nat) == Err::<(nat, int), MangoError>(
                            MangoError::ArithmeticError,
                        ));
                        lemma_fold_perps_err(ps, pis, ht, (i + 1) as nat, ps.len());
                        lemma_health_perps_err(ts, ps, tis, pis, ht);
                    }
                    return Err(MangoError::ArithmeticError);
                },
            };
            k = k + 1;
        }
        i = i + 1;
    }
    if k != accounts.perps.len() {
        return Err(MangoError::MissingHealthAccount);
    }
    match fx_add(sum, psum) {
        Some(h) => Ok(h),
        None => Err(MangoError::ArithmeticError),
    }
}

/// Value of one open-orders account, pessimistically weighted.
pub fn open_orders_health_contribution(o: &OpenOrdersInfo, ht: HealthType) -> (r: Result<
    i128,
    MangoError,
>)
    ensures
        r matches Ok(c) ==> open_orders_contribution(*o, ht) == Some(c as int),
        r matches Err(e) ==> open_orders_contribution(*o, ht) is None && e
            == MangoError::ArithmeticError,
{
    let base = match fx_mul(fx_from_u64(o.base_total), o.base_price) {
        Some(v) => v,
        None => return Err(MangoError::ArithmeticError),
    };
    let quote = match fx_mul(fx_from_u64(o.quote_total), o.quote_price) {
        Some(v) => v,
        None => return Err(MangoError::ArithmeticError),
    };
    let total = match fx_add(base, quote) {
        Some(v) => v,
        None => return Err(MangoError::ArithmeticError),
    };
    let (bw, qw) = match ht {
        HealthType::Init => (o.base_init_asset_weight, o.quote_init_asset_weight),
        HealthType::Maint => (o.base_maint_asset_weight, o.quote_maint_asset_weight),
    };
    let weight = if bw <= qw {
        bw
    } else {
        qw
    };
    match fx_mul(total, weight) {
        Some(h) => Ok(h),
        None => Err(MangoError::ArithmeticError),
    }
}

/// Health of an account against the supplied accounts: the token banks
/// with their oracles, then perp markets, then open-orders accounts, exactly
/// those of the active slots and in slot order (`MissingHealthAccount`
/// otherwise); overflow fails with `ArithmeticError`.
pub fn compute_health(account: &MangoAccount, accounts: &HealthAccounts, ht: HealthType) -> (r:
    Result<i128, MangoError>)
    ensures
        r matches Ok(h) ==> account_health(*account, *accounts, ht) == Ok::<int, MangoError>(
            h as int,
        ),
        r matches Err(e) ==> account_health(*account, *accounts, ht) == Err::<int, MangoError>(e)
            && is_health_error(e),
{
    proof {
        lemma_health_error_kind(account.tokens@, account.perps@, accounts.tokens@, accounts.perps@, ht);
        lemma_fold_open_orders_error_kind(account.serum3@, accounts.open_orders@, ht, account.serum3@.len());
    }
    let s = match compute_health_from_slots(&account.tokens, &account.perps, accounts, ht) {
        Ok(s) => s,
        Err(e) => return Err(e),
    };
    let ghost os = account.serum3@;
    let ghost ois = accounts.open_orders@;
    let mut i: usize = 0;
    let mut k: usize = 0;
    let mut q: i128 = 0;
    while i < account.serum3.len()
        invariant
            i <= os.len(),
            os == account.serum3@,
            ois == accounts.open_orders@,
            fold_open_orders(os, ois, ht, i as nat) == Ok::<(nat, int), MangoError>((k as nat, q as int)),
            health_of(account.tokens@, account.perps@, accounts.tokens@, accounts.perps@, ht) == Ok::<
                int,
                MangoError,
            >(s as int),
        decreases os.len() - i,
    {
        let o = account.serum3[i];
        if o.active {
            if k >= accounts.open_orders.len() || accounts.open_orders[k].market_index != o.market_index {
                proof {
                    assert(fold_open_orders(os, ois, ht, (i + 1) as nat) == Err::<(nat, int), MangoError>(
                        MangoError::MissingHealthAccount,
                    ));
                    lemma_fold_open_orders_err(os, ois, ht, (i + 1) as nat, os.len());
                }
                return Err(MangoError::MissingHealthAccount);
            }
            let c = match open_orders_health_contribution(&accounts.open_orders[k], ht) {
                Ok(c) => c,
                Err(e) => {
                    proof {
                        lemma_fold_open_orders_err(os, ois, ht, (i + 1) as nat, os.len());
                    }
                    return Err(e);
                },
            };
            q = match fx_add(q, c) {
                Some(v) => v,
                None => {
                    proof {
                        assert(fold_open_orders(os, ois, ht, (i + 1) as nat) == Err::<(nat, int), MangoError>(
                            MangoError::ArithmeticError,
                        ));
                        lemma_fold_open_orders_err(os, ois, ht, (i + 1) as nat, os.len());
                    }
                    return Err(MangoError::ArithmeticError);
                },
            };
            k = k + 1;
        }
        i = i + 1;
    }
    if k != accounts.open_orders.len() {
        return Err(MangoError::MissingHealthAccount);
    }
    match fx_add(s, q) {
        Some(h) => Ok(h),
        None => Err(MangoError::ArithmeticError),
    }
}

} // verus!
