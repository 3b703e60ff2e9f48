//! Liquidation of an account whose maintenance health is negative, and
//! socialization of what remains once its collateral is gone.
use vstd::prelude::*;
use crate::account::MangoAccount;
use crate::error::MangoError;
use crate::fixed_point::{div_bits, fx_add, fx_div, fx_mul, fx_sub, in_i128, mul_bits, one, ONE_BITS};
use crate::health::{account_health, compute_health, native_of, HealthAccounts, HealthType, TokenInfo};
use crate::token_ops::{change_error, change_position, same_but_tokens, tokens_after_change, unchanged};
use crate::health::full_health;

verus! {

/// Slot `i` holds the active position in `token_index`.
pub open spec fn active_in(a: MangoAccount, token_index: u16, i: int) -> bool {
    0 <= i < a.tokens@.len() && a.tokens@[i].active && a.tokens@[i].token_index == token_index
}

/// Native amount (fixed-point bits) of the active position in the bank's
/// token; `None` when there is none or on overflow.
pub open spec fn position_native_of(a: MangoAccount, bank: TokenInfo) -> Option<int> {
    if exists|i: int| active_in(a, bank.token_index, i) {
        let i = choose|i: int| active_in(a, bank.token_index, i);
        let n = native_of(a.tokens@[i].indexed_position as int, bank);
        if in_i128(n) {
            Some(n)
        } else {
            None
        }
    } else {
        None
    }
}

/// The amounts of a token liquidation, from the liqee's liability and asset
/// natives and its maintenance health: the liability moved is the least of
/// the cap, the liability, what the collateral pays for at the oracle prices
/// plus the fee, and what brings maintenance health to zero; the collateral
/// paid is that liability at the price with the fee. `None` on overflow or a
/// zero price.
pub open spec fn liquidation_amounts(
    liab_native: int,
    asset_native: int,
    health: int,
    asset_bank: TokenInfo,
    liab_bank: TokenInfo,
    fee: int,
    max_liab: int,
) -> Option<(int, int)> {
    let one_plus_fee = one() + fee;
    let liab_price_with_fee = mul_bits(liab_bank.oracle_price as int, one_plus_fee);
    let asset_per_liab = div_bits(liab_price_with_fee, asset_bank.oracle_price as int);
    let max_by_asset = div_bits(asset_native, asset_per_liab);
    let liab_gain = mul_bits(liab_bank.oracle_price as int, liab_bank.maint_liab_weight as int);
    let asset_loss = mul_bits(liab_price_with_fee, asset_bank.maint_asset_weight as int);
    let gain = liab_gain - asset_loss;
    let to_zero = if gain > 0 {
        div_bits(-health, gain)
    } else {
        max_liab
    };
    let x = min_int(min_int(max_liab, -liab_native), min_int(max_by_asset, to_zero));
    let x = if x < 0 {
        0
    } else {
        x
    };
    let y = mul_bits(x, asset_per_liab);
    if in_i128(one_plus_fee) && in_i128(liab_price_with_fee) && asset_bank.oracle_price != 0
        && in_i128(asset_per_liab) && asset_per_liab != 0 && in_i128(max_by_asset) && in_i128(
        liab_gain,
    ) && in_i128(asset_loss) && in_i128(gain) && (gain > 0 ==> in_i128(-health) && in_i128(
        div_bits(-health, gain),
    )) && in_i128(-liab_native) && in_i128(y) {
        Some((x, if y < 0 { 0 } else { y }))
    } else {
        None
    }
}

pub open spec fn min_int(a: int, b: int) -> int {
    if a <= b {
        a
    } else {
        b
    }
}

fn position_native(account: &MangoAccount, bank: &TokenInfo) -> (r: Option<i128>)
    requires
        account.wf(),
    ensures
        r matches Some(n) ==> position_native_of(*account, *bank) == Some(n as int),
        r is None ==> position_native_of(*account, *bank) is None,
{
    match account.token_slot(bank.token_index) {
        None => None,
        Some(i) => {
            proof {
                assert(active_in(*account, bank.token_index, i as int));
                let j = choose|j: int| active_in(*account, bank.token_index, j);
                assert(j == i);
            }
            let indexed = account.tokens[i].indexed_position;
            let index = if indexed >= 0 {
                bank.deposit_index
            } else {
                bank.borrow_index
            };
            fx_mul(indexed, index)
        },
    }
}

fn min_i128(a: i128, b: i128) -> (r: i128)
    ensures
        r == if a <= b { a } else { b },
{
    if a <= b {
        a
    } else {
        b
    }
}

/// Health after a liquidation's transfers, and the outcome it decides: the
/// liqee's maintenance health must not fall below `h0`, the liqor's init
/// health must not be negative.
pub open spec fn liq_health_outcome(
    liqee: MangoAccount,
    liqor: MangoAccount,
    t: Seq<crate::account::TokenPosition>,
    u: Seq<crate::account::TokenPosition>,
    lha: HealthAccounts,
    rha: HealthAccounts,
    h0: int,
    x: int,
    y: int,
) -> Result<(int, int), MangoError> {
    match full_health(t, liqee.perps@, liqee.serum3@, lha.tokens@, lha.perps@, lha.open_orders@, HealthType::Maint) {
        Err(e) => Err(e),
        Ok(h1) => if h1 < h0 {
            Err(MangoError::InsolvencyError)
        } else {
            match full_health(u, liqor.perps@, liqor.serum3@, rha.tokens@, rha.perps@, rha.open_orders@, HealthType::Init) {
                Err(e) => Err(e),
                Ok(hl) => if hl < 0 {
                    Err(MangoError::InsolvencyError)
                } else {
                    Ok((x, y))
                },
            }
        },
    }
}

/// The transfers of a liquidation on both accounts, then the health checks.
pub open spec fn liq_transfer_outcome(
    liqee: MangoAccount,
    liqor: MangoAccount,
    asset_bank: TokenInfo,
    liab_bank: TokenInfo,
    lha: HealthAccounts,
    rha: HealthAccounts,
    h0: int,
    x: int,
    y: int,
) -> Result<(int, int), MangoError> {
    match tokens_after_change(liqee.tokens@, liab_bank, x) {
        None => Err(change_error(liqee.tokens@, liab_bank)),
        Some(t1) => match tokens_after_change(t1, asset_bank, -y) {
            None => Err(change_error(t1, asset_bank)),
            Some(t2) => match tokens_after_change(liqor.tokens@, liab_bank, -x) {
                None => Err(change_error(liqor.tokens@, liab_bank)),
                Some(u1) => match tokens_after_change(u1, asset_bank, y) {
                    None => Err(change_error(u1, asset_bank)),
                    Some(u2) => liq_health_outcome(liqee, liqor, t2, u2, lha, rha, h0, x, y),
                },
            },
        },
    }
}

/// The outcome of a token liquidation: the amounts moved, or the error.
pub open spec fn liq_outcome(
    liqee: MangoAccount,
    liqor: MangoAccount,
    asset_bank: TokenInfo,
    liab_bank: TokenInfo,
    fee: int,
    max_liab: int,
    lha: HealthAccounts,
    rha: HealthAccounts,
) -> Result<(int, int), MangoError> {
    if liqee.is_bankrupt || liqor.is_bankrupt {
        Err(MangoError::IsBankrupt)
    } else if max_liab < 0 {
        Err(MangoError::InvalidArgument)
    } else {
        match account_health(liqee, lha, HealthType::Maint) {
            Err(e) => Err(e),
            Ok(h0) => if h0 >= 0 {
                Err(MangoError::StateError)
            } else {
                match (position_native_of(liqee, liab_bank), position_native_of(liqee, asset_bank)) {
                    (Some(ln), Some(an)) => if ln >= 0 || an <= 0 || asset_bank.token_index
                        == liab_bank.token_index {
                        Err(MangoError::StateError)
                    } else {
                        match liquidation_amounts(ln, an, h0, asset_bank, liab_bank, fee, max_liab) {
                            None => Err(MangoError::ArithmeticError),
                            Some((x, y)) => liq_transfer_outcome(
                                liqee,
                                liqor,
                                asset_bank,
                                liab_bank,
                                lha,
                                rha,
                                h0,
                                x,
                                y,
                            ),
                        }
                    },
                    _ => Err(MangoError::StateError),
                }
            },
        }
    }
}

/// Amounts moved by a token liquidation, fixed-point bits.
#[derive(Clone, Copy, Debug, PartialEq, Eq, Structural)]
pub struct LiquidationAmounts {
    /// Liability taken over by the liquidator.
    pub liab_transfer: i128,
    /// Collateral paid to the liquidator, bonus included.
    pub asset_transfer: i128,
}

/// Books the liquidation's transfers on both accounts and runs the health
/// checks; returns the liqee's maintenance health after. On error both
/// accounts are unchanged.
fn transfer_and_check(
    liqee: &mut MangoAccount,
    liqor: &mut MangoAccount,
    asset_bank: &TokenInfo,
    liab_bank: &TokenInfo,
    lha: &HealthAccounts,
    rha: &HealthAccounts,
    h0: i128,
    x: i128,
    y: i128,
) -> (r: Result<i128, MangoError>)
    requires
        old(liqee).wf(),
        old(liqor).wf(),
        x >= 0,
        y >= 0,
    ensures
        r is Ok ==> liq_transfer_outcome(*old(liqee), *old(liqor), *asset_bank, *liab_bank, *lha, *rha, h0 as int, x as int, y as int)
            == Ok::<(int, int), MangoError>((x as int, y as int)),
        r matches Err(e) ==> liq_transfer_outcome(*old(liqee), *old(liqor), *asset_bank, *liab_bank, *lha, *rha, h0 as int, x as int, y as int)
            == Err::<(int, int), MangoError>(e),
        r matches Ok(h1) ==> h1 >= h0 && account_health(*final(liqee), *lha, HealthType::Maint) == Ok::<int, MangoError>(h1 as int),
        r is Ok ==> exists|h: int|
            account_health(*final(liqor), *rha, HealthType::Init) == Ok::<int, MangoError>(h) && h >= 0,
        r matches Ok(_) ==> tokens_after_change(old(liqee).tokens@, *liab_bank, x as int) matches Some(t)
            && tokens_after_change(t, *asset_bank, -y) == Some(final(liqee).tokens@),
        r matches Ok(_) ==> tokens_after_change(old(liqor).tokens@, *liab_bank, -x) matches Some(t)
            && tokens_after_change(t, *asset_bank, y as int) == Some(final(liqor).tokens@),
        same_but_tokens(*final(liqee), *old(liqee)) && same_but_tokens(*final(liqor), *old(liqor)),
        r is Err ==> unchanged(*final(liqee), *old(liqee)) && unchanged(*final(liqor), *old(liqor)),
{
    let saved_liqee = liqee.tokens.clone();
    let saved_liqor = liqor.tokens.clone();
    let ok = match change_position(liqee, liab_bank, x) {
        Err(e) => Err(e),
        Ok(_) => match change_position(liqee, asset_bank, 0 - y) {
            Err(e) => Err(e),
            Ok(_) => {
                proof {
                    assert(liqor.wf());
                }
                match change_position(liqor, liab_bank, 0 - x) {
                    Err(e) => Err(e),
                    Ok(_) => match change_position(liqor, asset_bank, y) {
                        Err(e) => Err(e),
                        Ok(_) => Ok(()),
                    },
                }
            },
        },
    };
    if let Err(e) = ok {
        liqee.tokens = saved_liqee;
        liqor.tokens = saved_liqor;
        return Err(e);
    }
    let h1 = match compute_health(liqee, lha, HealthType::Maint) {
        Ok(h) => h,
        Err(e) => {
            liqee.tokens = saved_liqee;
            liqor.tokens = saved_liqor;
            return Err(e);
        },
    };
    if h1 < h0 {
        liqee.tokens = saved_liqee;
        liqor.tokens = saved_liqor;
        return Err(MangoError::InsolvencyError);
    }
    let hl = match compute_health(liqor, rha, HealthType::Init) {
        Ok(h) => h,
        Err(e) => {
            liqee.tokens = saved_liqee;
            liqor.tokens = saved_liqor;
            return Err(e);
        },
    };
    if hl < 0 {
        liqee.tokens = saved_liqee;
        liqor.tokens = saved_liqor;
        return Err(MangoError::InsolvencyError);
    }
    Ok(h1)
}

/// Liquidates `liqee`, whose maintenance health must be negative: the
/// liquidator `liqor` takes over up to `max_liab_transfer` of its liability in
/// `liab_bank`'s token and is paid in `asset_bank`'s token at oracle prices
/// plus the `liquidation_fee` bonus. The amount is bounded by
/// `max_liab_transfer`, the liability, the collateral, and what restores the
/// liqee's maintenance health to zero. The health account lists are those of
/// each account after the transfer. A liqee left with negative maintenance
/// health and no collateral becomes bankrupt; a bankrupt account takes part
/// in no token liquidation (`IsBankrupt`). Fails with `InsolvencyError` when the
/// liqor's init health would be negative or the liqee's maintenance health
/// would fall; with `StateError` when the liqee is not liquidatable. On error
/// neither account changes.
pub fn liq_token_with_token(
    liqee: &mut MangoAccount,
    liqor: &mut MangoAccount,
    asset_bank: &TokenInfo,
    liab_bank: &TokenInfo,
    liquidation_fee: i128,
    max_liab_transfer: i128,
    liqee_health_accounts: &HealthAccounts,
    liqor_health_accounts: &HealthAccounts,
) -> (r: Result<LiquidationAmounts, MangoError>)
    requires
        old(liqee).wf(),
        old(liqor).wf(),
    ensures
        r matches Ok(a) ==> liq_outcome(
            *old(liqee),
            *old(liqor),
            *asset_bank,
            *liab_bank,
            liquidation_fee as int,
            max_liab_transfer as int,
            *liqee_health_accounts,
            *liqor_health_accounts,
        ) == Ok::<(int, int), MangoError>((a.liab_transfer as int, a.asset_transfer as int)),
        r matches Err(e) ==> liq_outcome(
            *old(liqee),
            *old(liqor),
            *asset_bank,
            *liab_bank,
            liquidation_fee as int,
            max_liab_transfer as int,
            *liqee_health_accounts,
            *liqor_health_accounts,
        ) == Err::<(int, int), MangoError>(e),
        r is Ok ==> exists|h0: int, h1: int|
            account_health(*old(liqee), *liqee_health_accounts, HealthType::Maint) == Ok::<
                int,
                MangoError,
            >(h0) && h0 < 0 && account_health(
                *final(liqee),
                *liqee_health_accounts,
                HealthType::Maint,
            ) == Ok::<int, MangoError>(h1) && h1 >= h0 && final(liqee).is_bankrupt == (h1 < 0
                && collateral_exhausted(*final(liqee))),
        r is Ok ==> exists|h: int|
            account_health(*final(liqor), *liqor_health_accounts, HealthType::Init) == Ok::<
                int,
                MangoError,
            >(h) && h >= 0,
        r matches Ok(a) ==> 0 <= a.liab_transfer <= max_liab_transfer && 0 <= a.asset_transfer,
        r matches Ok(a) ==> tokens_after_change(
            old(liqee).tokens@,
            *liab_bank,
            a.liab_transfer as int,
        ) matches Some(t) && tokens_after_change(t, *asset_bank, -a.asset_transfer) == Some(
            final(liqee).tokens@,
        ),
        r matches Ok(a) ==> tokens_after_change(
            old(liqor).tokens@,
            *liab_bank,
            -a.liab_transfer,
        ) matches Some(t) && tokens_after_change(t, *asset_bank, a.asset_transfer as int) == Some(
            final(liqor).tokens@,
        ),
        r matches Ok(a) ==> exists|h0: int, ln: int, an: int|
            account_health(*old(liqee), *liqee_health_accounts, HealthType::Maint) == Ok::<
                int,
                MangoError,
            >(h0) && position_native_of(*old(liqee), *liab_bank) == Some(ln)
                && position_native_of(*old(liqee), *asset_bank) == Some(an) && ln < 0 && an > 0
                && liquidation_amounts(
                ln,
                an,
                h0,
                *asset_bank,
                *liab_bank,
                liquidation_fee as int,
                max_liab_transfer as int,
            ) == Some((a.liab_transfer as int, a.asset_transfer as int)),
        r is Ok ==> same_but_tokens(
            MangoAccount { is_bankrupt: old(liqee).is_bankrupt, ..*final(liqee) },
            *old(liqee),
        ) && same_but_tokens(*final(liqor), *old(liqor)),
        old(liqee).is_bankrupt || old(liqor).is_bankrupt ==> r == Err::<
            LiquidationAmounts,
            MangoError,
        >(MangoError::IsBankrupt),
        r is Err ==> unchanged(*final(liqee), *old(liqee)) && unchanged(*final(liqor), *old(liqor)),
        max_liab_transfer >= 0 && !old(liqee).is_bankrupt && !old(liqor).is_bankrupt && (
        account_health(*old(liqee), *liqee_health_accounts, HealthType::Maint) matches Ok(h0) && h0
            >= 0) ==> r == Err::<LiquidationAmounts, MangoError>(MangoError::StateError),
        !old(liqee).is_bankrupt && !old(liqor).is_bankrupt && max_liab_transfer < 0 ==> r == Err::<LiquidationAmounts, MangoError>(
            MangoError::InvalidArgument,
        ),
{
    if liqee.is_bankrupt || liqor.is_bankrupt {
        return Err(MangoError::IsBankrupt);
    }
    if max_liab_transfer < 0 {
        return Err(MangoError::InvalidArgument);
    }
    let h0 = match compute_health(liqee, liqee_health_accounts, HealthType::Maint) {
        Ok(h) => h,
        Err(e) => return Err(e),
    };
    if h0 >= 0 {
        return Err(MangoError::StateError);
    }
    let liab_native = match position_native(liqee, liab_bank) {
        Some(n) => n,
        None => return Err(MangoError::StateError),
    };
    let asset_native = match position_native(liqee, asset_bank) {
        Some(n) => n,
        None => return Err(MangoError::StateError),
    };
    if liab_native >= 0 || asset_native <= 0 || asset_bank.token_index == liab_bank.token_index {
        return Err(MangoError::StateError);
    }
    let one_plus_fee = match fx_add(ONE_BITS, liquidation_fee) {
        Some(v) => v,
        None => return Err(MangoError::ArithmeticError),
    };
    // collateral paid per unit of liability
    let liab_price_with_fee = match fx_mul(liab_bank.oracle_price, one_plus_fee) {
        Some(v) => v,
        None => return Err(MangoError::ArithmeticError),
    };
    let asset_per_liab = match fx_div(liab_price_with_fee, asset_bank.oracle_price) {
        Some(v) => v,
        None => return Err(MangoError::ArithmeticError),
    };
    let max_by_asset = match fx_div(asset_native, asset_per_liab) {
        Some(v) => v,
        None => return Err(MangoError::ArithmeticError),
    };
    // maintenance health gained per unit of liability transferred
    let liab_gain = match fx_mul(liab_bank.oracle_price, liab_bank.maint_liab_weight) {
        Some(v) => v,
        None => return Err(MangoError::ArithmeticError),
    };
    let asset_loss = match fx_mul(liab_price_with_fee, asset_bank.maint_asset_weight) {
        Some(v) => v,
        None => return Err(MangoError::ArithmeticError),
    };
    let gain = match fx_sub(liab_gain, asset_loss) {
        Some(v) => v,
        None => return Err(MangoError::ArithmeticError),
    };
    let to_zero = if gain > 0 {
        let deficit = match fx_sub(0, h0) {
            Some(v) => v,
            None => return Err(MangoError::ArithmeticError),
        };
        match fx_div(deficit, gain) {
            Some(v) => v,
            None => return Err(MangoError::ArithmeticError),
        }
    } else {
        max_liab_transfer
    };
    let liab_amount = match fx_sub(0, liab_native) {
        Some(v) => v,
        None => return Err(MangoError::ArithmeticError),
    };
    let x = min_i128(min_i128(max_liab_transfer, liab_amount), min_i128(max_by_asset, to_zero));
    let x = if x < 0 {
        0
    } else {
        x
    };
    let y = match fx_mul(x, asset_per_liab) {
        Some(v) => v,
        None => return Err(MangoError::ArithmeticError),
    };
    let y = if y < 0 {
        0
    } else {
        y
    };
    proof {
        assert(liquidation_amounts(
            liab_native as int,
            asset_native as int,
            h0 as int,
            *asset_bank,
            *liab_bank,
            liquidation_fee as int,
            max_liab_transfer as int,
        ) == Some((x as int, y as int)));
    }
    let h1 = match transfer_and_check(
        liqee,
        liqor,
        asset_bank,
        liab_bank,
        liqee_health_accounts,
        liqor_health_accounts,
        h0,
        x,
        y,
    ) {
        Ok(h) => h,
        Err(e) => return Err(e),
    };
    if h1 < 0 && collateral_is_exhausted(liqee) {
        liqee.is_bankrupt = true;
    }
    Ok(LiquidationAmounts { liab_transfer: x, asset_transfer: y })
}

/// How a bankrupt liability was resolved, fixed-point bits.
#[derive(Clone, Copy, Debug, PartialEq, Eq, Structural)]
pub struct BankruptcyOutcome {
    /// Liability removed from the bankrupt account.
    pub shortfall: i128,
    /// Part of it paid by the insurance fund.
    pub insurance_debit: i128,
    /// Part of it socialized over the bank's depositors.
    pub socialized: i128,
}

/// The account holds no collateral: no active token position is positive and
/// no perp position or open-orders account is active.
pub open spec fn collateral_exhausted(a: MangoAccount) -> bool {
    &&& forall|i: int|
        0 <= i < a.tokens@.len() && (#[trigger] a.tokens@[i]).active ==> a.tokens@[i].indexed_position
            <= 0
    &&& forall|i: int| 0 <= i < a.perps@.len() ==> !(#[trigger] a.perps@[i]).active
    &&& forall|i: int| 0 <= i < a.serum3@.len() ==> !(#[trigger] a.serum3@[i]).active
}

fn collateral_is_exhausted(a: &MangoAccount) -> (r: bool)
    ensures
        r == collateral_exhausted(*a),
{
    let mut i: usize = 0;
    while i < a.tokens.len()
        invariant
            i <= a.tokens@.len(),
            forall|k: int|
                0 <= k < i && (#[trigger] a.tokens@[k]).active ==> a.tokens@[k].indexed_position
                    <= 0,
        decreases a.tokens@.len() - i,
    {
        if a.tokens[i].active && a.tokens[i].indexed_position > 0 {
            return false;
        }
        i = i + 1;
    }
    let mut i: usize = 0;
    while i < a.perps.len()
        invariant
            i <= a.perps@.len(),
            forall|k: int| 0 <= k < i ==> !(#[trigger] a.perps@[k]).active,
        decreases a.perps@.len() - i,
    {
        if a.perps[i].active {
            return false;
        }
        i = i + 1;
    }
    let mut i: usize = 0;
    while i < a.serum3.len()
        invariant
            i <= a.serum3@.len(),
            forall|k: int| 0 <= k < i ==> !(#[trigger] a.serum3@[k]).active,
        decreases a.serum3@.len() - i,
    {
        if a.serum3[i].active {
            return false;
        }
        i = i + 1;
    }
    true
}

/// The deposit-index cut that spreads `socialized` over `deposits` indexed
/// deposits, rounded up so that depositors bear at least the whole amount.
pub open spec fn haircut_of(socialized: int, deposits: int) -> Option<int> {
    let q = div_bits(socialized, deposits);
    let m = mul_bits(q, deposits);
    if in_i128(q) && in_i128(m) && in_i128(q + 1) {
        Some(if m >= socialized { q } else { q + 1 })
    } else {
        None
    }
}

/// Some active token position is negative.
pub open spec fn has_liability(tokens: Seq<crate::account::TokenPosition>) -> bool {
    exists|i: int| 0 <= i < tokens.len() && tokens[i].active && tokens[i].indexed_position < 0
}

fn any_liability(tokens: &Vec<crate::account::TokenPosition>) -> (r: bool)
    ensures
        r == has_liability(tokens@),
{
    let mut i: usize = 0;
    while i < tokens.len()
        invariant
            i <= tokens@.len(),
            forall|k: int| 0 <= k < i ==> !(tokens@[k].active && tokens@[k].indexed_position < 0),
        decreases tokens@.len() - i,
    {
        if tokens[i].active && tokens[i].indexed_position < 0 {
            return true;
        }
        i = i + 1;
    }
    false
}

fn haircut(socialized: i128, deposits: i128) -> (r: Option<i128>)
    requires
        socialized > 0,
        deposits > 0,
    ensures
        r matches Some(h) ==> haircut_of(socialized as int, deposits as int) == Some(h as int)
            && h as int * deposits >= socialized as int * one() && (h as int - 1) * deposits
            < socialized as int * one(),
        r is None ==> haircut_of(socialized as int, deposits as int) is None,
{
    let q = match fx_div(socialized, deposits) {
        Some(q) => q,
        None => return None,
    };
    let m = match fx_mul(q, deposits) {
        Some(m) => m,
        None => return None,
    };
    if q == i128::MAX {
        return None;
    }
    let ghost n = socialized as int * one();
    let ghost d = deposits as int;
    proof {
        assert(n >= 0) by (nonlinear_arith)
            requires n == socialized as int * one(), socialized > 0;
        assert(q as int == n / d);
        vstd::arithmetic::div_mod::lemma_fundamental_div_mod(n, d);
        vstd::arithmetic::div_mod::lemma_mod_pos_bound(n, d);
        assert(q * d <= n && n < (q + 1) * d) by (nonlinear_arith)
            requires n == d * (n / d) + n % d, 0 <= n % d < d, q as int == n / d;
        let x = q as int * d;
        vstd::arithmetic::div_mod::lemma_fundamental_div_mod(x, one());
        vstd::arithmetic::div_mod::lemma_mod_pos_bound(x, one());
        if m >= socialized {
            assert(x >= socialized as int * one()) by (nonlinear_arith)
                requires x == one() * (x / one()) + x % one(), x % one() >= 0, m as int == x / one(),
                    m >= socialized;
            assert((q as int - 1) * d < n) by (nonlinear_arith)
                requires q * d <= n, d > 0;
            assert(q as int * deposits >= socialized as int * one());
        } else {
            assert(x < socialized as int * one()) by (nonlinear_arith)
                requires x == one() * (x / one()) + x % one(), x % one() < one(), m as int == x / one(),
                    m < socialized;
            assert((q as int + 1) * d >= n) by (nonlinear_arith)
                requires n < (q + 1) * d;
            assert(((q + 1) as int - 1) * d < n);
        }
    }
    if m >= socialized {
        Some(q)
    } else {
        Some(q + 1)
    }
}

/// The outcome of resolving a bankrupt liability: (shortfall, insurance
/// debit, socialized part, new deposit index), or the error.
pub open spec fn bankruptcy_outcome(
    liqee: MangoAccount,
    bank: TokenInfo,
    deposits: int,
    fund: int,
    max_liab: int,
) -> Result<(int, int, int, int), MangoError> {
    if max_liab <= 0 || deposits <= 0 || fund < 0 {
        Err(MangoError::InvalidArgument)
    } else if !collateral_exhausted(liqee) {
        Err(MangoError::StateError)
    } else {
        match position_native_of(liqee, bank) {
            None => Err(MangoError::StateError),
            Some(ln) => if ln >= 0 {
                Err(MangoError::StateError)
            } else if !in_i128(-ln) {
                Err(MangoError::ArithmeticError)
            } else {
                let shortfall = min_int(max_liab, -ln);
                let debit = min_int(shortfall, if fund <= 0 { 0 } else { fund });
                let socialized = shortfall - debit;
                let index = if socialized == 0 {
                    Some(bank.deposit_index as int)
                } else {
                    match haircut_of(socialized, deposits) {
                        None => None,
                        Some(h) => if in_i128(bank.deposit_index - h) {
                            Some(bank.deposit_index - h)
                        } else {
                            None
                        },
                    }
                };
                match index {
                    None => Err(MangoError::ArithmeticError),
                    Some(ni) => match tokens_after_change(liqee.tokens@, bank, shortfall) {
                        None => Err(change_error(liqee.tokens@, bank)),
                        Some(_) => Ok((shortfall, debit, socialized, ni)),
                    },
                }
            },
        }
    }
}

/// Resolves up to `max_liab_transfer` of the liability in `bank`'s token of
/// an account whose collateral is exhausted. The insurance fund pays what it
/// can; the rest is socialized by one downward adjustment of the bank's
/// deposit index over `indexed_deposits`, rounded up so that depositors bear
/// at least the socialized amount. A non-positive `indexed_deposits` or a
/// negative fund balance is refused with `InvalidArgument`. The account
/// stays bankrupt while any token liability remains. On error nothing
/// changes.
pub fn liq_token_bankruptcy(
    liqee: &mut MangoAccount,
    bank: &mut TokenInfo,
    indexed_deposits: i128,
    insurance_fund: &mut i128,
    max_liab_transfer: i128,
) -> (r: Result<BankruptcyOutcome, MangoError>)
    requires
        old(liqee).wf(),
    ensures
        r matches Ok(o) ==> bankruptcy_outcome(
            *old(liqee),
            *old(bank),
            indexed_deposits as int,
            *old(insurance_fund) as int,
            max_liab_transfer as int,
        ) == Ok::<(int, int, int, int), MangoError>(
            (o.shortfall as int, o.insurance_debit as int, o.socialized as int, final(bank).deposit_index as int),
        ),
        r matches Err(e) ==> bankruptcy_outcome(
            *old(liqee),
            *old(bank),
            indexed_deposits as int,
            *old(insurance_fund) as int,
            max_liab_transfer as int,
        ) == Err::<(int, int, int, int), MangoError>(e),
        r matches Ok(o) ==> o.insurance_debit + o.socialized == o.shortfall,
        r matches Ok(o) ==> *old(insurance_fund) - *final(insurance_fund) == o.insurance_debit,
        r matches Ok(o) ==> 0 <= o.insurance_debit && 0 <= o.socialized && 0 < o.shortfall
            <= max_liab_transfer,
        r matches Ok(o) ==> o.socialized == 0 ==> final(bank).deposit_index == old(bank).deposit_index,
        r matches Ok(o) ==> o.socialized > 0 ==> (old(bank).deposit_index - final(bank).deposit_index)
            * indexed_deposits >= o.socialized * one() && (old(bank).deposit_index
            - final(bank).deposit_index - 1) * indexed_deposits < o.socialized * one(),
        r is Ok ==> *final(bank) == (TokenInfo { deposit_index: final(bank).deposit_index, ..*old(bank) }),
        r matches Ok(o) ==> tokens_after_change(old(liqee).tokens@, *old(bank), o.shortfall as int)
            == Some(final(liqee).tokens@) && final(liqee).is_bankrupt == has_liability(
            final(liqee).tokens@,
        ),
        r is Ok ==> same_but_tokens(
            MangoAccount { is_bankrupt: old(liqee).is_bankrupt, ..*final(liqee) },
            *old(liqee),
        ),
        r is Err ==> unchanged(*final(liqee), *old(liqee)) && *final(bank) == *old(bank)
            && *final(insurance_fund) == *old(insurance_fund),
{
    if max_liab_transfer <= 0 || indexed_deposits <= 0 || *insurance_fund < 0 {
        return Err(MangoError::InvalidArgument);
    }
    if !collateral_is_exhausted(liqee) {
        return Err(MangoError::StateError);
    }
    let liab_native = match position_native(liqee, bank) {
        Some(n) => n,
        None => return Err(MangoError::StateError),
    };
    if liab_native >= 0 {
        return Err(MangoError::StateError);
    }
    let liab_amount = match fx_sub(0, liab_native) {
        Some(v) => v,
        None => return Err(MangoError::ArithmeticError),
    };
    let shortfall = min_i128(max_liab_transfer, liab_amount);
    let available = if *insurance_fund <= 0 {
        0
    } else {
        *insurance_fund
    };
    let insurance_debit = min_i128(shortfall, available);
    let socialized = shortfall - insurance_debit;
    let new_index = if socialized == 0 {
        bank.deposit_index
    } else {
        let per_deposit = match haircut(socialized, indexed_deposits) {
            Some(v) => v,
            None => return Err(MangoError::ArithmeticError),
        };
        match fx_sub(bank.deposit_index, per_deposit) {
            Some(v) => v,
            None => return Err(MangoError::ArithmeticError),
        }
    };
    let saved = liqee.tokens.clone();
    let old_bank = *bank;
    match change_position(liqee, &old_bank, shortfall) {
        Ok(_) => {},
        Err(e) => {
            liqee.tokens = saved;
            return Err(e);
        },
    }
    liqee.is_bankrupt = any_liability(&liqee.tokens);
    bank.deposit_index = new_index;
    *insurance_fund = *insurance_fund - insurance_debit;
    Ok(BankruptcyOutcome { shortfall, insurance_debit, socialized })
}

} // verus!
