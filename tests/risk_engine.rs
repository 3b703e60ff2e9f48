use mango_risk::account::{MangoAccount, PerpOpenOrder, PerpPosition, Serum3Orders, Side, TokenPosition};
use mango_risk::book::{cancel_order, perp_cancel_order, Book, Order, PerpCancelOrder, PerpMarket};
use mango_risk::error::MangoError;
use mango_risk::flash_loan::{flash_loan_begin, flash_loan_end};
use mango_risk::health::{compute_health, HealthAccounts, HealthType, OpenOrdersInfo, PerpInfo, TokenInfo};
use mango_risk::liquidation::{liq_token_bankruptcy, liq_token_with_token};
use mango_risk::oracle::Pubkey;
use mango_risk::token_ops::{token_deposit, token_withdraw};

const ONE: i128 = 1 << 48;

fn key(n: u128) -> Pubkey {
    Pubkey { lo: n, hi: 0 }
}

fn info(token_index: u16, asset_w: i128, liab_w: i128) -> TokenInfo {
    TokenInfo {
        token_index,
        deposit_index: ONE,
        borrow_index: ONE,
        oracle_price: ONE,
        init_asset_weight: asset_w,
        init_liab_weight: liab_w,
        maint_asset_weight: asset_w,
        maint_liab_weight: liab_w,
    }
}

fn account_with(tokens: &[(u16, i128)]) -> MangoAccount {
    let mut a = MangoAccount::new(key(1), key(2), 0, 8, 4, 4, 4);
    for (i, (t, v)) in tokens.iter().enumerate() {
        a.tokens[i] = TokenPosition { indexed_position: *v, token_index: *t, active: true };
    }
    a
}

fn accounts(tokens: Vec<TokenInfo>) -> HealthAccounts {
    HealthAccounts { tokens, perps: vec![], open_orders: vec![] }
}

fn weight_09() -> i128 {
    9 * ONE / 10
}

#[test]
fn init_health_of_collateral_only_account() {
    let a = account_with(&[(0, 100 * ONE)]);
    let h = compute_health(&a, &accounts(vec![info(0, weight_09(), ONE)]), HealthType::Init).unwrap();
    assert_eq!(h, 100 * weight_09());
    assert!((h as f64 / ONE as f64 - 90.0).abs() < 1e-9);
}

#[test]
fn borrow_beyond_init_health_is_refused() {
    let mut a = account_with(&[(0, 100 * ONE)]);
    let before = a.clone();
    let ha = accounts(vec![info(0, weight_09(), ONE), info(1, ONE, ONE)]);
    let r = token_withdraw(&mut a, &info(1, ONE, ONE), 95, &ha);
    assert_eq!(r, Err(MangoError::InsolvencyError));
    assert_eq!(a.tokens, before.tokens);
}

#[test]
fn borrow_within_init_health_leaves_ten() {
    let mut a = account_with(&[(0, 100 * ONE)]);
    let ha = accounts(vec![info(0, weight_09(), ONE), info(1, ONE, ONE)]);
    let h = token_withdraw(&mut a, &info(1, ONE, ONE), 80, &ha).unwrap();
    assert_eq!(h, 100 * weight_09() - 80 * ONE);
    assert!((h as f64 / ONE as f64 - 10.0).abs() < 1e-9);
    assert_eq!(a.tokens[1], TokenPosition { indexed_position: -80 * ONE, token_index: 1, active: true });
    assert_eq!(compute_health(&a, &ha, HealthType::Init), Ok(h));
}

#[test]
fn missing_health_account_fails_closed() {
    let a = account_with(&[(0, 100 * ONE), (1, -10 * ONE)]);
    let r = compute_health(&a, &accounts(vec![info(0, weight_09(), ONE)]), HealthType::Init);
    assert_eq!(r, Err(MangoError::MissingHealthAccount));
    let r = compute_health(&a, &accounts(vec![info(1, ONE, ONE), info(0, ONE, ONE)]), HealthType::Init);
    assert_eq!(r, Err(MangoError::MissingHealthAccount));
    let extra = accounts(vec![info(0, ONE, ONE), info(1, ONE, ONE), info(2, ONE, ONE)]);
    assert_eq!(compute_health(&a, &extra, HealthType::Init), Err(MangoError::MissingHealthAccount));
}

#[test]
fn health_overflow_is_an_error() {
    let a = account_with(&[(0, i128::MAX)]);
    let mut big = info(0, ONE, ONE);
    big.oracle_price = 1 << 100;
    assert_eq!(compute_health(&a, &accounts(vec![big]), HealthType::Init), Err(MangoError::ArithmeticError));
}

#[test]
fn perp_position_marks_base_and_adds_quote() {
    let mut a = MangoAccount::new(key(1), key(2), 0, 4, 4, 4, 4);
    a.perps[0] = PerpPosition {
        market_index: 3,
        base_position_lots: 2,
        quote_position_native: -5 * ONE,
        bids_base_lots: 0,
        asks_base_lots: 0,
        active: true,
    };
    let perp = PerpInfo {
        market_index: 3,
        base_lot_size: 10,
        oracle_price: 2 * ONE,
        init_asset_weight: ONE / 2,
        init_liab_weight: 2 * ONE,
        maint_asset_weight: ONE,
        maint_liab_weight: ONE,
    };
    let ha = HealthAccounts { tokens: vec![], perps: vec![perp], open_orders: vec![] };
    // 2 lots * 10 * price 2 = 40, weighted 0.5 = 20, minus 5
    assert_eq!(compute_health(&a, &ha, HealthType::Init), Ok(15 * ONE));
    assert_eq!(compute_health(&a, &ha, HealthType::Maint), Ok(35 * ONE));
}

#[test]
fn deposit_divides_by_deposit_index() {
    let mut a = account_with(&[]);
    let mut bank = info(4, ONE, ONE);
    bank.deposit_index = 2 * ONE;
    token_deposit(&mut a, &bank, 10).unwrap();
    assert_eq!(a.tokens[0], TokenPosition { indexed_position: 5 * ONE, token_index: 4, active: true });
    token_deposit(&mut a, &bank, 4).unwrap();
    assert_eq!(a.tokens[0].indexed_position, 7 * ONE);
}

#[test]
fn bankrupt_account_cannot_withdraw() {
    let mut a = account_with(&[(0, 100 * ONE)]);
    a.is_bankrupt = true;
    let ha = accounts(vec![info(0, ONE, ONE)]);
    assert_eq!(token_withdraw(&mut a, &info(0, ONE, ONE), 1, &ha), Err(MangoError::IsBankrupt));
}

fn book_setup() -> (MangoAccount, Book) {
    let mut a = MangoAccount::new(key(1), key(2), 0, 4, 4, 4, 4);
    a.perps[0] = PerpPosition {
        market_index: 0,
        base_position_lots: 0,
        quote_position_native: 0,
        bids_base_lots: 10,
        asks_base_lots: 0,
        active: true,
    };
    a.perp_open_orders[0] = PerpOpenOrder { market_index: 0, side: Side::Bid, order_id: 7, active: true };
    let order = Order {
        order_id: 7,
        owner: key(9),
        owner_slot: 0,
        side: Side::Bid,
        price_lots: 100,
        quantity: 10,
        seq_num: 1,
    };
    let other = Order { order_id: 8, owner: key(5), owner_slot: 0, side: Side::Bid, price_lots: 99, quantity: 3, seq_num: 2 };
    (a, Book { bids: vec![order, other], asks: vec![] })
}

fn cancel_ctx() -> PerpCancelOrder {
    let (account, book) = book_setup();
    PerpCancelOrder {
        group: key(2),
        account,
        account_key: key(9),
        perp_market: PerpMarket { group: key(2), perp_market_index: 0 },
        book,
        owner: key(1),
    }
}

#[test]
fn cancelling_twice_fails_the_second_time() {
    let mut ctx = cancel_ctx();
    assert_eq!(perp_cancel_order(&mut ctx, 7), Ok(()));
    assert_eq!(ctx.book.bids.len(), 1);
    assert_eq!(ctx.book.bids[0].order_id, 8);
    assert!(!ctx.account.perp_open_orders[0].active);
    assert_eq!(ctx.account.perps[0].bids_base_lots, 0);
    assert_eq!(perp_cancel_order(&mut ctx, 7), Err(MangoError::InvalidOrderId));
    assert_eq!(ctx.account.perps[0].bids_base_lots, 0);
    assert_eq!(ctx.book.bids.len(), 1);
}

#[test]
fn cancel_order_returns_the_removed_order() {
    let (mut a, mut book) = book_setup();
    let o = cancel_order(&mut a, key(9), 0, &mut book, 7).unwrap();
    assert_eq!(o.order_id, 7);
    assert_eq!(o.quantity, 10);
    assert_eq!(cancel_order(&mut a, key(9), 0, &mut book, 7), Err(MangoError::InvalidOrderId));
}

#[test]
fn cancel_by_non_owner_signer_is_refused() {
    let mut ctx = cancel_ctx();
    ctx.owner = key(3);
    assert_eq!(perp_cancel_order(&mut ctx, 7), Err(MangoError::ConstraintHasOne));
    assert_eq!(ctx.book.bids.len(), 2);
    let mut ctx = cancel_ctx();
    ctx.perp_market.group = key(4);
    assert_eq!(perp_cancel_order(&mut ctx, 7), Err(MangoError::ConstraintHasOne));
}

#[test]
fn cancelling_another_owners_order_is_refused() {
    let (mut a, mut book) = book_setup();
    let r = cancel_order(&mut a, key(10), 0, &mut book, 7);
    assert_eq!(r, Err(MangoError::InvalidOwner));
    assert_eq!(book.bids.len(), 2);
    assert!(a.perp_open_orders[0].active);
}

#[test]
fn cancelling_untracked_order_is_refused() {
    let (mut a, mut book) = book_setup();
    assert_eq!(cancel_order(&mut a, key(5), 0, &mut book, 8), Err(MangoError::InvalidOrderId));
}

#[test]
fn bankrupt_account_cannot_cancel() {
    let (mut a, mut book) = book_setup();
    a.is_bankrupt = true;
    assert_eq!(cancel_order(&mut a, key(9), 0, &mut book, 7), Err(MangoError::IsBankrupt));
    assert_eq!(book.bids.len(), 2);
}

#[test]
fn liquidation_moves_liability_and_improves_liqee_health() {
    let half = ONE / 2;
    let mut liqee = account_with(&[(0, 100 * ONE), (1, -120 * ONE)]);
    let mut liqor = account_with(&[(0, 1000 * ONE)]);
    let infos = vec![info(0, half, ONE), info(1, half, ONE)];
    let liqee_ha = accounts(infos.clone());
    let liqor_ha = accounts(infos.clone());
    let h0 = compute_health(&liqee, &liqee_ha, HealthType::Maint).unwrap();
    assert_eq!(h0, -70 * ONE);
    let amounts = liq_token_with_token(
        &mut liqee, &mut liqor, &infos[0], &infos[1], 0, 1000 * ONE, &liqee_ha, &liqor_ha,
    )
    .unwrap();
    assert_eq!(amounts.liab_transfer, 100 * ONE);
    assert_eq!(amounts.asset_transfer, 100 * ONE);
    assert_eq!(liqee.tokens[0].indexed_position, 0);
    assert_eq!(liqee.tokens[1].indexed_position, -20 * ONE);
    assert_eq!(liqor.tokens[0].indexed_position, 1100 * ONE);
    assert_eq!(liqor.tokens[1].indexed_position, -100 * ONE);
    let h1 = compute_health(&liqee, &liqee_ha, HealthType::Maint).unwrap();
    assert!(h1 >= h0);
    assert_eq!(compute_health(&liqor, &liqor_ha, HealthType::Init), Ok(450 * ONE));
}

#[test]
fn healthy_account_cannot_be_liquidated() {
    let mut liqee = account_with(&[(0, 100 * ONE), (1, -10 * ONE)]);
    let mut liqor = account_with(&[(0, 1000 * ONE)]);
    let infos = vec![info(0, ONE, ONE), info(1, ONE, ONE)];
    let r = liq_token_with_token(
        &mut liqee, &mut liqor, &infos[0], &infos[1], 0, ONE, &accounts(infos.clone()), &accounts(infos.clone()),
    );
    assert_eq!(r, Err(MangoError::StateError));
}

#[test]
fn liquidator_cannot_liquidate_itself_into_insolvency() {
    let half = ONE / 2;
    let mut liqee = account_with(&[(0, 100 * ONE), (1, -120 * ONE)]);
    let mut liqor = account_with(&[(2, 10 * ONE)]);
    let infos = vec![info(0, half, ONE), info(1, half, ONE)];
    let liqor_ha = accounts(vec![info(2, ONE, ONE), info(1, half, 4 * ONE), info(0, 0, ONE)]);
    let before_liqee = liqee.clone();
    let before_liqor = liqor.clone();
    let r = liq_token_with_token(
        &mut liqee, &mut liqor, &infos[0], &infos[1], 0, 1000 * ONE, &accounts(infos.clone()), &liqor_ha,
    );
    assert_eq!(r, Err(MangoError::InsolvencyError));
    assert_eq!(liqee.tokens, before_liqee.tokens);
    assert_eq!(liqor.tokens, before_liqor.tokens);
}

#[test]
fn bankruptcy_splits_shortfall_between_insurance_and_depositors() {
    let mut liqee = account_with(&[(1, -50 * ONE)]);
    let mut bank = info(1, ONE, ONE);
    let mut fund = 30 * ONE;
    let o = liq_token_bankruptcy(&mut liqee, &mut bank, 1000 * ONE, &mut fund, 100 * ONE).unwrap();
    assert_eq!(o.shortfall, 50 * ONE);
    assert_eq!(o.insurance_debit, 30 * ONE);
    assert_eq!(o.socialized, 20 * ONE);
    assert_eq!(o.insurance_debit + o.socialized, o.shortfall);
    assert_eq!(fund, 0);
    // the cut per indexed deposit is rounded up: depositors bear at least the 20
    let cut = ONE / 50 + 1;
    assert_eq!(bank.deposit_index, ONE - cut);
    assert!(cut * 1000 >= 20 * ONE);
    assert_eq!(liqee.tokens[0].indexed_position, 0);
    assert!(!liqee.is_bankrupt);
}

#[test]
fn bankruptcy_covered_by_insurance_leaves_index() {
    let mut liqee = account_with(&[(1, -50 * ONE)]);
    let mut bank = info(1, ONE, ONE);
    let mut fund = 80 * ONE;
    let o = liq_token_bankruptcy(&mut liqee, &mut bank, 1000 * ONE, &mut fund, 20 * ONE).unwrap();
    assert_eq!(o.shortfall, 20 * ONE);
    assert_eq!(o.socialized, 0);
    assert_eq!(fund, 60 * ONE);
    assert_eq!(bank.deposit_index, ONE);
    assert!(liqee.is_bankrupt);
}

#[test]
fn bankruptcy_needs_exhausted_collateral() {
    let mut liqee = account_with(&[(0, 5 * ONE), (1, -50 * ONE)]);
    let mut bank = info(1, ONE, ONE);
    let mut fund = 30 * ONE;
    let r = liq_token_bankruptcy(&mut liqee, &mut bank, 1000 * ONE, &mut fund, 100 * ONE);
    assert_eq!(r, Err(MangoError::StateError));
    assert_eq!(fund, 30 * ONE);
}

#[test]
fn flash_loan_not_repaid_rejects_the_bracket() {
    let mut a = account_with(&[(0, 100 * ONE)]);
    let before = a.clone();
    let bank = info(0, ONE / 2, ONE);
    let (record, after) = flash_loan_begin(&vec![1000], &vec![500]).unwrap();
    assert_eq!(after, vec![500]);
    let r = flash_loan_end(&mut a, &record, &vec![500], &vec![bank], 0, &accounts(vec![bank]));
    assert_eq!(r, Err(MangoError::InsolvencyError));
    assert_eq!(a.tokens, before.tokens);
}

#[test]
fn flash_loan_repaid_passes() {
    let mut a = account_with(&[(0, 100 * ONE)]);
    let bank = info(0, ONE / 2, ONE);
    let (record, _) = flash_loan_begin(&vec![1000], &vec![500]).unwrap();
    let h = flash_loan_end(&mut a, &record, &vec![1000], &vec![bank], 0, &accounts(vec![bank])).unwrap();
    assert_eq!(h, 50 * ONE);
    let h = flash_loan_end(&mut a, &record, &vec![990], &vec![bank], 0, &accounts(vec![bank])).unwrap();
    assert_eq!(h, 45 * ONE);
    assert_eq!(a.tokens[0].indexed_position, 90 * ONE);
}

#[test]
fn flash_loan_begin_refuses_uncovered_loan() {
    assert!(flash_loan_begin(&vec![10], &vec![11]).is_err());
    assert!(flash_loan_begin(&vec![10, 5], &vec![1]).is_err());
}

#[test]
fn open_orders_valued_at_the_smaller_asset_weight() {
    let mut a = account_with(&[]);
    a.serum3[2] = Serum3Orders { market_index: 6, base_token_index: 1, quote_token_index: 0, active: true };
    let oo = OpenOrdersInfo {
        market_index: 6,
        base_total: 3,
        quote_total: 10,
        base_price: 4 * ONE,
        quote_price: ONE,
        base_init_asset_weight: ONE / 2,
        base_maint_asset_weight: ONE,
        quote_init_asset_weight: ONE,
        quote_maint_asset_weight: ONE,
    };
    let ha = HealthAccounts { tokens: vec![], perps: vec![], open_orders: vec![oo] };
    // 3 * 4 + 10 = 22, at the smaller weight 0.5
    assert_eq!(compute_health(&a, &ha, HealthType::Init), Ok(11 * ONE));
    assert_eq!(compute_health(&a, &ha, HealthType::Maint), Ok(22 * ONE));
    let none = HealthAccounts { tokens: vec![], perps: vec![], open_orders: vec![] };
    assert_eq!(compute_health(&a, &none, HealthType::Init), Err(MangoError::MissingHealthAccount));
}

#[test]
fn liquidation_that_exhausts_collateral_marks_bankrupt() {
    let half = ONE / 2;
    let mut liqee = account_with(&[(0, 10 * ONE), (1, -120 * ONE)]);
    let mut liqor = account_with(&[(0, 1000 * ONE)]);
    let infos = vec![info(0, half, ONE), info(1, half, ONE)];
    let ha = accounts(infos.clone());
    let amounts = liq_token_with_token(
        &mut liqee, &mut liqor, &infos[0], &infos[1], 0, 1000 * ONE, &ha, &ha,
    )
    .unwrap();
    assert_eq!(amounts.liab_transfer, 10 * ONE);
    assert_eq!(liqee.tokens[0].indexed_position, 0);
    assert!(liqee.is_bankrupt);
    let again = liq_token_with_token(
        &mut liqee, &mut liqor, &infos[0], &infos[1], 0, 1000 * ONE, &ha, &ha,
    );
    assert_eq!(again, Err(MangoError::IsBankrupt));
    let mut bank = infos[1];
    let mut fund = 200 * ONE;
    let o = liq_token_bankruptcy(&mut liqee, &mut bank, 1000 * ONE, &mut fund, 1000 * ONE).unwrap();
    assert_eq!(o.shortfall, 110 * ONE);
    assert_eq!(o.insurance_debit, 110 * ONE);
    assert!(!liqee.is_bankrupt);
}

#[test]
fn bankruptcy_needs_positive_indexed_deposits() {
    let mut liqee = account_with(&[(1, -50 * ONE)]);
    let mut bank = info(1, ONE, ONE);
    let mut fund = 30 * ONE;
    let r = liq_token_bankruptcy(&mut liqee, &mut bank, 0, &mut fund, 100 * ONE);
    assert_eq!(r, Err(MangoError::InvalidArgument));
}

#[test]
fn bankruptcy_keeps_flag_while_another_liability_remains() {
    let mut liqee = account_with(&[(1, -50 * ONE), (2, -5 * ONE)]);
    liqee.is_bankrupt = true;
    let mut bank = info(1, ONE, ONE);
    let mut fund = 100 * ONE;
    liq_token_bankruptcy(&mut liqee, &mut bank, 1000 * ONE, &mut fund, 100 * ONE).unwrap();
    assert_eq!(liqee.tokens[0].indexed_position, 0);
    assert!(liqee.is_bankrupt);
}

#[test]
fn flash_loan_bracket_borrowing_80_leaves_ten() {
    let mut a = account_with(&[(0, 100 * ONE)]);
    let collateral = info(0, weight_09(), ONE);
    let borrowed = info(1, ONE, ONE);
    let (record, _) = flash_loan_begin(&vec![500, 500], &vec![0, 80]).unwrap();
    let ha = accounts(vec![collateral, borrowed]);
    let h = flash_loan_end(&mut a, &record, &vec![500, 420], &vec![collateral, borrowed], 0, &ha).unwrap();
    assert_eq!(h, 100 * weight_09() - 80 * ONE);
}

#[test]
fn flash_loan_bracket_borrowing_95_is_rejected() {
    let mut a = account_with(&[(0, 100 * ONE)]);
    let before = a.clone();
    let collateral = info(0, weight_09(), ONE);
    let borrowed = info(1, ONE, ONE);
    let (record, _) = flash_loan_begin(&vec![500, 500], &vec![0, 95]).unwrap();
    let ha = accounts(vec![collateral, borrowed]);
    let r = flash_loan_end(&mut a, &record, &vec![500, 405], &vec![collateral, borrowed], 0, &ha);
    assert_eq!(r, Err(MangoError::InsolvencyError));
    assert_eq!(a.tokens, before.tokens);
}

#[test]
fn flash_loan_fee_is_booked_on_the_outflow() {
    let mut a = account_with(&[(0, 100 * ONE)]);
    let collateral = info(0, ONE, ONE);
    let borrowed = info(1, ONE, ONE);
    let (record, _) = flash_loan_begin(&vec![500, 500], &vec![0, 40]).unwrap();
    let ha = accounts(vec![collateral, borrowed]);
    // 40 taken, fee rate 0.5 (exact in fixed point): 60 owed
    let h = flash_loan_end(&mut a, &record, &vec![500, 460], &vec![collateral, borrowed], ONE / 2, &ha).unwrap();
    assert_eq!(a.tokens[1].indexed_position, -60 * ONE);
    assert_eq!(h, 40 * ONE);
}

#[test]
fn bankruptcy_refuses_negative_insurance_fund() {
    let mut liqee = account_with(&[(1, -50 * ONE)]);
    let mut bank = info(1, ONE, ONE);
    let mut fund = -1;
    let r = liq_token_bankruptcy(&mut liqee, &mut bank, 1000 * ONE, &mut fund, 100 * ONE);
    assert_eq!(r, Err(MangoError::InvalidArgument));
}
