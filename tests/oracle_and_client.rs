use mango_risk::account::{MangoAccount, PerpPosition, Serum3Orders, TokenPosition};
use mango_risk::client_logic::{
    active_perp_markets, first_usable_route, liquidation_health_accounts, liquidation_health_tokens,
    next_account_num, open_order_ids, serum_fee_tier, HealthAccountRef,
};
use mango_risk::error::MangoError;
use mango_risk::health::TokenInfo;
use mango_risk::oracle::{determine_oracle_type, oracle_price, oracle_price_fresh, OracleType, Pubkey, StubOracle};

const ONE: i128 = 1 << 48;

fn stub_bytes(price: i128) -> Vec<u8> {
    let mut d = vec![224u8, 251, 254, 99, 177, 174, 137, 4];
    d.extend_from_slice(&[7u8; 32]);
    d.extend_from_slice(&price.to_le_bytes());
    d.extend_from_slice(&1234i64.to_le_bytes());
    d.extend_from_slice(&[0u8; 8]);
    d
}

fn pyth_bytes(price: i64) -> Vec<u8> {
    let mut d = vec![0u8; 3312];
    d[0..4].copy_from_slice(&0xa1b2c3d4u32.to_le_bytes());
    d[4..8].copy_from_slice(&2u32.to_le_bytes());
    d[8..12].copy_from_slice(&3u32.to_le_bytes());
    d[208..216].copy_from_slice(&price.to_le_bytes());
    d
}

#[test]
fn stub_oracle_is_identified_and_decoded() {
    let d = stub_bytes(3 * ONE / 2);
    assert!(determine_oracle_type(&d) == Ok(OracleType::Stub));
    assert_eq!(oracle_price(&d), Ok(3 * ONE / 2));
    let s = StubOracle::decode(&d).unwrap();
    assert_eq!(s.last_updated, 1234);
    assert_eq!(s.group, Pubkey { lo: u128::from_le_bytes([7; 16]), hi: u128::from_le_bytes([7; 16]) });
}

#[test]
fn pyth_oracle_is_identified_and_decoded() {
    let d = pyth_bytes(32112500000);
    assert!(determine_oracle_type(&d) == Ok(OracleType::Pyth));
    assert_eq!(oracle_price(&d), Ok(32112500000i128 * ONE));
}

#[test]
fn pyth_with_wrong_version_is_a_decode_error() {
    let mut d = pyth_bytes(5);
    d[4] = 1;
    assert_eq!(determine_oracle_type(&d), Ok(OracleType::Pyth));
    assert_eq!(oracle_price(&d), Err(MangoError::DecodeError));
    assert_eq!(oracle_price(&d[0..100]), Err(MangoError::DecodeError));
}

#[test]
fn truncated_stub_is_a_decode_error() {
    let d = stub_bytes(ONE);
    assert_eq!(oracle_price(&d[0..60]), Err(MangoError::DecodeError));
}

#[test]
fn unknown_or_short_bytes_are_unknown_oracle_type() {
    assert_eq!(determine_oracle_type(&[]), Err(MangoError::UnknownOracleType));
    assert_eq!(determine_oracle_type(&[0xd4, 0xc3]), Err(MangoError::UnknownOracleType));
    assert_eq!(determine_oracle_type(&[1u8; 64]), Err(MangoError::UnknownOracleType));
    assert_eq!(oracle_price(&[9u8; 100]), Err(MangoError::UnknownOracleType));
}

#[test]
fn identification_is_deterministic() {
    let d = pyth_bytes(1);
    let copy = d.clone();
    assert_eq!(determine_oracle_type(&d), determine_oracle_type(&copy));
    assert_eq!(determine_oracle_type(&[3u8; 8]), determine_oracle_type(&[3u8; 8]));
}

fn acct(tokens: &[u16]) -> MangoAccount {
    let mut a = MangoAccount::new(Pubkey { lo: 1, hi: 0 }, Pubkey { lo: 2, hi: 0 }, 0, 8, 4, 4, 4);
    for (i, t) in tokens.iter().enumerate() {
        a.tokens[i] = TokenPosition { indexed_position: ONE, token_index: *t, active: true };
    }
    a
}

#[test]
fn liquidation_health_tokens_are_unique_in_order() {
    let liqee = acct(&[3, 1]);
    let mut liqor = acct(&[1, 5, 3]);
    liqor.tokens[1].active = false;
    let r = liquidation_health_tokens(&liqee, &liqor, 1, 3);
    assert_eq!(r, vec![(3, true), (1, true)]);
    let r = liquidation_health_tokens(&liqee, &acct(&[0, 7]), 7, 9);
    assert_eq!(r, vec![(3, false), (1, false), (0, false), (7, true)]);
}

#[test]
fn active_perp_markets_in_slot_order() {
    let mut a = acct(&[]);
    let p = PerpPosition {
        market_index: 4,
        base_position_lots: 0,
        quote_position_native: 0,
        bids_base_lots: 0,
        asks_base_lots: 0,
        active: true,
    };
    a.perps[1] = p;
    a.perps[3] = PerpPosition { market_index: 2, ..p };
    assert_eq!(active_perp_markets(&a), vec![4, 2]);
}

#[test]
fn next_account_num_follows_the_largest() {
    assert_eq!(next_account_num(&vec![]), Some(0));
    assert_eq!(next_account_num(&vec![0, 4, 2]), Some(5));
    assert_eq!(next_account_num(&vec![u32::MAX]), None);
}

#[test]
fn fee_tiers() {
    assert_eq!(serum_fee_tier(0, 0), 0);
    assert_eq!(serum_fee_tier(0, 100), 1);
    assert_eq!(serum_fee_tier(0, 999_999), 4);
    assert_eq!(serum_fee_tier(0, 1_000_000), 5);
    assert_eq!(serum_fee_tier(1, 0), 6);
}

#[test]
fn first_route_avoiding_excluded_venue() {
    let routes = vec![
        vec!["Orca".to_string(), "Raydium AMM".to_string()],
        vec!["Serum".to_string()],
        vec!["Orca".to_string()],
    ];
    assert_eq!(first_usable_route(&routes, "Raydium"), Some(1));
    assert_eq!(first_usable_route(&routes[0..1].to_vec(), "Raydium"), None);
    assert_eq!(first_usable_route(&vec![], "Raydium"), None);
}

#[test]
fn test_determine_oracle_type_from_pyth_price_ai() {
    let mut pyth_price_data = pyth_bytes(32112500000);
    pyth_price_data[40..48].copy_from_slice(&64338667u64.to_le_bytes());
    assert!(determine_oracle_type(&pyth_price_data).unwrap() == OracleType::Pyth);
    // the loader reads in place and needs 8-byte alignment
    let mut words = vec![0u64; pyth_price_data.len() / 8];
    bytemuck::cast_slice_mut::<u64, u8>(&mut words).copy_from_slice(&pyth_price_data);
    let price = pyth_client::load_price(bytemuck::cast_slice::<u64, u8>(&words)).unwrap();
    assert_eq!(price.valid_slot, 64338667);
    assert_eq!(price.agg.price, 32112500000);
}

#[test]
fn stale_oracles_fail_closed() {
    let stub = stub_bytes(ONE);
    assert_eq!(oracle_price_fresh(&stub, 1300, 0, 100, 0), Ok(ONE));
    assert_eq!(oracle_price_fresh(&stub, 1335, 0, 100, 0), Err(MangoError::StaleOracle));
    let mut pyth = pyth_bytes(7);
    pyth[40..48].copy_from_slice(&1000u64.to_le_bytes());
    assert_eq!(oracle_price_fresh(&pyth, 0, 1020, 0, 25), Ok(7 * ONE));
    assert_eq!(oracle_price_fresh(&pyth, 0, 1026, 0, 25), Err(MangoError::StaleOracle));
}

#[test]
fn pyth_bytes_at_an_odd_address_decode() {
    let d = pyth_bytes(42);
    let mut shifted = vec![0u8];
    shifted.extend_from_slice(&d);
    assert_eq!(oracle_price(&shifted[1..]), Ok(42 * ONE));
}

#[test]
fn liquidation_health_accounts_in_fixed_order() {
    let mut liqee = acct(&[3, 1]);
    let liqor = acct(&[1, 5]);
    liqee.perps[0] = PerpPosition {
        market_index: 9,
        base_position_lots: 0,
        quote_position_native: 0,
        bids_base_lots: 0,
        asks_base_lots: 0,
        active: true,
    };
    liqee.serum3[1] = Serum3Orders { market_index: 2, base_token_index: 3, quote_token_index: 1, active: true };
    let r = liquidation_health_accounts(&liqee, &liqor, 3, 1);
    assert_eq!(
        r,
        vec![
            HealthAccountRef::Bank { token_index: 3, writable: true },
            HealthAccountRef::Bank { token_index: 1, writable: true },
            HealthAccountRef::Bank { token_index: 5, writable: false },
            HealthAccountRef::Oracle { token_index: 3 },
            HealthAccountRef::Oracle { token_index: 1 },
            HealthAccountRef::Oracle { token_index: 5 },
            HealthAccountRef::PerpMarket { market_index: 9 },
            HealthAccountRef::OpenOrders { of_liqor: false, market_index: 2 },
        ]
    );
}

#[test]
fn open_order_ids_skip_empty_slots() {
    assert_eq!(open_order_ids(&vec![0, 17, 0, 5]), vec![17, 5]);
    assert_eq!(open_order_ids(&vec![0, 0]), Vec::<u128>::new());
}

#[test]
fn token_info_takes_a_fresh_oracle_price() {
    let bank = TokenInfo {
        token_index: 2,
        deposit_index: ONE,
        borrow_index: ONE,
        oracle_price: 0,
        init_asset_weight: ONE,
        init_liab_weight: ONE,
        maint_asset_weight: ONE,
        maint_liab_weight: ONE,
    };
    let stub = stub_bytes(5 * ONE);
    let i = TokenInfo::with_oracle(&bank, &stub, 1300, 0, 100, 0).unwrap();
    assert_eq!(i, TokenInfo { oracle_price: 5 * ONE, ..bank });
    assert_eq!(TokenInfo::with_oracle(&bank, &stub, 2000, 0, 100, 0), Err(MangoError::StaleOracle));
    assert_eq!(TokenInfo::with_oracle(&bank, &[0u8; 10], 0, 0, 100, 0), Err(MangoError::UnknownOracleType));
}
