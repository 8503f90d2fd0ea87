use lending_pool::crosschain::{
    borrow_cross_chain, calculate_message_fee, delivery_guid, layerzero_receive, lz_receive,
    lz_receive_types, send, LOCAL_CHAIN_ID,
};
use lending_pool::error::ErrorCode;
use lending_pool::fixed::mul_div;
use lending_pool::ledger::{add_supported_asset, deposit, liquidate, repay, withdraw};
use lending_pool::risk::{
    calculate_health_factor, calculate_liquidation_amount, calculate_usd_value, check_rate_limit,
    check_price, is_liquidatable, max_borrow, MAX_PRICE_AGE_SECONDS, LIQUIDATION_BONUS, LIQUIDATION_THRESHOLD, MAX_HEALTH_FACTOR,
    MAX_LTV, MIN_HEALTH_FACTOR, PRECISION,
};
use lending_pool::state::{
    AssetConfig, AssetInfo, InitStoreParams, OracleReading, Key, LendingPool, LzReceiveParams, OAppStore,
    PeerConfig, PriceQuote, SendParams, SendResult, UserPosition,
};
use lending_pool::wire::{decode_message, encode_message, CrossChainMessage, MessageAction};

const ADMIN: Key = [1u8; 32];
const MINT: Key = [2u8; 32];
const USER: Key = [3u8; 32];
const PEER: Key = [4u8; 32];
const LIQUIDATOR: Key = [5u8; 32];
const START: i64 = 1_700_000_000;
const ONE_DOLLAR: u64 = 100_000_000;
const UNIT: u64 = 1_000_000;

fn pool() -> LendingPool {
    LendingPool::initialize(ADMIN, [9u8; 32], [8u8; 32], [7u8; 32], 255)
}

fn asset() -> AssetInfo {
    let mut p = pool();
    let config = AssetConfig {
        price_feed: [6u8; 32],
        ltv: MAX_LTV,
        liquidation_threshold: LIQUIDATION_THRESHOLD,
        can_be_collateral: true,
        can_be_borrowed: true,
    };
    add_supported_asset(&mut p, ADMIN, MINT, 6, config, 254).unwrap().0
}

fn dollar() -> PriceQuote {
    PriceQuote { collateral_price: ONE_DOLLAR, borrow_price: ONE_DOLLAR }
}

/// A pool, an asset and a position holding 1000 units of collateral.
fn funded() -> (LendingPool, AssetInfo, UserPosition) {
    let p = pool();
    let mut a = asset();
    let mut pos = UserPosition::new(1);
    deposit(&p, &mut a, &mut pos, USER, 1000 * UNIT, &dollar(), START).unwrap();
    (p, a, pos)
}

fn message(action: MessageAction, amount: u64) -> CrossChainMessage {
    CrossChainMessage {
        action,
        user: USER,
        amount,
        asset: MINT,
        timestamp: START,
        source_chain: 40161,
        dest_chain: LOCAL_CHAIN_ID,
        receiver: [0u8; 32],
        nonce: 0,
    }
}

fn delivery(m: &CrossChainMessage, nonce: u64) -> LzReceiveParams {
    LzReceiveParams { src_eid: 40161, sender: PEER, nonce, guid: [3u8; 32], message: encode_message(m) }
}

fn peer() -> PeerConfig {
    PeerConfig { eid: 40161, peer_address: PEER, bump: 0 }
}

#[test]
fn deposit_values_collateral_at_oracle_price() {
    let (_, a, pos) = funded();
    assert_eq!(pos.collateral_balance, 1000 * UNIT);
    assert_eq!(pos.total_collateral_value_usd, 1000 * PRECISION);
    assert_eq!(pos.health_factor, MAX_HEALTH_FACTOR);
    assert_eq!(pos.user, USER);
    assert_eq!(pos.last_action_timestamp, START);
    assert_eq!(a.total_deposits, 1000 * UNIT);
}

#[test]
fn borrow_within_ltv_succeeds() {
    let (mut p, mut a, mut pos) = funded();
    let r = borrow_cross_chain(&mut p, &mut a, &mut pos, 700 * UNIT, 40161, PEER, &dollar(), START + 900)
        .unwrap();
    assert_eq!(pos.borrow_balance, 700 * UNIT);
    assert_eq!(pos.total_borrow_value_usd, 700 * PRECISION);
    assert!(pos.total_borrow_value_usd <= max_borrow(pos.total_collateral_value_usd, a.ltv).unwrap());
    assert_eq!(a.total_borrows, 700 * UNIT);
    assert_eq!(p.message_nonce, 1);
    assert_eq!(r.message.nonce, 0);
    assert_eq!(r.message.action, MessageAction::Borrow);
    assert_eq!(r.message.source_chain, LOCAL_CHAIN_ID);
    assert_eq!(r.message.dest_chain, 40161);
    assert_eq!(r.message.amount, 700 * UNIT);
    // 1000 * 0.95 / 700
    assert_eq!(pos.health_factor, 1_357_142_857_142_857_142);
    assert_eq!(r.event.health_factor, pos.health_factor);
    assert_eq!(decode_message(&r.payload).unwrap().amount, 700 * UNIT);
}

#[test]
fn borrow_above_ltv_fails_and_changes_nothing() {
    let (mut p, mut a, mut pos) = funded();
    let (p0, a0, pos0) = (p.clone(), a, pos);
    let r = borrow_cross_chain(&mut p, &mut a, &mut pos, 760 * UNIT, 40161, PEER, &dollar(), START + 900);
    assert_eq!(r.unwrap_err(), ErrorCode::InsufficientCollateral);
    assert_eq!(pos.borrow_balance, pos0.borrow_balance);
    assert_eq!(pos.health_factor, pos0.health_factor);
    assert_eq!(a.total_borrows, a0.total_borrows);
    assert_eq!(p.message_nonce, p0.message_nonce);
}

#[test]
fn borrow_exactly_at_ceiling_succeeds() {
    let (mut p, mut a, mut pos) = funded();
    assert!(borrow_cross_chain(&mut p, &mut a, &mut pos, 750 * UNIT, 40161, PEER, &dollar(), START + 900).is_ok());
    assert_eq!(pos.total_borrow_value_usd, 750 * PRECISION);
}

#[test]
fn borrow_errors() {
    let (mut p, mut a, mut pos) = funded();
    let q = dollar();
    let t = START + 900;
    assert_eq!(borrow_cross_chain(&mut p, &mut a, &mut pos, 0, 40161, PEER, &q, t).unwrap_err(), ErrorCode::InvalidAmount);
    assert_eq!(borrow_cross_chain(&mut p, &mut a, &mut pos, 1, 1, PEER, &q, t).unwrap_err(), ErrorCode::ChainNotSupported);
    assert_eq!(borrow_cross_chain(&mut p, &mut a, &mut pos, 1, 40161, PEER, &q, START + 10).unwrap_err(), ErrorCode::RateLimited);
    let mut fresh = UserPosition::new(0);
    assert_eq!(borrow_cross_chain(&mut p, &mut a, &mut fresh, 1, 40161, PEER, &q, t).unwrap_err(), ErrorCode::PositionNotFound);
    let mut not_borrowable = a;
    not_borrowable.can_be_borrowed = false;
    assert_eq!(borrow_cross_chain(&mut p, &mut not_borrowable, &mut pos, 1, 40161, PEER, &q, t).unwrap_err(), ErrorCode::AssetNotSupported);
    p.pause(ADMIN).unwrap();
    assert_eq!(borrow_cross_chain(&mut p, &mut a, &mut pos, 1, 40161, PEER, &q, t).unwrap_err(), ErrorCode::NotAuthorized);
}

#[test]
fn health_factor_example_is_liquidatable() {
    let c = 100 * PRECISION;
    let b = 96 * PRECISION;
    let t = LIQUIDATION_THRESHOLD;
    let hf = calculate_health_factor(c, b, t).unwrap();
    assert_eq!(hf, 989_583_333_333_333_333);
    assert!(hf < MIN_HEALTH_FACTOR);
    assert!(is_liquidatable(c, b, t).unwrap());
    assert!(!is_liquidatable(100 * PRECISION, 95 * PRECISION, t).unwrap());
}

#[test]
fn health_factor_without_debt_is_sentinel() {
    for c in [0u128, 1, PRECISION, u128::MAX] {
        assert_eq!(calculate_health_factor(c, 0, LIQUIDATION_THRESHOLD), Ok(MAX_HEALTH_FACTOR));
    }
}

#[test]
fn health_factor_overflow_is_reported() {
    assert_eq!(calculate_health_factor(u128::MAX, 1, LIQUIDATION_THRESHOLD), Err(ErrorCode::MathOverflow));
}

#[test]
fn second_deposit_within_cooldown_is_rate_limited() {
    let (p, mut a, mut pos) = funded();
    let r = deposit(&p, &mut a, &mut pos, USER, UNIT, &dollar(), START + 899);
    assert_eq!(r.unwrap_err(), ErrorCode::RateLimited);
    assert_eq!(pos.collateral_balance, 1000 * UNIT);
    assert!(deposit(&p, &mut a, &mut pos, USER, UNIT, &dollar(), START + 900).is_ok());
    assert_eq!(pos.collateral_balance, 1001 * UNIT);
    assert_eq!(a.total_deposits, 1001 * UNIT);
}

#[test]
fn rate_limit_boundary() {
    assert_eq!(check_rate_limit(100, 999), Err(ErrorCode::RateLimited));
    assert_eq!(check_rate_limit(100, 1000), Ok(()));
    assert_eq!(check_rate_limit(i64::MAX, i64::MAX), Err(ErrorCode::RateLimited));
}

#[test]
fn deposit_errors() {
    let mut p = pool();
    let mut a = asset();
    let mut pos = UserPosition::new(0);
    let q = dollar();
    assert_eq!(deposit(&p, &mut a, &mut pos, USER, 0, &q, START).unwrap_err(), ErrorCode::InvalidAmount);
    let mut no_collateral = a;
    no_collateral.can_be_collateral = false;
    assert_eq!(deposit(&p, &mut no_collateral, &mut pos, USER, 1, &q, START).unwrap_err(), ErrorCode::AssetNotSupported);
    let mut inactive = a;
    inactive.is_active = false;
    assert_eq!(deposit(&p, &mut inactive, &mut pos, USER, 1, &q, START).unwrap_err(), ErrorCode::AssetNotSupported);
    p.pause(ADMIN).unwrap();
    assert_eq!(deposit(&p, &mut a, &mut pos, USER, 1, &q, START).unwrap_err(), ErrorCode::NotAuthorized);
    assert_eq!(a.total_deposits, 0);
}

#[test]
fn withdraw_reduces_collateral_and_totals() {
    let (p, mut a, mut pos) = funded();
    let e = withdraw(&p, &mut a, &mut pos, 400 * UNIT, &dollar(), START + 900).unwrap();
    assert_eq!(e.amount, 400 * UNIT);
    assert_eq!(pos.collateral_balance, 600 * UNIT);
    assert_eq!(pos.total_collateral_value_usd, 600 * PRECISION);
    assert_eq!(a.total_deposits, 600 * UNIT);
}

#[test]
fn withdraw_errors() {
    let (mut p, mut a, mut pos) = funded();
    let q = dollar();
    let t = START + 900;
    assert_eq!(withdraw(&p, &mut a, &mut pos, 1001 * UNIT, &q, t).unwrap_err(), ErrorCode::InsufficientCollateral);
    borrow_cross_chain(&mut p, &mut a, &mut pos, 700 * UNIT, 40161, PEER, &q, t).unwrap();
    // 300 units left would back 700 of debt: 300 * 0.95 / 700 < 1.
    let r = withdraw(&p, &mut a, &mut pos, 700 * UNIT, &q, t + 900);
    assert_eq!(r.unwrap_err(), ErrorCode::HealthFactorTooLow);
    assert_eq!(pos.collateral_balance, 1000 * UNIT);
    assert_eq!(withdraw(&p, &mut a, &mut pos, 1, &q, t + 10).unwrap_err(), ErrorCode::RateLimited);
    assert_eq!(withdraw(&p, &mut a, &mut pos, 0, &q, t + 900).unwrap_err(), ErrorCode::InvalidAmount);
}

#[test]
fn repay_reduces_debt() {
    let (mut p, mut a, mut pos) = funded();
    let q = dollar();
    borrow_cross_chain(&mut p, &mut a, &mut pos, 500 * UNIT, 40161, PEER, &q, START + 900).unwrap();
    assert_eq!(repay(&p, &mut a, &mut pos, 600 * UNIT, &q, START + 1800).unwrap_err(), ErrorCode::InvalidAmount);
    repay(&p, &mut a, &mut pos, 500 * UNIT, &q, START + 1800).unwrap();
    assert_eq!(pos.borrow_balance, 0);
    assert_eq!(pos.health_factor, MAX_HEALTH_FACTOR);
    assert_eq!(a.total_borrows, 0);
    let mut fresh = UserPosition::new(0);
    assert_eq!(repay(&p, &mut a, &mut fresh, 1, &q, START).unwrap_err(), ErrorCode::PositionNotFound);
}

#[test]
fn liquidation_of_healthy_position_is_refused() {
    let (mut p, mut a, mut pos) = funded();
    borrow_cross_chain(&mut p, &mut a, &mut pos, 700 * UNIT, 40161, PEER, &dollar(), START + 900).unwrap();
    let before = pos;
    let r = liquidate(&mut a, &mut pos, LIQUIDATOR, USER, 100 * UNIT, &dollar());
    assert_eq!(r.unwrap_err(), ErrorCode::LiquidationNotAllowed);
    assert_eq!(pos.collateral_balance, before.collateral_balance);
    assert_eq!(pos.borrow_balance, before.borrow_balance);
    assert_eq!(a.total_borrows, 700 * UNIT);
}

#[test]
fn liquidation_of_unhealthy_position_seizes_with_bonus() {
    let (mut p, mut a, mut pos) = funded();
    borrow_cross_chain(&mut p, &mut a, &mut pos, 700 * UNIT, 40161, PEER, &dollar(), START + 900).unwrap();
    // Collateral falls to $0.70: 700 * 0.95 / 700 < 1.
    let q = PriceQuote { collateral_price: 70_000_000, borrow_price: ONE_DOLLAR };
    let e = liquidate(&mut a, &mut pos, LIQUIDATOR, USER, 100 * UNIT, &q).unwrap();
    // 100 units of debt at $1 plus 5%, paid in collateral at $0.70.
    assert_eq!(e.collateral_seized, 150 * UNIT);
    assert_eq!(pos.borrow_balance, 600 * UNIT);
    assert_eq!(pos.collateral_balance, 850 * UNIT);
    assert_eq!(a.total_borrows, 600 * UNIT);
    assert_eq!(a.total_deposits, 850 * UNIT);
    assert_eq!(e.health_factor, pos.health_factor);
    assert_eq!(liquidate(&mut a, &mut pos, LIQUIDATOR, USER, 0, &q).unwrap_err(), ErrorCode::InvalidAmount);
    assert_eq!(liquidate(&mut a, &mut pos, LIQUIDATOR, USER, 601 * UNIT, &q).unwrap_err(), ErrorCode::InvalidAmount);
}

#[test]
fn liquidation_needing_more_collateral_than_held_fails() {
    let (mut p, mut a, mut pos) = funded();
    borrow_cross_chain(&mut p, &mut a, &mut pos, 700 * UNIT, 40161, PEER, &dollar(), START + 900).unwrap();
    let q = PriceQuote { collateral_price: 10_000_000, borrow_price: ONE_DOLLAR };
    let r = liquidate(&mut a, &mut pos, LIQUIDATOR, USER, 700 * UNIT, &q);
    assert_eq!(r.unwrap_err(), ErrorCode::InsufficientCollateral);
}

#[test]
fn seize_amount_formula() {
    assert_eq!(calculate_liquidation_amount(100, 200, 100, LIQUIDATION_BONUS), Ok(210));
    assert_eq!(calculate_liquidation_amount(1, 1, 0, LIQUIDATION_BONUS), Err(ErrorCode::InvalidAmount));
    assert_eq!(calculate_liquidation_amount(u64::MAX, u64::MAX, 1, LIQUIDATION_BONUS), Err(ErrorCode::InvalidAmount));
}

#[test]
fn usd_value_formula() {
    assert_eq!(calculate_usd_value(1000 * UNIT, ONE_DOLLAR, 6), Ok(1000 * PRECISION));
    assert_eq!(calculate_usd_value(3, 250_000_000, 0), Ok(7_500_000_000_000_000_000));
    assert_eq!(calculate_usd_value(1, 1, 19), Err(ErrorCode::InvalidAmount));
    assert_eq!(calculate_usd_value(u64::MAX, u64::MAX, 0), Err(ErrorCode::InvalidAmount));
}

#[test]
fn max_borrow_formula() {
    assert_eq!(max_borrow(1000 * PRECISION, MAX_LTV), Ok(750 * PRECISION));
    assert_eq!(max_borrow(u128::MAX, u64::MAX), Err(ErrorCode::MathOverflow));
}

#[test]
fn mul_div_is_exact_beyond_128_bit_products() {
    assert_eq!(mul_div(1000 * PRECISION, 950_000_000_000_000_000, PRECISION), Some(950 * PRECISION));
    assert_eq!(mul_div(7, 3, 2), Some(10));
    assert_eq!(mul_div(u128::MAX, 1, 1), Some(u128::MAX));
    assert_eq!(mul_div(u128::MAX, 2, 1), None);
    assert_eq!(mul_div(u128::MAX, u64::MAX, u128::MAX), Some(u64::MAX as u128));
}

#[test]
fn replayed_delivery_applies_once() {
    let (mut p, mut a, mut pos) = funded();
    borrow_cross_chain(&mut p, &mut a, &mut pos, 500 * UNIT, 40161, PEER, &dollar(), START + 900).unwrap();
    let params = delivery(&message(MessageAction::Repay, 200 * UNIT), 7);
    let r = lz_receive(&mut p, &peer(), &params, &mut a, &mut pos, &dollar()).unwrap();
    assert_eq!(r.message.amount, 200 * UNIT);
    assert_eq!(r.clear.nonce, 7);
    assert_eq!(r.clear.message, params.message);
    assert_eq!(pos.borrow_balance, 300 * UNIT);
    assert_eq!(a.total_borrows, 300 * UNIT);
    let again = lz_receive(&mut p, &peer(), &params, &mut a, &mut pos, &dollar());
    assert_eq!(again.unwrap_err(), ErrorCode::CrossChainFailed);
    assert_eq!(pos.borrow_balance, 300 * UNIT);
    assert_eq!(a.total_borrows, 300 * UNIT);
    assert_eq!(p.processed_messages.len(), 1);
    let next = delivery(&message(MessageAction::Repay, 100 * UNIT), 8);
    lz_receive(&mut p, &peer(), &next, &mut a, &mut pos, &dollar()).unwrap();
    assert_eq!(pos.borrow_balance, 200 * UNIT);
}

#[test]
fn delivery_validation() {
    let (mut p, mut a, mut pos) = funded();
    borrow_cross_chain(&mut p, &mut a, &mut pos, 500 * UNIT, 40161, PEER, &dollar(), START + 900).unwrap();
    let q = dollar();
    let mut wrong_chain = delivery(&message(MessageAction::Repay, 1), 1);
    wrong_chain.src_eid = 1;
    assert_eq!(lz_receive(&mut p, &peer(), &wrong_chain, &mut a, &mut pos, &q).unwrap_err(), ErrorCode::ChainNotSupported);
    let mut wrong_sender = delivery(&message(MessageAction::Repay, 1), 1);
    wrong_sender.sender = [42u8; 32];
    assert_eq!(lz_receive(&mut p, &peer(), &wrong_sender, &mut a, &mut pos, &q).unwrap_err(), ErrorCode::CrossChainFailed);
    let mut garbage = delivery(&message(MessageAction::Repay, 1), 1);
    garbage.message.truncate(10);
    assert_eq!(lz_receive(&mut p, &peer(), &garbage, &mut a, &mut pos, &q).unwrap_err(), ErrorCode::CrossChainFailed);
    let borrow = delivery(&message(MessageAction::Borrow, 1), 1);
    assert_eq!(lz_receive(&mut p, &peer(), &borrow, &mut a, &mut pos, &q).unwrap_err(), ErrorCode::CrossChainFailed);
    let mut other_user = message(MessageAction::Repay, 1);
    other_user.user = [77u8; 32];
    assert_eq!(lz_receive(&mut p, &peer(), &delivery(&other_user, 1), &mut a, &mut pos, &q).unwrap_err(), ErrorCode::CrossChainFailed);
    assert_eq!(p.processed_messages.len(), 0);
    assert_eq!(pos.borrow_balance, 500 * UNIT);
    p.pause(ADMIN).unwrap();
    let ok = delivery(&message(MessageAction::Repay, 1), 1);
    assert_eq!(layerzero_receive(&mut p, &peer(), &ok, &mut a, &mut pos, &q).unwrap_err(), ErrorCode::NotAuthorized);
}

#[test]
fn inbound_liquidation_uses_message_amount() {
    let (mut p, mut a, mut pos) = funded();
    borrow_cross_chain(&mut p, &mut a, &mut pos, 700 * UNIT, 40161, PEER, &dollar(), START + 900).unwrap();
    let q = PriceQuote { collateral_price: 70_000_000, borrow_price: ONE_DOLLAR };
    let params = delivery(&message(MessageAction::Liquidate, 100 * UNIT), 3);
    let r = layerzero_receive(&mut p, &peer(), &params, &mut a, &mut pos, &q).unwrap();
    assert_eq!(r.collateral_seized, 150 * UNIT);
    assert_eq!(pos.borrow_balance, 600 * UNIT);
    let healthy = delivery(&message(MessageAction::Liquidate, 100 * UNIT), 4);
    let r = lz_receive(&mut p, &peer(), &healthy, &mut a, &mut pos, &dollar());
    assert_eq!(r.unwrap_err(), ErrorCode::LiquidationNotAllowed);
}

#[test]
fn encoding_matches_borsh_layout() {
    let m = CrossChainMessage {
        action: MessageAction::Liquidate,
        user: USER,
        amount: 123_456_789,
        asset: MINT,
        timestamp: -5,
        source_chain: 40168,
        dest_chain: 40231,
        receiver: PEER,
        nonce: 99,
    };
    let expected = borsh::to_vec(&(
        "liquidate".to_string(),
        USER,
        123_456_789u64,
        MINT,
        -5i64,
        40168u32,
        40231u32,
        PEER,
        99u64,
    ))
    .unwrap();
    let bytes = encode_message(&m);
    assert_eq!(bytes, expected);
    let back = decode_message(&bytes).unwrap();
    assert_eq!(back.action, MessageAction::Liquidate);
    assert_eq!(back.timestamp, -5);
    assert_eq!(back.nonce, 99);
    assert_eq!(back.receiver, PEER);
}

#[test]
fn decoding_rejects_unknown_actions() {
    let bad = borsh::to_vec(&(
        "withdraw".to_string(),
        USER,
        1u64,
        MINT,
        0i64,
        1u32,
        2u32,
        PEER,
        3u64,
    ))
    .unwrap();
    assert_eq!(decode_message(&bad).unwrap_err(), ErrorCode::CrossChainFailed);
    let mut long = encode_message(&message(MessageAction::Repay, 1));
    long.push(0);
    assert_eq!(decode_message(&long).unwrap_err(), ErrorCode::CrossChainFailed);
    assert_eq!(decode_message(&vec![]).unwrap_err(), ErrorCode::CrossChainFailed);
}

#[test]
fn send_checks_chain_and_fee() {
    let mut p = pool();
    let mut params = SendParams {
        dst_eid: 40245,
        receiver: PEER,
        message: vec![0u8; 50],
        options: vec![],
        native_fee: 1_005_000,
        lz_token_fee: 0,
    };
    assert_eq!(calculate_message_fee(&params).unwrap().native_fee, 1_005_000);
    let t = send(&mut p, &params).unwrap();
    assert_eq!(t.nonce, 0);
    assert_eq!(p.message_nonce, 1);
    params.native_fee = 1_004_999;
    assert_eq!(send(&mut p, &params).unwrap_err(), ErrorCode::InsufficientFee);
    params.native_fee = 2_000_000;
    params.dst_eid = 5;
    assert_eq!(send(&mut p, &params).unwrap_err(), ErrorCode::ChainNotSupported);
    assert_eq!(p.message_nonce, 1);
}

#[test]
fn guid_falls_back_to_nonce_and_time() {
    let given = SendResult { guid: Some([9u8; 32]), nonce: 0 };
    assert_eq!(delivery_guid(&given, 1, 2), [9u8; 32]);
    let none = SendResult { guid: None, nonce: 0 };
    let g = delivery_guid(&none, 0x0102, -1);
    assert_eq!(&g[0..8], &[2, 1, 0, 0, 0, 0, 0, 0]);
    assert_eq!(&g[8..16], &[255u8; 8]);
    assert_eq!(&g[16..32], &[0u8; 16]);
}

#[test]
fn receive_types_lists_three_accounts() {
    let r = lz_receive_types(&[1u8; 32], &[2u8; 32], &[3u8; 32]);
    assert_eq!(r.len(), 96);
    assert_eq!(r[0], 1);
    assert_eq!(r[32], 2);
    assert_eq!(r[95], 3);
}

#[test]
fn admin_actions() {
    let mut p = pool();
    assert!(p.is_supported(40161) && p.is_supported(40231) && p.is_supported(40245));
    assert_eq!(p.pause(USER).unwrap_err(), ErrorCode::NotAuthorized);
    p.pause(ADMIN).unwrap();
    assert!(p.is_paused);
    assert_eq!(p.pause(ADMIN).unwrap_err(), ErrorCode::NotAuthorized);
    p.unpause(ADMIN).unwrap();
    assert!(!p.is_paused);
    assert_eq!(p.unpause(ADMIN).unwrap_err(), ErrorCode::NotAuthorized);
    assert_eq!(p.add_supported_chain(USER, 7).unwrap_err(), ErrorCode::NotAuthorized);
    p.add_supported_chain(ADMIN, 7).unwrap();
    assert!(p.is_supported(7));
    p.add_supported_chain(ADMIN, 7).unwrap();
    assert_eq!(p.supported_chains.len(), 4);
    p.remove_supported_chain(ADMIN, 40231).unwrap();
    assert!(!p.is_supported(40231));
    assert_eq!(p.supported_chains, vec![40161, 40245, 7]);
    for c in 100..200u32 {
        if p.add_supported_chain(ADMIN, c).is_err() {
            assert_eq!(p.supported_chains.len(), 32);
            return;
        }
    }
    panic!("the allow-list never filled up");
}

#[test]
fn asset_registration_validates_config() {
    let mut p = pool();
    let mut config = AssetConfig {
        price_feed: [6u8; 32],
        ltv: MAX_LTV,
        liquidation_threshold: LIQUIDATION_THRESHOLD,
        can_be_collateral: true,
        can_be_borrowed: false,
    };
    let (info, event) = add_supported_asset(&mut p, ADMIN, MINT, 9, config, 3).unwrap();
    assert!(info.is_active && !info.can_be_borrowed);
    assert_eq!(info.decimals, 9);
    assert_eq!(event.ltv, MAX_LTV);
    assert_eq!(p.total_assets, 1);
    assert_eq!(add_supported_asset(&mut p, USER, MINT, 9, config, 3).unwrap_err(), ErrorCode::NotAuthorized);
    assert_eq!(add_supported_asset(&mut p, ADMIN, MINT, 9, config, 3).unwrap_err(), ErrorCode::AssetAlreadyRegistered);
    assert!(p.is_registered(&MINT) && !p.is_registered(&USER));
    add_supported_asset(&mut p, ADMIN, USER, 9, config, 3).unwrap();
    assert_eq!(p.total_assets, 2);
    config.ltv = LIQUIDATION_THRESHOLD + 1;
    assert_eq!(add_supported_asset(&mut p, ADMIN, MINT, 9, config, 3).unwrap_err(), ErrorCode::InvalidAmount);
    config.ltv = 0;
    assert_eq!(add_supported_asset(&mut p, ADMIN, MINT, 9, config, 3).unwrap_err(), ErrorCode::InvalidAmount);
    config.ltv = MAX_LTV;
    assert_eq!(add_supported_asset(&mut p, ADMIN, MINT, 19, config, 3).unwrap_err(), ErrorCode::InvalidAmount);
    assert_eq!(p.total_assets, 2);
}

#[test]
fn store_starts_unlinked() {
    let s = OAppStore::init_oapp_store(InitStoreParams { admin: ADMIN, endpoint: [9u8; 32] }, 4);
    assert_eq!(s.admin, ADMIN);
    assert_eq!(s.lending_pool, [0u8; 32]);
}

#[test]
fn oracle_readings_must_be_fresh_and_positive() {
    assert_eq!(check_price(5, START, START + MAX_PRICE_AGE_SECONDS), Ok(5));
    assert_eq!(check_price(5, START, START + MAX_PRICE_AGE_SECONDS + 1), Err(ErrorCode::InvalidPriceData));
    assert_eq!(check_price(0, START, START), Err(ErrorCode::InvalidPriceData));
    assert_eq!(check_price(5, START + 1, START), Err(ErrorCode::InvalidPriceData));
    let fresh = OracleReading { price: ONE_DOLLAR, published_at: START };
    let q = PriceQuote::from_oracle(fresh, OracleReading { price: 7, published_at: START - 3 }, START).unwrap();
    assert_eq!(q.collateral_price, ONE_DOLLAR);
    assert_eq!(q.borrow_price, 7);
    let stale = OracleReading { price: ONE_DOLLAR, published_at: START - 1000 };
    assert_eq!(PriceQuote::from_oracle(fresh, stale, START).unwrap_err(), ErrorCode::InvalidPriceData);
}
