//! Properties that relate the operations of the pool to one another.
use vstd::prelude::*;

use crate::crosschain::{borrow_gate, borrow_outcome, receive_outcome};
use crate::error::ErrorCode;
use crate::ledger::{
    deposit_outcome, liquidation_outcome, repay_outcome, valuation_of, withdraw_outcome,
};
use crate::risk::{
    health_factor_defined, health_factor_of, COOLDOWN_SECONDS, MAX_HEALTH_FACTOR,
    MIN_HEALTH_FACTOR, PRECISION,
};
use crate::state::{AssetInfo, InboundKey, Key, LendingPool, PeerConfig, PriceQuote, UserPosition};

verus! {

/// A deposit that goes through adds exactly its amount to the position's
/// collateral and to the asset's total deposits; a withdrawal that goes
/// through takes exactly its amount from both. Debts stay as they were.
pub proof fn lemma_collateral_moves_by_amount(pool: LendingPool, asset: AssetInfo, position: UserPosition, user: Key, amount: u64, quote: PriceQuote, now: i64)
    ensures
        ({
            let d = deposit_outcome(pool, asset, position, user, amount, quote, now);
            d is Ok ==> {
                &&& d->Ok_0.1.collateral_balance == position.collateral_balance + amount
                &&& d->Ok_0.0.total_deposits == asset.total_deposits + amount
                &&& d->Ok_0.1.borrow_balance == position.borrow_balance
                &&& d->Ok_0.0.total_borrows == asset.total_borrows
            }
        }),
        ({
            let w = withdraw_outcome(pool, asset, position, amount, quote, now);
            w is Ok ==> {
                &&& w->Ok_0.1.collateral_balance == position.collateral_balance - amount
                &&& w->Ok_0.0.total_deposits == asset.total_deposits - amount
                &&& w->Ok_0.1.borrow_balance == position.borrow_balance
                &&& w->Ok_0.0.total_borrows == asset.total_borrows
            }
        }),
{
}

/// After every borrow that goes through, the position's debt value is at
/// most its collateral value times the asset's loan-to-value ratio. A borrow
/// that would leave it above fails; once the request itself has passed its
/// checks, it fails with `InsufficientCollateral`.
pub proof fn lemma_borrow_within_ltv(pool: LendingPool, asset: AssetInfo, position: UserPosition, amount: u64, dest_chain: u32, quote: PriceQuote, now: i64)
    ensures
        ({
            let b = borrow_outcome(pool, asset, position, amount, dest_chain, quote, now);
            b is Ok ==> b->Ok_0.1.total_borrow_value_usd <= b->Ok_0.1.total_collateral_value_usd
                * asset.ltv / (PRECISION as int)
        }),
        ({
            let v = valuation_of(
                position.collateral_balance,
                (position.borrow_balance + amount) as u64,
                asset,
                quote,
            );
            let b = borrow_outcome(pool, asset, position, amount, dest_chain, quote, now);
            v is Ok && v->Ok_0.borrow_value_usd > v->Ok_0.collateral_value_usd * asset.ltv / (
            PRECISION as int) ==> {
                &&& b is Err
                &&& borrow_gate(pool, asset, position, amount, dest_chain, now) is None ==> b
                    == Err::<(AssetInfo, UserPosition), ErrorCode>(
                    ErrorCode::InsufficientCollateral,
                )
            }
        }),
{
}

/// Without debt the health factor is the sentinel, whatever the collateral.
pub proof fn lemma_health_factor_without_debt(collateral_usd: u128, threshold: u64)
    ensures
        health_factor_defined(collateral_usd, 0, threshold),
        health_factor_of(collateral_usd, 0, threshold) == MAX_HEALTH_FACTOR,
{
}

/// A liquidation goes through only on a position whose health factor is
/// below `MIN_HEALTH_FACTOR`; on a healthy position a valid request fails
/// with `LiquidationNotAllowed`.
pub proof fn lemma_liquidation_needs_unhealthy(asset: AssetInfo, position: UserPosition, debt_amount: u64, quote: PriceQuote)
    ensures
        ({
            let v = valuation_of(position.collateral_balance, position.borrow_balance, asset, quote);
            &&& liquidation_outcome(asset, position, debt_amount, quote) is Ok ==> v is Ok
                && v->Ok_0.health_factor < MIN_HEALTH_FACTOR
            &&& (0 < debt_amount <= position.borrow_balance && v is Ok && v->Ok_0.health_factor
                >= MIN_HEALTH_FACTOR) ==> liquidation_outcome(asset, position, debt_amount, quote)
                == Err::<(AssetInfo, UserPosition, u64), ErrorCode>(
                ErrorCode::LiquidationNotAllowed,
            )
        }),
{
}

/// Once a delivery `(src_eid, sender, nonce)` has been applied, the same
/// delivery is refused with `CrossChainFailed`, whatever the state of the
/// ledger it would apply to: its effects happen once.
pub proof fn lemma_replay_applies_once(before: LendingPool, after: LendingPool, peer: PeerConfig, src_eid: u32, sender: Key, nonce: u64, payload: Seq<u8>, asset: AssetInfo, position: UserPosition, quote: PriceQuote, later_asset: AssetInfo, later_position: UserPosition, later_quote: PriceQuote)
    requires
        receive_outcome(before, peer, src_eid, sender, nonce, payload, asset, position, quote) is Ok,
        after.processed_messages@ == before.processed_messages@.push(
            (InboundKey { src_eid, sender, nonce }),
        ),
        (LendingPool { processed_messages: before.processed_messages, ..after }) == before,
    ensures
        receive_outcome(
            after,
            peer,
            src_eid,
            sender,
            nonce,
            payload,
            later_asset,
            later_position,
            later_quote,
        ) == Err::<(AssetInfo, UserPosition, crate::wire::CrossChainMessage, u64), ErrorCode>(
            ErrorCode::CrossChainFailed,
        ),
{
    let last = before.processed_messages@.len() as int;
    assert(after.processed_messages@[last]@ == (src_eid, sender@, nonce));
    assert(after.has_processed(src_eid, sender@, nonce));
    assert(after.supported_chains == before.supported_chains);
}

/// A deposit within `COOLDOWN_SECONDS` of a deposit that went through fails
/// with `RateLimited`; from then on the cooldown no longer refuses it.
pub proof fn lemma_deposit_cooldown(pool: LendingPool, asset: AssetInfo, position: UserPosition, user: Key, amount: u64, quote: PriceQuote, now: i64, next_amount: u64, next_quote: PriceQuote, later: i64)
    requires
        deposit_outcome(pool, asset, position, user, amount, quote, now) is Ok,
        next_amount > 0,
    ensures
        ({
            let (a, p) = deposit_outcome(pool, asset, position, user, amount, quote, now)->Ok_0;
            let next = deposit_outcome(pool, a, p, user, next_amount, next_quote, later);
            &&& later < now + COOLDOWN_SECONDS ==> next == Err::<(AssetInfo, UserPosition), ErrorCode>(
                ErrorCode::RateLimited,
            )
            &&& later >= now + COOLDOWN_SECONDS ==> next != Err::<
                (AssetInfo, UserPosition),
                ErrorCode,
            >(ErrorCode::RateLimited)
        }),
{
}

/// Whether the asset totals moved by exactly what the position's balances
/// moved.
pub open spec fn totals_track(asset: AssetInfo, position: UserPosition, new_asset: AssetInfo, new_position: UserPosition) -> bool {
    &&& new_asset.total_deposits - asset.total_deposits == new_position.collateral_balance
        - position.collateral_balance
    &&& new_asset.total_borrows - asset.total_borrows == new_position.borrow_balance
        - position.borrow_balance
}

/// Every operation that goes through changes the asset's total deposits and
/// total borrows by exactly the change of the position's collateral and debt,
/// so the totals stay the sum of what the positions hold.
pub proof fn lemma_totals_track_positions(pool: LendingPool, asset: AssetInfo, position: UserPosition, user: Key, amount: u64, dest_chain: u32, peer: PeerConfig, src_eid: u32, sender: Key, nonce: u64, payload: Seq<u8>, quote: PriceQuote, now: i64)
    ensures
        deposit_outcome(pool, asset, position, user, amount, quote, now) matches Ok((a, p)) ==> totals_track(asset, position, a, p),
        withdraw_outcome(pool, asset, position, amount, quote, now) matches Ok((a, p)) ==> totals_track(asset, position, a, p),
        repay_outcome(pool, asset, position, amount, quote, now) matches Ok((a, p)) ==> totals_track(asset, position, a, p),
        borrow_outcome(pool, asset, position, amount, dest_chain, quote, now) matches Ok((a, p)) ==> totals_track(asset, position, a, p),
        liquidation_outcome(asset, position, amount, quote) matches Ok((a, p, _s)) ==> totals_track(asset, position, a, p),
        receive_outcome(pool, peer, src_eid, sender, nonce, payload, asset, position, quote) matches Ok((a, p, _m, _s)) ==> totals_track(asset, position, a, p),
{
}

} // verus!
